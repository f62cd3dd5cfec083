//! What the alert rules promise across refreshes.

use vstd::prelude::*;
use crate::alerts::{
    AlertConfig, AlertKind, Locale, Metric, Reading, Snapshot, alert_text, any_wanted, effective_state,
    eval_metric, eval_metrics, eval_snapshot, eval_snapshots, evaluate_spec, fired_kinds,
    is_restored_kimi_row, metric_key, metric_name, pace_alert, period_moved, recorded_state,
    snapshot_watched,
};
use crate::metric_state::{MetricState, fresh_state, kept_after_forget, kept_key};
use crate::text::is_prefix_of;

verus! {

/// A metric observed for a watched progress row with a usable reading.
pub open spec fn observed(s: Snapshot, m: Metric) -> bool {
    m.kind@ == "progress"@ && !is_restored_kimi_row(s, m) && m.reading is Some
}

/// The first reading of a metric since launch is a silent baseline: it
/// raises no alert, whatever it shows.
pub proof fn lemma_first_reading_is_silent(
    states: Map<Seq<char>, MetricState>,
    s: Snapshot,
    m: Metric,
    cfg: AlertConfig,
)
    requires
        !states.contains_key(metric_key(s.id@, m.label@)),
    ensures
        eval_metric(states, s, m, cfg).1 == Seq::<(Seq<char>, Seq<char>)>::empty(),
{
    if observed(s, m) {
        let r = m.reading->0;
        assert(effective_state(fresh_state(), m.resets_at) == fresh_state());
        assert(fired_kinds(fresh_state(), m.resets_at, r, cfg) =~= Seq::<AlertKind>::empty());
        assert(eval_metric(states, s, m, cfg).1 =~= Seq::<(Seq<char>, Seq<char>)>::empty());
    }
}

/// The memory keys of the observed metrics among `ms`, in order.
pub open spec fn observed_keys(s: Snapshot, ms: Seq<Metric>) -> Seq<Seq<char>>
    decreases ms.len(),
{
    if ms.len() == 0 {
        Seq::empty()
    } else {
        observed_keys(s, ms.drop_last()) + (if observed(s, ms.last()) {
            seq![metric_key(s.id@, ms.last().label@)]
        } else {
            Seq::empty()
        })
    }
}

/// The memory keys of the observed metrics of the watched cards `ss`, in order.
pub open spec fn refresh_keys(ss: Seq<Snapshot>, cfg: AlertConfig) -> Seq<Seq<char>>
    decreases ss.len(),
{
    if ss.len() == 0 {
        Seq::empty()
    } else {
        refresh_keys(ss.drop_last(), cfg) + (if snapshot_watched(ss.last(), cfg) {
            observed_keys(ss.last(), ss.last().metrics@)
        } else {
            Seq::empty()
        })
    }
}

proof fn lemma_fresh_metrics_are_silent(
    states: Map<Seq<char>, MetricState>,
    s: Snapshot,
    ms: Seq<Metric>,
    cfg: AlertConfig,
)
    requires
        observed_keys(s, ms).no_duplicates(),
        forall|k: Seq<char>| observed_keys(s, ms).contains(k) ==> !states.contains_key(k),
    ensures
        eval_metrics(states, s, ms, cfg).1 == Seq::<(Seq<char>, Seq<char>)>::empty(),
        forall|k: Seq<char>| #[trigger] eval_metrics(states, s, ms, cfg).0.contains_key(k) <==> (
        states.contains_key(k) || observed_keys(s, ms).contains(k)),
    decreases ms.len(),
{
    if ms.len() > 0 {
        let pre = ms.drop_last();
        let m = ms.last();
        let kp = observed_keys(s, pre);
        let kall = observed_keys(s, ms);
        assert forall|k: Seq<char>| kp.contains(k) implies kall.contains(k) by {
            let i = choose|i: int| 0 <= i < kp.len() && kp[i] == k;
            assert(kall[i] == kp[i]);
        }
        assert(kp.no_duplicates()) by {
            assert forall|i: int, j: int| 0 <= i < kp.len() && 0 <= j < kp.len() && i != j implies kp[i] != kp[j] by {
                assert(kall[i] == kp[i] && kall[j] == kp[j]);
            }
        }
        lemma_fresh_metrics_are_silent(states, s, pre, cfg);
        let st = eval_metrics(states, s, pre, cfg).0;
        if observed(s, m) {
            let key = metric_key(s.id@, m.label@);
            assert(kall == kp.push(key));
            assert(kall[kp.len() as int] == key);
            assert(kall.contains(key));
            assert(!kp.contains(key)) by {
                if kp.contains(key) {
                    let i = choose|i: int| 0 <= i < kp.len() && kp[i] == key;
                    assert(kall[i] == key);
                }
            }
            assert(!st.contains_key(key));
            lemma_first_reading_is_silent(st, s, m, cfg);
            assert forall|k: Seq<char>| #[trigger] eval_metrics(states, s, ms, cfg).0.contains_key(k) <==> (
                states.contains_key(k) || kall.contains(k)) by {
                if kall.contains(k) && k != key {
                    let i = choose|i: int| 0 <= i < kall.len() && kall[i] == k;
                    assert(kp[i] == k);
                }
            }
        } else {
            assert(kall =~= kp);
        }
        assert(eval_metrics(states, s, ms, cfg).1 =~= Seq::<(Seq<char>, Seq<char>)>::empty());
    }
}

/// The first refresh after launch is a silent baseline: from an empty
/// memory, a refresh in which no observed metric key repeats raises no
/// alert.
pub proof fn lemma_first_refresh_is_silent(ss: Seq<Snapshot>, cfg: AlertConfig)
    requires
        refresh_keys(ss, cfg).no_duplicates(),
    ensures
        evaluate_spec(Map::<Seq<char>, MetricState>::empty(), ss, cfg).1 == Seq::<
            (Seq<char>, Seq<char>),
        >::empty(),
{
    lemma_fresh_refresh_is_silent(Map::<Seq<char>, MetricState>::empty(), ss, cfg);
}

proof fn lemma_fresh_refresh_is_silent(
    states: Map<Seq<char>, MetricState>,
    ss: Seq<Snapshot>,
    cfg: AlertConfig,
)
    requires
        refresh_keys(ss, cfg).no_duplicates(),
        forall|k: Seq<char>| refresh_keys(ss, cfg).contains(k) ==> !states.contains_key(k),
    ensures
        eval_snapshots(states, ss, cfg).1 == Seq::<(Seq<char>, Seq<char>)>::empty(),
        evaluate_spec(states, ss, cfg).1 == Seq::<(Seq<char>, Seq<char>)>::empty(),
        forall|k: Seq<char>| #[trigger] eval_snapshots(states, ss, cfg).0.contains_key(k) <==> (
        states.contains_key(k) || refresh_keys(ss, cfg).contains(k)),
    decreases ss.len(),
{
    if ss.len() > 0 {
        let pre = ss.drop_last();
        let s = ss.last();
        let kp = refresh_keys(pre, cfg);
        let kall = refresh_keys(ss, cfg);
        let ks = if snapshot_watched(s, cfg) {
            observed_keys(s, s.metrics@)
        } else {
            Seq::empty()
        };
        assert(kall == kp + ks);
        assert forall|k: Seq<char>| kp.contains(k) implies kall.contains(k) by {
            let i = choose|i: int| 0 <= i < kp.len() && kp[i] == k;
            assert(kall[i] == kp[i]);
        }
        assert forall|k: Seq<char>| ks.contains(k) implies kall.contains(k) by {
            let i = choose|i: int| 0 <= i < ks.len() && ks[i] == k;
            assert(kall[kp.len() + i] == ks[i]);
        }
        assert(kp.no_duplicates()) by {
            assert forall|i: int, j: int| 0 <= i < kp.len() && 0 <= j < kp.len() && i != j implies kp[i] != kp[j] by {
                assert(kall[i] == kp[i] && kall[j] == kp[j]);
            }
        }
        assert(ks.no_duplicates()) by {
            assert forall|i: int, j: int| 0 <= i < ks.len() && 0 <= j < ks.len() && i != j implies ks[i] != ks[j] by {
                assert(kall[kp.len() + i] == ks[i] && kall[kp.len() + j] == ks[j]);
            }
        }
        lemma_fresh_refresh_is_silent(states, pre, cfg);
        let st = eval_snapshots(states, pre, cfg).0;
        assert forall|k: Seq<char>| ks.contains(k) implies !st.contains_key(k) by {
            let j = choose|j: int| 0 <= j < ks.len() && ks[j] == k;
            assert(kall[kp.len() + j] == k);
            if kp.contains(k) {
                let i = choose|i: int| 0 <= i < kp.len() && kp[i] == k;
                assert(kall[i] == k);
            }
        }
        if snapshot_watched(s, cfg) {
            lemma_fresh_metrics_are_silent(st, s, s.metrics@, cfg);
        }
        assert forall|k: Seq<char>| #[trigger] eval_snapshots(states, ss, cfg).0.contains_key(k) <==> (
            states.contains_key(k) || kall.contains(k)) by {
            if kall.contains(k) {
                let i = choose|i: int| 0 <= i < kall.len() && kall[i] == k;
                if i < kp.len() {
                    assert(kp[i] == k);
                } else {
                    assert(ks[i - kp.len()] == k);
                }
            }
        }
        assert(eval_snapshots(states, ss, cfg).1 =~= Seq::<(Seq<char>, Seq<char>)>::empty());
    }
}

/// A reading whose reset time moved by more than ten minutes starts a new
/// period: the memory is wiped and the reading is a silent baseline.
pub proof fn lemma_new_period_is_silent(
    states: Map<Seq<char>, MetricState>,
    s: Snapshot,
    m: Metric,
    cfg: AlertConfig,
)
    requires
        states.contains_key(metric_key(s.id@, m.label@)),
        period_moved(states[metric_key(s.id@, m.label@)].resets_at, m.resets_at),
    ensures
        eval_metric(states, s, m, cfg).1 == Seq::<(Seq<char>, Seq<char>)>::empty(),
{
    if observed(s, m) {
        let r = m.reading->0;
        let prev = states[metric_key(s.id@, m.label@)];
        assert(fired_kinds(prev, m.resets_at, r, cfg) =~= Seq::<AlertKind>::empty());
        assert(eval_metric(states, s, m, cfg).1 =~= Seq::<(Seq<char>, Seq<char>)>::empty());
    }
}

/// Each alert fires once per state: a reading of a metric whose verdict and
/// "under 10%" flag match the previous reading of the same period raises
/// nothing.
pub proof fn lemma_unchanged_state_fires_nothing(
    states: Map<Seq<char>, MetricState>,
    s: Snapshot,
    before: Metric,
    again: Metric,
    cfg: AlertConfig,
)
    requires
        observed(s, before),
        again.label@ == before.label@,
        again.reading is Some,
        again.reading->0.pace == before.reading->0.pace,
        again.reading->0.almost_out == before.reading->0.almost_out,
        !period_moved(before.resets_at, again.resets_at),
    ensures
        eval_metric(eval_metric(states, s, before, cfg).0, s, again, cfg).1 == Seq::<
            (Seq<char>, Seq<char>),
        >::empty(),
{
    let after = eval_metric(states, s, before, cfg).0;
    if observed(s, again) {
        let r = again.reading->0;
        let key = metric_key(s.id@, again.label@);
        assert(after[key] == recorded_state(before.resets_at, before.reading->0));
        assert(fired_kinds(after[key], again.resets_at, r, cfg) =~= Seq::<AlertKind>::empty());
        assert(eval_metric(after, s, again, cfg).1 =~= Seq::<(Seq<char>, Seq<char>)>::empty());
    }
}

/// "Almost Out" re-arms when the metric recovers: after a reading with 10%
/// or more remaining, a reading under 10% in the same period raises it.
pub proof fn lemma_almost_out_rearms(
    states: Map<Seq<char>, MetricState>,
    s: Snapshot,
    recovered: Metric,
    low: Metric,
    cfg: AlertConfig,
)
    requires
        observed(s, recovered),
        observed(s, low),
        recovered.label@ == low.label@,
        !recovered.reading->0.almost_out,
        low.reading->0.almost_out,
        !period_moved(recovered.resets_at, low.resets_at),
        cfg.notify_almost_out,
    ensures
        eval_metric(eval_metric(states, s, recovered, cfg).0, s, low, cfg).1.contains(
            alert_text(AlertKind::AlmostOut, cfg.locale, metric_name(s, low), low.reading->0),
        ),
{
    let after = eval_metric(states, s, recovered, cfg).0;
    let key = metric_key(s.id@, low.label@);
    let r = low.reading->0;
    assert(after[key] == recorded_state(recovered.resets_at, recovered.reading->0));
    let kinds = fired_kinds(after[key], low.resets_at, r, cfg);
    let pk = match pace_alert(after[key], r, cfg) {
        Some(k) => seq![k],
        None => Seq::<AlertKind>::empty(),
    };
    assert(kinds == pk + seq![AlertKind::AlmostOut]);
    assert(kinds[kinds.len() - 1] == AlertKind::AlmostOut);
    let texts = eval_metric(after, s, low, cfg).1;
    assert(texts[kinds.len() - 1] == alert_text(
        AlertKind::AlmostOut,
        cfg.locale,
        metric_name(s, low),
        r,
    ));
}

/// A reading raises at most one pace alert ("Will Run Out" or "Cutting It
/// Close", never both) and at most one "Almost Out".
pub proof fn lemma_at_most_one_pace_alert(
    prev: MetricState,
    resets_at: Option<i64>,
    r: Reading,
    cfg: AlertConfig,
)
    ensures
        fired_kinds(prev, resets_at, r, cfg).len() <= 2,
        !(fired_kinds(prev, resets_at, r, cfg).contains(AlertKind::WillRunOut) && fired_kinds(
            prev,
            resets_at,
            r,
            cfg,
        ).contains(AlertKind::CuttingClose)),
{
    let kinds = fired_kinds(prev, resets_at, r, cfg);
    if kinds.contains(AlertKind::WillRunOut) && kinds.contains(AlertKind::CuttingClose) {
        let i = choose|i: int| 0 <= i < kinds.len() && kinds[i] == AlertKind::WillRunOut;
        let j = choose|j: int| 0 <= j < kinds.len() && kinds[j] == AlertKind::CuttingClose;
        assert(false);
    }
}

/// A card that failed to refresh, or a stale or switched-off sub2api card,
/// neither alerts nor counts as a baseline.
pub proof fn lemma_unwatched_card_changes_nothing(
    states: Map<Seq<char>, MetricState>,
    s: Snapshot,
    cfg: AlertConfig,
)
    requires
        !snapshot_watched(s, cfg),
    ensures
        eval_snapshot(states, s, cfg) == (states, Seq::<(Seq<char>, Seq<char>)>::empty()),
{
}

/// With every notification switched off nothing fires and nothing is
/// remembered.
pub proof fn lemma_all_off_is_inert(
    states: Map<Seq<char>, MetricState>,
    ss: Seq<Snapshot>,
    cfg: AlertConfig,
)
    requires
        !any_wanted(cfg),
    ensures
        evaluate_spec(states, ss, cfg) == (states, Seq::<(Seq<char>, Seq<char>)>::empty()),
{
}

/// Metrics of different cards never share alert memory while card ids hold
/// no `:`; within a card, different labels never do.
pub proof fn lemma_metric_keys_distinct(id: Seq<char>, label: Seq<char>, other: Seq<char>, other_label: Seq<char>)
    requires
        !id.contains(':'),
        !other.contains(':'),
        id != other || label != other_label,
    ensures
        metric_key(id, label) != metric_key(other, other_label),
{
    reveal_strlit(":");
    if id != other {
        lemma_colon_free_key_not_prefixed(id, other, other_label);
        let k = metric_key(id, label);
        assert(k.subrange(0, (id + ":"@).len() as int) =~= id + ":"@);
    } else {
        let k1 = metric_key(id, label);
        let k2 = metric_key(other, other_label);
        if k1 == k2 {
            let n = id.len() + 1;
            assert(k1.subrange(n as int, k1.len() as int) =~= label);
            assert(k2.subrange(n as int, k2.len() as int) =~= other_label);
        }
    }
}

proof fn lemma_colon_free_key_not_prefixed(id: Seq<char>, other: Seq<char>, label: Seq<char>)
    requires
        !id.contains(':'),
        !other.contains(':'),
        id != other,
    ensures
        !is_prefix_of(id + ":"@, metric_key(other, label)),
{
    reveal_strlit(":");
    let p = id + ":"@;
    let k = metric_key(other, label);
    if is_prefix_of(p, k) {
        assert(k.subrange(0, p.len() as int) == p);
        if id.len() < other.len() {
            assert(k[id.len() as int] == other[id.len() as int]);
            assert(p[id.len() as int] == ':');
            assert(other.contains(':'));
        } else if id.len() == other.len() {
            assert forall|i: int| 0 <= i < id.len() implies id[i] == other[i] by {
                assert(k[i] == other[i]);
                assert(p[i] == id[i]);
            }
            assert(id =~= other);
        } else {
            assert(k[other.len() as int] == ':');
            assert(p[other.len() as int] == id[other.len() as int]);
            assert(id.contains(':'));
        }
    }
}

/// Forgetting a card drops all of its metrics and, among cards whose ids
/// hold no `:`, only its metrics: `onenewapi@abc` does not wipe
/// `onenewapi@abcd`.
pub proof fn lemma_forget_drops_that_id_only(
    states: Map<Seq<char>, MetricState>,
    id: Seq<char>,
    label: Seq<char>,
    other: Seq<char>,
    other_label: Seq<char>,
)
    requires
        !id.contains(':'),
        !other.contains(':'),
        id != other,
    ensures
        !kept_after_forget(states, id).contains_key(metric_key(id, label)),
        kept_after_forget(states, id).contains_key(metric_key(other, other_label))
            == states.contains_key(metric_key(other, other_label)),
        states.contains_key(metric_key(other, other_label)) ==> kept_after_forget(states, id)[metric_key(
            other,
            other_label,
        )] == states[metric_key(other, other_label)],
{
    reveal_strlit(":");
    let own = metric_key(id, label);
    assert(own.subrange(0, (id + ":"@).len() as int) =~= id + ":"@);
    assert(!kept_key(id)(own));
    lemma_colon_free_key_not_prefixed(id, other, other_label);
    assert(kept_key(id)(metric_key(other, other_label)));
}

/// Forgetting a card spares every card whose id extends its id by more
/// than a `:`: forgetting `onenewapi@abc` keeps `onenewapi@abcd:Usage`
/// exactly as it was.
pub proof fn lemma_forget_spares_extended_id(
    states: Map<Seq<char>, MetricState>,
    id: Seq<char>,
    ext: Seq<char>,
    label: Seq<char>,
)
    requires
        ext.len() > 0,
        ext[0] != ':',
    ensures
        kept_after_forget(states, id).contains_key(metric_key(id + ext, label))
            == states.contains_key(metric_key(id + ext, label)),
        states.contains_key(metric_key(id + ext, label)) ==> kept_after_forget(states, id)[metric_key(
            id + ext,
            label,
        )] == states[metric_key(id + ext, label)],
{
    reveal_strlit(":");
    let k = metric_key(id + ext, label);
    assert(k[id.len() as int] == ext[0]);
    assert((id + ":"@)[id.len() as int] == ':');
    if is_prefix_of(id + ":"@, k) {
        assert(k.subrange(0, (id + ":"@).len() as int)[id.len() as int] == k[id.len() as int]);
    }
    assert(kept_key(id)(k));
}

proof fn lemma_middle_determined(p: Seq<char>, x: Seq<char>, y: Seq<char>, q: Seq<char>)
    requires
        p + x + q == p + y + q,
    ensures
        x == y,
{
    let lx = p + x + q;
    let ly = p + y + q;
    assert(lx.len() == ly.len());
    assert(x =~= lx.subrange(p.len() as int, (p.len() + x.len()) as int));
    assert(y =~= ly.subrange(p.len() as int, (p.len() + y.len()) as int));
}

/// In every locale the "Almost Out" text quotes the remaining percent
/// (`left`) of the reading and nothing else of it: readings with the same
/// remaining percent give the same text, whatever their projected spare or
/// pace, and readings with different remaining percents give different
/// bodies.
pub proof fn lemma_almost_out_quotes_left(locale: Locale, name: Seq<char>, r1: Reading, r2: Reading)
    ensures
        r1.left@ == r2.left@ ==> alert_text(AlertKind::AlmostOut, locale, name, r1) == alert_text(
            AlertKind::AlmostOut,
            locale,
            name,
            r2,
        ),
        r1.left@ != r2.left@ ==> alert_text(AlertKind::AlmostOut, locale, name, r1).1 != alert_text(
            AlertKind::AlmostOut,
            locale,
            name,
            r2,
        ).1,
{
    let b1 = alert_text(AlertKind::AlmostOut, locale, name, r1).1;
    let b2 = alert_text(AlertKind::AlmostOut, locale, name, r2).1;
    if r1.left@ != r2.left@ && b1 == b2 {
        match locale {
            Locale::Zh => lemma_middle_determined(name + " 剩余不足 10%（还剩 "@, r1.left@, r2.left@, "%）。"@),
            Locale::Ru => lemma_middle_determined(name + " осталось меньше 10% (ещё "@, r1.left@, r2.left@, "%)."@),
            Locale::En => lemma_middle_determined(name + " is under 10% remaining ("@, r1.left@, r2.left@, "% left)."@),
        }
    }
}

/// In every locale the "Cutting It Close" text quotes the projected spare
/// percent (`spare`) of the reading and nothing else of it, and the "Will
/// Run Out" text quotes nothing of the reading.
pub proof fn lemma_pace_texts_quote_spare_only(locale: Locale, name: Seq<char>, r1: Reading, r2: Reading)
    ensures
        r1.spare@ == r2.spare@ ==> alert_text(AlertKind::CuttingClose, locale, name, r1) == alert_text(
            AlertKind::CuttingClose,
            locale,
            name,
            r2,
        ),
        r1.spare@ != r2.spare@ ==> alert_text(AlertKind::CuttingClose, locale, name, r1).1 != alert_text(
            AlertKind::CuttingClose,
            locale,
            name,
            r2,
        ).1,
        alert_text(AlertKind::WillRunOut, locale, name, r1) == alert_text(AlertKind::WillRunOut, locale, name, r2),
{
    let b1 = alert_text(AlertKind::CuttingClose, locale, name, r1).1;
    let b2 = alert_text(AlertKind::CuttingClose, locale, name, r2).1;
    if r1.spare@ != r2.spare@ && b1 == b2 {
        match locale {
            Locale::Zh => lemma_middle_determined(name + " 按当前速度重置时大约只剩 "@, r1.spare@, r2.spare@, "%。"@),
            Locale::Ru => lemma_middle_determined(name + " к сбросу останется примерно "@, r1.spare@, r2.spare@, "%."@),
            Locale::En => lemma_middle_determined(name + " is on pace to finish with only ~"@, r1.spare@, r2.spare@, "% spare."@),
        }
    }
}

} // verus!
