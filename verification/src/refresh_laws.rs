//! What the alert rules promise of one metric across a whole refresh of all
//! cards. Each alert of a refresh is attributed to the memory key of the row
//! that raised it; the alert texts `evaluate` returns are exactly the texts
//! of these attributed alerts, in order.

use vstd::prelude::*;
use crate::alert_laws::observed;
use crate::alerts::{
    AlertConfig, AlertKind, Metric, Reading, Snapshot, Verdict, alert_text, almost_alert, any_wanted,
    effective_state, eval_metric, eval_metrics, eval_snapshots, evaluate_spec, fired_kinds,
    is_restored_kimi_row, metric_key, metric_name, pace_alert, period_moved, recorded_state,
    snapshot_watched,
};
use crate::metric_state::{MetricState, fresh_state};

verus! {

/// What a metric's memory holds before a reading: its state, or the state
/// of a metric nothing is known about.
pub open spec fn prior(states: Map<Seq<char>, MetricState>, k: Seq<char>) -> MetricState {
    if states.contains_key(k) {
        states[k]
    } else {
        fresh_state()
    }
}

/// An alert of kind `kind` raised by the row with memory key `key`, with its
/// (title, body).
pub open spec fn tag(key: Seq<char>, locale: crate::alerts::Locale, name: Seq<char>, r: Reading) -> spec_fn(
    AlertKind,
) -> (Seq<char>, AlertKind, (Seq<char>, Seq<char>)) {
    |kind: AlertKind| (key, kind, alert_text(kind, locale, name, r))
}

/// The alerts row `m` of card `s` raises against memory `states`,
/// attributed to its key.
pub open spec fn tagged_metric(
    states: Map<Seq<char>, MetricState>,
    s: Snapshot,
    m: Metric,
    cfg: AlertConfig,
) -> Seq<(Seq<char>, AlertKind, (Seq<char>, Seq<char>))> {
    if observed(s, m) {
        let key = metric_key(s.id@, m.label@);
        let r = m.reading->0;
        fired_kinds(prior(states, key), m.resets_at, r, cfg).map_values(
            tag(key, cfg.locale, metric_name(s, m), r),
        )
    } else {
        Seq::empty()
    }
}

/// The attributed alerts of the rows `ms` of card `s`, observed in order.
pub open spec fn tagged_metrics(
    states: Map<Seq<char>, MetricState>,
    s: Snapshot,
    ms: Seq<Metric>,
    cfg: AlertConfig,
) -> Seq<(Seq<char>, AlertKind, (Seq<char>, Seq<char>))>
    decreases ms.len(),
{
    if ms.len() == 0 {
        Seq::empty()
    } else {
        tagged_metrics(states, s, ms.drop_last(), cfg) + tagged_metric(
            eval_metrics(states, s, ms.drop_last(), cfg).0,
            s,
            ms.last(),
            cfg,
        )
    }
}

/// The attributed alerts of a refresh of the cards `ss`.
pub open spec fn tagged_refresh(
    states: Map<Seq<char>, MetricState>,
    ss: Seq<Snapshot>,
    cfg: AlertConfig,
) -> Seq<(Seq<char>, AlertKind, (Seq<char>, Seq<char>))>
    decreases ss.len(),
{
    if ss.len() == 0 {
        Seq::empty()
    } else {
        tagged_refresh(states, ss.drop_last(), cfg) + (if snapshot_watched(ss.last(), cfg) {
            tagged_metrics(
                eval_snapshots(states, ss.drop_last(), cfg).0,
                ss.last(),
                ss.last().metrics@,
                cfg,
            )
        } else {
            Seq::empty()
        })
    }
}

/// The (title, body) texts of attributed alerts.
pub open spec fn texts_of(t: Seq<(Seq<char>, AlertKind, (Seq<char>, Seq<char>))>) -> Seq<
    (Seq<char>, Seq<char>),
> {
    t.map_values(|x: (Seq<char>, AlertKind, (Seq<char>, Seq<char>))| x.2)
}

/// How many attributed alerts are of kind `kind` for key `k`.
pub open spec fn count_tag(
    t: Seq<(Seq<char>, AlertKind, (Seq<char>, Seq<char>))>,
    k: Seq<char>,
    kind: AlertKind,
) -> nat
    decreases t.len(),
{
    if t.len() == 0 {
        0
    } else {
        count_tag(t.drop_last(), k, kind) + (if t.last().0 == k && t.last().1 == kind {
            1nat
        } else {
            0nat
        })
    }
}

/// How many of `ks` are `kind`.
pub open spec fn kind_count(ks: Seq<AlertKind>, kind: AlertKind) -> nat
    decreases ks.len(),
{
    if ks.len() == 0 {
        0
    } else {
        kind_count(ks.drop_last(), kind) + (if ks.last() == kind {
            1nat
        } else {
            0nat
        })
    }
}

/// Row `b` of card `a` is observed in this refresh and keyed `k`.
pub open spec fn observed_at(ss: Seq<Snapshot>, cfg: AlertConfig, a: int, b: int, k: Seq<char>) -> bool {
    &&& 0 <= a < ss.len()
    &&& snapshot_watched(ss[a], cfg)
    &&& 0 <= b < ss[a].metrics@.len()
    &&& observed(ss[a], ss[a].metrics@[b])
    &&& metric_key(ss[a].id@, ss[a].metrics@[b].label@) == k
}

/// Two memories agree on key `k`.
pub open spec fn agree_at(m1: Map<Seq<char>, MetricState>, m2: Map<Seq<char>, MetricState>, k: Seq<char>) -> bool {
    m1.contains_key(k) == m2.contains_key(k) && (m1.contains_key(k) ==> m1[k] == m2[k])
}

proof fn lemma_count_concat(
    a: Seq<(Seq<char>, AlertKind, (Seq<char>, Seq<char>))>,
    b: Seq<(Seq<char>, AlertKind, (Seq<char>, Seq<char>))>,
    k: Seq<char>,
    kind: AlertKind,
)
    ensures
        count_tag(a + b, k, kind) == count_tag(a, k, kind) + count_tag(b, k, kind),
    decreases b.len(),
{
    if b.len() > 0 {
        lemma_count_concat(a, b.drop_last(), k, kind);
        assert((a + b).drop_last() =~= a + b.drop_last());
    } else {
        assert(a + b =~= a);
    }
}

proof fn lemma_texts_concat(
    a: Seq<(Seq<char>, AlertKind, (Seq<char>, Seq<char>))>,
    b: Seq<(Seq<char>, AlertKind, (Seq<char>, Seq<char>))>,
)
    ensures
        texts_of(a + b) == texts_of(a) + texts_of(b),
{
    assert(texts_of(a + b) =~= texts_of(a) + texts_of(b));
}

proof fn lemma_count_tagged(
    ks: Seq<AlertKind>,
    f: spec_fn(AlertKind) -> (Seq<char>, AlertKind, (Seq<char>, Seq<char>)),
    key: Seq<char>,
    k: Seq<char>,
    kind: AlertKind,
)
    requires
        forall|kd: AlertKind| #[trigger] f(kd).0 == key && f(kd).1 == kd,
    ensures
        count_tag(ks.map_values(f), k, kind) == (if key == k {
            kind_count(ks, kind)
        } else {
            0
        }),
    decreases ks.len(),
{
    if ks.len() > 0 {
        lemma_count_tagged(ks.drop_last(), f, key, k, kind);
        assert(ks.map_values(f).drop_last() =~= ks.drop_last().map_values(f));
        assert(ks.map_values(f).last() == f(ks.last()));
    } else {
        assert(ks.map_values(f) =~= Seq::<(Seq<char>, AlertKind, (Seq<char>, Seq<char>))>::empty());
    }
}

/// The attributed alerts of row `m` for key `k`, and what the row leaves in
/// the memory at `k`.
proof fn lemma_tagged_metric_at(
    states: Map<Seq<char>, MetricState>,
    s: Snapshot,
    m: Metric,
    cfg: AlertConfig,
    k: Seq<char>,
)
    ensures
        observed(s, m) && metric_key(s.id@, m.label@) == k ==> {
            &&& forall|kind: AlertKind| #[trigger] count_tag(tagged_metric(states, s, m, cfg), k, kind) == kind_count(
                fired_kinds(prior(states, k), m.resets_at, m.reading->0, cfg),
                kind,
            )
            &&& eval_metric(states, s, m, cfg).0.contains_key(k)
            &&& eval_metric(states, s, m, cfg).0[k] == recorded_state(m.resets_at, m.reading->0)
        },
        !(observed(s, m) && metric_key(s.id@, m.label@) == k) ==> {
            &&& forall|kind: AlertKind| #[trigger] count_tag(tagged_metric(states, s, m, cfg), k, kind) == 0
            &&& agree_at(eval_metric(states, s, m, cfg).0, states, k)
        },
        eval_metric(states, s, m, cfg).1 == texts_of(tagged_metric(states, s, m, cfg)),
{
    if observed(s, m) {
        let key = metric_key(s.id@, m.label@);
        let r = m.reading->0;
        let f = tag(key, cfg.locale, metric_name(s, m), r);
        let ks = fired_kinds(prior(states, key), m.resets_at, r, cfg);
        assert forall|kind: AlertKind| #[trigger] count_tag(tagged_metric(states, s, m, cfg), k, kind) == (if key == k {
            kind_count(ks, kind)
        } else {
            0
        }) by {
            lemma_count_tagged(ks, f, key, k, kind);
        }
        assert(eval_metric(states, s, m, cfg).1 =~= texts_of(tagged_metric(states, s, m, cfg)));
    } else {
        assert(texts_of(tagged_metric(states, s, m, cfg)) =~= Seq::<(Seq<char>, Seq<char>)>::empty());
        assert forall|kind: AlertKind| #[trigger] count_tag(tagged_metric(states, s, m, cfg), k, kind) == 0 by {
        }
    }
}

proof fn lemma_metrics_untouched(
    states: Map<Seq<char>, MetricState>,
    s: Snapshot,
    ms: Seq<Metric>,
    cfg: AlertConfig,
    k: Seq<char>,
)
    requires
        forall|j: int| 0 <= j < ms.len() ==> !(observed(s, #[trigger] ms[j]) && metric_key(s.id@, ms[j].label@) == k),
    ensures
        forall|kind: AlertKind| #[trigger] count_tag(tagged_metrics(states, s, ms, cfg), k, kind) == 0,
        agree_at(eval_metrics(states, s, ms, cfg).0, states, k),
    decreases ms.len(),
{
    if ms.len() > 0 {
        let pre = ms.drop_last();
        assert forall|j: int| 0 <= j < pre.len() implies !(observed(s, #[trigger] pre[j]) && metric_key(s.id@, pre[j].label@) == k) by {
            assert(pre[j] == ms[j]);
        }
        lemma_metrics_untouched(states, s, pre, cfg, k);
        let st = eval_metrics(states, s, pre, cfg).0;
        assert(ms.last() == ms[ms.len() - 1]);
        lemma_tagged_metric_at(st, s, ms.last(), cfg, k);
        assert forall|kind: AlertKind| #[trigger] count_tag(tagged_metrics(states, s, ms, cfg), k, kind) == 0 by {
            lemma_count_concat(tagged_metrics(states, s, pre, cfg), tagged_metric(st, s, ms.last(), cfg), k, kind);
        }
    }
}

proof fn lemma_metrics_once(
    states: Map<Seq<char>, MetricState>,
    s: Snapshot,
    ms: Seq<Metric>,
    cfg: AlertConfig,
    k: Seq<char>,
    b: int,
)
    requires
        0 <= b < ms.len(),
        observed(s, ms[b]),
        metric_key(s.id@, ms[b].label@) == k,
        forall|j: int| 0 <= j < ms.len() && j != b ==> !(observed(s, #[trigger] ms[j]) && metric_key(s.id@, ms[j].label@) == k),
    ensures
        forall|kind: AlertKind| #[trigger] count_tag(tagged_metrics(states, s, ms, cfg), k, kind) == kind_count(
            fired_kinds(prior(states, k), ms[b].resets_at, ms[b].reading->0, cfg),
            kind,
        ),
        eval_metrics(states, s, ms, cfg).0.contains_key(k),
        eval_metrics(states, s, ms, cfg).0[k] == recorded_state(ms[b].resets_at, ms[b].reading->0),
    decreases ms.len(),
{
    let pre = ms.drop_last();
    let last = ms.last();
    let n = ms.len() - 1;
    assert(last == ms[n]);
    if b == n {
        assert forall|j: int| 0 <= j < pre.len() implies !(observed(s, #[trigger] pre[j]) && metric_key(s.id@, pre[j].label@) == k) by {
            assert(pre[j] == ms[j]);
        }
        lemma_metrics_untouched(states, s, pre, cfg, k);
        let st = eval_metrics(states, s, pre, cfg).0;
        assert(prior(st, k) == prior(states, k));
        lemma_tagged_metric_at(st, s, last, cfg, k);
        assert forall|kind: AlertKind| #[trigger] count_tag(tagged_metrics(states, s, ms, cfg), k, kind) == kind_count(
            fired_kinds(prior(states, k), ms[b].resets_at, ms[b].reading->0, cfg),
            kind,
        ) by {
            lemma_count_concat(tagged_metrics(states, s, pre, cfg), tagged_metric(st, s, last, cfg), k, kind);
        }
    } else {
        assert(pre[b] == ms[b]);
        assert forall|j: int| 0 <= j < pre.len() && j != b implies !(observed(s, #[trigger] pre[j]) && metric_key(s.id@, pre[j].label@) == k) by {
            assert(pre[j] == ms[j]);
        }
        lemma_metrics_once(states, s, pre, cfg, k, b);
        let st = eval_metrics(states, s, pre, cfg).0;
        lemma_tagged_metric_at(st, s, last, cfg, k);
        assert forall|kind: AlertKind| #[trigger] count_tag(tagged_metrics(states, s, ms, cfg), k, kind) == kind_count(
            fired_kinds(prior(states, k), ms[b].resets_at, ms[b].reading->0, cfg),
            kind,
        ) by {
            lemma_count_concat(tagged_metrics(states, s, pre, cfg), tagged_metric(st, s, last, cfg), k, kind);
        }
    }
}

proof fn lemma_metrics_texts(
    states: Map<Seq<char>, MetricState>,
    s: Snapshot,
    ms: Seq<Metric>,
    cfg: AlertConfig,
)
    ensures
        eval_metrics(states, s, ms, cfg).1 == texts_of(tagged_metrics(states, s, ms, cfg)),
    decreases ms.len(),
{
    if ms.len() > 0 {
        let pre = ms.drop_last();
        lemma_metrics_texts(states, s, pre, cfg);
        let st = eval_metrics(states, s, pre, cfg).0;
        lemma_tagged_metric_at(st, s, ms.last(), cfg, Seq::empty());
        lemma_texts_concat(tagged_metrics(states, s, pre, cfg), tagged_metric(st, s, ms.last(), cfg));
    } else {
        assert(texts_of(tagged_metrics(states, s, ms, cfg)) =~= Seq::<(Seq<char>, Seq<char>)>::empty());
    }
}

/// The alert texts of a refresh are exactly the texts of its attributed
/// alerts, in order.
pub proof fn lemma_refresh_texts(states: Map<Seq<char>, MetricState>, ss: Seq<Snapshot>, cfg: AlertConfig)
    ensures
        eval_snapshots(states, ss, cfg).1 == texts_of(tagged_refresh(states, ss, cfg)),
        any_wanted(cfg) ==> evaluate_spec(states, ss, cfg).1 == texts_of(tagged_refresh(states, ss, cfg)),
    decreases ss.len(),
{
    if ss.len() > 0 {
        let pre = ss.drop_last();
        lemma_refresh_texts(states, pre, cfg);
        let st = eval_snapshots(states, pre, cfg).0;
        let last = ss.last();
        let part = if snapshot_watched(last, cfg) {
            tagged_metrics(st, last, last.metrics@, cfg)
        } else {
            Seq::empty()
        };
        if snapshot_watched(last, cfg) {
            lemma_metrics_texts(st, last, last.metrics@, cfg);
        } else {
            assert(texts_of(part) =~= Seq::<(Seq<char>, Seq<char>)>::empty());
        }
        lemma_texts_concat(tagged_refresh(states, pre, cfg), part);
    } else {
        assert(texts_of(tagged_refresh(states, ss, cfg)) =~= Seq::<(Seq<char>, Seq<char>)>::empty());
    }
}

proof fn lemma_refresh_untouched(
    states: Map<Seq<char>, MetricState>,
    ss: Seq<Snapshot>,
    cfg: AlertConfig,
    k: Seq<char>,
)
    requires
        forall|a: int, b: int| !observed_at(ss, cfg, a, b, k),
    ensures
        forall|kind: AlertKind| #[trigger] count_tag(tagged_refresh(states, ss, cfg), k, kind) == 0,
        agree_at(eval_snapshots(states, ss, cfg).0, states, k),
    decreases ss.len(),
{
    if ss.len() > 0 {
        let pre = ss.drop_last();
        let last = ss.last();
        let n = ss.len() - 1;
        assert(last == ss[n]);
        assert forall|a: int, b: int| !observed_at(pre, cfg, a, b, k) by {
            if observed_at(pre, cfg, a, b, k) {
                assert(pre[a] == ss[a]);
                assert(observed_at(ss, cfg, a, b, k));
            }
        }
        lemma_refresh_untouched(states, pre, cfg, k);
        let st = eval_snapshots(states, pre, cfg).0;
        let part = if snapshot_watched(last, cfg) {
            tagged_metrics(st, last, last.metrics@, cfg)
        } else {
            Seq::empty()
        };
        if snapshot_watched(last, cfg) {
            assert forall|j: int| 0 <= j < last.metrics@.len() implies !(observed(last, #[trigger] last.metrics@[j]) && metric_key(last.id@, last.metrics@[j].label@) == k) by {
                assert(!observed_at(ss, cfg, n, j, k));
            }
            lemma_metrics_untouched(st, last, last.metrics@, cfg, k);
        }
        assert forall|kind: AlertKind| #[trigger] count_tag(tagged_refresh(states, ss, cfg), k, kind) == 0 by {
            lemma_count_concat(tagged_refresh(states, pre, cfg), part, k, kind);
        }
    }
}

proof fn lemma_refresh_once(
    states: Map<Seq<char>, MetricState>,
    ss: Seq<Snapshot>,
    cfg: AlertConfig,
    k: Seq<char>,
    a: int,
    b: int,
)
    requires
        observed_at(ss, cfg, a, b, k),
        forall|a2: int, b2: int| observed_at(ss, cfg, a2, b2, k) ==> a2 == a && b2 == b,
    ensures
        forall|kind: AlertKind| #[trigger] count_tag(tagged_refresh(states, ss, cfg), k, kind) == kind_count(
            fired_kinds(prior(states, k), ss[a].metrics@[b].resets_at, ss[a].metrics@[b].reading->0, cfg),
            kind,
        ),
        eval_snapshots(states, ss, cfg).0.contains_key(k),
        eval_snapshots(states, ss, cfg).0[k] == recorded_state(
            ss[a].metrics@[b].resets_at,
            ss[a].metrics@[b].reading->0,
        ),
    decreases ss.len(),
{
    let pre = ss.drop_last();
    let last = ss.last();
    let n = ss.len() - 1;
    assert(last == ss[n]);
    let m = ss[a].metrics@[b];
    if a == n {
        assert forall|a2: int, b2: int| !observed_at(pre, cfg, a2, b2, k) by {
            if observed_at(pre, cfg, a2, b2, k) {
                assert(pre[a2] == ss[a2]);
                assert(observed_at(ss, cfg, a2, b2, k));
            }
        }
        lemma_refresh_untouched(states, pre, cfg, k);
        let st = eval_snapshots(states, pre, cfg).0;
        assert(prior(st, k) == prior(states, k));
        assert forall|j: int| 0 <= j < last.metrics@.len() && j != b implies !(observed(last, #[trigger] last.metrics@[j]) && metric_key(last.id@, last.metrics@[j].label@) == k) by {
            if observed(last, last.metrics@[j]) && metric_key(last.id@, last.metrics@[j].label@) == k {
                assert(observed_at(ss, cfg, n, j, k));
            }
        }
        lemma_metrics_once(st, last, last.metrics@, cfg, k, b);
        assert forall|kind: AlertKind| #[trigger] count_tag(tagged_refresh(states, ss, cfg), k, kind) == kind_count(
            fired_kinds(prior(states, k), m.resets_at, m.reading->0, cfg),
            kind,
        ) by {
            lemma_count_concat(tagged_refresh(states, pre, cfg), tagged_metrics(st, last, last.metrics@, cfg), k, kind);
        }
    } else {
        assert(pre[a] == ss[a]);
        assert(observed_at(pre, cfg, a, b, k));
        assert forall|a2: int, b2: int| observed_at(pre, cfg, a2, b2, k) implies a2 == a && b2 == b by {
            assert(pre[a2] == ss[a2]);
            assert(observed_at(ss, cfg, a2, b2, k));
        }
        lemma_refresh_once(states, pre, cfg, k, a, b);
        let st = eval_snapshots(states, pre, cfg).0;
        let part = if snapshot_watched(last, cfg) {
            tagged_metrics(st, last, last.metrics@, cfg)
        } else {
            Seq::empty()
        };
        if snapshot_watched(last, cfg) {
            assert forall|j: int| 0 <= j < last.metrics@.len() implies !(observed(last, #[trigger] last.metrics@[j]) && metric_key(last.id@, last.metrics@[j].label@) == k) by {
                if observed(last, last.metrics@[j]) && metric_key(last.id@, last.metrics@[j].label@) == k {
                    assert(observed_at(ss, cfg, n, j, k));
                }
            }
            lemma_metrics_untouched(st, last, last.metrics@, cfg, k);
        }
        assert forall|kind: AlertKind| #[trigger] count_tag(tagged_refresh(states, ss, cfg), k, kind) == kind_count(
            fired_kinds(prior(states, k), m.resets_at, m.reading->0, cfg),
            kind,
        ) by {
            lemma_count_concat(tagged_refresh(states, pre, cfg), part, k, kind);
        }
    }
}

/// "Almost Out" re-arms after the metric recovers: when the memory of key
/// `k` holds a reading of this period that was not under 10% (a recovered
/// or baseline reading), and the refresh's one row keyed `k` now reads under
/// 10%, the refresh raises exactly one "Almost Out" for `k`, with the texts
/// `evaluate` returns being those of the attributed alerts.
pub proof fn lemma_refresh_rearms_almost_out(
    states: Map<Seq<char>, MetricState>,
    ss: Seq<Snapshot>,
    cfg: AlertConfig,
    k: Seq<char>,
    a: int,
    b: int,
)
    requires
        observed_at(ss, cfg, a, b, k),
        forall|a2: int, b2: int| observed_at(ss, cfg, a2, b2, k) ==> a2 == a && b2 == b,
        cfg.notify_almost_out,
        states.contains_key(k),
        states[k].seen,
        !states[k].almost_out,
        !period_moved(states[k].resets_at, ss[a].metrics@[b].resets_at),
        ss[a].metrics@[b].reading->0.almost_out,
    ensures
        count_tag(tagged_refresh(states, ss, cfg), k, AlertKind::AlmostOut) == 1,
        evaluate_spec(states, ss, cfg).1 == texts_of(tagged_refresh(states, ss, cfg)),
        evaluate_spec(states, ss, cfg).0[k] == recorded_state(
            ss[a].metrics@[b].resets_at,
            ss[a].metrics@[b].reading->0,
        ),
{
    let m = ss[a].metrics@[b];
    let r = m.reading->0;
    lemma_refresh_once(states, ss, cfg, k, a, b);
    lemma_refresh_texts(states, ss, cfg);
    let prev = prior(states, k);
    assert(effective_state(prev, m.resets_at) == prev);
    assert(almost_alert(prev, r, cfg));
    let pk = match pace_alert(prev, r, cfg) {
        Some(kd) => seq![kd],
        None => Seq::<AlertKind>::empty(),
    };
    let ks = fired_kinds(prev, m.resets_at, r, cfg);
    assert(ks == pk + seq![AlertKind::AlmostOut]);
    assert(ks.drop_last() =~= pk);
    match pace_alert(prev, r, cfg) {
        Some(kd) => {
            assert(pk.drop_last() =~= Seq::<AlertKind>::empty());
            assert(kind_count(pk.drop_last(), AlertKind::AlmostOut) == 0);
            assert(pk.last() == kd);
            assert(kd != AlertKind::AlmostOut);
        },
        None => {},
    }
    assert(kind_count(pk, AlertKind::AlmostOut) == 0);
}

/// A new reset period wipes the slate: when the refresh's one row keyed `k`
/// reports a reset time more than ten minutes from the remembered one, the
/// refresh raises no alert for `k`, and afterwards the memory of `k` holds
/// this reading's reset time and flags only.
pub proof fn lemma_refresh_new_period_wipes(
    states: Map<Seq<char>, MetricState>,
    ss: Seq<Snapshot>,
    cfg: AlertConfig,
    k: Seq<char>,
    a: int,
    b: int,
)
    requires
        observed_at(ss, cfg, a, b, k),
        forall|a2: int, b2: int| observed_at(ss, cfg, a2, b2, k) ==> a2 == a && b2 == b,
        any_wanted(cfg),
        states.contains_key(k),
        period_moved(states[k].resets_at, ss[a].metrics@[b].resets_at),
    ensures
        forall|kind: AlertKind| #[trigger] count_tag(tagged_refresh(states, ss, cfg), k, kind) == 0,
        evaluate_spec(states, ss, cfg).1 == texts_of(tagged_refresh(states, ss, cfg)),
        evaluate_spec(states, ss, cfg).0.contains_key(k),
        evaluate_spec(states, ss, cfg).0[k] == recorded_state(
            ss[a].metrics@[b].resets_at,
            ss[a].metrics@[b].reading->0,
        ),
{
    let m = ss[a].metrics@[b];
    let r = m.reading->0;
    lemma_refresh_once(states, ss, cfg, k, a, b);
    lemma_refresh_texts(states, ss, cfg);
    let ks = fired_kinds(prior(states, k), m.resets_at, r, cfg);
    assert(ks =~= Seq::<AlertKind>::empty());
    assert forall|kind: AlertKind| #[trigger] count_tag(tagged_refresh(states, ss, cfg), k, kind) == 0 by {
        assert(kind_count(ks, kind) == 0);
    }
}

/// A quota that worsens to "run out" is reported: when the memory of key
/// `k` holds a reading of this period whose verdict was on track or
/// cutting it close, and the refresh's one row keyed `k` is now
/// projected to run out with "Will Run Out" switched on, the refresh raises
/// exactly one "Will Run Out" for `k`, and its texts are those `evaluate`
/// returns.
pub proof fn lemma_refresh_rearms_will_run_out(
    states: Map<Seq<char>, MetricState>,
    ss: Seq<Snapshot>,
    cfg: AlertConfig,
    k: Seq<char>,
    a: int,
    b: int,
    prev_resets_at: Option<i64>,
    prev: Reading,
)
    requires
        observed_at(ss, cfg, a, b, k),
        forall|a2: int, b2: int| observed_at(ss, cfg, a2, b2, k) ==> a2 == a && b2 == b,
        cfg.notify_will_run_out,
        states.contains_key(k),
        states[k] == recorded_state(prev_resets_at, prev),
        prev.pace != Verdict::RunOut,
        !period_moved(prev_resets_at, ss[a].metrics@[b].resets_at),
        ss[a].metrics@[b].reading->0.pace == Verdict::RunOut,
    ensures
        count_tag(tagged_refresh(states, ss, cfg), k, AlertKind::WillRunOut) == 1,
        evaluate_spec(states, ss, cfg).1 == texts_of(tagged_refresh(states, ss, cfg)),
{
    let m = ss[a].metrics@[b];
    let r = m.reading->0;
    lemma_refresh_once(states, ss, cfg, k, a, b);
    lemma_refresh_texts(states, ss, cfg);
    let pv = prior(states, k);
    assert(effective_state(pv, m.resets_at) == pv);
    assert(pace_alert(pv, r, cfg) == Some(AlertKind::WillRunOut));
    let tail = if almost_alert(pv, r, cfg) {
        seq![AlertKind::AlmostOut]
    } else {
        Seq::<AlertKind>::empty()
    };
    let ks = fired_kinds(pv, m.resets_at, r, cfg);
    assert(ks == seq![AlertKind::WillRunOut] + tail);
    let one = seq![AlertKind::WillRunOut];
    assert(one.drop_last() =~= Seq::<AlertKind>::empty());
    assert(kind_count(one.drop_last(), AlertKind::WillRunOut) == 0);
    assert(kind_count(one, AlertKind::WillRunOut) == 1);
    if tail.len() == 1 {
        assert(ks.drop_last() =~= one);
        assert(ks.last() == AlertKind::AlmostOut);
    } else {
        assert(ks =~= one);
    }
}

/// Only restored rows are skipped: a progress row with a reading on a
/// watched card that carries no warning (live data, Kimi's API and
/// "Credits used" rows included) is judged like any other. When it is the
/// refresh's one row keyed `k`, the memory of `k` afterwards holds its
/// reading, and the alerts attributed to `k` are those its reading raises
/// against the memory of `k`.
pub proof fn lemma_live_rows_are_judged(
    states: Map<Seq<char>, MetricState>,
    ss: Seq<Snapshot>,
    cfg: AlertConfig,
    a: int,
    b: int,
)
    requires
        0 <= a < ss.len(),
        snapshot_watched(ss[a], cfg),
        !ss[a].has_warning,
        0 <= b < ss[a].metrics@.len(),
        ss[a].metrics@[b].kind@ == "progress"@,
        ss[a].metrics@[b].reading is Some,
        any_wanted(cfg),
        forall|a2: int, b2: int|
            observed_at(ss, cfg, a2, b2, metric_key(ss[a].id@, ss[a].metrics@[b].label@)) ==> a2 == a
                && b2 == b,
    ensures
        ({
            let m = ss[a].metrics@[b];
            let k = metric_key(ss[a].id@, m.label@);
            &&& evaluate_spec(states, ss, cfg).0.contains_key(k)
            &&& evaluate_spec(states, ss, cfg).0[k] == recorded_state(m.resets_at, m.reading->0)
            &&& forall|kind: AlertKind| #[trigger] count_tag(tagged_refresh(states, ss, cfg), k, kind)
                == kind_count(fired_kinds(prior(states, k), m.resets_at, m.reading->0, cfg), kind)
            &&& evaluate_spec(states, ss, cfg).1 == texts_of(tagged_refresh(states, ss, cfg))
        }),
{
    let m = ss[a].metrics@[b];
    let k = metric_key(ss[a].id@, m.label@);
    assert(!is_restored_kimi_row(ss[a], m));
    assert(observed(ss[a], m));
    assert(observed_at(ss, cfg, a, b, k));
    lemma_refresh_once(states, ss, cfg, k, a, b);
    lemma_refresh_texts(states, ss, cfg);
}

} // verus!
