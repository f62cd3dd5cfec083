//! Pace-based notification rules:
//! - "Almost Out": a metric drops under 10% remaining.
//! - "Cutting It Close": projected to finish the period with under 10% spare.
//! - "Will Run Out": projected to hit the limit before the reset.
//!
//! An alert fires only when a quota worsens while the app is running (the
//! first reading after launch is a silent baseline), fires once per state,
//! re-arms when the metric recovers, and the slate is wiped when a new reset
//! period begins.
//!
//! The percentages themselves are floating point; they reach this module
//! already classified as a [`Reading`] (the pace verdict, whether under 10%
//! remains, and the rounded figures the messages quote).

use vstd::prelude::*;
use crate::metric_state::{AlertStates, MetricState, fresh_state, kept_after_forget};
use crate::text::{is_prefix_of, str_eq, starts_with};

verus! {

/// The straight-line projection of a quota to its reset.
#[derive(Clone, Copy, PartialEq, Eq, Structural)]
pub enum Verdict {
    OnTrack,
    Close,
    RunOut,
}

/// The language alert texts are written in.
#[derive(Clone, Copy, PartialEq, Eq, Structural)]
pub enum Locale {
    Zh,
    Ru,
    En,
}

/// The three notifications.
#[derive(Clone, Copy, PartialEq, Eq, Structural)]
pub enum AlertKind {
    WillRunOut,
    CuttingClose,
    AlmostOut,
}

/// A usable percent-used observation of one metric, classified.
pub struct Reading {
    /// The pace verdict for the period.
    pub pace: Verdict,
    /// Under 10% of the quota remains.
    pub almost_out: bool,
    /// The projected spare percent at the reset, rounded for display.
    pub spare: String,
    /// The remaining percent, rounded for display.
    pub left: String,
}

/// One row of a provider card.
pub struct Metric {
    /// The row kind; only `"progress"` rows are watched.
    pub kind: String,
    /// The row label, part of the alert key.
    pub label: String,
    /// The label as shown to the user in the configured language.
    pub display_label: String,
    /// When the quota resets, in Unix milliseconds.
    pub resets_at: Option<i64>,
    /// The classified percent used; `None` when the row reports no finite,
    /// non-negative percentage.
    pub reading: Option<Reading>,
}

/// One provider card as last refreshed.
pub struct Snapshot {
    pub id: String,
    pub name: String,
    /// `"ok"` when the refresh succeeded.
    pub status: String,
    /// The card shows restored, not live, data.
    pub stale: bool,
    /// The card carries a warning.
    pub has_warning: bool,
    pub metrics: Vec<Metric>,
}

/// The notification settings.
pub struct AlertConfig {
    pub notify_almost_out: bool,
    pub notify_cutting_close: bool,
    pub notify_will_run_out: bool,
    /// The provider ids the user switched off.
    pub disabled: Vec<String>,
    pub locale: Locale,
}

/// A notification to show.
pub struct Alert {
    pub title: String,
    pub body: String,
}

/// The alert-memory key of a metric.
pub open spec fn metric_key(id: Seq<char>, label: Seq<char>) -> Seq<char> {
    id + ":"@ + label
}

/// A reset time that moved by more than ten minutes means a new period.
pub open spec fn period_moved(old: Option<i64>, new: Option<i64>) -> bool {
    match (old, new) {
        (Some(a), Some(b)) => a - b > 600_000 || b - a > 600_000,
        _ => false,
    }
}

/// The memory a reading is judged against: wiped when a new period began.
pub open spec fn effective_state(prev: MetricState, resets_at: Option<i64>) -> MetricState {
    if period_moved(prev.resets_at, resets_at) {
        fresh_state()
    } else {
        prev
    }
}

/// The memory kept after a reading.
pub open spec fn recorded_state(resets_at: Option<i64>, r: Reading) -> MetricState {
    MetricState {
        resets_at: resets_at,
        seen: true,
        almost_out: r.almost_out,
        close: r.pace == Verdict::Close,
        run_out: r.pace == Verdict::RunOut,
    }
}

/// The pace alert a reading raises against memory `b`, if any: "Will Run
/// Out" takes precedence over "Cutting It Close".
pub open spec fn pace_alert(b: MetricState, r: Reading, cfg: AlertConfig) -> Option<AlertKind> {
    if cfg.notify_will_run_out && r.pace == Verdict::RunOut && !b.run_out {
        Some(AlertKind::WillRunOut)
    } else if cfg.notify_cutting_close && r.pace == Verdict::Close && !b.close {
        Some(AlertKind::CuttingClose)
    } else {
        None
    }
}

/// Whether a reading raises "Almost Out" against memory `b`.
pub open spec fn almost_alert(b: MetricState, r: Reading, cfg: AlertConfig) -> bool {
    cfg.notify_almost_out && r.almost_out && !b.almost_out
}

/// The alerts a reading raises, in order, given the metric's memory `prev`.
pub open spec fn fired_kinds(
    prev: MetricState,
    resets_at: Option<i64>,
    r: Reading,
    cfg: AlertConfig,
) -> Seq<AlertKind> {
    let b = effective_state(prev, resets_at);
    if !b.seen {
        Seq::empty()
    } else {
        (match pace_alert(b, r, cfg) {
            Some(k) => seq![k],
            None => Seq::empty(),
        }) + (if almost_alert(b, r, cfg) {
            seq![AlertKind::AlmostOut]
        } else {
            Seq::empty()
        })
    }
}

/// The title of an alert.
pub open spec fn alert_title(kind: AlertKind, locale: Locale) -> Seq<char> {
    match kind {
        AlertKind::WillRunOut => match locale {
            Locale::Zh => "将会用完"@,
            Locale::Ru => "Кончится до сброса"@,
            Locale::En => "Will Run Out"@,
        },
        AlertKind::CuttingClose => match locale {
            Locale::Zh => "余量紧张"@,
            Locale::Ru => "Запас на исходе"@,
            Locale::En => "Cutting It Close"@,
        },
        AlertKind::AlmostOut => match locale {
            Locale::Zh => "即将用完"@,
            Locale::Ru => "Почти кончилось"@,
            Locale::En => "Almost Out"@,
        },
    }
}

/// The body of an alert about the metric called `name`.
pub open spec fn alert_body(kind: AlertKind, locale: Locale, name: Seq<char>, r: Reading) -> Seq<
    char,
> {
    match kind {
        AlertKind::WillRunOut => match locale {
            Locale::Zh => name + " 按当前速度会在重置前用完。"@,
            Locale::Ru => name + " при текущем темпе исчерпается до сброса."@,
            Locale::En => name + " is on pace to hit its limit before the reset."@,
        },
        AlertKind::CuttingClose => match locale {
            Locale::Zh => name + " 按当前速度重置时大约只剩 "@ + r.spare@ + "%。"@,
            Locale::Ru => name + " к сбросу останется примерно "@ + r.spare@ + "%."@,
            Locale::En => name + " is on pace to finish with only ~"@ + r.spare@ + "% spare."@,
        },
        AlertKind::AlmostOut => match locale {
            Locale::Zh => name + " 剩余不足 10%（还剩 "@ + r.left@ + "%）。"@,
            Locale::Ru => name + " осталось меньше 10% (ещё "@ + r.left@ + "%)."@,
            Locale::En => name + " is under 10% remaining ("@ + r.left@ + "% left)."@,
        },
    }
}

/// An alert as (title, body).
pub open spec fn alert_text(kind: AlertKind, locale: Locale, name: Seq<char>, r: Reading) -> (
    Seq<char>,
    Seq<char>,
) {
    (alert_title(kind, locale), alert_body(kind, locale, name, r))
}

/// Alerts as (title, body) pairs.
pub open spec fn alerts_view(alerts: Seq<Alert>) -> Seq<(Seq<char>, Seq<char>)> {
    alerts.map_values(|a: Alert| (a.title@, a.body@))
}

/// The name alerts give a metric: the card name and the shown label.
pub open spec fn metric_name(s: Snapshot, m: Metric) -> Seq<char> {
    s.name@ + " "@ + m.display_label@
}

/// Restored Kimi API rows are last-known, not live: they never alert.
pub open spec fn is_restored_kimi_row(s: Snapshot, m: Metric) -> bool {
    s.id@ == "kimi"@ && s.has_warning && (m.label@ == "API"@ || m.label@ == "Credits used"@)
}

/// The memory and alerts after observing metric `m` of card `s`.
pub open spec fn eval_metric(
    states: Map<Seq<char>, MetricState>,
    s: Snapshot,
    m: Metric,
    cfg: AlertConfig,
) -> (Map<Seq<char>, MetricState>, Seq<(Seq<char>, Seq<char>)>) {
    if m.kind@ != "progress"@ || is_restored_kimi_row(s, m) {
        (states, Seq::empty())
    } else {
        match m.reading {
            None => (states, Seq::empty()),
            Some(r) => {
                let key = metric_key(s.id@, m.label@);
                let prev = if states.contains_key(key) {
                    states[key]
                } else {
                    fresh_state()
                };
                let kinds = fired_kinds(prev, m.resets_at, r, cfg);
                (
                    states.insert(key, recorded_state(m.resets_at, r)),
                    kinds.map_values(
                        |k: AlertKind| alert_text(k, cfg.locale, metric_name(s, m), r),
                    ),
                )
            },
        }
    }
}

/// The memory and alerts after observing the metrics `ms` of card `s` in order.
pub open spec fn eval_metrics(
    states: Map<Seq<char>, MetricState>,
    s: Snapshot,
    ms: Seq<Metric>,
    cfg: AlertConfig,
) -> (Map<Seq<char>, MetricState>, Seq<(Seq<char>, Seq<char>)>)
    decreases ms.len(),
{
    if ms.len() == 0 {
        (states, Seq::empty())
    } else {
        let (st, a) = eval_metrics(states, s, ms.drop_last(), cfg);
        let (st2, a2) = eval_metric(st, s, ms.last(), cfg);
        (st2, a + a2)
    }
}

/// One of the switched-off ids names this sub2api card or all of sub2api.
pub open spec fn disabled_matches(disabled: Seq<String>, id: Seq<char>) -> bool {
    exists|i: int| 0 <= i < disabled.len() && (#[trigger] disabled[i]@ == "sub2api"@ || disabled[i]@ == id)
}

/// Whether a card's readings are watched at all: it refreshed fine, and a
/// sub2api card is neither stale nor switched off.
pub open spec fn snapshot_watched(s: Snapshot, cfg: AlertConfig) -> bool {
    s.status@ == "ok"@ && !(is_prefix_of("sub2api@"@, s.id@) && (s.stale || disabled_matches(
        cfg.disabled@,
        s.id@,
    )))
}

/// The memory and alerts after observing card `s`.
pub open spec fn eval_snapshot(
    states: Map<Seq<char>, MetricState>,
    s: Snapshot,
    cfg: AlertConfig,
) -> (Map<Seq<char>, MetricState>, Seq<(Seq<char>, Seq<char>)>) {
    if snapshot_watched(s, cfg) {
        eval_metrics(states, s, s.metrics@, cfg)
    } else {
        (states, Seq::empty())
    }
}

/// The memory and alerts after observing the cards `ss` in order.
pub open spec fn eval_snapshots(
    states: Map<Seq<char>, MetricState>,
    ss: Seq<Snapshot>,
    cfg: AlertConfig,
) -> (Map<Seq<char>, MetricState>, Seq<(Seq<char>, Seq<char>)>)
    decreases ss.len(),
{
    if ss.len() == 0 {
        (states, Seq::empty())
    } else {
        let (st, a) = eval_snapshots(states, ss.drop_last(), cfg);
        let (st2, a2) = eval_snapshot(st, ss.last(), cfg);
        (st2, a + a2)
    }
}

/// Some notification is switched on.
pub open spec fn any_wanted(cfg: AlertConfig) -> bool {
    cfg.notify_almost_out || cfg.notify_cutting_close || cfg.notify_will_run_out
}

/// The memory and alerts after one refresh of all cards.
pub open spec fn evaluate_spec(
    states: Map<Seq<char>, MetricState>,
    ss: Seq<Snapshot>,
    cfg: AlertConfig,
) -> (Map<Seq<char>, MetricState>, Seq<(Seq<char>, Seq<char>)>) {
    if !any_wanted(cfg) {
        (states, Seq::empty())
    } else {
        eval_snapshots(states, ss, cfg)
    }
}

/// A reset time that moved by more than ten minutes means a new period
/// (small drifts happen because some providers report "seconds from now").
pub fn period_changed(old: Option<i64>, new: Option<i64>) -> (res: bool)
    ensures
        res == period_moved(old, new),
{
    match (old, new) {
        (Some(a), Some(b)) => {
            let d: i128 = a as i128 - b as i128;
            d > 600_000 || d < -600_000
        },
        _ => false,
    }
}

/// `id:label`, the alert-memory key of a metric.
pub fn metric_key_of(id: &str, label: &str) -> (key: String)
    ensures
        key@ == metric_key(id@, label@),
{
    let mut key = String::from_str(id);
    key.append(":");
    key.append(label);
    key
}

/// `text + suffix` as a new string.
fn joined(text: &str, suffix: &str) -> (res: String)
    ensures
        res@ == text@ + suffix@,
{
    let mut res = String::from_str(text);
    res.append(suffix);
    res
}

/// `a + b + c` as a new string.
fn joined3(a: &str, b: &str, c: &str) -> (res: String)
    ensures
        res@ == a@ + b@ + c@,
{
    let mut res = String::from_str(a);
    res.append(b);
    res.append(c);
    res
}

/// The title of an alert.
pub fn title_of(kind: AlertKind, locale: Locale) -> (title: String)
    ensures
        title@ == alert_title(kind, locale),
{
    let t = match kind {
        AlertKind::WillRunOut => match locale {
            Locale::Zh => "将会用完",
            Locale::Ru => "Кончится до сброса",
            Locale::En => "Will Run Out",
        },
        AlertKind::CuttingClose => match locale {
            Locale::Zh => "余量紧张",
            Locale::Ru => "Запас на исходе",
            Locale::En => "Cutting It Close",
        },
        AlertKind::AlmostOut => match locale {
            Locale::Zh => "即将用完",
            Locale::Ru => "Почти кончилось",
            Locale::En => "Almost Out",
        },
    };
    String::from_str(t)
}

/// The body of an alert about the metric called `name`.
pub fn body_of(kind: AlertKind, locale: Locale, name: &str, r: &Reading) -> (body: String)
    ensures
        body@ == alert_body(kind, locale, name@, *r),
{
    match kind {
        AlertKind::WillRunOut => match locale {
            Locale::Zh => joined(name, " 按当前速度会在重置前用完。"),
            Locale::Ru => joined(name, " при текущем темпе исчерпается до сброса."),
            Locale::En => joined(name, " is on pace to hit its limit before the reset."),
        },
        AlertKind::CuttingClose => {
            let (mid, end) = match locale {
                Locale::Zh => (" 按当前速度重置时大约只剩 ", "%。"),
                Locale::Ru => (" к сбросу останется примерно ", "%."),
                Locale::En => (" is on pace to finish with only ~", "% spare."),
            };
            let mut body = joined3(name, mid, r.spare.as_str());
            body.append(end);
            body
        },
        AlertKind::AlmostOut => {
            let (mid, end) = match locale {
                Locale::Zh => (" 剩余不足 10%（还剩 ", "%）。"),
                Locale::Ru => (" осталось меньше 10% (ещё ", "%)."),
                Locale::En => (" is under 10% remaining (", "% left)."),
            };
            let mut body = joined3(name, mid, r.left.as_str());
            body.append(end);
            body
        },
    }
}

/// An alert about the metric called `name`.
pub fn alert_of(kind: AlertKind, locale: Locale, name: &str, r: &Reading) -> (a: Alert)
    ensures
        (a.title@, a.body@) == alert_text(kind, locale, name@, *r),
{
    Alert { title: title_of(kind, locale), body: body_of(kind, locale, name, r) }
}

/// Observe metric `m` of card `s`: update its memory and append the alerts
/// it raises.
fn evaluate_metric(
    states: &mut AlertStates,
    s: &Snapshot,
    m: &Metric,
    cfg: &AlertConfig,
    alerts: &mut Vec<Alert>,
)
    ensures
        final(states)@ == eval_metric(old(states)@, *s, *m, *cfg).0,
        alerts_view(final(alerts)@) == alerts_view(old(alerts)@) + eval_metric(
            old(states)@,
            *s,
            *m,
            *cfg,
        ).1,
{
    let ghost alerts0 = alerts@;
    if !str_eq(m.kind.as_str(), "progress") {
        assert(alerts_view(alerts@) =~= alerts_view(alerts0) + Seq::empty());
        return;
    }
    if str_eq(s.id.as_str(), "kimi") && s.has_warning && (str_eq(m.label.as_str(), "API")
        || str_eq(m.label.as_str(), "Credits used")) {
        assert(alerts_view(alerts@) =~= alerts_view(alerts0) + Seq::empty());
        return;
    }
    let r = match &m.reading {
        Some(r) => r,
        None => {
            assert(alerts_view(alerts@) =~= alerts_view(alerts0) + Seq::empty());
            return;
        },
    };
    let key = metric_key_of(s.id.as_str(), m.label.as_str());
    let prev = match states.get(key.as_str()) {
        Some(p) => p,
        None => MetricState::fresh(),
    };
    let base = if period_changed(prev.resets_at, m.resets_at) {
        MetricState::fresh()
    } else {
        prev
    };
    let baseline = !base.seen;
    states.set(
        key.as_str(),
        MetricState {
            resets_at: m.resets_at,
            seen: true,
            almost_out: r.almost_out,
            close: r.pace == Verdict::Close,
            run_out: r.pace == Verdict::RunOut,
        },
    );
    let ghost kinds = fired_kinds(prev, m.resets_at, *r, *cfg);
    let ghost name = metric_name(*s, *m);
    let ghost f = |k: AlertKind| alert_text(k, cfg.locale, name, *r);
    if !baseline {
        let mut name_s = String::from_str(s.name.as_str());
        name_s.append(" ");
        name_s.append(m.display_label.as_str());
        assert(name_s@ == name);
        if cfg.notify_will_run_out && r.pace == Verdict::RunOut && !base.run_out {
            alerts.push(alert_of(AlertKind::WillRunOut, cfg.locale, name_s.as_str(), r));
        } else if cfg.notify_cutting_close && r.pace == Verdict::Close && !base.close {
            alerts.push(alert_of(AlertKind::CuttingClose, cfg.locale, name_s.as_str(), r));
        }
        let ghost after_pace = alerts@;
        if cfg.notify_almost_out && r.almost_out && !base.almost_out {
            alerts.push(alert_of(AlertKind::AlmostOut, cfg.locale, name_s.as_str(), r));
        }
        proof {
            let pk = match pace_alert(base, *r, *cfg) {
                Some(k) => seq![k],
                None => Seq::<AlertKind>::empty(),
            };
            let ak = if almost_alert(base, *r, *cfg) {
                seq![AlertKind::AlmostOut]
            } else {
                Seq::<AlertKind>::empty()
            };
            assert(kinds == pk + ak);
            assert(alerts_view(after_pace) =~= alerts_view(alerts0) + pk.map_values(f));
            assert(alerts_view(alerts@) =~= alerts_view(after_pace) + ak.map_values(f));
            assert((pk + ak).map_values(f) =~= pk.map_values(f) + ak.map_values(f));
            assert(alerts_view(alerts@) =~= alerts_view(alerts0) + kinds.map_values(f));
        }
    } else {
        assert(kinds =~= Seq::<AlertKind>::empty());
        assert(alerts_view(alerts@) =~= alerts_view(alerts0) + kinds.map_values(f));
    }
}

/// Whether a switched-off id names this sub2api card or all of sub2api.
pub fn is_disabled(disabled: &Vec<String>, id: &str) -> (res: bool)
    ensures
        res == disabled_matches(disabled@, id@),
{
    let n = disabled.len();
    let mut i: usize = 0;
    while i < n
        invariant
            n == disabled@.len(),
            i <= n,
            forall|j: int|
                0 <= j < i ==> !(#[trigger] disabled@[j]@ == "sub2api"@ || disabled@[j]@ == id@),
        decreases n - i,
    {
        if str_eq(disabled[i].as_str(), "sub2api") || str_eq(disabled[i].as_str(), id) {
            return true;
        }
        i += 1;
    }
    false
}

/// Observe card `s`.
fn evaluate_snapshot(
    states: &mut AlertStates,
    s: &Snapshot,
    cfg: &AlertConfig,
    alerts: &mut Vec<Alert>,
)
    ensures
        final(states)@ == eval_snapshot(old(states)@, *s, *cfg).0,
        alerts_view(final(alerts)@) == alerts_view(old(alerts)@) + eval_snapshot(
            old(states)@,
            *s,
            *cfg,
        ).1,
{
    let ghost alerts0 = alerts@;
    let ghost states0 = states@;
    if !str_eq(s.status.as_str(), "ok") {
        assert(alerts_view(alerts@) =~= alerts_view(alerts0) + Seq::empty());
        return;
    }
    if starts_with(s.id.as_str(), "sub2api@") {
        if s.stale || is_disabled(&cfg.disabled, s.id.as_str()) {
            assert(alerts_view(alerts@) =~= alerts_view(alerts0) + Seq::empty());
            return;
        }
    }
    let n = s.metrics.len();
    let mut i: usize = 0;
    assert(s.metrics@.take(0) =~= Seq::<Metric>::empty());
    assert(alerts_view(alerts@) =~= alerts_view(alerts0) + Seq::empty());
    while i < n
        invariant
            n == s.metrics@.len(),
            i <= n,
            states@ == eval_metrics(states0, *s, s.metrics@.take(i as int), *cfg).0,
            alerts_view(alerts@) == alerts_view(alerts0) + eval_metrics(
                states0,
                *s,
                s.metrics@.take(i as int),
                *cfg,
            ).1,
        decreases n - i,
    {
        let ghost before = alerts_view(alerts@);
        evaluate_metric(states, s, &s.metrics[i], cfg, alerts);
        proof {
            assert(s.metrics@.take(i as int + 1).drop_last() =~= s.metrics@.take(i as int));
            assert(s.metrics@.take(i as int + 1).last() == s.metrics@[i as int]);
            let prev = eval_metrics(states0, *s, s.metrics@.take(i as int), *cfg);
            let step = eval_metric(prev.0, *s, s.metrics@[i as int], *cfg);
            assert(alerts_view(alerts@) =~= alerts_view(alerts0) + (prev.1 + step.1));
        }
        i += 1;
    }
    assert(s.metrics@.take(n as int) =~= s.metrics@);
}

/// Judge one refresh of all cards: update the alert memory and return the
/// notifications to show, in card order and, within a card, metric order.
pub fn evaluate(states: &mut AlertStates, snapshots: &[Snapshot], cfg: &AlertConfig) -> (alerts: Vec<
    Alert,
>)
    ensures
        final(states)@ == evaluate_spec(old(states)@, snapshots@, *cfg).0,
        alerts_view(alerts@) == evaluate_spec(old(states)@, snapshots@, *cfg).1,
{
    let mut alerts: Vec<Alert> = Vec::new();
    if !(cfg.notify_almost_out || cfg.notify_cutting_close || cfg.notify_will_run_out) {
        assert(alerts_view(alerts@) =~= Seq::empty());
        return alerts;
    }
    let ghost states0 = states@;
    let n = snapshots.len();
    let mut i: usize = 0;
    assert(snapshots@.take(0) =~= Seq::<Snapshot>::empty());
    assert(alerts_view(alerts@) =~= Seq::empty());
    while i < n
        invariant
            n == snapshots@.len(),
            i <= n,
            states@ == eval_snapshots(states0, snapshots@.take(i as int), *cfg).0,
            alerts_view(alerts@) == eval_snapshots(states0, snapshots@.take(i as int), *cfg).1,
        decreases n - i,
    {
        evaluate_snapshot(states, &snapshots[i], cfg, &mut alerts);
        proof {
            assert(snapshots@.take(i as int + 1).drop_last() =~= snapshots@.take(i as int));
            assert(snapshots@.take(i as int + 1).last() == snapshots@[i as int]);
        }
        i += 1;
    }
    assert(snapshots@.take(n as int) =~= snapshots@);
    alerts
}

/// Drop every metric keyed as `{id}:…`. The prefix is `id + ':'` so
/// `onenewapi@abc` does not also wipe `onenewapi@abcd`.
pub fn forget_snapshot(states: &mut AlertStates, id: &str)
    ensures
        final(states)@ == kept_after_forget(old(states)@, id@),
{
    states.retain_not_prefixed(id);
}

/// Remember a fresh state under `key`, as if a metric had been observed.
pub fn insert_state_for_test(states: &mut AlertStates, key: &str)
    ensures
        final(states)@ == old(states)@.insert(key@, fresh_state()),
{
    states.set(key, MetricState::fresh());
}

/// Whether anything is remembered under `key`.
pub fn has_state_for_test(states: &AlertStates, key: &str) -> (res: bool)
    ensures
        res == states@.contains_key(key@),
{
    states.get(key).is_some()
}

} // verus!
