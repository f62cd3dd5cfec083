//! Which rows of the Devin CLI's local session store are billable usage
//! events, when each happened and which model it ran on.
//!
//! Assistant messages carry a metrics object (input/output/cache tokens);
//! the store keeps one row per message per branch of the session's message
//! forest, so rows dedupe by (session, message id). The message's own
//! `generation_model` is the truth: the session-level model is rewritten in
//! place on every switch. Older records without it fall back to the session
//! model.

use vstd::prelude::*;
use crate::seen_messages::SeenMessages;
use crate::json::{json_is_object_at, json_object_at, json_str_at, json_string_at};
use crate::text::{is_blank, is_blank_str, str_eq};

verus! {

/// One row of the session store's message table joined with its session.
pub struct ChatRow {
    pub session_id: String,
    /// The stored chat message, a JSON document.
    pub message: String,
    /// The row's own creation time, Unix seconds.
    pub node_created_s: i64,
    /// The session's current model.
    pub session_model: String,
}

/// A usage event to emit: the row it comes from, its time and its model.
pub struct EventPlan {
    pub row: usize,
    pub ts_ms: i64,
    pub model: String,
}

/// The result of `chrono::DateTime::parse_from_rfc3339(s)` as Unix
/// milliseconds, `None` when `s` is not an RFC 3339 date-time.
pub uninterp spec fn rfc3339_millis(s: Seq<char>) -> Option<i64>;

/// `chrono::DateTime::parse_from_rfc3339(s)` followed by
/// `DateTime::timestamp_millis`. Claimed: the result is a function of the
/// text alone, named `rfc3339_millis`; nothing more about the parser.
#[verifier::external_body]
fn parse_rfc3339_millis(s: &str) -> (res: Option<i64>)
    ensures
        res == rfc3339_millis(s@),
{
    match chrono::DateTime::parse_from_rfc3339(s) {
        Ok(dt) => Some(dt.timestamp_millis()),
        Err(_) => None,
    }
}

/// An assistant message (`role`) carrying token metrics (an object at
/// `metadata.metrics`).
pub open spec fn is_usage_message(row: ChatRow) -> bool {
    json_str_at(row.message@, "/role"@) == Some("assistant"@) && json_is_object_at(
        row.message@,
        "/metadata/metrics"@,
    )
}

/// The id a message is deduplicated by: `message_id`, else the metadata's
/// `request_id`.
pub open spec fn usage_key(text: Seq<char>) -> Option<Seq<char>> {
    match json_str_at(text, "/message_id"@) {
        Some(k) => Some(k),
        None => json_str_at(text, "/metadata/request_id"@),
    }
}

/// Whether `row` is an event given the `(session, message id)` pairs seen
/// before it, and the pairs seen after it.
pub open spec fn select_step(seen: Set<(Seq<char>, Seq<char>)>, row: ChatRow) -> (
    Set<(Seq<char>, Seq<char>)>,
    bool,
) {
    if !is_usage_message(row) {
        (seen, false)
    } else {
        match usage_key(row.message@) {
            Some(k) => if seen.contains((row.session_id@, k)) {
                (seen, false)
            } else {
                (seen.insert((row.session_id@, k)), true)
            },
            None => (seen, true),
        }
    }
}

/// The pairs seen and the indices of the rows that are events, in order.
pub open spec fn select_rows(rows: Seq<ChatRow>) -> (Set<(Seq<char>, Seq<char>)>, Seq<int>)
    decreases rows.len(),
{
    if rows.len() == 0 {
        (Set::empty(), Seq::empty())
    } else {
        let (seen, sel) = select_rows(rows.drop_last());
        let (seen2, keep) = select_step(seen, rows.last());
        (
            seen2,
            if keep {
                sel.push(rows.len() - 1)
            } else {
                sel
            },
        )
    }
}

/// When a message happened: its RFC 3339 `metadata.created_at`, else the
/// row's own creation time.
pub open spec fn event_ms(text: Seq<char>, node_created_s: i64) -> int {
    let parsed = match json_str_at(text, "/metadata/created_at"@) {
        Some(s) => rfc3339_millis(s),
        None => None,
    };
    match parsed {
        Some(ms) => ms as int,
        None => node_created_s * 1000,
    }
}

/// The model a message ran on: its non-blank `metadata.generation_model`,
/// else the session's model.
pub open spec fn event_model(text: Seq<char>, session_model: Seq<char>) -> Seq<char> {
    match json_str_at(text, "/metadata/generation_model"@) {
        Some(g) => if is_blank(g) {
            session_model
        } else {
            g
        },
        None => session_model,
    }
}

/// Fits in an `i64`.
pub open spec fn fits_i64(x: int) -> bool {
    i64::MIN <= x <= i64::MAX
}

/// The event of row `i`: (row, time in ms, model).
pub open spec fn plan_of(rows: Seq<ChatRow>, i: int) -> (int, int, Seq<char>) {
    (i, event_ms(rows[i].message@, rows[i].node_created_s), event_model(rows[i].message@, rows[i].session_model@))
}

/// Every event's time is representable in milliseconds.
pub open spec fn all_times_fit(rows: Seq<ChatRow>) -> bool {
    let sel = select_rows(rows).1;
    forall|j: int| 0 <= j < sel.len() ==> fits_i64(#[trigger] plan_of(rows, sel[j]).1)
}

/// Plans as `(row, time, model)` triples.
pub open spec fn plans_view(plans: Seq<EventPlan>) -> Seq<(int, int, Seq<char>)> {
    plans.map_values(|p: EventPlan| (p.row as int, p.ts_ms as int, p.model@))
}

/// The events of `rows`, in row order.
pub open spec fn events_spec(rows: Seq<ChatRow>) -> Seq<(int, int, Seq<char>)> {
    select_rows(rows).1.map_values(|i: int| plan_of(rows, i))
}


/// The `(session, message id)` pair a selected row is counted under.
pub open spec fn counted_pair(rows: Seq<ChatRow>, i: int) -> Option<(Seq<char>, Seq<char>)> {
    match usage_key(rows[i].message@) {
        Some(k) => Some((rows[i].session_id@, k)),
        None => None,
    }
}

proof fn lemma_select_in_bounds(rows: Seq<ChatRow>)
    ensures
        forall|j: int| 0 <= j < select_rows(rows).1.len() ==> 0 <= #[trigger] select_rows(rows).1[j] < rows.len(),
    decreases rows.len(),
{
    if rows.len() > 0 {
        let pre = rows.drop_last();
        lemma_select_in_bounds(pre);
        let sel_pre = select_rows(pre).1;
        let sel = select_rows(rows).1;
        assert(sel == sel_pre || sel == sel_pre.push(rows.len() - 1));
        assert forall|j: int| 0 <= j < sel.len() implies 0 <= #[trigger] sel[j] < rows.len() by {
            if j < sel_pre.len() {
                assert(sel[j] == sel_pre[j]);
            }
        }
    }
}

proof fn lemma_seen_pairs(rows: Seq<ChatRow>)
    ensures
        forall|p: (Seq<char>, Seq<char>)| #[trigger] select_rows(rows).0.contains(p) <==> exists|j: int|
            0 <= j < select_rows(rows).1.len() && counted_pair(rows, #[trigger] select_rows(rows).1[j]) == Some(p),
    decreases rows.len(),
{
    if rows.len() > 0 {
        let pre = rows.drop_last();
        lemma_seen_pairs(pre);
        lemma_select_in_bounds(pre);
        let sel_pre = select_rows(pre).1;
        let sel = select_rows(rows).1;
        let last = rows.len() - 1;
        assert forall|j: int| 0 <= j < sel_pre.len() implies counted_pair(rows, #[trigger] sel_pre[j]) == counted_pair(pre, sel_pre[j]) by {
            assert(rows[sel_pre[j]] == pre[sel_pre[j]]);
        }
        assert forall|p: (Seq<char>, Seq<char>)| #[trigger] select_rows(rows).0.contains(p) <==> exists|j: int|
            0 <= j < sel.len() && counted_pair(rows, #[trigger] sel[j]) == Some(p) by {
            if select_rows(rows).0.contains(p) {
                if select_rows(pre).0.contains(p) {
                    let j = choose|j: int| 0 <= j < sel_pre.len() && counted_pair(pre, #[trigger] sel_pre[j]) == Some(p);
                    assert(sel[j] == sel_pre[j]);
                } else {
                    assert(sel[sel_pre.len() as int] == last);
                }
            }
            if exists|j: int| 0 <= j < sel.len() && counted_pair(rows, #[trigger] sel[j]) == Some(p) {
                let j = choose|j: int| 0 <= j < sel.len() && counted_pair(rows, #[trigger] sel[j]) == Some(p);
                if j < sel_pre.len() {
                    assert(sel[j] == sel_pre[j]);
                    assert(select_rows(pre).0.contains(p));
                }
            }
        }
    }
}

/// Each message is counted once: two events never share a
/// `(session, message id)` pair.
pub proof fn lemma_each_message_counted_once(rows: Seq<ChatRow>, a: int, b: int)
    requires
        0 <= a < b < select_rows(rows).1.len(),
        counted_pair(rows, select_rows(rows).1[a]) is Some,
    ensures
        counted_pair(rows, select_rows(rows).1[a]) != counted_pair(rows, select_rows(rows).1[b]),
    decreases rows.len(),
{
    let pre = rows.drop_last();
    let sel_pre = select_rows(pre).1;
    let sel = select_rows(rows).1;
    lemma_select_in_bounds(pre);
    if b < sel_pre.len() {
        lemma_each_message_counted_once(pre, a, b);
        assert(rows[sel_pre[a]] == pre[sel_pre[a]]);
        assert(rows[sel_pre[b]] == pre[sel_pre[b]]);
    } else {
        let last = rows.len() - 1;
        assert(sel[b] == last);
        lemma_seen_pairs(pre);
        assert(rows[sel_pre[a]] == pre[sel_pre[a]]);
        let p = counted_pair(rows, sel[a])->0;
        assert(select_rows(pre).0.contains(p));
    }
}

/// Every event is an assistant message with token metrics.
pub proof fn lemma_events_are_usage_messages(rows: Seq<ChatRow>, j: int)
    requires
        0 <= j < select_rows(rows).1.len(),
    ensures
        0 <= select_rows(rows).1[j] < rows.len(),
        is_usage_message(rows[select_rows(rows).1[j]]),
    decreases rows.len(),
{
    lemma_select_in_bounds(rows);
    let pre = rows.drop_last();
    if j < select_rows(pre).1.len() {
        lemma_events_are_usage_messages(pre, j);
        lemma_select_in_bounds(pre);
        assert(rows[select_rows(pre).1[j]] == pre[select_rows(pre).1[j]]);
    }
}

/// The selection of a prefix of the rows is a prefix of the selection.
proof fn lemma_select_prefix(rows: Seq<ChatRow>, k: int)
    requires
        0 <= k <= rows.len(),
    ensures
        select_rows(rows.take(k)).1.len() <= select_rows(rows).1.len(),
        forall|j: int| 0 <= j < select_rows(rows.take(k)).1.len() ==> #[trigger] select_rows(rows.take(k)).1[j] == select_rows(rows).1[j],
    decreases rows.len() - k,
{
    if k < rows.len() {
        lemma_select_prefix(rows, k + 1);
        let t = rows.take(k + 1);
        assert(t.drop_last() =~= rows.take(k));
        let small = select_rows(rows.take(k)).1;
        let big = select_rows(t).1;
        assert(big == small || big == small.push(k));
        assert forall|j: int| 0 <= j < small.len() implies #[trigger] small[j] == select_rows(rows).1[j] by {
            assert(big[j] == small[j]);
        }
    } else {
        assert(rows.take(k) =~= rows);
    }
}

/// The time of an event: `parsed_ms` when the message's `created_at`
/// parsed, else the row's creation time in milliseconds.
pub fn event_timestamp(parsed_ms: Option<i64>, node_created_s: i64) -> (ts: i64)
    requires
        parsed_ms is None ==> fits_i64(node_created_s * 1000),
    ensures
        ts == (match parsed_ms {
            Some(ms) => ms as int,
            None => node_created_s * 1000,
        }),
{
    match parsed_ms {
        Some(ms) => ms,
        None => node_created_s * 1000,
    }
}

/// The model of an event.
fn event_model_of(text: &str, session_model: &String) -> (model: String)
    ensures
        model@ == event_model(text@, session_model@),
{
    match json_string_at(text, "/metadata/generation_model") {
        Some(g) => {
            if is_blank_str(g.as_str()) {
                session_model.clone()
            } else {
                g
            }
        },
        None => session_model.clone(),
    }
}

/// What became of one row.
enum RowOutcome {
    Skip,
    Event(EventPlan),
    /// The row is an event whose time in milliseconds does not fit an `i64`.
    Overflow,
}

/// Judge row `i` against the pairs seen so far.
fn plan_row(seen: &mut SeenMessages, rows: &Vec<ChatRow>, i: usize) -> (res: RowOutcome)
    requires
        i < rows@.len(),
    ensures
        final(seen)@ == select_step(old(seen)@, rows@[i as int]).0,
        match res {
            RowOutcome::Skip => !select_step(old(seen)@, rows@[i as int]).1,
            RowOutcome::Event(p) => select_step(old(seen)@, rows@[i as int]).1 && (
            p.row as int, p.ts_ms as int, p.model@) == plan_of(rows@, i as int),
            RowOutcome::Overflow => select_step(old(seen)@, rows@[i as int]).1 && !fits_i64(
                plan_of(rows@, i as int).1,
            ),
        },
{
    let row = &rows[i];
    let text = row.message.as_str();
    let is_assistant = match json_string_at(text, "/role") {
        Some(r) => str_eq(r.as_str(), "assistant"),
        None => false,
    };
    if !is_assistant || !json_object_at(text, "/metadata/metrics") {
        return RowOutcome::Skip;
    }
    let key = match json_string_at(text, "/message_id") {
        Some(k) => Some(k),
        None => json_string_at(text, "/metadata/request_id"),
    };
    match key {
        Some(k) => {
            if !seen.insert(row.session_id.as_str(), k.as_str()) {
                return RowOutcome::Skip;
            }
        },
        None => {},
    }
    let parsed = match json_string_at(text, "/metadata/created_at") {
        Some(s) => parse_rfc3339_millis(s.as_str()),
        None => None,
    };
    if parsed.is_none() {
        let s = row.node_created_s;
        if s > i64::MAX / 1000 || s < i64::MIN / 1000 {
            return RowOutcome::Overflow;
        }
    }
    let ts = event_timestamp(parsed, row.node_created_s);
    let model = event_model_of(text, &row.session_model);
    RowOutcome::Event(EventPlan { row: i, ts_ms: ts, model })
}

/// The usage events of the session-store rows, in row order; `None` when
/// an event has no parsable `created_at` and its row time in seconds does
/// not fit an `i64` once in milliseconds.
pub fn usage_event_plans(rows: &Vec<ChatRow>) -> (res: Option<Vec<EventPlan>>)
    ensures
        match res {
            Some(plans) => all_times_fit(rows@) && plans_view(plans@) == events_spec(rows@),
            None => !all_times_fit(rows@),
        },
{
    let mut seen = SeenMessages::new();
    let mut plans: Vec<EventPlan> = Vec::new();
    let n = rows.len();
    let mut i: usize = 0;
    assert(rows@.take(0) =~= Seq::<ChatRow>::empty());
    assert(seen@ =~= select_rows(rows@.take(0)).0);
    assert(plans_view(plans@) =~= select_rows(rows@.take(0)).1.map_values(|j: int| plan_of(rows@, j)));
    while i < n
        invariant
            n == rows@.len(),
            i <= n,
            seen@ == select_rows(rows@.take(i as int)).0,
            plans_view(plans@) == select_rows(rows@.take(i as int)).1.map_values(|j: int| plan_of(rows@, j)),
        decreases n - i,
    {
        let ghost pre = rows@.take(i as int);
        let ghost post = rows@.take(i as int + 1);
        proof {
            assert(post.drop_last() =~= pre);
            assert(post.last() == rows@[i as int]);
        }
        let ghost sel_pre = select_rows(pre).1;
        match plan_row(&mut seen, rows, i) {
            RowOutcome::Skip => {
                assert(select_rows(post).1 == sel_pre);
            },
            RowOutcome::Event(p) => {
                let ghost before = plans@;
                plans.push(p);
                assert(plans_view(plans@) =~= plans_view(before).push(plan_of(rows@, i as int)));
                assert(select_rows(post).1 == sel_pre.push(i as int));
                assert(plans_view(plans@) =~= select_rows(post).1.map_values(|j: int| plan_of(rows@, j)));
            },
            RowOutcome::Overflow => {
                proof {
                    let sel_post = select_rows(post).1;
                    assert(sel_post == sel_pre.push(i as int));
                    lemma_select_prefix(rows@, i as int + 1);
                    let full = select_rows(rows@).1;
                    let j = sel_pre.len() as int;
                    assert(sel_post[j] == i as int);
                    assert(full[j] == i as int);
                    assert(!fits_i64(plan_of(rows@, full[j]).1));
                }
                return None;
            },
        }
        i += 1;
    }
    proof {
        assert(rows@.take(n as int) =~= rows@);
        let sel = select_rows(rows@).1;
        assert forall|j: int| 0 <= j < sel.len() implies fits_i64(#[trigger] plan_of(rows@, sel[j]).1) by {
            assert(plans_view(plans@)[j] == plan_of(rows@, sel[j]));
            assert(plans_view(plans@)[j].1 == plans@[j].ts_ms as int);
        }
    }
    Some(plans)
}

} // verus!
