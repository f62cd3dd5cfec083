//! The integer half of the straight-line pace projection: how far into its
//! period a quota is, and whether it is far enough in to be projected.

use vstd::prelude::*;

verus! {

/// Readings in the first five minutes of a period are not projected.
pub const MIN_ELAPSED_MS: i64 = 300_000;

/// How far into its period a quota is.
#[derive(Clone, Copy)]
pub struct PaceWindow {
    /// Milliseconds of the period already used up.
    pub elapsed_ms: i64,
    /// The length of the period in milliseconds.
    pub period_ms: i64,
}

/// `(elapsed, period)` when a quota with these reset and period figures is
/// far enough into a known, positive-length period to be projected at time
/// `now_ms`.
pub open spec fn pace_window_spec(resets_at: Option<i64>, period_ms: Option<i64>, now_ms: i64) -> Option<
    (int, int),
> {
    match (resets_at, period_ms) {
        (Some(r), Some(p)) => {
            if p <= 0 {
                None
            } else {
                let remain: int = if r - now_ms > 0 {
                    r - now_ms
                } else {
                    0
                };
                let elapsed = p - remain;
                if elapsed < MIN_ELAPSED_MS {
                    None
                } else {
                    Some((elapsed, p as int))
                }
            }
        },
        _ => None,
    }
}

/// A projected quota is at least five minutes into a positive-length period
/// and never further in than the period is long.
pub proof fn lemma_window_within_period(resets_at: Option<i64>, period_ms: Option<i64>, now_ms: i64)
    ensures
        pace_window_spec(resets_at, period_ms, now_ms) matches Some((elapsed, period)) ==> MIN_ELAPSED_MS
            <= elapsed <= period && period == period_ms->0 && period > 0,
{
}

/// A window as `(elapsed, period)`.
pub open spec fn window_view(w: Option<PaceWindow>) -> Option<(int, int)> {
    match w {
        Some(w) => Some((w.elapsed_ms as int, w.period_ms as int)),
        None => None,
    }
}

/// How far into its period a quota is at time `now_ms`, when it can be
/// projected at all.
pub fn pace_window(resets_at: Option<i64>, period_ms: Option<i64>, now_ms: i64) -> (res: Option<
    PaceWindow,
>)
    ensures
        window_view(res) == pace_window_spec(resets_at, period_ms, now_ms),
{
    match (resets_at, period_ms) {
        (Some(r), Some(p)) => {
            if p <= 0 {
                return None;
            }
            let diff: i128 = r as i128 - now_ms as i128;
            let remain: i128 = if diff > 0 {
                diff
            } else {
                0
            };
            let elapsed: i128 = p as i128 - remain;
            if elapsed < MIN_ELAPSED_MS as i128 {
                None
            } else {
                Some(PaceWindow { elapsed_ms: elapsed as i64, period_ms: p })
            }
        },
        _ => None,
    }
}

/// `std::time::SystemTime::now()`, measured from `UNIX_EPOCH` by
/// `duration_since` and taken in whole milliseconds by `Duration::as_millis`:
/// the wall-clock time, `None` when the clock reads before 1970. Nothing is
/// claimed of the value, which is the machine's clock; none of these calls
/// panics.
#[verifier::external_body]
fn clock_ms_since_epoch() -> Option<u128> {
    match std::time::SystemTime::now().duration_since(std::time::UNIX_EPOCH) {
        Ok(d) => Some(d.as_millis()),
        Err(_) => None,
    }
}

/// `clock_ms` is a value the wall clock's reading in milliseconds since
/// 1970 can be: a value the one call that reads the clock returns.
pub closed spec fn is_clock_reading(clock_ms: Option<u128>) -> bool {
    call_ensures(clock_ms_since_epoch, (), clock_ms)
}

/// A clock reading as Unix milliseconds, when it is one an `i64` holds.
pub open spec fn clock_now_ms(clock_ms: Option<u128>) -> Option<i64> {
    match clock_ms {
        Some(ms) => if ms <= i64::MAX {
            Some(ms as i64)
        } else {
            None
        },
        None => None,
    }
}

/// The figures allow a window at some time: a reset time and a positive
/// period.
pub open spec fn has_window_figures(resets_at: Option<i64>, period_ms: Option<i64>) -> bool {
    resets_at is Some && period_ms is Some && period_ms->0 > 0
}

/// The window at the clock reading `clock_ms`: none without a usable
/// reading.
pub open spec fn clock_window(resets_at: Option<i64>, period_ms: Option<i64>, clock_ms: Option<u128>) -> Option<
    (int, int),
> {
    match clock_now_ms(clock_ms) {
        Some(now) => pace_window_spec(resets_at, period_ms, now),
        None => None,
    }
}

/// How far into its period a quota is at the clock reading `clock_ms`
/// (milliseconds since 1970, `None` when the clock could not be read): no
/// window without a usable reading.
pub fn pace_window_at(resets_at: Option<i64>, period_ms: Option<i64>, clock_ms: Option<u128>) -> (res: Option<
    PaceWindow,
>)
    ensures
        window_view(res) == clock_window(resets_at, period_ms, clock_ms),
{
    match clock_ms {
        Some(ms) => {
            if ms <= i64::MAX as u128 {
                pace_window(resets_at, period_ms, ms as i64)
            } else {
                None
            }
        },
        None => None,
    }
}

/// How far into its period a quota is right now, when it can be projected.
/// The clock is read only when the figures allow a window, and at most
/// once; the result is the window at that instant, or none when the clock
/// reads before 1970.
pub fn pace_window_now(resets_at: Option<i64>, period_ms: Option<i64>) -> (res: Option<PaceWindow>)
    ensures
        !has_window_figures(resets_at, period_ms) ==> res is None,
        res is Some ==> exists|now_ms: i64|
            0 <= now_ms && window_view(res) == #[trigger] pace_window_spec(resets_at, period_ms, now_ms),
        has_window_figures(resets_at, period_ms) ==> exists|clock_ms: Option<u128>|
            is_clock_reading(clock_ms) && window_view(res) == #[trigger] clock_window(
                resets_at,
                period_ms,
                clock_ms,
            ),
{
    match (resets_at, period_ms) {
        (Some(_), Some(p)) => {
            if p <= 0 {
                return None;
            }
        },
        _ => {
            return None;
        },
    }
    let clock = clock_ms_since_epoch();
    let res = pace_window_at(resets_at, period_ms, clock);
    assert(is_clock_reading(clock));
    assert(window_view(res) == clock_window(resets_at, period_ms, clock));
    proof {
        if res is Some {
            let now = clock_now_ms(clock)->0;
            assert(window_view(res) == pace_window_spec(resets_at, period_ms, now));
        }
    }
    res
}

/// At a clock reading of `ms` milliseconds since 1970, a quota with a
/// positive period `p` that resets at `r` (Unix milliseconds) is `p - (r -
/// ms)` into its period while the reset is ahead, and the whole period in
/// once it has passed; it is projected exactly when that is at least five
/// minutes. A reset 12 hours ahead of the reading puts a daily quota
/// 12 hours into its day.
pub proof fn lemma_clock_window_counts_to_the_reset(r: i64, p: i64, ms: u128)
    requires
        p > 0,
        ms <= i64::MAX,
    ensures
        ({
            let elapsed = if r >= ms {
                p - (r - ms)
            } else {
                p as int
            };
            clock_window(Some(r), Some(p), Some(ms)) == (if elapsed >= MIN_ELAPSED_MS {
                Some((elapsed, p as int))
            } else {
                None
            })
        }),
        r == ms + 43_200_000 && p == 86_400_000 ==> clock_window(Some(r), Some(p), Some(ms)) == Some(
            (43_200_000int, 86_400_000int),
        ),
{
}

} // verus!
