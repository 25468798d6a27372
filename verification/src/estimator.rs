//! The forecast of how long a waiting requester still has to wait.

use vstd::prelude::*;
use crate::intake::age_seconds;
use crate::model::{QueueEntry, Status};
use crate::smoothing::{
    exceeds_smoothed, lemma_pow5_positive, pow5, smoothed_numerator, smoothed_seconds, Smoother,
};
use crate::time::{whole_seconds, Timestamp, MAX_SPAN_SECONDS};

verus! {

/// The forecast, in seconds, when neither history nor queue says anything.
pub const DEFAULT_FORECAST: i64 = 180;

/// How many completed entries the forecast looks back on at most.
pub const HISTORY_LIMIT: usize = 10;

/// The whole seconds that `entry` took from joining the queue to its last
/// change of status.
pub open spec fn service_seconds(entry: QueueEntry) -> int {
    whole_seconds(entry.updated_at@ - entry.created_at@)
}

/// How many entries of a history of `len` entries count.
pub open spec fn history_depth(len: nat) -> nat {
    if len <= HISTORY_LIMIT {
        len
    } else {
        HISTORY_LIMIT as nat
    }
}

/// The service times of the first `HISTORY_LIMIT` entries of `history`, in
/// the order in which they stand there.
pub open spec fn history_series(history: Seq<QueueEntry>) -> Seq<int> {
    Seq::new(history_depth(history.len()), |i: int| service_seconds(history[i]))
}

/// The series after the scan of the entries ahead from position `from` on:
/// as long as an entry's wait is greater than the smoothed value of the
/// series so far, the wait joins the series; the scan stops at the first
/// entry whose wait is not.
pub open spec fn extend_with_waits(
    series: Seq<int>,
    ahead: Seq<QueueEntry>,
    from: int,
    now: Timestamp,
) -> Seq<int>
    decreases ahead.len() - from,
{
    if from < 0 || from >= ahead.len() {
        series
    } else {
        let wait = age_seconds(ahead[from].created_at, now);
        if exceeds_smoothed(wait, series) {
            extend_with_waits(series.push(wait), ahead, from + 1, now)
        } else {
            series
        }
    }
}

/// What is reported of a forecast to someone who has waited `elapsed`
/// seconds already: what is left of it, or the whole of it when nothing is.
pub open spec fn remaining(forecast: int, elapsed: int) -> int {
    if forecast - elapsed > 0 {
        forecast - elapsed
    } else {
        forecast
    }
}

/// The forecast for `target` at `now`.
///
/// `history` holds the entries completed at or before the target's place,
/// the newest first; `ahead` holds the entries that are still searching in
/// front of it, the oldest first. Without history the wait of the oldest
/// entry ahead is scaled by the target's place in the line, and without
/// anyone ahead either the forecast is `DEFAULT_FORECAST`. With history the
/// service times are smoothed, the long waits ahead are added to the series,
/// and the time that the target has waited already is taken off.
pub open spec fn forecast(
    target: QueueEntry,
    history: Seq<QueueEntry>,
    ahead: Seq<QueueEntry>,
    now: Timestamp,
) -> int {
    if history.len() == 0 {
        if ahead.len() == 0 {
            DEFAULT_FORECAST as int
        } else {
            age_seconds(ahead[0].created_at, now) * (ahead.len() + 1)
        }
    } else {
        remaining(
            smoothed_seconds(extend_with_waits(history_series(history), ahead, 0, now)),
            age_seconds(target.created_at, now),
        )
    }
}

/// True when no clock ran backwards in what the forecast reads: the entries
/// of the history that count were completed no earlier than they were
/// created, and, where the forecast rests on the oldest entry ahead alone,
/// that entry was created no later than `now`.
pub open spec fn well_timed(
    history: Seq<QueueEntry>,
    ahead: Seq<QueueEntry>,
    now: Timestamp,
) -> bool {
    &&& forall|i: int|
        0 <= i < history_depth(history.len()) ==> (#[trigger] history[i]).created_at@
            <= history[i].updated_at@
    &&& history.len() == 0 && ahead.len() > 0 ==> ahead[0].created_at@ <= now@
}

/// True when no number of `series` is negative.
pub open spec fn none_negative(series: Seq<int>) -> bool {
    forall|i: int| 0 <= i < series.len() ==> #[trigger] series[i] >= 0
}

/// A series without a negative number has no negative smoothed value.
pub proof fn lemma_smoothed_numerator_nonnegative(series: Seq<int>)
    requires
        none_negative(series),
    ensures
        smoothed_numerator(series) >= 0,
    decreases series.len(),
{
    if series.len() >= 2 {
        let front = series.drop_last();
        assert forall|i: int| 0 <= i < front.len() implies #[trigger] front[i] >= 0 by {
            assert(front[i] == series[i]);
        }
        lemma_smoothed_numerator_nonnegative(front);
        let p = pow5((series.len() - 2) as nat);
        lemma_pow5_positive((series.len() - 2) as nat);
        let last = series.last();
        assert(p * last >= 0) by (nonlinear_arith)
            requires
                p > 0,
                last >= 0,
        ;
    } else if series.len() == 1 {
        assert(series[0] >= 0);
    }
}

/// The scan of the entries ahead adds no negative number to a series that
/// has none: a wait joins only if it is above a smoothed value that is not
/// negative.
pub proof fn lemma_extend_nonnegative(
    series: Seq<int>,
    ahead: Seq<QueueEntry>,
    from: int,
    now: Timestamp,
)
    requires
        series.len() >= 1,
        none_negative(series),
    ensures
        none_negative(extend_with_waits(series, ahead, from, now)),
    decreases ahead.len() - from,
{
    if 0 <= from < ahead.len() {
        let wait = age_seconds(ahead[from].created_at, now);
        if exceeds_smoothed(wait, series) {
            let p = pow5((series.len() - 1) as nat);
            lemma_pow5_positive((series.len() - 1) as nat);
            lemma_smoothed_numerator_nonnegative(series);
            let n = smoothed_numerator(series);
            assert(wait > 0) by (nonlinear_arith)
                requires
                    wait * p > n,
                    n >= 0,
                    p > 0,
            ;
            let grown = series.push(wait);
            assert forall|i: int| 0 <= i < grown.len() implies #[trigger] grown[i] >= 0 by {
                if i < series.len() {
                    assert(grown[i] == series[i]);
                }
            }
            lemma_extend_nonnegative(grown, ahead, from + 1, now);
        }
    }
}

/// The forecast is never negative, as long as no clock ran backwards.
pub proof fn lemma_forecast_nonnegative(
    target: QueueEntry,
    history: Seq<QueueEntry>,
    ahead: Seq<QueueEntry>,
    now: Timestamp,
)
    requires
        well_timed(history, ahead, now),
    ensures
        forecast(target, history, ahead, now) >= 0,
{
    if history.len() == 0 {
        if ahead.len() > 0 {
            let wait = age_seconds(ahead[0].created_at, now);
            let places = ahead.len() + 1;
            assert(wait * places >= 0) by (nonlinear_arith)
                requires
                    wait >= 0,
                    places >= 1,
            ;
        }
    } else {
        let series = history_series(history);
        assert forall|i: int| 0 <= i < series.len() implies #[trigger] series[i] >= 0 by {
            assert(history[i].created_at@ <= history[i].updated_at@);
        }
        lemma_extend_nonnegative(series, ahead, 0, now);
        let full = extend_with_waits(series, ahead, 0, now);
        lemma_smoothed_numerator_nonnegative(full);
        let n = smoothed_numerator(full);
        let p = pow5((full.len() - 1) as nat);
        lemma_pow5_positive((full.len() - 1) as nat);
        assert(n / p >= 0) by (nonlinear_arith)
            requires
                n >= 0,
                p > 0,
        ;
    }
}

/// Computes [`forecast`].
pub fn estimate_wait(
    target: &QueueEntry,
    history: &Vec<QueueEntry>,
    ahead: &Vec<QueueEntry>,
    now: &Timestamp,
) -> (r: i128)
    ensures
        r == forecast(*target, history@, ahead@, *now),
        history@.len() == 0 && ahead@.len() == 0 ==> r == DEFAULT_FORECAST,
        well_timed(history@, ahead@, *now) ==> r >= 0,
{
    proof {
        if well_timed(history@, ahead@, *now) {
            lemma_forecast_nonnegative(*target, history@, ahead@, *now);
        }
    }
    if history.len() == 0 {
        if ahead.len() == 0 {
            return DEFAULT_FORECAST as i128;
        }
        let head_wait = now.seconds_since(&ahead[0].created_at);
        let places: i128 = ahead.len() as i128 + 1;
        assert(-MAX_SPAN_SECONDS * 0x1_0000_0000_0000_0000 <= head_wait * places <= MAX_SPAN_SECONDS
            * 0x1_0000_0000_0000_0000) by (nonlinear_arith)
            requires
                -MAX_SPAN_SECONDS <= head_wait <= MAX_SPAN_SECONDS,
                1 <= places <= 0x1_0000_0000_0000_0000,
        ;
        return head_wait as i128 * places;
    }
    let depth = if history.len() <= HISTORY_LIMIT {
        history.len()
    } else {
        HISTORY_LIMIT
    };
    let mut smoother = Smoother::new(history[0].updated_at.seconds_since(&history[0].created_at));
    let mut i: usize = 1;
    while i < depth
        invariant
            1 <= i <= depth,
            depth == history_depth(history@.len()),
            smoother@ =~= history_series(history@).subrange(0, i as int),
        decreases depth - i,
    {
        let spent = history[i].updated_at.seconds_since(&history[i].created_at);
        smoother = smoother.push(spent);
        i += 1;
    }
    assert(smoother@ =~= history_series(history@));
    let mut j: usize = 0;
    while j < ahead.len()
        invariant
            j <= ahead.len(),
            smoother@.len() >= 1,
            extend_with_waits(smoother@, ahead@, j as int, *now) == extend_with_waits(
                history_series(history@),
                ahead@,
                0,
                *now,
            ),
        ensures
            smoother@ == extend_with_waits(history_series(history@), ahead@, 0, *now),
        decreases ahead.len() - j,
    {
        let wait = now.seconds_since(&ahead[j].created_at);
        if !smoother.exceeded_by(wait) {
            break ;
        }
        smoother = smoother.push(wait);
        j += 1;
    }
    let raw = smoother.seconds();
    let elapsed = now.seconds_since(&target.created_at);
    let left: i128 = raw as i128 - elapsed as i128;
    if left > 0 {
        left
    } else {
        raw as i128
    }
}

/// The answer to someone who asks how a request stands.
#[derive(Clone, Copy, Debug, PartialEq, Eq, Structural)]
pub struct WaitStatus {
    /// The status of the requester's latest entry.
    pub status: Status,
    /// The forecast in seconds, while the entry is searching.
    pub eta_seconds: Option<i128>,
}

/// The answer for `entry`: its status, and the forecast while it is searching.
pub open spec fn status_report(
    entry: QueueEntry,
    history: Seq<QueueEntry>,
    ahead: Seq<QueueEntry>,
    now: Timestamp,
) -> WaitStatus {
    if entry.status == Status::Searching {
        WaitStatus {
            status: entry.status,
            eta_seconds: Some(forecast(entry, history, ahead, now) as i128),
        }
    } else {
        WaitStatus { status: entry.status, eta_seconds: None }
    }
}

/// Computes [`status_report`] for the requester's latest entry. `history`
/// and `ahead` are read only while the entry is searching.
pub fn wait_status(
    entry: &QueueEntry,
    history: &Vec<QueueEntry>,
    ahead: &Vec<QueueEntry>,
    now: &Timestamp,
) -> (r: WaitStatus)
    ensures
        r == status_report(*entry, history@, ahead@, *now),
        r.status == entry.status,
        r.eta_seconds is Some <==> entry.status == Status::Searching,
        r.eta_seconds matches Some(eta) ==> eta == forecast(*entry, history@, ahead@, *now),
{
    match entry.status {
        Status::Searching => WaitStatus {
            status: entry.status,
            eta_seconds: Some(estimate_wait(entry, history, ahead, now)),
        },
        _ => WaitStatus { status: entry.status, eta_seconds: None },
    }
}

} // verus!
