//! What holds of the engine whatever the queue, the couriers and the clock.

use vstd::prelude::*;
use crate::cycle::{cycle_match, expires, lemma_next_searching, queue_after_cycle, swept};
use crate::engine::{couriers_after_intake, intake_outcome, queue_after_intake};
use crate::intake::{age_seconds, owns_searching_entry};
use crate::matcher::is_stale;
use crate::model::{Courier, MatchOutcome, QueueEntry, Status};
use crate::store::{any_searching, evolves, latest_of};
use crate::time::{whole_seconds, Timestamp};

verus! {

/// True when the entries stand in the order in which they were created.
pub open spec fn in_arrival_order(queue: Seq<QueueEntry>) -> bool {
    forall|i: int, j: int|
        0 <= i < j < queue.len() ==> (#[trigger] queue[i]).created_at@ <= (
        #[trigger] queue[j]).created_at@
}

/// A longer span holds no fewer whole seconds.
pub proof fn lemma_whole_seconds_monotonic(shorter: int, longer: int)
    requires
        shorter <= longer,
    ensures
        whole_seconds(shorter) <= whole_seconds(longer),
{
}

/// The matcher serves the head of the queue: the entry that a cycle binds to
/// a courier was searching and not stale, and after the cycle no entry in
/// front of it is searching any more.
pub proof fn lemma_match_takes_the_head(
    queue: Seq<QueueEntry>,
    couriers: Seq<Courier>,
    now: Timestamp,
    max_wait: int,
)
    ensures
        cycle_match(queue, couriers, now, max_wait) matches Some((head, _)) ==> {
            &&& 0 <= head < queue.len()
            &&& queue[head].status == Status::Searching
            &&& !is_stale(queue[head], now, max_wait)
            &&& queue_after_cycle(queue, couriers, now, max_wait)[head].status == Status::Completed
            &&& forall|j: int|
                0 <= j < head ==> (#[trigger] queue_after_cycle(
                    queue,
                    couriers,
                    now,
                    max_wait,
                )[j]).status != Status::Searching
        },
{
    lemma_next_searching(swept(queue, now, max_wait), 0);
}

/// First come, first served: where the entries stand in the order in which
/// they were created, a cycle never settles an entry while an older one
/// stays searching.
pub proof fn lemma_cycle_settles_oldest_first(
    queue: Seq<QueueEntry>,
    couriers: Seq<Courier>,
    now: Timestamp,
    max_wait: int,
)
    requires
        in_arrival_order(queue),
    ensures
        forall|j: int, k: int|
            #![trigger queue[j], queue[k]]
            0 <= j < k < queue.len() && queue[k].status == Status::Searching && queue_after_cycle(
                queue,
                couriers,
                now,
                max_wait,
            )[k].status != Status::Searching ==> queue_after_cycle(
                queue,
                couriers,
                now,
                max_wait,
            )[j].status != Status::Searching,
{
    let after = queue_after_cycle(queue, couriers, now, max_wait);
    let mid = swept(queue, now, max_wait);
    lemma_next_searching(mid, 0);
    assert forall|j: int, k: int|
        #![trigger queue[j], queue[k]]
        0 <= j < k < queue.len() && queue[k].status == Status::Searching && after[k].status
            != Status::Searching implies after[j].status != Status::Searching by {
        if expires(queue[k], now, max_wait) {
            if queue[j].status == Status::Searching {
                assert(queue[j].created_at@ <= queue[k].created_at@);
                lemma_whole_seconds_monotonic(
                    now@ - queue[k].created_at@,
                    now@ - queue[j].created_at@,
                );
                assert(expires(queue[j], now, max_wait));
            }
            assert(mid[j].status != Status::Searching);
        } else {
            assert(mid[k] == queue[k]);
        }
    }
}

/// Asking again changes nothing: a requester who has a searching entry is
/// told `AlreadyQueued`, at any time and as often as the requester asks,
/// and neither store changes.
pub proof fn lemma_reentry_is_idempotent(
    queue: Seq<QueueEntry>,
    couriers: Seq<Courier>,
    requester: u128,
    first: Timestamp,
    second: Timestamp,
    window: int,
)
    requires
        owns_searching_entry(queue, requester),
    ensures
        intake_outcome(queue, couriers, requester, first, window) == MatchOutcome::AlreadyQueued,
        queue_after_intake(queue, couriers, requester, first, window) == queue,
        couriers_after_intake(queue, couriers, requester, first, window) == couriers,
        intake_outcome(
            queue_after_intake(queue, couriers, requester, first, window),
            couriers_after_intake(queue, couriers, requester, first, window),
            requester,
            second,
            window,
        ) == MatchOutcome::AlreadyQueued,
        queue_after_intake(
            queue_after_intake(queue, couriers, requester, first, window),
            couriers_after_intake(queue, couriers, requester, first, window),
            requester,
            second,
            window,
        ) == queue,
{
    let i = choose|i: int|
        0 <= i < queue.len() && (#[trigger] queue[i]).requester == requester && queue[i].status
            == Status::Searching;
    assert(queue[i].status == Status::Searching);
}

/// A requester who joined the queue has a searching entry in it, the one
/// entry that the request added.
pub proof fn lemma_joined_requester_is_searching(
    queue: Seq<QueueEntry>,
    couriers: Seq<Courier>,
    requester: u128,
    now: Timestamp,
    window: int,
)
    requires
        intake_outcome(queue, couriers, requester, now, window) is QueuedNew,
    ensures
        queue_after_intake(queue, couriers, requester, now, window).len() == queue.len() + 1,
        owns_searching_entry(
            queue_after_intake(queue, couriers, requester, now, window),
            requester,
        ),
{
    let after = queue_after_intake(queue, couriers, requester, now, window);
    assert(after[queue.len() as int].requester == requester);
}

/// A request leaves every settled entry as it was.
pub proof fn lemma_intake_keeps_settled(
    queue: Seq<QueueEntry>,
    couriers: Seq<Courier>,
    requester: u128,
    now: Timestamp,
    window: int,
)
    ensures
        evolves(queue, queue_after_intake(queue, couriers, requester, now, window)),
{
}

/// A cycle of the matcher leaves every settled entry as it was.
pub proof fn lemma_cycle_keeps_settled(
    queue: Seq<QueueEntry>,
    couriers: Seq<Courier>,
    now: Timestamp,
    max_wait: int,
)
    ensures
        evolves(queue, queue_after_cycle(queue, couriers, now, max_wait)),
{
    lemma_next_searching(swept(queue, now, max_wait), 0);
}

/// Settled is settled for good: what holds from one state of the log to the
/// next holds over any number of steps.
pub proof fn lemma_evolves_transitive(
    first: Seq<QueueEntry>,
    second: Seq<QueueEntry>,
    third: Seq<QueueEntry>,
)
    requires
        evolves(first, second),
        evolves(second, third),
    ensures
        evolves(first, third),
{
    assert forall|i: int| 0 <= i < first.len() implies {
        &&& (#[trigger] third[i]).id == first[i].id
        &&& third[i].requester == first[i].requester
        &&& third[i].created_at == first[i].created_at
        &&& first[i].status.is_terminal() ==> third[i] == first[i]
    } by {
        assert(second[i].id == first[i].id);
    }
}

/// The throttle: while others are searching, a requester whose last attempt
/// was created `T` seconds ago is told to wait `window - T` seconds when
/// `T < window`, and joins the queue when `T >= window`.
pub proof fn lemma_throttle(
    queue: Seq<QueueEntry>,
    couriers: Seq<Courier>,
    requester: u128,
    last: QueueEntry,
    now: Timestamp,
    window: i32,
)
    requires
        any_searching(queue),
        !owns_searching_entry(queue, requester),
        latest_of(queue, requester) == Some(last),
        last.created_at.in_range(),
        now.in_range(),
    ensures
        age_seconds(last.created_at, now) < window ==> intake_outcome(
            queue,
            couriers,
            requester,
            now,
            window as int,
        ) == (MatchOutcome::Throttled {
            seconds_remaining: (window - age_seconds(last.created_at, now)) as i64,
        }) && i64::MIN <= window - age_seconds(last.created_at, now) <= i64::MAX,
        age_seconds(last.created_at, now) >= window ==> intake_outcome(
            queue,
            couriers,
            requester,
            now,
            window as int,
        ) == MatchOutcome::QueuedNew,
{
}

} // verus!
