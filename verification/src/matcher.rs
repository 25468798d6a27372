//! The matcher: the cycle that expires stale entries and binds the head of
//! the queue to a free courier.
//!
//! Like the intake it is a machine that is handed one observation at a time.
//! Whoever runs it performs the action, sends the notification, if there is
//! one, without waiting for its outcome, and comes back with what the store
//! answered and the current time.

use vstd::prelude::*;
use crate::intake::age_seconds;
use crate::model::{Courier, QueueEntry};
use crate::time::Timestamp;

verus! {

/// Seconds that the matcher rests when it finds the queue empty or a store
/// out of reach.
pub const IDLE_SECONDS: u64 = 2;

/// True when `entry` has waited longer than `max_wait` seconds at `now`.
pub open spec fn is_stale(entry: QueueEntry, now: Timestamp, max_wait: int) -> bool {
    age_seconds(entry.created_at, now) > max_wait
}

/// Tells whether `entry` has waited longer than `max_wait` seconds at `now`.
pub fn stale(entry: &QueueEntry, now: &Timestamp, max_wait: i32) -> (r: bool)
    ensures
        r == is_stale(*entry, *now, max_wait as int),
{
    now.seconds_since(&entry.created_at) > max_wait as i64
}

/// A message for the peer services. It is sent once and never waited for.
#[derive(Clone, Copy, Debug, PartialEq, Eq, Structural)]
pub enum Notification {
    /// The requester's entry ran out of time.
    Expired { requester: u128 },
    /// A courier is on the way to the requester.
    Matched { requester: u128, courier: u128, rating_bits: u64 },
}

/// What the matcher asks of its surroundings.
#[derive(Clone, Copy, Debug, PartialEq, Eq, Structural)]
pub enum MatcherAction {
    /// Read the searching entries, oldest first.
    ReadSearching,
    /// Rest for so many seconds.
    Sleep { seconds: u64 },
    /// Set the entry to expired, provided it is still searching.
    Expire { entry: i64 },
    /// Look for one free courier.
    FindFreeCourier,
    /// Set the entry to completed, provided it is still searching.
    Complete { entry: i64 },
    /// Mark the courier busy, provided it is still free.
    ClaimCourier { courier: u128 },
}

/// What the surroundings answered.
#[derive(Debug)]
pub enum MatcherEvent {
    /// The entries that are searching, oldest first.
    Queue { entries: Vec<QueueEntry> },
    /// The rest is over.
    Slept,
    /// The status change went through on `rows` entries: zero when someone
    /// else had already settled the entry.
    StatusChanged { rows: usize },
    /// One free courier, if there is any.
    FreeCourier { courier: Option<Courier> },
    /// The claim went through on `rows` couriers.
    CourierClaimed { rows: usize },
    /// A read or write failed.
    StoreUnavailable,
}

/// Where the matcher stands between two observations.
#[derive(Debug)]
pub enum MatcherState {
    /// The searching entries have been asked for.
    AwaitingQueue,
    /// Resting before the next cycle.
    Sleeping,
    /// Going through the snapshot `queue`: the entries before `next` have
    /// been looked at, `expiring` is being set to expired, and `survivor` is the
    /// oldest entry seen so far that was not stale.
    Sweeping {
        queue: Vec<QueueEntry>,
        next: usize,
        survivor: Option<QueueEntry>,
        expiring: QueueEntry,
    },
    /// A free courier has been asked for on behalf of `head`.
    AwaitingCourier { head: QueueEntry },
    /// `head` is being set to completed; `courier` was seen free.
    AwaitingCompletion { head: QueueEntry, courier: Courier },
    /// `head` is completed; the claim on `courier` is under way.
    AwaitingClaim { head: QueueEntry, courier: Courier },
    /// `head` ran out of time while waiting and is being set to expired.
    ExpiringHead { head: QueueEntry },
}

/// One answer of the matcher.
#[derive(Debug)]
pub struct MatcherOutput {
    pub state: MatcherState,
    /// To be sent without waiting for the outcome.
    pub notify: Option<Notification>,
    pub action: MatcherAction,
}

/// The oldest entry seen so far that is not stale: `head` if there is one,
/// else `entry`.
pub open spec fn first_survivor(head: Option<QueueEntry>, entry: QueueEntry) -> Option<QueueEntry> {
    if head is Some {
        head
    } else {
        Some(entry)
    }
}

/// The matcher turns to the head of the queue: without one the cycle is
/// over; a head that has gone stale is expired; for any other a free courier
/// is looked for.
pub open spec fn serve(head: Option<QueueEntry>, now: Timestamp, max_wait: int) -> (
    MatcherState,
    MatcherAction,
) {
    match head {
        None => (MatcherState::AwaitingQueue, MatcherAction::ReadSearching),
        Some(h) => if is_stale(h, now, max_wait) {
            (MatcherState::ExpiringHead { head: h }, MatcherAction::Expire { entry: h.id })
        } else {
            (MatcherState::AwaitingCourier { head: h }, MatcherAction::FindFreeCourier)
        },
    }
}

/// The sweep goes on at position `from` of the snapshot: it stops at the
/// first stale entry to expire it, remembers on the way the oldest entry
/// that is not stale, and at the end turns to that entry.
pub open spec fn sweep(
    queue: Vec<QueueEntry>,
    from: int,
    head: Option<QueueEntry>,
    now: Timestamp,
    max_wait: int,
) -> (MatcherState, MatcherAction)
    decreases queue@.len() - from,
{
    if from < 0 || from >= queue@.len() {
        serve(head, now, max_wait)
    } else if is_stale(queue@[from], now, max_wait) {
        (
            MatcherState::Sweeping {
                queue,
                next: (from + 1) as usize,
                survivor: head,
                expiring: queue@[from],
            },
            MatcherAction::Expire { entry: queue@[from].id },
        )
    } else {
        sweep(queue, from + 1, first_survivor(head, queue@[from]), now, max_wait)
    }
}

/// The position of the first stale entry at or after `from`, or the length
/// of the queue when there is none.
pub open spec fn first_stale(
    queue: Seq<QueueEntry>,
    from: int,
    now: Timestamp,
    max_wait: int,
) -> int
    decreases queue.len() - from,
{
    if from < 0 || from >= queue.len() {
        queue.len() as int
    } else if is_stale(queue[from], now, max_wait) {
        from
    } else {
        first_stale(queue, from + 1, now, max_wait)
    }
}

/// The first stale entry at or after `from` is stale, and nothing between
/// `from` and it is.
pub proof fn lemma_first_stale(queue: Seq<QueueEntry>, from: int, now: Timestamp, max_wait: int)
    requires
        0 <= from <= queue.len(),
    ensures
        from <= first_stale(queue, from, now, max_wait) <= queue.len(),
        first_stale(queue, from, now, max_wait) < queue.len() ==> is_stale(
            queue[first_stale(queue, from, now, max_wait)],
            now,
            max_wait,
        ),
        forall|k: int|
            from <= k < first_stale(queue, from, now, max_wait) ==> !is_stale(
                #[trigger] queue[k],
                now,
                max_wait,
            ),
    decreases queue.len() - from,
{
    if from < queue.len() && !is_stale(queue[from], now, max_wait) {
        lemma_first_stale(queue, from + 1, now, max_wait);
    }
}

/// The sweep skips nothing and serves in order: from `from` on it stops at
/// the first stale entry and expires it, and every entry that it passed was
/// not stale. The entry that it keeps for serving is the one it held
/// already, else the first that it passed. At the end of the queue it turns
/// to that entry.
pub proof fn lemma_sweep_stops_at_first_stale(
    queue: Vec<QueueEntry>,
    from: int,
    head: Option<QueueEntry>,
    now: Timestamp,
    max_wait: int,
)
    requires
        0 <= from <= queue@.len(),
        queue@.len() <= usize::MAX,
    ensures
        ({
            let stop = first_stale(queue@, from, now, max_wait);
            let kept = if head is Some {
                head
            } else if from < stop {
                Some(queue@[from])
            } else {
                None
            };
            sweep(queue, from, head, now, max_wait) == if stop < queue@.len() {
                (
                    MatcherState::Sweeping {
                        queue,
                        next: (stop + 1) as usize,
                        survivor: kept,
                        expiring: queue@[stop],
                    },
                    MatcherAction::Expire { entry: queue@[stop].id },
                )
            } else {
                serve(kept, now, max_wait)
            }
        }),
    decreases queue@.len() - from,
{
    lemma_first_stale(queue@, from, now, max_wait);
    if from < queue@.len() && !is_stale(queue@[from], now, max_wait) {
        lemma_sweep_stops_at_first_stale(
            queue,
            from + 1,
            first_survivor(head, queue@[from]),
            now,
            max_wait,
        );
        lemma_first_stale(queue@, from + 1, now, max_wait);
    }
}

/// The notification that follows a status change to expired: none when the
/// change touched no entry, because someone else had settled it.
pub open spec fn expiry_notice(entry: QueueEntry, rows: usize) -> Option<Notification> {
    if rows > 0 {
        Some(Notification::Expired { requester: entry.requester })
    } else {
        None
    }
}

/// The notification that follows the claim on a courier: none when the claim
/// touched no courier.
pub open spec fn match_notice(head: QueueEntry, courier: Courier, rows: usize) -> Option<
    Notification,
> {
    if rows > 0 {
        Some(
            Notification::Matched {
                requester: head.requester,
                courier: courier.id,
                rating_bits: courier.rating_bits,
            },
        )
    } else {
        None
    }
}

/// The matcher's rule: what follows `event` in `state` at time `now`.
///
/// A cycle reads the searching entries; rests when there are none; expires
/// every entry that has waited longer than `max_wait` seconds; then serves
/// the oldest entry that is left until a courier is found for it or it goes
/// stale itself. A store failure, or an observation that does not belong to
/// the state, sends the matcher to rest before the next cycle.
pub open spec fn matcher_transition(
    state: MatcherState,
    event: MatcherEvent,
    now: Timestamp,
    max_wait: int,
) -> MatcherOutput {
    match (state, event) {
        (MatcherState::AwaitingQueue, MatcherEvent::Queue { entries }) => {
            if entries@.len() == 0 {
                MatcherOutput {
                    state: MatcherState::Sleeping,
                    notify: None,
                    action: MatcherAction::Sleep { seconds: IDLE_SECONDS },
                }
            } else {
                let next = sweep(entries, 0, None, now, max_wait);
                MatcherOutput { state: next.0, notify: None, action: next.1 }
            }
        },
        (MatcherState::Sleeping, MatcherEvent::Slept) => MatcherOutput {
            state: MatcherState::AwaitingQueue,
            notify: None,
            action: MatcherAction::ReadSearching,
        },
        (
            MatcherState::Sweeping { queue, next, survivor, expiring },
            MatcherEvent::StatusChanged { rows },
        ) => {
            let step = sweep(queue, next as int, survivor, now, max_wait);
            MatcherOutput { state: step.0, notify: expiry_notice(expiring, rows), action: step.1 }
        },
        (MatcherState::AwaitingCourier { head }, MatcherEvent::FreeCourier { courier: None }) => {
            let step = serve(Some(head), now, max_wait);
            MatcherOutput { state: step.0, notify: None, action: step.1 }
        },
        (
            MatcherState::AwaitingCourier { head },
            MatcherEvent::FreeCourier { courier: Some(courier) },
        ) => MatcherOutput {
            state: MatcherState::AwaitingCompletion { head, courier },
            notify: None,
            action: MatcherAction::Complete { entry: head.id },
        },
        (
            MatcherState::AwaitingCompletion { head, courier },
            MatcherEvent::StatusChanged { rows },
        ) => {
            if rows > 0 {
                MatcherOutput {
                    state: MatcherState::AwaitingClaim { head, courier },
                    notify: None,
                    action: MatcherAction::ClaimCourier { courier: courier.id },
                }
            } else {
                MatcherOutput {
                    state: MatcherState::AwaitingQueue,
                    notify: None,
                    action: MatcherAction::ReadSearching,
                }
            }
        },
        (MatcherState::AwaitingClaim { head, courier }, MatcherEvent::CourierClaimed { rows }) => {
            MatcherOutput {
                state: MatcherState::AwaitingQueue,
                notify: match_notice(head, courier, rows),
                action: MatcherAction::ReadSearching,
            }
        },
        (MatcherState::ExpiringHead { head }, MatcherEvent::StatusChanged { rows }) => {
            MatcherOutput {
                state: MatcherState::AwaitingQueue,
                notify: expiry_notice(head, rows),
                action: MatcherAction::ReadSearching,
            }
        },
        _ => MatcherOutput {
            state: MatcherState::Sleeping,
            notify: None,
            action: MatcherAction::Sleep { seconds: IDLE_SECONDS },
        },
    }
}

/// Turns to the head of the queue, as [`serve`] lays down.
pub fn serve_head(head: Option<QueueEntry>, now: &Timestamp, max_wait: i32) -> (r: (
    MatcherState,
    MatcherAction,
))
    ensures
        r == serve(head, *now, max_wait as int),
{
    match head {
        None => (MatcherState::AwaitingQueue, MatcherAction::ReadSearching),
        Some(h) => {
            if stale(&h, now, max_wait) {
                (MatcherState::ExpiringHead { head: h }, MatcherAction::Expire { entry: h.id })
            } else {
                (MatcherState::AwaitingCourier { head: h }, MatcherAction::FindFreeCourier)
            }
        },
    }
}

/// Goes on with the sweep at position `from`, as [`sweep`] lays down.
pub fn sweep_from(
    queue: Vec<QueueEntry>,
    from: usize,
    head: Option<QueueEntry>,
    now: &Timestamp,
    max_wait: i32,
) -> (r: (MatcherState, MatcherAction))
    ensures
        r == sweep(queue, from as int, head, *now, max_wait as int),
{
    let mut i: usize = from;
    let mut survivor: Option<QueueEntry> = head;
    while i < queue.len()
        invariant
            from <= i,
            sweep(queue, i as int, survivor, *now, max_wait as int) == sweep(
                queue,
                from as int,
                head,
                *now,
                max_wait as int,
            ),
        decreases queue.len() - i,
    {
        let entry = queue[i];
        if stale(&entry, now, max_wait) {
            return (
                MatcherState::Sweeping { queue, next: i + 1, survivor, expiring: entry },
                MatcherAction::Expire { entry: entry.id },
            );
        }
        if survivor.is_none() {
            survivor = Some(entry);
        }
        i += 1;
    }
    serve_head(survivor, now, max_wait)
}

/// Takes one observation and answers with the next state, the notification
/// to send and the next action, as [`matcher_transition`] lays down.
pub fn matcher_step(state: MatcherState, event: MatcherEvent, now: &Timestamp, max_wait: i32) -> (r:
    MatcherOutput)
    ensures
        r == matcher_transition(state, event, *now, max_wait as int),
{
    match (state, event) {
        (MatcherState::AwaitingQueue, MatcherEvent::Queue { entries }) => {
            if entries.len() == 0 {
                MatcherOutput {
                    state: MatcherState::Sleeping,
                    notify: None,
                    action: MatcherAction::Sleep { seconds: IDLE_SECONDS },
                }
            } else {
                let (state, action) = sweep_from(entries, 0, None, now, max_wait);
                MatcherOutput { state, notify: None, action }
            }
        },
        (MatcherState::Sleeping, MatcherEvent::Slept) => MatcherOutput {
            state: MatcherState::AwaitingQueue,
            notify: None,
            action: MatcherAction::ReadSearching,
        },
        (
            MatcherState::Sweeping { queue, next, survivor, expiring },
            MatcherEvent::StatusChanged { rows },
        ) => {
            let notify = if rows > 0 {
                Some(Notification::Expired { requester: expiring.requester })
            } else {
                None
            };
            let (state, action) = sweep_from(queue, next, survivor, now, max_wait);
            MatcherOutput { state, notify, action }
        },
        (MatcherState::AwaitingCourier { head }, MatcherEvent::FreeCourier { courier: None }) => {
            let (state, action) = serve_head(Some(head), now, max_wait);
            MatcherOutput { state, notify: None, action }
        },
        (
            MatcherState::AwaitingCourier { head },
            MatcherEvent::FreeCourier { courier: Some(courier) },
        ) => MatcherOutput {
            state: MatcherState::AwaitingCompletion { head, courier },
            notify: None,
            action: MatcherAction::Complete { entry: head.id },
        },
        (
            MatcherState::AwaitingCompletion { head, courier },
            MatcherEvent::StatusChanged { rows },
        ) => {
            if rows > 0 {
                MatcherOutput {
                    state: MatcherState::AwaitingClaim { head, courier },
                    notify: None,
                    action: MatcherAction::ClaimCourier { courier: courier.id },
                }
            } else {
                MatcherOutput {
                    state: MatcherState::AwaitingQueue,
                    notify: None,
                    action: MatcherAction::ReadSearching,
                }
            }
        },
        (MatcherState::AwaitingClaim { head, courier }, MatcherEvent::CourierClaimed { rows }) => {
            let notify = if rows > 0 {
                Some(
                    Notification::Matched {
                        requester: head.requester,
                        courier: courier.id,
                        rating_bits: courier.rating_bits,
                    },
                )
            } else {
                None
            };
            MatcherOutput {
                state: MatcherState::AwaitingQueue,
                notify,
                action: MatcherAction::ReadSearching,
            }
        },
        (MatcherState::ExpiringHead { head }, MatcherEvent::StatusChanged { rows }) => {
            let notify = if rows > 0 {
                Some(Notification::Expired { requester: head.requester })
            } else {
                None
            };
            MatcherOutput {
                state: MatcherState::AwaitingQueue,
                notify,
                action: MatcherAction::ReadSearching,
            }
        },
        _ => MatcherOutput {
            state: MatcherState::Sleeping,
            notify: None,
            action: MatcherAction::Sleep { seconds: IDLE_SECONDS },
        },
    }
}

/// Starts the matcher: the first thing to do is to read the queue.
pub fn matcher_begin() -> (r: MatcherOutput)
    ensures
        r == (MatcherOutput {
            state: MatcherState::AwaitingQueue,
            notify: None,
            action: MatcherAction::ReadSearching,
        }),
{
    MatcherOutput {
        state: MatcherState::AwaitingQueue,
        notify: None,
        action: MatcherAction::ReadSearching,
    }
}

} // verus!
