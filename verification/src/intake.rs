//! Request intake: what happens when a requester asks for a courier.
//!
//! The intake reads the queue and the courier registry through whoever runs
//! it. It is written as a machine that is handed one observation at a time
//! and answers with the next thing to do, so that the decisions can be
//! checked apart from the store they act on.

use vstd::prelude::*;
use crate::model::{Courier, MatchOutcome, QueueEntry, Status};
use crate::time::{whole_seconds, Timestamp};

verus! {

/// True when `requester` has an entry among `queue` that is still searching.
pub open spec fn owns_searching_entry(queue: Seq<QueueEntry>, requester: u128) -> bool {
    exists|i: int|
        0 <= i < queue.len() && (#[trigger] queue[i]).requester == requester
            && queue[i].status == Status::Searching
}

/// Tells whether `requester` has an entry among `queue` that is still searching.
pub fn is_waiting(queue: &Vec<QueueEntry>, requester: u128) -> (r: bool)
    ensures
        r == owns_searching_entry(queue@, requester),
{
    let mut i: usize = 0;
    while i < queue.len()
        invariant
            i <= queue.len(),
            forall|j: int|
                0 <= j < i ==> !((#[trigger] queue@[j]).requester == requester
                    && queue@[j].status == Status::Searching),
        decreases queue.len() - i,
    {
        if queue[i].requester == requester && queue[i].status == Status::Searching {
            return true;
        }
        i += 1;
    }
    false
}

/// Whole seconds from `created` to `now`, rounded towards zero.
pub open spec fn age_seconds(created: Timestamp, now: Timestamp) -> int {
    whole_seconds(now@ - created@)
}

/// The seconds that a requester still has to let pass before asking again:
/// the part of the cool-down `window` that has not gone by since the last
/// attempt was created, or zero once the window is over.
pub open spec fn retry_wait(last_attempt: Timestamp, now: Timestamp, window: int) -> int {
    let waited = age_seconds(last_attempt, now);
    if waited < window {
        window - waited
    } else {
        0
    }
}

/// Computes [`retry_wait`]. A positive result means that the requester is
/// throttled for that many seconds.
pub fn seconds_until_retry(last_attempt: &Timestamp, now: &Timestamp, window: i32) -> (r: i64)
    ensures
        r == retry_wait(*last_attempt, *now, window as int),
        r >= 0,
        r > 0 <==> age_seconds(*last_attempt, *now) < window,
{
    let waited = now.seconds_since(last_attempt);
    if waited < window as i64 {
        window as i64 - waited
    } else {
        0
    }
}

/// Where one intake call stands between two observations.
#[derive(Clone, Copy, Debug, PartialEq, Eq, Structural)]
pub enum IntakeState {
    /// The searching entries have been asked for.
    AwaitingQueue,
    /// The queue was empty; a free courier has been asked for.
    AwaitingCourier,
    /// A free courier was seen; the claim on it is under way.
    AwaitingClaim { courier: Courier },
    /// Others are waiting; the requester's last attempt has been asked for.
    AwaitingLastAttempt,
    /// A new entry is being written.
    AwaitingInsert,
    /// The call has been answered.
    Finished,
}

/// What the stores answered.
#[derive(Debug)]
pub enum IntakeEvent {
    /// The entries that are searching, oldest first.
    Queue { entries: Vec<QueueEntry> },
    /// One free courier, if there is any.
    FreeCourier { courier: Option<Courier> },
    /// The claim went through on `rows` couriers: zero when someone else
    /// took the courier first.
    Claimed { rows: usize },
    /// When the requester's latest entry, of any status, was created.
    LastAttempt { created_at: Option<Timestamp> },
    /// The new entry is written.
    Inserted,
    /// A read or write failed.
    StoreUnavailable,
}

/// What to do next.
#[derive(Clone, Copy, Debug, PartialEq, Eq, Structural)]
pub enum IntakeAction {
    /// Read the searching entries.
    ReadSearching,
    /// Look for one free courier.
    FindFreeCourier,
    /// Mark the courier busy, provided it is still free.
    ClaimCourier { courier: u128 },
    /// Read the requester's latest entry.
    ReadLastAttempt { requester: u128 },
    /// Append a searching entry for the requester.
    InsertSearching { requester: u128 },
    /// Answer the caller.
    Reply { outcome: MatchOutcome },
    /// Answer the caller with an internal error.
    Fail,
}

/// The intake's rule: the state and action that follow `event` in `state`.
///
/// With an empty queue the requester gets a free courier at once, or joins
/// the queue when there is none or the claim was lost to someone else. With
/// a queue, a requester who is in it is told so; any other requester joins
/// unless the last attempt is younger than the cool-down `window`.
pub open spec fn intake_transition(
    state: IntakeState,
    event: IntakeEvent,
    requester: u128,
    now: Timestamp,
    window: int,
) -> (IntakeState, IntakeAction) {
    match (state, event) {
        (IntakeState::AwaitingQueue, IntakeEvent::Queue { entries }) => {
            if entries@.len() == 0 {
                (IntakeState::AwaitingCourier, IntakeAction::FindFreeCourier)
            } else if owns_searching_entry(entries@, requester) {
                (
                    IntakeState::Finished,
                    IntakeAction::Reply { outcome: MatchOutcome::AlreadyQueued },
                )
            } else {
                (IntakeState::AwaitingLastAttempt, IntakeAction::ReadLastAttempt { requester })
            }
        },
        (IntakeState::AwaitingCourier, IntakeEvent::FreeCourier { courier: Some(courier) }) => (
            IntakeState::AwaitingClaim { courier },
            IntakeAction::ClaimCourier { courier: courier.id },
        ),
        (IntakeState::AwaitingCourier, IntakeEvent::FreeCourier { courier: None }) => (
            IntakeState::AwaitingInsert,
            IntakeAction::InsertSearching { requester },
        ),
        (IntakeState::AwaitingClaim { courier }, IntakeEvent::Claimed { rows }) => {
            if rows > 0 {
                (
                    IntakeState::Finished,
                    IntakeAction::Reply {
                        outcome: MatchOutcome::Matched {
                            courier: Courier { is_free: false, ..courier },
                        },
                    },
                )
            } else {
                (IntakeState::AwaitingInsert, IntakeAction::InsertSearching { requester })
            }
        },
        (IntakeState::AwaitingLastAttempt, IntakeEvent::LastAttempt { created_at: Some(last) }) => {
            if retry_wait(last, now, window) > 0 {
                (
                    IntakeState::Finished,
                    IntakeAction::Reply {
                        outcome: MatchOutcome::Throttled {
                            seconds_remaining: retry_wait(last, now, window) as i64,
                        },
                    },
                )
            } else {
                (IntakeState::AwaitingInsert, IntakeAction::InsertSearching { requester })
            }
        },
        (IntakeState::AwaitingLastAttempt, IntakeEvent::LastAttempt { created_at: None }) => (
            IntakeState::AwaitingInsert,
            IntakeAction::InsertSearching { requester },
        ),
        (IntakeState::AwaitingInsert, IntakeEvent::Inserted) => (
            IntakeState::Finished,
            IntakeAction::Reply { outcome: MatchOutcome::QueuedNew },
        ),
        _ => (IntakeState::Finished, IntakeAction::Fail),
    }
}

/// Opens an intake call: the first thing to do is to read the queue.
pub fn intake_begin() -> (r: (IntakeState, IntakeAction))
    ensures
        r == (IntakeState::AwaitingQueue, IntakeAction::ReadSearching),
{
    (IntakeState::AwaitingQueue, IntakeAction::ReadSearching)
}

/// Takes one observation and answers with the next state and action, as
/// [`intake_transition`] lays down. An observation that does not belong to
/// the state, or a store failure, ends the call with `Fail`.
pub fn intake_step(
    state: IntakeState,
    event: IntakeEvent,
    requester: u128,
    now: &Timestamp,
    window: i32,
) -> (r: (IntakeState, IntakeAction))
    ensures
        r == intake_transition(state, event, requester, *now, window as int),
{
    match (state, event) {
        (IntakeState::AwaitingQueue, IntakeEvent::Queue { entries }) => {
            if entries.len() == 0 {
                (IntakeState::AwaitingCourier, IntakeAction::FindFreeCourier)
            } else if is_waiting(&entries, requester) {
                (
                    IntakeState::Finished,
                    IntakeAction::Reply { outcome: MatchOutcome::AlreadyQueued },
                )
            } else {
                (IntakeState::AwaitingLastAttempt, IntakeAction::ReadLastAttempt { requester })
            }
        },
        (IntakeState::AwaitingCourier, IntakeEvent::FreeCourier { courier: Some(courier) }) => (
            IntakeState::AwaitingClaim { courier },
            IntakeAction::ClaimCourier { courier: courier.id },
        ),
        (IntakeState::AwaitingCourier, IntakeEvent::FreeCourier { courier: None }) => (
            IntakeState::AwaitingInsert,
            IntakeAction::InsertSearching { requester },
        ),
        (IntakeState::AwaitingClaim { courier }, IntakeEvent::Claimed { rows }) => {
            if rows > 0 {
                let claimed = Courier {
                    id: courier.id,
                    is_free: false,
                    rating_bits: courier.rating_bits,
                };
                (
                    IntakeState::Finished,
                    IntakeAction::Reply { outcome: MatchOutcome::Matched { courier: claimed } },
                )
            } else {
                (IntakeState::AwaitingInsert, IntakeAction::InsertSearching { requester })
            }
        },
        (IntakeState::AwaitingLastAttempt, IntakeEvent::LastAttempt { created_at: Some(last) }) => {
            let wait = seconds_until_retry(&last, now, window);
            if wait > 0 {
                (
                    IntakeState::Finished,
                    IntakeAction::Reply {
                        outcome: MatchOutcome::Throttled { seconds_remaining: wait },
                    },
                )
            } else {
                (IntakeState::AwaitingInsert, IntakeAction::InsertSearching { requester })
            }
        },
        (IntakeState::AwaitingLastAttempt, IntakeEvent::LastAttempt { created_at: None }) => (
            IntakeState::AwaitingInsert,
            IntakeAction::InsertSearching { requester },
        ),
        (IntakeState::AwaitingInsert, IntakeEvent::Inserted) => (
            IntakeState::Finished,
            IntakeAction::Reply { outcome: MatchOutcome::QueuedNew },
        ),
        _ => (IntakeState::Finished, IntakeAction::Fail),
    }
}

} // verus!
