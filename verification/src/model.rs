//! The records that the matching engine reads and writes.

use vstd::prelude::*;
use crate::time::Timestamp;

verus! {

/// Where a queue entry stands. An entry starts as `Searching` and ends as
/// `Completed` (a courier was found) or `Expired` (it waited too long).
#[derive(Clone, Copy, Debug, PartialEq, Eq, Structural)]
pub enum Status {
    Searching,
    Completed,
    Expired,
}

impl Status {
    /// True for the two states that an entry never leaves.
    pub open spec fn is_terminal(self) -> bool {
        self != Status::Searching
    }

    /// True for the two states that an entry never leaves.
    pub fn terminal(&self) -> (r: bool)
        ensures
            r == self.is_terminal(),
    {
        match self {
            Status::Searching => false,
            Status::Completed => true,
            Status::Expired => true,
        }
    }
}

/// One requester's place in the queue.
#[derive(Clone, Copy, Debug)]
pub struct QueueEntry {
    /// Sequence id, handed out in insertion order; smaller ids are served first.
    pub id: i64,
    /// Who is waiting.
    pub requester: u128,
    pub status: Status,
    /// When the entry joined the queue.
    pub created_at: Timestamp,
    /// When the status last changed.
    pub updated_at: Timestamp,
}

/// A courier as the registry reports it.
#[derive(Clone, Copy, Debug, PartialEq, Eq, Structural)]
pub struct Courier {
    pub id: u128,
    pub is_free: bool,
    /// The rating as the bit pattern of a double-precision number; the engine
    /// hands it on unread.
    pub rating_bits: u64,
}

/// What a request for a courier came to.
#[derive(Clone, Copy, Debug, PartialEq, Eq, Structural)]
pub enum MatchOutcome {
    /// A free courier was claimed at once.
    Matched { courier: Courier },
    /// The requester joined the queue.
    QueuedNew,
    /// The requester was already waiting; nothing was added.
    AlreadyQueued,
    /// The requester's entry ran out of time. A request for a courier is
    /// never answered with it: an expired requester simply asks anew.
    Expired,
    /// The requester has to wait before asking again.
    Throttled { seconds_remaining: i64 },
}

} // verus!
