//! The answers of the engine in the shape in which they go over the wire.

use vstd::prelude::*;
use crate::estimator::WaitStatus;
use crate::ids::{hyphenated, id_text};
use crate::model::{MatchOutcome, Status};

verus! {

/// The name under which a status is stored and reported.
pub open spec fn status_name(status: Status) -> Seq<char> {
    match status {
        Status::Searching => "SEARCHING"@,
        Status::Completed => "COMPLETED"@,
        Status::Expired => "EXPIRED"@,
    }
}

/// The name under which `status` is stored and reported.
pub fn status_text(status: Status) -> (r: String)
    ensures
        r@ == status_name(status),
{
    match status {
        Status::Searching => "SEARCHING".to_owned(),
        Status::Completed => "COMPLETED".to_owned(),
        Status::Expired => "EXPIRED".to_owned(),
    }
}

/// The status that is stored under the name `text`, if it is the name of one.
pub fn parse_status(text: &str) -> (r: Option<Status>)
    ensures
        r matches Some(status) ==> text@ == status_name(status),
        r is None ==> forall|status: Status| text@ != #[trigger] status_name(status),
{
    let given = text.to_owned();
    if given == "SEARCHING".to_owned() {
        Some(Status::Searching)
    } else if given == "COMPLETED".to_owned() {
        Some(Status::Completed)
    } else if given == "EXPIRED".to_owned() {
        Some(Status::Expired)
    } else {
        None
    }
}

/// The answer to a request for a courier.
#[derive(Debug)]
pub struct FindCourierReply {
    /// The text of the matched courier's id, or `None` when there is none.
    pub courier_uuid: String,
    /// True when the requester is waiting in the queue.
    pub added_to_queue: bool,
    /// Seconds until the requester may ask again; zero when not throttled.
    pub time_untill_next_try: i64,
}

/// The text that stands for the courier of an outcome.
pub open spec fn courier_text(outcome: MatchOutcome) -> Seq<char> {
    match outcome {
        MatchOutcome::Matched { courier } => hyphenated(courier.id),
        _ => "None"@,
    }
}

/// True when the outcome leaves the requester waiting in the queue.
pub open spec fn is_queued(outcome: MatchOutcome) -> bool {
    outcome is QueuedNew || outcome is AlreadyQueued
}

/// The seconds that the outcome asks the requester to wait before the next
/// attempt.
pub open spec fn retry_seconds(outcome: MatchOutcome) -> int {
    match outcome {
        MatchOutcome::Throttled { seconds_remaining } => seconds_remaining as int,
        _ => 0,
    }
}

/// Puts an outcome into the shape of the answer.
pub fn find_courier_reply(outcome: &MatchOutcome) -> (r: FindCourierReply)
    ensures
        r.courier_uuid@ == courier_text(*outcome),
        r.added_to_queue == is_queued(*outcome),
        r.time_untill_next_try == retry_seconds(*outcome),
{
    match outcome {
        MatchOutcome::Matched { courier } => FindCourierReply {
            courier_uuid: id_text(courier.id),
            added_to_queue: false,
            time_untill_next_try: 0,
        },
        MatchOutcome::QueuedNew => FindCourierReply {
            courier_uuid: "None".to_owned(),
            added_to_queue: true,
            time_untill_next_try: 0,
        },
        MatchOutcome::AlreadyQueued => FindCourierReply {
            courier_uuid: "None".to_owned(),
            added_to_queue: true,
            time_untill_next_try: 0,
        },
        MatchOutcome::Expired => FindCourierReply {
            courier_uuid: "None".to_owned(),
            added_to_queue: false,
            time_untill_next_try: 0,
        },
        MatchOutcome::Throttled { seconds_remaining } => FindCourierReply {
            courier_uuid: "None".to_owned(),
            added_to_queue: false,
            time_untill_next_try: *seconds_remaining,
        },
    }
}

/// The answer to the question how a request stands.
#[derive(Debug)]
pub struct WaitReply {
    /// The name of the status.
    pub status: String,
    /// The forecast in seconds while the entry is searching, else zero.
    pub avg_waiting_time: i128,
}

/// Puts a wait status into the shape of the answer.
pub fn wait_reply(status: &WaitStatus) -> (r: WaitReply)
    ensures
        r.status@ == status_name(status.status),
        r.avg_waiting_time == match status.eta_seconds {
            Some(eta) => eta,
            None => 0,
        },
{
    let avg_waiting_time: i128 = match status.eta_seconds {
        Some(eta) => eta,
        None => 0,
    };
    WaitReply { status: status_text(status.status), avg_waiting_time }
}

} // verus!
