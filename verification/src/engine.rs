//! The matching engine on its own stores: request intake, the matcher's
//! cycle and the wait-status query, each as one call.

use vstd::prelude::*;
use crate::intake::{
    intake_begin, intake_step, owns_searching_entry, retry_wait, IntakeAction, IntakeEvent,
    IntakeState,
};
use crate::cycle::{
    couriers_after_cycle, expires, lemma_expiry_notices_by_list, lemma_fresh_stretch,
    lemma_head_of_swept, lemma_next_searching, lemma_oldest_fresh, notices_of_cycle,
    oldest_fresh, outcome_of_cycle, queue_after_cycle, stale_notices, sweep_bound, swept,
    swept_below, CycleOutcome, CycleReport,
};
use crate::estimator::{status_report, wait_status, WaitStatus, HISTORY_LIMIT};
use crate::matcher::{
    first_stale, is_stale, lemma_first_stale, lemma_sweep_stops_at_first_stale, matcher_begin,
    matcher_step, sweep, MatcherAction, MatcherEvent, MatcherState, Notification,
};
use crate::model::{Courier, MatchOutcome, QueueEntry, Status};
use crate::store::{
    any_searching, evolves, first_free, first_free_from, fresh_entry, has_courier, latest_of,
    lemma_status_list_in_order, recent_completed, searching_ahead, well_numbered, with_flag,
    with_rating, with_status, CourierRegistry, QueueStore,
};
use crate::time::Timestamp;

verus! {

/// Why a call could not be answered.
#[derive(Clone, Copy, Debug, PartialEq, Eq, Structural)]
pub enum EngineError {
    /// A read or write of a store failed.
    StoreUnavailable,
}

/// What a request of `requester` at `now` comes to.
///
/// While nobody is searching, the requester gets the first free courier, or
/// joins the queue when there is none. While someone is, a requester who is
/// searching already is told so; anyone else joins the queue, unless the
/// last attempt is younger than the cool-down `window`.
pub open spec fn intake_outcome(
    queue: Seq<QueueEntry>,
    couriers: Seq<Courier>,
    requester: u128,
    now: Timestamp,
    window: int,
) -> MatchOutcome {
    if !any_searching(queue) {
        match first_free(couriers) {
            Some(courier) => MatchOutcome::Matched {
                courier: Courier { is_free: false, ..courier },
            },
            None => MatchOutcome::QueuedNew,
        }
    } else if owns_searching_entry(queue, requester) {
        MatchOutcome::AlreadyQueued
    } else {
        match latest_of(queue, requester) {
            Some(last) => if retry_wait(last.created_at, now, window) > 0 {
                MatchOutcome::Throttled {
                    seconds_remaining: retry_wait(last.created_at, now, window) as i64,
                }
            } else {
                MatchOutcome::QueuedNew
            },
            None => MatchOutcome::QueuedNew,
        }
    }
}

/// The queue after the request: one searching entry longer when the
/// requester joined, else as before.
pub open spec fn queue_after_intake(
    queue: Seq<QueueEntry>,
    couriers: Seq<Courier>,
    requester: u128,
    now: Timestamp,
    window: int,
) -> Seq<QueueEntry> {
    if intake_outcome(queue, couriers, requester, now, window) is QueuedNew {
        queue.push(fresh_entry((queue.len() + 1) as i64, requester, now))
    } else {
        queue
    }
}

/// The couriers after the request: the matched courier busy, the others as
/// before.
pub open spec fn couriers_after_intake(
    queue: Seq<QueueEntry>,
    couriers: Seq<Courier>,
    requester: u128,
    now: Timestamp,
    window: int,
) -> Seq<Courier> {
    match intake_outcome(queue, couriers, requester, now, window) {
        MatchOutcome::Matched { courier } => with_flag(couriers, courier.id, false),
        _ => couriers,
    }
}

/// The list of searching entries is empty exactly when no entry is
/// searching, and a requester has an entry in it exactly when the requester
/// has a searching entry in the queue.
pub proof fn lemma_searching_snapshot(queue: Seq<QueueEntry>, requester: u128)
    ensures
        with_status(queue, Status::Searching).len() == 0 <==> !any_searching(queue),
        owns_searching_entry(with_status(queue, Status::Searching), requester)
            <==> owns_searching_entry(queue, requester),
{
    let keep = |e: QueueEntry| e.status == Status::Searching;
    let snapshot = queue.filter(keep);
    if any_searching(queue) {
        let i = choose|i: int|
            0 <= i < queue.len() && (#[trigger] queue[i]).status == Status::Searching;
        queue.lemma_filter_contains(keep, i);
        assert(snapshot.contains(queue[i]));
    }
    if snapshot.len() > 0 {
        queue.lemma_filter_pred(keep, 0);
        assert(snapshot.contains(snapshot[0]));
        queue.lemma_filter_contains_rev(keep, snapshot[0]);
        let i = choose|i: int| 0 <= i < queue.len() && queue[i] == snapshot[0];
        assert(queue[i].status == Status::Searching);
    }
    if owns_searching_entry(snapshot, requester) {
        let j = choose|j: int|
            0 <= j < snapshot.len() && (#[trigger] snapshot[j]).requester == requester
                && snapshot[j].status == Status::Searching;
        assert(snapshot.contains(snapshot[j]));
        queue.lemma_filter_contains_rev(keep, snapshot[j]);
        let i = choose|i: int| 0 <= i < queue.len() && queue[i] == snapshot[j];
        assert(queue[i].requester == requester && queue[i].status == Status::Searching);
    }
    if owns_searching_entry(queue, requester) {
        let i = choose|i: int|
            0 <= i < queue.len() && (#[trigger] queue[i]).requester == requester && queue[i].status
                == Status::Searching;
        queue.lemma_filter_contains(keep, i);
        let j = choose|j: int| 0 <= j < snapshot.len() && snapshot[j] == queue[i];
        assert(snapshot[j].requester == requester && snapshot[j].status == Status::Searching);
    }
}

/// The first free courier is a free courier of the registry.
pub proof fn lemma_first_free_is_free(couriers: Seq<Courier>, from: int)
    requires
        0 <= from,
    ensures
        first_free_from(couriers, from) matches Some(c) ==> c.is_free && exists|i: int|
            from <= i < couriers.len() && couriers[i] == c,
    decreases couriers.len() - from,
{
    if from < couriers.len() && !couriers[from].is_free {
        lemma_first_free_is_free(couriers, from + 1);
    }
}

/// The engine with its two stores and its two settings.
pub struct Dispatcher {
    pub queue: QueueStore,
    pub couriers: CourierRegistry,
    /// Seconds after which a searching entry expires.
    pub max_wait: i32,
    /// Seconds that a requester has to let pass between two attempts.
    pub cooldown: i32,
}

impl Dispatcher {
    /// An engine with empty stores.
    pub fn new(max_wait: i32, cooldown: i32) -> (r: Dispatcher)
        ensures
            r.queue@ == Seq::<QueueEntry>::empty(),
            r.couriers@ == Seq::<Courier>::empty(),
            r.max_wait == max_wait,
            r.cooldown == cooldown,
    {
        Dispatcher {
            queue: QueueStore::new(),
            couriers: CourierRegistry::new(),
            max_wait,
            cooldown,
        }
    }

    /// Answers a request of `requester` for a courier at `now`.
    ///
    /// The answer and the stores afterwards are those of [`intake_outcome`],
    /// [`queue_after_intake`] and [`couriers_after_intake`]. The call fails,
    /// and changes nothing, only when the requester would join the queue and
    /// the sequence ids have run out.
    pub fn find_courier(&mut self, requester: u128, now: Timestamp) -> (r: Result<
        MatchOutcome,
        EngineError,
    >)
        ensures
            final(self).max_wait == old(self).max_wait,
            final(self).cooldown == old(self).cooldown,
            evolves(old(self).queue@, final(self).queue@),
            r is Err <==> old(self).queue@.len() >= i64::MAX && intake_outcome(
                old(self).queue@,
                old(self).couriers@,
                requester,
                now,
                old(self).cooldown as int,
            ) is QueuedNew,
            r is Err ==> final(self).queue@ == old(self).queue@ && final(self).couriers@ == old(
                self,
            ).couriers@,
            r matches Ok(outcome) ==> outcome == intake_outcome(
                old(self).queue@,
                old(self).couriers@,
                requester,
                now,
                old(self).cooldown as int,
            ) && final(self).queue@ == queue_after_intake(
                old(self).queue@,
                old(self).couriers@,
                requester,
                now,
                old(self).cooldown as int,
            ) && final(self).couriers@ == couriers_after_intake(
                old(self).queue@,
                old(self).couriers@,
                requester,
                now,
                old(self).cooldown as int,
            ),
    {
        let window = self.cooldown;
        proof {
            lemma_searching_snapshot(self.queue@, requester);
            lemma_first_free_is_free(self.couriers@, 0);
        }
        let (started, _) = intake_begin();
        let searching = self.queue.list_by_status(Status::Searching);
        let (state, action) = intake_step(
            started,
            IntakeEvent::Queue { entries: searching },
            requester,
            &now,
            window,
        );
        match action {
            IntakeAction::FindFreeCourier => {
                let free = self.couriers.find_one_free();
                let (state, action) = intake_step(
                    state,
                    IntakeEvent::FreeCourier { courier: free },
                    requester,
                    &now,
                    window,
                );
                match action {
                    IntakeAction::ClaimCourier { courier } => {
                        let rows = self.couriers.set_free(courier, false);
                        let (state, action) = intake_step(
                            state,
                            IntakeEvent::Claimed { rows },
                            requester,
                            &now,
                            window,
                        );
                        match action {
                            IntakeAction::Reply { outcome } => Ok(outcome),
                            _ => self.enqueue(state, requester, now),
                        }
                    },
                    _ => self.enqueue(state, requester, now),
                }
            },
            IntakeAction::ReadLastAttempt { requester: whose } => {
                let created_at = match self.queue.latest_for_requester(whose) {
                    Some(last) => Some(last.created_at),
                    None => None,
                };
                let (state, action) = intake_step(
                    state,
                    IntakeEvent::LastAttempt { created_at },
                    requester,
                    &now,
                    window,
                );
                match action {
                    IntakeAction::Reply { outcome } => Ok(outcome),
                    _ => self.enqueue(state, requester, now),
                }
            },
            IntakeAction::Reply { outcome } => Ok(outcome),
            _ => Err(EngineError::StoreUnavailable),
        }
    }

    /// Runs one cycle of the matcher at `now`: expires every searching entry
    /// that has waited longer than `max_wait` seconds, then binds the oldest
    /// entry that is left to the first free courier, if there is one.
    ///
    /// The stores afterwards, the notifications and the outcome are those of
    /// [`queue_after_cycle`], [`couriers_after_cycle`], [`notices_of_cycle`]
    /// and [`outcome_of_cycle`].
    pub fn matcher_cycle(&mut self, now: Timestamp) -> (r: CycleReport)
        ensures
            final(self).max_wait == old(self).max_wait,
            final(self).cooldown == old(self).cooldown,
            evolves(old(self).queue@, final(self).queue@),
            final(self).queue@ == queue_after_cycle(
                old(self).queue@,
                old(self).couriers@,
                now,
                old(self).max_wait as int,
            ),
            final(self).couriers@ == couriers_after_cycle(
                old(self).queue@,
                old(self).couriers@,
                now,
                old(self).max_wait as int,
            ),
            r.notifications@ == notices_of_cycle(
                old(self).queue@,
                old(self).couriers@,
                now,
                old(self).max_wait as int,
            ),
            r.outcome == outcome_of_cycle(
                old(self).queue@,
                old(self).couriers@,
                now,
                old(self).max_wait as int,
            ),
    {
        let max_wait = self.max_wait;
        let ghost before = self.queue@;
        let ghost couriers = self.couriers@;
        let ghost cooldown = self.cooldown;
        let ghost target = swept(before, now, max_wait as int);
        let n = self.queue.len();
        let snapshot = self.queue.list_by_status(Status::Searching);
        let ghost snap = snapshot;
        let ghost list = snapshot@;
        let idle = snapshot.len() == 0;
        assert(list.len() <= usize::MAX);
        proof {
            lemma_searching_snapshot(before, 0);
            lemma_first_free_is_free(couriers, 0);
            lemma_next_searching(target, 0);
            lemma_status_list_in_order(before, Status::Searching);
            lemma_expiry_notices_by_list(before, now, max_wait as int);
            lemma_head_of_swept(before, now, max_wait as int);
        }
        let begun = matcher_begin();
        let first = matcher_step(
            begun.state,
            MatcherEvent::Queue { entries: snapshot },
            &now,
            max_wait,
        );
        let mut notifications: Vec<Notification> = Vec::new();
        if idle {
            assert(target =~= before);
            return CycleReport { outcome: CycleOutcome::Idle, notifications };
        }
        let mut state = first.state;
        let mut action = first.action;
        let ghost mut done: int = 0;
        assert(self.queue@ =~= swept_below(
            before,
            sweep_bound(list, done, before.len() as int),
            now,
            max_wait as int,
        )) by {
            assert forall|i: int| 0 <= i < before.len() implies !(before[i].id < list[0].id
                && expires(#[trigger] before[i], now, max_wait as int)) by {
                if before[i].status == Status::Searching {
                    let j = choose|j: int| 0 <= j < list.len() && list[j] == before[i];
                    if j > 0 {
                        assert(list[0].id < list[j].id);
                    }
                }
            }
        }
        loop
            invariant
                0 <= done <= list.len() <= usize::MAX,
                list == snap@,
                list == with_status(before, Status::Searching),
                well_numbered(before),
                (state, action) == sweep(
                    snap,
                    done,
                    oldest_fresh(list, done, now, max_wait as int),
                    now,
                    max_wait as int,
                ),
                self.queue@ =~= swept_below(
                    before,
                    sweep_bound(list, done, before.len() as int),
                    now,
                    max_wait as int,
                ),
                notifications@ == stale_notices(list, done, now, max_wait as int),
                self.couriers@ == couriers,
                self.max_wait == max_wait,
                self.cooldown == cooldown,
            ensures
                !(action is Expire),
            decreases list.len() - done,
        {
            let entry = match action {
                MatcherAction::Expire { entry } => entry,
                _ => {
                    break ;
                },
            };
            let ghost stop = first_stale(list, done, now, max_wait as int);
            let ghost kept = oldest_fresh(list, done, now, max_wait as int);
            proof {
                lemma_status_list_in_order(before, Status::Searching);
                lemma_sweep_stops_at_first_stale(snap, done, kept, now, max_wait as int);
                lemma_first_stale(list, done, now, max_wait as int);
                lemma_fresh_stretch(list, done, stop, now, max_wait as int);
                lemma_oldest_fresh(list, stop, now, max_wait as int);
                assert(stop < list.len());
                assert(before[list[stop].id - 1] == list[stop]);
                if done < stop {
                    assert(list[done].id < list[stop].id);
                }
            }
            let rows = self.queue.update_status(entry, Status::Expired, now);
            let out = matcher_step(state, MatcherEvent::StatusChanged { rows }, &now, max_wait);
            match out.notify {
                Some(notice) => {
                    notifications.push(notice);
                },
                None => {},
            }
            state = out.state;
            action = out.action;
            proof {
                let reached = sweep_bound(list, stop + 1, before.len() as int);
                assert forall|i: int| 0 <= i < before.len() implies self.queue@[i] == swept_below(
                    before,
                    reached,
                    now,
                    max_wait as int,
                )[i] by {
                    if i != list[stop].id - 1 && before[i].status == Status::Searching {
                        let j = choose|j: int| 0 <= j < list.len() && list[j] == before[i];
                        if j < done {
                            assert(list[j].id < list[done].id);
                        } else if j < stop {
                            assert(!is_stale(list[j], now, max_wait as int));
                        } else if j == stop {
                        } else {
                            if stop + 1 < list.len() && j > stop + 1 {
                                assert(list[stop + 1].id < list[j].id);
                            }
                        }
                    }
                    if stop + 1 < list.len() {
                        assert(list[stop].id < list[stop + 1].id);
                    }
                }
                done = stop + 1;
            }
        }
        proof {
            let stop = first_stale(list, done, now, max_wait as int);
            let kept = oldest_fresh(list, done, now, max_wait as int);
            lemma_status_list_in_order(before, Status::Searching);
            lemma_sweep_stops_at_first_stale(snap, done, kept, now, max_wait as int);
            lemma_first_stale(list, done, now, max_wait as int);
            lemma_fresh_stretch(list, done, stop, now, max_wait as int);
            lemma_oldest_fresh(list, stop, now, max_wait as int);
            assert(stop == list.len());
            assert forall|i: int| 0 <= i < before.len() implies self.queue@[i] == target[i] by {
                if before[i].status == Status::Searching {
                    let j = choose|j: int| 0 <= j < list.len() && list[j] == before[i];
                    if j < done {
                        if done < list.len() {
                            assert(list[j].id < list[done].id);
                        }
                    } else {
                        assert(!is_stale(list[j], now, max_wait as int));
                    }
                }
            }
            assert(self.queue@ =~= target);
        }
        match action {
            MatcherAction::FindFreeCourier => {
                let free = self.couriers.find_one_free();
                let found = matcher_step(
                    state,
                    MatcherEvent::FreeCourier { courier: free },
                    &now,
                    max_wait,
                );
                match found.action {
                    MatcherAction::Complete { entry } => {
                        let rows = self.queue.update_status(entry, Status::Completed, now);
                        let completed = matcher_step(
                            found.state,
                            MatcherEvent::StatusChanged { rows },
                            &now,
                            max_wait,
                        );
                        let courier = match completed.action {
                            MatcherAction::ClaimCourier { courier } => courier,
                            _ => 0,
                        };
                        let rows = self.couriers.set_free(courier, false);
                        let claimed = matcher_step(
                            completed.state,
                            MatcherEvent::CourierClaimed { rows },
                            &now,
                            max_wait,
                        );
                        match claimed.notify {
                            Some(notice) => {
                                notifications.push(notice);
                            },
                            None => {},
                        }
                        CycleReport {
                            outcome: CycleOutcome::Matched { entry, courier },
                            notifications,
                        }
                    },
                    _ => {
                        let entry = match found.state {
                            MatcherState::AwaitingCourier { head } => head.id,
                            _ => 0,
                        };
                        CycleReport { outcome: CycleOutcome::Waiting { entry }, notifications }
                    },
                }
            },
            _ => CycleReport { outcome: CycleOutcome::Swept, notifications },
        }
    }

    /// Tells how the latest request of `requester` stands at `now`: its
    /// status and, while it is searching, the forecast. `None` when the
    /// requester never asked.
    pub fn wait_status(&self, requester: u128, now: Timestamp) -> (r: Option<WaitStatus>)
        ensures
            r == match latest_of(self.queue@, requester) {
                Some(entry) => Some(
                    status_report(
                        entry,
                        recent_completed(self.queue@, entry.id, HISTORY_LIMIT as nat),
                        searching_ahead(self.queue@, entry.id),
                        now,
                    ),
                ),
                None => None,
            },
    {
        match self.queue.latest_for_requester(requester) {
            Some(entry) => {
                let history = self.queue.recent_completed_at_or_before(entry.id, HISTORY_LIMIT);
                let ahead = self.queue.searching_before(entry.id);
                Some(wait_status(&entry, &history, &ahead, &now))
            },
            None => None,
        }
    }

    /// Sets the rating of the courier `courier`. Returns the number of
    /// couriers changed: one if the courier is registered, else zero.
    pub fn update_courier_rating(&mut self, courier: u128, rating_bits: u64) -> (rows: usize)
        ensures
            final(self).queue@ == old(self).queue@,
            final(self).max_wait == old(self).max_wait,
            final(self).cooldown == old(self).cooldown,
            final(self).couriers@ == with_rating(old(self).couriers@, courier, rating_bits),
            rows == if has_courier(old(self).couriers@, courier) { 1usize } else { 0usize },
    {
        self.couriers.set_rating(courier, rating_bits)
    }

    /// Appends a searching entry for `requester`.
    fn enqueue(&mut self, state: IntakeState, requester: u128, now: Timestamp) -> (r: Result<
        MatchOutcome,
        EngineError,
    >)
        requires
            state == IntakeState::AwaitingInsert,
        ensures
            final(self).couriers@ == old(self).couriers@,
            final(self).max_wait == old(self).max_wait,
            final(self).cooldown == old(self).cooldown,
            old(self).queue@.len() < i64::MAX ==> r == Ok::<MatchOutcome, EngineError>(
                MatchOutcome::QueuedNew,
            ) && final(self).queue@ == old(self).queue@.push(
                fresh_entry((old(self).queue@.len() + 1) as i64, requester, now),
            ),
            old(self).queue@.len() >= i64::MAX ==> r == Err::<MatchOutcome, EngineError>(
                EngineError::StoreUnavailable,
            ) && final(self).queue@ == old(self).queue@,
    {
        let event = match self.queue.insert_searching(requester, now) {
            Some(_) => IntakeEvent::Inserted,
            None => IntakeEvent::StoreUnavailable,
        };
        let (_, action) = intake_step(state, event, requester, &now, self.cooldown);
        match action {
            IntakeAction::Reply { outcome } => Ok(outcome),
            _ => Err(EngineError::StoreUnavailable),
        }
    }
}

} // verus!
