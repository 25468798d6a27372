//! One cycle of the matcher, said in terms of the queue and the couriers
//! before and after it, and what links that to the matcher's walk over the
//! list of searching entries.

use vstd::prelude::*;
use crate::matcher::{is_stale, Notification};
use crate::model::{Courier, QueueEntry, Status};
use crate::store::{
    any_searching, first_free, lemma_status_list_in_order, settled, well_numbered, with_flag,
    with_status,
};
use crate::time::Timestamp;

verus! {

/// True when the matcher expires `entry` at `now`: it is still searching and
/// has waited longer than `max_wait` seconds.
pub open spec fn expires(entry: QueueEntry, now: Timestamp, max_wait: int) -> bool {
    entry.status == Status::Searching && is_stale(entry, now, max_wait)
}

/// The queue after the matcher's sweep: every entry that expires is
/// expired, the others are as before.
pub open spec fn swept(queue: Seq<QueueEntry>, now: Timestamp, max_wait: int) -> Seq<QueueEntry> {
    Seq::new(
        queue.len(),
        |i: int|
            if expires(queue[i], now, max_wait) {
                settled(queue[i], Status::Expired, now)
            } else {
                queue[i]
            },
    )
}

/// The notifications of the sweep: one for each entry that expires, the
/// oldest entry first.
pub open spec fn expiry_notices(queue: Seq<QueueEntry>, now: Timestamp, max_wait: int) -> Seq<
    Notification,
>
    decreases queue.len(),
{
    if queue.len() == 0 {
        Seq::empty()
    } else {
        let before = expiry_notices(queue.drop_last(), now, max_wait);
        if expires(queue.last(), now, max_wait) {
            before.push(Notification::Expired { requester: queue.last().requester })
        } else {
            before
        }
    }
}

/// The position of the first searching entry at or after `from`, or the
/// length of the queue when there is none.
pub open spec fn next_searching(queue: Seq<QueueEntry>, from: int) -> int
    decreases queue.len() - from,
{
    if from < 0 || from >= queue.len() {
        queue.len() as int
    } else if queue[from].status == Status::Searching {
        from
    } else {
        next_searching(queue, from + 1)
    }
}

/// The match that a cycle makes: the position of the head of the queue, which
/// is the oldest entry still searching after the sweep, and the first free
/// courier. None when either is missing.
pub open spec fn cycle_match(
    queue: Seq<QueueEntry>,
    couriers: Seq<Courier>,
    now: Timestamp,
    max_wait: int,
) -> Option<(int, Courier)> {
    let head = next_searching(swept(queue, now, max_wait), 0);
    if head < queue.len() {
        match first_free(couriers) {
            Some(courier) => Some((head, courier)),
            None => None,
        }
    } else {
        None
    }
}

/// The queue after one cycle of the matcher at `now`.
pub open spec fn queue_after_cycle(
    queue: Seq<QueueEntry>,
    couriers: Seq<Courier>,
    now: Timestamp,
    max_wait: int,
) -> Seq<QueueEntry> {
    let after = swept(queue, now, max_wait);
    match cycle_match(queue, couriers, now, max_wait) {
        Some((head, _)) => after.update(head, settled(after[head], Status::Completed, now)),
        None => after,
    }
}

/// The couriers after one cycle of the matcher at `now`.
pub open spec fn couriers_after_cycle(
    queue: Seq<QueueEntry>,
    couriers: Seq<Courier>,
    now: Timestamp,
    max_wait: int,
) -> Seq<Courier> {
    match cycle_match(queue, couriers, now, max_wait) {
        Some((_, courier)) => with_flag(couriers, courier.id, false),
        None => couriers,
    }
}

/// The notifications of one cycle of the matcher at `now`, in the order in
/// which they are sent: those of the sweep, then that of the match.
pub open spec fn notices_of_cycle(
    queue: Seq<QueueEntry>,
    couriers: Seq<Courier>,
    now: Timestamp,
    max_wait: int,
) -> Seq<Notification> {
    let expired = expiry_notices(queue, now, max_wait);
    match cycle_match(queue, couriers, now, max_wait) {
        Some((head, courier)) => expired.push(
            Notification::Matched {
                requester: queue[head].requester,
                courier: courier.id,
                rating_bits: courier.rating_bits,
            },
        ),
        None => expired,
    }
}

/// The oldest of the first `upto` entries of `list` that is not stale.
pub open spec fn oldest_fresh(
    list: Seq<QueueEntry>,
    upto: int,
    now: Timestamp,
    max_wait: int,
) -> Option<QueueEntry>
    decreases upto,
{
    if upto <= 0 {
        None
    } else {
        match oldest_fresh(list, upto - 1, now, max_wait) {
            Some(entry) => Some(entry),
            None => if is_stale(list[upto - 1], now, max_wait) {
                None
            } else {
                Some(list[upto - 1])
            },
        }
    }
}

/// The notifications for the stale ones among the first `upto` entries of
/// `list`, in the order of the list.
pub open spec fn stale_notices(
    list: Seq<QueueEntry>,
    upto: int,
    now: Timestamp,
    max_wait: int,
) -> Seq<Notification>
    decreases upto,
{
    if upto <= 0 {
        Seq::empty()
    } else {
        let before = stale_notices(list, upto - 1, now, max_wait);
        if is_stale(list[upto - 1], now, max_wait) {
            before.push(Notification::Expired { requester: list[upto - 1].requester })
        } else {
            before
        }
    }
}

/// The queue in the middle of the sweep, when the entries with an id below
/// `bound` have been looked at.
pub open spec fn swept_below(
    queue: Seq<QueueEntry>,
    bound: int,
    now: Timestamp,
    max_wait: int,
) -> Seq<QueueEntry> {
    Seq::new(
        queue.len(),
        |i: int|
            if queue[i].id < bound && expires(queue[i], now, max_wait) {
                settled(queue[i], Status::Expired, now)
            } else {
                queue[i]
            },
    )
}

/// The id up to which the sweep has come when it has looked at the first
/// `done` entries of the list: the id of the next entry of the list, or one
/// more than the number of entries of the queue at the end of the list.
pub open spec fn sweep_bound(list: Seq<QueueEntry>, done: int, len: int) -> int {
    if 0 <= done < list.len() {
        list[done].id as int
    } else {
        len + 1
    }
}

/// Over a stretch of the list without a stale entry nothing is notified,
/// and the first entry of the stretch is the oldest fresh one unless there
/// was one before.
pub proof fn lemma_fresh_stretch(
    list: Seq<QueueEntry>,
    from: int,
    to: int,
    now: Timestamp,
    max_wait: int,
)
    requires
        0 <= from <= to <= list.len(),
        forall|k: int| from <= k < to ==> !is_stale(#[trigger] list[k], now, max_wait),
    ensures
        stale_notices(list, to, now, max_wait) == stale_notices(list, from, now, max_wait),
        oldest_fresh(list, to, now, max_wait) == if oldest_fresh(list, from, now, max_wait)
            is Some {
            oldest_fresh(list, from, now, max_wait)
        } else if from < to {
            Some(list[from])
        } else {
            None
        },
    decreases to - from,
{
    if from < to {
        lemma_fresh_stretch(list, from, to - 1, now, max_wait);
        assert(!is_stale(list[to - 1], now, max_wait));
    }
}

/// The oldest fresh entry is an entry of the list that is not stale, and
/// every entry before it is stale.
pub proof fn lemma_oldest_fresh(list: Seq<QueueEntry>, upto: int, now: Timestamp, max_wait: int)
    requires
        0 <= upto <= list.len(),
    ensures
        oldest_fresh(list, upto, now, max_wait) matches Some(entry) ==> exists|k: int|
            0 <= k < upto && list[k] == entry && !is_stale(entry, now, max_wait) && forall|j: int|
                0 <= j < k ==> is_stale(#[trigger] list[j], now, max_wait),
        oldest_fresh(list, upto, now, max_wait) is None ==> forall|j: int|
            0 <= j < upto ==> is_stale(#[trigger] list[j], now, max_wait),
    decreases upto,
{
    if upto > 0 {
        lemma_oldest_fresh(list, upto - 1, now, max_wait);
        match oldest_fresh(list, upto - 1, now, max_wait) {
            Some(entry) => {},
            None => {
                if !is_stale(list[upto - 1], now, max_wait) {
                    let k = upto - 1;
                    assert(0 <= k < upto && list[k] == list[upto - 1] && forall|j: int|
                        0 <= j < k ==> is_stale(#[trigger] list[j], now, max_wait));
                }
            },
        }
    }
}

/// The notifications depend on the entries that they are about alone.
pub proof fn lemma_stale_notices_prefix(
    a: Seq<QueueEntry>,
    b: Seq<QueueEntry>,
    upto: int,
    now: Timestamp,
    max_wait: int,
)
    requires
        0 <= upto <= a.len(),
        upto <= b.len(),
        forall|k: int| 0 <= k < upto ==> a[k] == b[k],
    ensures
        stale_notices(a, upto, now, max_wait) == stale_notices(b, upto, now, max_wait),
    decreases upto,
{
    if upto > 0 {
        lemma_stale_notices_prefix(a, b, upto - 1, now, max_wait);
    }
}

/// The notifications of the sweep are those for the stale entries of the
/// list of searching entries.
pub proof fn lemma_expiry_notices_by_list(queue: Seq<QueueEntry>, now: Timestamp, max_wait: int)
    ensures
        expiry_notices(queue, now, max_wait) == stale_notices(
            with_status(queue, Status::Searching),
            with_status(queue, Status::Searching).len() as int,
            now,
            max_wait,
        ),
    decreases queue.len(),
{
    reveal(Seq::filter);
    let keep = |e: QueueEntry| e.status == Status::Searching;
    if queue.len() > 0 {
        let front = queue.drop_last();
        let front_list = front.filter(keep);
        let list = queue.filter(keep);
        lemma_expiry_notices_by_list(front, now, max_wait);
        assert(front_list == with_status(front, Status::Searching));
        if queue.last().status == Status::Searching {
            assert(list == front_list.push(queue.last()));
            lemma_stale_notices_prefix(list, front_list, front_list.len() as int, now, max_wait);
        }
    }
}

/// The entry that the matcher serves after the sweep, the oldest fresh
/// entry of the list of searching entries, is the first entry of the swept
/// queue that is still searching.
pub proof fn lemma_head_of_swept(queue: Seq<QueueEntry>, now: Timestamp, max_wait: int)
    requires
        well_numbered(queue),
    ensures
        ({
            let list = with_status(queue, Status::Searching);
            let after = swept(queue, now, max_wait);
            let head = next_searching(after, 0);
            match oldest_fresh(list, list.len() as int, now, max_wait) {
                Some(entry) => head < queue.len() && entry == queue[head] && entry == after[head]
                    && entry.id == head + 1,
                None => head == queue.len(),
            }
        }),
{
    let list = with_status(queue, Status::Searching);
    let after = swept(queue, now, max_wait);
    let head = next_searching(after, 0);
    lemma_status_list_in_order(queue, Status::Searching);
    lemma_oldest_fresh(list, list.len() as int, now, max_wait);
    lemma_next_searching(after, 0);
    match oldest_fresh(list, list.len() as int, now, max_wait) {
        Some(entry) => {
            let k = choose|k: int|
                0 <= k < list.len() && list[k] == entry && !is_stale(entry, now, max_wait)
                    && forall|j: int| 0 <= j < k ==> is_stale(#[trigger] list[j], now, max_wait);
            let at = list[k].id - 1;
            assert(queue[at] == list[k]);
            assert(after[at] == queue[at]);
            assert forall|i: int| 0 <= i < at implies (#[trigger] after[i]).status
                != Status::Searching by {
                if queue[i].status == Status::Searching {
                    let j = choose|j: int| 0 <= j < list.len() && list[j] == queue[i];
                    assert(list[j].id == i + 1);
                    if j >= k {
                        if j > k {
                            assert(list[k].id < list[j].id);
                        }
                    }
                    assert(is_stale(list[j], now, max_wait));
                }
            }
            if head < at {
                assert(after[head].status != Status::Searching);
            }
            if head > at {
                assert(after[at].status != Status::Searching);
            }
        },
        None => {
            if head < queue.len() {
                assert(queue[head].status == Status::Searching);
                let j = choose|j: int| 0 <= j < list.len() && list[j] == queue[head];
                assert(is_stale(list[j], now, max_wait));
            }
        },
    }
}

/// How one cycle of the matcher ended.
#[derive(Clone, Copy, Debug, PartialEq, Eq, Structural)]
pub enum CycleOutcome {
    /// Nobody was searching: the matcher rests.
    Idle,
    /// Nobody is left searching after the sweep.
    Swept,
    /// The head of the queue goes on waiting: no courier is free.
    Waiting { entry: i64 },
    /// The head of the queue got a courier.
    Matched { entry: i64, courier: u128 },
}

/// How one cycle of the matcher at `now` ends.
pub open spec fn outcome_of_cycle(
    queue: Seq<QueueEntry>,
    couriers: Seq<Courier>,
    now: Timestamp,
    max_wait: int,
) -> CycleOutcome {
    let head = next_searching(swept(queue, now, max_wait), 0);
    if !any_searching(queue) {
        CycleOutcome::Idle
    } else if head >= queue.len() {
        CycleOutcome::Swept
    } else {
        match first_free(couriers) {
            Some(courier) => CycleOutcome::Matched { entry: queue[head].id, courier: courier.id },
            None => CycleOutcome::Waiting { entry: queue[head].id },
        }
    }
}

/// What one cycle of the matcher did.
#[derive(Debug)]
pub struct CycleReport {
    pub outcome: CycleOutcome,
    /// The notifications of the cycle, in the order in which they are sent.
    pub notifications: Vec<Notification>,
}

/// The first searching entry at or after `from` is searching, and nothing
/// between `from` and it is.
pub proof fn lemma_next_searching(queue: Seq<QueueEntry>, from: int)
    requires
        0 <= from <= queue.len(),
    ensures
        from <= next_searching(queue, from) <= queue.len(),
        next_searching(queue, from) < queue.len() ==> queue[next_searching(queue, from)].status
            == Status::Searching,
        forall|k: int|
            from <= k < next_searching(queue, from) ==> (#[trigger] queue[k]).status
                != Status::Searching,
    decreases queue.len() - from,
{
    if from < queue.len() && queue[from].status != Status::Searching {
        lemma_next_searching(queue, from + 1);
    }
}

} // verus!
