//! The queue store and the courier registry, kept in memory.
//!
//! Both hold their records in the order in which they came and change them
//! only by conditional updates: a status leaves `Searching` once and for
//! all, and a courier is claimed only while it is free.

use vstd::prelude::*;
use crate::model::{Courier, QueueEntry, Status};
use crate::time::Timestamp;

verus! {

/// The entry as it stands after its status changed to `status` at `now`.
pub open spec fn settled(entry: QueueEntry, status: Status, now: Timestamp) -> QueueEntry {
    QueueEntry { status, updated_at: now, ..entry }
}

/// A fresh entry for `requester`, created at `now` under the sequence id `id`.
pub open spec fn fresh_entry(id: i64, requester: u128, now: Timestamp) -> QueueEntry {
    QueueEntry { id, requester, status: Status::Searching, created_at: now, updated_at: now }
}

/// True when the entries carry the sequence ids 1, 2, 3, .. in this order.
pub open spec fn well_numbered(entries: Seq<QueueEntry>) -> bool {
    &&& entries.len() <= i64::MAX
    &&& forall|i: int| 0 <= i < entries.len() ==> (#[trigger] entries[i]).id == i + 1
}

/// True when `after` is a later state of the log `before`: no entry is
/// gone, every entry is whose it was and as old as it was, and an entry that
/// had left `Searching` is exactly as it was.
pub open spec fn evolves(before: Seq<QueueEntry>, after: Seq<QueueEntry>) -> bool {
    &&& before.len() <= after.len()
    &&& forall|i: int|
        0 <= i < before.len() ==> {
            &&& (#[trigger] after[i]).id == before[i].id
            &&& after[i].requester == before[i].requester
            &&& after[i].created_at == before[i].created_at
            &&& before[i].status.is_terminal() ==> after[i] == before[i]
        }
}

/// True when some entry of `queue` is still searching.
pub open spec fn any_searching(queue: Seq<QueueEntry>) -> bool {
    exists|i: int| 0 <= i < queue.len() && (#[trigger] queue[i]).status == Status::Searching
}

/// The entries with the given status, oldest first.
pub open spec fn with_status(entries: Seq<QueueEntry>, status: Status) -> Seq<QueueEntry> {
    entries.filter(|e: QueueEntry| e.status == status)
}

/// The searching entries with a sequence id below `id`, oldest first.
pub open spec fn searching_ahead(entries: Seq<QueueEntry>, id: i64) -> Seq<QueueEntry> {
    entries.filter(|e: QueueEntry| e.status == Status::Searching && e.id < id)
}

/// The latest entry of `requester`, whatever its status.
pub open spec fn latest_of(entries: Seq<QueueEntry>, requester: u128) -> Option<QueueEntry>
    decreases entries.len(),
{
    if entries.len() == 0 {
        None
    } else if entries.last().requester == requester {
        Some(entries.last())
    } else {
        latest_of(entries.drop_last(), requester)
    }
}

/// Up to `limit` completed entries with a sequence id of at most `id`, the
/// newest first.
pub open spec fn recent_completed(entries: Seq<QueueEntry>, id: i64, limit: nat) -> Seq<QueueEntry>
    decreases entries.len(),
{
    if entries.len() == 0 || limit == 0 {
        Seq::empty()
    } else if entries.last().status == Status::Completed && entries.last().id <= id {
        seq![entries.last()] + recent_completed(entries.drop_last(), id, (limit - 1) as nat)
    } else {
        recent_completed(entries.drop_last(), id, limit)
    }
}

/// The list of the entries with a given status keeps the order of the log:
/// each entry of the list has the status and stands in the log under its
/// id, the ids grow along the list, and no entry with the status is missing.
pub proof fn lemma_status_list_in_order(entries: Seq<QueueEntry>, status: Status)
    requires
        well_numbered(entries),
    ensures
        forall|k: int|
            0 <= k < with_status(entries, status).len() ==> {
                &&& 1 <= (#[trigger] with_status(entries, status)[k]).id <= entries.len()
                &&& entries[with_status(entries, status)[k].id - 1] == with_status(
                    entries,
                    status,
                )[k]
                &&& with_status(entries, status)[k].status == status
            },
        forall|j: int, k: int|
            0 <= j < k < with_status(entries, status).len() ==> (#[trigger] with_status(
                entries,
                status,
            )[j]).id < (#[trigger] with_status(entries, status)[k]).id,
        forall|i: int|
            0 <= i < entries.len() && (#[trigger] entries[i]).status == status ==> exists|k: int|
                0 <= k < with_status(entries, status).len() && with_status(entries, status)[k]
                    == entries[i],
    decreases entries.len(),
{
    reveal(Seq::filter);
    let keep = |e: QueueEntry| e.status == status;
    let list = entries.filter(keep);
    if entries.len() > 0 {
        let front = entries.drop_last();
        let front_list = front.filter(keep);
        lemma_status_list_in_order(front, status);
        assert(front_list == with_status(front, status));
        assert forall|k: int| 0 <= k < list.len() implies {
            &&& 1 <= (#[trigger] list[k]).id <= entries.len()
            &&& entries[list[k].id - 1] == list[k]
            &&& list[k].status == status
        } by {
            if k < front_list.len() {
                assert(list[k] == front_list[k]);
                assert(front[front_list[k].id - 1] == front_list[k]);
            }
        }
        assert forall|j: int, k: int| 0 <= j < k < list.len() implies (#[trigger] list[j]).id < (
        #[trigger] list[k]).id by {
            assert(list[j] == front_list[j]);
            assert(front_list[j].id <= front.len());
            if k < front_list.len() {
                assert(list[k] == front_list[k]);
            }
        }
        assert forall|i: int|
            0 <= i < entries.len() && (#[trigger] entries[i]).status == status implies exists|
            k: int,
        | 0 <= k < list.len() && list[k] == entries[i] by {
            if i < front.len() {
                assert(front[i].status == status);
                let k = choose|k: int| 0 <= k < front_list.len() && front_list[k] == front[i];
                assert(list[k] == entries[i]);
            } else {
                assert(list[list.len() - 1] == entries[i]);
            }
        }
    }
}

/// The log of queue entries. Entries are appended and never removed.
pub struct QueueStore {
    entries: Vec<QueueEntry>,
}

impl View for QueueStore {
    type V = Seq<QueueEntry>;

    /// The entries, oldest first.
    closed spec fn view(&self) -> Seq<QueueEntry> {
        self.entries@
    }
}

impl QueueStore {
    /// The entries carry the ids 1, 2, 3, .. in the order of their arrival.
    #[verifier::type_invariant]
    spec fn numbered(self) -> bool {
        well_numbered(self.entries@)
    }

    /// An empty log.
    pub fn new() -> (r: QueueStore)
        ensures
            r@ == Seq::<QueueEntry>::empty(),
    {
        QueueStore { entries: Vec::new() }
    }

    /// The number of entries ever inserted.
    pub fn len(&self) -> (r: usize)
        ensures
            r == self@.len(),
            well_numbered(self@),
    {
        proof {
            use_type_invariant(self);
        }
        self.entries.len()
    }

    /// The entry with the sequence id `id`, if there is one.
    pub fn get(&self, id: i64) -> (r: Option<QueueEntry>)
        ensures
            well_numbered(self@),
            1 <= id <= self@.len() ==> r == Some(self@[id - 1]),
            !(1 <= id <= self@.len()) ==> r is None,
    {
        proof {
            use_type_invariant(self);
        }
        if 1 <= id && (id as u64) <= self.entries.len() as u64 {
            Some(self.entries[(id - 1) as usize])
        } else {
            None
        }
    }

    /// The entries with the given status, oldest first.
    pub fn list_by_status(&self, status: Status) -> (r: Vec<QueueEntry>)
        ensures
            r@ == with_status(self@, status),
    {
        let mut out: Vec<QueueEntry> = Vec::new();
        let ghost keep = |e: QueueEntry| e.status == status;
        let mut i: usize = 0;
        proof {
            reveal(Seq::filter);
            assert(self.entries@.take(0) =~= Seq::<QueueEntry>::empty());
        }
        while i < self.entries.len()
            invariant
                i <= self.entries@.len(),
                keep == |e: QueueEntry| e.status == status,
                out@ == self.entries@.take(i as int).filter(keep),
            decreases self.entries.len() - i,
        {
            let entry = self.entries[i];
            proof {
                reveal(Seq::filter);
                assert(self.entries@.take(i + 1).drop_last() =~= self.entries@.take(i as int));
            }
            if entry.status == status {
                out.push(entry);
            }
            i += 1;
        }
        assert(self.entries@.take(i as int) =~= self.entries@);
        out
    }

    /// The searching entries in front of the entry `id`, oldest first.
    pub fn searching_before(&self, id: i64) -> (r: Vec<QueueEntry>)
        ensures
            r@ == searching_ahead(self@, id),
    {
        let mut out: Vec<QueueEntry> = Vec::new();
        let ghost keep = |e: QueueEntry| e.status == Status::Searching && e.id < id;
        let mut i: usize = 0;
        proof {
            reveal(Seq::filter);
            assert(self.entries@.take(0) =~= Seq::<QueueEntry>::empty());
        }
        while i < self.entries.len()
            invariant
                i <= self.entries@.len(),
                keep == |e: QueueEntry| e.status == Status::Searching && e.id < id,
                out@ == self.entries@.take(i as int).filter(keep),
            decreases self.entries.len() - i,
        {
            let entry = self.entries[i];
            proof {
                reveal(Seq::filter);
                assert(self.entries@.take(i + 1).drop_last() =~= self.entries@.take(i as int));
            }
            if entry.status == Status::Searching && entry.id < id {
                out.push(entry);
            }
            i += 1;
        }
        assert(self.entries@.take(i as int) =~= self.entries@);
        out
    }

    /// The latest entry of `requester`, whatever its status.
    pub fn latest_for_requester(&self, requester: u128) -> (r: Option<QueueEntry>)
        ensures
            r == latest_of(self@, requester),
    {
        let mut i: usize = self.entries.len();
        assert(self.entries@.take(i as int) =~= self.entries@);
        while i > 0
            invariant
                i <= self.entries@.len(),
                latest_of(self.entries@.take(i as int), requester) == latest_of(
                    self.entries@,
                    requester,
                ),
            decreases i,
        {
            let entry = self.entries[i - 1];
            if entry.requester == requester {
                return Some(entry);
            }
            assert(self.entries@.take(i as int).drop_last() =~= self.entries@.take(i - 1));
            i -= 1;
        }
        None
    }

    /// Up to `limit` completed entries with a sequence id of at most `id`,
    /// the newest first.
    pub fn recent_completed_at_or_before(&self, id: i64, limit: usize) -> (r: Vec<QueueEntry>)
        ensures
            r@ == recent_completed(self@, id, limit as nat),
    {
        let mut out: Vec<QueueEntry> = Vec::new();
        let mut i: usize = self.entries.len();
        assert(self.entries@.take(i as int) =~= self.entries@);
        while i > 0 && out.len() < limit
            invariant
                i <= self.entries@.len(),
                out@.len() <= limit,
                out@ + recent_completed(
                    self.entries@.take(i as int),
                    id,
                    (limit - out@.len()) as nat,
                ) =~= recent_completed(self.entries@, id, limit as nat),
            decreases i,
        {
            let entry = self.entries[i - 1];
            assert(self.entries@.take(i as int).drop_last() =~= self.entries@.take(i - 1));
            if entry.status == Status::Completed && entry.id <= id {
                out.push(entry);
            }
            i -= 1;
        }
        out
    }

    /// Appends a searching entry for `requester` and returns its sequence
    /// id, or `None`, with the log unchanged, when the ids have run out.
    pub fn insert_searching(&mut self, requester: u128, now: Timestamp) -> (r: Option<i64>)
        ensures
            old(self)@.len() < i64::MAX ==> r == Some((old(self)@.len() + 1) as i64) && final(self)@
                == old(self)@.push(fresh_entry((old(self)@.len() + 1) as i64, requester, now)),
            old(self)@.len() >= i64::MAX ==> r is None && final(self)@ == old(self)@,
            evolves(old(self)@, final(self)@),
    {
        proof {
            use_type_invariant(&*self);
        }
        if self.entries.len() as u64 >= i64::MAX as u64 {
            return None;
        }
        let id: i64 = self.entries.len() as i64 + 1;
        let mut entries: Vec<QueueEntry> = Vec::new();
        core::mem::swap(&mut self.entries, &mut entries);
        entries.push(
            QueueEntry {
                id,
                requester,
                status: Status::Searching,
                created_at: now,
                updated_at: now,
            },
        );
        core::mem::swap(&mut self.entries, &mut entries);
        Some(id)
    }

    /// Changes the status of the entry `id` to `status` at `now`, provided
    /// that the entry exists, is still searching and `status` is a final
    /// one. Returns the number of entries changed, one or zero.
    pub fn update_status(&mut self, id: i64, status: Status, now: Timestamp) -> (rows: usize)
        ensures
            well_numbered(old(self)@),
            1 <= id <= old(self)@.len() && old(self)@[id - 1].status == Status::Searching
                && status.is_terminal() ==> rows == 1 && final(self)@ == old(self)@.update(
                id - 1,
                settled(old(self)@[id - 1], status, now),
            ),
            !(1 <= id <= old(self)@.len() && old(self)@[id - 1].status == Status::Searching
                && status.is_terminal()) ==> rows == 0 && final(self)@ == old(self)@,
            evolves(old(self)@, final(self)@),
    {
        proof {
            use_type_invariant(&*self);
        }
        if !(1 <= id && (id as u64) <= self.entries.len() as u64) || !status.terminal() {
            return 0;
        }
        let index = (id - 1) as usize;
        let entry = self.entries[index];
        if entry.status != Status::Searching {
            return 0;
        }
        let mut entries: Vec<QueueEntry> = Vec::new();
        core::mem::swap(&mut self.entries, &mut entries);
        entries.set(
            index,
            QueueEntry {
                id: entry.id,
                requester: entry.requester,
                status,
                created_at: entry.created_at,
                updated_at: now,
            },
        );
        assert(entries@ =~= old(self)@.update(id - 1, settled(old(self)@[id - 1], status, now)));
        core::mem::swap(&mut self.entries, &mut entries);
        1
    }
}

/// True when no two couriers share an id.
pub open spec fn distinct_ids(couriers: Seq<Courier>) -> bool {
    forall|i: int, j: int|
        0 <= i < j < couriers.len() ==> (#[trigger] couriers[i]).id != (#[trigger] couriers[j]).id
}

/// True when a courier with the id `id` is among `couriers`.
pub open spec fn has_courier(couriers: Seq<Courier>, id: u128) -> bool {
    exists|i: int| 0 <= i < couriers.len() && (#[trigger] couriers[i]).id == id
}

/// The first free courier at or after position `from`.
pub open spec fn first_free_from(couriers: Seq<Courier>, from: int) -> Option<Courier>
    decreases couriers.len() - from,
{
    if from < 0 || from >= couriers.len() {
        None
    } else if couriers[from].is_free {
        Some(couriers[from])
    } else {
        first_free_from(couriers, from + 1)
    }
}

/// The first free courier.
pub open spec fn first_free(couriers: Seq<Courier>) -> Option<Courier> {
    first_free_from(couriers, 0)
}

/// True when the courier `id` is there and its flag is not `free` yet.
pub open spec fn flag_differs(couriers: Seq<Courier>, id: u128, free: bool) -> bool {
    exists|i: int|
        0 <= i < couriers.len() && (#[trigger] couriers[i]).id == id && couriers[i].is_free != free
}

/// The couriers after the flag of the courier `id` was set to `free`.
pub open spec fn with_flag(couriers: Seq<Courier>, id: u128, free: bool) -> Seq<Courier> {
    Seq::new(
        couriers.len(),
        |i: int|
            if couriers[i].id == id {
                Courier { is_free: free, ..couriers[i] }
            } else {
                couriers[i]
            },
    )
}

/// The couriers after the rating of the courier `id` was set.
pub open spec fn with_rating(couriers: Seq<Courier>, id: u128, rating_bits: u64) -> Seq<Courier> {
    Seq::new(
        couriers.len(),
        |i: int|
            if couriers[i].id == id {
                Courier { rating_bits, ..couriers[i] }
            } else {
                couriers[i]
            },
    )
}

/// The set of couriers, each with its free flag and rating.
pub struct CourierRegistry {
    couriers: Vec<Courier>,
}

impl View for CourierRegistry {
    type V = Seq<Courier>;

    /// The couriers in the order in which they were registered.
    closed spec fn view(&self) -> Seq<Courier> {
        self.couriers@
    }
}

impl CourierRegistry {
    /// No two couriers share an id.
    #[verifier::type_invariant]
    spec fn distinct(self) -> bool {
        distinct_ids(self.couriers@)
    }

    /// A registry without couriers.
    pub fn new() -> (r: CourierRegistry)
        ensures
            r@ == Seq::<Courier>::empty(),
    {
        CourierRegistry { couriers: Vec::new() }
    }

    /// Position of the courier `id`, if it is registered.
    fn position(&self, id: u128) -> (r: Option<usize>)
        ensures
            distinct_ids(self@),
            r matches Some(i) ==> i < self@.len() && self@[i as int].id == id,
            r is None ==> !has_courier(self@, id),
    {
        proof {
            use_type_invariant(self);
        }
        let mut i: usize = 0;
        while i < self.couriers.len()
            invariant
                i <= self.couriers@.len(),
                distinct_ids(self.couriers@),
                forall|k: int| 0 <= k < i ==> (#[trigger] self.couriers@[k]).id != id,
            decreases self.couriers.len() - i,
        {
            if self.couriers[i].id == id {
                return Some(i);
            }
            i += 1;
        }
        None
    }

    /// The courier `id`, if it is registered.
    pub fn get(&self, id: u128) -> (r: Option<Courier>)
        ensures
            r is Some <==> has_courier(self@, id),
            r matches Some(c) ==> c.id == id && self@.contains(c),
    {
        match self.position(id) {
            Some(i) => Some(self.couriers[i]),
            None => None,
        }
    }

    /// Registers a free courier under `id`. Returns false, and changes
    /// nothing, when the id is taken.
    pub fn register(&mut self, id: u128, rating_bits: u64) -> (r: bool)
        ensures
            r == !has_courier(old(self)@, id),
            r ==> final(self)@ == old(self)@.push(Courier { id, is_free: true, rating_bits }),
            !r ==> final(self)@ == old(self)@,
    {
        if self.position(id).is_some() {
            return false;
        }
        let mut couriers: Vec<Courier> = Vec::new();
        core::mem::swap(&mut self.couriers, &mut couriers);
        couriers.push(Courier { id, is_free: true, rating_bits });
        core::mem::swap(&mut self.couriers, &mut couriers);
        true
    }

    /// One free courier, if there is any: the first in the order of
    /// registration.
    pub fn find_one_free(&self) -> (r: Option<Courier>)
        ensures
            r == first_free(self@),
    {
        let mut i: usize = 0;
        while i < self.couriers.len()
            invariant
                i <= self.couriers@.len(),
                first_free_from(self.couriers@, i as int) == first_free(self.couriers@),
            decreases self.couriers.len() - i,
        {
            if self.couriers[i].is_free {
                return Some(self.couriers[i]);
            }
            i += 1;
        }
        None
    }

    /// Sets the free flag of the courier `id` to `free`, provided that the
    /// courier is registered and the flag is not `free` already. Returns the
    /// number of couriers changed, one or zero.
    pub fn set_free(&mut self, id: u128, free: bool) -> (rows: usize)
        ensures
            final(self)@ == with_flag(old(self)@, id, free),
            flag_differs(old(self)@, id, free) ==> rows == 1,
            !flag_differs(old(self)@, id, free) ==> rows == 0 && final(self)@ == old(self)@,
    {
        match self.position(id) {
            None => {
                assert(self.couriers@ =~= with_flag(self.couriers@, id, free));
                0
            },
            Some(i) => {
                let courier = self.couriers[i];
                if courier.is_free == free {
                    assert(self.couriers@ =~= with_flag(self.couriers@, id, free));
                    assert forall|k: int|
                        0 <= k < self.couriers@.len() && (#[trigger] self.couriers@[k]).id
                            == id implies self.couriers@[k].is_free == free by {
                        if k != i {
                            assert(self.couriers@[k].id != self.couriers@[i as int].id);
                        }
                    }
                    return 0;
                }
                let mut couriers: Vec<Courier> = Vec::new();
                core::mem::swap(&mut self.couriers, &mut couriers);
                couriers.set(
                    i,
                    Courier { id: courier.id, is_free: free, rating_bits: courier.rating_bits },
                );
                assert(couriers@ =~= with_flag(old(self)@, id, free)) by {
                    assert forall|k: int| 0 <= k < couriers@.len() implies couriers@[k]
                        == with_flag(old(self)@, id, free)[k] by {
                        if k != i {
                            assert(old(self)@[k].id != old(self)@[i as int].id);
                        }
                    }
                }
                core::mem::swap(&mut self.couriers, &mut couriers);
                1
            },
        }
    }

    /// Sets the rating of the courier `id`. Returns the number of couriers
    /// changed: one if the courier is registered, else zero.
    pub fn set_rating(&mut self, id: u128, rating_bits: u64) -> (rows: usize)
        ensures
            final(self)@ == with_rating(old(self)@, id, rating_bits),
            rows == if has_courier(old(self)@, id) { 1usize } else { 0usize },
    {
        match self.position(id) {
            None => {
                assert(self.couriers@ =~= with_rating(self.couriers@, id, rating_bits));
                0
            },
            Some(i) => {
                let courier = self.couriers[i];
                let mut couriers: Vec<Courier> = Vec::new();
                core::mem::swap(&mut self.couriers, &mut couriers);
                couriers.set(i, Courier { id: courier.id, is_free: courier.is_free, rating_bits });
                assert(couriers@ =~= with_rating(old(self)@, id, rating_bits)) by {
                    assert forall|k: int| 0 <= k < couriers@.len() implies couriers@[k]
                        == with_rating(old(self)@, id, rating_bits)[k] by {
                        if k != i {
                            assert(old(self)@[k].id != old(self)@[i as int].id);
                        }
                    }
                }
                core::mem::swap(&mut self.couriers, &mut couriers);
                1
            },
        }
    }
}

} // verus!
