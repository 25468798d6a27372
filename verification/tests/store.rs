use delivery_user::model::Status;
use delivery_user::store::{CourierRegistry, QueueStore};
use delivery_user::time::Timestamp;

fn at(seconds: i64) -> Timestamp {
    Timestamp::from_micros(seconds * 1_000_000).unwrap()
}

fn filled() -> QueueStore {
    let mut q = QueueStore::new();
    for (requester, when) in [(10u128, 100), (11, 110), (10, 120), (12, 130), (13, 140)] {
        q.insert_searching(requester, at(when)).unwrap();
    }
    q
}

#[test]
fn ids_are_handed_out_in_order() {
    let mut q = QueueStore::new();
    assert_eq!(q.len(), 0);
    assert_eq!(q.insert_searching(10, at(100)), Some(1));
    assert_eq!(q.insert_searching(11, at(90)), Some(2));
    assert_eq!(q.insert_searching(10, at(95)), Some(3));
    assert_eq!(q.len(), 3);
    assert!(q.get(0).is_none());
    assert!(q.get(4).is_none());
    assert!(q.get(-1).is_none());
    assert!(q.get(i64::MAX).is_none());
    assert!(q.get(i64::MIN).is_none());
    let second = q.get(2).unwrap();
    assert_eq!(second.id, 2);
    assert_eq!(second.requester, 11);
    assert_eq!(second.status, Status::Searching);
    assert_eq!(second.created_at.micros(), 90_000_000);
}

#[test]
fn status_leaves_searching_once() {
    let mut q = filled();
    assert_eq!(q.update_status(2, Status::Completed, at(200)), 1);
    let e = q.get(2).unwrap();
    assert_eq!(e.status, Status::Completed);
    assert_eq!(e.updated_at.micros(), 200_000_000);
    assert_eq!(e.created_at.micros(), 110_000_000);
    assert_eq!(q.update_status(2, Status::Expired, at(300)), 0);
    assert_eq!(q.update_status(2, Status::Completed, at(300)), 0);
    let e = q.get(2).unwrap();
    assert_eq!(e.status, Status::Completed);
    assert_eq!(e.updated_at.micros(), 200_000_000);
}

#[test]
fn status_update_needs_an_entry_and_a_final_status() {
    let mut q = filled();
    assert_eq!(q.update_status(0, Status::Expired, at(200)), 0);
    assert_eq!(q.update_status(6, Status::Expired, at(200)), 0);
    assert_eq!(q.update_status(-3, Status::Expired, at(200)), 0);
    assert_eq!(q.update_status(1, Status::Searching, at(200)), 0);
    assert_eq!(q.get(1).unwrap().updated_at.micros(), 100_000_000);
    assert_eq!(q.list_by_status(Status::Searching).len(), 5);
}

#[test]
fn lists_are_in_order_of_arrival() {
    let mut q = filled();
    q.update_status(2, Status::Completed, at(200));
    q.update_status(4, Status::Expired, at(210));
    let ids = |status| -> Vec<i64> { q.list_by_status(status).iter().map(|e| e.id).collect() };
    assert_eq!(ids(Status::Searching), vec![1, 3, 5]);
    assert_eq!(ids(Status::Completed), vec![2]);
    assert_eq!(ids(Status::Expired), vec![4]);
    assert!(QueueStore::new().list_by_status(Status::Searching).is_empty());
}

#[test]
fn searching_before_leaves_out_the_entry_itself() {
    let mut q = filled();
    q.update_status(2, Status::Completed, at(200));
    let ids = |id| -> Vec<i64> { q.searching_before(id).iter().map(|e| e.id).collect() };
    assert_eq!(ids(5), vec![1, 3, 4]);
    assert_eq!(ids(3), vec![1]);
    assert_eq!(ids(1), Vec::<i64>::new());
    assert_eq!(ids(100), vec![1, 3, 4, 5]);
}

#[test]
fn latest_entry_of_a_requester_is_the_last_inserted() {
    let mut q = filled();
    assert_eq!(q.latest_for_requester(10).unwrap().id, 3);
    assert_eq!(q.latest_for_requester(11).unwrap().id, 2);
    assert!(q.latest_for_requester(99).is_none());
    q.update_status(3, Status::Expired, at(200));
    let latest = q.latest_for_requester(10).unwrap();
    assert_eq!(latest.id, 3);
    assert_eq!(latest.status, Status::Expired);
}

#[test]
fn recent_completed_are_newest_first_and_limited() {
    let mut q = QueueStore::new();
    for i in 0..15 {
        q.insert_searching(i as u128, at(100 + i)).unwrap();
    }
    for id in [1, 2, 4, 5, 6, 7, 8, 10, 11, 12, 13, 14, 15] {
        assert_eq!(q.update_status(id, Status::Completed, at(500)), 1);
    }
    assert_eq!(q.update_status(3, Status::Expired, at(500)), 1);
    let ids = |id, limit| -> Vec<i64> {
        q.recent_completed_at_or_before(id, limit).iter().map(|e| e.id).collect()
    };
    assert_eq!(ids(15, 10), vec![15, 14, 13, 12, 11, 10, 8, 7, 6, 5]);
    assert_eq!(ids(9, 10), vec![8, 7, 6, 5, 4, 2, 1]);
    assert_eq!(ids(8, 3), vec![8, 7, 6]);
    assert_eq!(ids(3, 10), vec![2, 1]);
    assert_eq!(ids(15, 0), Vec::<i64>::new());
    assert_eq!(ids(0, 10), Vec::<i64>::new());
}

#[test]
fn couriers_register_once() {
    let mut r = CourierRegistry::new();
    assert!(r.register(1, 10));
    assert!(r.register(2, 20));
    assert!(!r.register(1, 30));
    let first = r.get(1).unwrap();
    assert_eq!(first.rating_bits, 10);
    assert!(first.is_free);
    assert!(r.get(3).is_none());
}

#[test]
fn first_free_courier_is_found_in_order() {
    let mut r = CourierRegistry::new();
    assert!(r.find_one_free().is_none());
    r.register(1, 10);
    r.register(2, 20);
    r.register(3, 30);
    assert_eq!(r.find_one_free().unwrap().id, 1);
    assert_eq!(r.set_free(1, false), 1);
    assert_eq!(r.find_one_free().unwrap().id, 2);
    assert_eq!(r.set_free(2, false), 1);
    assert_eq!(r.set_free(3, false), 1);
    assert!(r.find_one_free().is_none());
    assert_eq!(r.set_free(2, true), 1);
    assert_eq!(r.find_one_free().unwrap().id, 2);
}

#[test]
fn claim_is_conditional_on_the_flag() {
    let mut r = CourierRegistry::new();
    r.register(1, 10);
    assert_eq!(r.set_free(1, false), 1);
    // A second claim finds the courier busy and changes nothing.
    assert_eq!(r.set_free(1, false), 0);
    assert!(!r.get(1).unwrap().is_free);
    assert_eq!(r.set_free(1, true), 1);
    assert_eq!(r.set_free(1, true), 0);
    assert_eq!(r.set_free(9, false), 0);
    assert_eq!(r.get(1).unwrap().rating_bits, 10);
}

#[test]
fn rating_is_set_for_known_couriers() {
    let mut r = CourierRegistry::new();
    r.register(1, 10);
    r.register(2, 20);
    assert_eq!(r.set_rating(2, 25), 1);
    assert_eq!(r.get(2).unwrap().rating_bits, 25);
    assert_eq!(r.get(1).unwrap().rating_bits, 10);
    assert_eq!(r.set_rating(3, 5), 0);
}
