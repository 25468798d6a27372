use delivery_user::estimator::{estimate_wait, wait_status, DEFAULT_FORECAST, HISTORY_LIMIT};
use delivery_user::model::{QueueEntry, Status};
use delivery_user::time::Timestamp;

fn at(seconds: i64) -> Timestamp {
    Timestamp::from_micros(seconds * 1_000_000).unwrap()
}

fn entry(id: i64, status: Status, created: i64, updated: i64) -> QueueEntry {
    QueueEntry {
        id,
        requester: id as u128,
        status,
        created_at: at(created),
        updated_at: at(updated),
    }
}

fn searching(id: i64, created: i64) -> QueueEntry {
    entry(id, Status::Searching, created, created)
}

fn completed(id: i64, created: i64, took: i64) -> QueueEntry {
    entry(id, Status::Completed, created, created + took)
}

#[test]
fn forecast_falls_back_to_the_default() {
    let target = searching(1, 1_000);
    assert_eq!(estimate_wait(&target, &vec![], &vec![], &at(1_010)), 180);
    assert_eq!(DEFAULT_FORECAST, 180);
}

#[test]
fn forecast_without_history_scales_the_head_wait() {
    // The head has waited 50 s; the target is third in line.
    let ahead = vec![searching(4, 950), searching(5, 990)];
    let target = searching(6, 995);
    assert_eq!(estimate_wait(&target, &vec![], &ahead, &at(1_000)), 150);
}

#[test]
fn forecast_without_history_counts_the_target_itself() {
    let ahead = vec![searching(1, 940)];
    let target = searching(2, 990);
    // 60 s of the head times two places.
    assert_eq!(estimate_wait(&target, &vec![], &ahead, &at(1_000)), 120);
}

#[test]
fn forecast_without_history_takes_nothing_off() {
    // The target itself has waited 500 s; without history that is not read.
    let ahead = vec![searching(1, 990)];
    let target = searching(2, 500);
    assert_eq!(estimate_wait(&target, &vec![], &ahead, &at(1_000)), 20);
}

#[test]
fn forecast_smooths_the_history() {
    // Newest first: 100 s, then 200 s. 0.2 * 200 + 0.8 * 100 = 120.
    let history = vec![completed(3, 700, 100), completed(2, 400, 200)];
    let target = searching(4, 1_000);
    assert_eq!(estimate_wait(&target, &history, &vec![], &at(1_000)), 120);
}

#[test]
fn forecast_takes_off_what_the_target_has_waited() {
    let history = vec![completed(3, 700, 100), completed(2, 400, 200)];
    let target = searching(4, 1_000);
    assert_eq!(estimate_wait(&target, &history, &vec![], &at(1_022)), 98);
    assert_eq!(estimate_wait(&target, &history, &vec![], &at(1_119)), 1);
}

#[test]
fn forecast_is_reported_whole_once_it_is_used_up() {
    let history = vec![completed(3, 700, 100), completed(2, 400, 200)];
    let target = searching(4, 1_000);
    // 120 - 120 is not positive: the forecast itself is reported.
    assert_eq!(estimate_wait(&target, &history, &vec![], &at(1_120)), 120);
    assert_eq!(estimate_wait(&target, &history, &vec![], &at(5_000)), 120);
}

#[test]
fn forecast_grows_with_long_waits_ahead() {
    let history = vec![completed(3, 700, 100), completed(2, 400, 200)];
    // At 2000: waits of 130 s, 100 s and 500 s ahead. The first is above the
    // smoothed 120 s and joins: 0.2 * 130 + 0.8 * 120 = 122. The second is
    // not above 122 s and ends the scan, so the third is never read.
    let ahead = vec![searching(4, 1_870), searching(5, 1_900), searching(6, 1_500)];
    let target = searching(7, 2_000);
    assert_eq!(estimate_wait(&target, &history, &ahead, &at(2_000)), 122);
}

#[test]
fn forecast_scan_compares_with_the_running_value() {
    let history = vec![completed(1, 0, 100)];
    // Waits ahead: 200 s joins (S = 120), 121 s joins (S = 120.2),
    // 120 s does not (120 is not above 120.2).
    let ahead = vec![searching(2, 800), searching(3, 879), searching(4, 880)];
    let target = searching(5, 1_000);
    assert_eq!(estimate_wait(&target, &history, &ahead, &at(1_000)), 120);
    // With 121 s in the last place it joins: 0.2 * 121 + 0.8 * 120.2 = 120.36.
    let ahead = vec![searching(2, 800), searching(3, 879), searching(4, 879)];
    assert_eq!(estimate_wait(&target, &history, &ahead, &at(1_000)), 120);
    // And a wait of 1000 s after it lifts the value to 0.2 * 1000 + 0.8 * 120.36 = 296.288.
    let ahead = vec![searching(2, 800), searching(3, 879), searching(4, 879), searching(5, 0)];
    assert_eq!(estimate_wait(&target, &history, &ahead, &at(1_000)), 296);
}

#[test]
fn forecast_reads_ten_entries_of_history_at_most() {
    let mut history: Vec<QueueEntry> = Vec::new();
    for i in 0..HISTORY_LIMIT as i64 {
        history.push(completed(100 - i, 0, 50));
    }
    let target = searching(200, 1_000);
    assert_eq!(estimate_wait(&target, &history, &vec![], &at(1_000)), 50);
    // Two more entries, far off the others, change nothing.
    history.push(completed(80, 0, 9_000));
    history.push(completed(79, 0, 9_000));
    assert_eq!(estimate_wait(&target, &history, &vec![], &at(1_000)), 50);
    // In the tenth place such an entry does count: 0.2 * 9000 + 0.8 * 50 = 1840.
    history[HISTORY_LIMIT - 1] = completed(91, 0, 9_000);
    assert_eq!(estimate_wait(&target, &history, &vec![], &at(1_000)), 1_840);
}

#[test]
fn forecast_is_never_negative_with_sane_clocks() {
    let history = vec![completed(3, 700, 0), completed(2, 400, 0), completed(1, 100, 3)];
    let ahead = vec![searching(4, 900), searching(5, 950)];
    let target = searching(6, 960);
    for now in [960, 961, 1_000, 2_000, 1_000_000] {
        assert!(estimate_wait(&target, &history, &ahead, &at(now)) >= 0);
        assert!(estimate_wait(&target, &vec![], &ahead, &at(now)) >= 0);
        assert!(estimate_wait(&target, &history, &vec![], &at(now)) >= 0);
    }
}

#[test]
fn forecast_with_a_clock_set_back_can_be_negative() {
    // The head ahead was created ten seconds after `now`.
    let ahead = vec![searching(1, 1_010)];
    let target = searching(2, 1_020);
    assert_eq!(estimate_wait(&target, &vec![], &ahead, &at(1_000)), -20);
}

#[test]
fn forecast_does_not_overflow_on_the_longest_spans() {
    let far = Timestamp::from_micros(delivery_user::time::MIN_MICROS).unwrap();
    let now = Timestamp::from_micros(delivery_user::time::MAX_MICROS).unwrap();
    let head = QueueEntry {
        id: 1,
        requester: 1,
        status: Status::Searching,
        created_at: far,
        updated_at: far,
    };
    let ahead = vec![head; 1_000];
    let target = searching(2_000, 0);
    assert_eq!(
        estimate_wait(&target, &vec![], &ahead, &now),
        16_000_000_000_000i128 * 1_001
    );
}

#[test]
fn wait_status_gives_the_forecast_while_searching() {
    let target = searching(4, 1_000);
    let history = vec![completed(3, 700, 100), completed(2, 400, 200)];
    let status = wait_status(&target, &history, &vec![], &at(1_022));
    assert_eq!(status.status, Status::Searching);
    assert_eq!(status.eta_seconds, Some(98));
}

#[test]
fn wait_status_gives_no_forecast_once_settled() {
    let history = vec![completed(3, 700, 100)];
    let done = completed(4, 1_000, 30);
    let status = wait_status(&done, &history, &vec![], &at(1_100));
    assert_eq!(status.status, Status::Completed);
    assert_eq!(status.eta_seconds, None);
    let gone = entry(5, Status::Expired, 1_000, 1_181);
    let status = wait_status(&gone, &history, &vec![], &at(1_200));
    assert_eq!(status.status, Status::Expired);
    assert_eq!(status.eta_seconds, None);
}
