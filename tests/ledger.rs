use worktrack::calendar::{Date, Timestamp};
use worktrack::ledger::{entry_duration, TimeEntry, TimeManager, TimeManagerError};

fn at(y: i32, m: u32, d: u32, h: u32, min: u32) -> Timestamp {
    Timestamp::at(Date::from_ymd(y, m, d).unwrap(), h, min, 0).unwrap()
}

fn date(y: i32, m: u32, d: u32) -> Date {
    Date::from_ymd(y, m, d).unwrap()
}

#[test]
fn total_of_one_entry_is_eight_and_a_half_hours() {
    let mut ledger = TimeManager::new();
    ledger.add_entry(1, at(2023, 9, 15, 9, 0), Some(at(2023, 9, 15, 17, 30)));
    assert_eq!(ledger.calculate_project_time(1), 8 * 3600 + 30 * 60);
}

#[test]
fn total_sums_only_the_project() {
    let mut ledger = TimeManager::new();
    ledger.add_entry(1, at(2023, 9, 15, 9, 0), Some(at(2023, 9, 15, 10, 0)));
    ledger.add_entry(2, at(2023, 9, 15, 9, 0), Some(at(2023, 9, 15, 12, 0)));
    ledger.add_entry(1, at(2023, 9, 16, 23, 0), Some(at(2023, 9, 17, 1, 15)));
    assert_eq!(ledger.calculate_project_time(1), 3600 + 2 * 3600 + 15 * 60);
    assert_eq!(ledger.calculate_project_time(2), 3 * 3600);
    assert_eq!(ledger.calculate_project_time(3), 0);
}

#[test]
fn total_of_empty_ledger_is_zero() {
    let ledger = TimeManager::new();
    assert_eq!(ledger.calculate_project_time(7), 0);
    assert_eq!(ledger.len(), 0);
}

#[test]
fn negative_interval_is_kept() {
    let mut ledger = TimeManager::new();
    ledger.add_entry(4, at(2023, 9, 15, 12, 0), Some(at(2023, 9, 15, 11, 0)));
    assert_eq!(ledger.calculate_project_time(4), -3600);
}

#[test]
fn open_entry_runs_until_now() {
    let mut ledger = TimeManager::new();
    let start = at(2023, 9, 15, 9, 0);
    ledger.add_entry(1, start, None);
    assert_eq!(ledger.calculate_project_time_at(1, at(2023, 9, 15, 11, 0)), 7200);
    assert_eq!(ledger.calculate_project_time_at(1, at(2023, 9, 16, 9, 0)), 86_400);
    assert!(ledger.calculate_project_time(1) > 86_400);
}

#[test]
fn summarize_buckets_by_start_date() {
    let mut ledger = TimeManager::new();
    ledger.add_entry(1, at(2023, 9, 15, 9, 0), Some(at(2023, 9, 15, 17, 30)));
    ledger.add_entry(1, at(2023, 10, 1, 9, 0), Some(at(2023, 10, 1, 10, 0)));
    let summary = ledger.summarize(date(2023, 9, 1), date(2023, 9, 30));
    assert_eq!(summary.len(), 1);
    assert_eq!(summary.get(&1), Some(&30_600));
}

#[test]
fn summarize_excludes_entries_starting_outside() {
    let mut ledger = TimeManager::new();
    ledger.add_entry(1, at(2023, 8, 31, 23, 0), Some(at(2023, 9, 1, 2, 0)));
    ledger.add_entry(2, at(2023, 9, 30, 23, 0), Some(at(2023, 10, 1, 1, 0)));
    ledger.add_entry(3, at(2023, 10, 1, 0, 0), Some(at(2023, 10, 1, 1, 0)));
    ledger.add_entry(2, at(2023, 9, 1, 0, 0), Some(at(2023, 9, 1, 0, 30)));
    let summary = ledger.summarize(date(2023, 9, 1), date(2023, 9, 30));
    assert_eq!(summary.len(), 1);
    assert_eq!(summary.get(&2), Some(&(2 * 3600 + 1800)));
    assert_eq!(summary.get(&1), None);
    assert_eq!(summary.get(&3), None);
}

#[test]
fn summarize_with_open_entry_counts_to_now() {
    let mut ledger = TimeManager::new();
    ledger.add_entry(5, at(2023, 9, 10, 8, 0), None);
    let summary = ledger.summarize_at(date(2023, 9, 1), date(2023, 9, 30), at(2023, 9, 10, 9, 0));
    assert_eq!(summary.get(&5), Some(&3600));
    let empty = TimeManager::new().summarize(date(2023, 9, 1), date(2023, 9, 30));
    assert!(empty.is_empty());
}

#[test]
fn delete_first_of_two_shifts_second_down() {
    let mut ledger = TimeManager::new();
    ledger.add_entry(1, at(2023, 9, 15, 9, 0), Some(at(2023, 9, 15, 10, 0)));
    ledger.add_entry(2, at(2023, 9, 16, 9, 0), Some(at(2023, 9, 16, 10, 0)));
    let second = ledger.get_entry(1).unwrap();
    assert_eq!(ledger.delete_entry(0), Ok(()));
    assert_eq!(ledger.get_entry(0), Some(second));
    assert_eq!(ledger.get_entry(0).unwrap().project_id, 2);
    assert_eq!(ledger.get_entry(1), None);
    assert_eq!(ledger.len(), 1);
}

#[test]
fn update_and_delete_out_of_range_fail() {
    let mut ledger = TimeManager::new();
    let t = at(2023, 9, 15, 9, 0);
    assert_eq!(ledger.update_entry(0, t, None), Err(TimeManagerError::EntryNotFound));
    assert_eq!(ledger.delete_entry(0), Err(TimeManagerError::EntryNotFound));
    ledger.add_entry(1, t, None);
    assert_eq!(ledger.delete_entry(1), Err(TimeManagerError::EntryNotFound));
    assert_eq!(ledger.len(), 1);
}

#[test]
fn update_replaces_interval_keeps_project() {
    let mut ledger = TimeManager::new();
    let index = ledger.add_entry(3, at(2023, 9, 15, 9, 0), None);
    assert_eq!(index, 0);
    let new_start = at(2023, 9, 15, 10, 0);
    let new_end = at(2023, 9, 15, 10, 45);
    assert_eq!(ledger.update_entry(0, new_start, Some(new_end)), Ok(()));
    assert_eq!(
        ledger.get_entry(0),
        Some(TimeEntry { project_id: 3, start: new_start, end: Some(new_end) })
    );
    assert_eq!(ledger.calculate_project_time(3), 45 * 60);
}

#[test]
fn listing_is_a_snapshot_in_order() {
    let mut ledger = TimeManager::new();
    ledger.add_entry(1, at(2023, 9, 1, 9, 0), Some(at(2023, 9, 1, 10, 0)));
    ledger.add_entry(2, at(2023, 9, 2, 9, 0), Some(at(2023, 9, 2, 10, 0)));
    ledger.add_entry(1, at(2023, 9, 3, 9, 0), Some(at(2023, 9, 3, 10, 0)));
    let listed = ledger.list_entries_by_project(1);
    assert_eq!(listed.len(), 2);
    assert_eq!(listed[0].start, at(2023, 9, 1, 9, 0));
    assert_eq!(listed[1].start, at(2023, 9, 3, 9, 0));
    ledger.delete_entry(0).unwrap();
    assert_eq!(listed.len(), 2);
    assert_eq!(ledger.list_entries_by_project(1).len(), 1);
    assert!(ledger.list_entries_by_project(9).is_empty());
}

#[test]
fn entry_duration_of_closed_and_open() {
    let start = at(2023, 9, 15, 9, 0);
    let closed = TimeEntry { project_id: 1, start, end: Some(at(2023, 9, 15, 9, 1)) };
    let open = TimeEntry { project_id: 1, start, end: None };
    let now = at(2023, 9, 15, 9, 5);
    assert_eq!(entry_duration(&closed, &now), 60);
    assert_eq!(entry_duration(&open, &now), 300);
}
