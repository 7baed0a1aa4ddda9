use habit_tracker::{CompletionDate, HabitError, Ledger, RecordOutcome};

fn ymd(y: i32, m: u32, d: u32) -> CompletionDate {
    CompletionDate::from_ymd(y, m, d).unwrap()
}

fn day_numbers(ledger: &Ledger, dates: &[CompletionDate]) -> Vec<bool> {
    dates.iter().map(|d| ledger.contains(*d)).collect()
}

#[test]
fn day_numbers_follow_the_calendar() {
    assert_eq!(ymd(1, 1, 1).day_number(), 1);
    assert_eq!(ymd(1970, 1, 1).day_number(), 719_163);
    assert_eq!(ymd(2024, 3, 1).day_number() - ymd(2024, 2, 29).day_number(), 1);
    assert_eq!(ymd(2025, 1, 1).day_number() - ymd(2024, 12, 31).day_number(), 1);
}

#[test]
fn malformed_dates_are_rejected() {
    assert_eq!(CompletionDate::from_ymd(2024, 13, 1), Err(HabitError::InvalidDate));
    assert_eq!(CompletionDate::from_ymd(2024, 1, 32), Err(HabitError::InvalidDate));
    assert_eq!(CompletionDate::from_ymd(2023, 2, 29), Err(HabitError::InvalidDate));
    assert_eq!(CompletionDate::from_ymd(2024, 0, 10), Err(HabitError::InvalidDate));
    assert_eq!(CompletionDate::from_ymd(2024, 4, 0), Err(HabitError::InvalidDate));
    assert!(CompletionDate::from_ymd(2024, 2, 29).is_ok());
}

#[test]
fn record_keeps_dates_ascending_without_duplicates() {
    let a = ymd(2024, 5, 3);
    let b = ymd(2024, 5, 1);
    let c = ymd(2024, 5, 2);
    let mut ledger = Ledger::new();
    assert_eq!(ledger.record(a), RecordOutcome::Recorded);
    assert_eq!(ledger.record(b), RecordOutcome::Recorded);
    assert_eq!(ledger.record(a), RecordOutcome::AlreadyRecorded);
    assert_eq!(ledger.record(c), RecordOutcome::Recorded);
    assert_eq!(ledger.record(b), RecordOutcome::AlreadyRecorded);
    assert_eq!(ledger.len(), 3);
    let all = ledger.all();
    assert_eq!(all, vec![b, c, a]);
}

#[test]
fn from_dates_keeps_each_date_once() {
    let d = ymd(2024, 6, 10);
    let e = ymd(2024, 6, 8);
    let f = ymd(2024, 7, 1);
    let ledger = Ledger::from_dates(&vec![d, e, d, f, e, d]);
    assert_eq!(ledger.all(), vec![e, d, f]);
    assert_eq!(day_numbers(&ledger, &[d, e, f, ymd(2024, 6, 9)]), vec![true, true, true, false]);
}

#[test]
fn count_in_range_is_open_on_the_left() {
    let ledger = Ledger::from_dates(&vec![ymd(2024, 1, 1), ymd(2024, 1, 2), ymd(2024, 1, 5)]);
    let start = ymd(2024, 1, 1).day_number() as i64;
    let end = ymd(2024, 1, 5).day_number() as i64;
    assert_eq!(ledger.count_in_range(start, end), 2);
    assert_eq!(ledger.count_in_range(start - 1, end), 3);
    assert_eq!(ledger.count_in_range(start, end - 1), 1);
    assert_eq!(ledger.count_in_range(end, start), 0);
}

#[test]
fn longest_streak_examples() {
    let d = ymd(2024, 2, 27);
    let d1 = ymd(2024, 2, 28);
    let d2 = ymd(2024, 2, 29);
    assert_eq!(Ledger::from_dates(&vec![d, d1, d2]).longest_streak(), 3);
    assert_eq!(Ledger::from_dates(&vec![d, d2]).longest_streak(), 1);
    assert_eq!(Ledger::new().longest_streak(), 0);
    assert_eq!(Ledger::from_dates(&vec![d]).longest_streak(), 1);
}

#[test]
fn longest_streak_takes_the_longest_run_anywhere() {
    let dates = vec![
        ymd(2024, 1, 1),
        ymd(2024, 1, 2),
        ymd(2024, 1, 4),
        ymd(2024, 1, 5),
        ymd(2024, 1, 6),
        ymd(2024, 1, 7),
        ymd(2024, 1, 9),
        ymd(2024, 1, 31),
        ymd(2024, 2, 1),
    ];
    assert_eq!(Ledger::from_dates(&dates).longest_streak(), 4);
}

#[test]
fn current_streak_counts_back_from_today() {
    let today = ymd(2024, 3, 1);
    let ledger = Ledger::from_dates(&vec![ymd(2024, 2, 28), ymd(2024, 2, 29), today]);
    assert_eq!(ledger.current_streak(today), 3);
}

#[test]
fn current_streak_grace_day() {
    let today = ymd(2024, 3, 10);
    let ledger = Ledger::from_dates(&vec![ymd(2024, 3, 5), ymd(2024, 3, 9)]);
    assert_eq!(ledger.current_streak(today), 1);
    let longer = Ledger::from_dates(&vec![ymd(2024, 3, 7), ymd(2024, 3, 8), ymd(2024, 3, 9)]);
    assert_eq!(longer.current_streak(today), 3);
}

#[test]
fn current_streak_zero_without_today_or_yesterday() {
    let today = ymd(2024, 3, 10);
    let ledger = Ledger::from_dates(&vec![
        ymd(2024, 3, 4),
        ymd(2024, 3, 5),
        ymd(2024, 3, 6),
        ymd(2024, 3, 7),
        ymd(2024, 3, 8),
    ]);
    assert_eq!(ledger.current_streak(today), 0);
    assert_eq!(Ledger::new().current_streak(today), 0);
}

#[test]
fn current_streak_grace_applies_only_at_the_start() {
    let today = ymd(2024, 3, 10);
    let ledger = Ledger::from_dates(&vec![ymd(2024, 3, 7), ymd(2024, 3, 9), today]);
    assert_eq!(ledger.current_streak(today), 2);
}

#[test]
fn year_range_follows_chrono() {
    assert!(CompletionDate::from_ymd(262142, 12, 31).is_ok());
    assert_eq!(CompletionDate::from_ymd(262143, 1, 1), Err(HabitError::InvalidDate));
    assert!(CompletionDate::from_ymd(-262143, 1, 1).is_ok());
    assert_eq!(CompletionDate::from_ymd(-262144, 12, 31), Err(HabitError::InvalidDate));
}
