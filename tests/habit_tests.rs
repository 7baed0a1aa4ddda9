use habit_tracker::{
    completion_percent, days_in_month, goal_status, is_leap, progress_bar, weekday_from_monday,
    CalendarCell, CompletionDate, Goal, GoalStatus, Habit, HabitError, RecordOutcome,
};

fn ymd(y: i32, m: u32, d: u32) -> CompletionDate {
    CompletionDate::from_ymd(y, m, d).unwrap()
}

fn days_before(today: CompletionDate, n: i32) -> CompletionDate {
    CompletionDate { day: today.day_number() - n }
}

fn habit_with(goal: Goal, dates: &[CompletionDate]) -> Habit {
    let mut h = Habit::new("Read".to_string(), goal, None, ymd(2024, 1, 1));
    for d in dates {
        h.mark_complete(*d);
    }
    h
}

#[test]
fn new_habit_is_empty() {
    let h = Habit::new("Run".to_string(), Goal::Daily, Some("Fitness".to_string()), ymd(2024, 1, 1));
    assert_eq!(h.name, "Run");
    assert_eq!(h.category, Some("Fitness".to_string()));
    assert_eq!(h.completions.len(), 0);
    assert_eq!(h.reminder_time, None);
    assert_eq!(h.longest_streak(), 0);
}

#[test]
fn mark_complete_reports_repeats() {
    let mut h = habit_with(Goal::Daily, &[]);
    let d = ymd(2024, 4, 2);
    assert_eq!(h.mark_complete(d), RecordOutcome::Recorded);
    assert_eq!(h.mark_complete(d), RecordOutcome::AlreadyRecorded);
    assert!(h.is_done_today(d));
    assert!(!h.is_done_today(ymd(2024, 4, 3)));
}

#[test]
fn weekly_count_covers_seven_days_ending_today() {
    let today = ymd(2024, 3, 3);
    let week: Vec<CompletionDate> = (0..7).map(|n| days_before(today, n)).collect();
    let h = habit_with(Goal::Daily, &week);
    assert_eq!(h.weekly_count(today), 7);
    let mut with_boundary = week.clone();
    with_boundary.push(days_before(today, 7));
    let h = habit_with(Goal::Daily, &with_boundary);
    assert_eq!(h.weekly_count(today), 7);
    let h = habit_with(Goal::Daily, &[days_before(today, 7)]);
    assert_eq!(h.weekly_count(today), 0);
}

#[test]
fn monthly_count_covers_thirty_days() {
    let today = ymd(2024, 3, 31);
    let h = habit_with(
        Goal::Daily,
        &[today, days_before(today, 29), days_before(today, 30), days_before(today, 45), ymd(2024, 4, 1)],
    );
    assert_eq!(h.monthly_count(today), 2);
}

#[test]
fn goal_targets_per_week() {
    let today = ymd(2024, 3, 3);
    let dates = [today, days_before(today, 1)];
    assert_eq!(habit_with(Goal::Daily, &dates).goal_progress_this_week(today), (2, 7));
    assert_eq!(habit_with(Goal::Weekly(4), &dates).goal_progress_this_week(today), (2, 4));
    assert_eq!(habit_with(Goal::Monthly(20), &dates).goal_progress_this_week(today), (2, 7));
}

#[test]
fn goal_constructors_reject_zero_targets() {
    assert_eq!(Goal::weekly(0), Err(HabitError::InvalidGoalTarget));
    assert_eq!(Goal::monthly(0), Err(HabitError::InvalidGoalTarget));
    assert_eq!(Goal::weekly(4), Ok(Goal::Weekly(4)));
    assert_eq!(Goal::monthly(20), Ok(Goal::Monthly(20)));
}

#[test]
fn goal_status_tiers() {
    assert_eq!(goal_status(3, 4), GoalStatus::Near);
    assert_eq!(goal_status(4, 4), GoalStatus::Met);
    assert_eq!(goal_status(2, 4), GoalStatus::Behind);
    assert_eq!(goal_status(9, 4), GoalStatus::Met);
    assert_eq!(goal_status(5, 7), GoalStatus::Near);
    assert_eq!(goal_status(4, 7), GoalStatus::Behind);
}

#[test]
fn goal_status_of_a_weekly_habit() {
    let today = ymd(2024, 3, 3);
    let three = [today, days_before(today, 2), days_before(today, 4)];
    assert_eq!(habit_with(Goal::Weekly(4), &three).goal_status(today), GoalStatus::Near);
    let four = [today, days_before(today, 1), days_before(today, 2), days_before(today, 6)];
    assert_eq!(habit_with(Goal::Weekly(4), &four).goal_status(today), GoalStatus::Met);
    let two = [today, days_before(today, 3)];
    assert_eq!(habit_with(Goal::Weekly(4), &two).goal_status(today), GoalStatus::Behind);
}

#[test]
fn completion_percent_truncates() {
    assert_eq!(completion_percent(3, 4), 75);
    assert_eq!(completion_percent(2, 3), 66);
    assert_eq!(completion_percent(5, 4), 125);
    assert_eq!(completion_percent(0, 7), 0);
}

#[test]
fn progress_bar_cells_and_tier() {
    let b = progress_bar(3, 4);
    assert_eq!((b.filled, b.empty, b.tier), (7, 3, GoalStatus::Near));
    let b = progress_bar(1, 7);
    assert_eq!((b.filled, b.empty, b.tier), (1, 9, GoalStatus::Behind));
    let b = progress_bar(9, 4);
    assert_eq!((b.filled, b.empty, b.tier), (10, 0, GoalStatus::Met));
    let b = progress_bar(0, 0);
    assert_eq!((b.filled, b.empty, b.tier), (0, 10, GoalStatus::Met));
}

#[test]
fn month_lengths() {
    assert_eq!(days_in_month(2024, 2), 29);
    assert_eq!(days_in_month(2023, 2), 28);
    assert_eq!(days_in_month(1900, 2), 28);
    assert_eq!(days_in_month(2000, 2), 29);
    assert_eq!(days_in_month(2024, 4), 30);
    assert_eq!(days_in_month(2024, 12), 31);
    assert!(is_leap(2024) && !is_leap(2100) && is_leap(2400));
}

#[test]
fn weekdays_count_from_monday() {
    assert_eq!(weekday_from_monday(2024, 1, 1), Ok(0));
    assert_eq!(weekday_from_monday(2024, 2, 1), Ok(3));
    assert_eq!(weekday_from_monday(2024, 3, 31), Ok(6));
    assert_eq!(weekday_from_monday(2024, 2, 30), Err(HabitError::InvalidDate));
}

fn day_cells(cells: &[CalendarCell]) -> Vec<(u32, bool)> {
    cells
        .iter()
        .filter_map(|c| match c {
            CalendarCell::Day { day, completed } => Some((*day, *completed)),
            CalendarCell::Blank => None,
        })
        .collect()
}

#[test]
fn calendar_of_a_leap_february() {
    let h = habit_with(Goal::Daily, &[ymd(2024, 2, 1), ymd(2024, 2, 29), ymd(2024, 3, 1)]);
    let cal = h.get_calendar_month(2024, 2).unwrap();
    assert_eq!((cal.year, cal.month), (2024, 2));
    assert_eq!(cal.cells.len(), 3 + 29);
    assert!(cal.cells[..3].iter().all(|c| *c == CalendarCell::Blank));
    let days = day_cells(&cal.cells);
    assert_eq!(days.len(), 29);
    assert_eq!(cal.cells[3], CalendarCell::Day { day: 1, completed: true });
    assert_eq!(cal.cells[3 + 28], CalendarCell::Day { day: 29, completed: true });
    assert_eq!(days.iter().filter(|(_, done)| *done).count(), 2);
    for (i, (day, _)) in days.iter().enumerate() {
        assert_eq!(*day as usize, i + 1);
    }
}

#[test]
fn calendar_of_a_common_february_and_december() {
    let h = habit_with(Goal::Daily, &[ymd(2023, 12, 31)]);
    let feb = h.get_calendar_month(2023, 2).unwrap();
    assert_eq!(feb.cells.len(), 2 + 28);
    assert_eq!(day_cells(&feb.cells).len(), 28);
    let dec = h.get_calendar_month(2023, 12).unwrap();
    assert_eq!(dec.cells.len(), 4 + 31);
    assert_eq!(dec.cells[34], CalendarCell::Day { day: 31, completed: true });
    // Sunday 31 December sits in the last column.
    assert_eq!(34 % 7, 6);
}

#[test]
fn calendar_rejects_bad_months() {
    let h = habit_with(Goal::Daily, &[]);
    assert_eq!(h.get_calendar_month(2024, 13).unwrap_err(), HabitError::InvalidDate);
    assert_eq!(h.get_calendar_month(2024, 0).unwrap_err(), HabitError::InvalidDate);
}

#[test]
fn goal_from_string_forms() {
    assert_eq!(Goal::from_string("daily"), Some(Goal::Daily));
    assert_eq!(Goal::from_string("  daily \t"), Some(Goal::Daily));
    assert_eq!(Goal::from_string("4 per week"), Some(Goal::Weekly(4)));
    assert_eq!(Goal::from_string("4 weekly"), Some(Goal::Weekly(4)));
    assert_eq!(Goal::from_string("20 per month"), Some(Goal::Monthly(20)));
    assert_eq!(Goal::from_string("20 monthly"), Some(Goal::Monthly(20)));
    assert_eq!(Goal::from_string("+3 weekly"), Some(Goal::Weekly(3)));
    assert_eq!(Goal::from_string("007 monthly"), Some(Goal::Monthly(7)));
}

#[test]
fn goal_from_string_rejects_other_text() {
    assert_eq!(Goal::from_string(""), None);
    assert_eq!(Goal::from_string("Daily"), None);
    assert_eq!(Goal::from_string("daily please"), None);
    assert_eq!(Goal::from_string("0 weekly"), None);
    assert_eq!(Goal::from_string("-2 weekly"), None);
    assert_eq!(Goal::from_string("x per week"), None);
    assert_eq!(Goal::from_string("4294967296 weekly"), None);
    assert_eq!(Goal::from_string("4294967295 weekly"), Some(Goal::Weekly(4294967295)));
    assert_eq!(Goal::from_string("4 per year"), None);
    assert_eq!(Goal::from_string("4 week"), None);
}

#[test]
fn goal_from_words_takes_split_words() {
    let words = vec!["3".to_string(), "per".to_string(), "month".to_string()];
    assert_eq!(Goal::from_words(&words), Some(Goal::Monthly(3)));
    let words = vec!["3 per".to_string(), "month".to_string()];
    assert_eq!(Goal::from_words(&words), None);
}
