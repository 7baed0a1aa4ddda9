use habit_tracker::{join_words, parse_add_command, parse_add_words, Goal, HabitError};

fn words(ws: &[&str]) -> Vec<String> {
    ws.iter().map(|w| w.to_string()).collect()
}

fn parsed(ws: &[&str]) -> (String, Result<Goal, HabitError>) {
    let r = parse_add_command(&words(ws));
    (r.name, r.goal)
}

#[test]
fn add_with_no_goal_is_daily() {
    assert_eq!(parsed(&["Workout"]), ("Workout".to_string(), Ok(Goal::Daily)));
    assert_eq!(parsed(&["Read", "10", "pages"]), ("Read 10 pages".to_string(), Ok(Goal::Daily)));
    assert_eq!(parsed(&["Run", "4"]), ("Run 4".to_string(), Ok(Goal::Daily)));
    assert_eq!(parsed(&[]), (String::new(), Ok(Goal::Daily)));
}

#[test]
fn add_reads_goal_words_in_any_case() {
    assert_eq!(parsed(&["Reading", "4", "weekly"]), ("Reading".to_string(), Ok(Goal::Weekly(4))));
    assert_eq!(parsed(&["Morning", "Run", "3", "WEEK"]), ("Morning Run".to_string(), Ok(Goal::Weekly(3))));
    assert_eq!(parsed(&["Yoga", "20", "Monthly"]), ("Yoga".to_string(), Ok(Goal::Monthly(20))));
    assert_eq!(parsed(&["Budget", "2", "month", "extra"]), ("Budget".to_string(), Ok(Goal::Monthly(2))));
    assert_eq!(parsed(&["Floss", "Daily"]), ("Floss".to_string(), Ok(Goal::Daily)));
    assert_eq!(parsed(&["Walk", "daily", "4", "weekly"]), ("Walk".to_string(), Ok(Goal::Daily)));
}

#[test]
fn add_with_zero_target_is_refused() {
    assert_eq!(parsed(&["Stretch", "0", "weekly"]), ("Stretch".to_string(), Err(HabitError::InvalidGoalTarget)));
    assert_eq!(parsed(&["Stretch", "0", "monthly"]), ("Stretch".to_string(), Err(HabitError::InvalidGoalTarget)));
}

#[test]
fn add_words_use_the_given_lower_case_forms() {
    let ws = words(&["Swim", "2", "X"]);
    let lowered = words(&["swim", "2", "week"]);
    let r = parse_add_words(&ws, &lowered);
    assert_eq!((r.name, r.goal), ("Swim".to_string(), Ok(Goal::Weekly(2))));
}

#[test]
fn join_words_puts_single_spaces_between() {
    assert_eq!(join_words(&words(&["a", "bc", "d"])), "a bc d");
    assert_eq!(join_words(&words(&["solo"])), "solo");
    assert_eq!(join_words(&words(&[])), "");
}
