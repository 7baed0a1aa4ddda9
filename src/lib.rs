//! Habit tracking: a per-habit ledger of completion dates and the analytics
//! computed from it (streaks, rolling counts, goal progress, month calendars).
//! Every time-relative query takes the reference day ("today") as an argument.

pub mod calendar;
pub mod command;
pub mod date;
pub mod error;
pub mod goal;
pub mod habit;
pub mod ledger;
pub mod streak;
pub mod text;
pub mod tracker;

pub use calendar::{month_calendar, CalendarCell, CalendarMonth};
pub use command::{parse_add_command, parse_add_words, AddRequest};
pub use date::{days_in_month, is_leap, weekday_from_monday, CompletionDate};
pub use error::HabitError;
pub use goal::{completion_percent, goal_status, progress_bar, Goal, GoalStatus, ProgressBar};
pub use habit::Habit;
pub use text::join_words;
pub use ledger::{Ledger, RecordOutcome};
pub use tracker::{HabitTracker, MarkOutcome};
