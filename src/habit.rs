use vstd::prelude::*;

use crate::calendar::{is_month_grid, month_calendar, CalendarMonth};
use crate::date::{valid_ymd, CompletionDate};
use crate::error::HabitError;
use crate::goal::{
    bar_fill, bar_tier, goal_status, progress_bar, status_of, Goal, GoalStatus, ProgressBar,
};
use crate::ledger::{
    count_in, lemma_full_window, lemma_window_bound, present, Ledger, RecordOutcome,
};
use crate::streak::{is_current_streak, is_longest_streak};

verus! {

/// Days in the rolling window of `weekly_count`.
pub const WEEK_DAYS: i64 = 7;

/// Days in the rolling window of `monthly_count`.
pub const MONTH_DAYS: i64 = 30;

/// A tracked habit: its name, the day it was created, its completions and goal,
/// and an optional category and reminder time (`HH:MM`).
#[derive(Debug, Clone)]
pub struct Habit {
    pub name: String,
    pub created_date: CompletionDate,
    pub completions: Ledger,
    pub goal: Goal,
    pub category: Option<String>,
    pub reminder_time: Option<String>,
}

impl Habit {
    /// The ledger is well formed and the goal's target positive.
    pub open spec fn wf(&self) -> bool {
        self.completions.wf() && self.goal.wf()
    }

    /// Completions in the window of `days` days that ends at `today`.
    pub open spec fn window_count(&self, today: int, days: int) -> nat {
        count_in(self.completions@, today - days, today)
    }

    /// A habit with no completions and no reminder.
    pub fn new(name: String, goal: Goal, category: Option<String>, created_date: CompletionDate) -> (r: Habit)
        requires
            goal.wf(),
        ensures
            r.wf(),
            r.name == name,
            r.goal == goal,
            r.category == category,
            r.created_date == created_date,
            r.completions@ == Seq::<i32>::empty(),
            r.reminder_time is None,
    {
        Habit {
            name,
            created_date,
            completions: Ledger::new(),
            goal,
            category,
            reminder_time: None,
        }
    }

    /// Records a completion on `date`; a date already recorded changes nothing.
    pub fn mark_complete(&mut self, date: CompletionDate) -> (r: RecordOutcome)
        requires
            old(self).wf(),
        ensures
            final(self).wf(),
            final(self).completions.dates() == old(self).completions.dates().insert(date@),
            (r == RecordOutcome::AlreadyRecorded) == present(old(self).completions@, date@),
            r == RecordOutcome::AlreadyRecorded ==> final(self).completions@ == old(self).completions@,
            r == RecordOutcome::Recorded ==> forall|today: int, days: int|
                #[trigger] final(self).window_count(today, days)
                    == old(self).window_count(today, days) + if today - days < date@ <= today { 1nat } else { 0nat },
            final(self).name == old(self).name,
            final(self).created_date == old(self).created_date,
            final(self).goal == old(self).goal,
            final(self).category == old(self).category,
            final(self).reminder_time == old(self).reminder_time,
    {
        let r = self.completions.record(date);
        proof {
            if r == RecordOutcome::Recorded {
                assert forall|today: int, days: int|
                    #[trigger] self.window_count(today, days)
                        == old(self).window_count(today, days) + if today - days < date@ <= today { 1nat } else { 0nat } by {
                    assert(count_in(self.completions@, today - days, today) == count_in(old(self).completions@, today - days, today)
                        + if today - days < date@ <= today { 1nat } else { 0nat });
                }
            }
        }
        r
    }

    /// Whether a completion is recorded on `today`.
    pub fn is_done_today(&self, today: CompletionDate) -> (r: bool)
        requires
            self.wf(),
        ensures
            r == present(self.completions@, today@),
    {
        self.completions.contains(today)
    }

    /// The current streak as of `today`; a missing `today` does not break a run
    /// that reaches the day before.
    pub fn current_streak(&self, today: CompletionDate) -> (r: usize)
        requires
            self.wf(),
        ensures
            is_current_streak(self.completions@, today@, r as int),
    {
        self.completions.current_streak(today)
    }

    /// The longest run of consecutive completed days.
    pub fn longest_streak(&self) -> (r: usize)
        requires
            self.wf(),
        ensures
            is_longest_streak(self.completions@, r as int),
    {
        self.completions.longest_streak()
    }

    /// Completions in the seven days that end at `today` (`today` included, the
    /// day seven days before excluded).
    pub fn weekly_count(&self, today: CompletionDate) -> (r: usize)
        ensures
            r == self.window_count(today@, WEEK_DAYS as int),
    {
        let t = today.day as i64;
        self.completions.count_in_range(t - WEEK_DAYS, t)
    }

    /// Completions in the thirty days that end at `today`.
    pub fn monthly_count(&self, today: CompletionDate) -> (r: usize)
        ensures
            r == self.window_count(today@, MONTH_DAYS as int),
    {
        let t = today.day as i64;
        self.completions.count_in_range(t - MONTH_DAYS, t)
    }

    /// This week's completions and the target they are measured against.
    pub fn goal_progress_this_week(&self, today: CompletionDate) -> (r: (usize, usize))
        ensures
            r.0 == self.window_count(today@, WEEK_DAYS as int),
            r.1 == self.goal.week_target(),
    {
        (self.weekly_count(today), self.goal.weekly_target())
    }

    /// The status tier of this week's progress.
    pub fn goal_status(&self, today: CompletionDate) -> (r: GoalStatus)
        requires
            self.wf(),
        ensures
            r == status_of(self.window_count(today@, WEEK_DAYS as int) as int, self.goal.week_target()),
    {
        let (achieved, target) = self.goal_progress_this_week(today);
        goal_status(achieved, target)
    }

    /// The progress bar of this week's completions out of `total`.
    pub fn progress_bar(&self, today: CompletionDate, total: usize) -> (r: ProgressBar)
        ensures
            r.filled == bar_fill(self.window_count(today@, WEEK_DAYS as int) as int, total as int),
            r.filled + r.empty == 10,
            r.tier == bar_tier(self.window_count(today@, WEEK_DAYS as int) as int, total as int),
    {
        progress_bar(self.weekly_count(today), total)
    }

    /// The month grid of `month` of `year` with this habit's completions marked.
    pub fn get_calendar_month(&self, year: i32, month: u32) -> (r: Result<CalendarMonth, HabitError>)
        requires
            self.wf(),
        ensures
            r is Ok <==> valid_ymd(year as int, month as int, 1),
            r matches Err(e) ==> e == HabitError::InvalidDate,
            r matches Ok(c) ==> c.year == year && c.month == month
                && is_month_grid(self.completions@, year as int, month as int, c.cells@),
    {
        month_calendar(&self.completions, year, month)
    }
}

/// The weekly window holds at most seven completions, and exactly seven when
/// each of the seven days that end at `today` is recorded.
pub proof fn lemma_week_window(h: Habit, today: int)
    requires
        h.wf(),
    ensures
        h.window_count(today, WEEK_DAYS as int) <= 7,
        (forall|d: int| today - 7 < d <= today ==> #[trigger] present(h.completions@, d))
            ==> h.window_count(today, WEEK_DAYS as int) == 7,
{
    lemma_window_bound(h.completions@, today - 7, today);
    if forall|d: int| today - 7 < d <= today ==> #[trigger] present(h.completions@, d) {
        lemma_full_window(h.completions@, today - 7, today);
    }
}

} // verus!
