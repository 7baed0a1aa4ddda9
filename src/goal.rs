use vstd::prelude::*;

use crate::error::HabitError;
use crate::text::{parse_u32, split_words, string_views, u32_of_text, words_of};

verus! {

/// How often a habit is meant to be done.
#[derive(Debug, Clone, Copy, PartialEq, Eq, Structural)]
pub enum Goal {
    /// Every day.
    Daily,
    /// A number of times per week.
    Weekly(u32),
    /// A number of times per month.
    Monthly(u32),
}

/// Where a week's progress stands against its target.
#[derive(Debug, Clone, Copy, PartialEq, Eq, Structural)]
pub enum GoalStatus {
    /// The target is reached.
    Met,
    /// At least seventy percent of the target is reached.
    Near,
    /// Less than seventy percent of the target is reached.
    Behind,
}

/// Share of `target` reached by `achieved`, in whole percent (truncated).
pub open spec fn percent_of(achieved: int, target: int) -> int {
    achieved * 100 / target
}

/// The status tier of `achieved` completions against a positive `target`.
pub open spec fn status_of(achieved: int, target: int) -> GoalStatus {
    if achieved >= target {
        GoalStatus::Met
    } else if percent_of(achieved, target) >= 70 {
        GoalStatus::Near
    } else {
        GoalStatus::Behind
    }
}

/// Cells filled in a ten-cell progress bar: a tenth of the bar for each tenth
/// of `total` reached, all ten once `total` is reached; a zero total counts as one.
pub open spec fn bar_fill(completed: int, total: int) -> int {
    let f = completed * 10 / (if total < 1 { 1 } else { total });
    if f > 10 { 10 } else { f }
}

/// The colour tier of a progress bar: met at `total`, near from seven tenths
/// of `total` (rounded down), behind below that.
pub open spec fn bar_tier(completed: int, total: int) -> GoalStatus {
    if completed >= total {
        GoalStatus::Met
    } else if completed >= total * 7 / 10 {
        GoalStatus::Near
    } else {
        GoalStatus::Behind
    }
}

/// A positive count read from `s`, if `s` writes one.
pub open spec fn positive_count(s: Seq<char>) -> Option<u32> {
    match u32_of_text(s) {
        Some(n) => if n > 0 { Some(n) } else { None },
        None => None,
    }
}

/// The goal that a list of words describes: `daily`; `N per week` or
/// `N weekly`; `N per month` or `N monthly`, with `N` a positive count.
pub open spec fn goal_of_words(w: Seq<Seq<char>>) -> Option<Goal> {
    if w.len() == 1 && w[0] == "daily"@ {
        Some(Goal::Daily)
    } else if (w.len() == 3 && w[1] == "per"@ && w[2] == "week"@) || (w.len() == 2 && w[1] == "weekly"@) {
        match positive_count(w[0]) {
            Some(n) => Some(Goal::Weekly(n)),
            None => None,
        }
    } else if (w.len() == 3 && w[1] == "per"@ && w[2] == "month"@) || (w.len() == 2 && w[1] == "monthly"@) {
        match positive_count(w[0]) {
            Some(n) => Some(Goal::Monthly(n)),
            None => None,
        }
    } else {
        None
    }
}


impl Goal {
    /// Weekly and monthly targets are positive.
    pub open spec fn wf(&self) -> bool {
        match *self {
            Goal::Daily => true,
            Goal::Weekly(n) => n > 0,
            Goal::Monthly(n) => n > 0,
        }
    }

    /// The target a week's completions are measured against: seven for a daily
    /// goal, the goal's own target for a weekly one, and seven for a monthly one
    /// (a monthly target is not prorated to a week).
    pub open spec fn week_target(&self) -> int {
        match *self {
            Goal::Daily => 7,
            Goal::Weekly(n) => n as int,
            Goal::Monthly(_) => 7,
        }
    }

    /// A goal of `target` completions per week; zero is rejected.
    pub fn weekly(target: u32) -> (r: Result<Goal, HabitError>)
        ensures
            target == 0 ==> r == Err::<Goal, HabitError>(HabitError::InvalidGoalTarget),
            target > 0 ==> r == Ok::<Goal, HabitError>(Goal::Weekly(target)),
    {
        if target == 0 {
            Err(HabitError::InvalidGoalTarget)
        } else {
            Ok(Goal::Weekly(target))
        }
    }

    /// A goal of `target` completions per month; zero is rejected.
    pub fn monthly(target: u32) -> (r: Result<Goal, HabitError>)
        ensures
            target == 0 ==> r == Err::<Goal, HabitError>(HabitError::InvalidGoalTarget),
            target > 0 ==> r == Ok::<Goal, HabitError>(Goal::Monthly(target)),
    {
        if target == 0 {
            Err(HabitError::InvalidGoalTarget)
        } else {
            Ok(Goal::Monthly(target))
        }
    }

    /// The goal described by `words` (see `goal_of_words`).
    pub fn from_words(words: &Vec<String>) -> (r: Option<Goal>)
        ensures
            r == goal_of_words(string_views(words@)),
            r matches Some(g) ==> g.wf(),
    {
        let ghost w = string_views(words@);
        let n = words.len();
        proof {
            assert(w.len() == n);
            assert forall|i: int| 0 <= i < n implies w[i] == #[trigger] words@[i]@ by {}
        }
        if n == 1 && words[0] == "daily".to_owned() {
            return Some(Goal::Daily);
        }
        let weekly = (n == 3 && words[1] == "per".to_owned() && words[2] == "week".to_owned())
            || (n == 2 && words[1] == "weekly".to_owned());
        let monthly = (n == 3 && words[1] == "per".to_owned() && words[2] == "month".to_owned())
            || (n == 2 && words[1] == "monthly".to_owned());
        if !weekly && !monthly {
            return None;
        }
        let count = match parse_u32(&words[0]) {
            Some(c) => if c > 0 { c } else { return None },
            None => return None,
        };
        if weekly {
            Some(Goal::Weekly(count))
        } else {
            Some(Goal::Monthly(count))
        }
    }

    /// The goal described by the whitespace-separated words of `s`.
    pub fn from_string(s: &str) -> (r: Option<Goal>)
        ensures
            r == goal_of_words(words_of(s@)),
            r matches Some(g) ==> g.wf(),
    {
        let words = split_words(s);
        Goal::from_words(&words)
    }

    /// The target a week's completions are measured against.
    pub fn weekly_target(&self) -> (r: usize)
        ensures
            r == self.week_target(),
    {
        match *self {
            Goal::Daily => 7,
            Goal::Weekly(n) => n as usize,
            Goal::Monthly(_) => 7,
        }
    }
}

/// Share of `target` reached by `achieved`, in whole percent (truncated).
pub fn completion_percent(achieved: usize, target: usize) -> (r: u128)
    requires
        target > 0,
    ensures
        r == percent_of(achieved as int, target as int),
{
    (achieved as u128 * 100) / target as u128
}

/// Classifies `achieved` completions against a positive `target`.
pub fn goal_status(achieved: usize, target: usize) -> (r: GoalStatus)
    requires
        target > 0,
    ensures
        r == status_of(achieved as int, target as int),
{
    if achieved >= target {
        GoalStatus::Met
    } else if completion_percent(achieved, target) >= 70 {
        GoalStatus::Near
    } else {
        GoalStatus::Behind
    }
}

/// A ten-cell progress bar: `filled` cells, then `empty` ones, in a colour tier.
#[derive(Debug, Clone, Copy, PartialEq, Eq, Structural)]
pub struct ProgressBar {
    pub filled: usize,
    pub empty: usize,
    pub tier: GoalStatus,
}

/// The progress bar of `completed` completions out of `total`.
pub fn progress_bar(completed: usize, total: usize) -> (r: ProgressBar)
    ensures
        r.filled == bar_fill(completed as int, total as int),
        r.filled + r.empty == 10,
        r.tier == bar_tier(completed as int, total as int),
{
    let denom: u128 = if total < 1 { 1 } else { total as u128 };
    let f: u128 = (completed as u128 * 10) / denom;
    let filled: usize = if f > 10 { 10 } else { f as usize };
    let tier = if completed >= total {
        GoalStatus::Met
    } else if completed as u128 >= (total as u128 * 7) / 10 {
        GoalStatus::Near
    } else {
        GoalStatus::Behind
    };
    ProgressBar { filled, empty: 10 - filled, tier }
}

} // verus!
