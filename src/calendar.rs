use vstd::prelude::*;

use crate::date::{
    day_number_of, days_in_month, is_leap_year, month_length, valid_ymd, weekday_from_monday, weekday_of,
    CompletionDate,
};
use crate::error::HabitError;
use crate::ledger::{present, Ledger};

verus! {

/// One cell of a Monday-first, seven-column month grid.
#[derive(Debug, Clone, Copy, PartialEq, Eq, Structural)]
pub enum CalendarCell {
    /// Padding before the first day of the month.
    Blank,
    /// A day of the month, and whether the habit was completed on it.
    Day { day: u32, completed: bool },
}

/// A month laid out as a grid of seven columns, Monday first: `cells` read row
/// by row, each row holding seven cells (the last row may be shorter).
#[derive(Debug, Clone)]
pub struct CalendarMonth {
    pub year: i32,
    pub month: u32,
    pub cells: Vec<CalendarCell>,
}

/// `cells` is the grid of `month` of `year` for the dates in `s`: as many blank
/// cells as the first day's weekday index (Monday 0), then one cell for each
/// day of the month in order, marked when that day is recorded.
pub open spec fn is_month_grid(s: Seq<i32>, year: int, month: int, cells: Seq<CalendarCell>) -> bool {
    let lead = weekday_of(year, month, 1);
    let days = month_length(year, month);
    &&& 0 <= lead < 7
    &&& cells.len() == lead + days
    &&& forall|i: int| 0 <= i < lead ==> cells[i] == CalendarCell::Blank
    &&& forall|d: int|
        1 <= d <= days ==> #[trigger] cells[lead + d - 1] == (CalendarCell::Day {
            day: d as u32,
            completed: present(s, day_number_of(year, month, d)),
        })
}

/// Number of day cells (not blanks) in `cells`.
pub open spec fn day_cell_count(cells: Seq<CalendarCell>) -> nat
    decreases cells.len(),
{
    if cells.len() == 0 {
        0
    } else {
        day_cell_count(cells.drop_last()) + if cells.last() is Day { 1nat } else { 0nat }
    }
}

/// A month grid holds exactly as many day cells as the month has days: 29 for
/// February of a leap year.
pub proof fn lemma_grid_days(s: Seq<i32>, year: int, month: int, cells: Seq<CalendarCell>)
    requires
        is_month_grid(s, year, month, cells),
    ensures
        day_cell_count(cells) == month_length(year, month),
        month == 2 && is_leap_year(year) ==> day_cell_count(cells) == 29,
{
    let lead = weekday_of(year, month, 1);
    let days = month_length(year, month);
    assert forall|k: int| 0 <= k <= lead implies #[trigger] day_cell_count(cells.subrange(0, k)) == 0 by {
        lemma_prefix_blank_count(cells, lead, k);
    }
    assert forall|k: int| 0 <= k <= days implies #[trigger] day_cell_count(cells.subrange(0, lead + k)) == k by {
        lemma_prefix_day_count(s, year, month, cells, k);
    }
    assert(cells.subrange(0, lead + days) == cells);
}

proof fn lemma_prefix_blank_count(cells: Seq<CalendarCell>, lead: int, k: int)
    requires
        0 <= k <= lead <= cells.len(),
        forall|i: int| 0 <= i < lead ==> cells[i] == CalendarCell::Blank,
    ensures
        day_cell_count(cells.subrange(0, k)) == 0,
    decreases k,
{
    if k > 0 {
        assert(cells.subrange(0, k).drop_last() == cells.subrange(0, k - 1));
        lemma_prefix_blank_count(cells, lead, k - 1);
    }
}

proof fn lemma_prefix_day_count(s: Seq<i32>, year: int, month: int, cells: Seq<CalendarCell>, k: int)
    requires
        is_month_grid(s, year, month, cells),
        0 <= k <= month_length(year, month),
    ensures
        day_cell_count(cells.subrange(0, weekday_of(year, month, 1) + k)) == k,
    decreases k,
{
    let lead = weekday_of(year, month, 1);
    if k == 0 {
        lemma_prefix_blank_count(cells, lead, lead);
    } else {
        assert(cells.subrange(0, lead + k).drop_last() == cells.subrange(0, lead + k - 1));
        lemma_prefix_day_count(s, year, month, cells, k - 1);
        assert(cells[lead + k - 1] is Day);
    }
}

/// The grid of `month` of `year`, marking the days recorded in `ledger`; a
/// month or year that names no date is rejected.
pub fn month_calendar(ledger: &Ledger, year: i32, month: u32) -> (r: Result<CalendarMonth, HabitError>)
    requires
        ledger.wf(),
    ensures
        r is Ok <==> valid_ymd(year as int, month as int, 1),
        r matches Err(e) ==> e == HabitError::InvalidDate,
        r matches Ok(c) ==> c.year == year && c.month == month
            && is_month_grid(ledger@, year as int, month as int, c.cells@),
{
    let lead = match weekday_from_monday(year, month, 1) {
        Ok(w) => w,
        Err(e) => {
            return Err(e);
        },
    };
    let days = days_in_month(year, month);
    let mut cells: Vec<CalendarCell> = Vec::new();
    let mut i: u32 = 0;
    while i < lead
        invariant
            i <= lead < 7,
            cells@.len() == i,
            forall|k: int| 0 <= k < i ==> cells@[k] == CalendarCell::Blank,
        decreases lead - i,
    {
        cells.push(CalendarCell::Blank);
        i = i + 1;
    }
    let mut d: u32 = 1;
    while d <= days
        invariant
            lead < 7,
            lead as int == weekday_of(year as int, month as int, 1),
            days as int == month_length(year as int, month as int),
            28 <= days <= 31,
            1 <= d <= days + 1,
            valid_ymd(year as int, month as int, 1),
            ledger.wf(),
            cells@.len() == lead + d - 1,
            forall|k: int| 0 <= k < lead ==> cells@[k] == CalendarCell::Blank,
            forall|e: int|
                1 <= e < d ==> cells@[lead + e - 1] == (CalendarCell::Day {
                    day: e as u32,
                    completed: present(ledger@, day_number_of(year as int, month as int, e)),
                }),
        decreases days + 1 - d,
    {
        let completed = match CompletionDate::from_ymd(year, month, d) {
            Ok(date) => ledger.contains(date),
            Err(e) => {
                return Err(e);
            },
        };
        cells.push(CalendarCell::Day { day: d, completed });
        d = d + 1;
    }
    Ok(CalendarMonth { year, month, cells })
}

} // verus!
