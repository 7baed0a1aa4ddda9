use vstd::prelude::*;

verus! {

/// Errors reported by the library's constructors and collection operations.
#[derive(Debug, Clone, Copy, PartialEq, Eq, Structural)]
pub enum HabitError {
    /// A year, month and day that name no calendar date chrono can represent.
    InvalidDate,
    /// A weekly or monthly goal whose target is zero.
    InvalidGoalTarget,
    /// A habit with this name is already tracked.
    AlreadyExists,
    /// No habit with this name is tracked.
    NotFound,
}

} // verus!
