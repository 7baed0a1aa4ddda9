use vstd::prelude::*;

use crate::date::CompletionDate;
use crate::streak::{current_run, is_current_streak, is_longest_streak, longest_run};

verus! {

/// Every entry is smaller than every later one: the entries are distinct and ascending.
pub open spec fn strictly_ascending(s: Seq<i32>) -> bool {
    forall|i: int, j: int| 0 <= i < j < s.len() ==> s[i] < s[j]
}

/// Day number `d` is an entry of `s`.
pub open spec fn present(s: Seq<i32>, d: int) -> bool {
    exists|i: int| 0 <= i < s.len() && s[i] as int == d
}

/// Number of entries `d` of `s` with `lo < d <= hi`.
pub open spec fn count_in(s: Seq<i32>, lo: int, hi: int) -> nat
    decreases s.len(),
{
    if s.len() == 0 {
        0
    } else {
        count_in(s.drop_last(), lo, hi) + if lo < s.last() <= hi { 1nat } else { 0nat }
    }
}

/// Index of the first entry of an ascending `days` that is not below `day`.
pub(crate) fn lower_bound(days: &Vec<i32>, day: i64) -> (r: usize)
    requires
        strictly_ascending(days@),
    ensures
        r <= days@.len(),
        forall|j: int| 0 <= j < r ==> days@[j] < day,
        forall|j: int| r <= j < days@.len() ==> days@[j] >= day,
{
    let mut i: usize = 0;
    while i < days.len() && (days[i] as i64) < day
        invariant
            i <= days@.len(),
            strictly_ascending(days@),
            forall|j: int| 0 <= j < i ==> days@[j] < day,
        decreases days@.len() - i,
    {
        i = i + 1;
    }
    proof {
        if i < days@.len() {
            assert forall|j: int| i <= j < days@.len() implies days@[j] >= day by {
                if j > i {
                    assert(days@[i as int] < days@[j]);
                }
            }
        }
    }
    i
}

/// An ascending sequence without repeats holds no duplicates.
pub proof fn lemma_ascending_no_duplicates(s: Seq<i32>)
    requires
        strictly_ascending(s),
    ensures
        s.no_duplicates(),
{
    assert forall|i: int, j: int| 0 <= i < s.len() && 0 <= j < s.len() && i != j implies s[i] != s[j] by {
        if i < j {
            assert(s[i] < s[j]);
        } else {
            assert(s[j] < s[i]);
        }
    }
}

/// When no entry exceeds `m`, the window `(lo, hi]` counts as `(lo, m]` does, for `m <= hi`.
proof fn lemma_count_capped(s: Seq<i32>, lo: int, m: int, hi: int)
    requires
        m <= hi,
        forall|i: int| 0 <= i < s.len() ==> s[i] <= m,
    ensures
        count_in(s, lo, hi) == count_in(s, lo, m),
    decreases s.len(),
{
    if s.len() > 0 {
        lemma_count_capped(s.drop_last(), lo, m, hi);
    }
}

/// A window of day numbers `(lo, hi]` holds at most `hi - lo` distinct dates:
/// seven days back from today give at most seven completions, never eight.
pub proof fn lemma_window_bound(s: Seq<i32>, lo: int, hi: int)
    requires
        strictly_ascending(s),
        lo <= hi,
    ensures
        count_in(s, lo, hi) <= hi - lo,
    decreases s.len(),
{
    if s.len() > 0 {
        let t = s.drop_last();
        let x = s.last() as int;
        assert(strictly_ascending(t));
        if lo < x <= hi {
            assert forall|i: int| 0 <= i < t.len() implies t[i] <= x - 1 by {
                assert(s[i] < s[s.len() - 1]);
            }
            lemma_count_capped(t, lo, x - 1, hi);
            lemma_window_bound(t, lo, x - 1);
        } else {
            lemma_window_bound(t, lo, hi);
        }
    }
}

/// A window `(lo, hi]` whose every day is recorded counts `hi - lo` dates.
pub proof fn lemma_full_window(s: Seq<i32>, lo: int, hi: int)
    requires
        strictly_ascending(s),
        lo <= hi,
        forall|d: int| lo < d <= hi ==> #[trigger] present(s, d),
    ensures
        count_in(s, lo, hi) == hi - lo,
    decreases s.len(),
{
    lemma_window_at_least(s, lo, hi, hi);
    lemma_window_bound(s, lo, hi);
}

/// The window `(lo, hi]` counts at least the recorded days of `(lo, m]`, for `m <= hi`.
proof fn lemma_window_at_least(s: Seq<i32>, lo: int, m: int, hi: int)
    requires
        strictly_ascending(s),
        lo <= m <= hi,
        forall|d: int| lo < d <= m ==> #[trigger] present(s, d),
    ensures
        count_in(s, lo, hi) >= m - lo,
    decreases s.len(),
{
    if m > lo {
        let t = s.drop_last();
        assert(present(s, m));
        assert(strictly_ascending(t));
        if s.last() > m {
            assert forall|d: int| lo < d <= m implies #[trigger] present(t, d) by {
                assert(present(s, d));
                let j = choose|j: int| 0 <= j < s.len() && s[j] as int == d;
                assert(t[j] as int == d);
            }
            lemma_window_at_least(t, lo, m, hi);
        } else {
            let k = choose|k: int| 0 <= k < s.len() && s[k] as int == m;
            if k < s.len() - 1 {
                assert(s[k] < s[s.len() - 1]);
            }
            assert(s.last() as int == m);
            assert forall|d: int| lo < d <= m - 1 implies #[trigger] present(t, d) by {
                assert(present(s, d));
                let j = choose|j: int| 0 <= j < s.len() && s[j] as int == d;
                assert(j != s.len() - 1);
                assert(t[j] as int == d);
            }
            lemma_window_at_least(t, lo, m - 1, hi);
        }
    }
}

/// Inserting `x` anywhere adds one to the count of a window exactly when `x` lies in it.
proof fn lemma_count_insert(s: Seq<i32>, k: int, x: i32, lo: int, hi: int)
    requires
        0 <= k <= s.len(),
    ensures
        count_in(s.insert(k, x), lo, hi) == count_in(s, lo, hi) + if lo < x <= hi { 1nat } else { 0nat },
    decreases s.len(),
{
    let t = s.insert(k, x);
    if k == s.len() {
        assert(t.drop_last() =~= s);
    } else {
        assert(t.drop_last() =~= s.drop_last().insert(k, x));
        assert(t.last() == s.last());
        lemma_count_insert(s.drop_last(), k, x, lo, hi);
    }
}

/// What `Ledger::record` did with the date it was given.
#[derive(Debug, Clone, Copy, PartialEq, Eq, Structural)]
pub enum RecordOutcome {
    /// The date was new and is now in the ledger.
    Recorded,
    /// The date was in the ledger already; nothing changed.
    AlreadyRecorded,
}

/// The dates on which one habit was completed: a set of dates kept as an
/// ascending sequence of day numbers.
#[derive(Debug, Clone)]
pub struct Ledger {
    days: Vec<i32>,
}

impl View for Ledger {
    type V = Seq<i32>;

    closed spec fn view(&self) -> Seq<i32> {
        self.days@
    }
}

impl Ledger {
    /// The ledger's entries are ascending and free of duplicates.
    pub open spec fn wf(&self) -> bool {
        strictly_ascending(self@)
    }

    /// The day numbers recorded.
    pub open spec fn dates(&self) -> Set<int> {
        Set::new(|d: int| present(self@, d))
    }

    /// An empty ledger.
    pub fn new() -> (r: Ledger)
        ensures
            r.wf(),
            r@ == Seq::<i32>::empty(),
    {
        Ledger { days: Vec::new() }
    }

    pub(crate) fn days(&self) -> (r: &Vec<i32>)
        ensures
            r@ == self@,
    {
        &self.days
    }

    /// The recorded dates, ascending.
    pub fn all(&self) -> (r: Vec<CompletionDate>)
        ensures
            r@.len() == self@.len(),
            forall|i: int| 0 <= i < r@.len() ==> #[trigger] r@[i]@ == self@[i] as int,
    {
        let mut out: Vec<CompletionDate> = Vec::new();
        let mut i: usize = 0;
        while i < self.days.len()
            invariant
                i <= self.days@.len(),
                out@.len() == i,
                forall|k: int| 0 <= k < i ==> #[trigger] out@[k]@ == self.days@[k] as int,
            decreases self.days@.len() - i,
        {
            out.push(CompletionDate { day: self.days[i] });
            i = i + 1;
        }
        out
    }

    /// Number of recorded dates.
    pub fn len(&self) -> (r: usize)
        ensures
            r == self@.len(),
    {
        self.days.len()
    }

    /// A ledger holding exactly the given dates, recorded one after another in
    /// the order given; repeated dates are kept once.
    pub fn from_dates(dates: &Vec<CompletionDate>) -> (r: Ledger)
        ensures
            r.wf(),
            r@.no_duplicates(),
            r.dates() == Set::new(|d: int| exists|i: int| 0 <= i < dates@.len() && dates@[i]@ == d),
    {
        let mut ledger = Ledger::new();
        let mut i: usize = 0;
        while i < dates.len()
            invariant
                i <= dates@.len(),
                ledger.wf(),
                ledger.dates() == Set::new(|d: int| exists|k: int| 0 <= k < i && dates@[k]@ == d),
            decreases dates@.len() - i,
        {
            ledger.record(dates[i]);
            i = i + 1;
            proof {
                assert(ledger.dates() =~= Set::new(|d: int| exists|k: int| 0 <= k < i && dates@[k]@ == d)) by {
                    assert forall|d: int| (exists|k: int| 0 <= k < i && dates@[k]@ == d) implies ledger.dates().contains(d) by {
                        let k = choose|k: int| 0 <= k < i && dates@[k]@ == d;
                        if k < i - 1 {
                            assert(exists|k2: int| 0 <= k2 < i - 1 && dates@[k2]@ == d);
                        }
                    }
                }
            }
        }
        proof {
            lemma_ascending_no_duplicates(ledger@);
        }
        ledger
    }

    /// Number of recorded dates `d` with `start_exclusive < d <= end_inclusive`,
    /// both bounds given as day numbers.
    pub fn count_in_range(&self, start_exclusive: i64, end_inclusive: i64) -> (r: usize)
        ensures
            r == count_in(self@, start_exclusive as int, end_inclusive as int),
    {
        let mut count: usize = 0;
        let mut i: usize = 0;
        while i < self.days.len()
            invariant
                i <= self.days@.len(),
                count <= i,
                count == count_in(self.days@.subrange(0, i as int), start_exclusive as int, end_inclusive as int),
            decreases self.days@.len() - i,
        {
            let d = self.days[i] as i64;
            proof {
                assert(self.days@.subrange(0, i + 1).drop_last() == self.days@.subrange(0, i as int));
            }
            if start_exclusive < d && d <= end_inclusive {
                count = count + 1;
            }
            i = i + 1;
        }
        proof {
            assert(self.days@.subrange(0, i as int) == self.days@);
        }
        count
    }

    /// Whether `date` is recorded.
    pub fn contains(&self, date: CompletionDate) -> (r: bool)
        requires
            self.wf(),
        ensures
            r == present(self@, date@),
    {
        let i = lower_bound(&self.days, date.day as i64);
        i < self.days.len() && self.days[i] == date.day
    }

    /// Records `date`, keeping the entries ascending; a date already present is
    /// left as it is.
    pub fn record(&mut self, date: CompletionDate) -> (r: RecordOutcome)
        requires
            old(self).wf(),
        ensures
            final(self).wf(),
            final(self).dates() == old(self).dates().insert(date@),
            forall|d: int| #[trigger] present(final(self)@, d) <==> present(old(self)@, d) || d == date@,
            (r == RecordOutcome::AlreadyRecorded) == present(old(self)@, date@),
            r == RecordOutcome::AlreadyRecorded ==> final(self)@ == old(self)@,
            r == RecordOutcome::Recorded ==> final(self)@.len() == old(self)@.len() + 1,
            r == RecordOutcome::Recorded ==> forall|lo: int, hi: int|
                #[trigger] count_in(final(self)@, lo, hi)
                    == count_in(old(self)@, lo, hi) + if lo < date@ <= hi { 1nat } else { 0nat },
    {
        let i = lower_bound(&self.days, date.day as i64);
        if i < self.days.len() && self.days[i] == date.day {
            proof {
                assert(old(self).dates() =~= old(self).dates().insert(date@));
            }
            RecordOutcome::AlreadyRecorded
        } else {
            let ghost s = self.days@;
            self.days.insert(i, date.day);
            proof {
                let t = self.days@;
                assert(t == s.insert(i as int, date.day));
                assert forall|a: int, b: int| 0 <= a < b < t.len() implies t[a] < t[b] by {
                    if b < i {
                    } else if a > i {
                        assert(t[a] == s[a - 1] && t[b] == s[b - 1]);
                    } else if a == i {
                        assert(t[b] == s[b - 1]);
                    } else if b == i {
                    } else {
                        assert(t[b] == s[b - 1]);
                    }
                }
                assert forall|d: int| present(t, d) <==> present(s, d) || d == date@ by {
                    if present(t, d) {
                        let k = choose|k: int| 0 <= k < t.len() && t[k] as int == d;
                        if k < i {
                            assert(s[k] as int == d);
                        } else if k > i {
                            assert(s[k - 1] as int == d);
                        }
                    }
                    if present(s, d) {
                        let k = choose|k: int| 0 <= k < s.len() && s[k] as int == d;
                        if k < i {
                            assert(t[k] as int == d);
                        } else {
                            assert(t[k + 1] as int == d);
                        }
                    }
                    if d == date@ {
                        assert(t[i as int] as int == d);
                    }
                }
                assert(!present(s, date@)) by {
                    if present(s, date@) {
                        let k = choose|k: int| 0 <= k < s.len() && s[k] as int == date@;
                    }
                }
                assert(self.dates() =~= old(self).dates().insert(date@));
                assert forall|lo: int, hi: int|
                    #[trigger] count_in(t, lo, hi) == count_in(s, lo, hi) + if lo < date@ <= hi { 1nat } else { 0nat } by {
                    lemma_count_insert(s, i as int, date.day, lo, hi);
                }
            }
            RecordOutcome::Recorded
        }
    }
    /// Length of the run of consecutive recorded days that ends at `today`, or
    /// at the day before when `today` is not recorded; zero when neither is.
    pub fn current_streak(&self, today: CompletionDate) -> (r: usize)
        requires
            self.wf(),
        ensures
            is_current_streak(self@, today@, r as int),
    {
        current_run(&self.days, today.day)
    }

    /// Length of the longest run of consecutive recorded days; zero when empty.
    pub fn longest_streak(&self) -> (r: usize)
        requires
            self.wf(),
        ensures
            is_longest_streak(self@, r as int),
    {
        longest_run(&self.days)
    }
}

} // verus!
