use vstd::prelude::*;

use crate::ledger::{lower_bound, present, strictly_ascending};

verus! {

/// Entries `i .. i + k` of `s` (at least one) are `k` consecutive days.
pub open spec fn is_run(s: Seq<i32>, i: int, k: int) -> bool {
    &&& 0 <= i
    &&& 1 <= k
    &&& i + k <= s.len()
    &&& forall|j: int| i <= j < i + k ==> s[j] as int == s[i] as int + (j - i)
}

/// The day a current streak is counted back from: `today` when recorded, else
/// the day before when that is recorded, else none.
pub open spec fn streak_anchor(s: Seq<i32>, today: int) -> Option<int> {
    if present(s, today) {
        Some(today)
    } else if present(s, today - 1) {
        Some(today - 1)
    } else {
        None
    }
}

/// The `k` days ending at day `a` are all recorded.
pub open spec fn recorded_back(s: Seq<i32>, a: int, k: int) -> bool {
    forall|j: int| 0 <= j < k ==> #[trigger] present(s, a - j)
}

/// What the current streak as of `today` is: zero without an anchor, else the
/// length of the unbroken run of recorded days that ends at the anchor.
pub open spec fn is_current_streak(s: Seq<i32>, today: int, r: int) -> bool {
    match streak_anchor(s, today) {
        None => r == 0,
        Some(a) => r >= 1 && recorded_back(s, a, r) && !present(s, a - r),
    }
}

/// What the longest streak is: zero for no entries, else the length of a run
/// of consecutive days that no run exceeds.
pub open spec fn is_longest_streak(s: Seq<i32>, r: int) -> bool {
    if s.len() == 0 {
        r == 0
    } else {
        &&& exists|i: int| is_run(s, i, r)
        &&& forall|i: int, k: int| is_run(s, i, k) ==> k <= r
    }
}

/// With neither `today` nor the day before recorded, the current streak is
/// zero, whatever older days hold.
pub proof fn lemma_no_anchor_no_streak(s: Seq<i32>, today: int, r: int)
    requires
        !present(s, today),
        !present(s, today - 1),
    ensures
        is_current_streak(s, today, r) <==> r == 0,
{
}

/// With `today` missing, the day before recorded and the day before that
/// missing, the current streak is one: an unmarked today does not break it.
pub proof fn lemma_grace_day(s: Seq<i32>, today: int, r: int)
    requires
        !present(s, today),
        present(s, today - 1),
        !present(s, today - 2),
    ensures
        is_current_streak(s, today, r) <==> r == 1,
{
    if r == 1 {
        assert forall|j: int| 0 <= j < 1 implies #[trigger] present(s, today - 1 - j) by {
            assert(j == 0);
        }
    }
    if is_current_streak(s, today, r) && r >= 2 {
        assert(present(s, today - 1 - 1));
    }
}

/// Length of the longest run of consecutive days in an ascending sequence.
pub(crate) fn longest_run(days: &Vec<i32>) -> (r: usize)
    requires
        strictly_ascending(days@),
    ensures
        is_longest_streak(days@, r as int),
{
    let n = days.len();
    if n == 0 {
        return 0;
    }
    let ghost s = days@;
    let mut best: usize = 1;
    let mut cur: usize = 1;
    let mut i: usize = 1;
    assert(is_run(s, 0, 1));
    while i < n
        invariant
            n == s.len(),
            s == days@,
            1 <= cur <= i <= n,
            1 <= cur <= best <= i,
            is_run(s, i - cur, cur as int),
            i - cur == 0 || s[i - cur] as int != s[i - cur - 1] as int + 1,
            exists|b: int| is_run(s, b, best as int),
            forall|a: int, k: int| is_run(s, a, k) && a + k <= i ==> k <= best,
        decreases n - i,
    {
        let ghost start = (i - cur) as int;
        if days[i] as i64 == days[i - 1] as i64 + 1 {
            cur = cur + 1;
            assert(is_run(s, start, cur as int));
        } else {
            cur = 1;
            assert(is_run(s, i as int, 1));
        }
        let ghost start2 = (i + 1 - cur) as int;
        if cur > best {
            best = cur;
            assert(is_run(s, start2, best as int));
        }
        assert forall|a: int, k: int| is_run(s, a, k) && a + k <= i + 1 implies k <= best by {
            if a + k == i + 1 && k > cur {
                assert(s[start2] as int == s[a] as int + (start2 - a));
                assert(s[start2 - 1] as int == s[a] as int + (start2 - 1 - a));
            }
        }
        i = i + 1;
    }
    best
}

/// The current streak of an ascending sequence as of day `today`.
pub(crate) fn current_run(days: &Vec<i32>, today: i32) -> (r: usize)
    requires
        strictly_ascending(days@),
    ensures
        is_current_streak(days@, today as int, r as int),
{
    let ghost s = days@;
    let n = days.len();
    let p = lower_bound(days, today as i64);
    let anchor: usize;
    if p < n && days[p] == today {
        anchor = p;
        assert(present(s, today as int));
    } else if p > 0 && days[p - 1] as i64 == today as i64 - 1 {
        anchor = p - 1;
        assert(present(s, today - 1));
        assert(!present(s, today as int)) by {
            if present(s, today as int) {
                let k = choose|k: int| 0 <= k < s.len() && s[k] as int == today;
            }
        }
    } else {
        assert(!present(s, today as int)) by {
            if present(s, today as int) {
                let k = choose|k: int| 0 <= k < s.len() && s[k] as int == today;
            }
        }
        assert(!present(s, today - 1)) by {
            if present(s, today - 1) {
                let k = choose|k: int| 0 <= k < s.len() && s[k] as int == today - 1;
                if k < p - 1 {
                    assert(s[k] < s[p - 1]);
                }
            }
        }
        return 0;
    }
    let ghost a = s[anchor as int] as int;
    let mut j: usize = anchor;
    while j > 0 && days[j - 1] as i64 + 1 == days[j] as i64
        invariant
            s == days@,
            n == s.len(),
            j <= anchor < n,
            a == s[anchor as int] as int,
            forall|t: int| j <= t <= anchor ==> s[t] as int == a - (anchor - t),
        decreases j,
    {
        j = j - 1;
    }
    let r = anchor - j + 1;
    assert forall|t: int| 0 <= t < r implies #[trigger] present(s, a - t) by {
        assert(s[anchor - t] as int == a - t);
    }
    assert(!present(s, a - r)) by {
        if present(s, a - r) {
            let k = choose|k: int| 0 <= k < s.len() && s[k] as int == a - r;
            if k >= j {
                assert(s[k] >= s[j as int]);
            } else {
                assert(s[k] <= s[j - 1]);
            }
        }
    }
    r
}

} // verus!
