use vstd::prelude::*;

use crate::error::HabitError;
use crate::goal::Goal;
use crate::text::{join_words, joined, lower_of, lowercase, parse_u32, string_views, u32_of_text};

verus! {

/// A weekly goal of `n`, or the error a zero target gives.
pub open spec fn weekly_goal(n: u32) -> Result<Goal, HabitError> {
    if n == 0 { Err(HabitError::InvalidGoalTarget) } else { Ok(Goal::Weekly(n)) }
}

/// A monthly goal of `n`, or the error a zero target gives.
pub open spec fn monthly_goal(n: u32) -> Result<Goal, HabitError> {
    if n == 0 { Err(HabitError::InvalidGoalTarget) } else { Ok(Goal::Monthly(n)) }
}

/// A lower-cased word that names a week.
pub open spec fn is_week_word(w: Seq<char>) -> bool {
    w == "weekly"@ || w == "week"@
}

/// A lower-cased word that names a month.
pub open spec fn is_month_word(w: Seq<char>) -> bool {
    w == "monthly"@ || w == "month"@
}

/// Reads `add` arguments from word `i` on, given the words `p` and their
/// lower-cased forms `l`: the name words before the goal, and the goal. The
/// goal is a count followed by a week or month word, or the word `daily`; with
/// none of them the goal is daily and every word belongs to the name.
pub open spec fn add_parse_from(p: Seq<Seq<char>>, l: Seq<Seq<char>>, i: int) -> (Seq<Seq<char>>, Result<Goal, HabitError>)
    decreases p.len() - i,
{
    if i < 0 || i >= p.len() {
        (Seq::empty(), Ok(Goal::Daily))
    } else {
        let rest = add_parse_from(p, l, i + 1);
        let go_on = (seq![p[i]] + rest.0, rest.1);
        match u32_of_text(p[i]) {
            Some(num) => if i + 1 < p.len() && is_week_word(l[i + 1]) {
                (Seq::empty(), weekly_goal(num))
            } else if i + 1 < p.len() && is_month_word(l[i + 1]) {
                (Seq::empty(), monthly_goal(num))
            } else {
                go_on
            },
            None => if l[i] == "daily"@ {
                (Seq::empty(), Ok(Goal::Daily))
            } else {
                go_on
            },
        }
    }
}

/// What the arguments of an `add` command ask for.
#[derive(Debug)]
pub struct AddRequest {
    /// The name words joined by single spaces.
    pub name: String,
    /// The goal, or the error its target gives.
    pub goal: Result<Goal, HabitError>,
}

/// Reads the arguments of an `add` command from `words` and their lower-cased
/// forms `lowered` (see `add_parse_from`).
pub fn parse_add_words(words: &Vec<String>, lowered: &Vec<String>) -> (r: AddRequest)
    requires
        lowered@.len() == words@.len(),
    ensures
        r.name@ == joined(add_parse_from(string_views(words@), string_views(lowered@), 0).0),
        r.goal == add_parse_from(string_views(words@), string_views(lowered@), 0).1,
        r.goal matches Ok(g) ==> g.wf(),
{
    let ghost p = string_views(words@);
    let ghost l = string_views(lowered@);
    let n = words.len();
    let mut names: Vec<String> = Vec::new();
    let mut goal: Result<Goal, HabitError> = Ok(Goal::Daily);
    let mut done = false;
    let mut i: usize = 0;
    while i < n && !done
        invariant
            n == words@.len() == lowered@.len(),
            p == string_views(words@),
            l == string_views(lowered@),
            i <= n,
            string_views(names@) == p.subrange(0, i as int),
            !done ==> add_parse_from(p, l, 0) == (p.subrange(0, i as int) + add_parse_from(p, l, i as int).0, add_parse_from(p, l, i as int).1),
            done ==> add_parse_from(p, l, 0).0 == p.subrange(0, i as int) && add_parse_from(p, l, 0).1 == goal,
            goal matches Ok(g) ==> g.wf(),
            !done ==> goal == Ok::<Goal, HabitError>(Goal::Daily),
        decreases n - i, if done { 0int } else { 1int },
    {
        let ghost rest = add_parse_from(p, l, i + 1);
        let ghost here = add_parse_from(p, l, i as int);
        proof {
            assert(p[i as int] == words@[i as int]@);
            assert(l[i as int] == lowered@[i as int]@);
            if i + 1 < n {
                assert(l[i + 1] == lowered@[i + 1]@);
            }
        }
        let mut stop = false;
        match parse_u32(&words[i]) {
            Some(num) => {
                if i + 1 < n {
                    let next = &lowered[i + 1];
                    if *next == "weekly".to_owned() || *next == "week".to_owned() {
                        goal = if num == 0 { Err(HabitError::InvalidGoalTarget) } else { Ok(Goal::Weekly(num)) };
                        stop = true;
                    } else if *next == "monthly".to_owned() || *next == "month".to_owned() {
                        goal = if num == 0 { Err(HabitError::InvalidGoalTarget) } else { Ok(Goal::Monthly(num)) };
                        stop = true;
                    }
                }
            },
            None => {
                if lowered[i] == "daily".to_owned() {
                    goal = Ok(Goal::Daily);
                    stop = true;
                }
            },
        }
        if stop {
            done = true;
            proof {
                assert(here.0 == Seq::<Seq<char>>::empty());
                assert(p.subrange(0, i as int) + here.0 == p.subrange(0, i as int));
            }
        } else {
            let ghost before = names@;
            names.push(words[i].clone());
            proof {
                assert(here == (seq![p[i as int]] + rest.0, rest.1));
                assert(string_views(names@) =~= string_views(before).push(p[i as int]));
                assert(p.subrange(0, i + 1) =~= p.subrange(0, i as int).push(p[i as int]));
                assert(p.subrange(0, i as int) + here.0 =~= p.subrange(0, i + 1) + rest.0);
            }
            i = i + 1;
        }
    }
    proof {
        if !done {
            assert(add_parse_from(p, l, i as int).0 == Seq::<Seq<char>>::empty());
            assert(p.subrange(0, i as int) + Seq::<Seq<char>>::empty() == p.subrange(0, i as int));
        }
    }
    AddRequest { name: join_words(&names), goal }
}

/// Reads the arguments of an `add` command (the words after `add`): goal words
/// are matched in any letter case.
pub fn parse_add_command(words: &Vec<String>) -> (r: AddRequest)
    ensures
        ({
            let l = string_views(words@).map_values(|w: Seq<char>| lower_of(w));
            &&& r.name@ == joined(add_parse_from(string_views(words@), l, 0).0)
            &&& r.goal == add_parse_from(string_views(words@), l, 0).1
        }),
        r.goal matches Ok(g) ==> g.wf(),
{
    let mut lowered: Vec<String> = Vec::new();
    let mut i: usize = 0;
    while i < words.len()
        invariant
            i <= words@.len(),
            lowered@.len() == i,
            forall|k: int| 0 <= k < i ==> #[trigger] lowered@[k]@ == lower_of(words@[k]@),
        decreases words@.len() - i,
    {
        lowered.push(lowercase(&words[i]));
        i = i + 1;
    }
    proof {
        let l = string_views(words@).map_values(|w: Seq<char>| lower_of(w));
        assert(string_views(lowered@) =~= l);
    }
    parse_add_words(words, &lowered)
}

} // verus!
