use vstd::prelude::*;

use crate::date::CompletionDate;
use crate::error::HabitError;
use crate::goal::Goal;
use crate::habit::{Habit, WEEK_DAYS};
use crate::ledger::{present, RecordOutcome};
use crate::text::string_views;

verus! {

/// Some habit in `s` is named `name`.
pub open spec fn has_name(s: Seq<Habit>, name: Seq<char>) -> bool {
    exists|i: int| 0 <= i < s.len() && #[trigger] s[i].name@ == name
}

/// The position of the habit named `name` in `s`.
pub open spec fn index_of(s: Seq<Habit>, name: Seq<char>) -> int {
    choose|i: int| 0 <= i < s.len() && #[trigger] s[i].name@ == name
}

/// Names are unique and every habit is well formed.
pub open spec fn habits_wf(s: Seq<Habit>) -> bool {
    &&& forall|i: int| 0 <= i < s.len() ==> #[trigger] s[i].wf()
    &&& forall|i: int, j: int| 0 <= i < j < s.len() ==> s[i].name@ != s[j].name@
}

/// `h` has a reminder at `now` and is not done on day `today`.
pub open spec fn is_due(h: Habit, now: Seq<char>, today: int) -> bool {
    &&& h.reminder_time matches Some(t) && t@ == now
    &&& !present(h.completions@, today)
}

/// Names of the habits of `s` that are due at `now` on `today`, in order.
pub open spec fn due_names(s: Seq<Habit>, now: Seq<char>, today: int) -> Seq<Seq<char>>
    decreases s.len(),
{
    if s.len() == 0 {
        Seq::empty()
    } else {
        let r = due_names(s.drop_last(), now, today);
        if is_due(s.last(), now, today) {
            r.push(s.last().name@)
        } else {
            r
        }
    }
}

/// The categories used in `s`, each once, in order of first use.
pub open spec fn categories_of(s: Seq<Habit>) -> Seq<Seq<char>>
    decreases s.len(),
{
    if s.len() == 0 {
        Seq::empty()
    } else {
        let r = categories_of(s.drop_last());
        match s.last().category {
            Some(c) => if r.contains(c@) { r } else { r.push(c@) },
            None => r,
        }
    }
}

/// Number of habits of `s` in category `c`.
pub open spec fn category_count(s: Seq<Habit>, c: Seq<char>) -> nat
    decreases s.len(),
{
    if s.len() == 0 {
        0
    } else {
        category_count(s.drop_last(), c) + if s.last().category matches Some(d) && d@ == c { 1nat } else { 0nat }
    }
}

/// What `HabitTracker::mark_done` did.
#[derive(Debug, Clone, Copy, PartialEq, Eq, Structural)]
pub enum MarkOutcome {
    /// Today was newly recorded; `goal_reached` tells whether this week's
    /// completions now equal the weekly target.
    Recorded { goal_reached: bool },
    /// Today was recorded already.
    AlreadyRecorded,
}

/// The tracked habits, each under a name of its own.
#[derive(Debug, Clone)]
pub struct HabitTracker {
    habits: Vec<Habit>,
}

impl View for HabitTracker {
    type V = Seq<Habit>;

    closed spec fn view(&self) -> Seq<Habit> {
        self.habits@
    }
}

impl HabitTracker {
    /// Names are unique and every habit is well formed.
    pub open spec fn wf(&self) -> bool {
        habits_wf(self@)
    }

    /// A tracker with no habits.
    pub fn new() -> (r: HabitTracker)
        ensures
            r.wf(),
            r@ == Seq::<Habit>::empty(),
    {
        HabitTracker { habits: Vec::new() }
    }

    /// The habits, in the order they were added.
    pub fn habits(&self) -> (r: &Vec<Habit>)
        ensures
            r@ == self@,
    {
        &self.habits
    }

    /// Position of the habit named `name`, if any.
    pub fn find(&self, name: &String) -> (r: Option<usize>)
        requires
            self.wf(),
        ensures
            r is None <==> !has_name(self@, name@),
            r matches Some(i) ==> i < self@.len() && self@[i as int].name@ == name@ && i == index_of(self@, name@),
    {
        let mut i: usize = 0;
        while i < self.habits.len()
            invariant
                i <= self@.len(),
                self.wf(),
                forall|k: int| 0 <= k < i ==> self@[k].name@ != name@,
            decreases self@.len() - i,
        {
            if self.habits[i].name == *name {
                proof {
                    let j = index_of(self@, name@);
                    assert(has_name(self@, name@));
                    if j != i {
                        assert(self@[j].name@ == self@[i as int].name@);
                    }
                }
                return Some(i);
            }
            i = i + 1;
        }
        None
    }

    /// The habit named `name`, if any.
    pub fn get(&self, name: &String) -> (r: Option<&Habit>)
        requires
            self.wf(),
        ensures
            r is None <==> !has_name(self@, name@),
            r matches Some(h) ==> *h == self@[index_of(self@, name@)],
    {
        match self.find(name) {
            Some(i) => Some(&self.habits[i]),
            None => None,
        }
    }

    /// Adds `habit`; a name already tracked is refused.
    pub fn insert_habit(&mut self, habit: Habit) -> (r: Result<(), HabitError>)
        requires
            old(self).wf(),
            habit.wf(),
        ensures
            final(self).wf(),
            r is Err <==> has_name(old(self)@, habit.name@),
            r matches Err(e) ==> e == HabitError::AlreadyExists && final(self)@ == old(self)@,
            r is Ok ==> final(self)@ == old(self)@.push(habit),
    {
        if self.find(&habit.name).is_some() {
            return Err(HabitError::AlreadyExists);
        }
        self.habits.push(habit);
        Ok(())
    }

    /// Adds a new habit with no completions; a name already tracked is refused.
    pub fn add_habit(&mut self, name: String, goal: Goal, category: Option<String>, created_date: CompletionDate) -> (r: Result<(), HabitError>)
        requires
            old(self).wf(),
            goal.wf(),
        ensures
            final(self).wf(),
            r is Err <==> has_name(old(self)@, name@),
            r matches Err(e) ==> e == HabitError::AlreadyExists && final(self)@ == old(self)@,
            r is Ok ==> final(self)@.len() == old(self)@.len() + 1
                && final(self)@.drop_last() == old(self)@
                && final(self)@.last().name == name
                && final(self)@.last().goal == goal
                && final(self)@.last().category == category
                && final(self)@.last().created_date == created_date
                && final(self)@.last().completions@.len() == 0
                && final(self)@.last().reminder_time is None,
    {
        let r = self.insert_habit(Habit::new(name, goal, category, created_date));
        proof {
            if r is Ok {
                assert(self@.drop_last() == old(self)@);
            }
        }
        r
    }

    /// Removes and returns the habit named `name`.
    pub fn remove_habit(&mut self, name: &String) -> (r: Result<Habit, HabitError>)
        requires
            old(self).wf(),
        ensures
            final(self).wf(),
            r is Err <==> !has_name(old(self)@, name@),
            r matches Err(e) ==> e == HabitError::NotFound && final(self)@ == old(self)@,
            r matches Ok(h) ==> h == old(self)@[index_of(old(self)@, name@)]
                && final(self)@ == old(self)@.remove(index_of(old(self)@, name@))
                && !has_name(final(self)@, name@),
    {
        match self.find(name) {
            Some(i) => {
                let h = self.habits.remove(i);
                proof {
                    let s = old(self)@;
                    let t = self@;
                    assert(t == s.remove(i as int));
                    assert forall|a: int, b: int| 0 <= a < b < t.len() implies t[a].name@ != t[b].name@ by {
                        if a >= i {
                            assert(t[a] == s[a + 1] && t[b] == s[b + 1]);
                        } else if b >= i {
                            assert(t[b] == s[b + 1]);
                        }
                    }
                    assert forall|a: int| 0 <= a < t.len() implies #[trigger] t[a].wf() by {
                        if a >= i {
                            assert(t[a] == s[a + 1]);
                        }
                    }
                    if has_name(t, name@) {
                        let k = choose|k: int| 0 <= k < t.len() && #[trigger] t[k].name@ == name@;
                        if k >= i {
                            assert(t[k] == s[k + 1]);
                        }
                    }
                }
                Ok(h)
            },
            None => Err(HabitError::NotFound),
        }
    }

    /// Puts `h`, which keeps the name of the habit taken out at `i`, back in its place.
    fn restore(&mut self, i: usize, h: Habit, Ghost(s): Ghost<Seq<Habit>>)
        requires
            habits_wf(s),
            i < s.len(),
            old(self)@ == s.remove(i as int),
            h.wf(),
            h.name@ == s[i as int].name@,
        ensures
            final(self).wf(),
            final(self)@ == s.update(i as int, h),
    {
        self.habits.insert(i, h);
        proof {
            let t = self@;
            assert(t =~= s.update(i as int, h));
            assert forall|a: int, b: int| 0 <= a < b < t.len() implies t[a].name@ != t[b].name@ by {
                assert(t[a].name@ == s[a].name@ && t[b].name@ == s[b].name@);
            }
            assert forall|a: int| 0 <= a < t.len() implies #[trigger] t[a].wf() by {
                if a != i {
                    assert(t[a] == s[a]);
                }
            }
        }
    }

    /// Records a completion of the habit named `name` on `today`.
    pub fn mark_done(&mut self, name: &String, today: CompletionDate) -> (r: Result<MarkOutcome, HabitError>)
        requires
            old(self).wf(),
        ensures
            final(self).wf(),
            r is Err <==> !has_name(old(self)@, name@),
            r matches Err(e) ==> e == HabitError::NotFound && final(self)@ == old(self)@,
            r is Ok ==> ({
                let i = index_of(old(self)@, name@);
                let h = old(self)@[i];
                let g = final(self)@[i];
                &&& final(self)@ == old(self)@.update(i, g)
                &&& g.completions.dates() == h.completions.dates().insert(today@)
                &&& g.name == h.name && g.goal == h.goal && g.created_date == h.created_date
                &&& g.category == h.category && g.reminder_time == h.reminder_time
                &&& (r == Ok::<MarkOutcome, HabitError>(MarkOutcome::AlreadyRecorded)) == present(h.completions@, today@)
                &&& r matches Ok(MarkOutcome::Recorded { goal_reached }) ==>
                    goal_reached == (g.window_count(today@, WEEK_DAYS as int) == g.goal.week_target())
            }),
    {
        match self.find(name) {
            Some(i) => {
                let ghost s = self@;
                let mut h = self.habits.remove(i);
                let outcome = h.mark_complete(today);
                let result = match outcome {
                    RecordOutcome::Recorded => {
                        let (achieved, target) = h.goal_progress_this_week(today);
                        MarkOutcome::Recorded { goal_reached: achieved == target }
                    },
                    RecordOutcome::AlreadyRecorded => MarkOutcome::AlreadyRecorded,
                };
                self.restore(i, h, Ghost(s));
                Ok(result)
            },
            None => Err(HabitError::NotFound),
        }
    }
    /// Sets the category of the habit named `name`.
    pub fn set_category(&mut self, name: &String, category: String) -> (r: Result<(), HabitError>)
        requires
            old(self).wf(),
        ensures
            final(self).wf(),
            r is Err <==> !has_name(old(self)@, name@),
            r matches Err(e) ==> e == HabitError::NotFound && final(self)@ == old(self)@,
            r is Ok ==> ({
                let i = index_of(old(self)@, name@);
                final(self)@ == old(self)@.update(i, Habit { category: Some(category), ..old(self)@[i] })
            }),
    {
        match self.find(name) {
            Some(i) => {
                let ghost s = self@;
                let mut h = self.habits.remove(i);
                proof {
                    assert(s[i as int].wf());
                }
                h.category = Some(category);
                self.restore(i, h, Ghost(s));
                Ok(())
            },
            None => Err(HabitError::NotFound),
        }
    }

    /// Sets the reminder time (`HH:MM`) of the habit named `name`.
    pub fn set_reminder(&mut self, name: &String, time: String) -> (r: Result<(), HabitError>)
        requires
            old(self).wf(),
        ensures
            final(self).wf(),
            r is Err <==> !has_name(old(self)@, name@),
            r matches Err(e) ==> e == HabitError::NotFound && final(self)@ == old(self)@,
            r is Ok ==> ({
                let i = index_of(old(self)@, name@);
                final(self)@ == old(self)@.update(i, Habit { reminder_time: Some(time), ..old(self)@[i] })
            }),
    {
        match self.find(name) {
            Some(i) => {
                let ghost s = self@;
                let mut h = self.habits.remove(i);
                proof {
                    assert(s[i as int].wf());
                }
                h.reminder_time = Some(time);
                self.restore(i, h, Ghost(s));
                Ok(())
            },
            None => Err(HabitError::NotFound),
        }
    }

    /// Names of the habits whose reminder is set to `now` and that are not
    /// done on `today`, in the tracker's order.
    pub fn due_reminders(&self, now: &String, today: CompletionDate) -> (r: Vec<String>)
        requires
            self.wf(),
        ensures
            string_views(r@) == due_names(self@, now@, today@),
    {
        let mut names: Vec<String> = Vec::new();
        let mut i: usize = 0;
        while i < self.habits.len()
            invariant
                i <= self@.len(),
                self.wf(),
                string_views(names@) == due_names(self@.subrange(0, i as int), now@, today@),
            decreases self@.len() - i,
        {
            let h = &self.habits[i];
            proof {
                assert(self@.subrange(0, i + 1).drop_last() == self@.subrange(0, i as int));
                assert(h.wf());
            }
            let due = match &h.reminder_time {
                Some(t) => *t == *now && !h.is_done_today(today),
                None => false,
            };
            if due {
                let ghost before = names@;
                names.push(h.name.clone());
                proof {
                    assert(string_views(names@) =~= string_views(before).push(h.name@));
                }
            }
            i = i + 1;
        }
        proof {
            assert(self@.subrange(0, i as int) == self@);
        }
        names
    }

    /// The categories in use, each once, in order of first use.
    pub fn categories(&self) -> (r: Vec<String>)
        ensures
            string_views(r@) == categories_of(self@),
    {
        let mut cats: Vec<String> = Vec::new();
        let mut i: usize = 0;
        while i < self.habits.len()
            invariant
                i <= self@.len(),
                string_views(cats@) == categories_of(self@.subrange(0, i as int)),
            decreases self@.len() - i,
        {
            proof {
                assert(self@.subrange(0, i + 1).drop_last() == self@.subrange(0, i as int));
            }
            match &self.habits[i].category {
                Some(c) => {
                    let mut k: usize = 0;
                    let mut seen = false;
                    while k < cats.len()
                        invariant
                            k <= cats@.len(),
                            seen == (exists|m: int| 0 <= m < k && cats@[m]@ == c@),
                        decreases cats@.len() - k,
                    {
                        if cats[k] == *c {
                            seen = true;
                        }
                        k = k + 1;
                    }
                    proof {
                        let v = string_views(cats@);
                        if seen {
                            let m = choose|m: int| 0 <= m < k && cats@[m]@ == c@;
                            assert(v[m] == c@);
                        } else {
                            assert forall|m: int| 0 <= m < v.len() implies v[m] != c@ by {
                                assert(v[m] == cats@[m]@);
                            }
                        }
                    }
                    if !seen {
                        let ghost before = cats@;
                        cats.push(c.clone());
                        proof {
                            assert(string_views(cats@) =~= string_views(before).push(c@));
                        }
                    }
                },
                None => {},
            }
            i = i + 1;
        }
        proof {
            assert(self@.subrange(0, i as int) == self@);
        }
        cats
    }

    /// Number of habits in category `category`.
    pub fn count_in_category(&self, category: &String) -> (r: usize)
        ensures
            r == category_count(self@, category@),
    {
        let mut count: usize = 0;
        let mut i: usize = 0;
        while i < self.habits.len()
            invariant
                i <= self@.len(),
                count <= i,
                count == category_count(self@.subrange(0, i as int), category@),
            decreases self@.len() - i,
        {
            proof {
                assert(self@.subrange(0, i + 1).drop_last() == self@.subrange(0, i as int));
            }
            let hit = match &self.habits[i].category {
                Some(c) => *c == *category,
                None => false,
            };
            if hit {
                count = count + 1;
            }
            i = i + 1;
        }
        proof {
            assert(self@.subrange(0, i as int) == self@);
        }
        count
    }
}

} // verus!
