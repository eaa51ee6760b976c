//! Counting events by group: by category, by hour of the day, by weekday.

use vstd::prelude::*;
use crate::calendar::days_from_monday;
use crate::models::{Category, Habit};

verus! {

/// A way of sorting events into numbered groups.
#[derive(Debug, Clone, Copy, PartialEq, Eq, Structural, Hash)]
pub enum Grouping {
    /// By category, in the order of declaration.
    Category,
    /// By the UTC hour of the day, 0 to 23.
    Hour,
    /// By the UTC day of the week, Monday first.
    Weekday,
}

/// The categories in the order of their declaration.
pub open spec fn category_at(i: int) -> Category {
    if i == 0 {
        Category::Health
    } else if i == 1 {
        Category::Productivity
    } else if i == 2 {
        Category::Hygiene
    } else if i == 3 {
        Category::Exercise
    } else if i == 4 {
        Category::Sleep
    } else {
        Category::Other
    }
}

/// The position of a category in the order of declaration.
pub open spec fn category_index(c: Category) -> int {
    match c {
        Category::Health => 0,
        Category::Productivity => 1,
        Category::Hygiene => 2,
        Category::Exercise => 3,
        Category::Sleep => 4,
        Category::Other => 5,
    }
}

impl Grouping {
    /// How many groups there are.
    pub open spec fn groups(self) -> int {
        match self {
            Grouping::Category => 6,
            Grouping::Hour => 24,
            Grouping::Weekday => 7,
        }
    }

    /// The group of an event.
    pub open spec fn key(self, h: Habit) -> int {
        match self {
            Grouping::Category => category_index(h.category),
            Grouping::Hour => h.timestamp.hour_of_day(),
            Grouping::Weekday => days_from_monday(h.timestamp.day()),
        }
    }

    pub fn size(&self) -> (r: usize)
        ensures
            r == self.groups(),
    {
        match self {
            Grouping::Category => 6,
            Grouping::Hour => 24,
            Grouping::Weekday => 7,
        }
    }

    /// The group of `habit`.
    pub fn slot(&self, habit: &Habit) -> (r: usize)
        ensures
            r == self.key(*habit),
            r < self.groups(),
    {
        match self {
            Grouping::Category => category_slot(habit.category),
            Grouping::Hour => habit.timestamp.hour() as usize,
            Grouping::Weekday => habit.timestamp.weekday().num_days_from_monday() as usize,
        }
    }
}

/// The events of group `group`.
pub open spec fn in_group(grouping: Grouping, group: int) -> spec_fn(Habit) -> bool {
    |h: Habit| grouping.key(h) == group
}

/// How many events fall into group `group`.
pub open spec fn group_count(habits: Seq<Habit>, grouping: Grouping, group: int) -> nat {
    habits.filter(in_group(grouping, group)).len()
}

/// How many events have category `c`.
pub open spec fn count_in(habits: Seq<Habit>, c: Category) -> nat {
    group_count(habits, Grouping::Category, category_index(c))
}

/// Among the first `upto` groups, the one with the most events; the first
/// such group where several share the largest count.
pub open spec fn leading_group(habits: Seq<Habit>, grouping: Grouping, upto: int) -> int
    decreases upto,
{
    if upto <= 1 {
        0
    } else {
        let earlier = leading_group(habits, grouping, upto - 1);
        if group_count(habits, grouping, upto - 1) > group_count(habits, grouping, earlier) {
            upto - 1
        } else {
            earlier
        }
    }
}

/// The group with the most events.
pub open spec fn largest_group(habits: Seq<Habit>, grouping: Grouping) -> int {
    leading_group(habits, grouping, grouping.groups())
}

/// Filtering a sequence that grew by one element.
pub proof fn lemma_filter_push<A>(s: Seq<A>, x: A, p: spec_fn(A) -> bool)
    ensures
        s.push(x).filter(p) == if p(x) {
            s.filter(p).push(x)
        } else {
            s.filter(p)
        },
{
    reveal(Seq::filter);
    assert(s.push(x).drop_last() =~= s);
}

/// An event adds one to the count of its own group and nothing to the others.
pub proof fn lemma_group_count_push(habits: Seq<Habit>, h: Habit, grouping: Grouping, group: int)
    ensures
        group_count(habits.push(h), grouping, group) == group_count(habits, grouping, group)
            + if grouping.key(h) == group {
            1nat
        } else {
            0nat
        },
{
    lemma_filter_push(habits, h, in_group(grouping, group));
}

/// Without events every group is empty.
pub proof fn lemma_group_count_of_nothing(grouping: Grouping, group: int)
    ensures
        group_count(Seq::<Habit>::empty(), grouping, group) == 0,
{
    reveal(Seq::filter);
    assert(Seq::<Habit>::empty().filter(in_group(grouping, group)) =~= Seq::<Habit>::empty());
}

/// The position of a category in the order of declaration.
pub fn category_slot(c: Category) -> (r: usize)
    ensures
        r == category_index(c),
        r < 6,
{
    match c {
        Category::Health => 0,
        Category::Productivity => 1,
        Category::Hygiene => 2,
        Category::Exercise => 3,
        Category::Sleep => 4,
        Category::Other => 5,
    }
}

/// The category at position `i` of the order of declaration.
pub(crate) fn category_of_slot(i: usize) -> (r: Category)
    requires
        i < 6,
    ensures
        r == category_at(i as int),
        category_index(r) == i,
{
    if i == 0 {
        Category::Health
    } else if i == 1 {
        Category::Productivity
    } else if i == 2 {
        Category::Hygiene
    } else if i == 3 {
        Category::Exercise
    } else if i == 4 {
        Category::Sleep
    } else {
        Category::Other
    }
}

/// `size` counters, all zero.
pub(crate) fn zero_counts(size: usize) -> (r: Vec<usize>)
    ensures
        r@.len() == size,
        forall|k: int| 0 <= k < size ==> r@[k] == 0,
{
    let mut counts: Vec<usize> = Vec::new();
    let mut k: usize = 0;
    while k < size
        invariant
            k <= size,
            counts@.len() == k,
            forall|j: int| 0 <= j < k ==> counts@[j] == 0,
        decreases size - k,
    {
        counts.push(0);
        k += 1;
    }
    counts
}

/// Counts the events of `habits` group by group.
pub fn tally(habits: &[Habit], grouping: Grouping) -> (r: Vec<usize>)
    ensures
        r@.len() == grouping.groups(),
        forall|k: int| 0 <= k < grouping.groups() ==> r@[k] == group_count(habits@, grouping, k),
{
    let size = grouping.size();
    let mut counts = zero_counts(size);
    let mut i: usize = 0;
    proof {
        assert(habits@.take(0) =~= Seq::<Habit>::empty());
        assert forall|k: int| 0 <= k < size implies group_count(habits@.take(0), grouping, k)
            == 0 by {
            lemma_group_count_of_nothing(grouping, k);
        }
    }
    while i < habits.len()
        invariant
            i <= habits.len(),
            size == grouping.groups(),
            counts@.len() == size,
            forall|k: int|
                0 <= k < size ==> counts@[k] == group_count(habits@.take(i as int), grouping, k),
            forall|k: int| 0 <= k < size ==> counts@[k] <= i,
        decreases habits.len() - i,
    {
        let slot = grouping.slot(&habits[i]);
        proof {
            let before = habits@.take(i as int);
            assert(habits@.take(i + 1) =~= before.push(habits@[i as int]));
            assert forall|k: int| 0 <= k < size implies group_count(
                habits@.take(i + 1),
                grouping,
                k,
            ) == group_count(before, grouping, k) + if k == slot {
                1nat
            } else {
                0nat
            } by {
                lemma_group_count_push(before, habits@[i as int], grouping, k);
            }
        }
        let bumped: usize = counts[slot] + 1;
        counts.set(slot, bumped);
        i += 1;
    }
    proof {
        assert(habits@.take(i as int) =~= habits@);
    }
    counts
}

/// Finds the group with the most events in the counts of `tally`.
pub(crate) fn leading_slot(
    counts: &Vec<usize>,
    Ghost(habits): Ghost<Seq<Habit>>,
    Ghost(grouping): Ghost<Grouping>,
) -> (r: usize)
    requires
        counts@.len() == grouping.groups(),
        forall|k: int|
            0 <= k < grouping.groups() ==> counts@[k] == group_count(habits, grouping, k),
    ensures
        r == largest_group(habits, grouping),
        r < grouping.groups(),
{
    let mut best: usize = 0;
    let mut k: usize = 1;
    while k < counts.len()
        invariant
            1 <= k <= counts@.len(),
            counts@.len() == grouping.groups(),
            forall|j: int|
                0 <= j < grouping.groups() ==> counts@[j] == group_count(habits, grouping, j),
            best == leading_group(habits, grouping, k as int),
            best < k,
        decreases counts.len() - k,
    {
        if counts[k] > counts[best] {
            best = k;
        }
        k += 1;
    }
    best
}

/// The group into which most events of `habits` fall, the first of them
/// where several groups share the largest count.
pub fn most_common_group(habits: &[Habit], grouping: Grouping) -> (r: usize)
    ensures
        r == largest_group(habits@, grouping),
        r < grouping.groups(),
{
    let counts = tally(habits, grouping);
    leading_slot(&counts, Ghost(habits@), Ghost(grouping))
}

} // verus!
