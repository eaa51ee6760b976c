//! What the statistics are, stated over sequences of events.

use vstd::prelude::*;
use crate::calendar::{day_number, days_from_monday, days_in_month};
use crate::insights::insight_messages;
use crate::models::{DailySummary, Habit, MonthlySummary, Trend, WeeklySummary};
use crate::tally::{
    category_at, category_index, count_in, largest_group, lemma_filter_push,
    lemma_group_count_of_nothing, Grouping,
};

verus! {

/// The events that fall on `day`.
pub open spec fn on_day(day: int) -> spec_fn(Habit) -> bool {
    |h: Habit| h.timestamp.day() == day
}

/// The events that fall on one of the days `first..=last`.
pub open spec fn within(first: int, last: int) -> spec_fn(Habit) -> bool {
    |h: Habit| first <= h.timestamp.day() <= last
}

/// The events that carry a compliance level.
pub open spec fn has_compliance() -> spec_fn(Habit) -> bool {
    |h: Habit| h.compliance_level is Some
}

/// The events of `habits` that fall on `day`, in their order.
pub open spec fn events_on(habits: Seq<Habit>, day: int) -> Seq<Habit> {
    habits.filter(on_day(day))
}

/// Whether any event falls on `day`.
pub open spec fn is_active(habits: Seq<Habit>, day: int) -> bool {
    events_on(habits, day).len() > 0
}

/// The compliance level of an event, 0 where it has none.
pub open spec fn level_of(h: Habit) -> nat {
    match h.compliance_level {
        Some(level) => level as nat,
        None => 0,
    }
}

/// Sum of the compliance levels of the events that carry one.
pub open spec fn compliance_sum(habits: Seq<Habit>) -> nat
    decreases habits.len(),
{
    if habits.len() == 0 {
        0
    } else {
        compliance_sum(habits.drop_last()) + level_of(habits.last())
    }
}

/// Name and count of each of the first `upto` categories that has an event,
/// in the order of the categories.
pub open spec fn category_tally(habits: Seq<Habit>, upto: int) -> Seq<(Seq<char>, nat)>
    decreases upto,
{
    if upto <= 0 {
        Seq::empty()
    } else {
        let earlier = category_tally(habits, upto - 1);
        let c = category_at(upto - 1);
        if count_in(habits, c) > 0 {
            earlier.push((c.name(), count_in(habits, c)))
        } else {
            earlier
        }
    }
}

/// Name and count of every category that has an event.
pub open spec fn category_counts(habits: Seq<Habit>) -> Seq<(Seq<char>, nat)> {
    category_tally(habits, 6)
}

/// The statistics of the day `day`.
pub open spec fn daily_summary(habits: Seq<Habit>, day: int) -> DailySummary {
    let events = events_on(habits, day);
    DailySummary {
        date: day,
        total: events.len(),
        by_category: category_counts(events),
        compliance_sum: compliance_sum(events),
        compliance_count: events.filter(has_compliance()).len(),
    }
}

/// The statistics of the `count` days that begin with `start`.
pub open spec fn days_from(habits: Seq<Habit>, start: int, count: nat) -> Seq<DailySummary> {
    Seq::new(count, |i: int| daily_summary(habits, start + i))
}

/// The statistics of the seven days that begin with `start`.
pub open spec fn week_days(habits: Seq<Habit>, start: int) -> Seq<DailySummary> {
    days_from(habits, start, 7)
}

/// Sum of the totals of `days`.
pub open spec fn total_of(days: Seq<DailySummary>) -> nat
    decreases days.len(),
{
    if days.len() == 0 {
        0
    } else {
        total_of(days.drop_last()) + days.last().total
    }
}

/// Position of the day with the largest total; of the first one, where
/// several days share it. 0 for an empty sequence.
pub open spec fn busiest(days: Seq<DailySummary>) -> int
    decreases days.len(),
{
    if days.len() <= 1 {
        0
    } else {
        let earlier = busiest(days.drop_last());
        if days.last().total > days[earlier].total {
            days.len() - 1
        } else {
            earlier
        }
    }
}

/// Direction of a run of days. The days are split at `len / 2`; the later
/// part counts as larger or smaller only where it differs from the earlier
/// part by more than a tenth of the earlier part, rounded down.
pub open spec fn trend_of(days: Seq<DailySummary>) -> Trend {
    if days.len() < 2 {
        Trend::Stable
    } else {
        let mid = days.len() / 2;
        let first_half = total_of(days.subrange(0, mid as int));
        let second_half = total_of(days.subrange(mid as int, days.len() as int));
        let threshold = first_half / 10;
        if second_half > first_half + threshold {
            Trend::Up
        } else if second_half + threshold < first_half {
            Trend::Down
        } else {
            Trend::Stable
        }
    }
}

/// Whether `days` are seven and bear, in their order, the dates of the seven
/// days from `start` on.
pub open spec fn are_days_of_week(start: int, days: Seq<DailySummary>) -> bool {
    days.len() == 7 && forall|i: int| 0 <= i < 7 ==> (#[trigger] days[i]).date == start + i
}

/// The week that begins with `start` and is made of `days`.
pub open spec fn week_of_days(start: int, days: Seq<DailySummary>) -> WeeklySummary {
    WeeklySummary {
        week_start: start,
        week_end: start + 6,
        days,
        total: total_of(days),
        most_active_day: days[busiest(days)].date,
        trend: trend_of(days),
    }
}

/// The statistics of the week that begins with `start`.
pub open spec fn weekly_summary(habits: Seq<Habit>, start: int) -> WeeklySummary {
    week_of_days(start, week_days(habits, start))
}

/// The name of a month, for `month` in 1..=12.
pub open spec fn month_name(month: int) -> Seq<char> {
    if month == 1 {
        "Januari"@
    } else if month == 2 {
        "Februari"@
    } else if month == 3 {
        "Maret"@
    } else if month == 4 {
        "April"@
    } else if month == 5 {
        "Mei"@
    } else if month == 6 {
        "Juni"@
    } else if month == 7 {
        "Juli"@
    } else if month == 8 {
        "Agustus"@
    } else if month == 9 {
        "September"@
    } else if month == 10 {
        "Oktober"@
    } else if month == 11 {
        "November"@
    } else if month == 12 {
        "Desember"@
    } else {
        "Unknown"@
    }
}

/// The first day of a month.
pub open spec fn first_day_of(year: int, month: int) -> int {
    day_number(year, month, 1)
}

/// The last day of a month.
pub open spec fn last_day_of(year: int, month: int) -> int {
    first_day_of(year, month) + days_in_month(year, month) - 1
}

/// The events that fall within a month.
pub open spec fn month_events(habits: Seq<Habit>, year: int, month: int) -> Seq<Habit> {
    habits.filter(within(first_day_of(year, month), last_day_of(year, month)))
}

/// The Monday on or before the first day of a month.
pub open spec fn first_week_start(year: int, month: int) -> int {
    first_day_of(year, month) - days_from_monday(first_day_of(year, month))
}

/// How many weeks, Monday to Sunday, hold a day of the month.
pub open spec fn week_count(year: int, month: int) -> nat {
    ((last_day_of(year, month) - first_week_start(year, month)) / 7 + 1) as nat
}

/// The position of the week that holds `day`, among weeks counted from the
/// one that begins with `start`.
pub open spec fn week_position(start: int, day: int) -> int {
    (day - start) / 7
}

/// The position, among the weeks of a month, of the week that holds `day`.
pub open spec fn week_index_of(year: int, month: int, day: int) -> int {
    week_position(first_week_start(year, month), day)
}

/// The weeks from the one that begins with `start` up to the one that holds
/// `last`.
pub open spec fn weeks_up_to(habits: Seq<Habit>, start: int, last: int) -> Seq<WeeklySummary> {
    Seq::new(((last - start) / 7 + 1) as nat, |k: int| weekly_summary(habits, start + 7 * k))
}

/// The weeks of a month, each with the events of the month alone: the days
/// of the first and the last week that lie outside the month are empty.
pub open spec fn month_weeks(habits: Seq<Habit>, year: int, month: int) -> Seq<WeeklySummary> {
    weeks_up_to(
        month_events(habits, year, month),
        first_week_start(year, month),
        last_day_of(year, month),
    )
}

/// How many of the `count` days from `first` on have an event.
pub open spec fn active_day_count(habits: Seq<Habit>, first: int, count: nat) -> nat
    decreases count,
{
    if count == 0 {
        0
    } else {
        active_day_count(habits, first, (count - 1) as nat) + if is_active(
            habits,
            first + count - 1,
        ) {
            1nat
        } else {
            0nat
        }
    }
}

/// The name of the category with the most events, of the first such category
/// in the order of declaration where several share the largest count;
/// `none` where there is no event.
pub open spec fn most_common_category(habits: Seq<Habit>) -> Seq<char> {
    if habits.len() == 0 {
        "none"@
    } else {
        category_at(largest_group(habits, Grouping::Category)).name()
    }
}

/// The statistics of a month.
pub open spec fn monthly_summary(habits: Seq<Habit>, year: int, month: int) -> MonthlySummary {
    let events = month_events(habits, year, month);
    let length = days_in_month(year, month) as nat;
    let active = active_day_count(habits, first_day_of(year, month), length);
    MonthlySummary {
        month: month_name(month),
        year,
        weeks: month_weeks(habits, year, month),
        total: events.len(),
        active_days: active,
        days_in_month: length,
        most_common_category: most_common_category(events),
        insights: insight_messages(events, active, length),
    }
}

/// The latest day on which one of the events falls, for at least one event.
pub open spec fn latest_day(habits: Seq<Habit>) -> int
    decreases habits.len(),
{
    if habits.len() <= 1 {
        habits[0].timestamp.day()
    } else {
        let earlier = latest_day(habits.drop_last());
        if habits.last().timestamp.day() > earlier {
            habits.last().timestamp.day()
        } else {
            earlier
        }
    }
}

/// How many days in a row up to and with `day` have an event, counting no
/// further than `limit` days.
pub open spec fn run_ending(habits: Seq<Habit>, day: int, limit: nat) -> nat
    decreases limit,
{
    if limit == 0 || !is_active(habits, day) {
        0
    } else {
        1 + run_ending(habits, day - 1, (limit - 1) as nat)
    }
}

/// The streak as of `today`: the number of days in a row, up to and with the
/// latest day that has an event, on which something was recorded; 0 where
/// that latest day is neither `today` nor the day before it. A run holds no
/// more days than there are events, which bounds the count.
pub open spec fn current_streak(habits: Seq<Habit>, today: int) -> nat {
    if habits.len() == 0 {
        0
    } else {
        let latest = latest_day(habits);
        if latest != today && latest != today - 1 {
            0
        } else {
            run_ending(habits, latest, habits.len())
        }
    }
}

/// An event makes its own day active and changes no other day.
pub proof fn lemma_is_active_push(habits: Seq<Habit>, h: Habit, day: int)
    ensures
        is_active(habits.push(h), day) <==> is_active(habits, day) || h.timestamp.day() == day,
{
    lemma_filter_push(habits, h, on_day(day));
}

/// An event adds its compliance level to the sum.
pub proof fn lemma_compliance_sum_push(s: Seq<Habit>, h: Habit)
    ensures
        compliance_sum(s.push(h)) == compliance_sum(s) + level_of(h),
{
    assert(s.push(h).drop_last() =~= s);
}

/// A further day adds its total to the sum.
pub proof fn lemma_total_of_push(days: Seq<DailySummary>, day: DailySummary)
    ensures
        total_of(days.push(day)) == total_of(days) + day.total,
{
    assert(days.push(day).drop_last() =~= days);
}

/// Where each element meets exactly one of `p` and `q`, or neither, those
/// that meet either are as many as those that meet `p` and those that meet
/// `q` together.
pub proof fn lemma_filter_len_split<A>(
    s: Seq<A>,
    p: spec_fn(A) -> bool,
    q: spec_fn(A) -> bool,
    either: spec_fn(A) -> bool,
)
    requires
        forall|x: A| #[trigger] either(x) <==> (p(x) || q(x)),
        forall|x: A| !(#[trigger] p(x) && q(x)),
    ensures
        s.filter(either).len() == s.filter(p).len() + s.filter(q).len(),
    decreases s.len(),
{
    reveal(Seq::filter);
    if s.len() > 0 {
        lemma_filter_len_split(s.drop_last(), p, q, either);
    }
}

/// The totals of consecutive days add up to the number of events that fall
/// on one of them.
pub proof fn lemma_total_of_days(habits: Seq<Habit>, start: int, count: nat)
    ensures
        total_of(days_from(habits, start, count)) == habits.filter(
            within(start, start + count - 1),
        ).len(),
        total_of(days_from(habits, start, count)) <= habits.len(),
    decreases count,
{
    habits.lemma_filter_len(within(start, start + count - 1));
    if count == 0 {
        habits.lemma_all_neg_filter_empty(within(start, start - 1));
    } else {
        lemma_total_of_days(habits, start, (count - 1) as nat);
        assert(days_from(habits, start, count).drop_last() =~= days_from(
            habits,
            start,
            (count - 1) as nat,
        ));
        lemma_filter_len_split(
            habits,
            within(start, start + count - 2),
            on_day(start + count - 1),
            within(start, start + count - 1),
        );
    }
}

/// The total of a week is the number of events that fall within it.
pub proof fn lemma_week_total(habits: Seq<Habit>, start: int)
    ensures
        total_of(week_days(habits, start)) == habits.filter(within(start, start + 6)).len(),
        total_of(week_days(habits, start)) <= habits.len(),
{
    lemma_total_of_days(habits, start, 7);
}

/// The statistics of a day on which nothing happened.
pub proof fn lemma_daily_summary_of_nothing(day: int)
    ensures
        daily_summary(Seq::<Habit>::empty(), day).total == 0,
        daily_summary(Seq::<Habit>::empty(), day).by_category.len() == 0,
        daily_summary(Seq::<Habit>::empty(), day).compliance_sum == 0,
        daily_summary(Seq::<Habit>::empty(), day).compliance_count == 0,
{
    reveal(Seq::filter);
    let none = Seq::<Habit>::empty();
    assert(events_on(none, day) =~= none);
    assert(none.filter(has_compliance()) =~= none);
    assert forall|k: int| count_in(none, category_at(k)) == 0 by {
        lemma_group_count_of_nothing(Grouping::Category, category_index(category_at(k)));
    }
    reveal_with_fuel(category_tally, 7);
}

} // verus!
