//! Theorems about the statistics: what holds of them whatever the events.

use vstd::prelude::*;
use crate::calendar::{days_from_monday, days_in_month, lemma_month_length};
use crate::insights::{insights_of, is_halfway, percent_tenths};
use crate::models::{Category, DailySummary, Habit, Trend};
use crate::summary::{
    active_day_count, busiest, category_tally, compliance_sum, current_streak, daily_summary,
    days_from, events_on, first_day_of, first_week_start, has_compliance, is_active,
    last_day_of, latest_day, lemma_is_active_push, lemma_total_of_days, month_events,
    month_weeks, monthly_summary, on_day, run_ending, total_of, trend_of, week_count,
    week_days, week_index_of, week_position, weekly_summary, weeks_up_to, within,
};
use crate::tally::{
    category_at, count_in, group_count, largest_group, leading_group, lemma_filter_push,
    lemma_group_count_push, Grouping,
};
use crate::text::{ascii_lowercased, is_ascii_text};

verus! {

/// The names of the categories are ASCII texts in lowercase, and no two are
/// the same.
pub proof fn lemma_category_names(c: Category)
    ensures
        is_ascii_text(c.name()),
        ascii_lowercased(c.name()) == c.name(),
        Category::from_name(c.name()) == c,
{
    reveal_strlit("health");
    reveal_strlit("productivity");
    reveal_strlit("hygiene");
    reveal_strlit("exercise");
    reveal_strlit("sleep");
    reveal_strlit("other");
    assert("health"@.len() == 6 && "productivity"@.len() == 12 && "hygiene"@.len() == 7);
    assert("exercise"@.len() == 8 && "sleep"@.len() == 5 && "other"@.len() == 5);
    assert("sleep"@[0] != "other"@[0]);
    assert(is_ascii_text(c.name()));
    assert(ascii_lowercased(c.name()) =~= c.name());
}

/// Every category is found again from its own name, so that parsing reaches
/// each of the six categories.
pub proof fn lemma_category_round_trip(c: Category)
    ensures
        Category::parse(c.name()) == c,
        exists|s: Seq<char>| Category::parse(s) == c,
{
    lemma_category_names(c);
}

/// Parsing does not tell the case of ASCII letters: an ASCII text that is
/// the name of a category but for the case of its letters stands for that
/// category.
pub proof fn lemma_parse_ignores_ascii_case(s: Seq<char>, c: Category)
    requires
        is_ascii_text(s),
        ascii_lowercased(s) == c.name(),
    ensures
        Category::parse(s) == c,
{
    lemma_category_names(c);
}

/// A week has seven days, and its total is the sum of their totals.
pub proof fn lemma_week_total_is_sum_of_days(habits: Seq<Habit>, start: int)
    ensures
        weekly_summary(habits, start).days.len() == 7,
        weekly_summary(habits, start).total == total_of(weekly_summary(habits, start).days),
        forall|i: int|
            0 <= i < 7 ==> (#[trigger] weekly_summary(habits, start).days[i]).date == start + i,
{
}

/// Fewer than two days have no direction.
pub proof fn lemma_trend_of_short_run(days: Seq<DailySummary>)
    requires
        days.len() < 2,
    ensures
        trend_of(days) == Trend::Stable,
{
}

/// The total of days that all have the same total.
pub proof fn lemma_total_of_equal_days(days: Seq<DailySummary>, each: nat)
    requires
        forall|i: int| 0 <= i < days.len() ==> (#[trigger] days[i]).total == each,
    ensures
        total_of(days) == days.len() * each,
    decreases days.len(),
{
    if days.len() > 0 {
        lemma_total_of_equal_days(days.drop_last(), each);
        assert(days.len() * each == (days.len() - 1) * each + each) by (nonlinear_arith);
    }
}

/// Days without any event are stable.
pub proof fn lemma_trend_of_empty_days(days: Seq<DailySummary>)
    requires
        forall|i: int| 0 <= i < days.len() ==> (#[trigger] days[i]).total == 0,
    ensures
        trend_of(days) == Trend::Stable,
{
    if days.len() >= 2 {
        let mid = (days.len() / 2) as int;
        let first = days.subrange(0, mid);
        let second = days.subrange(mid, days.len() as int);
        lemma_total_of_equal_days(first, 0);
        lemma_total_of_equal_days(second, 0);
        assert(first.len() * 0 == 0 && second.len() * 0 == 0);
    }
}

/// A week without events is stable.
pub proof fn lemma_trend_of_week_without_events(habits: Seq<Habit>, start: int)
    requires
        forall|day: int| start <= day <= start + 6 ==> !#[trigger] is_active(habits, day),
    ensures
        weekly_summary(habits, start).trend == Trend::Stable,
        weekly_summary(habits, start).total == 0,
{
    let days = week_days(habits, start);
    assert forall|i: int| 0 <= i < days.len() implies (#[trigger] days[i]).total == 0 by {
        assert(!is_active(habits, start + i));
    }
    lemma_trend_of_empty_days(days);
    lemma_total_of_equal_days(days, 0);
    assert(days.len() * 0 == 0);
}

/// Seven days with the same total: the later four outweigh the earlier three
/// by a whole day, which is more than a tenth of the three, so the week is
/// stable only where the days are empty and goes up otherwise.
pub proof fn lemma_trend_of_equal_week(days: Seq<DailySummary>, each: nat)
    requires
        days.len() == 7,
        forall|i: int| 0 <= i < 7 ==> (#[trigger] days[i]).total == each,
    ensures
        trend_of(days) == if each == 0 {
            Trend::Stable
        } else {
            Trend::Up
        },
{
    let first = days.subrange(0, 3);
    let second = days.subrange(3, 7);
    lemma_total_of_equal_days(first, each);
    lemma_total_of_equal_days(second, each);
    assert(first.len() * each == 3 * each) by (nonlinear_arith)
        requires
            first.len() == 3,
    ;
    assert(second.len() * each == 4 * each) by (nonlinear_arith)
        requires
            second.len() == 4,
    ;
}

/// A week in which a single day has events is never stable: it goes down
/// where that day is one of the first three, and up where it is one of the
/// last four.
pub proof fn lemma_trend_of_single_active_day(days: Seq<DailySummary>, active: int)
    requires
        days.len() == 7,
        0 <= active < 7,
        days[active].total > 0,
        forall|i: int| 0 <= i < 7 && i != active ==> (#[trigger] days[i]).total == 0,
    ensures
        trend_of(days) == if active < 3 {
            Trend::Down
        } else {
            Trend::Up
        },
{
    let first = days.subrange(0, 3);
    let second = days.subrange(3, 7);
    reveal_with_fuel(total_of, 5);
    assert(first.drop_last().drop_last().drop_last().len() == 0);
    assert(second.drop_last().drop_last().drop_last().drop_last().len() == 0);
    assert(total_of(first) == days[0].total + days[1].total + days[2].total);
    assert(total_of(second) == days[3].total + days[4].total + days[5].total + days[6].total);
}

/// The busiest day has the largest total, and no day before it has as much.
pub proof fn lemma_busiest_is_first_maximum(days: Seq<DailySummary>)
    requires
        days.len() > 0,
    ensures
        0 <= busiest(days) < days.len(),
        forall|i: int|
            0 <= i < days.len() ==> (#[trigger] days[i]).total <= days[busiest(days)].total,
        forall|i: int|
            0 <= i < busiest(days) ==> (#[trigger] days[i]).total < days[busiest(days)].total,
    decreases days.len(),
{
    if days.len() > 1 {
        let earlier = days.drop_last();
        lemma_busiest_is_first_maximum(earlier);
        assert forall|i: int| 0 <= i < days.len() implies (#[trigger] days[i]).total
            <= days[busiest(days)].total by {
            if i < earlier.len() {
                assert(earlier[i] == days[i]);
            }
        }
        assert forall|i: int| 0 <= i < busiest(days) implies (#[trigger] days[i]).total
            < days[busiest(days)].total by {
            assert(earlier[i] == days[i]);
        }
    }
}

/// The largest group has the most events, and no group before it has as many.
pub proof fn lemma_largest_group_is_first_maximum(habits: Seq<Habit>, grouping: Grouping)
    ensures
        0 <= largest_group(habits, grouping) < grouping.groups(),
        forall|k: int|
            0 <= k < grouping.groups() ==> #[trigger] group_count(habits, grouping, k)
                <= group_count(habits, grouping, largest_group(habits, grouping)),
        forall|k: int|
            0 <= k < largest_group(habits, grouping) ==> #[trigger] group_count(
                habits,
                grouping,
                k,
            ) < group_count(habits, grouping, largest_group(habits, grouping)),
{
    lemma_leading_group(habits, grouping, grouping.groups());
}

proof fn lemma_leading_group(habits: Seq<Habit>, grouping: Grouping, upto: int)
    requires
        upto >= 1,
    ensures
        0 <= leading_group(habits, grouping, upto) < upto,
        forall|k: int|
            0 <= k < upto ==> #[trigger] group_count(habits, grouping, k) <= group_count(
                habits,
                grouping,
                leading_group(habits, grouping, upto),
            ),
        forall|k: int|
            0 <= k < leading_group(habits, grouping, upto) ==> #[trigger] group_count(
                habits,
                grouping,
                k,
            ) < group_count(habits, grouping, leading_group(habits, grouping, upto)),
    decreases upto,
{
    if upto > 1 {
        lemma_leading_group(habits, grouping, upto - 1);
    }
}

/// The listing by category names each category that has an event, with its
/// count, and nothing else; the categories come in their order.
pub proof fn lemma_category_tally(habits: Seq<Habit>, upto: int)
    requires
        0 <= upto <= 6,
    ensures
        category_tally(habits, upto).len() <= upto,
        forall|k: int|
            0 <= k < upto && count_in(habits, category_at(k)) > 0 ==> category_tally(
                habits,
                upto,
            ).contains((category_at(k).name(), #[trigger] count_in(habits, category_at(k)))),
        forall|i: int|
            0 <= i < category_tally(habits, upto).len() ==> exists|k: int|
                0 <= k < upto && count_in(habits, category_at(k)) > 0 && #[trigger] category_tally(
                    habits,
                    upto,
                )[i] == (category_at(k).name(), #[trigger] count_in(habits, category_at(k))),
    decreases upto,
{
    if upto > 0 {
        let earlier = category_tally(habits, upto - 1);
        let now = category_tally(habits, upto);
        let c = category_at(upto - 1);
        lemma_category_tally(habits, upto - 1);
        assert forall|k: int|
            0 <= k < upto && count_in(habits, category_at(k)) > 0 implies now.contains(
            (category_at(k).name(), #[trigger] count_in(habits, category_at(k))),
        ) by {
            let entry = (category_at(k).name(), count_in(habits, category_at(k)));
            if k < upto - 1 {
                let i = choose|i: int| 0 <= i < earlier.len() && earlier[i] == entry;
                assert(now[i] == entry);
            } else {
                assert(now[now.len() - 1] == entry);
            }
        }
        assert forall|i: int| 0 <= i < now.len() implies exists|k: int|
            0 <= k < upto && count_in(habits, category_at(k)) > 0 && #[trigger] now[i] == (
                category_at(k).name(),
                #[trigger] count_in(habits, category_at(k)),
            ) by {
            if i < earlier.len() {
                let k = choose|k: int|
                    0 <= k < upto - 1 && count_in(habits, category_at(k)) > 0 && earlier[i] == (
                        category_at(k).name(),
                        #[trigger] count_in(habits, category_at(k)),
                    );
                assert(now[i] == (category_at(k).name(), count_in(habits, category_at(k))));
            } else {
                assert(now[i] == (c.name(), count_in(habits, category_at(upto - 1))));
            }
        }
    }
}

/// How many events fall into one of the first `upto` groups.
pub open spec fn count_in_groups(habits: Seq<Habit>, grouping: Grouping, upto: int) -> nat
    decreases upto,
{
    if upto <= 0 {
        0
    } else {
        count_in_groups(habits, grouping, upto - 1) + group_count(habits, grouping, upto - 1)
    }
}

/// Every event belongs to one group.
pub proof fn lemma_key_is_a_group(grouping: Grouping, h: Habit)
    ensures
        0 <= grouping.key(h) < grouping.groups(),
{
}

proof fn lemma_count_in_groups_push(habits: Seq<Habit>, h: Habit, grouping: Grouping, upto: int)
    requires
        0 <= upto,
    ensures
        count_in_groups(habits.push(h), grouping, upto) == count_in_groups(habits, grouping, upto)
            + if 0 <= grouping.key(h) < upto {
            1nat
        } else {
            0nat
        },
    decreases upto,
{
    if upto > 0 {
        lemma_count_in_groups_push(habits, h, grouping, upto - 1);
        lemma_group_count_push(habits, h, grouping, upto - 1);
    }
}

proof fn lemma_count_in_groups_of_nothing(grouping: Grouping, upto: int)
    ensures
        count_in_groups(Seq::<Habit>::empty(), grouping, upto) == 0,
    decreases upto,
{
    if upto > 0 {
        lemma_count_in_groups_of_nothing(grouping, upto - 1);
        crate::tally::lemma_group_count_of_nothing(grouping, upto - 1);
    }
}

/// The groups share out the events: their counts add up to the number of
/// events, so that each event is counted in exactly one group.
pub proof fn lemma_groups_share_out_the_events(habits: Seq<Habit>, grouping: Grouping)
    ensures
        count_in_groups(habits, grouping, grouping.groups()) == habits.len(),
    decreases habits.len(),
{
    if habits.len() == 0 {
        assert(habits =~= Seq::<Habit>::empty());
        lemma_count_in_groups_of_nothing(grouping, grouping.groups());
    } else {
        let earlier = habits.drop_last();
        lemma_groups_share_out_the_events(earlier, grouping);
        assert(habits =~= earlier.push(habits.last()));
        lemma_count_in_groups_push(earlier, habits.last(), grouping, grouping.groups());
        lemma_key_is_a_group(grouping, habits.last());
    }
}

/// The active days among the days `first..=last`.
pub open spec fn active_days_within(habits: Seq<Habit>, first: int, last: int) -> Set<int> {
    Set::new(|day: int| first <= day <= last && is_active(habits, day))
}

/// The number of active days is the number of distinct days, among those
/// counted, on which an event falls.
pub proof fn lemma_active_days_are_distinct_days(habits: Seq<Habit>, first: int, count: nat)
    ensures
        active_days_within(habits, first, first + count - 1).finite(),
        active_days_within(habits, first, first + count - 1).len() == active_day_count(
            habits,
            first,
            count,
        ),
        active_day_count(habits, first, count) <= count,
    decreases count,
{
    let days = active_days_within(habits, first, first + count - 1);
    if count == 0 {
        assert(days =~= Set::<int>::empty());
    } else {
        let earlier = active_days_within(habits, first, first + count - 2);
        lemma_active_days_are_distinct_days(habits, first, (count - 1) as nat);
        if is_active(habits, first + count - 1) {
            assert(days =~= earlier.insert(first + count - 1));
        } else {
            assert(days =~= earlier);
        }
    }
}

/// Of the events of a span of days, those of one day: the events of that day
/// where it lies in the span, none where it does not.
pub proof fn lemma_events_of_span_on_day(habits: Seq<Habit>, first: int, last: int, day: int)
    ensures
        events_on(habits.filter(within(first, last)), day) == if first <= day <= last {
            events_on(habits, day)
        } else {
            Seq::<Habit>::empty()
        },
    decreases habits.len(),
{
    if habits.len() == 0 {
        reveal(Seq::filter);
        assert(habits.filter(within(first, last)) =~= habits);
        assert(events_on(habits, day) =~= Seq::<Habit>::empty());
    } else {
        let earlier = habits.drop_last();
        let h = habits.last();
        lemma_events_of_span_on_day(earlier, first, last, day);
        assert(habits =~= earlier.push(h));
        lemma_filter_push(earlier, h, within(first, last));
        lemma_filter_push(earlier, h, on_day(day));
        lemma_filter_push(earlier.filter(within(first, last)), h, on_day(day));
    }
}

/// In the weeks of a month a day of the month has the statistics that it has
/// among all events, and a day outside the month, in the first or the last
/// week, has those of a day without events.
pub proof fn lemma_month_keeps_its_own_days(habits: Seq<Habit>, year: int, month: int, day: int)
    ensures
        daily_summary(month_events(habits, year, month), day) == if first_day_of(year, month)
            <= day <= last_day_of(year, month) {
            daily_summary(habits, day)
        } else {
            daily_summary(Seq::<Habit>::empty(), day)
        },
{
    lemma_events_of_span_on_day(
        habits,
        first_day_of(year, month),
        last_day_of(year, month),
        day,
    );
    reveal(Seq::filter);
    assert(events_on(Seq::<Habit>::empty(), day) =~= Seq::<Habit>::empty());
}

/// In a month no consistency lies halfway between two tenths of a percent,
/// so that rounding to one decimal place never has to choose a direction.
pub proof fn lemma_month_percentage_has_no_tie(active: nat, days: nat)
    requires
        28 <= days <= 31,
        active <= days,
    ensures
        !is_halfway(active, days),
        percent_tenths(active, days) <= 1000,
{
    if days == 28 {
        assert((2000 * active) % 56 != 28);
        assert((2000 * active + 28) / 56 <= 1000);
    } else if days == 29 {
        assert((2000 * active) % 58 != 29);
        assert((2000 * active + 29) / 58 <= 1000);
    } else if days == 30 {
        assert((2000 * active) % 60 != 30);
        assert((2000 * active + 30) / 60 <= 1000);
    } else {
        assert((2000 * active) % 62 != 31);
        assert((2000 * active + 31) / 62 <= 1000);
    }
}

/// No more events carry a compliance level than there are events, and their
/// levels add up to no more than 255 each.
pub proof fn lemma_compliance_bounds(habits: Seq<Habit>)
    ensures
        habits.filter(has_compliance()).len() <= habits.len(),
        compliance_sum(habits) <= 255 * habits.filter(has_compliance()).len(),
    decreases habits.len(),
{
    habits.lemma_filter_len(has_compliance());
    if habits.len() > 0 {
        let earlier = habits.drop_last();
        lemma_compliance_bounds(earlier);
        assert(habits =~= earlier.push(habits.last()));
        lemma_filter_push(earlier, habits.last(), has_compliance());
    }
}

/// The statistics of a day are well formed.
pub proof fn lemma_daily_summary_is_well_formed(habits: Seq<Habit>, day: int)
    ensures
        daily_summary(habits, day).well_formed(),
        daily_summary(habits, day).date == day,
{
    lemma_compliance_bounds(events_on(habits, day));
    lemma_category_tally(events_on(habits, day), 6);
}

/// The statistics of a week are well formed.
pub proof fn lemma_weekly_summary_is_well_formed(habits: Seq<Habit>, start: int)
    ensures
        weekly_summary(habits, start).well_formed(),
        weekly_summary(habits, start).week_start == start,
{
    let week = weekly_summary(habits, start);
    lemma_busiest_is_first_maximum(week.days);
    assert forall|i: int| 0 <= i < 7 implies (#[trigger] week.days[i]).date == start + i
        && week.days[i].well_formed() by {
        lemma_daily_summary_is_well_formed(habits, start + i);
    }
}

/// No more days are active than there are events on them.
pub proof fn lemma_active_days_are_no_more_than_events(habits: Seq<Habit>, first: int, count: nat)
    ensures
        active_day_count(habits, first, count) <= habits.filter(
            within(first, first + count - 1),
        ).len(),
        active_day_count(habits, first, count) <= count,
    decreases count,
{
    lemma_total_of_days(habits, first, count);
    if count > 0 {
        lemma_active_days_are_no_more_than_events(habits, first, (count - 1) as nat);
        lemma_total_of_days(habits, first, (count - 1) as nat);
        assert(days_from(habits, first, count).drop_last() =~= days_from(
            habits,
            first,
            (count - 1) as nat,
        ));
    }
}

/// The statistics of a month are well formed.
pub proof fn lemma_monthly_summary_is_well_formed(habits: Seq<Habit>, year: int, month: int)
    requires
        1 <= month <= 12,
    ensures
        monthly_summary(habits, year, month).well_formed(),
{
    let stats = monthly_summary(habits, year, month);
    let events = month_events(habits, year, month);
    let first = first_day_of(year, month);
    let length = days_in_month(year, month) as nat;
    lemma_month_length(year, month);
    lemma_month_weeks_cover(habits, year, month);
    assert forall|k: int| 0 <= k < stats.weeks.len() implies {
        let week = #[trigger] stats.weeks[k];
        &&& week.well_formed()
        &&& days_from_monday(week.week_start) == 0
        &&& week.week_start == stats.weeks[0].week_start + 7 * k
    } by {
        lemma_weekly_summary_is_well_formed(events, first_week_start(year, month) + 7 * k);
    }
    lemma_active_days_are_no_more_than_events(habits, first, length);
    assert(stats.insights.len() == insights_of(events, stats.active_days, length).len());
}

/// Away from a tie the tenths of a percentage are the nearest: they differ
/// from the percentage by less than half a tenth.
pub proof fn lemma_percent_tenths_is_nearest(active: nat, days: nat)
    requires
        days > 0,
        !is_halfway(active, days),
    ensures
        2 * days * percent_tenths(active, days) - days < 2000 * active < 2 * days * percent_tenths(
            active,
            days,
        ) + days,
{
    let tenths = percent_tenths(active, days);
    let scaled = (2000 * active + days) as int;
    let unit = (2 * days) as int;
    vstd::arithmetic::div_mod::lemma_fundamental_div_mod(scaled, unit);
    vstd::arithmetic::div_mod::lemma_mod_bound(scaled, unit);
    assert(unit * tenths == 2 * days * tenths) by (nonlinear_arith)
        requires
            unit == 2 * days,
    ;
    if scaled % unit == 0 {
        // Then 2000 * active is `days` short of a multiple of `2 * days`.
        assert(2000 * active == unit * (tenths - 1) + days) by (nonlinear_arith)
            requires
                2000 * active + days == unit * tenths,
                unit == 2 * days,
        ;
        vstd::arithmetic::div_mod::lemma_fundamental_div_mod_converse(
            (2000 * active) as int,
            unit,
            tenths - 1,
            days as int,
        );
    }
}

/// Without events there is no streak.
pub proof fn lemma_streak_of_nothing(today: int)
    ensures
        current_streak(Seq::<Habit>::empty(), today) == 0,
{
}

/// Where the latest event is two or more days old, there is no streak.
pub proof fn lemma_streak_is_lost(habits: Seq<Habit>, today: int)
    requires
        habits.len() > 0,
        latest_day(habits) <= today - 2,
    ensures
        current_streak(habits, today) == 0,
{
}

/// A day is active exactly where one of the events falls on it.
pub proof fn lemma_active_day_has_event(habits: Seq<Habit>, day: int)
    ensures
        is_active(habits, day) <==> exists|i: int|
            0 <= i < habits.len() && (#[trigger] habits[i]).timestamp.day() == day,
    decreases habits.len(),
{
    if habits.len() == 0 {
        reveal(Seq::filter);
    } else {
        let earlier = habits.drop_last();
        lemma_active_day_has_event(earlier, day);
        assert(habits =~= earlier.push(habits.last()));
        lemma_is_active_push(earlier, habits.last(), day);
        if is_active(habits, day) {
            if is_active(earlier, day) {
                let i = choose|i: int|
                    0 <= i < earlier.len() && (#[trigger] earlier[i]).timestamp.day() == day;
                assert(habits[i].timestamp.day() == day);
            } else {
                assert(habits[habits.len() - 1].timestamp.day() == day);
            }
        } else {
            assert forall|i: int| 0 <= i < habits.len() implies {
                (#[trigger] habits[i]).timestamp.day() != day
            } by {
                if i < earlier.len() {
                    assert(earlier[i] == habits[i]);
                }
            }
        }
    }
}

/// The latest day is a day of one of the events, and none falls later.
pub proof fn lemma_latest_day(habits: Seq<Habit>)
    requires
        habits.len() > 0,
    ensures
        is_active(habits, latest_day(habits)),
        forall|i: int|
            0 <= i < habits.len() ==> (#[trigger] habits[i]).timestamp.day() <= latest_day(habits),
    decreases habits.len(),
{
    if habits.len() > 1 {
        let earlier = habits.drop_last();
        lemma_latest_day(earlier);
        assert forall|i: int| 0 <= i < habits.len() implies (#[trigger] habits[i]).timestamp.day()
            <= latest_day(habits) by {
            if i < habits.len() - 1 {
                assert(earlier[i] == habits[i]);
            }
        }
        assert(habits =~= earlier.push(habits.last()));
        lemma_is_active_push(earlier, habits.last(), latest_day(habits));
    } else {
        lemma_active_day_has_event(habits, latest_day(habits));
    }
}

/// A run of `length` active days that ends with `day`.
pub proof fn lemma_run_of_active_days(habits: Seq<Habit>, day: int, length: nat, limit: nat)
    requires
        length <= limit,
        forall|d: int| day - length < d <= day ==> #[trigger] is_active(habits, d),
        length < limit ==> !is_active(habits, day - length),
    ensures
        run_ending(habits, day, limit) == length,
    decreases length,
{
    if length > 0 {
        lemma_run_of_active_days(habits, day - 1, (length - 1) as nat, (limit - 1) as nat);
    }
}

/// What `run_ending` counts: the days counted are active, and the count
/// stops short of the limit only at a day that is not.
pub proof fn lemma_run_ending(habits: Seq<Habit>, day: int, limit: nat)
    ensures
        run_ending(habits, day, limit) <= limit,
        forall|d: int|
            day - run_ending(habits, day, limit) < d <= day ==> #[trigger] is_active(habits, d),
        run_ending(habits, day, limit) < limit ==> !is_active(
            habits,
            day - run_ending(habits, day, limit),
        ),
    decreases limit,
{
    if limit > 0 && is_active(habits, day) {
        lemma_run_ending(habits, day - 1, (limit - 1) as nat);
    }
}

/// A filter that keeps as many elements as there are keeps every element.
pub proof fn lemma_filter_keeps_all<A>(s: Seq<A>, p: spec_fn(A) -> bool)
    requires
        s.filter(p).len() == s.len(),
    ensures
        forall|i: int| 0 <= i < s.len() ==> p(#[trigger] s[i]),
    decreases s.len(),
{
    reveal(Seq::filter);
    if s.len() > 0 {
        let earlier = s.drop_last();
        earlier.lemma_filter_len(p);
        lemma_filter_keeps_all(earlier, p);
        assert forall|i: int| 0 <= i < s.len() implies p(#[trigger] s[i]) by {
            if i < earlier.len() {
                assert(earlier[i] == s[i]);
            }
        }
    }
}

/// Days that are all active hold at least one event each.
pub proof fn lemma_active_days_hold_events(habits: Seq<Habit>, start: int, count: nat)
    requires
        forall|d: int| start <= d < start + count ==> #[trigger] is_active(habits, d),
    ensures
        habits.filter(within(start, start + count - 1)).len() >= count,
    decreases count,
{
    lemma_total_of_days(habits, start, count);
    if count > 0 {
        lemma_active_days_hold_events(habits, start, (count - 1) as nat);
        lemma_total_of_days(habits, start, (count - 1) as nat);
        assert(days_from(habits, start, count).drop_last() =~= days_from(
            habits,
            start,
            (count - 1) as nat,
        ));
        assert(is_active(habits, start + count - 1));
    }
}

/// A run of active days holds no more days than there are events: to count
/// further than that finds nothing more.
pub proof fn lemma_run_is_no_longer_than_the_events(habits: Seq<Habit>, day: int, limit: nat)
    requires
        limit >= habits.len(),
    ensures
        run_ending(habits, day, limit) == run_ending(habits, day, habits.len()),
{
    let count = habits.len();
    let run = run_ending(habits, day, count);
    lemma_run_ending(habits, day, count);
    if run == count && limit > count {
        let span = within(day - count + 1, day);
        lemma_active_days_hold_events(habits, day - count + 1, count);
        habits.lemma_filter_len(span);
        lemma_filter_keeps_all(habits, span);
        lemma_active_day_has_event(habits, day - count);
        if is_active(habits, day - count) {
            let i = choose|i: int|
                0 <= i < habits.len() && (#[trigger] habits[i]).timestamp.day() == day - count;
            assert(span(habits[i]));
        }
    }
    lemma_run_of_active_days(habits, day, run, limit);
}

/// One event on each of `n` days in a row, the last of them `today`, whatever
/// the order of the events, is a streak of `n`.
pub proof fn lemma_streak_of_consecutive_days(habits: Seq<Habit>, today: int)
    requires
        forall|i: int|
            0 <= i < habits.len() ==> today - habits.len() < (#[trigger] habits[i]).timestamp.day()
                <= today,
        forall|d: int| today - habits.len() < d <= today ==> #[trigger] is_active(habits, d),
    ensures
        current_streak(habits, today) == habits.len(),
{
    if habits.len() > 0 {
        lemma_latest_day(habits);
        lemma_active_day_has_event(habits, latest_day(habits));
        lemma_active_day_has_event(habits, today);
        assert(is_active(habits, today));
        assert(latest_day(habits) == today);
        lemma_run_of_active_days(habits, today, habits.len(), habits.len());
    }
}

/// Weeks from a Monday on: each begins on a Monday, none begins after
/// `last`, and the week that holds a day up to `last` is one of them.
pub proof fn lemma_weeks_up_to(habits: Seq<Habit>, start: int, last: int)
    requires
        days_from_monday(start) == 0,
        start <= last,
    ensures
        weeks_up_to(habits, start, last).len() == (last - start) / 7 + 1,
        forall|k: int|
            0 <= k < weeks_up_to(habits, start, last).len() ==> {
                let week = #[trigger] weeks_up_to(habits, start, last)[k];
                &&& week.week_start == start + 7 * k
                &&& week.week_end == week.week_start + 6
                &&& days_from_monday(week.week_start) == 0
                &&& week.week_start <= last
                &&& week.days.len() == 7
            },
        forall|day: int|
            start <= day <= last ==> {
                let k = #[trigger] week_position(start, day);
                &&& 0 <= k < weeks_up_to(habits, start, last).len()
                &&& weeks_up_to(habits, start, last)[k].week_start <= day <= weeks_up_to(
                    habits,
                    start,
                    last,
                )[k].week_end
            },
{
}

/// The weeks of a month begin on Mondays, the first of them on the Monday on
/// or before the first day of the month, follow one another without a gap,
/// and every day of the month lies in one of them.
pub proof fn lemma_month_weeks_cover(habits: Seq<Habit>, year: int, month: int)
    requires
        1 <= month <= 12,
    ensures
        month_weeks(habits, year, month).len() == week_count(year, month),
        week_count(year, month) >= 1,
        first_day_of(year, month) - 7 < first_week_start(year, month) <= first_day_of(year, month),
        forall|k: int|
            0 <= k < week_count(year, month) ==> {
                let week = #[trigger] month_weeks(habits, year, month)[k];
                &&& week.week_start == first_week_start(year, month) + 7 * k
                &&& week.week_end == week.week_start + 6
                &&& days_from_monday(week.week_start) == 0
                &&& week.week_start <= last_day_of(year, month)
                &&& week.days.len() == 7
            },
        forall|day: int|
            first_day_of(year, month) <= day <= last_day_of(year, month) ==> {
                let k = #[trigger] week_index_of(year, month, day);
                &&& 0 <= k < week_count(year, month)
                &&& month_weeks(habits, year, month)[k].week_start <= day
                    <= month_weeks(habits, year, month)[k].week_end
            },
{
    let first = first_day_of(year, month);
    let last = last_day_of(year, month);
    let start = first_week_start(year, month);
    assert(first <= last) by {
        lemma_month_length(year, month);
    }
    assert(first - 7 < start <= first && days_from_monday(start) == 0) by {
        assert(start == first - (first - 1) % 7);
    }
    lemma_weeks_up_to(month_events(habits, year, month), start, last);
}

} // verus!
