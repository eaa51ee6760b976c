//! The statistics engine: the rollups of a day, of a week and of a month.

use vstd::prelude::*;
use vstd::string::StringExecFns;
use crate::calendar::{lemma_month_length, Date, MAX_YEAR, MIN_YEAR};
use crate::models::{
    clone_habit, CategoryCount, DailyStats, DailySummary, Habit, Insight, InsightType,
    MonthlyStats, Trend, WeeklyStats,
};
use crate::summary::{
    active_day_count, are_days_of_week, busiest, category_tally, compliance_sum, daily_summary,
    days_from, events_on, first_day_of, first_week_start, has_compliance, is_active, last_day_of,
    lemma_compliance_sum_push, lemma_daily_summary_of_nothing, lemma_is_active_push,
    lemma_total_of_push, lemma_week_total, month_events, month_name, month_weeks, monthly_summary,
    on_day, total_of, trend_of, week_days, week_of_days, weekly_summary, weeks_up_to, within,
};
use crate::theorems::{
    lemma_daily_summary_is_well_formed, lemma_month_percentage_has_no_tie,
    lemma_monthly_summary_is_well_formed, lemma_weekly_summary_is_well_formed,
};
use crate::tally::{
    category_at, category_index, category_of_slot, category_slot, count_in, lemma_filter_push,
    lemma_group_count_of_nothing, lemma_group_count_push, most_common_group, zero_counts,
    Grouping,
};

verus! {

/// The functions that turn events into statistics.
pub struct StatisticsCalculator;

impl StatisticsCalculator {
    /// The statistics of the events of `habits` that fall on `date`.
    pub fn calculate_daily_stats(habits: &[Habit], date: Date) -> (r: DailyStats)
        ensures
            r@ == daily_summary(habits@, date@),
            r@.well_formed(),
            habits@.len() == 0 ==> r.total_habits == 0 && r.by_category@.len() == 0
                && r.compliance_sum == 0 && r.compliance_count == 0,
    {
        let mut counts = zero_counts(6);
        let mut total_habits: usize = 0;
        let mut total_compliance: u128 = 0;
        let mut compliance_count: usize = 0;
        let mut i: usize = 0;
        proof {
            reveal(Seq::filter);
            let none = Seq::<Habit>::empty();
            assert(habits@.take(0) =~= none);
            assert(events_on(none, date@) =~= none);
            assert(none.filter(has_compliance()) =~= none);
            assert forall|k: int| 0 <= k < 6 implies count_in(none, category_at(k)) == 0 by {
                lemma_group_count_of_nothing(Grouping::Category, category_index(category_at(k)));
            }
        }
        while i < habits.len()
            invariant
                i <= habits.len(),
                counts@.len() == 6,
                forall|k: int|
                    0 <= k < 6 ==> counts@[k] == count_in(
                        events_on(habits@.take(i as int), date@),
                        category_at(k),
                    ),
                forall|k: int| 0 <= k < 6 ==> counts@[k] <= i,
                total_habits == events_on(habits@.take(i as int), date@).len(),
                total_habits <= i,
                total_compliance == compliance_sum(events_on(habits@.take(i as int), date@)),
                total_compliance <= 255 * i,
                compliance_count == events_on(habits@.take(i as int), date@).filter(
                    has_compliance(),
                ).len(),
                compliance_count <= i,
            decreases habits.len() - i,
        {
            let habit = &habits[i];
            let ghost before = habits@.take(i as int);
            let ghost chosen = events_on(before, date@);
            proof {
                assert(habits@.take(i + 1) =~= before.push(*habit));
                lemma_filter_push(before, *habit, on_day(date@));
            }
            if habit.timestamp.date().day_number == date.day_number {
                let slot = category_slot(habit.category);
                proof {
                    lemma_filter_push(chosen, *habit, has_compliance());
                    lemma_compliance_sum_push(chosen, *habit);
                    assert forall|k: int| 0 <= k < 6 implies count_in(
                        chosen.push(*habit),
                        category_at(k),
                    ) == count_in(chosen, category_at(k)) + if k == slot {
                        1nat
                    } else {
                        0nat
                    } by {
                        lemma_group_count_push(
                            chosen,
                            *habit,
                            Grouping::Category,
                            category_index(category_at(k)),
                        );
                    }
                }
                let bumped: usize = counts[slot] + 1;
                counts.set(slot, bumped);
                total_habits = total_habits + 1;
                if let Some(level) = habit.compliance_level {
                    total_compliance = total_compliance + level as u128;
                    compliance_count = compliance_count + 1;
                }
            }
            i += 1;
        }
        proof {
            assert(habits@.take(i as int) =~= habits@);
        }
        let by_category = list_counts(&counts, Ghost(events_on(habits@, date@)));
        proof {
            lemma_daily_summary_is_well_formed(habits@, date@);
            if habits@.len() == 0 {
                assert(habits@ =~= Seq::<Habit>::empty());
                lemma_daily_summary_of_nothing(date@);
                assert(by_category@.len() == by_category@.map_values(|e: CategoryCount| e@).len());
            }
        }
        DailyStats {
            date,
            total_habits,
            by_category,
            compliance_sum: total_compliance,
            compliance_count,
        }
    }

    /// The statistics of the seven days that begin with `week_start`,
    /// whatever day of the week that is.
    pub fn calculate_weekly_stats(habits: &[Habit], week_start: Date) -> (r: WeeklyStats)
        requires
            week_start@ + 6 <= i64::MAX,
        ensures
            r@ == weekly_summary(habits@, week_start@),
            r@.well_formed(),
    {
        let mut days: Vec<DailyStats> = Vec::new();
        let mut i: i64 = 0;
        while i < 7
            invariant
                0 <= i <= 7,
                week_start@ + 6 <= i64::MAX,
                days@.map_values(|d: DailyStats| d@) =~= days_from(
                    habits@,
                    week_start@,
                    i as nat,
                ),
            decreases 7 - i,
        {
            let ghost before = days@;
            let day = Self::calculate_daily_stats(habits, week_start.plus_days(i));
            days.push(day);
            proof {
                assert(days@.map_values(|d: DailyStats| d@) =~= before.map_values(
                    |d: DailyStats| d@,
                ).push(day@));
            }
            i += 1;
        }
        proof {
            assert(days@.map_values(|d: DailyStats| d@) =~= week_days(habits@, week_start@));
            lemma_week_total(habits@, week_start@);
            lemma_weekly_summary_is_well_formed(habits@, week_start@);
            assert(habits@.len() == vstd::slice::spec_slice_len(habits));
        }
        Self::weekly_from_days(week_start, days).unwrap()
    }

    /// Makes a week of the statistics of its seven days, however they were
    /// computed. `None` where `days` are not the seven days from `week_start`
    /// on, in their order, where the week would end beyond the last day that
    /// has a number, or where the total of the week does not fit.
    pub fn weekly_from_days(week_start: Date, days: Vec<DailyStats>) -> (r: Option<WeeklyStats>)
        ensures
            r is Some <==> are_days_of_week(week_start@, days@.map_values(|d: DailyStats| d@))
                && week_start@ + 6 <= i64::MAX && total_of(days@.map_values(|d: DailyStats| d@))
                <= usize::MAX,
            r matches Some(week) ==> week@ == week_of_days(
                week_start@,
                days@.map_values(|d: DailyStats| d@),
            ),
    {
        if days.len() != 7 || week_start.day_number > i64::MAX - 6 {
            return None;
        }
        let ghost all = days@.map_values(|d: DailyStats| d@);
        let mut i: usize = 0;
        while i < 7
            invariant
                i <= 7,
                days@.len() == 7,
                all == days@.map_values(|d: DailyStats| d@),
                week_start@ + 6 <= i64::MAX,
                forall|k: int| 0 <= k < i ==> (#[trigger] all[k]).date == week_start@ + k,
            decreases 7 - i,
        {
            if days[i].date.day_number != week_start.day_number + i as i64 {
                proof {
                    assert(all[i as int].date != week_start@ + i);
                }
                return None;
            }
            i += 1;
        }
        proof {
            assert(all.subrange(0, 7) =~= all);
        }
        let sum = sum_totals(days.as_slice(), 0, 7);
        if sum > usize::MAX as u128 {
            return None;
        }
        let total_habits = sum as usize;
        let most_active_day = days[busiest_index(days.as_slice())].date;
        let trend = Self::calculate_trend(days.as_slice());
        let week_end = week_start.plus_days(6);
        Some(WeeklyStats { week_start, week_end, days, total_habits, most_active_day, trend })
    }

    /// The direction of a run of days.
    pub fn calculate_trend(days: &[DailyStats]) -> (r: Trend)
        ensures
            r == trend_of(days@.map_values(|d: DailyStats| d@)),
    {
        if days.len() < 2 {
            return Trend::Stable;
        }
        let mid = days.len() / 2;
        let first_half = sum_totals(days, 0, mid);
        let second_half = sum_totals(days, mid, days.len());
        let threshold = first_half / 10;
        if second_half > first_half && second_half - first_half > threshold {
            Trend::Up
        } else if second_half < first_half && first_half - second_half > threshold {
            Trend::Down
        } else {
            Trend::Stable
        }
    }

    /// The statistics of the month `month` of `year`.
    pub fn calculate_monthly_stats(habits: &[Habit], year: i32, month: u32) -> (r: MonthlyStats)
        requires
            1 <= month <= 12,
            MIN_YEAR <= year <= MAX_YEAR,
            month == 12 ==> year < MAX_YEAR,
        ensures
            r@ == monthly_summary(habits@, year as int, month as int),
            r@.well_formed(),
    {
        let first_day = Date::from_ymd(year, month, 1).unwrap();
        let next_first = if month == 12 {
            Date::from_ymd(year + 1, 1, 1).unwrap()
        } else {
            Date::from_ymd(year, month + 1, 1).unwrap()
        };
        let last_day = next_first.plus_days(-1);
        proof {
            lemma_month_length(year as int, month as int);
            lemma_monthly_summary_is_well_formed(habits@, year as int, month as int);
            assert(first_day@ == first_day_of(year as int, month as int));
            assert(last_day@ == last_day_of(year as int, month as int));
        }
        let month_habits = events_within(habits, first_day, last_day);
        let ghost events = month_events(habits@, year as int, month as int);
        let ghost start = first_week_start(year as int, month as int);

        let mut weeks: Vec<WeeklyStats> = Vec::new();
        let mut current_week_start = first_day.week_start();
        while current_week_start.day_number <= last_day.day_number
            invariant
                month_habits@ == events,
                start <= first_day@ <= last_day@ <= i32::MAX,
                current_week_start@ == start + 7 * weeks@.len(),
                current_week_start@ <= last_day@ + 7,
                weeks@.map_values(|w: WeeklyStats| w@) =~= Seq::new(
                    weeks@.len(),
                    |k: int| weekly_summary(events, start + 7 * k),
                ),
            decreases last_day@ + 7 - current_week_start@,
        {
            let ghost before = weeks@;
            let week = Self::calculate_weekly_stats(month_habits.as_slice(), current_week_start);
            weeks.push(week);
            proof {
                assert(weeks@.map_values(|w: WeeklyStats| w@) =~= before.map_values(
                    |w: WeeklyStats| w@,
                ).push(week@));
            }
            current_week_start = current_week_start.plus_days(7);
        }
        proof {
            assert(weeks@.len() == (last_day@ - start) / 7 + 1);
            assert(weeks@.map_values(|w: WeeklyStats| w@) =~= weeks_up_to(
                events,
                start,
                last_day@,
            ));
            assert(weeks@.map_values(|w: WeeklyStats| w@) =~= month_weeks(
                habits@,
                year as int,
                month as int,
            ));
        }

        let total_habits = month_habits.len();
        let most_common_category = if total_habits == 0 {
            String::from_str("none")
        } else {
            let slot = most_common_group(month_habits.as_slice(), Grouping::Category);
            String::from_str(category_of_slot(slot).as_str())
        };

        let days_in_month = (last_day.day_number - first_day.day_number + 1) as u32;
        let active_days = count_active_days(habits, first_day, days_in_month);
        proof {
            lemma_month_percentage_has_no_tie(active_days as nat, days_in_month as nat);
        }
        let insights = Self::generate_insights(
            month_habits.as_slice(),
            active_days,
            days_in_month,
        );

        MonthlyStats {
            month: String::from_str(name_of_month(month)),
            year,
            weeks,
            total_habits,
            active_days,
            days_in_month,
            most_common_category,
            insights: messages_of(insights),
        }
    }
}

/// Lists the categories that have a count, in their order, with their names.
pub(crate) fn list_counts(counts: &Vec<usize>, Ghost(habits): Ghost<Seq<Habit>>) -> (r: Vec<
    CategoryCount,
>)
    requires
        counts@.len() == 6,
        forall|k: int| 0 <= k < 6 ==> counts@[k] == count_in(habits, category_at(k)),
    ensures
        r@.map_values(|e: CategoryCount| e@) == category_tally(habits, 6),
{
    let mut listed: Vec<CategoryCount> = Vec::new();
    let mut k: usize = 0;
    proof {
        assert(listed@.map_values(|e: CategoryCount| e@) =~= category_tally(habits, 0));
    }
    while k < 6
        invariant
            k <= 6,
            counts@.len() == 6,
            forall|j: int| 0 <= j < 6 ==> counts@[j] == count_in(habits, category_at(j)),
            listed@.map_values(|e: CategoryCount| e@) == category_tally(habits, k as int),
        decreases 6 - k,
    {
        let count = counts[k];
        if count > 0 {
            let ghost before = listed@;
            let entry = CategoryCount {
                category: String::from_str(category_of_slot(k).as_str()),
                count,
            };
            listed.push(entry);
            proof {
                assert(listed@.map_values(|e: CategoryCount| e@) =~= before.map_values(
                    |e: CategoryCount| e@,
                ).push(entry@));
            }
        }
        k += 1;
    }
    listed
}

/// Adds up the totals of the days at `from..to`.
fn sum_totals(days: &[DailyStats], from: usize, to: usize) -> (r: u128)
    requires
        from <= to <= days@.len(),
    ensures
        r == total_of(days@.map_values(|d: DailyStats| d@).subrange(from as int, to as int)),
{
    let ghost all = days@.map_values(|d: DailyStats| d@);
    let mut sum: u128 = 0;
    let mut i: usize = from;
    proof {
        assert(all.subrange(from as int, from as int) =~= Seq::<DailySummary>::empty());
    }
    while i < to
        invariant
            from <= i <= to,
            to <= days@.len(),
            all == days@.map_values(|d: DailyStats| d@),
            sum == total_of(all.subrange(from as int, i as int)),
            sum <= (i - from) * usize::MAX,
        decreases to - i,
    {
        proof {
            assert(all.subrange(from as int, i + 1) =~= all.subrange(from as int, i as int).push(
                all[i as int],
            ));
            lemma_total_of_push(all.subrange(from as int, i as int), all[i as int]);
            assert((i - from) * usize::MAX + usize::MAX == (i + 1 - from) * usize::MAX)
                by (nonlinear_arith);
            assert((i + 1 - from) * usize::MAX <= 0xffff_ffff_ffff_ffff * 0xffff_ffff_ffff_ffff)
                by (nonlinear_arith)
                requires
                    0 <= i + 1 - from <= 0xffff_ffff_ffff_ffff,
                    0 <= usize::MAX <= 0xffff_ffff_ffff_ffff,
            ;
        }
        sum = sum + days[i].total_habits as u128;
        i += 1;
    }
    sum
}

/// Finds the first day with the largest total.
fn busiest_index(days: &[DailyStats]) -> (r: usize)
    ensures
        r == busiest(days@.map_values(|d: DailyStats| d@)),
        days@.len() > 0 ==> r < days@.len(),
{
    let ghost all = days@.map_values(|d: DailyStats| d@);
    let mut best: usize = 0;
    let mut i: usize = 1;
    if days.len() <= 1 {
        return 0;
    }
    proof {
        assert(busiest(all.take(1)) == 0);
    }
    while i < days.len()
        invariant
            1 <= i <= days@.len(),
            all == days@.map_values(|d: DailyStats| d@),
            best == busiest(all.take(i as int)),
            best < i,
        decreases days.len() - i,
    {
        proof {
            assert(all.take(i + 1).drop_last() =~= all.take(i as int));
        }
        if days[i].total_habits > days[best].total_habits {
            best = i;
        }
        i += 1;
    }
    proof {
        assert(all.take(i as int) =~= all);
    }
    best
}

/// Copies the events that fall on one of the days `first..=last`.
fn events_within(habits: &[Habit], first: Date, last: Date) -> (r: Vec<Habit>)
    ensures
        r@ == habits@.filter(within(first@, last@)),
{
    let mut chosen: Vec<Habit> = Vec::new();
    let mut i: usize = 0;
    proof {
        reveal(Seq::filter);
        assert(habits@.take(0) =~= Seq::<Habit>::empty());
    }
    while i < habits.len()
        invariant
            i <= habits.len(),
            chosen@ == habits@.take(i as int).filter(within(first@, last@)),
        decreases habits.len() - i,
    {
        let habit = &habits[i];
        proof {
            assert(habits@.take(i + 1) =~= habits@.take(i as int).push(*habit));
            lemma_filter_push(habits@.take(i as int), *habit, within(first@, last@));
        }
        let day = habit.timestamp.date().day_number;
        if first.day_number <= day && day <= last.day_number {
            chosen.push(clone_habit(habit));
        }
        i += 1;
    }
    proof {
        assert(habits@.take(i as int) =~= habits@);
    }
    chosen
}

/// Marks, for each of the `length` days from `first` on, whether an event
/// falls on it.
pub(crate) fn active_flags(habits: &[Habit], first: i128, length: usize) -> (r: Vec<bool>)
    requires
        i64::MIN - usize::MAX <= first <= i64::MAX,
    ensures
        r@.len() == length,
        forall|d: int|
            first <= d < first + length ==> (r@[d - first] <==> #[trigger] is_active(habits@, d)),
{
    let mut seen: Vec<bool> = Vec::new();
    let mut j: usize = 0;
    while j < length
        invariant
            j <= length,
            seen@.len() == j,
            forall|k: int| 0 <= k < j ==> !seen@[k],
        decreases length - j,
    {
        seen.push(false);
        j += 1;
    }
    let mut i: usize = 0;
    proof {
        reveal(Seq::filter);
        assert(habits@.take(0) =~= Seq::<Habit>::empty());
        assert forall|d: int| !#[trigger] is_active(habits@.take(0), d) by {
            assert(events_on(Seq::<Habit>::empty(), d) =~= Seq::<Habit>::empty());
        }
    }
    while i < habits.len()
        invariant
            i <= habits.len(),
            seen@.len() == length,
            i64::MIN - usize::MAX <= first <= i64::MAX,
            forall|d: int|
                first <= d < first + length ==> (seen@[d - first] <==> #[trigger] is_active(
                    habits@.take(i as int),
                    d,
                )),
        decreases habits.len() - i,
    {
        let habit = &habits[i];
        let day = habit.timestamp.date().day_number as i128;
        proof {
            let before = habits@.take(i as int);
            assert(habits@.take(i + 1) =~= before.push(*habit));
            assert forall|d: int| #[trigger]
                is_active(habits@.take(i + 1), d) <==> is_active(before, d)
                    || habit.timestamp.day() == d by {
                lemma_is_active_push(before, *habit, d);
            }
        }
        if first <= day && day - first < length as i128 {
            seen.set((day - first) as usize, true);
        }
        i += 1;
    }
    proof {
        assert(habits@.take(i as int) =~= habits@);
    }
    seen
}

/// Counts the days among the `length` days from `first` on that have an event.
fn count_active_days(habits: &[Habit], first: Date, length: u32) -> (r: u32)
    ensures
        r == active_day_count(habits@, first@, length as nat),
        r <= length,
{
    let seen = active_flags(habits, first.day_number as i128, length as usize);
    let mut active: u32 = 0;
    let mut k: u32 = 0;
    while k < length
        invariant
            k <= length,
            seen@.len() == length,
            forall|d: int|
                first@ <= d < first@ + length ==> (seen@[d - first@] <==> #[trigger] is_active(
                    habits@,
                    d,
                )),
            active == active_day_count(habits@, first@, k as nat),
            active <= k,
        decreases length - k,
    {
        proof {
            assert(seen@[k as int] <==> is_active(habits@, first@ + k));
        }
        if seen[k as usize] {
            active += 1;
        }
        k += 1;
    }
    active
}

/// The name of the month `month`.
fn name_of_month(month: u32) -> (r: &'static str)
    ensures
        r@ == month_name(month as int),
{
    match month {
        1 => "Januari",
        2 => "Februari",
        3 => "Maret",
        4 => "April",
        5 => "Mei",
        6 => "Juni",
        7 => "Juli",
        8 => "Agustus",
        9 => "September",
        10 => "Oktober",
        11 => "November",
        12 => "Desember",
        _ => "Unknown",
    }
}

/// Keeps the message of each insight.
fn messages_of(insights: Vec<Insight>) -> (r: Vec<String>)
    ensures
        r@.map_values(|m: String| m@) == insights@.map_values(|i: Insight| i@).map_values(
            |i: (Seq<char>, InsightType)| i.0,
        ),
{
    let mut messages: Vec<String> = Vec::new();
    let mut i: usize = 0;
    while i < insights.len()
        invariant
            i <= insights.len(),
            messages@.len() == i,
            forall|k: int| 0 <= k < i ==> messages@[k]@ == insights@[k].message@,
        decreases insights.len() - i,
    {
        messages.push(insights[i].message.clone());
        i += 1;
    }
    proof {
        assert(messages@.map_values(|m: String| m@) =~= insights@.map_values(
            |i: Insight| i@,
        ).map_values(|i: (Seq<char>, InsightType)| i.0));
    }
    messages
}

} // verus!
