use chrono::NaiveDate;
use habit_tracker::calendar::{Date, Timestamp};
use habit_tracker::models::{Category, DailyStats, Habit, Trend};
use habit_tracker::statistics::StatisticsCalculator;

fn at(year: i32, month: u32, day: u32, hour: u32) -> Timestamp {
    let instant = NaiveDate::from_ymd_opt(year, month, day)
        .unwrap()
        .and_hms_opt(hour, 0, 0)
        .unwrap()
        .and_utc();
    Timestamp { seconds: instant.timestamp(), nanos: 0 }
}

fn habit(timestamp: Timestamp) -> Habit {
    Habit {
        id: String::new(),
        name: "walk".to_string(),
        category: Category::Exercise,
        timestamp,
        compliance_level: Some(50),
        notes: Some("note".to_string()),
    }
}

fn date(year: i32, month: u32, day: u32) -> Date {
    Date::from_ymd(year, month, day).unwrap()
}

/// Events of the week from Monday 2024-01-01 on, `per_day[i]` of them on day `i`.
fn week_of(per_day: [usize; 7]) -> Vec<Habit> {
    let mut habits = Vec::new();
    for (i, n) in per_day.iter().enumerate() {
        for k in 0..*n {
            habits.push(habit(at(2024, 1, 1 + i as u32, (k % 24) as u32)));
        }
    }
    habits
}

fn days_with(totals: &[usize]) -> Vec<DailyStats> {
    totals
        .iter()
        .enumerate()
        .map(|(i, total)| DailyStats {
            date: Date::from_day_number(100 + i as i64),
            total_habits: *total,
            by_category: Vec::new(),
            compliance_sum: 0,
            compliance_count: 0,
        })
        .collect()
}

fn trend_of_week(per_day: [usize; 7]) -> Trend {
    StatisticsCalculator::calculate_weekly_stats(&week_of(per_day), date(2024, 1, 1)).trend
}

#[test]
fn weekly_stats_of_nothing() {
    let week = StatisticsCalculator::calculate_weekly_stats(&[], date(2024, 1, 1));
    assert_eq!(week.week_start, date(2024, 1, 1));
    assert_eq!(week.week_end, date(2024, 1, 7));
    assert_eq!(week.days.len(), 7);
    assert_eq!(week.total_habits, 0);
    assert_eq!(week.most_active_day, date(2024, 1, 1));
    assert_eq!(week.trend, Trend::Stable);
    for (i, day) in week.days.iter().enumerate() {
        assert_eq!(day.date, date(2024, 1, 1).plus_days(i as i64));
        assert_eq!(day.total_habits, 0);
    }
}

#[test]
fn weekly_total_is_the_sum_of_its_days() {
    let mut habits = week_of([3, 0, 2, 5, 1, 0, 4]);
    habits.push(habit(at(2023, 12, 31, 23)));
    habits.push(habit(at(2024, 1, 8, 0)));
    habits.reverse();
    let week = StatisticsCalculator::calculate_weekly_stats(&habits, date(2024, 1, 1));
    let totals: Vec<usize> = week.days.iter().map(|d| d.total_habits).collect();
    assert_eq!(totals, vec![3, 0, 2, 5, 1, 0, 4]);
    assert_eq!(week.total_habits, 15);
    assert_eq!(week.total_habits, totals.iter().sum::<usize>());
    assert_eq!(week.most_active_day, date(2024, 1, 4));
    assert_eq!(week.week_end, date(2024, 1, 7));
}

#[test]
fn weekly_stats_keep_the_given_start() {
    // 2024-01-03 is a Wednesday: the week is anchored there all the same.
    let habits = week_of([1, 1, 1, 1, 1, 1, 1]);
    let week = StatisticsCalculator::calculate_weekly_stats(&habits, date(2024, 1, 3));
    assert_eq!(week.week_start, date(2024, 1, 3));
    assert_eq!(week.week_end, date(2024, 1, 9));
    let totals: Vec<usize> = week.days.iter().map(|d| d.total_habits).collect();
    assert_eq!(totals, vec![1, 1, 1, 1, 1, 0, 0]);
    assert_eq!(week.total_habits, 5);
}

#[test]
fn most_active_day_is_the_first_of_equals() {
    let week = StatisticsCalculator::calculate_weekly_stats(
        &week_of([0, 2, 1, 2, 0, 2, 1]),
        date(2024, 1, 1),
    );
    assert_eq!(week.most_active_day, date(2024, 1, 2));
    let week = StatisticsCalculator::calculate_weekly_stats(
        &week_of([1, 1, 1, 1, 1, 1, 1]),
        date(2024, 1, 1),
    );
    assert_eq!(week.most_active_day, date(2024, 1, 1));
    let week = StatisticsCalculator::calculate_weekly_stats(
        &week_of([0, 0, 0, 0, 0, 0, 1]),
        date(2024, 1, 1),
    );
    assert_eq!(week.most_active_day, date(2024, 1, 7));
}

#[test]
fn trend_splits_the_week_three_to_four() {
    // The fourth day counts with the later half.
    assert_eq!(trend_of_week([0, 0, 0, 1, 0, 0, 0]), Trend::Up);
    assert_eq!(trend_of_week([0, 0, 1, 0, 0, 0, 0]), Trend::Down);
    assert_eq!(trend_of_week([1, 0, 0, 0, 0, 0, 0]), Trend::Down);
    assert_eq!(trend_of_week([0, 0, 0, 0, 0, 0, 1]), Trend::Up);
    assert_eq!(trend_of_week([2, 2, 2, 6, 0, 0, 0]), Trend::Stable);
}

#[test]
fn trend_of_equal_days() {
    assert_eq!(trend_of_week([0, 0, 0, 0, 0, 0, 0]), Trend::Stable);
    assert_eq!(trend_of_week([1, 1, 1, 1, 1, 1, 1]), Trend::Up);
    assert_eq!(trend_of_week([5, 5, 5, 5, 5, 5, 5]), Trend::Up);
}

#[test]
fn trend_threshold_is_a_tenth_rounded_down() {
    // Earlier half 10, threshold 1.
    assert_eq!(trend_of_week([4, 3, 3, 11, 0, 0, 0]), Trend::Stable);
    assert_eq!(trend_of_week([4, 3, 3, 12, 0, 0, 0]), Trend::Up);
    assert_eq!(trend_of_week([4, 3, 3, 9, 0, 0, 0]), Trend::Stable);
    assert_eq!(trend_of_week([4, 3, 3, 8, 0, 0, 0]), Trend::Down);
    // Earlier half 9, threshold 0.
    assert_eq!(trend_of_week([3, 3, 3, 9, 0, 0, 0]), Trend::Stable);
    assert_eq!(trend_of_week([3, 3, 3, 10, 0, 0, 0]), Trend::Up);
    assert_eq!(trend_of_week([3, 3, 3, 8, 0, 0, 0]), Trend::Down);
    // Earlier half 29, threshold 2.
    assert_eq!(trend_of_week([10, 10, 9, 31, 0, 0, 0]), Trend::Stable);
    assert_eq!(trend_of_week([10, 10, 9, 32, 0, 0, 0]), Trend::Up);
    assert_eq!(trend_of_week([10, 10, 9, 27, 0, 0, 0]), Trend::Stable);
    assert_eq!(trend_of_week([10, 10, 9, 26, 0, 0, 0]), Trend::Down);
}

#[test]
fn trend_of_short_runs() {
    assert_eq!(StatisticsCalculator::calculate_trend(&[]), Trend::Stable);
    assert_eq!(StatisticsCalculator::calculate_trend(&days_with(&[9])), Trend::Stable);
    assert_eq!(StatisticsCalculator::calculate_trend(&days_with(&[0, 1])), Trend::Up);
    assert_eq!(StatisticsCalculator::calculate_trend(&days_with(&[1, 0])), Trend::Down);
    assert_eq!(StatisticsCalculator::calculate_trend(&days_with(&[1, 1])), Trend::Stable);
    assert_eq!(StatisticsCalculator::calculate_trend(&days_with(&[20, 22])), Trend::Stable);
    assert_eq!(StatisticsCalculator::calculate_trend(&days_with(&[20, 23])), Trend::Up);
    assert_eq!(StatisticsCalculator::calculate_trend(&days_with(&[5, 1, 3])), Trend::Down);
}

#[test]
fn trend_of_very_large_totals() {
    let big = usize::MAX;
    let trend = |totals: &[usize]| StatisticsCalculator::calculate_trend(&days_with(totals));
    assert_eq!(trend(&[big, big, big, big]), Trend::Stable);
    assert_eq!(trend(&[big, 0, big, big]), Trend::Up);
    assert_eq!(trend(&[big, big, big, 0]), Trend::Down);
}

fn days_from(start: Date, totals: &[usize]) -> Vec<DailyStats> {
    let mut days = days_with(totals);
    for (i, day) in days.iter_mut().enumerate() {
        day.date = Date::from_day_number(start.day_number.wrapping_add(i as i64));
    }
    days
}

#[test]
fn weekly_from_days_takes_seven_days() {
    let start = Date::from_day_number(100);
    let week =
        StatisticsCalculator::weekly_from_days(start, days_with(&[1, 4, 0, 4, 2, 0, 0])).unwrap();
    assert_eq!(week.week_start, start);
    assert_eq!(week.week_end, Date::from_day_number(106));
    assert_eq!(week.total_habits, 11);
    assert_eq!(week.most_active_day, Date::from_day_number(101));
    assert_eq!(week.trend, Trend::Up);
    assert_eq!(week.days.len(), 7);

    assert!(StatisticsCalculator::weekly_from_days(start, days_with(&[1, 2, 3])).is_none());
    assert!(StatisticsCalculator::weekly_from_days(start, Vec::new()).is_none());
    assert!(StatisticsCalculator::weekly_from_days(start, days_with(&[0; 8])).is_none());
}

#[test]
fn weekly_from_days_takes_the_days_of_the_week() {
    let start = Date::from_day_number(100);
    // The days must bear the dates of the week, in their order.
    for other in [99, 101, 107, -100] {
        let elsewhere = Date::from_day_number(other);
        assert!(StatisticsCalculator::weekly_from_days(elsewhere, days_with(&[0; 7])).is_none());
    }
    let mut swapped = days_with(&[1, 2, 3, 4, 5, 6, 7]);
    swapped.swap(2, 3);
    assert!(StatisticsCalculator::weekly_from_days(start, swapped).is_none());
    let mut repeated = days_with(&[0; 7]);
    repeated[6].date = repeated[5].date;
    assert!(StatisticsCalculator::weekly_from_days(start, repeated).is_none());
    let mut first_off = days_with(&[0; 7]);
    first_off[0].date = Date::from_day_number(0);
    assert!(StatisticsCalculator::weekly_from_days(start, first_off).is_none());
}

#[test]
fn weekly_from_days_at_the_limits() {
    let start = Date::from_day_number(100);
    let late = Date::from_day_number(i64::MAX - 5);
    assert!(StatisticsCalculator::weekly_from_days(late, days_from(late, &[0; 7])).is_none());
    let last = Date::from_day_number(i64::MAX - 6);
    let week = StatisticsCalculator::weekly_from_days(last, days_from(last, &[0; 7])).unwrap();
    assert_eq!(week.week_end, Date::from_day_number(i64::MAX));
    assert!(StatisticsCalculator::weekly_from_days(
        start,
        days_with(&[usize::MAX, 1, 0, 0, 0, 0, 0])
    )
    .is_none());
    assert_eq!(
        StatisticsCalculator::weekly_from_days(
            start,
            days_with(&[usize::MAX - 1, 1, 0, 0, 0, 0, 0])
        )
        .unwrap()
        .total_habits,
        usize::MAX
    );
}
