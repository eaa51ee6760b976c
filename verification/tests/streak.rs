use chrono::{Datelike, Utc};
use habit_tracker::calendar::{Date, Timestamp};
use habit_tracker::models::{Category, Habit};
use habit_tracker::statistics::StatisticsCalculator;

fn on(day: Date, second_of_day: i64) -> Habit {
    Habit {
        id: "id".to_string(),
        name: "habit".to_string(),
        category: Category::Other,
        timestamp: Timestamp {
            seconds: (day.day_number - 719_163) * 86_400 + second_of_day,
            nanos: 0,
        },
        compliance_level: None,
        notes: None,
    }
}

fn today() -> Date {
    Date::from_ymd(2024, 3, 15).unwrap()
}

#[test]
fn streak_of_nothing() {
    assert_eq!(StatisticsCalculator::current_streak_on(&[], today()), 0);
    assert_eq!(StatisticsCalculator::get_current_streak(&[]), 0);
}

#[test]
fn streak_of_consecutive_days_ending_today() {
    for n in 1..40i64 {
        let habits: Vec<Habit> =
            (0..n).map(|i| on(today().plus_days(-i), 3_600 * (i % 24))).collect();
        assert_eq!(StatisticsCalculator::current_streak_on(&habits, today()), n as usize);
        let mut shuffled = habits;
        shuffled.reverse();
        shuffled.rotate_left((n / 2) as usize);
        assert_eq!(StatisticsCalculator::current_streak_on(&shuffled, today()), n as usize);
    }
}

#[test]
fn streak_ending_yesterday_still_counts() {
    let habits = vec![
        on(today().plus_days(-1), 0),
        on(today().plus_days(-2), 86_399),
        on(today().plus_days(-3), 10),
    ];
    assert_eq!(StatisticsCalculator::current_streak_on(&habits, today()), 3);
}

#[test]
fn streak_is_lost_after_two_days() {
    let habits = vec![
        on(today().plus_days(-2), 0),
        on(today().plus_days(-3), 0),
        on(today().plus_days(-4), 0),
    ];
    assert_eq!(StatisticsCalculator::current_streak_on(&habits, today()), 0);
    assert_eq!(StatisticsCalculator::current_streak_on(&habits, today().plus_days(-1)), 3);
    assert_eq!(StatisticsCalculator::current_streak_on(&habits, today().plus_days(-2)), 3);
    assert_eq!(StatisticsCalculator::current_streak_on(&habits, today().plus_days(30)), 0);
}

#[test]
fn streak_stops_at_the_first_gap() {
    let habits = vec![
        on(today(), 0),
        on(today().plus_days(-1), 0),
        on(today().plus_days(-3), 0),
        on(today().plus_days(-4), 0),
        on(today().plus_days(-5), 0),
    ];
    assert_eq!(StatisticsCalculator::current_streak_on(&habits, today()), 2);
}

#[test]
fn streak_counts_days_not_events() {
    let habits = vec![
        on(today(), 0),
        on(today(), 40_000),
        on(today(), 86_399),
        on(today().plus_days(-1), 5),
        on(today().plus_days(-1), 6),
    ];
    assert_eq!(StatisticsCalculator::current_streak_on(&habits, today()), 2);
}

#[test]
fn streak_with_an_event_after_today() {
    let habits = vec![on(today().plus_days(1), 0), on(today(), 0), on(today().plus_days(-1), 0)];
    // The latest active day is tomorrow: seen from today there is no streak.
    assert_eq!(StatisticsCalculator::current_streak_on(&habits, today()), 0);
    assert_eq!(StatisticsCalculator::current_streak_on(&habits, today().plus_days(1)), 3);
    assert_eq!(StatisticsCalculator::current_streak_on(&habits, today().plus_days(2)), 3);
}

#[test]
fn streak_at_the_first_day_number() {
    let first = Timestamp { seconds: i64::MIN, nanos: 0 };
    let habit = Habit {
        id: String::new(),
        name: String::new(),
        category: Category::Other,
        timestamp: first,
        compliance_level: None,
        notes: None,
    };
    let day = first.date();
    assert_eq!(StatisticsCalculator::current_streak_on(&[habit.clone()], day), 1);
    assert_eq!(StatisticsCalculator::current_streak_on(&[habit.clone()], day.plus_days(1)), 1);
    assert_eq!(StatisticsCalculator::current_streak_on(&[habit.clone()], day.plus_days(2)), 0);
    let earliest = Date::from_day_number(i64::MIN);
    assert_eq!(StatisticsCalculator::current_streak_on(&[habit], earliest), 0);
}

#[test]
fn streak_as_of_now() {
    let now = Utc::now();
    let now_day = Date::from_day_number(now.date_naive().num_days_from_ce() as i64);
    let habits: Vec<Habit> = (0..5).map(|i| on(now_day.plus_days(-i), 0)).collect();
    let streak = StatisticsCalculator::get_current_streak(&habits);
    // Should midnight pass between the two readings of the clock, the latest
    // event is of yesterday and the streak stands.
    assert_eq!(streak, 5);
    let old: Vec<Habit> = (10..15).map(|i| on(now_day.plus_days(-i), 0)).collect();
    assert_eq!(StatisticsCalculator::get_current_streak(&old), 0);
}
