use chrono::DateTime;
use habit_tracker::calendar::Timestamp;
use habit_tracker::intake::{parse_timestamp, read_timestamp, timestamp_or, IntakeError};
use habit_tracker::models::{Category, Habit, HabitInput};

const NOW: Timestamp = Timestamp { seconds: 1_700_000_000, nanos: 123 };

fn input(category: &str, timestamp: Option<&str>) -> HabitInput {
    HabitInput {
        name: "Morning run".to_string(),
        category: category.to_string(),
        timestamp: timestamp.map(|t| t.to_string()),
        compliance_level: Some(90),
        notes: Some("5 km".to_string()),
    }
}

#[test]
fn timestamps_are_read_as_rfc3339() {
    assert_eq!(
        read_timestamp("2024-01-15T10:30:00+07:00", NOW),
        Timestamp { seconds: 1_705_289_400, nanos: 0 }
    );
    assert_eq!(
        read_timestamp("2024-01-15T03:30:00Z", NOW),
        Timestamp { seconds: 1_705_289_400, nanos: 0 }
    );
    assert_eq!(
        read_timestamp("1970-01-01T00:00:00.5+00:00", NOW),
        Timestamp { seconds: 0, nanos: 500_000_000 }
    );
    assert_eq!(
        read_timestamp("1969-12-31T23:59:59-00:00", NOW),
        Timestamp { seconds: -1, nanos: 0 }
    );
    for text in ["2024-02-29T12:00:00Z", "2023-06-01T00:00:00.123456789-03:30"] {
        let theirs = DateTime::parse_from_rfc3339(text).unwrap();
        let ours = read_timestamp(text, NOW);
        assert_eq!(ours.seconds, theirs.timestamp());
        assert_eq!(ours.nanos, theirs.timestamp_subsec_nanos());
    }
}

#[test]
fn timestamps_fall_back() {
    let broken = [
        "",
        "yesterday",
        "2024-01-15",
        "2024-01-15 10:30:00",
        "2023-02-29T00:00:00Z",
        "2024-01-15T10:30:00",
    ];
    for text in broken {
        assert_eq!(read_timestamp(text, NOW), NOW, "{text}");
    }
    assert_eq!(timestamp_or(None, NOW), NOW);
    let other = Timestamp { seconds: 5, nanos: 6 };
    assert_eq!(timestamp_or(Some(other), NOW), other);
}

#[test]
fn timestamps_are_parsed_or_not() {
    assert_eq!(
        parse_timestamp("2024-01-15T10:30:00+07:00"),
        Some(Timestamp { seconds: 1_705_289_400, nanos: 0 })
    );
    assert_eq!(
        parse_timestamp("2016-12-31T23:59:60Z"),
        Some(Timestamp { seconds: 1_483_228_799, nanos: 1_000_000_000 })
    );
    for text in ["", "yesterday", "2024-01-15", "2024-13-01T00:00:00Z", " 2024-01-15T03:30:00Z"] {
        assert_eq!(parse_timestamp(text), None, "{text}");
    }
}

#[test]
fn habit_from_input() {
    let habit = Habit::from_input(
        input("Exercise", Some("2024-01-15T10:30:00+07:00")),
        "abc".to_string(),
        NOW,
    )
    .unwrap();
    assert_eq!(habit.id, "abc");
    assert_eq!(habit.name, "Morning run");
    assert_eq!(habit.category, Category::Exercise);
    assert_eq!(habit.timestamp, Timestamp { seconds: 1_705_289_400, nanos: 0 });
    assert_eq!(habit.compliance_level, Some(90));
    assert_eq!(habit.notes.as_deref(), Some("5 km"));
}

#[test]
fn habit_from_input_without_a_timestamp() {
    let habit = Habit::from_input(input("gardening", None), "1".to_string(), NOW).unwrap();
    assert_eq!(habit.id, "1");
    assert_eq!(habit.category, Category::Other);
    assert_eq!(habit.timestamp, NOW);
    assert_eq!(habit.compliance_level, Some(90));
}

#[test]
fn habit_from_input_with_an_unreadable_timestamp() {
    for text in ["yesterday", "", "not a time", "2024-01-15", "2023-02-29T00:00:00Z"] {
        let refused = Habit::from_input(input("SLEEP", Some(text)), "2".to_string(), NOW);
        match refused {
            Err(IntakeError::InvalidTimestamp(kept)) => assert_eq!(kept, text),
            Ok(habit) => panic!("{text} was taken as {:?}", habit.timestamp),
        }
    }
    let error = Habit::from_input(input("sleep", Some("yesterday")), "3".to_string(), NOW)
        .unwrap_err();
    assert_eq!(error.message(), "Invalid timestamp: yesterday");
    assert_eq!(IntakeError::InvalidTimestamp(String::new()).message(), "Invalid timestamp: ");
}

#[test]
fn habit_with_a_timestamp_that_was_read() {
    let read = Timestamp { seconds: 42, nanos: 7 };
    let habit =
        Habit::with_timestamp(input("health", Some("anything")), "a".to_string(), Some(read), NOW)
            .unwrap();
    assert_eq!(habit.timestamp, read);
    assert_eq!(habit.category, Category::Health);
    assert_eq!(habit.id, "a");
    assert_eq!(habit.name, "Morning run");
    assert_eq!(habit.notes.as_deref(), Some("5 km"));

    // Without a text there is nothing to read: the event is stamped now.
    let habit = Habit::with_timestamp(input("health", None), "b".to_string(), None, NOW).unwrap();
    assert_eq!(habit.timestamp, NOW);
    let habit =
        Habit::with_timestamp(input("health", None), "c".to_string(), Some(read), NOW).unwrap();
    assert_eq!(habit.timestamp, NOW);

    let refused = Habit::with_timestamp(input("health", Some("soon")), "d".to_string(), None, NOW);
    match refused {
        Err(IntakeError::InvalidTimestamp(kept)) => assert_eq!(kept, "soon"),
        Ok(habit) => panic!("taken as {:?}", habit.timestamp),
    }
}

#[test]
fn habit_from_record() {
    let habit = Habit::from_record(
        "id-1".to_string(),
        "Brush teeth".to_string(),
        "hygiene",
        "2024-03-10T21:15:00+00:00",
        None,
        None,
        NOW,
    );
    assert_eq!(habit.id, "id-1");
    assert_eq!(habit.name, "Brush teeth");
    assert_eq!(habit.category, Category::Hygiene);
    assert_eq!(habit.timestamp, Timestamp { seconds: 1_710_105_300, nanos: 0 });
    assert_eq!(habit.compliance_level, None);
    assert_eq!(habit.notes, None);
    let broken = Habit::from_record(
        "id-2".to_string(),
        "x".to_string(),
        "unknown",
        "garbage",
        Some(3),
        Some("n".to_string()),
        NOW,
    );
    assert_eq!(broken.category, Category::Other);
    assert_eq!(broken.timestamp, NOW);
    assert_eq!(broken.compliance_level, Some(3));
    assert_eq!(broken.notes.as_deref(), Some("n"));
}
