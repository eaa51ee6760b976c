use habit_tracker::models::{get_categories, Category};

const ALL: [Category; 6] = [
    Category::Health,
    Category::Productivity,
    Category::Hygiene,
    Category::Exercise,
    Category::Sleep,
    Category::Other,
];

#[test]
fn category_names() {
    assert_eq!(Category::Health.as_str(), "health");
    assert_eq!(Category::Productivity.as_str(), "productivity");
    assert_eq!(Category::Hygiene.as_str(), "hygiene");
    assert_eq!(Category::Exercise.as_str(), "exercise");
    assert_eq!(Category::Sleep.as_str(), "sleep");
    assert_eq!(Category::Other.as_str(), "other");
}

#[test]
fn category_round_trip() {
    for c in ALL {
        assert_eq!(Category::from_str(c.as_str()), c);
    }
}

#[test]
fn category_parsing_ignores_case() {
    assert_eq!(Category::from_str("HEALTH"), Category::Health);
    assert_eq!(Category::from_str("HeAlTh"), Category::Health);
    assert_eq!(Category::from_str("Productivity"), Category::Productivity);
    assert_eq!(Category::from_str("hYGIENE"), Category::Hygiene);
    assert_eq!(Category::from_str("EXERCISE"), Category::Exercise);
    assert_eq!(Category::from_str("Sleep"), Category::Sleep);
    assert_eq!(Category::from_str("OTHER"), Category::Other);
}

#[test]
fn category_parsing_defaults_to_other() {
    assert_eq!(Category::from_str(""), Category::Other);
    assert_eq!(Category::from_str("health "), Category::Other);
    assert_eq!(Category::from_str(" sleep"), Category::Other);
    assert_eq!(Category::from_str("reading"), Category::Other);
    assert_eq!(Category::from_str("healthy"), Category::Other);
    assert_eq!(Category::from_str("olahraga"), Category::Other);
    assert_eq!(Category::from_str("\u{5065}\u{5eb7}"), Category::Other);
}

#[test]
fn category_from_lowercase_is_exact() {
    assert_eq!(Category::from_lowercase("sleep"), Category::Sleep);
    assert_eq!(Category::from_lowercase("Sleep"), Category::Other);
    assert_eq!(Category::from_lowercase("SLEEP"), Category::Other);
}

#[test]
fn categories_are_listed_in_order() {
    let names = get_categories();
    assert_eq!(
        names,
        vec!["health", "productivity", "hygiene", "exercise", "sleep", "other"]
    );
    for (name, c) in names.iter().zip(ALL) {
        assert_eq!(name, c.as_str());
        assert_eq!(Category::from_str(name), c);
    }
}
