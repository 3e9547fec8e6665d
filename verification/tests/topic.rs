use pubsub::topic::Filter;
use pubsub::topic::FilterLevel;
use pubsub::topic::Name;

fn name_levels(text: &str, steps: usize) -> Vec<Option<String>> {
    let mut cursor = Name::new(text).unwrap().into_iter();
    let mut levels = Vec::new();
    for _ in 0..steps {
        assert!(cursor.on_char_boundary());
        levels.push(cursor.next().map(|level| level.as_str().to_string()));
    }
    levels
}

fn filter_levels(text: &str, steps: usize) -> Vec<Option<String>> {
    let mut cursor = Filter::new(text).unwrap().into_iter();
    let mut levels = Vec::new();
    for _ in 0..steps {
        assert!(cursor.on_char_boundary());
        levels.push(cursor.next().map(|level| match level {
            FilterLevel::Name(level) => level.as_str().to_string(),
            FilterLevel::Wildcard => "<one>".to_string(),
            FilterLevel::WildMulti => "<all>".to_string(),
        }));
    }
    levels
}

fn some(levels: &[&str]) -> Vec<Option<String>> {
    levels.iter().map(|level| Some(level.to_string())).collect()
}

#[test]
fn names_are_accepted() {
    for text in ["a", "sport/tennis/player1", "/", "//", "a//b", " ", "caf\u{e9}/\u{65e5}\u{672c}"] {
        let name = Name::new(text).unwrap();
        assert_eq!(name.as_str(), text);
    }
}

#[test]
fn names_are_refused() {
    for text in ["", "\0", "a\0b", "+", "#", "a/+/b", "a/#", "a+", "#a", "sport/tennis#"] {
        assert!(Name::new(text).is_err(), "{:?}", text);
    }
}

#[test]
fn filters_are_accepted() {
    for text in [
        "a", "sport/tennis/player1", "/", "//", "#", "+", "a/#", "/#", "+/+", "a/+/b", "+/a/#",
        "+/#", "a//+", "caf\u{e9}/+",
    ] {
        let filter = Filter::new(text).unwrap();
        assert_eq!(filter.as_str(), text);
    }
}

#[test]
fn filters_are_refused() {
    for text in [
        "", "\0", "a\0", "\0a", "a\0b", "a#", "#a", "#/a", "a/#/b", "a/b#", "##", "#/#", "a+",
        "+a", "a/+b", "a/b+/c", "++", "+#", "#+",
    ] {
        assert!(Filter::new(text).is_err(), "{:?}", text);
    }
}

#[test]
fn equal_texts_make_equal_names() {
    let long = "a/rather/long/topic/name/that/does/not/fit/inline";
    assert_eq!(Name::new(long).unwrap(), Name::new(long).unwrap());
    assert_eq!(Name::new("a/b").unwrap(), Name::new("a/b").unwrap().clone());
    assert_ne!(Name::new("a/b").unwrap(), Name::new("a/c").unwrap());
    assert!(Name::new("a/b").unwrap() < Name::new("a/c").unwrap());
    assert_eq!(Filter::new("a/+").unwrap(), Filter::new("a/+").unwrap().clone());
    assert_ne!(Filter::new("a/+").unwrap(), Filter::new("a/#").unwrap());
}

#[test]
fn cursor_of_an_empty_level_yields_it() {
    assert_eq!(name_levels("/", 1), some(&[""]));
    assert_eq!(filter_levels("/", 1), some(&[""]));
}

#[test]
fn cursor_yields_the_first_level_then_the_level_after_its_separator() {
    assert_eq!(name_levels("a/b", 2), some(&["a", "b"]));
    assert_eq!(name_levels("sport/tennis", 1), some(&["sport"]));
    assert_eq!(filter_levels("a/b", 2), some(&["a", "b"]));
}

#[test]
fn cursor_stays_on_the_last_level() {
    assert_eq!(name_levels("ab", 3), some(&["ab", "ab", "ab"]));
    assert_eq!(name_levels("a/b", 4), some(&["a", "b", "b", "b"]));
    assert_eq!(filter_levels("a/#", 4), some(&["a", "<all>", "<all>", "<all>"]));
}

#[test]
fn cursor_moves_by_the_length_of_the_level_it_yielded() {
    // After "a" the cursor stands at 2; after "b", found there, at 2 again.
    assert_eq!(name_levels("a/b/c", 3), some(&["a", "b", "b"]));
    // After "ab" the cursor stands at 3; after "cd", found there, at 3 again.
    assert_eq!(name_levels("ab/cd/ef", 3), some(&["ab", "cd", "cd"]));
    assert_eq!(filter_levels("+/a/#", 3), some(&["<one>", "a", "a"]));
}

#[test]
fn cursor_ends_where_a_separator_ends_the_text() {
    assert_eq!(name_levels("a/", 3), vec![Some("a".to_string()), None, None]);
    assert_eq!(filter_levels("+/", 3), vec![Some("<one>".to_string()), None, None]);
}

#[test]
fn filter_levels_are_told_apart() {
    let mut cursor = Filter::new("+").unwrap().iter();
    assert_eq!(cursor.next(), Some(FilterLevel::Wildcard));
    let mut cursor = Filter::new("#").unwrap().iter();
    assert_eq!(cursor.next(), Some(FilterLevel::WildMulti));
    let mut cursor = Filter::new("a").unwrap().iter();
    match cursor.next() {
        Some(FilterLevel::Name(level)) => assert_eq!(level.as_str(), "a"),
        other => panic!("{:?}", other),
    }
}

#[test]
fn cursor_off_a_character_boundary_says_so() {
    // "\u{e9}" takes two bytes: after the level "a\u{e9}" the cursor stands at
    // 4, after "b" at 2, in the middle of that character.
    let mut cursor = Name::new("a\u{e9}/b/c").unwrap().iter();
    assert!(cursor.on_char_boundary());
    assert_eq!(cursor.next().unwrap().as_str(), "a\u{e9}");
    assert!(cursor.on_char_boundary());
    assert_eq!(cursor.next().unwrap().as_str(), "b");
    assert!(!cursor.on_char_boundary());
}
