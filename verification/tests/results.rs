use cliphist::results::make_description;
use cliphist::{compose, ClipboardEntry, CliphistError, Config, ScoredEntry, SelectableResult, OPTION_ERROR, OPTION_WIPE};

fn entry(index: u64, content: &str) -> ClipboardEntry {
    ClipboardEntry { index, content: content.to_string() }
}

fn wipe(show: bool) -> SelectableResult {
    SelectableResult {
        title: "<i>** Wipe Clipboard History</i>".to_string(),
        description: if show { Some("clear history".to_string()) } else { None },
        use_pango: true,
        icon: None,
        id: Some(u64::MAX - 1),
    }
}

fn shown(index: u64, content: &str, show: bool) -> SelectableResult {
    SelectableResult {
        title: content.to_string(),
        description: if show { Some(format!("Entry {}", index)) } else { None },
        use_pango: false,
        icon: None,
        id: Some(index),
    }
}

#[test]
fn reserved_identifiers() {
    assert_eq!(OPTION_ERROR, u64::MAX);
    assert_eq!(OPTION_WIPE, u64::MAX - 1);
}

#[test]
fn description_only_where_shown() {
    assert_eq!(make_description("hello", true), Some("hello".to_string()));
    assert_eq!(make_description("hello", false), None);
    assert_eq!(make_description("", true), Some(String::new()));
}

#[test]
fn result_of_an_entry() {
    let e = entry(1203, "some <b>text</b>");
    assert_eq!(SelectableResult::for_entry(&e, true), shown(1203, "some <b>text</b>", true));
    assert_eq!(SelectableResult::for_entry(&e, false), shown(1203, "some <b>text</b>", false));
    let zero = entry(0, "");
    assert_eq!(SelectableResult::for_entry(&zero, true).description, Some("Entry 0".to_string()));
}

#[test]
fn wipe_slot() {
    assert_eq!(SelectableResult::wipe(true), wipe(true));
    assert_eq!(SelectableResult::wipe(false), wipe(false));
}

#[test]
fn error_slot() {
    let err = CliphistError::CommandFailed("cliphist: not found".to_string());
    assert_eq!(
        SelectableResult::error(&err, true),
        SelectableResult {
            title: "Error: Command failed: cliphist: not found".to_string(),
            description: Some("Error encountered calling cliphist".to_string()),
            use_pango: false,
            icon: Some("dialog-error".to_string()),
            id: Some(u64::MAX),
        }
    );
    let err = CliphistError::ParseError("Invalid index: x".to_string());
    assert_eq!(
        SelectableResult::error(&err, false),
        SelectableResult {
            title: "Error: Parse error: Invalid index: x".to_string(),
            description: None,
            use_pango: false,
            icon: Some("dialog-error".to_string()),
            id: Some(u64::MAX),
        }
    );
}

#[test]
fn sorting_precedes_truncation() {
    let entries = vec![entry(1, "five"), entry(2, "one"), entry(3, "nine"), entry(4, "three")];
    let scores = [5i64, 1, 9, 3];
    let config = Config { max_entries: 2, show_description: true };
    let scored: Vec<ScoredEntry> =
        scores.iter().zip(entries.iter()).map(|(&score, entry)| ScoredEntry { score, entry }).collect();
    assert_eq!(compose(scored, &config), vec![shown(3, "nine", true), shown(1, "five", true), wipe(true)]);
    let reversed: Vec<ScoredEntry> =
        scores.iter().zip(entries.iter()).rev().map(|(&score, entry)| ScoredEntry { score, entry }).collect();
    assert_eq!(compose(reversed, &config), vec![shown(3, "nine", true), shown(1, "five", true), wipe(true)]);
}

#[test]
fn wipe_slot_follows_zero_one_or_many() {
    let config = Config { max_entries: 10, show_description: false };
    assert_eq!(compose(vec![], &config), vec![wipe(false)]);
    let a = entry(8, "a");
    let b = entry(9, "b");
    assert_eq!(compose(vec![ScoredEntry { score: 0, entry: &a }], &config), vec![shown(8, "a", false), wipe(false)]);
    assert_eq!(
        compose(vec![ScoredEntry { score: 0, entry: &a }, ScoredEntry { score: 0, entry: &b }], &config),
        vec![shown(9, "b", false), shown(8, "a", false), wipe(false)]
    );
}

#[test]
fn wipe_slot_takes_no_place_of_an_entry() {
    let a = entry(8, "a");
    let b = entry(9, "b");
    let scored = vec![ScoredEntry { score: 0, entry: &a }, ScoredEntry { score: 0, entry: &b }];
    let two = Config { max_entries: 2, show_description: false };
    assert_eq!(compose(scored.clone(), &two), vec![shown(9, "b", false), shown(8, "a", false), wipe(false)]);
    let one = Config { max_entries: 1, show_description: false };
    assert_eq!(compose(scored.clone(), &one), vec![shown(9, "b", false), wipe(false)]);
    let none = Config { max_entries: 0, show_description: false };
    assert_eq!(compose(scored.clone(), &none), vec![wipe(false)]);
    let all = Config { max_entries: usize::MAX, show_description: false };
    assert_eq!(compose(scored, &all).len(), 3);
}

#[test]
fn wipe_slot_occurs_once() {
    let entries: Vec<ClipboardEntry> = (0..30).map(|i| entry(i, "x")).collect();
    let scored: Vec<ScoredEntry> = entries.iter().map(|entry| ScoredEntry { score: 1, entry }).collect();
    let results = compose(scored, &Config { max_entries: 10, show_description: true });
    assert_eq!(results.len(), 11);
    assert_eq!(results.iter().filter(|r| r.id == Some(OPTION_WIPE)).count(), 1);
    assert_eq!(results.last().unwrap().id, Some(OPTION_WIPE));
    assert!(results.iter().all(|r| r.id != Some(OPTION_ERROR)));
}
