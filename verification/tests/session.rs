use cliphist::state::SearchState;
use cliphist::{ClipboardEntry, CliphistError, Config};

fn failed(text: &str) -> CliphistError {
    CliphistError::CommandFailed(text.to_string())
}

#[test]
fn default_settings() {
    assert_eq!(Config::default(), Config { max_entries: 10, show_description: true });
    assert_eq!(Config::or_default(None), Config { max_entries: 10, show_description: true });
    let loaded = Config { max_entries: 3, show_description: false };
    assert_eq!(Config::or_default(Some(loaded)), loaded);
}

#[test]
fn session_does_not_start_on_reserved_indices() {
    let entries = vec![
        ClipboardEntry { index: 5, content: "five".to_string() },
        ClipboardEntry { index: u64::MAX - 1, content: "looks like the wipe".to_string() },
        ClipboardEntry { index: u64::MAX, content: "looks like the error".to_string() },
    ];
    let state = SearchState::new(Ok(entries), None);
    assert_eq!(
        state.history,
        Err(CliphistError::ParseError("Invalid index: 18446744073709551614".to_string()))
    );
    let state = SearchState::new(
        Ok(vec![ClipboardEntry { index: u64::MAX, content: "x".to_string() }]),
        None,
    );
    assert_eq!(
        state.history,
        Err(CliphistError::ParseError("Invalid index: 18446744073709551615".to_string()))
    );
    let largest = vec![ClipboardEntry { index: u64::MAX - 2, content: "fine".to_string() }];
    let state = SearchState::new(Ok(largest.clone()), None);
    assert_eq!(state.history, Ok(largest));
}

#[test]
fn snapshot_of_a_session() {
    let state = SearchState::new(Err(failed("x")), None);
    assert_eq!(state.history, Err(failed("x")));
    assert_eq!(state.config, Config::default());
    let loaded = Config { max_entries: 1, show_description: false };
    let state = SearchState::new(Ok(vec![]), Some(loaded));
    assert_eq!(state.history, Ok(vec![]));
    assert_eq!(state.config, loaded);
}
