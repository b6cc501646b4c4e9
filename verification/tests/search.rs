use cliphist::search::{are_scorable, is_searchable, score_entries};
use cliphist::{
    dispatch, get_matches, parse_history, search, Action, ClipboardEntry, CliphistError, Config,
    SearchState, OPTION_ERROR, OPTION_WIPE,
};

fn entry(index: u64, content: &str) -> ClipboardEntry {
    ClipboardEntry { index, content: content.to_string() }
}

fn state(entries: Vec<ClipboardEntry>, max_entries: usize) -> SearchState {
    SearchState { history: Ok(entries), config: Config { max_entries, show_description: true } }
}

fn ids(input: &str, state: &SearchState) -> Vec<u64> {
    get_matches(input, state).iter().map(|r| r.id.unwrap()).collect()
}

#[test]
fn end_to_end() {
    let history = parse_history("3\tfoo\n1\tbar\n7\tfoobar");
    let state = SearchState::new(history, Some(Config { max_entries: 10, show_description: true }));
    let results = get_matches("foo", &state);
    assert_eq!(results.len(), 3);
    assert_eq!(results[0].id, Some(7));
    assert_eq!(results[0].title, "foobar");
    assert_eq!(results[0].description, Some("Entry 7".to_string()));
    assert!(!results[0].use_pango);
    assert_eq!(results[0].icon, None);
    assert_eq!(results[1].id, Some(3));
    assert_eq!(results[1].title, "foo");
    assert_eq!(results[1].description, Some("Entry 3".to_string()));
    assert_eq!(results[2].id, Some(OPTION_WIPE));
    assert_eq!(results[2].title, "<i>** Wipe Clipboard History</i>");
    assert_eq!(results[2].description, Some("clear history".to_string()));
    assert!(results[2].use_pango);
}

#[test]
fn empty_query_lists_everything_by_descending_index() {
    let s = state(vec![entry(3, "c"), entry(10, "j"), entry(1, "a"), entry(7, "g")], 10);
    assert_eq!(ids("", &s), vec![10, 7, 3, 1, OPTION_WIPE]);
}

#[test]
fn empty_query_is_cut_to_max_entries() {
    let s = state(vec![entry(3, "c"), entry(10, "j"), entry(1, "a"), entry(7, "g")], 2);
    assert_eq!(ids("", &s), vec![10, 7, OPTION_WIPE]);
    let s = state((0..25).map(|i| entry(i, "x")).collect(), 10);
    assert_eq!(ids("", &s), vec![24, 23, 22, 21, 20, 19, 18, 17, 16, 15, OPTION_WIPE]);
}

#[test]
fn entries_that_do_not_match_are_dropped() {
    let s = state(vec![entry(1, "alpha"), entry(2, "beta"), entry(3, "gamma")], 10);
    assert_eq!(ids("et", &s), vec![2, OPTION_WIPE]);
    assert_eq!(ids("zzz", &s), vec![OPTION_WIPE]);
}

#[test]
fn better_match_first() {
    let s = state(vec![entry(9, "xab"), entry(1, "ab"), entry(5, "a--b")], 10);
    assert_eq!(ids("ab", &s), vec![1, 5, 9, OPTION_WIPE]);
    let s = state(vec![entry(9, "xab"), entry(1, "ab"), entry(5, "a--b")], 1);
    assert_eq!(ids("ab", &s), vec![1, OPTION_WIPE]);
}

#[test]
fn equal_content_higher_index_first() {
    let s = state(vec![entry(4, "same text"), entry(2, "other"), entry(11, "same text")], 10);
    assert_eq!(ids("same", &s), vec![11, 4, OPTION_WIPE]);
    let by_t = ids("t", &s);
    assert_eq!(by_t.len(), 4);
    let at = |index: u64| by_t.iter().position(|&id| id == index).unwrap();
    assert!(at(11) < at(4));
    let s = state(vec![entry(11, "same text"), entry(4, "same text")], 10);
    assert_eq!(ids("same", &s), vec![11, 4, OPTION_WIPE]);
}

#[test]
fn scores_of_matching_entries() {
    let entries = vec![entry(3, "foo"), entry(1, "bar"), entry(7, "foobar"), entry(2, "fb")];
    let scored: Vec<(i64, u64)> =
        score_entries("fb", &entries).iter().map(|s| (s.score, s.entry.index)).collect();
    assert_eq!(scored, vec![(42, 7), (51, 2)]);
    let all: Vec<(i64, u64)> = score_entries("", &entries).iter().map(|s| (s.score, s.entry.index)).collect();
    assert_eq!(all, vec![(0, 3), (0, 1), (0, 7), (0, 2)]);
}

#[test]
fn failed_history_gives_the_error_slot_alone() {
    let failed = SearchState {
        history: Err(CliphistError::CommandFailed("exit status 1".to_string())),
        config: Config { max_entries: 0, show_description: true },
    };
    for query in ["", "foo", "anything at all"] {
        let results = get_matches(query, &failed);
        assert_eq!(results.len(), 1);
        assert_eq!(results[0].id, Some(OPTION_ERROR));
        assert_eq!(results[0].title, "Error: Command failed: exit status 1");
        assert_eq!(results[0].description, Some("Error encountered calling cliphist".to_string()));
        assert_eq!(results[0].icon, Some("dialog-error".to_string()));
        assert!(!results[0].use_pango);
    }
}

#[test]
fn parse_failure_gives_the_error_slot_alone() {
    let s = SearchState::new(parse_history("3\tfoo\nbroken"), None);
    let results = get_matches("foo", &s);
    assert_eq!(results.len(), 1);
    assert_eq!(results[0].id, Some(OPTION_ERROR));
    assert_eq!(results[0].title, "Error: Parse error: Invalid line format: broken");
}

#[test]
fn descriptions_can_be_switched_off() {
    let s = SearchState {
        history: Ok(vec![entry(5, "five")]),
        config: Config { max_entries: 10, show_description: false },
    };
    let results = get_matches("", &s);
    assert_eq!(results.len(), 2);
    assert_eq!(results[0].description, None);
    assert_eq!(results[1].description, None);
}

#[test]
fn search_is_get_matches_where_searchable() {
    let s = state(vec![entry(3, "foo"), entry(1, "bar"), entry(7, "foobar")], 10);
    assert!(is_searchable("foo", &s));
    assert_eq!(search("foo", &s), Some(get_matches("foo", &s)));
    assert_eq!(search("", &s), Some(get_matches("", &s)));
}

#[test]
fn search_refuses_overlong_text() {
    let long = "a".repeat(cliphist::ranker::MAX_MATCH_BYTES + 1);
    let s = state(vec![entry(3, "foo"), entry(1, &long)], 10);
    assert!(!is_searchable("a", &s));
    assert_eq!(search("a", &s), None);
    assert!(is_searchable("", &s));
    assert_eq!(search("", &s).unwrap().len(), 3);
    let short = state(vec![entry(3, "foo")], 10);
    assert_eq!(search(&long, &short), None);
    let failed = SearchState { history: Err(CliphistError::CommandFailed(String::new())), config: Config::default() };
    assert_eq!(search(&long, &failed).unwrap().len(), 1);
    assert!(are_scorable("a", &[entry(1, "x")].to_vec()));
    assert!(!are_scorable("a", &[entry(1, "x"), entry(2, &long)].to_vec()));
}

#[test]
fn selecting_a_result_acts_on_what_it_stands_for() {
    let s = state(vec![entry(3, "foo"), entry(1, "bar"), entry(7, "foobar")], 10);
    let actions: Vec<Action> = get_matches("foo", &s).iter().map(|r| dispatch(r.id)).collect();
    assert_eq!(actions, vec![Action::Copy(7), Action::Copy(3), Action::Wipe]);
    let failed = SearchState::new(parse_history("broken"), None);
    let actions: Vec<Action> = get_matches("foo", &failed).iter().map(|r| dispatch(r.id)).collect();
    assert_eq!(actions, vec![Action::Nothing]);
}
