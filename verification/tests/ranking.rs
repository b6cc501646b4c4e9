use cliphist::ranker::{is_scorable, rank, MAX_MATCH_BYTES};
use cliphist::ranking::rank_entries;
use cliphist::{ClipboardEntry, ScoredEntry};

fn entry(index: u64, content: &str) -> ClipboardEntry {
    ClipboardEntry { index, content: content.to_string() }
}

fn order(scores: &[(i64, u64)]) -> Vec<(i64, u64)> {
    let entries: Vec<ClipboardEntry> = scores.iter().map(|&(_, index)| entry(index, "x")).collect();
    let scored: Vec<ScoredEntry> = scores
        .iter()
        .zip(entries.iter())
        .map(|(&(score, _), entry)| ScoredEntry { score, entry })
        .collect();
    rank_entries(scored).iter().map(|s| (s.score, s.entry.index)).collect()
}

#[test]
fn empty_query_scores_zero() {
    assert_eq!(rank("", "anything"), Some(0));
    assert_eq!(rank("", ""), Some(0));
    assert_eq!(rank("", "日本語"), Some(0));
}

#[test]
fn query_that_is_no_subsequence_does_not_match() {
    assert_eq!(rank("foo", "bar"), None);
    assert_eq!(rank("foo", ""), None);
    assert_eq!(rank("oof", "foo"), None);
    assert_eq!(rank("FOO", "foobar"), None);
}

#[test]
fn matcher_scores_are_those_of_skim() {
    assert_eq!(rank("foo", "foobar"), Some(71));
    assert_eq!(rank("foo", "foo"), Some(71));
    assert_eq!(rank("fb", "foobar"), Some(42));
    assert_eq!(rank("foo", "FOOBAR"), Some(65));
    assert_eq!(rank("ab", "a--b"), Some(49));
    assert_eq!(rank("ab", "xab"), Some(35));
}

#[test]
fn closer_match_scores_higher() {
    let tight = rank("ab", "ab").unwrap();
    let loose = rank("ab", "a--b").unwrap();
    let late = rank("ab", "xab").unwrap();
    assert!(tight > loose);
    assert!(loose > late);
}

#[test]
fn same_texts_same_score() {
    assert_eq!(rank("clip", "clipboard history"), rank("clip", "clipboard history"));
}

#[test]
fn scorable_up_to_the_length_limit() {
    assert!(is_scorable("q", "content"));
    assert!(is_scorable("", "content"));
    let long = "a".repeat(MAX_MATCH_BYTES + 1);
    assert!(is_scorable("", &long));
    assert!(!is_scorable("a", &long));
    assert!(!is_scorable(&long, "a"));
    let exact = "a".repeat(MAX_MATCH_BYTES);
    assert!(is_scorable("a", &exact));
}

#[test]
fn better_score_comes_first() {
    assert_eq!(order(&[(5, 1), (1, 2), (9, 3), (3, 4)]), vec![(9, 3), (5, 1), (3, 4), (1, 2)]);
    assert_eq!(order(&[(-5, 1), (0, 2), (i64::MIN, 3), (i64::MAX, 4)]), vec![(i64::MAX, 4), (0, 2), (-5, 1), (i64::MIN, 3)]);
}

#[test]
fn larger_index_comes_first_among_equal_scores() {
    assert_eq!(order(&[(7, 1), (7, 9), (7, 4)]), vec![(7, 9), (7, 4), (7, 1)]);
    assert_eq!(order(&[(7, 1), (8, 0), (7, u64::MAX), (8, 5)]), vec![(8, 5), (8, 0), (7, u64::MAX), (7, 1)]);
}

#[test]
fn ranking_of_nothing_and_of_one() {
    assert_eq!(order(&[]), vec![]);
    assert_eq!(order(&[(3, 3)]), vec![(3, 3)]);
}

#[test]
fn ranking_keeps_every_element() {
    let input = [(2, 5), (2, 5), (1, 5), (2, 6), (1, 5), (3, 0)];
    let mut got = order(&input);
    assert_eq!(got, vec![(3, 0), (2, 6), (2, 5), (2, 5), (1, 5), (1, 5)]);
    let mut want = input.to_vec();
    got.sort();
    want.sort();
    assert_eq!(got, want);
}

#[test]
fn elements_equal_in_score_and_index_keep_their_order() {
    let first = entry(4, "first");
    let second = entry(4, "second");
    let third = entry(4, "third");
    let scored = vec![
        ScoredEntry { score: 1, entry: &first },
        ScoredEntry { score: 2, entry: &second },
        ScoredEntry { score: 1, entry: &third },
        ScoredEntry { score: 2, entry: &first },
    ];
    let contents: Vec<&str> = rank_entries(scored).iter().map(|s| s.entry.content.as_str()).collect();
    assert_eq!(contents, vec!["second", "first", "first", "third"]);
}

#[test]
fn ranking_agrees_with_a_stable_sort() {
    let input: Vec<(i64, u64)> = (0..200u64).map(|i| (((i * 37) % 11) as i64 - 5, (i * 53) % 17)).collect();
    let mut want = input.clone();
    want.sort_by(|a, b| b.0.cmp(&a.0).then_with(|| b.1.cmp(&a.1)));
    assert_eq!(order(&input), want);
}

#[test]
fn entry_outranks_by_score_then_index() {
    let low = entry(1, "x");
    let high = entry(2, "x");
    let a = ScoredEntry { score: 5, entry: &low };
    let b = ScoredEntry { score: 4, entry: &high };
    let c = ScoredEntry { score: 5, entry: &high };
    assert!(a.outranks(&b));
    assert!(!b.outranks(&a));
    assert!(c.outranks(&a));
    assert!(!a.outranks(&c));
    assert!(!a.outranks(&a));
}
