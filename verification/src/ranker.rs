//! Scoring a content against a query.
//!
//! The score comes from the skim fuzzy matcher. Its algorithm is not
//! restated here: the score it gives is a function of the two texts and is
//! known to this library by name only.

use fuzzy_matcher::skim::SkimMatcherV2;
use fuzzy_matcher::FuzzyMatcher;
use vstd::prelude::*;
use vstd::utf8::encode_utf8;

verus! {

/// The longest text, in bytes of UTF-8, that is handed to the matcher. The
/// matcher adds up its scores in 32-bit integers, at most 32 points for each
/// character of the pattern and one point of penalty for each character of
/// the choice. A text has no more characters than bytes, so up to this
/// length those sums stay far inside that range.
pub const MAX_MATCH_BYTES: usize = 0x100_0000;

/// The length of `text` in bytes of UTF-8.
pub open spec fn utf8_len(text: Seq<char>) -> nat {
    encode_utf8(text).len()
}

/// The score that the skim matcher, version 2 with its default settings,
/// gives `choice` for `pattern`, or `None` where `pattern` is no subsequence
/// of `choice` (letters compared without regard to ASCII case unless
/// `pattern` holds an upper-case ASCII letter).
pub uninterp spec fn skim_score(choice: Seq<char>, pattern: Seq<char>) -> Option<i64>;

/// Calls `SkimMatcherV2::default()` and, on that matcher,
/// `FuzzyMatcher::fuzzy_match`. Trusted: the call returns the matcher's
/// score of `choice` for `pattern`, which depends on the two texts alone.
#[verifier::external_body]
fn skim_fuzzy_match(choice: &str, pattern: &str) -> (score: Option<i64>)
    requires
        utf8_len(choice@) <= MAX_MATCH_BYTES,
        utf8_len(pattern@) <= MAX_MATCH_BYTES,
    ensures
        score == skim_score(choice@, pattern@),
{
    SkimMatcherV2::default().fuzzy_match(choice, pattern)
}

/// Whether `query` and `content` can be scored: an empty query needs no
/// matcher, and any other pair must be within the matcher's length limit.
pub open spec fn scorable(query: Seq<char>, content: Seq<char>) -> bool {
    query.len() > 0 ==> utf8_len(query) <= MAX_MATCH_BYTES && utf8_len(content)
        <= MAX_MATCH_BYTES
}

/// The score of `content` for `query`; `None` means that it does not match.
/// The empty query matches every content with score 0. Any other query has
/// the score that the matcher gives.
pub open spec fn rank_spec(query: Seq<char>, content: Seq<char>) -> Option<i64> {
    if query.len() == 0 {
        Some(0i64)
    } else {
        skim_score(content, query)
    }
}

/// Tells whether `query` and `content` can be scored.
pub fn is_scorable(query: &str, content: &str) -> (ok: bool)
    ensures
        ok == scorable(query@, content@),
{
    query.is_empty() || (query.as_bytes().len() <= MAX_MATCH_BYTES && content.as_bytes().len()
        <= MAX_MATCH_BYTES)
}

/// Scores `content` against `query`. A larger score is a better match.
pub fn rank(query: &str, content: &str) -> (score: Option<i64>)
    requires
        scorable(query@, content@),
    ensures
        score == rank_spec(query@, content@),
{
    if query.is_empty() {
        Some(0)
    } else {
        skim_fuzzy_match(content, query)
    }
}

} // verus!
