//! The order in which scored entries are shown.
//!
//! A better score comes first; among equal scores the larger index comes
//! first. Entries that agree in both keep the order in which they came.

use vstd::prelude::*;
use vstd::seq_lib::{to_multiset_build, to_multiset_contains, to_multiset_insert};
use crate::types::{ClipboardEntry, ClipboardEntryView};

verus! {

/// An entry with the score that a query gave it. It lives only while one
/// result list is being made.
#[derive(Clone, Copy, Debug)]
pub struct ScoredEntry<'a> {
    pub score: i64,
    pub entry: &'a ClipboardEntry,
}

/// What a [`ScoredEntry`] holds, as mathematical values.
pub struct ScoredEntryView {
    pub score: i64,
    pub entry: ClipboardEntryView,
}

impl<'a> View for ScoredEntry<'a> {
    type V = ScoredEntryView;

    open spec fn view(&self) -> ScoredEntryView {
        ScoredEntryView { score: self.score, entry: self.entry@ }
    }
}

/// The views of a sequence of scored entries, in the same order.
pub open spec fn scored_views<'a>(scored: Seq<ScoredEntry<'a>>) -> Seq<ScoredEntryView> {
    Seq::new(scored.len(), |i: int| scored[i]@)
}

/// Whether `a` must be shown before `b`: its score is larger, or the scores
/// are equal and its index is larger.
pub open spec fn outranks(a: ScoredEntryView, b: ScoredEntryView) -> bool {
    a.score > b.score || (a.score == b.score && a.entry.index > b.entry.index)
}

/// Whether no element of `s` must be shown before an earlier one.
pub open spec fn is_ranked(s: Seq<ScoredEntryView>) -> bool {
    forall|i: int, j: int| 0 <= i < j < s.len() ==> !outranks(#[trigger] s[j], #[trigger] s[i])
}

/// Where `x` goes into the ranked sequence `s`: before the elements at the
/// end of `s` that it outranks, and after all others.
pub open spec fn insertion_point(s: Seq<ScoredEntryView>, x: ScoredEntryView) -> int
    decreases s.len(),
{
    if s.len() == 0 || !outranks(x, s.last()) {
        s.len() as int
    } else {
        insertion_point(s.drop_last(), x)
    }
}

/// The elements of `s` in the order in which they are shown. It is `s`
/// sorted by `outranks`, and elements that do not outrank each other stay
/// in the order that they have in `s`.
pub open spec fn ranked(s: Seq<ScoredEntryView>) -> Seq<ScoredEntryView>
    decreases s.len(),
{
    if s.len() == 0 {
        s
    } else {
        let before = ranked(s.drop_last());
        before.insert(insertion_point(before, s.last()), s.last())
    }
}

/// `insertion_point` is within bounds, `x` outranks every element from it
/// on, and does not outrank the element before it.
pub proof fn lemma_insertion_point(s: Seq<ScoredEntryView>, x: ScoredEntryView)
    ensures
        0 <= insertion_point(s, x) <= s.len(),
        forall|k: int| insertion_point(s, x) <= k < s.len() ==> outranks(x, #[trigger] s[k]),
        insertion_point(s, x) > 0 ==> !outranks(x, s[insertion_point(s, x) - 1]),
    decreases s.len(),
{
    if s.len() == 0 || !outranks(x, s.last()) {
    } else {
        let front = s.drop_last();
        lemma_insertion_point(front, x);
        assert forall|k: int| insertion_point(s, x) <= k < s.len() implies outranks(
            x,
            #[trigger] s[k],
        ) by {
            if k < front.len() {
                assert(s[k] == front[k]);
            }
        }
    }
}

/// Ranking neither adds nor drops an element.
pub proof fn lemma_ranked_len(s: Seq<ScoredEntryView>)
    ensures
        ranked(s).len() == s.len(),
    decreases s.len(),
{
    if s.len() > 0 {
        let before = ranked(s.drop_last());
        lemma_ranked_len(s.drop_last());
        lemma_insertion_point(before, s.last());
    }
}

/// Ranking rearranges: it holds each element as often as `s` does.
pub proof fn lemma_ranked_permutes(s: Seq<ScoredEntryView>)
    ensures
        ranked(s).to_multiset() == s.to_multiset(),
    decreases s.len(),
{
    if s.len() > 0 {
        let before = ranked(s.drop_last());
        lemma_ranked_permutes(s.drop_last());
        lemma_insertion_point(before, s.last());
        to_multiset_insert(before, insertion_point(before, s.last()), s.last());
        to_multiset_build(s.drop_last(), s.last());
        assert(s.drop_last().push(s.last()) == s);
    }
}

/// Ranking holds exactly the elements that `s` holds.
pub proof fn lemma_ranked_contains(s: Seq<ScoredEntryView>, x: ScoredEntryView)
    ensures
        ranked(s).contains(x) <==> s.contains(x),
{
    lemma_ranked_permutes(s);
    to_multiset_contains(s, x);
    to_multiset_contains(ranked(s), x);
}

/// In a ranked sequence no element must be shown before an earlier one.
pub proof fn lemma_ranked_is_ranked(s: Seq<ScoredEntryView>)
    ensures
        is_ranked(ranked(s)),
    decreases s.len(),
{
    if s.len() > 0 {
        let before = ranked(s.drop_last());
        let x = s.last();
        let p = insertion_point(before, x);
        let after = before.insert(p, x);
        lemma_ranked_is_ranked(s.drop_last());
        lemma_insertion_point(before, x);
        assert forall|i: int, j: int| 0 <= i < j < after.len() implies !outranks(
            #[trigger] after[j],
            #[trigger] after[i],
        ) by {
            if j < p {
                assert(after[i] == before[i] && after[j] == before[j]);
            } else if j == p {
                assert(after[i] == before[i]);
                if i < p - 1 {
                    assert(!outranks(before[p - 1], before[i]));
                }
            } else if i < p {
                assert(after[i] == before[i] && after[j] == before[j - 1]);
            } else if i == p {
                assert(after[j] == before[j - 1]);
            } else {
                assert(after[i] == before[i - 1] && after[j] == before[j - 1]);
            }
        }
    }
}

/// Holds of a scored entry with the score `score` and the index `index`.
pub open spec fn has_keys(score: i64, index: u64) -> spec_fn(ScoredEntryView) -> bool {
    |x: ScoredEntryView| x.score == score && x.entry.index == index
}

/// Ranking is stable: the elements that agree in score and index come in
/// the order that they have in `s`. Together with `lemma_ranked_is_ranked`
/// and `lemma_ranked_permutes` this leaves `ranked(s)` no freedom.
pub proof fn lemma_ranked_stable(s: Seq<ScoredEntryView>, score: i64, index: u64)
    ensures
        ranked(s).filter(has_keys(score, index)) == s.filter(has_keys(score, index)),
    decreases s.len(),
{
    if s.len() > 0 {
        let keys = has_keys(score, index);
        let before = ranked(s.drop_last());
        let x = s.last();
        let p = insertion_point(before, x);
        let head = before.take(p);
        let tail = before.skip(p);
        lemma_ranked_stable(s.drop_last(), score, index);
        lemma_insertion_point(before, x);
        assert(before == head + tail);
        assert(before.insert(p, x) == head.push(x) + tail);
        assert(s.drop_last().push(x) == s);
        Seq::filter_distributes_over_add(head, tail, keys);
        Seq::filter_distributes_over_add(head.push(x), tail, keys);
        head.lemma_filter_push(x, keys);
        s.drop_last().lemma_filter_push(x, keys);
        if keys(x) {
            if tail.filter(keys).len() > 0 {
                let y = tail.filter(keys)[0];
                tail.lemma_filter_pred(keys, 0);
                assert(tail.filter(keys).contains(y));
                tail.lemma_filter_contains_rev(keys, y);
                let k = choose|k: int| 0 <= k < tail.len() && tail[k] == y;
                assert(outranks(x, before[p + k]));
            }
            assert(tail.filter(keys) == Seq::<ScoredEntryView>::empty());
        }
    }
}

impl<'a> ScoredEntry<'a> {
    /// Whether this entry must be shown before `other`.
    pub fn outranks(&self, other: &ScoredEntry<'a>) -> (before: bool)
        ensures
            before == outranks(self@, other@),
    {
        self.score > other.score || (self.score == other.score && self.entry.index
            > other.entry.index)
    }
}

/// Finds where `x` goes into `ranked`.
fn find_insertion_point<'a>(ranked: &Vec<ScoredEntry<'a>>, x: &ScoredEntry<'a>) -> (at: usize)
    ensures
        at == insertion_point(scored_views(ranked@), x@),
        at <= ranked.len(),
{
    let ghost views = scored_views(ranked@);
    let mut at: usize = ranked.len();
    proof {
        assert(views.take(at as int) == views);
    }
    while at > 0 && x.outranks(&ranked[at - 1])
        invariant
            at <= ranked.len(),
            views == scored_views(ranked@),
            insertion_point(views, x@) == insertion_point(views.take(at as int), x@),
        decreases at,
    {
        proof {
            assert(views.take(at as int).drop_last() == views.take(at - 1));
        }
        at -= 1;
    }
    at
}

/// Puts scored entries into the order in which they are shown: the same
/// entries, none before one that must be shown before it, and those that
/// agree in score and index in the order in which they came.
pub fn rank_entries<'a>(scored: Vec<ScoredEntry<'a>>) -> (in_order: Vec<ScoredEntry<'a>>)
    ensures
        scored_views(in_order@) == ranked(scored_views(scored@)),
        is_ranked(scored_views(in_order@)),
        scored_views(in_order@).to_multiset() == scored_views(scored@).to_multiset(),
        in_order@.len() == scored@.len(),
{
    let ghost views = scored_views(scored@);
    let mut in_order: Vec<ScoredEntry<'a>> = Vec::new();
    let mut i: usize = 0;
    proof {
        assert(scored_views(in_order@) == ranked(views.take(0)));
    }
    while i < scored.len()
        invariant
            i <= scored.len(),
            views == scored_views(scored@),
            scored_views(in_order@) == ranked(views.take(i as int)),
        decreases scored.len() - i,
    {
        let x: ScoredEntry<'a> = scored[i];
        let at: usize = find_insertion_point(&in_order, &x);
        let ghost before = scored_views(in_order@);
        in_order.insert(at, x);
        proof {
            assert(views.take(i + 1).drop_last() == views.take(i as int));
            assert(views.take(i + 1).last() == x@);
            assert(scored_views(in_order@) == before.insert(at as int, x@));
        }
        i += 1;
    }
    proof {
        assert(views.take(i as int) == views);
        lemma_ranked_is_ranked(views);
        lemma_ranked_permutes(views);
        lemma_ranked_len(views);
    }
    in_order
}

} // verus!
