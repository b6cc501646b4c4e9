//! Searching the history: from a query and the snapshot of a session to the
//! list of results that is presented.

use vstd::prelude::*;
use crate::config::Config;
use crate::ranker::{is_scorable, rank, rank_spec, scorable};
use crate::ranking::{
    lemma_ranked_contains, lemma_ranked_is_ranked, lemma_ranked_len, lemma_ranked_permutes,
    outranks, ranked, scored_views, ScoredEntry, ScoredEntryView,
};
use crate::results::{
    compose, composed, entry_result, error_result, free_entry_indices, has_free_index,
    lemma_composed_layout, lemma_wipe_slot_once, result_views, shown_count, wipe_result,
    SelectableResult, SelectableResultView, OPTION_ERROR, OPTION_WIPE,
};
use crate::state::SearchState;
use crate::types::{
    entry_views, history_view, ClipboardEntry, ClipboardEntryView, CliphistErrorView,
};

verus! {

/// The entries that match `query`, each with its score, in the order of
/// `entries`. An entry that does not match is left out.
pub open spec fn scored(entries: Seq<ClipboardEntryView>, query: Seq<char>) -> Seq<
    ScoredEntryView,
>
    decreases entries.len(),
{
    if entries.len() == 0 {
        Seq::empty()
    } else {
        let before = scored(entries.drop_last(), query);
        match rank_spec(query, entries.last().content) {
            Some(score) => before.push(ScoredEntryView { score, entry: entries.last() }),
            None => before,
        }
    }
}

/// Whether every content among `entries` can be scored against `query`.
pub open spec fn all_scorable(query: Seq<char>, entries: Seq<ClipboardEntryView>) -> bool {
    forall|i: int| 0 <= i < entries.len() ==> scorable(query, (#[trigger] entries[i]).content)
}

/// Whether `history` can be searched for `query`. A history that could not
/// be had always can: nothing in it is scored.
pub open spec fn searchable(
    query: Seq<char>,
    history: Result<Seq<ClipboardEntryView>, CliphistErrorView>,
) -> bool {
    match history {
        Ok(entries) => all_scorable(query, entries),
        Err(_) => true,
    }
}

/// The result list of a search. Where the history could not be had, it is
/// the error slot alone, whatever the query and the settings for the number
/// of entries. Else it is the list composed from the entries that match.
pub open spec fn search_results(
    query: Seq<char>,
    history: Result<Seq<ClipboardEntryView>, CliphistErrorView>,
    config: Config,
) -> Seq<SelectableResultView> {
    match history {
        Ok(entries) => composed(scored(entries, query), config),
        Err(err) => seq![error_result(err, config.show_description)],
    }
}

/// Every entry of `entries` with the score 0, in the same order.
pub open spec fn unscored(entries: Seq<ClipboardEntryView>) -> Seq<ScoredEntryView> {
    Seq::new(entries.len(), |i: int| ScoredEntryView { score: 0, entry: entries[i] })
}

/// The successful history that holds `entries`.
pub open spec fn history_of(entries: Seq<ClipboardEntryView>) -> Result<
    Seq<ClipboardEntryView>,
    CliphistErrorView,
> {
    Ok(entries)
}

/// What is scored is an entry of the history, with the score that the
/// query gives its content.
pub proof fn lemma_scored_sound(entries: Seq<ClipboardEntryView>, query: Seq<char>)
    ensures
        scored(entries, query).len() <= entries.len(),
        forall|k: int|
            0 <= k < scored(entries, query).len() ==> {
                let hit = #[trigger] scored(entries, query)[k];
                rank_spec(query, hit.entry.content) == Some(hit.score) && entries.contains(
                    hit.entry,
                )
            },
    decreases entries.len(),
{
    if entries.len() > 0 {
        let front = entries.drop_last();
        lemma_scored_sound(front, query);
        assert forall|k: int| 0 <= k < scored(entries, query).len() implies {
            let hit = #[trigger] scored(entries, query)[k];
            rank_spec(query, hit.entry.content) == Some(hit.score) && entries.contains(hit.entry)
        } by {
            let hit = scored(entries, query)[k];
            if k < scored(front, query).len() {
                assert(hit == scored(front, query)[k]);
                let at = choose|at: int| 0 <= at < front.len() && front[at] == hit.entry;
                assert(entries[at] == hit.entry);
            } else {
                assert(hit.entry == entries[entries.len() - 1]);
            }
        }
    }
}

/// Every entry that matches is scored: none is dropped but those that the
/// query does not match.
pub proof fn lemma_scored_complete(entries: Seq<ClipboardEntryView>, query: Seq<char>, i: int)
    requires
        0 <= i < entries.len(),
        rank_spec(query, entries[i].content) is Some,
    ensures
        scored(entries, query).contains(
            ScoredEntryView { score: rank_spec(query, entries[i].content)->0, entry: entries[i] },
        ),
    decreases entries.len(),
{
    let hit = ScoredEntryView { score: rank_spec(query, entries[i].content)->0, entry: entries[i] };
    let front = entries.drop_last();
    let all = scored(entries, query);
    if i == entries.len() - 1 {
        assert(all[all.len() - 1] == hit);
    } else {
        lemma_scored_complete(front, query, i);
        let at = choose|at: int| 0 <= at < scored(front, query).len() && scored(front, query)[at]
            == hit;
        assert(all[at] == hit);
    }
}

/// The empty query keeps every entry, each with the score 0.
pub proof fn lemma_scored_empty_query(entries: Seq<ClipboardEntryView>)
    ensures
        scored(entries, Seq::empty()) == unscored(entries),
    decreases entries.len(),
{
    if entries.len() > 0 {
        lemma_scored_empty_query(entries.drop_last());
        assert(unscored(entries.drop_last()).push(
            ScoredEntryView { score: 0, entry: entries.last() },
        ) == unscored(entries));
    }
}

/// For the empty query the list shows the entries of the history by
/// descending index: all of them, each once for each time it is in the
/// history, cut to the first `max_entries`; the wipe slot follows.
pub proof fn lemma_empty_query_lists_all(entries: Seq<ClipboardEntryView>, config: Config)
    ensures
        scored(entries, Seq::empty()) == unscored(entries),
        ({
            let all = ranked(unscored(entries));
            let list = search_results(Seq::empty(), history_of(entries), config);
            &&& all.len() == entries.len()
            &&& all.to_multiset() == unscored(entries).to_multiset()
            &&& forall|i: int, j: int|
                0 <= i < j < all.len() ==> (#[trigger] all[i]).entry.index >= (
                #[trigger] all[j]).entry.index
            &&& list.len() == shown_count(entries.len(), config.max_entries) + 1
            &&& list.last() == wipe_result(config.show_description)
            &&& forall|i: int|
                0 <= i < list.len() - 1 ==> #[trigger] list[i] == entry_result(
                    all[i].entry,
                    config.show_description,
                )
        }),
{
    let zero = unscored(entries);
    let all = ranked(zero);
    lemma_scored_empty_query(entries);
    lemma_ranked_len(zero);
    lemma_ranked_permutes(zero);
    lemma_ranked_is_ranked(zero);
    lemma_composed_layout(zero, config);
    assert forall|i: int| 0 <= i < all.len() implies (#[trigger] all[i]).score == 0 by {
        assert(all.contains(all[i]));
        lemma_ranked_contains(zero, all[i]);
    }
}

/// Of two results of entries with the same content, the first in the list
/// has the larger index, or the same: the same content has the same score
/// for any query, and the index decides between equal scores.
pub proof fn lemma_equal_contents_by_index(
    query: Seq<char>,
    entries: Seq<ClipboardEntryView>,
    config: Config,
    a: int,
    b: int,
)
    requires
        0 <= a < b < search_results(query, history_of(entries), config).len() - 1,
        search_results(query, history_of(entries), config)[a].title == search_results(
            query,
            history_of(entries),
            config,
        )[b].title,
    ensures
        search_results(query, history_of(entries), config)[a].id is Some,
        search_results(query, history_of(entries), config)[b].id is Some,
        search_results(query, history_of(entries), config)[a].id->0 >= search_results(
            query,
            history_of(entries),
            config,
        )[b].id->0,
{
    let hits = scored(entries, query);
    let all = ranked(hits);
    lemma_scored_sound(entries, query);
    lemma_ranked_len(hits);
    lemma_ranked_is_ranked(hits);
    lemma_composed_layout(hits, config);
    assert(all.contains(all[a]) && all.contains(all[b]));
    lemma_ranked_contains(hits, all[a]);
    lemma_ranked_contains(hits, all[b]);
    let ka = choose|k: int| 0 <= k < hits.len() && hits[k] == all[a];
    let kb = choose|k: int| 0 <= k < hits.len() && hits[k] == all[b];
    assert(rank_spec(query, hits[ka].entry.content) == Some(hits[ka].score));
    assert(rank_spec(query, hits[kb].entry.content) == Some(hits[kb].score));
    assert(!outranks(all[b], all[a]));
}

/// Every list of a history that could be had ends with the wipe slot, and
/// holds before it one result for each entry shown: at most `max_entries`,
/// and no more than there are entries. Where no entry has a reserved
/// identifier for index, no other result has the identifier of the wipe
/// slot, and none that of the error slot.
pub proof fn lemma_wipe_slot(query: Seq<char>, entries: Seq<ClipboardEntryView>, config: Config)
    ensures
        ({
            let list = search_results(query, history_of(entries), config);
            &&& 1 <= list.len() <= config.max_entries + 1
            &&& list.len() <= entries.len() + 1
            &&& list.len() == shown_count(scored(entries, query).len(), config.max_entries) + 1
            &&& list.last() == wipe_result(config.show_description)
            &&& free_entry_indices(entries) ==> forall|i: int|
                0 <= i < list.len() ==> ((#[trigger] list[i]).id == Some(OPTION_WIPE) <==> i
                    == list.len() - 1) && list[i].id != Some(OPTION_ERROR)
        }),
{
    let hits = scored(entries, query);
    lemma_scored_sound(entries, query);
    lemma_composed_layout(hits, config);
    if free_entry_indices(entries) {
        assert forall|k: int| 0 <= k < hits.len() implies has_free_index(
            (#[trigger] hits[k]).entry,
        ) by {
            let at = choose|at: int| 0 <= at < entries.len() && entries[at] == hits[k].entry;
            assert(has_free_index(entries[at]));
        }
        lemma_wipe_slot_once(hits, config);
    }
}

/// Where the history could not be had, the list is the error slot and
/// nothing else, whatever the query is.
pub proof fn lemma_error_slot_alone(query: Seq<char>, err: CliphistErrorView, config: Config)
    ensures
        search_results(query, Err(err), config) == seq![
            error_result(err, config.show_description),
        ],
        search_results(query, Err(err), config).len() == 1,
        search_results(query, Err(err), config)[0].id == Some(OPTION_ERROR),
{
}

/// Scores every entry against `query` and keeps those that match.
pub fn score_entries<'a>(query: &str, entries: &'a Vec<ClipboardEntry>) -> (matches: Vec<
    ScoredEntry<'a>,
>)
    requires
        all_scorable(query@, entry_views(entries@)),
    ensures
        scored_views(matches@) == scored(entry_views(entries@), query@),
{
    let ghost views = entry_views(entries@);
    let mut matches: Vec<ScoredEntry<'a>> = Vec::new();
    let mut i: usize = 0;
    while i < entries.len()
        invariant
            i <= entries.len(),
            views == entry_views(entries@),
            all_scorable(query@, views),
            scored_views(matches@) == scored(views.take(i as int), query@),
        decreases entries.len() - i,
    {
        let entry: &'a ClipboardEntry = &entries[i];
        proof {
            assert(views[i as int] == entry@);
            assert(views.take(i + 1).drop_last() == views.take(i as int));
            assert(views.take(i + 1).last() == entry@);
        }
        let ghost before = scored_views(matches@);
        match rank(query, entry.content.as_str()) {
            Some(score) => {
                let hit = ScoredEntry { score, entry };
                matches.push(hit);
                proof {
                    assert(scored_views(matches@) == before.push(hit@));
                }
            },
            None => {},
        }
        i += 1;
    }
    proof {
        assert(views.take(i as int) == views);
    }
    matches
}

/// Tells whether every content among `entries` can be scored against
/// `query`.
pub fn are_scorable(query: &str, entries: &Vec<ClipboardEntry>) -> (ok: bool)
    ensures
        ok == all_scorable(query@, entry_views(entries@)),
{
    let ghost views = entry_views(entries@);
    let mut i: usize = 0;
    while i < entries.len()
        invariant
            i <= entries.len(),
            views == entry_views(entries@),
            forall|k: int| 0 <= k < i ==> scorable(query@, (#[trigger] views[k]).content),
        decreases entries.len() - i,
    {
        if !is_scorable(query, entries[i].content.as_str()) {
            assert(!scorable(query@, views[i as int].content));
            return false;
        }
        i += 1;
    }
    true
}

/// Tells whether the history of `state` can be searched for `input`.
pub fn is_searchable(input: &str, state: &SearchState) -> (ok: bool)
    ensures
        ok == searchable(input@, history_view(state.history)),
{
    match &state.history {
        Err(_) => true,
        Ok(entries) => are_scorable(input, entries),
    }
}

/// The results to present for `input`, given the snapshot of the session.
pub fn get_matches(input: &str, state: &SearchState) -> (results: Vec<SelectableResult>)
    requires
        searchable(input@, history_view(state.history)),
    ensures
        result_views(results@) == search_results(
            input@,
            history_view(state.history),
            state.config,
        ),
        state.history is Err ==> results@.len() == 1 && results@[0].id == Some(OPTION_ERROR),
        state.history is Ok ==> 1 <= results@.len() <= state.config.max_entries + 1
            && results@.last().id == Some(OPTION_WIPE),
{
    match &state.history {
        Err(err) => {
            let mut results: Vec<SelectableResult> = Vec::new();
            results.push(SelectableResult::error(err, state.config.show_description));
            proof {
                assert(result_views(results@) == seq![
                    error_result(err@, state.config.show_description),
                ]);
            }
            results
        },
        Ok(entries) => {
            let matches = score_entries(input, entries);
            let results = compose(matches, &state.config);
            proof {
                lemma_wipe_slot(input@, entry_views(entries@), state.config);
                assert(result_views(results@).last() == results@.last()@);
            }
            results
        },
    }
}

/// The results to present for `input`, for any input and any snapshot:
/// `None` where the history cannot be searched for `input`, because a text
/// is longer than the matcher takes, and the results of
/// [`get_matches`] everywhere else.
pub fn search(input: &str, state: &SearchState) -> (found: Option<Vec<SelectableResult>>)
    ensures
        found is Some <==> searchable(input@, history_view(state.history)),
        found matches Some(results) ==> result_views(results@) == search_results(
            input@,
            history_view(state.history),
            state.config,
        ),
{
    if is_searchable(input, state) {
        Some(get_matches(input, state))
    } else {
        None
    }
}

} // verus!
