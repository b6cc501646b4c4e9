//! The selectable results that a search presents.
//!
//! A result list holds the entries that matched, best first and at most as
//! many as the settings allow, and after them one slot that wipes the
//! history. Where the history could not be had, the list is a single error
//! slot. Slots and entries share one identifier space: the two largest
//! `u64` values are reserved for the slots.

use vstd::prelude::*;
use vstd::string::StringExecFns;
use crate::config::Config;
use crate::decimal::{decimal_text, u64_to_string};
use crate::ranking::{
    lemma_ranked_contains, lemma_ranked_is_ranked, lemma_ranked_len, lemma_ranked_permutes,
    outranks, rank_entries, ranked, scored_views, ScoredEntry, ScoredEntryView,
};
use crate::types::{ClipboardEntry, ClipboardEntryView, CliphistError, CliphistErrorView};

verus! {

/// The identifier of the error slot: the largest `u64`.
pub const OPTION_ERROR: u64 = 0xffff_ffff_ffff_ffff;

/// The identifier of the slot that wipes the history: the largest `u64`
/// but one.
pub const OPTION_WIPE: u64 = 0xffff_ffff_ffff_fffe;

/// One line that a search presents for selection.
#[derive(Clone, Debug, PartialEq, Eq)]
pub struct SelectableResult {
    /// The text shown.
    pub title: String,
    /// A second line of text, if any.
    pub description: Option<String>,
    /// Whether `title` is light markup rather than plain text.
    pub use_pango: bool,
    /// The name of an icon, if any.
    pub icon: Option<String>,
    /// What a selection of this result stands for: the index of an entry, or
    /// one of the reserved identifiers. A result without one cannot be acted
    /// on.
    pub id: Option<u64>,
}

/// What a [`SelectableResult`] holds, as mathematical values.
pub struct SelectableResultView {
    pub title: Seq<char>,
    pub description: Option<Seq<char>>,
    pub use_pango: bool,
    pub icon: Option<Seq<char>>,
    pub id: Option<u64>,
}

/// The view of a text that may be absent.
pub open spec fn optional_text_view(text: Option<String>) -> Option<Seq<char>> {
    match text {
        Some(t) => Some(t@),
        None => None,
    }
}

impl View for SelectableResult {
    type V = SelectableResultView;

    open spec fn view(&self) -> SelectableResultView {
        SelectableResultView {
            title: self.title@,
            description: optional_text_view(self.description),
            use_pango: self.use_pango,
            icon: optional_text_view(self.icon),
            id: self.id,
        }
    }
}

/// The views of a sequence of results, in the same order.
pub open spec fn result_views(results: Seq<SelectableResult>) -> Seq<SelectableResultView> {
    Seq::new(results.len(), |i: int| results[i]@)
}

/// Whether an entry's index is none of the reserved identifiers, so that a
/// selection of its result cannot be taken for a slot.
pub open spec fn has_free_index(entry: ClipboardEntryView) -> bool {
    entry.index < OPTION_WIPE
}

/// Whether no entry among `entries` has a reserved identifier for index.
pub open spec fn free_entry_indices(entries: Seq<ClipboardEntryView>) -> bool {
    forall|i: int| 0 <= i < entries.len() ==> has_free_index(#[trigger] entries[i])
}

/// The description `msg`, present only where descriptions are shown.
pub open spec fn description_view(msg: Seq<char>, show: bool) -> Option<Seq<char>> {
    if show {
        Some(msg)
    } else {
        None
    }
}

/// The result that stands for `entry`: its content as plain text, its index
/// as identifier.
pub open spec fn entry_result(entry: ClipboardEntryView, show: bool) -> SelectableResultView {
    SelectableResultView {
        title: entry.content,
        description: description_view("Entry "@ + decimal_text(entry.index as nat), show),
        use_pango: false,
        icon: None,
        id: Some(entry.index),
    }
}

/// The slot that wipes the history. Its title is markup, in italics.
pub open spec fn wipe_result(show: bool) -> SelectableResultView {
    SelectableResultView {
        title: "<i>** Wipe Clipboard History</i>"@,
        description: description_view("clear history"@, show),
        use_pango: true,
        icon: None,
        id: Some(OPTION_WIPE),
    }
}

/// The slot that reports that the history could not be had.
pub open spec fn error_result(err: CliphistErrorView, show: bool) -> SelectableResultView {
    SelectableResultView {
        title: "Error: "@ + err.message(),
        description: description_view("Error encountered calling cliphist"@, show),
        use_pango: false,
        icon: Some("dialog-error"@),
        id: Some(OPTION_ERROR),
    }
}

/// How many of `count` ranked entries are shown.
pub open spec fn shown_count(count: nat, max_entries: usize) -> nat {
    if count <= max_entries {
        count
    } else {
        max_entries as nat
    }
}

/// The scored entries that are shown, in their order: `scored` is ranked
/// first, and only then cut to the best `max_entries`.
pub open spec fn shown(scored: Seq<ScoredEntryView>, max_entries: usize) -> Seq<ScoredEntryView> {
    ranked(scored).take(shown_count(scored.len(), max_entries) as int)
}

/// The results of the entries in `scored`, one for each, in the same order.
pub open spec fn entry_results(scored: Seq<ScoredEntryView>, show: bool) -> Seq<
    SelectableResultView,
> {
    Seq::new(scored.len(), |i: int| entry_result(scored[i].entry, show))
}

/// The result list for scored entries: the results of the entries that are
/// shown, then the wipe slot.
pub open spec fn composed(scored: Seq<ScoredEntryView>, config: Config) -> Seq<
    SelectableResultView,
> {
    entry_results(shown(scored, config.max_entries), config.show_description).push(
        wipe_result(config.show_description),
    )
}

/// Whether no entry among `scored` has a reserved identifier for index.
pub open spec fn free_indices(scored: Seq<ScoredEntryView>) -> bool {
    forall|i: int| 0 <= i < scored.len() ==> has_free_index((#[trigger] scored[i]).entry)
}

/// The entries that are shown are the best: none that is cut off must be
/// shown before one that is kept, whatever order the scored entries came
/// in, and so none that is cut off has a better score than one that is
/// kept. What is ranked holds each scored entry as often as it came.
pub proof fn lemma_shown_are_best(scored: Seq<ScoredEntryView>, max_entries: usize)
    ensures
        ranked(scored).to_multiset() == scored.to_multiset(),
        ranked(scored).len() == scored.len(),
        shown(scored, max_entries).len() == shown_count(scored.len(), max_entries),
        forall|i: int|
            0 <= i < shown(scored, max_entries).len() ==> shown(scored, max_entries)[i] == ranked(
                scored,
            )[i],
        forall|i: int, j: int|
            0 <= i < shown(scored, max_entries).len() <= j < scored.len() ==> !outranks(
                #[trigger] ranked(scored)[j],
                #[trigger] ranked(scored)[i],
            ) && ranked(scored)[i].score >= ranked(scored)[j].score,
{
    lemma_ranked_len(scored);
    lemma_ranked_permutes(scored);
    lemma_ranked_is_ranked(scored);
}

/// A composed list holds one result for each entry that is shown, in their
/// order, and the wipe slot after them. So the wipe slot is there whether
/// no, one or many entries matched, it is last, and it takes none of the
/// `max_entries` places.
pub proof fn lemma_composed_layout(scored: Seq<ScoredEntryView>, config: Config)
    ensures
        composed(scored, config).len() == shown_count(scored.len(), config.max_entries) + 1,
        composed(scored, config).last() == wipe_result(config.show_description),
        composed(scored, config).last().id == Some(OPTION_WIPE),
        forall|i: int|
            0 <= i < composed(scored, config).len() - 1 ==> #[trigger] composed(scored, config)[i]
                == entry_result(
                shown(scored, config.max_entries)[i].entry,
                config.show_description,
            ),
{
    lemma_ranked_len(scored);
}

/// Where no entry has a reserved identifier for index, the wipe slot is the
/// one result of a composed list with the identifier of the wipe, and none
/// has that of the error slot.
pub proof fn lemma_wipe_slot_once(scored: Seq<ScoredEntryView>, config: Config)
    requires
        free_indices(scored),
    ensures
        forall|i: int|
            0 <= i < composed(scored, config).len() ==> ((#[trigger] composed(
                scored,
                config,
            )[i]).id == Some(OPTION_WIPE) <==> i == composed(scored, config).len() - 1),
        forall|i: int|
            0 <= i < composed(scored, config).len() ==> (#[trigger] composed(scored, config)[i]).id
                != Some(OPTION_ERROR),
{
    lemma_composed_layout(scored, config);
    lemma_ranked_len(scored);
    let kept = shown(scored, config.max_entries);
    let list = composed(scored, config);
    assert forall|i: int| 0 <= i < list.len() - 1 implies has_free_index(
        (#[trigger] kept[i]).entry,
    ) by {
        let x = ranked(scored)[i];
        assert(kept[i] == x);
        assert(ranked(scored).contains(x));
        lemma_ranked_contains(scored, x);
        let k = choose|k: int| 0 <= k < scored.len() && scored[k] == x;
        assert(has_free_index(scored[k].entry));
    }
    assert forall|i: int| 0 <= i < list.len() implies ((#[trigger] list[i]).id == Some(OPTION_WIPE)
        <==> i == list.len() - 1) && list[i].id != Some(OPTION_ERROR) by {
        if i < list.len() - 1 {
            assert(has_free_index(kept[i].entry));
        }
    }
}

/// The description `msg`, present only where `show` is set.
pub fn make_description(msg: &str, show: bool) -> (description: Option<String>)
    ensures
        optional_text_view(description) == description_view(msg@, show),
{
    if show {
        Some(String::from_str(msg))
    } else {
        None
    }
}

impl SelectableResult {
    /// The result that stands for `entry`.
    pub fn for_entry(entry: &ClipboardEntry, show_description: bool) -> (result: SelectableResult)
        ensures
            result@ == entry_result(entry@, show_description),
    {
        let label: String = String::from_str("Entry ").concat(u64_to_string(entry.index).as_str());
        SelectableResult {
            title: entry.content.clone(),
            description: make_description(label.as_str(), show_description),
            use_pango: false,
            icon: None,
            id: Some(entry.index),
        }
    }

    /// The slot that wipes the history.
    pub fn wipe(show_description: bool) -> (result: SelectableResult)
        ensures
            result@ == wipe_result(show_description),
    {
        SelectableResult {
            title: String::from_str("<i>** Wipe Clipboard History</i>"),
            description: make_description("clear history", show_description),
            use_pango: true,
            icon: None,
            id: Some(OPTION_WIPE),
        }
    }

    /// The slot that reports `err`.
    pub fn error(err: &CliphistError, show_description: bool) -> (result: SelectableResult)
        ensures
            result@ == error_result(err@, show_description),
    {
        SelectableResult {
            title: String::from_str("Error: ").concat(err.message().as_str()),
            description: make_description("Error encountered calling cliphist", show_description),
            use_pango: false,
            icon: Some(String::from_str("dialog-error")),
            id: Some(OPTION_ERROR),
        }
    }
}

/// Lays out the result list for entries that a query has scored: ranks
/// them, keeps at most `config.max_entries` of the best, turns each into
/// its result, and appends the wipe slot.
pub fn compose<'a>(scored: Vec<ScoredEntry<'a>>, config: &Config) -> (results: Vec<
    SelectableResult,
>)
    ensures
        result_views(results@) == composed(scored_views(scored@), *config),
        results@.len() == shown_count(scored@.len(), config.max_entries) + 1,
        results@.last().id == Some(OPTION_WIPE),
{
    let ghost views = scored_views(scored@);
    let mut in_order: Vec<ScoredEntry<'a>> = rank_entries(scored);
    in_order.truncate(config.max_entries);
    proof {
        lemma_ranked_len(views);
        assert(scored_views(in_order@) == shown(views, config.max_entries));
    }
    let ghost kept = scored_views(in_order@);
    let mut results: Vec<SelectableResult> = Vec::new();
    let mut i: usize = 0;
    while i < in_order.len()
        invariant
            i <= in_order.len(),
            kept == scored_views(in_order@),
            result_views(results@) == entry_results(kept.take(i as int), config.show_description),
        decreases in_order.len() - i,
    {
        let result: SelectableResult = SelectableResult::for_entry(
            in_order[i].entry,
            config.show_description,
        );
        let ghost before = result_views(results@);
        results.push(result);
        proof {
            assert(kept.take(i + 1)[i as int] == in_order@[i as int]@);
            assert(result_views(results@) == before.push(result@));
            assert(entry_results(kept.take(i + 1), config.show_description) == entry_results(
                kept.take(i as int),
                config.show_description,
            ).push(entry_result(kept[i as int].entry, config.show_description)));
        }
        i += 1;
    }
    proof {
        assert(kept.take(i as int) == kept);
    }
    results.push(SelectableResult::wipe(config.show_description));
    proof {
        lemma_composed_layout(views, *config);
        assert(result_views(results@).last() == results@.last()@);
    }
    results
}

} // verus!
