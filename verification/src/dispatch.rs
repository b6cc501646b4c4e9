//! From the identifier of a selected result to the one action it stands
//! for, and from the outcome of that action to what the host is told.
//!
//! A selection ends the session: one selection, one action. The action
//! itself, wiping the history or copying an entry, is performed by the
//! caller; this module decides which, and what to say afterwards.

use vstd::prelude::*;
use vstd::string::StringExecFns;
use crate::config::Config;
use crate::ranking::{lemma_ranked_contains, lemma_ranked_len, ranked};
use crate::results::{
    free_entry_indices, lemma_composed_layout, shown, OPTION_ERROR, OPTION_WIPE,
};
use crate::search::{lemma_scored_sound, lemma_wipe_slot, scored, search_results};
use crate::types::{outcome_view, ClipboardEntryView, CliphistError, CliphistErrorView};

verus! {

/// What a selection asks for.
#[derive(Clone, Copy, Debug, PartialEq, Eq, Structural)]
pub enum Action {
    /// Nothing is to be done.
    Nothing,
    /// The history is to be wiped.
    Wipe,
    /// The entry with this index is to be copied to the clipboard.
    Copy(u64),
}

/// What the host is told once a selection has been handled.
#[derive(Clone, Debug, PartialEq, Eq)]
pub enum HandleResult {
    /// The launcher closes.
    Close,
    /// The launcher stays open and shows this text.
    Stdout(String),
}

/// What a [`HandleResult`] holds, as mathematical values.
pub enum HandleResultView {
    Close,
    Stdout(Seq<char>),
}

impl View for HandleResult {
    type V = HandleResultView;

    open spec fn view(&self) -> HandleResultView {
        match self {
            HandleResult::Close => HandleResultView::Close,
            HandleResult::Stdout(text) => HandleResultView::Stdout(text@),
        }
    }
}

/// The action that the identifier of a selected result stands for. A result
/// without identifier and the error slot stand for none, the wipe slot for
/// the wipe, and any other identifier for the copy of the entry with that
/// index.
pub open spec fn action_for(id: Option<u64>) -> Action {
    match id {
        None => Action::Nothing,
        Some(v) => if v == OPTION_ERROR {
            Action::Nothing
        } else if v == OPTION_WIPE {
            Action::Wipe
        } else {
            Action::Copy(v)
        },
    }
}

/// What the host is told after `action` ended with `outcome`. Success, and
/// an action that does nothing, close the launcher. A failure is reported
/// as text that holds the error's message, and the launcher stays open.
pub open spec fn report_for(action: Action, outcome: Result<(), CliphistErrorView>)
    -> HandleResultView {
    match (action, outcome) {
        (Action::Nothing, _) => HandleResultView::Close,
        (_, Ok(_)) => HandleResultView::Close,
        (Action::Wipe, Err(err)) => HandleResultView::Stdout(
            "Failed to wipe clipboard history: "@ + err.message(),
        ),
        (Action::Copy(_), Err(err)) => HandleResultView::Stdout(
            "Failed to select clipboard entry: "@ + err.message(),
        ),
    }
}

/// Selecting a result of a search asks for what the result stands for: the
/// error slot for nothing, the wipe slot for the wipe, and the result of an
/// entry for the copy of that very entry. This holds of every history whose
/// entries have no reserved identifier for index.
pub proof fn lemma_selection_acts_on_its_result(
    query: Seq<char>,
    history: Result<Seq<ClipboardEntryView>, CliphistErrorView>,
    config: Config,
    i: int,
)
    requires
        0 <= i < search_results(query, history, config).len(),
        history matches Ok(entries) ==> free_entry_indices(entries),
    ensures
        ({
            let list = search_results(query, history, config);
            match history {
                Err(_) => action_for(list[i].id) == Action::Nothing,
                Ok(entries) => if i == list.len() - 1 {
                    action_for(list[i].id) == Action::Wipe
                } else {
                    let entry = shown(scored(entries, query), config.max_entries)[i].entry;
                    &&& action_for(list[i].id) == Action::Copy(entry.index)
                    &&& list[i].title == entry.content
                    &&& entries.contains(entry)
                },
            }
        }),
{
    match history {
        Err(_) => {},
        Ok(entries) => {
            let hits = scored(entries, query);
            let list = search_results(query, history, config);
            lemma_wipe_slot(query, entries, config);
            lemma_composed_layout(hits, config);
            if i < list.len() - 1 {
                let kept = shown(hits, config.max_entries)[i];
                lemma_ranked_len(hits);
                assert(ranked(hits)[i] == kept);
                assert(ranked(hits).contains(kept));
                lemma_ranked_contains(hits, kept);
                lemma_scored_sound(entries, query);
                let at = choose|at: int| 0 <= at < hits.len() && hits[at] == kept;
                assert(entries.contains(hits[at].entry));
            }
        },
    }
}

/// Decides what the selection of a result with identifier `id` asks for.
pub fn dispatch(id: Option<u64>) -> (action: Action)
    ensures
        action == action_for(id),
        id is None || id == Some(OPTION_ERROR) <==> action == Action::Nothing,
        id == Some(OPTION_WIPE) <==> action == Action::Wipe,
        forall|index: u64|
            action == Action::Copy(index) <==> id == Some(index) && index != OPTION_ERROR && index
                != OPTION_WIPE,
{
    match id {
        None => Action::Nothing,
        Some(v) => {
            if v == OPTION_ERROR {
                Action::Nothing
            } else if v == OPTION_WIPE {
                Action::Wipe
            } else {
                Action::Copy(v)
            }
        },
    }
}

/// Decides what the host is told after `action` ended with `outcome`.
pub fn report(action: Action, outcome: &Result<(), CliphistError>) -> (result: HandleResult)
    ensures
        result@ == report_for(action, outcome_view(*outcome)),
{
    match action {
        Action::Nothing => HandleResult::Close,
        Action::Wipe => match outcome {
            Ok(_) => HandleResult::Close,
            Err(err) => HandleResult::Stdout(
                String::from_str("Failed to wipe clipboard history: ").concat(
                    err.message().as_str(),
                ),
            ),
        },
        Action::Copy(_) => match outcome {
            Ok(_) => HandleResult::Close,
            Err(err) => HandleResult::Stdout(
                String::from_str("Failed to select clipboard entry: ").concat(
                    err.message().as_str(),
                ),
            ),
        },
    }
}

} // verus!
