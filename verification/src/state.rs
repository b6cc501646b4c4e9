//! The snapshot that a search session works on.
//!
//! Results and slots share one identifier space, so an entry whose index is
//! one of the two reserved identifiers could be taken for a slot. A session
//! does not start on such a history: it starts on the error instead.

use vstd::prelude::*;
use vstd::string::StringExecFns;
use crate::config::Config;
use crate::decimal::{decimal_text, u64_to_string};
use crate::parser::index_error;
use crate::results::{free_entry_indices, has_free_index, OPTION_WIPE};
use crate::scan::{first_where, lemma_first_where_is};
use crate::types::{
    entry_views, history_view, ClipboardEntry, ClipboardEntryView, CliphistError,
    CliphistErrorView,
};

verus! {

/// What one search session works on: the history as it was when the session
/// began, or the failure to get it, and the settings. It is made once and
/// only read afterwards.
pub struct SearchState {
    pub history: Result<Vec<ClipboardEntry>, CliphistError>,
    pub config: Config,
}

/// Holds of an entry whose index is a reserved identifier.
pub open spec fn is_reserved() -> spec_fn(ClipboardEntryView) -> bool {
    |entry: ClipboardEntryView| !has_free_index(entry)
}

/// The place in `entries` of the first entry with a reserved identifier for
/// index, or the length of `entries` if there is none.
pub open spec fn first_reserved(entries: Seq<ClipboardEntryView>) -> int {
    first_where(entries, is_reserved())
}

/// The history that a session starts on. A history that could not be had
/// stays the failure that it is. One with an entry whose index is a
/// reserved identifier is refused with the error of an invalid index, that
/// of the first such entry. Any other history is taken as it is.
pub open spec fn accepted(history: Result<Seq<ClipboardEntryView>, CliphistErrorView>) -> Result<
    Seq<ClipboardEntryView>,
    CliphistErrorView,
> {
    match history {
        Ok(entries) => {
            let at = first_reserved(entries);
            if 0 <= at < entries.len() {
                Err(index_error(decimal_text(entries[at].index as nat)))
            } else {
                Ok(entries)
            }
        },
        Err(err) => Err(err),
    }
}

/// A history without reserved indices is accepted as it is.
pub proof fn lemma_accepted_free(entries: Seq<ClipboardEntryView>)
    requires
        free_entry_indices(entries),
    ensures
        accepted(Ok(entries)) == Ok::<Seq<ClipboardEntryView>, CliphistErrorView>(entries),
{
    lemma_first_where_is(entries, is_reserved(), entries.len() as int);
}

/// Finds the first index among `entries` that is a reserved identifier.
fn find_reserved(entries: &Vec<ClipboardEntry>) -> (found: Option<u64>)
    ensures
        match found {
            Some(index) => {
                let at = first_reserved(entry_views(entries@));
                0 <= at < entries@.len() && entries@[at].index == index
            },
            None => free_entry_indices(entry_views(entries@)) && first_reserved(
                entry_views(entries@),
            ) == entries@.len(),
        },
{
    let ghost views = entry_views(entries@);
    let mut i: usize = 0;
    while i < entries.len()
        invariant
            i <= entries.len(),
            views == entry_views(entries@),
            forall|k: int| 0 <= k < i ==> has_free_index(#[trigger] views[k]),
        decreases entries.len() - i,
    {
        let index: u64 = entries[i].index;
        if index >= OPTION_WIPE {
            proof {
                assert(views[i as int].index == index);
                lemma_first_where_is(views, is_reserved(), i as int);
            }
            return Some(index);
        }
        i += 1;
    }
    proof {
        lemma_first_where_is(views, is_reserved(), i as int);
    }
    None
}

impl SearchState {
    /// Whether no entry of the history has a reserved identifier for index.
    pub open spec fn valid(&self) -> bool {
        match self.history {
            Ok(entries) => free_entry_indices(entry_views(entries@)),
            Err(_) => true,
        }
    }

    /// The snapshot of a session that begins with `history` and with the
    /// settings `loaded`, or the default settings where none were loaded.
    pub fn new(history: Result<Vec<ClipboardEntry>, CliphistError>, loaded: Option<Config>) -> (state:
        SearchState)
        ensures
            state.valid(),
            history_view(state.history) == accepted(history_view(history)),
            history_view(history) == accepted(history_view(history)) ==> state.history == history,
            state.config == match loaded {
                Some(c) => c,
                None => (Config { max_entries: 10, show_description: true }),
            },
    {
        let accepted_history: Result<Vec<ClipboardEntry>, CliphistError> = match history {
            Ok(entries) => match find_reserved(&entries) {
                Some(index) => Err(
                    CliphistError::ParseError(
                        String::from_str("Invalid index: ").concat(u64_to_string(index).as_str()),
                    ),
                ),
                None => Ok(entries),
            },
            Err(err) => Err(err),
        };
        SearchState { history: accepted_history, config: Config::or_default(loaded) }
    }
}

} // verus!
