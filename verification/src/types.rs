//! The records of the history store and the errors of talking to it.

use vstd::prelude::*;
use vstd::string::StringExecFns;

verus! {

/// One record of the history listing.
#[derive(Clone, Debug, PartialEq, Eq)]
pub struct ClipboardEntry {
    /// Identifier that the history store gave the record.
    pub index: u64,
    /// The clipboard payload, as text.
    pub content: String,
}

/// What a [`ClipboardEntry`] holds, as mathematical values.
pub struct ClipboardEntryView {
    pub index: u64,
    pub content: Seq<char>,
}

impl View for ClipboardEntry {
    type V = ClipboardEntryView;

    open spec fn view(&self) -> ClipboardEntryView {
        ClipboardEntryView { index: self.index, content: self.content@ }
    }
}

/// The views of a sequence of entries, in the same order.
pub open spec fn entry_views(entries: Seq<ClipboardEntry>) -> Seq<ClipboardEntryView> {
    entries.map_values(|e: ClipboardEntry| e@)
}

/// A failure of the history store or of reading what it printed.
#[derive(Clone, Debug, PartialEq, Eq)]
pub enum CliphistError {
    /// A command could not be run, or ended with a failure status.
    CommandFailed(String),
    /// The listing is not in the expected line format.
    ParseError(String),
}

/// What a [`CliphistError`] holds, as mathematical values.
pub enum CliphistErrorView {
    CommandFailed(Seq<char>),
    ParseError(Seq<char>),
}

impl View for CliphistError {
    type V = CliphistErrorView;

    open spec fn view(&self) -> CliphistErrorView {
        match self {
            CliphistError::CommandFailed(msg) => CliphistErrorView::CommandFailed(msg@),
            CliphistError::ParseError(msg) => CliphistErrorView::ParseError(msg@),
        }
    }
}

/// The view of the outcome of reading one record.
pub open spec fn record_view(record: Result<ClipboardEntry, CliphistError>) -> Result<
    ClipboardEntryView,
    CliphistErrorView,
> {
    match record {
        Ok(entry) => Ok(entry@),
        Err(e) => Err(e@),
    }
}

/// The view of a history: of its entries, or of the failure to get them.
pub open spec fn history_view(history: Result<Vec<ClipboardEntry>, CliphistError>) -> Result<
    Seq<ClipboardEntryView>,
    CliphistErrorView,
> {
    match history {
        Ok(entries) => Ok(entry_views(entries@)),
        Err(e) => Err(e@),
    }
}

/// The view of the outcome of an action that gives no value.
pub open spec fn outcome_view(outcome: Result<(), CliphistError>) -> Result<(), CliphistErrorView> {
    match outcome {
        Ok(_) => Ok(()),
        Err(err) => Err(err@),
    }
}

impl CliphistErrorView {
    /// The text shown for the error: a prefix that names the kind of failure,
    /// then the detail.
    pub open spec fn message(self) -> Seq<char> {
        match self {
            CliphistErrorView::CommandFailed(msg) => "Command failed: "@ + msg,
            CliphistErrorView::ParseError(msg) => "Parse error: "@ + msg,
        }
    }
}

impl CliphistError {
    /// The text shown for the error.
    pub fn message(&self) -> (text: String)
        ensures
            text@ == self@.message(),
    {
        match self {
            CliphistError::CommandFailed(msg) => String::from_str("Command failed: ").concat(
                msg.as_str(),
            ),
            CliphistError::ParseError(msg) => String::from_str("Parse error: ").concat(
                msg.as_str(),
            ),
        }
    }
}

} // verus!
