//! Judging the runs of the outside commands.
//!
//! The history store and the clipboard are reached through commands that the
//! caller runs. What came of a run is handed in here as plain values, and
//! what it means for the session is decided here.

use vstd::prelude::*;
use vstd::string::StringExecFns;
use crate::decimal::{decimal_text, u64_to_string};
use crate::parser::{parse_history, parsed_history};
use crate::types::{
    history_view, outcome_view, ClipboardEntry, ClipboardEntryView, CliphistError,
    CliphistErrorView,
};

verus! {

/// What came of running a command.
#[derive(Clone, Debug, PartialEq, Eq)]
pub enum CommandRun {
    /// The command could not be run; the text says why.
    NotRun(String),
    /// The command ran to its end.
    Exited {
        /// Whether it ended with the status of success.
        success: bool,
        /// What it wrote to its standard error, as text.
        stderr: String,
    },
}

/// What a [`CommandRun`] holds, as mathematical values.
pub enum CommandRunView {
    NotRun(Seq<char>),
    Exited { success: bool, stderr: Seq<char> },
}

impl View for CommandRun {
    type V = CommandRunView;

    open spec fn view(&self) -> CommandRunView {
        match self {
            CommandRun::NotRun(reason) => CommandRunView::NotRun(reason@),
            CommandRun::Exited { success, stderr } => CommandRunView::Exited {
                success: *success,
                stderr: stderr@,
            },
        }
    }
}

impl CommandRunView {
    /// The failure of the run, in words, or `None` where it succeeded: the
    /// reason it could not be run, or its standard error where it ended with
    /// another status than success.
    pub open spec fn failure(self) -> Option<Seq<char>> {
        match self {
            CommandRunView::NotRun(reason) => Some(reason),
            CommandRunView::Exited { success, stderr } => if success {
                None
            } else {
                Some(stderr)
            },
        }
    }
}

/// The history that a run of the listing command gives: a failed run is a
/// failed command, and only the output of a successful one is read.
pub open spec fn history_from(run: CommandRunView, stdout: Seq<char>) -> Result<
    Seq<ClipboardEntryView>,
    CliphistErrorView,
> {
    match run.failure() {
        Some(reason) => Err(CliphistErrorView::CommandFailed(reason)),
        None => parsed_history(stdout),
    }
}

/// The outcome of the wipe, given the run of the wipe command.
pub open spec fn wipe_outcome_for(run: CommandRunView) -> Result<(), CliphistErrorView> {
    match run.failure() {
        Some(reason) => Err(CliphistErrorView::CommandFailed(reason)),
        None => Ok(()),
    }
}

/// The outcome of decoding entry `id`, given the run of the decode command.
/// The error names the entry.
pub open spec fn decode_outcome_for(id: u64, run: CommandRunView) -> Result<(), CliphistErrorView> {
    match run.failure() {
        Some(reason) => Err(
            CliphistErrorView::CommandFailed(
                "Failed to decode history entry "@ + decimal_text(id as nat) + ": "@ + reason,
            ),
        ),
        None => Ok(()),
    }
}

/// The outcome of setting the clipboard, given the run of the command that
/// sets it.
pub open spec fn copy_outcome_for(run: CommandRunView) -> Result<(), CliphistErrorView> {
    match run {
        CommandRunView::NotRun(reason) => Err(CliphistErrorView::CommandFailed(reason)),
        CommandRunView::Exited { success, stderr } => if success {
            Ok(())
        } else {
            Err(
                CliphistErrorView::CommandFailed(
                    "Failed to copy content to clipboard using wl-copy"@,
                ),
            )
        },
    }
}

impl CommandRun {
    /// The failure of the run, in words, or `None` where it succeeded.
    pub fn failure(&self) -> (reason: Option<&str>)
        ensures
            match reason {
                Some(text) => self@.failure() == Some(text@),
                None => self@.failure() is None,
            },
    {
        match self {
            CommandRun::NotRun(reason) => Some(reason.as_str()),
            CommandRun::Exited { success, stderr } => {
                if *success {
                    None
                } else {
                    Some(stderr.as_str())
                }
            },
        }
    }
}

/// The arguments with which the history store is asked to decode entry
/// `id`: the word `decode`, then the index in decimal notation.
pub fn decode_arguments(id: u64) -> (arguments: Vec<String>)
    ensures
        arguments@.len() == 2,
        arguments@[0]@ == "decode"@,
        arguments@[1]@ == decimal_text(id as nat),
{
    let mut arguments: Vec<String> = Vec::new();
    arguments.push(String::from_str("decode"));
    arguments.push(u64_to_string(id));
    arguments
}

/// Reads the history from a run of the listing command and what it wrote to
/// its standard output.
pub fn read_history(run: &CommandRun, stdout: &str) -> (history: Result<
    Vec<ClipboardEntry>,
    CliphistError,
>)
    ensures
        history_view(history) == history_from(run@, stdout@),
{
    match run.failure() {
        Some(reason) => Err(CliphistError::CommandFailed(String::from_str(reason))),
        None => parse_history(stdout),
    }
}

/// Judges the run of the wipe command.
pub fn wipe_outcome(run: &CommandRun) -> (outcome: Result<(), CliphistError>)
    ensures
        outcome_view(outcome) == wipe_outcome_for(run@),
{
    match run.failure() {
        Some(reason) => Err(CliphistError::CommandFailed(String::from_str(reason))),
        None => Ok(()),
    }
}

/// Judges the run of the command that decodes entry `id`.
pub fn decode_outcome(id: u64, run: &CommandRun) -> (outcome: Result<(), CliphistError>)
    ensures
        outcome_view(outcome) == decode_outcome_for(id, run@),
{
    match run.failure() {
        Some(reason) => {
            let message: String = String::from_str("Failed to decode history entry ").concat(
                u64_to_string(id).as_str(),
            ).concat(": ").concat(reason);
            Err(CliphistError::CommandFailed(message))
        },
        None => Ok(()),
    }
}

/// Judges the run of the command that sets the clipboard.
pub fn copy_outcome(run: &CommandRun) -> (outcome: Result<(), CliphistError>)
    ensures
        outcome_view(outcome) == copy_outcome_for(run@),
{
    match run {
        CommandRun::NotRun(reason) => Err(CliphistError::CommandFailed(reason.clone())),
        CommandRun::Exited { success, stderr } => {
            if *success {
                Ok(())
            } else {
                Err(
                    CliphistError::CommandFailed(
                        String::from_str("Failed to copy content to clipboard using wl-copy"),
                    ),
                )
            }
        },
    }
}

} // verus!
