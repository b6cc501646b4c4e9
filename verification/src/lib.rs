//! Search-and-select engine for a clipboard history.
//!
//! The engine turns the line-oriented listing of a clipboard history store
//! into entries, ranks them against a free-text query, lays out the bounded
//! list of selectable results together with its control slots, and maps a
//! selected identifier back to the action it stands for.
//!
//! - [`parser`] reads the listing; [`listing`] holds the law that reading
//!   what was listed gives the entries back.
//! - [`ranker`] scores a content against a query with the skim matcher.
//! - [`ranking`] orders scored entries; [`results`] lays out a result list;
//!   [`search`] goes from a query and a [`state::SearchState`] to that list.
//! - [`dispatch`] decides what a selection asks for and what the host is
//!   told afterwards.
//! - [`commands`] judges the runs of the outside commands.
//!
//! The library runs no command and reads no file: its callers do, and hand
//! it what they got. Every function is verified with Verus against the
//! contract it carries. Two things are believed, not proved: that
//! `String::push` appends a character, and that the matcher's score is a
//! function of the two texts it is given.

pub mod commands;
pub mod config;
pub mod decimal;
pub mod dispatch;
pub mod listing;
pub mod parser;
pub mod ranker;
pub mod ranking;
pub mod results;
pub mod scan;
pub mod search;
pub mod state;
pub mod text;
pub mod types;

pub use commands::CommandRun;
pub use config::Config;
pub use dispatch::{dispatch, report, Action, HandleResult};
pub use parser::{parse_history, parse_line};
pub use ranker::rank;
pub use ranking::ScoredEntry;
pub use results::{compose, SelectableResult, OPTION_ERROR, OPTION_WIPE};
pub use search::{get_matches, search};
pub use state::SearchState;
pub use types::{ClipboardEntry, CliphistError};
