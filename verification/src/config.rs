//! The settings of a search session.

use vstd::prelude::*;

verus! {

/// The settings of a search session.
#[derive(Clone, Copy, Debug, PartialEq, Eq)]
pub struct Config {
    /// The largest number of entries that a result list shows.
    pub max_entries: usize,
    /// Whether results carry a description.
    pub show_description: bool,
}

impl Default for Config {
    /// Ten entries, with descriptions.
    fn default() -> (config: Config)
        ensures
            config.max_entries == 10,
            config.show_description,
    {
        Config { max_entries: 10, show_description: true }
    }
}

impl Config {
    /// The settings that were loaded, or the defaults where none could be
    /// loaded.
    pub fn or_default(loaded: Option<Config>) -> (config: Config)
        ensures
            config == match loaded {
                Some(c) => c,
                None => (Config { max_entries: 10, show_description: true }),
            },
    {
        match loaded {
            Some(c) => c,
            None => Config::default(),
        }
    }
}

} // verus!
