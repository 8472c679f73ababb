//! Application settings that the orchestration reads.

use vstd::prelude::*;

verus! {

/// The colour scheme of the interface.
#[derive(Debug, Clone, Copy, PartialEq, Eq, Structural)]
pub enum Theme {
    Dark,
    Light,
    System,
}

/// Application settings.
#[derive(Debug, Clone)]
pub struct Config {
    /// Directories to index.
    pub watched_directories: Vec<String>,
    /// Seconds between automatic saves; 0 disables them.
    pub auto_save_interval: u64,
    /// Largest number of indexed paths.
    pub max_index_size: usize,
    /// Colour scheme.
    pub theme: Theme,
    /// Whether hidden files are shown.
    pub show_hidden_files: bool,
    /// Further exclusion patterns.
    pub custom_exclusions: Vec<String>,
}

impl Default for Config {
    /// No directories, a save every 300 seconds, room for ten million paths,
    /// the dark theme, hidden files not shown, no further exclusions.
    fn default() -> (r: Self)
        ensures
            r.watched_directories@.len() == 0,
            r.auto_save_interval == 300,
            r.max_index_size == 10_000_000,
            r.theme == Theme::Dark,
            !r.show_hidden_files,
            r.custom_exclusions@.len() == 0,
    {
        Config {
            watched_directories: Vec::new(),
            auto_save_interval: 300,
            max_index_size: 10_000_000,
            theme: Theme::Dark,
            show_hidden_files: false,
            custom_exclusions: Vec::new(),
        }
    }
}

impl Config {
    /// Whether an automatic save is due after `elapsed_secs` seconds since
    /// the last one: saves are enabled and the interval has passed.
    pub fn autosave_due(&self, elapsed_secs: u64) -> (r: bool)
        ensures
            r == (self.auto_save_interval > 0 && elapsed_secs >= self.auto_save_interval),
    {
        self.auto_save_interval > 0 && elapsed_secs >= self.auto_save_interval
    }
}

} // verus!
