//! The vocabulary of the command line, as plain values.

use vstd::prelude::*;

verus! {

/// What to do with the list of protected paths.
#[derive(Debug, PartialEq, Eq)]
pub enum ProtectAction {
    /// Add paths to the protection list.
    Add { paths: Vec<String> },
    /// Remove paths from the protection list.
    Remove { paths: Vec<String> },
    /// List all protected paths.
    List,
}

/// What to do with the configuration.
#[derive(Debug, PartialEq, Eq)]
pub enum ConfigAction {
    /// Show the current configuration.
    Show,
    /// Set one configuration value.
    SetValue { key: String, value: String },
    /// Reset the configuration to its defaults.
    Reset,
}

/// How a listing is grouped.
#[derive(Clone, Copy, Debug, PartialEq, Eq, Structural)]
pub enum GroupBy {
    Date,
    Tag,
}

/// The operations that the log can be filtered by.
#[derive(Clone, Copy, Debug, PartialEq, Eq, Structural)]
pub enum OperationType {
    Delete,
    Restore,
    Purge,
}

} // verus!
