//! The failures that the engine reports, and what each says to the user.

use crate::ids::{format_id, id_text};
use crate::text;
use vstd::prelude::*;

verus! {

/// A classified failure. A variant names the item it pertains to, where
/// there is one, and its message names it too; where several items are
/// meant, the message lists them all.
#[derive(Debug, PartialEq, Eq)]
#[allow(inconsistent_fields)]
pub enum RmzError {
    /// No record, or no physical file, for the given identifier.
    NotFound { id: u128 },
    /// No file at the given path.
    NoSuchFile { path: String },
    /// Nothing at all at the given path.
    NoSuchPath { path: String },
    /// No held item matches the given identifier text.
    NoMatch { query: String },
    /// No held item has an identifier that begins with the given text.
    NoIdPrefix { prefix: String },
    /// No held file has the given name.
    NoFileNamed { name: String },
    /// The destination of a restore is occupied.
    AlreadyExists { path: String },
    /// The source of a move changed between its validation and the move.
    ConcurrentModification { path: String },
    /// An identifier prefix matches more than one held item; the candidates
    /// are listed in the order in which the store lists them.
    AmbiguousIdentifier { prefix: String, candidates: Vec<u128> },
    /// A file name matches more than one held item.
    AmbiguousName { name: String, candidates: Vec<u128> },
    /// A metadata entry could not be understood.
    Corrupt { entry: String },
    /// A file-system step failed.
    IoFailure { path: String },
    /// An identifier prefix is shorter than a prefix may be.
    IdTooShort { id: String },
    /// The path to restore to has no file name.
    NoFileName { path: String },
    /// The path to extract to has no file name.
    NoExtractName { path: String },
    /// The text names no moment.
    InvalidDate { text: String },
    /// The text names no moment since which items are listed.
    InvalidSince { text: String },
    /// The word stands for no truth value.
    InvalidBoolean { value: String },
    /// The text before the colon of a selected line is no number.
    InvalidSelection { text: String },
    /// The number of a selected line is that of no item.
    SelectionOutOfRange { text: String },
    /// A directory that holds something was to be deleted without the
    /// option to delete what it holds.
    DirectoryNotEmpty { path: String },
    /// The path lies at or below a protected path.
    Protected { path: String },
    /// The directory lies at or below a protected path.
    ProtectedDirectory { path: String },
    /// The user declined the delete of a file.
    Cancelled,
    /// The user declined the delete of a directory.
    DirectoryCancelled,
    /// The size text is empty.
    EmptyInput,
    /// The size text holds no number that can be read.
    InvalidNumber { text: String },
    /// The size text holds no unit that is known.
    InvalidUnit { text: String },
    /// The size text is no number before a unit.
    InvalidSizeFormat { text: String },
    /// The duration text is empty.
    EmptyDuration,
    /// The duration text holds no number that can be read.
    InvalidDurationNumber { text: String },
    /// The duration text holds no unit that is known.
    InvalidDurationUnit { text: String },
    /// Nothing says which items are to be restored.
    MissingSelection,
    /// Nothing says which items are to be extracted.
    MissingExtractSelection,
    /// The configuration is at fault.
    Config { message: String },
    /// Another failure, with what it says.
    Failed { message: String },
}

/// The identifiers `candidates`, each on a line of its own.
pub open spec fn listed(candidates: Seq<u128>) -> Seq<char>
    decreases candidates.len(),
{
    if candidates.len() == 0 {
        Seq::empty()
    } else {
        listed(candidates.drop_last()) + "\n  "@ + id_text(candidates.last())
    }
}

fn list_ids(candidates: &Vec<u128>) -> (r: String)
    ensures
        r@ == listed(candidates@),
{
    let mut r = String::new();
    let mut i: usize = 0;
    assert(candidates@.take(0) =~= Seq::<u128>::empty());
    assert(r@ =~= listed(candidates@.take(0)));
    while i < candidates.len()
        invariant
            i <= candidates.len(),
            r@ == listed(candidates@.take(i as int)),
        decreases candidates.len() - i,
    {
        proof {
            assert(candidates@.take(i + 1).drop_last() =~= candidates@.take(i as int));
            assert(candidates@.take(i + 1).last() == candidates@[i as int]);
        }
        r.append("\n  ");
        r.append(format_id(candidates[i]).as_str());
        assert(r@ =~= listed(candidates@.take(i + 1)));
        i += 1;
    }
    assert(candidates@.take(candidates.len() as int) =~= candidates@);
    r
}

impl RmzError {
    /// What the failure says to the user.
    pub open spec fn message_text(self) -> Seq<char> {
        match self {
            RmzError::NotFound { id } => "File with ID "@ + id_text(id) + " not found in trash"@,
            RmzError::NoSuchFile { path } => "File does not exist: "@ + path@,
            RmzError::NoSuchPath { path } => "Path does not exist: "@ + path@,
            RmzError::NoMatch { query } => "No files matching partial ID '"@ + query@
                + "' found in trash"@,
            RmzError::NoIdPrefix { prefix } => "No file found with ID starting with: "@ + prefix@,
            RmzError::NoFileNamed { name } => "No files found matching '"@ + name@ + "'"@,
            RmzError::AlreadyExists { path } => "File already exists: "@ + path@
                + "\nUse --interactive flag to confirm overwrite, or restore to different location with --to"@,
            RmzError::ConcurrentModification { path } => "File changed during operation: "@
                + path@,
            RmzError::AmbiguousIdentifier { prefix, candidates } =>
                "Multiple files match partial ID '"@ + prefix@ + "':"@ + listed(candidates@)
                    + "\nPlease provide a more specific ID to uniquely identify the file"@,
            RmzError::AmbiguousName { name, candidates } => "Multiple files match '"@ + name@
                + "':"@ + listed(candidates@)
                + "\nUse --interactive to select from multiple matches"@,
            RmzError::Corrupt { entry } => "Serialization error: "@ + entry@,
            RmzError::IoFailure { path } => "IO error: "@ + path@,
            RmzError::IdTooShort { id } => "ID must be at least 8 characters long: "@ + id@,
            RmzError::NoFileName { path } => "Cannot determine filename for restoration: "@
                + path@,
            RmzError::NoExtractName { path } => "Cannot determine filename for extraction: "@
                + path@,
            RmzError::InvalidDate { text } => "Invalid date format: "@ + text@,
            RmzError::InvalidSince { text } => "Invalid date format: "@ + text@
                + ". Use 'today', 'yesterday', 'week', 'month', or YYYY-MM-DD"@,
            RmzError::InvalidBoolean { value } => "Invalid boolean value: "@ + value@
                + ". Use true/false, yes/no, on/off, 1/0, or enabled/disabled"@,
            RmzError::InvalidSelection { text } => "Could not parse selection index: "@ + text@,
            RmzError::SelectionOutOfRange { text } => "Selection index out of range: "@ + text@,
            RmzError::DirectoryNotEmpty { path } => "Cannot remove directory '"@ + path@
                + "': Directory not empty (use -r to delete recursively)"@,
            RmzError::Protected { path } => "Path is protected from deletion: "@ + path@,
            RmzError::ProtectedDirectory { path } => "Directory is protected from deletion: "@
                + path@,
            RmzError::Cancelled => "Deletion cancelled by user"@,
            RmzError::DirectoryCancelled => "Directory deletion cancelled by user"@,
            RmzError::EmptyInput => "Size string is empty"@,
            RmzError::InvalidNumber { text } => "Invalid size number: "@ + text@,
            RmzError::InvalidUnit { text } => "Invalid size unit: "@ + text@,
            RmzError::InvalidSizeFormat { text } => "Invalid size format: "@ + text@,
            RmzError::EmptyDuration => "Duration string is empty"@,
            RmzError::InvalidDurationNumber { text } => "Invalid duration number: "@ + text@,
            RmzError::InvalidDurationUnit { text } => "Invalid duration unit: "@ + text@,
            RmzError::MissingSelection =>
                "Must specify one of: --id, --all, --interactive, or file pattern"@,
            RmzError::MissingExtractSelection =>
                "Must specify one of: --from, --file, --interactive, or --all"@,
            RmzError::Config { message } => "Configuration error: "@ + message@,
            RmzError::Failed { message } => message@,
        }
    }

    /// What the failure says to the user.
    pub fn message(&self) -> (r: String)
        ensures
            r@ == self.message_text(),
    {
        match self {
            RmzError::NotFound { id } => around("File with ID ", format_id(*id).as_str(), " not found in trash"),
            RmzError::NoSuchFile { path } => text::concat("File does not exist: ", path.as_str()),
            RmzError::NoSuchPath { path } => text::concat("Path does not exist: ", path.as_str()),
            RmzError::NoMatch { query } => around(
                "No files matching partial ID '",
                query.as_str(),
                "' found in trash",
            ),
            RmzError::NoIdPrefix { prefix } => text::concat(
                "No file found with ID starting with: ",
                prefix.as_str(),
            ),
            RmzError::NoFileNamed { name } => around("No files found matching '", name.as_str(), "'"),
            RmzError::AlreadyExists { path } => around(
                "File already exists: ",
                path.as_str(),
                "\nUse --interactive flag to confirm overwrite, or restore to different location with --to",
            ),
            RmzError::ConcurrentModification { path } => text::concat(
                "File changed during operation: ",
                path.as_str(),
            ),
            RmzError::AmbiguousIdentifier { prefix, candidates } => {
                let mut r = around("Multiple files match partial ID '", prefix.as_str(), "':");
                r.append(list_ids(candidates).as_str());
                r.append("\nPlease provide a more specific ID to uniquely identify the file");
                r
            },
            RmzError::AmbiguousName { name, candidates } => {
                let mut r = around("Multiple files match '", name.as_str(), "':");
                r.append(list_ids(candidates).as_str());
                r.append("\nUse --interactive to select from multiple matches");
                r
            },
            RmzError::Corrupt { entry } => text::concat("Serialization error: ", entry.as_str()),
            RmzError::IoFailure { path } => text::concat("IO error: ", path.as_str()),
            RmzError::IdTooShort { id } => text::concat(
                "ID must be at least 8 characters long: ",
                id.as_str(),
            ),
            RmzError::NoFileName { path } => text::concat(
                "Cannot determine filename for restoration: ",
                path.as_str(),
            ),
            RmzError::NoExtractName { path } => text::concat(
                "Cannot determine filename for extraction: ",
                path.as_str(),
            ),
            RmzError::InvalidDate { text } => text::concat("Invalid date format: ", text.as_str()),
            RmzError::InvalidSince { text } => around(
                "Invalid date format: ",
                text.as_str(),
                ". Use 'today', 'yesterday', 'week', 'month', or YYYY-MM-DD",
            ),
            RmzError::InvalidBoolean { value } => around(
                "Invalid boolean value: ",
                value.as_str(),
                ". Use true/false, yes/no, on/off, 1/0, or enabled/disabled",
            ),
            RmzError::InvalidSelection { text } => text::concat(
                "Could not parse selection index: ",
                text.as_str(),
            ),
            RmzError::SelectionOutOfRange { text } => text::concat(
                "Selection index out of range: ",
                text.as_str(),
            ),
            RmzError::DirectoryNotEmpty { path } => around(
                "Cannot remove directory '",
                path.as_str(),
                "': Directory not empty (use -r to delete recursively)",
            ),
            RmzError::Protected { path } => text::concat(
                "Path is protected from deletion: ",
                path.as_str(),
            ),
            RmzError::ProtectedDirectory { path } => text::concat(
                "Directory is protected from deletion: ",
                path.as_str(),
            ),
            RmzError::Cancelled => "Deletion cancelled by user".to_owned(),
            RmzError::DirectoryCancelled => "Directory deletion cancelled by user".to_owned(),
            RmzError::EmptyInput => "Size string is empty".to_owned(),
            RmzError::InvalidNumber { text } => text::concat("Invalid size number: ", text.as_str()),
            RmzError::InvalidUnit { text } => text::concat("Invalid size unit: ", text.as_str()),
            RmzError::InvalidSizeFormat { text } => text::concat(
                "Invalid size format: ",
                text.as_str(),
            ),
            RmzError::EmptyDuration => "Duration string is empty".to_owned(),
            RmzError::InvalidDurationNumber { text } => text::concat(
                "Invalid duration number: ",
                text.as_str(),
            ),
            RmzError::InvalidDurationUnit { text } => text::concat(
                "Invalid duration unit: ",
                text.as_str(),
            ),
            RmzError::MissingSelection =>
                "Must specify one of: --id, --all, --interactive, or file pattern".to_owned(),
            RmzError::MissingExtractSelection =>
                "Must specify one of: --from, --file, --interactive, or --all".to_owned(),
            RmzError::Config { message } => text::concat("Configuration error: ", message.as_str()),
            RmzError::Failed { message } => message.clone(),
        }
    }
}

/// The text `middle` between `before` and `after`.
fn around(before: &str, middle: &str, after: &str) -> (r: String)
    ensures
        r@ == before@ + middle@ + after@,
{
    let mut r = text::concat(before, middle);
    r.append(after);
    r
}

} // verus!
