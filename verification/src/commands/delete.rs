//! Deleting: whether a path may be moved to the trash zone, and the record
//! that it is held under.

use crate::domain::config::{absolute, covered, Config};
use crate::domain::file_meta::FileMeta;
use crate::errors::RmzError;
use crate::utils::walk::{files_size, WalkEntry};
use vstd::prelude::*;

verus! {

/// What the delete command is to do.
#[derive(Debug, PartialEq, Eq)]
pub enum DeleteRequest {
    /// Only show what would be deleted.
    DryRun { paths: Vec<String> },
    /// Move the paths to the trash zone, one by one; a path that fails
    /// does not stop the others.
    Delete { paths: Vec<String> },
}

/// Decides what the delete command does with `paths`.
pub fn execute(paths: Vec<String>, dry_run: bool) -> (r: DeleteRequest)
    ensures
        r == if dry_run {
            DeleteRequest::DryRun { paths }
        } else {
            DeleteRequest::Delete { paths }
        },
{
    if dry_run {
        DeleteRequest::DryRun { paths }
    } else {
        DeleteRequest::Delete { paths }
    }
}

/// How a delete is to be carried out.
#[derive(Clone, Copy, Debug, PartialEq, Eq, Structural)]
pub struct DeleteOptions {
    pub force: bool,
    pub interactive: bool,
    pub recursive: bool,
    pub verbose: bool,
}

/// What the caller found at a path.
#[derive(Clone, Copy, Debug, PartialEq, Eq, Structural)]
pub enum PathKind {
    /// Nothing is there.
    Missing,
    /// A file, or anything else that is no directory.
    File,
    /// A directory that holds nothing.
    EmptyDirectory,
    /// A directory that holds something.
    Directory,
}

/// Whether a delete may go ahead at once.
#[derive(Clone, Copy, Debug, PartialEq, Eq, Structural)]
pub enum Gate {
    /// It may.
    Proceed,
    /// The user is to be asked first.
    Confirm,
}

/// Whether `r` refuses `path` with the error for a missing path.
pub open spec fn refuses_missing(r: Result<Gate, RmzError>, path: Seq<char>) -> bool {
    r matches Err(RmzError::NoSuchFile { path: p }) && p@ == path
}

/// Whether `r` refuses `path` with the error for a protected path.
pub open spec fn refuses_protected(r: Result<Gate, RmzError>, path: Seq<char>, directory: bool) -> bool {
    if directory {
        r matches Err(RmzError::ProtectedDirectory { path: p }) && p@ == path
    } else {
        r matches Err(RmzError::Protected { path: p }) && p@ == path
    }
}

/// Whether `r` refuses a path at which nothing stands.
pub open spec fn refuses_missing_path(r: Result<Gate, RmzError>, path: Seq<char>) -> bool {
    r matches Err(RmzError::NoSuchPath { path: p }) && p@ == path
}

/// Whether `r` refuses `path` with the error for a directory that is not
/// empty.
pub open spec fn refuses_not_empty(r: Result<Gate, RmzError>, path: Seq<char>) -> bool {
    r matches Err(RmzError::DirectoryNotEmpty { path: p }) && p@ == path
}

/// Decides on the delete of a single file. A missing file and a protected
/// path are refused. In interactive use without force the user is asked.
pub fn delete_single_file(
    config: &Config,
    path: &str,
    current_dir: &str,
    present: bool,
    options: &DeleteOptions,
) -> (r: Result<Gate, RmzError>)
    ensures
        !present ==> refuses_missing(r, path@),
        present && covered(config@.protected_paths, absolute(path@, current_dir@))
            ==> refuses_protected(r, path@, false),
        present && !covered(config@.protected_paths, absolute(path@, current_dir@)) ==> r == Ok::<
            Gate,
            RmzError,
        >(
            if options.interactive && !options.force {
                Gate::Confirm
            } else {
                Gate::Proceed
            },
        ),
{
    if !present {
        return Err(RmzError::NoSuchFile { path: path.to_owned() });
    }
    if config.is_protected(path, current_dir) {
        return Err(RmzError::Protected { path: path.to_owned() });
    }
    if options.interactive && !options.force {
        Ok(Gate::Confirm)
    } else {
        Ok(Gate::Proceed)
    }
}

/// Decides on the delete of a directory. A directory that holds something
/// is refused unless the delete is recursive; a protected path is refused.
/// For a directory that holds something the user is asked in interactive
/// use without force.
pub fn delete_directory(
    config: &Config,
    path: &str,
    current_dir: &str,
    is_empty: bool,
    options: &DeleteOptions,
) -> (r: Result<Gate, RmzError>)
    ensures
        !is_empty && !options.recursive ==> refuses_not_empty(r, path@),
        (is_empty || options.recursive) && covered(
            config@.protected_paths,
            absolute(path@, current_dir@),
        ) ==> refuses_protected(r, path@, true),
        (is_empty || options.recursive) && !covered(
            config@.protected_paths,
            absolute(path@, current_dir@),
        ) ==> r == Ok::<Gate, RmzError>(
            if !is_empty && !options.force && options.interactive {
                Gate::Confirm
            } else {
                Gate::Proceed
            },
        ),
{
    if !is_empty && !options.recursive {
        return Err(RmzError::DirectoryNotEmpty { path: path.to_owned() });
    }
    if config.is_protected(path, current_dir) {
        return Err(RmzError::ProtectedDirectory { path: path.to_owned() });
    }
    if !is_empty && !options.force && options.interactive {
        Ok(Gate::Confirm)
    } else {
        Ok(Gate::Proceed)
    }
}

/// Decides on the delete of a path, by what stands there.
pub fn delete_path(
    config: &Config,
    path: &str,
    current_dir: &str,
    kind: PathKind,
    options: &DeleteOptions,
) -> (r: Result<Gate, RmzError>)
    ensures
        kind == PathKind::Missing ==> refuses_missing_path(r, path@),
        kind == PathKind::Directory && !options.recursive ==> refuses_not_empty(r, path@),
        kind != PathKind::Missing && !(kind == PathKind::Directory && !options.recursive)
            && covered(config@.protected_paths, absolute(path@, current_dir@))
            ==> refuses_protected(r, path@, kind != PathKind::File),
        kind != PathKind::Missing && !(kind == PathKind::Directory && !options.recursive)
            && !covered(config@.protected_paths, absolute(path@, current_dir@)) ==> r == Ok::<
            Gate,
            RmzError,
        >(
            if options.interactive && !options.force && kind != PathKind::EmptyDirectory {
                Gate::Confirm
            } else {
                Gate::Proceed
            },
        ),
{
    match kind {
        PathKind::Missing => Err(RmzError::NoSuchPath { path: path.to_owned() }),
        PathKind::File => delete_single_file(config, path, current_dir, true, options),
        PathKind::EmptyDirectory => delete_directory(config, path, current_dir, true, options),
        PathKind::Directory => delete_directory(config, path, current_dir, false, options),
    }
}

/// What the user's answer to a confirmation means: a yes lets the delete
/// go ahead, a no gives it up with `Cancelled`.
pub fn confirm_deletion(confirmed: bool) -> (r: Result<(), RmzError>)
    ensures
        r == if confirmed {
            Ok::<(), RmzError>(())
        } else {
            Err::<(), RmzError>(RmzError::Cancelled)
        },
{
    if confirmed {
        Ok(())
    } else {
        Err(RmzError::Cancelled)
    }
}

/// What the user's answer means where a directory and what it holds are
/// to be deleted: a yes lets the delete go ahead, a no gives it up with
/// `DirectoryCancelled`.
pub fn confirm_directory_deletion(confirmed: bool) -> (r: Result<(), RmzError>)
    ensures
        r == if confirmed {
            Ok::<(), RmzError>(())
        } else {
            Err::<(), RmzError>(RmzError::DirectoryCancelled)
        },
{
    if confirmed {
        Ok(())
    } else {
        Err(RmzError::DirectoryCancelled)
    }
}

/// The total size of the files that a walk through a directory found.
pub fn calculate_directory_size(entries: &Vec<WalkEntry>) -> (total: u64)
    ensures
        total == if files_size(entries@, entries.len() as int) <= u64::MAX {
            files_size(entries@, entries.len() as int) as u64
        } else {
            u64::MAX
        },
{
    crate::utils::walk::calculate_directory_size(entries)
}

/// How many files and directories a walk through a directory found.
pub fn count_directory_contents(entries: &Vec<WalkEntry>) -> (count: usize)
    ensures
        count == entries.len(),
{
    crate::utils::walk::count_directory_contents(entries)
}

/// The record that a path is held under: fresh, of the present moment,
/// with the size given, and with the tag where one is given.
pub fn prepare_record(
    path: &str,
    size: u64,
    permissions: u32,
    deleted_by: &str,
    tag: Option<&str>,
) -> (r: FileMeta)
    ensures
        r@.original_path == path@,
        r@.size == size,
        r@.permissions == permissions,
        r@.deleted_by == deleted_by@,
        r@.checksum is None,
        r@.tags == match tag {
            Some(t) => seq![t@],
            None => Seq::<Seq<char>>::empty(),
        },
{
    let mut meta = FileMeta::from_path(path, size, permissions, deleted_by);
    match tag {
        Some(t) => {
            let ghost before = meta@;
            assert(!before.tags.contains(t@));
            meta.add_tag(t.to_owned());
            assert(meta@.tags =~= seq![t@]);
        },
        None => {},
    }
    meta
}

} // verus!
