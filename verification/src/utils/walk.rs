//! What a walk through a directory found: one entry for every file and
//! directory below it, at any depth.

use vstd::prelude::*;

verus! {

/// What kind of thing an entry is.
#[derive(Clone, Copy, Debug, PartialEq, Eq, Structural)]
pub enum EntryKind {
    File,
    Directory,
    Other,
}

/// One entry of a walk.
#[derive(Clone, Copy, Debug, PartialEq, Eq, Structural)]
pub struct WalkEntry {
    pub kind: EntryKind,
    /// The size in bytes, for a file.
    pub size: u64,
}

/// The sum of the sizes of the files among the first `n` entries.
pub open spec fn files_size(entries: Seq<WalkEntry>, n: int) -> nat
    decreases n,
{
    if n <= 0 {
        0
    } else {
        files_size(entries, n - 1) + if entries[n - 1].kind == EntryKind::File {
            entries[n - 1].size as nat
        } else {
            0nat
        }
    }
}

/// How many of the first `n` entries are files.
pub open spec fn files_count(entries: Seq<WalkEntry>, n: int) -> nat
    decreases n,
{
    if n <= 0 {
        0
    } else {
        files_count(entries, n - 1) + if entries[n - 1].kind == EntryKind::File {
            1nat
        } else {
            0nat
        }
    }
}

/// The total size of the files of a walk, or the largest 64-bit number
/// where the total is more.
pub fn calculate_directory_size(entries: &Vec<WalkEntry>) -> (total: u64)
    ensures
        total == if files_size(entries@, entries.len() as int) <= u64::MAX {
            files_size(entries@, entries.len() as int) as u64
        } else {
            u64::MAX
        },
{
    let mut total: u64 = 0;
    let mut i: usize = 0;
    while i < entries.len()
        invariant
            i <= entries.len(),
            total == if files_size(entries@, i as int) <= u64::MAX {
                files_size(entries@, i as int) as u64
            } else {
                u64::MAX
            },
        decreases entries.len() - i,
    {
        if entries[i].kind == EntryKind::File {
            total = total.saturating_add(entries[i].size);
        }
        i += 1;
    }
    total
}

/// How many files and directories a walk found, at any depth.
pub fn count_directory_contents(entries: &Vec<WalkEntry>) -> (count: usize)
    ensures
        count == entries.len(),
{
    entries.len()
}

/// How many files a walk found, at any depth.
pub fn count_files_in_directory(entries: &Vec<WalkEntry>) -> (count: usize)
    ensures
        count == files_count(entries@, entries.len() as int),
{
    let mut count: usize = 0;
    let mut i: usize = 0;
    while i < entries.len()
        invariant
            i <= entries.len(),
            count == files_count(entries@, i as int),
            count <= i,
        decreases entries.len() - i,
    {
        if entries[i].kind == EntryKind::File {
            count += 1;
        }
        i += 1;
    }
    count
}

} // verus!
