//! The metadata record: the durable description of one held file.

use crate::domain::timestamp::Timestamp;
use crate::ids::{fresh_id, RANDOM_ID_BITS, RANDOM_ID_MASK};
use crate::paths;
use crate::text;
use vstd::prelude::*;

verus! {

/// Metadata for a file that has been moved to the trash zone.
#[derive(Debug, PartialEq, Eq)]
pub struct FileMeta {
    /// Unique identifier of the held file; never changed, never reused.
    pub id: u128,
    /// The path that the file occupied before it was held.
    pub original_path: String,
    /// When the file was held.
    pub deleted_at: Timestamp,
    /// Size of the file in bytes when it was held.
    pub size: u64,
    /// The permission bits of the file when it was held.
    pub permissions: u32,
    /// Labels given by the caller, in the order given, none twice.
    pub tags: Vec<String>,
    /// Content hash, where one has been computed.
    pub checksum: Option<String>,
    /// The user who held the file.
    pub deleted_by: String,
}

/// What a `FileMeta` holds, as mathematical values.
pub struct FileMetaView {
    pub id: u128,
    pub original_path: Seq<char>,
    pub deleted_at: int,
    pub size: u64,
    pub permissions: u32,
    pub tags: Seq<Seq<char>>,
    pub checksum: Option<Seq<char>>,
    pub deleted_by: Seq<char>,
}

/// The view of an optional text.
pub open spec fn option_text(t: Option<String>) -> Option<Seq<char>> {
    match t {
        Some(s) => Some(s@),
        None => None,
    }
}

/// The views of a list of texts.
pub open spec fn texts(v: Seq<String>) -> Seq<Seq<char>> {
    v.map_values(|s: String| s@)
}

impl View for FileMeta {
    type V = FileMetaView;

    open spec fn view(&self) -> FileMetaView {
        FileMetaView {
            id: self.id,
            original_path: self.original_path@,
            deleted_at: self.deleted_at@,
            size: self.size,
            permissions: self.permissions,
            tags: texts(self.tags@),
            checksum: option_text(self.checksum),
            deleted_by: self.deleted_by@,
        }
    }
}

/// A copy of a list of texts.
pub fn clone_texts(v: &Vec<String>) -> (r: Vec<String>)
    ensures
        texts(r@) == texts(v@),
{
    let mut r: Vec<String> = Vec::new();
    let mut i: usize = 0;
    while i < v.len()
        invariant
            i <= v.len(),
            r.len() == i,
            forall|j: int| 0 <= j < i ==> r@[j]@ == v@[j]@,
        decreases v.len() - i,
    {
        r.push(v[i].clone());
        i += 1;
    }
    assert(texts(r@) =~= texts(v@));
    r
}

/// Whether `tag` is among `tags`.
pub fn has_text(tags: &Vec<String>, tag: &str) -> (r: bool)
    ensures
        r == texts(tags@).contains(tag@),
{
    let mut i: usize = 0;
    while i < tags.len()
        invariant
            i <= tags.len(),
            forall|j: int| 0 <= j < i ==> texts(tags@)[j] != tag@,
        decreases tags.len() - i,
    {
        if text::same_text(tags[i].as_str(), tag) {
            assert(texts(tags@)[i as int] == tag@);
            return true;
        }
        i += 1;
    }
    false
}

impl Clone for FileMeta {
    fn clone(&self) -> (r: Self)
        ensures
            r@ == self@,
    {
        FileMeta {
            id: self.id,
            original_path: self.original_path.clone(),
            deleted_at: self.deleted_at,
            size: self.size,
            permissions: self.permissions,
            tags: clone_texts(&self.tags),
            checksum: match &self.checksum {
                Some(s) => Some(s.clone()),
                None => None,
            },
            deleted_by: self.deleted_by.clone(),
        }
    }
}

impl FileMeta {
    /// Whether no tag occurs twice.
    pub open spec fn tags_distinct(&self) -> bool {
        texts(self.tags@).no_duplicates()
    }

    /// The record of a file that is being held now: it gets a fresh
    /// identifier and the present time, no tags and no checksum.
    pub fn from_path(path: &str, size: u64, permissions: u32, deleted_by: &str) -> (r: FileMeta)
        ensures
            r@.original_path == path@,
            r@.size == size,
            r@.permissions == permissions,
            r@.tags == Seq::<Seq<char>>::empty(),
            r@.checksum is None,
            r@.deleted_by == deleted_by@,
            r.id & RANDOM_ID_MASK == RANDOM_ID_BITS,
            r.tags_distinct(),
    {
        let r = FileMeta {
            id: fresh_id(),
            original_path: path.to_owned(),
            deleted_at: Timestamp::now(),
            size,
            permissions,
            tags: Vec::new(),
            checksum: None,
            deleted_by: deleted_by.to_owned(),
        };
        assert(r@.tags =~= Seq::<Seq<char>>::empty());
        r
    }

    /// Adds `tag` at the end of the tags, unless it is already among them.
    pub fn add_tag(&mut self, tag: String)
        ensures
            old(self)@.tags.contains(tag@) ==> final(self)@ == old(self)@,
            !old(self)@.tags.contains(tag@) ==> final(self)@ == (FileMetaView {
                tags: old(self)@.tags.push(tag@),
                ..old(self)@
            }),
            old(self).tags_distinct() ==> final(self).tags_distinct(),
    {
        if !has_text(&self.tags, tag.as_str()) {
            let ghost before = texts(self.tags@);
            self.tags.push(tag);
            assert(texts(self.tags@) =~= before.push(tag@));
        }
    }

    /// The name of the file in its original directory.
    pub fn filename(&self) -> (r: Option<String>)
        ensures
            option_text(r) == paths::file_name_spec(self@.original_path),
    {
        paths::file_name(self.original_path.as_str())
    }

    /// The directory that held the file.
    pub fn original_directory(&self) -> (r: Option<String>)
        ensures
            option_text(r) == paths::parent_spec(self@.original_path),
    {
        paths::parent(self.original_path.as_str())
    }

    /// The recorded size in words.
    pub fn human_readable_size(&self) -> (r: String)
        ensures
            r@ == crate::utils::size_format::size_text(self.size),
    {
        crate::utils::size_format::format_size(self.size)
    }

    /// What `matches_pattern` decides.
    pub open spec fn matches_pattern_spec(v: FileMetaView, pattern: Seq<char>) -> bool {
        text::contains_text(v.original_path, pattern) || exists|i: int|
            0 <= i < v.tags.len() && text::contains_text(#[trigger] v.tags[i], pattern)
    }

    /// Whether `pattern` occurs in the original path or in one of the tags.
    pub fn matches_pattern(&self, pattern: &str) -> (r: bool)
        ensures
            r == Self::matches_pattern_spec(self@, pattern@),
    {
        if text::contains(self.original_path.as_str(), pattern) {
            return true;
        }
        let mut i: usize = 0;
        while i < self.tags.len()
            invariant
                i <= self.tags.len(),
                forall|j: int| 0 <= j < i ==> !text::contains_text(#[trigger] self@.tags[j], pattern@),
            decreases self.tags.len() - i,
        {
            if text::contains(self.tags[i].as_str(), pattern) {
                assert(text::contains_text(self@.tags[i as int], pattern@));
                return true;
            }
            i += 1;
        }
        false
    }
}

} // verus!
