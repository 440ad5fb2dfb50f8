//! The held item: a metadata record together with its physical location.

use crate::domain::file_meta::{FileMeta, FileMetaView};
use crate::domain::timestamp::day_of;
use crate::paths;
use crate::text;
use sha2::Digest;
use vstd::prelude::*;

verus! {

/// The SHA-256 digest of `content`, as 64 lowercase hexadecimal digits.
pub uninterp spec fn sha256_hex(content: Seq<u8>) -> Seq<char>;

/// `sha2::Sha256::digest` and the `LowerHex` formatting of its output: the
/// digest of the bytes given, in lowercase hexadecimal.
#[verifier::external_body]
fn digest_hex(content: &[u8]) -> (r: String)
    ensures
        r@ == sha256_hex(content@),
{
    format!("{:x}", sha2::Sha256::digest(content))
}

/// A complete trash item: metadata and the place of the physical file.
#[derive(Debug, PartialEq, Eq)]
pub struct TrashItem {
    /// File metadata.
    pub meta: FileMeta,
    /// Path where the file is stored inside the trash zone.
    pub trash_path: String,
}

/// What a `TrashItem` holds, as mathematical values.
pub struct TrashItemView {
    pub meta: FileMetaView,
    pub trash_path: Seq<char>,
}

impl View for TrashItem {
    type V = TrashItemView;

    open spec fn view(&self) -> TrashItemView {
        TrashItemView { meta: self.meta@, trash_path: self.trash_path@ }
    }
}

impl Clone for TrashItem {
    fn clone(&self) -> (r: Self)
        ensures
            r@ == self@,
    {
        TrashItem { meta: self.meta.clone(), trash_path: self.trash_path.clone() }
    }
}

impl TrashItem {
    /// Pairs a record with the location of its physical file.
    pub fn new(meta: FileMeta, trash_path: String) -> (r: TrashItem)
        ensures
            r.meta == meta,
            r.trash_path == trash_path,
    {
        TrashItem { meta, trash_path }
    }

    /// The SHA-256 checksum of a file's content, in hexadecimal.
    pub fn calculate_checksum(content: &[u8]) -> (r: String)
        ensures
            r@ == sha256_hex(content@),
    {
        digest_hex(content)
    }

    /// Whether the content given agrees with the checksum recorded. A
    /// record without a checksum agrees with any content.
    pub fn verify_integrity(&self, content: &[u8]) -> (r: bool)
        ensures
            r == match self@.meta.checksum {
                Some(expected) => expected == sha256_hex(content@),
                None => true,
            },
    {
        match &self.meta.checksum {
            Some(expected) => {
                let actual = digest_hex(content);
                text::same_text(actual.as_str(), expected.as_str())
            },
            None => true,
        }
    }

    /// The subdirectory of the trash zone for the day of the deletion.
    pub fn trash_subdirectory(&self) -> (r: String)
        ensures
            r@ == day_of(self@.meta.deleted_at),
    {
        self.meta.deleted_at.date_bucket()
    }

    /// The path of a metadata file beside the physical file.
    pub fn metadata_path(&self) -> (r: String)
        ensures
            r@ == paths::with_extension_spec(self@.trash_path, "meta.json"@),
    {
        paths::with_extension(self.trash_path.as_str(), "meta.json")
    }
}

} // verus!
