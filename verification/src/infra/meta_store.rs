//! The metadata index: a store of metadata records keyed by identifier.
//!
//! The index lives in memory. The caller fills it from the entries of the
//! metadata directory and writes each change back to that directory.

use crate::domain::file_meta::{FileMeta, FileMetaView};
use crate::errors::RmzError;
use crate::ids::{format_id, id_text};
use crate::paths::{self, extension_spec, join_spec};
use crate::text;
use vstd::prelude::*;

verus! {

/// The position of the record with identifier `id` in `records`, or
/// `None` where there is none. With distinct identifiers there is at most one.
pub open spec fn position(records: Seq<FileMetaView>, id: u128) -> Option<int>
    decreases records.len(),
{
    if records.len() == 0 {
        None
    } else if records.last().id == id {
        Some(records.len() - 1)
    } else {
        position(records.drop_last(), id)
    }
}

/// The record with identifier `id`, if `records` holds one.
pub open spec fn lookup(records: Seq<FileMetaView>, id: u128) -> Option<FileMetaView> {
    match position(records, id) {
        Some(i) => Some(records[i]),
        None => None,
    }
}

/// `records` with `meta` written under its identifier: in place of the
/// record that had it, or at the end.
pub open spec fn put(records: Seq<FileMetaView>, meta: FileMetaView) -> Seq<FileMetaView> {
    match position(records, meta.id) {
        Some(i) => records.update(i, meta),
        None => records.push(meta),
    }
}

/// `records` without the record with identifier `id`.
pub open spec fn without(records: Seq<FileMetaView>, id: u128) -> Seq<FileMetaView> {
    match position(records, id) {
        Some(i) => records.remove(i),
        None => records,
    }
}

/// Whether no identifier occurs twice in `records`.
pub open spec fn distinct_ids(records: Seq<FileMetaView>) -> bool {
    forall|i: int, j: int|
        0 <= i < records.len() && 0 <= j < records.len() && i != j ==> records[i].id
            != records[j].id
}

/// `sorted` with `meta` inserted behind every record that is not older
/// than it.
pub open spec fn insert_by_age(sorted: Seq<FileMetaView>, meta: FileMetaView) -> Seq<
    FileMetaView,
>
    decreases sorted.len(),
{
    if sorted.len() == 0 {
        seq![meta]
    } else if sorted.last().deleted_at >= meta.deleted_at {
        sorted.push(meta)
    } else {
        insert_by_age(sorted.drop_last(), meta).push(sorted.last())
    }
}

/// `records` ordered from the newest to the oldest; records of the same
/// age keep the order they had.
pub open spec fn newest_first(records: Seq<FileMetaView>) -> Seq<FileMetaView>
    decreases records.len(),
{
    if records.len() == 0 {
        records
    } else {
        insert_by_age(newest_first(records.drop_last()), records.last())
    }
}

/// Whether each record of `records` is at least as new as the next.
pub open spec fn descending(records: Seq<FileMetaView>) -> bool {
    forall|i: int, j: int|
        0 <= i <= j < records.len() ==> records[i].deleted_at >= records[j].deleted_at
}

/// The views of a list of records.
pub open spec fn views(records: Seq<FileMeta>) -> Seq<FileMetaView> {
    records.map_values(|m: FileMeta| m@)
}

/// What `position` finds: a record with the identifier where it finds
/// one, and that there is none where it finds none. With distinct
/// identifiers it finds every record by its identifier.
pub proof fn lemma_position(records: Seq<FileMetaView>, id: u128)
    ensures
        position(records, id) matches Some(i) ==> 0 <= i < records.len() && records[i].id == id,
        position(records, id) is None ==> forall|k: int|
            0 <= k < records.len() ==> records[k].id != id,
        distinct_ids(records) ==> forall|k: int|
            0 <= k < records.len() && records[k].id == id ==> position(records, id) == Some(k),
    decreases records.len(),
{
    if records.len() > 0 {
        let head = records.drop_last();
        lemma_position(head, id);
        assert forall|k: int| 0 <= k < head.len() implies head[k] == records[k] by {}
        if records.last().id != id {
            if position(records, id) is None {
                assert forall|k: int| 0 <= k < records.len() implies records[k].id != id by {
                    if k < head.len() {
                        assert(head[k].id != id);
                    }
                }
            }
            if distinct_ids(records) {
                assert(distinct_ids(head)) by {
                    assert forall|i: int, j: int|
                        0 <= i < head.len() && 0 <= j < head.len() && i != j implies head[i].id
                        != head[j].id by {
                        assert(head[i] == records[i] && head[j] == records[j]);
                    }
                }
                assert forall|k: int|
                    0 <= k < records.len() && records[k].id == id implies position(records, id)
                    == Some(k) by {
                    assert(head[k].id == id);
                }
            }
        }
    }
}

/// Writing a record keeps the identifiers distinct.
pub proof fn lemma_put_distinct(records: Seq<FileMetaView>, meta: FileMetaView)
    requires
        distinct_ids(records),
    ensures
        distinct_ids(put(records, meta)),
{
    lemma_position(records, meta.id);
}

/// Removing a record keeps the identifiers distinct.
pub proof fn lemma_without_distinct(records: Seq<FileMetaView>, id: u128)
    requires
        distinct_ids(records),
    ensures
        distinct_ids(without(records, id)),
{
    lemma_position(records, id);
}

/// A record that was written is the one that a lookup of its identifier
/// returns, and no other identifier is affected.
pub proof fn law_put_then_get(records: Seq<FileMetaView>, meta: FileMetaView, other: u128)
    requires
        distinct_ids(records),
    ensures
        lookup(put(records, meta), meta.id) == Some(meta),
        other != meta.id ==> lookup(put(records, meta), other) == lookup(records, other),
        put(put(records, meta), meta) == put(records, meta),
{
    lemma_position(records, meta.id);
    lemma_position(records, other);
    let after = put(records, meta);
    lemma_put_distinct(records, meta);
    lemma_position(after, meta.id);
    lemma_position(after, other);
    match position(records, meta.id) {
        Some(i) => {
            assert(after[i].id == meta.id);
            assert(after.update(i, meta) =~= after);
        },
        None => {
            assert(after[records.len() as int].id == meta.id);
            assert(after.update(records.len() as int, meta) =~= after);
        },
    }
    if other != meta.id {
        match position(records, other) {
            Some(j) => {
                assert(after[j] == records[j]);
            },
            None => {
                if position(after, other) is Some {
                    let j = position(after, other)->0;
                    if j < records.len() {
                        assert(records[j].id == other);
                    }
                }
            },
        }
    }
}

/// After a record is removed a lookup of its identifier finds nothing, and
/// no other identifier is affected. Removing what is absent changes nothing.
pub proof fn law_delete_then_get(records: Seq<FileMetaView>, id: u128, other: u128)
    requires
        distinct_ids(records),
    ensures
        lookup(without(records, id), id) is None,
        other != id ==> lookup(without(records, id), other) == lookup(records, other),
        lookup(records, id) is None ==> without(records, id) == records,
{
    lemma_position(records, id);
    lemma_position(records, other);
    let after = without(records, id);
    lemma_without_distinct(records, id);
    lemma_position(after, id);
    lemma_position(after, other);
    match position(records, id) {
        Some(i) => {
            if position(after, id) is Some {
                let k = position(after, id)->0;
                if k < i {
                    assert(records[k].id == id);
                } else {
                    assert(records[k + 1].id == id);
                }
            }
            if other != id {
                match position(records, other) {
                    Some(j) => {
                        if j < i {
                            assert(after[j] == records[j]);
                        } else {
                            assert(after[j - 1] == records[j]);
                        }
                    },
                    None => {
                        if position(after, other) is Some {
                            let k = position(after, other)->0;
                            if k < i {
                                assert(records[k].id == other);
                            } else {
                                assert(records[k + 1].id == other);
                            }
                        }
                    },
                }
            }
        },
        None => {},
    }
}

/// Inserting by age keeps the order and adds exactly the new record.
pub proof fn lemma_insert_by_age(sorted: Seq<FileMetaView>, meta: FileMetaView)
    requires
        descending(sorted),
    ensures
        descending(insert_by_age(sorted, meta)),
        insert_by_age(sorted, meta).len() == sorted.len() + 1,
        insert_by_age(sorted, meta).to_multiset() == sorted.to_multiset().insert(meta),
    decreases sorted.len(),
{
    broadcast use vstd::seq_lib::group_to_multiset_ensures;

    if sorted.len() == 0 {
        assert(seq![meta] =~= Seq::<FileMetaView>::empty().push(meta));
    } else if sorted.last().deleted_at >= meta.deleted_at {
    } else {
        let head = sorted.drop_last();
        assert(descending(head)) by {
            assert forall|i: int, j: int| 0 <= i <= j < head.len() implies head[i].deleted_at
                >= head[j].deleted_at by {
                assert(head[i] == sorted[i] && head[j] == sorted[j]);
            }
        }
        lemma_insert_by_age(head, meta);
        let inner = insert_by_age(head, meta);
        let out = inner.push(sorted.last());
        assert(sorted =~= head.push(sorted.last()));
        assert forall|x: FileMetaView| inner.contains(x) implies x.deleted_at
            >= sorted.last().deleted_at by {
            assert(inner.to_multiset().count(x) > 0);
            if x != meta {
                assert(head.to_multiset().count(x) > 0);
                assert(head.contains(x));
                let k = choose|k: int| 0 <= k < head.len() && head[k] == x;
                assert(sorted[k] == x);
            }
        }
        assert forall|i: int, j: int| 0 <= i <= j < out.len() implies out[i].deleted_at
            >= out[j].deleted_at by {
            if j == out.len() - 1 && i < j {
                assert(inner.contains(inner[i]));
            }
        }
    }
}

/// Ordering from newest to oldest rearranges the records and loses none.
pub proof fn lemma_newest_first(records: Seq<FileMetaView>)
    ensures
        descending(newest_first(records)),
        newest_first(records).len() == records.len(),
        newest_first(records).to_multiset() == records.to_multiset(),
    decreases records.len(),
{
    broadcast use vstd::seq_lib::group_to_multiset_ensures;

    if records.len() > 0 {
        lemma_newest_first(records.drop_last());
        lemma_insert_by_age(newest_first(records.drop_last()), records.last());
        assert(records =~= records.drop_last().push(records.last()));
    }
}

/// One entry of the metadata directory, as the caller read it.
pub struct MetadataEntry {
    /// The name of the file in the metadata directory.
    pub file_name: String,
    /// The record that the file holds, or `None` where it could not be
    /// understood.
    pub record: Option<FileMeta>,
}

/// Whether a file of the metadata directory is taken for a record file:
/// its extension is `json`.
pub open spec fn is_record_file(file_name: Seq<char>) -> bool {
    extension_spec(file_name) == Some("json"@)
}

/// The index that a sequence of directory entries gives: each readable
/// record file is written under its identifier, in the order of the entries.
pub open spec fn loaded(entries: Seq<MetadataEntry>) -> Seq<FileMetaView>
    decreases entries.len(),
{
    if entries.len() == 0 {
        Seq::empty()
    } else {
        let rest = loaded(entries.drop_last());
        let last = entries.last();
        match last.record {
            Some(meta) if is_record_file(last.file_name@) => put(rest, meta@),
            _ => rest,
        }
    }
}

/// The names of the record files among `entries` that could not be
/// understood, in the order of the entries.
pub open spec fn unreadable(entries: Seq<MetadataEntry>) -> Seq<Seq<char>>
    decreases entries.len(),
{
    if entries.len() == 0 {
        Seq::empty()
    } else {
        let rest = unreadable(entries.drop_last());
        let last = entries.last();
        if is_record_file(last.file_name@) && last.record is None {
            rest.push(last.file_name@)
        } else {
            rest
        }
    }
}

/// Whether `warnings` reports the entries named: one `Corrupt` for each
/// name, in order.
pub open spec fn reports_corrupt(warnings: Seq<RmzError>, names: Seq<Seq<char>>) -> bool {
    &&& warnings.len() == names.len()
    &&& forall|i: int|
        0 <= i < names.len() ==> (#[trigger] warnings[i] matches RmzError::Corrupt { entry }
            && entry@ == names[i])
}

/// The metadata index.
pub struct MetaStore {
    metadata_dir: String,
    records: Vec<FileMeta>,
}

impl MetaStore {
    /// The invariant of the index: no identifier occurs twice.
    pub closed spec fn wf(&self) -> bool {
        distinct_ids(views(self.records@))
    }

    /// What the invariant gives: no identifier occurs twice among the
    /// records. With it the laws of the index hold of every index that
    /// satisfies the invariant.
    pub proof fn lemma_wf(&self)
        requires
            self.wf(),
        ensures
            distinct_ids(self.records()),
    {
    }

    /// The directory that backs the index.
    pub closed spec fn dir(&self) -> Seq<char> {
        self.metadata_dir@
    }

    /// The records of the index, in the order in which their identifiers
    /// were first written.
    pub closed spec fn records(&self) -> Seq<FileMetaView> {
        views(self.records@)
    }

    /// The path of the file that backs the record with identifier `id`.
    pub open spec fn file_path_spec(dir: Seq<char>, id: u128) -> Seq<char> {
        join_spec(dir, id_text(id) + ".json"@)
    }

    /// An empty index backed by `metadata_dir`.
    pub fn new(metadata_dir: String) -> (r: MetaStore)
        ensures
            r.wf(),
            r.dir() == metadata_dir@,
            r.records() == Seq::<FileMetaView>::empty(),
    {
        let r = MetaStore { metadata_dir, records: Vec::new() };
        assert(r.records() =~= Seq::<FileMetaView>::empty());
        r
    }

    /// The index that the entries of the metadata directory give, and a
    /// warning for each record file that could not be understood: such a
    /// file is passed over, and the rest is loaded. Entries that are not
    /// record files are passed over in silence.
    pub fn load(metadata_dir: String, entries: Vec<MetadataEntry>) -> (r: (
        MetaStore,
        Vec<RmzError>,
    ))
        ensures
            r.0.wf(),
            r.0.dir() == metadata_dir@,
            r.0.records() == loaded(entries@),
            reports_corrupt(r.1@, unreadable(entries@)),
    {
        let mut store = MetaStore::new(metadata_dir);
        let mut skipped: Vec<RmzError> = Vec::new();
        let mut i: usize = 0;
        assert(entries@.take(0) =~= Seq::<MetadataEntry>::empty());
        while i < entries.len()
            invariant
                i <= entries.len(),
                store.wf(),
                store.dir() == metadata_dir@,
                store.records() == loaded(entries@.take(i as int)),
                reports_corrupt(skipped@, unreadable(entries@.take(i as int))),
            decreases entries.len() - i,
        {
            let entry = &entries[i];
            let ghost before = entries@.take(i as int);
            let ghost after = entries@.take(i + 1);
            assert(after.drop_last() =~= before);
            assert(after.last() == entries@[i as int]);
            let is_record = match paths::extension(entry.file_name.as_str()) {
                Some(ext) => text::same_text(ext.as_str(), "json"),
                None => false,
            };
            if is_record {
                match &entry.record {
                    Some(meta) => {
                        store.save_metadata(meta);
                    },
                    None => {
                        let ghost shown = skipped@;
                        skipped.push(RmzError::Corrupt { entry: entry.file_name.clone() });
                        assert forall|k: int| 0 <= k < shown.len() implies skipped@[k]
                            == shown[k] by {}
                    },
                }
            }
            i += 1;
        }
        assert(entries@.take(entries.len() as int) =~= entries@);
        (store, skipped)
    }

    /// The directory that backs the index.
    pub fn metadata_dir(&self) -> (r: &String)
        ensures
            r@ == self.dir(),
    {
        &self.metadata_dir
    }

    /// The number of records in the index.
    pub fn len(&self) -> (r: usize)
        ensures
            r == self.records().len(),
    {
        self.records.len()
    }

    /// The path of the file that backs the record with identifier `id`.
    pub fn metadata_file_path(&self, id: u128) -> (r: String)
        ensures
            r@ == Self::file_path_spec(self.dir(), id),
    {
        let name = text::concat(format_id(id).as_str(), ".json");
        paths::join(self.metadata_dir.as_str(), name.as_str())
    }

    fn find(&self, id: u128) -> (r: Option<usize>)
        requires
            self.wf(),
        ensures
            r matches Some(i) ==> position(self.records(), id) == Some(i as int) && i
                < self.records@.len(),
            r is None ==> position(self.records(), id) is None,
    {
        proof {
            lemma_position(self.records(), id);
        }
        let mut i: usize = 0;
        while i < self.records.len()
            invariant
                i <= self.records.len(),
                self.wf(),
                forall|k: int| 0 <= k < i ==> self.records()[k].id != id,
            decreases self.records.len() - i,
        {
            if self.records[i].id == id {
                proof {
                    assert(self.records()[i as int].id == id);
                    lemma_position(self.records(), id);
                }
                return Some(i);
            }
            i += 1;
        }
        proof {
            lemma_position(self.records(), id);
        }
        None
    }

    /// Writes `meta` under its identifier, over the record that was there.
    pub fn save_metadata(&mut self, meta: &FileMeta)
        requires
            old(self).wf(),
        ensures
            final(self).wf(),
            final(self).dir() == old(self).dir(),
            final(self).records() == put(old(self).records(), meta@),
    {
        proof {
            lemma_position(self.records(), meta.id);
        }
        let ghost before = self.records();
        match self.find(meta.id) {
            Some(i) => {
                self.records.set(i, meta.clone());
                assert(views(self.records@) =~= before.update(i as int, meta@));
            },
            None => {
                self.records.push(meta.clone());
                assert(views(self.records@) =~= before.push(meta@));
            },
        }
        proof {
            lemma_put_distinct(before, meta@);
        }
    }

    /// The record with identifier `id`, if the index holds one.
    pub fn load_metadata(&self, id: u128) -> (r: Option<FileMeta>)
        requires
            self.wf(),
        ensures
            r is Some <==> lookup(self.records(), id) is Some,
            r matches Some(meta) ==> Some(meta@) == lookup(self.records(), id),
    {
        match self.find(id) {
            Some(i) => Some(self.records[i].clone()),
            None => None,
        }
    }

    /// Every record of the index, from the newest to the oldest.
    pub fn list_all_metadata(&self) -> (r: Vec<FileMeta>)
        ensures
            views(r@) == newest_first(self.records()),
    {
        let mut sorted: Vec<FileMeta> = Vec::new();
        let mut i: usize = 0;
        assert(self.records().take(0) =~= Seq::<FileMetaView>::empty());
        assert(views(sorted@) =~= Seq::<FileMetaView>::empty());
        while i < self.records.len()
            invariant
                i <= self.records.len(),
                views(sorted@) == newest_first(self.records().take(i as int)),
            decreases self.records.len() - i,
        {
            let ghost before = self.records().take(i as int);
            let ghost after = self.records().take(i + 1);
            assert(after.drop_last() =~= before);
            assert(after.last() == self.records@[i as int]@);
            insert_record(&mut sorted, self.records[i].clone());
            i += 1;
        }
        assert(self.records().take(self.records.len() as int) =~= self.records());
        sorted
    }

    /// Removes the record with identifier `id`, if the index holds one.
    pub fn delete_metadata(&mut self, id: u128)
        requires
            old(self).wf(),
        ensures
            final(self).wf(),
            final(self).dir() == old(self).dir(),
            final(self).records() == without(old(self).records(), id),
    {
        proof {
            lemma_position(self.records(), id);
        }
        let ghost before = self.records();
        match self.find(id) {
            Some(i) => {
                self.records.remove(i);
                assert(views(self.records@) =~= before.remove(i as int));
            },
            None => {},
        }
        proof {
            lemma_without_distinct(before, id);
        }
    }
}

/// Inserts `meta` into `sorted` behind every record not older than it.
fn insert_record(sorted: &mut Vec<FileMeta>, meta: FileMeta)
    ensures
        views(final(sorted)@) == insert_by_age(views(old(sorted)@), meta@),
{
    let ghost start = views(sorted@);
    // The position behind the last record that is not older than `meta`.
    let mut at: usize = sorted.len();
    assert(start.take(at as int) =~= start);
    while at > 0 && sorted[at - 1].deleted_at.is_before(&meta.deleted_at)
        invariant
            at <= sorted.len(),
            views(sorted@) == start,
            insert_by_age(start, meta@) == insert_by_age(start.take(at as int), meta@)
                + start.skip(at as int),
        decreases at,
    {
        proof {
            let head = start.take(at as int);
            assert(head.drop_last() =~= start.take(at - 1));
            assert(head.last() == start[at - 1]);
            assert(insert_by_age(head.drop_last(), meta@).push(head.last()) + start.skip(
                at as int,
            ) =~= insert_by_age(head.drop_last(), meta@) + start.skip(at - 1));
        }
        at -= 1;
    }
    proof {
        let head = start.take(at as int);
        if at > 0 {
            assert(head.last() == start[at - 1]);
        }
        assert(insert_by_age(head, meta@) == head.push(meta@)) by {
            if head.len() == 0 {
                assert(head.push(meta@) =~= seq![meta@]);
            }
        }
    }
    sorted.insert(at, meta);
    assert(views(sorted@) =~= start.take(at as int).push(meta@) + start.skip(at as int));
}

} // verus!
