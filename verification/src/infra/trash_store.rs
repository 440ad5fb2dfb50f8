//! The trash storage engine: the life of a held file from save to restore
//! or purge, over the metadata index and the physical layout of the zone.
//!
//! The engine keeps in memory what it knows of the zone: the index and the
//! set of physical files present. It performs no file-system access. Each
//! operation that changes the disk comes in two parts: a plan, the steps
//! that the caller is to carry out in order, stopping at the first that
//! fails; and the operation itself, which takes the caller's report of how
//! far the steps got and records their effect.

use crate::domain::file_meta::{texts, FileMeta, FileMetaView};
use crate::domain::timestamp::day_of;
use crate::domain::trash_item::{TrashItem, TrashItemView};
use crate::errors::RmzError;
use crate::ids::{format_id, hex_digit, id_text, lemma_id_text_tells_id};
use crate::infra::meta_store::{
    distinct_ids, law_delete_then_get, law_put_then_get, lemma_newest_first, lemma_position,
    lookup, newest_first, put, views, without, MetaStore, MetadataEntry,
};
use crate::paths::{self, join_spec};
use crate::text;
use vstd::prelude::*;

verus! {

/// One step of a plan, to be carried out on the disk by the caller.
#[derive(Debug, PartialEq, Eq)]
pub enum FsStep {
    /// Move the file or directory at `from` to `to` by the safe move
    /// protocol, creating the parent directory of `to` where it is absent.
    /// Afterwards `to` holds what `from` held, and `from` is gone.
    Move { from: String, to: String },
    /// Write `record` to the file at `path`, over what was there, creating
    /// the directory of `path` where it is absent.
    WriteRecord { path: String, record: FileMeta },
    /// Remove the file at `path`; that it is absent already is no failure.
    RemoveRecord { path: String },
    /// Remove the file at `path`, or the directory with all it holds.
    RemoveTree { path: String },
}

/// What an `FsStep` holds, as mathematical values.
pub enum FsStepView {
    Move { from: Seq<char>, to: Seq<char> },
    WriteRecord { path: Seq<char>, record: FileMetaView },
    RemoveRecord { path: Seq<char> },
    RemoveTree { path: Seq<char> },
}

impl View for FsStep {
    type V = FsStepView;

    open spec fn view(&self) -> FsStepView {
        match self {
            FsStep::Move { from, to } => FsStepView::Move { from: from@, to: to@ },
            FsStep::WriteRecord { path, record } => FsStepView::WriteRecord {
                path: path@,
                record: record@,
            },
            FsStep::RemoveRecord { path } => FsStepView::RemoveRecord { path: path@ },
            FsStep::RemoveTree { path } => FsStepView::RemoveTree { path: path@ },
        }
    }
}

/// The views of a list of steps.
pub open spec fn step_views(steps: Seq<FsStep>) -> Seq<FsStepView> {
    steps.map_values(|s: FsStep| s@)
}

/// How the steps of a plan went.
#[derive(Debug, PartialEq, Eq)]
pub enum StepReport {
    /// Every step was carried out.
    Done,
    /// The first `completed` steps were carried out; the next one failed
    /// with `error`, and no later step was tried.
    Failed { completed: usize, error: RmzError },
}

impl StepReport {
    /// How many steps of a plan of `planned` steps were carried out.
    pub open spec fn carried_out(&self, planned: nat) -> nat {
        match self {
            StepReport::Done => planned,
            StepReport::Failed { completed, .. } => if *completed as nat <= planned {
                *completed as nat
            } else {
                planned
            },
        }
    }
}

/// What the engine knows of the zone.
pub struct ZoneView {
    /// The root directory of the zone.
    pub root: Seq<char>,
    /// The records of the metadata index.
    pub records: Seq<FileMetaView>,
    /// The physical files that are present.
    pub files: Set<Seq<char>>,
}

/// The name of the metadata directory inside the root.
pub open spec fn metadata_dir_of(root: Seq<char>) -> Seq<char> {
    join_spec(root, "metadata"@)
}

/// The directory inside the root that holds the files of a record's day.
pub open spec fn date_subdir(root: Seq<char>, meta: FileMetaView) -> Seq<char> {
    join_spec(root, day_of(meta.deleted_at))
}

/// The name of the physical file of a record.
pub open spec fn trash_filename(meta: FileMetaView) -> Seq<char> {
    id_text(meta.id) + ".rmz"@
}

/// The physical location of a record: root, day, identifier.
pub open spec fn location(root: Seq<char>, meta: FileMetaView) -> Seq<char> {
    join_spec(date_subdir(root, meta), trash_filename(meta))
}

/// The path of the file that backs a record in the metadata directory.
pub open spec fn record_path(root: Seq<char>, id: u128) -> Seq<char> {
    MetaStore::file_path_spec(metadata_dir_of(root), id)
}

/// The held item of a record whose physical file is present.
pub open spec fn item_of(root: Seq<char>, meta: FileMetaView) -> TrashItemView {
    TrashItemView { meta, trash_path: location(root, meta) }
}

impl ZoneView {
    /// Whether the physical file of `meta` is present.
    pub open spec fn present(self, meta: FileMetaView) -> bool {
        self.files.contains(location(self.root, meta))
    }

    /// The held item with identifier `id`: its record, where the index has
    /// one and the physical file is present.
    pub open spec fn held(self, id: u128) -> Option<TrashItemView> {
        match lookup(self.records, id) {
            Some(meta) => if self.present(meta) {
                Some(item_of(self.root, meta))
            } else {
                None
            },
            None => None,
        }
    }

    /// The held items among `records`, in the order of `records`.
    pub open spec fn items_among(self, records: Seq<FileMetaView>) -> Seq<TrashItemView>
        decreases records.len(),
    {
        if records.len() == 0 {
            Seq::empty()
        } else {
            let rest = self.items_among(records.drop_last());
            if self.present(records.last()) {
                rest.push(item_of(self.root, records.last()))
            } else {
                rest
            }
        }
    }

    /// The records among `records` whose physical file is absent.
    pub open spec fn missing_among(self, records: Seq<FileMetaView>) -> Seq<FileMetaView>
        decreases records.len(),
    {
        if records.len() == 0 {
            Seq::empty()
        } else {
            let rest = self.missing_among(records.drop_last());
            if self.present(records.last()) {
                rest
            } else {
                rest.push(records.last())
            }
        }
    }

    /// Whether `path` is the physical location of one of `records`.
    pub open spec fn located(self, records: Seq<FileMetaView>, path: Seq<char>) -> bool {
        exists|i: int| 0 <= i < records.len() && #[trigger] location(self.root, records[i]) == path
    }

    /// The physical files that no record of the index accounts for.
    pub open spec fn orphaned(self) -> Set<Seq<char>> {
        Set::new(|p: Seq<char>| self.files.contains(p) && !self.located(self.records, p))
    }

    /// Every held item, from the newest to the oldest.
    pub open spec fn listing(self) -> Seq<TrashItemView> {
        self.items_among(newest_first(self.records))
    }

    /// The steps that save `meta` from `source`: move, then index.
    pub open spec fn save_plan(self, meta: FileMetaView, source: Seq<char>) -> Seq<FsStepView> {
        seq![
            FsStepView::Move { from: source, to: location(self.root, meta) },
            FsStepView::WriteRecord { path: record_path(self.root, meta.id), record: meta },
        ]
    }

    /// The zone after the first `done` steps of a save.
    pub open spec fn after_save(self, meta: FileMetaView, done: nat) -> ZoneView {
        ZoneView {
            root: self.root,
            records: if done >= 2 {
                put(self.records, meta)
            } else {
                self.records
            },
            files: if done >= 1 {
                self.files.insert(location(self.root, meta))
            } else {
                self.files
            },
        }
    }

    /// The steps that bring the held item `item` to `destination`: move,
    /// then drop the record.
    pub open spec fn restore_plan(self, item: TrashItemView, destination: Seq<char>) -> Seq<
        FsStepView,
    > {
        seq![
            FsStepView::Move { from: item.trash_path, to: destination },
            FsStepView::RemoveRecord { path: record_path(self.root, item.meta.id) },
        ]
    }

    /// The zone after the first `done` steps of a restore or a purge of the
    /// held item `item`.
    pub open spec fn after_removal(self, item: TrashItemView, done: nat) -> ZoneView {
        ZoneView {
            root: self.root,
            records: if done >= 2 {
                without(self.records, item.meta.id)
            } else {
                self.records
            },
            files: if done >= 1 {
                self.files.remove(item.trash_path)
            } else {
                self.files
            },
        }
    }

    /// The steps that purge the record `meta`: remove the physical file
    /// where it is present, then drop the record.
    pub open spec fn purge_plan(self, meta: FileMetaView) -> Seq<FsStepView> {
        if self.present(meta) {
            seq![
                FsStepView::RemoveTree { path: location(self.root, meta) },
                FsStepView::RemoveRecord { path: record_path(self.root, meta.id) },
            ]
        } else {
            seq![FsStepView::RemoveRecord { path: record_path(self.root, meta.id) }]
        }
    }

    /// The zone after the first `done` steps of a purge of the record `meta`.
    pub open spec fn after_purge(self, meta: FileMetaView, done: nat) -> ZoneView {
        if self.present(meta) {
            self.after_removal(item_of(self.root, meta), done)
        } else {
            ZoneView {
                root: self.root,
                records: if done >= 1 {
                    without(self.records, meta.id)
                } else {
                    self.records
                },
                files: self.files,
            }
        }
    }
}

/// One physical file found in the zone: the day directory that holds it
/// and its name there.
pub struct PhysicalEntry {
    pub bucket: String,
    pub name: String,
}

/// The path of a physical entry below `root`.
pub open spec fn entry_path(root: Seq<char>, entry: PhysicalEntry) -> Seq<char> {
    join_spec(join_spec(root, entry.bucket@), entry.name@)
}

/// The set of paths of the physical entries below `root`.
pub open spec fn entry_paths(root: Seq<char>, entries: Seq<PhysicalEntry>) -> Set<Seq<char>> {
    Set::new(
        |p: Seq<char>|
            exists|i: int| 0 <= i < entries.len() && #[trigger] entry_path(root, entries[i]) == p,
    )
}

/// The views of a list of items.
pub open spec fn item_views(items: Seq<TrashItem>) -> Seq<TrashItemView> {
    items.map_values(|t: TrashItem| t@)
}

/// File system based trash store.
pub struct TrashStore {
    trash_root: String,
    meta_store: MetaStore,
    files: Vec<String>,
}

impl View for TrashStore {
    type V = ZoneView;

    closed spec fn view(&self) -> ZoneView {
        ZoneView {
            root: self.trash_root@,
            records: self.meta_store.records(),
            files: texts(self.files@).to_set(),
        }
    }
}

fn holds_path(files: &Vec<String>, path: &str) -> (r: Option<usize>)
    ensures
        r is Some <==> texts(files@).to_set().contains(path@),
        r matches Some(i) ==> i < files.len() && files@[i as int]@ == path@,
{
    let mut i: usize = 0;
    while i < files.len()
        invariant
            i <= files.len(),
            forall|j: int| 0 <= j < i ==> texts(files@)[j] != path@,
        decreases files.len() - i,
    {
        if text::same_text(files[i].as_str(), path) {
            assert(texts(files@)[i as int] == path@);
            return Some(i);
        }
        i += 1;
    }
    None
}

fn insert_path(files: &mut Vec<String>, path: String)
    requires
        texts(old(files)@).no_duplicates(),
    ensures
        texts(final(files)@).no_duplicates(),
        texts(final(files)@).to_set() == texts(old(files)@).to_set().insert(path@),
{
    let ghost before = texts(files@);
    if holds_path(files, path.as_str()).is_none() {
        files.push(path);
        assert(texts(files@) =~= before.push(path@));
        assert(before.push(path@).to_set() =~= before.to_set().insert(path@)) by {
            assert forall|x: Seq<char>| before.push(path@).contains(x) <==> (before.contains(x)
                || x == path@) by {
                if before.contains(x) {
                    let k = choose|k: int| 0 <= k < before.len() && before[k] == x;
                    assert(before.push(path@)[k] == x);
                }
                if x == path@ {
                    assert(before.push(path@)[before.len() as int] == x);
                }
            }
        }
    } else {
        assert(before.to_set().insert(path@) =~= before.to_set());
    }
}

fn remove_path(files: &mut Vec<String>, path: &str)
    requires
        texts(old(files)@).no_duplicates(),
    ensures
        texts(final(files)@).no_duplicates(),
        texts(final(files)@).to_set() == texts(old(files)@).to_set().remove(path@),
{
    let ghost before = texts(files@);
    match holds_path(files, path) {
        Some(i) => {
            files.remove(i);
            let ghost after = texts(files@);
            assert(after =~= before.remove(i as int));
            assert(after.to_set() =~= before.to_set().remove(path@)) by {
                assert forall|x: Seq<char>| after.contains(x) <==> (before.contains(x) && x
                    != path@) by {
                    assert(before[i as int] == path@);
                    if after.contains(x) {
                        let k = choose|k: int| 0 <= k < after.len() && after[k] == x;
                        if k < i {
                            assert(before[k] == x);
                            assert(before[k] != before[i as int]);
                        } else {
                            assert(before[k + 1] == x);
                            assert(before[k + 1] != before[i as int]);
                        }
                    }
                    if before.contains(x) && x != path@ {
                        let k = choose|k: int| 0 <= k < before.len() && before[k] == x;
                        if k < i {
                            assert(after[k] == x);
                        } else {
                            assert(after[k - 1] == x);
                        }
                    }
                }
            }
        },
        None => {
            assert(before.to_set().remove(path@) =~= before.to_set());
        },
    }
}

impl TrashStore {
    /// The invariant of the engine's state.
    pub closed spec fn wf(&self) -> bool {
        &&& self.meta_store.wf()
        &&& self.meta_store.dir() == metadata_dir_of(self.trash_root@)
        &&& texts(self.files@).no_duplicates()
    }

    /// What the invariant gives: no identifier occurs twice among the
    /// records of the zone. With it the laws of the engine hold of every
    /// engine that satisfies the invariant.
    pub proof fn lemma_wf(&self)
        requires
            self.wf(),
        ensures
            distinct_ids(self@.records),
    {
        self.meta_store.lemma_wf();
    }

    /// An engine for the zone rooted at `trash_root`, knowing of no record
    /// and of no physical file.
    pub fn new(trash_root: String) -> (r: TrashStore)
        ensures
            r.wf(),
            r@.root == trash_root@,
            r@.records == Seq::<FileMetaView>::empty(),
            r@.files == Set::<Seq<char>>::empty(),
    {
        let dir = paths::join(trash_root.as_str(), "metadata");
        let r = TrashStore { trash_root, meta_store: MetaStore::new(dir), files: Vec::new() };
        assert(texts(r.files@).to_set() =~= Set::<Seq<char>>::empty());
        r
    }

    /// An engine for the zone rooted at `trash_root`, filled with what the
    /// caller found on the disk: the entries of the metadata directory and
    /// the physical files of the day directories. Also returns a warning
    /// for each record file that could not be understood.
    pub fn open(
        trash_root: String,
        entries: Vec<MetadataEntry>,
        physical: Vec<PhysicalEntry>,
    ) -> (r: (TrashStore, Vec<RmzError>))
        ensures
            r.0.wf(),
            r.0@.root == trash_root@,
            r.0@.records == crate::infra::meta_store::loaded(entries@),
            r.0@.files == entry_paths(trash_root@, physical@),
            crate::infra::meta_store::reports_corrupt(
                r.1@,
                crate::infra::meta_store::unreadable(entries@),
            ),
    {
        let dir = paths::join(trash_root.as_str(), "metadata");
        let (meta_store, unreadable) = MetaStore::load(dir, entries);
        let mut files: Vec<String> = Vec::new();
        let mut i: usize = 0;
        assert(texts(files@).to_set() =~= entry_paths(trash_root@, physical@.take(0)));
        while i < physical.len()
            invariant
                i <= physical.len(),
                texts(files@).no_duplicates(),
                texts(files@).to_set() == entry_paths(trash_root@, physical@.take(i as int)),
            decreases physical.len() - i,
        {
            let day_dir = paths::join(trash_root.as_str(), physical[i].bucket.as_str());
            let path = paths::join(day_dir.as_str(), physical[i].name.as_str());
            proof {
                let before = physical@.take(i as int);
                let after = physical@.take(i + 1);
                assert(entry_paths(trash_root@, after) =~= entry_paths(trash_root@, before).insert(
                    path@,
                )) by {
                    assert forall|p: Seq<char>|
                        entry_paths(trash_root@, after).contains(p) <==> (entry_paths(
                            trash_root@,
                            before,
                        ).contains(p) || p == path@) by {
                        if entry_paths(trash_root@, after).contains(p) {
                            let k = choose|k: int|
                                0 <= k < after.len() && #[trigger] entry_path(
                                    trash_root@,
                                    after[k],
                                ) == p;
                            if k < i {
                                assert(entry_path(trash_root@, before[k]) == p);
                            }
                        }
                        if entry_paths(trash_root@, before).contains(p) {
                            let k = choose|k: int|
                                0 <= k < before.len() && #[trigger] entry_path(
                                    trash_root@,
                                    before[k],
                                ) == p;
                            assert(entry_path(trash_root@, after[k]) == p);
                        }
                        if p == path@ {
                            assert(entry_path(trash_root@, after[i as int]) == p);
                        }
                    }
                }
            }
            insert_path(&mut files, path);
            i += 1;
        }
        assert(physical@.take(physical.len() as int) =~= physical@);
        (TrashStore { trash_root, meta_store, files }, unreadable)
    }

    /// The root directory of the zone.
    pub fn get_trash_root(&self) -> (r: &String)
        ensures
            r@ == self@.root,
    {
        &self.trash_root
    }

    /// The metadata index of the zone.
    pub fn meta_store(&self) -> (r: &MetaStore)
        requires
            self.wf(),
        ensures
            r.records() == self@.records,
            r.dir() == metadata_dir_of(self@.root),
            r.wf(),
    {
        &self.meta_store
    }

    /// The directory inside the root for the day on which `meta` was held.
    pub fn get_date_subdir(&self, meta: &FileMeta) -> (r: String)
        ensures
            r@ == date_subdir(self@.root, meta@),
    {
        let day = meta.deleted_at.date_bucket();
        paths::join(self.trash_root.as_str(), day.as_str())
    }

    /// The name of the physical file of `meta`.
    pub fn generate_trash_filename(&self, meta: &FileMeta) -> (r: String)
        ensures
            r@ == trash_filename(meta@),
    {
        text::concat(format_id(meta.id).as_str(), ".rmz")
    }

    /// The physical location of the file of `meta`.
    pub fn trash_path_for(&self, meta: &FileMeta) -> (r: String)
        ensures
            r@ == location(self@.root, meta@),
    {
        let dir = self.get_date_subdir(meta);
        let name = self.generate_trash_filename(meta);
        paths::join(dir.as_str(), name.as_str())
    }

    /// The held item with identifier `id`: `None` where the index has no
    /// such record, and where the physical file of the record is absent.
    pub fn find_by_id(&self, id: u128) -> (r: Option<TrashItem>)
        requires
            self.wf(),
        ensures
            r is Some <==> self@.held(id) is Some,
            r matches Some(item) ==> (Some(item@) == self@.held(id) && item.meta.id == id),
    {
        proof {
            lemma_position(self@.records, id);
        }
        match self.meta_store.load_metadata(id) {
            Some(meta) => {
                let trash_path = self.trash_path_for(&meta);
                if holds_path(&self.files, trash_path.as_str()).is_some() {
                    Some(TrashItem::new(meta, trash_path))
                } else {
                    None
                }
            },
            None => None,
        }
    }

    /// Every held item, from the newest to the oldest. Records whose
    /// physical file is absent are left out; `missing` returns them.
    pub fn list(&self) -> (r: Vec<TrashItem>)
        requires
            self.wf(),
        ensures
            item_views(r@) == self@.listing(),
    {
        let all = self.meta_store.list_all_metadata();
        let mut items: Vec<TrashItem> = Vec::new();
        let mut i: usize = 0;
        assert(views(all@).take(0) =~= Seq::<FileMetaView>::empty());
        assert(item_views(items@) =~= Seq::<TrashItemView>::empty());
        while i < all.len()
            invariant
                i <= all.len(),
                item_views(items@) == self@.items_among(views(all@).take(i as int)),
            decreases all.len() - i,
        {
            proof {
                let before = views(all@).take(i as int);
                let after = views(all@).take(i + 1);
                assert(after.drop_last() =~= before);
                assert(after.last() == all@[i as int]@);
            }
            let trash_path = self.trash_path_for(&all[i]);
            if holds_path(&self.files, trash_path.as_str()).is_some() {
                let ghost shown = item_views(items@);
                items.push(TrashItem::new(all[i].clone(), trash_path));
                assert(item_views(items@) =~= shown.push(item_of(self@.root, all@[i as int]@)));
            }
            i += 1;
        }
        assert(views(all@).take(all.len() as int) =~= views(all@));
        items
    }

    /// The records whose physical file is absent, from the newest to the
    /// oldest: what a listing leaves out.
    pub fn missing(&self) -> (r: Vec<FileMeta>)
        requires
            self.wf(),
        ensures
            views(r@) == self@.missing_among(newest_first(self@.records)),
    {
        let all = self.meta_store.list_all_metadata();
        let mut out: Vec<FileMeta> = Vec::new();
        let mut i: usize = 0;
        assert(views(all@).take(0) =~= Seq::<FileMetaView>::empty());
        assert(views(out@) =~= Seq::<FileMetaView>::empty());
        while i < all.len()
            invariant
                i <= all.len(),
                views(out@) == self@.missing_among(views(all@).take(i as int)),
            decreases all.len() - i,
        {
            proof {
                let before = views(all@).take(i as int);
                let after = views(all@).take(i + 1);
                assert(after.drop_last() =~= before);
                assert(after.last() == all@[i as int]@);
            }
            let trash_path = self.trash_path_for(&all[i]);
            if holds_path(&self.files, trash_path.as_str()).is_none() {
                let ghost shown = views(out@);
                out.push(all[i].clone());
                assert(views(out@) =~= shown.push(all@[i as int]@));
            }
            i += 1;
        }
        assert(views(all@).take(all.len() as int) =~= views(all@));
        out
    }

    /// The physical files that no record of the index accounts for, each
    /// once.
    pub fn orphaned_files(&self) -> (r: Vec<String>)
        requires
            self.wf(),
        ensures
            texts(r@).no_duplicates(),
            texts(r@).to_set() == self@.orphaned(),
    {
        let all = self.meta_store.list_all_metadata();
        let mut places: Vec<String> = Vec::new();
        let mut k: usize = 0;
        while k < all.len()
            invariant
                k <= all.len(),
                places.len() == k,
                forall|j: int|
                    0 <= j < k ==> (#[trigger] places@[j])@ == location(self@.root, all@[j]@),
            decreases all.len() - k,
        {
            places.push(self.trash_path_for(&all[k]));
            k += 1;
        }
        let ghost sorted = views(all@);
        proof {
            lemma_newest_first(self@.records);
            broadcast use vstd::seq_lib::group_to_multiset_ensures;

            assert forall|p: Seq<char>| self@.located(self@.records, p) <==> texts(
                places@,
            ).contains(p) by {
                if self@.located(self@.records, p) {
                    let i = choose|i: int|
                        0 <= i < self@.records.len() && #[trigger] location(
                            self@.root,
                            self@.records[i],
                        ) == p;
                    let m = self@.records[i];
                    assert(self@.records.contains(m));
                    assert(self@.records.to_multiset().count(m) > 0);
                    assert(sorted.to_multiset().count(m) > 0);
                    assert(sorted.contains(m));
                    let j = choose|j: int| 0 <= j < sorted.len() && sorted[j] == m;
                    assert(texts(places@)[j] == p);
                }
                if texts(places@).contains(p) {
                    let j = choose|j: int| 0 <= j < places@.len() && texts(places@)[j] == p;
                    let m = sorted[j];
                    assert(sorted.contains(m));
                    assert(sorted.to_multiset().count(m) > 0);
                    assert(self@.records.to_multiset().count(m) > 0);
                    assert(self@.records.contains(m));
                    let i = choose|i: int| 0 <= i < self@.records.len() && self@.records[i] == m;
                    assert(location(self@.root, self@.records[i]) == p);
                }
            }
        }
        let mut out: Vec<String> = Vec::new();
        let mut i: usize = 0;
        assert(texts(out@).to_set() =~= Set::<Seq<char>>::empty());
        while i < self.files.len()
            invariant
                i <= self.files.len(),
                self.wf(),
                forall|p: Seq<char>|
                    self@.located(self@.records, p) <==> texts(places@).contains(p),
                texts(out@).no_duplicates(),
                forall|p: Seq<char>| #[trigger]
                    texts(out@).contains(p) <==> (texts(self.files@).take(i as int).contains(p)
                        && !self@.located(self@.records, p)),
            decreases self.files.len() - i,
        {
            let ghost shown = texts(out@);
            let ghost seen = texts(self.files@).take(i as int);
            let ghost path = self.files@[i as int]@;
            let accounted = holds_path(&places, self.files[i].as_str()).is_some();
            proof {
                assert(texts(self.files@).take(i + 1) =~= seen.push(path));
                assert(!seen.contains(path)) by {
                    if seen.contains(path) {
                        let j = choose|j: int| 0 <= j < seen.len() && seen[j] == path;
                        assert(texts(self.files@)[j] == texts(self.files@)[i as int]);
                    }
                }
                assert forall|p: Seq<char>| seen.push(path).contains(p) <==> (seen.contains(p)
                    || p == path) by {
                    if seen.contains(p) {
                        let j = choose|j: int| 0 <= j < seen.len() && seen[j] == p;
                        assert(seen.push(path)[j] == p);
                    }
                    if p == path {
                        assert(seen.push(path)[seen.len() as int] == p);
                    }
                }
            }
            if !accounted {
                out.push(self.files[i].clone());
            }
            proof {
                let seen2 = texts(self.files@).take(i + 1);
                let out2 = texts(out@);
                assert(seen2 =~= seen.push(path));
                assert(accounted <==> texts(places@).contains(path));
                assert(accounted <==> self@.located(self@.records, path));
                if !accounted {
                    assert(out2 =~= shown.push(path));
                    assert(!shown.contains(path));
                    assert forall|a: int, b: int|
                        0 <= a < out2.len() && 0 <= b < out2.len() && a != b implies out2[a]
                        != out2[b] by {
                        if a == shown.len() {
                            assert(shown[b] == out2[b]);
                            assert(shown.contains(out2[b]));
                        } else if b == shown.len() {
                            assert(shown[a] == out2[a]);
                            assert(shown.contains(out2[a]));
                        } else {
                            assert(shown[a] == out2[a] && shown[b] == out2[b]);
                        }
                    }
                    assert forall|p: Seq<char>| out2.contains(p) <==> (shown.contains(p) || p
                        == path) by {
                        if shown.contains(p) {
                            let j = choose|j: int| 0 <= j < shown.len() && shown[j] == p;
                            assert(out2[j] == p);
                        }
                        if p == path {
                            assert(out2[shown.len() as int] == p);
                        }
                        if out2.contains(p) {
                            let j = choose|j: int| 0 <= j < out2.len() && out2[j] == p;
                            if j < shown.len() {
                                assert(shown[j] == p);
                            }
                        }
                    }
                } else {
                    assert(out2 == shown);
                }
                assert forall|p: Seq<char>| #[trigger]
                    out2.contains(p) <==> (seen2.contains(p) && !self@.located(
                        self@.records,
                        p,
                    )) by {
                    assert(shown.contains(p) <==> (seen.contains(p) && !self@.located(
                        self@.records,
                        p,
                    )));
                    assert(seen2.contains(p) <==> (seen.contains(p) || p == path));
                }
            }
            i += 1;
        }
        proof {
            assert(texts(self.files@).take(self.files.len() as int) =~= texts(self.files@));
            assert(texts(out@).to_set() =~= self@.orphaned());
        }
        out
    }

    /// The steps that hold the file at `source_path` under the record `meta`.
    pub fn plan_save(&self, meta: &FileMeta, source_path: &str) -> (r: Vec<FsStep>)
        requires
            self.wf(),
        ensures
            step_views(r@) == self@.save_plan(meta@, source_path@),
    {
        let mut steps: Vec<FsStep> = Vec::new();
        steps.push(FsStep::Move { from: source_path.to_owned(), to: self.trash_path_for(meta) });
        steps.push(
            FsStep::WriteRecord {
                path: self.meta_store.metadata_file_path(meta.id),
                record: meta.clone(),
            },
        );
        assert(step_views(steps@) =~= self@.save_plan(meta@, source_path@));
        steps
    }

    /// Records how the steps of `plan_save` went. Once the move is done the
    /// physical file counts as present; once the record is written it is in
    /// the index. The held item is returned when both are done, else the
    /// error of the report: a file that was moved but not indexed stays
    /// where it is.
    pub fn save(&mut self, meta: &FileMeta, report: StepReport) -> (r: Result<
        TrashItem,
        RmzError,
    >)
        requires
            old(self).wf(),
        ensures
            final(self).wf(),
            final(self)@ == old(self)@.after_save(meta@, report.carried_out(2)),
            match report {
                StepReport::Done => r matches Ok(item) && item@ == item_of(old(self)@.root, meta@),
                StepReport::Failed { error, .. } => r == Err::<TrashItem, RmzError>(error),
            },
            report is Done ==> final(self)@.held(meta.id) == Some(
                item_of(old(self)@.root, meta@),
            ),
            forall|other: u128|
                other != meta.id ==> #[trigger] final(self)@.held(other) == old(self)@.held(
                    other,
                ),
    {
        let ghost before = self@;
        proof {
            self.lemma_wf();
            law_find_after_save(before, meta@, meta@.original_path);
            assert forall|other: u128, n: nat| other != meta.id implies #[trigger] before.after_save(
                meta@,
                n,
            ).held(other) == before.held(other) by {
                law_save_keeps_others(before, meta@, other, n);
            }
        }
        let done: usize = match &report {
            StepReport::Done => 2,
            StepReport::Failed { completed, .. } => if *completed <= 2 {
                *completed
            } else {
                2
            },
        };
        let trash_path = self.trash_path_for(meta);
        if done >= 1 {
            insert_path(&mut self.files, trash_path.clone());
        }
        if done >= 2 {
            self.meta_store.save_metadata(meta);
        }
        assert(self@.files =~= before.after_save(meta@, done as nat).files);
        match report {
            StepReport::Done => Ok(TrashItem::new(meta.clone(), trash_path)),
            StepReport::Failed { error, .. } => Err(error),
        }
    }

    /// The steps that bring the held item with identifier `id` to
    /// `destination`, or `NotFound` where the index has no such record or
    /// its physical file is absent.
    pub fn plan_restore_to(&self, id: u128, destination: &str) -> (r: Result<
        Vec<FsStep>,
        RmzError,
    >)
        requires
            self.wf(),
        ensures
            match self@.held(id) {
                Some(item) => r matches Ok(steps) && step_views(steps@) == self@.restore_plan(
                    item,
                    destination@,
                ),
                None => r == Err::<Vec<FsStep>, RmzError>(RmzError::NotFound { id }),
            },
    {
        match self.find_by_id(id) {
            Some(item) => {
                let mut steps: Vec<FsStep> = Vec::new();
                steps.push(FsStep::Move { from: item.trash_path, to: destination.to_owned() });
                steps.push(
                    FsStep::RemoveRecord { path: self.meta_store.metadata_file_path(id) },
                );
                proof {
                    lemma_position(self@.records, id);
                    assert(step_views(steps@) =~= self@.restore_plan(
                        self@.held(id)->0,
                        destination@,
                    ));
                }
                Ok(steps)
            },
            None => Err(RmzError::NotFound { id }),
        }
    }

    /// The steps that bring the held item with identifier `id` back to its
    /// original path.
    pub fn plan_restore(&self, id: u128) -> (r: Result<Vec<FsStep>, RmzError>)
        requires
            self.wf(),
        ensures
            match self@.held(id) {
                Some(item) => r matches Ok(steps) && step_views(steps@) == self@.restore_plan(
                    item,
                    item.meta.original_path,
                ),
                None => r == Err::<Vec<FsStep>, RmzError>(RmzError::NotFound { id }),
            },
    {
        match self.find_by_id(id) {
            Some(item) => self.plan_restore_to(id, item.meta.original_path.as_str()),
            None => Err(RmzError::NotFound { id }),
        }
    }

    /// Records how the steps of a restore of the held item with identifier
    /// `id` went, and returns the path that the file was restored to:
    /// `destination`, or the original path where none is given. Without
    /// such a held item nothing changes and `NotFound` is returned.
    pub fn restore_to(&mut self, id: u128, destination: Option<&str>, report: StepReport) -> (r:
        Result<String, RmzError>)
        requires
            old(self).wf(),
        ensures
            final(self).wf(),
            match old(self)@.held(id) {
                Some(item) => {
                    &&& final(self)@ == old(self)@.after_removal(item, report.carried_out(2))
                    &&& match report {
                        StepReport::Done => r matches Ok(path) && path@ == match destination {
                            Some(d) => d@,
                            None => item.meta.original_path,
                        },
                        StepReport::Failed { error, .. } => r == Err::<String, RmzError>(error),
                    }
                },
                None => final(self)@ == old(self)@ && r == Err::<String, RmzError>(
                    RmzError::NotFound { id },
                ),
            },
            report is Done ==> final(self)@.held(id) is None,
            report is Done && old(self)@.held(id) is Some ==> lookup(
                final(self)@.records,
                id,
            ) is None,
            forall|other: u128|
                other != id ==> #[trigger] final(self)@.held(other) == old(self)@.held(other),
            forall|item: TrashItemView|
                item.meta.id != id ==> (#[trigger] final(self)@.listing().contains(item)
                    <==> old(self)@.listing().contains(item)),
    {
        let ghost before = self@;
        proof {
            self.lemma_wf();
            lemma_position(before.records, id);
        }
        match self.find_by_id(id) {
            Some(item) => {
                proof {
                    lemma_position(before.records, id);
                    law_gone_after_restore(before, id, item@, item@.trash_path);
                    let meta = lookup(before.records, id)->0;
                    assert forall|other: u128, n: nat| other != id implies #[trigger] before.after_removal(
                        item@,
                        n,
                    ).held(other) == before.held(other) by {
                        law_others_stay(before, id, meta, other, n);
                    }
                    assert forall|other: TrashItemView, n: nat| other.meta.id != id implies (
                    #[trigger] before.after_removal(item@, n).listing().contains(other)
                        <==> before.listing().contains(other)) by {
                        law_others_stay(before, id, meta, other.meta.id, n);
                    }
                }
                let done: usize = match &report {
                    StepReport::Done => 2,
                    StepReport::Failed { completed, .. } => if *completed <= 2 {
                        *completed
                    } else {
                        2
                    },
                };
                if done >= 1 {
                    remove_path(&mut self.files, item.trash_path.as_str());
                }
                if done >= 2 {
                    self.meta_store.delete_metadata(id);
                }
                assert(self@.files =~= before.after_removal(item@, done as nat).files);
                match report {
                    StepReport::Done => match destination {
                        Some(d) => Ok(d.to_owned()),
                        None => Ok(item.meta.original_path),
                    },
                    StepReport::Failed { error, .. } => Err(error),
                }
            },
            None => Err(RmzError::NotFound { id }),
        }
    }

    /// Records how the steps of `plan_restore` went, and returns the
    /// original path of the file.
    pub fn restore(&mut self, id: u128, report: StepReport) -> (r: Result<String, RmzError>)
        requires
            old(self).wf(),
        ensures
            final(self).wf(),
            match old(self)@.held(id) {
                Some(item) => {
                    &&& final(self)@ == old(self)@.after_removal(item, report.carried_out(2))
                    &&& match report {
                        StepReport::Done => r matches Ok(path) && path@
                            == item.meta.original_path,
                        StepReport::Failed { error, .. } => r == Err::<String, RmzError>(error),
                    }
                },
                None => final(self)@ == old(self)@ && r == Err::<String, RmzError>(
                    RmzError::NotFound { id },
                ),
            },
            report is Done ==> final(self)@.held(id) is None,
            report is Done && old(self)@.held(id) is Some ==> lookup(
                final(self)@.records,
                id,
            ) is None,
            forall|other: u128|
                other != id ==> #[trigger] final(self)@.held(other) == old(self)@.held(other),
            forall|item: TrashItemView|
                item.meta.id != id ==> (#[trigger] final(self)@.listing().contains(item)
                    <==> old(self)@.listing().contains(item)),
    {
        self.restore_to(id, None, report)
    }

    /// The steps that purge the record with identifier `id`, or `NotFound`
    /// where the index has no such record. Where the physical file is
    /// absent already, only the record is dropped.
    pub fn plan_purge(&self, id: u128) -> (r: Result<Vec<FsStep>, RmzError>)
        requires
            self.wf(),
        ensures
            match lookup(self@.records, id) {
                Some(meta) => r matches Ok(steps) && step_views(steps@) == self@.purge_plan(meta),
                None => r == Err::<Vec<FsStep>, RmzError>(RmzError::NotFound { id }),
            },
    {
        match self.meta_store.load_metadata(id) {
            Some(meta) => {
                proof {
                    lemma_position(self@.records, id);
                }
                let mut steps: Vec<FsStep> = Vec::new();
                let trash_path = self.trash_path_for(&meta);
                if holds_path(&self.files, trash_path.as_str()).is_some() {
                    steps.push(FsStep::RemoveTree { path: trash_path });
                }
                steps.push(
                    FsStep::RemoveRecord { path: self.meta_store.metadata_file_path(id) },
                );
                assert(step_views(steps@) =~= self@.purge_plan(meta@));
                Ok(steps)
            },
            None => Err(RmzError::NotFound { id }),
        }
    }

    /// Records how the steps of `plan_purge` went. Without a record with
    /// identifier `id` nothing changes and `NotFound` is returned.
    pub fn purge(&mut self, id: u128, report: StepReport) -> (r: Result<(), RmzError>)
        requires
            old(self).wf(),
        ensures
            final(self).wf(),
            match lookup(old(self)@.records, id) {
                Some(meta) => {
                    &&& final(self)@ == old(self)@.after_purge(
                        meta,
                        report.carried_out(old(self)@.purge_plan(meta).len()),
                    )
                    &&& match report {
                        StepReport::Done => r == Ok::<(), RmzError>(()),
                        StepReport::Failed { error, .. } => r == Err::<(), RmzError>(error),
                    }
                },
                None => final(self)@ == old(self)@ && r == Err::<(), RmzError>(
                    RmzError::NotFound { id },
                ),
            },
            report is Done ==> {
                &&& lookup(final(self)@.records, id) is None
                &&& final(self)@.held(id) is None
                &&& forall|k: int|
                    0 <= k < final(self)@.listing().len() ==> (
                    #[trigger] final(self)@.listing()[k]).meta.id != id
            },
            report is Done ==> (lookup(old(self)@.records, id) matches Some(meta)
                ==> !final(self)@.files.contains(location(old(self)@.root, meta))),
            forall|other: u128|
                other != id ==> #[trigger] final(self)@.held(other) == old(self)@.held(other),
            forall|item: TrashItemView|
                item.meta.id != id ==> (#[trigger] final(self)@.listing().contains(item)
                    <==> old(self)@.listing().contains(item)),
    {
        let ghost before = self@;
        proof {
            self.lemma_wf();
            lemma_position(before.records, id);
            if lookup(before.records, id) is None {
                lemma_never_listed(before, id);
            }
        }
        match self.meta_store.load_metadata(id) {
            Some(meta) => {
                proof {
                    lemma_position(before.records, id);
                    law_gone_after_purge(before, id, meta@);
                    assert forall|other: u128, n: nat| other != id implies #[trigger] before.after_purge(
                        meta@,
                        n,
                    ).held(other) == before.held(other) by {
                        law_others_stay(before, id, meta@, other, n);
                    }
                    assert forall|other: TrashItemView, n: nat| other.meta.id != id implies (
                    #[trigger] before.after_purge(meta@, n).listing().contains(other)
                        <==> before.listing().contains(other)) by {
                        law_others_stay(before, id, meta@, other.meta.id, n);
                    }
                }
                let trash_path = self.trash_path_for(&meta);
                let present = holds_path(&self.files, trash_path.as_str()).is_some();
                let planned: usize = if present {
                    2
                } else {
                    1
                };
                let done: usize = match &report {
                    StepReport::Done => planned,
                    StepReport::Failed { completed, .. } => if *completed <= planned {
                        *completed
                    } else {
                        planned
                    },
                };
                if present && done >= 1 {
                    remove_path(&mut self.files, trash_path.as_str());
                }
                if done >= planned {
                    self.meta_store.delete_metadata(id);
                }
                assert(self@.files =~= before.after_purge(meta@, done as nat).files);
                match report {
                    StepReport::Done => Ok(()),
                    StepReport::Failed { error, .. } => Err(error),
                }
            },
            None => Err(RmzError::NotFound { id }),
        }
    }
}

/// Every item among the held items of `records` is the item of one of them.
pub proof fn lemma_items_among(z: ZoneView, records: Seq<FileMetaView>, k: int)
    requires
        0 <= k < z.items_among(records).len(),
    ensures
        records.contains(z.items_among(records)[k].meta),
        z.present(z.items_among(records)[k].meta),
        z.items_among(records)[k] == item_of(z.root, z.items_among(records)[k].meta),
    decreases records.len(),
{
    if records.len() > 0 {
        let head = records.drop_last();
        let rest = z.items_among(head);
        if k < rest.len() {
            lemma_items_among(z, head, k);
            let m = rest[k].meta;
            let i = choose|i: int| 0 <= i < head.len() && head[i] == m;
            assert(records[i] == m);
        } else {
            assert(records[records.len() - 1] == records.last());
        }
    }
}

/// An identifier that the index does not know is in no listing.
pub proof fn lemma_never_listed(z: ZoneView, id: u128)
    requires
        lookup(z.records, id) is None,
    ensures
        z.held(id) is None,
        forall|k: int| 0 <= k < z.listing().len() ==> (#[trigger] z.listing()[k]).meta.id != id,
{
    lemma_position(z.records, id);
    assert forall|k: int| 0 <= k < z.listing().len() implies (#[trigger] z.listing()[k]).meta.id
        != id by {
        let sorted = newest_first(z.records);
        lemma_items_among(z, sorted, k);
        let m = z.listing()[k].meta;
        lemma_newest_first(z.records);
        broadcast use vstd::seq_lib::group_to_multiset_ensures;

        assert(sorted.to_multiset().count(m) > 0);
        assert(z.records.to_multiset().count(m) > 0);
        assert(z.records.contains(m));
    }
}

/// Records with the same physical location have the same identifier.
pub proof fn lemma_location_tells_id(root: Seq<char>, a: FileMetaView, b: FileMetaView)
    requires
        location(root, a) == location(root, b),
    ensures
        a.id == b.id,
{
    reveal_strlit(".rmz");
    let na = trash_filename(a);
    let nb = trash_filename(b);
    let la = location(root, a);
    let lb = location(root, b);
    assert(na.len() == 40 && nb.len() == 40);
    assert(na[0] == id_text(a.id)[0] && nb[0] == id_text(b.id)[0]);
    assert(0 <= hex_digit(a.id, 0) < 16 && 0 <= hex_digit(b.id, 0) < 16);
    assert(na[0] != '/' && nb[0] != '/');
    assert(la.subrange(la.len() - 40, la.len() as int) =~= na);
    assert(lb.subrange(lb.len() - 40, lb.len() as int) =~= nb);
    assert(id_text(a.id) =~= na.subrange(0, 36));
    assert(id_text(b.id) =~= nb.subrange(0, 36));
    lemma_id_text_tells_id(a.id, b.id);
}

/// A record whose physical file is present has its item among the held
/// items of the records.
proof fn lemma_among_has(z: ZoneView, records: Seq<FileMetaView>, j: int)
    requires
        0 <= j < records.len(),
        z.present(records[j]),
    ensures
        z.items_among(records).contains(item_of(z.root, records[j])),
    decreases records.len(),
{
    let head = records.drop_last();
    let rest = z.items_among(head);
    let out = z.items_among(records);
    if j < head.len() {
        lemma_among_has(z, head, j);
        let k = choose|k: int| 0 <= k < rest.len() && rest[k] == item_of(z.root, head[j]);
        assert(out[k] == rest[k]);
    } else {
        assert(out[out.len() - 1] == item_of(z.root, records.last()));
    }
}

/// The listing shows the held items and nothing else: an item is listed
/// if and only if it is the held item of its identifier.
pub proof fn law_listed_are_held(z: ZoneView, item: TrashItemView)
    requires
        distinct_ids(z.records),
    ensures
        z.listing().contains(item) <==> z.held(item.meta.id) == Some(item),
{
    broadcast use vstd::seq_lib::group_to_multiset_ensures;

    let sorted = newest_first(z.records);
    lemma_newest_first(z.records);
    lemma_position(z.records, item.meta.id);
    if z.listing().contains(item) {
        let k = choose|k: int| 0 <= k < z.listing().len() && z.listing()[k] == item;
        lemma_items_among(z, sorted, k);
        assert(sorted.to_multiset().count(item.meta) > 0);
        assert(z.records.contains(item.meta));
        let i = choose|i: int| 0 <= i < z.records.len() && z.records[i] == item.meta;
        assert(crate::infra::meta_store::position(z.records, item.meta.id) == Some(i));
    }
    if z.held(item.meta.id) == Some(item) {
        let meta = lookup(z.records, item.meta.id)->0;
        assert(z.records.contains(meta));
        assert(z.records.to_multiset().count(meta) > 0);
        assert(sorted.contains(meta));
        let j = choose|j: int| 0 <= j < sorted.len() && sorted[j] == meta;
        lemma_among_has(z, sorted, j);
    }
}

/// A purge or a restore of one item leaves the others alone: whatever part
/// of it was carried out, every other identifier has the held item it
/// had, and the listing shows the other items that it showed.
pub proof fn law_others_stay(z: ZoneView, id: u128, meta: FileMetaView, other: u128, done: nat)
    requires
        distinct_ids(z.records),
        lookup(z.records, id) == Some(meta),
        other != id,
    ensures
        z.after_purge(meta, done).held(other) == z.held(other),
        z.after_removal(item_of(z.root, meta), done).held(other) == z.held(other),
        forall|item: TrashItemView|
            item.meta.id == other ==> (#[trigger] z.after_purge(meta, done).listing().contains(item)
                <==> z.listing().contains(item)),
        forall|item: TrashItemView|
            item.meta.id == other ==> (#[trigger] z.after_removal(
                item_of(z.root, meta),
                done,
            ).listing().contains(item) <==> z.listing().contains(item)),
{
    lemma_position(z.records, id);
    lemma_position(z.records, other);
    law_delete_then_get(z.records, id, other);
    crate::infra::meta_store::lemma_without_distinct(z.records, id);
    if lookup(z.records, other) is Some {
        let m = lookup(z.records, other)->0;
        if location(z.root, m) == location(z.root, meta) {
            lemma_location_tells_id(z.root, m, meta);
        }
    }
    let purged = z.after_purge(meta, done);
    let removed = z.after_removal(item_of(z.root, meta), done);
    assert(distinct_ids(purged.records));
    assert(distinct_ids(removed.records));
    assert forall|item: TrashItemView| item.meta.id == other implies (
    #[trigger] purged.listing().contains(item) <==> z.listing().contains(item)) by {
        law_listed_are_held(z, item);
        law_listed_are_held(purged, item);
    }
    assert forall|item: TrashItemView| item.meta.id == other implies (
    #[trigger] removed.listing().contains(item) <==> z.listing().contains(item)) by {
        law_listed_are_held(z, item);
        law_listed_are_held(removed, item);
    }
}

/// A file that has just been saved is found: after a complete save, the
/// held item with the record's identifier is the record given, at the
/// record's physical location, which is the very place that the plan moved
/// the source to; and that location is among the files present.
pub proof fn law_find_after_save(z: ZoneView, meta: FileMetaView, source: Seq<char>)
    requires
        distinct_ids(z.records),
    ensures
        z.after_save(meta, 2).held(meta.id) == Some(item_of(z.root, meta)),
        z.after_save(meta, 2).files.contains(location(z.root, meta)),
        z.save_plan(meta, source)[0] == (FsStepView::Move {
            from: source,
            to: item_of(z.root, meta).trash_path,
        }),
{
    law_put_then_get(z.records, meta, meta.id);
}

/// A save leaves the others alone: whatever part of it was carried out,
/// every other identifier has the held item it had.
pub proof fn law_save_keeps_others(z: ZoneView, meta: FileMetaView, other: u128, done: nat)
    requires
        distinct_ids(z.records),
        other != meta.id,
    ensures
        z.after_save(meta, done).held(other) == z.held(other),
{
    law_put_then_get(z.records, meta, other);
    lemma_position(z.records, other);
    if lookup(z.records, other) is Some {
        let m = lookup(z.records, other)->0;
        if location(z.root, m) == location(z.root, meta) {
            lemma_location_tells_id(z.root, m, meta);
        }
    }
}

/// A file that was moved but not indexed is an orphan: it is present at
/// the record's location, and the index does not know of it.
pub proof fn law_save_without_index(z: ZoneView, meta: FileMetaView)
    ensures
        z.after_save(meta, 1).files.contains(location(z.root, meta)),
        z.after_save(meta, 1).records == z.records,
{
}

/// A restored file is no longer held: after a complete restore no held
/// item has the identifier, and the plan moved the physical file from its
/// location to the destination.
pub proof fn law_gone_after_restore(
    z: ZoneView,
    id: u128,
    item: TrashItemView,
    destination: Seq<char>,
)
    requires
        distinct_ids(z.records),
        z.held(id) == Some(item),
    ensures
        z.after_removal(item, 2).held(id) is None,
        lookup(z.after_removal(item, 2).records, id) is None,
        !z.after_removal(item, 2).files.contains(item.trash_path),
        z.restore_plan(item, destination)[0] == (FsStepView::Move {
            from: item.trash_path,
            to: destination,
        }),
{
    lemma_position(z.records, id);
    law_delete_then_get(z.records, id, id);
}

/// A purged file is gone for good: after a complete purge the index has no
/// record with the identifier, the physical file is not present, no held
/// item has the identifier, and no listing mentions it.
pub proof fn law_gone_after_purge(z: ZoneView, id: u128, meta: FileMetaView)
    requires
        distinct_ids(z.records),
        lookup(z.records, id) == Some(meta),
    ensures
        ({
            let after = z.after_purge(meta, z.purge_plan(meta).len());
            &&& lookup(after.records, id) is None
            &&& !after.files.contains(location(z.root, meta))
            &&& after.held(id) is None
            &&& forall|k: int| 0 <= k < after.listing().len() ==> after.listing()[k].meta.id != id
        }),
{
    lemma_position(z.records, id);
    law_delete_then_get(z.records, id, id);
    let after = z.after_purge(meta, z.purge_plan(meta).len());
    assert(after.records == without(z.records, id));
    lemma_position(after.records, id);
    assert forall|k: int| 0 <= k < after.listing().len() implies after.listing()[k].meta.id
        != id by {
        let sorted = newest_first(after.records);
        lemma_items_among(after, sorted, k);
        let m = after.listing()[k].meta;
        lemma_newest_first(after.records);
        broadcast use vstd::seq_lib::group_to_multiset_ensures;

        assert(sorted.to_multiset().count(m) > 0);
        assert(after.records.to_multiset().count(m) > 0);
        assert(after.records.contains(m));
    }
}

/// Save, then restore: the file comes back to exactly its original path,
/// and where the identifier and the location were unused before, the zone
/// is as it was.
pub proof fn law_save_restore_round_trip(z: ZoneView, meta: FileMetaView)
    requires
        distinct_ids(z.records),
    ensures
        ({
            let saved = z.after_save(meta, 2);
            let item = item_of(z.root, meta);
            let back = saved.after_removal(item, 2);
            &&& saved.held(meta.id) == Some(item)
            &&& z.save_plan(meta, meta.original_path)[0] == (FsStepView::Move {
                from: meta.original_path,
                to: item.trash_path,
            })
            &&& saved.restore_plan(item, item.meta.original_path)[0] == (FsStepView::Move {
                from: item.trash_path,
                to: meta.original_path,
            })
            &&& back.held(meta.id) is None
            &&& (lookup(z.records, meta.id) is None && !z.present(meta) ==> back.records
                == z.records && back.files == z.files)
        }),
{
    let saved = z.after_save(meta, 2);
    let item = item_of(z.root, meta);
    let back = saved.after_removal(item, 2);
    law_put_then_get(z.records, meta, meta.id);
    crate::infra::meta_store::lemma_put_distinct(z.records, meta);
    law_delete_then_get(saved.records, meta.id, meta.id);
    if lookup(z.records, meta.id) is None && !z.present(meta) {
        lemma_position(z.records, meta.id);
        lemma_position(saved.records, meta.id);
        assert(saved.records == z.records.push(meta));
        assert(back.records =~= z.records);
        assert(back.files =~= z.files);
    }
}

} // verus!
