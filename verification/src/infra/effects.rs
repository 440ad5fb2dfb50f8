//! What the steps of a plan do to the disk when they are carried out as
//! their descriptions say. This is the ground on which the engine's plans
//! are reasoned about: that a saved file holds what the source held, and
//! that a restore brings it back.

use crate::domain::file_meta::FileMetaView;
use crate::infra::trash_store::{item_of, location, record_path, FsStepView, ZoneView};
use crate::ops::safe_file_ops::MoveActionView;
use vstd::prelude::*;

verus! {

/// A disk, as far as the steps touch it.
pub struct DiskView {
    /// What each path holds that holds a file or a directory.
    pub files: Map<Seq<char>, Seq<u8>>,
    /// The record that each record file holds.
    pub records: Map<Seq<char>, FileMetaView>,
}

impl FsStepView {
    /// The disk after the step. A move of a path that holds nothing
    /// changes nothing.
    pub open spec fn effect(self, disk: DiskView) -> DiskView {
        match self {
            FsStepView::Move { from, to } => if disk.files.contains_key(from) {
                DiskView { files: disk.files.remove(from).insert(to, disk.files[from]), ..disk }
            } else {
                disk
            },
            FsStepView::WriteRecord { path, record } => DiskView {
                records: disk.records.insert(path, record),
                ..disk
            },
            FsStepView::RemoveRecord { path } => DiskView {
                records: disk.records.remove(path),
                ..disk
            },
            FsStepView::RemoveTree { path } => DiskView { files: disk.files.remove(path), ..disk },
        }
    }
}

impl MoveActionView {
    /// The files of the disk after the action of a safe move. Looking at
    /// a file and making a directory ready change no file.
    pub open spec fn effect(self, files: Map<Seq<char>, Seq<u8>>) -> Map<Seq<char>, Seq<u8>> {
        match self {
            MoveActionView::Rename { from, to } => if files.contains_key(from) {
                files.remove(from).insert(to, files[from])
            } else {
                files
            },
            MoveActionView::CopyTree { from, to } => if files.contains_key(from) {
                files.insert(to, files[from])
            } else {
                files
            },
            MoveActionView::RemoveTree { path } => files.remove(path),
            _ => files,
        }
    }
}

/// Both ways of a safe move do what the step of a plan says: after the
/// rename, and after the copy and the removal across file systems alike,
/// the target holds what the source held, and the source is gone.
pub proof fn law_both_ways_move(disk: DiskView, from: Seq<char>, to: Seq<char>)
    requires
        disk.files.contains_key(from),
        from != to,
    ensures
        ({
            let moved = (FsStepView::Move { from, to }).effect(disk).files;
            let renamed = (MoveActionView::Rename { from, to }).effect(disk.files);
            let copied = (MoveActionView::CopyTree { from, to }).effect(disk.files);
            let removed = (MoveActionView::RemoveTree { path: from }).effect(copied);
            &&& renamed == moved
            &&& removed == moved
            &&& moved.contains_key(to) && moved[to] == disk.files[from]
            &&& !moved.contains_key(from)
        }),
{
    let moved = (FsStepView::Move { from, to }).effect(disk).files;
    let copied = (MoveActionView::CopyTree { from, to }).effect(disk.files);
    let removed = (MoveActionView::RemoveTree { path: from }).effect(copied);
    assert(removed =~= moved);
}

/// The disk after the steps, one after the other.
pub open spec fn carried_out(steps: Seq<FsStepView>, disk: DiskView) -> DiskView
    decreases steps.len(),
{
    if steps.len() == 0 {
        disk
    } else {
        carried_out(steps.drop_first(), steps[0].effect(disk))
    }
}

proof fn lemma_two_steps(steps: Seq<FsStepView>, disk: DiskView)
    requires
        steps.len() == 2,
    ensures
        carried_out(steps, disk) == steps[1].effect(steps[0].effect(disk)),
{
    let rest = steps.drop_first();
    assert(rest.len() == 1);
    assert(rest[0] == steps[1]);
    assert(rest.drop_first().len() == 0);
    assert(carried_out(rest, steps[0].effect(disk)) == carried_out(
        rest.drop_first(),
        rest[0].effect(steps[0].effect(disk)),
    ));
}

/// A saved file holds what the source held. After the steps of a save the
/// record's location holds the content that the source had, the source is
/// gone, and the record file holds the record. The source must be there,
/// and must not be the record's location itself.
pub proof fn law_save_keeps_content(
    z: ZoneView,
    meta: FileMetaView,
    source: Seq<char>,
    disk: DiskView,
)
    requires
        disk.files.contains_key(source),
        source != location(z.root, meta),
    ensures
        ({
            let after = carried_out(z.save_plan(meta, source), disk);
            &&& after.files.contains_key(location(z.root, meta))
            &&& after.files[location(z.root, meta)] == disk.files[source]
            &&& !after.files.contains_key(source)
            &&& after.records.contains_key(record_path(z.root, meta.id))
            &&& after.records[record_path(z.root, meta.id)] == meta
        }),
{
    lemma_two_steps(z.save_plan(meta, source), disk);
}

/// Save, then restore: the file is back at exactly its original path with
/// the content it had. Where the record's location and record file were
/// unused before, the whole disk is as it was. The file must be there,
/// and its path must not be the record's location itself.
pub proof fn law_round_trip_keeps_content(z: ZoneView, meta: FileMetaView, disk: DiskView)
    requires
        disk.files.contains_key(meta.original_path),
        meta.original_path != location(z.root, meta),
    ensures
        ({
            let saved = carried_out(z.save_plan(meta, meta.original_path), disk);
            let back = carried_out(
                z.after_save(meta, 2).restore_plan(item_of(z.root, meta), meta.original_path),
                saved,
            );
            &&& back.files.contains_key(meta.original_path)
            &&& back.files[meta.original_path] == disk.files[meta.original_path]
            &&& !back.files.contains_key(location(z.root, meta))
            &&& !back.records.contains_key(record_path(z.root, meta.id))
            &&& (!disk.files.contains_key(location(z.root, meta)) ==> back.files == disk.files)
            &&& (!disk.records.contains_key(record_path(z.root, meta.id)) ==> back.records
                == disk.records)
        }),
{
    let saved_zone = z.after_save(meta, 2);
    let save = z.save_plan(meta, meta.original_path);
    let restore = saved_zone.restore_plan(item_of(z.root, meta), meta.original_path);
    lemma_two_steps(save, disk);
    let saved = carried_out(save, disk);
    lemma_two_steps(restore, saved);
    let back = carried_out(restore, saved);
    assert(saved_zone.root == z.root);
    if !disk.files.contains_key(location(z.root, meta)) {
        assert(back.files =~= disk.files);
    }
    if !disk.records.contains_key(record_path(z.root, meta.id)) {
        assert(back.records =~= disk.records);
    }
}

/// After the steps of a purge neither the physical file nor the record
/// file is there.
pub proof fn law_purge_removes_both(z: ZoneView, meta: FileMetaView, disk: DiskView)
    requires
        z.present(meta) || !disk.files.contains_key(location(z.root, meta)),
    ensures
        ({
            let after = carried_out(z.purge_plan(meta), disk);
            &&& !after.files.contains_key(location(z.root, meta))
            &&& !after.records.contains_key(record_path(z.root, meta.id))
        }),
{
    let plan = z.purge_plan(meta);
    if z.present(meta) {
        lemma_two_steps(plan, disk);
        assert(plan[0] == FsStepView::RemoveTree { path: location(z.root, meta) });
        assert(plan[1] == FsStepView::RemoveRecord { path: record_path(z.root, meta.id) });
    } else {
        assert(plan.len() == 1);
        assert(plan[0] == FsStepView::RemoveRecord { path: record_path(z.root, meta.id) });
        assert(plan.drop_first().len() == 0);
        assert(carried_out(plan.drop_first(), plan[0].effect(disk)) == plan[0].effect(disk));
    }
}

} // verus!
