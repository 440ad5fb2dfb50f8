use rmz::domain::{FileMeta, Timestamp, TrashItem};
use rmz::errors::RmzError;
use rmz::infra::meta_store::{MetaStore, MetadataEntry};
use rmz::infra::trash_store::{FsStep, PhysicalEntry, StepReport, TrashStore};

fn record(id: u128, path: &str, secs: i64, size: u64) -> FileMeta {
    FileMeta {
        id,
        original_path: path.to_string(),
        deleted_at: Timestamp::new(secs, 0).unwrap(),
        size,
        permissions: 0o644,
        tags: Vec::new(),
        checksum: None,
        deleted_by: "tester".to_string(),
    }
}

const ID_A: u128 = 0x550e8400_e29b_41d4_a716_446655440000;
const ID_B: u128 = 0x550e8400_0000_4000_8000_000000000001;
const ID_C: u128 = 0x12345678_9abc_4def_8123_456789abcdef;
const DAY: i64 = 86_400;
const T0: i64 = 1_700_000_000;

fn names(items: &[TrashItem]) -> Vec<String> {
    items.iter().map(|i| i.meta.filename().unwrap()).collect()
}

#[test]
fn test_trash_store_save() {
    let mut store = TrashStore::new("/zone".to_string());
    let meta = record(ID_A, "/home/u/a.txt", T0, 12);

    // The plan moves the source to the record's place and writes the record.
    let steps = store.plan_save(&meta, "/home/u/a.txt");
    assert_eq!(
        steps,
        vec![
            FsStep::Move {
                from: "/home/u/a.txt".to_string(),
                to: "/zone/2023-11-14/550e8400-e29b-41d4-a716-446655440000.rmz".to_string(),
            },
            FsStep::WriteRecord {
                path: "/zone/metadata/550e8400-e29b-41d4-a716-446655440000.json".to_string(),
                record: meta.clone(),
            },
        ]
    );

    let trash_item = store.save(&meta, StepReport::Done).unwrap();
    assert_eq!(
        trash_item.trash_path,
        "/zone/2023-11-14/550e8400-e29b-41d4-a716-446655440000.rmz"
    );
    assert_eq!(trash_item.meta, meta);
}

#[test]
fn test_generate_trash_filename() {
    let store = TrashStore::new("/zone".to_string());
    let meta = record(ID_C, "/x", T0, 1);

    let filename = store.generate_trash_filename(&meta);
    assert!(filename.ends_with(".rmz"));
    assert!(filename.contains("12345678-9abc-4def-8123-456789abcdef"));
    assert_eq!(filename, "12345678-9abc-4def-8123-456789abcdef.rmz");
    assert_eq!(store.get_date_subdir(&meta), "/zone/2023-11-14");
    assert_eq!(store.get_trash_root(), "/zone");
}

#[test]
fn trash_store_test_list_empty_trash() {
    let store = TrashStore::new("/zone".to_string());
    let items = store.list();
    assert!(items.is_empty());
}

#[test]
fn list_test_list_empty_trash() {
    let store = TrashStore::new("/somewhere/trash".to_string());
    let items = store.list();
    assert!(items.is_empty());
}

#[test]
fn test_status_empty_trash() {
    let store = TrashStore::new("/somewhere/trash".to_string());
    let items = store.list();
    assert!(items.is_empty());
    let summary = rmz::commands::status::execute(&items);
    assert_eq!(summary.total_files, 0);
    assert_eq!(summary.total_size, 0);
    assert_eq!(summary.oldest, None);
    assert_eq!(summary.newest, None);
}

#[test]
fn trash_store_test_list_with_items() {
    let mut store = TrashStore::new("/zone".to_string());
    store.save(&record(ID_A, "/a", T0, 8), StepReport::Done).unwrap();
    store.save(&record(ID_B, "/b", T0 + 1, 8), StepReport::Done).unwrap();
    let items = store.list();
    assert_eq!(items.len(), 2);
}

#[test]
fn test_find_by_id() {
    let mut store = TrashStore::new("/zone".to_string());
    let meta = record(ID_A, "/home/u/a.txt", T0, 7);
    store.save(&meta, StepReport::Done).unwrap();

    let found_item = store.find_by_id(meta.id);
    assert!(found_item.is_some());

    let item = found_item.unwrap();
    assert_eq!(item.meta.id, meta.id);
    assert_eq!(item.meta, meta);
    assert_eq!(item.trash_path, store.trash_path_for(&meta));
}

#[test]
fn test_find_by_nonexistent_id() {
    let store = TrashStore::new("/zone".to_string());
    let result = store.find_by_id(ID_C);
    assert!(result.is_none());
}

#[test]
fn a_save_that_failed_at_the_move_changes_nothing() {
    let mut store = TrashStore::new("/zone".to_string());
    let meta = record(ID_A, "/a", T0, 1);
    let error = RmzError::ConcurrentModification { path: "/a".to_string() };
    let report = StepReport::Failed { completed: 0, error };
    assert_eq!(
        store.save(&meta, report),
        Err(RmzError::ConcurrentModification { path: "/a".to_string() })
    );
    assert!(store.find_by_id(ID_A).is_none());
    assert!(store.list().is_empty());
    assert!(store.orphaned_files().is_empty());
    assert!(store.missing().is_empty());
}

#[test]
fn a_file_moved_but_not_indexed_is_an_orphan() {
    let mut store = TrashStore::new("/zone".to_string());
    let meta = record(ID_A, "/a", T0, 1);
    let report = StepReport::Failed {
        completed: 1,
        error: RmzError::IoFailure { path: "/zone/metadata".to_string() },
    };
    assert!(store.save(&meta, report).is_err());
    assert!(store.find_by_id(ID_A).is_none());
    assert!(store.list().is_empty());
    assert_eq!(store.orphaned_files(), vec![store.trash_path_for(&meta)]);
}

#[test]
fn restore_brings_the_file_back_and_drops_the_record() {
    let mut store = TrashStore::new("/zone".to_string());
    let meta = record(ID_A, "/home/u/docs/a.txt", T0, 7);
    let item = store.save(&meta, StepReport::Done).unwrap();

    let steps = store.plan_restore(ID_A).unwrap();
    assert_eq!(
        steps,
        vec![
            FsStep::Move { from: item.trash_path.clone(), to: "/home/u/docs/a.txt".to_string() },
            FsStep::RemoveRecord {
                path: "/zone/metadata/550e8400-e29b-41d4-a716-446655440000.json".to_string()
            },
        ]
    );
    assert_eq!(store.restore(ID_A, StepReport::Done), Ok("/home/u/docs/a.txt".to_string()));
    assert!(store.find_by_id(ID_A).is_none());
    assert!(store.list().is_empty());
    assert!(store.orphaned_files().is_empty());
    // What is gone cannot be restored again.
    assert_eq!(store.plan_restore(ID_A), Err(RmzError::NotFound { id: ID_A }));
    assert_eq!(store.restore(ID_A, StepReport::Done), Err(RmzError::NotFound { id: ID_A }));
}

#[test]
fn restore_to_another_place() {
    let mut store = TrashStore::new("/zone".to_string());
    let meta = record(ID_A, "/home/u/a.txt", T0, 7);
    let item = store.save(&meta, StepReport::Done).unwrap();
    let steps = store.plan_restore_to(ID_A, "/tmp/back/a.txt").unwrap();
    assert_eq!(
        steps[0],
        FsStep::Move { from: item.trash_path, to: "/tmp/back/a.txt".to_string() }
    );
    assert_eq!(
        store.restore_to(ID_A, Some("/tmp/back/a.txt"), StepReport::Done),
        Ok("/tmp/back/a.txt".to_string())
    );
    assert!(store.find_by_id(ID_A).is_none());
}

#[test]
fn a_restore_that_failed_at_the_move_leaves_the_item_held() {
    let mut store = TrashStore::new("/zone".to_string());
    let meta = record(ID_A, "/a", T0, 7);
    store.save(&meta, StepReport::Done).unwrap();
    let report = StepReport::Failed {
        completed: 0,
        error: RmzError::IoFailure { path: "/a".to_string() },
    };
    assert_eq!(store.restore(ID_A, report), Err(RmzError::IoFailure { path: "/a".to_string() }));
    assert_eq!(store.find_by_id(ID_A).unwrap().meta, meta);
    // After the move alone the record is left without its file.
    let report = StepReport::Failed {
        completed: 1,
        error: RmzError::IoFailure { path: "/zone/metadata".to_string() },
    };
    assert!(store.restore(ID_A, report).is_err());
    assert!(store.find_by_id(ID_A).is_none());
    assert_eq!(store.missing(), vec![meta]);
}

#[test]
fn purge_removes_record_and_file() {
    let mut store = TrashStore::new("/zone".to_string());
    let meta = record(ID_A, "/a", T0, 7);
    let item = store.save(&meta, StepReport::Done).unwrap();
    assert_eq!(
        store.plan_purge(ID_A).unwrap(),
        vec![
            FsStep::RemoveTree { path: item.trash_path },
            FsStep::RemoveRecord {
                path: "/zone/metadata/550e8400-e29b-41d4-a716-446655440000.json".to_string()
            },
        ]
    );
    assert_eq!(store.purge(ID_A, StepReport::Done), Ok(()));
    assert!(store.find_by_id(ID_A).is_none());
    assert!(store.list().is_empty());
    assert!(store.orphaned_files().is_empty());
    assert!(store.missing().is_empty());
    assert_eq!(store.plan_purge(ID_A), Err(RmzError::NotFound { id: ID_A }));
    assert_eq!(store.purge(ID_A, StepReport::Done), Err(RmzError::NotFound { id: ID_A }));
}

#[test]
fn purge_cleans_up_a_record_whose_file_is_gone() {
    let meta = record(ID_A, "/a", T0, 7);
    let entries = vec![MetadataEntry {
        file_name: "550e8400-e29b-41d4-a716-446655440000.json".to_string(),
        record: Some(meta.clone()),
    }];
    let (mut store, unreadable) = TrashStore::open("/zone".to_string(), entries, Vec::new());
    assert!(unreadable.is_empty());
    assert!(store.find_by_id(ID_A).is_none());
    assert_eq!(store.missing(), vec![meta]);
    assert_eq!(
        store.plan_purge(ID_A).unwrap(),
        vec![FsStep::RemoveRecord {
            path: "/zone/metadata/550e8400-e29b-41d4-a716-446655440000.json".to_string()
        }]
    );
    assert_eq!(store.purge(ID_A, StepReport::Done), Ok(()));
    assert!(store.missing().is_empty());
}

#[test]
fn a_purge_that_failed_half_way() {
    let mut store = TrashStore::new("/zone".to_string());
    let meta = record(ID_A, "/a", T0, 7);
    store.save(&meta, StepReport::Done).unwrap();
    let report = StepReport::Failed {
        completed: 1,
        error: RmzError::IoFailure { path: "/zone/metadata".to_string() },
    };
    assert!(store.purge(ID_A, report).is_err());
    // The file is gone, the record is still there.
    assert!(store.find_by_id(ID_A).is_none());
    assert_eq!(store.missing(), vec![meta]);
}

#[test]
fn save_list_purge_scenario() {
    // Three files, saved in this order; listed newest first.
    let mut store = TrashStore::new("/zone".to_string());
    let a = record(ID_A, "/home/u/a.txt", T0, 10);
    let b = record(ID_B, "/home/u/b.txt", T0 + 1, 20);
    let c = record(ID_C, "/home/u/c.txt", T0 + 2, 5);
    store.save(&a, StepReport::Done).unwrap();
    store.save(&b, StepReport::Done).unwrap();
    store.save(&c, StepReport::Done).unwrap();
    assert_eq!(names(&store.list()), vec!["c.txt", "b.txt", "a.txt"]);

    store.purge(ID_B, StepReport::Done).unwrap();
    assert_eq!(names(&store.list()), vec!["c.txt", "a.txt"]);
    assert!(store.find_by_id(ID_B).is_none());
}

#[test]
fn save_then_restore_round_trip() {
    let mut store = TrashStore::new("/zone".to_string());
    let meta = record(ID_A, "/home/u/a.txt", T0, 10);
    let save_steps = store.plan_save(&meta, "/home/u/a.txt");
    store.save(&meta, StepReport::Done).unwrap();
    let restore_steps = store.plan_restore(ID_A).unwrap();
    // The restore moves back what the save moved away.
    match (&save_steps[0], &restore_steps[0]) {
        (FsStep::Move { from: s_from, to: s_to }, FsStep::Move { from: r_from, to: r_to }) => {
            assert_eq!(s_to, r_from);
            assert_eq!(s_from, r_to);
            assert_eq!(r_to, "/home/u/a.txt");
        }
        other => panic!("unexpected steps: {:?}", other),
    }
    assert_eq!(store.restore(ID_A, StepReport::Done), Ok("/home/u/a.txt".to_string()));
    assert!(store.list().is_empty());
    assert!(store.orphaned_files().is_empty());
}

#[test]
fn items_of_one_moment_keep_their_order() {
    let mut store = TrashStore::new("/zone".to_string());
    store.save(&record(1, "/first", T0, 1), StepReport::Done).unwrap();
    store.save(&record(2, "/second", T0, 1), StepReport::Done).unwrap();
    store.save(&record(3, "/third", T0 + DAY, 1), StepReport::Done).unwrap();
    store.save(&record(4, "/fourth", T0 - DAY, 1), StepReport::Done).unwrap();
    assert_eq!(names(&store.list()), vec!["third", "first", "second", "fourth"]);
}

#[test]
fn opening_a_zone_from_what_is_on_the_disk() {
    let a = record(ID_A, "/a", T0, 1);
    let b = record(ID_B, "/b", T0 + DAY, 2);
    let entries = vec![
        MetadataEntry { file_name: "a.json".to_string(), record: Some(a.clone()) },
        MetadataEntry { file_name: "broken.json".to_string(), record: None },
        MetadataEntry { file_name: "notes.txt".to_string(), record: None },
        MetadataEntry { file_name: "b.json".to_string(), record: Some(b.clone()) },
        MetadataEntry { file_name: "c.bak".to_string(), record: Some(record(ID_C, "/c", T0, 3)) },
    ];
    let physical = vec![
        PhysicalEntry {
            bucket: "2023-11-14".to_string(),
            name: "550e8400-e29b-41d4-a716-446655440000.rmz".to_string(),
        },
        PhysicalEntry { bucket: "2023-11-14".to_string(), name: "stray.rmz".to_string() },
    ];
    let (store, unreadable) = TrashStore::open("/zone".to_string(), entries, physical);
    assert_eq!(unreadable, vec![RmzError::Corrupt { entry: "broken.json".to_string() }]);
    assert_eq!(store.meta_store().len(), 2);
    assert_eq!(names(&store.list()), vec!["a"]);
    assert_eq!(store.missing(), vec![b]);
    assert_eq!(store.orphaned_files(), vec!["/zone/2023-11-14/stray.rmz".to_string()]);
}

#[test]
fn test_save_and_load_metadata() {
    let mut meta_store = MetaStore::new("/zone/metadata".to_string());
    let meta = record(ID_A, "/home/u/a.txt", T0, 7);

    meta_store.save_metadata(&meta);

    let loaded_meta = meta_store.load_metadata(meta.id);
    assert!(loaded_meta.is_some());

    let loaded = loaded_meta.unwrap();
    assert_eq!(loaded.id, meta.id);
    assert_eq!(loaded.original_path, meta.original_path);
    assert_eq!(loaded.size, meta.size);
    assert_eq!(
        meta_store.metadata_file_path(meta.id),
        "/zone/metadata/550e8400-e29b-41d4-a716-446655440000.json"
    );
    assert_eq!(meta_store.metadata_dir(), "/zone/metadata");
}

#[test]
fn test_list_all_metadata() {
    let mut meta_store = MetaStore::new("/m".to_string());
    let meta1 = record(ID_A, "/a", T0, 8);
    let meta2 = record(ID_B, "/b", T0 + 5, 8);
    meta_store.save_metadata(&meta1);
    meta_store.save_metadata(&meta2);

    let all_meta = meta_store.list_all_metadata();
    assert_eq!(all_meta.len(), 2);

    // Should be sorted by deletion time (newest first)
    assert!(all_meta[0].deleted_at >= all_meta[1].deleted_at);
    assert_eq!(all_meta, vec![meta2, meta1]);
}

#[test]
fn test_delete_metadata() {
    let mut meta_store = MetaStore::new("/m".to_string());
    let meta = record(ID_A, "/a", T0, 7);

    meta_store.save_metadata(&meta);
    assert!(meta_store.load_metadata(meta.id).is_some());

    meta_store.delete_metadata(meta.id);
    assert!(meta_store.load_metadata(meta.id).is_none());

    // Deleting what is absent changes nothing.
    meta_store.delete_metadata(meta.id);
    assert_eq!(meta_store.len(), 0);
}

#[test]
fn writing_a_record_twice_overwrites_it() {
    let mut meta_store = MetaStore::new("/m".to_string());
    let first = record(ID_A, "/a", T0, 7);
    let mut second = record(ID_A, "/a", T0, 7);
    second.checksum = Some("abc".to_string());
    meta_store.save_metadata(&first);
    meta_store.save_metadata(&record(ID_B, "/b", T0, 1));
    meta_store.save_metadata(&second);
    assert_eq!(meta_store.len(), 2);
    assert_eq!(meta_store.load_metadata(ID_A), Some(second));
}

#[test]
fn loading_takes_record_files_only() {
    let entries = vec![
        MetadataEntry { file_name: "x.json".to_string(), record: Some(record(1, "/x", T0, 1)) },
        MetadataEntry { file_name: "y.JSON".to_string(), record: Some(record(2, "/y", T0, 1)) },
        MetadataEntry { file_name: ".json".to_string(), record: Some(record(3, "/z", T0, 1)) },
        MetadataEntry { file_name: "bad.json".to_string(), record: None },
        MetadataEntry { file_name: "x2.json".to_string(), record: Some(record(1, "/x2", T0, 1)) },
    ];
    let (store, unreadable) = MetaStore::load("/m".to_string(), entries);
    assert_eq!(unreadable, vec![RmzError::Corrupt { entry: "bad.json".to_string() }]);
    assert_eq!(store.len(), 1);
    assert_eq!(store.load_metadata(1).unwrap().original_path, "/x2");
    assert!(store.load_metadata(2).is_none());
    assert!(store.load_metadata(3).is_none());
}

#[test]
fn what_is_done_to_one_item_leaves_the_others_held() {
    let mut store = TrashStore::new("/zone/trash".to_string());
    let a = record(ID_A, "/home/u/a.txt", T0, 10);
    let b = record(ID_B, "/home/u/b.txt", T0 + 1, 20);
    let c = record(ID_C, "/home/u/c.txt", T0 + 2, 5);
    store.save(&a, StepReport::Done).unwrap();
    let held_a = store.find_by_id(ID_A);
    assert!(held_a.is_some());
    store.save(&b, StepReport::Done).unwrap();
    assert_eq!(store.find_by_id(ID_A), held_a);
    store.save(&c, StepReport::Done).unwrap();
    let held_c = store.find_by_id(ID_C);
    assert_eq!(store.find_by_id(ID_A), held_a);

    // A purge that stops after its first step, and then a whole one.
    let failed = StepReport::Failed {
        completed: 1,
        error: RmzError::IoFailure { path: "/zone/trash/metadata".to_string() },
    };
    assert!(store.purge(ID_B, failed).is_err());
    assert_eq!(store.find_by_id(ID_A), held_a);
    assert_eq!(store.find_by_id(ID_C), held_c);
    assert_eq!(store.purge(ID_B, StepReport::Done), Ok(()));
    assert_eq!(store.find_by_id(ID_B), None);
    assert_eq!(store.find_by_id(ID_A), held_a);
    assert_eq!(store.find_by_id(ID_C), held_c);
    assert_eq!(store.list(), vec![held_c.clone().unwrap(), held_a.clone().unwrap()]);

    assert_eq!(store.restore(ID_C, StepReport::Done), Ok("/home/u/c.txt".to_string()));
    assert_eq!(store.find_by_id(ID_C), None);
    assert_eq!(store.find_by_id(ID_A), held_a);
    assert_eq!(store.list(), vec![held_a.unwrap()]);
}
