use rmz::cli::{GroupBy, OperationType};
use rmz::commands::list::belongs_to;
use rmz::commands::delete::{
    confirm_deletion, confirm_directory_deletion, delete_directory, delete_path, delete_single_file, prepare_record,
    DeleteOptions, DeleteRequest, Gate, PathKind,
};
use rmz::commands::identity::{ids_matching, resolve_prefix};
use rmz::commands::log::{convert_operation_type, display_summary_logs, format_relative_time};
use rmz::cli::ProtectAction;
use rmz::commands::protect::{
    add_protected_paths, categorize_paths, list_protected_paths, remove_protected_paths,
    ProtectOutcome, ProtectReport, ProtectedSummary,
};
use rmz::domain::operation_log::{OperationLog, OperationLogger, OperationResult};
use rmz::commands::purge::{
    interactive_purge, purge_all, purge_by_age, purge_by_id, purge_by_size, select_by_id,
    summarize, PurgeRequest, PurgeSummary, SizedItem,
};
use rmz::commands::restore::{
    check_existing_file_and_confirm, restore_all, restore_by_id, restore_by_parsed_id,
    after_item, restore_by_partial_id, restore_by_pattern, restore_destination,
    restore_single_item, BatchStep, ItemOutcome, RestoreRequest, RestoreSummary,
};
use rmz::commands::status::{
    format_time_ago, show_size_breakdown, show_time_breakdown, SizeBreakdown, TimeBreakdown,
};
use rmz::domain::{Config, FileMeta, Timestamp, TrashItem};
use rmz::errors::RmzError;
use rmz::infra::trash_store::{FsStep, StepReport, TrashStore};
use rmz::utils::file_safety::{
    candidate, check_existing_file, generate_safe_restore_path, resolve_conflict, Resolution,
    RestoreAction,
};

const T0: i64 = 1_700_000_000;
const DAY: i64 = 86_400;
const ID_A: u128 = 0x550e8400_e29b_41d4_a716_446655440000;
const ID_B: u128 = 0x550e8400_0000_4000_8000_000000000001;
const ID_C: u128 = 0x12345678_9abc_4def_8123_456789abcdef;

fn at(secs: i64) -> Timestamp {
    Timestamp::new(secs, 0).unwrap()
}

fn item(id: u128, path: &str, secs: i64, size: u64) -> TrashItem {
    TrashItem {
        meta: FileMeta {
            id,
            original_path: path.to_string(),
            deleted_at: at(secs),
            size,
            permissions: 0o644,
            tags: Vec::new(),
            checksum: None,
            deleted_by: "tester".to_string(),
        },
        trash_path: format!("/zone/x/{}.rmz", id),
    }
}

fn sized(id: u128, secs: i64, size: u64) -> SizedItem {
    SizedItem { item: item(id, "/f", secs, size), size }
}

fn sizes(items: &[SizedItem]) -> Vec<u64> {
    items.iter().map(|s| s.size).collect()
}

#[test]
fn test_convert_operation_type() {
    assert_eq!(
        convert_operation_type(OperationType::Delete),
        rmz::domain::operation_log::OperationType::Delete
    );
    assert_eq!(
        convert_operation_type(OperationType::Restore),
        rmz::domain::operation_log::OperationType::Restore
    );
    assert_eq!(
        convert_operation_type(OperationType::Purge),
        rmz::domain::operation_log::OperationType::Purge
    );
}

#[test]
fn test_categorize_paths() {
    let default_paths = Config::default_protected_paths();
    let custom_path = String::from("/custom/path");

    let mut test_paths = default_paths.clone();
    test_paths.push(custom_path.clone());

    let (system_paths, user_paths) = categorize_paths(&test_paths);

    // All default paths should be in system_paths
    for default_path in &default_paths {
        assert!(system_paths.contains(default_path));
    }

    // Custom path should be in user_paths
    assert!(user_paths.contains(&custom_path));
    assert_eq!(user_paths.len(), 1);
}

#[test]
fn categories_are_in_the_order_of_paths() {
    let paths: Vec<String> = ["/var", "/z", "/a-b", "/a/b", "/a", "/bin", "/a/b", "/etc"]
        .iter()
        .map(|s| s.to_string())
        .collect();
    let (system_paths, user_paths) = categorize_paths(&paths);
    assert_eq!(system_paths, vec!["/bin", "/etc", "/var"]);
    // A path comes before the paths that continue one of its components.
    assert_eq!(user_paths, vec!["/a", "/a/b", "/a/b", "/a-b", "/z"]);
}

#[test]
fn test_add_protected_paths() {
    let mut config = Config::default();
    config.protected_paths.clear(); // Start with empty list
    let test_file = String::from("/tmp/x/test.txt");

    // Test adding a new path
    config.add_protected_path(test_file.clone());
    assert!(config.protected_paths.contains(&test_file));

    // Test adding duplicate path (should not duplicate)
    let original_len = config.protected_paths.len();
    config.add_protected_path(test_file.clone());
    assert_eq!(config.protected_paths.len(), original_len);
}

#[test]
fn test_remove_protected_paths() {
    let test_file = String::from("/tmp/x/test.txt");
    let mut config = Config::default();
    config.protected_paths.clear();
    config.add_protected_path(test_file.clone());

    // Test removing existing path
    let removed = config.remove_protected_path(&test_file);
    assert!(removed);
    assert!(!config.protected_paths.contains(&test_file));

    // Test removing non-existent path
    let removed = config.remove_protected_path(&test_file);
    assert!(!removed);
}

#[test]
fn adding_several_paths_reports_what_was_there() {
    let mut config = Config::with_trash_path("/t".to_string());
    config.protected_paths = vec!["/keep".to_string()];
    let paths: Vec<String> =
        ["/new", "/keep", "/new", "/other"].iter().map(|s| s.to_string()).collect();
    let report = add_protected_paths(&mut config, &paths);
    assert_eq!(report.changed, 2);
    assert_eq!(report.unchanged, vec!["/keep", "/new"]);
    assert_eq!(config.protected_paths, vec!["/keep", "/new", "/other"]);
    assert_eq!(
        list_protected_paths(&config, &vec![true, false, true]),
        ProtectedSummary { total_count: 3, existing_count: 2, missing_count: 1 }
    );
    assert_eq!(
        list_protected_paths(&config, &vec![true]),
        ProtectedSummary { total_count: 3, existing_count: 1, missing_count: 2 }
    );
}

#[test]
fn purge_requests() {
    assert_eq!(rmz::commands::purge::execute(true, Some(3), None, None), PurgeRequest::All);
    assert_eq!(
        rmz::commands::purge::execute(false, Some(3), Some("1GB".to_string()), None),
        PurgeRequest::OlderThan { days: 3 }
    );
    assert_eq!(
        rmz::commands::purge::execute(false, None, Some("1GB".to_string()), Some("ab".to_string())),
        PurgeRequest::OverSize { limit: "1GB".to_string() }
    );
    assert_eq!(
        rmz::commands::purge::execute(false, None, None, Some("ab".to_string())),
        PurgeRequest::ById { id: "ab".to_string() }
    );
    assert_eq!(rmz::commands::purge::execute(false, None, None, None), PurgeRequest::Interactive);
}

#[test]
fn size_based_eviction_takes_the_oldest_first() {
    // Sizes 10, 20, 5 from the oldest to the newest, and a budget of 15:
    // the two oldest go, 5 remain.
    let items = vec![sized(3, T0 + 2, 5), sized(1, T0, 10), sized(2, T0 + 1, 20)];
    let selection = purge_by_size(items, 15);
    assert_eq!(sizes(&selection), vec![10, 20]);
    assert_eq!(selection[0].item.meta.id, 1);
    assert_eq!(selection[1].item.meta.id, 2);
}

#[test]
fn size_based_eviction_edges() {
    let three = || vec![sized(1, T0, 10), sized(2, T0 + 1, 20), sized(3, T0 + 2, 5)];
    // Within the budget nothing goes.
    assert!(purge_by_size(three(), 35).is_empty());
    assert!(purge_by_size(three(), 1000).is_empty());
    assert!(purge_by_size(Vec::new(), 0).is_empty());
    // One byte over: the oldest goes.
    assert_eq!(sizes(&purge_by_size(three(), 34)), vec![10]);
    assert_eq!(sizes(&purge_by_size(three(), 25)), vec![10]);
    assert_eq!(sizes(&purge_by_size(three(), 24)), vec![10, 20]);
    assert_eq!(sizes(&purge_by_size(three(), 5)), vec![10, 20]);
    assert_eq!(sizes(&purge_by_size(three(), 4)), vec![10, 20, 5]);
    assert_eq!(sizes(&purge_by_size(three(), 0)), vec![10, 20, 5]);
    // Items of the same age keep their order; an empty one still goes first.
    let same = vec![sized(1, T0, 0), sized(2, T0, 7), sized(3, T0, 9)];
    let out = purge_by_size(same, 10);
    assert_eq!(out.iter().map(|s| s.item.meta.id).collect::<Vec<_>>(), vec![1, 2]);
    // Sizes that do not fit into 64 bits together.
    let big = vec![sized(1, T0, u64::MAX), sized(2, T0 + 1, u64::MAX)];
    assert_eq!(purge_by_size(big, u64::MAX).len(), 1);
}

#[test]
fn age_based_eviction() {
    let now = at(T0);
    let items = vec![
        item(1, "/new", T0 - DAY, 1),
        item(2, "/old", T0 - 31 * DAY, 1),
        item(3, "/edge", T0 - 30 * DAY, 1),
        item(4, "/older", T0 - 400 * DAY, 1),
    ];
    let old = purge_by_age(&items, &now, 30);
    assert_eq!(old.iter().map(|i| i.meta.id).collect::<Vec<_>>(), vec![2, 4]);
    assert_eq!(purge_by_age(&items, &now, 0).len(), 4);
    assert!(purge_by_age(&items, &now, 401).is_empty());
    assert!(purge_by_age(&items, &now, u32::MAX).is_empty());
    assert_eq!(purge_all(&items), items);
}

#[test]
fn an_identifier_in_full_is_taken_as_it_is() {
    let items = vec![item(ID_A, "/a", T0, 1)];
    assert_eq!(purge_by_id(&items, "550e8400-e29b-41d4-a716-446655440000"), Ok(ID_A));
    assert_eq!(purge_by_id(&items, "550E8400E29B41D4A716446655440000"), Ok(ID_A));
    // Also one that no item has: the engine then reports that it is not found.
    assert_eq!(purge_by_id(&items, "12345678-9abc-4def-8123-456789abcdef"), Ok(ID_C));
    assert_eq!(restore_by_id(&items, "12345678-9abc-4def-8123-456789abcdef"), Ok(ID_C));
}

#[test]
fn a_prefix_must_select_one_item() {
    let items =
        vec![item(ID_A, "/a", T0, 1), item(ID_B, "/b", T0, 1), item(ID_C, "/c", T0, 1)];
    assert_eq!(purge_by_id(&items, "1234"), Ok(ID_C));
    assert_eq!(purge_by_id(&items, "550e8400-e"), Ok(ID_A));
    assert_eq!(purge_by_id(&items, "550E8400-E"), Ok(ID_A));
    assert_eq!(purge_by_id(&items, "ffff"), Err(RmzError::NoIdPrefix { prefix: "ffff".to_string() }));
    assert_eq!(
        purge_by_id(&items, "ffff").unwrap_err().message(),
        "No file found with ID starting with: ffff"
    );
    assert_eq!(ids_matching(&items, "550e8400"), vec![ID_A, ID_B]);
    assert_eq!(ids_matching(&items, ""), vec![ID_A, ID_B, ID_C]);
    assert_eq!(resolve_prefix(&items, "1", "one"), Ok(ID_C));
    assert_eq!(select_by_id(&items, Some(7), "zzz", "zzz"), Ok(7));
}

#[test]
fn an_ambiguous_prefix_touches_nothing() {
    // Two held items whose identifiers share their first eight characters.
    let mut store = TrashStore::new("/zone".to_string());
    store.save(&item(ID_A, "/a", T0, 1).meta, StepReport::Done).unwrap();
    store.save(&item(ID_B, "/b", T0 + 1, 1).meta, StepReport::Done).unwrap();
    let items = store.list();

    let expected = Err(RmzError::AmbiguousIdentifier {
        prefix: "550e8400".to_string(),
        candidates: vec![ID_B, ID_A],
    });
    assert_eq!(restore_by_id(&items, "550e8400"), expected);
    assert_eq!(purge_by_id(&items, "550e8400"), expected);
    assert_eq!(restore_by_partial_id(&items, "550E8400"), Err(RmzError::AmbiguousIdentifier {
        prefix: "550E8400".to_string(),
        candidates: vec![ID_B, ID_A],
    }));
    // Neither item is touched.
    assert!(store.find_by_id(ID_A).is_some());
    assert!(store.find_by_id(ID_B).is_some());
    assert_eq!(store.list().len(), 2);
}

#[test]
fn test_restore_by_invalid_id() {
    let store = TrashStore::new("/zone/trash".to_string());
    let result = restore_by_id(&store.list(), "xyz");
    assert!(result.is_err());
    assert_eq!(result, Err(RmzError::IdTooShort { id: "xyz".to_string() }));
    assert!(result.unwrap_err().message().contains("ID must be at least 8 characters long"));
    assert_eq!(
        RmzError::IdTooShort { id: "xyz".to_string() }.message(),
        "ID must be at least 8 characters long: xyz"
    );
    // The length is that of the bytes of the text: four letters with an
    // accent each make eight.
    assert_eq!(
        restore_by_id(&store.list(), "\u{e9}\u{e9}\u{e9}\u{e9}"),
        Err(RmzError::NoMatch { query: "\u{e9}\u{e9}\u{e9}\u{e9}".to_string() })
    );
    assert_eq!(
        restore_by_id(&store.list(), "\u{e9}\u{e9}\u{e9}"),
        Err(RmzError::IdTooShort { id: "\u{e9}\u{e9}\u{e9}".to_string() })
    );
    assert_eq!(
        restore_by_id(&store.list(), "1234567"),
        Err(RmzError::IdTooShort { id: "1234567".to_string() })
    );
    assert_eq!(
        restore_by_id(&store.list(), "12345678"),
        Err(RmzError::NoMatch { query: "12345678".to_string() })
    );
    assert_eq!(restore_by_parsed_id(&store.list(), Some(9), "x", "x"), Ok(9));
}

#[test]
fn test_restore_by_nonexistent_id() {
    let store = TrashStore::new("/zone/trash".to_string());
    let nonexistent_id = FileMeta::from_path("/x", 0, 0, "u").id;
    let text = rmz::ids::format_id(nonexistent_id);
    let id = restore_by_id(&store.list(), &text).unwrap();
    assert_eq!(id, nonexistent_id);
    let result = store.plan_restore(id);
    assert!(result.is_err());
    assert_eq!(result, Err(RmzError::NotFound { id: nonexistent_id }));
    let message = result.unwrap_err().message();
    assert!(message.contains("not found in trash"));
    assert_eq!(message, format!("File with ID {} not found in trash", text));
}

#[test]
fn test_restore_by_id() {
    let mut store = TrashStore::new("/zone/trash".to_string());
    let meta = item(ID_A, "/home/u/test.txt", T0, 12).meta;
    store.save(&meta, StepReport::Done).unwrap();

    let id = restore_by_id(&store.list(), &rmz::ids::format_id(meta.id)).unwrap();
    let found = store.find_by_id(id).unwrap();
    let destination = restore_destination(&found, None, false).unwrap();
    assert_eq!(destination, "/home/u/test.txt");
    let plan = restore_single_item(&store, id, &destination, false, false, false).unwrap().unwrap();
    assert_eq!(plan.destination, "/home/u/test.txt");
    assert_eq!(plan.steps.len(), 2);
    assert_eq!(store.restore(id, StepReport::Done), Ok("/home/u/test.txt".to_string()));
    assert!(store.find_by_id(id).is_none());
}

#[test]
fn test_restore_to_specific_location() {
    let found = item(ID_A, "/home/u/test.txt", T0, 12);
    // Into a directory: the original file name is kept.
    assert_eq!(
        restore_destination(&found, Some("/restore/dir"), true),
        Ok("/restore/dir/test.txt".to_string())
    );
    // To a path that is no directory: the path itself.
    assert_eq!(
        restore_destination(&found, Some("/restore/other.txt"), false),
        Ok("/restore/other.txt".to_string())
    );
    let nameless = item(ID_B, "/", T0, 1);
    assert_eq!(
        restore_destination(&nameless, Some("/restore/dir"), true),
        Err(RmzError::NoFileName { path: "/".to_string() })
    );
    assert_eq!(restore_destination(&nameless, None, true), Ok("/".to_string()));
}

#[test]
fn test_restore_existing_file_non_interactive() {
    let mut store = TrashStore::new("/zone/trash".to_string());
    let meta = item(ID_A, "/home/u/test_file.txt", T0, 16).meta;
    store.save(&meta, StepReport::Done).unwrap();

    // A new file stands at the same place: outside interactive use the
    // restore fails.
    let result = restore_single_item(&store, ID_A, "/home/u/test_file.txt", true, false, false);
    assert!(result.is_err());
    assert_eq!(
        result,
        Err(RmzError::AlreadyExists { path: "/home/u/test_file.txt".to_string() })
    );
    let message = result.unwrap_err().message();
    assert!(message.contains("File already exists"));
    assert!(message.starts_with("File already exists: /home/u/test_file.txt\n"));
    // The item is still held.
    assert!(store.find_by_id(ID_A).is_some());
}

#[test]
fn test_check_existing_file_and_confirm_no_conflict() {
    // File doesn't exist - should return true
    let result = check_existing_file_and_confirm("/tmp/no_conflict.txt", false, false, false).unwrap();
    assert!(result);
}

#[test]
fn test_check_existing_file_and_confirm_non_interactive() {
    // File exists, non-interactive mode - should return error
    let result = check_existing_file_and_confirm("/tmp/conflict.txt", true, false, false);
    assert!(result.is_err());
    assert_eq!(result, Err(RmzError::AlreadyExists { path: "/tmp/conflict.txt".to_string() }));
    // In interactive use the answer decides.
    assert_eq!(check_existing_file_and_confirm("/tmp/conflict.txt", true, true, true), Ok(true));
    assert_eq!(check_existing_file_and_confirm("/tmp/conflict.txt", true, true, false), Ok(false));
}

#[test]
fn test_check_existing_file_proceed() {
    let action = check_existing_file(false, 0);
    assert!(matches!(action, RestoreAction::Proceed));
    assert_eq!(check_existing_file(true, 0), RestoreAction::Overwrite);
    assert_eq!(check_existing_file(true, 1), RestoreAction::Skip);
    assert_eq!(check_existing_file(true, 2), RestoreAction::Rename);
    assert_eq!(check_existing_file(true, 3), RestoreAction::Cancel);
    assert_eq!(check_existing_file(true, 99), RestoreAction::Cancel);
}

#[test]
fn test_generate_safe_restore_path() {
    let file = "/tmp/dir/example.txt";
    let taken = vec![file.to_string()];
    let new_path = generate_safe_restore_path(file, &taken).unwrap();
    assert!(new_path != file);
    assert!(!taken.contains(&new_path));
    assert_eq!(new_path, "/tmp/dir/example_restored_1.txt");
}

#[test]
fn renaming_probes_until_a_name_is_free() {
    let taken: Vec<String> = [
        "/d/report.tar.gz",
        "/d/report.tar_restored_1.gz",
        "/d/report.tar_restored_2.gz",
        "/d/report.tar_restored_4.gz",
    ]
    .iter()
    .map(|s| s.to_string())
    .collect();
    assert_eq!(
        generate_safe_restore_path("/d/report.tar.gz", &taken),
        Some("/d/report.tar_restored_3.gz".to_string())
    );
    assert_eq!(candidate("/d/notes", 12), "/d/notes_restored_12");
    assert_eq!(candidate("/d/.profile", 1), "/d/.profile_restored_1");
    assert_eq!(candidate("name.txt", 1), "name_restored_1.txt");
    // A path without a file name has no siblings that differ.
    assert_eq!(candidate("/", 1), "/");
    assert_eq!(generate_safe_restore_path("/", &vec!["/".to_string()]), None);
    assert_eq!(generate_safe_restore_path("/", &Vec::new()), Some("/".to_string()));
}

#[test]
fn skip_leaves_item_and_existing_file_alone() {
    let mut store = TrashStore::new("/zone".to_string());
    let meta = item(ID_A, "/home/u/a.txt", T0, 10).meta;
    store.save(&meta, StepReport::Done).unwrap();
    let taken = vec!["/home/u/a.txt".to_string()];

    // The destination is occupied and the user chooses to skip.
    let action = check_existing_file(true, 1);
    assert_eq!(resolve_conflict(action, "/home/u/a.txt", &taken), Resolution::Skip);
    // No step is planned, so nothing on the disk is touched, and the item
    // is still held and can be restored later.
    assert_eq!(store.find_by_id(ID_A).unwrap().meta, meta);
    assert!(store.plan_restore(ID_A).is_ok());

    assert_eq!(
        resolve_conflict(RestoreAction::Overwrite, "/home/u/a.txt", &taken),
        Resolution::Restore { destination: "/home/u/a.txt".to_string() }
    );
    assert_eq!(
        resolve_conflict(RestoreAction::Proceed, "/home/u/a.txt", &taken),
        Resolution::Restore { destination: "/home/u/a.txt".to_string() }
    );
    assert_eq!(
        resolve_conflict(RestoreAction::Rename, "/home/u/a.txt", &taken),
        Resolution::Restore { destination: "/home/u/a_restored_1.txt".to_string() }
    );
    assert_eq!(resolve_conflict(RestoreAction::Cancel, "/home/u/a.txt", &taken), Resolution::Cancel);
}

#[test]
fn an_interactive_restore_that_the_user_declines() {
    let mut store = TrashStore::new("/zone".to_string());
    store.save(&item(ID_A, "/a", T0, 1).meta, StepReport::Done).unwrap();
    assert_eq!(restore_single_item(&store, ID_A, "/a", true, true, false), Ok(None));
    let plan = restore_single_item(&store, ID_A, "/a", true, true, true).unwrap().unwrap();
    assert!(matches!(plan.steps[0], FsStep::Move { .. }));
    assert_eq!(
        restore_single_item(&store, ID_B, "/b", false, false, false),
        Err(RmzError::NotFound { id: ID_B })
    );
}

#[test]
fn restore_requests() {
    let id = Some("abc".to_string());
    let file = Some("*.txt".to_string());
    assert_eq!(
        rmz::commands::restore::execute(file.clone(), id.clone(), true, true),
        Ok(RestoreRequest::ById { id: "abc".to_string() })
    );
    assert_eq!(
        rmz::commands::restore::execute(file.clone(), None, true, true),
        Ok(RestoreRequest::All { filter: file.clone() })
    );
    assert_eq!(
        rmz::commands::restore::execute(None, None, true, false),
        Ok(RestoreRequest::Interactive { filter: None })
    );
    assert_eq!(
        rmz::commands::restore::execute(file.clone(), None, false, false),
        Ok(RestoreRequest::ByPattern { pattern: "*.txt".to_string() })
    );
    assert_eq!(rmz::commands::restore::execute(None, None, false, false), Err(RmzError::MissingSelection));
}

#[test]
fn restoring_by_pattern() {
    let mut tagged = item(3, "/home/u/c.bin", T0, 1);
    tagged.meta.add_tag("report-archive".to_string());
    let items = vec![item(1, "/home/u/report.txt", T0, 1), item(2, "/home/u/b.txt", T0, 1), tagged];
    let found = restore_by_pattern(&items, "report");
    assert_eq!(found.iter().map(|i| i.meta.id).collect::<Vec<_>>(), vec![1, 3]);
    assert_eq!(restore_all(&items, Some(".txt")).len(), 2);
    assert_eq!(restore_all(&items, None), items);
    assert!(restore_by_pattern(&items, "nothing").is_empty());
    assert_eq!(restore_by_pattern(&items, "").len(), 3);
    assert_eq!(
        rmz::commands::restore::summarize(&vec![
            ItemOutcome::Restored,
            ItemOutcome::Failed,
            ItemOutcome::Restored,
            ItemOutcome::Skipped,
        ]),
        RestoreSummary { restored: 2, skipped: 1, failed: 1 }
    );
}

#[test]
fn picking_one_by_one() {
    let items = vec![item(1, "/a", T0, 1), item(2, "/b", T0, 1), item(3, "/c", T0, 1)];
    assert_eq!(interactive_purge(&items, &vec![true, false, true], true), vec![1, 3]);
    assert!(interactive_purge(&items, &vec![true, false, true], false).is_empty());
    assert_eq!(interactive_purge(&items, &vec![false, true], true), vec![2]);
    let sized_items = vec![sized(1, T0, 10), sized(2, T0, 20), sized(3, T0, 5)];
    assert_eq!(
        summarize(&sized_items, &vec![true, false, true]),
        PurgeSummary { purged_count: 2, freed_bytes: 15 }
    );
    assert_eq!(
        summarize(&sized_items, &vec![true]),
        PurgeSummary { purged_count: 1, freed_bytes: 10 }
    );
}

#[test]
fn test_format_relative_time() {
    let now = at(T0);

    // Test recent time
    let recent = at(T0 - 30);
    assert_eq!(format_relative_time(&recent, &now), "just now");

    // Test minutes ago
    let minutes_ago = at(T0 - 5 * 60);
    assert_eq!(format_relative_time(&minutes_ago, &now), "5 minutes ago");

    // Test hours ago
    let hours_ago = at(T0 - 2 * 3600);
    assert_eq!(format_relative_time(&hours_ago, &now), "2 hours ago");

    // Test days ago
    let days_ago = at(T0 - 3 * DAY);
    assert_eq!(format_relative_time(&days_ago, &now), "3 days ago");
}

#[test]
fn relative_times_at_the_edges() {
    let now = Timestamp::new(T0, 500).unwrap();
    assert_eq!(format_relative_time(&now, &now), "just now");
    assert_eq!(format_relative_time(&at(T0 - 59), &now), "just now");
    assert_eq!(format_relative_time(&at(T0 - 60), &now), "1 minute ago");
    assert_eq!(format_relative_time(&at(T0 - 3599), &now), "59 minutes ago");
    assert_eq!(format_relative_time(&at(T0 - 3600), &now), "1 hour ago");
    assert_eq!(format_relative_time(&at(T0 - DAY), &now), "1 day ago");
    assert_eq!(format_relative_time(&at(T0 + 1), &now), "unknown");
    // A second is whole only when its nanoseconds are over.
    let almost = Timestamp::new(T0 - 60, 501).unwrap();
    assert_eq!(format_relative_time(&almost, &now), "just now");
    assert_eq!(display_summary_logs(7), (7, 0));
    assert_eq!(display_summary_logs(20), (20, 0));
    assert_eq!(display_summary_logs(25), (20, 5));
}

#[test]
fn test_format_time_ago() {
    let just_now = 30;
    assert_eq!(format_time_ago(just_now), "just now");

    let minutes_ago = 5 * 60;
    assert_eq!(format_time_ago(minutes_ago), "5 minutes ago");

    let hour_ago = 3600;
    assert_eq!(format_time_ago(hour_ago), "1 hour ago");

    let hours_ago = 3 * 3600;
    assert_eq!(format_time_ago(hours_ago), "3 hours ago");

    let day_ago = DAY;
    assert_eq!(format_time_ago(day_ago), "1 day ago");

    let days_ago = 5 * DAY;
    assert_eq!(format_time_ago(days_ago), "5 days ago");
    assert_eq!(format_time_ago(-5), "just now");
}

#[test]
fn list_test_list_with_items() {
    let mut store = TrashStore::new("/zone/trash".to_string());
    let mut meta1 = item(1, "/tmp/one", T0, 8).meta;
    let mut meta2 = item(2, "/tmp/two", T0 + 1, 8).meta;

    // Add tags for testing
    meta1.add_tag("test".to_string());
    meta2.add_tag("important".to_string());

    store.save(&meta1, StepReport::Done).unwrap();
    store.save(&meta2, StepReport::Done).unwrap();

    // List items
    let items = store.list();
    assert_eq!(items.len(), 2);

    // Test filtering
    let filtered: Vec<_> = items.iter().filter(|item| item.meta.matches_pattern("test")).collect();
    assert_eq!(filtered.len(), 1);
}

#[test]
fn test_status_with_items() {
    let now = at(T0);
    let items = vec![
        item(1, "/small", T0 - 10, 13),
        item(2, "/medium", T0 - DAY, 2048),
        item(3, "/large", T0 - 3 * DAY, 5 * 1024 * 1024),
        item(4, "/huge", T0 - 10 * DAY, 100 * 1024 * 1024),
        item(5, "/old", T0 - 30 * DAY, 1024),
    ];
    let summary = rmz::commands::status::execute(&items);
    assert_eq!(summary.total_files, 5);
    assert_eq!(summary.total_size, 13 + 2048 + 5 * 1024 * 1024 + 100 * 1024 * 1024 + 1024);
    assert_eq!(summary.oldest, Some(at(T0 - 30 * DAY)));
    assert_eq!(summary.newest, Some(at(T0 - 10)));
    assert_eq!(
        show_size_breakdown(&items),
        SizeBreakdown { small: 1, medium: 2, large: 1, huge: 1 }
    );
    assert_eq!(
        show_time_breakdown(&items, &now),
        TimeBreakdown { today: 1, yesterday: 1, this_week: 1, this_month: 1, older: 1 }
    );
}

#[test]
fn test_delete_nonexistent_file() {
    let config = Config::with_trash_path("/zone/trash".to_string());
    let options = DeleteOptions { force: true, interactive: false, recursive: false, verbose: false };
    let result = delete_single_file(&config, "/nonexistent/file.txt", "/", false, &options);

    assert!(result.is_err());
    assert_eq!(result, Err(RmzError::NoSuchFile { path: "/nonexistent/file.txt".to_string() }));
    assert!(result.unwrap_err().message().contains("File does not exist"));
}

#[test]
fn test_delete_protected_file() {
    let mut config = Config::with_trash_path("/zone/trash".to_string());
    config.add_protected_path("/tmp/x/protected".to_string());
    let options = DeleteOptions { force: true, interactive: false, recursive: false, verbose: false };
    let result = delete_single_file(&config, "/tmp/x/protected/important.txt", "/", true, &options);
    assert!(result.is_err());
    assert_eq!(
        result,
        Err(RmzError::Protected { path: "/tmp/x/protected/important.txt".to_string() })
    );
    assert_eq!(
        result.unwrap_err().message(),
        "Path is protected from deletion: /tmp/x/protected/important.txt"
    );
    // Separators that repeat and `.` inside a path do not hide a file.
    for path in ["/tmp//x/protected/important.txt", "/tmp/./x/protected/./important.txt", "//tmp/x/protected"] {
        assert_eq!(
            delete_single_file(&config, path, "/", true, &options),
            Err(RmzError::Protected { path: path.to_string() })
        );
    }
    assert_eq!(
        delete_directory(&config, "/tmp/x//protected/sub", "/", true, &options),
        Err(RmzError::ProtectedDirectory { path: "/tmp/x//protected/sub".to_string() })
    );
}

#[test]
fn test_delete_single_file_success() {
    let config = Config::with_trash_path("/zone/trash".to_string());
    let options = DeleteOptions { force: true, interactive: false, recursive: false, verbose: false };
    assert_eq!(delete_single_file(&config, "/home/u/f.txt", "/", true, &options), Ok(Gate::Proceed));
    let meta = prepare_record("/home/u/f.txt", 12, 0o600, "me", Some("why"));
    assert_eq!(meta.original_path, "/home/u/f.txt");
    assert_eq!(meta.size, 12);
    assert_eq!(meta.permissions, 0o600);
    assert_eq!(meta.tags, vec!["why"]);
    assert_eq!(meta.deleted_by, "me");
    assert_eq!(meta.checksum, None);
    assert!(prepare_record("/x", 0, 0, "me", None).tags.is_empty());
}

#[test]
fn test_delete_empty_directory() {
    let config = Config::with_trash_path("/zone/trash".to_string());
    let options = DeleteOptions { force: true, interactive: false, recursive: false, verbose: false };
    assert_eq!(delete_directory(&config, "/home/u/empty_dir", "/", true, &options), Ok(Gate::Proceed));
}

#[test]
fn test_delete_non_empty_directory_without_recursive() {
    let config = Config::with_trash_path("/zone/trash".to_string());
    let options = DeleteOptions { force: true, interactive: false, recursive: false, verbose: false };
    let result = delete_directory(&config, "/home/u/dir_with_file", "/", false, &options);
    assert!(result.is_err());
    assert_eq!(
        result,
        Err(RmzError::DirectoryNotEmpty { path: "/home/u/dir_with_file".to_string() })
    );
    let message = result.unwrap_err().message();
    assert!(message.contains("Directory not empty"));
    assert_eq!(
        message,
        "Cannot remove directory '/home/u/dir_with_file': Directory not empty (use -r to delete recursively)"
    );
}

#[test]
fn test_delete_non_empty_directory_with_recursive() {
    let config = Config::with_trash_path("/zone/trash".to_string());
    let options = DeleteOptions { force: true, interactive: false, recursive: true, verbose: false };
    let result = delete_directory(&config, "/home/u/dir_with_files", "/", false, &options);
    assert!(result.is_ok());
}

#[test]
fn deleting_asks_first_in_interactive_use() {
    let config = Config::with_trash_path("/zone/trash".to_string());
    let ask = DeleteOptions { force: false, interactive: true, recursive: true, verbose: false };
    let forced = DeleteOptions { force: true, interactive: true, recursive: true, verbose: false };
    assert_eq!(delete_path(&config, "/h/f", "/", PathKind::File, &ask), Ok(Gate::Confirm));
    assert_eq!(delete_path(&config, "/h/f", "/", PathKind::File, &forced), Ok(Gate::Proceed));
    assert_eq!(delete_path(&config, "/h/d", "/", PathKind::Directory, &ask), Ok(Gate::Confirm));
    assert_eq!(delete_path(&config, "/h/d", "/", PathKind::EmptyDirectory, &ask), Ok(Gate::Proceed));
    assert_eq!(
        delete_path(&config, "/h/none", "/", PathKind::Missing, &ask),
        Err(RmzError::NoSuchPath { path: "/h/none".to_string() })
    );
    assert_eq!(
        delete_path(&config, "etc/passwd", "/", PathKind::File, &ask),
        Err(RmzError::Protected { path: "etc/passwd".to_string() })
    );
    assert_eq!(confirm_deletion(true), Ok(()));
    assert_eq!(confirm_deletion(false), Err(RmzError::Cancelled));
    let paths = vec!["/a".to_string()];
    assert_eq!(
        rmz::commands::delete::execute(paths.clone(), true),
        DeleteRequest::DryRun { paths: paths.clone() }
    );
    assert_eq!(
        rmz::commands::delete::execute(paths.clone(), false),
        DeleteRequest::Delete { paths }
    );
}

#[test]
fn removing_several_paths_reports_what_was_not_there() {
    let mut config = Config::with_trash_path("/t".to_string());
    config.protected_paths =
        vec!["/a".to_string(), "/real/b".to_string(), "/c".to_string(), "/a".to_string()];
    let paths: Vec<String> = ["/a", "/link/b", "/x", "/a", "/a"].iter().map(|s| s.to_string()).collect();
    let canonical: Vec<String> =
        ["/a", "/real/b", "/x", "/a"].iter().map(|s| s.to_string()).collect();
    let report = remove_protected_paths(&mut config, &paths, &canonical);
    assert_eq!(report, ProtectReport { changed: 3, unchanged: vec!["/x".to_string(), "/a".to_string()] });
    assert_eq!(config.protected_paths, vec!["/c"]);
}

#[test]
fn the_protect_command() {
    let mut config = Config::with_trash_path("/t".to_string());
    config.protected_paths = vec!["/etc".to_string(), "/mine".to_string()];
    let written = vec!["./docs".to_string()];
    let canonical = vec!["/home/u/docs".to_string()];
    let add = ProtectAction::Add { paths: written.clone() };
    assert_eq!(
        rmz::commands::protect::execute(&add, &mut config, &canonical),
        ProtectOutcome::Added { report: ProtectReport { changed: 1, unchanged: Vec::new() } }
    );
    assert_eq!(config.protected_paths, vec!["/etc", "/mine", "/home/u/docs"]);
    assert_eq!(
        rmz::commands::protect::execute(&ProtectAction::List, &mut config, &Vec::new()),
        ProtectOutcome::Listed {
            system: vec!["/etc".to_string()],
            user: vec!["/home/u/docs".to_string(), "/mine".to_string()],
        }
    );
    let remove = ProtectAction::Remove { paths: written };
    assert_eq!(
        rmz::commands::protect::execute(&remove, &mut config, &canonical),
        ProtectOutcome::Removed { report: ProtectReport { changed: 1, unchanged: Vec::new() } }
    );
    assert_eq!(config.protected_paths, vec!["/etc", "/mine"]);
}

#[test]
fn the_log_command() {
    let logger = OperationLogger::new("/l/operations.jsonl".to_string());
    let entry = |operation, secs: i64| {
        let mut log = OperationLog::new(operation, Vec::new(), OperationResult::Success, "u");
        log.timestamp = at(secs);
        log
    };
    let purge = rmz::domain::operation_log::OperationType::Purge;
    let delete = rmz::domain::operation_log::OperationType::Delete;
    let lines = || {
        vec![
            Some(entry(delete, T0 - 10 * DAY)),
            None,
            Some(entry(purge, T0 - DAY)),
            Some(entry(delete, T0 - 60)),
        ]
    };
    let now = at(T0);
    let times = |logs: Vec<OperationLog>| logs.iter().map(|l| l.timestamp).collect::<Vec<_>>();
    let all = rmz::commands::log::execute(&logger, lines(), None, None, &now).unwrap();
    assert_eq!(times(all), vec![at(T0 - 60), at(T0 - DAY), at(T0 - 10 * DAY)]);
    let deletes =
        rmz::commands::log::execute(&logger, lines(), Some(OperationType::Delete), None, &now)
            .unwrap();
    assert_eq!(times(deletes), vec![at(T0 - 60), at(T0 - 10 * DAY)]);
    let week = rmz::commands::log::execute(&logger, lines(), None, Some("week"), &now).unwrap();
    assert_eq!(times(week), vec![at(T0 - 60), at(T0 - DAY)]);
    assert_eq!(
        rmz::commands::log::execute(&logger, lines(), None, Some("whenever"), &now),
        Err(RmzError::InvalidDate { text: "whenever".to_string() })
    );
}

#[test]
fn every_failure_says_what_went_wrong() {
    let text = |e: RmzError| e.message();
    assert_eq!(text(RmzError::NoSuchPath { path: "/p".to_string() }), "Path does not exist: /p");
    assert_eq!(
        text(RmzError::NoMatch { query: "abcdefgh".to_string() }),
        "No files matching partial ID 'abcdefgh' found in trash"
    );
    assert_eq!(text(RmzError::NoFileNamed { name: "n".to_string() }), "No files found matching 'n'");
    assert_eq!(
        text(RmzError::AlreadyExists { path: "/p".to_string() }),
        "File already exists: /p\nUse --interactive flag to confirm overwrite, or restore to different location with --to"
    );
    assert_eq!(
        text(RmzError::ConcurrentModification { path: "/p".to_string() }),
        "File changed during operation: /p"
    );
    assert_eq!(
        text(RmzError::AmbiguousIdentifier { prefix: "550e8400".to_string(), candidates: vec![ID_A, ID_B] }),
        "Multiple files match partial ID '550e8400':\n  550e8400-e29b-41d4-a716-446655440000\n  550e8400-0000-4000-8000-000000000001\nPlease provide a more specific ID to uniquely identify the file"
    );
    assert_eq!(
        text(RmzError::AmbiguousIdentifier { prefix: "x".to_string(), candidates: vec![] }),
        "Multiple files match partial ID 'x':\nPlease provide a more specific ID to uniquely identify the file"
    );
    assert_eq!(
        text(RmzError::AmbiguousName { name: "ab".to_string(), candidates: vec![1] }),
        "Multiple files match 'ab':\n  00000000-0000-0000-0000-000000000001\nUse --interactive to select from multiple matches"
    );
    assert_eq!(text(RmzError::Corrupt { entry: "x.json".to_string() }), "Serialization error: x.json");
    assert_eq!(text(RmzError::IoFailure { path: "/p".to_string() }), "IO error: /p");
    assert_eq!(
        text(RmzError::NoFileName { path: "/".to_string() }),
        "Cannot determine filename for restoration: /"
    );
    assert_eq!(
        text(RmzError::NoExtractName { path: "/".to_string() }),
        "Cannot determine filename for extraction: /"
    );
    assert_eq!(text(RmzError::InvalidDate { text: "x".to_string() }), "Invalid date format: x");
    assert_eq!(
        text(RmzError::InvalidSince { text: "x".to_string() }),
        "Invalid date format: x. Use 'today', 'yesterday', 'week', 'month', or YYYY-MM-DD"
    );
    assert_eq!(
        text(RmzError::InvalidBoolean { value: "x".to_string() }),
        "Invalid boolean value: x. Use true/false, yes/no, on/off, 1/0, or enabled/disabled"
    );
    assert_eq!(
        text(RmzError::InvalidSelection { text: "x".to_string() }),
        "Could not parse selection index: x"
    );
    assert_eq!(
        text(RmzError::SelectionOutOfRange { text: "9".to_string() }),
        "Selection index out of range: 9"
    );
    assert_eq!(
        text(RmzError::ProtectedDirectory { path: "/p".to_string() }),
        "Directory is protected from deletion: /p"
    );
    assert_eq!(text(RmzError::Cancelled), "Deletion cancelled by user");
    assert_eq!(text(RmzError::DirectoryCancelled), "Directory deletion cancelled by user");
    assert_eq!(confirm_directory_deletion(true), Ok(()));
    assert_eq!(confirm_directory_deletion(false), Err(RmzError::DirectoryCancelled));
    assert_eq!(text(RmzError::EmptyInput), "Size string is empty");
    assert_eq!(text(RmzError::InvalidNumber { text: "x".to_string() }), "Invalid size number: x");
    assert_eq!(text(RmzError::InvalidUnit { text: "x".to_string() }), "Invalid size unit: x");
    assert_eq!(text(RmzError::InvalidSizeFormat { text: "X".to_string() }), "Invalid size format: X");
    assert_eq!(text(RmzError::EmptyDuration), "Duration string is empty");
    assert_eq!(
        text(RmzError::InvalidDurationNumber { text: "x".to_string() }),
        "Invalid duration number: x"
    );
    assert_eq!(
        text(RmzError::InvalidDurationUnit { text: "x".to_string() }),
        "Invalid duration unit: x"
    );
    assert_eq!(
        text(RmzError::MissingSelection),
        "Must specify one of: --id, --all, --interactive, or file pattern"
    );
    assert_eq!(
        text(RmzError::MissingExtractSelection),
        "Must specify one of: --from, --file, --interactive, or --all"
    );
    assert_eq!(text(RmzError::Config { message: "m".to_string() }), "Configuration error: m");
    assert_eq!(text(RmzError::Failed { message: "m".to_string() }), "m");
    assert_eq!(
        rmz::commands::restore::execute(None, None, false, false).unwrap_err().message(),
        "Must specify one of: --id, --all, --interactive, or file pattern"
    );
}

#[test]
fn a_restore_of_several_items_goes_on_after_a_failure() {
    assert_eq!(after_item(ItemOutcome::Failed, true), BatchStep::Stop);
    assert_eq!(after_item(ItemOutcome::Failed, false), BatchStep::GoOn);
    assert_eq!(after_item(ItemOutcome::Restored, true), BatchStep::GoOn);
    assert_eq!(after_item(ItemOutcome::Skipped, true), BatchStep::GoOn);
    assert_eq!(after_item(ItemOutcome::Skipped, false), BatchStep::GoOn);
}

#[test]
fn a_grouped_listing_shows_an_item_under_its_groups() {
    let mut tagged = item(ID_A, "/home/u/a.txt", T0, 1);
    tagged.meta.tags = vec!["work".to_string(), "old".to_string()];
    let plain = item(ID_B, "/home/u/b.txt", T0, 1);
    let day = tagged.trash_subdirectory();
    assert!(belongs_to(&tagged, GroupBy::Date, &day));
    assert!(!belongs_to(&tagged, GroupBy::Date, "1999-01-01"));
    assert!(belongs_to(&tagged, GroupBy::Tag, "old"));
    assert!(!belongs_to(&tagged, GroupBy::Tag, "(no tags)"));
    assert!(!belongs_to(&tagged, GroupBy::Tag, "ol"));
    assert!(belongs_to(&plain, GroupBy::Tag, "(no tags)"));
    assert!(!belongs_to(&plain, GroupBy::Tag, "work"));
}
