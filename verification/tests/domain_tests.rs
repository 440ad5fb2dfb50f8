use rmz::commands::doctor::{
    check_config_validity, check_dependencies, check_metadata_integrity, check_permissions,
    check_trash_zone, display_diagnostic_results, fix_issues, run_diagnostic_check,
    DiagnosticCheck, DiagnosticIssue, Findings, RootState, Severity, SeverityCounts,
};
use rmz::commands::extract::{
    extract_by_filename, extract_single_file, extract_target, ExtractRequest,
};
use rmz::domain::operation_log::{
    filter_logs, OperationLog, OperationLogger, OperationResult, OperationType,
};
use rmz::domain::timestamp::Notation;
use rmz::domain::{Config, FileMeta, Timestamp, TrashItem};
use rmz::errors::RmzError;
use rmz::infra::fzf_interface::{selector_for, Selector};
use rmz::infra::operation_logger::{
    get_operation_logger, init_operation_logger, FileOperationLogger,
};
use rmz::infra::trash_store::{StepReport, TrashStore};
use rmz::infra::{create_selector, DialoguerSelector, FzfSelector};
use rmz::paths;
use rmz::utils::operation_recorder::OperationRecorder;

const T0: i64 = 1_700_000_000;
const DAY: i64 = 86_400;
const ID_A: u128 = 0x550e8400_e29b_41d4_a716_446655440000;

fn at(secs: i64) -> Timestamp {
    Timestamp::new(secs, 0).unwrap()
}

fn create_test_meta() -> FileMeta {
    FileMeta {
        id: ID_A,
        original_path: "/tmp/work/test file.txt".to_string(),
        deleted_at: at(T0),
        size: 12,
        permissions: 0o644,
        tags: Vec::new(),
        checksum: None,
        deleted_by: "tester".to_string(),
    }
}

#[test]
fn test_file_meta_creation() {
    let before = Timestamp::now();
    let meta = FileMeta::from_path("/tmp/work/test.txt", 12, 0o644, "tester");
    let after = Timestamp::now();

    assert_eq!(meta.original_path, "/tmp/work/test.txt");
    assert_eq!(meta.size, 12); // "test content".len()
    assert!(meta.id != 0);
    assert!(meta.deleted_at <= after);
    assert!(before <= meta.deleted_at);
    assert!(meta.tags.is_empty());
    assert_eq!(meta.checksum, None);
    // A random identifier: version 4, variant 1.
    let text = rmz::ids::format_id(meta.id);
    assert_eq!(text.len(), 36);
    assert_eq!(&text[14..15], "4");
    assert!(["8", "9", "a", "b"].contains(&&text[19..20]));
    // Fresh each time.
    assert_ne!(meta.id, FileMeta::from_path("/tmp/work/test.txt", 12, 0o644, "tester").id);
}

#[test]
fn test_add_tag() {
    let mut meta = create_test_meta();
    meta.add_tag("important".to_string());
    meta.add_tag("project-x".to_string());
    meta.add_tag("important".to_string()); // Duplicate should be ignored

    assert_eq!(meta.tags.len(), 2);
    assert!(meta.tags.contains(&"important".to_string()));
    assert!(meta.tags.contains(&"project-x".to_string()));
    assert_eq!(meta.tags, vec!["important", "project-x"]);
}

#[test]
fn test_matches_pattern() {
    let mut meta = create_test_meta();
    meta.add_tag("work".to_string());

    assert!(meta.matches_pattern("work"));
    assert!(meta.matches_pattern("tmp")); // Should match path
    assert!(!meta.matches_pattern("nonexistent"));
    assert!(meta.matches_pattern("test file"));
    assert!(meta.matches_pattern(""));
    assert!(!meta.matches_pattern("Work"));
}

#[test]
fn test_human_readable_size() {
    let mut meta = create_test_meta();
    meta.size = 1;
    assert_eq!(meta.human_readable_size(), "1 B");
    meta.size = 1536; // 1.5 KB
    assert_eq!(meta.human_readable_size(), "1.5 KB");
}

#[test]
fn names_and_directories_of_a_record() {
    let meta = create_test_meta();
    assert_eq!(meta.filename(), Some("test file.txt".to_string()));
    assert_eq!(meta.original_directory(), Some("/tmp/work".to_string()));
    let mut root = create_test_meta();
    root.original_path = "/".to_string();
    assert_eq!(root.filename(), None);
    assert_eq!(root.original_directory(), None);
    assert_eq!(meta.clone(), meta);
}

#[test]
fn test_trash_item_creation() {
    let meta = create_test_meta();
    let trash_path = "/zone/2023-11-14/test_file".to_string();
    let item = TrashItem::new(meta.clone(), trash_path.clone());

    assert_eq!(item.meta.id, meta.id);
    assert_eq!(item.trash_path, trash_path);
    assert_eq!(item.clone(), item);
}

#[test]
fn test_trash_subdirectory() {
    let item = TrashItem::new(create_test_meta(), "/zone/x".to_string());
    let subdir = item.trash_subdirectory();

    // Should be in format YYYY-MM-DD
    assert_eq!(subdir.len(), 10);
    assert!(subdir.contains("-"));
    assert_eq!(subdir, "2023-11-14");
}

#[test]
fn test_metadata_path() {
    let item = TrashItem::new(create_test_meta(), "/zone/dir/abc123.file".to_string());
    let meta_path = item.metadata_path();
    assert_eq!(meta_path, format!("{}/abc123.meta.json", "/zone/dir"));
}

#[test]
fn checksums_are_sha256_in_hexadecimal() {
    assert_eq!(
        TrashItem::calculate_checksum(b"abc"),
        "ba7816bf8f01cfea414140de5dae2223b00361a396177a9cb410ff61f20015ad"
    );
    assert_eq!(
        TrashItem::calculate_checksum(b""),
        "e3b0c44298fc1c149afbf4c8996fb92427ae41e4649b934ca495991b7852b855"
    );
    let mut item = TrashItem::new(create_test_meta(), "/zone/x".to_string());
    // Without a checksum any content passes.
    assert!(item.verify_integrity(b"whatever"));
    item.meta.checksum = Some(TrashItem::calculate_checksum(b"abc"));
    assert!(item.verify_integrity(b"abc"));
    assert!(!item.verify_integrity(b"abd"));
}

#[test]
fn moments_in_time() {
    assert!(Timestamp::new(0, 0).is_some());
    assert!(Timestamp::new(-62_135_596_800, 0).is_some());
    assert!(Timestamp::new(-62_135_596_801, 0).is_none());
    assert!(Timestamp::new(253_402_300_799, 999_999_999).is_some());
    assert!(Timestamp::new(253_402_300_800, 0).is_none());
    assert!(Timestamp::new(0, 1_000_000_000).is_none());
    let t = Timestamp::new(T0, 7).unwrap();
    assert_eq!((t.secs(), t.nanos()), (T0, 7));
    assert_eq!(Timestamp::clamped(-70_000_000_000, 5), Timestamp::new(-62_135_596_800, 0).unwrap());
    assert_eq!(
        Timestamp::clamped(300_000_000_000, 5),
        Timestamp::new(253_402_300_799, 999_999_999).unwrap()
    );
    assert_eq!(Timestamp::clamped(5, 1_500_000_000), Timestamp::new(5, 999_999_999).unwrap());
    assert_eq!(Timestamp::clamped(5, 6), Timestamp::new(5, 6).unwrap());

    assert!(at(1).is_before(&at(2)));
    assert!(!at(2).is_before(&at(2)));
    assert!(Timestamp::new(2, 1).unwrap().is_before(&Timestamp::new(2, 2).unwrap()));
    assert!(at(-5).is_before(&at(0)));

    assert_eq!(at(0).date_bucket(), "1970-01-01");
    assert_eq!(at(-1).date_bucket(), "1969-12-31");
    assert_eq!(at(951_782_400).date_bucket(), "2000-02-29");
    assert_eq!(at(-62_135_596_800).date_bucket(), "0001-01-01");
    assert_eq!(at(253_402_300_799).date_bucket(), "9999-12-31");

    assert_eq!(at(T0).start_of_day(), at(T0 - T0 % DAY));
    assert_eq!(at(-1).start_of_day(), at(-DAY));
    assert_eq!(Timestamp::new(DAY, 5).unwrap().start_of_day(), at(DAY));
    assert_eq!(at(T0).days_earlier(2), at(T0 - 2 * DAY));
    assert_eq!(at(-62_135_596_800 + 5).days_earlier(1), at(-62_135_596_800));
    assert_eq!(at(T0).days_earlier(u32::MAX), at(-62_135_596_800));

    assert!(at(T0 - 3 * DAY).age_at_least(&at(T0), 3));
    assert!(!at(T0 - 3 * DAY + 1).age_at_least(&at(T0), 3));
    assert!(!at(T0 - 3 * DAY).is_older_than(&at(T0), 3));
    assert!(at(T0 - 3 * DAY - 1).is_older_than(&at(T0), 3));
    assert_eq!(at(10).seconds_until(&at(75)), 65);
    assert_eq!(at(75).seconds_until(&at(10)), 0);
    assert_eq!(Timestamp::new(10, 9).unwrap().seconds_until(&Timestamp::new(11, 8).unwrap()), 0);
}

#[test]
fn moments_from_text() {
    assert_eq!(Timestamp::parse("2024-01-01", Notation::Day), Some(at(1_704_067_200)));
    assert_eq!(Timestamp::parse("2024-01-01 ", Notation::Day), None);
    assert_eq!(Timestamp::parse("2024-13-01", Notation::Day), None);
    assert_eq!(
        Timestamp::parse("2024-01-01 12:00:00", Notation::DateTime),
        Some(at(1_704_067_200 + 12 * 3600))
    );
    assert_eq!(
        Timestamp::parse("2024-01-01 12:00:00 +0200", Notation::Zoned),
        Some(at(1_704_067_200 + 10 * 3600))
    );
    assert_eq!(
        Timestamp::parse("2024-01-01T00:00:00Z", Notation::Rfc3339),
        Some(at(1_704_067_200))
    );
    assert_eq!(
        Timestamp::parse("2024-01-01T00:00:00.25+01:00", Notation::Rfc3339),
        Timestamp::new(1_704_067_200 - 3600, 250_000_000)
    );
    assert_eq!(Timestamp::parse("2024-01-01", Notation::Rfc3339), None);
    // A moment out of range is none.
    assert_eq!(Timestamp::parse("10000-01-01T00:00:00Z", Notation::Rfc3339), None);
}

#[test]
fn list_test_parse_since_date() {
    let now = at(T0);
    // Test relative dates
    let today = rmz::commands::list::parse_since_date("today", &now).unwrap();
    let yesterday = rmz::commands::list::parse_since_date("yesterday", &now).unwrap();
    let week = rmz::commands::list::parse_since_date("week", &now).unwrap();
    let month = rmz::commands::list::parse_since_date("month", &now).unwrap();

    assert!(today > yesterday);
    assert!(yesterday > week);
    assert!(week > month);

    // Test absolute date
    let absolute = rmz::commands::list::parse_since_date("2024-01-01", &now).unwrap();
    assert_eq!(absolute.date_bucket(), "2024-01-01");

    // Test invalid date
    assert!(rmz::commands::list::parse_since_date("invalid", &now).is_err());

    assert_eq!(today, at(T0 - T0 % DAY));
    assert_eq!(yesterday, at(T0 - T0 % DAY - DAY));
    assert_eq!(week, at(T0 - 7 * DAY));
    assert_eq!(month, at(T0 - 30 * DAY));
    assert_eq!(rmz::commands::list::parse_since_date("TODAY", &now), Ok(today));
    assert_eq!(
        rmz::commands::list::parse_since_date("2024-01-01 06:00:00 +0100", &now),
        Ok(at(1_704_067_200 + 5 * 3600))
    );
    assert_eq!(
        rmz::commands::list::parse_since_date("2024-01-01 06:00:00", &now),
        Ok(at(1_704_067_200 + 6 * 3600))
    );
    assert_eq!(
        rmz::commands::list::parse_since_date("this-week", &now),
        Err(RmzError::InvalidSince { text: "this-week".to_string() })
    );
    assert_eq!(rmz::commands::list::since_date("week", "whatever", &now), Ok(week));
}

#[test]
fn log_test_parse_since_date() {
    let now = Timestamp::now();
    // Test special keywords
    let today = rmz::commands::log::parse_since_date("today", &now).unwrap();
    assert_eq!(today.date_bucket(), now.date_bucket());

    let yesterday = rmz::commands::log::parse_since_date("yesterday", &now).unwrap();
    let expected = now.days_earlier(1).date_bucket();
    assert_eq!(yesterday.date_bucket(), expected);

    // Test ISO date
    let iso_date = rmz::commands::log::parse_since_date("2024-01-01T00:00:00Z", &now).unwrap();
    assert_eq!(iso_date.date_bucket(), "2024-01-01");

    // Test simple date
    let simple_date = rmz::commands::log::parse_since_date("2024-01-01", &now).unwrap();
    assert_eq!(simple_date.date_bucket(), "2024-01-01");

    assert_eq!(
        rmz::commands::log::parse_since_date("This-Week", &now),
        Ok(now.days_earlier(7))
    );
    assert_eq!(
        rmz::commands::log::parse_since_date("this-month", &now),
        Ok(now.days_earlier(30))
    );
    assert!(rmz::commands::log::parse_since_date("someday", &now).is_err());
    assert_eq!(rmz::commands::log::since_date("month", "x", &now), Ok(now.days_earlier(30)));
}

#[test]
fn listing_with_filters() {
    let mut store = TrashStore::new("/zone".to_string());
    for (id, path, secs) in
        [(1u128, "/d/one.txt", T0), (2, "/d/two.log", T0 + DAY), (3, "/d/three.txt", T0 + 2 * DAY)]
    {
        let mut meta = create_test_meta();
        meta.id = id;
        meta.original_path = path.to_string();
        meta.deleted_at = at(secs);
        store.save(&meta, StepReport::Done).unwrap();
    }
    let ids = |items: Vec<TrashItem>| items.iter().map(|i| i.meta.id).collect::<Vec<_>>();
    let list = rmz::commands::list::execute;
    assert_eq!(ids(list(store.list(), None, None, None)), vec![3, 2, 1]);
    assert_eq!(ids(list(store.list(), Some(at(T0 + DAY)), None, None)), vec![3, 2]);
    assert_eq!(ids(list(store.list(), None, Some(".txt"), None)), vec![3, 1]);
    assert_eq!(ids(list(store.list(), None, Some(".txt"), Some(1))), vec![3]);
    assert_eq!(ids(list(store.list(), Some(at(T0 + 1)), Some(".txt"), Some(5))), vec![3]);
    assert!(list(store.list(), None, None, Some(0)).is_empty());
}

#[test]
fn paths_as_text() {
    assert_eq!(paths::join("/a", "b"), "/a/b");
    assert_eq!(paths::join("/a/", "b"), "/a/b");
    assert_eq!(paths::join("", "b"), "b");
    assert_eq!(paths::join("/a", "/b"), "/b");
    assert_eq!(paths::join("/a", ""), "/a/");
    assert_eq!(paths::file_name("/a/b.txt"), Some("b.txt".to_string()));
    assert_eq!(paths::file_name("/a/b/"), Some("b".to_string()));
    assert_eq!(paths::file_name("tmp/foo.txt/."), Some("foo.txt".to_string()));
    assert_eq!(paths::file_name("foo.txt/.//"), Some("foo.txt".to_string()));
    assert_eq!(paths::file_name("foo.txt/.."), None);
    assert_eq!(paths::file_name("/"), None);
    assert_eq!(paths::file_name(""), None);
    assert_eq!(paths::file_name("."), None);
    assert_eq!(paths::file_name("name"), Some("name".to_string()));
    assert_eq!(paths::parent("/a/b"), Some("/a".to_string()));
    assert_eq!(paths::parent("/a"), Some("/".to_string()));
    assert_eq!(paths::parent("a"), Some(String::new()));
    assert_eq!(paths::parent("/"), None);
    assert_eq!(paths::parent(""), None);
    assert_eq!(paths::parent("/a/b/"), Some("/a".to_string()));
    assert_eq!(paths::parent("a//b"), Some("a".to_string()));
    assert_eq!(paths::file_stem("/a/b.tar.gz"), Some("b.tar".to_string()));
    assert_eq!(paths::extension("/a/b.tar.gz"), Some("gz".to_string()));
    assert_eq!(paths::file_stem("/a/.bashrc"), Some(".bashrc".to_string()));
    assert_eq!(paths::extension("/a/.bashrc"), None);
    assert_eq!(paths::extension("/a/b."), Some(String::new()));
    assert_eq!(paths::extension("/a.d/b"), None);
    assert_eq!(paths::file_stem("/"), None);
    assert_eq!(paths::with_extension("/a/b.txt", "md"), "/a/b.md");
    assert_eq!(paths::with_extension("/a/b", "md"), "/a/b.md");
    assert_eq!(paths::with_extension("/a/b.txt", ""), "/a/b");
    assert_eq!(paths::with_extension("/a/b.txt/", "md"), "/a/b.md");
    assert_eq!(paths::with_extension("/", "md"), "/");
    assert_eq!(paths::with_file_name("/a/b.txt", "c"), "/a/c");
    assert_eq!(paths::with_file_name("b.txt", "c"), "c");
    assert_eq!(paths::with_file_name("/", "c"), "/c");
    assert!(paths::is_absolute("/a"));
    assert!(!paths::is_absolute("a"));
    assert!(!paths::is_absolute(""));
    assert!(paths::is_under("/a/b", "/a"));
    assert!(paths::is_under("/a", "/a/"));
    assert!(paths::is_under("/a", "/"));
    assert!(!paths::is_under("a", "/"));
    assert!(!paths::is_under("/ab", "/a"));
    assert!(!paths::is_under("/a", "/a/b"));
    assert!(paths::is_under("/a", ""));
    assert!(paths::is_under("//a///b/", "/a"));
    assert!(paths::is_under("/./a/./b", "/a/b/."));
    assert!(paths::is_under("./a", "."));
    assert!(!paths::is_under("a", "."));
    assert!(paths::is_under("a/./b", "a//"));
    assert!(!paths::is_under("/a/../b", "/b"));
    assert!(paths::is_under("/a/../b", "/a/.."));
}

#[test]
fn text_helpers() {
    assert_eq!(rmz::text::u64_to_text(0), "0");
    assert_eq!(rmz::text::u64_to_text(u64::MAX), "18446744073709551615");
    assert_eq!(rmz::text::u128_to_text(u128::MAX), "340282366920938463463374607431768211455");
    assert_eq!(rmz::text::digits_value("0042", 100), Some(42));
    assert_eq!(rmz::text::digits_value("101", 100), None);
    assert_eq!(rmz::text::digits_value("4x", 100), None);
    assert_eq!(rmz::text::digits_value("", 100), Some(0));
    assert!(rmz::text::contains("hello", "ell"));
    assert!(rmz::text::contains("hello", ""));
    assert!(!rmz::text::contains("hello", "elo"));
    assert!(!rmz::text::contains("", "a"));
    assert!(rmz::text::starts_with("hello", "he"));
    assert!(!rmz::text::starts_with("he", "hello"));
    assert!(rmz::text::ends_with("hello", "llo"));
    assert!(!rmz::text::ends_with("hello", "hell"));
    assert!(rmz::text::same_text("é", "é"));
    assert_eq!(rmz::text::concat("a", "b"), "ab");
    assert_eq!(rmz::text::chars_of("añb"), vec!['a', 'ñ', 'b']);
    assert_eq!(rmz::text::text_of(&vec!['a', 'ñ', 'b'], 1, 3), "ñb");
    assert_eq!(rmz::ids::format_id(0), "00000000-0000-0000-0000-000000000000");
    assert_eq!(rmz::ids::format_id(u128::MAX), "ffffffff-ffff-ffff-ffff-ffffffffffff");
    assert_eq!(
        rmz::ids::format_id(0x0123_4567_89ab_cdef_0123_4567_89ab_cdef),
        "01234567-89ab-cdef-0123-456789abcdef"
    );
}

fn fresh_log(operation: OperationType, path: &str) -> OperationLog {
    OperationLog::new(operation, vec![path.to_string()], OperationResult::Success, "tester")
}

#[test]
fn test_operation_log_creation() {
    let paths = vec!["/test/file.txt".to_string()];
    let log = OperationLog::new(
        OperationType::Delete,
        paths.clone(),
        OperationResult::Success,
        "tester",
    );

    assert_eq!(log.operation, OperationType::Delete);
    assert_eq!(log.paths, paths);
    assert_eq!(log.result, OperationResult::Success);
    assert!(log.id != 0);
    assert!(log.timestamp <= Timestamp::now());
    assert_eq!(log.user, "tester");
    assert_eq!(log.context, None);
    assert!(log.file_ids.is_empty());
}

#[test]
fn test_operation_log_with_context() {
    let log = OperationLog::new(OperationType::Delete, vec![], OperationResult::Success, "u")
        .with_context("Test context".to_string());

    assert_eq!(log.context, Some("Test context".to_string()));
    let log = log.with_file_ids(vec![1, 2]);
    assert_eq!(log.file_ids, vec![1, 2]);
    assert_eq!(log.context, Some("Test context".to_string()));
}

#[test]
fn test_matches_filter() {
    let log = OperationLog::new(OperationType::Delete, vec![], OperationResult::Success, "u");

    assert!(log.matches_filter(Some(&OperationType::Delete), None));
    assert!(!log.matches_filter(Some(&OperationType::Restore), None));
    assert!(log.matches_filter(None, None));

    let past_time = Timestamp::now().days_earlier(1);
    assert!(log.matches_filter(None, Some(&past_time)));

    let future_time = Timestamp::clamped(Timestamp::now().secs() + 3600, 0);
    assert!(!log.matches_filter(None, Some(&future_time)));
    assert!(log.matches_filter(None, Some(&log.timestamp)));
}

#[test]
fn log_entries_in_words() {
    let mut log = fresh_log(OperationType::Purge, "/a/b");
    assert_eq!(log.description(), "Purge /a/b");
    assert_eq!(log.result_display(), "✅ Success");
    log.paths.push("/c".to_string());
    assert_eq!(log.description(), "Purge 2 files");
    log.paths.clear();
    assert_eq!(log.description(), "Purge unknown");
    log.file_ids = vec![1, 2, 3];
    assert_eq!(log.description(), "Purge 3 items");
    log.result = OperationResult::Failed("disk full".to_string());
    assert_eq!(log.result_display(), "❌ Failed: disk full");
    log.result = OperationResult::Cancelled;
    assert_eq!(log.result_display(), "⚠️ Cancelled");
    log.operation = OperationType::Doctor;
    assert_eq!(log.description(), "Doctor 3 items");
}

fn log_at(operation: OperationType, path: &str, secs: i64) -> OperationLog {
    let mut log = fresh_log(operation, path);
    log.timestamp = at(secs);
    log
}

#[test]
fn test_operation_logger() {
    let logger = OperationLogger::new("/zone/logs/operations.jsonl".to_string());
    assert_eq!(logger.log_file_path(), "/zone/logs/operations.jsonl");

    let log1 = log_at(OperationType::Delete, "/test1.txt", T0);
    let mut log2 = log_at(OperationType::Restore, "/test2.txt", T0 + 1);
    log2.result = OperationResult::Failed("Test error".to_string());

    let lines = vec![Some(log1.clone()), None, Some(log2.clone())];
    let logs = logger.read_logs(lines.clone());
    assert_eq!(logs.len(), 2);

    // Should be sorted by timestamp (newest first)
    assert_eq!(logs[0].operation, OperationType::Restore);
    assert_eq!(logs[1].operation, OperationType::Delete);

    // Test filtering
    let delete_logs = logger.read_filtered_logs(lines, Some(OperationType::Delete), None, None);
    assert_eq!(delete_logs.len(), 1);
    assert_eq!(delete_logs[0].operation, OperationType::Delete);
}

#[test]
fn test_file_operation_logger() {
    let logger = FileOperationLogger::new("/zone/operations.jsonl".to_string());
    assert_eq!(logger.log_path(), "/zone/operations.jsonl");

    let entry = fresh_log(OperationType::Delete, "/test/file.txt");

    // Read back the logs
    let logs = logger.get_logs(vec![Some(entry.clone())], None);
    assert_eq!(logs.len(), 1);
    assert_eq!(logs[0].operation, entry.operation);
    assert_eq!(logs[0].paths, entry.paths);
}

#[test]
fn test_operation_logger_filtering() {
    let logger = FileOperationLogger::new("/zone/operations.jsonl".to_string());

    let delete_entry = log_at(OperationType::Delete, "/test/file1.txt", T0);
    let restore_entry = log_at(OperationType::Restore, "/test/file2.txt", T0 + 5);
    let lines = || vec![Some(delete_entry.clone()), Some(restore_entry.clone())];

    // Test filtering by operation type
    let delete_logs = logger.get_logs_filtered(lines(), Some(OperationType::Delete), None, None);
    assert_eq!(delete_logs.len(), 1);
    assert_eq!(delete_logs[0].operation, OperationType::Delete);

    let restore_logs = logger.get_logs_filtered(lines(), Some(OperationType::Restore), None, None);
    assert_eq!(restore_logs.len(), 1);
    assert_eq!(restore_logs[0].operation, OperationType::Restore);

    // Test getting all logs
    let all_logs = logger.get_logs(lines(), None);
    assert_eq!(all_logs.len(), 2);
    assert_eq!(all_logs, vec![restore_entry.clone(), delete_entry.clone()]);

    assert_eq!(logger.get_logs(lines(), Some(1)), vec![restore_entry.clone()]);
    assert_eq!(
        logger.get_logs_filtered(lines(), None, Some(at(T0 + 1)), None),
        vec![restore_entry.clone()]
    );
    assert_eq!(
        filter_logs(lines().into_iter().flatten().collect(), None, Some(at(T0)), Some(1)),
        vec![delete_entry]
    );
}

#[test]
fn the_logger_is_set_up_once() {
    let mut slot: Option<FileOperationLogger> = None;
    assert!(get_operation_logger(&slot).is_err());
    assert_eq!(init_operation_logger(&mut slot, "/l/a.jsonl".to_string()), Ok(()));
    assert_eq!(get_operation_logger(&slot).unwrap().log_path(), "/l/a.jsonl");
    assert_eq!(
        init_operation_logger(&mut slot, "/l/b.jsonl".to_string()),
        Err(RmzError::Failed { message: "Operation logger already initialized".to_string() })
    );
    assert_eq!(get_operation_logger(&slot).unwrap().log_path(), "/l/a.jsonl");
}

#[test]
fn recording_a_command() {
    let recorder = OperationRecorder::new(OperationType::Delete, vec!["/a".to_string()]);
    let log = recorder.finish(Err("no space".to_string()), "me", 1234);
    assert_eq!(log.operation, OperationType::Delete);
    assert_eq!(log.paths, vec!["/a"]);
    assert_eq!(log.result, OperationResult::Failed("no space".to_string()));
    assert_eq!(log.context, Some("duration_ms=1234".to_string()));
    assert_eq!(log.user, "me");
    let log = OperationRecorder::new(OperationType::List, vec![]).finish(Ok(()), "me", 0);
    assert_eq!(log.result, OperationResult::Success);
}

fn held(id: u128, path: &str, secs: i64, size: u64) -> TrashItem {
    let mut meta = create_test_meta();
    meta.id = id;
    meta.original_path = path.to_string();
    meta.deleted_at = at(secs);
    meta.size = size;
    TrashItem::new(meta, format!("/zone/x/{}.rmz", id))
}

#[test]
fn selecting_from_a_list() {
    let items = vec![held(ID_A, "/home/u/a.txt", T0 - 7200, 1536), held(2, "/b", T0, 1)];
    let fzf = FzfSelector::with_availability(true);
    assert!(fzf.is_available());
    assert_eq!(
        fzf.format_item(&items[0], 0, &at(T0)),
        "  1: /home/u/a.txt (1.5 KB) deleted 2 hours ago 550e8400"
    );
    assert!(fzf.format_item(&items[1], 122, &at(T0)).starts_with("123: /b (1 B) deleted just now "));
    assert!(fzf.format_item(&items[1], 11, &at(T0 - 1)).starts_with(" 12: /b (1 B) deleted unknown "));

    assert_eq!(fzf.parse_selection("  2: /b (1 B) deleted just now", &items), Ok(items[1].clone()));
    assert_eq!(fzf.parse_selection("1", &items), Ok(items[0].clone()));
    assert_eq!(
        fzf.parse_selection("0: x", &items),
        Err(RmzError::SelectionOutOfRange { text: "0".to_string() })
    );
    assert_eq!(
        fzf.parse_selection(" 3 : x", &items),
        Err(RmzError::SelectionOutOfRange { text: "3".to_string() })
    );
    assert_eq!(
        fzf.parse_selection("first: x", &items),
        Err(RmzError::InvalidSelection { text: "first".to_string() })
    );
    assert_eq!(FzfSelector::item_at("2", &items), Ok(items[1].clone()));
    assert!(FzfSelector::item_at(" 2", &items).is_err());

    assert_eq!(fzf.select_trash_item(&Vec::new(), Some("1: x")), Ok(None));
    assert_eq!(fzf.select_trash_item(&items, None), Ok(None));
    assert_eq!(fzf.select_trash_item(&items, Some(" 2: /b\n")), Ok(Some(items[1].clone())));
    assert!(fzf.select_trash_item(&items, Some("9: /b")).is_err());
    let none = FzfSelector::with_availability(false);
    assert_eq!(
        none.select_trash_item(&items, Some("1: x")),
        Err(RmzError::Failed { message: "fzf is not available".to_string() })
    );
    assert_eq!(none.select_trash_item(&Vec::new(), None), Ok(None));

    let plain = DialoguerSelector::new();
    assert_eq!(plain.select_trash_item(&items, Some(1)), Some(items[1].clone()));
    assert_eq!(plain.select_trash_item(&items, Some(2)), None);
    assert_eq!(plain.select_trash_item(&items, None), None);

    assert_eq!(selector_for(fzf), Selector::Fzf(fzf));
    assert_eq!(selector_for(none), Selector::Dialoguer(DialoguerSelector));
    match create_selector() {
        Selector::Fzf(f) => assert!(f.is_available()),
        Selector::Dialoguer(_) => assert!(!FzfSelector::new().is_available()),
    }
}

fn issue(
    check_type: DiagnosticCheck,
    severity: Severity,
    message: &str,
    suggestion: Option<&str>,
    fixable: bool,
) -> DiagnosticIssue {
    DiagnosticIssue {
        check_type,
        severity,
        message: message.to_string(),
        suggestion: suggestion.map(|s| s.to_string()),
        fixable,
    }
}

#[test]
fn the_root_of_the_zone_is_checked() {
    let store = TrashStore::new("/zone".to_string());
    assert!(check_trash_zone(&store, RootState::Directory).is_empty());
    assert_eq!(
        check_trash_zone(&store, RootState::Missing),
        vec![issue(
            DiagnosticCheck::TrashZone,
            Severity::Error,
            "Trash directory does not exist: /zone",
            Some("Create the trash directory"),
            true
        )]
    );
    // What stands in the place of the root is never removed by the tool.
    assert_eq!(
        check_trash_zone(&store, RootState::NotDirectory),
        vec![issue(
            DiagnosticCheck::TrashZone,
            Severity::Critical,
            "Trash path exists but is not a directory: /zone",
            Some("Remove the file and recreate as directory"),
            false
        )]
    );
}

#[test]
fn records_and_files_that_do_not_pair_up_are_reported() {
    let mut store = TrashStore::new("/zone".to_string());
    store.save(&held(1, "/ok", T0, 1).meta, StepReport::Done).unwrap();
    // A record whose file is gone.
    store.save(&held(2, "/lost", T0 + 1, 1).meta, StepReport::Done).unwrap();
    let report = StepReport::Failed { completed: 1, error: RmzError::Cancelled };
    assert!(store.restore(2, report).is_err());
    // A file without a record.
    let stray = held(3, "/stray", T0 + 2, 1).meta;
    let report = StepReport::Failed { completed: 1, error: RmzError::Cancelled };
    assert!(store.save(&stray, report).is_err());

    let issues = check_trash_zone(&store, RootState::Directory);
    assert_eq!(
        issues,
        vec![
            issue(
                DiagnosticCheck::TrashZone,
                Severity::Warning,
                "Orphaned metadata: /lost (file missing)",
                Some("Remove orphaned metadata"),
                true
            ),
            issue(
                DiagnosticCheck::TrashZone,
                Severity::Warning,
                &format!("Orphaned file: {} (no metadata)", store.trash_path_for(&stray)),
                Some("Restore or remove the file by hand"),
                false
            ),
        ]
    );
    // A sweep changes nothing.
    assert_eq!(check_trash_zone(&store, RootState::Directory), issues);
    assert_eq!(store.list().len(), 1);
    // Nothing of this can the tool mend by itself.
    assert_eq!(fix_issues(&issues), 0);
    assert_eq!(fix_issues(&check_trash_zone(&store, RootState::Missing)), 1);
}

#[test]
fn the_records_are_checked() {
    let mut store = TrashStore::new("/zone".to_string());
    let mut complete = held(1, "/complete", T0, 1).meta;
    complete.checksum = Some("aa".to_string());
    store.save(&complete, StepReport::Done).unwrap();
    store.save(&held(ID_A, "", T0 + 1, 1).meta, StepReport::Done).unwrap();
    store.save(&held(3, "/plain", T0 + 2, 1).meta, StepReport::Done).unwrap();
    let issues = check_metadata_integrity(&store);
    assert_eq!(
        issues,
        vec![
            issue(
                DiagnosticCheck::Metadata,
                Severity::Info,
                "Missing SHA256 checksum for: /plain",
                Some("Recalculate SHA256 checksums"),
                true
            ),
            issue(
                DiagnosticCheck::Metadata,
                Severity::Warning,
                "Empty original path in metadata: 550e8400-e29b-41d4-a716-446655440000",
                Some("Remove corrupted metadata"),
                true
            ),
            issue(
                DiagnosticCheck::Metadata,
                Severity::Info,
                "Missing SHA256 checksum for: ",
                Some("Recalculate SHA256 checksums"),
                true
            ),
        ]
    );
    assert_eq!(
        display_diagnostic_results(&issues),
        SeverityCounts { info: 2, warning: 1, error: 0, critical: 0 }
    );
    assert_eq!(fix_issues(&issues), 0);
}

#[test]
fn the_other_checks() {
    let store = TrashStore::new("/zone".to_string());
    let config = Config::with_trash_path("/zone".to_string());
    assert!(check_permissions(&store, RootState::Directory, true).is_empty());
    assert!(check_permissions(&store, RootState::Missing, false).is_empty());
    assert_eq!(
        check_permissions(&store, RootState::Directory, false),
        vec![issue(
            DiagnosticCheck::Permissions,
            Severity::Error,
            "Cannot access trash directory: /zone",
            Some("Check file permissions"),
            false
        )]
    );
    assert_eq!(
        check_config_validity(&config),
        vec![issue(
            DiagnosticCheck::Config,
            Severity::Info,
            "Configuration appears valid",
            None,
            false
        )]
    );
    assert!(check_dependencies(true).is_empty());
    assert_eq!(
        check_dependencies(false),
        vec![issue(
            DiagnosticCheck::Dependencies,
            Severity::Info,
            "fzf not found - interactive features may be limited",
            Some("Install fzf for enhanced interactive mode"),
            false
        )]
    );
    let all = rmz::commands::doctor::execute(None);
    assert_eq!(all.len(), 5);
    assert_eq!(rmz::commands::doctor::execute(Some(DiagnosticCheck::All)), all);
    assert_eq!(
        rmz::commands::doctor::execute(Some(DiagnosticCheck::Config)),
        vec![DiagnosticCheck::Config]
    );
    let findings = Findings { root: RootState::Missing, accessible: false, fzf_found: false };
    let mut issues = Vec::new();
    for check in all {
        issues.extend(run_diagnostic_check(check, &store, &config, findings));
    }
    assert_eq!(
        display_diagnostic_results(&issues),
        SeverityCounts { info: 2, warning: 0, error: 1, critical: 0 }
    );
    assert!(run_diagnostic_check(DiagnosticCheck::All, &store, &config, findings).is_empty());
}

#[test]
fn extracting_held_files() {
    let a = held(1, "/home/u/report.txt", T0, 1);
    let b = held(2, "/home/u/notes.txt", T0, 1);
    let c = held(3, "/home/u/report.bak", T0, 1);
    let items = vec![a.clone(), b.clone(), c.clone()];
    assert_eq!(extract_target(&a, None, false, "/cwd"), Ok("/cwd/report.txt".to_string()));
    assert_eq!(extract_target(&a, Some("/out"), true, "/cwd"), Ok("/out/report.txt".to_string()));
    assert_eq!(extract_target(&a, Some("/out/x"), false, "/cwd"), Ok("/out/x".to_string()));
    let nameless = held(4, "/", T0, 1);
    assert_eq!(
        extract_target(&nameless, None, false, "/cwd"),
        Err(RmzError::NoExtractName { path: "/".to_string() })
    );
    assert_eq!(extract_target(&nameless, Some("/out/x"), false, "/cwd"), Ok("/out/x".to_string()));
    // An extract never overwrites.
    assert_eq!(
        extract_single_file(&a, "/out/report.txt", true),
        Err(RmzError::AlreadyExists { path: "/out/report.txt".to_string() })
    );
    assert_eq!(
        extract_single_file(&a, "/out/report.txt", false),
        Ok((a.trash_path.clone(), "/out/report.txt".to_string()))
    );
    assert_eq!(extract_by_filename(&items, "notes"), Ok(2));
    assert_eq!(
        extract_by_filename(&items, "report"),
        Err(RmzError::AmbiguousName { name: "report".to_string(), candidates: vec![1, 3] })
    );
    assert_eq!(
        extract_by_filename(&items, "home"),
        Err(RmzError::NoFileNamed { name: "home".to_string() })
    );
    let run = rmz::commands::extract::execute;
    assert_eq!(
        run(Some("abc".to_string()), Some("f".to_string()), true, true),
        Ok(ExtractRequest::FromDirectory { id: "abc".to_string(), file: Some("f".to_string()) })
    );
    assert_eq!(run(None, None, true, true), Ok(ExtractRequest::Interactive { filter: None }));
    assert_eq!(run(None, None, false, true), Ok(ExtractRequest::All { filter: None }));
    assert_eq!(
        run(None, Some("f".to_string()), false, false),
        Ok(ExtractRequest::ByFilename { filename: "f".to_string() })
    );
    assert_eq!(run(None, None, false, false), Err(RmzError::MissingExtractSelection));
}
