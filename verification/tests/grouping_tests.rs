use rmz::cli::GroupBy;
use rmz::commands::doctor::{classify, Consistency};
use rmz::errors::RmzError;
use rmz::infra::trash_store::{StepReport, TrashStore};
use rmz::commands::grouping::{sort_groups, tally, Group, GroupOrder, Keyed};
use rmz::commands::list::output_grouped;
use rmz::commands::log::display_operation_stats;
use rmz::commands::status::{
    show_file_type_breakdown, show_storage_breakdown, show_tag_breakdown,
};
use rmz::domain::operation_log::{OperationLog, OperationResult, OperationType};
use rmz::domain::{FileMeta, Timestamp, TrashItem};

const T0: i64 = 1_700_000_000;
const DAY: i64 = 86_400;

fn keyed(key: &str, size: u64) -> Keyed {
    Keyed { key: key.to_string(), size }
}

fn group(key: &str, count: usize, size: u128) -> Group {
    Group { key: key.to_string(), count, size }
}

fn held(id: u128, path: &str, secs: i64, size: u64, tags: &[&str]) -> TrashItem {
    TrashItem {
        meta: FileMeta {
            id,
            original_path: path.to_string(),
            deleted_at: Timestamp::new(secs, 0).unwrap(),
            size,
            permissions: 0o644,
            tags: tags.iter().map(|t| t.to_string()).collect(),
            checksum: None,
            deleted_by: "tester".to_string(),
        },
        trash_path: format!("/zone/x/{}.rmz", id),
    }
}

#[test]
fn counting_by_key() {
    let things =
        vec![keyed("b", 1), keyed("a", 2), keyed("b", 4), keyed("c", 8), keyed("a", u64::MAX)];
    let groups = tally(&things);
    assert_eq!(
        groups,
        vec![group("b", 2, 5), group("a", 2, 2 + u64::MAX as u128), group("c", 1, 8)]
    );
    assert!(tally(&Vec::new()).is_empty());
}

#[test]
fn groups_in_order() {
    let groups = || vec![group("b", 2, 0), group("a", 2, 0), group("c", 5, 0), group("ab", 1, 0)];
    let keys = |groups: Vec<Group>| groups.iter().map(|g| g.key.clone()).collect::<Vec<_>>();
    assert_eq!(keys(sort_groups(groups(), GroupOrder::LargestFirst)), vec!["c", "b", "a", "ab"]);
    assert_eq!(keys(sort_groups(groups(), GroupOrder::KeyAscending)), vec!["a", "ab", "b", "c"]);
    assert_eq!(keys(sort_groups(groups(), GroupOrder::KeyDescending)), vec!["c", "b", "ab", "a"]);
    assert!(sort_groups(Vec::new(), GroupOrder::KeyAscending).is_empty());
}

#[test]
fn breakdowns_of_the_zone() {
    let items = vec![
        held(1, "/d/a.TXT", T0, 10, &["work"]),
        held(2, "/d/b.log", T0 + DAY, 20, &[]),
        held(3, "/d/c.txt", T0 + DAY, 5, &["work", "old"]),
        held(4, "/d/Makefile", T0 - DAY, 1, &["old"]),
        held(5, "/d/e.txt", T0, 100, &["old"]),
    ];
    assert_eq!(
        show_file_type_breakdown(&items),
        vec![group("txt", 3, 115), group("log", 1, 20), group("(no extension)", 1, 1)]
    );
    assert_eq!(
        show_storage_breakdown(&items),
        vec![group("2023-11-15", 2, 25), group("2023-11-14", 2, 110), group("2023-11-13", 1, 1)]
    );
    assert_eq!(
        show_tag_breakdown(&items),
        (1, vec![group("old", 3, 106), group("work", 2, 15)])
    );
    assert_eq!(output_grouped(&items, GroupBy::Date), show_storage_breakdown(&items));
    assert_eq!(
        output_grouped(&items, GroupBy::Tag),
        vec![group("(no tags)", 1, 20), group("old", 3, 106), group("work", 2, 15)]
    );
    assert_eq!(show_tag_breakdown(&Vec::new()), (0, Vec::new()));
}

#[test]
fn statistics_of_the_log() {
    let entry = |operation, result| OperationLog::new(operation, Vec::new(), result, "u");
    let logs = vec![
        entry(OperationType::Purge, OperationResult::Success),
        entry(OperationType::Delete, OperationResult::Failed("x".to_string())),
        entry(OperationType::Purge, OperationResult::Cancelled),
        entry(OperationType::Delete, OperationResult::Failed("y".to_string())),
        entry(OperationType::Doctor, OperationResult::Success),
    ];
    let (operations, results) = display_operation_stats(&logs);
    assert_eq!(
        operations,
        vec![group("Purge", 2, 0), group("Delete", 2, 0), group("Doctor", 1, 0)]
    );
    assert_eq!(
        results,
        vec![group("Success", 2, 0), group("Failed", 2, 0), group("Cancelled", 1, 0)]
    );
}

#[test]
fn consistency_of_records() {
    let mut store = TrashStore::new("/zone".to_string());
    store.save(&held(1, "/a", T0, 1, &[]).meta, StepReport::Done).unwrap();
    store.save(&held(2, "/b", T0, 1, &[]).meta, StepReport::Done).unwrap();
    let report = StepReport::Failed { completed: 1, error: RmzError::Cancelled };
    assert!(store.purge(2, report).is_err());
    assert_eq!(classify(&store, 1), Some(Consistency::Consistent));
    assert_eq!(classify(&store, 2), Some(Consistency::OrphanedMetadata));
    assert_eq!(classify(&store, 3), None);
}
