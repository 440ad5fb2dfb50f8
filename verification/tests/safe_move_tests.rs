use rmz::errors::RmzError;
use rmz::ops::safe_file_ops::{
    FileSnapshot, FileTime, MoveAction, MoveEvent, MoveFailure, SafeFileOperation,
};

fn snapshot(path: &str, size: u64, secs: i64) -> FileSnapshot {
    FileSnapshot::new(path.to_string(), 77, size, FileTime { secs, nanos: 5 }, 0o644)
}

fn run(events: Vec<MoveEvent>) -> (SafeFileOperation, Vec<MoveAction>) {
    let (mut op, first) = SafeFileOperation::atomic_move("/src.txt", "/dir/dst.txt");
    let mut actions = vec![first];
    for event in events {
        let (next, action) = op.advance(event);
        op = next;
        actions.push(action);
    }
    (op, actions)
}

#[test]
fn snapshot_detects_change() {
    let before = snapshot("/test.txt", 7, 100);
    // New content: the size and the time of modification change.
    let after = snapshot("/test.txt", 11, 101);
    assert!(before.verify_unchanged(&after).is_err());
    assert_eq!(
        before.verify_unchanged(&after),
        Err(RmzError::ConcurrentModification { path: "/test.txt".to_string() })
    );
    assert_eq!(before.verify_unchanged(&snapshot("/test.txt", 7, 100)), Ok(()));
}

#[test]
fn each_part_of_the_state_counts() {
    let base = snapshot("/f", 7, 100);
    let mut other = snapshot("/f", 7, 100);
    other.inode = 78;
    assert!(base.verify_unchanged(&other).is_err());
    let mut other = snapshot("/f", 7, 100);
    other.permissions = 0o600;
    assert!(base.verify_unchanged(&other).is_err());
    let mut other = snapshot("/f", 7, 100);
    other.modified = FileTime { secs: 100, nanos: 6 };
    assert!(base.verify_unchanged(&other).is_err());
    let mut other = snapshot("/f", 7, 100);
    other.size = 8;
    assert!(base.verify_unchanged(&other).is_err());
}

#[test]
fn atomic_move_moves_file() {
    let (op, actions) = run(vec![
        MoveEvent::Snapshot { snapshot: snapshot("/src.txt", 5, 1) },
        MoveEvent::Done,
        MoveEvent::Snapshot { snapshot: snapshot("/src.txt", 5, 1) },
        MoveEvent::Done,
    ]);
    assert_eq!(
        actions,
        vec![
            MoveAction::Capture { path: "/src.txt".to_string() },
            MoveAction::EnsureParent { path: "/dir/dst.txt".to_string() },
            MoveAction::Capture { path: "/src.txt".to_string() },
            MoveAction::Rename { from: "/src.txt".to_string(), to: "/dir/dst.txt".to_string() },
            MoveAction::Finish { result: Ok(()) },
        ]
    );
    assert_eq!(op.result(), Some(Ok(())));
}

#[test]
fn a_changed_source_is_not_moved() {
    let (op, actions) = run(vec![
        MoveEvent::Snapshot { snapshot: snapshot("/src.txt", 5, 1) },
        MoveEvent::Done,
        MoveEvent::Snapshot { snapshot: snapshot("/src.txt", 9, 2) },
        MoveEvent::Done,
        MoveEvent::CrossDevice,
    ]);
    assert_eq!(
        actions[3],
        MoveAction::Finish { result: Err(MoveFailure::ConcurrentModification) }
    );
    for action in &actions {
        assert!(!matches!(
            action,
            MoveAction::Rename { .. } | MoveAction::CopyTree { .. } | MoveAction::RemoveTree { .. }
        ));
    }
    assert_eq!(
        op.result(),
        Some(Err(RmzError::ConcurrentModification { path: "/src.txt".to_string() }))
    );
}

#[test]
fn a_source_that_vanished_is_not_moved() {
    let (op, actions) = run(vec![
        MoveEvent::Snapshot { snapshot: snapshot("/src.txt", 5, 1) },
        MoveEvent::Done,
        MoveEvent::Missing,
    ]);
    assert_eq!(
        actions[3],
        MoveAction::Finish { result: Err(MoveFailure::ConcurrentModification) }
    );
    assert!(op.result().unwrap().is_err());
}

#[test]
fn a_missing_source_is_not_found() {
    let (op, actions) = run(vec![MoveEvent::Missing]);
    assert_eq!(actions[1], MoveAction::Finish { result: Err(MoveFailure::NotFound) });
    assert_eq!(op.result(), Some(Err(RmzError::NoSuchFile { path: "/src.txt".to_string() })));
}

#[test]
fn across_file_systems_the_move_copies_and_removes() {
    let (op, actions) = run(vec![
        MoveEvent::Snapshot { snapshot: snapshot("/src.txt", 5, 1) },
        MoveEvent::Done,
        MoveEvent::Snapshot { snapshot: snapshot("/src.txt", 5, 1) },
        MoveEvent::CrossDevice,
        MoveEvent::Done,
        MoveEvent::Done,
    ]);
    assert_eq!(
        actions[4..],
        [
            MoveAction::CopyTree { from: "/src.txt".to_string(), to: "/dir/dst.txt".to_string() },
            MoveAction::RemoveTree { path: "/src.txt".to_string() },
            MoveAction::Finish { result: Ok(()) },
        ]
    );
    assert_eq!(op.result(), Some(Ok(())));
}

#[test]
fn a_failed_call_ends_the_move() {
    for failing_at in 0..6 {
        let mut events = vec![
            MoveEvent::Snapshot { snapshot: snapshot("/src.txt", 5, 1) },
            MoveEvent::Done,
            MoveEvent::Snapshot { snapshot: snapshot("/src.txt", 5, 1) },
            MoveEvent::CrossDevice,
            MoveEvent::Done,
            MoveEvent::Done,
        ];
        events.truncate(failing_at);
        events.push(MoveEvent::Failed);
        let (op, actions) = run(events);
        assert_eq!(
            actions.last(),
            Some(&MoveAction::Finish { result: Err(MoveFailure::IoFailure) })
        );
        assert_eq!(op.result(), Some(Err(RmzError::IoFailure { path: "/src.txt".to_string() })));
    }
}

#[test]
fn a_move_that_has_ended_stays_ended() {
    let (op, _) = run(vec![MoveEvent::Missing]);
    let (op, action) = op.advance(MoveEvent::Done);
    assert_eq!(action, MoveAction::Finish { result: Err(MoveFailure::NotFound) });
    let (op, action) = op.advance(MoveEvent::CrossDevice);
    assert_eq!(action, MoveAction::Finish { result: Err(MoveFailure::NotFound) });
    assert!(op.result().is_some());
    // One that has not begun has no result yet.
    let (fresh, _) = SafeFileOperation::atomic_move("/a", "/b");
    assert_eq!(fresh.result(), None);
    // An event out of turn is a failure.
    let (_, action) = fresh.advance(MoveEvent::Done);
    assert_eq!(action, MoveAction::Finish { result: Err(MoveFailure::IoFailure) });
}
