//! The safe move: relocating a file with a guard against its having
//! changed between validation and move, and with a fallback for moves
//! across file systems.
//!
//! The protocol is a state machine. The caller carries out each action on
//! the disk and hands back what happened; the machine decides what is next.

use crate::errors::RmzError;
use vstd::prelude::*;

verus! {

/// A time of last modification: seconds and nanoseconds since
/// 1970-01-01T00:00:00Z.
#[derive(Clone, Copy, Debug, PartialEq, Eq, Structural)]
pub struct FileTime {
    pub secs: i64,
    pub nanos: u32,
}

/// The state of a file at one moment.
#[derive(Debug, PartialEq, Eq)]
pub struct FileSnapshot {
    /// The path that was looked at.
    pub path: String,
    /// The low-level identity of the file.
    pub inode: u64,
    /// Its size in bytes.
    pub size: u64,
    /// When it was last modified.
    pub modified: FileTime,
    /// Its permission bits.
    pub permissions: u32,
}

/// What a `FileSnapshot` holds, as mathematical values.
pub struct FileSnapshotView {
    pub path: Seq<char>,
    pub inode: u64,
    pub size: u64,
    pub modified: FileTime,
    pub permissions: u32,
}

impl View for FileSnapshot {
    type V = FileSnapshotView;

    open spec fn view(&self) -> FileSnapshotView {
        FileSnapshotView {
            path: self.path@,
            inode: self.inode,
            size: self.size,
            modified: self.modified,
            permissions: self.permissions,
        }
    }
}

impl FileSnapshotView {
    /// Whether two snapshots show the same file in the same state: the
    /// same identity, size, modification time and permissions.
    pub open spec fn same_state(self, other: FileSnapshotView) -> bool {
        &&& self.inode == other.inode
        &&& self.size == other.size
        &&& self.modified == other.modified
        &&& self.permissions == other.permissions
    }
}

impl FileSnapshot {
    /// A snapshot of the file at `path` from what the caller read of it.
    pub fn new(path: String, inode: u64, size: u64, modified: FileTime, permissions: u32) -> (r:
        FileSnapshot)
        ensures
            r@ == (FileSnapshotView { path: path@, inode, size, modified, permissions }),
    {
        FileSnapshot { path, inode, size, modified, permissions }
    }

    /// Compares the snapshot with a later one of the same path: `Ok` where
    /// the file is in the same state, `ConcurrentModification` where not.
    pub fn verify_unchanged(&self, current: &FileSnapshot) -> (r: Result<(), RmzError>)
        ensures
            self@.same_state(current@) ==> r == Ok::<(), RmzError>(()),
            !self@.same_state(current@) ==> (r matches Err(
                RmzError::ConcurrentModification { path },
            ) && path@ == self@.path),
    {
        if current.inode != self.inode || current.size != self.size || current.modified
            != self.modified || current.permissions != self.permissions {
            Err(RmzError::ConcurrentModification { path: self.path.clone() })
        } else {
            Ok(())
        }
    }
}

/// Why a move failed.
#[derive(Clone, Copy, Debug, PartialEq, Eq, Structural)]
pub enum MoveFailure {
    /// The source does not exist.
    NotFound,
    /// The source changed between validation and move.
    ConcurrentModification,
    /// A file-system call failed.
    IoFailure,
}

/// Where a move stands.
#[derive(Debug, PartialEq, Eq)]
pub enum MoveState {
    /// Waiting for the snapshot of the source.
    Capturing,
    /// Waiting for the parent directory of the target.
    Preparing { snapshot: FileSnapshot },
    /// Waiting for the second look at the source.
    Verifying { snapshot: FileSnapshot },
    /// Waiting for the rename.
    Renaming,
    /// Across file systems: waiting for the copy of the subtree.
    Copying,
    /// Across file systems: waiting for the removal of the source.
    Removing,
    /// The move is done.
    Succeeded,
    /// The move has failed.
    Failed { failure: MoveFailure },
}

/// What a `MoveState` holds, as mathematical values.
pub enum MoveStateView {
    Capturing,
    Preparing { snapshot: FileSnapshotView },
    Verifying { snapshot: FileSnapshotView },
    Renaming,
    Copying,
    Removing,
    Succeeded,
    Failed { failure: MoveFailure },
}

impl View for MoveState {
    type V = MoveStateView;

    open spec fn view(&self) -> MoveStateView {
        match self {
            MoveState::Capturing => MoveStateView::Capturing,
            MoveState::Preparing { snapshot } => MoveStateView::Preparing { snapshot: snapshot@ },
            MoveState::Verifying { snapshot } => MoveStateView::Verifying { snapshot: snapshot@ },
            MoveState::Renaming => MoveStateView::Renaming,
            MoveState::Copying => MoveStateView::Copying,
            MoveState::Removing => MoveStateView::Removing,
            MoveState::Succeeded => MoveStateView::Succeeded,
            MoveState::Failed { failure } => MoveStateView::Failed { failure: *failure },
        }
    }
}

/// What happened on the disk when the caller carried out an action.
#[derive(Debug, PartialEq, Eq)]
pub enum MoveEvent {
    /// The source was looked at; this is its state.
    Snapshot { snapshot: FileSnapshot },
    /// The source was looked at; it does not exist.
    Missing,
    /// The action was carried out.
    Done,
    /// The rename was refused because source and target lie on different
    /// file systems.
    CrossDevice,
    /// The action failed.
    Failed,
}

/// What a `MoveEvent` holds, as mathematical values.
pub enum MoveEventView {
    Snapshot { snapshot: FileSnapshotView },
    Missing,
    Done,
    CrossDevice,
    Failed,
}

impl View for MoveEvent {
    type V = MoveEventView;

    open spec fn view(&self) -> MoveEventView {
        match self {
            MoveEvent::Snapshot { snapshot } => MoveEventView::Snapshot { snapshot: snapshot@ },
            MoveEvent::Missing => MoveEventView::Missing,
            MoveEvent::Done => MoveEventView::Done,
            MoveEvent::CrossDevice => MoveEventView::CrossDevice,
            MoveEvent::Failed => MoveEventView::Failed,
        }
    }
}

/// What the caller is to do next.
#[derive(Debug, PartialEq, Eq)]
pub enum MoveAction {
    /// Look at the file at `path` and report its state.
    Capture { path: String },
    /// Create the parent directory of `path` where it is absent.
    EnsureParent { path: String },
    /// Rename `from` to `to` in one atomic call.
    Rename { from: String, to: String },
    /// Copy the subtree at `from` to `to`, keeping permissions as far as
    /// possible. This is not atomic.
    CopyTree { from: String, to: String },
    /// Remove the file at `path`, or the directory with all it holds.
    RemoveTree { path: String },
    /// Nothing more: the move has ended with `result`.
    Finish { result: Result<(), MoveFailure> },
}

/// What a `MoveAction` holds, as mathematical values.
pub enum MoveActionView {
    Capture { path: Seq<char> },
    EnsureParent { path: Seq<char> },
    Rename { from: Seq<char>, to: Seq<char> },
    CopyTree { from: Seq<char>, to: Seq<char> },
    RemoveTree { path: Seq<char> },
    Finish { result: Result<(), MoveFailure> },
}

impl View for MoveAction {
    type V = MoveActionView;

    open spec fn view(&self) -> MoveActionView {
        match self {
            MoveAction::Capture { path } => MoveActionView::Capture { path: path@ },
            MoveAction::EnsureParent { path } => MoveActionView::EnsureParent { path: path@ },
            MoveAction::Rename { from, to } => MoveActionView::Rename { from: from@, to: to@ },
            MoveAction::CopyTree { from, to } => MoveActionView::CopyTree { from: from@, to: to@ },
            MoveAction::RemoveTree { path } => MoveActionView::RemoveTree { path: path@ },
            MoveAction::Finish { result } => MoveActionView::Finish { result: *result },
        }
    }
}

impl MoveActionView {
    /// Whether the action changes the disk at the source or at the target.
    pub open spec fn relocates(self) -> bool {
        self is Rename || self is CopyTree || self is RemoveTree
    }
}

impl MoveFailure {
    /// The error that reports this failure for a move from `source`.
    pub fn into_error(self, source: &str) -> (r: RmzError)
        ensures
            match self {
                MoveFailure::NotFound => r matches RmzError::NoSuchFile { path } && path@
                    == source@,
                MoveFailure::ConcurrentModification => r matches RmzError::ConcurrentModification {
                    path,
                } && path@ == source@,
                MoveFailure::IoFailure => r matches RmzError::IoFailure { path } && path@
                    == source@,
            },
    {
        match self {
            MoveFailure::NotFound => RmzError::NoSuchFile { path: source.to_owned() },
            MoveFailure::ConcurrentModification => RmzError::ConcurrentModification {
                path: source.to_owned(),
            },
            MoveFailure::IoFailure => RmzError::IoFailure { path: source.to_owned() },
        }
    }
}

/// The next state and action of a move from `source` to `target` that is
/// in `state` when `event` arrives.
///
/// The source is looked at, the parent of the target is made ready, and the
/// source is looked at again: only if it is in the state first seen is it
/// renamed. A rename refused across file systems is replaced by a copy of
/// the subtree and the removal of the source. An event that the state does
/// not expect ends the move with `IoFailure`. A move that has ended stays
/// ended.
pub open spec fn next(
    source: Seq<char>,
    target: Seq<char>,
    state: MoveStateView,
    event: MoveEventView,
) -> (MoveStateView, MoveActionView) {
    match (state, event) {
        (MoveStateView::Capturing, MoveEventView::Snapshot { snapshot }) => (
            MoveStateView::Preparing { snapshot },
            MoveActionView::EnsureParent { path: target },
        ),
        (MoveStateView::Capturing, MoveEventView::Missing) => failed(MoveFailure::NotFound),
        (MoveStateView::Preparing { snapshot }, MoveEventView::Done) => (
            MoveStateView::Verifying { snapshot },
            MoveActionView::Capture { path: source },
        ),
        (MoveStateView::Verifying { snapshot }, MoveEventView::Snapshot { snapshot: current }) => {
            if snapshot.same_state(current) {
                (MoveStateView::Renaming, MoveActionView::Rename { from: source, to: target })
            } else {
                failed(MoveFailure::ConcurrentModification)
            }
        },
        (MoveStateView::Verifying { .. }, MoveEventView::Missing) => failed(
            MoveFailure::ConcurrentModification,
        ),
        (MoveStateView::Renaming, MoveEventView::Done) => succeeded(),
        (MoveStateView::Renaming, MoveEventView::CrossDevice) => (
            MoveStateView::Copying,
            MoveActionView::CopyTree { from: source, to: target },
        ),
        (MoveStateView::Copying, MoveEventView::Done) => (
            MoveStateView::Removing,
            MoveActionView::RemoveTree { path: source },
        ),
        (MoveStateView::Removing, MoveEventView::Done) => succeeded(),
        (MoveStateView::Succeeded, _) => succeeded(),
        (MoveStateView::Failed { failure }, _) => failed(failure),
        _ => failed(MoveFailure::IoFailure),
    }
}

/// The end of a move that succeeded.
pub open spec fn succeeded() -> (MoveStateView, MoveActionView) {
    (MoveStateView::Succeeded, MoveActionView::Finish { result: Ok(()) })
}

/// The end of a move that failed.
pub open spec fn failed(failure: MoveFailure) -> (MoveStateView, MoveActionView) {
    (MoveStateView::Failed { failure }, MoveActionView::Finish { result: Err(failure) })
}

/// The actions that a move in `state` issues for a sequence of events.
pub open spec fn actions(
    source: Seq<char>,
    target: Seq<char>,
    state: MoveStateView,
    events: Seq<MoveEventView>,
) -> Seq<MoveActionView>
    decreases events.len(),
{
    if events.len() == 0 {
        Seq::empty()
    } else {
        let (then, action) = next(source, target, state, events[0]);
        seq![action] + actions(source, target, then, events.drop_first())
    }
}

/// A guarded move of one file or directory.
#[derive(Debug, PartialEq, Eq)]
pub struct SafeFileOperation {
    source: String,
    target: String,
    state: MoveState,
}

impl SafeFileOperation {
    /// The path that is moved.
    pub closed spec fn source(&self) -> Seq<char> {
        self.source@
    }

    /// The path that it is moved to.
    pub closed spec fn target(&self) -> Seq<char> {
        self.target@
    }

    /// Where the move stands.
    pub closed spec fn state(&self) -> MoveStateView {
        self.state@
    }

    /// Begins a move of `source` to `target`: the first action is to look
    /// at the source.
    pub fn atomic_move(source: &str, target: &str) -> (r: (SafeFileOperation, MoveAction))
        ensures
            r.0.source() == source@,
            r.0.target() == target@,
            r.0.state() == MoveStateView::Capturing,
            r.1@ == (MoveActionView::Capture { path: source@ }),
    {
        (
            SafeFileOperation {
                source: source.to_owned(),
                target: target.to_owned(),
                state: MoveState::Capturing,
            },
            MoveAction::Capture { path: source.to_owned() },
        )
    }

    /// Takes what happened on the disk and decides what is next.
    pub fn advance(self, event: MoveEvent) -> (r: (SafeFileOperation, MoveAction))
        ensures
            r.0.source() == self.source(),
            r.0.target() == self.target(),
            (r.0.state(), r.1@) == next(self.source(), self.target(), self.state(), event@),
    {
        let SafeFileOperation { source, target, state } = self;
        let (state, action) = match (state, event) {
            (MoveState::Capturing, MoveEvent::Snapshot { snapshot }) => (
                MoveState::Preparing { snapshot },
                MoveAction::EnsureParent { path: target.clone() },
            ),
            (MoveState::Capturing, MoveEvent::Missing) => Self::fail(MoveFailure::NotFound),
            (MoveState::Preparing { snapshot }, MoveEvent::Done) => (
                MoveState::Verifying { snapshot },
                MoveAction::Capture { path: source.clone() },
            ),
            (MoveState::Verifying { snapshot }, MoveEvent::Snapshot { snapshot: current }) => {
                match snapshot.verify_unchanged(&current) {
                    Ok(_) => (
                        MoveState::Renaming,
                        MoveAction::Rename { from: source.clone(), to: target.clone() },
                    ),
                    Err(_) => Self::fail(MoveFailure::ConcurrentModification),
                }
            },
            (MoveState::Verifying { .. }, MoveEvent::Missing) => Self::fail(
                MoveFailure::ConcurrentModification,
            ),
            (MoveState::Renaming, MoveEvent::Done) => Self::succeed(),
            (MoveState::Renaming, MoveEvent::CrossDevice) => (
                MoveState::Copying,
                MoveAction::CopyTree { from: source.clone(), to: target.clone() },
            ),
            (MoveState::Copying, MoveEvent::Done) => (
                MoveState::Removing,
                MoveAction::RemoveTree { path: source.clone() },
            ),
            (MoveState::Removing, MoveEvent::Done) => Self::succeed(),
            (MoveState::Succeeded, _) => Self::succeed(),
            (MoveState::Failed { failure }, _) => Self::fail(failure),
            _ => Self::fail(MoveFailure::IoFailure),
        };
        (SafeFileOperation { source, target, state }, action)
    }

    fn succeed() -> (r: (MoveState, MoveAction))
        ensures
            (r.0@, r.1@) == succeeded(),
    {
        (MoveState::Succeeded, MoveAction::Finish { result: Ok(()) })
    }

    fn fail(failure: MoveFailure) -> (r: (MoveState, MoveAction))
        ensures
            (r.0@, r.1@) == failed(failure),
    {
        (MoveState::Failed { failure }, MoveAction::Finish { result: Err(failure) })
    }

    /// How the move ended, if it has ended: `Ok`, or the error that names
    /// the source.
    pub fn result(&self) -> (r: Option<Result<(), RmzError>>)
        ensures
            match self.state() {
                MoveStateView::Succeeded => r == Some(Ok::<(), RmzError>(())),
                MoveStateView::Failed { failure } => r matches Some(Err(e)) && match failure {
                    MoveFailure::NotFound => e matches RmzError::NoSuchFile { path } && path@
                        == self.source(),
                    MoveFailure::ConcurrentModification => e matches RmzError::ConcurrentModification {
                        path,
                    } && path@ == self.source(),
                    MoveFailure::IoFailure => e matches RmzError::IoFailure { path } && path@
                        == self.source(),
                },
                _ => r is None,
            },
    {
        match &self.state {
            MoveState::Succeeded => Some(Ok(())),
            MoveState::Failed { failure } => Some(Err(failure.into_error(self.source.as_str()))),
            _ => None,
        }
    }
}

/// A source that changed is not moved. When the second look at the source
/// shows another state than the first, or no file at all, the move ends
/// with `ConcurrentModification`, and whatever is reported afterwards, no
/// action renames, copies or removes anything.
pub proof fn law_changed_source_stays(
    source: Seq<char>,
    target: Seq<char>,
    snapshot: FileSnapshotView,
    second_look: MoveEventView,
    later: Seq<MoveEventView>,
)
    requires
        match second_look {
            MoveEventView::Snapshot { snapshot: current } => !snapshot.same_state(current),
            MoveEventView::Missing => true,
            _ => false,
        },
    ensures
        next(source, target, MoveStateView::Verifying { snapshot }, second_look) == failed(
            MoveFailure::ConcurrentModification,
        ),
        forall|k: int|
            0 <= k < later.len() + 1 ==> !(#[trigger] actions(
                source,
                target,
                MoveStateView::Verifying { snapshot },
                seq![second_look] + later,
            )[k]).relocates(),
{
    let events = seq![second_look] + later;
    let start = MoveStateView::Verifying { snapshot };
    assert(events[0] == second_look);
    assert(events.drop_first() =~= later);
    lemma_ended_stays(source, target, MoveFailure::ConcurrentModification, later);
    let tail = actions(
        source,
        target,
        MoveStateView::Failed { failure: MoveFailure::ConcurrentModification },
        later,
    );
    assert(actions(source, target, start, events) == seq![
        failed(MoveFailure::ConcurrentModification).1,
    ] + tail);
    assert forall|k: int| 0 <= k < later.len() + 1 implies !(#[trigger] actions(
        source,
        target,
        start,
        events,
    )[k]).relocates() by {
        if k > 0 {
            assert(actions(source, target, start, events)[k] == tail[k - 1]);
        }
    }
}

/// A move that has failed issues nothing but its result.
pub proof fn lemma_ended_stays(
    source: Seq<char>,
    target: Seq<char>,
    failure: MoveFailure,
    events: Seq<MoveEventView>,
)
    ensures
        actions(source, target, MoveStateView::Failed { failure }, events).len() == events.len(),
        forall|k: int|
            0 <= k < events.len() ==> #[trigger] actions(
                source,
                target,
                MoveStateView::Failed { failure },
                events,
            )[k] == failed(failure).1,
    decreases events.len(),
{
    if events.len() > 0 {
        let state = MoveStateView::Failed { failure };
        lemma_ended_stays(source, target, failure, events.drop_first());
        let tail = actions(source, target, state, events.drop_first());
        assert(actions(source, target, state, events) == seq![failed(failure).1] + tail);
        assert forall|k: int| 0 <= k < events.len() implies #[trigger] actions(
            source,
            target,
            state,
            events,
        )[k] == failed(failure).1 by {
            if k > 0 {
                assert(actions(source, target, state, events)[k] == tail[k - 1]);
            }
        }
    }
}

} // verus!
