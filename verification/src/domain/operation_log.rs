//! The log of operations: what was done, when, by whom, and how it ended.

use crate::domain::file_meta::{clone_texts, option_text, texts};
use crate::domain::timestamp::Timestamp;
use crate::ids::fresh_id;
use crate::text::{self, decimal};
use vstd::prelude::*;

verus! {

/// Types of operations that can be logged.
#[derive(Clone, Copy, Debug, PartialEq, Eq, Structural)]
pub enum OperationType {
    Delete,
    Restore,
    Purge,
    List,
    Config,
    Status,
    Protect,
    Doctor,
}

/// Result of an operation.
#[derive(Debug, PartialEq, Eq)]
pub enum OperationResult {
    Success,
    Failed(String),
    Cancelled,
}

/// What an `OperationResult` holds, as mathematical values.
pub enum OperationResultView {
    Success,
    Failed(Seq<char>),
    Cancelled,
}

impl View for OperationResult {
    type V = OperationResultView;

    open spec fn view(&self) -> OperationResultView {
        match self {
            OperationResult::Success => OperationResultView::Success,
            OperationResult::Failed(e) => OperationResultView::Failed(e@),
            OperationResult::Cancelled => OperationResultView::Cancelled,
        }
    }
}

impl Clone for OperationResult {
    fn clone(&self) -> (r: Self)
        ensures
            r@ == self@,
    {
        match self {
            OperationResult::Success => OperationResult::Success,
            OperationResult::Failed(e) => OperationResult::Failed(e.clone()),
            OperationResult::Cancelled => OperationResult::Cancelled,
        }
    }
}

/// Log entry for one operation.
#[derive(Debug, PartialEq, Eq)]
pub struct OperationLog {
    /// Unique identifier of the entry.
    pub id: u128,
    /// When the operation took place.
    pub timestamp: Timestamp,
    /// Type of operation.
    pub operation: OperationType,
    /// The paths that the operation touched.
    pub paths: Vec<String>,
    /// How the operation ended.
    pub result: OperationResult,
    /// The user who ran it.
    pub user: String,
    /// Further context, or arguments.
    pub context: Option<String>,
    /// The identifiers of the held files involved.
    pub file_ids: Vec<u128>,
}

/// What an `OperationLog` holds, as mathematical values.
pub struct OperationLogView {
    pub id: u128,
    pub timestamp: int,
    pub operation: OperationType,
    pub paths: Seq<Seq<char>>,
    pub result: OperationResultView,
    pub user: Seq<char>,
    pub context: Option<Seq<char>>,
    pub file_ids: Seq<u128>,
}

impl View for OperationLog {
    type V = OperationLogView;

    open spec fn view(&self) -> OperationLogView {
        OperationLogView {
            id: self.id,
            timestamp: self.timestamp@,
            operation: self.operation,
            paths: texts(self.paths@),
            result: self.result@,
            user: self.user@,
            context: option_text(self.context),
            file_ids: self.file_ids@,
        }
    }
}

impl Clone for OperationLog {
    fn clone(&self) -> (r: Self)
        ensures
            r@ == self@,
    {
        let mut file_ids: Vec<u128> = Vec::new();
        let mut i: usize = 0;
        while i < self.file_ids.len()
            invariant
                i <= self.file_ids.len(),
                file_ids@ == self.file_ids@.take(i as int),
            decreases self.file_ids.len() - i,
        {
            file_ids.push(self.file_ids[i]);
            assert(self.file_ids@.take(i + 1) =~= self.file_ids@.take(i as int).push(
                self.file_ids@[i as int],
            ));
            i += 1;
        }
        assert(self.file_ids@.take(self.file_ids.len() as int) =~= self.file_ids@);
        OperationLog {
            id: self.id,
            timestamp: self.timestamp,
            operation: self.operation,
            paths: clone_texts(&self.paths),
            result: self.result.clone(),
            user: self.user.clone(),
            context: match &self.context {
                Some(c) => Some(c.clone()),
                None => None,
            },
            file_ids,
        }
    }
}

/// The views of a list of log entries.
pub open spec fn log_views(logs: Seq<OperationLog>) -> Seq<OperationLogView> {
    logs.map_values(|l: OperationLog| l@)
}

/// The name of a type of operation.
pub open spec fn operation_name(operation: OperationType) -> Seq<char> {
    match operation {
        OperationType::Delete => "Delete"@,
        OperationType::Restore => "Restore"@,
        OperationType::Purge => "Purge"@,
        OperationType::List => "List"@,
        OperationType::Config => "Config"@,
        OperationType::Status => "Status"@,
        OperationType::Protect => "Protect"@,
        OperationType::Doctor => "Doctor"@,
    }
}

impl OperationLogView {
    /// Whether the entry passes a filter: it is of the type asked for,
    /// where one is, and not older than `since`, where that is given.
    pub open spec fn passes(self, operation_type: Option<OperationType>, since: Option<int>) -> bool {
        &&& operation_type matches Some(op) ==> self.operation == op
        &&& since matches Some(t) ==> self.timestamp >= t
    }

    /// What the entry was about: the one path, or how many files, or how
    /// many items, or `unknown`.
    pub open spec fn subject(self) -> Seq<char> {
        if self.paths.len() == 1 {
            self.paths[0]
        } else if self.paths.len() > 1 {
            decimal(self.paths.len()) + " files"@
        } else if self.file_ids.len() > 0 {
            decimal(self.file_ids.len()) + " items"@
        } else {
            "unknown"@
        }
    }
}

/// The view of an optional moment.
pub open spec fn option_time(t: Option<&Timestamp>) -> Option<int> {
    match t {
        Some(t) => Some(t@),
        None => None,
    }
}

impl OperationLog {
    /// A new entry of the present moment, with a fresh identifier, without
    /// context and file identifiers.
    pub fn new(
        operation: OperationType,
        paths: Vec<String>,
        result: OperationResult,
        user: &str,
    ) -> (r: OperationLog)
        ensures
            r@.operation == operation,
            r@.paths == texts(paths@),
            r@.result == result@,
            r@.user == user@,
            r@.context is None,
            r@.file_ids == Seq::<u128>::empty(),
            r.id != 0,
    {
        let id = fresh_id();
        assert(id != 0) by (bit_vector)
            requires
                id & 0x0000_0000_0000_F000_C000_0000_0000_0000u128
                    == 0x0000_0000_0000_4000_8000_0000_0000_0000u128,
        ;
        OperationLog {
            id,
            timestamp: Timestamp::now(),
            operation,
            paths,
            result,
            user: user.to_owned(),
            context: None,
            file_ids: Vec::new(),
        }
    }

    /// The entry with `context` as its context.
    pub fn with_context(self, context: String) -> (r: OperationLog)
        ensures
            r@ == (OperationLogView { context: Some(context@), ..self@ }),
    {
        let mut r = self;
        r.context = Some(context);
        r
    }

    /// The entry with `file_ids` as its file identifiers.
    pub fn with_file_ids(self, file_ids: Vec<u128>) -> (r: OperationLog)
        ensures
            r@ == (OperationLogView { file_ids: file_ids@, ..self@ }),
    {
        let mut r = self;
        r.file_ids = file_ids;
        r
    }

    /// Whether the entry passes a filter.
    pub fn matches_filter(&self, operation_type: Option<&OperationType>, since: Option<&Timestamp>) -> (r:
        bool)
        ensures
            r == self@.passes(
                match operation_type {
                    Some(op) => Some(*op),
                    None => None,
                },
                option_time(since),
            ),
    {
        if let Some(op) = operation_type {
            if !same_operation(self.operation, *op) {
                return false;
            }
        }
        if let Some(since_time) = since {
            if self.timestamp.is_before(since_time) {
                return false;
            }
        }
        true
    }

    /// How the operation ended, in words.
    pub fn result_display(&self) -> (r: String)
        ensures
            r@ == match self@.result {
                OperationResultView::Success => "✅ Success"@,
                OperationResultView::Failed(error) => "❌ Failed: "@ + error,
                OperationResultView::Cancelled => "⚠️ Cancelled"@,
            },
    {
        match &self.result {
            OperationResult::Success => "✅ Success".to_owned(),
            OperationResult::Failed(error) => text::concat("❌ Failed: ", error.as_str()),
            OperationResult::Cancelled => "⚠️ Cancelled".to_owned(),
        }
    }

    /// What the operation was, in words: its name and its subject.
    pub fn description(&self) -> (r: String)
        ensures
            r@ == operation_name(self@.operation) + " "@ + self@.subject(),
    {
        let operation_name = match self.operation {
            OperationType::Delete => "Delete",
            OperationType::Restore => "Restore",
            OperationType::Purge => "Purge",
            OperationType::List => "List",
            OperationType::Config => "Config",
            OperationType::Status => "Status",
            OperationType::Protect => "Protect",
            OperationType::Doctor => "Doctor",
        };
        let paths_str = if self.paths.len() == 1 {
            self.paths[0].clone()
        } else if self.paths.len() > 1 {
            text::concat(text::u128_to_text(self.paths.len() as u128).as_str(), " files")
        } else if self.file_ids.len() > 0 {
            text::concat(text::u128_to_text(self.file_ids.len() as u128).as_str(), " items")
        } else {
            "unknown".to_owned()
        };
        let mut r = text::concat(operation_name, " ");
        r.append(paths_str.as_str());
        r
    }
}

/// Whether two types of operation are the same.
pub fn same_operation(a: OperationType, b: OperationType) -> (r: bool)
    ensures
        r == (a == b),
{
    a == b
}

/// `sorted` with `entry` inserted behind every entry that is not older
/// than it.
pub open spec fn insert_log(sorted: Seq<OperationLogView>, entry: OperationLogView) -> Seq<
    OperationLogView,
>
    decreases sorted.len(),
{
    if sorted.len() == 0 {
        seq![entry]
    } else if sorted.last().timestamp >= entry.timestamp {
        sorted.push(entry)
    } else {
        insert_log(sorted.drop_last(), entry).push(sorted.last())
    }
}

/// The entries among `lines` that could be understood, from the newest to
/// the oldest; entries of the same moment keep their order.
pub open spec fn readable_logs(lines: Seq<Option<OperationLog>>) -> Seq<OperationLogView>
    decreases lines.len(),
{
    if lines.len() == 0 {
        Seq::empty()
    } else {
        match lines.last() {
            Some(entry) => insert_log(readable_logs(lines.drop_last()), entry@),
            None => readable_logs(lines.drop_last()),
        }
    }
}

/// The entries of `logs` that pass the filter, in order.
pub open spec fn passing(
    logs: Seq<OperationLogView>,
    operation_type: Option<OperationType>,
    since: Option<int>,
) -> Seq<OperationLogView>
    decreases logs.len(),
{
    if logs.len() == 0 {
        logs
    } else if logs.last().passes(operation_type, since) {
        passing(logs.drop_last(), operation_type, since).push(logs.last())
    } else {
        passing(logs.drop_last(), operation_type, since)
    }
}

/// The first `limit` of `logs`, or all of them where no limit is given.
pub open spec fn limited(logs: Seq<OperationLogView>, limit: Option<usize>) -> Seq<
    OperationLogView,
> {
    match limit {
        Some(n) => if n < logs.len() {
            logs.take(n as int)
        } else {
            logs
        },
        None => logs,
    }
}

/// Inserts `entry` into `sorted` behind every entry not older than it.
pub fn insert_entry(sorted: &mut Vec<OperationLog>, entry: OperationLog)
    ensures
        log_views(final(sorted)@) == insert_log(log_views(old(sorted)@), entry@),
{
    let ghost start = log_views(sorted@);
    let mut at: usize = sorted.len();
    assert(start.take(at as int) =~= start);
    while at > 0 && sorted[at - 1].timestamp.is_before(&entry.timestamp)
        invariant
            at <= sorted.len(),
            log_views(sorted@) == start,
            insert_log(start, entry@) == insert_log(start.take(at as int), entry@) + start.skip(
                at as int,
            ),
        decreases at,
    {
        proof {
            let head = start.take(at as int);
            assert(head.drop_last() =~= start.take(at - 1));
            assert(head.last() == start[at - 1]);
            assert(insert_log(head.drop_last(), entry@).push(head.last()) + start.skip(at as int)
                =~= insert_log(head.drop_last(), entry@) + start.skip(at - 1));
        }
        at -= 1;
    }
    proof {
        let head = start.take(at as int);
        if at > 0 {
            assert(head.last() == start[at - 1]);
        }
        assert(insert_log(head, entry@) == head.push(entry@)) by {
            if head.len() == 0 {
                assert(head.push(entry@) =~= seq![entry@]);
            }
        }
    }
    sorted.insert(at, entry);
    assert(log_views(sorted@) =~= start.take(at as int).push(entry@) + start.skip(at as int));
}

/// The entries of `logs` that pass the filter, in order, no more than
/// `limit` of them.
pub fn filter_logs(
    logs: Vec<OperationLog>,
    operation_type: Option<OperationType>,
    since: Option<Timestamp>,
    limit: Option<usize>,
) -> (r: Vec<OperationLog>)
    ensures
        log_views(r@) == limited(
            passing(
                log_views(logs@),
                operation_type,
                match since {
                    Some(t) => Some(t@),
                    None => None,
                },
            ),
            limit,
        ),
{
    let ghost since_view: Option<int> = match since {
        Some(t) => Some(t@),
        None => None,
    };
    let mut kept: Vec<OperationLog> = Vec::new();
    let mut i: usize = 0;
    assert(log_views(logs@).take(0) =~= Seq::<OperationLogView>::empty());
    assert(log_views(kept@) =~= Seq::<OperationLogView>::empty());
    while i < logs.len()
        invariant
            i <= logs.len(),
            since_view == match since {
                Some(t) => Some(t@),
                None => None,
            },
            log_views(kept@) == passing(log_views(logs@).take(i as int), operation_type, since_view),
        decreases logs.len() - i,
    {
        proof {
            let before = log_views(logs@).take(i as int);
            let after = log_views(logs@).take(i + 1);
            assert(after.drop_last() =~= before);
            assert(after.last() == logs@[i as int]@);
        }
        let pass = match (&operation_type, &since) {
            (Some(op), Some(t)) => logs[i].matches_filter(Some(op), Some(t)),
            (Some(op), None) => logs[i].matches_filter(Some(op), None),
            (None, Some(t)) => logs[i].matches_filter(None, Some(t)),
            (None, None) => logs[i].matches_filter(None, None),
        };
        if pass {
            let ghost shown = log_views(kept@);
            kept.push(logs[i].clone());
            assert(log_views(kept@) =~= shown.push(logs@[i as int]@));
        }
        i += 1;
    }
    assert(log_views(logs@).take(logs.len() as int) =~= log_views(logs@));
    match limit {
        Some(n) => {
            if n < kept.len() {
                let ghost all = log_views(kept@);
                kept.truncate(n);
                assert(log_views(kept@) =~= all.take(n as int));
            }
        },
        None => {},
    }
    kept
}

/// Manager for operation logs.
#[derive(Debug, PartialEq, Eq)]
pub struct OperationLogger {
    log_file_path: String,
}

impl OperationLogger {
    /// A logger that keeps its entries in the file at `log_file_path`.
    pub fn new(log_file_path: String) -> (r: OperationLogger)
        ensures
            r.path() == log_file_path@,
    {
        OperationLogger { log_file_path }
    }

    /// The file that the logger keeps its entries in.
    pub closed spec fn path(&self) -> Seq<char> {
        self.log_file_path@
    }

    /// The file that the logger keeps its entries in.
    pub fn log_file_path(&self) -> (r: &String)
        ensures
            r@ == self.path(),
    {
        &self.log_file_path
    }

    /// The entries of the log, given its lines as far as they are not
    /// empty, each as the entry it holds or `None` where it could not be
    /// understood: the entries that could, from the newest to the oldest.
    pub fn read_logs(&self, lines: Vec<Option<OperationLog>>) -> (r: Vec<OperationLog>)
        ensures
            log_views(r@) == readable_logs(lines@),
    {
        let mut logs: Vec<OperationLog> = Vec::new();
        let mut i: usize = 0;
        assert(lines@.take(0) =~= Seq::<Option<OperationLog>>::empty());
        assert(log_views(logs@) =~= Seq::<OperationLogView>::empty());
        while i < lines.len()
            invariant
                i <= lines.len(),
                log_views(logs@) == readable_logs(lines@.take(i as int)),
            decreases lines.len() - i,
        {
            proof {
                let before = lines@.take(i as int);
                let after = lines@.take(i + 1);
                assert(after.drop_last() =~= before);
                assert(after.last() == lines@[i as int]);
            }
            match &lines[i] {
                Some(entry) => {
                    insert_entry(&mut logs, entry.clone());
                },
                None => {},
            }
            i += 1;
        }
        assert(lines@.take(lines.len() as int) =~= lines@);
        logs
    }

    /// The entries of the log that pass the filter, from the newest to the
    /// oldest, no more than `limit` of them.
    pub fn read_filtered_logs(
        &self,
        lines: Vec<Option<OperationLog>>,
        operation_type: Option<OperationType>,
        since: Option<Timestamp>,
        limit: Option<usize>,
    ) -> (r: Vec<OperationLog>)
        ensures
            log_views(r@) == limited(
                passing(
                    readable_logs(lines@),
                    operation_type,
                    match since {
                        Some(t) => Some(t@),
                        None => None,
                    },
                ),
                limit,
            ),
    {
        let all_logs = self.read_logs(lines);
        filter_logs(all_logs, operation_type, since, limit)
    }
}

} // verus!
