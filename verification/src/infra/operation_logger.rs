//! The file that keeps the operation log.

use crate::domain::operation_log::{
    insert_entry, insert_log, log_views, OperationLog, OperationLogView, OperationType,
};
use crate::domain::timestamp::Timestamp;
use crate::errors::RmzError;
use vstd::prelude::*;

verus! {

/// File-based operation logger.
#[derive(Debug, PartialEq, Eq)]
pub struct FileOperationLogger {
    log_path: String,
}

/// The entries among the first `n` of `lines` that could be understood
/// and pass the filter, from the newest to the oldest; entries of the
/// same moment keep their order.
pub open spec fn filtered_logs(
    lines: Seq<Option<OperationLog>>,
    operation_type: Option<OperationType>,
    since: Option<int>,
) -> Seq<OperationLogView>
    decreases lines.len(),
{
    if lines.len() == 0 {
        Seq::empty()
    } else {
        let rest = filtered_logs(lines.drop_last(), operation_type, since);
        match lines.last() {
            Some(entry) => if entry@.passes(operation_type, since) {
                insert_log(rest, entry@)
            } else {
                rest
            },
            None => rest,
        }
    }
}

impl FileOperationLogger {
    /// A logger that keeps its entries in the file at `log_path`.
    pub fn new(log_path: String) -> (r: FileOperationLogger)
        ensures
            r.path() == log_path@,
    {
        FileOperationLogger { log_path }
    }

    /// The file that the logger keeps its entries in.
    pub closed spec fn path(&self) -> Seq<char> {
        self.log_path@
    }

    /// The file that the logger keeps its entries in.
    pub fn log_path(&self) -> (r: &String)
        ensures
            r@ == self.path(),
    {
        &self.log_path
    }

    /// The entries of the log that pass the filter, from the newest to
    /// the oldest, no more than `limit` of them. The lines of the log are
    /// given as far as they are not empty, each as the entry it holds or
    /// `None` where it could not be understood.
    pub fn get_logs_filtered(
        &self,
        lines: Vec<Option<OperationLog>>,
        operation_type: Option<OperationType>,
        since: Option<Timestamp>,
        limit: Option<usize>,
    ) -> (r: Vec<OperationLog>)
        ensures
            log_views(r@) == crate::domain::operation_log::limited(
                filtered_logs(
                    lines@,
                    operation_type,
                    match since {
                        Some(t) => Some(t@),
                        None => None,
                    },
                ),
                limit,
            ),
    {
        let ghost since_view: Option<int> = match since {
            Some(t) => Some(t@),
            None => None,
        };
        let mut logs: Vec<OperationLog> = Vec::new();
        let mut i: usize = 0;
        assert(lines@.take(0) =~= Seq::<Option<OperationLog>>::empty());
        assert(log_views(logs@) =~= Seq::<OperationLogView>::empty());
        while i < lines.len()
            invariant
                i <= lines.len(),
                since_view == match since {
                    Some(t) => Some(t@),
                    None => None,
                },
                log_views(logs@) == filtered_logs(lines@.take(i as int), operation_type, since_view),
            decreases lines.len() - i,
        {
            proof {
                let before = lines@.take(i as int);
                let after = lines@.take(i + 1);
                assert(after.drop_last() =~= before);
                assert(after.last() == lines@[i as int]);
            }
            match &lines[i] {
                Some(entry) => {
                    let pass = match (&operation_type, &since) {
                        (Some(op), Some(t)) => entry.matches_filter(Some(op), Some(t)),
                        (Some(op), None) => entry.matches_filter(Some(op), None),
                        (None, Some(t)) => entry.matches_filter(None, Some(t)),
                        (None, None) => entry.matches_filter(None, None),
                    };
                    if pass {
                        insert_entry(&mut logs, entry.clone());
                    }
                },
                None => {},
            }
            i += 1;
        }
        assert(lines@.take(lines.len() as int) =~= lines@);
        match limit {
            Some(n) => {
                if n < logs.len() {
                    let ghost all = log_views(logs@);
                    logs.truncate(n);
                    assert(log_views(logs@) =~= all.take(n as int));
                }
            },
            None => {},
        }
        logs
    }

    /// The entries of the log, from the newest to the oldest, no more
    /// than `limit` of them.
    pub fn get_logs(&self, lines: Vec<Option<OperationLog>>, limit: Option<usize>) -> (r: Vec<
        OperationLog,
    >)
        ensures
            log_views(r@) == crate::domain::operation_log::limited(
                filtered_logs(lines@, None, None),
                limit,
            ),
    {
        self.get_logs_filtered(lines, None, None, limit)
    }
}

/// Sets up the logger of the application in `slot`, once: a slot that
/// holds a logger already is left as it is, and the call is refused.
pub fn init_operation_logger(slot: &mut Option<FileOperationLogger>, log_path: String) -> (r:
    Result<(), RmzError>)
    ensures
        *old(slot) is None ==> r == Ok::<(), RmzError>(()) && (*final(slot) matches Some(logger)
            && logger.path() == log_path@),
        *old(slot) is Some ==> *final(slot) == *old(slot) && (r matches Err(
            RmzError::Failed { message },
        ) && message@ == "Operation logger already initialized"@),
{
    if slot.is_some() {
        return Err(
            RmzError::Failed { message: "Operation logger already initialized".to_owned() },
        );
    }
    *slot = Some(FileOperationLogger::new(log_path));
    Ok(())
}

/// The logger of the application, or a refusal where none is set up.
pub fn get_operation_logger(slot: &Option<FileOperationLogger>) -> (r: Result<
    &FileOperationLogger,
    RmzError,
>)
    ensures
        match slot {
            Some(logger) => r == Ok::<&FileOperationLogger, RmzError>(logger),
            None => r matches Err(RmzError::Failed { message }) && message@
                == "Operation logger not initialized"@,
        },
{
    match slot {
        Some(logger) => Ok(logger),
        None => Err(RmzError::Failed { message: "Operation logger not initialized".to_owned() }),
    }
}

} // verus!
