//! Recording how a command went.

use crate::domain::file_meta::texts;
use crate::domain::operation_log::{
    OperationLog, OperationResult, OperationResultView, OperationType,
};
use crate::text::{self, decimal};
use vstd::prelude::*;

verus! {

/// Helper for recording one command in the operation log.
#[derive(Debug, PartialEq, Eq)]
pub struct OperationRecorder {
    pub operation: OperationType,
    pub paths: Vec<String>,
}

impl OperationRecorder {
    /// Begins the record of a command.
    pub fn new(operation: OperationType, paths: Vec<String>) -> (r: OperationRecorder)
        ensures
            r.operation == operation,
            r.paths == paths,
    {
        OperationRecorder { operation, paths }
    }

    /// The log entry for the command, once it has ended: a success, or a
    /// failure with its message, with the time it took as context.
    pub fn finish(self, result: Result<(), String>, user: &str, elapsed_ms: u128) -> (r:
        OperationLog)
        ensures
            r@.operation == self.operation,
            r@.paths == texts(self.paths@),
            r@.user == user@,
            r@.result == match result {
                Ok(_) => OperationResultView::Success,
                Err(e) => OperationResultView::Failed(e@),
            },
            r@.context == Some("duration_ms="@ + decimal(elapsed_ms as nat)),
    {
        let op_result = match result {
            Ok(_) => OperationResult::Success,
            Err(e) => OperationResult::Failed(e),
        };
        let log = OperationLog::new(self.operation, self.paths, op_result, user);
        log.with_context(text::concat("duration_ms=", text::u128_to_text(elapsed_ms).as_str()))
    }
}

} // verus!
