//! The operation log as the user sees it.

use crate::cli::OperationType;
use crate::commands::grouping::{
    group_views, keyed_views, tallied, tally, Group, Keyed, KeyedView,
};
use crate::commands::list::{day_nanos, not_before_earliest};
use crate::domain::operation_log::{
    limited, log_views, operation_name, passing, readable_logs, OperationLog, OperationLogView,
    OperationLogger, OperationResult, OperationResultView,
};
use crate::commands::purge::span_text;
use crate::domain::timestamp::{denoted, moment_of, Notation, Timestamp, NANOS_PER_SEC};
use crate::errors::RmzError;
use crate::text::{self, lowercase};
use vstd::prelude::*;

verus! {

/// The kind of operation in the log that a kind on the command line
/// stands for.
pub fn convert_operation_type(cli_op: OperationType) -> (r:
    crate::domain::operation_log::OperationType)
    ensures
        r == match cli_op {
            OperationType::Delete => crate::domain::operation_log::OperationType::Delete,
            OperationType::Restore => crate::domain::operation_log::OperationType::Restore,
            OperationType::Purge => crate::domain::operation_log::OperationType::Purge,
        },
{
    match cli_op {
        OperationType::Delete => crate::domain::operation_log::OperationType::Delete,
        OperationType::Restore => crate::domain::operation_log::OperationType::Restore,
        OperationType::Purge => crate::domain::operation_log::OperationType::Purge,
    }
}

/// How long before `now` the moment `datetime` lies, in words; `unknown`
/// where it lies after `now`.
pub fn format_relative_time(datetime: &Timestamp, now: &Timestamp) -> (r: String)
    ensures
        r@ == if datetime@ <= now@ {
            span_text(((now@ - datetime@) / (NANOS_PER_SEC as int)) as nat)
        } else {
            "unknown"@
        },
{
    crate::commands::purge::format_relative_time(datetime, now)
}

/// How many entries of the log a summary shows.
pub const SUMMARY_LIMIT: usize = 20;

/// How many of `total` entries a summary shows, and how many it leaves
/// to the detailed view.
pub fn display_summary_logs(total: usize) -> (r: (usize, usize))
    ensures
        r.0 == if total <= SUMMARY_LIMIT {
            total
        } else {
            SUMMARY_LIMIT
        },
        r.0 + r.1 == total,
{
    if total <= SUMMARY_LIMIT {
        (total, 0)
    } else {
        (SUMMARY_LIMIT, total - SUMMARY_LIMIT)
    }
}

/// The moment that a lowercase word for a time names at `now`: `today`
/// the beginning of the present day, `yesterday` that of the day before,
/// `week` or `this-week` seven days ago, `month` or `this-month` thirty
/// days ago.
pub open spec fn named_moment(lowered: Seq<char>, now: int) -> Option<int> {
    if lowered == "today"@ {
        Some(now - now % day_nanos())
    } else if lowered == "yesterday"@ {
        Some(not_before_earliest(now - now % day_nanos() - day_nanos()))
    } else if lowered == "week"@ || lowered == "this-week"@ {
        Some(not_before_earliest(now - 7 * day_nanos()))
    } else if lowered == "month"@ || lowered == "this-month"@ {
        Some(not_before_earliest(now - 30 * day_nanos()))
    } else {
        None
    }
}

/// The moment that a text of one of the three notations of the log
/// denotes: RFC 3339, a moment in UTC, or a day, tried in that order.
pub open spec fn written_moment(text: Seq<char>) -> Option<int> {
    if moment_of(denoted(text, Notation::Rfc3339)) is Some {
        moment_of(denoted(text, Notation::Rfc3339))
    } else if moment_of(denoted(text, Notation::DateTime)) is Some {
        moment_of(denoted(text, Notation::DateTime))
    } else {
        moment_of(denoted(text, Notation::Day))
    }
}

/// Whether `r` is the moment that the text `since_str`, with the lowercase
/// form `lowered`, stands for at `now`: what the word names, else what the
/// text denotes, else `InvalidDate` with the text.
pub open spec fn is_since(
    r: Result<Timestamp, RmzError>,
    lowered: Seq<char>,
    since_str: Seq<char>,
    now: int,
) -> bool {
    match named_moment(lowered, now) {
        Some(t) => r matches Ok(m) && m@ == t,
        None => match written_moment(since_str) {
            Some(t) => r matches Ok(m) && m@ == t,
            None => r matches Err(RmzError::InvalidDate { text }) && text@ == since_str,
        },
    }
}

/// The moment that `since_str` stands for at `now`, given its lowercase
/// form.
pub fn since_date(lowered: &str, since_str: &str, now: &Timestamp) -> (r: Result<
    Timestamp,
    RmzError,
>)
    ensures
        is_since(r, lowered@, since_str@, now@),
{
    if text::same_text(lowered, "today") {
        Ok(now.start_of_day())
    } else if text::same_text(lowered, "yesterday") {
        Ok(now.start_of_day().days_earlier(1))
    } else if text::same_text(lowered, "week") || text::same_text(lowered, "this-week") {
        Ok(now.days_earlier(7))
    } else if text::same_text(lowered, "month") || text::same_text(lowered, "this-month") {
        Ok(now.days_earlier(30))
    } else {
        match Timestamp::parse(since_str, Notation::Rfc3339) {
            Some(t) => Ok(t),
            None => match Timestamp::parse(since_str, Notation::DateTime) {
                Some(t) => Ok(t),
                None => match Timestamp::parse(since_str, Notation::Day) {
                    Some(t) => Ok(t),
                    None => Err(RmzError::InvalidDate { text: since_str.to_owned() }),
                },
            },
        }
    }
}

/// Reads the moment from which on the log is shown: a word for a time,
/// whatever its case, or a date.
pub fn parse_since_date(since_str: &str, now: &Timestamp) -> (r: Result<Timestamp, RmzError>)
    ensures
        is_since(r, lowercase(since_str@), since_str@, now@),
{
    let lowered = text::lowercase_of(since_str);
    since_date(lowered.as_str(), since_str, now)
}

/// The name of the kind of a result.
pub open spec fn result_name(result: OperationResultView) -> Seq<char> {
    match result {
        OperationResultView::Success => "Success"@,
        OperationResultView::Failed(_) => "Failed"@,
        OperationResultView::Cancelled => "Cancelled"@,
    }
}

/// The entries as things to count by their operation.
pub open spec fn by_operation(logs: Seq<OperationLogView>) -> Seq<KeyedView> {
    logs.map_values(|l: OperationLogView| KeyedView { key: operation_name(l.operation), size: 0 })
}

/// The entries as things to count by their result.
pub open spec fn by_result(logs: Seq<OperationLogView>) -> Seq<KeyedView> {
    logs.map_values(|l: OperationLogView| KeyedView { key: result_name(l.result), size: 0 })
}

/// Counts the entries of the log by operation and by result, each in the
/// order in which the kinds first occur.
pub fn display_operation_stats(logs: &Vec<OperationLog>) -> (r: (Vec<Group>, Vec<Group>))
    ensures
        group_views(r.0@) == tallied(by_operation(log_views(logs@)), logs.len() as int),
        group_views(r.1@) == tallied(by_result(log_views(logs@)), logs.len() as int),
{
    let mut operations: Vec<Keyed> = Vec::new();
    let mut results: Vec<Keyed> = Vec::new();
    let mut i: usize = 0;
    while i < logs.len()
        invariant
            i <= logs.len(),
            keyed_views(operations@) == by_operation(log_views(logs@)).take(i as int),
            keyed_views(results@) == by_result(log_views(logs@)).take(i as int),
        decreases logs.len() - i,
    {
        let ghost ops_before = keyed_views(operations@);
        let ghost res_before = keyed_views(results@);
        let name = match logs[i].operation {
            crate::domain::operation_log::OperationType::Delete => "Delete",
            crate::domain::operation_log::OperationType::Restore => "Restore",
            crate::domain::operation_log::OperationType::Purge => "Purge",
            crate::domain::operation_log::OperationType::List => "List",
            crate::domain::operation_log::OperationType::Config => "Config",
            crate::domain::operation_log::OperationType::Status => "Status",
            crate::domain::operation_log::OperationType::Protect => "Protect",
            crate::domain::operation_log::OperationType::Doctor => "Doctor",
        };
        let result = match &logs[i].result {
            OperationResult::Success => "Success",
            OperationResult::Failed(_) => "Failed",
            OperationResult::Cancelled => "Cancelled",
        };
        operations.push(Keyed { key: name.to_owned(), size: 0 });
        results.push(Keyed { key: result.to_owned(), size: 0 });
        proof {
            assert(log_views(logs@)[i as int] == logs@[i as int]@);
            let op_entry = by_operation(log_views(logs@))[i as int];
            let res_entry = by_result(log_views(logs@))[i as int];
            assert(keyed_views(operations@) =~= ops_before.push(op_entry));
            assert(keyed_views(results@) =~= res_before.push(res_entry));
            assert(by_operation(log_views(logs@)).take(i + 1) =~= ops_before.push(op_entry));
            assert(by_result(log_views(logs@)).take(i + 1) =~= res_before.push(res_entry));
        }
        i += 1;
    }
    proof {
        assert(by_operation(log_views(logs@)).take(logs.len() as int) =~= by_operation(
            log_views(logs@),
        ));
        assert(by_result(log_views(logs@)).take(logs.len() as int) =~= by_result(
            log_views(logs@),
        ));
    }
    (tally(&operations), tally(&results))
}

/// The kind of operation in the log that the command line asks for.
pub open spec fn asked_for(operation: Option<OperationType>) -> Option<
    crate::domain::operation_log::OperationType,
> {
    match operation {
        Some(OperationType::Delete) => Some(crate::domain::operation_log::OperationType::Delete),
        Some(OperationType::Restore) => Some(
            crate::domain::operation_log::OperationType::Restore,
        ),
        Some(OperationType::Purge) => Some(crate::domain::operation_log::OperationType::Purge),
        None => None,
    }
}

/// The entries of the log that the log command shows: those of the kind
/// asked for and not older than `since`, from the newest to the oldest.
/// The lines of the log are given as far as they are not empty, each as
/// the entry it holds or `None` where it could not be understood. A
/// `since` that stands for no moment is refused.
pub fn execute(
    logger: &OperationLogger,
    lines: Vec<Option<OperationLog>>,
    operation: Option<OperationType>,
    since: Option<&str>,
    now: &Timestamp,
) -> (r: Result<Vec<OperationLog>, RmzError>)
    ensures
        match since {
            None => r matches Ok(logs) && log_views(logs@) == limited(
                passing(readable_logs(lines@), asked_for(operation), None),
                None,
            ),
            Some(text) => exists|moment: Result<Timestamp, RmzError>| #[trigger]
                is_since(moment, lowercase(text@), text@, now@) && match moment {
                    Ok(t) => r matches Ok(logs) && log_views(logs@) == limited(
                        passing(readable_logs(lines@), asked_for(operation), Some(t@)),
                        None,
                    ),
                    Err(e) => r == Err::<Vec<OperationLog>, RmzError>(e),
                },
        },
{
    let operation_filter = match operation {
        Some(op) => Some(convert_operation_type(op)),
        None => None,
    };
    match since {
        None => Ok(logger.read_filtered_logs(lines, operation_filter, None, None)),
        Some(text) => {
            let moment = parse_since_date(text, now);
            match moment {
                Ok(t) => {
                    assert(is_since(Ok::<Timestamp, RmzError>(t), lowercase(text@), text@, now@));
                    Ok(logger.read_filtered_logs(lines, operation_filter, Some(t), None))
                },
                Err(e) => {
                    assert(is_since(Err::<Timestamp, RmzError>(e), lowercase(text@), text@, now@));
                    Err(e)
                },
            }
        },
    }
}

} // verus!
