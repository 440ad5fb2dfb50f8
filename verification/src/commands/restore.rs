//! Restoring: which held items come back, where to, and what happens when
//! the place is taken.

use crate::commands::identity::{ids_with_prefix, picks_one, resolve_prefix};
use crate::domain::file_meta::FileMeta;
use crate::domain::trash_item::{TrashItem, TrashItemView};
use crate::errors::RmzError;
use crate::ids::{parse_id, parsed_id};
use crate::infra::trash_store::{item_views, step_views, FsStep, TrashStore};
use crate::paths::{self, file_name_spec, join_spec};
use crate::text::{self, lowercase};
use vstd::prelude::*;
use vstd::string::StringSliceAdditionalSpecFns;

verus! {

/// What a restore was asked to bring back.
#[derive(Debug, PartialEq, Eq)]
pub enum RestoreRequest {
    /// The item with this identifier, or with this prefix of one.
    ById { id: String },
    /// Every held item, or every one that matches the pattern.
    All { filter: Option<String> },
    /// The items that the user picks from a list.
    Interactive { filter: Option<String> },
    /// The items that match the pattern.
    ByPattern { pattern: String },
}

/// The shortest identifier prefix that a restore takes.
pub const MIN_PREFIX_LEN: usize = 8;

/// Decides what a restore brings back from the options given: an
/// identifier comes before `all`, `all` before `interactive`, and that
/// before a pattern; with none of them the request is refused.
pub fn execute(file: Option<String>, id: Option<String>, interactive: bool, all: bool) -> (r:
    Result<RestoreRequest, RmzError>)
    ensures
        id is Some ==> r == Ok::<RestoreRequest, RmzError>(RestoreRequest::ById { id: id->0 }),
        id is None && all ==> r == Ok::<RestoreRequest, RmzError>(
            RestoreRequest::All { filter: file },
        ),
        id is None && !all && interactive ==> r == Ok::<RestoreRequest, RmzError>(
            RestoreRequest::Interactive { filter: file },
        ),
        id is None && !all && !interactive && file is Some ==> r == Ok::<
            RestoreRequest,
            RmzError,
        >(RestoreRequest::ByPattern { pattern: file->0 }),
        id is None && !all && !interactive && file is None ==> r == Err::<
            RestoreRequest,
            RmzError,
        >(RmzError::MissingSelection),
{
    if let Some(id) = id {
        Ok(RestoreRequest::ById { id })
    } else if all {
        Ok(RestoreRequest::All { filter: file })
    } else if interactive {
        Ok(RestoreRequest::Interactive { filter: file })
    } else if let Some(pattern) = file {
        Ok(RestoreRequest::ByPattern { pattern })
    } else {
        Err(RmzError::MissingSelection)
    }
}

/// Whether a restore to `restore_path` may go ahead. A free path may be
/// restored to. An occupied one is refused with `AlreadyExists` unless the
/// restore is interactive; then the user's answer decides, and `false`
/// means that this one restore is given up.
pub fn check_existing_file_and_confirm(
    restore_path: &str,
    occupied: bool,
    interactive: bool,
    confirmed: bool,
) -> (r: Result<bool, RmzError>)
    ensures
        !occupied ==> r == Ok::<bool, RmzError>(true),
        occupied && interactive ==> r == Ok::<bool, RmzError>(confirmed),
        occupied && !interactive ==> (r matches Err(RmzError::AlreadyExists { path }) && path@
            == restore_path@),
{
    if !occupied {
        Ok(true)
    } else if !interactive {
        Err(RmzError::AlreadyExists { path: restore_path.to_owned() })
    } else {
        Ok(confirmed)
    }
}

/// Where `item` is restored to: its original path where no target is
/// given; the target itself where it is no directory; else the file name
/// of the original path inside the target.
pub open spec fn destination_of(item: TrashItemView, to: Option<Seq<char>>, to_is_dir: bool) -> Option<
    Seq<char>,
> {
    match to {
        None => Some(item.meta.original_path),
        Some(target) => if to_is_dir {
            match file_name_spec(item.meta.original_path) {
                Some(name) => Some(join_spec(target, name)),
                None => None,
            }
        } else {
            Some(target)
        },
    }
}

/// Where `item` is restored to, or `NoFileName` with the original path
/// where a directory is the target and the original path has no file name.
pub fn restore_destination(item: &TrashItem, to: Option<&str>, to_is_dir: bool) -> (r: Result<
    String,
    RmzError,
>)
    ensures
        match destination_of(
            item@,
            match to {
                Some(t) => Some(t@),
                None => None,
            },
            to_is_dir,
        ) {
            Some(path) => r matches Ok(p) && p@ == path,
            None => r matches Err(RmzError::NoFileName { path }) && path@
                == item@.meta.original_path,
        },
{
    match to {
        None => Ok(item.meta.original_path.clone()),
        Some(target) => {
            if to_is_dir {
                match item.meta.filename() {
                    Some(name) => Ok(paths::join(target, name.as_str())),
                    None => Err(RmzError::NoFileName { path: item.meta.original_path.clone() }),
                }
            } else {
                Ok(target.to_owned())
            }
        },
    }
}

/// The number of bytes that the text `s` takes in UTF-8.
pub open spec fn byte_len(s: Seq<char>) -> nat {
    vstd::utf8::encode_utf8(s).len()
}

/// Whether `r` is the identifier that a restore selects for the text
/// `id_str`: the identifier that the text denotes in full; else, for a
/// text of eight bytes or more, the one item whose identifier begins with
/// its lowercase form; else `IdTooShort` with the text.
pub open spec fn restores(
    r: Result<u128, RmzError>,
    items: Seq<TrashItemView>,
    parsed: Option<u128>,
    lowered: Seq<char>,
    id_str: Seq<char>,
) -> bool {
    if parsed is Some || byte_len(id_str) >= MIN_PREFIX_LEN {
        match parsed {
            Some(id) => r == Ok::<u128, RmzError>(id),
            None => picks_one(r, ids_with_prefix(items, lowered), id_str),
        }
    } else {
        r matches Err(RmzError::IdTooShort { id }) && id@ == id_str
    }
}

/// The identifier that a restore selects for `id_str`, given what the
/// text denotes in full and its lowercase form.
pub fn restore_by_parsed_id(
    items: &Vec<TrashItem>,
    parsed: Option<u128>,
    lowered: &str,
    id_str: &str,
) -> (r: Result<u128, RmzError>)
    ensures
        restores(r, item_views(items@), parsed, lowered@, id_str@),
{
    let bytes = id_str.as_bytes();
    assert(bytes@ == vstd::utf8::encode_utf8(id_str@));
    if parsed.is_some() || bytes.len() >= MIN_PREFIX_LEN {
        match parsed {
            Some(id) => Ok(id),
            None => resolve_prefix(items, lowered, id_str),
        }
    } else {
        Err(RmzError::IdTooShort { id: id_str.to_owned() })
    }
}

/// Restoring by identifier selects the item that `id_str` denotes in full,
/// or the one item whose identifier begins with it; a prefix must have
/// eight bytes at least.
pub fn restore_by_id(items: &Vec<TrashItem>, id_str: &str) -> (r: Result<u128, RmzError>)
    ensures
        restores(r, item_views(items@), parsed_id(id_str@), lowercase(id_str@), id_str@),
{
    let parsed = parse_id(id_str);
    let lowered = text::lowercase_of(id_str);
    restore_by_parsed_id(items, parsed, lowered.as_str(), id_str)
}

/// Restoring by a part of an identifier selects the one item whose
/// identifier begins with the lowercase form of `partial_id`.
pub fn restore_by_partial_id(items: &Vec<TrashItem>, partial_id: &str) -> (r: Result<
    u128,
    RmzError,
>)
    ensures
        picks_one(r, ids_with_prefix(item_views(items@), lowercase(partial_id@)), partial_id@),
{
    let lowered = text::lowercase_of(partial_id);
    resolve_prefix(items, lowered.as_str(), partial_id)
}

/// The items of `items` that match `pattern`, in their order.
pub open spec fn matching(items: Seq<TrashItemView>, pattern: Seq<char>) -> Seq<TrashItemView>
    decreases items.len(),
{
    if items.len() == 0 {
        items
    } else if FileMeta::matches_pattern_spec(items.last().meta, pattern) {
        matching(items.drop_last(), pattern).push(items.last())
    } else {
        matching(items.drop_last(), pattern)
    }
}

/// Restoring by pattern selects the items that match it, in the order
/// listed.
pub fn restore_by_pattern(items: &Vec<TrashItem>, pattern: &str) -> (r: Vec<TrashItem>)
    ensures
        item_views(r@) == matching(item_views(items@), pattern@),
{
    let mut found: Vec<TrashItem> = Vec::new();
    let mut i: usize = 0;
    assert(item_views(items@).take(0) =~= Seq::<TrashItemView>::empty());
    assert(item_views(found@) =~= Seq::<TrashItemView>::empty());
    while i < items.len()
        invariant
            i <= items.len(),
            item_views(found@) == matching(item_views(items@).take(i as int), pattern@),
        decreases items.len() - i,
    {
        proof {
            let before = item_views(items@).take(i as int);
            let after = item_views(items@).take(i + 1);
            assert(after.drop_last() =~= before);
            assert(after.last() == items@[i as int]@);
        }
        if items[i].meta.matches_pattern(pattern) {
            let ghost shown = item_views(found@);
            found.push(items[i].clone());
            assert(item_views(found@) =~= shown.push(items@[i as int]@));
        }
        i += 1;
    }
    assert(item_views(items@).take(items.len() as int) =~= item_views(items@));
    found
}

/// Restoring all selects every item, or with a filter every item that
/// matches it, in the order listed.
pub fn restore_all(items: &Vec<TrashItem>, filter: Option<&str>) -> (r: Vec<TrashItem>)
    ensures
        item_views(r@) == match filter {
            Some(pattern) => matching(item_views(items@), pattern@),
            None => item_views(items@),
        },
{
    match filter {
        Some(pattern) => restore_by_pattern(items, pattern),
        None => crate::commands::purge::clone_items(items),
    }
}

/// The restore of one item, planned: where to, and by which steps.
#[derive(Debug, PartialEq, Eq)]
pub struct RestorePlan {
    pub destination: String,
    pub steps: Vec<FsStep>,
}

/// Plans the restore of the held item with identifier `id` to
/// `destination`. An occupied destination is refused outside interactive
/// use; in it, a user who declines gets `None`: the item stays held and
/// nothing is touched. An item that is not held is `NotFound`.
pub fn restore_single_item(
    store: &TrashStore,
    id: u128,
    destination: &str,
    occupied: bool,
    interactive: bool,
    confirmed: bool,
) -> (r: Result<Option<RestorePlan>, RmzError>)
    requires
        store.wf(),
    ensures
        occupied && !interactive ==> (r matches Err(RmzError::AlreadyExists { path }) && path@
            == destination@),
        occupied && interactive && !confirmed ==> r == Ok::<Option<RestorePlan>, RmzError>(None),
        !occupied || (interactive && confirmed) ==> match store@.held(id) {
            Some(item) => r matches Ok(Some(plan)) && plan.destination@ == destination@
                && step_views(plan.steps@) == store@.restore_plan(item, destination@),
            None => r == Err::<Option<RestorePlan>, RmzError>(RmzError::NotFound { id }),
        },
{
    match check_existing_file_and_confirm(destination, occupied, interactive, confirmed) {
        Err(e) => Err(e),
        Ok(false) => Ok(None),
        Ok(true) => match store.plan_restore_to(id, destination) {
            Ok(steps) => Ok(Some(RestorePlan { destination: destination.to_owned(), steps })),
            Err(e) => Err(e),
        },
    }
}

/// How the restore of one item of several ended.
#[derive(Clone, Copy, Debug, PartialEq, Eq, Structural)]
pub enum ItemOutcome {
    /// The item was restored.
    Restored,
    /// The item was left held at the user's wish.
    Skipped,
    /// The restore of the item failed; the others go on.
    Failed,
}

/// What a restore does once one of its items has ended.
#[derive(Clone, Copy, Debug, PartialEq, Eq, Structural)]
pub enum BatchStep {
    /// The outcome is counted and the next item is taken.
    GoOn,
    /// The restore ends with the failure of the item.
    Stop,
}

/// What a restore does after an item that ended as `outcome`: the failure
/// of the only item ends the restore with that failure; among several
/// items every outcome is counted and the restore goes on.
pub fn after_item(outcome: ItemOutcome, single: bool) -> (r: BatchStep)
    ensures
        r == if single && outcome == ItemOutcome::Failed {
            BatchStep::Stop
        } else {
            BatchStep::GoOn
        },
{
    if single && outcome == ItemOutcome::Failed {
        BatchStep::Stop
    } else {
        BatchStep::GoOn
    }
}

/// How a restore of several items went.
#[derive(Clone, Copy, Debug, PartialEq, Eq, Structural)]
pub struct RestoreSummary {
    pub restored: usize,
    pub skipped: usize,
    pub failed: usize,
}

/// How many of the first `n` outcomes are `kind`.
pub open spec fn count_of(outcomes: Seq<ItemOutcome>, kind: ItemOutcome, n: int) -> nat
    decreases n,
{
    if n <= 0 {
        0
    } else {
        count_of(outcomes, kind, n - 1) + if outcomes[n - 1] == kind {
            1nat
        } else {
            0nat
        }
    }
}

/// Sums up the outcomes of a restore of several items.
pub fn summarize(outcomes: &Vec<ItemOutcome>) -> (r: RestoreSummary)
    ensures
        r.restored == count_of(outcomes@, ItemOutcome::Restored, outcomes.len() as int),
        r.skipped == count_of(outcomes@, ItemOutcome::Skipped, outcomes.len() as int),
        r.failed == count_of(outcomes@, ItemOutcome::Failed, outcomes.len() as int),
        r.restored + r.skipped + r.failed == outcomes.len(),
{
    let mut restored: usize = 0;
    let mut skipped: usize = 0;
    let mut failed: usize = 0;
    let mut i: usize = 0;
    while i < outcomes.len()
        invariant
            i <= outcomes.len(),
            restored == count_of(outcomes@, ItemOutcome::Restored, i as int),
            skipped == count_of(outcomes@, ItemOutcome::Skipped, i as int),
            failed == count_of(outcomes@, ItemOutcome::Failed, i as int),
            restored + skipped + failed == i,
        decreases outcomes.len() - i,
    {
        match outcomes[i] {
            ItemOutcome::Restored => {
                restored += 1;
            },
            ItemOutcome::Skipped => {
                skipped += 1;
            },
            ItemOutcome::Failed => {
                failed += 1;
            },
        }
        i += 1;
    }
    RestoreSummary { restored, skipped, failed }
}

} // verus!
