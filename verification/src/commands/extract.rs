//! Extracting: copying a held file out of the trash zone while it stays
//! held.

use crate::domain::trash_item::{TrashItem, TrashItemView};
use crate::errors::RmzError;
use crate::infra::trash_store::item_views;
use crate::paths::{self, file_name_spec, join_spec};
use crate::text::{self, contains_text};
use vstd::prelude::*;

verus! {

/// What an extract was asked to copy out.
#[derive(Debug, PartialEq, Eq)]
pub enum ExtractRequest {
    /// Files that lay below the held directory with this identifier.
    FromDirectory { id: String, file: Option<String> },
    /// The file that the user picks from a list.
    Interactive { filter: Option<String> },
    /// Every held file, or every one whose path holds the filter.
    All { filter: Option<String> },
    /// The one held file whose name holds this text.
    ByFilename { filename: String },
}

/// Decides what an extract copies out from the options given: a directory
/// comes before `interactive`, that before `all`, and that before a file
/// name; with none of them the request is refused.
pub fn execute(from: Option<String>, file: Option<String>, interactive: bool, all: bool) -> (r:
    Result<ExtractRequest, RmzError>)
    ensures
        from is Some ==> r == Ok::<ExtractRequest, RmzError>(
            ExtractRequest::FromDirectory { id: from->0, file },
        ),
        from is None && interactive ==> r == Ok::<ExtractRequest, RmzError>(
            ExtractRequest::Interactive { filter: file },
        ),
        from is None && !interactive && all ==> r == Ok::<ExtractRequest, RmzError>(
            ExtractRequest::All { filter: file },
        ),
        from is None && !interactive && !all && file is Some ==> r == Ok::<
            ExtractRequest,
            RmzError,
        >(ExtractRequest::ByFilename { filename: file->0 }),
        from is None && !interactive && !all && file is None ==> r == Err::<
            ExtractRequest,
            RmzError,
        >(RmzError::MissingExtractSelection),
{
    if let Some(id) = from {
        Ok(ExtractRequest::FromDirectory { id, file })
    } else if interactive {
        Ok(ExtractRequest::Interactive { filter: file })
    } else if all {
        Ok(ExtractRequest::All { filter: file })
    } else if let Some(filename) = file {
        Ok(ExtractRequest::ByFilename { filename })
    } else {
        Err(RmzError::MissingExtractSelection)
    }
}

/// Where `item` is extracted to: the target itself where it is no
/// directory; else the file name of the original path inside the target,
/// or inside the current directory where no target is given.
pub open spec fn target_of(
    item: TrashItemView,
    to: Option<Seq<char>>,
    to_is_dir: bool,
    current_dir: Seq<char>,
) -> Option<Seq<char>> {
    match to {
        Some(target) if !to_is_dir => Some(target),
        _ => match file_name_spec(item.meta.original_path) {
            Some(name) => Some(
                join_spec(
                    match to {
                        Some(target) => target,
                        None => current_dir,
                    },
                    name,
                ),
            ),
            None => None,
        },
    }
}

/// Where `item` is extracted to. An original path without a file name is
/// `NoExtractName` where the name is needed.
pub fn extract_target(item: &TrashItem, to: Option<&str>, to_is_dir: bool, current_dir: &str) -> (r:
    Result<String, RmzError>)
    ensures
        match target_of(
            item@,
            match to {
                Some(t) => Some(t@),
                None => None,
            },
            to_is_dir,
            current_dir@,
        ) {
            Some(path) => r matches Ok(p) && p@ == path,
            None => r matches Err(RmzError::NoExtractName { path }) && path@
                == item@.meta.original_path,
        },
{
    match to {
        Some(target) => {
            if !to_is_dir {
                return Ok(target.to_owned());
            }
            match item.meta.filename() {
                Some(name) => Ok(paths::join(target, name.as_str())),
                None => Err(RmzError::NoExtractName { path: item.meta.original_path.clone() }),
            }
        },
        None => match item.meta.filename() {
            Some(name) => Ok(paths::join(current_dir, name.as_str())),
            None => Err(RmzError::NoExtractName { path: item.meta.original_path.clone() }),
        },
    }
}

/// Decides on the extract of `item` to `target`: the path to copy the
/// physical file to, or `AlreadyExists` where the target is occupied. An
/// extract never overwrites.
pub fn extract_single_file(item: &TrashItem, target: &str, occupied: bool) -> (r: Result<
    (String, String),
    RmzError,
>)
    ensures
        occupied ==> (r matches Err(RmzError::AlreadyExists { path }) && path@ == target@),
        !occupied ==> (r matches Ok(pair) && pair.0@ == item@.trash_path && pair.1@ == target@),
{
    if occupied {
        Err(RmzError::AlreadyExists { path: target.to_owned() })
    } else {
        Ok((item.trash_path.clone(), target.to_owned()))
    }
}

/// Whether the file name of the original path of `item` holds `text`.
pub open spec fn name_holds(item: TrashItemView, text: Seq<char>) -> bool {
    match file_name_spec(item.meta.original_path) {
        Some(name) => contains_text(name, text),
        None => false,
    }
}

/// The identifiers of the items whose file name holds `text`, in order.
pub open spec fn ids_named(items: Seq<TrashItemView>, text: Seq<char>) -> Seq<u128>
    decreases items.len(),
{
    if items.len() == 0 {
        Seq::empty()
    } else {
        let rest = ids_named(items.drop_last(), text);
        if name_holds(items.last(), text) {
            rest.push(items.last().meta.id)
        } else {
            rest
        }
    }
}

/// Whether `r` is the one of `candidates`: `NoFileNamed` with the name
/// where there is none, `AmbiguousName` with the name and all of them where
/// there are several.
pub open spec fn picks_named(r: Result<u128, RmzError>, candidates: Seq<u128>, name: Seq<char>) -> bool {
    if candidates.len() == 1 {
        r == Ok::<u128, RmzError>(candidates[0])
    } else if candidates.len() == 0 {
        r matches Err(RmzError::NoFileNamed { name: n }) && n@ == name
    } else {
        r matches Err(RmzError::AmbiguousName { name: n, candidates: listed }) && n@ == name
            && listed@ == candidates
    }
}

/// Extracting by file name selects the one item whose file name holds
/// `filename`; with more than one the error lists them all.
pub fn extract_by_filename(items: &Vec<TrashItem>, filename: &str) -> (r: Result<u128, RmzError>)
    ensures
        picks_named(r, ids_named(item_views(items@), filename@), filename@),
{
    let mut found: Vec<u128> = Vec::new();
    let mut i: usize = 0;
    assert(item_views(items@).take(0) =~= Seq::<TrashItemView>::empty());
    while i < items.len()
        invariant
            i <= items.len(),
            found@ == ids_named(item_views(items@).take(i as int), filename@),
        decreases items.len() - i,
    {
        proof {
            let before = item_views(items@).take(i as int);
            let after = item_views(items@).take(i + 1);
            assert(after.drop_last() =~= before);
            assert(after.last() == items@[i as int]@);
        }
        let holds = match items[i].meta.filename() {
            Some(name) => text::contains(name.as_str(), filename),
            None => false,
        };
        if holds {
            found.push(items[i].meta.id);
        }
        i += 1;
    }
    assert(item_views(items@).take(items.len() as int) =~= item_views(items@));
    if found.len() == 1 {
        Ok(found[0])
    } else if found.len() == 0 {
        Err(RmzError::NoFileNamed { name: filename.to_owned() })
    } else {
        Err(RmzError::AmbiguousName { name: filename.to_owned(), candidates: found })
    }
}

} // verus!
