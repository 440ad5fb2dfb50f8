//! What to do when the destination of a restore is occupied.

use crate::domain::file_meta::texts;
use crate::paths::{
    self, extension_spec, file_name_spec, file_stem_spec, join_spec, parent_spec,
    with_extension_spec, with_file_name_spec,
};
use crate::text::{self, decimal, lemma_decimal_round_trip};
use vstd::prelude::*;

verus! {

/// Possible actions when a restore target already exists.
#[derive(Clone, Copy, Debug, PartialEq, Eq, Structural)]
pub enum RestoreAction {
    /// Replace the existing file.
    Overwrite,
    /// Leave this item held and the existing file as it is.
    Skip,
    /// Restore beside the existing file, under a name not in use.
    Rename,
    /// Stop the whole restore.
    Cancel,
    /// The target is free: go ahead.
    Proceed,
}

/// What becomes of one item of a restore.
#[derive(Debug, PartialEq, Eq)]
pub enum Resolution {
    /// The item is restored to `destination`.
    Restore { destination: String },
    /// The item stays held; nothing is touched.
    Skip,
    /// The item stays held, and no further item is restored.
    Cancel,
}

/// The action for a restore target: `Proceed` where nothing is in the way,
/// else what the user chose from the four offered, any choice past the
/// third standing for `Cancel`.
pub fn check_existing_file(occupied: bool, selection: usize) -> (r: RestoreAction)
    ensures
        r == if !occupied {
            RestoreAction::Proceed
        } else if selection == 0 {
            RestoreAction::Overwrite
        } else if selection == 1 {
            RestoreAction::Skip
        } else if selection == 2 {
            RestoreAction::Rename
        } else {
            RestoreAction::Cancel
        },
{
    if !occupied {
        RestoreAction::Proceed
    } else if selection == 0 {
        RestoreAction::Overwrite
    } else if selection == 1 {
        RestoreAction::Skip
    } else if selection == 2 {
        RestoreAction::Rename
    } else {
        RestoreAction::Cancel
    }
}

/// The extension of `original` with the dot before it, or nothing.
pub open spec fn dotted_extension(original: Seq<char>) -> Seq<char> {
    match extension_spec(original) {
        Some(ext) => "."@ + ext,
        None => Seq::empty(),
    }
}

/// The `counter`-th sibling of `original`: its file name with
/// `_restored_` and the counter put before the extension. A path without
/// a file name gets an extension made of `restored_` and the counter.
pub open spec fn restore_candidate(original: Seq<char>, counter: nat) -> Seq<char> {
    match file_stem_spec(original) {
        Some(stem) => with_file_name_spec(
            original,
            stem + "_restored_"@ + decimal(counter) + dotted_extension(original),
        ),
        None => with_extension_spec(original, "restored_"@ + decimal(counter)),
    }
}

/// The `counter`-th sibling of `original`.
pub fn candidate(original: &str, counter: u128) -> (r: String)
    ensures
        r@ == restore_candidate(original@, counter as nat),
{
    let number = text::u128_to_text(counter);
    match paths::file_stem(original) {
        Some(stem) => {
            let mut name = stem;
            name.append("_restored_");
            name.append(number.as_str());
            match paths::extension(original) {
                Some(ext) => {
                    name.append(".");
                    name.append(ext.as_str());
                    assert(name@ =~= file_stem_spec(original@)->0 + "_restored_"@ + decimal(
                        counter as nat,
                    ) + dotted_extension(original@));
                },
                None => {
                    assert(name@ =~= file_stem_spec(original@)->0 + "_restored_"@ + decimal(
                        counter as nat,
                    ) + dotted_extension(original@));
                },
            }
            paths::with_file_name(original, name.as_str())
        },
        None => {
            let ext = text::concat("restored_", number.as_str());
            paths::with_extension(original, ext.as_str())
        },
    }
}

/// Whether `path` is the first sibling of `original` that is not among
/// `taken`, the siblings being tried in the order of their counters from
/// one on.
pub open spec fn first_free(original: Seq<char>, taken: Seq<Seq<char>>, path: Seq<char>) -> bool {
    exists|k: nat|
        1 <= k && path == #[trigger] restore_candidate(original, k) && !taken.contains(path)
            && forall|j: nat| 1 <= j < k ==> taken.contains(#[trigger] restore_candidate(original, j))
}

/// The name of the `counter`-th sibling of a path with the file stem
/// `stem` and the dotted extension `ending`.
pub open spec fn sibling_name(stem: Seq<char>, counter: nat, ending: Seq<char>) -> Seq<char> {
    stem + "_restored_"@ + decimal(counter) + ending
}

proof fn lemma_same_numeral(
    head: Seq<char>,
    a: Seq<char>,
    b: Seq<char>,
    tail: Seq<char>,
)
    requires
        head + a + tail == head + b + tail,
    ensures
        a == b,
{
    let x = head + a + tail;
    let y = head + b + tail;
    assert(x.len() == y.len());
    assert(a.len() == b.len());
    assert forall|i: int| 0 <= i < a.len() implies a[i] == b[i] by {
        assert(x[head.len() + i] == a[i]);
        assert(y[head.len() + i] == b[i]);
    }
    assert(a =~= b);
}

/// The siblings of a path that has a file name differ from one another.
pub proof fn lemma_siblings_differ(original: Seq<char>, j: nat, k: nat)
    requires
        file_stem_spec(original) is Some,
        restore_candidate(original, j) == restore_candidate(original, k),
    ensures
        j == k,
{
    let stem = file_stem_spec(original)->0;
    let ending = dotted_extension(original);
    let nj = sibling_name(stem, j, ending);
    let nk = sibling_name(stem, k, ending);
    // The stem is not empty, so both names begin with its first character.
    let name = file_name_spec(original)->0;
    assert(name.len() > 0);
    assert(stem.len() > 0) by {
        crate::paths::lemma_extension_cut(name);
    }
    assert(nj[0] == stem[0] && nk[0] == stem[0]);
    let base = match (file_name_spec(original), parent_spec(original)) {
        (Some(_), Some(dir)) => dir,
        _ => original,
    };
    assert(restore_candidate(original, j) == join_spec(base, nj));
    assert(restore_candidate(original, k) == join_spec(base, nk));
    let lead: Seq<char> = if stem[0] == '/' {
        Seq::empty()
    } else if base.len() == 0 || base.last() == '/' {
        base
    } else {
        base + seq!['/']
    };
    assert(join_spec(base, nj) =~= lead + nj);
    assert(join_spec(base, nk) =~= lead + nk);
    let head = lead + stem + "_restored_"@;
    assert(lead + nj =~= head + decimal(j) + ending);
    assert(lead + nk =~= head + decimal(k) + ending);
    lemma_same_numeral(head, decimal(j), decimal(k), ending);
    lemma_decimal_round_trip(j);
    lemma_decimal_round_trip(k);
}

/// Among one more values of a sequence of distinct values than `taken`
/// has entries, one is not among `taken`.
proof fn lemma_one_is_free(taken: Seq<Seq<char>>, original: Seq<char>)
    requires
        file_stem_spec(original) is Some,
    ensures
        exists|k: nat|
            1 <= k <= taken.len() + 1 && !taken.contains(#[trigger] restore_candidate(original, k)),
    decreases taken.len(),
{
    let n = taken.len();
    if forall|k: nat|
        1 <= k <= n + 1 ==> taken.contains(#[trigger] restore_candidate(original, k)) {
        let last = restore_candidate(original, (n + 1) as nat);
        assert(taken.contains(last));
        let i = choose|i: int| 0 <= i < taken.len() && taken[i] == last;
        let rest = taken.remove(i);
        lemma_one_is_free(rest, original);
        let k = choose|k: nat|
            1 <= k <= rest.len() + 1 && !rest.contains(#[trigger] restore_candidate(original, k));
        let free = restore_candidate(original, k);
        assert(taken.contains(free));
        let j = choose|j: int| 0 <= j < taken.len() && taken[j] == free;
        if j == i {
            lemma_siblings_differ(original, k, (n + 1) as nat);
        } else if j < i {
            assert(rest[j] == free);
        } else {
            assert(rest[j - 1] == free);
        }
        assert(false);
    }
}

/// A path with a file name always has a free sibling: whatever paths are
/// in use, one of the first siblings, one more than there are paths in
/// use, is not among them.
pub proof fn law_a_free_sibling_exists(original: Seq<char>, taken: Seq<Seq<char>>)
    requires
        file_stem_spec(original) is Some,
    ensures
        exists|k: nat|
            1 <= k <= taken.len() + 1 && !taken.contains(#[trigger] restore_candidate(original, k)),
{
    lemma_one_is_free(taken, original);
}

/// A path beside `original` that is not among `taken`, the paths in use:
/// the sibling with the lowest counter that is free. A path with a file
/// name always has one. `None` is returned where each of the first
/// `taken.len() + 1` siblings is in use, which can only be for a path
/// without a file name, whose siblings do not differ.
pub fn generate_safe_restore_path(original: &str, taken: &Vec<String>) -> (r: Option<String>)
    ensures
        match r {
            Some(path) => first_free(original@, texts(taken@), path@),
            None => forall|j: nat|
                1 <= j <= taken.len() + 1 ==> texts(taken@).contains(
                    #[trigger] restore_candidate(original@, j),
                ),
        },
        file_stem_spec(original@) is Some ==> r is Some,
{
    let mut counter: u128 = 1;
    let mut tried: usize = 0;
    loop
        invariant
            tried <= taken.len(),
            counter == tried + 1,
            forall|j: nat|
                1 <= j < counter ==> texts(taken@).contains(
                    #[trigger] restore_candidate(original@, j),
                ),
        decreases taken.len() - tried,
    {
        let new_path = candidate(original, counter);
        if !crate::domain::file_meta::has_text(taken, new_path.as_str()) {
            assert(first_free(original@, texts(taken@), new_path@)) by {
                assert(new_path@ == restore_candidate(original@, counter as nat));
            }
            return Some(new_path);
        }
        if tried == taken.len() {
            proof {
                if file_stem_spec(original@) is Some {
                    law_a_free_sibling_exists(original@, texts(taken@));
                }
            }
            return None;
        }
        tried += 1;
        counter += 1;
    }
}

/// What becomes of an item whose restore target is `destination`, once
/// the action for the target is chosen. Overwriting and proceeding restore
/// to the target itself, renaming to the first free sibling of it; a
/// target without a file name, which has no free sibling, is skipped.
/// Skipping and cancelling restore nothing.
pub fn resolve_conflict(action: RestoreAction, destination: &str, taken: &Vec<String>) -> (r:
    Resolution)
    ensures
        match action {
            RestoreAction::Overwrite | RestoreAction::Proceed => r matches Resolution::Restore {
                destination: d,
            } && d@ == destination@,
            RestoreAction::Skip => r == Resolution::Skip,
            RestoreAction::Cancel => r == Resolution::Cancel,
            RestoreAction::Rename => match r {
                Resolution::Restore { destination: d } => first_free(
                    destination@,
                    texts(taken@),
                    d@,
                ),
                Resolution::Skip => file_stem_spec(destination@) is None && forall|j: nat|
                    1 <= j <= taken.len() + 1 ==> texts(taken@).contains(
                        #[trigger] restore_candidate(destination@, j),
                    ),
                Resolution::Cancel => false,
            },
        },
{
    match action {
        RestoreAction::Overwrite | RestoreAction::Proceed => Resolution::Restore {
            destination: destination.to_owned(),
        },
        RestoreAction::Skip => Resolution::Skip,
        RestoreAction::Cancel => Resolution::Cancel,
        RestoreAction::Rename => match generate_safe_restore_path(destination, taken) {
            Some(path) => Resolution::Restore { destination: path },
            None => Resolution::Skip,
        },
    }
}

} // verus!
