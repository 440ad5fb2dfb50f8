//! Selecting one held item by its identifier, or by a prefix of it that
//! no other held item shares.

use crate::domain::trash_item::{TrashItem, TrashItemView};
use crate::errors::RmzError;
use crate::ids::{format_id, id_text};
use crate::infra::trash_store::item_views;
use crate::text;
use vstd::prelude::*;

verus! {

/// Whether the text of the identifier of `item` begins with `prefix`.
pub open spec fn has_id_prefix(item: TrashItemView, prefix: Seq<char>) -> bool {
    prefix.is_prefix_of(id_text(item.meta.id))
}

/// The identifiers of the items whose text begins with `prefix`, in the
/// order of `items`.
pub open spec fn ids_with_prefix(items: Seq<TrashItemView>, prefix: Seq<char>) -> Seq<u128>
    decreases items.len(),
{
    if items.len() == 0 {
        Seq::empty()
    } else {
        let rest = ids_with_prefix(items.drop_last(), prefix);
        if has_id_prefix(items.last(), prefix) {
            rest.push(items.last().meta.id)
        } else {
            rest
        }
    }
}

/// Whether `r` is the outcome of looking for the one item among
/// `candidates`: the identifier where there is exactly one, `NoMatch` with
/// the query where there is none, and `AmbiguousIdentifier` with the query
/// and every candidate where there are more.
pub open spec fn picks_one(r: Result<u128, RmzError>, candidates: Seq<u128>, query: Seq<char>) -> bool {
    if candidates.len() == 1 {
        r == Ok::<u128, RmzError>(candidates[0])
    } else if candidates.len() == 0 {
        r matches Err(RmzError::NoMatch { query: q }) && q@ == query
    } else {
        r matches Err(RmzError::AmbiguousIdentifier { prefix, candidates: listed }) && prefix@
            == query && listed@ == candidates
    }
}

/// The identifiers of the items whose text begins with `prefix`.
pub fn ids_matching(items: &Vec<TrashItem>, prefix: &str) -> (r: Vec<u128>)
    ensures
        r@ == ids_with_prefix(item_views(items@), prefix@),
{
    let mut found: Vec<u128> = Vec::new();
    let mut i: usize = 0;
    assert(item_views(items@).take(0) =~= Seq::<TrashItemView>::empty());
    while i < items.len()
        invariant
            i <= items.len(),
            found@ == ids_with_prefix(item_views(items@).take(i as int), prefix@),
        decreases items.len() - i,
    {
        proof {
            let before = item_views(items@).take(i as int);
            let after = item_views(items@).take(i + 1);
            assert(after.drop_last() =~= before);
            assert(after.last() == items@[i as int]@);
        }
        let id_string = format_id(items[i].meta.id);
        if text::starts_with(id_string.as_str(), prefix) {
            found.push(items[i].meta.id);
        }
        i += 1;
    }
    assert(item_views(items@).take(items.len() as int) =~= item_views(items@));
    found
}

/// The one item whose identifier begins with `prefix`. A prefix that more
/// than one item shares is an error that lists them all; none is picked.
pub fn resolve_prefix(items: &Vec<TrashItem>, prefix: &str, query: &str) -> (r: Result<
    u128,
    RmzError,
>)
    ensures
        picks_one(r, ids_with_prefix(item_views(items@), prefix@), query@),
{
    let found = ids_matching(items, prefix);
    if found.len() == 1 {
        Ok(found[0])
    } else if found.len() == 0 {
        Err(RmzError::NoMatch { query: query.to_owned() })
    } else {
        Err(RmzError::AmbiguousIdentifier { prefix: query.to_owned(), candidates: found })
    }
}

/// Every item whose identifier begins with the prefix is among the
/// candidates.
pub proof fn lemma_candidates(items: Seq<TrashItemView>, prefix: Seq<char>, i: int)
    requires
        0 <= i < items.len(),
        has_id_prefix(items[i], prefix),
    ensures
        ids_with_prefix(items, prefix).contains(items[i].meta.id),
        ids_with_prefix(items, prefix).len() >= 1,
    decreases items.len(),
{
    let rest = ids_with_prefix(items.drop_last(), prefix);
    if i == items.len() - 1 {
        assert(rest.push(items.last().meta.id)[rest.len() as int] == items[i].meta.id);
    } else {
        lemma_candidates(items.drop_last(), prefix, i);
        let k = choose|k: int| 0 <= k < rest.len() && rest[k] == items[i].meta.id;
        if has_id_prefix(items.last(), prefix) {
            assert(rest.push(items.last().meta.id)[k] == items[i].meta.id);
        }
    }
}

/// The candidates number at least as many as the matching items before
/// any given position.
proof fn lemma_candidates_grow(items: Seq<TrashItemView>, prefix: Seq<char>, n: int)
    requires
        0 <= n <= items.len(),
    ensures
        ids_with_prefix(items.take(n), prefix).len() <= ids_with_prefix(items, prefix).len(),
    decreases items.len() - n,
{
    if n < items.len() {
        lemma_candidates_grow(items, prefix, n + 1);
        assert(items.take(n + 1).drop_last() =~= items.take(n));
    } else {
        assert(items.take(n) =~= items);
    }
}

/// A prefix shared by two held items selects neither: the outcome is
/// `AmbiguousIdentifier`, and both identifiers are among its candidates.
pub proof fn law_shared_prefix_is_ambiguous(
    items: Seq<TrashItemView>,
    prefix: Seq<char>,
    query: Seq<char>,
    i: int,
    j: int,
    r: Result<u128, RmzError>,
)
    requires
        0 <= i < j < items.len(),
        has_id_prefix(items[i], prefix),
        has_id_prefix(items[j], prefix),
        picks_one(r, ids_with_prefix(items, prefix), query),
    ensures
        r matches Err(RmzError::AmbiguousIdentifier { candidates, .. }) && candidates@.contains(
            items[i].meta.id,
        ) && candidates@.contains(items[j].meta.id),
{
    lemma_candidates(items, prefix, i);
    lemma_candidates(items, prefix, j);
    // Up to and with position `j` there are two candidates already.
    let upto = items.take(j + 1);
    assert(upto.drop_last() =~= items.take(j));
    assert(upto.last() == items[j]);
    assert(items.take(j)[i] == items[i]);
    lemma_candidates(items.take(j), prefix, i);
    lemma_candidates_grow(items, prefix, j + 1);
}

} // verus!
