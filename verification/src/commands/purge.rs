//! Purging: which held items a purge removes for good.
//!
//! The policies are layered on the engine's listing: everything, by age,
//! by size, by identifier, or picked one by one.

use crate::domain::timestamp::{Timestamp, NANOS_PER_SEC, SECS_PER_DAY};
use crate::domain::trash_item::{TrashItem, TrashItemView};
use crate::errors::RmzError;
use crate::commands::identity::{ids_with_prefix, picks_one, resolve_prefix};
use crate::ids::{parse_id, parsed_id};
use crate::infra::trash_store::item_views;
use crate::text::{self, decimal, lowercase};
use vstd::prelude::*;

verus! {

/// What a purge was asked to remove.
#[derive(Debug, PartialEq, Eq)]
pub enum PurgeRequest {
    /// Every held item.
    All,
    /// The items held for more than `days` days.
    OlderThan { days: u32 },
    /// The oldest items, until the zone is no larger than `limit`.
    OverSize { limit: String },
    /// The item with this identifier, or with this prefix of one.
    ById { id: String },
    /// The items that the user picks one by one.
    Interactive,
}

/// What a `PurgeRequest` holds, as mathematical values.
pub enum PurgeRequestView {
    All,
    OlderThan { days: u32 },
    OverSize { limit: Seq<char> },
    ById { id: Seq<char> },
    Interactive,
}

impl View for PurgeRequest {
    type V = PurgeRequestView;

    open spec fn view(&self) -> PurgeRequestView {
        match self {
            PurgeRequest::All => PurgeRequestView::All,
            PurgeRequest::OlderThan { days } => PurgeRequestView::OlderThan { days: *days },
            PurgeRequest::OverSize { limit } => PurgeRequestView::OverSize { limit: limit@ },
            PurgeRequest::ById { id } => PurgeRequestView::ById { id: id@ },
            PurgeRequest::Interactive => PurgeRequestView::Interactive,
        }
    }
}

/// Decides what a purge removes from the options given: `all` comes before
/// `days`, `days` before `size`, `size` before `id`; with none of them the
/// user picks.
pub fn execute(all: bool, days: Option<u32>, size: Option<String>, id: Option<String>) -> (r:
    PurgeRequest)
    ensures
        r@ == if all {
            PurgeRequestView::All
        } else if let Some(d) = days {
            PurgeRequestView::OlderThan { days: d }
        } else if let Some(s) = size {
            PurgeRequestView::OverSize { limit: s@ }
        } else if let Some(i) = id {
            PurgeRequestView::ById { id: i@ }
        } else {
            PurgeRequestView::Interactive
        },
{
    if all {
        PurgeRequest::All
    } else if let Some(d) = days {
        PurgeRequest::OlderThan { days: d }
    } else if let Some(s) = size {
        PurgeRequest::OverSize { limit: s }
    } else if let Some(i) = id {
        PurgeRequest::ById { id: i }
    } else {
        PurgeRequest::Interactive
    }
}

/// A copy of a list of items.
pub fn clone_items(items: &Vec<TrashItem>) -> (r: Vec<TrashItem>)
    ensures
        item_views(r@) == item_views(items@),
{
    let mut r: Vec<TrashItem> = Vec::new();
    let mut i: usize = 0;
    while i < items.len()
        invariant
            i <= items.len(),
            r.len() == i,
            forall|j: int| 0 <= j < i ==> r@[j]@ == items@[j]@,
        decreases items.len() - i,
    {
        r.push(items[i].clone());
        i += 1;
    }
    assert(item_views(r@) =~= item_views(items@));
    r
}

/// Purging everything selects every held item, in the order listed.
pub fn purge_all(items: &Vec<TrashItem>) -> (r: Vec<TrashItem>)
    ensures
        item_views(r@) == item_views(items@),
{
    clone_items(items)
}

/// The moment `days` days before `now`, in nanoseconds since
/// 1970-01-01T00:00:00Z.
pub open spec fn cutoff(now: int, days: u32) -> int {
    now - days * SECS_PER_DAY * NANOS_PER_SEC
}

/// The items of `items` that were held before `limit`, in their order.
pub open spec fn held_before(items: Seq<TrashItemView>, limit: int) -> Seq<TrashItemView>
    decreases items.len(),
{
    if items.len() == 0 {
        items
    } else if items.last().meta.deleted_at < limit {
        held_before(items.drop_last(), limit).push(items.last())
    } else {
        held_before(items.drop_last(), limit)
    }
}

/// Purging by age selects the items held more than `days` days before
/// `now`, in the order listed.
pub fn purge_by_age(items: &Vec<TrashItem>, now: &Timestamp, days: u32) -> (r: Vec<TrashItem>)
    ensures
        item_views(r@) == held_before(item_views(items@), cutoff(now@, days)),
{
    let ghost bound = cutoff(now@, days);
    let mut old_items: Vec<TrashItem> = Vec::new();
    let mut i: usize = 0;
    assert(item_views(items@).take(0) =~= Seq::<TrashItemView>::empty());
    assert(item_views(old_items@) =~= Seq::<TrashItemView>::empty());
    while i < items.len()
        invariant
            i <= items.len(),
            bound == cutoff(now@, days),
            item_views(old_items@) == held_before(item_views(items@).take(i as int), bound),
        decreases items.len() - i,
    {
        proof {
            let before = item_views(items@).take(i as int);
            let after = item_views(items@).take(i + 1);
            assert(after.drop_last() =~= before);
            assert(after.last() == items@[i as int]@);
        }
        if items[i].meta.deleted_at.is_older_than(now, days) {
            let ghost shown = item_views(old_items@);
            old_items.push(items[i].clone());
            assert(item_views(old_items@) =~= shown.push(items@[i as int]@));
        }
        i += 1;
    }
    assert(item_views(items@).take(items.len() as int) =~= item_views(items@));
    old_items
}

/// A held item with the size that its physical file has on the disk.
#[derive(Debug, PartialEq, Eq)]
pub struct SizedItem {
    pub item: TrashItem,
    pub size: u64,
}

/// What a `SizedItem` holds, as mathematical values.
pub struct SizedItemView {
    pub item: TrashItemView,
    pub size: u64,
}

impl View for SizedItem {
    type V = SizedItemView;

    open spec fn view(&self) -> SizedItemView {
        SizedItemView { item: self.item@, size: self.size }
    }
}

/// The views of a list of sized items.
pub open spec fn sized_views(items: Seq<SizedItem>) -> Seq<SizedItemView> {
    items.map_values(|s: SizedItem| s@)
}

/// The sum of the sizes of `items`.
pub open spec fn total_size(items: Seq<SizedItemView>) -> nat
    decreases items.len(),
{
    if items.len() == 0 {
        0
    } else {
        total_size(items.drop_last()) + items.last().size as nat
    }
}

/// `sorted` with `x` inserted behind every item that is not newer than it.
pub open spec fn insert_by_time(sorted: Seq<SizedItemView>, x: SizedItemView) -> Seq<
    SizedItemView,
>
    decreases sorted.len(),
{
    if sorted.len() == 0 {
        seq![x]
    } else if sorted.last().item.meta.deleted_at <= x.item.meta.deleted_at {
        sorted.push(x)
    } else {
        insert_by_time(sorted.drop_last(), x).push(sorted.last())
    }
}

/// `items` ordered from the oldest to the newest; items of the same age
/// keep the order they had.
pub open spec fn oldest_first(items: Seq<SizedItemView>) -> Seq<SizedItemView>
    decreases items.len(),
{
    if items.len() == 0 {
        items
    } else {
        insert_by_time(oldest_first(items.drop_last()), items.last())
    }
}

/// Whether the first `n` items of `sorted` are the smallest beginning of
/// `sorted`, of one item at least, whose sizes add up to `excess` or more.
pub open spec fn is_cut(sorted: Seq<SizedItemView>, excess: int, n: int) -> bool {
    &&& 1 <= n <= sorted.len()
    &&& total_size(sorted.take(n)) >= excess
    &&& forall|m: int| 1 <= m < n ==> total_size(#[trigger] sorted.take(m)) < excess
}

/// What a purge by size selects: nothing where the items fit into
/// `target` bytes; else the oldest items, as few as bring the total of
/// the remaining ones to `target` or below.
pub open spec fn selected_by_size(
    items: Seq<SizedItemView>,
    target: u64,
    selection: Seq<SizedItemView>,
) -> bool {
    if total_size(items) <= target {
        selection.len() == 0
    } else {
        &&& is_cut(oldest_first(items), total_size(items) - target, selection.len() as int)
        &&& selection == oldest_first(items).take(selection.len() as int)
    }
}

proof fn lemma_total_bound(items: Seq<SizedItemView>)
    ensures
        total_size(items) <= items.len() * u64::MAX,
    decreases items.len(),
{
    if items.len() > 0 {
        lemma_total_bound(items.drop_last());
        assert((items.len() - 1) * u64::MAX + u64::MAX == items.len() * u64::MAX)
            by (nonlinear_arith);
    }
}

/// Ordering by time rearranges the items and loses none.
pub proof fn lemma_insert_by_time(sorted: Seq<SizedItemView>, x: SizedItemView)
    ensures
        insert_by_time(sorted, x).len() == sorted.len() + 1,
        total_size(insert_by_time(sorted, x)) == total_size(sorted) + x.size,
        insert_by_time(sorted, x).to_multiset() == sorted.to_multiset().insert(x),
    decreases sorted.len(),
{
    broadcast use vstd::seq_lib::group_to_multiset_ensures;

    if sorted.len() == 0 {
        assert(seq![x].drop_last() =~= Seq::<SizedItemView>::empty());
        assert(seq![x] =~= Seq::<SizedItemView>::empty().push(x));
        assert(seq![x].last() == x);
        assert(total_size(seq![x]) == total_size(seq![x].drop_last()) + x.size);
    } else if sorted.last().item.meta.deleted_at <= x.item.meta.deleted_at {
        assert(sorted.push(x).drop_last() =~= sorted);
        assert(sorted.push(x).last() == x);
    } else {
        lemma_insert_by_time(sorted.drop_last(), x);
        let inner = insert_by_time(sorted.drop_last(), x);
        let out = inner.push(sorted.last());
        assert(out.drop_last() =~= inner);
        assert(out.last() == sorted.last());
        assert(total_size(out) == total_size(inner) + sorted.last().size);
        assert(sorted =~= sorted.drop_last().push(sorted.last()));
    }
}

/// Ordering from the oldest to the newest keeps the length, the total size
/// and the items.
pub proof fn lemma_oldest_first(items: Seq<SizedItemView>)
    ensures
        oldest_first(items).len() == items.len(),
        total_size(oldest_first(items)) == total_size(items),
        oldest_first(items).to_multiset() == items.to_multiset(),
    decreases items.len(),
{
    broadcast use vstd::seq_lib::group_to_multiset_ensures;

    if items.len() > 0 {
        lemma_oldest_first(items.drop_last());
        lemma_insert_by_time(oldest_first(items.drop_last()), items.last());
        assert(items =~= items.drop_last().push(items.last()));
    }
}

fn insert_sized(sorted: &mut Vec<SizedItem>, x: SizedItem)
    ensures
        sized_views(final(sorted)@) == insert_by_time(sized_views(old(sorted)@), x@),
{
    let ghost start = sized_views(sorted@);
    let mut at: usize = sorted.len();
    assert(start.take(at as int) =~= start);
    while at > 0 && x.item.meta.deleted_at.is_before(&sorted[at - 1].item.meta.deleted_at)
        invariant
            at <= sorted.len(),
            sized_views(sorted@) == start,
            insert_by_time(start, x@) == insert_by_time(start.take(at as int), x@) + start.skip(
                at as int,
            ),
        decreases at,
    {
        proof {
            let head = start.take(at as int);
            assert(head.drop_last() =~= start.take(at - 1));
            assert(head.last() == start[at - 1]);
            assert(insert_by_time(head.drop_last(), x@).push(head.last()) + start.skip(at as int)
                =~= insert_by_time(head.drop_last(), x@) + start.skip(at - 1));
        }
        at -= 1;
    }
    proof {
        let head = start.take(at as int);
        if at > 0 {
            assert(head.last() == start[at - 1]);
        }
        assert(insert_by_time(head, x@) == head.push(x@)) by {
            if head.len() == 0 {
                assert(head.push(x@) =~= seq![x@]);
            }
        }
    }
    sorted.insert(at, x);
    assert(sized_views(sorted@) =~= start.take(at as int).push(x@) + start.skip(at as int));
}

/// Purging by size selects nothing where the items fit into `target_bytes`;
/// else the oldest items, as few as bring what remains to `target_bytes`
/// or below.
pub fn purge_by_size(items: Vec<SizedItem>, target_bytes: u64) -> (r: Vec<SizedItem>)
    ensures
        selected_by_size(sized_views(items@), target_bytes, sized_views(r@)),
{
    let ghost all = sized_views(items@);
    // The total size, and the items from the oldest to the newest.
    let mut total: u128 = 0;
    let mut sorted: Vec<SizedItem> = Vec::new();
    let mut rest = items;
    let mut i: usize = 0;
    assert(all.take(0) =~= Seq::<SizedItemView>::empty());
    assert(sized_views(sorted@) =~= Seq::<SizedItemView>::empty());
    let n = rest.len();
    assert(all.len() == n);
    // Take the items from the end, so that each can be moved out.
    let mut taken: Vec<SizedItem> = Vec::new();
    while rest.len() > 0
        invariant
            sized_views(rest@) + sized_views(taken@).reverse() == all,
        decreases rest.len(),
    {
        let ghost before_rest = sized_views(rest@);
        let ghost before_taken = sized_views(taken@);
        let x = rest.pop().unwrap();
        taken.push(x);
        assert(sized_views(rest@) =~= before_rest.drop_last());
        assert(sized_views(taken@) =~= before_taken.push(before_rest.last()));
        assert(sized_views(taken@).reverse() =~= seq![before_rest.last()]
            + before_taken.reverse());
        assert(sized_views(rest@) + sized_views(taken@).reverse() =~= before_rest
            + before_taken.reverse());
    }
    assert(sized_views(taken@).reverse() =~= all);
    while taken.len() > 0
        invariant
            i + taken.len() == all.len(),
            all.len() == n,
            sized_views(taken@).reverse() == all.skip(i as int),
            sized_views(sorted@) == oldest_first(all.take(i as int)),
            total == total_size(all.take(i as int)),
        decreases taken.len(),
    {
        let ghost before_taken = sized_views(taken@);
        let x = taken.pop().unwrap();
        proof {
            assert(sized_views(taken@) =~= before_taken.drop_last());
            assert(x@ == before_taken.last());
            assert(before_taken.last() == before_taken.reverse()[0]);
            assert(x@ == all[i as int]);
            let before = all.take(i as int);
            let after = all.take(i + 1);
            assert(after.drop_last() =~= before);
            assert(after.last() == all[i as int]);
            lemma_total_bound(after);
            assert(after.len() * u64::MAX <= usize::MAX * u64::MAX) by (nonlinear_arith)
                requires
                    after.len() <= usize::MAX,
            ;
            assert(usize::MAX * u64::MAX < u128::MAX) by (nonlinear_arith)
                requires
                    usize::MAX <= u64::MAX,
            ;
            assert(sized_views(taken@).reverse() =~= all.skip(i + 1)) by {
                assert(before_taken.drop_last().reverse() =~= before_taken.reverse().drop_first());
            }
        }
        total = total + x.size as u128;
        insert_sized(&mut sorted, x);
        i += 1;
    }
    proof {
        assert(all.take(all.len() as int) =~= all);
        lemma_oldest_first(all);
    }
    let mut to_purge: Vec<SizedItem> = Vec::new();
    if total <= target_bytes as u128 {
        assert(sized_views(to_purge@) =~= Seq::<SizedItemView>::empty());
        return to_purge;
    }
    let excess: u128 = total - target_bytes as u128;
    let ghost order = sized_views(sorted@);
    let mut purge_size: u128 = 0;
    let mut k: usize = 0;
    // Reverse once more, to move the items out from the oldest on.
    let mut queue: Vec<SizedItem> = Vec::new();
    while sorted.len() > 0
        invariant
            sized_views(sorted@) + sized_views(queue@).reverse() == order,
        decreases sorted.len(),
    {
        let ghost before_sorted = sized_views(sorted@);
        let ghost before_queue = sized_views(queue@);
        let x = sorted.pop().unwrap();
        queue.push(x);
        assert(sized_views(sorted@) =~= before_sorted.drop_last());
        assert(sized_views(queue@) =~= before_queue.push(before_sorted.last()));
        assert(sized_views(queue@).reverse() =~= seq![before_sorted.last()]
            + before_queue.reverse());
        assert(sized_views(sorted@) + sized_views(queue@).reverse() =~= before_sorted
            + before_queue.reverse());
    }
    assert(sized_views(queue@).reverse() =~= order);
    assert(order.take(0) =~= Seq::<SizedItemView>::empty());
    assert(sized_views(to_purge@) =~= order.take(0));
    while queue.len() > 0 && purge_size < excess
        invariant
            k + queue.len() == order.len(),
            order.len() == n,
            excess >= 1,
            excess <= total_size(order),
            sized_views(queue@).reverse() == order.skip(k as int),
            sized_views(to_purge@) == order.take(k as int),
            purge_size == total_size(order.take(k as int)),
            forall|m: int| 1 <= m <= k ==> (m < k ==> total_size(#[trigger] order.take(m))
                < excess),
            k > 0 ==> total_size(order.take(k - 1)) < excess,
        decreases queue.len(),
    {
        let ghost before_queue = sized_views(queue@);
        let ghost shown = sized_views(to_purge@);
        let x = queue.pop().unwrap();
        proof {
            assert(sized_views(queue@) =~= before_queue.drop_last());
            assert(x@ == before_queue.last());
            assert(before_queue.last() == before_queue.reverse()[0]);
            assert(x@ == order[k as int]);
            let after = order.take(k + 1);
            assert(after.drop_last() =~= order.take(k as int));
            assert(after.last() == order[k as int]);
            lemma_total_bound(after);
            assert(after.len() * u64::MAX <= usize::MAX * u64::MAX) by (nonlinear_arith)
                requires
                    after.len() <= usize::MAX,
            ;
            assert(usize::MAX * u64::MAX < u128::MAX) by (nonlinear_arith)
                requires
                    usize::MAX <= u64::MAX,
            ;
            assert(sized_views(queue@).reverse() =~= order.skip(k + 1)) by {
                assert(before_queue.drop_last().reverse() =~= before_queue.reverse().drop_first());
            }
        }
        purge_size = purge_size + x.size as u128;
        to_purge.push(x);
        assert(sized_views(to_purge@) =~= shown.push(order[k as int]));
        assert(shown.push(order[k as int]) =~= order.take(k + 1));
        k += 1;
    }
    proof {
        if purge_size < excess {
            assert(queue.len() == 0);
            assert(order.take(k as int) =~= order);
        }
        assert(k >= 1);
    }
    to_purge
}

/// The oldest items go first: what a purge by size selects is a beginning
/// of the items in the order of their age; what remains after it is at or
/// below the target; and after any shorter beginning more than the target
/// would remain.
pub proof fn law_size_selection_is_minimal(
    items: Seq<SizedItemView>,
    target: u64,
    selection: Seq<SizedItemView>,
)
    requires
        selected_by_size(items, target, selection),
        total_size(items) > target,
    ensures
        selection.is_prefix_of(oldest_first(items)),
        selection.len() >= 1,
        total_size(items) - total_size(selection) <= target,
        forall|m: int|
            0 <= m < selection.len() ==> total_size(items) - total_size(
                #[trigger] oldest_first(items).take(m),
            ) > target,
        forall|a: int, b: int|
            0 <= a <= b < items.len() ==> oldest_first(items)[a].item.meta.deleted_at
                <= oldest_first(items)[b].item.meta.deleted_at,
{
    lemma_oldest_first(items);
    lemma_oldest_first_ascends(items);
    let order = oldest_first(items);
    assert forall|m: int| 0 <= m < selection.len() implies total_size(items) - total_size(
        #[trigger] order.take(m),
    ) > target by {
        if m == 0 {
            assert(order.take(0) =~= Seq::<SizedItemView>::empty());
        }
    }
}

/// Whether each item of `items` is at least as old as the next.
pub open spec fn ascends(items: Seq<SizedItemView>) -> bool {
    forall|a: int, b: int|
        0 <= a <= b < items.len() ==> items[a].item.meta.deleted_at
            <= items[b].item.meta.deleted_at
}

proof fn lemma_insert_by_time_ascends(sorted: Seq<SizedItemView>, x: SizedItemView)
    requires
        ascends(sorted),
    ensures
        ascends(insert_by_time(sorted, x)),
    decreases sorted.len(),
{
    broadcast use vstd::seq_lib::group_to_multiset_ensures;

    if sorted.len() == 0 {
    } else if sorted.last().item.meta.deleted_at <= x.item.meta.deleted_at {
    } else {
        let head = sorted.drop_last();
        assert(ascends(head)) by {
            assert forall|a: int, b: int| 0 <= a <= b < head.len() implies head[a].item.meta.deleted_at
                <= head[b].item.meta.deleted_at by {
                assert(head[a] == sorted[a] && head[b] == sorted[b]);
            }
        }
        lemma_insert_by_time_ascends(head, x);
        lemma_insert_by_time(head, x);
        let inner = insert_by_time(head, x);
        let out = inner.push(sorted.last());
        assert forall|y: SizedItemView| inner.contains(y) implies y.item.meta.deleted_at
            <= sorted.last().item.meta.deleted_at by {
            assert(inner.to_multiset().count(y) > 0);
            if y != x {
                assert(head.to_multiset().count(y) > 0);
                assert(head.contains(y));
                let k = choose|k: int| 0 <= k < head.len() && head[k] == y;
                assert(sorted[k] == y);
            }
        }
        assert forall|a: int, b: int| 0 <= a <= b < out.len() implies out[a].item.meta.deleted_at
            <= out[b].item.meta.deleted_at by {
            if b == out.len() - 1 && a < b {
                assert(inner.contains(inner[a]));
            }
        }
    }
}

/// The order from the oldest to the newest ascends in age.
pub proof fn lemma_oldest_first_ascends(items: Seq<SizedItemView>)
    ensures
        ascends(oldest_first(items)),
    decreases items.len(),
{
    if items.len() > 0 {
        lemma_oldest_first_ascends(items.drop_last());
        lemma_insert_by_time_ascends(oldest_first(items.drop_last()), items.last());
    }
}

/// Whether `r` is the identifier that the text `id_str` selects among
/// `items`: the identifier that the text denotes in full, where it denotes
/// one; else the one item whose identifier begins with the lowercase form
/// of the text. `NoIdPrefix` with the text where no identifier begins so,
/// `AmbiguousIdentifier` with the text and all of them where several do.
pub open spec fn selects(
    r: Result<u128, RmzError>,
    items: Seq<TrashItemView>,
    parsed: Option<u128>,
    lowered: Seq<char>,
    id_str: Seq<char>,
) -> bool {
    match parsed {
        Some(id) => r == Ok::<u128, RmzError>(id),
        None => {
            let candidates = ids_with_prefix(items, lowered);
            if candidates.len() == 0 {
                r matches Err(RmzError::NoIdPrefix { prefix }) && prefix@ == id_str
            } else {
                picks_one(r, candidates, id_str)
            }
        },
    }
}

/// The identifier that `id_str` selects, given what the text denotes in
/// full and its lowercase form.
pub fn select_by_id(
    items: &Vec<TrashItem>,
    parsed: Option<u128>,
    lowered: &str,
    id_str: &str,
) -> (r: Result<u128, RmzError>)
    ensures
        selects(r, item_views(items@), parsed, lowered@, id_str@),
{
    match parsed {
        Some(id) => Ok(id),
        None => match resolve_prefix(items, lowered, id_str) {
            Err(RmzError::NoMatch { query }) => Err(RmzError::NoIdPrefix { prefix: query }),
            other => other,
        },
    }
}

/// Purging by identifier selects the item that `id_str` denotes in full,
/// or the one item whose identifier begins with it.
pub fn purge_by_id(items: &Vec<TrashItem>, id_str: &str) -> (r: Result<u128, RmzError>)
    ensures
        selects(r, item_views(items@), parsed_id(id_str@), lowercase(id_str@), id_str@),
{
    let parsed = parse_id(id_str);
    let lowered = text::lowercase_of(id_str);
    select_by_id(items, parsed, lowered.as_str(), id_str)
}

/// The identifiers of the items that were picked: item `i` is picked where
/// `picked` has an answer for it and the answer is yes.
pub open spec fn picked_ids(items: Seq<TrashItemView>, picked: Seq<bool>) -> Seq<u128>
    decreases items.len(),
{
    if items.len() == 0 {
        Seq::empty()
    } else {
        let rest = picked_ids(items.drop_last(), picked);
        let i = items.len() - 1;
        if i < picked.len() && picked[i] {
            rest.push(items.last().meta.id)
        } else {
            rest
        }
    }
}

/// Purging one by one selects the items that the user picked, in the
/// order listed, and nothing unless the user confirmed the whole.
pub fn interactive_purge(items: &Vec<TrashItem>, picked: &Vec<bool>, confirmed: bool) -> (r: Vec<
    u128,
>)
    ensures
        r@ == if confirmed {
            picked_ids(item_views(items@), picked@)
        } else {
            Seq::<u128>::empty()
        },
{
    let mut selected: Vec<u128> = Vec::new();
    if !confirmed {
        return selected;
    }
    let mut i: usize = 0;
    assert(item_views(items@).take(0) =~= Seq::<TrashItemView>::empty());
    while i < items.len()
        invariant
            i <= items.len(),
            selected@ == picked_ids(item_views(items@).take(i as int), picked@),
        decreases items.len() - i,
    {
        proof {
            let before = item_views(items@).take(i as int);
            let after = item_views(items@).take(i + 1);
            assert(after.drop_last() =~= before);
            assert(after.last() == items@[i as int]@);
        }
        if i < picked.len() && picked[i] {
            selected.push(items[i].meta.id);
        }
        i += 1;
    }
    assert(item_views(items@).take(items.len() as int) =~= item_views(items@));
    selected
}

/// How a purge of several items went.
#[derive(Clone, Copy, Debug, PartialEq, Eq, Structural)]
pub struct PurgeSummary {
    /// How many items were purged.
    pub purged_count: usize,
    /// The sum of the sizes of the items that were purged.
    pub freed_bytes: u128,
}

/// How many of the first `n` items were purged: item `i` was purged where
/// `purged` has an outcome for it and the outcome is a success.
pub open spec fn count_purged(purged: Seq<bool>, n: int) -> nat
    decreases n,
{
    if n <= 0 {
        0
    } else {
        count_purged(purged, n - 1) + if n - 1 < purged.len() && purged[n - 1] {
            1nat
        } else {
            0nat
        }
    }
}

/// The sum of the sizes of those of the first `n` items that were purged.
pub open spec fn freed_size(items: Seq<SizedItemView>, purged: Seq<bool>, n: int) -> nat
    decreases n,
{
    if n <= 0 {
        0
    } else {
        freed_size(items, purged, n - 1) + if n - 1 < purged.len() && purged[n - 1] {
            items[n - 1].size as nat
        } else {
            0nat
        }
    }
}

/// Sums up a purge of `items` of which `purged` tells, item by item,
/// whether it succeeded. An item that failed is passed over.
pub fn summarize(items: &Vec<SizedItem>, purged: &Vec<bool>) -> (r: PurgeSummary)
    ensures
        r.purged_count == count_purged(purged@, items.len() as int),
        r.freed_bytes == freed_size(sized_views(items@), purged@, items.len() as int),
{
    let mut purged_count: usize = 0;
    let mut freed_bytes: u128 = 0;
    let mut i: usize = 0;
    while i < items.len()
        invariant
            i <= items.len(),
            purged_count == count_purged(purged@, i as int),
            purged_count <= i,
            freed_bytes == freed_size(sized_views(items@), purged@, i as int),
            freed_bytes <= i * u64::MAX,
        decreases items.len() - i,
    {
        proof {
            assert(i * u64::MAX + u64::MAX == (i + 1) * u64::MAX) by (nonlinear_arith);
            assert((i + 1) * u64::MAX <= usize::MAX * u64::MAX) by (nonlinear_arith)
                requires
                    i + 1 <= usize::MAX,
            ;
            assert(usize::MAX * u64::MAX < u128::MAX) by (nonlinear_arith)
                requires
                    usize::MAX <= u64::MAX,
            ;
        }
        if i < purged.len() && purged[i] {
            purged_count += 1;
            freed_bytes = freed_bytes + items[i].size as u128;
        }
        i += 1;
    }
    PurgeSummary { purged_count, freed_bytes }
}

/// `n` units of time ago, in words: the unit takes an `s` unless `n` is one.
pub open spec fn ago(n: nat, unit: Seq<char>) -> Seq<char> {
    decimal(n) + " "@ + unit + (if n == 1 {
        ""@
    } else {
        "s"@
    }) + " ago"@
}

/// How long ago something happened, in words, for a span of whole seconds.
pub open spec fn span_text(seconds: nat) -> Seq<char> {
    if seconds < 60 {
        "just now"@
    } else if seconds < 3600 {
        ago(seconds / 60, "minute"@)
    } else if seconds < 86400 {
        ago(seconds / 3600, "hour"@)
    } else {
        ago(seconds / 86400, "day"@)
    }
}

fn ago_text(n: u64, unit: &str) -> (r: String)
    ensures
        r@ == ago(n as nat, unit@),
{
    let mut r = text::u64_to_text(n);
    r.append(" ");
    r.append(unit);
    if n == 1 {
        r.append("");
    } else {
        r.append("s");
    }
    r.append(" ago");
    r
}

/// How long ago a span of whole seconds is, in words.
pub fn format_span(seconds: u64) -> (r: String)
    ensures
        r@ == span_text(seconds as nat),
{
    if seconds < 60 {
        "just now".to_owned()
    } else if seconds < 3600 {
        ago_text(seconds / 60, "minute")
    } else if seconds < 86400 {
        ago_text(seconds / 3600, "hour")
    } else {
        ago_text(seconds / 86400, "day")
    }
}

/// How long before `now` the moment `datetime` lies, in words; `unknown`
/// where it lies after `now`.
pub fn format_relative_time(datetime: &Timestamp, now: &Timestamp) -> (r: String)
    ensures
        r@ == if datetime@ <= now@ {
            span_text(((now@ - datetime@) / (NANOS_PER_SEC as int)) as nat)
        } else {
            "unknown"@
        },
{
    if now.is_before(datetime) {
        "unknown".to_owned()
    } else {
        format_span(datetime.seconds_until(now))
    }
}

/// Reads a size such as `100MB` or `1GB`, whatever its case.
pub fn parse_size(size_str: &str) -> (r: Result<u64, RmzError>)
    ensures
        crate::utils::size_parser::is_suffixed_size(r, crate::text::uppercase(size_str@)),
{
    crate::utils::size_parser::parse_size_suffixed(size_str)
}

/// Formats a size in bytes for reading.
pub fn format_size(bytes: u64) -> (r: String)
    ensures
        r@ == crate::utils::size_format::size_text(bytes),
{
    crate::utils::size_format::format_size(bytes)
}

} // verus!
