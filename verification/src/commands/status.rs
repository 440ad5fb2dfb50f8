//! The state of the trash zone in numbers.

use crate::commands::grouping::{
    group_views, keyed_views, ordered, sort_groups, tallied, tally, Group, GroupOrder, Keyed,
    KeyedView,
};
use crate::commands::purge::span_text;
use crate::domain::timestamp::day_of;
use crate::paths::{self, extension_spec};
use crate::text::{self, lowercase};
use crate::domain::timestamp::{Timestamp, NANOS_PER_SEC, SECS_PER_DAY};
use crate::domain::trash_item::{TrashItem, TrashItemView};
use crate::infra::trash_store::item_views;
use crate::utils::size_format::{size_text, KIB, MIB};
use vstd::prelude::*;

verus! {

/// Formats a size in bytes for reading.
pub fn format_size(size: u64) -> (r: String)
    ensures
        r@ == size_text(size),
{
    crate::utils::size_format::format_size(size)
}

/// How long ago a span of whole seconds is, in words. A span that is
/// negative counts as no time at all.
pub fn format_time_ago(seconds: i64) -> (r: String)
    ensures
        r@ == span_text(
            if seconds < 0 {
                0nat
            } else {
                seconds as nat
            },
        ),
{
    if seconds < 0 {
        crate::commands::purge::format_span(0)
    } else {
        crate::commands::purge::format_span(seconds as u64)
    }
}

/// The sum of the recorded sizes of `items`.
pub open spec fn recorded_size(items: Seq<TrashItemView>) -> nat
    decreases items.len(),
{
    if items.len() == 0 {
        0
    } else {
        recorded_size(items.drop_last()) + items.last().meta.size as nat
    }
}

/// The basic numbers of the zone.
#[derive(Clone, Copy, Debug, PartialEq, Eq)]
pub struct StatusSummary {
    /// How many items are held.
    pub total_files: usize,
    /// The sum of their recorded sizes.
    pub total_size: u128,
    /// When the oldest was held.
    pub oldest: Option<Timestamp>,
    /// When the newest was held.
    pub newest: Option<Timestamp>,
}

/// The basic numbers of the zone: how many items, their total recorded
/// size, and the times of the oldest and the newest.
pub fn execute(items: &Vec<TrashItem>) -> (r: StatusSummary)
    ensures
        r.total_files == items.len(),
        r.total_size == recorded_size(item_views(items@)),
        items.len() == 0 ==> r.oldest is None && r.newest is None,
        items.len() > 0 ==> r.oldest is Some && r.newest is Some,
        forall|i: int|
            0 <= i < items.len() ==> (r.oldest->0)@ <= (#[trigger] items@[i]).meta.deleted_at@
                <= (r.newest->0)@,
        items.len() > 0 ==> exists|i: int|
            0 <= i < items.len() && (r.oldest->0)@ == (#[trigger] items@[i]).meta.deleted_at@,
        items.len() > 0 ==> exists|i: int|
            0 <= i < items.len() && (r.newest->0)@ == (#[trigger] items@[i]).meta.deleted_at@,
{
    let mut total_size: u128 = 0;
    let mut oldest: Option<Timestamp> = None;
    let mut newest: Option<Timestamp> = None;
    let mut i: usize = 0;
    assert(item_views(items@).take(0) =~= Seq::<TrashItemView>::empty());
    while i < items.len()
        invariant
            i <= items.len(),
            total_size == recorded_size(item_views(items@).take(i as int)),
            total_size <= i * u64::MAX,
            i == 0 ==> oldest is None && newest is None,
            i > 0 ==> oldest is Some && newest is Some,
            forall|j: int|
                0 <= j < i ==> (oldest->0)@ <= (#[trigger] items@[j]).meta.deleted_at@
                    <= (newest->0)@,
            i > 0 ==> exists|j: int|
                0 <= j < i && (oldest->0)@ == (#[trigger] items@[j]).meta.deleted_at@,
            i > 0 ==> exists|j: int|
                0 <= j < i && (newest->0)@ == (#[trigger] items@[j]).meta.deleted_at@,
        decreases items.len() - i,
    {
        proof {
            let before = item_views(items@).take(i as int);
            let after = item_views(items@).take(i + 1);
            assert(after.drop_last() =~= before);
            assert(after.last() == items@[i as int]@);
            assert(i * u64::MAX + u64::MAX == (i + 1) * u64::MAX) by (nonlinear_arith);
            assert((i + 1) * u64::MAX <= usize::MAX * u64::MAX) by (nonlinear_arith)
                requires
                    i + 1 <= usize::MAX,
            ;
            assert(usize::MAX * u64::MAX < u128::MAX) by (nonlinear_arith)
                requires
                    usize::MAX <= u64::MAX,
            ;
        }
        let at = items[i].meta.deleted_at;
        total_size = total_size + items[i].meta.size as u128;
        let ghost old_oldest = oldest;
        let ghost old_newest = newest;
        oldest = match oldest {
            Some(t) => if at.is_before(&t) {
                Some(at)
            } else {
                Some(t)
            },
            None => Some(at),
        };
        newest = match newest {
            Some(t) => if t.is_before(&at) {
                Some(at)
            } else {
                Some(t)
            },
            None => Some(at),
        };
        proof {
            if i > 0 {
                let a = choose|j: int|
                    0 <= j < i && (old_oldest->0)@ == (#[trigger] items@[j]).meta.deleted_at@;
                let b = choose|j: int|
                    0 <= j < i && (old_newest->0)@ == (#[trigger] items@[j]).meta.deleted_at@;
                if (oldest->0)@ == (old_oldest->0)@ {
                    assert((oldest->0)@ == items@[a].meta.deleted_at@);
                } else {
                    assert((oldest->0)@ == items@[i as int].meta.deleted_at@);
                }
                if (newest->0)@ == (old_newest->0)@ {
                    assert((newest->0)@ == items@[b].meta.deleted_at@);
                } else {
                    assert((newest->0)@ == items@[i as int].meta.deleted_at@);
                }
            } else {
                assert((oldest->0)@ == items@[i as int].meta.deleted_at@);
                assert((newest->0)@ == items@[i as int].meta.deleted_at@);
            }
        }
        i += 1;
    }
    assert(item_views(items@).take(items.len() as int) =~= item_views(items@));
    StatusSummary { total_files: items.len(), total_size, oldest, newest }
}

/// How many items there are of each class of size.
#[derive(Clone, Copy, Debug, PartialEq, Eq, Structural)]
pub struct SizeBreakdown {
    /// Below one kilobyte.
    pub small: usize,
    /// From one kilobyte to below one megabyte.
    pub medium: usize,
    /// From one megabyte to below a hundred.
    pub large: usize,
    /// A hundred megabytes and more.
    pub huge: usize,
}

/// The class of a size: 0 for small, 1 for medium, 2 for large, 3 for huge.
pub open spec fn size_class(size: u64) -> int {
    if size < KIB {
        0
    } else if size < MIB {
        1
    } else if size < 100 * MIB {
        2
    } else {
        3
    }
}

/// How many of the first `n` items are of the given class of size.
pub open spec fn count_class(items: Seq<TrashItemView>, class: int, n: int) -> nat
    decreases n,
{
    if n <= 0 {
        0
    } else {
        count_class(items, class, n - 1) + if size_class(items[n - 1].meta.size) == class {
            1nat
        } else {
            0nat
        }
    }
}

/// Counts the items by their class of size.
pub fn show_size_breakdown(items: &Vec<TrashItem>) -> (r: SizeBreakdown)
    ensures
        r.small == count_class(item_views(items@), 0, items.len() as int),
        r.medium == count_class(item_views(items@), 1, items.len() as int),
        r.large == count_class(item_views(items@), 2, items.len() as int),
        r.huge == count_class(item_views(items@), 3, items.len() as int),
        r.small + r.medium + r.large + r.huge == items.len(),
{
    let mut r = SizeBreakdown { small: 0, medium: 0, large: 0, huge: 0 };
    let mut i: usize = 0;
    while i < items.len()
        invariant
            i <= items.len(),
            r.small == count_class(item_views(items@), 0, i as int),
            r.medium == count_class(item_views(items@), 1, i as int),
            r.large == count_class(item_views(items@), 2, i as int),
            r.huge == count_class(item_views(items@), 3, i as int),
            r.small + r.medium + r.large + r.huge == i,
        decreases items.len() - i,
    {
        assert(item_views(items@)[i as int] == items@[i as int]@);
        let size = items[i].meta.size;
        if size < KIB {
            r.small += 1;
        } else if size < MIB {
            r.medium += 1;
        } else if size < 100 * MIB {
            r.large += 1;
        } else {
            r.huge += 1;
        }
        i += 1;
    }
    r
}

/// How many items there are of each age.
#[derive(Clone, Copy, Debug, PartialEq, Eq, Structural)]
pub struct TimeBreakdown {
    /// Held less than a day ago.
    pub today: usize,
    /// Held a day ago, but less than two.
    pub yesterday: usize,
    /// Held two days ago, but less than a week.
    pub this_week: usize,
    /// Held a week ago, but less than thirty days.
    pub this_month: usize,
    /// Held thirty days ago or more.
    pub older: usize,
}

/// The class of an age in nanoseconds: 0 for less than a day, 1 for less
/// than two, 2 for less than a week, 3 for less than thirty days, 4 for
/// the rest.
pub open spec fn age_class(age: int) -> int {
    let day = SECS_PER_DAY * NANOS_PER_SEC;
    if age < day {
        0
    } else if age < 2 * day {
        1
    } else if age < 7 * day {
        2
    } else if age < 30 * day {
        3
    } else {
        4
    }
}

/// How many of the first `n` items are of the given class of age at `now`.
pub open spec fn count_age(items: Seq<TrashItemView>, now: int, class: int, n: int) -> nat
    decreases n,
{
    if n <= 0 {
        0
    } else {
        count_age(items, now, class, n - 1) + if age_class(now - items[n - 1].meta.deleted_at)
            == class {
            1nat
        } else {
            0nat
        }
    }
}

/// Counts the items by their age at `now`.
pub fn show_time_breakdown(items: &Vec<TrashItem>, now: &Timestamp) -> (r: TimeBreakdown)
    ensures
        r.today == count_age(item_views(items@), now@, 0, items.len() as int),
        r.yesterday == count_age(item_views(items@), now@, 1, items.len() as int),
        r.this_week == count_age(item_views(items@), now@, 2, items.len() as int),
        r.this_month == count_age(item_views(items@), now@, 3, items.len() as int),
        r.older == count_age(item_views(items@), now@, 4, items.len() as int),
        r.today + r.yesterday + r.this_week + r.this_month + r.older == items.len(),
{
    let mut r = TimeBreakdown { today: 0, yesterday: 0, this_week: 0, this_month: 0, older: 0 };
    let mut i: usize = 0;
    while i < items.len()
        invariant
            i <= items.len(),
            r.today == count_age(item_views(items@), now@, 0, i as int),
            r.yesterday == count_age(item_views(items@), now@, 1, i as int),
            r.this_week == count_age(item_views(items@), now@, 2, i as int),
            r.this_month == count_age(item_views(items@), now@, 3, i as int),
            r.older == count_age(item_views(items@), now@, 4, i as int),
            r.today + r.yesterday + r.this_week + r.this_month + r.older == i,
        decreases items.len() - i,
    {
        assert(item_views(items@)[i as int] == items@[i as int]@);
        let at = &items[i].meta.deleted_at;
        if !at.age_at_least(now, 1) {
            r.today += 1;
        } else if !at.age_at_least(now, 2) {
            r.yesterday += 1;
        } else if !at.age_at_least(now, 7) {
            r.this_week += 1;
        } else if !at.age_at_least(now, 30) {
            r.this_month += 1;
        } else {
            r.older += 1;
        }
        i += 1;
    }
    r
}

/// The key of an item among the types of files: the extension of its
/// original path in lowercase, or `(no extension)`.
pub open spec fn type_key(item: TrashItemView) -> Seq<char> {
    lowercase(
        match extension_spec(item.meta.original_path) {
            Some(ext) => ext,
            None => "(no extension)"@,
        },
    )
}

/// The items as things to count by type.
pub open spec fn by_type(items: Seq<TrashItemView>) -> Seq<KeyedView> {
    items.map_values(|t: TrashItemView| KeyedView { key: type_key(t), size: t.meta.size })
}

/// Counts the items by the type of file, the most frequent type first;
/// types of the same number keep the order in which they first occur.
pub fn show_file_type_breakdown(items: &Vec<TrashItem>) -> (r: Vec<Group>)
    ensures
        group_views(r@) == ordered(
            GroupOrder::LargestFirst,
            tallied(by_type(item_views(items@)), items.len() as int),
        ),
{
    let mut things: Vec<Keyed> = Vec::new();
    let mut i: usize = 0;
    while i < items.len()
        invariant
            i <= items.len(),
            keyed_views(things@) == by_type(item_views(items@)).take(i as int),
        decreases items.len() - i,
    {
        let ghost before = keyed_views(things@);
        let extension = match paths::extension(items[i].meta.original_path.as_str()) {
            Some(ext) => ext,
            None => "(no extension)".to_owned(),
        };
        let key = text::lowercase_of(extension.as_str());
        things.push(Keyed { key, size: items[i].meta.size });
        proof {
            assert(item_views(items@)[i as int] == items@[i as int]@);
            assert(keyed_views(things@) =~= before.push(by_type(item_views(items@))[i as int]));
            assert(by_type(item_views(items@)).take(i + 1) =~= before.push(
                by_type(item_views(items@))[i as int],
            ));
        }
        i += 1;
    }
    proof {
        let all = by_type(item_views(items@));
        assert(all.take(items.len() as int) =~= all);
    }
    sort_groups(tally(&things), GroupOrder::LargestFirst)
}

/// The items as things to count by the day they were held.
pub open spec fn by_day(items: Seq<TrashItemView>) -> Seq<KeyedView> {
    items.map_values(
        |t: TrashItemView| KeyedView { key: day_of(t.meta.deleted_at), size: t.meta.size },
    )
}

/// Counts the items by the day on which they were held, the latest day
/// first.
pub fn show_storage_breakdown(items: &Vec<TrashItem>) -> (r: Vec<Group>)
    ensures
        group_views(r@) == ordered(
            GroupOrder::KeyDescending,
            tallied(by_day(item_views(items@)), items.len() as int),
        ),
{
    let mut things: Vec<Keyed> = Vec::new();
    let mut i: usize = 0;
    while i < items.len()
        invariant
            i <= items.len(),
            keyed_views(things@) == by_day(item_views(items@)).take(i as int),
        decreases items.len() - i,
    {
        let ghost before = keyed_views(things@);
        things.push(Keyed { key: items[i].trash_subdirectory(), size: items[i].meta.size });
        proof {
            assert(item_views(items@)[i as int] == items@[i as int]@);
            assert(keyed_views(things@) =~= before.push(by_day(item_views(items@))[i as int]));
            assert(by_day(item_views(items@)).take(i + 1) =~= before.push(
                by_day(item_views(items@))[i as int],
            ));
        }
        i += 1;
    }
    proof {
        let all = by_day(item_views(items@));
        assert(all.take(items.len() as int) =~= all);
    }
    sort_groups(tally(&things), GroupOrder::KeyDescending)
}

/// The tags of the first `n` items, item by item, as things to count.
pub open spec fn by_tag(items: Seq<TrashItemView>, n: int) -> Seq<KeyedView>
    decreases n,
{
    if n <= 0 {
        Seq::empty()
    } else {
        by_tag(items, n - 1) + items[n - 1].meta.tags.map_values(
            |tag: Seq<char>| KeyedView { key: tag, size: items[n - 1].meta.size },
        )
    }
}

/// How many of the first `n` items have no tag.
pub open spec fn count_untagged(items: Seq<TrashItemView>, n: int) -> nat
    decreases n,
{
    if n <= 0 {
        0
    } else {
        count_untagged(items, n - 1) + if items[n - 1].meta.tags.len() == 0 {
            1nat
        } else {
            0nat
        }
    }
}

/// Counts the items by tag, the most frequent tag first, and the items
/// without a tag. An item counts once for each of its tags.
pub fn show_tag_breakdown(items: &Vec<TrashItem>) -> (r: (usize, Vec<Group>))
    ensures
        r.0 == count_untagged(item_views(items@), items.len() as int),
        group_views(r.1@) == ordered(
            GroupOrder::LargestFirst,
            tallied(
                by_tag(item_views(items@), items.len() as int),
                by_tag(item_views(items@), items.len() as int).len() as int,
            ),
        ),
{
    let mut untagged: usize = 0;
    let mut things: Vec<Keyed> = Vec::new();
    let mut i: usize = 0;
    assert(keyed_views(things@) =~= by_tag(item_views(items@), 0));
    while i < items.len()
        invariant
            i <= items.len(),
            untagged == count_untagged(item_views(items@), i as int),
            untagged <= i,
            keyed_views(things@) == by_tag(item_views(items@), i as int),
        decreases items.len() - i,
    {
        let ghost before = keyed_views(things@);
        let ghost item = item_views(items@)[i as int];
        assert(item == items@[i as int]@);
        let tags = &items[i].meta.tags;
        if tags.len() == 0 {
            untagged += 1;
        }
        let mut t: usize = 0;
        while t < tags.len()
            invariant
                t <= tags.len(),
                tags == &items@[i as int].meta.tags,
                item == items@[i as int]@,
                i < items.len(),
                keyed_views(things@) == before + item.meta.tags.take(t as int).map_values(
                    |tag: Seq<char>| KeyedView { key: tag, size: item.meta.size },
                ),
            decreases tags.len() - t,
        {
            let ghost shown = keyed_views(things@);
            things.push(Keyed { key: tags[t].clone(), size: items[i].meta.size });
            proof {
                let entry = KeyedView { key: item.meta.tags[t as int], size: item.meta.size };
                assert(keyed_views(things@) =~= shown.push(entry));
                assert(item.meta.tags.take(t + 1).map_values(
                    |tag: Seq<char>| KeyedView { key: tag, size: item.meta.size },
                ) =~= item.meta.tags.take(t as int).map_values(
                    |tag: Seq<char>| KeyedView { key: tag, size: item.meta.size },
                ).push(entry));
            }
            t += 1;
        }
        assert(item.meta.tags.take(tags.len() as int) =~= item.meta.tags);
        i += 1;
    }
    (untagged, sort_groups(tally(&things), GroupOrder::LargestFirst))
}

} // verus!
