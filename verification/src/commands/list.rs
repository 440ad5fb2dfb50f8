//! Listing: which held items a listing shows.

use crate::cli::GroupBy;
use crate::commands::grouping::{
    group_views, keyed_views, ordered, sort_groups, tallied, tally, Group, GroupOrder, Keyed,
    KeyedView,
};
use crate::commands::restore::matching;
use crate::commands::status::by_day;
use crate::domain::timestamp::{
    day_of, denoted, moment_of, Notation, Timestamp, NANOS_PER_SEC, SECS_PER_DAY,
};
use crate::domain::file_meta::has_text;
use crate::domain::trash_item::{TrashItem, TrashItemView};
use crate::errors::RmzError;
use crate::infra::trash_store::item_views;
use crate::text::{self, lowercase};
use crate::utils::size_format::size_text;
use vstd::prelude::*;

verus! {

/// The items of `items` that were held at `since` or later, in order.
pub open spec fn held_since(items: Seq<TrashItemView>, since: int) -> Seq<TrashItemView>
    decreases items.len(),
{
    if items.len() == 0 {
        items
    } else if items.last().meta.deleted_at >= since {
        held_since(items.drop_last(), since).push(items.last())
    } else {
        held_since(items.drop_last(), since)
    }
}

/// What a listing shows of `items`: those held at `since` or later, of
/// them those that match `filter`, and of them the first `limit`.
pub open spec fn shown(
    items: Seq<TrashItemView>,
    since: Option<int>,
    filter: Option<Seq<char>>,
    limit: Option<usize>,
) -> Seq<TrashItemView> {
    let recent = match since {
        Some(t) => held_since(items, t),
        None => items,
    };
    let wanted = match filter {
        Some(pattern) => matching(recent, pattern),
        None => recent,
    };
    match limit {
        Some(n) => if n < wanted.len() {
            wanted.take(n as int)
        } else {
            wanted
        },
        None => wanted,
    }
}

fn since_moment(items: &Vec<TrashItem>, since: &Timestamp) -> (r: Vec<TrashItem>)
    ensures
        item_views(r@) == held_since(item_views(items@), since@),
{
    let mut kept: Vec<TrashItem> = Vec::new();
    let mut i: usize = 0;
    assert(item_views(items@).take(0) =~= Seq::<TrashItemView>::empty());
    assert(item_views(kept@) =~= Seq::<TrashItemView>::empty());
    while i < items.len()
        invariant
            i <= items.len(),
            item_views(kept@) == held_since(item_views(items@).take(i as int), since@),
        decreases items.len() - i,
    {
        proof {
            let before = item_views(items@).take(i as int);
            let after = item_views(items@).take(i + 1);
            assert(after.drop_last() =~= before);
            assert(after.last() == items@[i as int]@);
        }
        if !items[i].meta.deleted_at.is_before(since) {
            let ghost seen = item_views(kept@);
            kept.push(items[i].clone());
            assert(item_views(kept@) =~= seen.push(items@[i as int]@));
        }
        i += 1;
    }
    assert(item_views(items@).take(items.len() as int) =~= item_views(items@));
    kept
}

/// The items that a listing shows.
pub fn execute(
    items: Vec<TrashItem>,
    since: Option<Timestamp>,
    filter: Option<&str>,
    limit: Option<usize>,
) -> (r: Vec<TrashItem>)
    ensures
        item_views(r@) == shown(
            item_views(items@),
            match since {
                Some(t) => Some(t@),
                None => None,
            },
            match filter {
                Some(p) => Some(p@),
                None => None,
            },
            limit,
        ),
{
    let recent = match since {
        Some(t) => since_moment(&items, &t),
        None => items,
    };
    let mut wanted = match filter {
        Some(pattern) => crate::commands::restore::restore_by_pattern(&recent, pattern),
        None => recent,
    };
    match limit {
        Some(n) => {
            if n < wanted.len() {
                let ghost all = item_views(wanted@);
                wanted.truncate(n);
                assert(item_views(wanted@) =~= all.take(n as int));
            }
        },
        None => {},
    }
    wanted
}

/// The nanoseconds of a day.
pub open spec fn day_nanos() -> int {
    SECS_PER_DAY * NANOS_PER_SEC
}

/// The earliest moment in range, in nanoseconds.
pub open spec fn earliest() -> int {
    crate::domain::timestamp::MIN_SECS * NANOS_PER_SEC
}

/// `moment`, or the earliest moment in range where it lies before that.
pub open spec fn not_before_earliest(moment: int) -> int {
    if moment >= earliest() {
        moment
    } else {
        earliest()
    }
}

/// The moment that a lowercase word for a time names at `now`: `today`
/// the beginning of the present day, `yesterday` that of the day before,
/// `week` seven days ago and `month` thirty days ago.
pub open spec fn named_moment(lowered: Seq<char>, now: int) -> Option<int> {
    if lowered == "today"@ {
        Some(now - now % day_nanos())
    } else if lowered == "yesterday"@ {
        Some(not_before_earliest(now - now % day_nanos() - day_nanos()))
    } else if lowered == "week"@ {
        Some(not_before_earliest(now - 7 * day_nanos()))
    } else if lowered == "month"@ {
        Some(not_before_earliest(now - 30 * day_nanos()))
    } else {
        None
    }
}

/// The moment that a text of one of the three notations of a listing
/// denotes: a day, a moment with its zone, or a moment in UTC, tried in
/// that order.
pub open spec fn written_moment(text: Seq<char>) -> Option<int> {
    if moment_of(denoted(text, Notation::Day)) is Some {
        moment_of(denoted(text, Notation::Day))
    } else if moment_of(denoted(text, Notation::Zoned)) is Some {
        moment_of(denoted(text, Notation::Zoned))
    } else {
        moment_of(denoted(text, Notation::DateTime))
    }
}

/// Whether `r` is the moment that the text `since_str`, with the lowercase
/// form `lowered`, stands for at `now`: what the word names, else what the
/// text denotes, else `InvalidSince` with the text.
pub open spec fn is_since(
    r: Result<Timestamp, RmzError>,
    lowered: Seq<char>,
    since_str: Seq<char>,
    now: int,
) -> bool {
    match named_moment(lowered, now) {
        Some(t) => r matches Ok(m) && m@ == t,
        None => match written_moment(since_str) {
            Some(t) => r matches Ok(m) && m@ == t,
            None => r matches Err(RmzError::InvalidSince { text }) && text@ == since_str,
        },
    }
}

/// The moment that `since_str` stands for at `now`, given its lowercase
/// form.
pub fn since_date(lowered: &str, since_str: &str, now: &Timestamp) -> (r: Result<
    Timestamp,
    RmzError,
>)
    ensures
        is_since(r, lowered@, since_str@, now@),
{
    if text::same_text(lowered, "today") {
        Ok(now.start_of_day())
    } else if text::same_text(lowered, "yesterday") {
        Ok(now.start_of_day().days_earlier(1))
    } else if text::same_text(lowered, "week") {
        Ok(now.days_earlier(7))
    } else if text::same_text(lowered, "month") {
        Ok(now.days_earlier(30))
    } else {
        match Timestamp::parse(since_str, Notation::Day) {
            Some(t) => Ok(t),
            None => match Timestamp::parse(since_str, Notation::Zoned) {
                Some(t) => Ok(t),
                None => match Timestamp::parse(since_str, Notation::DateTime) {
                    Some(t) => Ok(t),
                    None => Err(RmzError::InvalidSince { text: since_str.to_owned() }),
                },
            },
        }
    }
}

/// Reads the moment from which on a listing shows items: `today`,
/// `yesterday`, `week` or `month`, whatever the case, or a date.
pub fn parse_since_date(since_str: &str, now: &Timestamp) -> (r: Result<Timestamp, RmzError>)
    ensures
        is_since(r, lowercase(since_str@), since_str@, now@),
{
    let lowered = text::lowercase_of(since_str);
    since_date(lowered.as_str(), since_str, now)
}

/// Formats a size in bytes for reading.
pub fn format_size(size: u64) -> (r: String)
    ensures
        r@ == size_text(size),
{
    crate::utils::size_format::format_size(size)
}

/// Whether `item` stands under the group `key` of a grouped listing: by
/// day, `key` is the day on which it was deleted; by tag, `key` is one of
/// its tags, or `(no tags)` where it has none.
pub open spec fn in_group(item: TrashItemView, group_by: GroupBy, key: Seq<char>) -> bool {
    match group_by {
        GroupBy::Date => day_of(item.meta.deleted_at) == key,
        GroupBy::Tag => if item.meta.tags.len() == 0 {
            key == "(no tags)"@
        } else {
            item.meta.tags.contains(key)
        },
    }
}

/// Whether a grouped listing shows `item` under the group `key`.
pub fn belongs_to(item: &TrashItem, group_by: GroupBy, key: &str) -> (r: bool)
    ensures
        r == in_group(item@, group_by, key@),
{
    match group_by {
        GroupBy::Date => text::same_text(item.meta.deleted_at.date_bucket().as_str(), key),
        GroupBy::Tag => {
            if item.meta.tags.len() == 0 {
                text::same_text(key, "(no tags)")
            } else {
                has_text(&item.meta.tags, key)
            }
        },
    }
}

/// The tags of the first `n` items, item by item, as things to count; an
/// item without a tag counts under `(no tags)`.
pub open spec fn by_tag_or_none(items: Seq<TrashItemView>, n: int) -> Seq<KeyedView>
    decreases n,
{
    if n <= 0 {
        Seq::empty()
    } else {
        let item = items[n - 1];
        by_tag_or_none(items, n - 1) + if item.meta.tags.len() == 0 {
            seq![KeyedView { key: "(no tags)"@, size: item.meta.size }]
        } else {
            item.meta.tags.map_values(
                |tag: Seq<char>| KeyedView { key: tag, size: item.meta.size },
            )
        }
    }
}

/// The groups under which a grouped listing shows `items`: by day, the
/// latest day first; or by tag, in the order of the tags.
pub fn output_grouped(items: &Vec<TrashItem>, group_by: GroupBy) -> (r: Vec<Group>)
    ensures
        group_views(r@) == match group_by {
            GroupBy::Date => ordered(
                GroupOrder::KeyDescending,
                tallied(by_day(item_views(items@)), items.len() as int),
            ),
            GroupBy::Tag => ordered(
                GroupOrder::KeyAscending,
                tallied(
                    by_tag_or_none(item_views(items@), items.len() as int),
                    by_tag_or_none(item_views(items@), items.len() as int).len() as int,
                ),
            ),
        },
{
    match group_by {
        GroupBy::Date => crate::commands::status::show_storage_breakdown(items),
        GroupBy::Tag => {
            let mut things: Vec<Keyed> = Vec::new();
            let mut i: usize = 0;
            assert(keyed_views(things@) =~= by_tag_or_none(item_views(items@), 0));
            while i < items.len()
                invariant
                    i <= items.len(),
                    keyed_views(things@) == by_tag_or_none(item_views(items@), i as int),
                decreases items.len() - i,
            {
                let ghost before = keyed_views(things@);
                let ghost item = item_views(items@)[i as int];
                assert(item == items@[i as int]@);
                let tags = &items[i].meta.tags;
                if tags.len() == 0 {
                    things.push(Keyed { key: "(no tags)".to_owned(), size: items[i].meta.size });
                    assert(keyed_views(things@) =~= before + seq![
                        KeyedView { key: "(no tags)"@, size: item.meta.size },
                    ]);
                } else {
                    let mut t: usize = 0;
                    while t < tags.len()
                        invariant
                            t <= tags.len(),
                            tags == &items@[i as int].meta.tags,
                            item == items@[i as int]@,
                            i < items.len(),
                            keyed_views(things@) == before + item.meta.tags.take(
                                t as int,
                            ).map_values(
                                |tag: Seq<char>| KeyedView { key: tag, size: item.meta.size },
                            ),
                        decreases tags.len() - t,
                    {
                        let ghost seen = keyed_views(things@);
                        things.push(Keyed { key: tags[t].clone(), size: items[i].meta.size });
                        proof {
                            let entry = KeyedView {
                                key: item.meta.tags[t as int],
                                size: item.meta.size,
                            };
                            assert(keyed_views(things@) =~= seen.push(entry));
                            assert(item.meta.tags.take(t + 1).map_values(
                                |tag: Seq<char>| KeyedView { key: tag, size: item.meta.size },
                            ) =~= item.meta.tags.take(t as int).map_values(
                                |tag: Seq<char>| KeyedView { key: tag, size: item.meta.size },
                            ).push(entry));
                        }
                        t += 1;
                    }
                    assert(item.meta.tags.take(tags.len() as int) =~= item.meta.tags);
                }
                i += 1;
            }
            sort_groups(tally(&things), GroupOrder::KeyAscending)
        },
    }
}

} // verus!
