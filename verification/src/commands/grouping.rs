//! Counting things by a key: files by type, by tag, by day; operations by
//! kind.

use crate::text::chars_of;
use vstd::prelude::*;

verus! {

/// One thing to count: its key, and its size.
#[derive(Debug, PartialEq, Eq)]
pub struct Keyed {
    pub key: String,
    pub size: u64,
}

/// What a `Keyed` holds, as mathematical values.
pub struct KeyedView {
    pub key: Seq<char>,
    pub size: u64,
}

impl View for Keyed {
    type V = KeyedView;

    open spec fn view(&self) -> KeyedView {
        KeyedView { key: self.key@, size: self.size }
    }
}

/// The views of a list of things to count.
pub open spec fn keyed_views(things: Seq<Keyed>) -> Seq<KeyedView> {
    things.map_values(|k: Keyed| k@)
}

/// The things of one key, counted.
#[derive(Debug, PartialEq, Eq)]
pub struct Group {
    pub key: String,
    /// How many things have the key.
    pub count: usize,
    /// The sum of their sizes.
    pub size: u128,
}

/// What a `Group` holds, as mathematical values.
pub struct GroupView {
    pub key: Seq<char>,
    pub count: nat,
    pub size: nat,
}

impl View for Group {
    type V = GroupView;

    open spec fn view(&self) -> GroupView {
        GroupView { key: self.key@, count: self.count as nat, size: self.size as nat }
    }
}

/// The views of a list of groups.
pub open spec fn group_views(groups: Seq<Group>) -> Seq<GroupView> {
    groups.map_values(|g: Group| g@)
}

/// The position of the group with the key `key`, or -1.
pub open spec fn group_index(groups: Seq<GroupView>, key: Seq<char>) -> int
    decreases groups.len(),
{
    if groups.len() == 0 {
        -1
    } else if groups.last().key == key && group_index(groups.drop_last(), key) < 0 {
        groups.len() - 1
    } else {
        group_index(groups.drop_last(), key)
    }
}

/// `groups` with one more thing of the key `key` and the size `size`: in
/// the group of that key, or in a new group at the end.
pub open spec fn counted(groups: Seq<GroupView>, key: Seq<char>, size: u64) -> Seq<GroupView> {
    let i = group_index(groups, key);
    if i >= 0 {
        groups.update(
            i,
            GroupView { key, count: groups[i].count + 1, size: groups[i].size + size as nat },
        )
    } else {
        groups.push(GroupView { key, count: 1, size: size as nat })
    }
}

/// The groups of the first `n` of `things`, in the order in which their
/// keys first occur.
pub open spec fn tallied(things: Seq<KeyedView>, n: int) -> Seq<GroupView>
    decreases n,
{
    if n <= 0 {
        Seq::empty()
    } else {
        counted(tallied(things, n - 1), things[n - 1].key, things[n - 1].size)
    }
}

proof fn lemma_group_index(groups: Seq<GroupView>, key: Seq<char>)
    ensures
        -1 <= group_index(groups, key) < groups.len(),
        group_index(groups, key) >= 0 ==> groups[group_index(groups, key)].key == key,
        group_index(groups, key) >= 0 ==> forall|k: int|
            0 <= k < group_index(groups, key) ==> groups[k].key != key,
        group_index(groups, key) < 0 ==> forall|k: int|
            0 <= k < groups.len() ==> groups[k].key != key,
    decreases groups.len(),
{
    if groups.len() > 0 {
        let head = groups.drop_last();
        lemma_group_index(head, key);
        assert forall|k: int| 0 <= k < head.len() implies head[k] == groups[k] by {}
    }
}

/// Counts `things` by their keys: one group for each key, in the order in
/// which the keys first occur, with the number of things of the key and
/// the sum of their sizes.
pub fn tally(things: &Vec<Keyed>) -> (r: Vec<Group>)
    ensures
        group_views(r@) == tallied(keyed_views(things@), things.len() as int),
{
    let mut groups: Vec<Group> = Vec::new();
    let mut i: usize = 0;
    assert(group_views(groups@) =~= Seq::<GroupView>::empty());
    while i < things.len()
        invariant
            i <= things.len(),
            group_views(groups@) == tallied(keyed_views(things@), i as int),
            forall|g: int|
                0 <= g < groups.len() ==> (#[trigger] groups@[g]).count <= i && groups@[g].size
                    <= i * u64::MAX,
        decreases things.len() - i,
    {
        let ghost before = group_views(groups@);
        proof {
            assert(keyed_views(things@)[i as int] == things@[i as int]@);
            lemma_group_index(before, things@[i as int].key@);
            assert(i * u64::MAX + u64::MAX == (i + 1) * u64::MAX) by (nonlinear_arith);
            assert((i + 1) * u64::MAX <= usize::MAX * u64::MAX) by (nonlinear_arith)
                requires
                    i + 1 <= usize::MAX,
            ;
            assert(usize::MAX * u64::MAX < u128::MAX) by (nonlinear_arith)
                requires
                    usize::MAX <= u64::MAX,
            ;
        }
        // The first group of the key, if there is one.
        let mut at: usize = 0;
        let mut found = false;
        while at < groups.len() && !found
            invariant
                at <= groups.len(),
                i < things.len(),
                before == group_views(groups@),
                found ==> at < groups.len() && before[at as int].key == things@[i as int].key@,
                forall|k: int| 0 <= k < at ==> before[k].key != things@[i as int].key@,
            decreases groups.len() - at, !found as int,
        {
            if crate::text::same_text(groups[at].key.as_str(), things[i].key.as_str()) {
                assert(before[at as int] == groups@[at as int]@);
                found = true;
            } else {
                assert(before[at as int] == groups@[at as int]@);
                at += 1;
            }
        }
        if found {
            assert(before[at as int].key == things@[i as int].key@);
            assert(group_index(before, things@[i as int].key@) == at) by {
                let index = group_index(before, things@[i as int].key@);
                if index < 0 {
                    assert(before[at as int].key != things@[i as int].key@);
                }
                if 0 <= index < at {
                    assert(before[index].key != things@[i as int].key@);
                }
            }
            let old = &groups[at];
            let updated = Group {
                key: things[i].key.clone(),
                count: old.count + 1,
                size: old.size + things[i].size as u128,
            };
            groups.set(at, updated);
            assert(group_views(groups@) =~= counted(
                before,
                things@[i as int].key@,
                things@[i as int].size,
            ));
        } else {
            assert(group_index(before, things@[i as int].key@) < 0);
            groups.push(Group { key: things[i].key.clone(), count: 1, size: things[i].size as u128 });
            assert(group_views(groups@) =~= counted(
                before,
                things@[i as int].key@,
                things@[i as int].size,
            ));
        }
        i += 1;
    }
    groups
}

/// The orders in which groups are shown.
#[derive(Clone, Copy, Debug, PartialEq, Eq, Structural)]
pub enum GroupOrder {
    /// The group with the most things first.
    LargestFirst,
    /// By key, from the least to the greatest.
    KeyAscending,
    /// By key, from the greatest to the least.
    KeyDescending,
}

/// Whether the text `a` comes before the text `b`, or is equal to it,
/// character by character.
pub open spec fn text_le(a: Seq<char>, b: Seq<char>) -> bool
    decreases a.len(),
{
    if a.len() == 0 {
        true
    } else if b.len() == 0 {
        false
    } else if a[0] != b[0] {
        (a[0] as u32) < (b[0] as u32)
    } else {
        text_le(a.drop_first(), b.drop_first())
    }
}

/// Whether the group `a` may stand before the group `b` in the order.
pub open spec fn may_precede(order: GroupOrder, a: GroupView, b: GroupView) -> bool {
    match order {
        GroupOrder::LargestFirst => a.count >= b.count,
        GroupOrder::KeyAscending => text_le(a.key, b.key),
        GroupOrder::KeyDescending => text_le(b.key, a.key),
    }
}

/// `sorted` with `group` inserted behind every group that may stand
/// before it.
pub open spec fn insert_group(order: GroupOrder, sorted: Seq<GroupView>, group: GroupView) -> Seq<
    GroupView,
>
    decreases sorted.len(),
{
    if sorted.len() == 0 {
        seq![group]
    } else if may_precede(order, sorted.last(), group) {
        sorted.push(group)
    } else {
        insert_group(order, sorted.drop_last(), group).push(sorted.last())
    }
}

/// `groups` in the order; groups that the order does not tell apart keep
/// the order they had.
pub open spec fn ordered(order: GroupOrder, groups: Seq<GroupView>) -> Seq<GroupView>
    decreases groups.len(),
{
    if groups.len() == 0 {
        groups
    } else {
        insert_group(order, ordered(order, groups.drop_last()), groups.last())
    }
}

fn less_or_equal(a: &Vec<char>, b: &Vec<char>) -> (r: bool)
    ensures
        r == text_le(a@, b@),
{
    let mut i: usize = 0;
    assert(a@.skip(0) =~= a@ && b@.skip(0) =~= b@);
    while i < a.len() && i < b.len()
        invariant
            i <= a.len(),
            i <= b.len(),
            text_le(a@, b@) == text_le(a@.skip(i as int), b@.skip(i as int)),
        decreases a.len() - i,
    {
        let x = a[i];
        let y = b[i];
        assert(a@.skip(i as int)[0] == x && b@.skip(i as int)[0] == y);
        if x != y {
            return (x as u32) < (y as u32);
        }
        assert(a@.skip(i as int).drop_first() =~= a@.skip(i + 1));
        assert(b@.skip(i as int).drop_first() =~= b@.skip(i + 1));
        i += 1;
    }
    i == a.len()
}

fn precedes(order: GroupOrder, a: &Group, b: &Group) -> (r: bool)
    ensures
        r == may_precede(order, a@, b@),
{
    match order {
        GroupOrder::LargestFirst => a.count >= b.count,
        GroupOrder::KeyAscending => less_or_equal(
            &chars_of(a.key.as_str()),
            &chars_of(b.key.as_str()),
        ),
        GroupOrder::KeyDescending => less_or_equal(
            &chars_of(b.key.as_str()),
            &chars_of(a.key.as_str()),
        ),
    }
}

fn insert_sorted(order: GroupOrder, sorted: &mut Vec<Group>, group: Group)
    ensures
        group_views(final(sorted)@) == insert_group(order, group_views(old(sorted)@), group@),
{
    let ghost start = group_views(sorted@);
    let mut at: usize = sorted.len();
    assert(start.take(at as int) =~= start);
    loop
        invariant
            at <= sorted.len(),
            group_views(sorted@) == start,
            insert_group(order, start, group@) == insert_group(
                order,
                start.take(at as int),
                group@,
            ) + start.skip(at as int),
        ensures
            at <= sorted.len(),
            group_views(sorted@) == start,
            insert_group(order, start, group@) == start.take(at as int).push(group@) + start.skip(
                at as int,
            ),
        decreases at,
    {
        let ghost head = start.take(at as int);
        if at == 0 {
            assert(head.push(group@) =~= seq![group@]);
            break;
        }
        assert(head.last() == start[at - 1]);
        if precedes(order, &sorted[at - 1], &group) {
            break;
        }
        proof {
            assert(head.drop_last() =~= start.take(at - 1));
            assert(insert_group(order, head.drop_last(), group@).push(head.last()) + start.skip(
                at as int,
            ) =~= insert_group(order, head.drop_last(), group@) + start.skip(at - 1));
        }
        at -= 1;
    }
    sorted.insert(at, group);
    assert(group_views(sorted@) =~= start.take(at as int).push(group@) + start.skip(at as int));
}

/// Puts groups into an order.
pub fn sort_groups(groups: Vec<Group>, order: GroupOrder) -> (r: Vec<Group>)
    ensures
        group_views(r@) == ordered(order, group_views(groups@)),
{
    let ghost all = group_views(groups@);
    // Take the groups from the end, so that each can be moved out.
    let mut rest = groups;
    let mut taken: Vec<Group> = Vec::new();
    while rest.len() > 0
        invariant
            group_views(rest@) + group_views(taken@).reverse() == all,
        decreases rest.len(),
    {
        let ghost before_rest = group_views(rest@);
        let ghost before_taken = group_views(taken@);
        let x = rest.pop().unwrap();
        taken.push(x);
        assert(group_views(rest@) =~= before_rest.drop_last());
        assert(group_views(taken@) =~= before_taken.push(before_rest.last()));
        assert(group_views(taken@).reverse() =~= seq![before_rest.last()]
            + before_taken.reverse());
        assert(group_views(rest@) + group_views(taken@).reverse() =~= before_rest
            + before_taken.reverse());
    }
    assert(group_views(taken@).reverse() =~= all);
    let mut sorted: Vec<Group> = Vec::new();
    let mut i: usize = 0;
    let n = taken.len();
    assert(all.take(0) =~= Seq::<GroupView>::empty());
    assert(group_views(sorted@) =~= Seq::<GroupView>::empty());
    while taken.len() > 0
        invariant
            i + taken.len() == all.len(),
            all.len() == n,
            group_views(taken@).reverse() == all.skip(i as int),
            group_views(sorted@) == ordered(order, all.take(i as int)),
        decreases taken.len(),
    {
        let ghost before_taken = group_views(taken@);
        let x = taken.pop().unwrap();
        proof {
            assert(group_views(taken@) =~= before_taken.drop_last());
            assert(x@ == before_taken.last());
            assert(before_taken.last() == before_taken.reverse()[0]);
            assert(x@ == all[i as int]);
            let after = all.take(i + 1);
            assert(after.drop_last() =~= all.take(i as int));
            assert(after.last() == all[i as int]);
            assert(group_views(taken@).reverse() =~= all.skip(i + 1)) by {
                assert(before_taken.drop_last().reverse() =~= before_taken.reverse().drop_first());
            }
        }
        insert_sorted(order, &mut sorted, x);
        i += 1;
    }
    assert(all.take(all.len() as int) =~= all);
    sorted
}

} // verus!
