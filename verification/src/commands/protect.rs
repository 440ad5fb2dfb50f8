//! The list of protected paths: adding, removing, and showing it.

use crate::cli::ProtectAction;
use crate::domain::config::{first_index, system_paths, Config, ConfigView};
use crate::domain::file_meta::{has_text, texts};
use crate::text::chars_of;
use vstd::prelude::*;

verus! {

/// The rank of a character in the order of paths: the separator comes
/// before every other character, so that a path comes before the paths
/// that continue one of its components.
pub open spec fn rank(c: char) -> int {
    if c == '/' {
        0
    } else {
        (c as u32) as int + 1
    }
}

/// Whether the path `a` comes before the path `b`, or is equal to it, in
/// the order of paths: component by component, character by character.
pub open spec fn path_le(a: Seq<char>, b: Seq<char>) -> bool
    decreases a.len(),
{
    if a.len() == 0 {
        true
    } else if b.len() == 0 {
        false
    } else if a[0] != b[0] {
        rank(a[0]) < rank(b[0])
    } else {
        path_le(a.drop_first(), b.drop_first())
    }
}

/// `sorted` with `path` inserted behind every path that does not come
/// after it.
pub open spec fn insert_path(sorted: Seq<Seq<char>>, path: Seq<char>) -> Seq<Seq<char>>
    decreases sorted.len(),
{
    if sorted.len() == 0 {
        seq![path]
    } else if path_le(sorted.last(), path) {
        sorted.push(path)
    } else {
        insert_path(sorted.drop_last(), path).push(sorted.last())
    }
}

/// The paths of `paths` that are system paths, or those that are not,
/// in the order of paths.
pub open spec fn category(paths: Seq<Seq<char>>, system: bool) -> Seq<Seq<char>>
    decreases paths.len(),
{
    if paths.len() == 0 {
        paths
    } else if system_paths().contains(paths.last()) == system {
        insert_path(category(paths.drop_last(), system), paths.last())
    } else {
        category(paths.drop_last(), system)
    }
}

fn less_or_equal(a: &Vec<char>, b: &Vec<char>) -> (r: bool)
    ensures
        r == path_le(a@, b@),
{
    let mut i: usize = 0;
    assert(a@.skip(0) =~= a@ && b@.skip(0) =~= b@);
    while i < a.len() && i < b.len()
        invariant
            i <= a.len(),
            i <= b.len(),
            path_le(a@, b@) == path_le(a@.skip(i as int), b@.skip(i as int)),
        decreases a.len() - i,
    {
        let x = a[i];
        let y = b[i];
        assert(a@.skip(i as int)[0] == x && b@.skip(i as int)[0] == y);
        if x != y {
            return if x == '/' {
                true
            } else if y == '/' {
                false
            } else {
                (x as u32) < (y as u32)
            };
        }
        assert(a@.skip(i as int).drop_first() =~= a@.skip(i + 1));
        assert(b@.skip(i as int).drop_first() =~= b@.skip(i + 1));
        i += 1;
    }
    i == a.len()
}

fn insert_sorted(sorted: &mut Vec<String>, path: String)
    ensures
        texts(final(sorted)@) == insert_path(texts(old(sorted)@), path@),
{
    let ghost start = texts(sorted@);
    let pv = chars_of(path.as_str());
    let mut at: usize = sorted.len();
    assert(start.take(at as int) =~= start);
    loop
        invariant
            at <= sorted.len(),
            pv@ == path@,
            texts(sorted@) == start,
            insert_path(start, path@) == insert_path(start.take(at as int), path@) + start.skip(
                at as int,
            ),
        ensures
            at <= sorted.len(),
            texts(sorted@) == start,
            insert_path(start, path@) == start.take(at as int).push(path@) + start.skip(at as int),
        decreases at,
    {
        let ghost head = start.take(at as int);
        if at == 0 {
            assert(head.push(path@) =~= seq![path@]);
            break;
        }
        let prev = chars_of(sorted[at - 1].as_str());
        assert(head.last() == start[at - 1]);
        if less_or_equal(&prev, &pv) {
            break;
        }
        proof {
            assert(head.drop_last() =~= start.take(at - 1));
            assert(insert_path(head.drop_last(), path@).push(head.last()) + start.skip(at as int)
                =~= insert_path(head.drop_last(), path@) + start.skip(at - 1));
        }
        at -= 1;
    }
    sorted.insert(at, path);
    assert(texts(sorted@) =~= start.take(at as int).push(path@) + start.skip(at as int));
}

/// Sorts paths into those that are protected from the start and those
/// that the user added, each in the order of paths.
pub fn categorize_paths(paths: &Vec<String>) -> (r: (Vec<String>, Vec<String>))
    ensures
        texts(r.0@) == category(texts(paths@), true),
        texts(r.1@) == category(texts(paths@), false),
{
    let default_protected = Config::default_protected_paths();
    let mut system_list: Vec<String> = Vec::new();
    let mut user_list: Vec<String> = Vec::new();
    let mut i: usize = 0;
    assert(texts(paths@).take(0) =~= Seq::<Seq<char>>::empty());
    assert(texts(system_list@) =~= Seq::<Seq<char>>::empty());
    assert(texts(user_list@) =~= Seq::<Seq<char>>::empty());
    while i < paths.len()
        invariant
            i <= paths.len(),
            texts(default_protected@) == system_paths(),
            texts(system_list@) == category(texts(paths@).take(i as int), true),
            texts(user_list@) == category(texts(paths@).take(i as int), false),
        decreases paths.len() - i,
    {
        proof {
            let before = texts(paths@).take(i as int);
            let after = texts(paths@).take(i + 1);
            assert(after.drop_last() =~= before);
            assert(after.last() == paths@[i as int]@);
        }
        if has_text(&default_protected, paths[i].as_str()) {
            insert_sorted(&mut system_list, paths[i].clone());
        } else {
            insert_sorted(&mut user_list, paths[i].clone());
        }
        i += 1;
    }
    assert(texts(paths@).take(paths.len() as int) =~= texts(paths@));
    (system_list, user_list)
}

/// How the adding or removing of several paths went.
#[derive(Debug, PartialEq, Eq)]
pub struct ProtectReport {
    /// How many paths changed the list.
    pub changed: usize,
    /// The paths that changed nothing: already protected when adding, not
    /// protected when removing.
    pub unchanged: Vec<String>,
}

/// The protected paths after `paths` are added one by one.
pub open spec fn added(list: Seq<Seq<char>>, paths: Seq<Seq<char>>) -> Seq<Seq<char>>
    decreases paths.len(),
{
    if paths.len() == 0 {
        list
    } else {
        let before = added(list, paths.drop_last());
        if before.contains(paths.last()) {
            before
        } else {
            before.push(paths.last())
        }
    }
}

/// The paths among `paths` that were protected already when their turn
/// came.
pub open spec fn already_there(list: Seq<Seq<char>>, paths: Seq<Seq<char>>) -> Seq<Seq<char>>
    decreases paths.len(),
{
    if paths.len() == 0 {
        Seq::empty()
    } else {
        let rest = already_there(list, paths.drop_last());
        if added(list, paths.drop_last()).contains(paths.last()) {
            rest.push(paths.last())
        } else {
            rest
        }
    }
}

/// Adds `paths` to the protected paths, each unless it is there already,
/// and reports how many were added and which were there.
pub fn add_protected_paths(config: &mut Config, paths: &Vec<String>) -> (r: ProtectReport)
    ensures
        final(config)@ == (ConfigView {
            protected_paths: added(old(config)@.protected_paths, texts(paths@)),
            ..old(config)@
        }),
        texts(r.unchanged@) == already_there(old(config)@.protected_paths, texts(paths@)),
        r.changed + r.unchanged@.len() == paths@.len(),
{
    let mut changed: usize = 0;
    let mut unchanged: Vec<String> = Vec::new();
    let mut i: usize = 0;
    assert(texts(paths@).take(0) =~= Seq::<Seq<char>>::empty());
    assert(texts(unchanged@) =~= Seq::<Seq<char>>::empty());
    while i < paths.len()
        invariant
            i <= paths.len(),
            config@ == (ConfigView {
                protected_paths: added(old(config)@.protected_paths, texts(paths@).take(i as int)),
                ..old(config)@
            }),
            texts(unchanged@) == already_there(
                old(config)@.protected_paths,
                texts(paths@).take(i as int),
            ),
            changed + unchanged@.len() == i,
        decreases paths.len() - i,
    {
        proof {
            let before = texts(paths@).take(i as int);
            let after = texts(paths@).take(i + 1);
            assert(after.drop_last() =~= before);
            assert(after.last() == paths@[i as int]@);
        }
        if has_text(&config.protected_paths, paths[i].as_str()) {
            let ghost shown = texts(unchanged@);
            unchanged.push(paths[i].clone());
            assert(texts(unchanged@) =~= shown.push(paths@[i as int]@));
        } else {
            config.add_protected_path(paths[i].clone());
            changed += 1;
        }
        i += 1;
    }
    assert(texts(paths@).take(paths.len() as int) =~= texts(paths@));
    ProtectReport { changed, unchanged }
}

/// How many of the protected paths are there on the disk, and how many
/// are not.
#[derive(Clone, Copy, Debug, PartialEq, Eq, Structural)]
pub struct ProtectedSummary {
    pub total_count: usize,
    pub existing_count: usize,
    pub missing_count: usize,
}

/// How many of the first `n` answers are yes.
pub open spec fn count_true(answers: Seq<bool>, n: int) -> nat
    decreases n,
{
    if n <= 0 {
        0
    } else {
        count_true(answers, n - 1) + if n - 1 < answers.len() && answers[n - 1] {
            1nat
        } else {
            0nat
        }
    }
}

/// Sums up the list of protected paths, given for each path whether it
/// is there on the disk. A path without an answer counts as missing.
pub fn list_protected_paths(config: &Config, present: &Vec<bool>) -> (r: ProtectedSummary)
    ensures
        r.total_count == config@.protected_paths.len(),
        r.existing_count == count_true(present@, config@.protected_paths.len() as int),
        r.missing_count == r.total_count - r.existing_count,
{
    let total_count = config.protected_paths.len();
    let mut existing_count: usize = 0;
    let mut i: usize = 0;
    while i < total_count
        invariant
            i <= total_count,
            total_count == config.protected_paths.len(),
            existing_count == count_true(present@, i as int),
            existing_count <= i,
        decreases total_count - i,
    {
        if i < present.len() && present[i] {
            existing_count += 1;
        }
        i += 1;
    }
    ProtectedSummary { total_count, existing_count, missing_count: total_count - existing_count }
}

/// `list` without the first occurrence of `path`, if it has one.
pub open spec fn without_first(list: Seq<Seq<char>>, path: Seq<char>) -> Seq<Seq<char>> {
    if list.contains(path) {
        list.remove(first_index(list, path))
    } else {
        list
    }
}

/// `list` after the path as written is taken out of it, or else the path
/// in its canonical form.
pub open spec fn taken_out(list: Seq<Seq<char>>, path: Seq<char>, canonical: Seq<char>) -> Seq<
    Seq<char>,
> {
    if list.contains(path) {
        without_first(list, path)
    } else {
        without_first(list, canonical)
    }
}

/// The protected paths after the first `n` of `paths` are taken out one
/// by one, each as written or else in its canonical form. A path without
/// a canonical form given counts as canonical.
pub open spec fn removed(
    list: Seq<Seq<char>>,
    paths: Seq<Seq<char>>,
    canonical: Seq<Seq<char>>,
    n: int,
) -> Seq<Seq<char>>
    decreases n,
{
    if n <= 0 {
        list
    } else {
        taken_out(removed(list, paths, canonical, n - 1), paths[n - 1], canonical_of(
            paths,
            canonical,
            n - 1,
        ))
    }
}

/// The canonical form of the `i`-th path.
pub open spec fn canonical_of(paths: Seq<Seq<char>>, canonical: Seq<Seq<char>>, i: int) -> Seq<
    char,
> {
    if i < canonical.len() {
        canonical[i]
    } else {
        paths[i]
    }
}

/// The paths among the first `n` of `paths` that were not protected when
/// their turn came, neither as written nor in their canonical form.
pub open spec fn not_there(
    list: Seq<Seq<char>>,
    paths: Seq<Seq<char>>,
    canonical: Seq<Seq<char>>,
    n: int,
) -> Seq<Seq<char>>
    decreases n,
{
    if n <= 0 {
        Seq::empty()
    } else {
        let before = removed(list, paths, canonical, n - 1);
        let rest = not_there(list, paths, canonical, n - 1);
        if before.contains(paths[n - 1]) || before.contains(canonical_of(paths, canonical, n - 1)) {
            rest
        } else {
            rest.push(paths[n - 1])
        }
    }
}

/// Removes `paths` from the protected paths, each as written or else in
/// its canonical form, and reports how many were removed and which were
/// not protected.
pub fn remove_protected_paths(config: &mut Config, paths: &Vec<String>, canonical: &Vec<String>) -> (r:
    ProtectReport)
    ensures
        final(config)@ == (ConfigView {
            protected_paths: removed(
                old(config)@.protected_paths,
                texts(paths@),
                texts(canonical@),
                paths.len() as int,
            ),
            ..old(config)@
        }),
        texts(r.unchanged@) == not_there(
            old(config)@.protected_paths,
            texts(paths@),
            texts(canonical@),
            paths.len() as int,
        ),
        r.changed + r.unchanged@.len() == paths@.len(),
{
    let mut changed: usize = 0;
    let mut unchanged: Vec<String> = Vec::new();
    let mut i: usize = 0;
    assert(texts(unchanged@) =~= Seq::<Seq<char>>::empty());
    while i < paths.len()
        invariant
            i <= paths.len(),
            config@ == (ConfigView {
                protected_paths: removed(
                    old(config)@.protected_paths,
                    texts(paths@),
                    texts(canonical@),
                    i as int,
                ),
                ..old(config)@
            }),
            texts(unchanged@) == not_there(
                old(config)@.protected_paths,
                texts(paths@),
                texts(canonical@),
                i as int,
            ),
            changed + unchanged@.len() == i,
        decreases paths.len() - i,
    {
        let ghost list = config@.protected_paths;
        let ghost path = texts(paths@)[i as int];
        let ghost canon = canonical_of(texts(paths@), texts(canonical@), i as int);
        assert(path == paths@[i as int]@);
        let other: &String = if i < canonical.len() {
            assert(texts(canonical@)[i as int] == canonical@[i as int]@);
            &canonical[i]
        } else {
            &paths[i]
        };
        assert(other@ == canon);
        let mut gone = config.remove_protected_path(paths[i].as_str());
        if !gone {
            gone = config.remove_protected_path(other.as_str());
        }
        assert(config@.protected_paths == taken_out(list, path, canon));
        if gone {
            changed += 1;
        } else {
            let ghost shown = texts(unchanged@);
            unchanged.push(paths[i].clone());
            assert(texts(unchanged@) =~= shown.push(path));
        }
        i += 1;
    }
    ProtectReport { changed, unchanged }
}

/// What the protect command did.
#[derive(Debug, PartialEq, Eq)]
pub enum ProtectOutcome {
    /// Paths were added; the configuration is to be stored.
    Added { report: ProtectReport },
    /// Paths were removed; the configuration is to be stored.
    Removed { report: ProtectReport },
    /// The protected paths, sorted into those of the system and those of
    /// the user.
    Listed { system: Vec<String>, user: Vec<String> },
}

/// Carries out the protect command on the configuration. `canonical`
/// holds the canonical forms of the paths of the action, as far as the
/// caller could find them: paths are added in their canonical form, and
/// removed as written or else in their canonical form.
pub fn execute(action: &ProtectAction, config: &mut Config, canonical: &Vec<String>) -> (r:
    ProtectOutcome)
    ensures
        match action {
            ProtectAction::Add { paths } => {
                &&& r is Added
                &&& final(config)@ == (ConfigView {
                    protected_paths: added(old(config)@.protected_paths, texts(canonical@)),
                    ..old(config)@
                })
                &&& texts(r->Added_report.unchanged@) == already_there(
                    old(config)@.protected_paths,
                    texts(canonical@),
                )
                &&& r->Added_report.changed + r->Added_report.unchanged@.len() == canonical@.len()
            },
            ProtectAction::Remove { paths } => {
                &&& r is Removed
                &&& final(config)@ == (ConfigView {
                    protected_paths: removed(
                        old(config)@.protected_paths,
                        texts(paths@),
                        texts(canonical@),
                        paths.len() as int,
                    ),
                    ..old(config)@
                })
                &&& texts(r->Removed_report.unchanged@) == not_there(
                    old(config)@.protected_paths,
                    texts(paths@),
                    texts(canonical@),
                    paths.len() as int,
                )
                &&& r->Removed_report.changed + r->Removed_report.unchanged@.len() == paths@.len()
            },
            ProtectAction::List => {
                &&& final(config)@ == old(config)@
                &&& r is Listed
                &&& texts(r->Listed_system@) == category(old(config)@.protected_paths, true)
                &&& texts(r->Listed_user@) == category(old(config)@.protected_paths, false)
            },
        },
{
    match action {
        ProtectAction::Add { paths } => ProtectOutcome::Added {
            report: add_protected_paths(config, canonical),
        },
        ProtectAction::Remove { paths } => ProtectOutcome::Removed {
            report: remove_protected_paths(config, paths, canonical),
        },
        ProtectAction::List => {
            let (system, user) = categorize_paths(&config.protected_paths);
            ProtectOutcome::Listed { system, user }
        },
    }
}

} // verus!
