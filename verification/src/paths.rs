//! Paths as text. A path is a sequence of components separated by `/`; a
//! path that begins with `/` is absolute. Nothing here looks at the disk.

use crate::text::{chars_of, concat, text_of};
use vstd::prelude::*;

verus! {

/// `base` with `child` adjoined: `child` itself where it is absolute, else
/// `base`, one separator where `base` does not end in one, and `child`.
pub open spec fn join_spec(base: Seq<char>, child: Seq<char>) -> Seq<char> {
    if child.len() > 0 && child[0] == '/' {
        child
    } else if base.len() == 0 || base.last() == '/' {
        base + child
    } else {
        base + seq!['/'] + child
    }
}

/// The position of the last `c` in `s`, or -1 where `s` holds none.
pub open spec fn last_index_of(s: Seq<char>, c: char) -> int
    decreases s.len(),
{
    if s.len() == 0 {
        -1
    } else if s.last() == c {
        s.len() - 1
    } else {
        last_index_of(s.drop_last(), c)
    }
}

/// `p` without the separators and `.` components that end it. A path that
/// is only a separator stays as it is.
pub open spec fn stripped(p: Seq<char>) -> Seq<char>
    decreases p.len(),
{
    if p.len() >= 2 && p.last() == '/' {
        stripped(p.drop_last())
    } else if p.len() >= 2 && p.last() == '.' && p[p.len() - 2] == '/' {
        stripped(p.drop_last())
    } else {
        p
    }
}

/// The text after the last separator of `p`; all of `p` where it has none.
pub open spec fn last_segment(p: Seq<char>) -> Seq<char> {
    p.skip(last_index_of(p, '/') + 1)
}

/// Whether a component is a name, rather than empty, `.` or `..`.
pub open spec fn is_name(segment: Seq<char>) -> bool {
    segment.len() > 0 && segment != seq!['.'] && segment != seq!['.', '.']
}

/// The final component of `p`, where that is a name.
pub open spec fn file_name_spec(p: Seq<char>) -> Option<Seq<char>> {
    let name = last_segment(stripped(p));
    if is_name(name) {
        Some(name)
    } else {
        None
    }
}

/// `p` without its final component: `None` for the empty path and for
/// the root, the empty path for a single relative component.
pub open spec fn parent_spec(p: Seq<char>) -> Option<Seq<char>> {
    let t = stripped(p);
    let cut = last_index_of(t, '/');
    if t.len() == 0 || t == seq!['/'] {
        None
    } else if cut < 0 {
        Some(Seq::<char>::empty())
    } else if cut == 0 {
        Some(seq!['/'])
    } else {
        Some(stripped(t.take(cut)))
    }
}

/// Where the extension of the file name `name` begins: the position of its
/// last `.`, unless there is none or the name begins with it.
pub open spec fn extension_cut(name: Seq<char>) -> Option<int> {
    let dot = last_index_of(name, '.');
    if dot <= 0 {
        None
    } else {
        Some(dot)
    }
}

/// The file name of `p` without its extension.
pub open spec fn file_stem_spec(p: Seq<char>) -> Option<Seq<char>> {
    match file_name_spec(p) {
        None => None,
        Some(name) => match extension_cut(name) {
            None => Some(name),
            Some(dot) => Some(name.take(dot)),
        },
    }
}

/// The extension of the file name of `p`, without the `.` before it.
pub open spec fn extension_spec(p: Seq<char>) -> Option<Seq<char>> {
    match file_name_spec(p) {
        None => None,
        Some(name) => match extension_cut(name) {
            None => None,
            Some(dot) => Some(name.skip(dot + 1)),
        },
    }
}

/// `p` with the extension of its file name replaced by `ext`; `p` itself
/// where it has no file name. An empty `ext` removes the extension.
pub open spec fn with_extension_spec(p: Seq<char>, ext: Seq<char>) -> Seq<char> {
    match file_name_spec(p) {
        None => p,
        Some(name) => {
            let t = stripped(p);
            let keep = match extension_cut(name) {
                None => t,
                Some(dot) => t.take(t.len() - name.len() + dot),
            };
            if ext.len() == 0 {
                keep
            } else {
                keep + seq!['.'] + ext
            }
        },
    }
}

/// `p` with its file name replaced by `name`: `name` adjoined to the parent
/// of `p`, or to `p` itself where it has no file name.
pub open spec fn with_file_name_spec(p: Seq<char>, name: Seq<char>) -> Seq<char> {
    match (file_name_spec(p), parent_spec(p)) {
        (Some(_), Some(dir)) => join_spec(dir, name),
        _ => join_spec(p, name),
    }
}

/// Whether `p` is absolute.
pub open spec fn is_absolute_spec(p: Seq<char>) -> bool {
    p.len() > 0 && p[0] == '/'
}

/// The pieces of `p` between its separators, in order, empty ones too.
pub open spec fn segments(p: Seq<char>) -> Seq<Seq<char>>
    decreases p.len(),
{
    if p.len() == 0 {
        seq![Seq::empty()]
    } else if p.last() == '/' {
        segments(p.drop_last()).push(Seq::empty())
    } else {
        let before = segments(p.drop_last());
        before.drop_last().push(before.last().push(p.last()))
    }
}

/// Whether a piece of a path is a component of it: it is not empty, and
/// it is not `.`, unless it is the first piece of a relative path.
pub open spec fn is_component(segment: Seq<char>, first: bool, absolute: bool) -> bool {
    segment.len() > 0 && (segment != seq!['.'] || (first && !absolute))
}

/// The components among the first `n` pieces of a path.
pub open spec fn kept(pieces: Seq<Seq<char>>, absolute: bool, n: int) -> Seq<Seq<char>>
    decreases n,
{
    if n <= 0 {
        Seq::empty()
    } else if is_component(pieces[n - 1], n == 1, absolute) {
        kept(pieces, absolute, n - 1).push(pieces[n - 1])
    } else {
        kept(pieces, absolute, n - 1)
    }
}

/// The components of `p`: the root, written as a separator, where `p` is
/// absolute, and then the pieces between its separators, without the
/// empty ones and without `.`; only a `.` that begins a relative path is
/// kept. `..` is a component like any other.
pub open spec fn components(p: Seq<char>) -> Seq<Seq<char>> {
    let rest = kept(segments(p), is_absolute_spec(p), segments(p).len() as int);
    if is_absolute_spec(p) {
        seq![seq!['/']] + rest
    } else {
        rest
    }
}

/// Whether `p` lies at or below `base`: the components of `base` begin
/// the components of `p`. Separators that repeat or end a path and `.`
/// inside a path make no difference.
pub open spec fn is_under_spec(p: Seq<char>, base: Seq<char>) -> bool {
    components(base).is_prefix_of(components(p))
}

proof fn lemma_last_index_bounds(s: Seq<char>, c: char)
    ensures
        -1 <= last_index_of(s, c) < s.len(),
        last_index_of(s, c) >= 0 ==> s[last_index_of(s, c)] == c,
        forall|k: int| last_index_of(s, c) < k < s.len() ==> s[k] != c,
    decreases s.len(),
{
    if s.len() > 0 && s.last() != c {
        lemma_last_index_bounds(s.drop_last(), c);
        assert forall|k: int| last_index_of(s, c) < k < s.len() implies s[k] != c by {
            if k < s.len() - 1 {
                assert(s.drop_last()[k] == s[k]);
            }
        }
    }
}

/// The extension of a file name begins inside the name, behind its first
/// character.
pub proof fn lemma_extension_cut(name: Seq<char>)
    ensures
        extension_cut(name) matches Some(dot) ==> 0 < dot < name.len(),
{
    lemma_last_index_bounds(name, '.');
}

proof fn lemma_stripped_bounds(p: Seq<char>)
    ensures
        stripped(p).len() <= p.len(),
        stripped(p).is_prefix_of(p),
        p.len() > 0 ==> stripped(p).len() > 0,
    decreases p.len(),
{
    if p.len() >= 2 && (p.last() == '/' || (p.last() == '.' && p[p.len() - 2] == '/')) {
        lemma_stripped_bounds(p.drop_last());
    }
}

fn last_index(v: &Vec<char>, end: usize, c: char) -> (r: Option<usize>)
    requires
        end <= v.len(),
    ensures
        r matches Some(i) ==> i < end && last_index_of(v@.take(end as int), c) == i,
        r is None ==> last_index_of(v@.take(end as int), c) == -1,
{
    let mut i: usize = end;
    while i > 0
        invariant
            i <= end <= v.len(),
            last_index_of(v@.take(end as int), c) == last_index_of(v@.take(i as int), c),
        decreases i,
    {
        if v[i - 1] == c {
            return Some(i - 1);
        }
        assert(v@.take(i as int).drop_last() =~= v@.take(i - 1));
        i -= 1;
    }
    None
}

fn stripped_len(v: &Vec<char>) -> (end: usize)
    ensures
        end <= v.len(),
        stripped(v@) == v@.take(end as int),
{
    let mut end: usize = v.len();
    assert(v@.take(end as int) =~= v@);
    while end >= 2 && (v[end - 1] == '/' || (v[end - 1] == '.' && v[end - 2] == '/'))
        invariant
            end <= v.len(),
            stripped(v@) == stripped(v@.take(end as int)),
        decreases end,
    {
        assert(v@.take(end as int).drop_last() =~= v@.take(end - 1));
        end -= 1;
    }
    end
}

fn name_is_plain(v: &Vec<char>, from: usize, to: usize) -> (r: bool)
    requires
        from <= to <= v.len(),
    ensures
        r == is_name(v@.subrange(from as int, to as int)),
{
    let ghost seg = v@.subrange(from as int, to as int);
    if to == from {
        return false;
    }
    if to - from == 1 && v[from] == '.' {
        assert(seg =~= seq!['.']);
        return false;
    }
    if to - from == 2 && v[from] == '.' && v[from + 1] == '.' {
        assert(seg =~= seq!['.', '.']);
        return false;
    }
    proof {
        if seg == seq!['.'] {
            assert(seg.len() == 1 && seg[0] == '.');
        }
        if seg == seq!['.', '.'] {
            assert(seg.len() == 2 && seg[0] == '.' && seg[1] == '.');
        }
    }
    true
}

/// Where the file name of `v` lies: the bounds of the final component of
/// the stripped path, where that component is a name.
fn file_name_bounds(v: &Vec<char>) -> (r: Option<(usize, usize)>)
    ensures
        r is Some <==> file_name_spec(v@) is Some,
        r matches Some((from, to)) ==> from < to <= v.len() && stripped(v@) == v@.take(to as int)
            && file_name_spec(v@) == Some(v@.subrange(from as int, to as int)),
{
    let end = stripped_len(v);
    let from: usize = match last_index(v, end, '/') {
        Some(i) => i + 1,
        None => 0,
    };
    proof {
        lemma_last_index_bounds(v@.take(end as int), '/');
        assert(v@.take(end as int).skip(from as int) =~= v@.subrange(from as int, end as int));
    }
    if name_is_plain(v, from, end) {
        Some((from, end))
    } else {
        None
    }
}

/// Where the extension of the name `v[from..to]` begins.
fn extension_start(v: &Vec<char>, from: usize, to: usize) -> (r: Option<usize>)
    requires
        from <= to <= v.len(),
    ensures
        r matches Some(dot) ==> from < dot < to && extension_cut(
            v@.subrange(from as int, to as int),
        ) == Some(dot - from),
        r is None ==> extension_cut(v@.subrange(from as int, to as int)) is None,
{
    let ghost name = v@.subrange(from as int, to as int);
    let mut i: usize = to;
    assert(name.take(to - from) =~= name);
    while i > from
        invariant
            from <= i <= to <= v.len(),
            name == v@.subrange(from as int, to as int),
            last_index_of(name, '.') == last_index_of(name.take(i - from), '.'),
        decreases i,
    {
        if v[i - 1] == '.' {
            assert(name.take(i - from).last() == '.');
            if i - 1 > from {
                return Some(i - 1);
            } else {
                return None;
            }
        }
        assert(name.take(i - from).drop_last() =~= name.take(i - 1 - from));
        i -= 1;
    }
    None
}

/// `base` with `child` adjoined.
pub fn join(base: &str, child: &str) -> (r: String)
    ensures
        r@ == join_spec(base@, child@),
{
    let b = chars_of(base);
    let c = chars_of(child);
    if c.len() > 0 && c[0] == '/' {
        child.to_owned()
    } else if b.len() == 0 || b[b.len() - 1] == '/' {
        concat(base, child)
    } else {
        let with_sep = concat(base, "/");
        proof {
            reveal_strlit("/");
            assert("/"@ =~= seq!['/']);
        }
        concat(with_sep.as_str(), child)
    }
}

/// Whether `path` is absolute.
pub fn is_absolute(path: &str) -> (r: bool)
    ensures
        r == is_absolute_spec(path@),
{
    let v = chars_of(path);
    v.len() > 0 && v[0] == '/'
}

/// The final component of `path`, where that is a name.
pub fn file_name(path: &str) -> (r: Option<String>)
    ensures
        r is Some <==> file_name_spec(path@) is Some,
        r matches Some(name) ==> Some(name@) == file_name_spec(path@),
{
    let v = chars_of(path);
    match file_name_bounds(&v) {
        Some((from, to)) => Some(text_of(&v, from, to)),
        None => None,
    }
}

/// `path` without its final component.
pub fn parent(path: &str) -> (r: Option<String>)
    ensures
        r is Some <==> parent_spec(path@) is Some,
        r matches Some(dir) ==> Some(dir@) == parent_spec(path@),
{
    let v = chars_of(path);
    let end = stripped_len(&v);
    proof {
        lemma_last_index_bounds(v@.take(end as int), '/');
        lemma_stripped_bounds(v@);
    }
    if end == 0 {
        return None;
    }
    if end == 1 && v[0] == '/' {
        assert(v@.take(1) =~= seq!['/']);
        return None;
    }
    proof {
        if stripped(v@) == seq!['/'] {
            assert(stripped(v@).len() == 1 && stripped(v@)[0] == '/');
        }
    }
    match last_index(&v, end, '/') {
        None => Some(String::new()),
        Some(cut) => {
            if cut == 0 {
                let r = text_of(&v, 0, 1);
                assert(v@.subrange(0, 1) =~= seq!['/']);
                Some(r)
            } else {
                let head = text_of(&v, 0, cut);
                let hv = chars_of(head.as_str());
                let keep = stripped_len(&hv);
                assert(v@.take(end as int).take(cut as int) =~= v@.subrange(0, cut as int));
                Some(text_of(&hv, 0, keep))
            }
        },
    }
}

/// The file name of `path` without its extension.
pub fn file_stem(path: &str) -> (r: Option<String>)
    ensures
        r is Some <==> file_stem_spec(path@) is Some,
        r matches Some(stem) ==> Some(stem@) == file_stem_spec(path@),
{
    let v = chars_of(path);
    match file_name_bounds(&v) {
        None => None,
        Some((from, to)) => match extension_start(&v, from, to) {
            None => Some(text_of(&v, from, to)),
            Some(dot) => {
                assert(v@.subrange(from as int, to as int).take(dot - from) =~= v@.subrange(
                    from as int,
                    dot as int,
                ));
                Some(text_of(&v, from, dot))
            },
        },
    }
}

/// The extension of the file name of `path`.
pub fn extension(path: &str) -> (r: Option<String>)
    ensures
        r is Some <==> extension_spec(path@) is Some,
        r matches Some(ext) ==> Some(ext@) == extension_spec(path@),
{
    let v = chars_of(path);
    match file_name_bounds(&v) {
        None => None,
        Some((from, to)) => match extension_start(&v, from, to) {
            None => None,
            Some(dot) => {
                assert(v@.subrange(from as int, to as int).skip(dot - from + 1) =~= v@.subrange(
                    dot + 1,
                    to as int,
                ));
                Some(text_of(&v, dot + 1, to))
            },
        },
    }
}

/// `path` with the extension of its file name replaced by `ext`.
pub fn with_extension(path: &str, ext: &str) -> (r: String)
    ensures
        r@ == with_extension_spec(path@, ext@),
{
    let v = chars_of(path);
    match file_name_bounds(&v) {
        None => path.to_owned(),
        Some((from, to)) => {
            let keep_to: usize = match extension_start(&v, from, to) {
                None => to,
                Some(dot) => dot,
            };
            let keep = text_of(&v, 0, keep_to);
            proof {
                let t = stripped(v@);
                let name = v@.subrange(from as int, to as int);
                assert(t.len() == to);
                assert(name.len() == to - from);
                assert(v@.take(to as int).take(keep_to as int) =~= v@.subrange(
                    0,
                    keep_to as int,
                ));
            }
            let e = chars_of(ext);
            if e.len() == 0 {
                keep
            } else {
                let dotted = concat(keep.as_str(), ".");
                proof {
                    reveal_strlit(".");
                    assert("."@ =~= seq!['.']);
                }
                concat(dotted.as_str(), ext)
            }
        },
    }
}

/// `path` with its file name replaced by `name`.
pub fn with_file_name(path: &str, name: &str) -> (r: String)
    ensures
        r@ == with_file_name_spec(path@, name@),
{
    match (file_name(path), parent(path)) {
        (Some(_), Some(dir)) => join(dir.as_str(), name),
        _ => join(path, name),
    }
}

/// The views of a list of runs of characters.
pub open spec fn runs(v: Seq<Vec<char>>) -> Seq<Seq<char>> {
    v.map_values(|r: Vec<char>| r@)
}

/// The components among the first pieces of a path depend on those pieces
/// alone.
proof fn lemma_kept_of_same(a: Seq<Seq<char>>, b: Seq<Seq<char>>, absolute: bool, n: int)
    requires
        n <= a.len(),
        n <= b.len(),
        forall|i: int| 0 <= i < n ==> a[i] == b[i],
    ensures
        kept(a, absolute, n) == kept(b, absolute, n),
    decreases n,
{
    if n > 0 {
        lemma_kept_of_same(a, b, absolute, n - 1);
    }
}

fn same_chars(a: &Vec<char>, b: &Vec<char>) -> (r: bool)
    ensures
        r == (a@ == b@),
{
    if a.len() != b.len() {
        return false;
    }
    let mut i: usize = 0;
    while i < a.len()
        invariant
            i <= a.len(),
            a.len() == b.len(),
            forall|k: int| 0 <= k < i ==> a@[k] == b@[k],
        decreases a.len() - i,
    {
        if a[i] != b[i] {
            return false;
        }
        i += 1;
    }
    assert(a@ =~= b@);
    true
}

/// The components of the path `v`.
fn components_of(v: &Vec<char>) -> (r: Vec<Vec<char>>)
    ensures
        runs(r@) == components(v@),
{
    let absolute = v.len() > 0 && v[0] == '/';
    let mut found: Vec<Vec<char>> = Vec::new();
    let ghost lead: Seq<Seq<char>> = if absolute {
        seq![seq!['/']]
    } else {
        Seq::empty()
    };
    if absolute {
        let mut root: Vec<char> = Vec::new();
        root.push('/');
        assert(root@ =~= seq!['/']);
        found.push(root);
    }
    assert(runs(found@) =~= lead);
    let mut current: Vec<char> = Vec::new();
    let mut first = true;
    let mut i: usize = 0;
    assert(v@.take(0) =~= Seq::<char>::empty());
    while i < v.len()
        invariant
            i <= v.len(),
            absolute == is_absolute_spec(v@),
            lead == if absolute {
                seq![seq!['/']]
            } else {
                Seq::<Seq<char>>::empty()
            },
            segments(v@.take(i as int)).len() >= 1,
            first == (segments(v@.take(i as int)).len() == 1),
            current@ == segments(v@.take(i as int)).last(),
            runs(found@) == lead + kept(
                segments(v@.take(i as int)),
                absolute,
                segments(v@.take(i as int)).len() - 1,
            ),
        decreases v.len() - i,
    {
        let ghost before = segments(v@.take(i as int));
        let ghost after = segments(v@.take(i + 1));
        let c = v[i];
        proof {
            assert(v@.take(i + 1).drop_last() =~= v@.take(i as int));
            assert(v@.take(i + 1).last() == c);
        }
        if c == '/' {
            proof {
                assert(after == before.push(Seq::<char>::empty()));
                lemma_kept_of_same(after, before, absolute, before.len() as int);
                assert(after[before.len() - 1] == before.last());
            }
            let is_dot = current.len() == 1 && current[0] == '.';
            proof {
                if is_dot {
                    assert(current@ =~= seq!['.']);
                }
                if current@ == seq!['.'] {
                    assert(current@.len() == 1 && current@[0] == '.');
                }
            }
            if current.len() > 0 && (!is_dot || (first && !absolute)) {
                let ghost shown = runs(found@);
                found.push(current);
                assert(runs(found@) =~= shown.push(before.last()));
            }
            current = Vec::new();
            first = false;
        } else {
            proof {
                assert(after == before.drop_last().push(before.last().push(c)));
                lemma_kept_of_same(after, before, absolute, before.len() - 1);
            }
            current.push(c);
        }
        i += 1;
    }
    proof {
        assert(v@.take(v.len() as int) =~= v@);
    }
    let is_dot = current.len() == 1 && current[0] == '.';
    proof {
        if is_dot {
            assert(current@ =~= seq!['.']);
        }
        if current@ == seq!['.'] {
            assert(current@.len() == 1 && current@[0] == '.');
        }
    }
    if current.len() > 0 && (!is_dot || (first && !absolute)) {
        let ghost shown = runs(found@);
        let ghost last = current@;
        found.push(current);
        assert(runs(found@) =~= shown.push(last));
    }
    found
}

/// Whether `path` lies at or below `base`.
pub fn is_under(path: &str, base: &str) -> (r: bool)
    ensures
        r == is_under_spec(path@, base@),
{
    let p = components_of(&chars_of(path));
    let b = components_of(&chars_of(base));
    if b.len() > p.len() {
        return false;
    }
    let mut i: usize = 0;
    while i < b.len()
        invariant
            i <= b.len() <= p.len(),
            runs(p@) == components(path@),
            runs(b@) == components(base@),
            forall|k: int| 0 <= k < i ==> runs(b@)[k] == runs(p@)[k],
        decreases b.len() - i,
    {
        if !same_chars(&b[i], &p[i]) {
            assert(runs(b@)[i as int] != runs(p@)[i as int]);
            assert(runs(p@).subrange(0, runs(b@).len() as int)[i as int] == runs(p@)[i as int]);
            return false;
        }
        assert(runs(b@)[i as int] == runs(p@)[i as int]);
        i += 1;
    }
    assert(runs(b@) =~= runs(p@).subrange(0, runs(b@).len() as int));
    true
}

} // verus!
