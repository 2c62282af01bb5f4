//! Slash-separated paths as text: the last component, the path without it, the components,
//! and joining. Repeated separators, a trailing separator, and `.` components after the
//! first position carry no meaning; `..` is a component like any other.
use vstd::prelude::*;
#[allow(unused_imports)]
use crate::text::{chars_of, joined, texts};

verus! {

/// Whether a path starts at the root.
pub open spec fn is_absolute(p: Seq<char>) -> bool {
    p.len() > 0 && p[0] == '/'
}

/// Whether a path starts with the component `.`.
pub open spec fn starts_at_dot(p: Seq<char>) -> bool {
    p.len() > 0 && p[0] == '.' && (p.len() == 1 || p[1] == '/')
}

/// How many leading characters stand for the root or for a leading `.`.
pub open spec fn body_start(p: Seq<char>) -> int {
    if is_absolute(p) || starts_at_dot(p) {
        1
    } else {
        0
    }
}

/// The last separator of `p` at `start` or later, or -1.
pub open spec fn last_separator(p: Seq<char>, start: int) -> int
    decreases p.len(),
{
    if p.len() <= start || p.len() == 0 {
        -1
    } else if p.last() == '/' {
        p.len() - 1
    } else {
        last_separator(p.drop_last(), start)
    }
}

/// The text after the last separator.
pub open spec fn last_part(p: Seq<char>, start: int) -> Seq<char> {
    let i = last_separator(p, start);
    p.skip(if i >= 0 {
        i + 1
    } else {
        start
    })
}

/// The text before the last separator.
pub open spec fn before_last_part(p: Seq<char>, start: int) -> Seq<char> {
    let i = last_separator(p, start);
    p.take(if i >= 0 {
        i
    } else {
        start
    })
}

/// Whether the text between two separators is no component at all.
pub open spec fn is_filler(part: Seq<char>) -> bool {
    part.len() == 0 || (part.len() == 1 && part[0] == '.')
}

/// `p` without separators and `.` components at its end.
pub open spec fn tidy_end(p: Seq<char>, start: int) -> Seq<char>
    decreases p.len(),
{
    if 0 <= start < p.len() && is_filler(last_part(p, start)) && before_last_part(p, start).len()
        < p.len() {
        tidy_end(before_last_part(p, start), start)
    } else {
        p
    }
}

/// The path without its last component; `None` for the root and for the empty path.
pub open spec fn parent_of(p: Seq<char>) -> Option<Seq<char>> {
    let start = body_start(p);
    let t = tidy_end(p, start);
    if t.len() > start {
        Some(tidy_end(before_last_part(t, start), start))
    } else if starts_at_dot(p) {
        Some(Seq::empty())
    } else {
        None
    }
}

/// The last component, unless it is the root, a leading `.`, or `..`.
pub open spec fn file_name_of(p: Seq<char>) -> Option<Seq<char>> {
    let start = body_start(p);
    let t = tidy_end(p, start);
    if t.len() > start && last_part(t, start) != seq!['.', '.'] {
        Some(last_part(t, start))
    } else {
        None
    }
}

/// The components after the root or the leading `.`.
pub open spec fn body_components(p: Seq<char>, start: int) -> Seq<Seq<char>>
    decreases p.len(),
{
    if 0 <= start < p.len() && before_last_part(p, start).len() < p.len() {
        let before = body_components(before_last_part(p, start), start);
        if is_filler(last_part(p, start)) {
            before
        } else {
            before.push(last_part(p, start))
        }
    } else {
        Seq::empty()
    }
}

/// All components; the root counts as the component `/`, a leading `.` as the component `.`.
pub open spec fn components_of(p: Seq<char>) -> Seq<Seq<char>> {
    if body_start(p) == 1 {
        seq![p.take(1)] + body_components(p, 1)
    } else {
        body_components(p, 0)
    }
}

/// `rel` seen from `base`.
pub open spec fn join_of(base: Seq<char>, rel: Seq<char>) -> Seq<char> {
    if is_absolute(rel) {
        rel
    } else if base.len() == 0 || base.last() == '/' {
        base + rel
    } else {
        base.push('/') + rel
    }
}

proof fn lemma_last_separator(p: Seq<char>, start: int)
    requires
        0 <= start,
    ensures
        -1 <= last_separator(p, start) < p.len(),
        last_separator(p, start) >= 0 ==> start <= last_separator(p, start),
    decreases p.len(),
{
    if p.len() > start && p.last() != '/' {
        lemma_last_separator(p.drop_last(), start);
    }
}

fn find_last_separator(v: &Vec<char>, start: usize, end: usize) -> (res: Option<usize>)
    requires
        start <= end <= v.len(),
    ensures
        res matches Some(i) ==> start <= i < end && i == last_separator(
            v@.take(end as int),
            start as int,
        ),
        res is None ==> last_separator(v@.take(end as int), start as int) == -1,
{
    let mut i: usize = end;
    while i > start
        invariant
            start <= i <= end <= v.len(),
            last_separator(v@.take(i as int), start as int) == last_separator(
                v@.take(end as int),
                start as int,
            ),
        decreases i,
    {
        if v[i - 1] == '/' {
            return Some(i - 1);
        }
        assert(v@.take(i as int).drop_last() =~= v@.take(i - 1));
        i -= 1;
    }
    None
}

/// Where the last part of `v[..end]` begins, and where the text before it ends.
fn cut_last(v: &Vec<char>, start: usize, end: usize) -> (res: (usize, usize))
    requires
        start < end <= v.len(),
    ensures
        start <= res.0 <= end,
        start <= res.1 < end,
        v@.subrange(res.0 as int, end as int) == last_part(v@.take(end as int), start as int),
        v@.take(res.1 as int) == before_last_part(v@.take(end as int), start as int),
{
    let ghost p = v@.take(end as int);
    match find_last_separator(v, start, end) {
        Some(i) => {
            assert(p.skip(i + 1) =~= v@.subrange(i + 1, end as int));
            assert(p.take(i as int) =~= v@.take(i as int));
            (i + 1, i)
        },
        None => {
            assert(p.skip(start as int) =~= v@.subrange(start as int, end as int));
            assert(p.take(start as int) =~= v@.take(start as int));
            (start, start)
        },
    }
}

fn filler(v: &Vec<char>, from: usize, end: usize) -> (res: bool)
    requires
        from <= end <= v.len(),
    ensures
        res == is_filler(v@.subrange(from as int, end as int)),
{
    from == end || (end - from == 1 && v[from] == '.')
}

fn tidied_end(v: &Vec<char>, start: usize, end: usize) -> (res: usize)
    requires
        start <= end <= v.len(),
    ensures
        start <= res <= end,
        v@.take(res as int) == tidy_end(v@.take(end as int), start as int),
{
    let mut e: usize = end;
    while e > start
        invariant
            start <= e <= end <= v.len(),
            tidy_end(v@.take(e as int), start as int) == tidy_end(
                v@.take(end as int),
                start as int,
            ),
        decreases e,
    {
        let (from, before) = cut_last(v, start, e);
        if !filler(v, from, e) {
            return e;
        }
        e = before;
    }
    e
}

fn start_of_body(v: &Vec<char>) -> (res: usize)
    ensures
        res == body_start(v@),
        res <= v.len(),
{
    if v.len() > 0 && (v[0] == '/' || (v[0] == '.' && (v.len() == 1 || v[1] == '/'))) {
        1
    } else {
        0
    }
}

/// The path without its last component; `None` for the root and for the empty path.
pub fn parent(p: &str) -> (res: Option<String>)
    ensures
        res is Some == parent_of(p@) is Some,
        res matches Some(q) ==> Some(q@) == parent_of(p@),
{
    let v = chars_of(p);
    let start = start_of_body(&v);
    let end = v.len();
    assert(v@.take(end as int) =~= p@);
    let t = tidied_end(&v, start, end);
    if t > start {
        let (_from, before) = cut_last(&v, start, t);
        let q = tidied_end(&v, start, before);
        assert(v@.take(q as int) =~= p@.subrange(0, q as int));
        Some(p.substring_char(0, q).to_owned())
    } else if v.len() > 0 && v[0] == '.' && (v.len() == 1 || v[1] == '/') {
        Some(String::new())
    } else {
        None
    }
}

/// The last component, unless it is the root, a leading `.`, or `..`.
pub fn file_name(p: &str) -> (res: Option<String>)
    ensures
        res is Some == file_name_of(p@) is Some,
        res matches Some(q) ==> Some(q@) == file_name_of(p@),
{
    let v = chars_of(p);
    let start = start_of_body(&v);
    let end = v.len();
    assert(v@.take(end as int) =~= p@);
    let t = tidied_end(&v, start, end);
    if t > start {
        let (from, _before) = cut_last(&v, start, t);
        let ghost part = last_part(v@.take(t as int), start as int);
        if t - from == 2 && v[from] == '.' && v[from + 1] == '.' {
            assert(part =~= seq!['.', '.']);
            None
        } else {
            assert(part != seq!['.', '.']) by {
                if part == seq!['.', '.'] {
                    let piece = v@.subrange(from as int, t as int);
                    assert(piece == seq!['.', '.']);
                    assert(piece.len() == 2);
                    assert(piece[0] == v@[from as int] && piece[1] == v@[from + 1]);
                }
            }
            Some(p.substring_char(from, t).to_owned())
        }
    } else {
        None
    }
}

fn collect_body(p: &str, v: &Vec<char>, start: usize, end: usize) -> (res: Vec<String>)
    requires
        v@ == p@,
        start <= end <= v.len(),
    ensures
        texts(res@) == body_components(v@.take(end as int), start as int),
    decreases end,
{
    if end > start {
        let (from, before) = cut_last(v, start, end);
        let mut res = collect_body(p, v, start, before);
        if !filler(v, from, end) {
            let ghost known = texts(res@);
            let part = p.substring_char(from, end).to_owned();
            let ghost part_text = part@;
            res.push(part);
            assert(texts(res@) =~= known.push(part_text));
        }
        res
    } else {
        let res: Vec<String> = Vec::new();
        assert(texts(res@) =~= Seq::<Seq<char>>::empty());
        res
    }
}

/// All components; the root counts as the component `/`, a leading `.` as the component `.`.
pub fn components(p: &str) -> (res: Vec<String>)
    ensures
        texts(res@) == components_of(p@),
{
    let v = chars_of(p);
    let start = start_of_body(&v);
    let end = v.len();
    assert(v@.take(end as int) =~= p@);
    let mut body = collect_body(p, &v, start, end);
    if start == 1 {
        let mut res: Vec<String> = Vec::new();
        let lead = p.substring_char(0, 1).to_owned();
        res.push(lead);
        let ghost first = res@;
        let ghost rest = body@;
        res.append(&mut body);
        assert(texts(first + rest) =~= texts(first) + texts(rest));
        assert(texts(first) =~= seq![p@.take(1)]);
        return res;
    }
    body
}

/// Whether two paths have the same components.
pub fn same_path(a: &str, b: &str) -> (res: bool)
    ensures
        res == (components_of(a@) == components_of(b@)),
{
    let x = components(a);
    let y = components(b);
    assert(texts(x@).len() == x.len() && texts(y@).len() == y.len());
    x.len() == y.len() && begins_with(&x, &y)
}

fn begins_with(x: &Vec<String>, y: &Vec<String>) -> (res: bool)
    ensures
        res == texts(y@).is_prefix_of(texts(x@)),
        x.len() == y.len() ==> res == (texts(x@) == texts(y@)),
{
    if y.len() > x.len() {
        return false;
    }
    let mut i: usize = 0;
    while i < y.len()
        invariant
            i <= y.len() <= x.len(),
            forall|j: int| 0 <= j < i ==> texts(x@)[j] == texts(y@)[j],
        decreases y.len() - i,
    {
        if x[i] != y[i] {
            assert(texts(x@)[i as int] != texts(y@)[i as int]);
            assert(texts(x@).subrange(0, y@.len() as int)[i as int] == texts(x@)[i as int]);
            return false;
        }
        i += 1;
    }
    assert(texts(x@).subrange(0, y@.len() as int) =~= texts(y@));
    assert(x.len() == y.len() ==> texts(x@) =~= texts(y@));
    true
}

/// Whether `p` is `root` or lies below it, component by component.
pub fn within(p: &str, root: &str) -> (res: bool)
    ensures
        res == components_of(root@).is_prefix_of(components_of(p@)),
{
    let x = components(p);
    let y = components(root);
    begins_with(&x, &y)
}

/// `rel` seen from `base`.
pub fn join(base: &str, rel: &str) -> (res: String)
    ensures
        res@ == join_of(base@, rel@),
{
    let b = chars_of(base);
    let r = chars_of(rel);
    if r.len() > 0 && r[0] == '/' {
        rel.to_owned()
    } else if b.len() == 0 || b[b.len() - 1] == '/' {
        joined(base, rel)
    } else {
        let mut res = base.to_owned();
        res.push('/');
        res.concat(rel)
    }
}

proof fn lemma_tidy_end_shortens(p: Seq<char>, start: int)
    ensures
        tidy_end(p, start).len() <= p.len(),
    decreases p.len(),
{
    if 0 <= start < p.len() && is_filler(last_part(p, start)) && before_last_part(p, start).len()
        < p.len() {
        lemma_tidy_end_shortens(before_last_part(p, start), start);
    }
}

/// The path without its last component is shorter.
pub proof fn lemma_parent_is_shorter(p: Seq<char>)
    ensures
        parent_of(p) matches Some(q) ==> q.len() < p.len(),
{
    let start = body_start(p);
    let t = tidy_end(p, start);
    lemma_tidy_end_shortens(p, start);
    if t.len() > start {
        lemma_last_separator(t, start);
        lemma_tidy_end_shortens(before_last_part(t, start), start);
    }
}

/// The end of the chain of parents of `p`.
pub open spec fn top_of(p: Seq<char>) -> Seq<char>
    decreases p.len(),
{
    match parent_of(p) {
        Some(q) => if q.len() < p.len() {
            top_of(q)
        } else {
            p
        },
        None => p,
    }
}

/// Whether `q` is `p` or an ancestor of it.
pub open spec fn climbs_to(p: Seq<char>, q: Seq<char>) -> bool
    decreases p.len(),
{
    p == q || match parent_of(p) {
        Some(r) => r.len() < p.len() && climbs_to(r, q),
        None => false,
    }
}

/// A `/` at the end of a longer path carries no meaning.
pub proof fn lemma_end_carries_no_meaning(p: Seq<char>)
    requires
        p.len() > 1,
        p.last() == '/',
    ensures
        components_of(p.drop_last()) == components_of(p),
        body_start(p.drop_last()) == body_start(p),
        body_components(p.drop_last(), body_start(p)) == body_components(p, body_start(p)),
{
    let q = p.drop_last();
    let start = body_start(p);
    assert(body_start(q) == start);
    assert(last_separator(p, start) == p.len() - 1);
    assert(before_last_part(p, start) =~= q);
    assert(last_part(p, start).len() == 0);
    assert(q.take(1) =~= p.take(1));
}

proof fn lemma_separator_is_found(p: Seq<char>, start: int, j: int)
    requires
        0 <= start <= j < p.len(),
        p[j] == '/',
    ensures
        last_separator(p, start) >= j,
    decreases p.len(),
{
    if p.last() != '/' {
        lemma_separator_is_found(p.drop_last(), start, j);
    }
}

/// What stands behind a directory adds components to those that the directory has.
proof fn lemma_longer_path_has_more(base: Seq<char>, rel: Seq<char>)
    requires
        is_absolute(base),
        base.last() == '/',
    ensures
        body_components(base, 1).is_prefix_of(body_components(base + rel, 1)),
    decreases rel.len(),
{
    let p = base + rel;
    let known = body_components(base, 1);
    if rel.len() == 0 {
        assert(p =~= base);
        assert(known.subrange(0, known.len() as int) =~= known);
    } else if base.len() == 1 {
        assert(known =~= Seq::<Seq<char>>::empty());
        assert(body_components(p, 1).subrange(0, 0) =~= known);
    } else {
        let i = last_separator(p, 1);
        assert(p[base.len() - 1] == '/');
        lemma_separator_is_found(p, 1, base.len() - 1);
        lemma_last_separator(p, 1);
        let before = before_last_part(p, 1);
        assert(before == p.take(i));
        if i >= base.len() {
            let shorter = rel.take(i - base.len());
            assert(before =~= base + shorter);
            lemma_longer_path_has_more(base, shorter);
        } else {
            assert(before =~= base.drop_last());
            lemma_end_carries_no_meaning(base);
            assert(known.subrange(0, known.len() as int) =~= known);
        }
        let upper = body_components(before, 1);
        assert(known.is_prefix_of(upper));
        let all = body_components(p, 1);
        assert(all == upper || all == upper.push(last_part(p, 1)));
        assert(all.subrange(0, known.len() as int) =~= upper.subrange(0, known.len() as int));
    }
}

/// Joining a relative path to a directory leads to a path within that directory.
pub proof fn lemma_join_is_within(base: Seq<char>, rel: Seq<char>)
    requires
        is_absolute(base),
        !is_absolute(rel),
    ensures
        components_of(base).is_prefix_of(components_of(join_of(base, rel))),
{
    let dir = if base.last() == '/' {
        base
    } else {
        base.push('/')
    };
    if base.last() != '/' {
        assert(dir.drop_last() =~= base);
        lemma_end_carries_no_meaning(dir);
    }
    lemma_longer_path_has_more(dir, rel);
    let p = join_of(base, rel);
    assert(p == dir + rel);
    assert(p[0] == '/');
    assert(p.take(1) =~= seq!['/']);
    assert(base.take(1) =~= seq!['/']);
    let known = body_components(base, 1);
    assert(known == body_components(dir, 1));
    let all = body_components(p, 1);
    let n = known.len() as int;
    assert(all.subrange(0, n) == known);
    let x = components_of(base);
    let y = components_of(p);
    assert forall|k: int| 0 <= k < x.len() implies x[k] == y[k] by {
        if k > 0 {
            assert(x[k] == known[k - 1]);
            assert(y[k] == all[k - 1]);
            assert(all.subrange(0, n)[k - 1] == all[k - 1]);
        }
    }
    assert(y.subrange(0, x.len() as int) =~= x);
}

proof fn lemma_tidy_end_keeps_components(p: Seq<char>, start: int)
    requires
        0 <= start,
    ensures
        body_components(tidy_end(p, start), start) == body_components(p, start),
        tidy_end(p, start).len() > start ==> !is_filler(last_part(tidy_end(p, start), start)),
    decreases p.len(),
{
    if start < p.len() {
        lemma_last_separator(p, start);
        if is_filler(last_part(p, start)) {
            lemma_tidy_end_keeps_components(before_last_part(p, start), start);
        }
    }
}

/// Of the absolute paths, those without a parent are those with no component but the root.
pub proof fn lemma_root_has_no_parent(p: Seq<char>)
    requires
        is_absolute(p),
    ensures
        components_of(p).len() > 0,
        components_of(p)[0] == seq!['/'],
        parent_of(p) is None <==> components_of(p).len() == 1,
{
    let t = tidy_end(p, 1);
    lemma_tidy_end_keeps_components(p, 1);
    assert(p.take(1) =~= seq!['/']);
    if t.len() > 1 {
        lemma_last_separator(t, 1);
        assert(body_components(t, 1).len() > 0);
    } else {
        assert(body_components(t, 1).len() == 0);
    }
}

proof fn lemma_last_separator_of_sum(a: Seq<char>, b: Seq<char>, start: int)
    requires
        0 <= start <= a.len(),
    ensures
        last_separator(a + b, start) == if last_separator(b, 0) >= 0 {
            a.len() + last_separator(b, 0)
        } else {
            last_separator(a, start)
        },
    decreases b.len(),
{
    let p = a + b;
    if b.len() == 0 {
        assert(p =~= a);
    } else {
        assert(p.last() == b.last());
        assert(p.drop_last() =~= a + b.drop_last());
        if b.last() != '/' {
            lemma_last_separator_of_sum(a, b.drop_last(), start);
        }
    }
}

proof fn lemma_no_separator(p: Seq<char>, start: int)
    requires
        0 <= start,
        !p.contains('/'),
    ensures
        last_separator(p, start) == -1,
{
    lemma_last_separator(p, start);
    lemma_separator_is_one(p, start);
    let i = last_separator(p, start);
    if i >= 0 {
        assert(p[i] == '/');
    }
}

proof fn lemma_separator_is_one(p: Seq<char>, start: int)
    requires
        0 <= start,
    ensures
        last_separator(p, start) >= 0 ==> p[last_separator(p, start)] == '/',
    decreases p.len(),
{
    if p.len() > start && p.last() != '/' {
        lemma_last_separator(p.drop_last(), start);
        lemma_separator_is_one(p.drop_last(), start);
    }
}

proof fn lemma_last_part_has_no_separator(p: Seq<char>, start: int)
    requires
        0 <= start <= p.len(),
    ensures
        !last_part(p, start).contains('/'),
{
    lemma_last_separator(p, start);
    let last = last_part(p, start);
    let from = p.len() - last.len();
    if last.contains('/') {
        let k = choose|k: int| 0 <= k < last.len() && last[k] == '/';
        assert(p[from + k] == '/');
        lemma_separator_is_found(p, start, from + k);
    }
}

/// What stands before is tidied by cutting it short, and no shorter than its beginning.
proof fn lemma_tidy_end_cuts(p: Seq<char>, start: int)
    requires
        0 <= start <= p.len(),
    ensures
        start <= tidy_end(p, start).len() <= p.len(),
        tidy_end(p, start) == p.take(tidy_end(p, start).len() as int),
    decreases p.len(),
{
    if start < p.len() && is_filler(last_part(p, start)) && before_last_part(p, start).len()
        < p.len() {
        lemma_last_separator(p, start);
        let before = before_last_part(p, start);
        lemma_tidy_end_cuts(before, start);
        assert(tidy_end(p, start) =~= p.take(tidy_end(p, start).len() as int));
    } else {
        assert(p =~= p.take(p.len() as int));
    }
}

proof fn lemma_body_of_sum(dir: Seq<char>, rel: Seq<char>)
    requires
        is_absolute(dir),
        dir.last() == '/',
    ensures
        body_components(dir + rel, 1) == body_components(dir, 1) + body_components(
            seq!['/'] + rel,
            1,
        ),
    decreases rel.len(),
{
    let p = dir + rel;
    let top = seq!['/'];
    let q = top + rel;
    assert(body_components(top, 1) =~= Seq::<Seq<char>>::empty());
    if rel.len() == 0 {
        assert(p =~= dir);
        assert(q =~= top);
        assert(body_components(dir, 1) + Seq::<Seq<char>>::empty() =~= body_components(dir, 1));
    } else if dir.len() == 1 {
        assert(dir =~= top);
        assert(body_components(top, 1) + body_components(q, 1) =~= body_components(q, 1));
    } else {
        lemma_last_separator_of_sum(dir, rel, 1);
        lemma_last_separator_of_sum(top, rel, 1);
        lemma_last_separator(rel, 0);
        let m = last_separator(rel, 0);
        if m >= 0 {
            let shorter = rel.take(m);
            lemma_body_of_sum(dir, shorter);
            assert(before_last_part(p, 1) =~= dir + shorter);
            assert(before_last_part(q, 1) =~= top + shorter);
            assert(last_part(p, 1) =~= rel.skip(m + 1));
            assert(last_part(q, 1) =~= rel.skip(m + 1));
            let last = rel.skip(m + 1);
            let upper = body_components(dir, 1);
            let lower = body_components(top + shorter, 1);
            assert((upper + lower).push(last) =~= upper + lower.push(last));
        } else {
            assert(last_separator(dir, 1) == dir.len() - 1);
            assert(last_separator(top, 1) == -1);
            assert(before_last_part(p, 1) =~= dir.drop_last());
            assert(last_part(p, 1) =~= rel);
            assert(before_last_part(q, 1) =~= top);
            assert(last_part(q, 1) =~= rel);
            lemma_end_carries_no_meaning(dir);
            let upper = body_components(dir, 1);
            assert(upper.push(rel) =~= upper + seq![rel]);
            assert(body_components(top, 1).push(rel) =~= seq![rel]);
            assert(upper + Seq::<Seq<char>>::empty() =~= upper);
        }
    }
}

/// The components of a path below a directory are those of the directory, and then those of what
/// stands behind it. A single name adds itself, and a name that is empty or `.` adds nothing.
pub proof fn law_join_adds_components(base: Seq<char>, rel: Seq<char>)
    requires
        is_absolute(base),
        !is_absolute(rel),
    ensures
        components_of(join_of(base, rel)) == components_of(base) + components_of(
            seq!['/'] + rel,
        ).skip(1),
        !rel.contains('/') ==> components_of(join_of(base, rel)) == if rel.len() == 0 || rel
            == seq!['.'] {
            components_of(base)
        } else {
            components_of(base).push(rel)
        },
        join_of(base, rel) == (if base.last() == '/' {
            base
        } else {
            base + seq!['/']
        }) + rel,
        components_of(seq!['/']) == seq![seq!['/']],
{
    let dir = if base.last() == '/' {
        base
    } else {
        base.push('/')
    };
    if base.last() != '/' {
        assert(dir.drop_last() =~= base);
        assert(dir =~= base + seq!['/']);
        lemma_end_carries_no_meaning(dir);
    }
    assert(components_of(dir) == components_of(base));
    let p = join_of(base, rel);
    assert(p =~= dir + rel);
    lemma_body_of_sum(dir, rel);
    let top = seq!['/'];
    let q = top + rel;
    assert(p.take(1) =~= top);
    assert(dir.take(1) =~= top);
    assert(q.take(1) =~= top);
    assert(top.take(1) =~= top);
    assert(body_components(top, 1) =~= Seq::<Seq<char>>::empty());
    assert(components_of(top) =~= seq![top]);
    assert(components_of(q).skip(1) =~= body_components(q, 1));
    assert(components_of(p) =~= components_of(dir) + body_components(q, 1));
    if !rel.contains('/') {
        lemma_last_separator_of_sum(top, rel, 1);
        lemma_no_separator(rel, 0);
        assert(last_separator(top, 1) == -1);
        if rel.len() > 0 {
            assert(before_last_part(q, 1) =~= top);
            assert(last_part(q, 1) =~= rel);
            if rel.len() == 1 && rel[0] == '.' {
                assert(rel =~= seq!['.']);
            }
            let known = components_of(base);
            assert(known + Seq::<Seq<char>>::empty() =~= known);
            assert(known + Seq::<Seq<char>>::empty().push(rel) =~= known.push(rel));
        } else {
            assert(q =~= top);
            let known = components_of(base);
            assert(known + Seq::<Seq<char>>::empty() =~= known);
        }
    }
}

/// Joined to whatever directory, a path that is absolute stays as it is.
pub proof fn law_absolute_path_stays_when_joined(base: Seq<char>, rel: Seq<char>)
    ensures
        is_absolute(rel) ==> join_of(base, rel) == rel,
        base.len() == 0 ==> join_of(base, rel) == rel,
{
    assert(base.len() == 0 ==> base + rel =~= rel);
}

/// A path without its last component is the path with the same components but the last, and
/// leads to the same place from its beginning. The last component is the name, unless it is
/// `..`. Only a path with no component but the root has no parent.
pub proof fn law_parent_and_name_make_up_the_path(p: Seq<char>)
    requires
        is_absolute(p),
    ensures
        components_of(p)[0] == seq!['/'],
        match parent_of(p) {
            None => components_of(p).len() == 1 && file_name_of(p) is None,
            Some(up) => {
                &&& components_of(p).len() > 1
                &&& components_of(up) == components_of(p).drop_last()
                &&& is_absolute(up)
                &&& up == p.take(up.len() as int)
                &&& up.len() < p.len()
                &&& file_name_of(p) == if components_of(p).last() == seq!['.', '.'] {
                    None
                } else {
                    Some(components_of(p).last())
                }
            },
        },
        forall|i: int|
            0 < i < components_of(p).len() ==> {
                let part = #[trigger] components_of(p)[i];
                part.len() > 0 && part != seq!['.'] && !part.contains('/')
            },
{
    let t = tidy_end(p, 1);
    lemma_root_has_no_parent(p);
    lemma_tidy_end_keeps_components(p, 1);
    lemma_tidy_end_cuts(p, 1);
    lemma_body_is_of_names(p, 1);
    assert(p.take(1) =~= seq!['/']);
    let all = components_of(p);
    let body = body_components(p, 1);
    assert(all =~= seq![seq!['/']] + body);
    assert forall|i: int| 0 < i < all.len() implies ({
        let part = #[trigger] all[i];
        part.len() > 0 && part != seq!['.'] && !part.contains('/')
    }) by {
        assert(all[i] == body[i - 1]);
    }
    if t.len() > 1 {
        lemma_last_separator(t, 1);
        let before = before_last_part(t, 1);
        let last = last_part(t, 1);
        let up = tidy_end(before, 1);
        lemma_tidy_end_keeps_components(before, 1);
        lemma_tidy_end_cuts(before, 1);
        assert(body == body_components(before, 1).push(last));
        assert(up =~= p.take(up.len() as int));
        assert(up[0] == '/');
        assert(up.take(1) =~= seq!['/']);
        assert(components_of(up) =~= all.drop_last());
        assert(all.last() == last);
    }
}

proof fn lemma_body_is_of_names(p: Seq<char>, start: int)
    requires
        0 <= start,
    ensures
        forall|i: int|
            0 <= i < body_components(p, start).len() ==> {
                let part = #[trigger] body_components(p, start)[i];
                part.len() > 0 && part != seq!['.'] && !part.contains('/')
            },
    decreases p.len(),
{
    if start < p.len() && before_last_part(p, start).len() < p.len() {
        let before = body_components(before_last_part(p, start), start);
        let last = last_part(p, start);
        lemma_body_is_of_names(before_last_part(p, start), start);
        lemma_last_part_has_no_separator(p, start);
        if !is_filler(last) {
            assert(last != seq!['.']) by {
                assert(seq!['.'].len() == 1 && seq!['.'][0] == '.');
            }
            assert forall|i: int| 0 <= i < before.push(last).len() implies ({
                let part = #[trigger] before.push(last)[i];
                part.len() > 0 && part != seq!['.'] && !part.contains('/')
            }) by {
                if i < before.len() {
                    assert(before.push(last)[i] == before[i]);
                }
            }
        }
    }
}

/// Behind the first character, a path has the components that it has without that character.
pub proof fn lemma_body_without_lead(c: char, rel: Seq<char>)
    ensures
        body_components(seq![c] + rel, 1) == body_components(rel, 0),
    decreases rel.len(),
{
    let q = seq![c] + rel;
    lemma_last_separator_of_sum(seq![c], rel, 1);
    lemma_last_separator(rel, 0);
    if rel.len() > 0 {
        let m = last_separator(rel, 0);
        if m >= 0 {
            assert(before_last_part(q, 1) =~= seq![c] + rel.take(m));
            assert(last_part(q, 1) =~= last_part(rel, 0));
            lemma_body_without_lead(c, rel.take(m));
        } else {
            assert(last_separator(seq![c], 1) == -1);
            assert(before_last_part(q, 1) =~= seq![c]);
            assert(last_part(q, 1) =~= rel);
            assert(last_part(rel, 0) =~= rel);
            assert(before_last_part(rel, 0).len() == 0);
            assert(body_components(seq![c], 1) =~= Seq::<Seq<char>>::empty());
            assert(body_components(before_last_part(rel, 0), 0) =~= Seq::<Seq<char>>::empty());
        }
    } else {
        assert(q =~= seq![c]);
    }
}

/// The same of a path that is not absolute and does not begin with the component `.`: its parent
/// has its components but the last, which is its name unless it is `..`. Only without any
/// component has it no parent.
pub proof fn law_relative_parent_and_name_make_up_the_path(p: Seq<char>)
    requires
        !is_absolute(p),
        !starts_at_dot(p),
    ensures
        match parent_of(p) {
            None => components_of(p).len() == 0 && file_name_of(p) is None,
            Some(up) => {
                &&& components_of(p).len() > 0
                &&& components_of(up) == components_of(p).drop_last()
                &&& up == p.take(up.len() as int)
                &&& up.len() < p.len()
                &&& file_name_of(p) == if components_of(p).last() == seq!['.', '.'] {
                    None
                } else {
                    Some(components_of(p).last())
                }
            },
        },
        forall|i: int|
            0 <= i < components_of(p).len() ==> {
                let part = #[trigger] components_of(p)[i];
                part.len() > 0 && part != seq!['.'] && !part.contains('/')
            },
{
    let t = tidy_end(p, 0);
    lemma_tidy_end_keeps_components(p, 0);
    lemma_tidy_end_cuts(p, 0);
    lemma_body_is_of_names(p, 0);
    lemma_parent_is_shorter(p);
    let all = components_of(p);
    if t.len() > 0 {
        lemma_last_separator(t, 0);
        let before = before_last_part(t, 0);
        let up = tidy_end(before, 0);
        lemma_tidy_end_keeps_components(before, 0);
        lemma_tidy_end_cuts(before, 0);
        assert(all == body_components(before, 0).push(last_part(t, 0)));
        assert(up =~= p.take(up.len() as int));
        assert(!is_absolute(up));
        assert(!starts_at_dot(up)) by {
            if starts_at_dot(up) {
                assert(p[0] == '.');
                if up.len() == 1 {
                    lemma_tidied_has_no_filler(before, 0);
                    assert(last_separator(up, 0) == -1) by {
                        lemma_last_separator(up, 0);
                        lemma_separator_is_one(up, 0);
                    }
                    assert(last_part(up, 0) =~= up);
                } else {
                    assert(p[1] == up[1]);
                }
            }
        }
        assert(components_of(up) =~= all.drop_last());
    }
}

proof fn lemma_tidied_has_no_filler(p: Seq<char>, start: int)
    requires
        0 <= start,
    ensures
        tidy_end(p, start).len() > start ==> !is_filler(last_part(tidy_end(p, start), start)),
{
    lemma_tidy_end_keeps_components(p, start);
}

}
