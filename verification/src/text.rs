//! Small string operations with exact contracts over the characters of a string.
use vstd::prelude::*;
#[allow(unused_imports)]
use crate::outside::is_white_space;

verus! {

/// The characters of `s`, in order.
pub fn chars_of(s: &str) -> (res: Vec<char>)
    ensures
        res@ == s@,
{
    let mut res: Vec<char> = Vec::new();
    for c in it: s.chars()
        invariant
            it.seq() == s@,
            res@ == s@.take(it.index()),
    {
        res.push(c);
        assert(s@.take(it.index() + 1) =~= s@.take(it.index()).push(c));
    }
    assert(s@.take(s@.len() as int) =~= s@);
    res
}

/// Whether two strings hold the same characters.
pub fn same_text(a: &str, b: &str) -> (res: bool)
    ensures
        res == (a@ == b@),
{
    a.to_owned() == b.to_owned()
}

/// `a` followed by `b`.
pub fn joined(a: &str, b: &str) -> (res: String)
    ensures
        res@ == a@ + b@,
{
    a.to_owned().concat(b)
}

/// Whether `s` begins with `prefix`.
pub fn starts_with(s: &str, prefix: &str) -> (res: bool)
    ensures
        res == prefix@.is_prefix_of(s@),
{
    let a = chars_of(s);
    let p = chars_of(prefix);
    if p.len() > a.len() {
        return false;
    }
    let mut i: usize = 0;
    while i < p.len()
        invariant
            i <= p.len() <= a.len(),
            a@ == s@,
            p@ == prefix@,
            forall|j: int| 0 <= j < i ==> a@[j] == p@[j],
        decreases p.len() - i,
    {
        if a[i] != p[i] {
            return false;
        }
        i += 1;
    }
    assert(s@.subrange(0, prefix@.len() as int) =~= prefix@);
    true
}

/// What is left of `s` after a leading `prefix`, if it has one.
pub open spec fn without_prefix(s: Seq<char>, prefix: Seq<char>) -> Option<Seq<char>> {
    if prefix.is_prefix_of(s) {
        Some(s.skip(prefix.len() as int))
    } else {
        None
    }
}

/// What is left of `s` after a leading `prefix`, if it has one.
pub fn strip_prefix(s: &str, prefix: &str) -> (res: Option<String>)
    ensures
        res is Some == without_prefix(s@, prefix@) is Some,
        res matches Some(rest) ==> Some(rest@) == without_prefix(s@, prefix@),
{
    if starts_with(s, prefix) {
        let n = prefix.unicode_len();
        let len = s.unicode_len();
        Some(s.substring_char(n, len).to_owned())
    } else {
        None
    }
}

/// Where `c` first occurs in `s`.
pub open spec fn first_at(s: Seq<char>, c: char, i: int) -> bool {
    &&& 0 <= i < s.len()
    &&& s[i] == c
    &&& forall|j: int| 0 <= j < i ==> s[j] != c
}

fn find_char(s: &Vec<char>, c: char, from: usize) -> (res: Option<usize>)
    requires
        from <= s.len(),
    ensures
        res matches Some(i) ==> from <= i < s.len() && first_at(s@.skip(from as int), c, i - from),
        res is None ==> !s@.skip(from as int).contains(c),
{
    let mut i: usize = from;
    while i < s.len()
        invariant
            from <= i <= s.len(),
            forall|j: int| from <= j < i ==> s@[j] != c,
        decreases s.len() - i,
    {
        if s[i] == c {
            return Some(i);
        }
        i += 1;
    }
    None
}

/// `s` cut at the first `sep`, the separator itself dropped.
pub open spec fn cut_once(s: Seq<char>, sep: char) -> Option<(Seq<char>, Seq<char>)> {
    if s.contains(sep) {
        let i = choose|i: int| first_at(s, sep, i);
        Some((s.take(i), s.skip(i + 1)))
    } else {
        None
    }
}

proof fn lemma_first_at_unique(s: Seq<char>, c: char, i: int, j: int)
    requires
        first_at(s, c, i),
        first_at(s, c, j),
    ensures
        i == j,
{
    if i < j {
        assert(s[i] != c);
    } else if j < i {
        assert(s[j] != c);
    }
}

proof fn lemma_cut_at(s: Seq<char>, sep: char, i: int)
    requires
        first_at(s, sep, i),
    ensures
        s.contains(sep),
        cut_once(s, sep) == Some((s.take(i), s.skip(i + 1))),
{
    let k = choose|k: int| first_at(s, sep, k);
    lemma_first_at_unique(s, sep, i, k);
}

/// `s` cut at the first `sep`, the separator itself dropped.
pub fn split_once(s: &str, sep: char) -> (res: Option<(String, String)>)
    ensures
        res is Some == cut_once(s@, sep) is Some,
        res matches Some(p) ==> Some((p.0@, p.1@)) == cut_once(s@, sep),
{
    let v = chars_of(s);
    assert(v@.skip(0) =~= s@);
    match find_char(&v, sep, 0) {
        Some(i) => {
            proof {
                lemma_cut_at(s@, sep, i as int);
            }
            let n = v.len();
            Some((s.substring_char(0, i).to_owned(), s.substring_char(i + 1, n).to_owned()))
        },
        None => None,
    }
}

/// The pieces of `s` between occurrences of `sep`; at least one piece.
pub open spec fn pieces(s: Seq<char>, sep: char) -> Seq<Seq<char>>
    decreases s.len(),
{
    match cut_once(s, sep) {
        Some((head, tail)) => if tail.len() < s.len() {
            seq![head] + pieces(tail, sep)
        } else {
            seq![s]
        },
        None => seq![s],
    }
}

/// The characters of every string of a list.
pub open spec fn texts(v: Seq<String>) -> Seq<Seq<char>> {
    v.map_values(|t: String| t@)
}

/// The pieces of `s` between occurrences of `sep`; at least one piece.
pub fn split(s: &str, sep: char) -> (res: Vec<String>)
    ensures
        texts(res@) == pieces(s@, sep),
{
    let v = chars_of(s);
    let n = v.len();
    let mut res: Vec<String> = Vec::new();
    let mut from: usize = 0;
    assert(v@.skip(0) =~= s@);
    assert(texts(res@) + pieces(s@, sep) =~= pieces(s@, sep));
    loop
        invariant
            from <= n,
            n == v.len(),
            v@ == s@,
            texts(res@) + pieces(v@.skip(from as int), sep) == pieces(s@, sep),
        decreases n - from,
    {
        let ghost rest = v@.skip(from as int);
        let ghost before = texts(res@);
        match find_char(&v, sep, from) {
            Some(i) => {
                proof {
                    lemma_cut_at(rest, sep, i - from);
                    assert(rest.take(i - from) =~= s@.subrange(from as int, i as int));
                    assert(rest.skip(i - from + 1) =~= v@.skip(i + 1));
                }
                let piece = s.substring_char(from, i).to_owned();
                let ghost piece_text = piece@;
                res.push(piece);
                assert(texts(res@) =~= before.push(piece_text));
                assert(before + (seq![piece_text] + pieces(v@.skip(i + 1), sep)) =~= before.push(
                    piece_text,
                ) + pieces(v@.skip(i + 1), sep));
                from = i + 1;
            },
            None => {
                assert(rest =~= s@.subrange(from as int, n as int));
                let piece = s.substring_char(from, n).to_owned();
                let ghost piece_text = piece@;
                res.push(piece);
                assert(texts(res@) =~= before + seq![piece_text]);
                return res;
            },
        }
    }
}

/// `s` without leading white space.
pub open spec fn trim_front(s: Seq<char>) -> Seq<char>
    decreases s.len(),
{
    if s.len() > 0 && is_white_space(s[0]) {
        trim_front(s.skip(1))
    } else {
        s
    }
}

/// `s` without trailing white space.
pub open spec fn trim_back(s: Seq<char>) -> Seq<char>
    decreases s.len(),
{
    if s.len() > 0 && is_white_space(s.last()) {
        trim_back(s.drop_last())
    } else {
        s
    }
}

/// `s` without white space at either end.
pub open spec fn trimmed(s: Seq<char>) -> Seq<char> {
    trim_back(trim_front(s))
}

/// `s` without white space at either end.
pub fn trim(s: &str) -> (res: String)
    ensures
        res@ == trimmed(s@),
{
    let v = chars_of(s);
    let mut lo: usize = 0;
    assert(v@.skip(0) =~= v@);
    while lo < v.len() && v[lo].is_whitespace()
        invariant
            lo <= v.len(),
            v@ == s@,
            trim_front(v@.skip(lo as int)) == trim_front(s@),
        decreases v.len() - lo,
    {
        assert(v@.skip(lo as int).skip(1) =~= v@.skip(lo + 1));
        lo += 1;
    }
    let mut hi: usize = v.len();
    let ghost front = v@.skip(lo as int);
    assert(trim_front(front) == front);
    assert(v@.subrange(lo as int, hi as int) =~= front);
    while hi > lo && v[hi - 1].is_whitespace()
        invariant
            lo <= hi <= v.len(),
            v@ == s@,
            front == trim_front(s@),
            trim_back(v@.subrange(lo as int, hi as int)) == trim_back(front),
        decreases hi,
    {
        assert(v@.subrange(lo as int, hi as int).drop_last() =~= v@.subrange(
            lo as int,
            hi - 1,
        ));
        hi -= 1;
    }
    s.substring_char(lo, hi).to_owned()
}

/// The lower-case form of an ASCII letter; any other character unchanged.
pub open spec fn ascii_lower(c: char) -> char {
    if 'A' <= c <= 'Z' {
        ((c as u32) + 32) as char
    } else {
        c
    }
}

/// Equality of two texts up to the case of ASCII letters.
pub open spec fn same_but_case(a: Seq<char>, b: Seq<char>) -> bool {
    a.len() == b.len() && forall|i: int|
        0 <= i < a.len() ==> ascii_lower(#[trigger] a[i]) == ascii_lower(b[i])
}

fn lower(c: char) -> (res: char)
    ensures
        res == ascii_lower(c),
{
    match c {
        'A' => 'a',
        'B' => 'b',
        'C' => 'c',
        'D' => 'd',
        'E' => 'e',
        'F' => 'f',
        'G' => 'g',
        'H' => 'h',
        'I' => 'i',
        'J' => 'j',
        'K' => 'k',
        'L' => 'l',
        'M' => 'm',
        'N' => 'n',
        'O' => 'o',
        'P' => 'p',
        'Q' => 'q',
        'R' => 'r',
        'S' => 's',
        'T' => 't',
        'U' => 'u',
        'V' => 'v',
        'W' => 'w',
        'X' => 'x',
        'Y' => 'y',
        'Z' => 'z',
        _ => c,
    }
}

/// Equality of two strings up to the case of ASCII letters.
pub fn eq_ignore_ascii_case(a: &str, b: &str) -> (res: bool)
    ensures
        res == same_but_case(a@, b@),
{
    let x = chars_of(a);
    let y = chars_of(b);
    if x.len() != y.len() {
        return false;
    }
    let mut i: usize = 0;
    while i < x.len()
        invariant
            i <= x.len(),
            x.len() == y.len(),
            x@ == a@,
            y@ == b@,
            forall|j: int| 0 <= j < i ==> ascii_lower(#[trigger] x@[j]) == ascii_lower(y@[j]),
        decreases x.len() - i,
    {
        if lower(x[i]) != lower(y[i]) {
            return false;
        }
        i += 1;
    }
    true
}

/// A text is cut at the first separator: what stands before has none, and with the separator
/// between them the two halves make up the text.
pub proof fn law_cut_is_at_the_first(s: Seq<char>, sep: char, head: Seq<char>, tail: Seq<char>)
    ensures
        cut_once(s, sep) == Some((head, tail)) <==> s == head + seq![sep] + tail
            && !head.contains(sep),
        cut_once(s, sep) is None <==> !s.contains(sep),
{
    if s.contains(sep) {
        let k = choose|k: int| 0 <= k < s.len() && s[k] == sep;
        lemma_first_at_exists(s, sep, k);
        let i = choose|i: int| first_at(s, sep, i);
        lemma_cut_at(s, sep, i);
        assert(s =~= s.take(i) + seq![sep] + s.skip(i + 1));
        assert(!s.take(i).contains(sep));
    }
    if s == head + seq![sep] + tail && !head.contains(sep) {
        let n = head.len() as int;
        assert(s[n] == sep);
        assert forall|j: int| 0 <= j < n implies s[j] != sep by {
            assert(head[j] == s[j]);
            if head[j] == sep {
                assert(head.contains(sep));
            }
        }
        assert(first_at(s, sep, n));
        lemma_cut_at(s, sep, n);
        assert(s.take(n) =~= head);
        assert(s.skip(n + 1) =~= tail);
    }
}

proof fn lemma_first_at_exists(s: Seq<char>, c: char, k: int)
    requires
        0 <= k < s.len(),
        s[k] == c,
    ensures
        exists|i: int| first_at(s, c, i),
    decreases k,
{
    if exists|j: int| 0 <= j < k && s[j] == c {
        let j = choose|j: int| 0 <= j < k && s[j] == c;
        lemma_first_at_exists(s, c, j);
    } else {
        assert(first_at(s, c, k));
    }
}

/// Two texts are the same but for case exactly if they are as long as each other, and at every
/// place have the same character, or the same letter from `a` to `z` once small and once capital.
pub proof fn law_only_case_is_ignored(a: Seq<char>, b: Seq<char>)
    ensures
        same_but_case(a, b) <==> a.len() == b.len() && forall|i: int|
            #![trigger a[i]]
            0 <= i < a.len() ==> {
                ||| a[i] == b[i]
                ||| 'A' <= a[i] <= 'Z' && a[i] as int + 32 == b[i] as int
                ||| 'A' <= b[i] <= 'Z' && b[i] as int + 32 == a[i] as int
            },
{
    assert forall|x: char, y: char|
        (#[trigger] ascii_lower(x) == #[trigger] ascii_lower(y)) <==> (x == y || ('A' <= x <= 'Z'
            && x as int + 32 == y as int) || ('A' <= y <= 'Z' && y as int + 32 == x as int)) by {
        lemma_lower_of_capital(x);
        lemma_lower_of_capital(y);
    }
    if a.len() == b.len() {
        assert(forall|i: int|
            0 <= i < a.len() ==> (ascii_lower(#[trigger] a[i]) == ascii_lower(b[i]) <==> (a[i]
                == b[i] || ('A' <= a[i] <= 'Z' && a[i] as int + 32 == b[i] as int) || ('A' <= b[i]
                <= 'Z' && b[i] as int + 32 == a[i] as int))));
    }
}

proof fn lemma_lower_of_capital(c: char)
    ensures
        'A' <= c <= 'Z' ==> ascii_lower(c) as int == c as int + 32,
        !('A' <= c <= 'Z') ==> ascii_lower(c) == c,
{
}

/// A prefix is cut off exactly where it stands: with it the rest makes up the text.
pub proof fn law_prefix_and_rest_make_up_the_text(s: Seq<char>, prefix: Seq<char>, rest: Seq<char>)
    ensures
        without_prefix(s, prefix) == Some(rest) <==> s == prefix + rest,
        without_prefix(s, prefix) is None <==> !prefix.is_prefix_of(s),
{
    if prefix.is_prefix_of(s) {
        assert(s =~= prefix + s.skip(prefix.len() as int));
    }
    if s == prefix + rest {
        assert(s.subrange(0, prefix.len() as int) =~= prefix);
        assert(s.skip(prefix.len() as int) =~= rest);
    }
}

/// Texts with a separator between each two of them.
pub open spec fn joined_by(parts: Seq<Seq<char>>, sep: char) -> Seq<char>
    decreases parts.len(),
{
    if parts.len() == 0 {
        Seq::empty()
    } else if parts.len() == 1 {
        parts[0]
    } else {
        parts[0] + seq![sep] + joined_by(parts.skip(1), sep)
    }
}

/// The pieces of a text have no separator in them, there is at least one, and with a separator
/// between each two of them they make up the text.
pub proof fn law_pieces_make_up_the_text(s: Seq<char>, sep: char)
    ensures
        pieces(s, sep).len() > 0,
        joined_by(pieces(s, sep), sep) == s,
        forall|i: int| 0 <= i < pieces(s, sep).len() ==> !(#[trigger] pieces(s, sep)[i]).contains(sep),
    decreases s.len(),
{
    match cut_once(s, sep) {
        Some((head, tail)) => {
            law_cut_is_at_the_first(s, sep, head, tail);
            law_pieces_make_up_the_text(tail, sep);
            let rest = pieces(tail, sep);
            let all = seq![head] + rest;
            assert(all.skip(1) =~= rest);
            assert(pieces(s, sep) == all);
            assert forall|i: int| 0 <= i < all.len() implies !(#[trigger] all[i]).contains(sep) by {
                if i > 0 {
                    assert(all[i] == rest[i - 1]);
                }
            }
        },
        None => {
            law_cut_is_at_the_first(s, sep, s, s);
        },
    }
}

/// What is trimmed off a text is white space at either end, and none is left there.
pub proof fn law_only_white_space_is_trimmed(s: Seq<char>)
    ensures
        exists|i: int, j: int|
            {
                &&& 0 <= i <= j <= s.len()
                &&& trimmed(s) == #[trigger] s.subrange(i, j)
                &&& forall|k: int| 0 <= k < i || j <= k < s.len() ==> is_white_space(#[trigger] s[k])
            },
        trimmed(s).len() > 0 ==> !is_white_space(trimmed(s)[0]) && !is_white_space(
            trimmed(s).last(),
        ),
{
    lemma_trim_front(s);
    let i = s.len() - trim_front(s).len();
    let front = trim_front(s);
    lemma_trim_back(front);
    let j = i + trim_back(front).len();
    assert(trimmed(s) =~= s.subrange(i, j));
    assert forall|k: int| 0 <= k < i || j <= k < s.len() implies is_white_space(#[trigger] s[k]) by {
        if k >= j {
            assert(front[k - i] == s[k]);
        }
    }
}

proof fn lemma_trim_front(s: Seq<char>)
    ensures
        trim_front(s).len() <= s.len(),
        trim_front(s) == s.skip(s.len() - trim_front(s).len()),
        forall|k: int| 0 <= k < s.len() - trim_front(s).len() ==> is_white_space(#[trigger] s[k]),
        trim_front(s).len() > 0 ==> !is_white_space(trim_front(s)[0]),
    decreases s.len(),
{
    if s.len() > 0 && is_white_space(s[0]) {
        let rest = s.skip(1);
        lemma_trim_front(rest);
        assert(trim_front(s) =~= s.skip(s.len() - trim_front(s).len()));
        assert forall|k: int| 0 <= k < s.len() - trim_front(s).len() implies is_white_space(
            #[trigger] s[k],
        ) by {
            if k > 0 {
                assert(rest[k - 1] == s[k]);
            }
        }
    } else {
        assert(s =~= s.skip(0));
    }
}

proof fn lemma_trim_back(s: Seq<char>)
    ensures
        trim_back(s).len() <= s.len(),
        trim_back(s) == s.take(trim_back(s).len() as int),
        forall|k: int| trim_back(s).len() <= k < s.len() ==> is_white_space(#[trigger] s[k]),
        trim_back(s).len() > 0 ==> !is_white_space(trim_back(s).last()),
    decreases s.len(),
{
    if s.len() > 0 && is_white_space(s.last()) {
        let rest = s.drop_last();
        lemma_trim_back(rest);
        assert(trim_back(s) =~= s.take(trim_back(s).len() as int));
        assert forall|k: int| trim_back(s).len() <= k < s.len() implies is_white_space(
            #[trigger] s[k],
        ) by {
            if k < s.len() - 1 {
                assert(rest[k] == s[k]);
            }
        }
    } else {
        assert(s =~= s.take(s.len() as int));
    }
}

}
