//! Numbers as text: decimal output, decimal input, and lower-case hexadecimal.
use vstd::prelude::*;
use crate::text::chars_of;

verus! {

/// The character for a digit below sixteen, letters in lower case.
pub open spec fn digit_char(d: int) -> char {
    if d < 10 {
        (('0' as u32) + d) as char
    } else {
        (('a' as u32) + d - 10) as char
    }
}

fn digit(d: u8) -> (res: char)
    requires
        d < 16,
    ensures
        res == digit_char(d as int),
{
    match d {
        0 => '0',
        1 => '1',
        2 => '2',
        3 => '3',
        4 => '4',
        5 => '5',
        6 => '6',
        7 => '7',
        8 => '8',
        9 => '9',
        10 => 'a',
        11 => 'b',
        12 => 'c',
        13 => 'd',
        14 => 'e',
        _ => 'f',
    }
}

/// The decimal digits of `n`, most significant first.
pub open spec fn decimal_of(n: nat) -> Seq<char>
    decreases n,
{
    if n < 10 {
        seq![digit_char(n as int)]
    } else {
        decimal_of(n / 10).push(digit_char((n % 10) as int))
    }
}

/// The decimal digits of `n`, most significant first.
pub fn decimal(n: u128) -> (res: String)
    ensures
        res@ == decimal_of(n as nat),
    decreases n,
{
    if n < 10 {
        let mut res = String::new();
        res.push(digit(n as u8));
        assert(res@ =~= seq![digit_char(n as int)]);
        res
    } else {
        let mut res = decimal(n / 10);
        res.push(digit((n % 10) as u8));
        res
    }
}

/// Whether `c` is one of `0` to `9`.
pub open spec fn is_digit(c: char) -> bool {
    '0' <= c <= '9'
}

/// The number that a run of decimal digits stands for.
pub open spec fn digits_value(s: Seq<char>) -> nat
    decreases s.len(),
{
    if s.len() == 0 {
        0
    } else {
        digits_value(s.drop_last()) * 10 + ((s.last() as u32) - ('0' as u32)) as nat
    }
}

/// An unsigned decimal number: an optional `+`, then at least one digit.
pub open spec fn unsigned_digits(s: Seq<char>) -> Seq<char> {
    if s.len() > 0 && s[0] == '+' {
        s.skip(1)
    } else {
        s
    }
}

/// The value of a text that reads as a number of 64 bits without sign.
pub open spec fn parsed_u64(s: Seq<char>) -> Option<u64> {
    let d = unsigned_digits(s);
    if d.len() > 0 && (forall|i: int| 0 <= i < d.len() ==> is_digit(#[trigger] d[i]))
        && digits_value(d) <= u64::MAX {
        Some(digits_value(d) as u64)
    } else {
        None
    }
}

proof fn lemma_digits_value_grows(s: Seq<char>, k: int)
    requires
        0 <= k <= s.len(),
        forall|i: int| 0 <= i < s.len() ==> is_digit(#[trigger] s[i]),
    ensures
        digits_value(s.take(k)) <= digits_value(s),
    decreases s.len() - k,
{
    if k < s.len() {
        lemma_digits_value_grows(s, k + 1);
        assert(s.take(k + 1).drop_last() =~= s.take(k));
    } else {
        assert(s.take(k) =~= s);
    }
}

/// The value of a text that reads as a number of 64 bits without sign.
pub fn parse_u64(s: &str) -> (res: Option<u64>)
    ensures
        res == parsed_u64(s@),
{
    let v = chars_of(s);
    let from: usize = if v.len() > 0 && v[0] == '+' {
        1
    } else {
        0
    };
    let ghost d = unsigned_digits(s@);
    assert(d =~= v@.skip(from as int));
    if from == v.len() {
        return None;
    }
    let mut i: usize = from;
    let mut value: u64 = 0;
    let mut too_big = false;
    assert(d.take(0) =~= Seq::<char>::empty());
    while i < v.len()
        invariant
            from <= i <= v.len(),
            v@ == s@,
            d == v@.skip(from as int),
            d == unsigned_digits(s@),
            forall|j: int| 0 <= j < i - from ==> is_digit(#[trigger] d[j]),
            !too_big ==> value as nat == digits_value(d.take(i - from)),
            too_big ==> digits_value(d.take(i - from)) > u64::MAX,
        decreases v.len() - i,
    {
        let c = v[i];
        assert(c == d[i - from]);
        if c < '0' || c > '9' {
            return None;
        }
        assert(d.take(i - from + 1).drop_last() =~= d.take(i - from));
        assert(d.take(i - from + 1).last() == c);
        let x: u64 = (c as u32 - '0' as u32) as u64;
        if !too_big {
            if value > u64::MAX / 10 || value * 10 > u64::MAX - x {
                too_big = true;
            } else {
                value = value * 10 + x;
            }
        }
        i += 1;
    }
    assert(d.take(i - from) =~= d);
    if too_big {
        None
    } else {
        Some(value)
    }
}

/// Two lower-case hexadecimal digits for each byte.
pub open spec fn hex_of(bytes: Seq<u8>) -> Seq<char> {
    Seq::new(
        2 * bytes.len(),
        |i: int|
            if i % 2 == 0 {
                digit_char(bytes[i / 2] as int / 16)
            } else {
                digit_char(bytes[i / 2] as int % 16)
            },
    )
}

/// Two lower-case hexadecimal digits for each byte.
pub fn lower_hex(bytes: &[u8]) -> (res: String)
    ensures
        res@ == hex_of(bytes@),
{
    let mut res = String::new();
    let mut i: usize = 0;
    while i < bytes.len()
        invariant
            i <= bytes.len(),
            res@ == hex_of(bytes@.take(i as int)),
        decreases bytes.len() - i,
    {
        let ghost before = res@;
        res.push(digit(bytes[i] / 16));
        res.push(digit(bytes[i] % 16));
        assert(res@ =~= hex_of(bytes@.take(i + 1)));
        i += 1;
    }
    assert(bytes@.take(i as int) =~= bytes@);
    res
}

/// Each character stands for its own digit: `0` to `9`, then `a` to `f`.
pub proof fn law_digits_are_told_apart(d: int, e: int)
    requires
        0 <= d < 16,
        0 <= e < 16,
    ensures
        d < 10 ==> digit_char(d) as int == 48 + d,
        d >= 10 ==> digit_char(d) as int == 87 + d,
        digit_char(d) == digit_char(e) <==> d == e,
{
}

/// The digits of a number stand for that number, and there is no needless zero before them. As
/// text they read back as the number, as far as it fits.
pub proof fn law_number_reads_back(n: nat)
    ensures
        n <= u64::MAX ==> parsed_u64(decimal_of(n)) == Some(n as u64),
        digits_value(decimal_of(n)) == n,
        forall|i: int|
            0 <= i < decimal_of(n).len() ==> '0' <= #[trigger] decimal_of(n)[i] <= '9',
        n > 0 ==> decimal_of(n)[0] != '0',
        n == 0 ==> decimal_of(n) == seq!['0'],
{
    lemma_decimal(n);
    let d = decimal_of(n);
    assert(forall|i: int| 0 <= i < d.len() ==> is_digit(#[trigger] d[i]));
    assert(is_digit(d[0]));
    assert(d[0] != '+');
    assert(unsigned_digits(d) == d);
}

proof fn lemma_decimal(n: nat)
    ensures
        decimal_of(n).len() > 0,
        digits_value(decimal_of(n)) == n,
        forall|i: int| 0 <= i < decimal_of(n).len() ==> is_digit(#[trigger] decimal_of(n)[i]),
        n > 0 ==> decimal_of(n)[0] != '0',
        n == 0 ==> decimal_of(n) == seq!['0'],
    decreases n,
{
    let d = decimal_of(n);
    if n < 10 {
        assert(d.drop_last() =~= Seq::<char>::empty());
        assert(digits_value(d.drop_last()) == 0);
        assert(d.last() == digit_char(n as int));
    } else {
        lemma_decimal(n / 10);
        assert(d.drop_last() =~= decimal_of(n / 10));
    }
}

/// A text reads as a number exactly if it has at least one digit, nothing but digits behind an
/// optional `+`, and its value fits. Each digit more counts the value ten times and adds its own.
pub proof fn law_text_reads_as_number(s: Seq<char>, c: char, rest: Seq<char>)
    ensures
        parsed_u64(s) is Some ==> s.len() > 0 && forall|i: int|
            0 <= i < s.len() ==> '0' <= #[trigger] s[i] <= '9' || (i == 0 && s[i] == '+'
                && s.len() > 1),
        s == seq!['+'] + rest && rest.len() > 0 && rest[0] != '+' ==> parsed_u64(s) == parsed_u64(
            rest,
        ),
        parsed_u64(Seq::empty()) is None,
        '0' <= c <= '9' ==> parsed_u64(seq![c]) == Some((c as int - 48) as u64),
        parsed_u64(s) matches Some(v) ==> parsed_u64(s.push(c)) == (if '0' <= c <= '9' && v * 10
            + (c as int - 48) <= u64::MAX {
            Some((v * 10 + (c as int - 48)) as u64)
        } else {
            None
        }),
{
    let d = unsigned_digits(s);
    if parsed_u64(s) is Some {
        assert forall|i: int| 0 <= i < s.len() implies '0' <= #[trigger] s[i] <= '9' || (i == 0
            && s[i] == '+' && s.len() > 1) by {
            if s[0] == '+' {
                if i > 0 {
                    assert(d[i - 1] == s[i]);
                    assert(is_digit(d[i - 1]));
                }
            } else {
                assert(is_digit(d[i]));
            }
        }
        let longer = s.push(c);
        assert(unsigned_digits(longer) =~= d.push(c));
        assert(d.push(c).drop_last() =~= d);
        if '0' <= c <= '9' {
            assert forall|i: int| 0 <= i < d.push(c).len() implies is_digit(
                #[trigger] d.push(c)[i],
            ) by {
                if i < d.len() {
                    assert(is_digit(d[i]));
                }
            }
        } else {
            assert(!is_digit(d.push(c)[d.len() as int]));
        }
    }
    if s == seq!['+'] + rest && rest.len() > 0 && rest[0] != '+' {
        assert(s.skip(1) =~= rest);
        assert(unsigned_digits(s) == rest && unsigned_digits(rest) == rest);
    }
    if '0' <= c <= '9' {
        assert(unsigned_digits(seq![c]) == seq![c]);
        assert(seq![c].drop_last() =~= Seq::<char>::empty());
        assert(digits_value(seq![c].drop_last()) == 0);
    }
}

/// Bytes in hexadecimal have two digits each, the one that counts sixteen times first, so that
/// different bytes give different texts.
pub proof fn law_hex_tells_bytes_apart(a: Seq<u8>, b: Seq<u8>, i: int)
    ensures
        hex_of(a).len() == 2 * a.len(),
        0 <= i < a.len() ==> hex_of(a)[2 * i] == digit_char(a[i] as int / 16) && hex_of(a)[2 * i
            + 1] == digit_char(a[i] as int % 16),
        hex_of(a) == hex_of(b) <==> a == b,
{
    if hex_of(a) == hex_of(b) {
        assert(hex_of(a).len() == 2 * a.len() && hex_of(b).len() == 2 * b.len());
        assert forall|k: int| 0 <= k < a.len() implies a[k] == b[k] by {
            assert((2 * k) / 2 == k && (2 * k + 1) / 2 == k);
            assert(hex_of(a)[2 * k] == digit_char(b[k] as int / 16));
            assert(hex_of(a)[2 * k + 1] == digit_char(b[k] as int % 16));
            law_digits_are_told_apart(a[k] as int / 16, b[k] as int / 16);
            law_digits_are_told_apart(a[k] as int % 16, b[k] as int % 16);
        }
        assert(a =~= b);
    }
}

}
