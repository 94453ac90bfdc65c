//! Characters, strings, and numbers written in base 10 and base 16.
use vstd::prelude::*;

verus! {

/// Appends one character to a `String` (std's `String::push`).
#[verifier::external_body]
pub(crate) fn push_char(s: &mut String, c: char)
    ensures
        final(s)@ == old(s)@.push(c),
{
    s.push(c);
}

/// The characters of `s`, in order.
pub fn chars_of(s: &str) -> (v: Vec<char>)
    ensures
        v@ == s@,
{
    let mut v: Vec<char> = Vec::new();
    for c in it: s.chars()
        invariant
            v@ == it.seq().take(it.index() as int),
    {
        v.push(c);
    }
    v
}

/// Appends the characters `v[start..end]` to `out`.
pub(crate) fn push_range(out: &mut String, v: &Vec<char>, start: usize, end: usize)
    requires
        start <= end <= v@.len(),
    ensures
        final(out)@ == old(out)@ + v@.subrange(start as int, end as int),
{
    let mut i: usize = start;
    while i < end
        invariant
            start <= i <= end <= v@.len(),
            out@ == old(out)@ + v@.subrange(start as int, i as int),
        decreases end - i,
    {
        push_char(out, v[i]);
        assert(v@.subrange(start as int, i + 1) == v@.subrange(start as int, i as int).push(v@[i as int]));
        i = i + 1;
    }
}

/// Appends `v[start..end]` to `out`.
pub(crate) fn extend_range(out: &mut Vec<char>, v: &Vec<char>, start: usize, end: usize)
    requires
        start <= end <= v@.len(),
    ensures
        final(out)@ == old(out)@ + v@.subrange(start as int, end as int),
{
    let mut i: usize = start;
    while i < end
        invariant
            start <= i <= end <= v@.len(),
            out@ == old(out)@ + v@.subrange(start as int, i as int),
        decreases end - i,
    {
        out.push(v[i]);
        assert(v@.subrange(start as int, i + 1) == v@.subrange(start as int, i as int).push(v@[i as int]));
        i = i + 1;
    }
}

/// Appends the characters of `lit` to `out`.
pub(crate) fn extend_str(out: &mut Vec<char>, lit: &str)
    ensures
        final(out)@ == old(out)@ + lit@,
{
    let mut cs = chars_of(lit);
    out.append(&mut cs);
}

/// The string made of the characters of `v`.
pub(crate) fn string_of(v: &Vec<char>) -> (s: String)
    ensures
        s@ == v@,
{
    let mut s = String::new();
    push_range(&mut s, v, 0, v.len());
    assert(v@.subrange(0, v@.len() as int) == v@);
    s
}

/// The upper-case digit that stands for `d` in base 16 (or base 10).
pub open spec fn digit_char(d: nat) -> char {
    if d < 10 {
        ((d + 48) as u8) as char
    } else {
        ((d + 55) as u8) as char
    }
}

/// `v` written in base 16 with upper-case digits and no leading zeros.
pub open spec fn hex_upper(v: nat) -> Seq<char>
    decreases v,
{
    if v < 16 {
        seq![digit_char(v)]
    } else {
        hex_upper(v / 16).push(digit_char(v % 16))
    }
}

/// `v` written in base 10 with no leading zeros.
pub open spec fn decimal(v: nat) -> Seq<char>
    decreases v,
{
    if v < 10 {
        seq![digit_char(v)]
    } else {
        decimal(v / 10).push(digit_char(v % 10))
    }
}

/// A digit of base 16, in either case.
pub open spec fn is_hex_digit(c: char) -> bool {
    ('0' <= c && c <= '9') || ('a' <= c && c <= 'f') || ('A' <= c && c <= 'F')
}

/// The value of a base-16 digit.
pub open spec fn hex_digit_value(c: char) -> nat {
    if '0' <= c && c <= '9' {
        (c as int - 48) as nat
    } else if 'a' <= c && c <= 'f' {
        (c as int - 87) as nat
    } else {
        (c as int - 55) as nat
    }
}

/// The number that the base-16 digits `s` stand for (most significant first).
pub open spec fn hex_value(s: Seq<char>) -> nat
    decreases s.len(),
{
    if s.len() == 0 {
        0
    } else {
        hex_value(s.drop_last()) * 16 + hex_digit_value(s.last())
    }
}

fn digit_char_exec(d: u64) -> (c: char)
    requires
        d < 16,
    ensures
        c == digit_char(d as nat),
{
    if d < 10 {
        ((d + 48) as u8) as char
    } else {
        ((d + 55) as u8) as char
    }
}

/// Appends `v` in base 16 (upper-case digits, no prefix) to `out`.
pub(crate) fn push_hex_upper(out: &mut Vec<char>, v: u64)
    ensures
        final(out)@ == old(out)@ + hex_upper(v as nat),
    decreases v,
{
    if v >= 16 {
        push_hex_upper(out, v / 16);
    }
    out.push(digit_char_exec(v % 16));
}

/// Appends `v` in base 10 to `out`.
pub(crate) fn push_decimal(out: &mut Vec<char>, v: u64)
    ensures
        final(out)@ == old(out)@ + decimal(v as nat),
    decreases v,
{
    if v >= 10 {
        push_decimal(out, v / 10);
    }
    out.push(digit_char_exec(v % 10));
}

/// A prefix of base-16 digits never stands for more than the whole.
pub proof fn lemma_hex_value_prefix(s: Seq<char>, k: int)
    requires
        0 <= k <= s.len(),
    ensures
        hex_value(s.take(k)) <= hex_value(s),
    decreases s.len(),
{
    if k < s.len() {
        lemma_hex_value_prefix(s.drop_last(), k);
        assert(s.drop_last().take(k) == s.take(k));
    } else {
        assert(s.take(k) == s);
    }
}

/// Reads `s[start..end]`, which holds only base-16 digits, as a `u64`;
/// `None` when the number does not fit.
pub(crate) fn parse_hex_u64(s: &Vec<char>, start: usize, end: usize) -> (r: Option<u64>)
    requires
        start <= end <= s@.len(),
        forall|i: int| start <= i < end ==> is_hex_digit(#[trigger] s@[i]),
    ensures
        r == (if hex_value(s@.subrange(start as int, end as int)) <= u64::MAX {
            Some(hex_value(s@.subrange(start as int, end as int)) as u64)
        } else {
            None::<u64>
        }),
{
    let ghost whole = s@.subrange(start as int, end as int);
    let mut acc: u64 = 0;
    let mut i: usize = start;
    while i < end
        invariant
            start <= i <= end <= s@.len(),
            forall|j: int| start <= j < end ==> is_hex_digit(#[trigger] s@[j]),
            whole == s@.subrange(start as int, end as int),
            acc as nat == hex_value(s@.subrange(start as int, i as int)),
        decreases end - i,
    {
        let c = s[i];
        assert(is_hex_digit(s@[i as int]));
        let d: u64 = if '0' <= c && c <= '9' {
            (c as u64) - 48
        } else if 'a' <= c && c <= 'f' {
            (c as u64) - 87
        } else {
            (c as u64) - 55
        };
        let ghost next = s@.subrange(start as int, i + 1);
        assert(next.drop_last() == s@.subrange(start as int, i as int));
        assert(next.last() == c);
        assert(d as nat == hex_digit_value(c));
        if acc > (u64::MAX - d) / 16 {
            proof {
                assert(hex_value(next) > u64::MAX);
                assert(whole.take(i + 1 - start) == next);
                lemma_hex_value_prefix(whole, i + 1 - start);
            }
            return None;
        }
        acc = acc * 16 + d;
        i = i + 1;
    }
    Some(acc)
}

} // verus!
