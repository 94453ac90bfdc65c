//! The declarations that offset headers are made of, and the banner that
//! the updater puts on top of a header, as grammars over characters.
//!
//! An offset declaration reads
//! `constexpr <space>+ std::ptrdiff_t <space>+ NAME <space>* = <space>* 0xHEX`,
//! where NAME is a run of word characters and HEX a run of base-16 digits.
//! Both runs are taken whole, and declarations are found from left to
//! right without overlapping.
use vstd::prelude::*;

verus! {

/// Whether a character is a Unicode word character: what
/// `regex_syntax::is_word_character` returns for it.
pub uninterp spec fn unicode_word_char(c: char) -> bool;

/// An ASCII word character: `[_0-9a-zA-Z]`.
pub open spec fn ascii_word_char(c: char) -> bool {
    c == '_' || ('0' <= c && c <= '9') || ('a' <= c && c <= 'z') || ('A' <= c && c <= 'Z')
}

/// A word character: on ASCII exactly `[_0-9a-zA-Z]`, elsewhere a Unicode
/// word character.
pub open spec fn word_char(c: char) -> bool {
    if (c as u32) < 128 {
        ascii_word_char(c)
    } else {
        unicode_word_char(c)
    }
}

/// `regex_syntax::is_word_character`: whether `c` is a Unicode word
/// character (Alphabetic, Join_Control, Decimal_Number, Mark or
/// Connector_Punctuation). Claimed: the answer is `unicode_word_char(c)`,
/// and on ASCII it is exactly `[_0-9a-zA-Z]`. The Unicode tables
/// themselves are not restated.
#[verifier::external_body]
fn is_word_character(c: char) -> (r: bool)
    ensures
        r == unicode_word_char(c),
        (c as u32) < 128 ==> (r <==> ascii_word_char(c)),
{
    regex_syntax::is_word_character(c)
}

/// A character with the Unicode White_Space property.
pub open spec fn is_space(c: char) -> bool {
    ||| ('\t' <= c && c <= '\r')
    ||| c == ' '
    ||| c == '\u{85}'
    ||| c == '\u{a0}'
    ||| c == '\u{1680}'
    ||| ('\u{2000}' <= c && c <= '\u{200a}')
    ||| c == '\u{2028}'
    ||| c == '\u{2029}'
    ||| c == '\u{202f}'
    ||| c == '\u{205f}'
    ||| c == '\u{3000}'
}

fn is_space_exec(c: char) -> (r: bool)
    ensures
        r == is_space(c),
{
    ('\t' <= c && c <= '\r') || c == ' ' || c == '\u{85}' || c == '\u{a0}' || c == '\u{1680}'
        || ('\u{2000}' <= c && c <= '\u{200a}') || c == '\u{2028}' || c == '\u{2029}'
        || c == '\u{202f}' || c == '\u{205f}' || c == '\u{3000}'
}

/// The classes of characters that the grammars take runs of.
pub enum CharClass {
    Space,
    Word,
    HexDigit,
    NotNewline,
}

pub open spec fn in_class(c: char, k: CharClass) -> bool {
    match k {
        CharClass::Space => is_space(c),
        CharClass::Word => word_char(c),
        CharClass::HexDigit => crate::text::is_hex_digit(c),
        CharClass::NotNewline => c != '\n',
    }
}

fn in_class_exec(c: char, k: &CharClass) -> (r: bool)
    ensures
        r == in_class(c, *k),
{
    match k {
        CharClass::Space => is_space_exec(c),
        CharClass::Word => is_word_character(c),
        CharClass::HexDigit => ('0' <= c && c <= '9') || ('a' <= c && c <= 'f') || ('A' <= c
            && c <= 'F'),
        CharClass::NotNewline => c != '\n',
    }
}

/// The end of the longest run of characters of class `k` that starts at `i`.
pub open spec fn run_end(s: Seq<char>, i: int, k: CharClass) -> int
    decreases s.len() - i,
{
    if 0 <= i < s.len() && in_class(s[i], k) {
        run_end(s, i + 1, k)
    } else {
        i
    }
}

/// `lit` stands in `s` at position `p`.
pub open spec fn lit_at(s: Seq<char>, p: int, lit: Seq<char>) -> bool {
    0 <= p && p + lit.len() <= s.len() && s.subrange(p, p + lit.len()) == lit
}

pub proof fn lemma_run_end_bounds(s: Seq<char>, i: int, k: CharClass)
    ensures
        i <= run_end(s, i, k),
        0 <= i <= s.len() ==> run_end(s, i, k) <= s.len(),
        forall|j: int| i <= j < run_end(s, i, k) ==> in_class(#[trigger] s[j], k),
        0 <= i <= s.len() && run_end(s, i, k) < s.len() ==> !in_class(s[run_end(s, i, k)], k),
    decreases s.len() - i,
{
    if 0 <= i < s.len() && in_class(s[i], k) {
        lemma_run_end_bounds(s, i + 1, k);
    }
}

/// A run that is followed by a character outside the class ends there.
pub proof fn lemma_run_end_at(s: Seq<char>, i: int, j: int, k: CharClass)
    requires
        0 <= i <= j <= s.len(),
        forall|x: int| i <= x < j ==> in_class(#[trigger] s[x], k),
        j == s.len() || !in_class(s[j], k),
    ensures
        run_end(s, i, k) == j,
    decreases j - i,
{
    if i < j {
        lemma_run_end_at(s, i + 1, j, k);
    }
}

/// The keyword that opens a declaration.
pub open spec fn kw_constexpr() -> Seq<char> {
    "constexpr"@
}

/// The type of a declaration.
pub open spec fn kw_ptrdiff() -> Seq<char> {
    "std::ptrdiff_t"@
}

/// The prefix of the value.
pub open spec fn hex_prefix() -> Seq<char> {
    "0x"@
}

/// The declaration that starts exactly at `p`, if one does: the bounds of
/// its name, and the bounds of its value (with the `0x` prefix), whose
/// end is also where the declaration ends.
pub open spec fn decl_at(s: Seq<char>, p: int) -> Option<(int, int, int, int)> {
    let a = p + kw_constexpr().len();
    let b = run_end(s, a, CharClass::Space);
    let c = b + kw_ptrdiff().len();
    let d = run_end(s, c, CharClass::Space);
    let e = run_end(s, d, CharClass::Word);
    let f = run_end(s, e, CharClass::Space);
    let g = run_end(s, f + 1, CharClass::Space);
    let h = run_end(s, g + hex_prefix().len(), CharClass::HexDigit);
    if lit_at(s, p, kw_constexpr()) && b > a && lit_at(s, b, kw_ptrdiff()) && d > c && e > d && f
        < s.len() && s[f] == '=' && lit_at(s, g, hex_prefix()) && h > g + hex_prefix().len() {
        Some((d, e, g, h))
    } else {
        None
    }
}

pub proof fn lemma_decl_at_bounds(s: Seq<char>, p: int)
    requires
        0 <= p,
    ensures
        decl_at(s, p) matches Some(m) ==> p < m.0 < m.1 < m.2 < m.3 <= s.len(),
{
    let a = p + kw_constexpr().len();
    let b = run_end(s, a, CharClass::Space);
    let c = b + kw_ptrdiff().len();
    let d = run_end(s, c, CharClass::Space);
    let e = run_end(s, d, CharClass::Word);
    let f = run_end(s, e, CharClass::Space);
    let g = run_end(s, f + 1, CharClass::Space);
    let h = run_end(s, g + hex_prefix().len(), CharClass::HexDigit);
    if decl_at(s, p) is Some {
        lemma_run_end_bounds(s, a, CharClass::Space);
        lemma_run_end_bounds(s, c, CharClass::Space);
        lemma_run_end_bounds(s, d, CharClass::Word);
        lemma_run_end_bounds(s, e, CharClass::Space);
        lemma_run_end_bounds(s, f + 1, CharClass::Space);
        lemma_run_end_bounds(s, g + hex_prefix().len(), CharClass::HexDigit);
    }
}

/// The declarations found from position `p` on, from left to right.
pub open spec fn decls_from(s: Seq<char>, p: int) -> Seq<(int, int, int, int)>
    decreases s.len() - p,
{
    if p < 0 || p >= s.len() {
        Seq::empty()
    } else {
        match decl_at(s, p) {
            Some(m) => {
                proof {
                    lemma_decl_at_bounds(s, p);
                }
                seq![m] + decls_from(s, m.3)
            },
            None => decls_from(s, p + 1),
        }
    }
}

/// The (name, value) text of a declaration found in `s`.
pub open spec fn capture(s: Seq<char>, m: (int, int, int, int)) -> (Seq<char>, Seq<char>) {
    (s.subrange(m.0, m.1), s.subrange(m.2, m.3))
}

/// The (name, value) text of every declaration in `s`, in order; each value
/// keeps its `0x` prefix.
pub open spec fn declarations(s: Seq<char>) -> Seq<(Seq<char>, Seq<char>)> {
    decls_from(s, 0).map_values(|m: (int, int, int, int)| capture(s, m))
}

/// The end of the longest run of class `k` starting at `i`.
pub(crate) fn run_end_exec(s: &Vec<char>, i: usize, k: &CharClass) -> (r: usize)
    requires
        i <= s@.len(),
    ensures
        r as int == run_end(s@, i as int, *k),
        i <= r <= s@.len(),
{
    let mut j: usize = i;
    while j < s.len() && in_class_exec(s[j], k)
        invariant
            i <= j <= s@.len(),
            run_end(s@, i as int, *k) == run_end(s@, j as int, *k),
        decreases s@.len() - j,
    {
        j = j + 1;
    }
    j
}

/// Whether the literal `lit` stands in `s` at `p`.
pub(crate) fn lit_at_exec(s: &Vec<char>, p: usize, lit: &str) -> (r: bool)
    ensures
        r == lit_at(s@, p as int, lit@),
{
    let n: usize = lit.unicode_len();
    if p > s.len() || n > s.len() - p {
        return false;
    }
    let mut j: usize = 0;
    while j < n
        invariant
            n == lit@.len(),
            p + n <= s@.len(),
            s@.len() <= usize::MAX,
            j <= n,
            forall|x: int| 0 <= x < j ==> s@[p + x] == lit@[x],
        decreases n - j,
    {
        if s[p + j] != lit.get_char(j) {
            assert(s@.subrange(p as int, p + n)[j as int] != lit@[j as int]);
            return false;
        }
        j = j + 1;
    }
    assert(s@.subrange(p as int, p + n) =~= lit@);
    true
}

/// The declaration that starts exactly at `p`, if one does.
pub(crate) fn decl_at_exec(s: &Vec<char>, p: usize) -> (r: Option<(usize, usize, usize, usize)>)
    requires
        p <= s@.len(),
    ensures
        match r {
            Some(m) => decl_at(s@, p as int) == Some(
                (m.0 as int, m.1 as int, m.2 as int, m.3 as int),
            ),
            None => decl_at(s@, p as int) is None,
        },
{
    let len: usize = s.len();
    if !lit_at_exec(s, p, "constexpr") {
        return None;
    }
    let a: usize = p + "constexpr".unicode_len();
    let b: usize = run_end_exec(s, a, &CharClass::Space);
    if b == a || !lit_at_exec(s, b, "std::ptrdiff_t") {
        return None;
    }
    let c: usize = b + "std::ptrdiff_t".unicode_len();
    let d: usize = run_end_exec(s, c, &CharClass::Space);
    if d == c {
        return None;
    }
    let e: usize = run_end_exec(s, d, &CharClass::Word);
    if e == d {
        return None;
    }
    let f: usize = run_end_exec(s, e, &CharClass::Space);
    if f >= len || s[f] != '=' {
        return None;
    }
    let g: usize = run_end_exec(s, f + 1, &CharClass::Space);
    if !lit_at_exec(s, g, "0x") {
        return None;
    }
    let h: usize = run_end_exec(s, g + "0x".unicode_len(), &CharClass::HexDigit);
    if h == g + "0x".unicode_len() {
        return None;
    }
    Some((d, e, g, h))
}

/// What every declaration found in a text looks like.
pub open spec fn decl_shape(s: Seq<char>, m: (int, int, int, int)) -> bool {
    &&& 0 <= m.0 < m.1 < m.2
    &&& m.2 + hex_prefix().len() < m.3 <= s.len()
    &&& lit_at(s, m.2, hex_prefix())
    &&& forall|j: int| m.2 + hex_prefix().len() <= j < m.3 ==> crate::text::is_hex_digit(#[trigger] s[j])
}

pub proof fn lemma_decl_at_shape(s: Seq<char>, p: int)
    requires
        0 <= p,
    ensures
        decl_at(s, p) matches Some(m) ==> decl_shape(s, m),
{
    lemma_decl_at_bounds(s, p);
    let a = p + kw_constexpr().len();
    let b = run_end(s, a, CharClass::Space);
    let c = b + kw_ptrdiff().len();
    let d = run_end(s, c, CharClass::Space);
    let e = run_end(s, d, CharClass::Word);
    let f = run_end(s, e, CharClass::Space);
    let g = run_end(s, f + 1, CharClass::Space);
    let h = run_end(s, g + hex_prefix().len(), CharClass::HexDigit);
    if decl_at(s, p) is Some {
        lemma_run_end_bounds(s, g + hex_prefix().len(), CharClass::HexDigit);
        assert forall|j: int| g + hex_prefix().len() <= j < h implies crate::text::is_hex_digit(
            #[trigger] s[j],
        ) by {
            assert(in_class(s[j], CharClass::HexDigit));
        }
    }
}

pub proof fn lemma_decls_shape(s: Seq<char>, p: int)
    ensures
        forall|i: int| 0 <= i < decls_from(s, p).len() ==> decl_shape(s, #[trigger] decls_from(s, p)[i]),
    decreases s.len() - p,
{
    if p < 0 || p >= s.len() {
    } else {
        lemma_decl_at_shape(s, p);
        lemma_decl_at_bounds(s, p);
        match decl_at(s, p) {
            Some(m) => {
                lemma_decls_shape(s, m.3);
                let rest = decls_from(s, m.3);
                assert(decls_from(s, p) == seq![m] + rest);
                assert(decl_shape(s, m));
                assert forall|i: int| 0 <= i < decls_from(s, p).len() implies decl_shape(
                    s,
                    #[trigger] decls_from(s, p)[i],
                ) by {
                    if i > 0 {
                        assert(decls_from(s, p)[i] == rest[i - 1]);
                    }
                }
            },
            None => {
                lemma_decls_shape(s, p + 1);
                assert(decls_from(s, p) == decls_from(s, p + 1));
            },
        }
    }
}

/// Every declaration of `s`, from left to right, as positions.
pub(crate) fn find_declarations(s: &Vec<char>) -> (r: Vec<(usize, usize, usize, usize)>)
    ensures
        r@.map_values(|m: (usize, usize, usize, usize)| (m.0 as int, m.1 as int, m.2 as int, m.3 as int))
            == decls_from(s@, 0),
{
    let mut found: Vec<(usize, usize, usize, usize)> = Vec::new();
    let mut p: usize = 0;
    while p < s.len()
        invariant
            p <= s@.len(),
            decls_from(s@, 0) == found@.map_values(
                |m: (usize, usize, usize, usize)| (m.0 as int, m.1 as int, m.2 as int, m.3 as int),
            ) + decls_from(s@, p as int),
        decreases s@.len() - p,
    {
        let ghost fv = found@.map_values(
            |m: (usize, usize, usize, usize)| (m.0 as int, m.1 as int, m.2 as int, m.3 as int),
        );
        match decl_at_exec(s, p) {
            Some(m) => {
                proof {
                    lemma_decl_at_bounds(s@, p as int);
                }
                found.push(m);
                let ghost mi = (m.0 as int, m.1 as int, m.2 as int, m.3 as int);
                assert(found@.map_values(
                    |m: (usize, usize, usize, usize)| (m.0 as int, m.1 as int, m.2 as int, m.3 as int),
                ) == fv.push(mi));
                assert(fv + decls_from(s@, p as int) == fv.push(mi) + decls_from(s@, m.3 as int));
                p = m.3;
            },
            None => {
                p = p + 1;
            },
        }
    }
    proof {
        let fv = found@.map_values(
            |m: (usize, usize, usize, usize)| (m.0 as int, m.1 as int, m.2 as int, m.3 as int),
        );
        assert(fv + decls_from(s@, p as int) == fv);
    }
    found
}

} // verus!
