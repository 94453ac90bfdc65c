//! Properties that hold across the library's functions.
use vstd::prelude::*;
use crate::grammar::{
    ascii_word_char, decl_at, decls_from, hex_prefix, in_class, kw_constexpr, kw_ptrdiff,
    lemma_run_end_at, lit_at, CharClass,
};
use crate::clock::{single_line, stamp_text, two_digits, year_text, zero_padded};
use crate::grammar::declarations;
use crate::parser::{combined_offsets, file_extension, OutputFile};
use crate::ui::{level_label, selected_types, FileTypesState, LogLevel};
use crate::text::{decimal, digit_char, hex_digit_value, hex_upper, hex_value, is_hex_digit};
use crate::parser::{
    apply_updates, assignment, count_known, first_occurrence, replace_first, header_offsets, hex_literal, offsets_of, updated_header,
    banner_at, banner_mark, banner_text, comment_lines_end, comment_mark, first_banner, line_end,
    strip_banner,
};

verus! {

/// The banner that an update puts on top of a header is exactly what the
/// next update takes out again: whatever follows it is left as it was.
pub proof fn lemma_strip_own_banner(timestamp: Seq<char>, rest: Seq<char>)
    requires
        forall|i: int| 0 <= i < timestamp.len() ==> timestamp[i] != '\n',
    ensures
        strip_banner(banner_text(timestamp) + rest) == rest,
{
    reveal_strlit("// Updated using Modified A2X Dumper — ");
    reveal_strlit("\n// https://github.com/1dpcc/Modified-A2x-Dumper\n\n");
    reveal_strlit("// Updated using");
    reveal_strlit("// ");
    let a = "// Updated using Modified A2X Dumper — "@;
    let b = "\n// https://github.com/1dpcc/Modified-A2x-Dumper\n\n"@;
    let s = banner_text(timestamp) + rest;
    let t = timestamp.len();
    let la = a.len() as int;
    let lb = b.len() as int;
    assert(s == a + timestamp + b + rest);
    assert(forall|i: int| 0 <= i < la ==> s[i] == a[i]);
    assert(forall|i: int| 0 <= i < t ==> s[la + i] == timestamp[i]);
    assert(forall|i: int| 0 <= i < lb ==> s[la + t + i] == b[i]);
    // the banner line
    assert(s.subrange(0, banner_mark().len() as int) =~= banner_mark());
    let e = la + t;
    assert forall|x: int| banner_mark().len() <= x < e implies #[trigger] s[x] != '\n' by {
        if x < la {
            assert(s[x] == a[x]);
        } else {
            assert(s[x] == timestamp[x - la]);
        }
    }
    assert(s[e] == '\n');
    lemma_run_end_at(s, banner_mark().len() as int, e, CharClass::NotNewline);
    assert(line_end(s, banner_mark().len() as int) == e);
    // the address line
    assert(s.subrange(e + 1, e + 1 + comment_mark().len()) =~= comment_mark());
    assert(lit_at(s, e + 1, comment_mark()));
    let e2 = e + lb - 2;
    assert forall|x: int| e + 1 + comment_mark().len() <= x < e2 implies #[trigger] s[x] != '\n' by {
        assert(s[x] == b[x - e]);
    }
    assert(s[e2] == '\n');
    lemma_run_end_at(s, e + 1 + comment_mark().len(), e2, CharClass::NotNewline);
    // the blank line
    assert(s[e2 + 1] == '\n');
    assert(!lit_at(s, e2 + 1, comment_mark())) by {
        if lit_at(s, e2 + 1, comment_mark()) {
            assert(s.subrange(e2 + 1, e2 + 1 + comment_mark().len())[0] == s[e2 + 1]);
            assert(comment_mark()[0] == '/');
        }
    }
    assert(comment_lines_end(s, e2 + 1) == e2 + 1);
    assert(comment_lines_end(s, e + 1) == e2 + 1);
    assert(banner_at(s, 0) == Some(e + lb));
    assert(first_banner(s, 0) == Some((0int, e + lb)));
    assert(s.take(0) + s.skip(e + lb) =~= rest);
}

/// A digit written by the formatter reads back as its value.
pub proof fn lemma_digit_round_trip(d: nat)
    requires
        d < 16,
    ensures
        is_hex_digit(digit_char(d)),
        hex_digit_value(digit_char(d)) == d,
{
}

/// What the updater writes as a value in base 16, the reader reads back.
pub proof fn lemma_hex_round_trip(v: nat)
    ensures
        hex_value(hex_upper(v)) == v,
        forall|i: int| 0 <= i < hex_upper(v).len() ==> is_hex_digit(#[trigger] hex_upper(v)[i]),
        hex_upper(v).len() > 0,
    decreases v,
{
    if v < 16 {
        lemma_digit_round_trip(v);
        assert(hex_upper(v).drop_last() =~= Seq::<char>::empty());
        assert(hex_value(hex_upper(v).drop_last()) == 0);
    } else {
        lemma_hex_round_trip(v / 16);
        lemma_digit_round_trip(v % 16);
        assert(hex_upper(v).drop_last() == hex_upper(v / 16));
        assert(hex_upper(v).last() == digit_char(v % 16));
        assert(hex_value(hex_upper(v)) == v / 16 * 16 + v % 16);
        assert(v / 16 * 16 + v % 16 == v) by (nonlinear_arith);
    }
}

/// Once its own banner is in place, an updated header loses exactly that
/// banner when it is updated again.
pub proof fn lemma_update_banner_replaced(
    content: Seq<char>,
    dump: Map<Seq<char>, u64>,
    timestamp: Seq<char>,
)
    requires
        forall|i: int| 0 <= i < timestamp.len() ==> timestamp[i] != '\n',
    ensures
        strip_banner(updated_header(content, dump, timestamp)) == strip_banner(
            apply_updates(content, declarations(content), dump),
        ),
{
    lemma_strip_own_banner(timestamp, strip_banner(apply_updates(content, declarations(content), dump)));
}

/// A dump that holds none of the names a header declares changes nothing
/// in it: every declaration is counted as missing.
pub proof fn lemma_update_unknown_names(
    text: Seq<char>,
    caps: Seq<(Seq<char>, Seq<char>)>,
    dump: Map<Seq<char>, u64>,
)
    requires
        forall|i: int| 0 <= i < caps.len() ==> !dump.contains_key(#[trigger] caps[i].0),
    ensures
        apply_updates(text, caps, dump) == text,
        count_known(caps, dump) == 0,
    decreases caps.len(),
{
    if caps.len() > 0 {
        assert(!dump.contains_key(caps[caps.len() - 1].0));
        lemma_update_unknown_names(text, caps.drop_last(), dump);
    }
}

/// A declaration whose value is written with the base-16 digits `hx`
/// is read as that name with the value `hx` stands for.
pub proof fn lemma_declaration_digits(name: Seq<char>, hx: Seq<char>, v: u64)
    requires
        name.len() > 0,
        forall|i: int| 0 <= i < name.len() ==> ascii_word_char(#[trigger] name[i]),
        hx.len() > 0,
        forall|i: int| 0 <= i < hx.len() ==> is_hex_digit(#[trigger] hx[i]),
        hex_value(hx) == v,
    ensures
        header_offsets(kw_constexpr() + " "@ + kw_ptrdiff() + " "@ + name + " = "@ + "0x"@ + hx)
            == map![name => v],
{
    reveal_strlit("constexpr");
    reveal_strlit("std::ptrdiff_t");
    reveal_strlit(" ");
    reveal_strlit(" = ");
    reveal_strlit("0x");
    let n = name.len() as int;
    let s = kw_constexpr() + " "@ + kw_ptrdiff() + " "@ + name + " = "@ + "0x"@ + hx;
    let len = s.len() as int;
    assert(len == 30 + n + hx.len());
    assert(forall|i: int| 0 <= i < 9 ==> s[i] == kw_constexpr()[i]);
    assert(s[9] == ' ');
    assert(forall|i: int| 0 <= i < 14 ==> s[10 + i] == kw_ptrdiff()[i]);
    assert(s[24] == ' ');
    assert(forall|i: int| 0 <= i < n ==> s[25 + i] == name[i]);
    assert(s[25 + n] == ' ');
    assert(s[26 + n] == '=');
    assert(s[27 + n] == ' ');
    assert(s[28 + n] == '0');
    assert(s[29 + n] == 'x');
    assert(forall|i: int| 0 <= i < hx.len() ==> s[30 + n + i] == hx[i]);
    // `constexpr` and the space after it
    assert(s.subrange(0, 9) =~= kw_constexpr());
    lemma_run_end_at(s, 9, 10, CharClass::Space);
    // the type and the space after it
    assert(s.subrange(10, 24) =~= kw_ptrdiff());
    lemma_run_end_at(s, 24, 25, CharClass::Space);
    // the name
    assert(!in_class(s[25 + n], CharClass::Word));
    assert forall|x: int| 25 <= x < 25 + n implies in_class(#[trigger] s[x], CharClass::Word) by {
        assert(s[x] == name[x - 25]);
    }
    lemma_run_end_at(s, 25, 25 + n, CharClass::Word);
    lemma_run_end_at(s, 25 + n, 26 + n, CharClass::Space);
    lemma_run_end_at(s, 27 + n, 28 + n, CharClass::Space);
    assert(s.subrange(28 + n, 30 + n) =~= hex_prefix());
    assert forall|x: int| 30 + n <= x < len implies in_class(#[trigger] s[x], CharClass::HexDigit) by {
        assert(s[x] == hx[x - 30 - n]);
    }
    lemma_run_end_at(s, 30 + n, len, CharClass::HexDigit);
    assert(decl_at(s, 0) == Some((25int, 25 + n, 28 + n, len)));
    assert(decls_from(s, len) == Seq::<(int, int, int, int)>::empty());
    assert(decls_from(s, 0) == seq![(25int, 25 + n, 28 + n, len)]);
    let caps = declarations(s);
    assert(caps.len() == 1);
    assert(caps[0] == (s.subrange(25, 25 + n), s.subrange(28 + n, len)));
    assert(s.subrange(25, 25 + n) =~= name);
    assert(s.subrange(28 + n, len).skip(2) =~= hx);
    assert(caps.drop_last() =~= Seq::<(Seq<char>, Seq<char>)>::empty());
    assert(offsets_of(caps.drop_last()) == Map::<Seq<char>, u64>::empty());
    assert(caps.last() == caps[0]);
    assert(hex_value(caps.last().1.skip(2)) == v);
    assert(offsets_of(caps) == Map::<Seq<char>, u64>::empty().insert(name, v));
    assert(offsets_of(caps) =~= map![name => v]);
}

/// Replacing text by itself changes nothing.
pub proof fn lemma_replace_first_same(s: Seq<char>, pat: Seq<char>)
    ensures
        replace_first(s, pat, pat) == s,
{
    if let Some(i) = first_occurrence(s, pat, 0) {
        lemma_first_occurrence_found(s, pat, 0);
        assert(s.take(i) + pat + s.skip(i + pat.len()) =~= s);
    }
}

proof fn lemma_first_occurrence_found(s: Seq<char>, pat: Seq<char>, j: int)
    ensures
        first_occurrence(s, pat, j) matches Some(i) ==> j <= i && lit_at(s, i, pat),
    decreases s.len() + 1 - j,
{
    if !(j < 0 || j + pat.len() > s.len()) && !lit_at(s, j, pat) {
        lemma_first_occurrence_found(s, pat, j + 1);
    }
}

/// Updating from a dump whose values a header already shows, written the
/// way the updater writes them, leaves the header's text as it was.
pub proof fn lemma_update_up_to_date(
    text: Seq<char>,
    caps: Seq<(Seq<char>, Seq<char>)>,
    dump: Map<Seq<char>, u64>,
)
    requires
        forall|i: int|
            0 <= i < caps.len() && dump.contains_key(#[trigger] caps[i].0) ==> caps[i].1
                == hex_literal(dump[caps[i].0]),
    ensures
        apply_updates(text, caps, dump) == text,
    decreases caps.len(),
{
    if caps.len() > 0 {
        let last = caps[caps.len() - 1];
        lemma_update_up_to_date(text, caps.drop_last(), dump);
        if dump.contains_key(last.0) {
            lemma_replace_first_same(text, assignment(last.0, last.1));
        }
    }
}

/// The names of a list of declarations, in order.
pub open spec fn declared_names(caps: Seq<(Seq<char>, Seq<char>)>) -> Seq<Seq<char>> {
    caps.map_values(|c: (Seq<char>, Seq<char>)| c.0)
}

/// How many declarations the dump knows depends only on their names.
pub proof fn lemma_count_known_by_names(
    a: Seq<(Seq<char>, Seq<char>)>,
    b: Seq<(Seq<char>, Seq<char>)>,
    dump: Map<Seq<char>, u64>,
)
    requires
        declared_names(a) == declared_names(b),
    ensures
        a.len() == b.len(),
        count_known(a, dump) == count_known(b, dump),
    decreases a.len(),
{
    assert(declared_names(a).len() == a.len());
    assert(declared_names(b).len() == b.len());
    if a.len() > 0 {
        assert(declared_names(a.drop_last()) =~= declared_names(a).drop_last());
        assert(declared_names(b.drop_last()) =~= declared_names(b).drop_last());
        assert(declared_names(a)[a.len() - 1] == declared_names(b)[b.len() - 1]);
        lemma_count_known_by_names(a.drop_last(), b.drop_last(), dump);
    }
}

/// Updating twice from the same dump: when the first update rewrote every
/// declaration the dump knows to the dump's value and kept the names of
/// all declarations, the second update replaces the first one's banner
/// instead of adding a second, leaves the rest of the header as the first
/// update made it, and comes to the same counts.
pub proof fn lemma_update_twice(
    content: Seq<char>,
    dump: Map<Seq<char>, u64>,
    first_stamp: Seq<char>,
    second_stamp: Seq<char>,
)
    requires
        forall|i: int| 0 <= i < first_stamp.len() ==> first_stamp[i] != '\n',
        declared_names(declarations(updated_header(content, dump, first_stamp)))
            == declared_names(declarations(content)),
        forall|i: int|
            0 <= i < declarations(updated_header(content, dump, first_stamp)).len()
                && dump.contains_key(
                #[trigger] declarations(updated_header(content, dump, first_stamp))[i].0,
            ) ==> declarations(updated_header(content, dump, first_stamp))[i].1 == hex_literal(
                dump[declarations(updated_header(content, dump, first_stamp))[i].0],
            ),
    ensures
        updated_header(updated_header(content, dump, first_stamp), dump, second_stamp)
            == banner_text(second_stamp) + strip_banner(
            apply_updates(content, declarations(content), dump),
        ),
        declarations(updated_header(content, dump, first_stamp)).len()
            == declarations(content).len(),
        count_known(declarations(updated_header(content, dump, first_stamp)), dump)
            == count_known(declarations(content), dump),
{
    let body = strip_banner(apply_updates(content, declarations(content), dump));
    let once = updated_header(content, dump, first_stamp);
    let caps = declarations(once);
    lemma_update_up_to_date(once, caps, dump);
    lemma_strip_own_banner(first_stamp, body);
    lemma_count_known_by_names(caps, declarations(content), dump);
}

/// Numbers are written in digits.
proof fn lemma_decimal_digits(v: nat)
    ensures
        forall|i: int| 0 <= i < decimal(v).len() ==> '0' <= #[trigger] decimal(v)[i] <= '9',
    decreases v,
{
    if v >= 10 {
        lemma_decimal_digits(v / 10);
        assert forall|i: int| 0 <= i < decimal(v).len() implies '0' <= #[trigger] decimal(v)[i]
            <= '9' by {
            if i < decimal(v / 10).len() {
                assert(decimal(v)[i] == decimal(v / 10)[i]);
            }
        }
    }
}

proof fn lemma_zero_padded_digits(v: nat, width: nat)
    ensures
        forall|i: int| 0 <= i < zero_padded(decimal(v), width).len() ==> '0' <= #[trigger] zero_padded(decimal(v), width)[i] <= '9',
{
    lemma_decimal_digits(v);
    let d = decimal(v);
    if d.len() < width {
        let pad = Seq::new((width - d.len()) as nat, |i: int| '0');
        assert forall|i: int| 0 <= i < zero_padded(d, width).len() implies '0' <= #[trigger] zero_padded(d, width)[i] <= '9' by {
            if i < pad.len() {
                assert(zero_padded(d, width)[i] == pad[i]);
            } else {
                assert(zero_padded(d, width)[i] == d[i - pad.len()]);
            }
        }
    }
}

/// The stamp of an update fits on one line, so the banner laws above hold
/// for `update_offsets_at`'s results.
pub proof fn lemma_stamp_single_line(year: i32, month: u32, day: u32, hour: u32, minute: u32, second: u32)
    ensures
        single_line(stamp_text(year, month, day, hour, minute, second)),
{
    reveal_strlit("-");
    reveal_strlit("+");
    reveal_strlit(" ");
    reveal_strlit(":");
    let y = year as int;
    lemma_zero_padded_digits(if y < 0 { (-y) as nat } else { y as nat }, 4);
    lemma_zero_padded_digits(month as nat, 2);
    lemma_zero_padded_digits(day as nat, 2);
    lemma_zero_padded_digits(hour as nat, 2);
    lemma_zero_padded_digits(minute as nat, 2);
    lemma_zero_padded_digits(second as nat, 2);
    let yt = year_text(y);
    assert(single_line(yt)) by {
        assert forall|i: int| 0 <= i < yt.len() implies yt[i] != '\n' by {
            if 0 <= y <= 9999 {
            } else if y < 0 {
                if i > 0 {
                    assert(yt[i] == zero_padded(decimal((-y) as nat), 4)[i - 1]);
                }
            } else {
                if i > 0 {
                    assert(yt[i] == zero_padded(decimal(y as nat), 4)[i - 1]);
                }
            }
        }
    }
    let m = two_digits(month as int);
    let d = two_digits(day as int);
    let h = two_digits(hour as int);
    let mi = two_digits(minute as int);
    let se = two_digits(second as int);
    assert(single_line(m) && single_line(d) && single_line(h) && single_line(mi) && single_line(se));
    assert(single_line("-"@) && single_line(" "@) && single_line(":"@));
    lemma_single_line_concat(yt, "-"@);
    lemma_single_line_concat(yt + "-"@, m);
    lemma_single_line_concat(yt + "-"@ + m, "-"@);
    lemma_single_line_concat(yt + "-"@ + m + "-"@, d);
    lemma_single_line_concat(yt + "-"@ + m + "-"@ + d, " "@);
    lemma_single_line_concat(yt + "-"@ + m + "-"@ + d + " "@, h);
    lemma_single_line_concat(yt + "-"@ + m + "-"@ + d + " "@ + h, ":"@);
    lemma_single_line_concat(yt + "-"@ + m + "-"@ + d + " "@ + h + ":"@, mi);
    lemma_single_line_concat(yt + "-"@ + m + "-"@ + d + " "@ + h + ":"@ + mi, ":"@);
    lemma_single_line_concat(yt + "-"@ + m + "-"@ + d + " "@ + h + ":"@ + mi + ":"@, se);
}

proof fn lemma_single_line_concat(a: Seq<char>, b: Seq<char>)
    requires
        single_line(a),
        single_line(b),
    ensures
        single_line(a + b),
{
    assert forall|i: int| 0 <= i < (a + b).len() implies (a + b)[i] != '\n' by {
        if i < a.len() {
            assert((a + b)[i] == a[i]);
        } else {
            assert((a + b)[i] == b[i - a.len()]);
        }
    }
}

/// A declaration in the form the updater writes values in is read back
/// by the parser as that name and value.
pub proof fn lemma_declaration_round_trip(name: Seq<char>, v: u64)
    requires
        name.len() > 0,
        forall|i: int| 0 <= i < name.len() ==> ascii_word_char(#[trigger] name[i]),
    ensures
        header_offsets(kw_constexpr() + " "@ + kw_ptrdiff() + " "@ + assignment(name, hex_literal(v)))
            == map![name => v],
{
    lemma_hex_round_trip(v as nat);
    let hx = hex_upper(v as nat);
    assert(assignment(name, hex_literal(v)) == name + " = "@ + "0x"@ + hx);
    lemma_declaration_digits(name, hx, v);
    assert(kw_constexpr() + " "@ + kw_ptrdiff() + " "@ + assignment(name, hex_literal(v))
        == kw_constexpr() + " "@ + kw_ptrdiff() + " "@ + name + " = "@ + "0x"@ + hx);
}

/// A character in lower case, for the letters of ASCII.
pub open spec fn ascii_lower(c: char) -> char {
    if 'A' <= c && c <= 'Z' {
        ((c as u32) + 32) as char
    } else {
        c
    }
}

/// A text in lower case, for the letters of ASCII.
pub open spec fn lower_text(s: Seq<char>) -> Seq<char> {
    s.map_values(|c: char| ascii_lower(c))
}

/// Base-16 digits stand for the same number in lower case as in upper case.
pub proof fn lemma_hex_lower_round_trip(v: nat)
    ensures
        hex_value(lower_text(hex_upper(v))) == v,
        forall|i: int|
            0 <= i < lower_text(hex_upper(v)).len() ==> is_hex_digit(
                #[trigger] lower_text(hex_upper(v))[i],
            ),
        lower_text(hex_upper(v)).len() > 0,
    decreases v,
{
    let l = lower_text(hex_upper(v));
    if v < 16 {
        assert(l =~= seq![ascii_lower(digit_char(v))]);
        assert(l.drop_last() =~= Seq::<char>::empty());
        assert(hex_value(l.drop_last()) == 0);
    } else {
        lemma_hex_lower_round_trip(v / 16);
        assert(hex_upper(v) == hex_upper(v / 16).push(digit_char(v % 16)));
        assert(l =~= lower_text(hex_upper(v / 16)).push(ascii_lower(digit_char(v % 16))));
        assert(l.drop_last() =~= lower_text(hex_upper(v / 16)));
        assert(hex_value(l) == v / 16 * 16 + v % 16);
        assert(v / 16 * 16 + v % 16 == v) by (nonlinear_arith);
    }
}

/// A declaration whose value is written in lower-case digits is read
/// with the same value as in upper case: every base-16 digit of either
/// case belongs to the value.
pub proof fn lemma_declaration_lower_case(name: Seq<char>, v: u64)
    requires
        name.len() > 0,
        forall|i: int| 0 <= i < name.len() ==> ascii_word_char(#[trigger] name[i]),
    ensures
        header_offsets(
            kw_constexpr() + " "@ + kw_ptrdiff() + " "@ + name + " = "@ + "0x"@ + lower_text(
                hex_upper(v as nat),
            ),
        ) == map![name => v],
{
    lemma_hex_lower_round_trip(v as nat);
    lemma_declaration_digits(name, lower_text(hex_upper(v as nat)), v);
}

/// One declaration's update: the first `NAME = OLD` of the text becomes
/// `NAME = 0xNEW` when the dump holds the name, and the text stays as it
/// is otherwise.
pub proof fn lemma_update_one(text: Seq<char>, c: (Seq<char>, Seq<char>), dump: Map<Seq<char>, u64>)
    ensures
        apply_updates(text, seq![c], dump) == (if dump.contains_key(c.0) {
            replace_first(text, assignment(c.0, c.1), assignment(c.0, hex_literal(dump[c.0])))
        } else {
            text
        }),
{
    assert(seq![c].drop_last() =~= Seq::<(Seq<char>, Seq<char>)>::empty());
    assert(apply_updates(text, seq![c].drop_last(), dump) == text);
    assert(seq![c].last() == c);
}

/// Updating from a list of declarations is updating from its first part
/// and then, on that result, from the rest: each rewrite works on the text
/// the earlier ones left, so earlier rewrites are kept.
pub proof fn lemma_updates_compose(
    text: Seq<char>,
    a: Seq<(Seq<char>, Seq<char>)>,
    b: Seq<(Seq<char>, Seq<char>)>,
    dump: Map<Seq<char>, u64>,
)
    ensures
        apply_updates(text, a + b, dump) == apply_updates(apply_updates(text, a, dump), b, dump),
    decreases b.len(),
{
    if b.len() == 0 {
        assert(a + b =~= a);
    } else {
        lemma_updates_compose(text, a, b.drop_last(), dump);
        assert((a + b).drop_last() =~= a + b.drop_last());
        assert((a + b).last() == b.last());
    }
}

/// A header file of the output directory that could be read gives its
/// own offsets.
pub proof fn lemma_combined_single(f: OutputFile)
    requires
        file_extension(f.name@) == Some("hpp"@),
        f.content is Some,
    ensures
        combined_offsets(seq![f]) == header_offsets(f.content.unwrap()@),
{
    assert(seq![f].drop_last() =~= Seq::<OutputFile>::empty());
    assert(combined_offsets(seq![f].drop_last()) == Map::<Seq<char>, u64>::empty());
    assert(seq![f].last() == f);
    assert(Map::<Seq<char>, u64>::empty().union_prefer_right(header_offsets(f.content.unwrap()@))
        =~= header_offsets(f.content.unwrap()@));
}

/// A file that is not a header, or could not be read, adds nothing.
pub proof fn lemma_combined_skips(files: Seq<OutputFile>, f: OutputFile)
    requires
        !(file_extension(f.name@) == Some("hpp"@) && f.content is Some),
    ensures
        combined_offsets(files.push(f)) == combined_offsets(files),
{
    assert(files.push(f).drop_last() =~= files);
}

/// Combining two lists of files is combining each, the second list's
/// values winning.
pub proof fn lemma_combined_concat(a: Seq<OutputFile>, b: Seq<OutputFile>)
    ensures
        combined_offsets(a + b) == combined_offsets(a).union_prefer_right(combined_offsets(b)),
    decreases b.len(),
{
    if b.len() == 0 {
        assert(a + b =~= a);
        assert(combined_offsets(a).union_prefer_right(Map::empty()) =~= combined_offsets(a));
    } else {
        lemma_combined_concat(a, b.drop_last());
        assert((a + b).drop_last() =~= a + b.drop_last());
        assert((a + b).last() == b.last());
        let f = b.last();
        if file_extension(f.name@) == Some("hpp"@) && f.content is Some {
            let h = header_offsets(f.content.unwrap()@);
            assert(combined_offsets(a).union_prefer_right(combined_offsets(b.drop_last())).union_prefer_right(h)
                =~= combined_offsets(a).union_prefer_right(combined_offsets(b.drop_last()).union_prefer_right(h)));
        }
    }
}

/// Each file type is written exactly when its own box is ticked.
pub proof fn lemma_selected_types(f: FileTypesState)
    ensures
        selected_types(f).contains("cs"@) <==> f.cs,
        selected_types(f).contains("hpp"@) <==> f.hpp,
        selected_types(f).contains("json"@) <==> f.json,
        selected_types(f).contains("rs"@) <==> f.rs,
        selected_types(f).contains("zig"@) <==> f.zig,
{
    reveal_strlit("cs");
    reveal_strlit("hpp");
    reveal_strlit("json");
    reveal_strlit("rs");
    reveal_strlit("zig");
    let e = Seq::<Seq<char>>::empty();
    let s = selected_types(f);
    let names = seq!["cs"@, "hpp"@, "json"@, "rs"@, "zig"@];
    let flags = seq![f.cs, f.hpp, f.json, f.rs, f.zig];
    assert(names[0].len() == 2 && names[1].len() == 3 && names[2].len() == 4);
    assert(names[3].len() == 2 && names[4].len() == 3);
    assert(names[0][0] == 'c' && names[3][0] == 'r');
    assert(names[1][0] == 'h' && names[4][0] == 'z');
    assert(names[0] != names[3]);
    assert(names[1] != names[4]);
    assert forall|i: int| 0 <= i < s.len() implies exists|k: int| 0 <= k < 5 && flags[k] && #[trigger] s[i] == names[k] by {
        let p1 = if f.cs { seq!["cs"@] } else { e };
        let p2 = if f.hpp { seq!["hpp"@] } else { e };
        let p3 = if f.json { seq!["json"@] } else { e };
        let p4 = if f.rs { seq!["rs"@] } else { e };
        let p5 = if f.zig { seq!["zig"@] } else { e };
        assert(s == p1 + p2 + p3 + p4 + p5);
        if i < p1.len() {
            assert(s[i] == names[0]);
        } else if i < p1.len() + p2.len() {
            assert(s[i] == names[1]);
        } else if i < p1.len() + p2.len() + p3.len() {
            assert(s[i] == names[2]);
        } else if i < p1.len() + p2.len() + p3.len() + p4.len() {
            assert(s[i] == names[3]);
        } else {
            assert(s[i] == names[4]);
        }
    }
    let p1 = if f.cs { seq!["cs"@] } else { e };
    let p2 = if f.hpp { seq!["hpp"@] } else { e };
    let p3 = if f.json { seq!["json"@] } else { e };
    let p4 = if f.rs { seq!["rs"@] } else { e };
    let p5 = if f.zig { seq!["zig"@] } else { e };
    assert(s == p1 + p2 + p3 + p4 + p5);
    assert forall|k: int| 0 <= k < 5 implies (s.contains(#[trigger] names[k]) <==> flags[k]) by {
        if s.contains(names[k]) {
            let i = choose|i: int| 0 <= i < s.len() && s[i] == names[k];
            let k2 = choose|k2: int| 0 <= k2 < 5 && flags[k2] && s[i] == names[k2];
            assert(k2 == k);
        }
        if flags[k] {
            if k == 0 {
                assert(s[0] == names[0]);
            } else if k == 1 {
                assert(s[p1.len() as int] == names[1]);
            } else if k == 2 {
                assert(s[(p1.len() + p2.len()) as int] == names[2]);
            } else if k == 3 {
                assert(s[(p1.len() + p2.len() + p3.len()) as int] == names[3]);
            } else {
                assert(s[(p1.len() + p2.len() + p3.len() + p4.len()) as int] == names[4]);
            }
        }
    }
    assert(s.contains(names[0]) <==> flags[0]);
    assert(s.contains(names[1]) <==> flags[1]);
    assert(s.contains(names[2]) <==> flags[2]);
    assert(s.contains(names[3]) <==> flags[3]);
    assert(s.contains(names[4]) <==> flags[4]);
}

/// Each level is shown under a name of its own.
pub proof fn lemma_level_labels_distinct(a: LogLevel, b: LogLevel)
    ensures
        level_label(a) == level_label(b) ==> a == b,
{
    reveal_strlit("ERROR");
    reveal_strlit("WARN");
    reveal_strlit("INFO");
    reveal_strlit("DEBUG");
    reveal_strlit("TRACE");
    if level_label(a) == level_label(b) && a != b {
        let la = level_label(a);
        let lb = level_label(b);
        assert(la.len() == lb.len());
        assert(la[0] == lb[0]);
    }
}

} // verus!
