//! Reading offsets out of headers, and bringing a header's offsets up to
//! date from a dump.
use vstd::prelude::*;
use crate::clock::{format_date_time, stamp_text, valid_date_time};
use crate::grammar::{
    capture, decl_shape, declarations, decls_from, find_declarations, lemma_decls_shape,
    lemma_run_end_bounds, lit_at, lit_at_exec, run_end, run_end_exec, CharClass,
};
use crate::offset_map::OffsetMap;
use crate::text::{
    chars_of, decimal, extend_range, extend_str, hex_upper, hex_value, parse_hex_u64, push_decimal,
    push_hex_upper, push_range, string_of,
};

verus! {

/// The offsets that the declarations `caps` define: each declaration whose
/// value fits in 64 bits stores that value under its name, a later
/// declaration of a name winning over an earlier one. Values too large
/// for 64 bits are passed over.
pub open spec fn offsets_of(caps: Seq<(Seq<char>, Seq<char>)>) -> Map<Seq<char>, u64>
    decreases caps.len(),
{
    if caps.len() == 0 {
        Map::empty()
    } else {
        let m = offsets_of(caps.drop_last());
        let name = caps.last().0;
        let v = hex_value(caps.last().1.skip(2));
        if v <= u64::MAX {
            m.insert(name, v as u64)
        } else {
            m
        }
    }
}

/// The offsets that a header declares.
pub open spec fn header_offsets(content: Seq<char>) -> Map<Seq<char>, u64> {
    offsets_of(declarations(content))
}

/// Reads the offsets that the header text `content` declares.
pub fn parse_hpp_content(content: &str) -> (offsets: OffsetMap)
    ensures
        offsets@ == header_offsets(content@),
{
    let s = chars_of(content);
    let found = find_declarations(&s);
    let ghost ds = decls_from(s@, 0);
    let ghost caps = declarations(s@);
    proof {
        lemma_decls_shape(s@, 0);
    }
    let mut offsets = OffsetMap::new();
    let mut i: usize = 0;
    while i < found.len()
        invariant
            found@.map_values(
                |m: (usize, usize, usize, usize)| (m.0 as int, m.1 as int, m.2 as int, m.3 as int),
            ) == ds,
            ds == decls_from(s@, 0),
            caps == declarations(s@),
            caps == ds.map_values(|m: (int, int, int, int)| capture(s@, m)),
            forall|k: int| 0 <= k < ds.len() ==> decl_shape(s@, #[trigger] ds[k]),
            i <= found@.len(),
            offsets@ == offsets_of(caps.take(i as int)),
        decreases found@.len() - i,
    {
        let m = found[i];
        assert(ds[i as int] == (m.0 as int, m.1 as int, m.2 as int, m.3 as int));
        assert(decl_shape(s@, ds[i as int]));
        proof {
            reveal_strlit("0x");
        }
        let mut name = String::new();
        push_range(&mut name, &s, m.0, m.1);
        let value = parse_hex_u64(&s, m.2 + 2, m.3);
        proof {
            reveal_strlit("0x");
            assert(caps.take(i + 1).drop_last() == caps.take(i as int));
            assert(caps[i as int] == capture(s@, ds[i as int]));
            assert(caps[i as int].1.skip(2) == s@.subrange(m.2 + 2, m.3 as int));
        }
        match value {
            Some(v) => {
                offsets.insert(name, v);
            },
            None => {},
        }
        i = i + 1;
    }
    assert(caps.take(found@.len() as int) == caps);
    offsets
}

/// Where `pat` first stands in `s`, looking from position `i` on.
pub open spec fn first_occurrence(s: Seq<char>, pat: Seq<char>, i: int) -> Option<int>
    decreases s.len() + 1 - i,
{
    if i < 0 || i + pat.len() > s.len() {
        None
    } else if lit_at(s, i, pat) {
        Some(i)
    } else {
        first_occurrence(s, pat, i + 1)
    }
}

/// `s` with its first occurrence of `pat` replaced by `rep`; `s` itself
/// when `pat` does not occur.
pub open spec fn replace_first(s: Seq<char>, pat: Seq<char>, rep: Seq<char>) -> Seq<char> {
    match first_occurrence(s, pat, 0) {
        Some(i) => s.take(i) + rep + s.skip(i + pat.len()),
        None => s,
    }
}

/// `NAME = VALUE`, as the updater looks for it and writes it.
pub open spec fn assignment(name: Seq<char>, value: Seq<char>) -> Seq<char> {
    name + " = "@ + value
}

/// `v` as a `0x`-prefixed literal with upper-case digits.
pub open spec fn hex_literal(v: u64) -> Seq<char> {
    "0x"@ + hex_upper(v as nat)
}

/// The text after the declarations `caps` were brought up to date from
/// `dump`, one after the other: for each declaration whose name the dump
/// holds, the first `NAME = OLD` of the text becomes `NAME = NEW`.
pub open spec fn apply_updates(
    text: Seq<char>,
    caps: Seq<(Seq<char>, Seq<char>)>,
    dump: Map<Seq<char>, u64>,
) -> Seq<char>
    decreases caps.len(),
{
    if caps.len() == 0 {
        text
    } else {
        let t = apply_updates(text, caps.drop_last(), dump);
        let name = caps.last().0;
        if dump.contains_key(name) {
            replace_first(t, assignment(name, caps.last().1), assignment(name, hex_literal(dump[name])))
        } else {
            t
        }
    }
}

/// How many of the declarations `caps` name an offset that `dump` holds.
pub open spec fn count_known(caps: Seq<(Seq<char>, Seq<char>)>, dump: Map<Seq<char>, u64>) -> nat
    decreases caps.len(),
{
    if caps.len() == 0 {
        0
    } else {
        count_known(caps.drop_last(), dump) + if dump.contains_key(caps.last().0) {
            1nat
        } else {
            0nat
        }
    }
}

/// The end of the line that starts at or contains position `i`: the
/// position of the next newline, or the end of the text.
pub open spec fn line_end(s: Seq<char>, i: int) -> int {
    run_end(s, i, CharClass::NotNewline)
}

/// The opening of the banner line.
pub open spec fn banner_mark() -> Seq<char> {
    "// Updated using"@
}

/// The opening of a comment line.
pub open spec fn comment_mark() -> Seq<char> {
    "// "@
}

/// The end of the run of whole comment lines (`// ...` ended by a newline)
/// that starts at `q`.
pub open spec fn comment_lines_end(s: Seq<char>, q: int) -> int
    decreases s.len() - q,
{
    if 0 <= q && lit_at(s, q, comment_mark()) && line_end(s, q + comment_mark().len()) < s.len() {
        proof {
            lemma_run_end_bounds(s, q + comment_mark().len(), CharClass::NotNewline);
        }
        comment_lines_end(s, line_end(s, q + comment_mark().len()) + 1)
    } else {
        q
    }
}

/// Where the banner that starts exactly at `p` ends, if one does: a line
/// that opens with `// Updated using`, the comment lines that follow it,
/// and one blank line if there is one.
pub open spec fn banner_at(s: Seq<char>, p: int) -> Option<int> {
    let e = line_end(s, p + banner_mark().len());
    if (p == 0 || (0 < p <= s.len() && s[p - 1] == '\n')) && lit_at(s, p, banner_mark()) && e
        < s.len() {
        let q = comment_lines_end(s, e + 1);
        Some(
            if 0 <= q < s.len() && s[q] == '\n' {
                q + 1
            } else {
                q
            },
        )
    } else {
        None
    }
}

/// The first banner at or after `p`: where it starts and ends.
pub open spec fn first_banner(s: Seq<char>, p: int) -> Option<(int, int)>
    decreases s.len() - p,
{
    if p < 0 || p >= s.len() {
        None
    } else {
        match banner_at(s, p) {
            Some(e) => Some((p, e)),
            None => first_banner(s, p + 1),
        }
    }
}

/// `s` without its first banner.
pub open spec fn strip_banner(s: Seq<char>) -> Seq<char> {
    match first_banner(s, 0) {
        Some((p, e)) => s.take(p) + s.skip(e),
        None => s,
    }
}

/// The banner that the updater puts on top of a header, stamped with `timestamp`.
pub open spec fn banner_text(timestamp: Seq<char>) -> Seq<char> {
    "// Updated using Modified A2X Dumper — "@ + timestamp
        + "\n// https://github.com/1dpcc/Modified-A2x-Dumper\n\n"@
}

/// The header text after an update from `dump` at `timestamp`: the
/// declarations brought up to date, the old banner taken out, and a new
/// banner on top.
pub open spec fn updated_header(content: Seq<char>, dump: Map<Seq<char>, u64>, timestamp: Seq<char>) -> Seq<char> {
    banner_text(timestamp) + strip_banner(apply_updates(content, declarations(content), dump))
}

/// The counts of an update.
#[derive(Debug, Clone, Copy, PartialEq, Eq, Default)]
pub struct UpdateStats {
    pub total: usize,
    pub updated: usize,
    pub missing: usize,
}

/// The counts that updating `content` from `dump` comes to: every
/// declaration is counted, as updated when the dump holds its name and as
/// missing when it does not.
pub open spec fn stats_hold(stats: UpdateStats, content: Seq<char>, dump: Map<Seq<char>, u64>) -> bool {
    &&& stats.total == declarations(content).len()
    &&& stats.updated == count_known(declarations(content), dump)
    &&& stats.missing == stats.total - stats.updated
}

/// The report of an update.
pub open spec fn summary_text(stats: UpdateStats) -> Seq<char> {
    "Update completed:\n✓ Updated: "@ + decimal(stats.updated as nat) + "/"@ + decimal(
        stats.total as nat,
    ) + " offsets\n✗ Missing: "@ + decimal(stats.missing as nat) + " offsets"@
}

/// What an update produces: the new header text, its report and its counts.
pub struct OffsetUpdate {
    pub content: String,
    pub summary: String,
    pub stats: UpdateStats,
}

/// Whether `pat` stands in `s` at `p`.
fn seq_at(s: &Vec<char>, p: usize, pat: &Vec<char>) -> (r: bool)
    ensures
        r == lit_at(s@, p as int, pat@),
{
    let n: usize = pat.len();
    let len: usize = s.len();
    if p > len || n > len - p {
        return false;
    }
    let mut j: usize = 0;
    while j < n
        invariant
            n == pat@.len(),
            len == s@.len(),
            p + n <= len,
            j <= n,
            forall|x: int| 0 <= x < j ==> s@[p + x] == pat@[x],
        decreases n - j,
    {
        if s[p + j] != pat[j] {
            assert(s@.subrange(p as int, p + n)[j as int] != pat@[j as int]);
            return false;
        }
        j = j + 1;
    }
    assert(s@.subrange(p as int, p + n) =~= pat@);
    true
}

/// `s` with its first occurrence of `pat` replaced by `rep`.
fn replace_first_exec(s: &Vec<char>, pat: &Vec<char>, rep: &Vec<char>) -> (r: Vec<char>)
    ensures
        r@ == replace_first(s@, pat@, rep@),
{
    let len: usize = s.len();
    let n: usize = pat.len();
    let mut i: usize = 0;
    while i <= len && n <= len - i
        invariant
            len == s@.len(),
            n == pat@.len(),
            first_occurrence(s@, pat@, 0) == first_occurrence(s@, pat@, i as int),
        decreases len + 1 - i,
    {
        if seq_at(s, i, pat) {
            let mut r: Vec<char> = Vec::new();
            extend_range(&mut r, s, 0, i);
            let mut rc = rep.clone();
            r.append(&mut rc);
            extend_range(&mut r, s, i + n, len);
            assert(s@.subrange(0, i as int) == s@.take(i as int));
            assert(s@.subrange(i + n, len as int) == s@.skip(i + n));
            return r;
        }
        assert(n > 0) by {
            if n == 0 {
                assert(s@.subrange(i as int, i as int) =~= pat@);
            }
        }
        i = i + 1;
    }
    assert(first_occurrence(s@, pat@, i as int) is None);
    s.clone()
}

/// The end of the run of whole comment lines that starts at `q`.
fn comment_lines_end_exec(s: &Vec<char>, q: usize) -> (r: usize)
    requires
        q <= s@.len(),
    ensures
        r as int == comment_lines_end(s@, q as int),
        q <= r <= s@.len(),
{
    let len: usize = s.len();
    let mut q2: usize = q;
    proof {
        reveal_strlit("// ");
    }
    while lit_at_exec(s, q2, "// ") && run_end_exec(s, q2 + 3, &CharClass::NotNewline) < len
        invariant
            len == s@.len(),
            q <= q2 <= len,
            comment_lines_end(s@, q as int) == comment_lines_end(s@, q2 as int),
            comment_mark().len() == 3,
        decreases len - q2,
    {
        q2 = run_end_exec(s, q2 + 3, &CharClass::NotNewline) + 1;
    }
    q2
}

/// Where the banner that starts exactly at `p` ends, if one does.
fn banner_at_exec(s: &Vec<char>, p: usize) -> (r: Option<usize>)
    requires
        p <= s@.len(),
    ensures
        match r {
            Some(e) => banner_at(s@, p as int) == Some(e as int) && p <= e <= s@.len(),
            None => banner_at(s@, p as int) is None,
        },
{
    let len: usize = s.len();
    proof {
        reveal_strlit("// Updated using");
    }
    if !(p == 0 || s[p - 1] == '\n') || !lit_at_exec(s, p, "// Updated using") {
        return None;
    }
    let e: usize = run_end_exec(s, p + 16, &CharClass::NotNewline);
    if e >= len {
        return None;
    }
    let q: usize = comment_lines_end_exec(s, e + 1);
    if q < len && s[q] == '\n' {
        Some(q + 1)
    } else {
        Some(q)
    }
}

/// `s` without its first banner.
fn strip_banner_exec(s: &Vec<char>) -> (r: Vec<char>)
    ensures
        r@ == strip_banner(s@),
{
    let len: usize = s.len();
    let mut p: usize = 0;
    while p < len
        invariant
            len == s@.len(),
            p <= len,
            first_banner(s@, 0) == first_banner(s@, p as int),
        decreases len - p,
    {
        match banner_at_exec(s, p) {
            Some(e) => {
                let mut r: Vec<char> = Vec::new();
                extend_range(&mut r, s, 0, p);
                extend_range(&mut r, s, e, len);
                assert(s@.subrange(0, p as int) == s@.take(p as int));
                assert(s@.subrange(e as int, len as int) == s@.skip(e as int));
                return r;
            },
            None => {},
        }
        p = p + 1;
    }
    s.clone()
}

/// The report of an update, as text.
fn summary_exec(stats: UpdateStats) -> (r: String)
    ensures
        r@ == summary_text(stats),
{
    let mut out: Vec<char> = Vec::new();
    extend_str(&mut out, "Update completed:\n✓ Updated: ");
    push_decimal(&mut out, stats.updated as u64);
    extend_str(&mut out, "/");
    push_decimal(&mut out, stats.total as u64);
    extend_str(&mut out, " offsets\n✗ Missing: ");
    push_decimal(&mut out, stats.missing as u64);
    extend_str(&mut out, " offsets");
    string_of(&out)
}

/// Brings the offsets declared in the header text `content` up to date
/// from `dump`, stamping the result with `timestamp`: each declaration
/// whose name the dump holds has its first `NAME = OLD` rewritten to
/// `NAME = 0xNEW`, the banner of an earlier update is taken out, and a new
/// banner goes on top. The counts and the report say how many
/// declarations there were, how many were updated and how many the dump
/// lacked.
pub fn apply_offset_update(content: &str, dump: &OffsetMap, timestamp: &str) -> (r: OffsetUpdate)
    ensures
        r.content@ == updated_header(content@, dump@, timestamp@),
        stats_hold(r.stats, content@, dump@),
        r.summary@ == summary_text(r.stats),
{
    let s = chars_of(content);
    let found = find_declarations(&s);
    let ghost ds = decls_from(s@, 0);
    let ghost caps = declarations(s@);
    proof {
        lemma_decls_shape(s@, 0);
    }
    let mut text = s.clone();
    let mut updated: usize = 0;
    let mut missing: usize = 0;
    let mut i: usize = 0;
    while i < found.len()
        invariant
            found@.map_values(
                |m: (usize, usize, usize, usize)| (m.0 as int, m.1 as int, m.2 as int, m.3 as int),
            ) == ds,
            ds == decls_from(s@, 0),
            caps == declarations(s@),
            caps == ds.map_values(|m: (int, int, int, int)| capture(s@, m)),
            forall|k: int| 0 <= k < ds.len() ==> decl_shape(s@, #[trigger] ds[k]),
            i <= found@.len(),
            text@ == apply_updates(s@, caps.take(i as int), dump@),
            updated == count_known(caps.take(i as int), dump@),
            updated + missing == i,
        decreases found@.len() - i,
    {
        let m = found[i];
        assert(ds[i as int] == (m.0 as int, m.1 as int, m.2 as int, m.3 as int));
        assert(decl_shape(s@, ds[i as int]));
        proof {
            assert(caps.take(i + 1).drop_last() == caps.take(i as int));
            assert(caps[i as int] == capture(s@, ds[i as int]));
        }
        let mut name_chars: Vec<char> = Vec::new();
        extend_range(&mut name_chars, &s, m.0, m.1);
        let name = string_of(&name_chars);
        match dump.get(&name) {
            Some(v) => {
                let mut pat = name_chars.clone();
                extend_str(&mut pat, " = ");
                extend_range(&mut pat, &s, m.2, m.3);
                let mut rep = name_chars.clone();
                extend_str(&mut rep, " = ");
                extend_str(&mut rep, "0x");
                push_hex_upper(&mut rep, v);
                text = replace_first_exec(&text, &pat, &rep);
                updated = updated + 1;
            },
            None => {
                missing = missing + 1;
            },
        }
        i = i + 1;
    }
    assert(caps.take(found@.len() as int) == caps);
    let stripped = strip_banner_exec(&text);
    let mut out: Vec<char> = Vec::new();
    extend_str(&mut out, "// Updated using Modified A2X Dumper — ");
    extend_str(&mut out, timestamp);
    extend_str(&mut out, "\n// https://github.com/1dpcc/Modified-A2x-Dumper\n\n");
    let mut rest = stripped;
    out.append(&mut rest);
    let stats = UpdateStats { total: updated + missing, updated, missing };
    let summary = summary_exec(stats);
    OffsetUpdate { content: string_of(&out), summary, stats }
}

/// Where the last `.` before position `i` of `f` stands, if there is one.
pub open spec fn last_dot_before(f: Seq<char>, i: int) -> Option<int>
    decreases i,
{
    if i <= 0 || i > f.len() {
        None
    } else if f[i - 1] == '.' {
        Some(i - 1)
    } else {
        last_dot_before(f, i - 1)
    }
}

/// The extension of the file name `f`: the text after its last `.`; none
/// when it has no `.`, or when its only `.` is its first character.
pub open spec fn file_extension(f: Seq<char>) -> Option<Seq<char>> {
    match last_dot_before(f, f.len() as int) {
        Some(i) => if i > 0 {
            Some(f.skip(i + 1))
        } else {
            None
        },
        None => None,
    }
}

/// Whether a file of the output directory is read as a header: its name
/// has the extension `hpp`.
pub fn is_hpp_file_name(name: &str) -> (r: bool)
    ensures
        r == (file_extension(name@) == Some("hpp"@)),
{
    let f = chars_of(name);
    let len: usize = f.len();
    let mut i: usize = len;
    while i > 0 && f[i - 1] != '.'
        invariant
            len == f@.len(),
            i <= len,
            last_dot_before(f@, len as int) == last_dot_before(f@, i as int),
        decreases i,
    {
        i = i - 1;
    }
    if i <= 1 {
        return false;
    }
    let n: usize = "hpp".unicode_len();
    if len - i != n {
        assert(f@.skip(i as int).len() != "hpp"@.len());
        return false;
    }
    let r = lit_at_exec(&f, i, "hpp");
    assert(f@.subrange(i as int, i + n) == f@.skip(i as int));
    r
}

/// A file of the output directory: its name, and its text when it could
/// be read.
pub struct OutputFile {
    pub name: String,
    pub content: Option<String>,
}

/// The offsets that the header files among `files` declare, taken in
/// order: files that are not headers, or could not be read, are passed
/// over, and a later file's value wins over an earlier one's.
pub open spec fn combined_offsets(files: Seq<OutputFile>) -> Map<Seq<char>, u64>
    decreases files.len(),
{
    if files.len() == 0 {
        Map::empty()
    } else {
        let before = combined_offsets(files.drop_last());
        let f = files.last();
        if file_extension(f.name@) == Some("hpp"@) && f.content is Some {
            before.union_prefer_right(header_offsets(f.content.unwrap()@))
        } else {
            before
        }
    }
}

/// Gathers the offsets of the header files of an output directory, in
/// the order the files are given.
pub fn combine_output_files(files: &Vec<OutputFile>) -> (r: OffsetMap)
    ensures
        r@ == combined_offsets(files@),
{
    let mut combined = OffsetMap::new();
    let mut i: usize = 0;
    while i < files.len()
        invariant
            i <= files@.len(),
            combined@ == combined_offsets(files@.take(i as int)),
        decreases files@.len() - i,
    {
        assert(files@.take(i + 1).drop_last() == files@.take(i as int));
        let f = &files[i];
        if is_hpp_file_name(f.name.as_str()) {
            match &f.content {
                Some(text) => {
                    let offsets = parse_hpp_content(text.as_str());
                    combined.extend(&offsets);
                },
                None => {},
            }
        }
        i = i + 1;
    }
    assert(files@.take(files@.len() as int) == files@);
    combined
}

/// Brings the offsets declared in the header text `content` up to date
/// from `dump`, stamped with the given date and time written as
/// `YYYY-MM-DD HH:MM:SS`.
pub fn update_offsets_at(
    content: &str,
    dump: &OffsetMap,
    year: i32,
    month: u32,
    day: u32,
    hour: u32,
    minute: u32,
    second: u32,
) -> (r: OffsetUpdate)
    requires
        valid_date_time(year, month, day, hour, minute, second),
    ensures
        r.content@ == updated_header(
            content@,
            dump@,
            stamp_text(year, month, day, hour, minute, second),
        ),
        stats_hold(r.stats, content@, dump@),
        r.summary@ == summary_text(r.stats),
{
    proof {
        reveal_strlit("%Y-%m-%d %H:%M:%S");
    }
    let timestamp = format_date_time(year, month, day, hour, minute, second, "%Y-%m-%d %H:%M:%S");
    apply_offset_update(content, dump, timestamp.as_str())
}

} // verus!
