use cs2_dumper::{
    apply_offset_update, combine_output_files, is_hpp_file_name, parse_hpp_content,
    update_offsets_at, OffsetMap, OutputFile,
};

fn key(s: &str) -> String {
    s.to_string()
}

#[test]
fn reads_a_declaration() {
    let m = parse_hpp_content("constexpr std::ptrdiff_t dwEntityList = 0x1A2B3C;\n");
    assert_eq!(m.len(), 1);
    assert_eq!(m.get(&key("dwEntityList")), Some(0x1A2B3C));
}

#[test]
fn reads_declarations_in_a_namespace() {
    let text = "namespace cs2_dumper {\n    namespace offsets {\n        // Module: client.dll\n        namespace client_dll {\n            constexpr std::ptrdiff_t dwCSGOInput = 0x1A3B9A0;\n            constexpr std::ptrdiff_t dwEntityList = 0x19F6B38;\n        }\n    }\n}\n";
    let m = parse_hpp_content(text);
    assert_eq!(m.len(), 2);
    assert_eq!(m.get(&key("dwCSGOInput")), Some(0x1A3B9A0));
    assert_eq!(m.get(&key("dwEntityList")), Some(0x19F6B38));
}

#[test]
fn spacing_and_case_of_digits() {
    let m = parse_hpp_content("constexpr \t std::ptrdiff_t\n a_b1 =0xabcDEF ; constexpr std::ptrdiff_t c=  0x0");
    assert_eq!(m.get(&key("a_b1")), Some(0xABCDEF));
    assert_eq!(m.get(&key("c")), Some(0));
}

#[test]
fn later_declaration_wins() {
    let m = parse_hpp_content("constexpr std::ptrdiff_t x = 0x1;\nconstexpr std::ptrdiff_t x = 0x2;\n");
    assert_eq!(m.len(), 1);
    assert_eq!(m.get(&key("x")), Some(2));
}

#[test]
fn value_too_large_is_passed_over() {
    let m = parse_hpp_content(
        "constexpr std::ptrdiff_t big = 0x10000000000000000;\nconstexpr std::ptrdiff_t max = 0xFFFFFFFFFFFFFFFF;\n",
    );
    assert_eq!(m.get(&key("big")), None);
    assert_eq!(m.get(&key("max")), Some(u64::MAX));
}

#[test]
fn malformed_declarations_are_not_read() {
    let m = parse_hpp_content(
        "constexprstd::ptrdiff_t a = 0x1;\nconstexpr std::ptrdiff_ta = 0x1;\nconstexpr std::ptrdiff_t b = 0X1;\nconstexpr std::ptrdiff_t c = 12;\nconstexpr std::ptrdiff_t d = 0x;\nconstexpr std::size_t e = 0x1;\n",
    );
    assert_eq!(m.len(), 0);
}

#[test]
fn unicode_names_and_spaces() {
    let m = parse_hpp_content("constexpr\u{00a0}std::ptrdiff_t été = 0x5;");
    assert_eq!(m.get(&key("été")), Some(5));
}

#[test]
fn declaration_inside_other_text() {
    let m = parse_hpp_content("xconstexpr std::ptrdiff_t inner = 0x7g");
    assert_eq!(m.get(&key("inner")), Some(7));
}

fn dump_of(entries: &[(&str, u64)]) -> OffsetMap {
    let mut m = OffsetMap::new();
    for (k, v) in entries {
        m.insert(k.to_string(), *v);
    }
    m
}

const BANNER_TAIL: &str = "\n// https://github.com/1dpcc/Modified-A2x-Dumper\n\n";

#[test]
fn update_rewrites_known_offsets() {
    let content = "constexpr std::ptrdiff_t a = 0x10;\nconstexpr std::ptrdiff_t b = 0x20;\n";
    let dump = dump_of(&[("a", 0xabc)]);
    let r = apply_offset_update(content, &dump, "2024-01-02 03:04:05");
    let expected = format!(
        "// Updated using Modified A2X Dumper — 2024-01-02 03:04:05{}constexpr std::ptrdiff_t a = 0xABC;\nconstexpr std::ptrdiff_t b = 0x20;\n",
        BANNER_TAIL
    );
    assert_eq!(r.content, expected);
    assert_eq!(r.stats.total, 2);
    assert_eq!(r.stats.updated, 1);
    assert_eq!(r.stats.missing, 1);
    assert_eq!(r.summary, "Update completed:\n✓ Updated: 1/2 offsets\n✗ Missing: 1 offsets");
}

#[test]
fn update_with_empty_dump_changes_only_the_banner() {
    let content = "constexpr std::ptrdiff_t a = 0x10;\n";
    let r = apply_offset_update(content, &OffsetMap::new(), "t");
    assert_eq!(r.content, format!("// Updated using Modified A2X Dumper — t{}{}", BANNER_TAIL, content));
    assert_eq!((r.stats.total, r.stats.updated, r.stats.missing), (1, 0, 1));
}

#[test]
fn update_replaces_the_old_banner() {
    let content = "constexpr std::ptrdiff_t a = 0x10;\n";
    let dump = dump_of(&[("a", 0x11)]);
    let first = apply_offset_update(content, &dump, "one");
    let second = apply_offset_update(&first.content, &dump, "two");
    let expected = format!(
        "// Updated using Modified A2X Dumper — two{}constexpr std::ptrdiff_t a = 0x11;\n",
        BANNER_TAIL
    );
    assert_eq!(second.content, expected);
    assert_eq!(second.content.matches("// Updated using").count(), 1);
    assert_eq!(second.stats, first.stats);
    assert_eq!(second.summary, first.summary);
}

#[test]
fn banner_with_extra_comment_lines_is_taken_out() {
    let content = "// Generated\n// Updated using X\n// note one\n// note two\n\n#pragma once\n";
    let r = apply_offset_update(content, &OffsetMap::new(), "t");
    assert_eq!(
        r.content,
        format!("// Updated using Modified A2X Dumper — t{}// Generated\n#pragma once\n", BANNER_TAIL)
    );
}

#[test]
fn banner_not_at_line_start_stays() {
    let content = "x // Updated using X\nrest";
    let r = apply_offset_update(content, &OffsetMap::new(), "t");
    assert_eq!(r.content, format!("// Updated using Modified A2X Dumper — t{}{}", BANNER_TAIL, content));
}

#[test]
fn differently_spaced_assignment_is_counted_but_not_rewritten() {
    let content = "constexpr std::ptrdiff_t a  =  0x10;\n";
    let dump = dump_of(&[("a", 0x20)]);
    let r = apply_offset_update(content, &dump, "t");
    assert_eq!(r.content, format!("// Updated using Modified A2X Dumper — t{}{}", BANNER_TAIL, content));
    assert_eq!(r.stats.updated, 1);
}

#[test]
fn only_the_first_matching_assignment_is_rewritten() {
    let content = "// a = 0x1 seen before\nconstexpr std::ptrdiff_t a = 0x1;\n";
    let dump = dump_of(&[("a", 0xff)]);
    let r = apply_offset_update(content, &dump, "t");
    assert_eq!(
        r.content,
        format!(
            "// Updated using Modified A2X Dumper — t{}// a = 0xFF seen before\nconstexpr std::ptrdiff_t a = 0x1;\n",
            BANNER_TAIL
        )
    );
}

#[test]
fn zero_is_written_as_0x0() {
    let content = "constexpr std::ptrdiff_t z = 0x5;";
    let r = apply_offset_update(content, &dump_of(&[("z", 0)]), "t");
    assert!(r.content.ends_with("constexpr std::ptrdiff_t z = 0x0;"));
}

#[test]
fn written_value_reads_back() {
    let dump = dump_of(&[("a", 0xdeadbeef)]);
    let r = apply_offset_update("constexpr std::ptrdiff_t a = 0x1;", &dump, "t");
    let back = parse_hpp_content(&r.content);
    assert_eq!(back.get(&key("a")), Some(0xdeadbeef));
}

#[test]
fn up_to_date_header_keeps_its_text() {
    let content = "constexpr std::ptrdiff_t a = 0xABC;\nconstexpr std::ptrdiff_t b = 0x1;\n";
    let dump = dump_of(&[("a", 0xabc), ("c", 5)]);
    let r = apply_offset_update(content, &dump, "t");
    assert_eq!(r.content, format!("// Updated using Modified A2X Dumper — t{}{}", BANNER_TAIL, content));
    assert_eq!((r.stats.total, r.stats.updated, r.stats.missing), (2, 1, 1));
}

#[test]
fn header_file_names() {
    assert!(is_hpp_file_name("offsets.hpp"));
    assert!(is_hpp_file_name("client_dll.hpp"));
    assert!(is_hpp_file_name("a.b.hpp"));
    assert!(is_hpp_file_name("..hpp"));
    assert!(!is_hpp_file_name(".hpp"));
    assert!(!is_hpp_file_name("hpp"));
    assert!(!is_hpp_file_name("a.hpp.bak"));
    assert!(!is_hpp_file_name("a.HPP"));
    assert!(!is_hpp_file_name("a.hp"));
    assert!(!is_hpp_file_name("a.json"));
    assert!(!is_hpp_file_name(""));
}

#[test]
fn update_stamps_the_given_time() {
    let r = update_offsets_at("constexpr std::ptrdiff_t a = 0x1;", &dump_of(&[("a", 2)]), 2024, 1, 2, 3, 4, 5);
    assert_eq!(
        r.content,
        format!(
            "// Updated using Modified A2X Dumper — 2024-01-02 03:04:05{}constexpr std::ptrdiff_t a = 0x2;",
            BANNER_TAIL
        )
    );
    assert_eq!(r.stats.updated, 1);
}

#[test]
fn stamp_years_outside_four_digits() {
    let head = |y: i32, m: u32, d: u32| {
        let r = update_offsets_at("", &OffsetMap::new(), y, m, d, 23, 59, 59);
        r.content.lines().next().unwrap().to_string()
    };
    assert_eq!(head(999, 12, 31), "// Updated using Modified A2X Dumper — 0999-12-31 23:59:59");
    assert_eq!(head(12344, 2, 29), "// Updated using Modified A2X Dumper — +12344-02-29 23:59:59");
    assert_eq!(head(-5, 3, 1), "// Updated using Modified A2X Dumper — -0005-03-01 23:59:59");
    assert_eq!(head(2000, 2, 29), "// Updated using Modified A2X Dumper — 2000-02-29 23:59:59");
}

fn file(name: &str, content: Option<&str>) -> OutputFile {
    OutputFile { name: name.to_string(), content: content.map(|c| c.to_string()) }
}

#[test]
fn output_directory_headers_are_combined() {
    let files = vec![
        file("client_dll.hpp", Some("constexpr std::ptrdiff_t a = 0x1;\nconstexpr std::ptrdiff_t b = 0x2;")),
        file("client_dll.json", Some("constexpr std::ptrdiff_t c = 0x3;")),
        file("broken.hpp", None),
        file("engine2_dll.hpp", Some("constexpr std::ptrdiff_t b = 0x20;")),
        file(".hpp", Some("constexpr std::ptrdiff_t d = 0x4;")),
    ];
    let m = combine_output_files(&files);
    assert_eq!(m.len(), 2);
    assert_eq!(m.get(&key("a")), Some(1));
    assert_eq!(m.get(&key("b")), Some(0x20));
    assert_eq!(m.get(&key("c")), None);
    assert_eq!(m.get(&key("d")), None);
}

#[test]
fn ascii_names_end_at_non_word_characters() {
    let m = parse_hpp_content("constexpr std::ptrdiff_t a-b = 0x1;constexpr std::ptrdiff_t a_b9 = 0x2;");
    assert_eq!(m.len(), 1);
    assert_eq!(m.get(&key("a_b9")), Some(2));
}
