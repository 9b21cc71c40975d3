use emulator::assembler::labels::LabelMap;
use emulator::assembler::text::{
    chars_of, is_whitespace, parse_number, push_chars, push_decimal, push_text, same_chars,
    same_text, split_fields, split_line, starts_with, string_from, string_of, trim_chars,
};

fn chars(s: &str) -> Vec<char> {
    s.chars().collect()
}

fn strings(v: Vec<Vec<char>>) -> Vec<String> {
    v.into_iter().map(|c| c.into_iter().collect()).collect()
}

#[test]
fn white_space_is_what_the_standard_library_says() {
    for code in 0..=0x10ffffu32 {
        if let Some(c) = char::from_u32(code) {
            assert_eq!(is_whitespace(c), c.is_whitespace(), "U+{:04X}", code);
        }
    }
}

#[test]
fn strings_and_characters_convert_both_ways() {
    assert_eq!(chars_of("héllo ✓"), chars("héllo ✓"));
    assert_eq!(chars_of(""), Vec::<char>::new());
    assert_eq!(string_from(&chars("héllo ✓")), "héllo ✓");
    assert_eq!(string_of(&chars("abcdef"), 2, 4), "cd");
    assert_eq!(string_of(&chars("abcdef"), 3, 3), "");
}

#[test]
fn trimming_removes_white_space_at_both_ends_only() {
    for s in ["", " ", "a", " a", "a ", "  a b\t", "\t\n x  y \r\n", "\u{3000}z\u{a0}", "   "] {
        let got: String = trim_chars(&chars(s)).into_iter().collect();
        assert_eq!(got, s.trim());
    }
}

#[test]
fn fields_are_the_runs_between_separators() {
    assert_eq!(strings(split_fields(&chars("  mov  r0,  #1 "), 0, false)), ["mov", "r0,", "#1"]);
    assert_eq!(strings(split_fields(&chars("  mov  r0,  #1 "), 0, true)), ["mov", "r0", "#1"]);
    assert_eq!(strings(split_fields(&chars("r0,r1,,r2,"), 0, true)), ["r0", "r1", "r2"]);
    assert_eq!(strings(split_fields(&chars("r0,r1"), 0, false)), ["r0,r1"]);
    assert_eq!(strings(split_fields(&chars("abc def"), 2, false)), ["c", "def"]);
    assert_eq!(strings(split_fields(&chars("abc def"), 7, false)), Vec::<String>::new());
    assert_eq!(strings(split_fields(&chars(" , ,"), 0, true)), Vec::<String>::new());
    for s in ["a b  c", "  x", "", "one", "\ta\nb "] {
        let want: Vec<String> = s.split_whitespace().map(|w| w.to_string()).collect();
        assert_eq!(strings(split_fields(&chars(s), 0, false)), want);
    }
}

#[test]
fn a_line_splits_into_head_and_operands() {
    let (head, ops) = split_line(&chars("  adds r0,r1 , #5,"));
    assert_eq!(head, chars("adds"));
    assert_eq!(strings(ops), ["r0", "r1", "#5"]);
    let (head, ops) = split_line(&chars("hlt"));
    assert_eq!(head, chars("hlt"));
    assert!(ops.is_empty());
    let (head, ops) = split_line(&chars("   "));
    assert!(head.is_empty());
    assert!(ops.is_empty());
    let (head, ops) = split_line(&chars("a,b c"));
    assert_eq!(head, chars("a,b"));
    assert_eq!(strings(ops), ["c"]);
}

#[test]
fn prefixes_and_equality() {
    assert!(starts_with(&chars("push r0"), "push"));
    assert!(starts_with(&chars("push"), "push"));
    assert!(starts_with(&chars("push"), ""));
    assert!(!starts_with(&chars("pus"), "push"));
    assert!(!starts_with(&chars("pop"), "push"));
    assert!(same_text(&chars("lr"), "lr"));
    assert!(!same_text(&chars("lrx"), "lr"));
    assert!(!same_text(&chars("l"), "lr"));
    assert!(same_chars(&chars("abc"), &chars("abc")));
    assert!(!same_chars(&chars("abc"), &chars("abd")));
    assert!(!same_chars(&chars("abc"), &chars("ab")));
}

#[test]
fn numbers_are_read_in_their_radix_up_to_the_limit() {
    assert_eq!(parse_number(&chars("0"), 0, 10, u64::MAX), Some(0));
    assert_eq!(parse_number(&chars("007"), 0, 10, u64::MAX), Some(7));
    assert_eq!(parse_number(&chars("#123"), 1, 10, u64::MAX), Some(123));
    assert_eq!(parse_number(&chars("18446744073709551615"), 0, 10, u64::MAX), Some(u64::MAX));
    assert_eq!(parse_number(&chars("18446744073709551616"), 0, 10, u64::MAX), None);
    assert_eq!(parse_number(&chars("99999999999999999999999"), 0, 10, u64::MAX), None);
    assert_eq!(parse_number(&chars("15"), 0, 10, 15), Some(15));
    assert_eq!(parse_number(&chars("16"), 0, 10, 15), None);
    assert_eq!(parse_number(&chars(""), 0, 10, u64::MAX), None);
    assert_eq!(parse_number(&chars("r"), 1, 10, u64::MAX), None);
    assert_eq!(parse_number(&chars("12a"), 0, 10, u64::MAX), None);
    assert_eq!(parse_number(&chars("+5"), 0, 10, u64::MAX), None);
    assert_eq!(parse_number(&chars("-5"), 0, 10, u64::MAX), None);
    assert_eq!(parse_number(&chars("0xfF"), 2, 16, u64::MAX), Some(255));
    assert_eq!(parse_number(&chars("ffffffffffffffff"), 0, 16, u64::MAX), Some(u64::MAX));
    assert_eq!(parse_number(&chars("10000000000000000"), 0, 16, u64::MAX), None);
    assert_eq!(parse_number(&chars("g"), 0, 16, u64::MAX), None);
    assert_eq!(parse_number(&chars("0b101"), 2, 2, u64::MAX), Some(5));
    assert_eq!(parse_number(&chars("102"), 0, 2, u64::MAX), None);
    assert_eq!(parse_number(&chars("9z"), 0, 10, 5), None);
}

#[test]
fn decimal_text_has_no_leading_zeros_and_reads_back() {
    for n in [0u64, 1, 9, 10, 11, 99, 100, 12345, 4294967295, u64::MAX] {
        let mut out = chars("x");
        push_decimal(&mut out, n);
        let text: String = out.iter().collect();
        assert_eq!(text, format!("x{}", n));
        assert_eq!(parse_number(&out, 1, 10, u64::MAX), Some(n));
    }
}

#[test]
fn texts_are_appended() {
    let mut out = chars("ab");
    push_text(&mut out, "cd");
    push_chars(&mut out, &chars("ef"));
    push_text(&mut out, "");
    assert_eq!(out, chars("abcdef"));
}

#[test]
fn a_label_map_keeps_the_last_definition_of_a_name() {
    let mut map = LabelMap::new();
    assert_eq!(map.get("a"), None);
    map.insert("a", 8);
    map.insert("b", 16);
    assert_eq!(map.get("a"), Some(8));
    assert_eq!(map.get("b"), Some(16));
    assert_eq!(map.get("c"), None);
    assert_eq!(map.get(""), None);
    map.insert("a", 24);
    assert_eq!(map.get("a"), Some(24));
    assert_eq!(map.get("b"), Some(16));
    map.insert_chars(chars("é"), 32);
    assert_eq!(map.get_chars(&chars("é")), Some(32));
    assert_eq!(map.get("é"), Some(32));
}
