use personal_data_hub::text::{
    chars_of, concat2, concat3, decimal_text, eq_ignore_case, lower_char, starts_with, string_of,
    text_eq, to_lower_ascii, trim, trim_end_of, trim_start_of, Strip,
};

#[test]
fn trim_removes_white_space_at_both_ends() {
    assert_eq!(trim("  hello world \t\n"), "hello world");
    assert_eq!(trim("hello"), "hello");
    assert_eq!(trim(""), "");
    assert_eq!(trim(" \t\r\n "), "");
    assert_eq!(trim("a b"), "a b");
}

#[test]
fn trim_knows_unicode_white_space() {
    assert_eq!(trim("\u{3000}x\u{00A0}"), "x");
    assert_eq!(trim("\u{2003}\u{1680}y\u{2028}\u{2029}\u{202F}\u{205F}\u{0085}"), "y");
    assert_eq!(trim("\u{000B}\u{000C}z"), "z");
    // zero width space is no white space
    assert_eq!(trim("\u{200B}z"), "\u{200B}z");
}

#[test]
fn trim_agrees_with_std_on_every_small_code_point() {
    for u in 0u32..0x3100 {
        if let Some(c) = char::from_u32(u) {
            let s = format!("{c}a{c}");
            assert_eq!(trim(&s), s.trim(), "code point {u:#x}");
            assert_eq!(Strip::Whitespace.test(c), c.is_whitespace(), "code point {u:#x}");
        }
    }
}

#[test]
fn strip_one_character_from_an_end() {
    assert_eq!(trim_end_of("http://x///", Strip::Char('/')), "http://x");
    assert_eq!(trim_end_of("///", Strip::Char('/')), "");
    assert_eq!(trim_end_of("/a/b", Strip::Char('/')), "/a/b");
    assert_eq!(trim_start_of("//v1/items/", Strip::Char('/')), "v1/items/");
    assert_eq!(trim_start_of("..png", Strip::Char('.')), "png");
    assert_eq!(trim_start_of("", Strip::Char('.')), "");
    assert_eq!(trim_start_of("  x ", Strip::Whitespace), "x ");
    assert_eq!(trim_end_of("  x ", Strip::Whitespace), "  x");
}

#[test]
fn ascii_lower_case_only_touches_ascii_letters() {
    assert_eq!(to_lower_ascii("Keep-Alive"), "keep-alive");
    assert_eq!(to_lower_ascii("ÄBC-xyz_09"), "Äbc-xyz_09");
    assert_eq!(to_lower_ascii(""), "");
    assert_eq!(lower_char('A'), 'a');
    assert_eq!(lower_char('Z'), 'z');
    assert_eq!(lower_char('@'), '@');
    assert_eq!(lower_char('['), '[');
    assert_eq!(lower_char('é'), 'é');
    for b in 0u8..128 {
        assert_eq!(lower_char(b as char), (b as char).to_ascii_lowercase());
    }
}

#[test]
fn comparison_of_texts() {
    assert!(text_eq("abc", "abc"));
    assert!(!text_eq("abc", "abd"));
    assert!(!text_eq("abc", "ab"));
    assert!(text_eq("", ""));
    assert!(eq_ignore_case("Set-Cookie", "set-cookie"));
    assert!(eq_ignore_case("HOST", "host"));
    assert!(!eq_ignore_case("hostname", "host"));
    assert!(starts_with("https://x", "https://"));
    assert!(starts_with("abc", ""));
    assert!(!starts_with("http:/", "http://"));
    assert!(!starts_with("xhttp://", "http://"));
}

#[test]
fn decimal_notation() {
    assert_eq!(decimal_text(0), "0");
    assert_eq!(decimal_text(7), "7");
    assert_eq!(decimal_text(10), "10");
    assert_eq!(decimal_text(404), "404");
    assert_eq!(decimal_text(1_048_576), "1048576");
    assert_eq!(decimal_text(u64::MAX as u128), "18446744073709551615");
    assert_eq!(decimal_text(u128::MAX), u128::MAX.to_string());
}

#[test]
fn joining_and_slicing() {
    assert_eq!(concat2("ab", "cd"), "abcd");
    assert_eq!(concat2("", ""), "");
    assert_eq!(concat3("a", "-", "b"), "a-b");
    let v = chars_of("héllo");
    assert_eq!(v, vec!['h', 'é', 'l', 'l', 'o']);
    assert_eq!(string_of(&v, 1, 4), "éll");
    assert_eq!(string_of(&v, 2, 2), "");
}
