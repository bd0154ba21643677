use mail_engine::text::{
    char_is_space, chars_eq, contains, eq_ignore_ascii_case, from_chars, has_prefix_at,
    has_prefix_ignoring_case_at, join, lower, prefix_chars, push_all, str_eq, subvec, to_chars,
    to_decimal, trim, trim_chars, trim_matches_chars,
};

fn chars(s: &str) -> Vec<char> {
    s.chars().collect()
}

#[test]
fn the_white_space_characters_are_those_of_unicode() {
    let spaces = [
        '\u{9}', '\u{a}', '\u{b}', '\u{c}', '\u{d}', ' ', '\u{85}', '\u{a0}', '\u{1680}',
        '\u{2000}', '\u{2005}', '\u{200a}', '\u{2028}', '\u{2029}', '\u{202f}', '\u{205f}',
        '\u{3000}',
    ];
    for c in spaces {
        assert!(char_is_space(c), "{:?}", c);
    }
    for c in ['a', '0', '\u{0}', '\u{8}', '\u{e}', '\u{1f}', '\u{200b}', '\u{feff}', '_'] {
        assert!(!char_is_space(c), "{:?}", c);
    }
    // The same characters as the standard library knows.
    for code in 0u32..0x3100 {
        if let Some(c) = char::from_u32(code) {
            assert_eq!(char_is_space(c), c.is_whitespace(), "{:x}", code);
        }
    }
}

#[test]
fn strings_and_characters_convert_both_ways() {
    for s in ["", "a", "héllo wörld", "日本語", "a\u{0}b"] {
        assert_eq!(to_chars(s), chars(s));
        assert_eq!(from_chars(&chars(s)), s);
    }
    assert!(str_eq("abc", "abc"));
    assert!(!str_eq("abc", "abd"));
    assert!(!str_eq("abc", "ab"));
    assert!(str_eq("", ""));
    assert!(chars_eq(&chars("x"), &chars("x")));
    assert!(!chars_eq(&chars("x"), &chars("y")));
    assert_eq!(join("ab", "cd"), "abcd");
    assert_eq!(join("", ""), "");
    let mut v = chars("ab");
    push_all(&mut v, &chars("cd"));
    assert_eq!(v, chars("abcd"));
    assert_eq!(subvec(&chars("hello"), 1, 3), chars("el"));
    assert_eq!(subvec(&chars("hello"), 2, 2), chars(""));
    assert_eq!(prefix_chars(&chars("hello"), 2), chars("he"));
    assert_eq!(prefix_chars(&chars("hello"), 5), chars("hello"));
    assert_eq!(prefix_chars(&chars("hello"), 9), chars("hello"));
    assert_eq!(prefix_chars(&chars("hello"), 0), chars(""));
}

#[test]
fn trimming_takes_white_space_off_both_ends_only() {
    assert_eq!(trim("  a b  "), "a b");
    assert_eq!(trim("\t\n x \r\n"), "x");
    assert_eq!(trim(""), "");
    assert_eq!(trim("   "), "");
    assert_eq!(trim("x"), "x");
    assert_eq!(trim_chars(&chars(" \u{3000}x y\u{a0}")), chars("x y"));
    assert_eq!(trim_matches_chars(&chars("<<a<b>>"), '<'), chars("a<b>>"));
    assert_eq!(trim_matches_chars(&chars("xxx"), 'x'), chars(""));
    assert_eq!(trim_matches_chars(&chars(""), 'x'), chars(""));
    for s in ["  a b  ", "\u{2003}x", "x\u{2003}", " \n\t ", "plain"] {
        assert_eq!(trim(s), s.trim());
    }
}

#[test]
fn a_prefix_is_found_where_it_stands() {
    assert!(has_prefix_at(&chars("hello"), 1, &chars("ell")));
    assert!(!has_prefix_at(&chars("hello"), 1, &chars("elx")));
    assert!(!has_prefix_at(&chars("hello"), 3, &chars("lol")));
    assert!(has_prefix_at(&chars("hello"), 5, &chars("")));
}

#[test]
fn a_prefix_is_found_whatever_the_case_of_its_ascii_letters() {
    assert!(has_prefix_ignoring_case_at(&chars("xRE: a"), 1, &chars("re:")));
    assert!(has_prefix_ignoring_case_at(&chars("re: a"), 0, &chars("RE:")));
    assert!(has_prefix_ignoring_case_at(&chars("abc"), 3, &chars("")));
    assert!(!has_prefix_ignoring_case_at(&chars("re a"), 0, &chars("re:")));
    assert!(!has_prefix_ignoring_case_at(&chars("re"), 0, &chars("re:")));
    assert!(!has_prefix_ignoring_case_at(&chars("r\u{c9}:"), 0, &chars("r\u{e9}:")));
    assert!(!has_prefix_ignoring_case_at(&chars("@e:"), 0, &chars("`e:")));
}

#[test]
fn lower_casing_follows_unicode() {
    assert_eq!(lower("Hello, World! 123"), "hello, world! 123");
    assert_eq!(lower("AZ@[`{az"), "az@[`{az");
    assert_eq!(lower(""), "");
    for s in ["ÄÖÜ", "Straße", "ΑΒΓ", "İstanbul", "ΌΣΟΣ", "mixed ASCII and Ünicode"] {
        assert_eq!(lower(s), s.to_lowercase());
    }
    let every_ascii: String = (0u8..128).map(|b| b as char).collect();
    assert_eq!(lower(&every_ascii), every_ascii.to_lowercase());
}

#[test]
fn comparing_without_case_folds_ascii_letters_only() {
    assert!(eq_ignore_ascii_case("Hello", "hELLO"));
    assert!(eq_ignore_ascii_case("", ""));
    assert!(eq_ignore_ascii_case("a@b.C", "A@B.c"));
    assert!(!eq_ignore_ascii_case("abc", "abd"));
    assert!(!eq_ignore_ascii_case("abc", "abcd"));
    assert!(!eq_ignore_ascii_case("é", "É"));
    assert!(!eq_ignore_ascii_case("[", "{"));
    assert!(!eq_ignore_ascii_case("@", "`"));
    for (a, b) in [("Az", "aZ"), ("k", "K"), ("ß", "SS"), ("1", "1")] {
        assert_eq!(eq_ignore_ascii_case(a, b), a.eq_ignore_ascii_case(b));
    }
}

#[test]
fn a_text_holds_its_runs() {
    assert!(contains("hello world", "o w"));
    assert!(contains("hello", ""));
    assert!(contains("", ""));
    assert!(contains("hello", "hello"));
    assert!(contains("hello", "lo"));
    assert!(!contains("hello", "hellos"));
    assert!(!contains("", "a"));
    assert!(!contains("abcabd", "abx"));
    assert!(contains("aab", "ab"));
}

#[test]
fn numbers_are_written_in_decimal() {
    assert_eq!(to_decimal(0), "0");
    assert_eq!(to_decimal(7), "7");
    assert_eq!(to_decimal(10), "10");
    assert_eq!(to_decimal(1234567890), "1234567890");
    assert_eq!(to_decimal(u32::MAX), "4294967295");
}
