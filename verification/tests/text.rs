use ws_net::text::{
    begins_with_ignoring_case, blank, equal_ignoring_case, join, number, same, set_value, split,
    strip_prefix, trim, white_space,
};

#[test]
fn white_space_is_that_of_unicode() {
    for code in 0..=0x10ffff_u32 {
        if let Some(c) = char::from_u32(code) {
            assert_eq!(white_space(c), c.is_whitespace(), "{code:x}");
        }
    }
}

#[test]
fn trimming_takes_white_space_off_both_ends() {
    for s in ["", " ", "a", " a", "a ", "\t a b \n", "\u{3000}ü\u{85}", "\u{200b}x"] {
        assert_eq!(trim(s), s.trim());
        assert_eq!(blank(s), s.trim().is_empty());
        assert_eq!(trim(&trim(s)), trim(s));
    }
}

#[test]
fn optional_fields_count_where_they_are_not_blank() {
    assert_eq!(set_value(&None), None);
    assert_eq!(set_value(&Some("  ".to_string())), None);
    assert_eq!(set_value(&Some(" x ".to_string())), Some("x".to_string()));
}

#[test]
fn comparisons_ignore_the_case_of_ascii_letters_only() {
    for (a, b) in [
        ("Location", "location"),
        ("SET-COOKIE", "set-cookie"),
        ("Ü", "ü"),
        ("a", "ab"),
        ("[", "{"),
        ("@", "`"),
        ("", ""),
    ] {
        assert_eq!(equal_ignoring_case(a, b), a.eq_ignore_ascii_case(b));
    }
    assert!(begins_with_ignoring_case("Domain=x", "domain="));
    assert!(!begins_with_ignoring_case("Domai", "domain="));
    assert!(same("a", "a"));
    assert!(!same("a", "A"));
}

#[test]
fn prefixes_are_stripped() {
    assert_eq!(strip_prefix("http://a/b", "http://a"), Some("/b".to_string()));
    assert_eq!(strip_prefix("http://a", "http://a"), Some(String::new()));
    assert_eq!(strip_prefix("http://b", "http://a"), None);
    assert_eq!(strip_prefix("h", "http"), None);
    assert_eq!(strip_prefix("üx", "ü"), Some("x".to_string()));
}

#[test]
fn joining_the_parts_gives_the_text_back() {
    for s in ["", ";", "a", "a;b", ";a;;b;", "ü;é"] {
        let parts = split(s, ';');
        assert_eq!(parts, s.split(';').collect::<Vec<_>>());
        assert_eq!(join(&parts, ";"), s);
    }
    assert_eq!(join(&Vec::new(), ": "), "");
    assert_eq!(join(&vec!["a".to_string(), "b".to_string()], ": "), "a: b");
}

#[test]
fn numbers_are_written_in_decimal() {
    for n in [0, 7, 9, 10, 99, 100, 65535, u64::MAX] {
        assert_eq!(number(n), n.to_string());
    }
}
