use rs_plugin_mal::text::{
    is_blank, is_whitespace_char, parse_u16_chars, push_decimal, same_text, to_ascii_lower, trim,
};

#[test]
fn whitespace_agrees_with_std() {
    for code in 0u32..0x11000 {
        if let Some(c) = char::from_u32(code) {
            assert_eq!(is_whitespace_char(c), c.is_whitespace(), "{code:#x}");
        }
    }
}

#[test]
fn ascii_lower_agrees_with_std() {
    for code in 0u32..0x300 {
        if let Some(c) = char::from_u32(code) {
            assert_eq!(to_ascii_lower(c), c.to_ascii_lowercase());
        }
    }
}

#[test]
fn trim_agrees_with_std() {
    for s in ["", "   ", "  a b  ", "\t\nx\u{3000}", "\u{a0}y", "z", " \u{2028} ok\u{85}"] {
        assert_eq!(trim(s), s.trim());
        assert_eq!(is_blank(s), s.trim().is_empty());
    }
}

#[test]
fn decimal_rendering() {
    for n in [0u64, 7, 10, 21, 1999, 65535, u64::MAX] {
        let mut out = String::from("x");
        push_decimal(&mut out, n);
        assert_eq!(out, format!("x{n}"));
    }
}

#[test]
fn u16_parsing_agrees_with_std() {
    for s in ["", "+", "-", "0", "1999", "+12", "-1", "65535", "65536", "070000", "12a", "00042", "++1"] {
        let cs: Vec<char> = s.chars().collect();
        assert_eq!(parse_u16_chars(&cs, 0, cs.len()), s.parse::<u16>().ok(), "{s:?}");
    }
}

#[test]
fn same_text_compares_characters() {
    assert!(same_text("abc", "abc"));
    assert!(!same_text("abc", "abd"));
    assert!(!same_text("ab", "abc"));
    assert!(same_text("", ""));
}

#[test]
fn trimming_twice_changes_nothing() {
    for s in ["  a b  ", "\u{3000}x\u{2029}", "   ", "plain"] {
        let once = trim(s);
        assert_eq!(trim(&once), once);
        assert!(once.is_empty() || (!once.starts_with(char::is_whitespace) && !once.ends_with(char::is_whitespace)));
    }
}
