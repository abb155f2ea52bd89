use astor_scraper::text::{
    blank, byte_len, char_is_space, characters, parse_number, render_number, trim,
};

#[test]
fn trim_removes_surrounding_whitespace() {
    assert_eq!(trim("  \n $12.99\t "), "$12.99");
    assert_eq!(trim("a b"), "a b");
    assert_eq!(trim(" \u{a0}\u{3000} "), "");
    assert_eq!(trim(""), "");
}

#[test]
fn blank_detects_whitespace_only_text() {
    assert!(blank(""));
    assert!(blank(" \r\n\t"));
    assert!(!blank(" x "));
}

#[test]
fn numbers_are_written_and_read_in_decimal() {
    assert_eq!(render_number(0), "0");
    assert_eq!(render_number(10), "10");
    assert_eq!(render_number(4294967295), "4294967295");
    assert_eq!(parse_number("3"), Some(3));
    assert_eq!(parse_number("007"), Some(7));
    assert_eq!(parse_number("4294967295"), Some(4294967295));
    assert_eq!(parse_number("4294967296"), None);
    assert_eq!(parse_number(""), None);
    assert_eq!(parse_number("+3"), None);
    assert_eq!(parse_number("3a"), None);
}

#[test]
fn characters_are_read_in_order() {
    assert_eq!(characters("Rosé 2021"), vec!['R', 'o', 's', 'é', ' ', '2', '0', '2', '1']);
    assert_eq!(characters(""), Vec::<char>::new());
}

#[test]
fn trim_agrees_with_the_standard_library() {
    for text in ["", " ", "a", " a", "a ", "\u{2003}Côte-Rôtie\u{2028}", "\n\t x y \r\n", "\u{200b}x\u{200b}", "\u{feff}x"] {
        assert_eq!(trim(text), text.trim());
    }
}

#[test]
fn whitespace_is_what_the_standard_library_calls_whitespace() {
    for code in 0u32..0x3100 {
        if let Some(c) = char::from_u32(code) {
            assert_eq!(char_is_space(c), c.is_whitespace(), "U+{:04X}", code);
        }
    }
    assert!(!char_is_space('\u{10ffff}'));
}

#[test]
fn numbers_read_back_as_written() {
    for n in [0u32, 1, 9, 10, 99, 100, 12345, 4294967294, 4294967295] {
        assert_eq!(parse_number(&render_number(n)), Some(n));
        assert_eq!(render_number(n), n.to_string());
    }
}

#[test]
fn byte_length_counts_bytes_not_characters() {
    assert_eq!(byte_len(""), 0);
    assert_eq!(byte_len("Page"), 4);
    assert_eq!(byte_len("Rosé"), 5);
    assert_eq!(byte_len("\u{1f377}"), 4);
}
