use lapsphere::text::{
    contains, decimal_of, find_with, join3, not_behind, numeral_of, parse_number, position,
    quote_list, same, sort_texts, split_words, starts_with, trim, trim_leading, white, ParseFault,
};

fn list(items: &[&str]) -> Vec<String> {
    items.iter().map(|s| s.to_string()).collect()
}

#[test]
fn white_space_is_that_of_the_standard_library() {
    for code in 0..=0x10ffffu32 {
        if let Some(c) = char::from_u32(code) {
            assert_eq!(white(c), c.is_whitespace(), "{:?}", c);
        }
    }
}

#[test]
fn trimming_and_splitting_agree_with_the_standard_library() {
    for s in ["", " ", " a b ", "\u{2003}x\u{3000}\n", "no", "a\tb\nc  d ", "é \u{85} ü"] {
        assert_eq!(trim(s), s.trim());
        let words: Vec<String> = s.split_whitespace().map(|w| w.to_string()).collect();
        assert_eq!(split_words(s), words);
        assert_eq!(trim_leading(s, 'a'), s.trim_start_matches('a'));
    }
    assert_eq!(trim_leading("vv1.2v", 'v'), "1.2v");
}

#[test]
fn numbers_are_read_like_the_standard_library_reads_them() {
    for s in ["", "+", "-", "0", "+7", "007", "255", "256", "300x", "12a", "-1", "99999999999999999999"] {
        match (parse_number(s, 255), s.parse::<u8>()) {
            (Ok(n), Ok(m)) => assert_eq!(n, m as u64),
            (Err(fault), Err(e)) => assert_eq!(fault.message(), e.to_string(), "{}", s),
            other => panic!("{:?} on {}", other, s),
        }
        match (parse_number(s, u64::MAX), s.parse::<u64>()) {
            (Ok(n), Ok(m)) => assert_eq!(n, m),
            (Err(fault), Err(e)) => assert_eq!(fault.message(), e.to_string(), "{}", s),
            other => panic!("{:?} on {}", other, s),
        }
    }
    assert_eq!(parse_number("", 9), Err(ParseFault::Empty));
    assert_eq!(parse_number("x", 9), Err(ParseFault::InvalidDigit));
    assert_eq!(parse_number("10", 9), Err(ParseFault::TooLarge));
}

#[test]
fn written_numbers_are_read_back() {
    for n in [0u64, 9, 10, 42, 100, 65535, u64::MAX] {
        let text = decimal_of(n);
        assert_eq!(text, n.to_string());
        assert_eq!(parse_number(&text, u64::MAX), Ok(n));
        assert_eq!(parse_number(&trim(&format!("{}\n", text)), u64::MAX), Ok(n));
        assert_eq!(numeral_of(n, 16), format!("{:x}", n));
    }
}

#[test]
fn search_agrees_with_the_standard_library() {
    for s in ["", "a", "tpacpi::kbd_backlight", "kbd_backligh", "äkbd_backlight"] {
        for needle in ["", "a", "kbd_backlight", "::"] {
            assert_eq!(contains(s, needle), s.contains(needle));
            assert_eq!(starts_with(s, needle), s.starts_with(needle));
        }
    }
    assert!(same("ü", "ü"));
    assert!(!same("ü", "u"));
}

#[test]
fn texts_are_sorted_like_the_standard_library_sorts_them() {
    let mut names = list(&["b", "a", "ab", "", "Z", "a", "é", "\u{10000}", "\u{ffff}"]);
    let sorted = sort_texts(names.iter().map(|s| s.to_string()).collect());
    names.sort();
    assert_eq!(sorted, names);
    assert!(not_behind("a", "ab"));
    assert!(!not_behind("b", "ab"));
}

#[test]
fn places_in_lists() {
    let names = list(&["quiet", "performance", "quiet"]);
    assert_eq!(position(&names, "quiet"), Some(0));
    assert_eq!(position(&names, "performance"), Some(1));
    assert_eq!(position(&names, "loud"), None);
    assert_eq!(find_with(&names, "form"), Some(1));
    assert_eq!(find_with(&names, "x"), None);
    assert_eq!(quote_list(&names), format!("{:?}", names));
    assert_eq!(quote_list(&list(&[])), "[]");
    assert_eq!(join3("a", "b", "c"), "abc");
}
