use mcp_chat::text::{
    join, lines, same_text, split, split_once, to_decimal, trim, trim_end_matches, white_space,
};

#[test]
fn white_space_is_that_of_unicode() {
    for code in 0..=0x10ffffu32 {
        if let Some(c) = char::from_u32(code) {
            assert_eq!(white_space(c), c.is_whitespace(), "U+{:04X}", code);
        }
    }
}

#[test]
fn trim_takes_white_space_off_both_ends() {
    for s in ["", " ", "a", "  a b \t\n", "\u{3000}x\u{a0}", "\u{200b}x", " — "] {
        assert_eq!(trim(s), s.trim());
    }
}

#[test]
fn trim_end_matches_takes_all_off() {
    for s in ["", "/", "///", "a", "a/", "a//b///", "/a"] {
        assert_eq!(trim_end_matches(s, '/'), s.trim_end_matches('/'));
    }
}

#[test]
fn split_cuts_at_every_separator() {
    for s in ["", ",", "a", "a,b", ",a,,b,", "ä,→"] {
        let expected: Vec<String> = s.split(',').map(str::to_string).collect();
        assert_eq!(split(s, ','), expected);
    }
}

#[test]
fn split_once_cuts_at_the_first_separator() {
    for s in ["", ":", "a", "a:b", ":a:b:", "name: value: more"] {
        let expected = s.split_once(':').map(|(a, b)| (a.to_string(), b.to_string()));
        assert_eq!(split_once(s, ':'), expected);
    }
}

#[test]
fn lines_are_those_of_std() {
    for s in ["", "\n", "a", "a\n", "a\r\nb\n\nc", "\r\n", "a\rb\n", "a\r", "x\n\n"] {
        let expected: Vec<String> = s.lines().map(str::to_string).collect();
        assert_eq!(lines(s), expected);
    }
}

#[test]
fn lines_read_back_what_was_written() {
    let written = ["{\"a\":1}", "", "two words", "\u{2028}"];
    let mut all = String::new();
    for line in written {
        all.push_str(line);
        all.push('\n');
    }
    assert_eq!(lines(&all), written);
}

#[test]
fn join_puts_a_separator_between() {
    let none: Vec<String> = vec![];
    assert_eq!(join(&none, ", "), "");
    assert_eq!(join(&vec!["a".to_string()], ", "), "a");
    assert_eq!(join(&vec!["a".to_string(), "".to_string(), "b".to_string()], ", "), "a, , b");
}

#[test]
fn same_text_compares_characters() {
    assert!(same_text("", ""));
    assert!(same_text("→x", "→x"));
    assert!(!same_text("a", "b"));
    assert!(!same_text("a", "ab"));
}

#[test]
fn decimals_are_those_of_std() {
    for n in [0, 1, 9, 10, 11, 99, 100, 1234567890, u64::MAX] {
        assert_eq!(to_decimal(n), n.to_string());
    }
}
