use epd_photoframe_server::text::{
    decimal_string, is_white_space, quoting, split_on, split_words, trim,
};

fn chars(s: &str) -> Vec<char> {
    s.chars().collect()
}

fn joined(parts: Vec<Vec<char>>) -> Vec<String> {
    parts.iter().map(|p| p.iter().collect()).collect()
}

#[test]
fn white_space_is_that_of_unicode() {
    for n in 0..=0x10ffffu32 {
        if let Some(c) = char::from_u32(n) {
            assert_eq!(is_white_space(c), c.is_whitespace(), "{n:#x}");
        }
    }
}

#[test]
fn splitting_and_trimming() {
    for s in ["", " ", "a", " a b ", "a,b,,c,", ",", "\u{85}x\u{2003}"] {
        let split: Vec<String> = s.split(',').map(|p| p.to_string()).collect();
        assert_eq!(joined(split_on(&chars(s), ',')), split);
        let words: Vec<String> = s.split_whitespace().map(|p| p.to_string()).collect();
        assert_eq!(joined(split_words(&chars(s))), words);
        assert_eq!(trim(&chars(s)), chars(s.trim()));
    }
}

#[test]
fn numerals() {
    for n in [0u64, 7, 10, 1005, u64::MAX] {
        assert_eq!(decimal_string(n), n.to_string());
    }
}

#[test]
fn quotations() {
    assert_eq!(quoting("a `", "b", "`: ", "c"), "a `b`: c");
}
