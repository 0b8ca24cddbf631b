use polymarket_arbitrage_bot::text::{
    chars_of, contains, is_among, join, leading_text, lines_of, padded_text, same_text, shortened,
    starts_with, trim, u128_text, u64_text, unique_texts,
};

fn owned(list: &[&str]) -> Vec<String> {
    list.iter().map(|s| s.to_string()).collect()
}

#[test]
fn numbers_are_written_in_decimal() {
    assert_eq!(u64_text(0), "0");
    assert_eq!(u64_text(1_763_200_800), "1763200800");
    assert_eq!(u64_text(u64::MAX), u64::MAX.to_string());
    assert_eq!(u128_text(u128::MAX), u128::MAX.to_string());
}

#[test]
fn padding_fills_with_zeros() {
    assert_eq!(padded_text(7, 3), "007");
    assert_eq!(padded_text(1234, 4), "1234");
}

#[test]
fn characters_are_taken_one_by_one() {
    assert_eq!(chars_of("a\u{e9}z"), vec!['a', '\u{e9}', 'z']);
    assert!(chars_of("").is_empty());
}

#[test]
fn texts_are_compared_and_searched() {
    assert!(same_text("abc", "abc"));
    assert!(!same_text("abc", "abd"));
    assert!(contains("1763200800_opposite_limit_7", "_limit"));
    assert!(contains("abc", ""));
    assert!(!contains("ab", "abc"));
    assert!(starts_with("0x12", "0x"));
    assert!(!starts_with("12", "0x"));
}

#[test]
fn beginnings_are_cut_by_characters_or_by_bytes() {
    assert_eq!(shortened("abcdef", 3), "abc");
    assert_eq!(shortened("ab", 3), "ab");
    assert_eq!(leading_text("0123456789abcdefXYZ", 16), "0123456789abcdef");
    assert_eq!(leading_text("short", 16), "short");
    assert_eq!(leading_text("a\u{e9}\u{e9}", 4), "a\u{e9}");
}

#[test]
fn lists_are_joined() {
    assert_eq!(join(&owned(&["ETH", "Solana", "XRP"]), " + "), "ETH + Solana + XRP");
    assert_eq!(join(&owned(&["one"]), ", "), "one");
    assert_eq!(join(&Vec::new(), ", "), "");
}

#[test]
fn lines_end_at_line_feeds() {
    assert_eq!(lines_of("a\r\nb\n\nc"), owned(&["a", "b", "", "c"]));
    assert_eq!(lines_of("a\n"), owned(&["a"]));
    assert_eq!(lines_of("a\r"), owned(&["a\r"]));
    assert!(lines_of("").is_empty());
    for text in ["", "\n", "\r\n", "x\ny", "x\r\n\r\ny\r", "\n\n"] {
        let expected: Vec<String> = text.lines().map(|l| l.to_string()).collect();
        assert_eq!(lines_of(text), expected);
    }
}

#[test]
fn white_space_is_trimmed_from_both_ends() {
    assert_eq!(trim("  a b \n"), "a b");
    assert_eq!(trim(" \t"), "");
    for text in ["\u{a0}x\u{2003}", "\u{85}y", "\u{200b}z", "\u{3000}"] {
        assert_eq!(trim(text), text.trim());
    }
}

#[test]
fn lists_hold_each_text_once() {
    let list = owned(&["a", "b", "a", "c", "b"]);
    assert!(is_among("c", &list));
    assert!(!is_among("d", &list));
    assert_eq!(unique_texts(&list), owned(&["a", "b", "c"]));
}
