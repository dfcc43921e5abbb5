use tts_relay::text::{
    char_is_white_space, chars_of, decimal_string, same_text, text_contains, text_is_blank,
    trimmed_equals,
};

#[test]
fn white_space_follows_unicode() {
    for c in [' ', '\t', '\n', '\u{b}', '\u{c}', '\r', '\u{85}', '\u{a0}', '\u{1680}', '\u{2000}',
        '\u{200a}', '\u{2028}', '\u{2029}', '\u{202f}', '\u{205f}', '\u{3000}']
    {
        assert!(char_is_white_space(c), "{:?}", c);
    }
    for c in ['a', '0', '\u{0}', '\u{8}', '\u{e}', '\u{1f}', '\u{200b}', '\u{180e}', '\u{feff}',
        '\u{2060}', '\u{84}', '\u{86}']
    {
        assert!(!char_is_white_space(c), "{:?}", c);
    }
}

#[test]
fn white_space_agrees_with_std_everywhere() {
    let mut c = 0u32;
    while c <= 0x10ffff {
        if let Some(ch) = char::from_u32(c) {
            assert_eq!(char_is_white_space(ch), ch.is_whitespace(), "U+{:04X}", c);
        }
        c += 1;
    }
}

#[test]
fn characters_are_listed_in_order() {
    assert_eq!(chars_of(""), Vec::<char>::new());
    assert_eq!(chars_of("h\u{e9}\u{1f600}!"), vec!['h', '\u{e9}', '\u{1f600}', '!']);
}

#[test]
fn texts_compare_by_their_characters() {
    assert!(same_text("", ""));
    assert!(same_text("mp3", "mp3"));
    assert!(!same_text("mp3", "mp4"));
    assert!(!same_text("mp3", "mp"));
    assert!(!same_text("mp", "mp3"));
    assert!(same_text("\u{e9}", "\u{e9}"));
    assert!(!same_text("\u{e9}", "e\u{301}"));
}

#[test]
fn trimmed_comparison() {
    assert!(trimmed_equals("[DONE]", "[DONE]"));
    assert!(trimmed_equals(" \t[DONE]\r\n", "[DONE]"));
    assert!(trimmed_equals("   ", ""));
    assert!(trimmed_equals("", ""));
    assert!(!trimmed_equals("[DONE] x", "[DONE]"));
    assert!(!trimmed_equals("[ DONE]", "[DONE]"));
    assert!(!trimmed_equals("", "[DONE]"));
    assert!(trimmed_equals("\u{3000}a b\u{a0}", "a b"));
}

#[test]
fn substring_search() {
    assert!(text_contains("gpt-4o-mini-tts", "tts"));
    assert!(text_contains("tts-1", "tts"));
    assert!(text_contains("x", ""));
    assert!(text_contains("", ""));
    assert!(!text_contains("", "t"));
    assert!(!text_contains("gpt-4o", "tts"));
    assert!(!text_contains("ts", "tts"));
    assert!(!text_contains("tt-s", "tts"));
    assert!(text_contains("ttts", "tts"));
}

#[test]
fn blank_texts() {
    assert!(text_is_blank(""));
    assert!(text_is_blank(" \n\t"));
    assert!(!text_is_blank(" x "));
    assert!(!text_is_blank("x"));
}

#[test]
fn decimal_numerals() {
    assert_eq!(decimal_string(0), "0");
    assert_eq!(decimal_string(7), "7");
    assert_eq!(decimal_string(10), "10");
    assert_eq!(decimal_string(403), "403");
    assert_eq!(decimal_string(65535), "65535");
    assert_eq!(decimal_string(1000000), "1000000");
    assert_eq!(decimal_string(u64::MAX), "18446744073709551615");
    for d in 0u64..10 {
        assert_eq!(decimal_string(d), d.to_string());
    }
    assert_eq!(decimal_string(9876543210), "9876543210");
}
