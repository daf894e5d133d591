use taskmeister::text::{
    char_is_blank, chars_of, push_decimal, push_signed, same_text, split_whitespace,
};

#[test]
fn blank_agrees_with_unicode_white_space_on_every_character() {
    for code in 0..=0x10FFFFu32 {
        if let Some(c) = char::from_u32(code) {
            assert_eq!(char_is_blank(c, false), c.is_whitespace(), "U+{code:04X}");
            assert_eq!(char_is_blank(c, true), c.is_ascii_whitespace(), "U+{code:04X}");
        }
    }
}

#[test]
fn same_text_compares_characters() {
    assert!(same_text("", ""));
    assert!(same_text("null", "null"));
    assert!(!same_text("null", "nul"));
    assert!(!same_text("a", "A"));
}

#[test]
fn chars_are_collected_in_order() {
    assert_eq!(chars_of("h\u{e9}!"), vec!['h', '\u{e9}', '!']);
    assert!(chars_of("").is_empty());
}

#[test]
fn split_agrees_with_the_standard_library() {
    let samples = [
        "",
        " ",
        "one",
        " one",
        "one ",
        "one two",
        "  one \t two\n\nthree  ",
        "a\u{a0}b\u{2003}c",
        "\u{3000}x\u{85}",
        "tab\tsep\x0cform\rret",
        "\u{200b}zero width",
        "é è",
    ];
    for sample in samples {
        let unicode: Vec<String> = sample.split_whitespace().map(str::to_string).collect();
        assert_eq!(split_whitespace(sample, false), unicode, "{sample:?}");
        let ascii: Vec<String> = sample.split_ascii_whitespace().map(str::to_string).collect();
        assert_eq!(split_whitespace(sample, true), ascii, "{sample:?}");
    }
}

#[test]
fn decimal_notation() {
    for n in [0u64, 1, 9, 10, 11, 99, 100, 101, 12345, 1_000_000, u64::MAX] {
        let mut text = String::from("n=");
        push_decimal(&mut text, n);
        assert_eq!(text, format!("n={n}"));
    }
}

#[test]
fn signed_decimal_notation() {
    for n in [0i32, 1, -1, 9, -9, 10, -10, 143, -143, i32::MAX, i32::MIN] {
        let mut text = String::new();
        push_signed(&mut text, n);
        assert_eq!(text, format!("{n}"));
    }
}
