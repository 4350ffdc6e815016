use conversions::text::{char_is_whitespace, chars_of, ends_with, string_of, strip_each, trim_bounds};

#[test]
fn characters_of_a_text() {
    assert_eq!(chars_of(""), Vec::<char>::new());
    assert_eq!(chars_of("a€𝄞"), vec!['a', '€', '𝄞']);
    let chars = chars_of("£5 quid");
    assert_eq!(chars.len(), 7);
    assert_eq!(string_of(&chars, 0, 7), "£5 quid");
    assert_eq!(string_of(&chars, 1, 2), "5");
    assert_eq!(string_of(&chars, 0, 1), "£");
    assert_eq!(string_of(&chars, 3, 3), "");
    assert_eq!(string_of(&chars, 7, 7), "");
}

#[test]
fn whitespace_is_what_the_standard_library_calls_whitespace() {
    let mut count = 0;
    for n in 0..=0x10FFFFu32 {
        if let Some(c) = char::from_u32(n) {
            assert_eq!(char_is_whitespace(c), c.is_whitespace(), "{n:#x}");
            if char_is_whitespace(c) {
                count += 1;
            }
        }
    }
    assert_eq!(count, 25);
}

#[test]
fn trimming_is_that_of_the_standard_library() {
    for text in [
        "",
        " ",
        "   ",
        "a",
        " a",
        "a ",
        "  a b  ",
        "\t\n 45.9 \r\n",
        "\u{a0}5\u{3000}",
        "\u{2003}usd\u{2028}\u{2029}",
        "\u{200b}x\u{200b}",
        "\u{85}\u{1680}x y\u{202f}\u{205f}",
        " \u{feff}x ",
    ] {
        let chars = chars_of(text);
        let (a, b) = trim_bounds(&chars, 0, chars.len());
        assert_eq!(string_of(&chars, a, b), text.trim(), "{text:?}");
    }
}

#[test]
fn trimming_a_part_of_a_text() {
    let chars = chars_of("ab  cd  ef");
    assert_eq!(trim_bounds(&chars, 2, 8), (4, 6));
    assert_eq!(trim_bounds(&chars, 2, 4), (4, 4));
    assert_eq!(trim_bounds(&chars, 0, 10), (0, 10));
    assert_eq!(trim_bounds(&chars, 1, 5), (1, 5));
    assert_eq!(trim_bounds(&chars, 3, 3), (3, 3));
    assert_eq!(trim_bounds(&chars, 6, 10), (8, 10));
}

#[test]
fn suffixes() {
    let chars = chars_of("40 usd");
    let suffix = |word: &str, len: usize| ends_with(&chars, len, &chars_of(word));
    assert!(suffix("usd", 6));
    assert!(suffix("d", 6));
    assert!(suffix("", 6));
    assert!(suffix("40 usd", 6));
    assert!(!suffix("x40 usd", 6));
    assert!(!suffix("us", 6));
    assert!(!suffix("Usd", 6));
    assert!(suffix("us", 5));
    assert!(suffix("40 ", 3));
    assert!(suffix("", 0));
    assert!(!suffix("4", 0));
    for (text, word) in [("", ""), ("a", "a"), ("ab", "b"), ("ab", "a"), ("5 €", "€"), ("5 €", "\u{20ac}"), ("ab", "abc")] {
        let chars = chars_of(text);
        assert_eq!(
            ends_with(&chars, chars.len(), &chars_of(word)),
            text.ends_with(word),
            "{text:?} {word:?}"
        );
    }
}

#[test]
fn stripping_keeps_the_front() {
    let chars = chars_of("5 poundsterling");
    assert_eq!(strip_each(&chars, chars.len(), &["sterling", "pound"]), 2);
    assert_eq!(strip_each(&chars, chars.len(), &["pound", "sterling"]), 7);
    assert_eq!(strip_each(&chars, chars.len(), &["sterling"]), 7);
    assert_eq!(strip_each(&chars, chars.len(), &["x"]), 15);
    assert_eq!(strip_each(&chars, chars.len(), &[]), 15);
    assert_eq!(strip_each(&chars, 7, &["pound"]), 2);
    assert_eq!(strip_each(&chars, 0, &["pound"]), 0);
    assert_eq!(strip_each(&chars, 15, &["", "g", "n", "i"]), 12);
}
