use photo_cull::text::{chars_of, decimal_text, join_lines, push_decimal, trim_text, Strip};

#[test]
fn whitespace_is_the_unicode_property() {
    for code in 0..=0x10ffffu32 {
        if let Some(c) = char::from_u32(code) {
            assert_eq!(Strip::Whitespace.test(c), c.is_whitespace(), "U+{:04X}", code);
        }
    }
}

#[test]
fn quotes_and_nuls_are_single_characters() {
    for code in 0..=0x10ffffu32 {
        if let Some(c) = char::from_u32(code) {
            assert_eq!(Strip::Quotes.test(c), c == '"');
            assert_eq!(Strip::Nuls.test(c), c == '\0');
        }
    }
}

#[test]
fn chars_of_lists_the_characters() {
    assert_eq!(chars_of(""), Vec::<char>::new());
    assert_eq!(chars_of("abc"), vec!['a', 'b', 'c']);
    assert_eq!(chars_of("é\u{3000}𝄞"), vec!['é', '\u{3000}', '𝄞']);
}

#[test]
fn trim_takes_quotes_off_both_ends() {
    assert_eq!(trim_text("\"Canon EOS R5\"", Strip::Quotes), "Canon EOS R5");
    assert_eq!(trim_text("\"\"\"a\"b\"\"", Strip::Quotes), "a\"b");
    assert_eq!(trim_text("plain", Strip::Quotes), "plain");
    assert_eq!(trim_text("\"\"\"\"", Strip::Quotes), "");
    assert_eq!(trim_text("", Strip::Quotes), "");
    assert_eq!(trim_text(" \"a\" ", Strip::Quotes), " \"a\" ");
}

#[test]
fn trim_agrees_with_the_standard_library() {
    let samples = [
        "",
        " ",
        "  a b  ",
        "\t\r\n x \u{85}\u{a0}",
        "\u{2003}wide\u{3000}",
        "\u{200b}zero width stays\u{200b}",
        "\0\0nul\0",
        "\"q\"",
        "\" \0mixed\0 \"",
        "é",
        " é𝄞 ",
        "\u{1680}\u{2028}\u{2029}\u{202f}\u{205f}x\u{2000}\u{200a}",
    ];
    for s in samples {
        assert_eq!(trim_text(s, Strip::Whitespace), s.trim(), "{:?}", s);
        assert_eq!(trim_text(s, Strip::Quotes), s.trim_matches('"'), "{:?}", s);
        assert_eq!(trim_text(s, Strip::Nuls), s.trim_matches('\0'), "{:?}", s);
    }
}

#[test]
fn decimal_of_numbers() {
    assert_eq!(decimal_text(0), "0");
    assert_eq!(decimal_text(7), "7");
    assert_eq!(decimal_text(10), "10");
    assert_eq!(decimal_text(250), "250");
    assert_eq!(decimal_text(4294967295), "4294967295");
    assert_eq!(decimal_text(u64::MAX), "18446744073709551615");
}

#[test]
fn decimal_agrees_with_the_standard_library() {
    let mut n: u64 = 1;
    for _ in 0..64 {
        for delta in [0u64, 1, 9, 10, 11, 99, 100, 101] {
            let m = n.wrapping_add(delta);
            assert_eq!(decimal_text(m), m.to_string());
            let k = n.wrapping_sub(delta);
            assert_eq!(decimal_text(k), k.to_string());
        }
        n = n.wrapping_mul(3).wrapping_add(1);
    }
}

#[test]
fn push_decimal_appends() {
    let mut text = String::from("n=");
    push_decimal(&mut text, 42);
    push_decimal(&mut text, 0);
    assert_eq!(text, "n=420");
}

#[test]
fn join_lines_puts_line_feeds_between() {
    assert_eq!(join_lines(&vec![]), "");
    assert_eq!(join_lines(&vec!["one".to_string()]), "one");
    assert_eq!(join_lines(&vec!["one".to_string(), "two".to_string()]), "one\ntwo");
    assert_eq!(
        join_lines(&vec!["a".to_string(), "".to_string(), "c".to_string()]),
        "a\n\nc"
    );
    let lines = vec!["x".to_string(), "y".to_string(), "z".to_string()];
    assert_eq!(join_lines(&lines), lines.join("\n"));
}
