use irc_server::text::{chars_of, is_separator, line_body, split_words, string_of, without_breaks};

#[test]
fn chars_of_gives_every_char() {
    assert_eq!(chars_of("aé✓"), vec!['a', 'é', '✓']);
    assert_eq!(chars_of(""), Vec::<char>::new());
}

#[test]
fn string_of_takes_a_range() {
    let chars = chars_of("hello world");
    assert_eq!(string_of(&chars, 6, 11), "world");
    assert_eq!(string_of(&chars, 3, 3), "");
    assert_eq!(string_of(&chars, 0, 11), "hello world");
}

#[test]
fn is_separator_agrees_with_std_on_every_char() {
    for n in 0..=0x10FFFFu32 {
        if let Some(c) = char::from_u32(n) {
            assert_eq!(is_separator(c), c.is_whitespace(), "U+{:04X}", n);
        }
    }
}

#[test]
fn split_words_like_split_whitespace() {
    let lines = [
        "",
        " ",
        "NICK alice",
        "  NICK   alice  \r\n",
        "PRIVMSG #rust :hello big world\r\n",
        "\tJOIN\u{a0}#rust\u{3000}x",
        "one",
        "a b c d e f",
        "QUIT\n",
    ];
    for line in lines {
        let expected: Vec<String> = line.split_whitespace().map(|w| w.to_string()).collect();
        assert_eq!(split_words(line), expected, "{:?}", line);
    }
}

#[test]
fn split_words_exact() {
    assert_eq!(split_words("  PART  #rust :so long \r\n"), vec!["PART", "#rust", ":so", "long"]);
    assert_eq!(split_words(" \t\r\n"), Vec::<String>::new());
}

#[test]
fn line_body_is_text_after_first_colon() {
    assert_eq!(line_body("PRIVMSG #rust :hello\r\n"), Some("hello".to_string()));
    assert_eq!(line_body("PRIVMSG #rust :a: b :c\r\n"), Some("a: b :c".to_string()));
    assert_eq!(line_body("PRIVMSG #rust :"), Some(String::new()));
    assert_eq!(line_body(":x"), Some("x".to_string()));
}

#[test]
fn line_body_missing_without_colon() {
    assert_eq!(line_body("PART #rust\r\n"), None);
    assert_eq!(line_body(""), None);
}

#[test]
fn line_body_drops_every_line_break() {
    assert_eq!(line_body("X :a\rb\nc\r\n\r\n"), Some("abc".to_string()));
}

#[test]
fn without_breaks_from_offset() {
    let chars = chars_of("ab\rcd\nef");
    assert_eq!(without_breaks(&chars, 0), "abcdef");
    assert_eq!(without_breaks(&chars, 3), "cdef");
    assert_eq!(without_breaks(&chars, 8), "");
}
