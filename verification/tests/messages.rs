use chrono::Datelike;
use irc_server::messages::{
    system_line, user_line, Message, SystemMessage, Timestamp, UserMessage,
};

fn at(seconds: i64) -> Timestamp {
    Timestamp { seconds, nanos: 0 }
}

#[test]
fn user_line_puts_name_in_italics() {
    assert_eq!(
        user_line("Tue, 1 Jul 2003 10:52:37 +0000", "alice", "hello"),
        "[Tue, 1 Jul 2003 10:52:37 +0000] \u{1b}[3malice\u{1b}[0m hello\r\n"
    );
}

#[test]
fn system_line_is_bold_red() {
    assert_eq!(
        system_line("Tue, 1 Jul 2003 10:52:37 +0000", "going down"),
        "\u{1b}[1;31m[Tue, 1 Jul 2003 10:52:37 +0000] SYSTEM going down\r\n\u{1b}[0m"
    );
}

#[test]
fn user_message_beautify_at_epoch() {
    let message = UserMessage { username: "bob".to_string(), content: "hi".to_string(), date: at(0) };
    assert_eq!(message.beautify(), "[Thu, 1 Jan 1970 00:00:00 +0000] \u{1b}[3mbob\u{1b}[0m hi\r\n");
}

#[test]
fn user_message_beautify_known_date() {
    let message = UserMessage {
        username: "alice".to_string(),
        content: "hello all".to_string(),
        date: at(1_057_056_757),
    };
    assert_eq!(
        message.beautify(),
        "[Tue, 1 Jul 2003 10:52:37 +0000] \u{1b}[3malice\u{1b}[0m hello all\r\n"
    );
}

#[test]
fn system_message_beautify_known_date() {
    let message = SystemMessage { content: "restart".to_string(), date: at(1_431_648_000) };
    assert_eq!(
        message.beautify(),
        "\u{1b}[1;31m[Fri, 15 May 2015 00:00:00 +0000] SYSTEM restart\r\n\u{1b}[0m"
    );
}

#[test]
fn beautify_at_the_ends_of_the_range() {
    let first = SystemMessage { content: String::new(), date: at(-62_167_219_200) };
    assert_eq!(first.beautify(), "\u{1b}[1;31m[Sat, 1 Jan 0000 00:00:00 +0000] SYSTEM \r\n\u{1b}[0m");
    let last = SystemMessage { content: String::new(), date: at(253_402_300_799) };
    assert_eq!(last.beautify(), "\u{1b}[1;31m[Fri, 31 Dec 9999 23:59:59 +0000] SYSTEM \r\n\u{1b}[0m");
}

#[test]
fn beautify_agrees_with_chrono() {
    for date in [0i64, 1, 86_399, 86_400, 951_782_400, 1_700_000_000, -1, -86_401] {
        let expected = chrono::DateTime::from_timestamp(date, 0).unwrap().to_rfc2822();
        let message =
            UserMessage { username: "u".to_string(), content: "c".to_string(), date: at(date) };
        assert_eq!(message.beautify(), format!("[{}] \u{1b}[3mu\u{1b}[0m c\r\n", expected));
    }
}

#[test]
fn beautify_writes_a_leap_second_as_sixty() {
    let date = Timestamp { seconds: 1_483_228_799, nanos: 1_000_000_000 };
    assert!(date.datable());
    let message = SystemMessage { content: "tick".to_string(), date };
    assert_eq!(
        message.beautify(),
        "\u{1b}[1;31m[Sat, 31 Dec 2016 23:59:60 +0000] SYSTEM tick\r\n\u{1b}[0m"
    );
    let before = SystemMessage {
        content: "tick".to_string(),
        date: Timestamp { seconds: 1_483_228_799, nanos: 999_999_999 },
    };
    assert_eq!(
        before.beautify(),
        "\u{1b}[1;31m[Sat, 31 Dec 2016 23:59:59 +0000] SYSTEM tick\r\n\u{1b}[0m"
    );
}

#[test]
fn datable_is_what_chrono_can_write() {
    let cases = [
        (0i64, 0u32),
        (0, 999_999_999),
        (0, 1_000_000_000),
        (59, 1_000_000_000),
        (59, 1_999_999_999),
        (59, 2_000_000_000),
        (-1, 1_500_000_000),
        (-2, 1_500_000_000),
        (-61, 1_000_000_000),
        (-62_167_219_200, 0),
        (-62_167_219_201, 0),
        (-62_167_219_141, 1_000_000_000),
        (253_402_300_799, 0),
        (253_402_300_799, 1_999_999_999),
        (253_402_300_800, 0),
        (i64::MIN, 0),
        (i64::MAX, 0),
    ];
    for (seconds, nanos) in cases {
        let expected = match chrono::DateTime::from_timestamp(seconds, nanos) {
            Some(date) => (0..=9999).contains(&date.year()),
            None => false,
        };
        assert_eq!(Timestamp { seconds, nanos }.datable(), expected, "{} {}", seconds, nanos);
    }
}
