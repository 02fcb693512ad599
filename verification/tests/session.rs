use irc_server::client_handler::{
    connection_closed, dispatch_command, dispatch_message, parse_command, register_client,
    register_with_id, unregister_client, Client, Command, SessionEffect,
};
use irc_server::registration::RegistrationAction;

fn alice() -> Client {
    Client { id: 7, username: "alice".to_string(), domain: "10.0.0.1".to_string() }
}

fn line(text: &str, session: &mut Option<Client>) -> (bool, SessionEffect) {
    dispatch_message(text.to_string(), "10.0.0.1".to_string(), session)
}

#[test]
fn parse_nick() {
    match parse_command("NICK alice\r\n") {
        Command::Nick { username } => assert_eq!(username, "alice"),
        other => panic!("{:?}", other),
    }
}

#[test]
fn parse_join_ping_quit() {
    assert!(matches!(parse_command("JOIN #rust\r\n"), Command::Join { channel } if channel == "#rust"));
    assert!(matches!(parse_command("PING 12345\r\n"), Command::Ping { token } if token == "12345"));
    assert!(matches!(parse_command("QUIT\r\n"), Command::Quit));
    assert!(matches!(parse_command("QUIT :gone fishing\r\n"), Command::Quit));
}

#[test]
fn parse_privmsg_takes_channel_and_body() {
    match parse_command("PRIVMSG #rust :hello: big world\r\n") {
        Command::Privmsg { channel, content } => {
            assert_eq!(channel, "#rust");
            assert_eq!(content, "hello: big world");
        }
        other => panic!("{:?}", other),
    }
}

#[test]
fn parse_privmsg_without_body_is_ignored() {
    assert!(matches!(parse_command("PRIVMSG #rust hello\r\n"), Command::Ignored));
}

#[test]
fn parse_part_with_and_without_body() {
    match parse_command("PART #rust :see you\r\n") {
        Command::Part { channel, body } => {
            assert_eq!(channel, "#rust");
            assert_eq!(body, Some("see you".to_string()));
        }
        other => panic!("{:?}", other),
    }
    match parse_command("PART #rust\r\n") {
        Command::Part { channel, body } => {
            assert_eq!(channel, "#rust");
            assert_eq!(body, None);
        }
        other => panic!("{:?}", other),
    }
}

#[test]
fn parse_ignores_empty_unknown_and_incomplete_lines() {
    for text in ["", "\r\n", "   ", "HELLO world", "nick alice", "NICK", "JOIN\r\n", "PING", "PART", "PRIVMSG"] {
        assert!(matches!(parse_command(text), Command::Ignored), "{:?}", text);
    }
}

#[test]
fn nick_registers_once() {
    let mut session = None;
    let (connected, effect) = line("NICK alice\r\n", &mut session);
    assert!(connected);
    let client = session.clone().expect("registered");
    assert_eq!(client.username, "alice");
    assert_eq!(client.domain, "10.0.0.1");
    match effect {
        SessionEffect::Register(message) => {
            assert_eq!(message.action, RegistrationAction::REGISTER);
            assert_eq!(message.client.id, client.id);
            assert_eq!(message.client.username, "alice");
            assert_eq!(message.client.domain, "10.0.0.1");
        }
        other => panic!("{:?}", other),
    }
    let (connected, effect) = line("NICK other\r\n", &mut session);
    assert!(connected);
    assert!(matches!(effect, SessionEffect::Nothing));
    let still = session.expect("registered");
    assert_eq!(still.id, client.id);
    assert_eq!(still.username, "alice");
}

#[test]
fn fresh_ids_are_random_version_four_uuids() {
    let mut first = None;
    let mut second = None;
    let a = register_client("h".to_string(), "a".to_string(), &mut first);
    let b = register_client("h".to_string(), "a".to_string(), &mut second);
    assert_ne!(a.client.id, b.client.id);
    for id in [a.client.id, b.client.id] {
        assert_eq!((id >> 76) & 0xf, 4);
        assert_eq!((id >> 62) & 0x3, 2);
        assert_eq!(uuid::Uuid::from_u128(id).get_version_num(), 4);
    }
    assert_eq!(first.unwrap().id, a.client.id);
}

#[test]
fn register_with_id_uses_the_given_id() {
    let mut session = None;
    let message = register_with_id(99, "host".to_string(), "carol".to_string(), &mut session);
    assert_eq!(message.action, RegistrationAction::REGISTER);
    assert_eq!(message.client.id, 99);
    assert_eq!(message.client.username, "carol");
    assert_eq!(message.client.domain, "host");
    let client = session.unwrap();
    assert_eq!((client.id, client.username.as_str(), client.domain.as_str()), (99, "carol", "host"));
}

#[test]
fn unregister_client_asks_to_leave() {
    let message = unregister_client(alice());
    assert_eq!(message.action, RegistrationAction::LEAVE);
    assert_eq!(message.client.id, 7);
    assert_eq!(message.client.username, "alice");
}

#[test]
fn commands_before_registration_are_dropped() {
    for text in ["JOIN #rust\r\n", "PRIVMSG #rust :hi\r\n", "PART #rust :bye\r\n", "QUIT\r\n"] {
        let mut session = None;
        let (connected, effect) = line(text, &mut session);
        assert!(connected, "{:?}", text);
        assert!(matches!(effect, SessionEffect::Nothing), "{:?}", text);
        assert!(session.is_none());
    }
}

#[test]
fn ping_is_answered_before_registration() {
    let mut session = None;
    let (connected, effect) = line("PING abc\r\n", &mut session);
    assert!(connected);
    assert!(matches!(effect, SessionEffect::Reply(text) if text == "PONG guyot-gondange.fr abc\r\n"));
    assert!(session.is_none());
}

#[test]
fn join_emits_channel_event() {
    let mut session = Some(alice());
    let (connected, effect) = line("JOIN #rust\r\n", &mut session);
    assert!(connected);
    match effect {
        SessionEffect::Channel(message) => {
            assert_eq!(message.client.id, 7);
            assert_eq!(message.channel, Some("#rust".to_string()));
            assert_eq!(message.body, None);
            assert!(!message.leave);
            assert!(!message.all_channels);
        }
        other => panic!("{:?}", other),
    }
}

#[test]
fn privmsg_emits_broadcast_not_for_sender() {
    let mut session = Some(alice());
    let (connected, effect) = line("PRIVMSG #rust :hi\r\n", &mut session);
    assert!(connected);
    match effect {
        SessionEffect::Relay(message) => {
            assert_eq!(message.content, ":alice!alice@10.0.0.1 PRIVMSG #rust :hi\r\n");
            assert_eq!(message.channel, "#rust");
            assert_eq!(message.sender.id, 7);
            assert!(!message.send_to_sender);
        }
        other => panic!("{:?}", other),
    }
}

#[test]
fn part_emits_leave_with_body() {
    let mut session = Some(alice());
    let (connected, effect) = line("PART #rust :so long\r\n", &mut session);
    assert!(connected);
    match effect {
        SessionEffect::Channel(message) => {
            assert_eq!(message.client.id, 7);
            assert_eq!(message.channel, Some("#rust".to_string()));
            assert_eq!(message.body, Some("so long".to_string()));
            assert!(message.leave);
            assert!(!message.all_channels);
        }
        other => panic!("{:?}", other),
    }
}

#[test]
fn quit_unregisters_and_ends_session() {
    let mut session = Some(alice());
    let (connected, effect) = line("QUIT\r\n", &mut session);
    assert!(!connected);
    match effect {
        SessionEffect::Register(message) => {
            assert_eq!(message.action, RegistrationAction::LEAVE);
            assert_eq!(message.client.id, 7);
        }
        other => panic!("{:?}", other),
    }
}

#[test]
fn malformed_lines_keep_the_session() {
    let mut session = Some(alice());
    for text in ["", "\r\n", "JOIN", "PRIVMSG #rust no colon", "WHOIS bob", "NICK"] {
        let (connected, effect) = line(text, &mut session);
        assert!(connected, "{:?}", text);
        assert!(matches!(effect, SessionEffect::Nothing), "{:?}", text);
    }
    assert_eq!(session.unwrap().id, 7);
}

#[test]
fn dispatch_command_uses_fresh_id_only_for_new_client() {
    let mut session = None;
    let (_, effect) = dispatch_command(
        Command::Nick { username: "dave".to_string() },
        "h".to_string(),
        1234,
        &mut session,
    );
    assert!(matches!(effect, SessionEffect::Register(m) if m.client.id == 1234));
    assert_eq!(session.as_ref().unwrap().id, 1234);
    let (_, effect) = dispatch_command(
        Command::Join { channel: "#java".to_string() },
        "h".to_string(),
        5678,
        &mut session,
    );
    assert!(matches!(effect, SessionEffect::Channel(m) if m.client.id == 1234));
    assert_eq!(session.unwrap().id, 1234);
}

#[test]
fn clients_are_equal_by_id_only() {
    let a = alice();
    let same_id = Client { id: 7, username: "zed".to_string(), domain: "elsewhere".to_string() };
    let other_id = Client { id: 8, username: "alice".to_string(), domain: "10.0.0.1".to_string() };
    assert!(a == same_id);
    assert!(a != other_id);
    let copy = a.clone();
    assert_eq!((copy.id, copy.username, copy.domain), (7, "alice".to_string(), "10.0.0.1".to_string()));
}

#[test]
fn closed_connection_unregisters_a_registered_client_only() {
    assert!(matches!(connection_closed(&None), SessionEffect::Nothing));
    match connection_closed(&Some(alice())) {
        SessionEffect::Register(message) => {
            assert_eq!(message.action, RegistrationAction::LEAVE);
            assert_eq!(message.client.id, 7);
            assert_eq!(message.client.username, "alice");
        }
        other => panic!("{:?}", other),
    }
}
