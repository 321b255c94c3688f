//! Tests of the wire-protocol codec.

use rusty_irc::cmd::{Command, ResponseCode};
use rusty_irc::message::RawMessage;

/// Test the message parser
#[test]
fn test_message_parser() {
    let m = RawMessage::parse(":prefix JOIN #channel".as_bytes()).unwrap();
    assert_eq!(m.prefix().unwrap().as_slice(), b"prefix");
    assert!(match m.command() {
        Command::JOIN => true,
        _ => false,
    });
    assert_eq!(m.params()[0].as_slice(), b"#channel");
}

/// Test the prefix setter
#[test]
fn test_prefix_setter() {
    let mut m = RawMessage::parse(":prefix JOIN #channel".as_bytes()).unwrap();
    m.set_prefix("new prefix");
    assert_eq!(
        String::from_utf8_lossy(m.prefix().unwrap().as_slice()).to_string(),
        "new prefix".to_string()
    );
    assert!(match m.command() {
        Command::JOIN => true,
        _ => false,
    });
    assert_eq!(m.params()[0].as_slice(), b"#channel");
    assert_eq!(m.as_slice(), b":new prefix JOIN #channel".to_vec());
}

/// Test message creation
#[test]
fn raw_test_msg_new() {
    let m = RawMessage::new(Command::JOIN, &["#channel"], Some("prefix"));
    assert_eq!(m.prefix().unwrap().as_slice(), b"prefix");
    assert!(match m.command() {
        Command::JOIN => true,
        _ => false,
    });
    assert_eq!(m.params()[0].as_slice(), b"#channel");
    assert_eq!(m.as_slice(), b":prefix JOIN :#channel".to_vec());
}

#[test]
fn message_test_message_parser() {
    let m = RawMessage::parse(":prefix JOIN #channel".as_bytes()).unwrap();
    assert_eq!(m.prefix().unwrap().as_slice(), b"prefix");
    assert!(matches!(m.command(), Command::JOIN));
    assert_eq!(m.params()[0].as_slice(), b"#channel");
}

#[test]
fn message_test_prefix_setter() {
    let mut m = RawMessage::parse(":prefix JOIN #channel".as_bytes()).unwrap();
    m.set_prefix("new prefix");
    assert_eq!(
        String::from_utf8_lossy(m.prefix().unwrap().as_slice()).to_string(),
        "new prefix".to_string()
    );
    assert!(matches!(m.command(), Command::JOIN));
    assert_eq!(m.params()[0].as_slice(), b"#channel");
    assert_eq!(m.as_slice(), b":new prefix JOIN #channel".to_vec());
}

#[test]
fn parse_rejects_empty_line() {
    assert!(RawMessage::parse(b"").is_err());
}

#[test]
fn parse_rejects_prefix_without_command() {
    assert!(RawMessage::parse(b":prefixonly").is_err());
}

#[test]
fn parse_trailing_with_spaces() {
    let m = RawMessage::parse(b"PRIVMSG #dev :hello there world").unwrap();
    assert_eq!(m.params().len(), 2);
    assert_eq!(m.params()[0].as_slice(), b"#dev");
    assert_eq!(m.params()[1].as_slice(), b"hello there world");
}

#[test]
fn parse_empty_trailing() {
    let m = RawMessage::parse(b"PRIVMSG #dev :").unwrap();
    assert_eq!(m.params().len(), 2);
    assert_eq!(m.params()[1].as_slice(), b"");
}

/// A rendered message parses back to the same pieces.
#[test]
fn render_then_parse_round_trip() {
    let m = RawMessage::new(
        Command::PRIVMSG,
        &["#dev", "hello there"],
        Some("alice"),
    );
    let line = m.as_slice();
    let back = RawMessage::parse(line.as_slice()).unwrap();
    assert_eq!(back.prefix().unwrap().as_slice(), b"alice");
    assert!(matches!(back.command(), Command::PRIVMSG));
    assert_eq!(back.params()[0].as_slice(), b"#dev");
    assert_eq!(back.params()[1].as_slice(), b"hello there");
}

/// Parsing then rendering then parsing again preserves the pieces.
#[test]
fn parse_render_parse_round_trip() {
    let line = b":alice!a@h PRIVMSG #dev bob :hi all";
    let m = RawMessage::parse(line).unwrap();
    let again = RawMessage::new_raw(m.command(), m.params().as_slice(), Some(b"alice!a@h"));
    let back = RawMessage::parse(again.as_slice().as_slice()).unwrap();
    assert_eq!(back.prefix().unwrap(), m.prefix().unwrap());
    assert_eq!(back.params(), m.params());
}

#[test]
fn numeric_replies_render_zero_padded() {
    let m = RawMessage::new(
        Command::REPLY(ResponseCode::RPL_WELCOME),
        &["alice", "Welcome"],
        Some("localhost"),
    );
    assert_eq!(m.as_slice(), b":localhost 001 alice :Welcome".to_vec());
}
