//! Exact-value checks of the parsing building blocks.

use rusty_irc::mode::parse_decimal;
use rusty_irc::util::{verify_channel, verify_nick, verify_receiver, Receiver};

#[test]
fn decimal_parsing() {
    assert_eq!(parse_decimal(b"0"), Some(0));
    assert_eq!(parse_decimal(b"42"), Some(42));
    assert_eq!(parse_decimal(b"007"), Some(7));
    assert_eq!(parse_decimal(b""), None);
    assert_eq!(parse_decimal(b"4x2"), None);
}

#[test]
fn receiver_classification() {
    assert!(matches!(verify_receiver(b"#dev"), Receiver::ChannelName(_)));
    assert!(matches!(verify_receiver(b"alice"), Receiver::NickName(_)));
    assert!(matches!(
        verify_receiver(b"not valid"),
        Receiver::InvalidReceiver(_)
    ));
}

#[test]
fn byte_validation() {
    assert_eq!(verify_nick(b"alice").unwrap(), "alice".to_string());
    assert_eq!(verify_nick(b"1alice"), None);
    assert_eq!(verify_nick(b"\xffalice"), None);
    assert_eq!(verify_channel(b"#dev").unwrap(), "#dev".to_string());
    assert_eq!(verify_channel(b"dev"), None);
}
