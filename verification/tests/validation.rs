//! Tests of nickname, channel-name and host-mask validation.

use rusty_irc::util::{valid_channel, valid_nick, HostMask};

/// Test the nickname validation function
#[test]
fn test_nickname_validation() {
    assert!(valid_nick("FooBar123"));
    assert_eq!(valid_nick("FooBar1234"), false);
    assert_eq!(valid_nick("1FooBar12"), false);
}

/// Test the channel name validation function
#[test]
fn test_channel_name_validation() {
    assert!(valid_channel("#Foobar"));
    assert_eq!(valid_channel("Foobar"), false);
    assert_eq!(valid_channel("#Foo,bar"), false);
    assert_eq!(valid_channel("Foo bar"), false);
}

/// Test the hostname masks
#[test]
fn test_masks() {
    assert!(HostMask::new("*!*@*.com".to_string()).matches("a!b@example.com"));
    assert!(!HostMask::new("*!*@*.com".to_string()).matches("*!*@*.edu"));
    assert!(!HostMask::new("*!*@*.com".to_string()).matches("*!*@*.cop"));
    assert!(!HostMask::new("*!*@*.com".to_string()).matches("*!*@*.coma"));
    assert!(HostMask::new("*!*@example.com".to_string()).matches("a!b@example.com"));
    assert!(HostMask::new("foo!*@*.com".to_string()).matches("foo!bar@example.com"));
    assert!(!HostMask::new("foo!*@*.com".to_string()).matches("baz!bar@example.com"));
    assert!(HostMask::new("*!bar@*.com".to_string()).matches("foo!bar@example.com"));
    assert!(!HostMask::new("*!bar@*.com".to_string()).matches("foo!baz@example.com"));
}

/// A nick of exactly nine characters is accepted, ten are rejected, a
/// leading digit is rejected, a leading bracket is accepted.
#[test]
fn nick_boundaries() {
    assert!(valid_nick("abcdefghi"));
    assert!(!valid_nick("abcdefghij"));
    assert!(!valid_nick("1abc"));
    assert!(valid_nick("[abc"));
    assert!(!valid_nick(""));
}

/// The one-character channel name is rejected.
#[test]
fn channel_name_needs_two_characters() {
    assert!(!valid_channel("#"));
    assert!(valid_channel("#x"));
    assert!(valid_channel("&x"));
}

/// `*` may stand for any stretch, including across separators.
#[test]
fn masks_are_globs() {
    assert!(HostMask::new("*ab".to_string()).matches("aab"));
    assert!(HostMask::new("*!*@*.bu.edu".to_string()).matches("joe!user@web.cs.bu.edu"));
    assert!(HostMask::new("*.com".to_string()).matches("a.co.com"));
    assert!(!HostMask::new("*ab".to_string()).matches("aba"));
}

/// The parts of a mask: nick before the first `!`, user between the last
/// `!` and the first `@`, host after the last `@`.
#[test]
fn mask_parts() {
    let m = HostMask::new("alice!a@client.example".to_string());
    assert_eq!(m.nick().unwrap(), "alice");
    assert_eq!(m.user().unwrap(), "a");
    assert_eq!(m.host().unwrap(), "client.example");
    let odd = HostMask::new("plain".to_string());
    assert_eq!(odd.nick().unwrap(), "plain");
    assert_eq!(odd.user().unwrap(), "plain");
    assert_eq!(odd.host().unwrap(), "plain");
}
