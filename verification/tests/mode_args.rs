//! Tests of the MODE argument parser.

use rusty_irc::message::RawMessage;
use rusty_irc::modes::{modes_do, Action, ChannelMode};

/// Tests the mode parser
#[test]
fn util_test_mode_parser() {
    let msgs: [&[u8]; 4] = [
        b"MODE &oulu +b *!*@*.edu +e *!*@*.bu.edu",
        b"MODE #bu +be *!*@*.edu *!*@*.bu.edu",
        b"MODE #bu b",
        b"MODE #bu +g", // Invalid mode should be skipped
    ];
    let expected: [Vec<(Action, ChannelMode, Option<&[u8]>)>; 4] = [
        vec![
            (Action::Add, ChannelMode::BanMask, Some(b"*!*@*.edu")),
            (Action::Add, ChannelMode::ExceptionMask, Some(b"*!*@*.bu.edu")),
        ],
        vec![
            (Action::Add, ChannelMode::BanMask, Some(b"*!*@*.edu")),
            (Action::Add, ChannelMode::ExceptionMask, Some(b"*!*@*.bu.edu")),
        ],
        vec![(Action::Show, ChannelMode::BanMask, None)],
        Vec::new(),
    ];
    for (msg, modes) in msgs.iter().zip(expected.iter()) {
        let m = RawMessage::parse(msg).unwrap();
        let changes = modes_do(&m.params()[1..]);
        assert_eq!(changes.len(), modes.len());
        for (change, (set_, mode_, parameter_)) in changes.iter().zip(modes.iter()) {
            assert_eq!(*set_, change.action);
            assert_eq!(*mode_, change.mode);
            assert_eq!(
                parameter_.map(|p| p.to_vec()),
                change.param.clone()
            );
        }
    }
}

#[test]
fn mode_letters_round_trip() {
    for m in [
        ChannelMode::ChannelCreator,
        ChannelMode::OperatorPrivilege,
        ChannelMode::VoicePrivilege,
        ChannelMode::InviteOnly,
        ChannelMode::Moderated,
        ChannelMode::MemberOnly,
        ChannelMode::TopicProtect,
        ChannelMode::ChannelKey,
        ChannelMode::UserLimit,
        ChannelMode::BanMask,
        ChannelMode::ExceptionMask,
        ChannelMode::InvitationMask,
    ] {
        assert_eq!(ChannelMode::from_letter(m.letter()), Some(m));
    }
    assert_eq!(ChannelMode::from_letter(b'g'), None);
}
