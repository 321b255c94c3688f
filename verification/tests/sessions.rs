//! End-to-end exercises of the server state machine: registration,
//! channels, message routing, modes and departures.

use rusty_irc::cmd::{Command, ResponseCode};
use rusty_irc::con::{Connection, Envelope, Peer, PeerId, UserInfo};
use rusty_irc::handlers::dispatch_message;
use rusty_irc::message::RawMessage;
use rusty_irc::server::Server;

fn new_server() -> Server {
    Server::new(String::from("localhost"))
}

fn connect(server: &mut Server, seed: u64, host: &str) -> PeerId {
    let id = PeerId::new(seed, seed);
    let info = UserInfo::new(id, String::from("localhost"), String::from(host));
    let peer = Peer::new(info);
    assert!(server.add_connection(Connection::new(peer)));
    id
}

fn send(server: &mut Server, id: PeerId, line: &str) -> Vec<Envelope> {
    let msg = RawMessage::parse(line.as_bytes()).unwrap();
    dispatch_message(server, id, msg)
}

fn register(server: &mut Server, seed: u64, nick: &str, user: &str, host: &str) -> PeerId {
    let id = connect(server, seed, host);
    let out = send(server, id, &format!("NICK {}", nick));
    assert_eq!(out.len(), 0);
    let out = send(server, id, &format!("USER {} 0 * :Real Name", user));
    assert_eq!(out.len(), 1);
    assert_eq!(out[0].to, id);
    assert_eq!(out[0].msg.command().to_bytes(), b"001".to_vec());
    id
}

fn command_bytes(env: &Envelope) -> Vec<u8> {
    env.msg.command().to_bytes()
}

/// Registration happy path: NICK then USER earns the welcome.
#[test]
fn registration_happy_path() {
    let mut server = new_server();
    let alice = connect(&mut server, 1, "client.example");
    assert_eq!(send(&mut server, alice, "NICK alice").len(), 0);
    let out = send(&mut server, alice, "USER a 0 * :Alice");
    assert_eq!(out.len(), 1);
    assert_eq!(out[0].to, alice);
    assert_eq!(command_bytes(&out[0]), b"001".to_vec());
    assert_eq!(
        out[0].msg.prefix().unwrap().as_slice(),
        b"localhost"
    );
    assert_eq!(out[0].msg.params()[0].as_slice(), b"alice");
}

/// A second client cannot take a nick that is in use.
#[test]
fn nick_in_use_rejected() {
    let mut server = new_server();
    register(&mut server, 1, "alice", "a", "h1");
    let bob = connect(&mut server, 2, "h2");
    let out = send(&mut server, bob, "NICK alice");
    assert_eq!(out.len(), 1);
    assert_eq!(command_bytes(&out[0]), b"433".to_vec());
}

/// An invalid nick is answered at parse time.
#[test]
fn erroneous_nick_rejected() {
    let mut server = new_server();
    let c = connect(&mut server, 1, "h1");
    let out = send(&mut server, c, "NICK 1abc");
    assert_eq!(out.len(), 1);
    assert_eq!(command_bytes(&out[0]), b"432".to_vec());
}

/// Channel creation: the JOIN broadcast, no topic, the names list, and
/// the founder decorated as operator.
#[test]
fn channel_creation_and_names() {
    let mut server = new_server();
    let alice = register(&mut server, 1, "alice", "a", "h1");
    let out = send(&mut server, alice, "JOIN #dev");
    assert_eq!(out.len(), 4);
    assert!(out.iter().all(|e| e.to == alice));
    assert_eq!(command_bytes(&out[0]), b"JOIN".to_vec());
    assert_eq!(out[0].msg.prefix().unwrap().as_slice(), b"alice");
    assert_eq!(out[0].msg.params()[0].as_slice(), b"#dev");
    assert_eq!(command_bytes(&out[1]), b"331".to_vec());
    assert_eq!(command_bytes(&out[2]), b"353".to_vec());
    assert_eq!(out[2].msg.params()[1].as_slice(), b"= #dev");
    assert_eq!(out[2].msg.params()[2].as_slice(), b"@alice");
    assert_eq!(command_bytes(&out[3]), b"366".to_vec());
}

/// A message to the channel reaches the other member and never echoes
/// back to the sender.
#[test]
fn privmsg_to_channel() {
    let mut server = new_server();
    let alice = register(&mut server, 1, "alice", "a", "h1");
    let bob = register(&mut server, 2, "bob", "b", "h2");
    send(&mut server, alice, "JOIN #dev");
    send(&mut server, bob, "JOIN #dev");
    let out = send(&mut server, alice, "PRIVMSG #dev :hi");
    assert_eq!(out.len(), 1);
    assert_eq!(out[0].to, bob);
    assert_eq!(command_bytes(&out[0]), b"PRIVMSG".to_vec());
    assert_eq!(out[0].msg.prefix().unwrap().as_slice(), b"alice");
    assert_eq!(out[0].msg.params()[1].as_slice(), b"hi");
}

/// A message with an empty trailing parameter is accepted and delivered.
#[test]
fn privmsg_empty_trailing_delivered() {
    let mut server = new_server();
    let alice = register(&mut server, 1, "alice", "a", "h1");
    let bob = register(&mut server, 2, "bob", "b", "h2");
    send(&mut server, alice, "JOIN #dev");
    send(&mut server, bob, "JOIN #dev");
    let out = send(&mut server, alice, "PRIVMSG #dev :");
    assert_eq!(out.len(), 1);
    assert_eq!(out[0].to, bob);
    assert_eq!(out[0].msg.params()[1].as_slice(), b"");
}

/// Mode and ban enforcement: a banned host cannot join until an
/// exception mask overrides the ban.
#[test]
fn mode_and_ban_enforcement() {
    let mut server = new_server();
    let alice = register(&mut server, 1, "alice", "a", "h1");
    send(&mut server, alice, "JOIN #dev");
    let out = send(&mut server, alice, "MODE #dev +b *!*@evil.example");
    // every successful change is echoed as its own MODE broadcast
    assert_eq!(out.len(), 1);
    assert_eq!(command_bytes(&out[0]), b"MODE".to_vec());
    let charlie = register(&mut server, 3, "charlie", "charlie", "evil.example");
    let out = send(&mut server, charlie, "JOIN #dev");
    assert_eq!(out.len(), 1);
    assert_eq!(command_bytes(&out[0]), b"474".to_vec());
    send(&mut server, alice, "MODE #dev +e *!charlie@*");
    let out = send(&mut server, charlie, "JOIN #dev");
    assert!(out.iter().any(|e| command_bytes(e) == b"JOIN".to_vec()));
    assert!(!out.iter().any(|e| command_bytes(e) == b"474".to_vec()));
}

/// Key and limit: a full channel refuses the third member even with the
/// right key; a raised limit admits it.
#[test]
fn key_and_limit() {
    let mut server = new_server();
    let alice = register(&mut server, 1, "alice", "a", "h1");
    let bob = register(&mut server, 2, "bob", "b", "h2");
    let carol = register(&mut server, 3, "carol", "c", "h3");
    send(&mut server, alice, "JOIN #dev");
    send(&mut server, alice, "MODE #dev +k hunter2");
    let out = send(&mut server, bob, "JOIN #dev hunter2");
    assert!(out.iter().any(|e| command_bytes(e) == b"JOIN".to_vec()));
    send(&mut server, alice, "MODE #dev +l 2");
    let out = send(&mut server, carol, "JOIN #dev hunter2");
    assert_eq!(out.len(), 1);
    assert_eq!(command_bytes(&out[0]), b"471".to_vec());
    send(&mut server, alice, "MODE #dev +l 3");
    let out = send(&mut server, carol, "JOIN #dev hunter2");
    assert!(out.iter().any(|e| command_bytes(e) == b"JOIN".to_vec()));
}

/// A wrong or missing key is refused.
#[test]
fn bad_channel_key_refused() {
    let mut server = new_server();
    let alice = register(&mut server, 1, "alice", "a", "h1");
    let bob = register(&mut server, 2, "bob", "b", "h2");
    send(&mut server, alice, "JOIN #dev");
    send(&mut server, alice, "MODE #dev +k secret");
    let out = send(&mut server, bob, "JOIN #dev wrong");
    assert_eq!(out.len(), 1);
    assert_eq!(command_bytes(&out[0]), b"475".to_vec());
    let out = send(&mut server, bob, "JOIN #dev");
    assert_eq!(out.len(), 1);
    assert_eq!(command_bytes(&out[0]), b"475".to_vec());
}

/// Setting and clearing the key: after `-k` a JOIN without a key
/// succeeds.
#[test]
fn key_set_and_cleared() {
    let mut server = new_server();
    let alice = register(&mut server, 1, "alice", "a", "h1");
    let bob = register(&mut server, 2, "bob", "b", "h2");
    send(&mut server, alice, "JOIN #x");
    send(&mut server, alice, "MODE #x +k secret");
    let out = send(&mut server, bob, "JOIN #x");
    assert_eq!(command_bytes(&out[0]), b"475".to_vec());
    send(&mut server, alice, "MODE #x -k");
    let out = send(&mut server, bob, "JOIN #x");
    assert!(out.iter().any(|e| command_bytes(e) == b"JOIN".to_vec()));
}

/// QUIT fans out exactly once per shared channel, and the quitter is
/// gone afterwards.
#[test]
fn quit_fanout() {
    let mut server = new_server();
    let alice = register(&mut server, 1, "alice", "a", "h1");
    let bob = register(&mut server, 2, "bob", "b", "h2");
    send(&mut server, alice, "JOIN #a");
    send(&mut server, alice, "JOIN #b");
    send(&mut server, bob, "JOIN #a");
    send(&mut server, bob, "JOIN #b");
    let out = send(&mut server, bob, "QUIT :bye");
    let to_alice: Vec<&Envelope> = out
        .iter()
        .filter(|e| e.to == alice && command_bytes(e) == b"QUIT".to_vec())
        .collect();
    assert_eq!(to_alice.len(), 2);
    for e in to_alice {
        assert_eq!(e.msg.prefix().unwrap().as_slice(), b"bob");
        assert_eq!(e.msg.params()[1].as_slice(), b"bye");
    }
    // bob is gone: a later message cannot reach it by nick lookup of
    // a fresh sender into the old channels
    let out = send(&mut server, alice, "PRIVMSG #a :anyone");
    assert_eq!(out.len(), 0);
}

/// PART removes the member, tells the channel, and an emptied channel
/// disappears: rejoining founds it anew with operator rights.
#[test]
fn part_drops_empty_channel() {
    let mut server = new_server();
    let alice = register(&mut server, 1, "alice", "a", "h1");
    send(&mut server, alice, "JOIN #dev");
    let out = send(&mut server, alice, "PART #dev :bye");
    assert_eq!(out.len(), 1);
    assert_eq!(command_bytes(&out[0]), b"PART".to_vec());
    // the channel is gone, so the next joiner is the founder again
    let out = send(&mut server, alice, "JOIN #dev");
    assert!(out.iter().any(|e| {
        command_bytes(e) == b"353".to_vec() && e.msg.params()[2].as_slice() == b"@alice"
    }));
}

/// A PART from someone not on the channel earns ERR_NOTONCHANNEL.
#[test]
fn part_not_on_channel() {
    let mut server = new_server();
    let alice = register(&mut server, 1, "alice", "a", "h1");
    let bob = register(&mut server, 2, "bob", "b", "h2");
    send(&mut server, alice, "JOIN #dev");
    let out = send(&mut server, bob, "PART #dev");
    assert_eq!(out.len(), 1);
    assert_eq!(command_bytes(&out[0]), b"442".to_vec());
}

/// TOPIC: a plain member may not set a protected topic; the operator
/// may, and the change is broadcast.
#[test]
fn topic_protection() {
    let mut server = new_server();
    let alice = register(&mut server, 1, "alice", "a", "h1");
    let bob = register(&mut server, 2, "bob", "b", "h2");
    send(&mut server, alice, "JOIN #dev");
    send(&mut server, bob, "JOIN #dev");
    let out = send(&mut server, bob, "TOPIC #dev :bob was here");
    assert_eq!(out.len(), 1);
    assert_eq!(command_bytes(&out[0]), b"482".to_vec());
    let out = send(&mut server, alice, "TOPIC #dev :release day");
    assert_eq!(out.len(), 2);
    assert!(out.iter().all(|e| command_bytes(e) == b"TOPIC".to_vec()));
    assert_eq!(out[0].msg.params()[1].as_slice(), b"release day");
}

/// MODE with no arguments shows the channel flags.
#[test]
fn mode_shows_flags() {
    let mut server = new_server();
    let alice = register(&mut server, 1, "alice", "a", "h1");
    send(&mut server, alice, "JOIN #dev");
    let out = send(&mut server, alice, "MODE #dev");
    assert_eq!(out.len(), 1);
    assert_eq!(command_bytes(&out[0]), b"324".to_vec());
    let flags = out[0].msg.params()[2].clone();
    assert_eq!(flags[0], b'+');
    // a fresh channel starts topic-protected and member-only
    assert!(flags.contains(&b't'));
    assert!(flags.contains(&b'n'));
}

/// A non-operator may change no modes.
#[test]
fn mode_needs_operator() {
    let mut server = new_server();
    let alice = register(&mut server, 1, "alice", "a", "h1");
    let bob = register(&mut server, 2, "bob", "b", "h2");
    send(&mut server, alice, "JOIN #dev");
    send(&mut server, bob, "JOIN #dev");
    let out = send(&mut server, bob, "MODE #dev +i");
    assert_eq!(out.len(), 1);
    assert_eq!(command_bytes(&out[0]), b"482".to_vec());
}

/// PING is answered with PONG from the server.
#[test]
fn ping_pong() {
    let mut server = new_server();
    let alice = register(&mut server, 1, "alice", "a", "h1");
    let out = send(&mut server, alice, "PING :token");
    assert_eq!(out.len(), 1);
    assert_eq!(command_bytes(&out[0]), b"PONG".to_vec());
    assert_eq!(out[0].msg.params()[1].as_slice(), b"token");
    assert_eq!(send(&mut server, alice, "PONG :token").len(), 0);
}

/// NAMES and WHO list the members; a private channel hides them from
/// outsiders.
#[test]
fn names_and_who() {
    let mut server = new_server();
    let alice = register(&mut server, 1, "alice", "a", "h1");
    let bob = register(&mut server, 2, "bob", "b", "h2");
    send(&mut server, alice, "JOIN #dev");
    let out = send(&mut server, alice, "NAMES #dev");
    assert_eq!(out.len(), 2);
    assert_eq!(command_bytes(&out[0]), b"353".to_vec());
    assert_eq!(command_bytes(&out[1]), b"366".to_vec());
    let out = send(&mut server, alice, "WHO #dev");
    assert_eq!(out.len(), 2);
    assert_eq!(command_bytes(&out[0]), b"352".to_vec());
    assert_eq!(command_bytes(&out[1]), b"315".to_vec());
    send(&mut server, alice, "MODE #dev +s");
    let out = send(&mut server, bob, "WHO #dev");
    assert_eq!(out.len(), 1);
    assert_eq!(command_bytes(&out[0]), b"315".to_vec());
}

/// CAP LS answers with an empty list; CAP REQ refuses the request.
#[test]
fn cap_negotiation() {
    let mut server = new_server();
    let alice = register(&mut server, 1, "alice", "a", "h1");
    let out = send(&mut server, alice, "CAP LS");
    assert_eq!(out.len(), 1);
    assert_eq!(command_bytes(&out[0]), b"CAP".to_vec());
    assert_eq!(out[0].msg.params()[1].as_slice(), b"LS");
    let out = send(&mut server, alice, "CAP REQ :sasl");
    assert_eq!(out.len(), 1);
    assert_eq!(out[0].msg.params()[1].as_slice(), b"NAK");
}

/// A message to an unregistered target channel is dropped silently; a
/// numeric from a client is ignored.
#[test]
fn silent_cases() {
    let mut server = new_server();
    let alice = register(&mut server, 1, "alice", "a", "h1");
    let out = send(&mut server, alice, "PRIVMSG #nowhere :hi");
    assert_eq!(out.len(), 1);
    assert_eq!(command_bytes(&out[0]), b"403".to_vec());
    assert_eq!(send(&mut server, alice, "NOTICE #nowhere :hi").len(), 0);
    assert_eq!(send(&mut server, alice, "001 whatever").len(), 0);
    assert_eq!(send(&mut server, alice, "BOGUSCMD a b").len(), 0);
}

/// A direct message to a nick reaches that peer alone.
#[test]
fn privmsg_to_nick() {
    let mut server = new_server();
    let alice = register(&mut server, 1, "alice", "a", "h1");
    let bob = register(&mut server, 2, "bob", "b", "h2");
    let out = send(&mut server, alice, "PRIVMSG bob :psst");
    assert_eq!(out.len(), 1);
    assert_eq!(out[0].to, bob);
    assert_eq!(out[0].msg.params()[1].as_slice(), b"psst");
}

/// A member-only channel turns outsiders away: a PRIVMSG earns
/// ERR_CANNOTSENDTOCHAN, a NOTICE is dropped silently; members get
/// through.
#[test]
fn member_only_turns_outsiders_away() {
    let mut server = new_server();
    let alice = register(&mut server, 1, "alice", "a", "h1");
    let bob = register(&mut server, 2, "bob", "b", "h2");
    send(&mut server, alice, "JOIN #dev");
    let out = send(&mut server, bob, "PRIVMSG #dev :let me in");
    assert_eq!(out.len(), 1);
    assert_eq!(out[0].to, bob);
    assert_eq!(command_bytes(&out[0]), b"404".to_vec());
    let out = send(&mut server, bob, "NOTICE #dev :psst");
    assert_eq!(out.len(), 0);
    send(&mut server, bob, "JOIN #dev");
    let out = send(&mut server, bob, "PRIVMSG #dev :hello");
    assert_eq!(out.len(), 1);
    assert_eq!(out[0].to, alice);
}

/// A moderated channel silences members without voice; granting voice
/// lets them speak.
#[test]
fn moderated_channel_gates_on_voice() {
    let mut server = new_server();
    let alice = register(&mut server, 1, "alice", "a", "h1");
    let bob = register(&mut server, 2, "bob", "b", "h2");
    send(&mut server, alice, "JOIN #dev");
    send(&mut server, bob, "JOIN #dev");
    send(&mut server, alice, "MODE #dev +m");
    let out = send(&mut server, bob, "PRIVMSG #dev :hi");
    assert_eq!(out.len(), 1);
    assert_eq!(command_bytes(&out[0]), b"404".to_vec());
    send(&mut server, alice, "MODE #dev +v bob");
    let out = send(&mut server, bob, "PRIVMSG #dev :hi again");
    assert_eq!(out.len(), 1);
    assert_eq!(out[0].to, alice);
    assert_eq!(command_bytes(&out[0]), b"PRIVMSG".to_vec());
    // the operator may always speak
    let out = send(&mut server, alice, "PRIVMSG #dev :order");
    assert_eq!(out.len(), 1);
    assert_eq!(out[0].to, bob);
}

/// After a QUIT the nick is free again for the next client.
#[test]
fn quit_frees_the_nick() {
    let mut server = new_server();
    let alice = register(&mut server, 1, "alice", "a", "h1");
    send(&mut server, alice, "QUIT :bye");
    let again = connect(&mut server, 9, "h9");
    assert_eq!(send(&mut server, again, "NICK alice").len(), 0);
    let out = send(&mut server, again, "USER a2 0 * :Second Alice");
    assert_eq!(out.len(), 1);
    assert_eq!(command_bytes(&out[0]), b"001".to_vec());
}

/// A PRIVMSG to an unknown nick earns ERR_NOSUCHNICK; a NOTICE is silent.
#[test]
fn privmsg_unknown_nick() {
    let mut server = new_server();
    let alice = register(&mut server, 1, "alice", "a", "h1");
    let out = send(&mut server, alice, "PRIVMSG nobody :hello");
    assert_eq!(out.len(), 1);
    assert_eq!(command_bytes(&out[0]), b"401".to_vec());
    assert_eq!(send(&mut server, alice, "NOTICE nobody :hello").len(), 0);
}

/// TOPIC without an argument shows the topic instead of setting it.
#[test]
fn topic_without_argument_shows() {
    let mut server = new_server();
    let alice = register(&mut server, 1, "alice", "a", "h1");
    send(&mut server, alice, "JOIN #dev");
    let out = send(&mut server, alice, "TOPIC #dev");
    assert_eq!(out.len(), 1);
    assert_eq!(command_bytes(&out[0]), b"331".to_vec());
    send(&mut server, alice, "TOPIC #dev :launch day");
    let out = send(&mut server, alice, "TOPIC #dev");
    assert_eq!(out.len(), 1);
    assert_eq!(command_bytes(&out[0]), b"332".to_vec());
    assert_eq!(out[0].msg.params()[2].as_slice(), b"launch day");
}

/// A joiner of a channel with a topic is told the topic, not NOTOPIC.
#[test]
fn join_reports_existing_topic() {
    let mut server = new_server();
    let alice = register(&mut server, 1, "alice", "a", "h1");
    let bob = register(&mut server, 2, "bob", "b", "h2");
    send(&mut server, alice, "JOIN #dev");
    send(&mut server, alice, "TOPIC #dev :launch day");
    let out = send(&mut server, bob, "JOIN #dev");
    assert!(out.iter().any(|e| {
        command_bytes(e) == b"332".to_vec()
            && e.msg.params().last().unwrap().as_slice() == b"launch day"
    }));
    assert!(!out.iter().any(|e| command_bytes(e) == b"331".to_vec()));
}

/// A one-character nick meets the grammar and registers.
#[test]
fn single_character_nick_registers() {
    let mut server = new_server();
    let q = connect(&mut server, 5, "h5");
    assert_eq!(send(&mut server, q, "NICK q").len(), 0);
    let out = send(&mut server, q, "USER qq 0 * :Queue");
    assert_eq!(out.len(), 1);
    assert_eq!(command_bytes(&out[0]), b"001".to_vec());
}

/// A channel name beyond ASCII is a channel name all the same.
#[test]
fn non_ascii_channel_name() {
    let mut server = new_server();
    let alice = register(&mut server, 1, "alice", "a", "h1");
    let out = send(&mut server, alice, "JOIN #caf\u{e9}");
    assert!(out.iter().any(|e| command_bytes(e) == b"JOIN".to_vec()));
    let out = send(&mut server, alice, "NAMES #caf\u{e9}");
    assert_eq!(command_bytes(&out[0]), b"353".to_vec());
}

/// Mask list queries: +b with no mask shows the ban list and its end.
#[test]
fn ban_list_query() {
    let mut server = new_server();
    let alice = register(&mut server, 1, "alice", "a", "h1");
    send(&mut server, alice, "JOIN #dev");
    send(&mut server, alice, "MODE #dev +b *!*@evil.example");
    let out = send(&mut server, alice, "MODE #dev b");
    assert_eq!(out.len(), 2);
    assert_eq!(command_bytes(&out[0]), b"367".to_vec());
    assert_eq!(out[0].msg.params()[2].as_slice(), b"*!*@evil.example");
    assert_eq!(command_bytes(&out[1]), b"368".to_vec());
    // removing the mask empties the list
    send(&mut server, alice, "MODE #dev -b *!*@evil.example");
    let out = send(&mut server, alice, "MODE #dev b");
    assert_eq!(out.len(), 1);
    assert_eq!(command_bytes(&out[0]), b"368".to_vec());
}

/// Operator and voice grants are broadcast and change the decorations.
#[test]
fn op_and_voice_grants() {
    let mut server = new_server();
    let alice = register(&mut server, 1, "alice", "a", "h1");
    let bob = register(&mut server, 2, "bob", "b", "h2");
    send(&mut server, alice, "JOIN #dev");
    send(&mut server, bob, "JOIN #dev");
    let out = send(&mut server, alice, "MODE #dev +v bob");
    assert_eq!(out.len(), 2);
    assert!(out.iter().all(|e| command_bytes(e) == b"MODE".to_vec()));
    assert_eq!(out[0].msg.params()[1].as_slice(), b"+v");
    assert_eq!(out[0].msg.params()[2].as_slice(), b"bob");
    let out = send(&mut server, alice, "NAMES #dev");
    assert!(out.iter().any(|e| e.msg.params().len() > 2
        && e.msg.params()[2].as_slice() == b"+bob"));
}

/// Commands short of parameters earn ERR_NEEDMOREPARAMS.
#[test]
fn need_more_params() {
    let mut server = new_server();
    let alice = register(&mut server, 1, "alice", "a", "h1");
    for line in ["JOIN", "PART", "NAMES", "MODE", "PRIVMSG #dev", "USER u 0 *"] {
        let out = send(&mut server, alice, line);
        assert_eq!(out.len(), 1, "for {}", line);
        assert_eq!(command_bytes(&out[0]), b"461".to_vec(), "for {}", line);
    }
}

/// A bad channel name in JOIN or TOPIC earns ERR_NOSUCHCHANNEL; so does a
/// good name nobody founded.
#[test]
fn no_such_channel() {
    let mut server = new_server();
    let alice = register(&mut server, 1, "alice", "a", "h1");
    let out = send(&mut server, alice, "JOIN nochannel");
    assert_eq!(command_bytes(&out[0]), b"403".to_vec());
    let out = send(&mut server, alice, "TOPIC #nowhere :hm");
    assert_eq!(command_bytes(&out[0]), b"403".to_vec());
    let out = send(&mut server, alice, "NAMES #nowhere");
    assert_eq!(command_bytes(&out[0]), b"403".to_vec());
}

/// One JOIN may list several channels; all end up in the directory.
#[test]
fn join_multiple_channels() {
    let mut server = new_server();
    let alice = register(&mut server, 1, "alice", "a", "h1");
    let out = send(&mut server, alice, "JOIN #one,#two");
    let joins: Vec<_> = out
        .iter()
        .filter(|e| command_bytes(e) == b"JOIN".to_vec())
        .collect();
    assert_eq!(joins.len(), 2);
    assert_eq!(send(&mut server, alice, "NAMES #one").len(), 2);
    assert_eq!(send(&mut server, alice, "NAMES #two").len(), 2);
}

/// MODE may carry several changes at once, applied left to right.
#[test]
fn mode_multiple_changes() {
    let mut server = new_server();
    let alice = register(&mut server, 1, "alice", "a", "h1");
    let bob = register(&mut server, 2, "bob", "b", "h2");
    send(&mut server, alice, "JOIN #dev");
    let out = send(&mut server, alice, "MODE #dev +ik hunter2");
    assert_eq!(out.len(), 2);
    assert!(out.iter().all(|e| command_bytes(e) == b"MODE".to_vec()));
    // both took hold: bob needs the key, and even with it an invitation
    let out = send(&mut server, bob, "JOIN #dev");
    assert_eq!(command_bytes(&out[0]), b"475".to_vec());
    let out = send(&mut server, bob, "JOIN #dev hunter2");
    assert_eq!(command_bytes(&out[0]), b"473".to_vec());
}
