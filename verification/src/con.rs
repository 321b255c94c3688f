//! Peers and their shared user data.
//!
//! The network layer owns the sockets; the library sees a peer as its
//! [`PeerId`] and [`UserInfo`], and answers with [`Envelope`] values: a
//! message addressed to one peer, which the network layer delivers.

use vstd::prelude::*;
use vstd::string::StringSliceAdditionalSpecFns;

use crate::cmd::{Command, ResponseCode};
use crate::message::RawMessage;
use crate::util::HostMask;

verus! {

/// Unique client id, minted by the network layer at connection acceptance
/// from the local address, the peer address and a random word.  Stable for
/// the connection's lifetime, never reused.
#[derive(PartialEq, Eq, Structural, Clone, Copy, Hash, Debug)]
pub struct PeerId {
    pub id0: u64,
    pub id1: u64,
}

impl PeerId {
    /// Builds an id from its two words.
    pub fn new(id0: u64, id1: u64) -> (r: PeerId)
        ensures
            r == (PeerId { id0, id1 }),
    {
        PeerId { id0, id1 }
    }
}

/// A message addressed to one peer.  The network layer enqueues the
/// message onto that peer's write queue, in order.
pub struct Envelope {
    pub to: PeerId,
    pub msg: RawMessage,
}

/// How far the registration handshake has come.
#[derive(PartialEq, Eq, Structural, Clone, Copy, Debug)]
pub enum RegistrationStatus {
    Connected,
    GotNick,
    GotUser,
    Registered,
}

/// Protocol extensions a client may negotiate.  Informational only.
#[derive(PartialEq, Eq, Structural, Clone, Copy, Debug)]
pub enum Extensions {
    Extensions,
    SASL,
}

/// The per-user record: nick, user and real name, hostname, and the
/// registration status.
pub struct UserInfo {
    id: PeerId,
    server_name: String,
    nick: String,
    username: String,
    realname: String,
    hostname: String,
    hostmask: HostMask,
    status: RegistrationStatus,
    capabilities: Vec<Extensions>,
}

impl UserInfo {
    /// The nickname characters.
    pub closed spec fn nick_view(&self) -> Seq<char> {
        self.nick@
    }

    /// The username characters.
    pub closed spec fn username_view(&self) -> Seq<char> {
        self.username@
    }

    /// The real-name characters.
    pub closed spec fn realname_view(&self) -> Seq<char> {
        self.realname@
    }

    /// The hostname characters.
    pub closed spec fn hostname_view(&self) -> Seq<char> {
        self.hostname@
    }

    /// The server-name characters.
    pub closed spec fn server_name_view(&self) -> Seq<char> {
        self.server_name@
    }

    /// The peer id.
    pub closed spec fn id_spec(&self) -> PeerId {
        self.id
    }

    /// The registration status.
    pub closed spec fn status_spec(&self) -> RegistrationStatus {
        self.status
    }

    /// The characters of the current host mask.
    pub closed spec fn hostmask_view(&self) -> Seq<char> {
        self.hostmask@
    }

    /// The mask `nick!username@hostname` of this record.
    pub open spec fn mask_of(&self) -> Seq<char> {
        self.nick_view() + "!"@ + self.username_view() + "@"@ + self.hostname_view()
    }

    /// Creates the user record: nick `*`, empty username, and a mask that
    /// matches any user at the peer's host.
    pub fn new(id: PeerId, server_name: String, hostname: String) -> (r: UserInfo)
        ensures
            r.id_spec() == id,
            r.server_name_view() == server_name@,
            r.hostname_view() == hostname@,
            r.nick_view() == "*"@,
            r.username_view() == ""@,
            r.realname_view() == "John Doe"@,
            r.status_spec() == RegistrationStatus::Connected,
            r.hostmask_view() == "*"@ + "!"@ + "*"@ + "@"@ + hostname@,
    {
        let mask = HostMask::from_parts("*", "*", hostname.as_str());
        UserInfo {
            id,
            server_name,
            nick: String::from_str("*"),
            username: String::from_str(""),
            realname: String::from_str("John Doe"),
            hostname,
            hostmask: mask,
            status: RegistrationStatus::Connected,
            capabilities: Vec::new(),
        }
    }

    /// Getter for the peer id.
    pub fn id(&self) -> (r: PeerId)
        ensures
            r == self.id_spec(),
    {
        self.id
    }

    /// Getter for the nick name.
    pub fn nick(&self) -> (r: &String)
        ensures
            r@ == self.nick_view(),
    {
        &self.nick
    }

    /// Setter for the nick name; the host mask follows it.
    pub fn set_nick(&mut self, nick: String)
        ensures
            final(self).nick_view() == nick@,
            final(self).username_view() == old(self).username_view(),
            final(self).realname_view() == old(self).realname_view(),
            final(self).hostname_view() == old(self).hostname_view(),
            final(self).server_name_view() == old(self).server_name_view(),
            final(self).id_spec() == old(self).id_spec(),
            final(self).status_spec() == old(self).status_spec(),
            final(self).hostmask_view() == final(self).mask_of(),
    {
        self.nick = nick;
        self.update_mask();
    }

    /// Getter for the user name.
    pub fn username(&self) -> (r: &String)
        ensures
            r@ == self.username_view(),
    {
        &self.username
    }

    /// Setter for the user name; the host mask follows it.
    pub fn set_username(&mut self, name: String)
        ensures
            final(self).username_view() == name@,
            final(self).nick_view() == old(self).nick_view(),
            final(self).realname_view() == old(self).realname_view(),
            final(self).hostname_view() == old(self).hostname_view(),
            final(self).server_name_view() == old(self).server_name_view(),
            final(self).id_spec() == old(self).id_spec(),
            final(self).status_spec() == old(self).status_spec(),
            final(self).hostmask_view() == final(self).mask_of(),
    {
        self.username = name;
        self.update_mask();
    }

    /// Getter for the real name.
    pub fn realname(&self) -> (r: &String)
        ensures
            r@ == self.realname_view(),
    {
        &self.realname
    }

    /// Setter for the real name; the host mask follows it.
    pub fn set_realname(&mut self, name: String)
        ensures
            final(self).realname_view() == name@,
            final(self).nick_view() == old(self).nick_view(),
            final(self).username_view() == old(self).username_view(),
            final(self).hostname_view() == old(self).hostname_view(),
            final(self).server_name_view() == old(self).server_name_view(),
            final(self).id_spec() == old(self).id_spec(),
            final(self).status_spec() == old(self).status_spec(),
            final(self).hostmask_view() == final(self).mask_of(),
    {
        self.realname = name;
        self.update_mask();
    }

    /// Getter for the server name.
    pub fn server_name(&self) -> (r: &String)
        ensures
            r@ == self.server_name_view(),
    {
        &self.server_name
    }

    /// Getter for the hostname.
    pub fn hostname(&self) -> (r: &String)
        ensures
            r@ == self.hostname_view(),
    {
        &self.hostname
    }

    /// Getter for the registration status.
    pub fn registration_status(&self) -> (r: RegistrationStatus)
        ensures
            r == self.status_spec(),
    {
        self.status
    }

    /// Setter for the registration status.
    pub fn set_registration_status(&mut self, status: RegistrationStatus)
        ensures
            final(self).status_spec() == status,
            final(self).nick_view() == old(self).nick_view(),
            final(self).username_view() == old(self).username_view(),
            final(self).realname_view() == old(self).realname_view(),
            final(self).hostname_view() == old(self).hostname_view(),
            final(self).server_name_view() == old(self).server_name_view(),
            final(self).id_spec() == old(self).id_spec(),
            final(self).hostmask_view() == old(self).hostmask_view(),
    {
        self.status = status;
    }

    /// Rebuilds the host mask from the current fields.
    fn update_mask(&mut self)
        ensures
            final(self).hostmask_view() == final(self).mask_of(),
            final(self).nick_view() == old(self).nick_view(),
            final(self).username_view() == old(self).username_view(),
            final(self).realname_view() == old(self).realname_view(),
            final(self).hostname_view() == old(self).hostname_view(),
            final(self).server_name_view() == old(self).server_name_view(),
            final(self).id_spec() == old(self).id_spec(),
            final(self).status_spec() == old(self).status_spec(),
    {
        self.hostmask = HostMask::from_parts(
            self.nick.as_str(),
            self.username.as_str(),
            self.hostname.as_str(),
        );
    }

    /// A copy of the record.
    pub fn snapshot(&self) -> (r: UserInfo)
        ensures
            r.id_spec() == self.id_spec(),
            r.nick_view() == self.nick_view(),
            r.username_view() == self.username_view(),
            r.realname_view() == self.realname_view(),
            r.hostname_view() == self.hostname_view(),
            r.server_name_view() == self.server_name_view(),
            r.status_spec() == self.status_spec(),
            r.hostmask_view() == self.hostmask_view(),
    {
        UserInfo {
            id: self.id,
            server_name: crate::member::clone_string(&self.server_name),
            nick: crate::member::clone_string(&self.nick),
            username: crate::member::clone_string(&self.username),
            realname: crate::member::clone_string(&self.realname),
            hostname: crate::member::clone_string(&self.hostname),
            hostmask: HostMask::new(crate::member::clone_string_str(self.hostmask.as_str())),
            status: self.status,
            capabilities: Vec::new(),
        }
    }

    /// Getter for the public host mask, the one sent out to other users.
    pub fn public_hostmask(&self) -> (r: &HostMask)
        ensures
            r@ == self.hostmask_view(),
    {
        &self.hostmask
    }

    /// Getter for the real host mask, the one bans are checked against.
    pub fn real_hostmask(&self) -> (r: &HostMask)
        ensures
            r@ == self.hostmask_view(),
    {
        &self.hostmask
    }
}

/// Builds a numeric reply addressed to the peer `to`: prefix `origin`,
/// first parameter the recipient's nick, then the given parameters.
pub fn response_to(to: PeerId, nick: &str, command: ResponseCode, params: &[&str], origin: &str)
    -> (r: Envelope)
    ensures
        r.to == to,
        r.msg.command_view() == Command::REPLY(command).to_bytes_spec(),
        r.msg.prefix_view() == Some(origin.spec_bytes()),
        r.msg.params_view() == seq![crate::util::char_bytes(nick@)] + Seq::new(
            params@.len(),
            |i: int| params@[i].spec_bytes(),
        ),
{
    let mut full: Vec<&str> = Vec::new();
    full.push(nick);
    let mut i: usize = 0;
    while i < params.len()
        invariant
            0 <= i <= params@.len(),
            full@.len() == i + 1,
            full@[0]@ == nick@,
            forall|j: int| 1 <= j < full@.len() ==> full@[j]@ == #[trigger] params@[j - 1]@,
        decreases params@.len() - i,
    {
        full.push(params[i]);
        i = i + 1;
    }
    let msg = RawMessage::new(Command::REPLY(command), full.as_slice(), Some(origin));
    proof {
        assert(msg.params_view() =~= seq![crate::util::char_bytes(nick@)] + Seq::new(
            params@.len(),
            |i: int| params@[i].spec_bytes(),
        ));
    }
    Envelope { to, msg }
}

/// A peer as handlers see it: its user record, addressed through
/// envelopes.
pub struct Peer {
    info: UserInfo,
}

impl Peer {
    /// The user record.
    pub closed spec fn info_spec(&self) -> &UserInfo {
        &self.info
    }

    /// Creates a new peer around a user record.
    pub fn new(info: UserInfo) -> (r: Peer)
        ensures
            r.info_spec() == &info,
    {
        Peer { info }
    }

    /// Wraps a message for delivery to this peer.
    pub fn send_msg(&self, msg: RawMessage) -> (r: Envelope)
        ensures
            r.to == self.info_spec().id_spec(),
            r.msg == msg,
    {
        Envelope { to: self.info.id(), msg }
    }

    /// Builds a numeric reply to this peer: prefix `origin`, first
    /// parameter the peer's nick, then the given parameters; and wraps it
    /// for delivery.
    pub fn send_response(&self, command: ResponseCode, params: &[&str], origin: &str) -> (r:
        Envelope)
        ensures
            r.to == self.info_spec().id_spec(),
            r.msg.command_view() == Command::REPLY(command).to_bytes_spec(),
            r.msg.prefix_view() == Some(origin.spec_bytes()),
            r.msg.params_view() == seq![
                crate::util::char_bytes(self.info_spec().nick_view()),
            ] + Seq::new(params@.len(), |i: int| params@[i].spec_bytes()),
    {
        let mut full: Vec<&str> = Vec::new();
        full.push(self.info.nick().as_str());
        let mut i: usize = 0;
        while i < params.len()
            invariant
                0 <= i <= params@.len(),
                full@.len() == i + 1,
                full@[0]@ == self.info_spec().nick_view(),
                forall|j: int| 1 <= j < full@.len() ==> full@[j]@ == #[trigger] params@[j - 1]@,
            decreases params@.len() - i,
        {
            full.push(params[i]);
            i = i + 1;
        }
        let msg = RawMessage::new(Command::REPLY(command), full.as_slice(), Some(origin));
        proof {
            broadcast use vstd::string::group_string_axioms;

            assert(msg.params_view() =~= seq![
                crate::util::char_bytes(self.info_spec().nick_view()),
            ] + Seq::new(params@.len(), |i: int| params@[i].spec_bytes()));
        }
        Envelope { to: self.info.id(), msg }
    }

    /// A copy of the peer.
    pub fn snapshot(&self) -> (r: Peer)
        ensures
            r.info_spec().id_spec() == self.info_spec().id_spec(),
            r.info_spec().nick_view() == self.info_spec().nick_view(),
            r.info_spec().username_view() == self.info_spec().username_view(),
            r.info_spec().realname_view() == self.info_spec().realname_view(),
            r.info_spec().hostname_view() == self.info_spec().hostname_view(),
            r.info_spec().server_name_view() == self.info_spec().server_name_view(),
            r.info_spec().status_spec() == self.info_spec().status_spec(),
            r.info_spec().hostmask_view() == self.info_spec().hostmask_view(),
    {
        Peer { info: self.info.snapshot() }
    }

    /// Getter for the user record.
    pub fn info(&self) -> (r: &UserInfo)
        ensures
            r == self.info_spec(),
    {
        &self.info
    }

    /// Setter for the nick name of the record.
    pub fn set_nick(&mut self, nick: String)
        ensures
            final(self).info_spec().nick_view() == nick@,
            final(self).info_spec().username_view() == old(self).info_spec().username_view(),
            final(self).info_spec().realname_view() == old(self).info_spec().realname_view(),
            final(self).info_spec().hostname_view() == old(self).info_spec().hostname_view(),
            final(self).info_spec().server_name_view() == old(self).info_spec().server_name_view(),
            final(self).info_spec().id_spec() == old(self).info_spec().id_spec(),
            final(self).info_spec().status_spec() == old(self).info_spec().status_spec(),
            final(self).info_spec().hostmask_view() == final(self).info_spec().mask_of(),
    {
        self.info.set_nick(nick);
    }

    /// Stores the user and real name and marks the record registered.
    pub fn set_user(&mut self, username: String, realname: String)
        ensures
            final(self).info_spec().username_view() == username@,
            final(self).info_spec().realname_view() == realname@,
            final(self).info_spec().status_spec() == RegistrationStatus::Registered,
            final(self).info_spec().nick_view() == old(self).info_spec().nick_view(),
            final(self).info_spec().hostname_view() == old(self).info_spec().hostname_view(),
            final(self).info_spec().server_name_view() == old(self).info_spec().server_name_view(),
            final(self).info_spec().id_spec() == old(self).info_spec().id_spec(),
            final(self).info_spec().hostmask_view() == final(self).info_spec().mask_of(),
    {
        self.info.set_username(username);
        self.info.set_realname(realname);
        self.info.set_registration_status(RegistrationStatus::Registered);
    }

    /// Getter for the peer id.
    pub fn id(&self) -> (r: PeerId)
        ensures
            r == self.info_spec().id_spec(),
    {
        self.info.id()
    }
}

/// One accepted connection: the peer, as the server directory keeps it
/// before registration completes.  The socket itself stays with the
/// network layer.
pub struct Connection {
    peer: Peer,
}

impl Connection {
    /// The peer behind the connection.
    pub closed spec fn peer_spec(&self) -> &Peer {
        &self.peer
    }

    /// The id of the connection: its peer's id.
    pub open spec fn id_spec(&self) -> PeerId {
        self.peer_spec().info_spec().id_spec()
    }

    /// Bundles a peer into a connection record.
    pub fn new(peer: Peer) -> (r: Connection)
        ensures
            r.peer_spec() == &peer,
            r.id_spec() == peer.info_spec().id_spec(),
    {
        Connection { peer }
    }

    /// Accessor for the client id.
    pub fn id(&self) -> (r: PeerId)
        ensures
            r == self.id_spec(),
    {
        self.peer.id()
    }

    /// Setter for the nick of the connection's peer.
    pub fn set_nick(&mut self, nick: String)
        ensures
            final(self).id_spec() == old(self).id_spec(),
            final(self).peer_spec().info_spec().nick_view() == nick@,
            final(self).peer_spec().info_spec().hostmask_view() == final(self).peer_spec().info_spec().mask_of(),
            final(self).peer_spec().info_spec().username_view() == old(self).peer_spec().info_spec().username_view(),
            final(self).peer_spec().info_spec().realname_view() == old(self).peer_spec().info_spec().realname_view(),
            final(self).peer_spec().info_spec().hostname_view() == old(self).peer_spec().info_spec().hostname_view(),
            final(self).peer_spec().info_spec().server_name_view() == old(self).peer_spec().info_spec().server_name_view(),
            final(self).peer_spec().info_spec().id_spec() == old(self).peer_spec().info_spec().id_spec(),
            final(self).peer_spec().info_spec().status_spec() == old(self).peer_spec().info_spec().status_spec(),
    {
        self.peer.set_nick(nick);
    }

    /// Stores the user and real name on the connection's peer and marks it
    /// registered.
    pub fn set_user(&mut self, username: String, realname: String)
        ensures
            final(self).id_spec() == old(self).id_spec(),
            final(self).peer_spec().info_spec().username_view() == username@,
            final(self).peer_spec().info_spec().realname_view() == realname@,
            final(self).peer_spec().info_spec().status_spec() == RegistrationStatus::Registered,
            final(self).peer_spec().info_spec().nick_view() == old(self).peer_spec().info_spec().nick_view(),
            final(self).peer_spec().info_spec().hostname_view() == old(self).peer_spec().info_spec().hostname_view(),
            final(self).peer_spec().info_spec().server_name_view() == old(self).peer_spec().info_spec().server_name_view(),
            final(self).peer_spec().info_spec().id_spec() == old(self).peer_spec().info_spec().id_spec(),
    {
        self.peer.set_user(username, realname);
    }

    /// The peer of this connection.
    pub fn peer(&self) -> (r: &Peer)
        ensures
            r == self.peer_spec(),
    {
        &self.peer
    }
}

} // verus!
