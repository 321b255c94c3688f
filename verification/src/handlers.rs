//! Parsing a wire line into its handler, and dispatching it against the
//! server state.

use vstd::prelude::*;

use crate::cap::Cap;
use crate::cmd::Command;
use crate::con::{Envelope, PeerId};
use crate::join::Join;
use crate::lists::{Names, Who};
use crate::member::clone_string_str;
use crate::message::RawMessage;
use crate::mode::Mode;
use crate::msg::Msg;
use crate::part::{Part, Quit};
use crate::ping_pong::{Ping, Pong};
use crate::registration::{Nick, User};
use crate::server::Server;
use crate::simple::Topic;

verus! {

/// The sink for unknown commands: accepted, answered with nothing.  An
/// entry point for extensions.
pub struct ExtensionHandler {
    pub raw: RawMessage,
}

impl ExtensionHandler {
    /// Accepts any message.
    pub fn from_message(message: RawMessage) -> (r: Result<ExtensionHandler, Option<RawMessage>>)
        ensures
            r is Ok,
    {
        Ok(ExtensionHandler { raw: message })
    }

    /// An unknown command asks for nothing.
    pub fn invoke(self, server: &mut Server, _origin: PeerId) -> (out: Vec<Envelope>)
        requires
            old(server).wf(),
        ensures
            final(server).wf(),
            *final(server) == *old(server),
            out@.len() == 0,
    {
        Vec::new()
    }
}

/// A parsed message, ready to run against the server: the tagged sum of
/// the command handlers.  Numeric replies from clients are ignored, and
/// unknown commands fall through to a sink.
pub enum Message {
    Priv(Msg),
    Mode(Mode),
    Join(Join),
    Ping(Ping),
    Pong(Pong),
    Who(Who),
    Names(Names),
    Topic(Topic),
    Part(Part),
    Quit(Quit),
    Nick(Nick),
    User(User),
    Cap(Cap),
    /// Numeric reply codes from clients, ignored
    Reply(RawMessage),
    /// Catch all for unknown or unsupported commands
    Unknown(ExtensionHandler),
}

/// Parses a message into its handler, or into the error reply the sender
/// is owed (`None` when the bad message earns no reply).  The variant
/// follows the command name; what each handler holds is its own
/// `from_message` contract.
pub fn get_handler(message: RawMessage) -> (r: Result<Message, Option<RawMessage>>)
    ensures
        ({
            let known = Command::known_command(message.command_view());
            &&& (known == Some(Command::PRIVMSG) || known == Some(Command::NOTICE) ==> (
            r matches Ok(m) && m is Priv) || r is Err)
            &&& (known == Some(Command::MODE) ==> (r matches Ok(m) && m is Mode) || r is Err)
            &&& (known == Some(Command::JOIN) ==> (r matches Ok(m) && m is Join) || r is Err)
            &&& (known == Some(Command::PING) ==> (r matches Ok(m) && m is Ping))
            &&& (known == Some(Command::PONG) ==> (r matches Ok(m) && m is Pong))
            &&& (known == Some(Command::WHO) ==> (r matches Ok(m) && m is Who))
            &&& (known == Some(Command::NAMES) ==> (r matches Ok(m) && m is Names) || r is Err)
            &&& (known == Some(Command::TOPIC) ==> (r matches Ok(m) && m is Topic) || r is Err)
            &&& (known == Some(Command::PART) ==> (r matches Ok(m) && m is Part) || r is Err)
            &&& (known == Some(Command::QUIT) ==> (r matches Ok(m) && m is Quit))
            &&& (known == Some(Command::NICK) ==> (r matches Ok(m) && m is Nick) || r is Err)
            &&& (known == Some(Command::USER) ==> (r matches Ok(m) && m is User) || r is Err)
            &&& (known == Some(Command::CAP) ==> (r matches Ok(m) && m is Cap) || (
            r matches Err(e) && e is None))
            &&& (known is None ==> (r matches Ok(m) && (m is Unknown || m is Reply)))
            // NICK in full: accepted exactly on a valid nick, else the
            // 431/432 reply
            &&& (known == Some(Command::NICK) ==> {
                let valid = message.params_view().len() > 0 && crate::util::utf8_valid(
                    message.params_view()[0],
                ) && crate::util::valid_nick_spec(
                    crate::util::utf8_chars(message.params_view()[0]),
                );
                &&& (valid <==> (r matches Ok(m) && m is Nick))
                &&& (!valid ==> (r matches Err(e) && e matches Some(reply)
                    && reply.command_view() == Command::REPLY(
                    if message.params_view().len() == 0 {
                        crate::cmd::ResponseCode::ERR_NONICKNAMEGIVEN
                    } else {
                        crate::cmd::ResponseCode::ERR_ERRONEUSNICKNAME
                    },
                ).to_bytes_spec()))
            })
        }),
{
    let command = message.command();
    match command {
        Command::PRIVMSG => match Msg::from_message(message) {
            Ok(h) => Ok(Message::Priv(h)),
            Err(e) => Err(e),
        },
        Command::NOTICE => match Msg::from_message(message) {
            Ok(h) => Ok(Message::Priv(h)),
            Err(e) => Err(e),
        },
        Command::MODE => match Mode::from_message(message) {
            Ok(h) => Ok(Message::Mode(h)),
            Err(e) => Err(e),
        },
        Command::JOIN => match Join::from_message(message) {
            Ok(h) => Ok(Message::Join(h)),
            Err(e) => Err(e),
        },
        Command::PING => match Ping::from_message(message) {
            Ok(h) => Ok(Message::Ping(h)),
            Err(e) => Err(e),
        },
        Command::PONG => match Pong::from_message(message) {
            Ok(h) => Ok(Message::Pong(h)),
            Err(e) => Err(e),
        },
        Command::WHO => match Who::from_message(message) {
            Ok(h) => Ok(Message::Who(h)),
            Err(e) => Err(e),
        },
        Command::NAMES => match Names::from_message(message) {
            Ok(h) => Ok(Message::Names(h)),
            Err(e) => Err(e),
        },
        Command::TOPIC => match Topic::from_message(message) {
            Ok(h) => Ok(Message::Topic(h)),
            Err(e) => Err(e),
        },
        Command::PART => match Part::from_message(message) {
            Ok(h) => Ok(Message::Part(h)),
            Err(e) => Err(e),
        },
        Command::QUIT => match Quit::from_message(message) {
            Ok(h) => Ok(Message::Quit(h)),
            Err(e) => Err(e),
        },
        Command::NICK => match Nick::from_message(message) {
            Ok(h) => Ok(Message::Nick(h)),
            Err(e) => Err(e),
        },
        Command::USER => match User::from_message(message) {
            Ok(h) => Ok(Message::User(h)),
            Err(e) => Err(e),
        },
        Command::CAP => match Cap::from_message(message) {
            Ok(h) => Ok(Message::Cap(h)),
            Err(e) => Err(e),
        },
        Command::REPLY(_) => Ok(Message::Reply(message)),
        Command::UNKNOWN(_) => match ExtensionHandler::from_message(message) {
            Ok(h) => Ok(Message::Unknown(h)),
            Err(e) => Err(e),
        },
    }
}

/// Runs a parsed handler against the server for the peer it came from.
/// What each handler does is its own contract; this multiplexer promises
/// which directories each may touch.
pub fn invoke_handler(server: &mut Server, origin: PeerId, handler: Message) -> (out: Vec<
    Envelope,
>)
    requires
        old(server).wf(),
    ensures
        final(server).wf(),
        final(server).host_view() == old(server).host_view(),
        handler is Priv || handler is Who || handler is Names || handler is Cap || handler
            is Ping || handler is Pong || handler is Reply || handler is Unknown ==> *final(server) == *old(server),
        handler is Mode || handler is Topic || handler is Part || handler is Join ==> final(server).users_view() == old(server).users_view() && final(server).nicks_view() == old(server).nicks_view(),
        handler is Nick || handler is User ==> final(server).channels_view() == old(server).channels_view(),
        handler is Quit ==> !crate::server::has_user_id(final(server).users_view(), origin),
        handler is Ping ==> out@.len() == 1 && out@[0].to == origin && out@[0].msg.command_view()
            == Command::PONG.to_bytes_spec(),
{
    match handler {
        Message::Priv(h) => h.invoke(server, origin),
        Message::Mode(h) => h.invoke(server, origin),
        Message::Join(h) => h.invoke(server, origin),
        Message::Ping(h) => h.invoke(server, origin),
        Message::Pong(h) => h.invoke(server, origin),
        Message::Who(h) => h.invoke(server, origin),
        Message::Names(h) => h.invoke(server, origin),
        Message::Topic(h) => h.invoke(server, origin),
        Message::Part(h) => h.invoke(server, origin),
        Message::Quit(h) => h.invoke(server, origin),
        Message::Nick(h) => h.invoke(server, origin),
        Message::User(h) => h.invoke(server, origin),
        Message::Cap(h) => h.invoke(server, origin),
        Message::Reply(_) => Vec::new(),
        Message::Unknown(h) => h.invoke(server, origin),
    }
}

/// What the server event loop receives.
pub enum Event {
    /// A line arrived from a peer
    MessageReceived(PeerId, RawMessage),
    /// A connection to a peer was accepted
    Connected(crate::con::Connection),
    /// A channel was lost and leaves the directory
    ChannelLost(String),
}

/// Applies one event to the server: a new connection enters the directory
/// (a duplicate id is refused and earns no reply), a received line is
/// dispatched, a lost channel leaves the directory.  What a received line
/// does is each handler's contract; this multiplexer promises the
/// directory invariant.
pub fn handle_event(server: &mut Server, event: Event) -> (out: Vec<Envelope>)
    requires
        old(server).wf(),
    ensures
        final(server).wf(),
        final(server).host_view() == old(server).host_view(),
        event matches Event::Connected(con) ==> out@.len() == 0 && final(server).connections_view() == (if crate::server::has_con_id(
            old(server).connections_view(),
            con.id_spec(),
        ) {
            old(server).connections_view()
        } else {
            old(server).connections_view().push(con)
        }) && final(server).users_view() == old(server).users_view() && final(server).nicks_view() == old(server).nicks_view() && final(server).channels_view() == old(server).channels_view(),
        event matches Event::ChannelLost(name) ==> out@.len() == 0
            && !crate::server::has_channel_name(final(server).channels_view(), name@) && final(server).users_view() == old(server).users_view() && final(server).nicks_view() == old(server).nicks_view() && final(server).connections_view() == old(server).connections_view(),
{
    match event {
        Event::MessageReceived(origin, message) => dispatch_message(server, origin, message),
        Event::Connected(con) => {
            server.add_connection(con);
            Vec::new()
        },
        Event::ChannelLost(name) => {
            match server.channel_index(name.as_str()) {
                Some(i) => {
                    let _dropped = server.detach_channel(i);
                },
                None => {},
            }
            Vec::new()
        },
    }
}

/// Handles one wire line from a peer: parses it, runs the handler, and
/// hands back everything to deliver.  A line the parser refuses is
/// answered with its error reply, prefixed by the server's host.
pub fn dispatch_message(server: &mut Server, origin: PeerId, message: RawMessage) -> (out: Vec<
    Envelope,
>)
    requires
        old(server).wf(),
    ensures
        final(server).wf(),
        final(server).host_view() == old(server).host_view(),
        // a PING is always answered with the PONG
        Command::known_command(message.command_view()) == Some(Command::PING) ==> out@.len()
            == 1 && out@[0].to == origin && out@[0].msg.command_view()
            == Command::PONG.to_bytes_spec(),
        // a bad NICK line earns its 431/432 reply, signed by the server
        Command::known_command(message.command_view()) == Some(Command::NICK) && !(
        message.params_view().len() > 0 && crate::util::utf8_valid(message.params_view()[0])
            && crate::util::valid_nick_spec(
            crate::util::utf8_chars(message.params_view()[0]),
        )) ==> {
            &&& *final(server) == *old(server)
            &&& out@.len() == 1
            &&& out@[0].to == origin
            &&& out@[0].msg.prefix_view() == Some(
                crate::util::char_bytes(old(server).host_view()),
            )
            &&& out@[0].msg.command_view() == Command::REPLY(
                if message.params_view().len() == 0 {
                    crate::cmd::ResponseCode::ERR_NONICKNAMEGIVEN
                } else {
                    crate::cmd::ResponseCode::ERR_ERRONEUSNICKNAME
                },
            ).to_bytes_spec()
        },
{
    match get_handler(message) {
        Ok(handler) => invoke_handler(server, origin, handler),
        Err(Some(mut err)) => {
            let host = clone_string_str(server.host());
            err.set_prefix(host.as_str());
            let mut out: Vec<Envelope> = Vec::new();
            out.push(Envelope { to: origin, msg: err });
            out
        },
        Err(None) => Vec::new(),
    }
}

} // verus!
