//! The PING and PONG commands.

use vstd::prelude::*;

use crate::cmd::Command;
use crate::con::{Envelope, PeerId};
use crate::message::RawMessage;
use crate::server::Server;
use crate::util::{ascii_chars, is_ascii_bytes};

verus! {

/// Handles the PING command.
pub struct Ping {
    pub raw: RawMessage,
    pub payload: Option<String>,
}

impl Ping {
    /// Parses a PING message; the token is optional.
    pub fn from_message(message: RawMessage) -> (r: Result<Ping, Option<RawMessage>>)
        ensures
            r is Ok,
            (r matches Ok(p) ==> (message.params_view().len() == 0 <==> p.payload is None)),
            (r matches Ok(p) ==> (message.params_view().len() > 0 && is_ascii_bytes(
                message.params_view()[0],
            ) ==> (p.payload matches Some(t) && t@ == ascii_chars(message.params_view()[0])))),
    {
        let params = message.params();
        let payload: Option<String> = if params.len() > 0 {
            proof {
                assert(params.deep_view().len() == params@.len());
                assert(message.params_view()[0] =~= params@[0]@);
            }
            Some(crate::util::lossy_string(params[0].as_slice()))
        } else {
            proof {
                assert(params.deep_view().len() == params@.len());
            }
            None
        };
        Ok(Ping { raw: message, payload })
    }

    /// Answers the ping: `PONG <server> :<token>`, the token echoed as it
    /// came.
    pub fn invoke(self, server: &mut Server, origin: PeerId) -> (out: Vec<Envelope>)
        requires
            old(server).wf(),
        ensures
            final(server).wf(),
            *final(server) == *old(server),
            out@.len() == 1,
            out@[0].to == origin,
            out@[0].msg.command_view() == Command::PONG.to_bytes_spec(),
            out@[0].msg.prefix_view() == Some(crate::util::char_bytes(old(server).host_view())),
            out@[0].msg.params_view().len() == (if self.payload is Some {
                2int
            } else {
                1int
            }),
            out@[0].msg.params_view()[0] == crate::util::char_bytes(old(server).host_view()),
            self.payload matches Some(t) ==> out@[0].msg.params_view()[1]
                == crate::util::char_bytes(t@),
    {
        let host = crate::member::clone_string_str(server.host());
        let msg = match &self.payload {
            Some(token) => RawMessage::new(
                Command::PONG,
                &[host.as_str(), token.as_str()],
                Some(host.as_str()),
            ),
            None => RawMessage::new(Command::PONG, &[host.as_str()], Some(host.as_str())),
        };
        proof {
            broadcast use vstd::string::group_string_axioms;

        }
        let mut out: Vec<Envelope> = Vec::new();
        out.push(Envelope { to: origin, msg });
        out
    }
}

/// Handles the PONG command: accepted and ignored.
pub struct Pong {
    pub raw: RawMessage,
    pub payload: Option<String>,
}

impl Pong {
    /// Parses a PONG message; the token is optional.
    pub fn from_message(message: RawMessage) -> (r: Result<Pong, Option<RawMessage>>)
        ensures
            r is Ok,
    {
        let params = message.params();
        let payload: Option<String> = if params.len() > 0 {
            Some(crate::util::lossy_string(params[0].as_slice()))
        } else {
            None
        };
        Ok(Pong { raw: message, payload })
    }

    /// A PONG asks for nothing.
    pub fn invoke(self, server: &mut Server, _origin: PeerId) -> (out: Vec<Envelope>)
        requires
            old(server).wf(),
        ensures
            final(server).wf(),
            *final(server) == *old(server),
            out@.len() == 0,
    {
        Vec::new()
    }
}

} // verus!
