//! The CAP command: capability negotiation.  The daemon supports none, so
//! LS answers with an empty list and REQ refuses what was asked.

use vstd::prelude::*;

use crate::cmd::Command;
use crate::con::{Envelope, PeerId};
use crate::member::clone_string_str;
use crate::message::RawMessage;
use crate::server::Server;
use crate::util::{ascii_chars, is_ascii_bytes};

verus! {

/// Handles the CAP command.
pub struct Cap {
    pub raw: RawMessage,
    pub subcmd: String,
    pub params: Vec<String>,
}

impl Cap {
    /// Parses a CAP message: the subcommand, then its arguments.
    pub fn from_message(message: RawMessage) -> (r: Result<Cap, Option<RawMessage>>)
        ensures
            match r {
                Ok(c) => message.params_view().len() > 0 && (is_ascii_bytes(
                    message.params_view()[0],
                ) ==> c.subcmd@ == ascii_chars(message.params_view()[0])),
                Err(e) => message.params_view().len() == 0 && e is None,
            },
    {
        let parsed: Option<(String, Vec<String>)> = {
            let params = message.params();
            proof {
                assert(params.deep_view().len() == params@.len());
            }
            if params.len() == 0 {
                None
            } else {
                proof {
                    assert(message.params_view()[0] =~= params@[0]@);
                }
                let subcmd = crate::util::lossy_string(params[0].as_slice());
                let mut rest: Vec<String> = Vec::new();
                let mut i: usize = 1;
                while i < params.len()
                    invariant
                        1 <= i <= params@.len(),
                    decreases params@.len() - i,
                {
                    rest.push(crate::util::lossy_string(params[i].as_slice()));
                    i = i + 1;
                }
                Some((subcmd, rest))
            }
        };
        match parsed {
            Some((subcmd, params)) => Ok(Cap { raw: message, subcmd, params }),
            None => Err(None),
        }
    }

    /// Answers the subcommand: LS with an empty capability list, REQ by
    /// refusing the requested capabilities; everything else is ignored.
    pub fn invoke(self, server: &mut Server, origin: PeerId) -> (out: Vec<Envelope>)
        requires
            old(server).wf(),
        ensures
            final(server).wf(),
            *final(server) == *old(server),
            forall|i: int| 0 <= i < out@.len() ==> (#[trigger] out@[i]).to == origin,
            self.subcmd@ == "LS"@ ==> out@.len() == 1 && out@[0].msg.command_view()
                == Command::CAP.to_bytes_spec() && out@[0].msg.params_view().len() == 3
                && out@[0].msg.params_view()[1] == crate::util::char_bytes("LS"@),
            self.subcmd@ == "REQ"@ ==> out@.len() == 1 && out@[0].msg.command_view()
                == Command::CAP.to_bytes_spec() && out@[0].msg.params_view().len() == 3
                && out@[0].msg.params_view()[1] == crate::util::char_bytes("NAK"@),
            self.subcmd@ != "LS"@ && self.subcmd@ != "REQ"@ ==> out@.len() == 0,
    {
        let host = clone_string_str(server.host());
        let me: String = match crate::registration::nick_of(server, &origin) {
            Some(n) => n,
            None => clone_string_str("*"),
        };
        let mut out: Vec<Envelope> = Vec::new();
        let sub = self.subcmd.as_str();
        let is_ls = crate::cmd::eq_bytes(sub.as_bytes(), "LS".as_bytes());
        let is_req = crate::cmd::eq_bytes(sub.as_bytes(), "REQ".as_bytes());
        proof {
            reveal_strlit("LS");
            reveal_strlit("REQ");
            if is_ls {
                crate::channel::lemma_str_bytes_agree(sub, "LS");
            }
            if is_req {
                crate::channel::lemma_str_bytes_agree(sub, "REQ");
            }
        }
        if is_ls {
            let msg = RawMessage::new(
                Command::CAP,
                &[me.as_str(), "LS", ""],
                Some(host.as_str()),
            );
            out.push(Envelope { to: origin, msg });
        } else if is_req {
            let mut caps = String::new();
            let mut i: usize = 0;
            while i < self.params.len()
                invariant
                    0 <= i <= self.params@.len(),
                decreases self.params@.len() - i,
            {
                if i > 0 {
                    caps.append(" ");
                }
                caps.append(self.params[i].as_str());
                i = i + 1;
            }
            let msg = RawMessage::new(
                Command::CAP,
                &[me.as_str(), "NAK", caps.as_str()],
                Some(host.as_str()),
            );
            out.push(Envelope { to: origin, msg });
        }
        out
    }
}

} // verus!
