//! The NAMES and WHO commands.

use vstd::prelude::*;
use vstd::string::StringSliceAdditionalSpecFns;

use crate::channel::{has_member_id, Channel};
use crate::cmd::{Command, ResponseCode};
use crate::con::{response_to, Envelope, Peer, PeerId};
use crate::member::{clone_string_str, Member};
use crate::message::RawMessage;
use crate::modes::ChannelMode;
use crate::server::Server;
use crate::util::{split_byte, Receiver};

verus! {

/// The operators among the members, in joining order.
pub open spec fn ops_of(members: Seq<Member>) -> Seq<Member>
    decreases members.len(),
{
    if members.len() == 0 {
        Seq::empty()
    } else {
        let rest = ops_of(members.drop_last());
        if members.last().has_flag(ChannelMode::OperatorPrivilege) {
            rest.push(members.last())
        } else {
            rest
        }
    }
}

/// One `RPL_WHOREPLY` line describing the member on the channel: channel,
/// user, host, server, nick, `H` plus the decoration, and hop count zero
/// with the real name.
pub open spec fn who_line(env: Envelope, channel: &Channel, m: Member) -> bool {
    &&& env.msg.command_view() == Command::REPLY(ResponseCode::RPL_WHOREPLY).to_bytes_spec()
    &&& env.msg.params_view().len() == 8
    &&& env.msg.params_view()[1] == crate::util::char_bytes(channel.name_view())
    &&& env.msg.params_view()[2] == crate::util::char_bytes(m.username_view())
    &&& env.msg.params_view()[3] == crate::util::char_bytes(m.hostname_view())
    &&& env.msg.params_view()[4] == crate::util::char_bytes(channel.server_name_view())
    &&& env.msg.params_view()[5] == crate::util::char_bytes(m.nick_view())
    &&& env.msg.params_view()[6] == crate::util::char_bytes(
        "H"@ + crate::member::decoration_spec(m.flags_spec()),
    )
    &&& env.msg.params_view()[7] == crate::util::char_bytes("0 "@ + m.realname_view())
}

/// Handles the WHO command.
///
/// `WHO <mask> ['o']`
pub struct Who {
    pub raw: RawMessage,
    pub mask: String,
    pub op_only: bool,
}

impl Who {
    /// Answers a WHO for a channel: one `RPL_WHOREPLY` per (visible)
    /// member and a closing `RPL_ENDOFWHO`.  A secret or private channel
    /// shows nothing to a non-member but the closing line.
    pub fn handle_who(&self, channel: &Channel, client: &Peer) -> (out: Vec<Envelope>)
        requires
            channel.wf(),
        ensures
            out@.len() >= 1,
            forall|k: int|
                0 <= k < out@.len() ==> (#[trigger] out@[k]).to == client.info_spec().id_spec(),
            out@.last().msg.command_view() == Command::REPLY(
                ResponseCode::RPL_ENDOFWHO,
            ).to_bytes_spec(),
            (channel.has_flag_spec(ChannelMode::Private) || channel.has_flag_spec(
                ChannelMode::Secret,
            )) && !has_member_id(channel.members_view(), client.info_spec().id_spec())
                ==> out@.len() == 1,
            !(channel.has_flag_spec(ChannelMode::Private) || channel.has_flag_spec(
                ChannelMode::Secret,
            )) && !self.op_only ==> out@.len() == channel.members_view().len() + 1 && (forall|
                k: int,
            |
                0 <= k < channel.members_view().len() ==> who_line(
                    #[trigger] out@[k],
                    channel,
                    channel.members_view()[k],
                )),
            !(channel.has_flag_spec(ChannelMode::Private) || channel.has_flag_spec(
                ChannelMode::Secret,
            )) && self.op_only ==> out@.len() == ops_of(channel.members_view()).len() + 1 && (
            forall|k: int|
                0 <= k < out@.len() - 1 ==> who_line(
                    #[trigger] out@[k],
                    channel,
                    ops_of(channel.members_view())[k],
                )),
    {
        let mut out: Vec<Envelope> = Vec::new();
        let hidden = (channel.has_flag(ChannelMode::Private) || channel.has_flag(
            ChannelMode::Secret,
        )) && channel.member_index_with_id(&client.id()).is_none();
        if !hidden {
            let members = channel.members();
            let mut k: usize = 0;
            while k < members.len()
                invariant
                    0 <= k <= members@.len(),
                    channel.wf(),
                    members@ == channel.members_view(),
                    self.op_only ==> out@.len() == ops_of(members@.subrange(0, k as int)).len(),
                    !self.op_only ==> out@.len() == k,
                    forall|j: int|
                        0 <= j < out@.len() ==> (#[trigger] out@[j]).to
                            == client.info_spec().id_spec(),
                    !self.op_only ==> forall|j: int|
                        0 <= j < out@.len() ==> who_line(#[trigger] out@[j], channel, members@[j]),
                    self.op_only ==> forall|j: int|
                        0 <= j < out@.len() ==> who_line(
                            #[trigger] out@[j],
                            channel,
                            ops_of(members@.subrange(0, k as int))[j],
                        ),
                decreases members@.len() - k,
            {
                let ghost pre_out = out@;
                let m = &members[k];
                if !self.op_only || m.is_op() {
                    let mut here = String::from_str("H");
                    let deco = m.decoration();
                    here.append(deco.as_str());
                    let mut hops = String::from_str("0 ");
                    hops.append(m.realname());
                    let env = channel.send_response(
                        client,
                        ResponseCode::RPL_WHOREPLY,
                        &[
                            channel.name(),
                            m.username(),
                            m.hostname(),
                            channel.server_name(),
                            m.nick(),
                            here.as_str(),
                            hops.as_str(),
                        ],
                    );
                    proof {
                        assert(here@ == "H"@ + crate::member::decoration_spec(
                            members@[k as int].flags_spec(),
                        ));
                        assert(hops@ == "0 "@ + members@[k as int].realname_view());
                        assert(who_line(env, channel, members@[k as int]));
                    }
                    out.push(env);
                }
                proof {
                    assert(members@.subrange(0, k as int + 1).drop_last() =~= members@.subrange(
                        0,
                        k as int,
                    ));
                    assert(members@.subrange(0, k as int + 1).last() == members@[k as int]);
                    if self.op_only {
                        if members@[k as int].has_flag(ChannelMode::OperatorPrivilege) {
                            assert(ops_of(members@.subrange(0, k as int + 1)) =~= ops_of(
                                members@.subrange(0, k as int),
                            ).push(members@[k as int]));
                        } else {
                            assert(ops_of(members@.subrange(0, k as int + 1)) == ops_of(
                                members@.subrange(0, k as int),
                            ));
                            assert(out@ == pre_out);
                        }
                    }
                }
                k = k + 1;
            }
            proof {
                assert(members@.subrange(0, members@.len() as int) =~= members@);
            }
        }
        out.push(
            channel.send_response(
                client,
                ResponseCode::RPL_ENDOFWHO,
                &[self.mask.as_str(), "End of WHO list"],
            ),
        );
        out
    }

    /// Parses a WHO message: an optional mask (`0` when absent) and the
    /// operator filter.
    pub fn from_message(message: RawMessage) -> (r: Result<Who, Option<RawMessage>>)
        ensures
            r is Ok,
    {
        let parsed: (String, bool) = {
            let params = message.params();
            let mask: String = if params.len() > 0 {
                crate::util::lossy_string(params[0].as_slice())
            } else {
                clone_string_str("0")
            };
            let op_only: bool = if params.len() > 1 {
                crate::cmd::eq_bytes(params[1].as_slice(), "o".as_bytes())
            } else {
                false
            };
            (mask, op_only)
        };
        let (mask, op_only) = parsed;
        Ok(Who { raw: message, mask, op_only })
    }

    /// Applies the WHO command to the channel the mask names, if any; the
    /// listing always closes with `RPL_ENDOFWHO`.
    pub fn invoke(self, server: &mut Server, origin: PeerId) -> (out: Vec<Envelope>)
        requires
            old(server).wf(),
        ensures
            final(server).wf(),
            *final(server) == *old(server),
            forall|k: int| 0 <= k < out@.len() ==> (#[trigger] out@[k]).to == origin,
            crate::server::has_channel_name(old(server).channels_view(), self.mask@)
                && crate::server::has_user_id(old(server).users_view(), origin) ==> out@.len()
                >= 1 && out@.last().msg.command_view() == Command::REPLY(
                ResponseCode::RPL_ENDOFWHO,
            ).to_bytes_spec(),
            !crate::server::has_channel_name(old(server).channels_view(), self.mask@)
                || !crate::server::has_user_id(old(server).users_view(), origin) ==> out@.len()
                == 0,
    {
        let mut out: Vec<Envelope> = Vec::new();
        match server.channel_index(self.mask.as_str()) {
            Some(ci) => {
                let snap: Option<Peer> = match server.user_index(&origin) {
                    Some(ui) => Some(server.user_at(ui).snapshot()),
                    None => None,
                };
                match snap {
                    Some(peer) => {
                        let mut replies = self.handle_who(server.channel_at(ci), &peer);
                        out.append(&mut replies);
                    },
                    None => {},
                }
            },
            None => {},
        }
        out
    }
}

/// Handles the NAMES command.
///
/// `NAMES <channel>{,<channel>}`
pub struct Names {
    pub raw: RawMessage,
    pub receivers: Vec<Receiver>,
}

impl Names {
    /// Sends the member list of a channel: one `RPL_NAMREPLY` per member,
    /// with the member's decorated nick, then `RPL_ENDOFNAMES`.
    pub fn handle_names(channel: &Channel, proxy: &Peer) -> (out: Vec<Envelope>)
        requires
            channel.wf(),
        ensures
            out@.len() == channel.members_view().len() + 1,
            forall|k: int|
                0 <= k < out@.len() ==> (#[trigger] out@[k]).to == proxy.info_spec().id_spec(),
            forall|k: int|
                0 <= k < channel.members_view().len() ==> (#[trigger] out@[k]).msg.command_view()
                    == Command::REPLY(ResponseCode::RPL_NAMREPLY).to_bytes_spec()
                    && out@[k].msg.params_view().len() == 3 && out@[k].msg.params_view()[1]
                    == crate::util::char_bytes("= "@ + channel.name_view())
                    && out@[k].msg.params_view()[2] == crate::util::char_bytes(
                    channel.members_view()[k].decorated_nick_view(),
                ),
            out@.last().msg.command_view() == Command::REPLY(
                ResponseCode::RPL_ENDOFNAMES,
            ).to_bytes_spec(),
            out@.last().msg.params_view().len() == 3,
            out@.last().msg.params_view()[1] == crate::util::char_bytes(channel.name_view()),
            out@.last().msg.params_view()[2] == crate::util::char_bytes("End of /NAMES list"@),
    {
        let mut out: Vec<Envelope> = Vec::new();
        let members = channel.members();
        let mut k: usize = 0;
        while k < members.len()
            invariant
                0 <= k <= members@.len(),
                channel.wf(),
                out@.len() == k,
                forall|j: int|
                    0 <= j < k ==> (#[trigger] out@[j]).to == proxy.info_spec().id_spec(),
                forall|j: int|
                    0 <= j < k ==> (#[trigger] out@[j]).msg.command_view() == Command::REPLY(
                        ResponseCode::RPL_NAMREPLY,
                    ).to_bytes_spec() && out@[j].msg.params_view().len() == 3
                        && out@[j].msg.params_view()[1] == crate::util::char_bytes(
                        "= "@ + channel.name_view(),
                    ) && out@[j].msg.params_view()[2] == crate::util::char_bytes(
                        members@[j].decorated_nick_view(),
                    ),
            decreases members@.len() - k,
        {
            let mut tmp = String::from_str("= ");
            tmp.append(channel.name());
            let env = channel.send_response(
                proxy,
                ResponseCode::RPL_NAMREPLY,
                &[tmp.as_str(), members[k].decorated_nick()],
            );
            proof {
                assert(env.msg.params_view().len() == 3);
                assert(env.msg.params_view()[1] == crate::util::char_bytes(
                    "= "@ + channel.name_view(),
                ));
                assert(env.msg.params_view()[2] == crate::util::char_bytes(
                    members@[k as int].decorated_nick_view(),
                ));
            }
            out.push(env);
            k = k + 1;
        }
        let endline = channel.send_response(
            proxy,
            ResponseCode::RPL_ENDOFNAMES,
            &[channel.name(), "End of /NAMES list"],
        );
        proof {
            assert(endline.msg.params_view().len() == 3);
            assert(endline.msg.params_view()[1] == crate::util::char_bytes(channel.name_view()));
            assert(endline.msg.params_view()[2] == crate::util::char_bytes(
                "End of /NAMES list"@,
            ));
        }
        out.push(endline);
        out
    }

    /// Parses a NAMES message: the comma-separated targets.
    pub fn from_message(message: RawMessage) -> (r: Result<Names, Option<RawMessage>>)
        ensures
            match r {
                Ok(n) => message.params_view().len() > 0 && n.receivers@.len() == split_byte(
                    message.params_view()[0],
                    44,
                ).len() && (forall|i: int|
                    0 <= i < n.receivers@.len() ==> crate::util::receiver_classified(
                        #[trigger] n.receivers@[i],
                        split_byte(message.params_view()[0], 44)[i],
                    )),
                Err(_) => message.params_view().len() == 0,
            },
    {
        let parsed: Option<Vec<Receiver>> = {
            let params = message.params();
            proof {
                assert(params.deep_view().len() == params@.len());
            }
            if params.len() > 0 {
                proof {
                    assert(message.params_view()[0] =~= params@[0]@);
                }
                let pieces = crate::util::split_bytes(params[0].as_slice(), 44);
                let mut receivers: Vec<Receiver> = Vec::new();
                let mut i: usize = 0;
                while i < pieces.len()
                    invariant
                        0 <= i <= pieces@.len(),
                        receivers@.len() == i,
                        pieces.deep_view() == split_byte(params@[0]@, 44),
                        pieces@.len() == split_byte(params@[0]@, 44).len(),
                        forall|j: int|
                            0 <= j < i ==> crate::util::receiver_classified(
                                #[trigger] receivers@[j],
                                split_byte(params@[0]@, 44)[j],
                            ),
                    decreases pieces@.len() - i,
                {
                    proof {
                        assert(pieces.deep_view()[i as int] == pieces@[i as int]@);
                    }
                    receivers.push(crate::util::verify_receiver(pieces[i].as_slice()));
                    i = i + 1;
                }
                Some(receivers)
            } else {
                None
            }
        };
        match parsed {
            Some(receivers) => Ok(Names { raw: message, receivers }),
            None => Err(
                Some(
                    RawMessage::new(
                        Command::REPLY(ResponseCode::ERR_NEEDMOREPARAMS),
                        &["*", "NAMES", "not enough params given"],
                        None,
                    ),
                ),
            ),
        }
    }

    /// Applies the NAMES command to each listed channel: the member list
    /// for a present one, `ERR_NOSUCHCHANNEL` for a missing one.
    pub fn invoke(self, server: &mut Server, origin: PeerId) -> (out: Vec<Envelope>)
        requires
            old(server).wf(),
        ensures
            final(server).wf(),
            *final(server) == *old(server),
            forall|k: int| 0 <= k < out@.len() ==> (#[trigger] out@[k]).to == origin,
            (self.receivers@.len() == 1 && (self.receivers@[0] matches Receiver::ChannelName(
                name,
            ) && crate::server::has_channel_name(old(server).channels_view(), name@))
                && crate::server::has_user_id(old(server).users_view(), origin)) ==> {
                let c = old(server).channels_view()[crate::server::channel_idx(
                    old(server).channels_view(),
                    self.receivers@[0]->ChannelName_0@,
                )];
                &&& out@.len() == c.members_view().len() + 1
                &&& out@.last().msg.command_view() == Command::REPLY(
                    ResponseCode::RPL_ENDOFNAMES,
                ).to_bytes_spec()
            },
            (self.receivers@.len() == 1 && (self.receivers@[0] matches Receiver::ChannelName(
                name,
            ) && !crate::server::has_channel_name(old(server).channels_view(), name@))) ==> out@.len()
                == 1 && out@[0].msg.command_view() == Command::REPLY(
                ResponseCode::ERR_NOSUCHCHANNEL,
            ).to_bytes_spec(),
    {
        let host = clone_string_str(server.host());
        let me: String = match crate::registration::nick_of(server, &origin) {
            Some(n) => n,
            None => clone_string_str("*"),
        };
        let snap: Option<Peer> = match server.user_index(&origin) {
            Some(ui) => Some(server.user_at(ui).snapshot()),
            None => None,
        };
        let mut out: Vec<Envelope> = Vec::new();
        let mut i: usize = 0;
        while i < self.receivers.len()
            invariant
                0 <= i <= self.receivers@.len(),
                server.wf(),
                *server == *old(server),
                snap matches Some(p) ==> p.info_spec().id_spec() == origin,
                snap is Some <==> crate::server::has_user_id(old(server).users_view(), origin),
                forall|k: int| 0 <= k < out@.len() ==> (#[trigger] out@[k]).to == origin,
                i == 0 ==> out@.len() == 0,
                (self.receivers@.len() == 1 && i == 1 && (self.receivers@[0]
                    matches Receiver::ChannelName(name) && crate::server::has_channel_name(
                    old(server).channels_view(),
                    name@,
                )) && crate::server::has_user_id(old(server).users_view(), origin)) ==> {
                    let c = old(server).channels_view()[crate::server::channel_idx(
                        old(server).channels_view(),
                        self.receivers@[0]->ChannelName_0@,
                    )];
                    &&& out@.len() == c.members_view().len() + 1
                    &&& out@.last().msg.command_view() == Command::REPLY(
                        ResponseCode::RPL_ENDOFNAMES,
                    ).to_bytes_spec()
                },
                (self.receivers@.len() == 1 && i == 1 && (self.receivers@[0]
                    matches Receiver::ChannelName(name) && !crate::server::has_channel_name(
                    old(server).channels_view(),
                    name@,
                ))) ==> out@.len() == 1 && out@[0].msg.command_view() == Command::REPLY(
                    ResponseCode::ERR_NOSUCHCHANNEL,
                ).to_bytes_spec(),
            decreases self.receivers@.len() - i,
        {
            match &self.receivers[i] {
                Receiver::ChannelName(name) => {
                    match server.channel_index(name.as_str()) {
                        Some(ci) => {
                            match &snap {
                                Some(peer) => {
                                    let mut replies = Names::handle_names(
                                        server.channel_at(ci),
                                        peer,
                                    );
                                    out.append(&mut replies);
                                },
                                None => {},
                            }
                        },
                        None => {
                            out.push(
                                response_to(
                                    origin,
                                    me.as_str(),
                                    ResponseCode::ERR_NOSUCHCHANNEL,
                                    &[name.as_str(), "No such channel"],
                                    host.as_str(),
                                ),
                            );
                        },
                    }
                },
                _ => {},
            }
            i = i + 1;
        }
        out
    }
}

} // verus!
