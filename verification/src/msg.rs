//! The PRIVMSG and NOTICE commands.

use vstd::prelude::*;

use crate::channel::{has_member_id, member_idx, Channel};
use crate::cmd::{Command, ResponseCode};
use crate::con::{response_to, Envelope, PeerId};
use crate::member::Member;
use crate::message::RawMessage;
use crate::modes::ChannelMode;
use crate::server::Server;
use crate::util::{split_byte, Receiver};

verus! {

/// The ids of all members but the one at `skip`, in joining order.
pub open spec fn ids_without(members: Seq<Member>, skip: int) -> Seq<PeerId> {
    Seq::new(
        (members.len() - 1) as nat,
        |k: int|
            if k < skip {
                members[k].id_spec()
            } else {
                members[k + 1].id_spec()
            },
    )
}

/// The nick the dispatcher answers and signs with for this peer: the
/// registered user's, else the pending connection's, else the `*`
/// placeholder.
pub open spec fn current_nick_of(server: &Server, id: PeerId) -> Seq<char> {
    if crate::server::has_user_id(server.users_view(), id) {
        server.users_view()[crate::server::user_idx(server.users_view(), id)].info_spec().nick_view()
    } else if crate::server::has_con_id(server.connections_view(), id) {
        server.connections_view()[crate::server::con_idx(server.connections_view(), id)].peer_spec().info_spec().nick_view()
    } else {
        "*"@
    }
}

/// Handles PRIVMSG and NOTICE messages.
pub struct Msg {
    pub raw: RawMessage,
    pub receiver: Vec<Receiver>,
    pub message: Vec<u8>,
}

impl Msg {
    /// Whether the raw command is NOTICE, which never earns an error
    /// reply.
    pub open spec fn is_notice_spec(message: &RawMessage) -> bool {
        Command::known_command(message.command_view()) == Some(Command::NOTICE)
    }

    /// Whether the channel turns the sender away: a member-only, moderated
    /// or voice-gated channel refuses non-members, and a moderated or
    /// voice-gated one silences members without voice.
    pub open spec fn delivery_denied(channel: &Channel, sender: PeerId) -> bool {
        let members = channel.members_view();
        let guarded = channel.has_flag_spec(ChannelMode::MemberOnly) || channel.has_flag_spec(
            ChannelMode::Moderated,
        ) || channel.has_flag_spec(ChannelMode::VoicePrivilege);
        let muted = channel.has_flag_spec(ChannelMode::Moderated) || channel.has_flag_spec(
            ChannelMode::VoicePrivilege,
        );
        if !guarded {
            false
        } else if !has_member_id(members, sender) {
            true
        } else {
            let m = members[member_idx(members, sender)];
            muted && !(m.has_flag(ChannelMode::VoicePrivilege) || m.has_flag(
                ChannelMode::OperatorPrivilege,
            ))
        }
    }

    /// Delivers a message to a channel.  A turned-away NOTICE is dropped,
    /// a turned-away PRIVMSG earns `ERR_CANNOTSENDTOCHAN`; a delivered
    /// message reaches every member but the sender, and a non-member's
    /// message to an open channel reaches everybody.
    pub fn handle_msg(
        channel: &Channel,
        sender: PeerId,
        sender_nick: &str,
        message: &RawMessage,
    ) -> (out: Vec<Envelope>)
        requires
            channel.wf(),
        ensures
            ({
                let members = channel.members_view();
                let is_member = has_member_id(members, sender);
                let idx = member_idx(members, sender);
                if Msg::delivery_denied(channel, sender) {
                    if Msg::is_notice_spec(message) {
                        out@.len() == 0
                    } else {
                        out@.len() == 1 && out@[0].to == sender && out@[0].msg.command_view()
                            == Command::REPLY(ResponseCode::ERR_CANNOTSENDTOCHAN).to_bytes_spec()
                    }
                } else if is_member {
                    out@.len() == members.len() - 1 && (forall|k: int|
                        0 <= k < out@.len() ==> (#[trigger] out@[k]).to == ids_without(
                            members,
                            idx,
                        )[k] && out@[k].msg.model() == message.model())
                } else {
                    out@.len() == members.len() && (forall|k: int|
                        0 <= k < out@.len() ==> (#[trigger] out@[k]).to == members[k].id_spec()
                            && out@[k].msg.model() == message.model())
                }
            }),
    {
        let maybe_member = channel.member_index_with_id(&sender);
        let guarded = channel.has_flag(ChannelMode::MemberOnly) || channel.has_flag(
            ChannelMode::Moderated,
        ) || channel.has_flag(ChannelMode::VoicePrivilege);
        let muted_channel = channel.has_flag(ChannelMode::Moderated) || channel.has_flag(
            ChannelMode::VoicePrivilege,
        );
        let is_notice = matches!(message.command(), Command::NOTICE);
        let denied: bool = if !guarded {
            false
        } else {
            match maybe_member {
                None => true,
                Some(i) => muted_channel && !channel.members()[i].has_voice(),
            }
        };
        if denied {
            let mut out: Vec<Envelope> = Vec::new();
            if !is_notice {
                let nick = crate::member::clone_string_str(sender_nick);
                let sname = crate::member::clone_string_str(channel.server_name());
                out.push(
                    response_to(
                        sender,
                        nick.as_str(),
                        ResponseCode::ERR_CANNOTSENDTOCHAN,
                        &[channel.name(), "Cannot send to channel"],
                        sname.as_str(),
                    ),
                );
            }
            return out;
        }
        match maybe_member {
            Some(i) => {
                let members = channel.members();
                let mut out: Vec<Envelope> = Vec::new();
                let mut k: usize = 0;
                while k < members.len()
                    invariant
                        0 <= k <= members@.len(),
                        i < members@.len(),
                        out@.len() == (if k <= i {
                            k as int
                        } else {
                            k - 1
                        }),
                        forall|j: int|
                            0 <= j < out@.len() ==> (#[trigger] out@[j]).to == ids_without(
                                members@,
                                i as int,
                            )[j] && out@[j].msg.model() == message.model(),
                    decreases members@.len() - k,
                {
                    if k != i {
                        out.push(members[k].send_msg(message.duplicate()));
                    }
                    k = k + 1;
                }
                out
            },
            None => channel.broadcast(message),
        }
    }

    /// Parses a PRIVMSG or NOTICE message: the targets, then the text.  A
    /// PRIVMSG without both is answered with `ERR_NEEDMOREPARAMS`; a
    /// NOTICE never generates a reply.
    pub fn from_message(message: RawMessage) -> (r: Result<Msg, Option<RawMessage>>)
        ensures
            match r {
                Ok(m) => {
                    &&& message.params_view().len() > 1
                    &&& m.message@ == message.params_view()[1]
                    &&& m.receiver@.len() == split_byte(message.params_view()[0], 44).len()
                    &&& (forall|i: int|
                        0 <= i < m.receiver@.len() ==> crate::util::receiver_classified(
                            #[trigger] m.receiver@[i],
                            split_byte(message.params_view()[0], 44)[i],
                        ))
                },
                Err(e) => {
                    &&& message.params_view().len() <= 1
                    &&& (e is Some <==> !Msg::is_notice_spec(&message))
                    &&& (e matches Some(reply) ==> e->Some_0.command_view()
                        == Command::REPLY(ResponseCode::ERR_NEEDMOREPARAMS).to_bytes_spec())
                },
            },
    {
        let is_notice = matches!(message.command(), Command::NOTICE);
        let parsed: Option<(Vec<Receiver>, Vec<u8>)> = {
            let params = message.params();
            proof {
                assert(params.deep_view().len() == params@.len());
            }
            if params.len() > 1 {
                proof {
                    assert(message.params_view()[0] =~= params@[0]@);
                    assert(message.params_view()[1] =~= params@[1]@);
                }
                let pieces = crate::util::split_bytes(params[0].as_slice(), 44);
                let mut receivers: Vec<Receiver> = Vec::new();
                let mut i: usize = 0;
                while i < pieces.len()
                    invariant
                        0 <= i <= pieces@.len(),
                        receivers@.len() == i,
                        pieces.deep_view() == split_byte(params@[0]@, 44),
                        pieces@.len() == split_byte(params@[0]@, 44).len(),
                        forall|j: int|
                            0 <= j < i ==> crate::util::receiver_classified(
                                #[trigger] receivers@[j],
                                split_byte(params@[0]@, 44)[j],
                            ),
                    decreases pieces@.len() - i,
                {
                    proof {
                        assert(pieces.deep_view()[i as int] == pieces@[i as int]@);
                    }
                    receivers.push(crate::util::verify_receiver(pieces[i].as_slice()));
                    i = i + 1;
                }
                Some((receivers, crate::message::copy_bytes(params[1].as_slice())))
            } else {
                None
            }
        };
        match parsed {
            Some((receiver, text)) => Ok(Msg { raw: message, receiver, message: text }),
            None => {
                if is_notice {
                    Err(None)
                } else {
                    Err(
                        Some(
                            RawMessage::new(
                                Command::REPLY(ResponseCode::ERR_NEEDMOREPARAMS),
                                &["*", "not enough params given"],
                                None,
                            ),
                        ),
                    )
                }
            },
        }
    }

    /// Applies the message: the sender's nick becomes the prefix, and
    /// each target receives the text -- channels by channel delivery,
    /// nicks directly.  A PRIVMSG to an unknown nick or channel earns
    /// `ERR_NOSUCHNICK` or `ERR_NOSUCHCHANNEL`; a NOTICE never earns a
    /// reply.
    pub fn invoke(self, server: &mut Server, origin: PeerId) -> (out: Vec<Envelope>)
        requires
            old(server).wf(),
        ensures
            final(server).wf(),
            *final(server) == *old(server),
            ({
                let notice = Msg::is_notice_spec(&self.raw);
                &&& (self.receiver@.len() == 1 && (self.receiver@[0]
                    matches Receiver::ChannelName(name) && !crate::server::has_channel_name(
                    old(server).channels_view(),
                    name@,
                )) ==> (if notice {
                    out@.len() == 0
                } else {
                    out@.len() == 1 && out@[0].to == origin && out@[0].msg.command_view()
                        == Command::REPLY(ResponseCode::ERR_NOSUCHCHANNEL).to_bytes_spec()
                }))
                &&& (self.receiver@.len() == 1 && (self.receiver@[0]
                    matches Receiver::ChannelName(name) && crate::server::has_channel_name(
                    old(server).channels_view(),
                    name@,
                )) ==> {
                    let c = old(server).channels_view()[crate::server::channel_idx(
                        old(server).channels_view(),
                        self.receiver@[0]->ChannelName_0@,
                    )];
                    let denied = Msg::delivery_denied(&c, origin);
                    let is_member = has_member_id(c.members_view(), origin);
                    let idx = member_idx(c.members_view(), origin);
                    &&& (denied && notice ==> out@.len() == 0)
                    &&& (denied && !notice ==> out@.len() == 1 && out@[0].to == origin
                        && out@[0].msg.command_view() == Command::REPLY(
                        ResponseCode::ERR_CANNOTSENDTOCHAN,
                    ).to_bytes_spec())
                    &&& (!denied && is_member ==> out@.len() == c.members_view().len() - 1 && (
                    forall|k: int|
                        0 <= k < out@.len() ==> (#[trigger] out@[k]).to == ids_without(
                            c.members_view(),
                            idx,
                        )[k] && out@[k].msg.command_view() == self.raw.command_view()
                            && out@[k].msg.prefix_view() == Some(
                            crate::util::char_bytes(current_nick_of(old(server), origin)),
                        )))
                    &&& (!denied && !is_member ==> out@.len() == c.members_view().len() && (
                    forall|k: int|
                        0 <= k < out@.len() ==> (#[trigger] out@[k]).to
                            == c.members_view()[k].id_spec() && out@[k].msg.command_view()
                            == self.raw.command_view() && out@[k].msg.prefix_view() == Some(
                            crate::util::char_bytes(current_nick_of(old(server), origin)),
                        )))
                })
                &&& (self.receiver@.len() == 1 && (self.receiver@[0]
                    matches Receiver::NickName(nick) && !crate::server::nick_in_map(
                    old(server).nicks_view(),
                    nick@,
                )) ==> (if notice {
                    out@.len() == 0
                } else {
                    out@.len() == 1 && out@[0].to == origin && out@[0].msg.command_view()
                        == Command::REPLY(ResponseCode::ERR_NOSUCHNICK).to_bytes_spec()
                }))
                // a nick target bound to a registered user gets the
                // message, signed with the sender's nick
                &&& (self.receiver@.len() == 1 && (self.receiver@[0]
                    matches Receiver::NickName(nick) && crate::server::nick_in_map(
                    old(server).nicks_view(),
                    nick@,
                ) && crate::server::has_user_id(
                    old(server).users_view(),
                    old(server).nicks_view()[crate::server::nick_idx(
                        old(server).nicks_view(),
                        nick@,
                    )].id,
                )) ==> out@.len() == 1 && out@[0].to == old(server).nicks_view()[
                    crate::server::nick_idx(
                        old(server).nicks_view(),
                        self.receiver@[0]->NickName_0@,
                    )].id && out@[0].msg.command_view() == self.raw.command_view()
                    && out@[0].msg.prefix_view() == Some(
                    crate::util::char_bytes(current_nick_of(old(server), origin)),
                ))
            }),
    {
        let host = crate::member::clone_string_str(server.host());
        let me: String = match crate::registration::nick_of(server, &origin) {
            Some(n) => n,
            None => crate::member::clone_string_str("*"),
        };
        let is_notice = matches!(self.raw.command(), Command::NOTICE);
        let ghost orig_raw = self.raw;
        let mut raw = self.raw;
        raw.set_prefix(me.as_str());
        proof {
            broadcast use vstd::string::group_string_axioms;

            assert(me@ == current_nick_of(old(server), origin));
            assert(raw.prefix_view() == Some(
                crate::util::char_bytes(current_nick_of(old(server), origin)),
            ));
        }
        let mut out: Vec<Envelope> = Vec::new();
        let mut i: usize = 0;
        while i < self.receiver.len()
            invariant
                0 <= i <= self.receiver@.len(),
                server.wf(),
                *server == *old(server),
                is_notice == Msg::is_notice_spec(&orig_raw),
                raw.command_view() == orig_raw.command_view(),
                raw.prefix_view() == Some(
                    crate::util::char_bytes(current_nick_of(old(server), origin)),
                ),
                i == 0 ==> out@.len() == 0,
                self.receiver@.len() == 1 && i == 1 && (self.receiver@[0]
                    matches Receiver::ChannelName(name) && !crate::server::has_channel_name(
                    old(server).channels_view(),
                    name@,
                )) ==> (if is_notice {
                    out@.len() == 0
                } else {
                    out@.len() == 1 && out@[0].to == origin && out@[0].msg.command_view()
                        == Command::REPLY(ResponseCode::ERR_NOSUCHCHANNEL).to_bytes_spec()
                }),
                self.receiver@.len() == 1 && i == 1 && (self.receiver@[0]
                    matches Receiver::ChannelName(name) && crate::server::has_channel_name(
                    old(server).channels_view(),
                    name@,
                )) ==> {
                    let c = old(server).channels_view()[crate::server::channel_idx(
                        old(server).channels_view(),
                        self.receiver@[0]->ChannelName_0@,
                    )];
                    let denied = Msg::delivery_denied(&c, origin);
                    let is_member = has_member_id(c.members_view(), origin);
                    let idx = member_idx(c.members_view(), origin);
                    &&& (denied && is_notice ==> out@.len() == 0)
                    &&& (denied && !is_notice ==> out@.len() == 1 && out@[0].to == origin
                        && out@[0].msg.command_view() == Command::REPLY(
                        ResponseCode::ERR_CANNOTSENDTOCHAN,
                    ).to_bytes_spec())
                    &&& (!denied && is_member ==> out@.len() == c.members_view().len() - 1 && (
                    forall|k: int|
                        0 <= k < out@.len() ==> (#[trigger] out@[k]).to == ids_without(
                            c.members_view(),
                            idx,
                        )[k] && out@[k].msg.command_view() == orig_raw.command_view()
                            && out@[k].msg.prefix_view() == Some(
                            crate::util::char_bytes(current_nick_of(old(server), origin)),
                        )))
                    &&& (!denied && !is_member ==> out@.len() == c.members_view().len() && (
                    forall|k: int|
                        0 <= k < out@.len() ==> (#[trigger] out@[k]).to
                            == c.members_view()[k].id_spec() && out@[k].msg.command_view()
                            == orig_raw.command_view() && out@[k].msg.prefix_view() == Some(
                            crate::util::char_bytes(current_nick_of(old(server), origin)),
                        )))
                },
                self.receiver@.len() == 1 && i == 1 && (self.receiver@[0]
                    matches Receiver::NickName(nick) && !crate::server::nick_in_map(
                    old(server).nicks_view(),
                    nick@,
                )) ==> (if is_notice {
                    out@.len() == 0
                } else {
                    out@.len() == 1 && out@[0].to == origin && out@[0].msg.command_view()
                        == Command::REPLY(ResponseCode::ERR_NOSUCHNICK).to_bytes_spec()
                }),
                (self.receiver@.len() == 1 && i == 1 && (self.receiver@[0]
                    matches Receiver::NickName(nick) && crate::server::nick_in_map(
                    old(server).nicks_view(),
                    nick@,
                ) && crate::server::has_user_id(
                    old(server).users_view(),
                    old(server).nicks_view()[crate::server::nick_idx(
                        old(server).nicks_view(),
                        nick@,
                    )].id,
                ))) ==> out@.len() == 1 && out@[0].to == old(server).nicks_view()[
                    crate::server::nick_idx(
                        old(server).nicks_view(),
                        self.receiver@[0]->NickName_0@,
                    )].id && out@[0].msg.command_view() == orig_raw.command_view()
                    && out@[0].msg.prefix_view() == Some(
                    crate::util::char_bytes(current_nick_of(old(server), origin)),
                ),
            decreases self.receiver@.len() - i,
        {
            match &self.receiver[i] {
                Receiver::ChannelName(name) => {
                    match server.channel_index(name.as_str()) {
                        Some(ci) => {
                            let mut replies = Msg::handle_msg(
                                server.channel_at(ci),
                                origin,
                                me.as_str(),
                                &raw,
                            );
                            out.append(&mut replies);
                        },
                        None => {
                            if !is_notice {
                                out.push(
                                    response_to(
                                        origin,
                                        me.as_str(),
                                        ResponseCode::ERR_NOSUCHCHANNEL,
                                        &[name.as_str(), "No such channel"],
                                        host.as_str(),
                                    ),
                                );
                            }
                        },
                    }
                },
                Receiver::NickName(nick) => {
                    match server.get_peer(nick.as_str()) {
                        Some(peer) => {
                            out.push(peer.send_msg(raw.duplicate()));
                        },
                        None => {
                            if !is_notice {
                                out.push(
                                    response_to(
                                        origin,
                                        me.as_str(),
                                        ResponseCode::ERR_NOSUCHNICK,
                                        &[nick.as_str(), "No such nick/channel"],
                                        host.as_str(),
                                    ),
                                );
                            }
                        },
                    }
                },
                Receiver::InvalidReceiver(_) => {},
            }
            i = i + 1;
        }
        out
    }
}

} // verus!
