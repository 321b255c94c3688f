//! The PART and QUIT commands.

use vstd::prelude::*;

use crate::channel::{has_member_id, member_idx, Channel};
use crate::cmd::{Command, ResponseCode};
use crate::con::{response_to, Envelope, PeerId};
use crate::member::clone_string_str;
use crate::message::RawMessage;
use crate::server::Server;
use crate::util::{split_byte, utf8_chars, utf8_valid, valid_channel_spec};

verus! {

/// Handles leaving one channel, for PART and for the QUIT fanout: the
/// member's departure is broadcast (including to the leaver) and the
/// member is removed.  A PART from a non-member is answered with
/// `ERR_NOTONCHANNEL`; a QUIT from a non-member does nothing.
pub fn do_quit_leave(
    channel: &mut Channel,
    sender: PeerId,
    sender_nick: &str,
    command: Command,
    reason: Option<Vec<u8>>,
) -> (out: Vec<Envelope>)
    requires
        old(channel).wf(),
        command is PART || command is QUIT,
    ensures
        final(channel).wf(),
        has_member_id(old(channel).members_view(), sender) ==> {
            let midx = member_idx(old(channel).members_view(), sender);
            &&& final(channel).members_view() == old(channel).members_view().remove(midx)
            &&& final(channel).eq_but_members(old(channel))
            &&& out@.len() == old(channel).members_view().len()
            &&& (forall|k: int|
                0 <= k < out@.len() ==> (#[trigger] out@[k]).to == old(
                    channel,
                ).members_view()[k].id_spec() && out@[k].msg.command_view()
                    == command.to_bytes_spec() && out@[k].msg.prefix_view() == Some(
                    crate::util::char_bytes(old(channel).members_view()[midx].nick_view()),
                ) && out@[k].msg.params_view().len() == (if reason is Some {
                    2int
                } else {
                    1int
                }) && out@[k].msg.params_view()[0] == crate::util::char_bytes(
                    old(channel).name_view(),
                ) && (reason matches Some(re) ==> out@[k].msg.params_view()[1] == re@))
        },
        !has_member_id(old(channel).members_view(), sender) ==> {
            &&& *final(channel) == *old(channel)
            &&& (command is PART ==> out@.len() == 1 && out@[0].to == sender
                && out@[0].msg.command_view() == Command::REPLY(
                ResponseCode::ERR_NOTONCHANNEL,
            ).to_bytes_spec())
            &&& (command is QUIT ==> out@.len() == 0)
        },
{
    match channel.member_index_with_id(&sender) {
        Some(i) => {
            let member_nick = crate::message::copy_bytes(channel.members()[i].nick().as_bytes());
            let mut params: Vec<Vec<u8>> = Vec::new();
            params.push(crate::message::copy_bytes(channel.name().as_bytes()));
            let has_reason = reason.is_some();
            match reason {
                Some(r) => params.push(r),
                None => {},
            }
            let msg = RawMessage::new_raw(command, params.as_slice(), Some(member_nick.as_slice()));
            let out = channel.broadcast(&msg);
            proof {
                broadcast use vstd::string::group_string_axioms;

                assert(msg.params_view().len() == params.deep_view().len());
                assert(msg.params_view()[0] == params.deep_view()[0]);
                if has_reason {
                    assert(msg.params_view()[1] == params.deep_view()[1]);
                }
                assert forall|k: int| 0 <= k < out@.len() implies (#[trigger] out@[k]).msg.prefix_view()
                    == msg.prefix_view() && out@[k].msg.params_view() == msg.params_view() by {
                    assert(out@[k].msg.model() == msg.model());
                    assert(out@[k].msg.model().prefix == out@[k].msg.prefix_view());
                    assert(out@[k].msg.model().params == out@[k].msg.params_view());
                }
            }
            channel.remove_member(&sender);
            out
        },
        None => {
            let mut out: Vec<Envelope> = Vec::new();
            if matches!(command, Command::PART) {
                let nick = clone_string_str(sender_nick);
                let sname = clone_string_str(channel.server_name());
                out.push(
                    response_to(
                        sender,
                        nick.as_str(),
                        ResponseCode::ERR_NOTONCHANNEL,
                        &[channel.name(), "You are not on this channel."],
                        sname.as_str(),
                    ),
                );
            }
            out
        },
    }
}

/// Handles the PART command.
///
/// `PART <channel>{,<channel>} [:<reason>]`
pub struct Part {
    pub raw: RawMessage,
    pub channels: Vec<String>,
    pub reason: Option<Vec<u8>>,
}

impl Part {
    /// Parses a PART message: a comma-separated list of valid channel
    /// names, then an optional reason.
    pub fn from_message(message: RawMessage) -> (r: Result<Part, Option<RawMessage>>)
        ensures
            match r {
                Ok(p) => {
                    &&& message.params_view().len() > 0
                    &&& p.channels@.len() == split_byte(message.params_view()[0], 44).len()
                    &&& (forall|i: int|
                        0 <= i < p.channels@.len() ==> utf8_valid(
                            #[trigger] split_byte(message.params_view()[0], 44)[i],
                        ) && p.channels@[i]@ == utf8_chars(
                            split_byte(message.params_view()[0], 44)[i],
                        ) && valid_channel_spec(p.channels@[i]@))
                },
                Err(_) => message.params_view().len() == 0 || exists|i: int|
                    0 <= i < split_byte(message.params_view()[0], 44).len() && !(utf8_valid(
                        #[trigger] split_byte(message.params_view()[0], 44)[i],
                    ) && valid_channel_spec(
                        utf8_chars(split_byte(message.params_view()[0], 44)[i]),
                    )),
            },
    {
        let parsed: Option<(Vec<String>, Option<Vec<u8>>)> = {
            let params = message.params();
            proof {
                assert(params.deep_view().len() == params@.len());
            }
            if params.len() == 0 {
                None
            } else {
                proof {
                    assert(message.params_view()[0] =~= params@[0]@);
                }
                match parse_channel_list(params[0].as_slice()) {
                    Some(channels) => {
                        let reason: Option<Vec<u8>> = if params.len() > 1 {
                            Some(crate::message::copy_bytes(params[1].as_slice()))
                        } else {
                            None
                        };
                        Some((channels, reason))
                    },
                    None => {
                        return Err(
                            Some(
                                RawMessage::new(
                                    Command::REPLY(ResponseCode::ERR_NOSUCHCHANNEL),
                                    &["*", "Invalid channel name."],
                                    None,
                                ),
                            ),
                        );
                    },
                }
            }
        };
        match parsed {
            Some((channels, reason)) => Ok(Part { raw: message, channels, reason }),
            None => Err(
                Some(
                    RawMessage::new(
                        Command::REPLY(ResponseCode::ERR_NEEDMOREPARAMS),
                        &["*", "PART", "no params given"],
                        None,
                    ),
                ),
            ),
        }
    }

    /// Applies the PART command: leaves each listed channel (the
    /// departure broadcast, `ERR_NOTONCHANNEL` for a non-member,
    /// `ERR_NOSUCHCHANNEL` for a missing channel); a channel left empty is
    /// dropped from the directory.
    pub fn invoke(self, server: &mut Server, origin: PeerId) -> (out: Vec<Envelope>)
        requires
            old(server).wf(),
        ensures
            final(server).wf(),
            final(server).host_view() == old(server).host_view(),
            final(server).users_view() == old(server).users_view(),
            final(server).nicks_view() == old(server).nicks_view(),
            self.channels@.len() == 1 && !crate::server::has_channel_name(
                old(server).channels_view(),
                self.channels@[0]@,
            ) ==> {
                &&& final(server).channels_view() == old(server).channels_view()
                &&& out@.len() == 1
                &&& out@[0].to == origin
                &&& out@[0].msg.command_view() == Command::REPLY(
                    ResponseCode::ERR_NOSUCHCHANNEL,
                ).to_bytes_spec()
            },
            self.channels@.len() == 1 && crate::server::has_channel_name(
                old(server).channels_view(),
                self.channels@[0]@,
            ) ==> {
                let c = old(server).channels_view()[crate::server::channel_idx(
                    old(server).channels_view(),
                    self.channels@[0]@,
                )];
                &&& (has_member_id(c.members_view(), origin) ==> {
                    &&& out@.len() == c.members_view().len()
                    &&& (forall|k: int|
                        0 <= k < out@.len() ==> (#[trigger] out@[k]).to
                            == c.members_view()[k].id_spec() && out@[k].msg.command_view()
                            == Command::PART.to_bytes_spec())
                    // a channel left empty disappears from the directory
                    &&& (c.members_view().len() == 1 ==> !crate::server::has_channel_name(
                        final(server).channels_view(),
                        self.channels@[0]@,
                    ))
                    &&& (c.members_view().len() > 1 ==> crate::server::has_channel_name(
                        final(server).channels_view(),
                        self.channels@[0]@,
                    ))
                })
                &&& (!has_member_id(c.members_view(), origin) ==> out@.len() == 1 && out@[0].to
                    == origin && out@[0].msg.command_view() == Command::REPLY(
                    ResponseCode::ERR_NOTONCHANNEL,
                ).to_bytes_spec())
            },
    {
        let host = clone_string_str(server.host());
        let me: String = match crate::registration::nick_of(server, &origin) {
            Some(n) => n,
            None => clone_string_str("*"),
        };
        let mut out: Vec<Envelope> = Vec::new();
        let mut ci: usize = 0;
        while ci < self.channels.len()
            invariant
                0 <= ci <= self.channels@.len(),
                server.wf(),
                server.host_view() == old(server).host_view(),
                server.users_view() == old(server).users_view(),
                server.nicks_view() == old(server).nicks_view(),
                ci == 0 ==> *server == *old(server) && out@.len() == 0,
                self.channels@.len() == 1 && ci == 1 && !crate::server::has_channel_name(
                    old(server).channels_view(),
                    self.channels@[0]@,
                ) ==> {
                    &&& server.channels_view() == old(server).channels_view()
                    &&& out@.len() == 1
                    &&& out@[0].to == origin
                    &&& out@[0].msg.command_view() == Command::REPLY(
                        ResponseCode::ERR_NOSUCHCHANNEL,
                    ).to_bytes_spec()
                },
                self.channels@.len() == 1 && ci == 1 && crate::server::has_channel_name(
                    old(server).channels_view(),
                    self.channels@[0]@,
                ) ==> {
                    let c = old(server).channels_view()[crate::server::channel_idx(
                        old(server).channels_view(),
                        self.channels@[0]@,
                    )];
                    &&& (has_member_id(c.members_view(), origin) ==> {
                        &&& out@.len() == c.members_view().len()
                        &&& (forall|k: int|
                            0 <= k < out@.len() ==> (#[trigger] out@[k]).to
                                == c.members_view()[k].id_spec() && out@[k].msg.command_view()
                                == Command::PART.to_bytes_spec())
                        &&& (c.members_view().len() == 1 ==> !crate::server::has_channel_name(
                            server.channels_view(),
                            self.channels@[0]@,
                        ))
                        &&& (c.members_view().len() > 1 ==> crate::server::has_channel_name(
                            server.channels_view(),
                            self.channels@[0]@,
                        ))
                    })
                    &&& (!has_member_id(c.members_view(), origin) ==> out@.len() == 1
                        && out@[0].to == origin && out@[0].msg.command_view() == Command::REPLY(
                        ResponseCode::ERR_NOTONCHANNEL,
                    ).to_bytes_spec())
                },
            decreases self.channels@.len() - ci,
        {
            let name = &self.channels[ci];
            match server.channel_index(name.as_str()) {
                Some(i) => {
                    let mut channel = server.detach_channel(i);
                    let ghost pre_c = channel;
                    let reason: Option<Vec<u8>> = match &self.reason {
                        Some(r) => Some(crate::message::copy_bytes(r.as_slice())),
                        None => None,
                    };
                    let mut replies = do_quit_leave(
                        &mut channel,
                        origin,
                        me.as_str(),
                        Command::PART,
                        reason,
                    );
                    out.append(&mut replies);
                    if channel.member_count() > 0 {
                        let ghost kept = channel;
                        server.attach_channel(channel);
                        proof {
                            assert(server.channels_view().last() == kept);
                            assert(kept.name_view() == pre_c.name_view());
                        }
                    }
                },
                None => {
                    out.push(
                        response_to(
                            origin,
                            me.as_str(),
                            ResponseCode::ERR_NOSUCHCHANNEL,
                            &[name.as_str(), "No such channel"],
                            host.as_str(),
                        ),
                    );
                },
            }
            ci = ci + 1;
        }
        out
    }
}

/// Splits a comma-separated list and validates every piece as a channel
/// name.
pub(crate) fn parse_channel_list(raw: &[u8]) -> (r: Option<Vec<String>>)
    ensures
        match r {
            Some(channels) => {
                &&& channels@.len() == split_byte(raw@, 44).len()
                &&& (forall|i: int|
                    0 <= i < channels@.len() ==> utf8_valid(
                        #[trigger] split_byte(raw@, 44)[i],
                    ) && channels@[i]@ == utf8_chars(split_byte(raw@, 44)[i])
                        && valid_channel_spec(channels@[i]@))
            },
            None => exists|i: int|
                0 <= i < split_byte(raw@, 44).len() && !(utf8_valid(
                    #[trigger] split_byte(raw@, 44)[i],
                ) && valid_channel_spec(utf8_chars(split_byte(raw@, 44)[i]))),
        },
{
    let pieces = crate::util::split_bytes(raw, 44);
    let mut channels: Vec<String> = Vec::new();
    let mut i: usize = 0;
    while i < pieces.len()
        invariant
            0 <= i <= pieces@.len(),
            pieces.deep_view() == split_byte(raw@, 44),
            pieces@.len() == split_byte(raw@, 44).len(),
            channels@.len() == i,
            forall|j: int|
                0 <= j < i ==> utf8_valid(#[trigger] split_byte(raw@, 44)[j])
                    && channels@[j]@ == utf8_chars(split_byte(raw@, 44)[j]) && valid_channel_spec(
                    channels@[j]@,
                ),
        decreases pieces@.len() - i,
    {
        proof {
            assert(pieces.deep_view()[i as int] == pieces@[i as int]@);
        }
        match crate::util::verify_channel(pieces[i].as_slice()) {
            Some(c) => {
                channels.push(c);
            },
            None => {
                return None;
            },
        }
        i = i + 1;
    }
    Some(channels)
}

/// Handles the QUIT command.
///
/// `QUIT [:<reason>]`
pub struct Quit {
    pub raw: RawMessage,
    pub reason: Option<Vec<u8>>,
}

impl Quit {
    /// Parses a QUIT message; the reason is optional.
    pub fn from_message(message: RawMessage) -> (r: Result<Quit, Option<RawMessage>>)
        ensures
            r is Ok,
    {
        let reason: Option<Vec<u8>> = {
            let params = message.params();
            if params.len() > 0 {
                Some(crate::message::copy_bytes(params[0].as_slice()))
            } else {
                None
            }
        };
        Ok(Quit { raw: message, reason })
    }

    /// Applies the QUIT command: the peer leaves the directories (its nick
    /// becoming free again), its departure is broadcast once per channel
    /// it was in, and its memberships are purged.  Channels left empty are
    /// dropped.
    pub fn invoke(self, server: &mut Server, origin: PeerId) -> (out: Vec<Envelope>)
        requires
            old(server).wf(),
        ensures
            final(server).wf(),
            final(server).host_view() == old(server).host_view(),
            !crate::server::has_user_id(final(server).users_view(), origin),
            crate::server::nicks_purged(
                old(server).nicks_view(),
                final(server).nicks_view(),
                origin,
            ),
            forall|e: int|
                0 <= e < out@.len() ==> (#[trigger] out@[e]).msg.command_view()
                    == Command::QUIT.to_bytes_spec(),
            forall|i: int|
                0 <= i < final(server).channels_view().len() ==> !crate::channel::has_member_id(
                    (#[trigger] final(server).channels_view()[i]).members_view(),
                    origin,
                ),
    {
        let me: String = match crate::registration::nick_of(server, &origin) {
            Some(n) => n,
            None => clone_string_str("*"),
        };
        server.close_connection(&origin);
        let mut out: Vec<Envelope> = Vec::new();
        let rounds = server.channel_count();
        let mut k: usize = 0;
        while k < rounds
            invariant
                0 <= k <= rounds,
                server.wf(),
                server.host_view() == old(server).host_view(),
                !crate::server::has_user_id(server.users_view(), origin),
                crate::server::nicks_purged(
                    old(server).nicks_view(),
                    server.nicks_view(),
                    origin,
                ),
                server.channels_view().len() >= rounds - k,
                forall|e: int|
                    0 <= e < out@.len() ==> (#[trigger] out@[e]).msg.command_view()
                        == Command::QUIT.to_bytes_spec(),
                // the channels already handled stand behind the untouched ones
                forall|i: int|
                    rounds - k <= i < server.channels_view().len()
                        ==> !crate::channel::has_member_id(
                        (#[trigger] server.channels_view()[i]).members_view(),
                        origin,
                    ),
            decreases rounds - k,
        {
            let ghost pre_channels = server.channels_view();
            let mut channel = server.detach_channel(0);
            let reason: Option<Vec<u8>> = match &self.reason {
                Some(r) => Some(crate::message::copy_bytes(r.as_slice())),
                None => None,
            };
            let mut replies = do_quit_leave(
                &mut channel,
                origin,
                me.as_str(),
                Command::QUIT,
                reason,
            );
            out.append(&mut replies);
            proof {
                assert(!crate::channel::has_member_id(channel.members_view(), origin));
                assert(forall|i: int|
                    0 <= i < server.channels_view().len() ==> #[trigger] server.channels_view()[i]
                        == pre_channels[i + 1]);
            }
            if channel.member_count() > 0 {
                server.attach_channel(channel);
            }
            k = k + 1;
        }
        out
    }
}

} // verus!
