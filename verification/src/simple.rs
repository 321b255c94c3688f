//! The TOPIC command.

use vstd::prelude::*;

use crate::channel::{has_member_id, member_idx, Channel};
use crate::cmd::{Command, ResponseCode};
use crate::con::{response_to, Envelope, PeerId};
use crate::member::clone_string_str;
use crate::message::RawMessage;
use crate::modes::ChannelMode;
use crate::server::Server;
use crate::util::{utf8_chars, utf8_valid, valid_channel_spec};

verus! {

/// Handles the TOPIC command.
///
/// `TOPIC <channel> [:<topic>]` -- with a topic it sets, without one it
/// shows.
pub struct Topic {
    pub raw: RawMessage,
    pub channel: String,
    pub topic: Option<Vec<u8>>,
}

impl Topic {
    /// Parses a TOPIC message: a valid channel name, then the new topic
    /// (empty when not given).
    pub fn from_message(message: RawMessage) -> (r: Result<Topic, Option<RawMessage>>)
        ensures
            match r {
                Ok(t) => {
                    &&& message.params_view().len() > 0
                    &&& utf8_valid(message.params_view()[0])
                    &&& t.channel@ == utf8_chars(message.params_view()[0])
                    &&& valid_channel_spec(t.channel@)
                    &&& (message.params_view().len() > 1 ==> (t.topic matches Some(tp)
                        && tp@ == message.params_view()[1]))
                    &&& (message.params_view().len() <= 1 ==> t.topic is None)
                },
                Err(_) => message.params_view().len() == 0 || !(utf8_valid(
                    message.params_view()[0],
                ) && valid_channel_spec(utf8_chars(message.params_view()[0]))),
            },
    {
        let parsed: Option<(String, Option<Vec<u8>>)> = {
            let params = message.params();
            proof {
                assert(params.deep_view().len() == params@.len());
            }
            if params.len() == 0 {
                None
            } else {
                proof {
                    assert(message.params_view()[0] =~= params@[0]@);
                }
                match crate::util::verify_channel(params[0].as_slice()) {
                    Some(channel) => {
                        let topic: Option<Vec<u8>> = if params.len() > 1 {
                            proof {
                                assert(message.params_view()[1] =~= params@[1]@);
                            }
                            Some(crate::message::copy_bytes(params[1].as_slice()))
                        } else {
                            None
                        };
                        Some((channel, topic))
                    },
                    None => None,
                }
            }
        };
        match parsed {
            Some((channel, topic)) => Ok(Topic { raw: message, channel, topic }),
            None => {
                let err = RawMessage::new(
                    Command::REPLY(ResponseCode::ERR_NOSUCHCHANNEL),
                    &["*", "Invalid channel name."],
                    None,
                );
                Err(Some(err))
            },
        }
    }

    /// Shows the channel topic to the asker: `RPL_NOTOPIC` while none is
    /// set, else `RPL_TOPIC` with the topic bytes.
    pub fn show(channel: &Channel, sender: PeerId, sender_nick: &str) -> (out: Vec<Envelope>)
        ensures
            out@.len() == 1,
            out@[0].to == sender,
            out@[0].msg.command_view() == Command::REPLY(
                if channel.topic_view().len() == 0 {
                    ResponseCode::RPL_NOTOPIC
                } else {
                    ResponseCode::RPL_TOPIC
                },
            ).to_bytes_spec(),
            channel.topic_view().len() > 0 ==> out@[0].msg.params_view().len() == 3
                && out@[0].msg.params_view()[2] == channel.topic_view(),
    {
        let mut out: Vec<Envelope> = Vec::new();
        if channel.topic().len() == 0 {
            let nick = clone_string_str(sender_nick);
            let sname = clone_string_str(channel.server_name());
            out.push(
                response_to(
                    sender,
                    nick.as_str(),
                    ResponseCode::RPL_NOTOPIC,
                    &[channel.name(), "No topic set."],
                    sname.as_str(),
                ),
            );
        } else {
            out.push(crate::join::topic_reply(channel, sender, sender_nick));
        }
        out
    }

    /// Sets the channel topic: refused for non-members, and for plain
    /// members when the topic is protected; otherwise the topic changes
    /// and the change is broadcast, prefixed by the setter's nick.
    pub fn set(channel: &mut Channel, sender: PeerId, sender_nick: &str, topic: Vec<u8>) -> (out:
        Vec<Envelope>)
        requires
            old(channel).wf(),
        ensures
            final(channel).wf(),
            !has_member_id(old(channel).members_view(), sender) ==> {
                &&& *final(channel) == *old(channel)
                &&& out@.len() == 1
                &&& out@[0].to == sender
                &&& out@[0].msg.command_view() == Command::REPLY(
                    ResponseCode::ERR_NOTONCHANNEL,
                ).to_bytes_spec()
            },
            has_member_id(old(channel).members_view(), sender) && old(channel).has_flag_spec(
                ChannelMode::TopicProtect,
            ) && !old(channel).members_view()[member_idx(old(channel).members_view(), sender)]
                .has_flag(ChannelMode::OperatorPrivilege) ==> {
                &&& *final(channel) == *old(channel)
                &&& out@.len() == 1
                &&& out@[0].to == sender
                &&& out@[0].msg.command_view() == Command::REPLY(
                    ResponseCode::ERR_CHANOPRIVSNEEDED,
                ).to_bytes_spec()
            },
            has_member_id(old(channel).members_view(), sender) && !(old(channel).has_flag_spec(
                ChannelMode::TopicProtect,
            ) && !old(channel).members_view()[member_idx(old(channel).members_view(), sender)]
                .has_flag(ChannelMode::OperatorPrivilege)) ==> {
                &&& final(channel).topic_view() == topic@
                &&& final(channel).eq_but_topic(old(channel))
                &&& out@.len() == old(channel).members_view().len()
                &&& (forall|k: int|
                    0 <= k < out@.len() ==> (#[trigger] out@[k]).to == old(
                        channel,
                    ).members_view()[k].id_spec() && out@[k].msg.command_view()
                        == Command::TOPIC.to_bytes_spec() && out@[k].msg.prefix_view() == Some(
                        crate::util::char_bytes(
                            old(channel).members_view()[member_idx(
                                old(channel).members_view(),
                                sender,
                            )].nick_view(),
                        ),
                    ) && out@[k].msg.params_view().len() == 2 && out@[k].msg.params_view()[0]
                        == crate::util::char_bytes(old(channel).name_view())
                        && out@[k].msg.params_view()[1] == topic@)
            },
    {
        match channel.member_index_with_id(&sender) {
            Some(i) => {
                let is_op = channel.members()[i].is_op();
                if channel.has_flag(ChannelMode::TopicProtect) && !is_op {
                    let mut out: Vec<Envelope> = Vec::new();
                    let nick = clone_string_str(sender_nick);
                    let sname = clone_string_str(channel.server_name());
                    out.push(
                        response_to(
                            sender,
                            nick.as_str(),
                            ResponseCode::ERR_CHANOPRIVSNEEDED,
                            &[channel.name(), "You are not a channel operator (channel is +t)."],
                            sname.as_str(),
                        ),
                    );
                    out
                } else {
                    let member_nick = crate::message::copy_bytes(
                        channel.members()[i].nick().as_bytes(),
                    );
                    let mut params: Vec<Vec<u8>> = Vec::new();
                    params.push(crate::message::copy_bytes(channel.name().as_bytes()));
                    params.push(crate::message::copy_bytes(topic.as_slice()));
                    let msg = RawMessage::new_raw(
                        Command::TOPIC,
                        params.as_slice(),
                        Some(member_nick.as_slice()),
                    );
                    let out = channel.broadcast(&msg);
                    proof {
                        broadcast use vstd::string::group_string_axioms;

                        assert(msg.params_view().len() == params.deep_view().len());
                        assert(msg.params_view()[0] == params.deep_view()[0]);
                        assert(msg.params_view()[1] == params.deep_view()[1]);
                        assert forall|k: int|
                            0 <= k < out@.len() implies (#[trigger] out@[k]).msg.prefix_view()
                            == msg.prefix_view() && out@[k].msg.params_view()
                            == msg.params_view() by {
                            assert(out@[k].msg.model() == msg.model());
                            assert(out@[k].msg.model().prefix == out@[k].msg.prefix_view());
                            assert(out@[k].msg.model().params == out@[k].msg.params_view());
                        }
                    }
                    channel.set_topic(topic);
                    out
                }
            },
            None => {
                let mut out: Vec<Envelope> = Vec::new();
                let nick = clone_string_str(sender_nick);
                let sname = clone_string_str(channel.server_name());
                out.push(
                    response_to(
                        sender,
                        nick.as_str(),
                        ResponseCode::ERR_NOTONCHANNEL,
                        &[channel.name(), "You are not on this channel."],
                        sname.as_str(),
                    ),
                );
                out
            },
        }
    }

    /// Applies the TOPIC command to the named channel: a missing channel
    /// earns `ERR_NOSUCHCHANNEL`; without a topic argument the topic is
    /// shown; with one it is set under the rules of [`Topic::set`], the
    /// reshaped channel standing at the end of the directory.
    pub fn invoke(self, server: &mut Server, origin: PeerId) -> (out: Vec<Envelope>)
        requires
            old(server).wf(),
        ensures
            final(server).wf(),
            final(server).host_view() == old(server).host_view(),
            final(server).users_view() == old(server).users_view(),
            final(server).nicks_view() == old(server).nicks_view(),
            !crate::server::has_channel_name(old(server).channels_view(), self.channel@) ==> {
                &&& final(server).channels_view() == old(server).channels_view()
                &&& out@.len() == 1
                &&& out@[0].to == origin
                &&& out@[0].msg.command_view() == Command::REPLY(
                    ResponseCode::ERR_NOSUCHCHANNEL,
                ).to_bytes_spec()
            },
            crate::server::has_channel_name(old(server).channels_view(), self.channel@)
                && self.topic is None ==> {
                let c = old(server).channels_view()[crate::server::channel_idx(
                    old(server).channels_view(),
                    self.channel@,
                )];
                &&& final(server).channels_view().to_multiset()
                    =~= old(server).channels_view().to_multiset()
                &&& out@.len() == 1
                &&& out@[0].to == origin
                &&& out@[0].msg.command_view() == Command::REPLY(
                    if c.topic_view().len() == 0 {
                        ResponseCode::RPL_NOTOPIC
                    } else {
                        ResponseCode::RPL_TOPIC
                    },
                ).to_bytes_spec()
            },
            crate::server::has_channel_name(old(server).channels_view(), self.channel@)
                && self.topic is Some ==> {
                let c = old(server).channels_view()[crate::server::channel_idx(
                    old(server).channels_view(),
                    self.channel@,
                )];
                let newc = final(server).channels_view().last();
                &&& final(server).channels_view().len() == old(server).channels_view().len()
                &&& (!has_member_id(c.members_view(), origin) ==> newc == c && out@.len() == 1
                    && out@[0].to == origin && out@[0].msg.command_view() == Command::REPLY(
                    ResponseCode::ERR_NOTONCHANNEL,
                ).to_bytes_spec())
                &&& (has_member_id(c.members_view(), origin) && c.has_flag_spec(
                    ChannelMode::TopicProtect,
                ) && !c.members_view()[member_idx(c.members_view(), origin)].has_flag(
                    ChannelMode::OperatorPrivilege,
                ) ==> newc == c && out@.len() == 1 && out@[0].to == origin
                    && out@[0].msg.command_view() == Command::REPLY(
                    ResponseCode::ERR_CHANOPRIVSNEEDED,
                ).to_bytes_spec())
                &&& (has_member_id(c.members_view(), origin) && !(c.has_flag_spec(
                    ChannelMode::TopicProtect,
                ) && !c.members_view()[member_idx(c.members_view(), origin)].has_flag(
                    ChannelMode::OperatorPrivilege,
                )) ==> newc.topic_view() == self.topic->Some_0@ && newc.eq_but_topic(&c) && out@.len()
                    == c.members_view().len() && (forall|k: int|
                    0 <= k < out@.len() ==> (#[trigger] out@[k]).to
                        == c.members_view()[k].id_spec() && out@[k].msg.command_view()
                        == Command::TOPIC.to_bytes_spec()))
            },
    {
        let host = clone_string_str(server.host());
        let me: String = match crate::registration::nick_of(server, &origin) {
            Some(n) => n,
            None => clone_string_str("*"),
        };
        let mut out: Vec<Envelope> = Vec::new();
        match server.channel_index(self.channel.as_str()) {
            Some(i) => {
                match self.topic {
                    None => {
                        let mut replies = Topic::show(server.channel_at(i), origin, me.as_str());
                        out.append(&mut replies);
                        proof {
                            assert(server.channels_view() == old(server).channels_view());
                        }
                    },
                    Some(tp) => {
                        let mut channel = server.detach_channel(i);
                        let mut replies = Topic::set(&mut channel, origin, me.as_str(), tp);
                        out.append(&mut replies);
                        server.attach_channel(channel);
                        proof {
                            assert(server.channels_view().last()
                                == server.channels_view()[server.channels_view().len() - 1]);
                        }
                    },
                }
            },
            None => {
                out.push(
                    response_to(
                        origin,
                        me.as_str(),
                        ResponseCode::ERR_NOSUCHCHANNEL,
                        &[self.channel.as_str(), "No such channel"],
                        host.as_str(),
                    ),
                );
            },
        }
        out
    }
}

} // verus!
