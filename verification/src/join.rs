//! The JOIN command.

use vstd::prelude::*;

use crate::channel::{any_mask_matches, has_member_id, has_member_nick, Channel};
use crate::cmd::{Command, ResponseCode};
use crate::con::{response_to, Envelope, PeerId};
use crate::member::{clone_string_str, Member};
use crate::message::RawMessage;
use crate::modes::ChannelMode;
use crate::server::{has_user_id, Server};
use crate::util::{split_byte, utf8_chars, utf8_valid, valid_channel_spec};

verus! {

/// The error a join runs into, if any: a wrong key, a matching ban mask
/// with no exception, a missing invitation on an invite-only channel, or a
/// full channel -- checked in that order.  `None` both for an admitted
/// joiner and for one already in the channel.
pub open spec fn join_denial(c: &Channel, m: &Member, password: Option<Seq<u8>>) -> Option<
    ResponseCode,
> {
    if c.password_view() is Some && password != c.password_view() {
        Some(ResponseCode::ERR_BADCHANNELKEY)
    } else if has_member_id(c.members_view(), m.id_spec()) {
        None
    } else if any_mask_matches(c.ban_masks_view(), m.mask_view()) && !any_mask_matches(
        c.except_masks_view(),
        m.mask_view(),
    ) {
        Some(ResponseCode::ERR_BANNEDFROMCHAN)
    } else if c.has_flag_spec(ChannelMode::InviteOnly) && !any_mask_matches(
        c.invite_masks_view(),
        m.mask_view(),
    ) {
        Some(ResponseCode::ERR_INVITEONLYCHAN)
    } else if c.has_flag_spec(ChannelMode::UserLimit) && (c.limit_spec() matches Some(l)
        && c.members_view().len() >= l) {
        Some(ResponseCode::ERR_CHANNELISFULL)
    } else {
        None
    }
}

/// Whether the join goes through: no denial, and the joiner is not in the
/// channel yet (nor its nick, which the server's nick directory already
/// guarantees).
pub open spec fn join_admitted(c: &Channel, m: &Member, password: Option<Seq<u8>>) -> bool {
    &&& join_denial(c, m, password) is None
    &&& !has_member_id(c.members_view(), m.id_spec())
    &&& !has_member_nick(c.members_view(), m.nick_view())
}

/// Builds the `RPL_TOPIC` reply carrying the channel's topic bytes.
pub fn topic_reply(channel: &Channel, to: PeerId, to_nick: &str) -> (r: crate::con::Envelope)
    ensures
        r.to == to,
        r.msg.command_view() == Command::REPLY(ResponseCode::RPL_TOPIC).to_bytes_spec(),
        r.msg.params_view().len() == 3,
        r.msg.params_view()[2] == channel.topic_view(),
{
    let mut params: Vec<Vec<u8>> = Vec::new();
    params.push(crate::message::copy_bytes(to_nick.as_bytes()));
    params.push(crate::message::copy_bytes(channel.name().as_bytes()));
    params.push(crate::message::copy_bytes(channel.topic().as_slice()));
    let sname = crate::message::copy_bytes(channel.server_name().as_bytes());
    let msg = RawMessage::new_raw(
        Command::REPLY(ResponseCode::RPL_TOPIC),
        params.as_slice(),
        Some(sname.as_slice()),
    );
    crate::con::Envelope { to, msg }
}

/// Founds a channel under the given name with the default flags
/// `TopicProtect` and `MemberOnly`, empty and unlocked.
pub fn fresh_channel(name: String, server_name: String) -> (c: Channel)
    ensures
        c.wf(),
        c.name_view() == name@,
        c.server_name_view() == server_name@,
        c.members_view().len() == 0,
        c.password_view() is None,
        c.limit_spec() is None,
        c.topic_view().len() == 0,
        c.ban_masks_view().len() == 0,
        c.except_masks_view().len() == 0,
        c.invite_masks_view().len() == 0,
        forall|x: ChannelMode|
            c.has_flag_spec(x) <==> (x == ChannelMode::TopicProtect || x
                == ChannelMode::MemberOnly),
{
    let mut c = Channel::new(name, server_name);
    c.add_flag(ChannelMode::TopicProtect);
    c.add_flag(ChannelMode::MemberOnly);
    c
}

/// Handles the JOIN command.
///
/// `JOIN <channel>{,<channel>} [<key>{,<key>}]`
pub struct Join {
    pub raw: RawMessage,
    pub targets: Vec<String>,
    pub passwords: Vec<Option<Vec<u8>>>,
}

impl Join {
    /// Admits one member to one channel, or answers why not.  The first
    /// joiner becomes channel creator and operator.  An admitted joiner's
    /// arrival is broadcast (the joiner included), followed by the topic
    /// reply (`RPL_NOTOPIC`, or `RPL_TOPIC` with the topic once one is
    /// set) and the names list, to the joiner alone.
    pub fn handle_join(channel: &mut Channel, member: Member, password: Option<Vec<u8>>) -> (out:
        Vec<Envelope>)
        requires
            old(channel).wf(),
            member.wf(),
        ensures
            final(channel).wf(),
            ({
                let pw = match password {
                    Some(p) => Some(p@),
                    None => None::<Seq<u8>>,
                };
                &&& (join_denial(old(channel), &member, pw) matches Some(code) ==> {
                    &&& *final(channel) == *old(channel)
                    &&& out@.len() == 1
                    &&& out@[0].to == member.id_spec()
                    &&& out@[0].msg.command_view() == Command::REPLY(code).to_bytes_spec()
                })
                &&& (join_denial(old(channel), &member, pw) is None && !join_admitted(
                    old(channel),
                    &member,
                    pw,
                ) ==> *final(channel) == *old(channel) && out@.len() == 0)
                &&& (join_admitted(old(channel), &member, pw) ==> {
                    let n = old(channel).members_view().len();
                    let joined = final(channel).members_view().last();
                    &&& final(channel).members_view().len() == n + 1
                    &&& (forall|k: int|
                        0 <= k < n ==> final(channel).members_view()[k] == old(channel).members_view()[k])
                    &&& joined.id_spec() == member.id_spec()
                    &&& joined.nick_view() == member.nick_view()
                    // the first joiner founds the channel: creator and operator
                    &&& (n == 0 ==> joined.has_flag(ChannelMode::ChannelCreator)
                        && joined.has_flag(ChannelMode::OperatorPrivilege))
                    &&& (n > 0 ==> forall|f: ChannelMode|
                        joined.has_flag(f) == member.has_flag(f))
                    &&& final(channel).eq_but_members(old(channel))
                    &&& out@.len() == 2 * n + 4
                    // the arrival, broadcast to everybody now in the channel
                    &&& (forall|k: int|
                        0 <= k < n + 1 ==> (#[trigger] out@[k]).to == final(channel).members_view()[k].id_spec() && out@[k].msg.command_view()
                            == Command::JOIN.to_bytes_spec() && out@[k].msg.prefix_view() == Some(
                            crate::util::char_bytes(member.nick_view()),
                        ))
                    // the topic reply and the names list, to the joiner
                    &&& (forall|k: int|
                        n + 1 <= k < out@.len() ==> (#[trigger] out@[k]).to == member.id_spec())
                    &&& (forall|k: int|
                        n + 2 <= k < out@.len() - 1 ==> (#[trigger] out@[k]).msg.command_view()
                            == Command::REPLY(ResponseCode::RPL_NAMREPLY).to_bytes_spec()
                            && out@[k].msg.params_view().len() == 3
                            && out@[k].msg.params_view()[1] == crate::util::char_bytes(
                            "= "@ + old(channel).name_view(),
                        ) && out@[k].msg.params_view()[2] == crate::util::char_bytes(
                            final(channel).members_view()[k - (n + 2)].decorated_nick_view(),
                        ))
                    &&& out@[n as int + 1].msg.command_view() == Command::REPLY(
                        if old(channel).topic_view().len() == 0 {
                            ResponseCode::RPL_NOTOPIC
                        } else {
                            ResponseCode::RPL_TOPIC
                        },
                    ).to_bytes_spec()
                    &&& out@.last().msg.command_view() == Command::REPLY(
                        ResponseCode::RPL_ENDOFNAMES,
                    ).to_bytes_spec()
                })
            }),
    {
        let member_id = member.id();
        let joiner_nick = clone_string_str(member.nick());
        let sname = clone_string_str(channel.server_name());
        let cname = clone_string_str(channel.name());

        // the key, checked first
        let pw_ok: bool = {
            let chan_pass = channel.password();
            match chan_pass {
                Some(cp) => match &password {
                    Some(p) => crate::cmd::eq_bytes(p.as_slice(), cp.as_slice()),
                    None => false,
                },
                None => true,
            }
        };
        if !pw_ok {
            let mut out: Vec<Envelope> = Vec::new();
            out.push(
                response_to(
                    member_id,
                    joiner_nick.as_str(),
                    ResponseCode::ERR_BADCHANNELKEY,
                    &[cname.as_str(), "Cannot join channel (+k)"],
                    sname.as_str(),
                ),
            );
            return out;
        }
        // silently done when already in the channel
        if channel.member_index_with_id(&member_id).is_some() {
            return Vec::new();
        }
        // banned, unless excepted
        if member.mask_matches_any(channel.ban_masks()) && !member.mask_matches_any(
            channel.except_masks(),
        ) {
            let mut out: Vec<Envelope> = Vec::new();
            out.push(
                response_to(
                    member_id,
                    joiner_nick.as_str(),
                    ResponseCode::ERR_BANNEDFROMCHAN,
                    &[cname.as_str(), "Cannot join channel (+b)"],
                    sname.as_str(),
                ),
            );
            return out;
        }
        // invite-only, without an invitation
        if channel.has_flag(ChannelMode::InviteOnly) && !member.mask_matches_any(
            channel.invite_masks(),
        ) {
            let mut out: Vec<Envelope> = Vec::new();
            out.push(
                response_to(
                    member_id,
                    joiner_nick.as_str(),
                    ResponseCode::ERR_INVITEONLYCHAN,
                    &[cname.as_str(), "Cannot join channel (+i)"],
                    sname.as_str(),
                ),
            );
            return out;
        }
        // full
        let full = channel.has_flag(ChannelMode::UserLimit) && match channel.limit() {
            Some(l) => channel.member_count() >= l,
            None => false,
        };
        if full {
            let mut out: Vec<Envelope> = Vec::new();
            out.push(
                response_to(
                    member_id,
                    joiner_nick.as_str(),
                    ResponseCode::ERR_CHANNELISFULL,
                    &[cname.as_str(), "Cannot join channel (+l)"],
                    sname.as_str(),
                ),
            );
            return out;
        }
        // the nick cache must be free too; the server's nick directory
        // already keeps nicks unique, so this never bites a real client
        if channel.member_index_with_nick(member.nick()).is_some() {
            return Vec::new();
        }
        // admitted: the first joiner founds the channel
        let mut member = member;
        if channel.member_count() == 0 {
            member.promote(ChannelMode::ChannelCreator);
            member.promote(ChannelMode::OperatorPrivilege);
        }
        let mut params: Vec<Vec<u8>> = Vec::new();
        params.push(crate::message::copy_bytes(cname.as_str().as_bytes()));
        let msg = RawMessage::new_raw(
            Command::JOIN,
            params.as_slice(),
            Some(joiner_nick.as_str().as_bytes()),
        );
        channel.add_member(member);
        let mut out = channel.broadcast(&msg);
        let ghost b0 = out@;
        proof {
            broadcast use vstd::string::group_string_axioms;

        }
        if channel.topic().len() == 0 {
            out.push(
                response_to(
                    member_id,
                    joiner_nick.as_str(),
                    ResponseCode::RPL_NOTOPIC,
                    &[cname.as_str(), "No topic set."],
                    sname.as_str(),
                ),
            );
        } else {
            out.push(topic_reply(channel, member_id, joiner_nick.as_str()));
        }
        // the names list, as the RFC asks after a join
        let ghost base = out@;
        let members = channel.members();
        let mut k: usize = 0;
        while k < members.len()
            invariant
                0 <= k <= members@.len(),
                out@.len() == base.len() + k,
                out@.subrange(0, base.len() as int) == base,
                cname@ == channel.name_view(),
                forall|j: int|
                    base.len() <= j < out@.len() ==> (#[trigger] out@[j]).to == member_id,
                forall|j: int|
                    base.len() <= j < out@.len() ==> (#[trigger] out@[j]).msg.command_view()
                        == Command::REPLY(ResponseCode::RPL_NAMREPLY).to_bytes_spec()
                        && out@[j].msg.params_view().len() == 3
                        && out@[j].msg.params_view()[1] == crate::util::char_bytes(
                        "= "@ + channel.name_view(),
                    ) && out@[j].msg.params_view()[2] == crate::util::char_bytes(
                        members@[j - base.len()].decorated_nick_view(),
                    ),
            decreases members@.len() - k,
        {
            let ghost pre = out@;
            let mut tmp = String::from_str("= ");
            tmp.append(cname.as_str());
            let env = response_to(
                member_id,
                joiner_nick.as_str(),
                ResponseCode::RPL_NAMREPLY,
                &[tmp.as_str(), members[k].decorated_nick()],
                sname.as_str(),
            );
            proof {
                assert(env.msg.params_view().len() == 3);
                assert(env.msg.params_view()[1] == crate::util::char_bytes(
                    "= "@ + channel.name_view(),
                ));
                assert(env.msg.params_view()[2] == crate::util::char_bytes(
                    members@[k as int].decorated_nick_view(),
                ));
            }
            out.push(env);
            proof {
                assert(out@.subrange(0, base.len() as int) =~= pre.subrange(
                    0,
                    base.len() as int,
                ));
            }
            k = k + 1;
        }
        let ghost pre = out@;
        out.push(
            response_to(
                member_id,
                joiner_nick.as_str(),
                ResponseCode::RPL_ENDOFNAMES,
                &[cname.as_str(), "End of /NAMES list"],
                sname.as_str(),
            ),
        );
        proof {
            assert(out@.subrange(0, base.len() as int) =~= pre.subrange(0, base.len() as int));
            assert forall|j: int| 0 <= j < base.len() implies out@[j] == base[j] by {
                assert(out@.subrange(0, base.len() as int)[j] == out@[j]);
            }
            assert(out@[b0.len() as int] == base[b0.len() as int]);
            assert(base[b0.len() as int].to == member_id);
            assert(base[b0.len() as int].msg.command_view() == Command::REPLY(
                if old(channel).topic_view().len() == 0 {
                    ResponseCode::RPL_NOTOPIC
                } else {
                    ResponseCode::RPL_TOPIC
                },
            ).to_bytes_spec());
            assert forall|k: int|
                0 <= k < b0.len() implies (#[trigger] out@[k]).to
                == channel.members_view()[k].id_spec() && out@[k].msg.command_view()
                == Command::JOIN.to_bytes_spec() && out@[k].msg.prefix_view() == Some(
                crate::util::char_bytes(joiner_nick@),
            ) by {
                assert(out@[k] == base[k]);
                assert(base[k] == b0[k]);
                assert(b0[k].msg.model() == msg.model());
                assert(b0[k].msg.model().command == b0[k].msg.command_view());
                assert(b0[k].msg.model().prefix == b0[k].msg.prefix_view());
                assert(msg.model().command == msg.command_view());
                assert(msg.model().prefix == msg.prefix_view());
            }
        }
        out
    }

    /// Parses a JOIN message: the comma-separated channels, then the
    /// comma-separated keys lined up with them.
    pub fn from_message(message: RawMessage) -> (r: Result<Join, Option<RawMessage>>)
        ensures
            match r {
                Ok(j) => {
                    &&& message.params_view().len() > 0
                    &&& j.targets@.len() == split_byte(message.params_view()[0], 44).len()
                    &&& j.passwords@.len() == j.targets@.len()
                    &&& (forall|i: int|
                        0 <= i < j.targets@.len() ==> utf8_valid(
                            #[trigger] split_byte(message.params_view()[0], 44)[i],
                        ) && j.targets@[i]@ == utf8_chars(
                            split_byte(message.params_view()[0], 44)[i],
                        ) && valid_channel_spec(j.targets@[i]@))
                },
                Err(_) => message.params_view().len() == 0 || exists|i: int|
                    0 <= i < split_byte(message.params_view()[0], 44).len() && !(utf8_valid(
                        #[trigger] split_byte(message.params_view()[0], 44)[i],
                    ) && valid_channel_spec(
                        utf8_chars(split_byte(message.params_view()[0], 44)[i]),
                    )),
            },
    {
        let parsed: Option<(Vec<String>, Vec<Option<Vec<u8>>>)> = {
            let params = message.params();
            proof {
                assert(params.deep_view().len() == params@.len());
            }
            if params.len() == 0 {
                None
            } else {
                proof {
                    assert(message.params_view()[0] =~= params@[0]@);
                }
                match crate::part::parse_channel_list(params[0].as_slice()) {
                    Some(targets) => {
                        let keys: Vec<Vec<u8>> = if params.len() > 1 {
                            crate::util::split_bytes(params[1].as_slice(), 44)
                        } else {
                            Vec::new()
                        };
                        let mut passwords: Vec<Option<Vec<u8>>> = Vec::new();
                        let mut i: usize = 0;
                        while i < targets.len()
                            invariant
                                0 <= i <= targets@.len(),
                                passwords@.len() == i,
                            decreases targets@.len() - i,
                        {
                            if i < keys.len() {
                                passwords.push(
                                    Some(crate::message::copy_bytes(keys[i].as_slice())),
                                );
                            } else {
                                passwords.push(None);
                            }
                            i = i + 1;
                        }
                        Some((targets, passwords))
                    },
                    None => {
                        return Err(
                            Some(
                                RawMessage::new(
                                    Command::REPLY(ResponseCode::ERR_NOSUCHCHANNEL),
                                    &["*", "Invalid channel name."],
                                    None,
                                ),
                            ),
                        );
                    },
                }
            }
        };
        match parsed {
            Some((targets, passwords)) => Ok(Join { raw: message, targets, passwords }),
            None => Err(
                Some(
                    RawMessage::new(
                        Command::REPLY(ResponseCode::ERR_NEEDMOREPARAMS),
                        &["*", "JOIN", "no params given"],
                        None,
                    ),
                ),
            ),
        }
    }

    /// Applies the JOIN command: each listed channel is created with the
    /// default flags `TopicProtect` and `MemberOnly` when missing, then
    /// the join is tried against it.  A registered user founding a fresh
    /// channel always gets in, as its only member, with creator and
    /// operator rights.
    pub fn invoke(self, server: &mut Server, origin: PeerId) -> (out: Vec<Envelope>)
        requires
            old(server).wf(),
        ensures
            final(server).wf(),
            final(server).host_view() == old(server).host_view(),
            final(server).users_view() == old(server).users_view(),
            final(server).nicks_view() == old(server).nicks_view(),
            self.targets@.len() == 1 && has_user_id(old(server).users_view(), origin)
                && !crate::server::has_channel_name(
                old(server).channels_view(),
                self.targets@[0]@,
            ) ==> {
                let newc = final(server).channels_view().last();
                &&& crate::server::has_channel_name(
                    final(server).channels_view(),
                    self.targets@[0]@,
                )
                &&& final(server).channels_view().len() == old(server).channels_view().len() + 1
                &&& newc.name_view() == self.targets@[0]@
                &&& newc.members_view().len() == 1
                &&& newc.members_view()[0].id_spec() == origin
                &&& newc.members_view()[0].has_flag(ChannelMode::ChannelCreator)
                &&& newc.members_view()[0].has_flag(ChannelMode::OperatorPrivilege)
                &&& (forall|x: ChannelMode|
                    newc.has_flag_spec(x) <==> (x == ChannelMode::TopicProtect || x
                        == ChannelMode::MemberOnly))
            },
            // joining an existing channel reshapes it in place: either the
            // join was turned away (or a no-op) and the channel is as it
            // was, or the joiner stands appended as its newest member
            self.targets@.len() == 1 && has_user_id(old(server).users_view(), origin)
                && crate::server::has_channel_name(
                old(server).channels_view(),
                self.targets@[0]@,
            ) ==> {
                let c = old(server).channels_view()[crate::server::channel_idx(
                    old(server).channels_view(),
                    self.targets@[0]@,
                )];
                let newc = final(server).channels_view().last();
                &&& final(server).channels_view().len() == old(server).channels_view().len()
                &&& newc.name_view() == c.name_view()
                &&& (newc == c || (newc.eq_but_members(&c) && newc.members_view().len()
                    == c.members_view().len() + 1 && (forall|k: int|
                    0 <= k < c.members_view().len() ==> #[trigger] newc.members_view()[k]
                        == c.members_view()[k]) && newc.members_view().last().id_spec()
                    == origin))
            },
            // no channel is ever lost to a JOIN, and a registered user's
            // every listed target ends up in the directory
            forall|n: Seq<char>|
                crate::server::has_channel_name(old(server).channels_view(), n)
                    ==> crate::server::has_channel_name(final(server).channels_view(), n),
            has_user_id(old(server).users_view(), origin) ==> forall|i: int|
                0 <= i < self.targets@.len() ==> crate::server::has_channel_name(
                    final(server).channels_view(),
                    #[trigger] self.targets@[i]@,
                ),
    {
        let mut out: Vec<Envelope> = Vec::new();
        let host = clone_string_str(server.host());
        let mut ci: usize = 0;
        while ci < self.targets.len()
            invariant
                0 <= ci <= self.targets@.len(),
                server.wf(),
                server.host_view() == old(server).host_view(),
                server.users_view() == old(server).users_view(),
                server.nicks_view() == old(server).nicks_view(),
                ci == 0 ==> *server == *old(server),
                forall|n: Seq<char>|
                    crate::server::has_channel_name(old(server).channels_view(), n)
                        ==> crate::server::has_channel_name(server.channels_view(), n),
                has_user_id(old(server).users_view(), origin) ==> forall|j: int|
                    0 <= j < ci ==> crate::server::has_channel_name(
                        server.channels_view(),
                        #[trigger] self.targets@[j]@,
                    ),
                self.targets@.len() == 1 && ci == 1 && has_user_id(
                    old(server).users_view(),
                    origin,
                ) && !crate::server::has_channel_name(
                    old(server).channels_view(),
                    self.targets@[0]@,
                ) ==> {
                    let newc = server.channels_view().last();
                    &&& crate::server::has_channel_name(
                        server.channels_view(),
                        self.targets@[0]@,
                    )
                    &&& server.channels_view().len() == old(server).channels_view().len() + 1
                    &&& newc.name_view() == self.targets@[0]@
                    &&& newc.members_view().len() == 1
                    &&& newc.members_view()[0].id_spec() == origin
                    &&& newc.members_view()[0].has_flag(ChannelMode::ChannelCreator)
                    &&& newc.members_view()[0].has_flag(ChannelMode::OperatorPrivilege)
                    &&& (forall|x: ChannelMode|
                        newc.has_flag_spec(x) <==> (x == ChannelMode::TopicProtect || x
                            == ChannelMode::MemberOnly))
                },
                self.targets@.len() == 1 && ci == 1 && has_user_id(
                    old(server).users_view(),
                    origin,
                ) && crate::server::has_channel_name(
                    old(server).channels_view(),
                    self.targets@[0]@,
                ) ==> {
                    let c = old(server).channels_view()[crate::server::channel_idx(
                        old(server).channels_view(),
                        self.targets@[0]@,
                    )];
                    let newc = server.channels_view().last();
                    &&& server.channels_view().len() == old(server).channels_view().len()
                    &&& newc.name_view() == c.name_view()
                    &&& (newc == c || (newc.eq_but_members(&c) && newc.members_view().len()
                        == c.members_view().len() + 1 && (forall|k: int|
                        0 <= k < c.members_view().len() ==> #[trigger] newc.members_view()[k]
                            == c.members_view()[k]) && newc.members_view().last().id_spec()
                        == origin))
                },
            decreases self.targets@.len() - ci,
        {
            let name = &self.targets[ci];
            // only a registered user can join; its record makes the member
            let snapshot = match server.user_index(&origin) {
                Some(ui) => Some(server.user_at(ui).snapshot()),
                None => None,
            };
            match snapshot {
                Some(peer) => {
                    let member = Member::new(&peer);
                    let password: Option<Vec<u8>> = if ci < self.passwords.len() {
                        match &self.passwords[ci] {
                            Some(p) => Some(crate::message::copy_bytes(p.as_slice())),
                            None => None,
                        }
                    } else {
                        None
                    };
                    let ghost pre_iter = server.channels_view();
                    let ghost mut was_fresh = false;
                    let mut channel = match server.channel_index(name.as_str()) {
                        Some(i) => server.detach_channel(i),
                        None => {
                            proof {
                                was_fresh = true;
                            }
                            fresh_channel(
                                clone_string_str(name.as_str()),
                                clone_string_str(host.as_str()),
                            )
                        },
                    };
                    let ghost pre_join = channel;
                    let ghost pwv = match &password {
                        Some(p) => Some(p@),
                        None => None::<Seq<u8>>,
                    };
                    proof {
                        if was_fresh {
                            assert(pre_join.members_view().len() == 0);
                            assert(pre_join.password_view() is None);
                            assert(!pre_join.has_flag_spec(ChannelMode::InviteOnly));
                            assert(!pre_join.has_flag_spec(ChannelMode::UserLimit));
                            assert(join_denial(&pre_join, &member, pwv) is None);
                            assert(join_admitted(&pre_join, &member, pwv));
                        }
                    }
                    let mut replies = Join::handle_join(&mut channel, member, password);
                    out.append(&mut replies);
                    proof {
                        // the join never shrinks the channel
                        if join_admitted(&pre_join, &member, pwv) {
                            assert(channel.members_view().len() == pre_join.members_view().len()
                                + 1);
                        } else {
                            assert(channel == pre_join);
                        }
                        assert(channel.name_view() == pre_join.name_view());
                        if was_fresh {
                            assert(channel.eq_but_members(&pre_join));
                            assert(channel.flags_spec() == pre_join.flags_spec());
                            assert(channel.members_view().len() == 1);
                            assert forall|x: ChannelMode|
                                channel.has_flag_spec(x) <==> (x == ChannelMode::TopicProtect
                                    || x == ChannelMode::MemberOnly) by {
                                assert(pre_join.has_flag_spec(x) <==> (x
                                    == ChannelMode::TopicProtect || x
                                    == ChannelMode::MemberOnly));
                                assert(channel.flags_spec().has(x) == pre_join.flags_spec().has(
                                    x,
                                ));
                            }
                        }
                    }
                    if channel.member_count() > 0 {
                        if server.channel_index(channel.name()).is_none() {
                            let ghost joined = channel;
                            server.attach_channel(channel);
                            proof {
                                assert(server.channels_view().last() == joined);
                                assert(server.channels_view()[server.channels_view().len()
                                    - 1].name_view() == name@);
                                assert(crate::server::has_channel_name(
                                    server.channels_view(),
                                    name@,
                                ));
                                // everything that was in the directory at the
                                // top of this iteration still is
                                assert forall|n: Seq<char>|
                                    crate::server::has_channel_name(
                                        pre_iter,
                                        n,
                                    ) implies crate::server::has_channel_name(
                                    server.channels_view(),
                                    n,
                                ) by {
                                    let w = choose|w: int|
                                        0 <= w < pre_iter.len() && (#[trigger] pre_iter[w]).name_view()
                                            == n;
                                    if was_fresh {
                                        assert(server.channels_view()[w].name_view() == n);
                                    } else {
                                        let di = crate::server::channel_idx(pre_iter, name@);
                                        if w == di {
                                            assert(server.channels_view().last().name_view()
                                                == n);
                                        } else if w < di {
                                            assert(server.channels_view()[w].name_view() == n);
                                        } else {
                                            assert(server.channels_view()[w - 1].name_view()
                                                == n);
                                        }
                                    }
                                }
                            }
                        }
                    }
                },
                None => {},
            }
            ci = ci + 1;
        }
        out
    }
}

} // verus!
