//! The MODE command.

use vstd::prelude::*;

use crate::channel::Channel;
use crate::cmd::{Command, ResponseCode};
use crate::con::{response_to, Envelope, PeerId};
use crate::member::clone_string_str;
use crate::message::RawMessage;
use crate::modes::{modes_do, Action, ChannelMode, ModeChange};
use crate::server::Server;
use crate::util::{utf8_chars, utf8_valid, lossy_string, Receiver};

verus! {

/// Whether every byte is a decimal digit.
pub open spec fn all_digits(s: Seq<u8>) -> bool {
    forall|i: int| 0 <= i < s.len() ==> 48 <= #[trigger] s[i] <= 57
}

/// The number the decimal digits spell.
pub open spec fn dec_val(s: Seq<u8>) -> int
    decreases s.len(),
{
    if s.len() == 0 {
        0
    } else {
        dec_val(s.drop_last()) * 10 + (s.last() - 48)
    }
}

/// Parses a decimal number; refused when empty, not all digits, or too
/// large for `usize`.
pub fn parse_decimal(s: &[u8]) -> (r: Option<usize>)
    ensures
        r matches Some(v) ==> s@.len() > 0 && all_digits(s@) && v == dec_val(s@),
        r is None ==> s@.len() == 0 || !all_digits(s@) || dec_val(s@) > usize::MAX,
{
    if s.len() == 0 {
        return None;
    }
    let q = usize::MAX / 10;
    let rem = usize::MAX % 10;
    proof {
        vstd::arithmetic::div_mod::lemma_fundamental_div_mod(usize::MAX as int, 10);
    }
    let mut value: usize = 0;
    let mut i: usize = 0;
    while i < s.len()
        invariant
            0 <= i <= s@.len(),
            q == usize::MAX / 10,
            rem == usize::MAX % 10,
            usize::MAX as int == 10 * (q as int) + (rem as int),
            0 <= rem < 10,
            value == dec_val(s@.subrange(0, i as int)),
            all_digits(s@.subrange(0, i as int)),
        decreases s@.len() - i,
    {
        let b = s[i];
        if b < 48 || b > 57 {
            proof {
                assert(!all_digits(s@));
            }
            return None;
        }
        let d = (b - 48) as usize;
        proof {
            assert(s@.subrange(0, i as int + 1).drop_last() =~= s@.subrange(0, i as int));
            assert(s@.subrange(0, i as int + 1).last() == s@[i as int]);
        }
        if value > q || (value == q && d > rem) {
            proof {
                assert(value * 10 + d > usize::MAX) by (nonlinear_arith)
                    requires
                        value > q || (value == q && d > rem),
                        usize::MAX as int == 10 * (q as int) + (rem as int),
                        d <= 9,
                        0 <= rem < 10,
                ;
                assert(dec_val(s@.subrange(0, i as int + 1)) > usize::MAX);
                if all_digits(s@) {
                    lemma_dec_val_monotonic(s@, i as int + 1);
                }
            }
            return None;
        }
        proof {
            assert(value * 10 + d <= usize::MAX) by (nonlinear_arith)
                requires
                    !(value > q || (value == q && d > rem)),
                    usize::MAX as int == 10 * (q as int) + (rem as int),
                    d <= 9,
                    0 <= rem < 10,
            ;
        }
        value = value * 10 + d;
        i = i + 1;
    }
    proof {
        assert(s@.subrange(0, s@.len() as int) =~= s@);
    }
    Some(value)
}

/// A prefix of a digit string never spells a larger number than the whole.
proof fn lemma_dec_val_monotonic(s: Seq<u8>, k: int)
    requires
        0 <= k <= s.len(),
        all_digits(s),
    ensures
        dec_val(s.subrange(0, k)) <= dec_val(s),
    decreases s.len() - k,
{
    if k < s.len() {
        lemma_dec_val_monotonic(s, k + 1);
        assert(s.subrange(0, k + 1).drop_last() =~= s.subrange(0, k));
        assert(s.subrange(0, k + 1).last() == s[k]);
        assert(dec_val(s.subrange(0, k)) >= 0) by {
            lemma_dec_val_nonneg(s.subrange(0, k));
        }
        assert(dec_val(s.subrange(0, k + 1)) == dec_val(s.subrange(0, k)) * 10 + (s[k] - 48));
        assert(dec_val(s.subrange(0, k)) <= dec_val(s.subrange(0, k)) * 10 + (s[k] - 48))
            by (nonlinear_arith)
            requires
                dec_val(s.subrange(0, k)) >= 0,
                0 <= s[k] - 48,
        ;
    } else {
        assert(s.subrange(0, k) =~= s);
    }
}

/// A digit string spells a number, never a negative.
proof fn lemma_dec_val_nonneg(s: Seq<u8>)
    requires
        all_digits(s),
    ensures
        dec_val(s) >= 0,
    decreases s.len(),
{
    if s.len() > 0 {
        assert(all_digits(s.drop_last()));
        lemma_dec_val_nonneg(s.drop_last());
    }
}

/// A MODE broadcast reaching every member of `post`, in joining order.
pub open spec fn mode_broadcast_shape(post: &Channel, out: Seq<Envelope>) -> bool {
    &&& out.len() == post.members_view().len()
    &&& (forall|k: int|
        0 <= k < out.len() ==> (#[trigger] out[k]).to == post.members_view()[k].id_spec()
            && out[k].msg.command_view() == Command::MODE.to_bytes_spec())
}

/// Everything of the channel but the limit and the flags is unchanged.
pub open spec fn eq_but_limit_and_flags(post: &Channel, pre: &Channel) -> bool {
    &&& post.name_view() == pre.name_view()
    &&& post.server_name_view() == pre.server_name_view()
    &&& post.topic_view() == pre.topic_view()
    &&& post.password_view() == pre.password_view()
    &&& post.members_view() == pre.members_view()
    &&& post.nicknames_view() == pre.nicknames_view()
    &&& post.ban_masks_view() == pre.ban_masks_view()
    &&& post.except_masks_view() == pre.except_masks_view()
    &&& post.invite_masks_view() == pre.invite_masks_view()
}

/// What one parsed mode change does to the channel and what it emits:
/// a flag is set or cleared and the change broadcast unless it was a
/// no-op; `o`/`v` move a member's privilege, echoed when the member
/// exists; `k` sets or clears the key; `l` sets or clears the limit with
/// its gate flag; `b`/`e`/`I` move a mask (echoed when the set changed)
/// or, without one, list the set to the sender; the creator flag never
/// moves.
pub open spec fn mode_change_applied(
    pre: &Channel,
    post: &Channel,
    out: Seq<Envelope>,
    action: Action,
    mode: ChannelMode,
    param: Option<Seq<u8>>,
    sender: PeerId,
) -> bool {
    match mode {
        ChannelMode::AnonChannel
        | ChannelMode::InviteOnly
        | ChannelMode::Moderated
        | ChannelMode::MemberOnly
        | ChannelMode::Quiet
        | ChannelMode::Private
        | ChannelMode::Secret
        | ChannelMode::ReOpFlag
        | ChannelMode::TopicProtect => match action {
            Action::Add => {
                &&& post.has_flag_spec(mode)
                &&& (forall|x: ChannelMode|
                    x != mode ==> post.has_flag_spec(x) == pre.has_flag_spec(x))
                &&& post.eq_but_flags(pre)
                &&& (pre.has_flag_spec(mode) ==> out.len() == 0)
                &&& (!pre.has_flag_spec(mode) ==> mode_broadcast_shape(post, out))
            },
            Action::Remove => {
                &&& !post.has_flag_spec(mode)
                &&& (forall|x: ChannelMode|
                    x != mode ==> post.has_flag_spec(x) == pre.has_flag_spec(x))
                &&& post.eq_but_flags(pre)
                &&& (!pre.has_flag_spec(mode) ==> out.len() == 0)
                &&& (pre.has_flag_spec(mode) ==> mode_broadcast_shape(post, out))
            },
            Action::Show => *post == *pre && out.len() == 0,
        },
        ChannelMode::OperatorPrivilege | ChannelMode::VoicePrivilege => {
            if action == Action::Show || param is None || !crate::util::utf8_valid(
                param->Some_0,
            ) {
                *post == *pre && out.len() == 0
            } else {
                let nick = crate::util::utf8_chars(param->Some_0);
                &&& post.eq_but_members(pre)
                &&& post.members_view().len() == pre.members_view().len()
                &&& (forall|k: int|
                    0 <= k < post.members_view().len() && (#[trigger] post.members_view()[k]).nick_view()
                        != nick ==> post.members_view()[k] == pre.members_view()[k])
                &&& (forall|k: int|
                    0 <= k < post.members_view().len() && (#[trigger] post.members_view()[k]).nick_view()
                        == nick ==> post.members_view()[k].has_flag(mode) == (action
                        == Action::Add) && post.members_view()[k].id_spec()
                        == pre.members_view()[k].id_spec())
                &&& (!crate::channel::has_member_nick(pre.members_view(), nick) ==> out.len()
                    == 0)
                &&& (crate::channel::has_member_nick(pre.members_view(), nick)
                    ==> mode_broadcast_shape(post, out))
            }
        },
        ChannelMode::ChannelKey => match action {
            Action::Add => {
                if param is Some {
                    &&& post.password_view() == Some(param->Some_0)
                    &&& post.eq_but_password(pre)
                    &&& mode_broadcast_shape(post, out)
                } else {
                    *post == *pre && out.len() == 0
                }
            },
            Action::Remove => {
                &&& post.password_view() is None
                &&& post.eq_but_password(pre)
                &&& mode_broadcast_shape(post, out)
            },
            Action::Show => *post == *pre && out.len() == 0,
        },
        ChannelMode::UserLimit => match action {
            Action::Add => {
                if param matches Some(d) && d.len() > 0 && all_digits(d) && dec_val(d)
                    <= usize::MAX {
                    &&& post.limit_spec() matches Some(l) && l == dec_val(param->Some_0)
                    &&& post.has_flag_spec(ChannelMode::UserLimit)
                    &&& (forall|x: ChannelMode|
                        x != ChannelMode::UserLimit ==> post.has_flag_spec(x)
                            == pre.has_flag_spec(x))
                    &&& eq_but_limit_and_flags(post, pre)
                    &&& mode_broadcast_shape(post, out)
                } else {
                    *post == *pre && out.len() == 0
                }
            },
            Action::Remove => {
                &&& post.limit_spec() is None
                &&& !post.has_flag_spec(ChannelMode::UserLimit)
                &&& (forall|x: ChannelMode|
                    x != ChannelMode::UserLimit ==> post.has_flag_spec(x) == pre.has_flag_spec(
                        x,
                    ))
                &&& eq_but_limit_and_flags(post, pre)
                &&& mode_broadcast_shape(post, out)
            },
            Action::Show => *post == *pre && out.len() == 0,
        },
        ChannelMode::BanMask | ChannelMode::ExceptionMask | ChannelMode::InvitationMask => {
            let masks_pre = match mode {
                ChannelMode::BanMask => pre.ban_masks_view(),
                ChannelMode::ExceptionMask => pre.except_masks_view(),
                _ => pre.invite_masks_view(),
            };
            let masks_post = match mode {
                ChannelMode::BanMask => post.ban_masks_view(),
                ChannelMode::ExceptionMask => post.except_masks_view(),
                _ => post.invite_masks_view(),
            };
            match param {
                Some(m) => {
                    if !crate::util::utf8_valid(m) {
                        *post == *pre && out.len() == 0
                    } else {
                        let mask = crate::util::utf8_chars(m);
                        &&& post.eq_but_masks(pre)
                &&& (action == Action::Add ==> crate::channel::mask_list_has(masks_post, mask)
                    && (crate::channel::mask_list_has(masks_pre, mask) ==> out.len() == 0
                        && masks_post == masks_pre) && (!crate::channel::mask_list_has(
                    masks_pre,
                    mask,
                ) ==> mode_broadcast_shape(post, out)))
                &&& (action == Action::Remove ==> !crate::channel::mask_list_has(
                    masks_post,
                    mask,
                ) && (!crate::channel::mask_list_has(masks_pre, mask) ==> out.len() == 0
                    && masks_post == masks_pre) && (crate::channel::mask_list_has(
                    masks_pre,
                    mask,
                ) ==> mode_broadcast_shape(post, out)))
                        &&& (action == Action::Show ==> *post == *pre && out.len() == 0)
                    }
                },
                None => {
                    // no mask: the stored list is shown to the sender,
                    // line k carrying mask k
                    &&& *post == *pre
                &&& out.len() == masks_pre.len() + 1
                &&& (forall|k: int| 0 <= k < out.len() ==> (#[trigger] out[k]).to == sender)
                &&& out.last().msg.command_view() == Command::REPLY(
                    match mode {
                        ChannelMode::BanMask => ResponseCode::RPL_ENDOFBANLIST,
                        ChannelMode::ExceptionMask => ResponseCode::RPL_ENDOFEXCEPTLIST,
                        _ => ResponseCode::RPL_ENDOFINVITELIST,
                    },
                ).to_bytes_spec()
                &&& out.last().msg.params_view().len() == 2
                &&& out.last().msg.params_view()[1] == crate::util::char_bytes(pre.name_view())
                    &&& (forall|k: int|
                        0 <= k < masks_pre.len() ==> (#[trigger] out[k]).msg.command_view()
                            == Command::REPLY(
                            match mode {
                                ChannelMode::BanMask => ResponseCode::RPL_BANLIST,
                                ChannelMode::ExceptionMask => ResponseCode::RPL_EXCEPTLIST,
                                _ => ResponseCode::RPL_INVITELIST,
                            },
                        ).to_bytes_spec() && out[k].msg.params_view().len() == 3
                            && out[k].msg.params_view()[1] == crate::util::char_bytes(
                            pre.name_view(),
                        ) && out[k].msg.params_view()[2] == crate::util::char_bytes(
                            masks_pre[k]@,
                        ))
                },
            }
        },
        ChannelMode::ChannelCreator => *post == *pre && out.len() == 0,
    }
}

/// The changes applied left to right: each one relates an intermediate
/// channel state to the next as [`mode_change_applied`] says, and emits
/// its own stretch of the output.
pub open spec fn mode_changes_applied(
    pre: &Channel,
    post: &Channel,
    out: Seq<Envelope>,
    changes: Seq<(Action, ChannelMode, Option<Seq<u8>>)>,
    sender: PeerId,
) -> bool
    decreases changes.len(),
{
    if changes.len() == 0 {
        *post == *pre && out.len() == 0
    } else {
        exists|mid: Channel, k: int|
            0 <= k <= out.len() && #[trigger] mode_change_applied(
                pre,
                &mid,
                out.subrange(0, k),
                changes[0].0,
                changes[0].1,
                changes[0].2,
                sender,
            ) && mode_changes_applied(
                &mid,
                post,
                out.subrange(k, out.len() as int),
                changes.drop_first(),
                sender,
            )
    }
}

/// Extending an applied run by one more change appends that change's
/// effect and output.
proof fn lemma_mode_changes_snoc(
    pre: Channel,
    mid: Channel,
    post: Channel,
    o1: Seq<Envelope>,
    o2: Seq<Envelope>,
    cs: Seq<(Action, ChannelMode, Option<Seq<u8>>)>,
    ch: (Action, ChannelMode, Option<Seq<u8>>),
    sender: PeerId,
)
    requires
        mode_changes_applied(&pre, &mid, o1, cs, sender),
        mode_change_applied(&mid, &post, o2, ch.0, ch.1, ch.2, sender),
    ensures
        mode_changes_applied(&pre, &post, o1 + o2, cs.push(ch), sender),
    decreases cs.len(),
{
    if cs.len() == 0 {
        assert(mid == pre);
        assert((o1 + o2).subrange(0, o2.len() as int) =~= o2);
        assert((o1 + o2).subrange(o2.len() as int, (o1 + o2).len() as int)
            =~= Seq::<Envelope>::empty());
        assert(cs.push(ch)[0] == ch);
        assert(cs.push(ch).drop_first() =~= Seq::<(Action, ChannelMode, Option<Seq<u8>>)>::empty());
        assert(mode_change_applied(
            &pre,
            &post,
            (o1 + o2).subrange(0, o2.len() as int),
            cs.push(ch)[0].0,
            cs.push(ch)[0].1,
            cs.push(ch)[0].2,
            sender,
        ));
        assert(mode_changes_applied(
            &post,
            &post,
            (o1 + o2).subrange(o2.len() as int, (o1 + o2).len() as int),
            cs.push(ch).drop_first(),
            sender,
        ));
        assert(mode_changes_applied(&pre, &post, o1 + o2, cs.push(ch), sender));
    } else {
        let (m1, k) = choose|m1: Channel, k: int|
            0 <= k <= o1.len() && #[trigger] mode_change_applied(
                &pre,
                &m1,
                o1.subrange(0, k),
                cs[0].0,
                cs[0].1,
                cs[0].2,
                sender,
            ) && mode_changes_applied(
                &m1,
                &mid,
                o1.subrange(k, o1.len() as int),
                cs.drop_first(),
                sender,
            );
        lemma_mode_changes_snoc(
            m1,
            mid,
            post,
            o1.subrange(k, o1.len() as int),
            o2,
            cs.drop_first(),
            ch,
            sender,
        );
        assert(o1.subrange(k, o1.len() as int) + o2 =~= (o1 + o2).subrange(
            k,
            (o1 + o2).len() as int,
        ));
        assert(cs.drop_first().push(ch) =~= cs.push(ch).drop_first());
        assert((o1 + o2).subrange(0, k) =~= o1.subrange(0, k));
        assert(cs.push(ch)[0] == cs[0]);
        assert(mode_change_applied(
            &pre,
            &m1,
            (o1 + o2).subrange(0, k),
            cs.push(ch)[0].0,
            cs.push(ch)[0].1,
            cs.push(ch)[0].2,
            sender,
        ));
        assert(mode_changes_applied(
            &m1,
            &post,
            (o1 + o2).subrange(k, (o1 + o2).len() as int),
            cs.push(ch).drop_first(),
            sender,
        ));
        assert(mode_changes_applied(&pre, &post, o1 + o2, cs.push(ch), sender));
    }
}

/// Handles the MODE command.
///
/// `MODE <target> [<modestring> [params...]]`
pub struct Mode {
    pub raw: RawMessage,
    pub receiver: Receiver,
    pub params: Vec<Vec<u8>>,
}

impl Mode {
    /// Broadcasts one successful mode change, as its own MODE message, so
    /// clients see intermediate states.
    pub fn broadcast_change(
        channel: &Channel,
        nick: &str,
        action: Action,
        flag: ChannelMode,
        param: Option<&str>,
    ) -> (out: Vec<Envelope>)
        ensures
            out@.len() == channel.members_view().len(),
            forall|k: int|
                0 <= k < out@.len() ==> (#[trigger] out@[k]).to
                    == channel.members_view()[k].id_spec() && out@[k].msg.command_view()
                    == Command::MODE.to_bytes_spec(),
    {
        let mut flag_bytes: Vec<u8> = Vec::new();
        match action {
            Action::Add => flag_bytes.push(43),
            Action::Remove => flag_bytes.push(45),
            Action::Show => {},
        }
        flag_bytes.push(flag.letter());
        let flag_str = lossy_string(flag_bytes.as_slice());
        let msg = match param {
            Some(p) => RawMessage::new(
                Command::MODE,
                &[channel.name(), flag_str.as_str(), p],
                Some(nick),
            ),
            None => RawMessage::new(Command::MODE, &[channel.name(), flag_str.as_str()], Some(nick)),
        };
        channel.broadcast(&msg)
    }

    /// Parses a MODE message: the target, then the mode arguments.
    pub fn from_message(message: RawMessage) -> (r: Result<Mode, Option<RawMessage>>)
        ensures
            match r {
                Ok(m) => message.params_view().len() > 0 && m.params@.len()
                    == message.params_view().len(),
                Err(_) => message.params_view().len() == 0 || !(utf8_valid(
                    message.params_view()[0],
                ) && (crate::util::valid_channel_spec(utf8_chars(message.params_view()[0]))
                    || crate::util::valid_nick_spec(utf8_chars(message.params_view()[0])))),
            },
    {
        let parsed: Option<(Receiver, Vec<Vec<u8>>)> = {
            let params = message.params();
            proof {
                assert(params.deep_view().len() == params@.len());
            }
            if params.len() == 0 {
                None
            } else {
                proof {
                    assert(message.params_view()[0] =~= params@[0]@);
                }
                match crate::util::verify_receiver(params[0].as_slice()) {
                    Receiver::InvalidReceiver(_) => {
                        return Err(
                            Some(
                                RawMessage::new(
                                    Command::REPLY(ResponseCode::ERR_USERNOTINCHANNEL),
                                    &["*", "MODE", "invalid channel name"],
                                    None,
                                ),
                            ),
                        );
                    },
                    receiver => {
                        let mut copied: Vec<Vec<u8>> = Vec::new();
                        let mut i: usize = 0;
                        while i < params.len()
                            invariant
                                0 <= i <= params@.len(),
                                copied@.len() == i,
                            decreases params@.len() - i,
                        {
                            copied.push(crate::message::copy_bytes(params[i].as_slice()));
                            i = i + 1;
                        }
                        Some((receiver, copied))
                    },
                }
            }
        };
        match parsed {
            Some((receiver, params)) => Ok(Mode { raw: message, receiver, params }),
            None => Err(
                Some(
                    RawMessage::new(
                        Command::REPLY(ResponseCode::ERR_NEEDMOREPARAMS),
                        &["*", "MODE", "receiver given"],
                        None,
                    ),
                ),
            ),
        }
    }

    /// Applies a channel MODE: with no mode arguments the flags are shown;
    /// a non-operator may change nothing; an operator's mode string is
    /// parsed and applied change by change, each broadcast on its own.
    /// The member list may change only in its privileges, never in who is
    /// in the channel.
    pub fn handle_mode(
        channel: &mut Channel,
        sender: PeerId,
        sender_nick: &str,
        params: &[Vec<u8>],
    ) -> (out: Vec<Envelope>)
        requires
            old(channel).wf(),
        ensures
            final(channel).wf(),
            final(channel).name_view() == old(channel).name_view(),
            final(channel).server_name_view() == old(channel).server_name_view(),
            final(channel).topic_view() == old(channel).topic_view(),
            final(channel).members_view().len() == old(channel).members_view().len(),
            forall|k: int|
                0 <= k < final(channel).members_view().len() ==> (#[trigger] final(channel).members_view()[k]).id_spec() == old(channel).members_view()[k].id_spec() && final(channel).members_view()[k].nick_view() == old(channel).members_view()[k].nick_view(),
            params@.len() <= 1 ==> {
                &&& *final(channel) == *old(channel)
                &&& out@.len() == 1
                &&& out@[0].to == sender
                &&& out@[0].msg.command_view() == Command::REPLY(
                    ResponseCode::RPL_CHANNELMODEIS,
                ).to_bytes_spec()
                &&& out@[0].msg.params_view().len() == 3
                &&& out@[0].msg.params_view()[1] == crate::util::char_bytes(
                    old(channel).name_view(),
                )
                &&& out@[0].msg.params_view()[2].len() == old(channel).flags_spec()@.len() + 1
                &&& out@[0].msg.params_view()[2][0] == 43u8
                &&& (forall|i: int|
                    0 <= i < old(channel).flags_spec()@.len()
                        ==> out@[0].msg.params_view()[2][i + 1] == (#[trigger] old(
                        channel,
                    ).flags_spec()@[i]).spec_letter())
            },
            params@.len() > 1 && !(crate::channel::has_member_id(
                old(channel).members_view(),
                sender,
            ) && old(channel).members_view()[crate::channel::member_idx(
                old(channel).members_view(),
                sender,
            )].has_flag(ChannelMode::OperatorPrivilege)) ==> *final(channel) == *old(channel)
                && out@.len() == 1 && out@[0].to == sender && out@[0].msg.command_view()
                == Command::REPLY(ResponseCode::ERR_CHANOPRIVSNEEDED).to_bytes_spec(),
            // an operator's mode string is applied change by change; with
            // no change the channel rests, with one the effect is exactly
            // that change's
            params@.len() > 1 && crate::channel::has_member_id(
                old(channel).members_view(),
                sender,
            ) && old(channel).members_view()[crate::channel::member_idx(
                old(channel).members_view(),
                sender,
            )].has_flag(ChannelMode::OperatorPrivilege) ==> {
                let ch = crate::modes::parse_modes_spec(params.deep_view().skip(1));
                &&& mode_changes_applied(old(channel), final(channel), out@, ch, sender)
                &&& (ch.len() == 1 ==> mode_change_applied(
                    old(channel),
                    final(channel),
                    out@,
                    ch[0].0,
                    ch[0].1,
                    ch[0].2,
                    sender,
                ))
            },
    {
        let is_op = match channel.member_index_with_id(&sender) {
            Some(i) => channel.members()[i].is_op(),
            None => false,
        };
        let sname = clone_string_str(channel.server_name());
        if params.len() <= 1 {
            // no mode arguments: show the flags
            let mut shown: Vec<u8> = Vec::new();
            shown.push(43);
            let letters = channel.flags();
            let mut i: usize = 0;
            while i < letters.len()
                invariant
                    0 <= i <= letters@.len(),
                    crate::util::is_ascii_bytes(letters@),
                    shown@.len() == i + 1,
                    shown@[0] == 43u8,
                    forall|j: int| 0 <= j < i ==> #[trigger] shown@[j + 1] == letters@[j],
                    forall|j: int| 0 <= j < shown@.len() ==> #[trigger] shown@[j] < 128,
                decreases letters@.len() - i,
            {
                shown.push(letters[i]);
                i = i + 1;
            }
            let flags_str = lossy_string(shown.as_slice());
            proof {
                broadcast use vstd::string::group_string_axioms;

                assert(crate::util::is_ascii_bytes(shown@));
                assert(flags_str@ == crate::util::ascii_chars(shown@));
                assert(vstd::utf8::is_ascii_chars(flags_str@));
                vstd::utf8::is_ascii_chars_encode_utf8(flags_str@);
                assert forall|j: int| 0 <= j < shown@.len() implies (#[trigger] flags_str@[j])
                    as u8 == shown@[j] by {
                    assert(flags_str@[j] == shown@[j] as char);
                }
                assert(crate::util::char_bytes(flags_str@) =~= shown@);
            }
            let mut out: Vec<Envelope> = Vec::new();
            out.push(
                response_to(
                    sender,
                    sender_nick,
                    ResponseCode::RPL_CHANNELMODEIS,
                    &[channel.name(), flags_str.as_str()],
                    sname.as_str(),
                ),
            );
            return out;
        }
        if !is_op {
            let mut out: Vec<Envelope> = Vec::new();
            out.push(
                response_to(
                    sender,
                    sender_nick,
                    ResponseCode::ERR_CHANOPRIVSNEEDED,
                    &[channel.name(), "You are not a channel operator"],
                    sname.as_str(),
                ),
            );
            return out;
        }
        let rest = vstd::slice::slice_subrange(params, 1, params.len());
        proof {
            assert(rest.deep_view() =~~= params.deep_view().skip(1));
        }
        let changes: Vec<ModeChange> = modes_do(rest);
        let ghost changes_m = crate::modes::changes_model(changes@);
        proof {
            assert(changes_m == crate::modes::parse_modes_spec(params.deep_view().skip(1)));
        }
        let mut out: Vec<Envelope> = Vec::new();
        let mut ci: usize = 0;
        while ci < changes.len()
            invariant
                0 <= ci <= changes@.len(),
                changes_m == crate::modes::changes_model(changes@),
                channel.wf(),
                channel.name_view() == old(channel).name_view(),
                channel.server_name_view() == old(channel).server_name_view(),
                channel.topic_view() == old(channel).topic_view(),
                channel.members_view().len() == old(channel).members_view().len(),
                forall|k: int|
                    0 <= k < channel.members_view().len() ==> (#[trigger] channel.members_view()[k]).id_spec()
                        == old(channel).members_view()[k].id_spec()
                        && channel.members_view()[k].nick_view() == old(channel).members_view()[k].nick_view(),
                ci == 0 ==> *channel == *old(channel) && out@.len() == 0,
                mode_changes_applied(
                    old(channel),
                    channel,
                    out@,
                    changes_m.subrange(0, ci as int),
                    sender,
                ),
                changes@.len() == 1 && ci == 1 ==> mode_change_applied(
                    old(channel),
                    channel,
                    out@,
                    changes_m[0].0,
                    changes_m[0].1,
                    changes_m[0].2,
                    sender,
                ),
            decreases changes@.len() - ci,
        {
            let change = &changes[ci];
            proof {
                assert(changes_m[ci as int] == changes@[ci as int].model());
            }
            let ghost pre_step = *channel;
            let ghost out_before = out@;
            let mut more = apply_mode_change(channel, sender, sender_nick, change);
            let ghost step_out = more@;
            out.append(&mut more);
            proof {
                lemma_mode_changes_snoc(
                    *old(channel),
                    pre_step,
                    *channel,
                    out_before,
                    step_out,
                    changes_m.subrange(0, ci as int),
                    changes_m[ci as int],
                    sender,
                );
                assert(changes_m.subrange(0, ci as int).push(changes_m[ci as int])
                    =~= changes_m.subrange(0, ci as int + 1));
                if changes@.len() == 1 && ci == 0 {
                    assert(out_before.len() == 0);
                    assert(out@ =~= step_out);
                }
            }
            ci = ci + 1;
        }
        proof {
            assert(changes_m.subrange(0, changes_m.len() as int) =~= changes_m);
        }
        out
    }

    /// Applies the MODE command to the named channel, the reshaped
    /// channel standing at the end of the directory; a missing channel
    /// earns `ERR_NOSUCHCHANNEL`.  User modes are not supported.
    pub fn invoke(self, server: &mut Server, origin: PeerId) -> (out: Vec<Envelope>)
        requires
            old(server).wf(),
        ensures
            final(server).wf(),
            final(server).host_view() == old(server).host_view(),
            final(server).users_view() == old(server).users_view(),
            final(server).nicks_view() == old(server).nicks_view(),
            self.receiver matches Receiver::ChannelName(name)
                && !crate::server::has_channel_name(old(server).channels_view(), name@) ==> {
                &&& final(server).channels_view() == old(server).channels_view()
                &&& out@.len() == 1
                &&& out@[0].to == origin
                &&& out@[0].msg.command_view() == Command::REPLY(
                    ResponseCode::ERR_NOSUCHCHANNEL,
                ).to_bytes_spec()
            },
            self.receiver matches Receiver::ChannelName(name)
                && crate::server::has_channel_name(old(server).channels_view(), name@) ==> {
                let cname = self.receiver->ChannelName_0@;
                let c = old(server).channels_view()[crate::server::channel_idx(
                    old(server).channels_view(),
                    cname,
                )];
                let newc = final(server).channels_view().last();
                &&& final(server).channels_view().len() == old(server).channels_view().len()
                &&& newc.name_view() == c.name_view()
                &&& newc.topic_view() == c.topic_view()
                &&& newc.members_view().len() == c.members_view().len()
                &&& (forall|k: int|
                    0 <= k < newc.members_view().len() ==> (#[trigger] newc.members_view()[k]).id_spec()
                        == c.members_view()[k].id_spec() && newc.members_view()[k].nick_view()
                        == c.members_view()[k].nick_view())
            },
    {
        let host = clone_string_str(server.host());
        let me: String = match crate::registration::nick_of(server, &origin) {
            Some(n) => n,
            None => clone_string_str("*"),
        };
        let mut out: Vec<Envelope> = Vec::new();
        match &self.receiver {
            Receiver::ChannelName(name) => {
                match server.channel_index(name.as_str()) {
                    Some(i) => {
                        let mut channel = server.detach_channel(i);
                        let mut replies = Mode::handle_mode(
                            &mut channel,
                            origin,
                            me.as_str(),
                            self.params.as_slice(),
                        );
                        out.append(&mut replies);
                        server.attach_channel(channel);
                    },
                    None => {
                        out.push(
                            response_to(
                                origin,
                                me.as_str(),
                                ResponseCode::ERR_NOSUCHCHANNEL,
                                &[name.as_str(), "No such channel"],
                                host.as_str(),
                            ),
                        );
                    },
                }
            },
            _ => {},
        }
        out
    }
}

/// Applies one parsed mode change to the channel and hands back what it
/// broadcasts or replies; see [`mode_change_applied`] for exactly what
/// each change kind does.
pub fn apply_mode_change(
    channel: &mut Channel,
    sender: PeerId,
    sender_nick: &str,
    change: &ModeChange,
) -> (out: Vec<Envelope>)
    requires
        old(channel).wf(),
    ensures
        final(channel).wf(),
        final(channel).name_view() == old(channel).name_view(),
        final(channel).server_name_view() == old(channel).server_name_view(),
        final(channel).topic_view() == old(channel).topic_view(),
        final(channel).members_view().len() == old(channel).members_view().len(),
        forall|k: int|
            0 <= k < final(channel).members_view().len() ==> (#[trigger] final(channel).members_view()[k]).id_spec() == old(channel).members_view()[k].id_spec() && final(channel).members_view()[k].nick_view() == old(channel).members_view()[k].nick_view(),
        mode_change_applied(
            old(channel),
            final(channel),
            out@,
            change.model().0,
            change.model().1,
            change.model().2,
            sender,
        ),
{
    let action = change.action;
    let mode = change.mode;
    let sname = crate::member::clone_string_str(channel.server_name());
    let mut out: Vec<Envelope> = Vec::new();
    match mode {
        ChannelMode::AnonChannel
        | ChannelMode::InviteOnly
        | ChannelMode::Moderated
        | ChannelMode::MemberOnly
        | ChannelMode::Quiet
        | ChannelMode::Private
        | ChannelMode::Secret
        | ChannelMode::ReOpFlag
        | ChannelMode::TopicProtect => {
            match action {
                Action::Add => {
                    if channel.add_flag(mode) {
                        let mut more = Mode::broadcast_change(
                            channel,
                            sender_nick,
                            action,
                            mode,
                            None,
                        );
                        out.append(&mut more);
                    }
                },
                Action::Remove => {
                    if channel.remove_flag(mode) {
                        let mut more = Mode::broadcast_change(
                            channel,
                            sender_nick,
                            action,
                            mode,
                            None,
                        );
                        out.append(&mut more);
                    }
                },
                Action::Show => {},
            }
        },
        ChannelMode::OperatorPrivilege | ChannelMode::VoicePrivilege => {
            match &change.param {
                Some(name) => {
                    match crate::util::utf8_string(name.as_slice()) {
                        Some(nick) => {
                            let changed = match action {
                                Action::Add => channel.promote_nick(nick.as_str(), mode),
                                Action::Remove => channel.demote_nick(nick.as_str(), mode),
                                Action::Show => false,
                            };
                            if changed {
                                let mut more = Mode::broadcast_change(
                                    channel,
                                    sender_nick,
                                    action,
                                    mode,
                                    Some(nick.as_str()),
                                );
                                out.append(&mut more);
                            }
                        },
                        None => {},
                    }
                },
                None => {},
            }
        },
        ChannelMode::ChannelKey => {
            match action {
                Action::Add => {
                    match &change.param {
                        Some(key) => {
                            channel.set_password(
                                Some(crate::message::copy_bytes(key.as_slice())),
                            );
                            let mut more = Mode::broadcast_change(
                                channel,
                                sender_nick,
                                action,
                                mode,
                                None,
                            );
                            out.append(&mut more);
                        },
                        None => {},
                    }
                },
                Action::Remove => {
                    channel.set_password(None);
                    let mut more = Mode::broadcast_change(
                        channel,
                        sender_nick,
                        action,
                        mode,
                        None,
                    );
                    out.append(&mut more);
                },
                Action::Show => {},
            }
        },
        ChannelMode::UserLimit => {
            match action {
                Action::Add => {
                    match &change.param {
                        Some(digits) => {
                            match parse_decimal(digits.as_slice()) {
                                Some(limit) => {
                                    channel.add_flag(ChannelMode::UserLimit);
                                    channel.set_limit(Some(limit));
                                    let shown = lossy_string(digits.as_slice());
                                    let mut more = Mode::broadcast_change(
                                        channel,
                                        sender_nick,
                                        action,
                                        mode,
                                        Some(shown.as_str()),
                                    );
                                    out.append(&mut more);
                                },
                                None => {},
                            }
                        },
                        None => {},
                    }
                },
                Action::Remove => {
                    channel.remove_flag(ChannelMode::UserLimit);
                    channel.set_limit(None);
                    let mut more = Mode::broadcast_change(
                        channel,
                        sender_nick,
                        action,
                        mode,
                        None,
                    );
                    out.append(&mut more);
                },
                Action::Show => {},
            }
        },
        ChannelMode::BanMask | ChannelMode::ExceptionMask | ChannelMode::InvitationMask => {
            match &change.param {
                Some(mask_bytes) => {
                    match crate::util::utf8_string(mask_bytes.as_slice()) {
                        Some(mask_str) => {
                            match action {
                                Action::Add | Action::Remove => {
                                    let adding = matches!(action, Action::Add);
                                    let mask = crate::util::HostMask::new(mask_str);
                                    let moved: bool = match mode {
                                        ChannelMode::BanMask => if adding {
                                            channel.add_ban_mask(mask)
                                        } else {
                                            channel.remove_ban_mask(mask)
                                        },
                                        ChannelMode::ExceptionMask => if adding {
                                            channel.add_except_mask(mask)
                                        } else {
                                            channel.remove_except_mask(mask)
                                        },
                                        _ => if adding {
                                            channel.add_invite_mask(mask)
                                        } else {
                                            channel.remove_invite_mask(mask)
                                        },
                                    };
                                    proof {
                                        let maskv = crate::util::utf8_chars(mask_bytes@);
                                        if adding && moved {
                                            match mode {
                                                ChannelMode::BanMask => {
                                                    assert(channel.ban_masks_view().last()@
                                                        == maskv);
                                                },
                                                ChannelMode::ExceptionMask => {
                                                    assert(channel.except_masks_view().last()@
                                                        == maskv);
                                                },
                                                _ => {
                                                    assert(channel.invite_masks_view().last()@
                                                        == maskv);
                                                },
                                            }
                                        }
                                    }
                                    if moved {
                                        let shown = lossy_string(mask_bytes.as_slice());
                                        let mut more = Mode::broadcast_change(
                                            channel,
                                            sender_nick,
                                            action,
                                            mode,
                                            Some(shown.as_str()),
                                        );
                                        out.append(&mut more);
                                    }
                                },
                                Action::Show => {},
                            }
                        },
                        None => {},
                    }
                },
                None => {
                    // no mask given: show the list
                    let (start_code, end_code) = match mode {
                        ChannelMode::BanMask => (
                            ResponseCode::RPL_BANLIST,
                            ResponseCode::RPL_ENDOFBANLIST,
                        ),
                        ChannelMode::ExceptionMask => (
                            ResponseCode::RPL_EXCEPTLIST,
                            ResponseCode::RPL_ENDOFEXCEPTLIST,
                        ),
                        _ => (
                            ResponseCode::RPL_INVITELIST,
                            ResponseCode::RPL_ENDOFINVITELIST,
                        ),
                    };
                    let masks = match mode {
                        ChannelMode::BanMask => channel.ban_masks(),
                        ChannelMode::ExceptionMask => channel.except_masks(),
                        _ => channel.invite_masks(),
                    };
                    let mut mi: usize = 0;
                    while mi < masks.len()
                        invariant
                            0 <= mi <= masks@.len(),
                            out@.len() == mi,
                            forall|k: int|
                                0 <= k < out@.len() ==> (#[trigger] out@[k]).to == sender
                                    && out@[k].msg.command_view() == Command::REPLY(
                                    start_code,
                                ).to_bytes_spec() && out@[k].msg.params_view().len() == 3
                                    && out@[k].msg.params_view()[1] == crate::util::char_bytes(
                                    channel.name_view(),
                                ) && out@[k].msg.params_view()[2] == crate::util::char_bytes(
                                    masks@[k]@,
                                ),
                        decreases masks@.len() - mi,
                    {
                        let env = response_to(
                            sender,
                            sender_nick,
                            start_code,
                            &[channel.name(), masks[mi].as_str()],
                            sname.as_str(),
                        );
                        proof {
                            assert(env.msg.params_view().len() == 3);
                            assert(env.msg.params_view()[1] == crate::util::char_bytes(
                                channel.name_view(),
                            ));
                            assert(env.msg.params_view()[2] == crate::util::char_bytes(
                                masks@[mi as int]@,
                            ));
                        }
                        out.push(env);
                        mi = mi + 1;
                    }
                    let endline = response_to(
                        sender,
                        sender_nick,
                        end_code,
                        &[channel.name()],
                        sname.as_str(),
                    );
                    proof {
                        assert(endline.msg.params_view().len() == 2);
                        assert(endline.msg.params_view()[1] == crate::util::char_bytes(
                            channel.name_view(),
                        ));
                    }
                    out.push(endline);
                },
            }
        },
        ChannelMode::ChannelCreator => {
            // creator status cannot be granted after creation
        },
    }
    proof {
        let a = change.model().0;
        let m = change.model().1;
        let pm = change.model().2;
        match m {
            ChannelMode::AnonChannel
            | ChannelMode::InviteOnly
            | ChannelMode::Moderated
            | ChannelMode::MemberOnly
            | ChannelMode::Quiet
            | ChannelMode::Private
            | ChannelMode::Secret
            | ChannelMode::ReOpFlag
            | ChannelMode::TopicProtect => {
                assert(mode_change_applied(old(channel), channel, out@, a, m, pm, sender));
            },
            ChannelMode::OperatorPrivilege | ChannelMode::VoicePrivilege => {
                assert(mode_change_applied(old(channel), channel, out@, a, m, pm, sender));
            },
            ChannelMode::ChannelKey => {
                assert(mode_change_applied(old(channel), channel, out@, a, m, pm, sender));
            },
            ChannelMode::UserLimit => {
                assert(mode_change_applied(old(channel), channel, out@, a, m, pm, sender));
            },
            ChannelMode::BanMask | ChannelMode::ExceptionMask | ChannelMode::InvitationMask => {
                assert(mode_change_applied(old(channel), channel, out@, a, m, pm, sender));
            },
            ChannelMode::ChannelCreator => {
                assert(mode_change_applied(old(channel), channel, out@, a, m, pm, sender));
            },
        }
    }
    out
}

} // verus!