//! Channel modes and the MODE argument parser.

use vstd::prelude::*;

verus! {

/// The channel modes of RFC 2811: single letters on the wire, some of them
/// taking a parameter.
#[derive(Clone, Copy, Debug, PartialEq, Eq, Structural)]
pub enum ChannelMode {
    /// give "channel creator" status (`O`)
    ChannelCreator,
    /// give/take channel operator privilege (`o`)
    OperatorPrivilege,
    /// give/take the voice privilege (`v`)
    VoicePrivilege,
    /// toggle the anonymous channel flag (`a`)
    AnonChannel,
    /// toggle the invite-only channel flag (`i`)
    InviteOnly,
    /// toggle the moderated channel flag (`m`)
    Moderated,
    /// toggle the no-messages-from-outside flag (`n`)
    MemberOnly,
    /// toggle the quiet channel flag (`q`)
    Quiet,
    /// toggle the private channel flag (`p`)
    Private,
    /// toggle the secret channel flag (`s`)
    Secret,
    /// toggle the server reop channel flag (`r`)
    ReOpFlag,
    /// toggle the topic-settable-by-operator-only flag (`t`)
    TopicProtect,
    /// set/remove the channel key (`k`)
    ChannelKey,
    /// set/remove the user limit (`l`)
    UserLimit,
    /// set/remove a ban mask (`b`)
    BanMask,
    /// set/remove an exception mask overriding a ban mask (`e`)
    ExceptionMask,
    /// set/remove an invitation mask overriding the invite-only flag (`I`)
    InvitationMask,
}

/// What to do with a mode.
#[derive(Clone, Copy, Debug, PartialEq, Eq, Structural)]
pub enum Action {
    /// Add a flag
    Add,
    /// Remove a flag
    Remove,
    /// Show the flag
    Show,
}

impl ChannelMode {
    /// The letter of the mode on the wire.
    pub open spec fn spec_letter(self) -> u8 {
        match self {
            ChannelMode::ChannelCreator => 79,  // O
            ChannelMode::OperatorPrivilege => 111,  // o
            ChannelMode::VoicePrivilege => 118,  // v
            ChannelMode::AnonChannel => 97,  // a
            ChannelMode::InviteOnly => 105,  // i
            ChannelMode::Moderated => 109,  // m
            ChannelMode::MemberOnly => 110,  // n
            ChannelMode::Quiet => 113,  // q
            ChannelMode::Private => 112,  // p
            ChannelMode::Secret => 115,  // s
            ChannelMode::ReOpFlag => 114,  // r
            ChannelMode::TopicProtect => 116,  // t
            ChannelMode::ChannelKey => 107,  // k
            ChannelMode::UserLimit => 108,  // l
            ChannelMode::BanMask => 98,  // b
            ChannelMode::ExceptionMask => 101,  // e
            ChannelMode::InvitationMask => 73,  // I
        }
    }

    /// The letter of the mode on the wire.
    pub fn letter(&self) -> (r: u8)
        ensures
            r == self.spec_letter(),
    {
        match *self {
            ChannelMode::ChannelCreator => 79,
            ChannelMode::OperatorPrivilege => 111,
            ChannelMode::VoicePrivilege => 118,
            ChannelMode::AnonChannel => 97,
            ChannelMode::InviteOnly => 105,
            ChannelMode::Moderated => 109,
            ChannelMode::MemberOnly => 110,
            ChannelMode::Quiet => 113,
            ChannelMode::Private => 112,
            ChannelMode::Secret => 115,
            ChannelMode::ReOpFlag => 114,
            ChannelMode::TopicProtect => 116,
            ChannelMode::ChannelKey => 107,
            ChannelMode::UserLimit => 108,
            ChannelMode::BanMask => 98,
            ChannelMode::ExceptionMask => 101,
            ChannelMode::InvitationMask => 73,
        }
    }

    /// The mode a letter names, if any.
    pub open spec fn from_letter_spec(b: u8) -> Option<ChannelMode> {
        if b == 79 {
            Some(ChannelMode::ChannelCreator)
        } else if b == 111 {
            Some(ChannelMode::OperatorPrivilege)
        } else if b == 118 {
            Some(ChannelMode::VoicePrivilege)
        } else if b == 97 {
            Some(ChannelMode::AnonChannel)
        } else if b == 105 {
            Some(ChannelMode::InviteOnly)
        } else if b == 109 {
            Some(ChannelMode::Moderated)
        } else if b == 110 {
            Some(ChannelMode::MemberOnly)
        } else if b == 113 {
            Some(ChannelMode::Quiet)
        } else if b == 112 {
            Some(ChannelMode::Private)
        } else if b == 115 {
            Some(ChannelMode::Secret)
        } else if b == 114 {
            Some(ChannelMode::ReOpFlag)
        } else if b == 116 {
            Some(ChannelMode::TopicProtect)
        } else if b == 107 {
            Some(ChannelMode::ChannelKey)
        } else if b == 108 {
            Some(ChannelMode::UserLimit)
        } else if b == 98 {
            Some(ChannelMode::BanMask)
        } else if b == 101 {
            Some(ChannelMode::ExceptionMask)
        } else if b == 73 {
            Some(ChannelMode::InvitationMask)
        } else {
            None
        }
    }

    /// The mode a letter names, if any.
    pub fn from_letter(b: u8) -> (r: Option<ChannelMode>)
        ensures
            r == ChannelMode::from_letter_spec(b),
    {
        if b == 79 {
            Some(ChannelMode::ChannelCreator)
        } else if b == 111 {
            Some(ChannelMode::OperatorPrivilege)
        } else if b == 118 {
            Some(ChannelMode::VoicePrivilege)
        } else if b == 97 {
            Some(ChannelMode::AnonChannel)
        } else if b == 105 {
            Some(ChannelMode::InviteOnly)
        } else if b == 109 {
            Some(ChannelMode::Moderated)
        } else if b == 110 {
            Some(ChannelMode::MemberOnly)
        } else if b == 113 {
            Some(ChannelMode::Quiet)
        } else if b == 112 {
            Some(ChannelMode::Private)
        } else if b == 115 {
            Some(ChannelMode::Secret)
        } else if b == 114 {
            Some(ChannelMode::ReOpFlag)
        } else if b == 116 {
            Some(ChannelMode::TopicProtect)
        } else if b == 107 {
            Some(ChannelMode::ChannelKey)
        } else if b == 108 {
            Some(ChannelMode::UserLimit)
        } else if b == 98 {
            Some(ChannelMode::BanMask)
        } else if b == 101 {
            Some(ChannelMode::ExceptionMask)
        } else if b == 73 {
            Some(ChannelMode::InvitationMask)
        } else {
            None
        }
    }

    /// Whether the mode takes a parameter.
    pub open spec fn spec_has_parameter(self) -> bool {
        match self {
            ChannelMode::OperatorPrivilege
            | ChannelMode::VoicePrivilege
            | ChannelMode::ChannelKey
            | ChannelMode::UserLimit
            | ChannelMode::BanMask
            | ChannelMode::ExceptionMask
            | ChannelMode::InvitationMask => true,
            _ => false,
        }
    }

    /// Whether the mode takes a parameter.
    pub fn has_parameter(&self) -> (r: bool)
        ensures
            r == self.spec_has_parameter(),
    {
        match *self {
            ChannelMode::OperatorPrivilege
            | ChannelMode::VoicePrivilege
            | ChannelMode::ChannelKey
            | ChannelMode::UserLimit
            | ChannelMode::BanMask
            | ChannelMode::ExceptionMask
            | ChannelMode::InvitationMask => true,
            _ => false,
        }
    }
}

/// One parsed mode change: the action, the mode, and the parameter it
/// consumed, if it takes one.
pub struct ModeChange {
    pub action: Action,
    pub mode: ChannelMode,
    pub param: Option<Vec<u8>>,
}

impl ModeChange {
    /// The mathematical content of the change.
    pub open spec fn model(&self) -> (Action, ChannelMode, Option<Seq<u8>>) {
        (
            self.action,
            self.mode,
            match self.param {
                Some(p) => Some(p@),
                None => None,
            },
        )
    }
}

/// The models of a sequence of changes.
pub open spec fn changes_model(s: Seq<ModeChange>) -> Seq<(Action, ChannelMode, Option<Seq<u8>>)> {
    Seq::new(s.len(), |i: int| s[i].model())
}

/// The changes one token of mode letters yields, together with what is
/// left of the argument list: each letter that names a parametric mode
/// consumes the next argument.
pub open spec fn modes_in_token(
    action: Action,
    letters: Seq<u8>,
    cur: Seq<Seq<u8>>,
) -> (Seq<(Action, ChannelMode, Option<Seq<u8>>)>, Seq<Seq<u8>>)
    decreases letters.len(),
{
    if letters.len() == 0 {
        (seq![], cur)
    } else {
        match ChannelMode::from_letter_spec(letters[0]) {
            None => modes_in_token(action, letters.drop_first(), cur),
            Some(mode) => {
                if mode.spec_has_parameter() && action != Action::Show {
                    let param = if cur.len() > 1 {
                        Some(cur[1])
                    } else {
                        None
                    };
                    let cur2 = if cur.len() > 1 {
                        cur.drop_first()
                    } else {
                        Seq::empty()
                    };
                    let (tail, left) = modes_in_token(action, letters.drop_first(), cur2);
                    (seq![(action, mode, param)] + tail, left)
                } else {
                    let (tail, left) = modes_in_token(action, letters.drop_first(), cur);
                    (
                        seq![(action, mode, None::<Seq<u8>>)] + tail,
                        left,
                    )
                }
            },
        }
    }
}

/// Consuming arguments never lengthens the argument list.
proof fn lemma_modes_in_token_len(action: Action, letters: Seq<u8>, cur: Seq<Seq<u8>>)
    ensures
        modes_in_token(action, letters, cur).1.len() <= cur.len(),
    decreases letters.len(),
{
    if letters.len() != 0 {
        match ChannelMode::from_letter_spec(letters[0]) {
            None => lemma_modes_in_token_len(action, letters.drop_first(), cur),
            Some(mode) => {
                if mode.spec_has_parameter() && action != Action::Show {
                    let cur2 = if cur.len() > 1 {
                        cur.drop_first()
                    } else {
                        Seq::empty()
                    };
                    lemma_modes_in_token_len(action, letters.drop_first(), cur2);
                } else {
                    lemma_modes_in_token_len(action, letters.drop_first(), cur);
                }
            },
        }
    }
}

/// The action a token opens with, and how many letters it spends on it.
pub open spec fn token_action(tok: Seq<u8>) -> (Action, int) {
    if tok.len() == 0 {
        (Action::Show, 0)
    } else if tok[0] == 43 {  // +
        (Action::Add, 1)
    } else if tok[0] == 45 {  // -
        (Action::Remove, 1)
    } else {
        (Action::Show, 0)
    }
}

/// The mode changes an argument list of a MODE command yields.
///
/// Per RFC 2812 the arguments are
/// `*( ( "+" / "-" / "" ) *modes *modeparams )`: a leading `+` means
/// adding, `-` removing, neither showing; each parametric mode letter not
/// in show position consumes the next argument; unknown letters are
/// skipped.
pub open spec fn parse_modes_spec(cur: Seq<Seq<u8>>) -> Seq<
    (Action, ChannelMode, Option<Seq<u8>>),
>
    decreases cur.len(),
    via parse_modes_spec_decreases
{
    if cur.len() == 0 {
        seq![]
    } else {
        let tok = cur[0];
        let (action, offset) = token_action(tok);
        let (changes, left) = modes_in_token(action, tok.skip(offset), cur);
        if left.len() > 1 {
            changes + parse_modes_spec(left.drop_first())
        } else {
            changes
        }
    }
}

#[via_fn]
proof fn parse_modes_spec_decreases(cur: Seq<Seq<u8>>) {
    if cur.len() != 0 {
        let tok = cur[0];
        let (action, offset) = token_action(tok);
        lemma_modes_in_token_len(action, tok.skip(offset), cur);
    }
}

/// Parses the mode arguments of a MODE command into the changes they ask
/// for, in order.
pub fn modes_do(slice: &[Vec<u8>]) -> (r: Vec<ModeChange>)
    ensures
        changes_model(r@) == parse_modes_spec(slice.deep_view()),
{
    let mut out: Vec<ModeChange> = Vec::new();
    let n = slice.len();
    proof {
        assert(slice.deep_view().len() == n);
    }
    if n == 0 {
        proof {
            assert(changes_model(out@) =~= parse_modes_spec(slice.deep_view()));
        }
        return out;
    }
    let mut ci: usize = 0;
    proof {
        assert(slice.deep_view().skip(0) =~= slice.deep_view());
        assert(changes_model(out@) =~= Seq::<(Action, ChannelMode, Option<Seq<u8>>)>::empty());
    }
    loop
        invariant_except_break
            0 <= ci < n,
            parse_modes_spec(slice.deep_view()) =~~= changes_model(out@) + parse_modes_spec(
                slice.deep_view().skip(ci as int),
            ),
        invariant
            n == slice@.len(),
            slice.deep_view().len() == n,
        ensures
            parse_modes_spec(slice.deep_view()) =~~= changes_model(out@),
        decreases n - ci,
    {
        let ghost emitted = changes_model(out@);
        let ghost cur = slice.deep_view().skip(ci as int);
        let tok: &Vec<u8> = &slice[ci];
        proof {
            assert(cur[0] == tok.deep_view());
            assert(tok.deep_view() == tok@);
        }
        let action: Action = if tok.len() == 0 {
            Action::Show
        } else if tok[0] == 43 {
            Action::Add
        } else if tok[0] == 45 {
            Action::Remove
        } else {
            Action::Show
        };
        let offset: usize = if tok.len() > 0 && (tok[0] == 43 || tok[0] == 45) {
            1
        } else {
            0
        };
        proof {
            assert((action, offset as int) == token_action(cur[0]));
        }
        // walk the letters of the token, consuming arguments
        let mut li: usize = offset;
        // `ci2` is where the unconsumed arguments start; `emptied` is set
        // once the argument list has been exhausted by a consumption
        let mut ci2: usize = ci;
        let mut emptied = false;
        while li < tok.len()
            invariant
                offset <= li <= tok@.len(),
                ci <= ci2 < n,
                n == slice@.len(),
                slice.deep_view().len() == n,
                tok@ == slice.deep_view().skip(ci as int)[0],
                tok@ == slice@[ci as int]@,
                modes_in_token(action, tok@.skip(offset as int), cur).0 =~~= changes_model(out@)
                    .skip(emitted.len() as int) + modes_in_token(
                    action,
                    tok@.skip(li as int),
                    if emptied {
                        Seq::<Seq<u8>>::empty()
                    } else {
                        slice.deep_view().skip(ci2 as int)
                    },
                ).0,
                modes_in_token(action, tok@.skip(offset as int), cur).1 =~~= modes_in_token(
                    action,
                    tok@.skip(li as int),
                    if emptied {
                        Seq::<Seq<u8>>::empty()
                    } else {
                        slice.deep_view().skip(ci2 as int)
                    },
                ).1,
                changes_model(out@).subrange(0, emitted.len() as int) =~~= emitted,
                emitted.len() <= out@.len(),
                cur == slice.deep_view().skip(ci as int),
            decreases tok@.len() - li,
        {
            let ghost pre_cur = if emptied {
                Seq::<Seq<u8>>::empty()
            } else {
                slice.deep_view().skip(ci2 as int)
            };
            let b = tok[li];
            proof {
                assert(tok@.skip(li as int)[0] == tok@[li as int]);
                assert(tok@.skip(li as int).drop_first() =~= tok@.skip(li as int + 1));
            }
            match ChannelMode::from_letter(b) {
                None => {},
                Some(mode) => {
                    let param: Option<Vec<u8>> = if mode.has_parameter() && !matches!(
                        action,
                        Action::Show,
                    ) {
                        if !emptied && ci2 + 1 < n {
                            let p = crate::message::copy_bytes(slice[ci2 + 1].as_slice());
                            ci2 = ci2 + 1;
                            proof {
                                assert(pre_cur.len() > 1);
                                assert(pre_cur[1] == slice@[ci2 as int]@);
                                assert(pre_cur.drop_first() =~= slice.deep_view().skip(
                                    ci2 as int,
                                ));
                            }
                            Some(p)
                        } else {
                            // the argument list is exhausted
                            proof {
                                assert(pre_cur.len() <= 1);
                            }
                            emptied = true;
                            None
                        }
                    } else {
                        None
                    };
                    let ghost pre_out = out@;
                    out.push(ModeChange { action, mode, param });
                    proof {
                        assert(changes_model(out@) =~~= changes_model(pre_out).push(
                            out@.last().model(),
                        ));
                    }
                },
            }
            li = li + 1;
        }
        proof {
            assert(tok@.skip(tok@.len() as int) =~= Seq::<u8>::empty());
        }
        // advance to the next token
        let left_len = if emptied {
            0
        } else {
            n - ci2
        };
        if left_len > 1 {
            ci = ci2 + 1;
            proof {
                assert(modes_in_token(action, tok@.skip(offset as int), cur).1.drop_first()
                    =~~= slice.deep_view().skip(ci as int));
            }
        } else {
            break;
        }
    }
    out
}

} // verus!
