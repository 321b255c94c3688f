//! Channel members: a snapshot of a peer taken at JOIN time, with the
//! member's channel privileges.

use vstd::prelude::*;
use vstd::string::StringSliceAdditionalSpecFns;

use crate::cmd::ResponseCode;
use crate::con::{Envelope, Peer, PeerId};
use crate::message::RawMessage;
use crate::modes::ChannelMode;
use crate::util::HostMask;

verus! {

/// A set of channel modes, as member flags or channel flags.
#[derive(Clone, Debug)]
pub struct Flags {
    modes: Vec<ChannelMode>,
}

impl Flags {
    /// Whether the set holds the mode.
    pub closed spec fn has(&self, m: ChannelMode) -> bool {
        exists|i: int| 0 <= i < self.modes@.len() && self.modes@[i] == m
    }

    /// The set never keeps a mode twice.
    pub closed spec fn wf(&self) -> bool {
        forall|i: int, j: int|
            0 <= i < j < self.modes@.len() ==> self.modes@[i] != self.modes@[j]
    }

    /// The modes, in insertion order.
    pub closed spec fn view(&self) -> Seq<ChannelMode> {
        self.modes@
    }

    /// The empty set.
    pub fn new() -> (r: Flags)
        ensures
            r.wf(),
            forall|m: ChannelMode| !r.has(m),
            r@.len() == 0,
    {
        Flags { modes: Vec::new() }
    }

    /// Whether the set holds the mode.
    pub fn contains(&self, m: ChannelMode) -> (r: bool)
        ensures
            r == self.has(m),
    {
        let mut i: usize = 0;
        while i < self.modes.len()
            invariant
                0 <= i <= self.modes@.len(),
                forall|j: int| 0 <= j < i ==> self.modes@[j] != m,
            decreases self.modes@.len() - i,
        {
            if matches_mode(self.modes[i], m) {
                return true;
            }
            i = i + 1;
        }
        false
    }

    /// Adds the mode; reports whether it was new.
    pub fn insert(&mut self, m: ChannelMode) -> (r: bool)
        requires
            old(self).wf(),
        ensures
            final(self).wf(),
            r == !old(self).has(m),
            final(self).has(m),
            forall|x: ChannelMode| x != m ==> final(self).has(x) == old(self).has(x),
            final(self)@.len() <= old(self)@.len() + 1,
    {
        if self.contains(m) {
            false
        } else {
            self.modes.push(m);
            proof {
                assert(self.modes@.last() == m);
                assert forall|x: ChannelMode| x != m implies self.has(x) == old(self).has(x) by {
                    if self.has(x) {
                        let i = choose|i: int|
                            0 <= i < self.modes@.len() && self.modes@[i] == x;
                        assert(old(self).modes@[i] == x);
                    }
                    if old(self).has(x) {
                        let i = choose|i: int|
                            0 <= i < old(self).modes@.len() && old(self).modes@[i] == x;
                        assert(self.modes@[i] == x);
                    }
                }
            }
            true
        }
    }

    /// Removes the mode; reports whether it was there.
    pub fn remove(&mut self, m: ChannelMode) -> (r: bool)
        requires
            old(self).wf(),
        ensures
            final(self).wf(),
            r == old(self).has(m),
            !final(self).has(m),
            forall|x: ChannelMode| x != m ==> final(self).has(x) == old(self).has(x),
            final(self)@.len() <= old(self)@.len(),
    {
        let mut i: usize = 0;
        while i < self.modes.len()
            invariant
                0 <= i <= self.modes@.len(),
                old(self).wf(),
                self == old(self),
                forall|j: int| 0 <= j < i ==> self.modes@[j] != m,
            decreases self.modes@.len() - i,
        {
            if matches_mode(self.modes[i], m) {
                let ghost pre = self.modes@;
                self.modes.remove(i);
                proof {
                    assert(self.modes@ =~= pre.subrange(0, i as int) + pre.subrange(
                        i as int + 1,
                        pre.len() as int,
                    ));
                    assert forall|x: ChannelMode| x != m implies self.has(x) == old(self).has(x) by {
                        if old(self).has(x) {
                            let j = choose|j: int| 0 <= j < pre.len() && pre[j] == x;
                            if j < i {
                                assert(self.modes@[j] == x);
                            } else {
                                assert(self.modes@[j - 1] == x);
                            }
                        }
                        if self.has(x) {
                            let j = choose|j: int|
                                0 <= j < self.modes@.len() && self.modes@[j] == x;
                            if j < i {
                                assert(pre[j] == x);
                            } else {
                                assert(pre[j + 1] == x);
                            }
                        }
                    }
                    assert forall|x: ChannelMode| !(x != m) implies !self.has(x) by {
                        if self.has(m) {
                            let j = choose|j: int|
                                0 <= j < self.modes@.len() && self.modes@[j] == m;
                            if j < i {
                                assert(pre[j] == m);
                            } else {
                                assert(pre[j + 1] == m);
                            }
                        }
                    }
                }
                return true;
            }
            i = i + 1;
        }
        false
    }

    /// The letters of the modes in the set, in insertion order.
    pub fn letters(&self) -> (r: Vec<u8>)
        ensures
            r@.len() == self@.len(),
            forall|i: int| 0 <= i < r@.len() ==> r@[i] == (#[trigger] self@[i]).spec_letter(),
            crate::util::is_ascii_bytes(r@),
    {
        let mut out: Vec<u8> = Vec::new();
        let mut i: usize = 0;
        while i < self.modes.len()
            invariant
                0 <= i <= self.modes@.len(),
                out@.len() == i,
                forall|j: int| 0 <= j < i ==> out@[j] == (#[trigger] self.modes@[j]).spec_letter(),
            decreases self.modes@.len() - i,
        {
            out.push(self.modes[i].letter());
            i = i + 1;
        }
        proof {
            assert forall|i: int| 0 <= i < out@.len() implies out@[i] < 128 by {
                assert(out@[i] == self.modes@[i].spec_letter());
            }
        }
        out
    }
}

/// Compares two modes.
fn matches_mode(a: ChannelMode, b: ChannelMode) -> (r: bool)
    ensures
        r == (a == b),
{
    a.letter() == b.letter()
}

/// The decoration of a member with the given flags: `@` for an operator,
/// `+` for a voiced member, nothing otherwise.
pub open spec fn decoration_spec(flags: &Flags) -> Seq<char> {
    if flags.has(ChannelMode::OperatorPrivilege) {
        "@"@
    } else if flags.has(ChannelMode::VoicePrivilege) {
        "+"@
    } else {
        ""@
    }
}

/// Represents a channel member.
pub struct Member {
    id: PeerId,
    nick: String,
    mask: HostMask,
    hostname: String,
    username: String,
    realname: String,
    decorated_nick: String,
    flags: Flags,
    server_name: String,
}

impl Member {
    /// The member's id.
    pub closed spec fn id_spec(&self) -> PeerId {
        self.id
    }

    /// The member's nick characters.
    pub closed spec fn nick_view(&self) -> Seq<char> {
        self.nick@
    }

    /// The member's host mask characters.
    pub closed spec fn mask_view(&self) -> Seq<char> {
        self.mask@
    }

    /// The member's hostname characters.
    pub closed spec fn hostname_view(&self) -> Seq<char> {
        self.hostname@
    }

    /// The member's username characters.
    pub closed spec fn username_view(&self) -> Seq<char> {
        self.username@
    }

    /// The member's real-name characters.
    pub closed spec fn realname_view(&self) -> Seq<char> {
        self.realname@
    }

    /// The member's flags.
    pub closed spec fn flags_spec(&self) -> &Flags {
        &self.flags
    }

    /// The member's decorated nick characters.
    pub closed spec fn decorated_nick_view(&self) -> Seq<char> {
        self.decorated_nick@
    }

    /// The server name the member's replies carry.
    pub closed spec fn server_name_view(&self) -> Seq<char> {
        self.server_name@
    }

    /// Whether the member holds the privilege.
    pub open spec fn has_flag(&self, m: ChannelMode) -> bool {
        self.flags_spec().has(m)
    }

    /// Well-formed: the flag set holds no duplicates and the cached
    /// decorated nick agrees with the flags.
    pub open spec fn wf(&self) -> bool {
        &&& self.flags_spec().wf()
        &&& self.decorated_nick_view() == decoration_spec(self.flags_spec()) + self.nick_view()
    }

    /// Creates a new member from a snapshot of the peer's user record.
    /// The member starts without privileges.
    pub fn new(peer: &Peer) -> (r: Member)
        ensures
            r.wf(),
            r.id_spec() == peer.info_spec().id_spec(),
            r.nick_view() == peer.info_spec().nick_view(),
            r.hostname_view() == peer.info_spec().hostname_view(),
            r.username_view() == peer.info_spec().username_view(),
            r.realname_view() == peer.info_spec().realname_view(),
            r.mask_view() == peer.info_spec().hostmask_view(),
            r.server_name_view() == peer.info_spec().server_name_view(),
            forall|m: ChannelMode| !r.has_flag(m),
    {
        let info = peer.info();
        let nick = clone_string(info.nick());
        let decorated = clone_string(info.nick());
        let flags = Flags::new();
        proof {
            reveal_strlit("");
            assert(decoration_spec(&flags) + nick@ =~= nick@);
        }
        Member {
            id: info.id(),
            nick,
            mask: HostMask::new(String::from_str(info.real_hostmask().as_str())),
            hostname: clone_string(info.hostname()),
            username: clone_string(info.username()),
            realname: clone_string(info.realname()),
            decorated_nick: decorated,
            flags,
            server_name: clone_string(info.server_name()),
        }
    }

    /// Builds a numeric reply to this member: prefix the member's server,
    /// first parameter the member's nick.
    pub fn send_response(&self, command: ResponseCode, params: &[&str]) -> (r: Envelope)
        ensures
            r.to == self.id_spec(),
            r.msg.command_view() == crate::cmd::Command::REPLY(command).to_bytes_spec(),
            r.msg.prefix_view() == Some(crate::util::char_bytes(self.server_name_view())),
            r.msg.params_view() == seq![crate::util::char_bytes(self.nick_view())] + Seq::new(
                params@.len(),
                |i: int| params@[i].spec_bytes(),
            ),
    {
        let mut full: Vec<&str> = Vec::new();
        full.push(self.nick.as_str());
        let mut i: usize = 0;
        while i < params.len()
            invariant
                0 <= i <= params@.len(),
                full@.len() == i + 1,
                full@[0]@ == self.nick_view(),
                forall|j: int| 1 <= j < full@.len() ==> full@[j]@ == #[trigger] params@[j - 1]@,
            decreases params@.len() - i,
        {
            full.push(params[i]);
            i = i + 1;
        }
        let msg = RawMessage::new(
            crate::cmd::Command::REPLY(command),
            full.as_slice(),
            Some(self.server_name.as_str()),
        );
        proof {
            assert(msg.params_view() =~= seq![crate::util::char_bytes(self.nick_view())]
                + Seq::new(params@.len(), |i: int| params@[i].spec_bytes()));
        }
        Envelope { to: self.id, msg }
    }

    /// Wraps a message for delivery to this member.
    pub fn send_msg(&self, msg: RawMessage) -> (r: Envelope)
        ensures
            r.to == self.id_spec(),
            r.msg == msg,
    {
        Envelope { to: self.id, msg }
    }

    /// Grants a privilege to the member.
    pub fn promote(&mut self, flag: ChannelMode)
        requires
            old(self).wf(),
        ensures
            final(self).wf(),
            final(self).has_flag(flag),
            forall|x: ChannelMode| x != flag ==> final(self).has_flag(x) == old(self).has_flag(x),
            final(self).id_spec() == old(self).id_spec(),
            final(self).nick_view() == old(self).nick_view(),
            final(self).mask_view() == old(self).mask_view(),
            final(self).hostname_view() == old(self).hostname_view(),
            final(self).username_view() == old(self).username_view(),
            final(self).realname_view() == old(self).realname_view(),
            final(self).server_name_view() == old(self).server_name_view(),
    {
        self.flags.insert(flag);
        self.update_decorated_nick();
    }

    /// Takes a privilege from the member.
    pub fn demote(&mut self, flag: ChannelMode)
        requires
            old(self).wf(),
        ensures
            final(self).wf(),
            !final(self).has_flag(flag),
            forall|x: ChannelMode| x != flag ==> final(self).has_flag(x) == old(self).has_flag(x),
            final(self).id_spec() == old(self).id_spec(),
            final(self).nick_view() == old(self).nick_view(),
            final(self).mask_view() == old(self).mask_view(),
            final(self).hostname_view() == old(self).hostname_view(),
            final(self).username_view() == old(self).username_view(),
            final(self).realname_view() == old(self).realname_view(),
            final(self).server_name_view() == old(self).server_name_view(),
    {
        self.flags.remove(flag);
        self.update_decorated_nick();
    }

    /// The member's channel flags, as their letters.
    pub fn flags(&self) -> (r: Vec<u8>)
        ensures
            forall|i: int|
                0 <= i < r@.len() ==> r@[i] == (#[trigger] self.flags_spec()@[i]).spec_letter(),
            r@.len() == self.flags_spec()@.len(),
    {
        self.flags.letters()
    }

    /// Whether the member holds the privilege.
    pub fn has_privilege(&self, privilege: ChannelMode) -> (r: bool)
        ensures
            r == self.has_flag(privilege),
    {
        self.flags.contains(privilege)
    }

    /// The decoration of the member's nick: `@` for an operator, `+` for
    /// a voiced member, nothing otherwise.
    pub fn decoration(&self) -> (r: String)
        ensures
            r@ == decoration_spec(self.flags_spec()),
    {
        if self.flags.contains(ChannelMode::OperatorPrivilege) {
            String::from_str("@")
        } else if self.flags.contains(ChannelMode::VoicePrivilege) {
            String::from_str("+")
        } else {
            String::from_str("")
        }
    }

    /// Whether the member is an operator of the channel.
    pub fn is_op(&self) -> (r: bool)
        ensures
            r == self.has_flag(ChannelMode::OperatorPrivilege),
    {
        self.flags.contains(ChannelMode::OperatorPrivilege)
    }

    /// Whether the member may speak on a moderated channel: voiced or an
    /// operator.
    pub fn has_voice(&self) -> (r: bool)
        ensures
            r == (self.has_flag(ChannelMode::VoicePrivilege) || self.has_flag(
                ChannelMode::OperatorPrivilege,
            )),
    {
        self.flags.contains(ChannelMode::VoicePrivilege) || self.flags.contains(
            ChannelMode::OperatorPrivilege,
        )
    }

    /// Whether the member's own host mask matches any mask in the given
    /// list.
    pub fn mask_matches_any(&self, masks: &Vec<HostMask>) -> (r: bool)
        ensures
            r == exists|i: int|
                0 <= i < masks@.len() && crate::util::glob_match(
                    #[trigger] masks@[i]@,
                    self.mask_view(),
                ),
    {
        let mut i: usize = 0;
        while i < masks.len()
            invariant
                0 <= i <= masks@.len(),
                forall|j: int|
                    0 <= j < i ==> !crate::util::glob_match(
                        #[trigger] masks@[j]@,
                        self.mask_view(),
                    ),
            decreases masks@.len() - i,
        {
            if masks[i].matches(self.mask.as_str()) {
                return true;
            }
            i = i + 1;
        }
        false
    }

    /// Rebuilds the cached decorated nick.
    fn update_decorated_nick(&mut self)
        requires
            old(self).flags_spec().wf(),
        ensures
            final(self).wf(),
            final(self).id_spec() == old(self).id_spec(),
            final(self).nick_view() == old(self).nick_view(),
            final(self).mask_view() == old(self).mask_view(),
            final(self).hostname_view() == old(self).hostname_view(),
            final(self).username_view() == old(self).username_view(),
            final(self).realname_view() == old(self).realname_view(),
            final(self).server_name_view() == old(self).server_name_view(),
            final(self).flags_spec() == old(self).flags_spec(),
    {
        let mut d = self.decoration();
        d.append(self.nick.as_str());
        self.decorated_nick = d;
    }

    /// The nickname, prefixed with `@` for an operator or `+` for a
    /// voiced member.
    pub fn decorated_nick(&self) -> (r: &str)
        ensures
            r@ == self.decorated_nick_view(),
    {
        self.decorated_nick.as_str()
    }

    /// Getter for the nick.
    pub fn nick(&self) -> (r: &str)
        ensures
            r@ == self.nick_view(),
    {
        self.nick.as_str()
    }

    /// Getter for the hostname.
    pub fn hostname(&self) -> (r: &str)
        ensures
            r@ == self.hostname_view(),
    {
        self.hostname.as_str()
    }

    /// Getter for the username.
    pub fn username(&self) -> (r: &str)
        ensures
            r@ == self.username_view(),
    {
        self.username.as_str()
    }

    /// Getter for the real name.
    pub fn realname(&self) -> (r: &str)
        ensures
            r@ == self.realname_view(),
    {
        self.realname.as_str()
    }

    /// Setter for the nick; the decorated nick follows it.
    pub fn set_nick(&mut self, nick: String)
        requires
            old(self).wf(),
        ensures
            final(self).wf(),
            final(self).nick_view() == nick@,
            final(self).id_spec() == old(self).id_spec(),
            final(self).mask_view() == old(self).mask_view(),
            final(self).hostname_view() == old(self).hostname_view(),
            final(self).username_view() == old(self).username_view(),
            final(self).realname_view() == old(self).realname_view(),
            final(self).server_name_view() == old(self).server_name_view(),
            final(self).flags_spec() == old(self).flags_spec(),
    {
        self.nick = nick;
        self.update_decorated_nick();
    }

    /// Getter for the member's id.
    pub fn id(&self) -> (r: PeerId)
        ensures
            r == self.id_spec(),
    {
        self.id
    }
}

/// Copies a string.
pub(crate) fn clone_string(s: &String) -> (r: String)
    ensures
        r@ == s@,
{
    String::from_str(s.as_str())
}

/// Copies a string slice into an owned string.
pub(crate) fn clone_string_str(s: &str) -> (r: String)
    ensures
        r@ == s@,
{
    String::from_str(s)
}

} // verus!
