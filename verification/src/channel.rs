//! The channel state: membership, flags, masks, topic, key and limit.
//!
//! A channel owns its members.  The member table and the nickname index
//! move together, entry for entry; [`Channel::wf`] states it and every
//! mutation preserves it.

use vstd::prelude::*;
use vstd::string::StringSliceAdditionalSpecFns;

use crate::cmd::ResponseCode;
use crate::con::{Envelope, Peer, PeerId};
use crate::member::{Flags, Member};
use crate::message::RawMessage;
use crate::modes::ChannelMode;
use crate::util::HostMask;

verus! {

/// One entry of the nickname index: the nick a peer goes by in the
/// channel.
pub struct NickEntry {
    pub id: PeerId,
    pub nick: String,
}

/// Whether the mask list holds a mask that matches the given characters.
pub open spec fn any_mask_matches(masks: Seq<HostMask>, s: Seq<char>) -> bool {
    exists|i: int| 0 <= i < masks.len() && crate::util::glob_match(#[trigger] masks[i]@, s)
}

/// Whether the member list holds a member with the given id.
pub open spec fn has_member_id(members: Seq<Member>, id: PeerId) -> bool {
    exists|i: int| 0 <= i < members.len() && (#[trigger] members[i]).id_spec() == id
}

/// Whether the member list holds a member with the given nick.
pub open spec fn has_member_nick(members: Seq<Member>, nick: Seq<char>) -> bool {
    exists|i: int| 0 <= i < members.len() && (#[trigger] members[i]).nick_view() == nick
}

/// The index of the member with the given id.
pub open spec fn member_idx(members: Seq<Member>, id: PeerId) -> int {
    choose|i: int| 0 <= i < members.len() && (#[trigger] members[i]).id_spec() == id
}

/// Represents an IRC channel.
pub struct Channel {
    name: String,
    server_name: String,
    topic: Vec<u8>,
    password: Option<Vec<u8>>,
    flags: Flags,
    limit: Option<usize>,
    members: Vec<Member>,
    nicknames: Vec<NickEntry>,
    ban_masks: Vec<HostMask>,
    except_masks: Vec<HostMask>,
    invite_masks: Vec<HostMask>,
}

impl Channel {
    /// The channel name characters.
    pub closed spec fn name_view(&self) -> Seq<char> {
        self.name@
    }

    /// The server name characters.
    pub closed spec fn server_name_view(&self) -> Seq<char> {
        self.server_name@
    }

    /// The topic bytes.
    pub closed spec fn topic_view(&self) -> Seq<u8> {
        self.topic@
    }

    /// The channel key, when one is set.
    pub closed spec fn password_view(&self) -> Option<Seq<u8>> {
        match self.password {
            Some(p) => Some(p@),
            None => None,
        }
    }

    /// The user limit, when one is set.
    pub closed spec fn limit_spec(&self) -> Option<usize> {
        self.limit
    }

    /// The channel flags.
    pub closed spec fn flags_spec(&self) -> &Flags {
        &self.flags
    }

    /// The members, in joining order.
    pub closed spec fn members_view(&self) -> Seq<Member> {
        self.members@
    }

    /// The nickname index, entry `i` describing member `i`.
    pub closed spec fn nicknames_view(&self) -> Seq<NickEntry> {
        self.nicknames@
    }

    /// The ban masks.
    pub closed spec fn ban_masks_view(&self) -> Seq<HostMask> {
        self.ban_masks@
    }

    /// The exception masks.
    pub closed spec fn except_masks_view(&self) -> Seq<HostMask> {
        self.except_masks@
    }

    /// The invitation masks.
    pub closed spec fn invite_masks_view(&self) -> Seq<HostMask> {
        self.invite_masks@
    }

    /// Whether the channel carries the flag.
    pub open spec fn has_flag_spec(&self, m: ChannelMode) -> bool {
        self.flags_spec().has(m)
    }

    /// Well-formed: member ids and nicks are unique, each member is well
    /// formed, and the nickname index runs in step with the member list,
    /// entry for entry.
    pub open spec fn wf(&self) -> bool {
        &&& (forall|i: int, j: int|
            0 <= i < j < self.members_view().len() ==> (#[trigger] self.members_view()[i]).id_spec()
                != (#[trigger] self.members_view()[j]).id_spec())
        &&& (forall|i: int, j: int|
            0 <= i < j < self.members_view().len() ==> (#[trigger] self.members_view()[i]).nick_view()
                != (#[trigger] self.members_view()[j]).nick_view())
        &&& (forall|i: int|
            0 <= i < self.members_view().len() ==> (#[trigger] self.members_view()[i]).wf())
        &&& self.nicknames_view().len() == self.members_view().len()
        &&& (forall|i: int|
            0 <= i < self.members_view().len() ==> (#[trigger] self.nicknames_view()[i]).id
                == self.members_view()[i].id_spec() && self.nicknames_view()[i].nick@
                == self.members_view()[i].nick_view())
        &&& self.flags_spec().wf()
        &&& list_nodup(self.ban_masks_view())
        &&& list_nodup(self.except_masks_view())
        &&& list_nodup(self.invite_masks_view())
    }

    /// Creates an empty channel.
    pub fn new(name: String, server_name: String) -> (r: Channel)
        ensures
            r.wf(),
            r.name_view() == name@,
            r.server_name_view() == server_name@,
            r.topic_view() == Seq::<u8>::empty(),
            r.password_view() is None,
            r.limit_spec() is None,
            r.members_view().len() == 0,
            forall|m: ChannelMode| !r.has_flag_spec(m),
            r.ban_masks_view().len() == 0,
            r.except_masks_view().len() == 0,
            r.invite_masks_view().len() == 0,
    {
        let c = Channel {
            name,
            server_name,
            topic: Vec::new(),
            password: None,
            flags: Flags::new(),
            limit: None,
            members: Vec::new(),
            nicknames: Vec::new(),
            ban_masks: Vec::new(),
            except_masks: Vec::new(),
            invite_masks: Vec::new(),
        };
        proof {
            assert(c.topic_view() =~= Seq::<u8>::empty());
        }
        c
    }

    /// Getter for the channel name.
    pub fn name(&self) -> (r: &str)
        ensures
            r@ == self.name_view(),
    {
        self.name.as_str()
    }

    /// Getter for the server name.
    pub fn server_name(&self) -> (r: &str)
        ensures
            r@ == self.server_name_view(),
    {
        self.server_name.as_str()
    }

    /// Getter for the topic.
    pub fn topic(&self) -> (r: &Vec<u8>)
        ensures
            r@ == self.topic_view(),
    {
        &self.topic
    }

    /// Setter for the topic.
    pub fn set_topic(&mut self, topic: Vec<u8>)
        ensures
            final(self).topic_view() == topic@,
            final(self).eq_but_topic(old(self)),
    {
        self.topic = topic;
    }

    /// Getter for the user limit.
    pub fn limit(&self) -> (r: Option<usize>)
        ensures
            r == self.limit_spec(),
    {
        self.limit
    }

    /// Setter for the user limit.
    pub fn set_limit(&mut self, limit: Option<usize>)
        ensures
            final(self).limit_spec() == limit,
            final(self).eq_but_limit(old(self)),
    {
        self.limit = limit;
    }

    /// Getter for the channel key.
    pub fn password(&self) -> (r: &Option<Vec<u8>>)
        ensures
            match r {
                Some(p) => self.password_view() == Some(p@),
                None => self.password_view() is None,
            },
    {
        &self.password
    }

    /// Setter for the channel key.
    pub fn set_password(&mut self, password: Option<Vec<u8>>)
        ensures
            final(self).password_view() == (match password {
                Some(p) => Some(p@),
                None => None::<Seq<u8>>,
            }),
            final(self).eq_but_password(old(self)),
    {
        self.password = password;
    }

    /// Everything but the topic is unchanged.
    pub open spec fn eq_but_topic(&self, other: &Channel) -> bool {
        &&& self.name_view() == other.name_view()
        &&& self.server_name_view() == other.server_name_view()
        &&& self.password_view() == other.password_view()
        &&& self.limit_spec() == other.limit_spec()
        &&& self.flags_spec() == other.flags_spec()
        &&& self.members_view() == other.members_view()
        &&& self.nicknames_view() == other.nicknames_view()
        &&& self.ban_masks_view() == other.ban_masks_view()
        &&& self.except_masks_view() == other.except_masks_view()
        &&& self.invite_masks_view() == other.invite_masks_view()
    }

    /// Everything but the limit is unchanged.
    pub open spec fn eq_but_limit(&self, other: &Channel) -> bool {
        &&& self.name_view() == other.name_view()
        &&& self.server_name_view() == other.server_name_view()
        &&& self.topic_view() == other.topic_view()
        &&& self.password_view() == other.password_view()
        &&& self.flags_spec() == other.flags_spec()
        &&& self.members_view() == other.members_view()
        &&& self.nicknames_view() == other.nicknames_view()
        &&& self.ban_masks_view() == other.ban_masks_view()
        &&& self.except_masks_view() == other.except_masks_view()
        &&& self.invite_masks_view() == other.invite_masks_view()
    }

    /// Everything but the key is unchanged.
    pub open spec fn eq_but_password(&self, other: &Channel) -> bool {
        &&& self.name_view() == other.name_view()
        &&& self.server_name_view() == other.server_name_view()
        &&& self.topic_view() == other.topic_view()
        &&& self.limit_spec() == other.limit_spec()
        &&& self.flags_spec() == other.flags_spec()
        &&& self.members_view() == other.members_view()
        &&& self.nicknames_view() == other.nicknames_view()
        &&& self.ban_masks_view() == other.ban_masks_view()
        &&& self.except_masks_view() == other.except_masks_view()
        &&& self.invite_masks_view() == other.invite_masks_view()
    }

    /// Everything but the flags is unchanged.
    pub open spec fn eq_but_flags(&self, other: &Channel) -> bool {
        &&& self.name_view() == other.name_view()
        &&& self.server_name_view() == other.server_name_view()
        &&& self.topic_view() == other.topic_view()
        &&& self.password_view() == other.password_view()
        &&& self.limit_spec() == other.limit_spec()
        &&& self.members_view() == other.members_view()
        &&& self.nicknames_view() == other.nicknames_view()
        &&& self.ban_masks_view() == other.ban_masks_view()
        &&& self.except_masks_view() == other.except_masks_view()
        &&& self.invite_masks_view() == other.invite_masks_view()
    }

    /// Everything but the members and the nickname index is unchanged.
    pub open spec fn eq_but_members(&self, other: &Channel) -> bool {
        &&& self.name_view() == other.name_view()
        &&& self.server_name_view() == other.server_name_view()
        &&& self.topic_view() == other.topic_view()
        &&& self.password_view() == other.password_view()
        &&& self.limit_spec() == other.limit_spec()
        &&& self.flags_spec() == other.flags_spec()
        &&& self.ban_masks_view() == other.ban_masks_view()
        &&& self.except_masks_view() == other.except_masks_view()
        &&& self.invite_masks_view() == other.invite_masks_view()
    }

    /// Everything but the three mask lists is unchanged.
    pub open spec fn eq_but_masks(&self, other: &Channel) -> bool {
        &&& self.name_view() == other.name_view()
        &&& self.server_name_view() == other.server_name_view()
        &&& self.topic_view() == other.topic_view()
        &&& self.password_view() == other.password_view()
        &&& self.limit_spec() == other.limit_spec()
        &&& self.flags_spec() == other.flags_spec()
        &&& self.members_view() == other.members_view()
        &&& self.nicknames_view() == other.nicknames_view()
    }

    /// The member count.
    pub fn member_count(&self) -> (r: usize)
        ensures
            r == self.members_view().len(),
    {
        self.members.len()
    }

    /// A view into the channel members.
    pub fn members(&self) -> (r: &Vec<Member>)
        ensures
            r@ == self.members_view(),
    {
        &self.members
    }

    /// Adds a flag to the channel; reports whether it was new.
    pub fn add_flag(&mut self, flag: ChannelMode) -> (r: bool)
        requires
            old(self).wf(),
        ensures
            final(self).wf(),
            r == !old(self).has_flag_spec(flag),
            final(self).has_flag_spec(flag),
            forall|x: ChannelMode|
                x != flag ==> final(self).has_flag_spec(x) == old(self).has_flag_spec(x),
            final(self).eq_but_flags(old(self)),
    {
        self.flags.insert(flag)
    }

    /// Removes a flag from the channel; reports whether it was there.
    pub fn remove_flag(&mut self, flag: ChannelMode) -> (r: bool)
        requires
            old(self).wf(),
        ensures
            final(self).wf(),
            r == old(self).has_flag_spec(flag),
            !final(self).has_flag_spec(flag),
            forall|x: ChannelMode|
                x != flag ==> final(self).has_flag_spec(x) == old(self).has_flag_spec(x),
            final(self).eq_but_flags(old(self)),
    {
        self.flags.remove(flag)
    }

    /// Whether the channel carries the flag.
    pub fn has_flag(&self, flag: ChannelMode) -> (r: bool)
        ensures
            r == self.has_flag_spec(flag),
    {
        self.flags.contains(flag)
    }

    /// The channel flags, as their letters.
    pub fn flags(&self) -> (r: Vec<u8>)
        ensures
            r@.len() == self.flags_spec()@.len(),
            forall|i: int|
                0 <= i < r@.len() ==> r@[i] == (#[trigger] self.flags_spec()@[i]).spec_letter(),
            crate::util::is_ascii_bytes(r@),
    {
        self.flags.letters()
    }

    /// Adds a ban mask; reports whether it was new.
    pub fn add_ban_mask(&mut self, mask: HostMask) -> (r: bool)
        requires
            old(self).wf(),
        ensures
            final(self).wf(),
            final(self).ban_masks_view() == (if r {
                old(self).ban_masks_view().push(mask)
            } else {
                old(self).ban_masks_view()
            }),
            r == !mask_list_has(old(self).ban_masks_view(), mask@),
            final(self).eq_but_masks(old(self)),
            final(self).except_masks_view() == old(self).except_masks_view(),
            final(self).invite_masks_view() == old(self).invite_masks_view(),
    {
        insert_mask(&mut self.ban_masks, mask)
    }

    /// Removes a ban mask; reports whether it was there.
    pub fn remove_ban_mask(&mut self, mask: HostMask) -> (r: bool)
        requires
            old(self).wf(),
        ensures
            final(self).wf(),
            r == mask_list_has(old(self).ban_masks_view(), mask@),
            !mask_list_has(final(self).ban_masks_view(), mask@),
            !r ==> final(self).ban_masks_view() == old(self).ban_masks_view(),
            forall|s: Seq<char>|
                s != mask@ ==> mask_list_has(final(self).ban_masks_view(), s) == mask_list_has(
                    old(self).ban_masks_view(),
                    s,
                ),
            final(self).eq_but_masks(old(self)),
            final(self).except_masks_view() == old(self).except_masks_view(),
            final(self).invite_masks_view() == old(self).invite_masks_view(),
    {
        remove_mask(&mut self.ban_masks, mask)
    }

    /// Adds an exception mask; reports whether it was new.
    pub fn add_except_mask(&mut self, mask: HostMask) -> (r: bool)
        requires
            old(self).wf(),
        ensures
            final(self).wf(),
            final(self).except_masks_view() == (if r {
                old(self).except_masks_view().push(mask)
            } else {
                old(self).except_masks_view()
            }),
            r == !mask_list_has(old(self).except_masks_view(), mask@),
            final(self).eq_but_masks(old(self)),
            final(self).ban_masks_view() == old(self).ban_masks_view(),
            final(self).invite_masks_view() == old(self).invite_masks_view(),
    {
        insert_mask(&mut self.except_masks, mask)
    }

    /// Removes an exception mask; reports whether it was there.
    pub fn remove_except_mask(&mut self, mask: HostMask) -> (r: bool)
        requires
            old(self).wf(),
        ensures
            final(self).wf(),
            r == mask_list_has(old(self).except_masks_view(), mask@),
            !mask_list_has(final(self).except_masks_view(), mask@),
            !r ==> final(self).except_masks_view() == old(self).except_masks_view(),
            forall|s: Seq<char>|
                s != mask@ ==> mask_list_has(final(self).except_masks_view(), s) == mask_list_has(
                    old(self).except_masks_view(),
                    s,
                ),
            final(self).eq_but_masks(old(self)),
            final(self).ban_masks_view() == old(self).ban_masks_view(),
            final(self).invite_masks_view() == old(self).invite_masks_view(),
    {
        remove_mask(&mut self.except_masks, mask)
    }

    /// Adds an invitation mask; reports whether it was new.
    pub fn add_invite_mask(&mut self, mask: HostMask) -> (r: bool)
        requires
            old(self).wf(),
        ensures
            final(self).wf(),
            final(self).invite_masks_view() == (if r {
                old(self).invite_masks_view().push(mask)
            } else {
                old(self).invite_masks_view()
            }),
            r == !mask_list_has(old(self).invite_masks_view(), mask@),
            final(self).eq_but_masks(old(self)),
            final(self).ban_masks_view() == old(self).ban_masks_view(),
            final(self).except_masks_view() == old(self).except_masks_view(),
    {
        insert_mask(&mut self.invite_masks, mask)
    }

    /// Removes an invitation mask; reports whether it was there.
    pub fn remove_invite_mask(&mut self, mask: HostMask) -> (r: bool)
        requires
            old(self).wf(),
        ensures
            final(self).wf(),
            r == mask_list_has(old(self).invite_masks_view(), mask@),
            !mask_list_has(final(self).invite_masks_view(), mask@),
            !r ==> final(self).invite_masks_view() == old(self).invite_masks_view(),
            forall|s: Seq<char>|
                s != mask@ ==> mask_list_has(final(self).invite_masks_view(), s) == mask_list_has(
                    old(self).invite_masks_view(),
                    s,
                ),
            final(self).eq_but_masks(old(self)),
            final(self).ban_masks_view() == old(self).ban_masks_view(),
            final(self).except_masks_view() == old(self).except_masks_view(),
    {
        remove_mask(&mut self.invite_masks, mask)
    }

    /// Getter for the ban masks.
    pub fn ban_masks(&self) -> (r: &Vec<HostMask>)
        ensures
            r@ == self.ban_masks_view(),
    {
        &self.ban_masks
    }

    /// Getter for the exception masks.
    pub fn except_masks(&self) -> (r: &Vec<HostMask>)
        ensures
            r@ == self.except_masks_view(),
    {
        &self.except_masks
    }

    /// Getter for the invitation masks.
    pub fn invite_masks(&self) -> (r: &Vec<HostMask>)
        ensures
            r@ == self.invite_masks_view(),
    {
        &self.invite_masks
    }

    /// Adds a member to the channel, unless one with the same id or the
    /// same nick is already in it.
    pub fn add_member(&mut self, member: Member) -> (r: bool)
        requires
            old(self).wf(),
            member.wf(),
        ensures
            final(self).wf(),
            r == (!has_member_id(old(self).members_view(), member.id_spec()) && !has_member_nick(
                old(self).members_view(),
                member.nick_view(),
            )),
            final(self).members_view() == (if r {
                old(self).members_view().push(member)
            } else {
                old(self).members_view()
            }),
            final(self).eq_but_members(old(self)),
    {
        if self.member_index_with_id(&member.id()).is_some() {
            return false;
        }
        let mut found_nick = false;
        let mut i: usize = 0;
        while i < self.members.len()
            invariant
                0 <= i <= self.members@.len(),
                found_nick == exists|j: int|
                    0 <= j < i && (#[trigger] self.members@[j]).nick_view() == member.nick_view(),
            decreases self.members@.len() - i,
        {
            let a = self.members[i].nick();
            let b = member.nick();
            if crate::cmd::eq_bytes(a.as_bytes(), b.as_bytes()) {
                proof {
                    lemma_str_bytes_agree(a, b);
                }
                found_nick = true;
            }
            i = i + 1;
        }
        if found_nick {
            return false;
        }
        self.nicknames.push(
            NickEntry { id: member.id(), nick: crate::member::clone_string_str(member.nick()) },
        );
        self.members.push(member);
        true
    }

    /// Removes the member with the given id; reports whether it was there.
    pub fn remove_member(&mut self, id: &PeerId) -> (r: bool)
        requires
            old(self).wf(),
        ensures
            final(self).wf(),
            r == has_member_id(old(self).members_view(), *id),
            !has_member_id(final(self).members_view(), *id),
            r ==> final(self).members_view() == old(self).members_view().remove(
                member_idx(old(self).members_view(), *id),
            ),
            !r ==> final(self).members_view() == old(self).members_view(),
            final(self).eq_but_members(old(self)),
    {
        match self.member_index_with_id(id) {
            None => false,
            Some(i) => {
                let ghost pre = self.members@;
                self.members.remove(i);
                self.nicknames.remove(i);
                proof {
                    assert(member_idx(pre, *id) == i as int);
                    assert forall|k: int|
                        0 <= k < self.members@.len() implies (#[trigger] self.members@[k]).id_spec()
                        != *id by {
                        if k < i {
                            assert(self.members@[k] == pre[k]);
                        } else {
                            assert(self.members@[k] == pre[k + 1]);
                        }
                    }
                }
                true
            },
        }
    }

    /// The index of the member with the given id.
    pub fn member_index_with_id(&self, id: &PeerId) -> (r: Option<usize>)
        requires
            self.wf(),
        ensures
            match r {
                Some(i) => i < self.members_view().len() && self.members_view()[i as int].id_spec()
                    == *id && i as int == member_idx(self.members_view(), *id),
                None => !has_member_id(self.members_view(), *id),
            },
    {
        let mut i: usize = 0;
        while i < self.members.len()
            invariant
                0 <= i <= self.members@.len(),
                forall|j: int| 0 <= j < i ==> (#[trigger] self.members@[j]).id_spec() != *id,
                self.wf(),
            decreases self.members@.len() - i,
    {
            if peer_id_eq(&self.members[i].id(), id) {
                proof {
                    assert(has_member_id(self.members@, *id));
                    let w = member_idx(self.members@, *id);
                    assert(self.members@[w].id_spec() == *id);
                    if w < i as int {
                        assert(false);
                    } else if w > i as int {
                        assert(self.members@[i as int].id_spec() == *id);
                        assert(false);
                    }
                }
                return Some(i);
            }
            i = i + 1;
        }
        None
    }

    /// The member with the given id, if it is in the channel.
    pub fn member_with_id(&self, client_id: PeerId) -> (r: Option<&Member>)
        requires
            self.wf(),
        ensures
            match r {
                Some(m) => has_member_id(self.members_view(), client_id) && *m
                    == self.members_view()[member_idx(self.members_view(), client_id)],
                None => !has_member_id(self.members_view(), client_id),
            },
    {
        match self.member_index_with_id(&client_id) {
            Some(i) => Some(&self.members[i]),
            None => None,
        }
    }

    /// The index of the member with the given nick.
    pub fn member_index_with_nick(&self, nick: &str) -> (r: Option<usize>)
        requires
            self.wf(),
        ensures
            match r {
                Some(i) => i < self.members_view().len()
                    && self.members_view()[i as int].nick_view() == nick@,
                None => !has_member_nick(self.members_view(), nick@),
            },
    {
        let mut i: usize = 0;
        while i < self.members.len()
            invariant
                0 <= i <= self.members@.len(),
                forall|j: int| 0 <= j < i ==> (#[trigger] self.members@[j]).nick_view() != nick@,
                self.wf(),
            decreases self.members@.len() - i,
        {
            let a = self.members[i].nick();
            if crate::cmd::eq_bytes(a.as_bytes(), nick.as_bytes()) {
                proof {
                    lemma_str_bytes_agree(a, nick);
                }
                return Some(i);
            }
            i = i + 1;
        }
        None
    }

    /// The member with the given nick, if it is in the channel.
    pub fn member_with_nick(&self, nick: &str) -> (r: Option<&Member>)
        requires
            self.wf(),
        ensures
            match r {
                Some(m) => has_member_nick(self.members_view(), nick@) && m.nick_view() == nick@
                    && has_member_id(self.members_view(), m.id_spec()),
                None => !has_member_nick(self.members_view(), nick@),
            },
    {
        match self.member_index_with_nick(nick) {
            Some(i) => {
                let m = &self.members[i];
                proof {
                    assert(self.members_view()[i as int].id_spec() == m.id_spec());
                }
                Some(m)
            },
            None => None,
        }
    }

    /// Grants a privilege to the member with the given nick; hands back
    /// the nick when it was found.
    pub fn promote_nick(&mut self, nick: &str, flag: ChannelMode) -> (r: bool)
        requires
            old(self).wf(),
        ensures
            final(self).wf(),
            r == has_member_nick(old(self).members_view(), nick@),
            final(self).eq_but_members(old(self)),
            final(self).members_view().len() == old(self).members_view().len(),
            forall|k: int|
                0 <= k < final(self).members_view().len() && (#[trigger] final(self).members_view()[k]).nick_view() != nick@ ==> final(self).members_view()[k] == old(self).members_view()[k],
            forall|k: int|
                0 <= k < final(self).members_view().len() && (#[trigger] final(self).members_view()[k]).nick_view() == nick@ ==> final(self).members_view()[k].has_flag(flag) && final(self).members_view()[k].id_spec()
                    == old(self).members_view()[k].id_spec() && final(self).members_view()[k].nick_view() == old(self).members_view()[k].nick_view(),
    {
        match self.member_index_with_nick(nick) {
            None => false,
            Some(i) => {
                let ghost pre = self.members@;
                let m = &mut self.members[i];
                m.promote(flag);
                proof {
                    assert(self.members@ =~= pre.update(i as int, self.members@[i as int]));
                    assert forall|k: int|
                        0 <= k < self.nicknames@.len() implies (#[trigger] self.nicknames@[k]).id
                        == self.members@[k].id_spec() && self.nicknames@[k].nick@
                        == self.members@[k].nick_view() by {}
                }
                true
            },
        }
    }

    /// Takes a privilege from the member with the given nick.
    pub fn demote_nick(&mut self, nick: &str, flag: ChannelMode) -> (r: bool)
        requires
            old(self).wf(),
        ensures
            final(self).wf(),
            r == has_member_nick(old(self).members_view(), nick@),
            final(self).eq_but_members(old(self)),
            final(self).members_view().len() == old(self).members_view().len(),
            forall|k: int|
                0 <= k < final(self).members_view().len() && (#[trigger] final(self).members_view()[k]).nick_view() != nick@ ==> final(self).members_view()[k] == old(self).members_view()[k],
            forall|k: int|
                0 <= k < final(self).members_view().len() && (#[trigger] final(self).members_view()[k]).nick_view() == nick@ ==> !final(self).members_view()[k].has_flag(flag) && final(self).members_view()[k].id_spec()
                    == old(self).members_view()[k].id_spec() && final(self).members_view()[k].nick_view() == old(self).members_view()[k].nick_view(),
    {
        match self.member_index_with_nick(nick) {
            None => false,
            Some(i) => {
                let ghost pre = self.members@;
                let m = &mut self.members[i];
                m.demote(flag);
                proof {
                    assert(self.members@ =~= pre.update(i as int, self.members@[i as int]));
                }
                true
            },
        }
    }

    /// Builds a numeric reply to the given peer, with this channel's
    /// server as origin.
    pub fn send_response(&self, client: &Peer, command: ResponseCode, params: &[&str]) -> (r:
        Envelope)
        ensures
            r.to == client.info_spec().id_spec(),
            r.msg.command_view() == crate::cmd::Command::REPLY(command).to_bytes_spec(),
            r.msg.prefix_view() == Some(crate::util::char_bytes(self.server_name_view())),
            r.msg.params_view() == seq![
                crate::util::char_bytes(client.info_spec().nick_view()),
            ] + Seq::new(params@.len(), |i: int| params@[i].spec_bytes()),
    {
        client.send_response(command, params, self.server_name.as_str())
    }

    /// Addresses a copy of the message to every member, in joining order.
    pub fn broadcast(&self, message: &RawMessage) -> (r: Vec<Envelope>)
        ensures
            r@.len() == self.members_view().len(),
            forall|i: int|
                0 <= i < r@.len() ==> (#[trigger] r@[i]).to == self.members_view()[i].id_spec()
                    && r@[i].msg.model() == message.model() && r@[i].msg.raw_view()
                    == message.raw_view(),
    {
        let mut out: Vec<Envelope> = Vec::new();
        let mut i: usize = 0;
        while i < self.members.len()
            invariant
                0 <= i <= self.members@.len(),
                out@.len() == i,
                forall|j: int|
                    0 <= j < i ==> (#[trigger] out@[j]).to == self.members@[j].id_spec()
                        && out@[j].msg.model() == message.model() && out@[j].msg.raw_view()
                        == message.raw_view(),
            decreases self.members@.len() - i,
        {
            out.push(self.members[i].send_msg(message.duplicate()));
            i = i + 1;
        }
        out
    }
}

/// Every entry of the nickname index names a member that carries the
/// entry's id.
pub proof fn lemma_nick_index_entries_have_members(c: &Channel)
    requires
        c.wf(),
    ensures
        forall|i: int|
            0 <= i < c.nicknames_view().len() ==> has_member_nick(
                c.members_view(),
                (#[trigger] c.nicknames_view()[i]).nick@,
            ) && has_member_id(c.members_view(), c.nicknames_view()[i].id),
{
    assert forall|i: int|
        0 <= i < c.nicknames_view().len() implies has_member_nick(
        c.members_view(),
        (#[trigger] c.nicknames_view()[i]).nick@,
    ) && has_member_id(c.members_view(), c.nicknames_view()[i].id) by {
        assert(c.members_view()[i].nick_view() == c.nicknames_view()[i].nick@);
        assert(c.members_view()[i].id_spec() == c.nicknames_view()[i].id);
    }
}

/// The member stands in the nickname index, under its nick and id.
pub open spec fn member_has_entry(nicknames: Seq<NickEntry>, m: Member) -> bool {
    exists|i: int|
        0 <= i < nicknames.len() && (#[trigger] nicknames[i]).id == m.id_spec()
            && nicknames[i].nick@ == m.nick_view()
}

/// Every member stands in the nickname index, under its nick and id.
pub proof fn lemma_members_have_nick_entries(c: &Channel)
    requires
        c.wf(),
    ensures
        forall|k: int|
            0 <= k < c.members_view().len() ==> #[trigger] member_has_entry(
                c.nicknames_view(),
                c.members_view()[k],
            ),
{
    assert forall|k: int|
        0 <= k < c.members_view().len() implies #[trigger] member_has_entry(
        c.nicknames_view(),
        c.members_view()[k],
    ) by {
        assert(c.nicknames_view()[k].id == c.members_view()[k].id_spec()
            && c.nicknames_view()[k].nick@ == c.members_view()[k].nick_view());
    }
}

/// A member whose nick an index entry carries has the entry's id: looking
/// a nick up in the index and in the member table finds the same peer.
pub proof fn lemma_nick_index_sound(c: &Channel)
    requires
        c.wf(),
    ensures
        forall|i: int, k: int|
            0 <= i < c.nicknames_view().len() && 0 <= k < c.members_view().len() && (
            #[trigger] c.members_view()[k]).nick_view() == (#[trigger] c.nicknames_view()[i]).nick@
                ==> c.members_view()[k].id_spec() == c.nicknames_view()[i].id,
{
    assert forall|i: int, k: int|
        0 <= i < c.nicknames_view().len() && 0 <= k < c.members_view().len() && (
    #[trigger] c.members_view()[k]).nick_view() == (#[trigger] c.nicknames_view()[i]).nick@ implies c.members_view()[k].id_spec()
        == c.nicknames_view()[i].id by {
        assert(c.members_view()[i].nick_view() == c.nicknames_view()[i].nick@);
        if k < i {
            assert(c.members_view()[k].nick_view() != c.members_view()[i].nick_view());
        } else if k > i {
            assert(c.members_view()[i].nick_view() != c.members_view()[k].nick_view());
        }
    }
}

/// Whether the list holds a mask with the given characters.
pub open spec fn mask_list_has(masks: Seq<HostMask>, s: Seq<char>) -> bool {
    exists|i: int| 0 <= i < masks.len() && (#[trigger] masks[i])@ == s
}

/// Adds a mask to a list, unless an equal one is there.
fn insert_mask(masks: &mut Vec<HostMask>, mask: HostMask) -> (r: bool)
    ensures
        r == !mask_list_has(old(masks)@, mask@),
        final(masks)@ == (if r {
            old(masks)@.push(mask)
        } else {
            old(masks)@
        }),
        list_nodup(old(masks)@) ==> list_nodup(final(masks)@),
{
    let mut i: usize = 0;
    while i < masks.len()
        invariant
            0 <= i <= masks@.len(),
            forall|j: int| 0 <= j < i ==> (#[trigger] masks@[j])@ != mask@,
        decreases masks@.len() - i,
    {
        let a = masks[i].as_str();
        let b = mask.as_str();
        if crate::cmd::eq_bytes(a.as_bytes(), b.as_bytes()) {
            proof {
                lemma_str_bytes_agree(a, b);
            }
            return false;
        }
        i = i + 1;
    }
    masks.push(mask);
    true
}

/// Removes the mask with the given characters from a list.
fn remove_mask(masks: &mut Vec<HostMask>, mask: HostMask) -> (r: bool)
    ensures
        r == mask_list_has(old(masks)@, mask@),
        !mask_list_has(final(masks)@, mask@) || !list_nodup(old(masks)@),
        forall|s: Seq<char>|
            s != mask@ ==> mask_list_has(final(masks)@, s) == mask_list_has(old(masks)@, s),
        list_nodup(old(masks)@) ==> list_nodup(final(masks)@),
        !mask_list_has(old(masks)@, mask@) ==> final(masks)@ == old(masks)@,
{
    let mut i: usize = 0;
    while i < masks.len()
        invariant
            0 <= i <= masks@.len(),
            masks@ == old(masks)@,
            forall|j: int| 0 <= j < i ==> (#[trigger] masks@[j])@ != mask@,
        decreases masks@.len() - i,
    {
        let a = masks[i].as_str();
        let b = mask.as_str();
        if crate::cmd::eq_bytes(a.as_bytes(), b.as_bytes()) {
            proof {
                lemma_str_bytes_agree(a, b);
            }
            let ghost pre = masks@;
            masks.remove(i);
            proof {
                assert forall|s: Seq<char>|
                    s != mask@ implies mask_list_has(masks@, s) == mask_list_has(pre, s) by {
                    if mask_list_has(pre, s) {
                        let j = choose|j: int| 0 <= j < pre.len() && (#[trigger] pre[j])@ == s;
                        if j < i {
                            assert(masks@[j]@ == s);
                        } else {
                            assert(masks@[j - 1]@ == s);
                        }
                    }
                    if mask_list_has(masks@, s) {
                        let j = choose|j: int|
                            0 <= j < masks@.len() && (#[trigger] masks@[j])@ == s;
                        if j < i {
                            assert(pre[j]@ == s);
                        } else {
                            assert(pre[j + 1]@ == s);
                        }
                    }
                }
                if list_nodup(pre) {
                    assert forall|j: int|
                        0 <= j < masks@.len() implies (#[trigger] masks@[j])@ != mask@ by {
                        if j < i {
                            assert(pre[j]@ != mask@);
                        } else {
                            assert(masks@[j] == pre[j + 1]);
                        }
                    }
                }
            }
            return true;
        }
        i = i + 1;
    }
    false
}

/// No two masks of the list have the same characters.
pub open spec fn list_nodup(masks: Seq<HostMask>) -> bool {
    forall|i: int, j: int| 0 <= i < j < masks.len() ==> (#[trigger] masks[i])@ != (#[trigger] masks[j])@
}

/// Two string slices with the same UTF-8 bytes have the same characters.
pub(crate) proof fn lemma_str_bytes_agree(a: &str, b: &str)
    requires
        a.spec_bytes() == b.spec_bytes(),
    ensures
        a@ == b@,
{
    vstd::utf8::encode_utf8_decode_utf8(a@);
    vstd::utf8::encode_utf8_decode_utf8(b@);
}

/// Compares two peer ids.
fn peer_id_eq(a: &PeerId, b: &PeerId) -> (r: bool)
    ensures
        r == (*a == *b),
{
    a.id0 == b.id0 && a.id1 == b.id1
}

} // verus!
