//! The server directories: connections, registered users, the nickname
//! directory, and the channels.
//!
//! The event loop around the library hands every parsed line to
//! [`crate::handlers::dispatch_message`]; the directories themselves live
//! here, with their invariant [`Server::wf`]: ids and nicks are unique,
//! every user's nick is in the nickname directory under the user's id, and
//! no channel is empty.

use vstd::prelude::*;
use vstd::string::StringSliceAdditionalSpecFns;

use crate::channel::Channel;
use crate::cmd::ResponseCode;
use crate::con::{Connection, Envelope, Peer, PeerId};
use crate::member::clone_string;

verus! {

/// One entry of the nickname directory.
pub struct NickMapEntry {
    pub nick: String,
    pub id: PeerId,
}

/// Whether the directory holds an entry for the nick.
pub open spec fn nick_in_map(nicks: Seq<NickMapEntry>, nick: Seq<char>) -> bool {
    exists|i: int| 0 <= i < nicks.len() && (#[trigger] nicks[i]).nick@ == nick
}

/// Entry `i` of the user list has its nick entered in the nickname
/// directory under its id.
pub open spec fn user_nick_entered(users: Seq<Peer>, nicks: Seq<NickMapEntry>, i: int) -> bool {
    exists|j: int|
        0 <= j < nicks.len() && (#[trigger] nicks[j]).nick@ == users[i].info_spec().nick_view()
            && nicks[j].id == users[i].info_spec().id_spec()
}

/// Whether the directory holds an entry binding the nick to the id.
pub open spec fn nick_entry_in(nicks: Seq<NickMapEntry>, nick: Seq<char>, id: PeerId) -> bool {
    exists|k: int| 0 <= k < nicks.len() && (#[trigger] nicks[k]).nick@ == nick && nicks[k].id == id
}

/// `new_nicks` is `old_nicks` with every entry of the given id taken out:
/// no entry carries the id, nothing was invented, and every other entry
/// survives.
pub open spec fn nicks_purged(
    old_nicks: Seq<NickMapEntry>,
    new_nicks: Seq<NickMapEntry>,
    id: PeerId,
) -> bool {
    &&& (forall|k: int| 0 <= k < new_nicks.len() ==> (#[trigger] new_nicks[k]).id != id)
    &&& (forall|k: int|
        0 <= k < new_nicks.len() ==> nick_entry_in(
            old_nicks,
            (#[trigger] new_nicks[k]).nick@,
            new_nicks[k].id,
        ))
    &&& (forall|j: int|
        0 <= j < old_nicks.len() && (#[trigger] old_nicks[j]).id != id ==> nick_entry_in(
            new_nicks,
            old_nicks[j].nick@,
            old_nicks[j].id,
        ))
}

/// Keeps the entries whose id differs from the given one, in order.
fn filter_nicks(nicks: &Vec<NickMapEntry>, id: &PeerId) -> (r: Vec<NickMapEntry>)
    requires
        forall|a: int, b: int|
            0 <= a < b < nicks@.len() ==> (#[trigger] nicks@[a]).nick@ != (
            #[trigger] nicks@[b]).nick@,
    ensures
        nicks_purged(nicks@, r@, *id),
        forall|a: int, b: int|
            0 <= a < b < r@.len() ==> (#[trigger] r@[a]).nick@ != (#[trigger] r@[b]).nick@,
        forall|n: Seq<char>| nick_in_map(r@, n) ==> nick_in_map(nicks@, n),
{
    let mut kept: Vec<NickMapEntry> = Vec::new();
    let mut i: usize = 0;
    while i < nicks.len()
        invariant
            0 <= i <= nicks@.len(),
            forall|a: int, b: int|
                0 <= a < b < nicks@.len() ==> (#[trigger] nicks@[a]).nick@ != (
                #[trigger] nicks@[b]).nick@,
            forall|k: int| 0 <= k < kept@.len() ==> (#[trigger] kept@[k]).id != *id,
            forall|k: int|
                0 <= k < kept@.len() ==> exists|j: int|
                    0 <= j < i && (#[trigger] kept@[k]).nick@ == nicks@[j].nick@ && kept@[k].id
                        == nicks@[j].id,
            forall|j: int|
                0 <= j < i && (#[trigger] nicks@[j]).id != *id ==> nick_entry_in(
                    kept@,
                    nicks@[j].nick@,
                    nicks@[j].id,
                ),
            forall|a: int, b: int|
                0 <= a < b < kept@.len() ==> (#[trigger] kept@[a]).nick@ != (
                #[trigger] kept@[b]).nick@,
        decreases nicks@.len() - i,
    {
        if !peer_id_eq(&nicks[i].id, id) {
            let ghost pre = kept@;
            kept.push(
                NickMapEntry { nick: clone_string(&nicks[i].nick), id: nicks[i].id },
            );
            proof {
                assert forall|a: int, b: int|
                    0 <= a < b < kept@.len() implies (#[trigger] kept@[a]).nick@ != (
                #[trigger] kept@[b]).nick@ by {
                    if b == pre.len() {
                        let j = choose|j: int|
                            0 <= j < i && (#[trigger] pre[a]).nick@ == nicks@[j].nick@ && pre[a].id
                                == nicks@[j].id;
                        assert(nicks@[j].nick@ != nicks@[i as int].nick@);
                    }
                }
                assert forall|j: int|
                    0 <= j < i + 1 && (#[trigger] nicks@[j]).id != *id implies nick_entry_in(
                    kept@,
                    nicks@[j].nick@,
                    nicks@[j].id,
                ) by {
                    if j < i {
                        let k = choose|k: int|
                            0 <= k < pre.len() && (#[trigger] pre[k]).nick@ == nicks@[j].nick@
                                && pre[k].id == nicks@[j].id;
                        assert(kept@[k].nick@ == nicks@[j].nick@);
                    } else {
                        assert(kept@[kept@.len() - 1].nick@ == nicks@[j].nick@);
                    }
                }
            }
        }
        i = i + 1;
    }
    proof {
        assert forall|n: Seq<char>| nick_in_map(kept@, n) implies nick_in_map(nicks@, n) by {
            if nick_in_map(kept@, n) {
                let k = choose|k: int| 0 <= k < kept@.len() && (#[trigger] kept@[k]).nick@ == n;
                let j = choose|j: int|
                    0 <= j < nicks@.len() && (#[trigger] kept@[k]).nick@ == nicks@[j].nick@
                        && kept@[k].id == nicks@[j].id;
                assert(nicks@[j].nick@ == n);
            }
        }
    }
    kept
}

/// Whether the user list holds a peer with the id.
pub open spec fn has_user_id(users: Seq<Peer>, id: PeerId) -> bool {
    exists|i: int| 0 <= i < users.len() && (#[trigger] users[i]).info_spec().id_spec() == id
}

/// The index of the peer with the id.
pub open spec fn user_idx(users: Seq<Peer>, id: PeerId) -> int {
    choose|i: int| 0 <= i < users.len() && (#[trigger] users[i]).info_spec().id_spec() == id
}

/// The index of the directory entry with the nick.
pub open spec fn nick_idx(nicks: Seq<NickMapEntry>, nick: Seq<char>) -> int {
    choose|i: int| 0 <= i < nicks.len() && (#[trigger] nicks[i]).nick@ == nick
}

/// Whether the connection list holds a connection with the id.
pub open spec fn has_con_id(cons: Seq<Connection>, id: PeerId) -> bool {
    exists|i: int| 0 <= i < cons.len() && (#[trigger] cons[i]).id_spec() == id
}

/// The index of the connection with the id.
pub open spec fn con_idx(cons: Seq<Connection>, id: PeerId) -> int {
    choose|i: int| 0 <= i < cons.len() && (#[trigger] cons[i]).id_spec() == id
}

/// Whether the channel list holds a channel with the name.
pub open spec fn has_channel_name(channels: Seq<Channel>, name: Seq<char>) -> bool {
    exists|i: int| 0 <= i < channels.len() && (#[trigger] channels[i]).name_view() == name
}

/// The index of the channel with the name.
pub open spec fn channel_idx(channels: Seq<Channel>, name: Seq<char>) -> int {
    choose|i: int| 0 <= i < channels.len() && (#[trigger] channels[i]).name_view() == name
}

/// The IRC server state.
pub struct Server {
    host: String,
    connections: Vec<Connection>,
    users: Vec<Peer>,
    nicks: Vec<NickMapEntry>,
    channels: Vec<Channel>,
}

impl Server {
    /// The configured host name.
    pub closed spec fn host_view(&self) -> Seq<char> {
        self.host@
    }

    /// The connections not yet (or still) in the directory.
    pub closed spec fn connections_view(&self) -> Seq<Connection> {
        self.connections@
    }

    /// The registered users.
    pub closed spec fn users_view(&self) -> Seq<Peer> {
        self.users@
    }

    /// The nickname directory.
    pub closed spec fn nicks_view(&self) -> Seq<NickMapEntry> {
        self.nicks@
    }

    /// The channels.
    pub closed spec fn channels_view(&self) -> Seq<Channel> {
        self.channels@
    }

    /// Well-formed: user ids unique; nicks unique; every user's nick in
    /// the directory under the user's id; connection ids unique; channel
    /// names unique, each channel well formed, and no channel empty.
    pub open spec fn wf(&self) -> bool {
        &&& (forall|i: int, j: int|
            0 <= i < j < self.users_view().len() ==> (#[trigger] self.users_view()[i]).info_spec().id_spec()
                != (#[trigger] self.users_view()[j]).info_spec().id_spec())
        &&& (forall|i: int, j: int|
            0 <= i < j < self.nicks_view().len() ==> (#[trigger] self.nicks_view()[i]).nick@
                != (#[trigger] self.nicks_view()[j]).nick@)
        &&& (forall|i: int|
            0 <= i < self.users_view().len() ==> #[trigger] user_nick_entered(
                self.users_view(),
                self.nicks_view(),
                i,
            ))
        &&& (forall|i: int, j: int|
            0 <= i < j < self.connections_view().len() ==> (#[trigger] self.connections_view()[i]).id_spec()
                != (#[trigger] self.connections_view()[j]).id_spec())
        &&& (forall|i: int, j: int|
            0 <= i < j < self.channels_view().len() ==> (#[trigger] self.channels_view()[i]).name_view()
                != (#[trigger] self.channels_view()[j]).name_view())
        &&& (forall|i: int|
            0 <= i < self.channels_view().len() ==> (#[trigger] self.channels_view()[i]).wf())
        &&& (forall|i: int|
            0 <= i < self.channels_view().len() ==> (#[trigger] self.channels_view()[i]).members_view().len()
                > 0)
    }

    /// Creates a server with empty directories.
    pub fn new(host: String) -> (r: Server)
        ensures
            r.wf(),
            r.host_view() == host@,
            r.users_view().len() == 0,
            r.nicks_view().len() == 0,
            r.connections_view().len() == 0,
            r.channels_view().len() == 0,
    {
        Server {
            host,
            connections: Vec::new(),
            users: Vec::new(),
            nicks: Vec::new(),
            channels: Vec::new(),
        }
    }

    /// The nickname directory never contradicts the user list: an entry
    /// that carries a registered user's nick carries that user's id, and
    /// every registered user's nick has its entry.
    pub proof fn lemma_nick_directory_agrees(&self)
        requires
            self.wf(),
        ensures
            forall|i: int, j: int|
                0 <= i < self.users_view().len() && 0 <= j < self.nicks_view().len() && (
                #[trigger] self.nicks_view()[j]).nick@ == (#[trigger] self.users_view()[i]).info_spec().nick_view()
                    ==> self.nicks_view()[j].id == self.users_view()[i].info_spec().id_spec(),
            forall|i: int|
                0 <= i < self.users_view().len() ==> nick_in_map(
                    self.nicks_view(),
                    (#[trigger] self.users_view()[i]).info_spec().nick_view(),
                ),
    {
        assert forall|i: int, j: int|
            0 <= i < self.users_view().len() && 0 <= j < self.nicks_view().len() && (
            #[trigger] self.nicks_view()[j]).nick@ == (#[trigger] self.users_view()[i]).info_spec().nick_view() implies self.nicks_view()[j].id
            == self.users_view()[i].info_spec().id_spec() by {
            assert(user_nick_entered(self.users_view(), self.nicks_view(), i));
            let w = choose|w: int|
                0 <= w < self.nicks_view().len() && (#[trigger] self.nicks_view()[w]).nick@
                    == self.users_view()[i].info_spec().nick_view() && self.nicks_view()[w].id
                    == self.users_view()[i].info_spec().id_spec();
            if w != j {
                assert(self.nicks_view()[w].nick@ == self.nicks_view()[j].nick@);
            }
        }
        assert forall|i: int|
            0 <= i < self.users_view().len() implies nick_in_map(
            self.nicks_view(),
            (#[trigger] self.users_view()[i]).info_spec().nick_view(),
        ) by {
            assert(user_nick_entered(self.users_view(), self.nicks_view(), i));
            let w = choose|w: int|
                0 <= w < self.nicks_view().len() && (#[trigger] self.nicks_view()[w]).nick@
                    == self.users_view()[i].info_spec().nick_view() && self.nicks_view()[w].id
                    == self.users_view()[i].info_spec().id_spec();
            assert(self.nicks_view()[w].nick@ == self.users_view()[i].info_spec().nick_view());
        }
    }

    /// No channel of the directory is empty: a channel leaves the
    /// directory with its last member.
    pub proof fn lemma_no_empty_channels(&self)
        requires
            self.wf(),
        ensures
            forall|i: int|
                0 <= i < self.channels_view().len() ==> (#[trigger] self.channels_view()[i]).members_view().len()
                    > 0,
    {
    }

    /// Whether the nick is longer than one byte.  Registration does not
    /// gate on this: the grammar admits single-character nicks, which the
    /// handlers accept.
    pub fn valid_nick(&self, nick: &str) -> (r: bool)
        ensures
            r == (nick.spec_bytes().len() > 1),
    {
        nick.as_bytes().len() > 1
    }

    /// Getter for the hostname.
    pub fn host(&self) -> (r: &str)
        ensures
            r@ == self.host_view(),
    {
        self.host.as_str()
    }

    /// The index of the registered user with the given id.
    pub fn user_index(&self, id: &PeerId) -> (r: Option<usize>)
        requires
            self.wf(),
        ensures
            match r {
                Some(i) => i < self.users_view().len()
                    && self.users_view()[i as int].info_spec().id_spec() == *id && i as int
                    == user_idx(self.users_view(), *id),
                None => !has_user_id(self.users_view(), *id),
            },
    {
        let mut i: usize = 0;
        while i < self.users.len()
            invariant
                0 <= i <= self.users@.len(),
                forall|j: int|
                    0 <= j < i ==> (#[trigger] self.users@[j]).info_spec().id_spec() != *id,
                self.wf(),
            decreases self.users@.len() - i,
        {
            if peer_id_eq(&self.users[i].id(), id) {
                proof {
                    assert(self.users_view() == self.users@);
                    assert(self.users_view()[i as int].info_spec().id_spec() == *id);
                    assert(has_user_id(self.users_view(), *id));
                    let w = user_idx(self.users_view(), *id);
                    assert(0 <= w < self.users_view().len()
                        && self.users_view()[w].info_spec().id_spec() == *id);
                    if w < i as int {
                        assert(self.users_view()[w].info_spec().id_spec()
                            != self.users_view()[i as int].info_spec().id_spec());
                    } else if w > i as int {
                        assert(self.users_view()[i as int].info_spec().id_spec()
                            != self.users_view()[w].info_spec().id_spec());
                    }
                }
                return Some(i);
            }
            i = i + 1;
        }
        None
    }

    /// The registered user with the given id.
    pub fn user_with_id(&self, id: &PeerId) -> (r: Option<&Peer>)
        requires
            self.wf(),
        ensures
            match r {
                Some(p) => has_user_id(self.users_view(), *id) && p.info_spec().id_spec() == *id
                    && *p == self.users_view()[user_idx(self.users_view(), *id)],
                None => !has_user_id(self.users_view(), *id),
            },
    {
        match self.user_index(id) {
            Some(i) => Some(&self.users[i]),
            None => None,
        }
    }

    /// The index of the nickname directory entry with the given nick.
    pub fn nick_index(&self, nick: &str) -> (r: Option<usize>)
        requires
            self.wf(),
        ensures
            match r {
                Some(i) => i < self.nicks_view().len() && self.nicks_view()[i as int].nick@
                    == nick@ && i as int == nick_idx(self.nicks_view(), nick@) && nick_in_map(
                    self.nicks_view(),
                    nick@,
                ),
                None => !nick_in_map(self.nicks_view(), nick@),
            },
    {
        let mut i: usize = 0;
        while i < self.nicks.len()
            invariant
                0 <= i <= self.nicks@.len(),
                self.wf(),
                forall|j: int| 0 <= j < i ==> (#[trigger] self.nicks@[j]).nick@ != nick@,
            decreases self.nicks@.len() - i,
        {
            let a = self.nicks[i].nick.as_str();
            if crate::cmd::eq_bytes(a.as_bytes(), nick.as_bytes()) {
                proof {
                    crate::channel::lemma_str_bytes_agree(a, nick);
                    assert(nick_in_map(self.nicks_view(), nick@));
                    let w = nick_idx(self.nicks_view(), nick@);
                    assert(0 <= w < self.nicks_view().len() && self.nicks_view()[w].nick@
                        == nick@);
                    if w < i as int {
                        assert(self.nicks_view()[w].nick@ != self.nicks_view()[i as int].nick@);
                    } else if w > i as int {
                        assert(self.nicks_view()[i as int].nick@ != self.nicks_view()[w].nick@);
                    }
                }
                return Some(i);
            }
            i = i + 1;
        }
        None
    }

    /// Finds the registered peer that goes by the nick: the nickname
    /// directory gives the id, the user directory the peer.
    pub fn get_peer(&self, nick: &str) -> (r: Option<&Peer>)
        requires
            self.wf(),
        ensures
            !nick_in_map(self.nicks_view(), nick@) ==> r is None,
            nick_in_map(self.nicks_view(), nick@) ==> {
                let bound = self.nicks_view()[nick_idx(self.nicks_view(), nick@)].id;
                match r {
                    Some(p) => has_user_id(self.users_view(), bound) && *p
                        == self.users_view()[user_idx(self.users_view(), bound)]
                        && p.info_spec().id_spec() == bound,
                    None => !has_user_id(self.users_view(), bound),
                }
            },
    {
        match self.nick_index(nick) {
            Some(i) => {
                let id = self.nicks[i].id;
                self.user_with_id(&id)
            },
            None => None,
        }
    }

    /// Enters a connection in the directory; refuses a duplicate id, which
    /// the caller then closes.
    pub fn add_connection(&mut self, con: Connection) -> (r: bool)
        requires
            old(self).wf(),
        ensures
            final(self).wf(),
            r == !has_con_id(old(self).connections_view(), con.id_spec()),
            final(self).connections_view() == (if r {
                old(self).connections_view().push(con)
            } else {
                old(self).connections_view()
            }),
            final(self).eq_but_connections(old(self)),
    {
        let mut i: usize = 0;
        while i < self.connections.len()
            invariant
                0 <= i <= self.connections@.len(),
                self == old(self),
                old(self).wf(),
                forall|j: int| 0 <= j < i ==> (#[trigger] self.connections@[j]).id_spec() != con.id_spec(),
            decreases self.connections@.len() - i,
        {
            if peer_id_eq(&self.connections[i].id(), &con.id()) {
                proof {
                    assert(self == old(self));
                }
                return false;
            }
            i = i + 1;
        }
        let ghost pre = self.connections@;
        self.connections.push(con);
        proof {
            assert(pre == old(self).connections_view());
            assert forall|a: int, b: int|
                0 <= a < b < self.connections_view().len() implies (
            #[trigger] self.connections_view()[a]).id_spec() != (
            #[trigger] self.connections_view()[b]).id_spec() by {
                if b < pre.len() {
                    assert(self.connections_view()[a] == old(self).connections_view()[a]
                        && self.connections_view()[b] == old(self).connections_view()[b]);
                } else {
                    assert(self.connections_view()[a] == pre[a]);
                    assert(self.connections_view()[b] == con);
                }
            }
            assert(self.users_view() == old(self).users_view());
            assert(self.nicks_view() == old(self).nicks_view());
            assert(self.channels_view() == old(self).channels_view());
            assert forall|k: int|
                0 <= k < self.users_view().len() implies #[trigger] user_nick_entered(
                self.users_view(),
                self.nicks_view(),
                k,
            ) by {
                assert(user_nick_entered(old(self).users_view(), old(self).nicks_view(), k));
            }
        }
        true
    }

    /// The peer of the not-yet-registered connection with the given id.
    pub fn connection_peer(&self, id: &PeerId) -> (r: Option<&Peer>)
        ensures
            match r {
                Some(p) => has_con_id(self.connections_view(), *id),
                None => !has_con_id(self.connections_view(), *id),
            },
    {
        let mut i: usize = 0;
        while i < self.connections.len()
            invariant
                0 <= i <= self.connections@.len(),
                forall|j: int| 0 <= j < i ==> (#[trigger] self.connections@[j]).id_spec() != *id,
            decreases self.connections@.len() - i,
        {
            if peer_id_eq(&self.connections[i].id(), id) {
                return Some(self.connections[i].peer());
            }
            i = i + 1;
        }
        None
    }

    /// Everything but the connection list is unchanged.
    pub open spec fn eq_but_connections(&self, other: &Server) -> bool {
        &&& self.host_view() == other.host_view()
        &&& self.users_view() == other.users_view()
        &&& self.nicks_view() == other.nicks_view()
        &&& self.channels_view() == other.channels_view()
    }

    /// Everything but the user and nick directories is unchanged.
    pub open spec fn eq_but_users(&self, other: &Server) -> bool {
        &&& self.host_view() == other.host_view()
        &&& self.connections_view() == other.connections_view()
        &&& self.channels_view() == other.channels_view()
    }

    /// Everything but the channels is unchanged.
    pub open spec fn eq_but_channels(&self, other: &Server) -> bool {
        &&& self.host_view() == other.host_view()
        &&& self.connections_view() == other.connections_view()
        &&& self.users_view() == other.users_view()
        &&& self.nicks_view() == other.nicks_view()
    }

    /// The index of the connection with the given id.
    pub fn connection_index(&self, id: &PeerId) -> (r: Option<usize>)
        requires
            self.wf(),
        ensures
            match r {
                Some(i) => i < self.connections_view().len()
                    && self.connections_view()[i as int].id_spec() == *id && i as int == con_idx(
                    self.connections_view(),
                    *id,
                ) && has_con_id(self.connections_view(), *id),
                None => !has_con_id(self.connections_view(), *id),
            },
    {
        let mut i: usize = 0;
        while i < self.connections.len()
            invariant
                0 <= i <= self.connections@.len(),
                self.wf(),
                forall|j: int| 0 <= j < i ==> (#[trigger] self.connections@[j]).id_spec() != *id,
            decreases self.connections@.len() - i,
        {
            if peer_id_eq(&self.connections[i].id(), id) {
                proof {
                    assert(self.connections_view()[i as int].id_spec() == *id);
                    assert(has_con_id(self.connections_view(), *id));
                    let w = con_idx(self.connections_view(), *id);
                    assert(0 <= w < self.connections_view().len()
                        && self.connections_view()[w].id_spec() == *id);
                    if w < i as int {
                        assert(self.connections_view()[w].id_spec()
                            != self.connections_view()[i as int].id_spec());
                    } else if w > i as int {
                        assert(self.connections_view()[i as int].id_spec()
                            != self.connections_view()[w].id_spec());
                    }
                }
                return Some(i);
            }
            i = i + 1;
        }
        None
    }

    /// Removes a peer from the user directory.
    fn remove_user(&mut self, id: &PeerId)
        requires
            old(self).wf(),
        ensures
            final(self).wf(),
            !has_user_id(final(self).users_view(), *id),
            nicks_purged(old(self).nicks_view(), final(self).nicks_view(), *id),
            final(self).host_view() == old(self).host_view(),
            final(self).channels_view() == old(self).channels_view(),
            final(self).connections_view() == old(self).connections_view(),
            forall|p: PeerId|
                p != *id ==> has_user_id(final(self).users_view(), p) == has_user_id(
                    old(self).users_view(),
                    p,
                ),
    {
        match self.user_index(id) {
            Some(i) => {
                self.users.remove(i);
                proof {
                    assert(self.nicks_view() == old(self).nicks_view());
                    assert(self.channels_view() == old(self).channels_view());
                    assert(self.connections_view() == old(self).connections_view());
                    assert forall|k: int|
                        0 <= k < self.users_view().len() implies (
                    #[trigger] self.users_view()[k]).info_spec().id_spec() != *id by {
                        if k < i {
                            assert(self.users_view()[k] == old(self).users_view()[k]);
                            assert(old(self).users_view()[k].info_spec().id_spec() != old(self).users_view()[i as int].info_spec().id_spec());
                        } else {
                            assert(self.users_view()[k] == old(self).users_view()[k + 1]);
                            assert(old(self).users_view()[i as int].info_spec().id_spec() != old(self).users_view()[k + 1].info_spec().id_spec());
                        }
                    }
                    assert forall|p: PeerId|
                        p != *id implies has_user_id(self.users_view(), p) == has_user_id(
                        old(self).users_view(),
                        p,
                    ) by {
                        if has_user_id(old(self).users_view(), p) {
                            let j = choose|j: int|
                                0 <= j < old(self).users_view().len() && (#[trigger] old(self).users_view()[j]).info_spec().id_spec() == p;
                            if j < i {
                                assert(self.users_view()[j].info_spec().id_spec() == p);
                            } else {
                                assert(self.users_view()[j - 1].info_spec().id_spec() == p);
                            }
                        }
                        if has_user_id(self.users_view(), p) {
                            let j = choose|j: int|
                                0 <= j < self.users_view().len() && (
                                #[trigger] self.users_view()[j]).info_spec().id_spec() == p;
                            if j < i {
                                assert(old(self).users_view()[j].info_spec().id_spec() == p);
                            } else {
                                assert(old(self).users_view()[j + 1].info_spec().id_spec() == p);
                            }
                        }
                    }
                    assert forall|k: int|
                        0 <= k < self.users_view().len() implies #[trigger] user_nick_entered(
                        self.users_view(),
                        self.nicks_view(),
                        k,
                    ) by {
                        let k0: int = if k < i {
                            k
                        } else {
                            k + 1
                        };
                        assert(self.users_view()[k] == old(self).users_view()[k0]);
                        assert(user_nick_entered(
                            old(self).users_view(),
                            old(self).nicks_view(),
                            k0,
                        ));
                        let j = choose|j: int|
                            0 <= j < old(self).nicks_view().len() && (#[trigger] old(self).nicks_view()[j]).nick@ == old(self).users_view()[k0].info_spec().nick_view() && old(self).nicks_view()[j].id == old(self).users_view()[k0].info_spec().id_spec();
                        assert(self.nicks_view()[j].nick@
                            == self.users_view()[k].info_spec().nick_view()
                            && self.nicks_view()[j].id
                            == self.users_view()[k].info_spec().id_spec());
                    }
                    assert forall|a: int, b: int|
                        0 <= a < b < self.users_view().len() implies (
                    #[trigger] self.users_view()[a]).info_spec().id_spec() != (
                    #[trigger] self.users_view()[b]).info_spec().id_spec() by {
                        let a0: int = if a < i {
                            a
                        } else {
                            a + 1
                        };
                        let b0: int = if b < i {
                            b
                        } else {
                            b + 1
                        };
                        assert(self.users_view()[a] == old(self).users_view()[a0]);
                        assert(self.users_view()[b] == old(self).users_view()[b0]);
                        assert(old(self).users_view()[a0].info_spec().id_spec() != old(self).users_view()[b0].info_spec().id_spec());
                    }
                }
            },
            None => {
                proof {
                    assert(self == old(self));
                }
            },
        }
        // the peer's nickname entries leave the directory with it
        let ghost mid_nicks = self.nicks_view();
        let ghost mid_users = self.users_view();
        proof {
            assert(self.wf());
            assert(mid_nicks == old(self).nicks_view());
            assert forall|a: int, b: int|
                0 <= a < b < self.nicks@.len() implies (#[trigger] self.nicks@[a]).nick@ != (
            #[trigger] self.nicks@[b]).nick@ by {
                assert(old(self).nicks_view()[a].nick@ != old(self).nicks_view()[b].nick@);
            }
        }
        let filtered = filter_nicks(&self.nicks, id);
        self.nicks = filtered;
        proof {
            assert(self.users_view() == mid_users);
            assert(self.host_view() == old(self).host_view());
            assert(self.channels_view() == old(self).channels_view());
            assert(self.connections_view() == old(self).connections_view());
            assert(mid_nicks == old(self).nicks_view());
            assert forall|k: int|
                0 <= k < self.users_view().len() implies #[trigger] user_nick_entered(
                self.users_view(),
                self.nicks_view(),
                k,
            ) by {
                assert(user_nick_entered(mid_users, mid_nicks, k));
                let j = choose|j: int|
                    0 <= j < mid_nicks.len() && (#[trigger] mid_nicks[j]).nick@
                        == mid_users[k].info_spec().nick_view() && mid_nicks[j].id
                        == mid_users[k].info_spec().id_spec();
                assert(self.users_view()[k].info_spec().id_spec() != *id);
                assert(mid_nicks[j].id != *id);
                assert(nick_entry_in(self.nicks_view(), mid_nicks[j].nick@, mid_nicks[j].id));
                let w = choose|w: int|
                    0 <= w < self.nicks_view().len() && (#[trigger] self.nicks_view()[w]).nick@
                        == mid_nicks[j].nick@ && self.nicks_view()[w].id == mid_nicks[j].id;
                assert(self.nicks_view()[w].nick@ == self.users_view()[k].info_spec().nick_view()
                    && self.nicks_view()[w].id == self.users_view()[k].info_spec().id_spec());
            }
        }
    }

    /// Removes a connection from the directory.
    fn remove_connection_entry(&mut self, id: &PeerId)
        requires
            old(self).wf(),
        ensures
            final(self).wf(),
            !has_con_id(final(self).connections_view(), *id),
            final(self).nicks_view() == old(self).nicks_view(),
            final(self).users_view() == old(self).users_view(),
            final(self).host_view() == old(self).host_view(),
            final(self).channels_view() == old(self).channels_view(),
    {
        match self.connection_index(id) {
            Some(f) => {
                self.connections.remove(f);
                proof {
                    assert(self.nicks_view() == old(self).nicks_view());
                    assert(self.users_view() == old(self).users_view());
                    assert(self.channels_view() == old(self).channels_view());
                    assert forall|k: int|
                        0 <= k < self.users_view().len() implies #[trigger] user_nick_entered(
                        self.users_view(),
                        self.nicks_view(),
                        k,
                    ) by {
                        assert(user_nick_entered(
                            old(self).users_view(),
                            old(self).nicks_view(),
                            k,
                        ));
                    }
                    assert forall|k: int|
                        0 <= k < self.connections_view().len() implies (
                    #[trigger] self.connections_view()[k]).id_spec() != *id by {
                        if k < f {
                            assert(self.connections_view()[k] == old(self).connections_view()[k]);
                            assert(old(self).connections_view()[k].id_spec() != old(self).connections_view()[f as int].id_spec());
                        } else {
                            assert(self.connections_view()[k] == old(self).connections_view()[k + 1]);
                            assert(old(self).connections_view()[f as int].id_spec() != old(self).connections_view()[k + 1].id_spec());
                        }
                    }
                    assert forall|a: int, b: int|
                        0 <= a < b < self.connections_view().len() implies (
                    #[trigger] self.connections_view()[a]).id_spec() != (
                    #[trigger] self.connections_view()[b]).id_spec() by {
                        let a0: int = if a < f {
                            a
                        } else {
                            a + 1
                        };
                        let b0: int = if b < f {
                            b
                        } else {
                            b + 1
                        };
                        assert(self.connections_view()[a] == old(self).connections_view()[a0]);
                        assert(self.connections_view()[b] == old(self).connections_view()[b0]);
                        assert(old(self).connections_view()[a0].id_spec() != old(self).connections_view()[b0].id_spec());
                    }
                }
            },
            None => {
                proof {
                    assert(self == old(self));
                }
            },
        }
    }

    /// Removes a peer from the user, nickname and connection directories,
    /// so a parted client's nick becomes free again.
    pub fn close_connection(&mut self, id: &PeerId)
        requires
            old(self).wf(),
        ensures
            final(self).wf(),
            !has_user_id(final(self).users_view(), *id),
            !has_con_id(final(self).connections_view(), *id),
            nicks_purged(old(self).nicks_view(), final(self).nicks_view(), *id),
            final(self).host_view() == old(self).host_view(),
            final(self).channels_view() == old(self).channels_view(),
            forall|p: PeerId|
                p != *id ==> has_user_id(final(self).users_view(), p) == has_user_id(
                    old(self).users_view(),
                    p,
                ),
    {
        self.remove_user(id);
        self.remove_connection_entry(id);
    }

    /// Registers a peer: enters its nick in the nickname directory and the
    /// peer in the user directory.
    pub fn add_user(&mut self, client: Peer)
        requires
            old(self).wf(),
            !nick_in_map(old(self).nicks_view(), client.info_spec().nick_view()),
            !has_user_id(old(self).users_view(), client.info_spec().id_spec()),
        ensures
            final(self).wf(),
            has_user_id(final(self).users_view(), client.info_spec().id_spec()),
            nick_in_map(final(self).nicks_view(), client.info_spec().nick_view()),
            final(self).users_view() == old(self).users_view().push(client),
            final(self).eq_but_users(old(self)),
    {
        let nick = clone_string(client.info().nick());
        let id = client.id();
        let ghost pre_nicks = self.nicks@;
        self.nicks.push(NickMapEntry { nick, id });
        let ghost pre_users = self.users@;
        self.users.push(client);
        proof {
            assert(pre_nicks == old(self).nicks_view());
            assert(pre_users == old(self).users_view());
            assert forall|a: int, b: int|
                0 <= a < b < self.nicks_view().len() implies (
            #[trigger] self.nicks_view()[a]).nick@ != (#[trigger] self.nicks_view()[b]).nick@ by {
                if b < pre_nicks.len() {
                    assert(self.nicks_view()[a] == old(self).nicks_view()[a]
                        && self.nicks_view()[b] == old(self).nicks_view()[b]);
                } else {
                    assert(self.nicks_view()[a] == old(self).nicks_view()[a]);
                    assert(self.nicks_view()[b].nick@ == client.info_spec().nick_view());
                }
            }
            assert forall|a: int, b: int|
                0 <= a < b < self.users_view().len() implies (
            #[trigger] self.users_view()[a]).info_spec().id_spec() != (
            #[trigger] self.users_view()[b]).info_spec().id_spec() by {
                if b < pre_users.len() {
                    assert(self.users_view()[a] == old(self).users_view()[a]
                        && self.users_view()[b] == old(self).users_view()[b]);
                } else {
                    assert(self.users_view()[a] == old(self).users_view()[a]);
                    assert(self.users_view()[b] == client);
                }
            }
            assert forall|k: int|
                0 <= k < self.users_view().len() implies #[trigger] user_nick_entered(
                self.users_view(),
                self.nicks_view(),
                k,
            ) by {
                if k < pre_users.len() {
                    assert(self.users_view()[k] == old(self).users_view()[k]);
                    assert(user_nick_entered(old(self).users_view(), old(self).nicks_view(), k));
                    let j = choose|j: int|
                        0 <= j < old(self).nicks_view().len() && (#[trigger] old(self).nicks_view()[j]).nick@ == old(self).users_view()[k].info_spec().nick_view()
                            && old(self).nicks_view()[j].id == old(self).users_view()[k].info_spec().id_spec();
                    assert(self.nicks_view()[j].nick@
                        == self.users_view()[k].info_spec().nick_view()
                        && self.nicks_view()[j].id
                        == self.users_view()[k].info_spec().id_spec());
                } else {
                    assert(self.users_view()[k] == client);
                    assert(self.nicks_view()[self.nicks_view().len() - 1].nick@
                        == self.users_view()[k].info_spec().nick_view()
                        && self.nicks_view()[self.nicks_view().len() - 1].id
                        == self.users_view()[k].info_spec().id_spec());
                }
            }
            assert(self.users@ =~= pre_users.push(client));
            assert(self.users_view()[pre_users.len() as int] == client);
            assert(self.nicks_view()[self.nicks_view().len() - 1].nick@
                == client.info_spec().nick_view());
            assert(self.connections_view() == old(self).connections_view());
            assert(self.channels_view() == old(self).channels_view());
            assert(self.host_view() == old(self).host_view());
        }
    }


    /// The connection at the index.
    pub fn connection_at(&self, i: usize) -> (r: &Connection)
        requires
            i < self.connections_view().len(),
        ensures
            *r == self.connections_view()[i as int],
    {
        &self.connections[i]
    }

    /// The registered user at the index.
    pub fn user_at(&self, i: usize) -> (r: &Peer)
        requires
            i < self.users_view().len(),
        ensures
            *r == self.users_view()[i as int],
    {
        &self.users[i]
    }

    /// Sets the nick of the connection's peer at the index.
    pub fn conn_set_nick(&mut self, i: usize, nick: String)
        requires
            old(self).wf(),
            i < old(self).connections_view().len(),
        ensures
            final(self).wf(),
            final(self).connections_view().len() == old(self).connections_view().len(),
            final(self).connections_view()[i as int].id_spec() == old(self).connections_view()[i as int].id_spec(),
            final(self).connections_view()[i as int].peer_spec().info_spec().nick_view() == nick@,
            final(self).connections_view()[i as int].peer_spec().info_spec().status_spec() == old(self).connections_view()[i as int].peer_spec().info_spec().status_spec(),
            forall|k: int|
                0 <= k < final(self).connections_view().len() && k != i ==> final(self).connections_view()[k] == old(self).connections_view()[k],
            final(self).eq_but_connections(old(self)),
    {
        let ghost pre = self.connections@;
        let c = &mut self.connections[i];
        c.set_nick(nick);
        proof {
            assert(self.users_view() == old(self).users_view());
            assert(self.nicks_view() == old(self).nicks_view());
            assert(self.channels_view() == old(self).channels_view());
            assert(self.host_view() == old(self).host_view());
            assert(self.connections_view() =~= pre.update(
                i as int,
                self.connections_view()[i as int],
            ));
            assert forall|a: int, b: int|
                0 <= a < b < self.connections_view().len() implies (
            #[trigger] self.connections_view()[a]).id_spec() != (
            #[trigger] self.connections_view()[b]).id_spec() by {
                assert(old(self).connections_view()[a].id_spec() != old(self).connections_view()[b].id_spec());
                assert(self.connections_view()[a].id_spec() == old(self).connections_view()[a].id_spec());
                assert(self.connections_view()[b].id_spec() == old(self).connections_view()[b].id_spec());
            }
            assert forall|k: int|
                0 <= k < self.users_view().len() implies #[trigger] user_nick_entered(
                self.users_view(),
                self.nicks_view(),
                k,
            ) by {
                assert(user_nick_entered(old(self).users_view(), old(self).nicks_view(), k));
            }
        }
    }

    /// Stores the user and real name on the connection's peer at the index
    /// and marks it registered.
    pub fn conn_set_user(&mut self, i: usize, username: String, realname: String)
        requires
            old(self).wf(),
            i < old(self).connections_view().len(),
        ensures
            final(self).wf(),
            final(self).connections_view().len() == old(self).connections_view().len(),
            final(self).connections_view()[i as int].id_spec() == old(self).connections_view()[i as int].id_spec(),
            final(self).connections_view()[i as int].peer_spec().info_spec().username_view()
                == username@,
            final(self).connections_view()[i as int].peer_spec().info_spec().realname_view()
                == realname@,
            final(self).connections_view()[i as int].peer_spec().info_spec().status_spec()
                == crate::con::RegistrationStatus::Registered,
            final(self).connections_view()[i as int].peer_spec().info_spec().nick_view() == old(self).connections_view()[i as int].peer_spec().info_spec().nick_view(),
            forall|k: int|
                0 <= k < final(self).connections_view().len() && k != i ==> final(self).connections_view()[k] == old(self).connections_view()[k],
            final(self).eq_but_connections(old(self)),
    {
        let ghost pre = self.connections@;
        let c = &mut self.connections[i];
        c.set_user(username, realname);
        proof {
            assert(self.users_view() == old(self).users_view());
            assert(self.nicks_view() == old(self).nicks_view());
            assert(self.channels_view() == old(self).channels_view());
            assert(self.host_view() == old(self).host_view());
            assert(self.connections_view() =~= pre.update(
                i as int,
                self.connections_view()[i as int],
            ));
            assert forall|a: int, b: int|
                0 <= a < b < self.connections_view().len() implies (
            #[trigger] self.connections_view()[a]).id_spec() != (
            #[trigger] self.connections_view()[b]).id_spec() by {
                assert(old(self).connections_view()[a].id_spec() != old(self).connections_view()[b].id_spec());
                assert(self.connections_view()[a].id_spec() == old(self).connections_view()[a].id_spec());
                assert(self.connections_view()[b].id_spec() == old(self).connections_view()[b].id_spec());
            }
            assert forall|k: int|
                0 <= k < self.users_view().len() implies #[trigger] user_nick_entered(
                self.users_view(),
                self.nicks_view(),
                k,
            ) by {
                assert(user_nick_entered(old(self).users_view(), old(self).nicks_view(), k));
            }
        }
    }

    /// Gives a registered user a new nick: the user's old directory entry
    /// is replaced by one binding the new nick, and the user record
    /// follows.
    pub fn rename_user(&mut self, i: usize, nick: String)
        requires
            old(self).wf(),
            i < old(self).users_view().len(),
            !nick_in_map(old(self).nicks_view(), nick@),
        ensures
            final(self).wf(),
            final(self).users_view().len() == old(self).users_view().len(),
            final(self).users_view()[i as int].info_spec().nick_view() == nick@,
            final(self).users_view()[i as int].info_spec().id_spec() == old(self).users_view()[i as int].info_spec().id_spec(),
            final(self).users_view()[i as int].info_spec().hostmask_view() == final(self).users_view()[i as int].info_spec().mask_of(),
            forall|k: int|
                0 <= k < final(self).users_view().len() && k != i ==> final(self).users_view()[k] == old(self).users_view()[k],
            nick_in_map(final(self).nicks_view(), nick@),
            // the user's entries now all read the new nick; everything else
            // survives and nothing is invented
            forall|k: int|
                0 <= k < final(self).nicks_view().len() && (#[trigger] final(self).nicks_view()[k]).id
                    == old(self).users_view()[i as int].info_spec().id_spec() ==> final(self).nicks_view()[k].nick@
                    == nick@,
            forall|j: int|
                0 <= j < old(self).nicks_view().len() && (#[trigger] old(self).nicks_view()[j]).id
                    != old(self).users_view()[i as int].info_spec().id_spec() ==> nick_entry_in(
                    final(self).nicks_view(),
                    old(self).nicks_view()[j].nick@,
                    old(self).nicks_view()[j].id,
                ),
            final(self).host_view() == old(self).host_view(),
            final(self).connections_view() == old(self).connections_view(),
            final(self).channels_view() == old(self).channels_view(),
    {
        let id = self.users[i].id();
        proof {
            assert forall|a: int, b: int|
                0 <= a < b < self.nicks@.len() implies (#[trigger] self.nicks@[a]).nick@ != (
            #[trigger] self.nicks@[b]).nick@ by {
                assert(old(self).nicks_view()[a].nick@ != old(self).nicks_view()[b].nick@);
            }
        }
        let filtered = filter_nicks(&self.nicks, &id);
        let ghost fview = filtered@;
        self.nicks = filtered;
        self.nicks.push(NickMapEntry { nick: clone_string(&nick), id });
        let ghost pre_users = self.users@;
        let u = &mut self.users[i];
        u.set_nick(nick);
        proof {
            assert(self.connections_view() == old(self).connections_view());
            assert(self.channels_view() == old(self).channels_view());
            assert(self.host_view() == old(self).host_view());
            assert(self.users_view() =~= pre_users.update(i as int, self.users_view()[i as int]));
            assert(self.nicks_view() =~= fview.push(self.nicks_view()[fview.len() as int]));
            assert(self.nicks_view()[fview.len() as int].nick@ == nick@);
            assert(self.nicks_view()[fview.len() as int].id == id);
            assert forall|a: int, b: int|
                0 <= a < b < self.nicks_view().len() implies (
            #[trigger] self.nicks_view()[a]).nick@ != (#[trigger] self.nicks_view()[b]).nick@ by {
                if b < fview.len() {
                    assert(fview[a].nick@ != fview[b].nick@);
                } else {
                    // the fresh nick was free, so no surviving entry has it
                    assert(self.nicks_view()[a] == fview[a]);
                    if fview[a].nick@ == nick@ {
                        assert(nick_in_map(fview, nick@));
                        assert(nick_in_map(old(self).nicks_view(), nick@));
                        assert(false);
                    }
                }
            }
            assert forall|a: int, b: int|
                0 <= a < b < self.users_view().len() implies (
            #[trigger] self.users_view()[a]).info_spec().id_spec() != (
            #[trigger] self.users_view()[b]).info_spec().id_spec() by {
                assert(old(self).users_view()[a].info_spec().id_spec() != old(self).users_view()[b].info_spec().id_spec());
                assert(self.users_view()[a].info_spec().id_spec() == old(self).users_view()[a].info_spec().id_spec());
                assert(self.users_view()[b].info_spec().id_spec() == old(self).users_view()[b].info_spec().id_spec());
            }
            assert forall|k: int|
                0 <= k < self.users_view().len() implies #[trigger] user_nick_entered(
                self.users_view(),
                self.nicks_view(),
                k,
            ) by {
                if k != i {
                    assert(self.users_view()[k] == old(self).users_view()[k]);
                    assert(user_nick_entered(old(self).users_view(), old(self).nicks_view(), k));
                    let j = choose|j: int|
                        0 <= j < old(self).nicks_view().len() && (#[trigger] old(self).nicks_view()[j]).nick@
                            == old(self).users_view()[k].info_spec().nick_view() && old(self).nicks_view()[j].id
                            == old(self).users_view()[k].info_spec().id_spec();
                    // that witness entry carries another id, so it survived
                    assert(old(self).users_view()[k].info_spec().id_spec() != id);
                    assert(nick_entry_in(fview, old(self).nicks_view()[j].nick@, old(self).nicks_view()[j].id));
                    let w = choose|w: int|
                        0 <= w < fview.len() && (#[trigger] fview[w]).nick@ == old(self).nicks_view()[j].nick@
                            && fview[w].id == old(self).nicks_view()[j].id;
                    assert(self.nicks_view()[w].nick@
                        == self.users_view()[k].info_spec().nick_view() && self.nicks_view()[w].id
                        == self.users_view()[k].info_spec().id_spec());
                } else {
                    assert(self.nicks_view()[fview.len() as int].nick@
                        == self.users_view()[k].info_spec().nick_view()
                        && self.nicks_view()[fview.len() as int].id
                        == self.users_view()[k].info_spec().id_spec());
                }
            }
            assert forall|k: int|
                0 <= k < self.nicks_view().len() && (#[trigger] self.nicks_view()[k]).id == id implies self.nicks_view()[k].nick@
                == nick@ by {
                if k < fview.len() {
                    assert(fview[k].id != id);
                }
            }
            assert forall|j: int|
                0 <= j < old(self).nicks_view().len() && (#[trigger] old(self).nicks_view()[j]).id
                    != id implies nick_entry_in(
                self.nicks_view(),
                old(self).nicks_view()[j].nick@,
                old(self).nicks_view()[j].id,
            ) by {
                assert(nick_entry_in(fview, old(self).nicks_view()[j].nick@, old(self).nicks_view()[j].id));
                let w = choose|w: int|
                    0 <= w < fview.len() && (#[trigger] fview[w]).nick@ == old(self).nicks_view()[j].nick@
                        && fview[w].id == old(self).nicks_view()[j].id;
                assert(self.nicks_view()[w].nick@ == old(self).nicks_view()[j].nick@
                    && self.nicks_view()[w].id == old(self).nicks_view()[j].id);
            }
        }
    }

    /// Stores the user and real name on the registered user at the index
    /// and marks the record registered.
    pub fn user_set_user(&mut self, i: usize, username: String, realname: String)
        requires
            old(self).wf(),
            i < old(self).users_view().len(),
        ensures
            final(self).wf(),
            final(self).users_view().len() == old(self).users_view().len(),
            final(self).users_view()[i as int].info_spec().username_view() == username@,
            final(self).users_view()[i as int].info_spec().realname_view() == realname@,
            final(self).users_view()[i as int].info_spec().status_spec()
                == crate::con::RegistrationStatus::Registered,
            final(self).users_view()[i as int].info_spec().nick_view() == old(self).users_view()[i as int].info_spec().nick_view(),
            final(self).users_view()[i as int].info_spec().id_spec() == old(self).users_view()[i as int].info_spec().id_spec(),
            forall|k: int|
                0 <= k < final(self).users_view().len() && k != i ==> final(self).users_view()[k] == old(self).users_view()[k],
            final(self).eq_but_users(old(self)),
            final(self).nicks_view() == old(self).nicks_view(),
    {
        let ghost pre_users = self.users@;
        let u = &mut self.users[i];
        u.set_user(username, realname);
        proof {
            assert(self.connections_view() == old(self).connections_view());
            assert(self.channels_view() == old(self).channels_view());
            assert(self.host_view() == old(self).host_view());
            assert(self.nicks_view() == old(self).nicks_view());
            assert(self.users_view() =~= pre_users.update(i as int, self.users_view()[i as int]));
            assert forall|a: int, b: int|
                0 <= a < b < self.users_view().len() implies (
            #[trigger] self.users_view()[a]).info_spec().id_spec() != (
            #[trigger] self.users_view()[b]).info_spec().id_spec() by {
                assert(old(self).users_view()[a].info_spec().id_spec() != old(self).users_view()[b].info_spec().id_spec());
                assert(self.users_view()[a].info_spec().id_spec() == old(self).users_view()[a].info_spec().id_spec());
                assert(self.users_view()[b].info_spec().id_spec() == old(self).users_view()[b].info_spec().id_spec());
            }
            assert forall|k: int|
                0 <= k < self.users_view().len() implies #[trigger] user_nick_entered(
                self.users_view(),
                self.nicks_view(),
                k,
            ) by {
                assert(user_nick_entered(old(self).users_view(), old(self).nicks_view(), k));
                if k != i {
                    assert(self.users_view()[k] == old(self).users_view()[k]);
                } else {
                    let j = choose|j: int|
                        0 <= j < old(self).nicks_view().len() && (#[trigger] old(self).nicks_view()[j]).nick@ == old(self).users_view()[k].info_spec().nick_view()
                            && old(self).nicks_view()[j].id == old(self).users_view()[k].info_spec().id_spec();
                    assert(self.nicks_view()[j].nick@
                        == self.users_view()[k].info_spec().nick_view()
                        && self.nicks_view()[j].id
                        == self.users_view()[k].info_spec().id_spec());
                }
            }
        }
    }

    /// Takes the channel at the index out of the directory, to work on it
    /// and hand it back (or drop it once empty).
    pub fn detach_channel(&mut self, i: usize) -> (r: Channel)
        requires
            old(self).wf(),
            i < old(self).channels_view().len(),
        ensures
            final(self).wf(),
            r == old(self).channels_view()[i as int],
            r.wf(),
            r.members_view().len() > 0,
            !has_channel_name(final(self).channels_view(), r.name_view()),
            final(self).channels_view() == old(self).channels_view().remove(i as int),
            final(self).eq_but_channels(old(self)),
    {
        let ghost pre = self.channels@;
        let c = self.channels.remove(i);
        proof {
            assert(self.users_view() == old(self).users_view());
            assert(self.nicks_view() == old(self).nicks_view());
            assert(self.connections_view() == old(self).connections_view());
            assert(self.host_view() == old(self).host_view());
            assert forall|k: int|
                0 <= k < self.channels_view().len() implies (
            #[trigger] self.channels_view()[k]).name_view() != c.name_view() by {
                if k < i {
                    assert(self.channels_view()[k] == old(self).channels_view()[k]);
                    assert(old(self).channels_view()[k].name_view() != old(self).channels_view()[i as int].name_view());
                } else {
                    assert(self.channels_view()[k] == old(self).channels_view()[k + 1]);
                    assert(old(self).channels_view()[i as int].name_view() != old(self).channels_view()[k + 1].name_view());
                }
            }
            assert forall|a: int, b: int|
                0 <= a < b < self.channels_view().len() implies (
            #[trigger] self.channels_view()[a]).name_view() != (
            #[trigger] self.channels_view()[b]).name_view() by {
                let a0: int = if a < i {
                    a
                } else {
                    a + 1
                };
                let b0: int = if b < i {
                    b
                } else {
                    b + 1
                };
                assert(self.channels_view()[a] == old(self).channels_view()[a0]);
                assert(self.channels_view()[b] == old(self).channels_view()[b0]);
                assert(old(self).channels_view()[a0].name_view() != old(self).channels_view()[b0].name_view());
            }
            assert forall|k: int|
                0 <= k < self.channels_view().len() implies (
            #[trigger] self.channels_view()[k]).wf() && self.channels_view()[k].members_view().len()
                > 0 by {
                if k < i {
                    assert(self.channels_view()[k] == old(self).channels_view()[k]);
                } else {
                    assert(self.channels_view()[k] == old(self).channels_view()[k + 1]);
                }
            }
            assert forall|k: int|
                0 <= k < self.users_view().len() implies #[trigger] user_nick_entered(
                self.users_view(),
                self.nicks_view(),
                k,
            ) by {
                assert(user_nick_entered(old(self).users_view(), old(self).nicks_view(), k));
            }
        }
        c
    }

    /// Puts a channel (back) into the directory.
    pub fn attach_channel(&mut self, c: Channel)
        requires
            old(self).wf(),
            c.wf(),
            c.members_view().len() > 0,
            !has_channel_name(old(self).channels_view(), c.name_view()),
        ensures
            final(self).wf(),
            final(self).channels_view() == old(self).channels_view().push(c),
            final(self).eq_but_channels(old(self)),
    {
        let ghost pre = self.channels@;
        self.channels.push(c);
        proof {
            assert(self.users_view() == old(self).users_view());
            assert(self.nicks_view() == old(self).nicks_view());
            assert(self.connections_view() == old(self).connections_view());
            assert(self.host_view() == old(self).host_view());
            assert forall|a: int, b: int|
                0 <= a < b < self.channels_view().len() implies (
            #[trigger] self.channels_view()[a]).name_view() != (
            #[trigger] self.channels_view()[b]).name_view() by {
                if b < pre.len() {
                    assert(self.channels_view()[a] == old(self).channels_view()[a]
                        && self.channels_view()[b] == old(self).channels_view()[b]);
                } else {
                    assert(self.channels_view()[a] == old(self).channels_view()[a]);
                    assert(self.channels_view()[b] == c);
                }
            }
            assert forall|k: int|
                0 <= k < self.channels_view().len() implies (
            #[trigger] self.channels_view()[k]).wf() && self.channels_view()[k].members_view().len()
                > 0 by {
                if k < pre.len() {
                    assert(self.channels_view()[k] == old(self).channels_view()[k]);
                } else {
                    assert(self.channels_view()[k] == c);
                }
            }
            assert forall|k: int|
                0 <= k < self.users_view().len() implies #[trigger] user_nick_entered(
                self.users_view(),
                self.nicks_view(),
                k,
            ) by {
                assert(user_nick_entered(old(self).users_view(), old(self).nicks_view(), k));
            }
        }
    }

    /// Builds the welcome reply for a newly registered client.
    pub fn send_welcome_msg(&self, client: &Peer) -> (r: Envelope)
        ensures
            r.to == client.info_spec().id_spec(),
            r.msg.command_view() == crate::cmd::Command::REPLY(
                ResponseCode::RPL_WELCOME,
            ).to_bytes_spec(),
            r.msg.prefix_view() == Some(crate::util::char_bytes(self.host_view())),
            r.msg.params_view().len() == 2,
            r.msg.params_view()[0] == crate::util::char_bytes(client.info_spec().nick_view()),
    {
        client.send_response(
            ResponseCode::RPL_WELCOME,
            &["Welcome to the IRC network"],
            self.host.as_str(),
        )
    }

    /// The index of the channel with the given name.
    pub fn channel_index(&self, name: &str) -> (r: Option<usize>)
        requires
            self.wf(),
        ensures
            match r {
                Some(i) => i < self.channels_view().len()
                    && self.channels_view()[i as int].name_view() == name@ && i as int
                    == channel_idx(self.channels_view(), name@) && has_channel_name(
                    self.channels_view(),
                    name@,
                ),
                None => !has_channel_name(self.channels_view(), name@),
            },
    {
        let mut i: usize = 0;
        while i < self.channels.len()
            invariant
                0 <= i <= self.channels@.len(),
                self.wf(),
                forall|j: int| 0 <= j < i ==> (#[trigger] self.channels@[j]).name_view() != name@,
            decreases self.channels@.len() - i,
        {
            let a = self.channels[i].name();
            if crate::cmd::eq_bytes(a.as_bytes(), name.as_bytes()) {
                proof {
                    crate::channel::lemma_str_bytes_agree(a, name);
                    assert(has_channel_name(self.channels_view(), name@));
                    let w = channel_idx(self.channels_view(), name@);
                    assert(0 <= w < self.channels_view().len()
                        && self.channels_view()[w].name_view() == name@);
                    if w < i as int {
                        assert(self.channels_view()[w].name_view()
                            != self.channels_view()[i as int].name_view());
                    } else if w > i as int {
                        assert(self.channels_view()[i as int].name_view()
                            != self.channels_view()[w].name_view());
                    }
                }
                return Some(i);
            }
            i = i + 1;
        }
        None
    }

    /// A view of the channel at the index.
    pub fn channel_at(&self, i: usize) -> (r: &Channel)
        requires
            i < self.channels_view().len(),
        ensures
            *r == self.channels_view()[i as int],
    {
        &self.channels[i]
    }

    /// How many channels the server carries.
    pub fn channel_count(&self) -> (r: usize)
        ensures
            r == self.channels_view().len(),
    {
        self.channels.len()
    }
}

/// Compares two peer ids.
pub(crate) fn peer_id_eq(a: &PeerId, b: &PeerId) -> (r: bool)
    ensures
        r == (*a == *b),
{
    a.id0 == b.id0 && a.id1 == b.id1
}

} // verus!
