//! The NICK and USER commands: the registration handshake.

use vstd::prelude::*;

use crate::cmd::ResponseCode;
use crate::con::{response_to, Envelope, PeerId, RegistrationStatus};
use crate::member::{clone_string, clone_string_str};
use crate::message::RawMessage;
use crate::server::{has_user_id, nick_in_map, Server};
use crate::util::{ascii_chars, is_ascii_bytes, utf8_chars, utf8_valid, valid_nick_spec, verify_nick};

verus! {

/// The current nick of the peer, looked up among the registered users and
/// then among the pending connections.
pub(crate) fn nick_of(server: &Server, id: &PeerId) -> (r: Option<String>)
    requires
        server.wf(),
    ensures
        r is Some <==> (has_user_id(server.users_view(), *id) || crate::server::has_con_id(
            server.connections_view(),
            *id,
        )),
        r is Some && has_user_id(server.users_view(), *id) ==> r->Some_0@
            == server.users_view()[crate::server::user_idx(server.users_view(), *id)].info_spec().nick_view(),
        r is Some && !has_user_id(server.users_view(), *id) ==> r->Some_0@
            == server.connections_view()[crate::server::con_idx(server.connections_view(), *id)].peer_spec().info_spec().nick_view(),
{
    match server.user_index(id) {
        Some(i) => Some(clone_string(server.user_at(i).info().nick())),
        None => match server.connection_index(id) {
            Some(j) => Some(clone_string(server.connection_at(j).peer().info().nick())),
            None => None,
        },
    }
}

/// Registration promotion for a pending connection: refused with
/// `ERR_ALREADYREGISTRED` when the nick is taken, performed with the
/// welcome once NICK and USER have both arrived, and silent otherwise.
pub(crate) fn try_register(server: &mut Server, origin: PeerId) -> (out: Vec<Envelope>)
    requires
        old(server).wf(),
        !has_user_id(old(server).users_view(), origin),
    ensures
        final(server).wf(),
        final(server).channels_view() == old(server).channels_view(),
        final(server).host_view() == old(server).host_view(),
        final(server).connections_view() == old(server).connections_view(),
        ({
            let cons = old(server).connections_view();
            let info = cons[crate::server::con_idx(cons, origin)].peer_spec().info_spec();
            if !crate::server::has_con_id(cons, origin) {
                &&& *final(server) == *old(server)
                &&& out@.len() == 0
            } else if nick_in_map(old(server).nicks_view(), info.nick_view()) {
                &&& final(server).users_view() == old(server).users_view()
                &&& final(server).nicks_view() == old(server).nicks_view()
                &&& out@.len() == 1
                &&& out@[0].to == origin
                &&& out@[0].msg.command_view() == crate::cmd::Command::REPLY(
                    ResponseCode::ERR_ALREADYREGISTRED,
                ).to_bytes_spec()
            } else if info.status_spec() == RegistrationStatus::Registered {
                &&& has_user_id(final(server).users_view(), origin)
                &&& nick_in_map(final(server).nicks_view(), info.nick_view())
                &&& out@.len() == 1
                &&& out@[0].to == origin
                &&& out@[0].msg.command_view() == crate::cmd::Command::REPLY(
                    ResponseCode::RPL_WELCOME,
                ).to_bytes_spec()
            } else {
                &&& final(server).users_view() == old(server).users_view()
                &&& final(server).nicks_view() == old(server).nicks_view()
                &&& out@.len() == 0
            }
        }),
{
    let mut out: Vec<Envelope> = Vec::new();
    let j = match server.connection_index(&origin) {
        Some(j) => j,
        None => {
            return out;
        },
    };
    let host = clone_string_str(server.host());
    let peer_nick = clone_string(server.connection_at(j).peer().info().nick());
    let status = server.connection_at(j).peer().info().registration_status();
    if server.nick_index(peer_nick.as_str()).is_some() {
        out.push(
            response_to(
                origin,
                peer_nick.as_str(),
                ResponseCode::ERR_ALREADYREGISTRED,
                &["somebody already registered with the same nickname"],
                host.as_str(),
            ),
        );
    } else if matches!(status, RegistrationStatus::Registered) {
        let snap = server.connection_at(j).peer().snapshot();
        out.push(server.send_welcome_msg(&snap));
        server.add_user(snap);
    }
    out
}

/// Handles the NICK command.
///
/// `NICK <nickname>`
pub struct Nick {
    pub raw: RawMessage,
    pub nick: String,
}

impl Nick {
    /// Parses a NICK message: the nickname must be given and meet the
    /// nickname grammar.
    pub fn from_message(message: RawMessage) -> (r: Result<Nick, Option<RawMessage>>)
        ensures
            match r {
                Ok(n) => {
                    &&& message.params_view().len() > 0
                    &&& utf8_valid(message.params_view()[0])
                    &&& n.nick@ == utf8_chars(message.params_view()[0])
                    &&& valid_nick_spec(n.nick@)
                },
                Err(e) => {
                    &&& (message.params_view().len() == 0 || !(utf8_valid(
                        message.params_view()[0],
                    ) && valid_nick_spec(utf8_chars(message.params_view()[0]))))
                    &&& e matches Some(reply)
                    // no nick at all earns 431, a malformed one 432
                    &&& (message.params_view().len() == 0 ==> e->Some_0.command_view()
                        == crate::cmd::Command::REPLY(
                        ResponseCode::ERR_NONICKNAMEGIVEN,
                    ).to_bytes_spec())
                    &&& (message.params_view().len() > 0 ==> e->Some_0.command_view()
                        == crate::cmd::Command::REPLY(
                        ResponseCode::ERR_ERRONEUSNICKNAME,
                    ).to_bytes_spec())
                },
            },
    {
        let nick: Option<String> = {
            let params = message.params();
            proof {
                assert(params.deep_view().len() == params@.len());
            }
            if params.len() == 0 {
                None
            } else {
                proof {
                    assert(message.params_view()[0] =~= params@[0]@);
                }
                verify_nick(params[0].as_slice())
            }
        };
        if message.params().len() == 0 {
            let err = RawMessage::new(
                crate::cmd::Command::REPLY(ResponseCode::ERR_NONICKNAMEGIVEN),
                &["*", "no nickname given"],
                None,
            );
            return Err(Some(err));
        }
        match nick {
            Some(nick) => Ok(Nick { raw: message, nick }),
            None => {
                let err = RawMessage::new(
                    crate::cmd::Command::REPLY(ResponseCode::ERR_ERRONEUSNICKNAME),
                    &["*", "invalid nick name"],
                    None,
                );
                Err(Some(err))
            },
        }
    }

    /// The nick asked for.
    pub fn nick(&self) -> (r: &str)
        ensures
            r@ == self.nick@,
    {
        self.nick.as_str()
    }

    /// Applies the NICK command: refused with `ERR_NICKNAMEINUSE` when
    /// the nick is taken; a registered user is renamed (and greeted anew,
    /// as the promotion runs again); a pending connection stores the nick
    /// and registration is attempted.
    pub fn invoke(self, server: &mut Server, origin: PeerId) -> (out: Vec<Envelope>)
        requires
            old(server).wf(),
        ensures
            final(server).wf(),
            final(server).channels_view() == old(server).channels_view(),
            final(server).host_view() == old(server).host_view(),
            nick_in_map(old(server).nicks_view(), self.nick@) ==> {
                &&& final(server).users_view() == old(server).users_view()
                &&& final(server).nicks_view() == old(server).nicks_view()
                &&& final(server).connections_view() == old(server).connections_view()
                &&& (has_user_id(old(server).users_view(), origin) || crate::server::has_con_id(
                    old(server).connections_view(),
                    origin,
                ) ==> out@.len() == 1 && out@[0].to == origin && out@[0].msg.command_view()
                    == crate::cmd::Command::REPLY(
                    ResponseCode::ERR_NICKNAMEINUSE,
                ).to_bytes_spec())
            },
            !nick_in_map(old(server).nicks_view(), self.nick@) && has_user_id(
                old(server).users_view(),
                origin,
            ) ==> {
                let ui = crate::server::user_idx(old(server).users_view(), origin);
                &&& final(server).users_view().len() == old(server).users_view().len()
                &&& final(server).users_view()[ui].info_spec().nick_view() == self.nick@
                &&& final(server).users_view()[ui].info_spec().id_spec() == origin
                // the public host mask follows the new nick
                &&& final(server).users_view()[ui].info_spec().hostmask_view() == final(server).users_view()[ui].info_spec().mask_of()
                &&& nick_in_map(final(server).nicks_view(), self.nick@)
                &&& out@.len() == 1
                &&& out@[0].to == origin
                &&& out@[0].msg.command_view() == crate::cmd::Command::REPLY(
                    ResponseCode::RPL_WELCOME,
                ).to_bytes_spec()
            },
            !nick_in_map(old(server).nicks_view(), self.nick@) && !has_user_id(
                old(server).users_view(),
                origin,
            ) && crate::server::has_con_id(old(server).connections_view(), origin) ==> {
                let ci = crate::server::con_idx(old(server).connections_view(), origin);
                let status = old(server).connections_view()[ci].peer_spec().info_spec().status_spec();
                &&& final(server).connections_view().len() == old(server).connections_view().len()
                &&& final(server).connections_view()[ci].peer_spec().info_spec().nick_view()
                    == self.nick@
                &&& (status == RegistrationStatus::Registered ==> has_user_id(
                    final(server).users_view(),
                    origin,
                ) && out@.len() == 1 && out@[0].to == origin && out@[0].msg.command_view()
                    == crate::cmd::Command::REPLY(ResponseCode::RPL_WELCOME).to_bytes_spec())
                &&& (status != RegistrationStatus::Registered ==> final(server).users_view()
                    == old(server).users_view() && out@.len() == 0)
            },
    {
        let mut out: Vec<Envelope> = Vec::new();
        let host = clone_string_str(server.host());
        if server.nick_index(self.nick.as_str()).is_some() {
            match nick_of(server, &origin) {
                Some(me) => {
                    out.push(
                        response_to(
                            origin,
                            me.as_str(),
                            ResponseCode::ERR_NICKNAMEINUSE,
                            &[self.nick.as_str(), "nickname in use"],
                            host.as_str(),
                        ),
                    );
                },
                None => {},
            }
            return out;
        }
        match server.user_index(&origin) {
            Some(i) => {
                // a registered user takes a new nick; the promotion runs
                // again, which greets the user once more
                server.rename_user(i, self.nick);
                let env = server.send_welcome_msg(server.user_at(i));
                out.push(env);
            },
            None => {
                match server.connection_index(&origin) {
                    Some(j) => {
                        server.conn_set_nick(j, self.nick);
                        let mut more = try_register(server, origin);
                        out.append(&mut more);
                    },
                    None => {},
                }
            },
        }
        out
    }
}

/// Handles the USER command.
///
/// `USER <user> <mode> <unused> :<realname>`
pub struct User {
    pub raw: RawMessage,
    pub username: String,
    pub realname: String,
}

impl User {
    /// Parses a USER message: at least four parameters.
    pub fn from_message(message: RawMessage) -> (r: Result<User, Option<RawMessage>>)
        ensures
            match r {
                Ok(u) => {
                    &&& message.params_view().len() >= 4
                    &&& (is_ascii_bytes(message.params_view()[0]) ==> u.username@ == ascii_chars(
                        message.params_view()[0],
                    ))
                    &&& (is_ascii_bytes(message.params_view()[3]) ==> u.realname@ == ascii_chars(
                        message.params_view()[3],
                    ))
                },
                Err(_) => message.params_view().len() < 4,
            },
    {
        let parsed: Option<(String, String)> = {
            let params = message.params();
            proof {
                assert(params.deep_view().len() == params@.len());
            }
            if params.len() >= 4 {
                proof {
                    assert(message.params_view()[0] =~= params@[0]@);
                    assert(message.params_view()[3] =~= params@[3]@);
                }
                Some(
                    (
                        crate::util::lossy_string(params[0].as_slice()),
                        crate::util::lossy_string(params[3].as_slice()),
                    ),
                )
            } else {
                None
            }
        };
        if let Some((username, realname)) = parsed {
            Ok(User { raw: message, username, realname })
        } else {
            let err = RawMessage::new(
                crate::cmd::Command::REPLY(ResponseCode::ERR_NEEDMOREPARAMS),
                &["*", "USER", "not enough params given"],
                None,
            );
            Err(Some(err))
        }
    }

    /// Applies the USER command: stores the user and real name and marks
    /// the peer registered; an already-registered user is refused with
    /// `ERR_ALREADYREGISTRED`, and a pending connection whose nick is
    /// already set is promoted.
    pub fn invoke(self, server: &mut Server, origin: PeerId) -> (out: Vec<Envelope>)
        requires
            old(server).wf(),
        ensures
            final(server).wf(),
            final(server).channels_view() == old(server).channels_view(),
            final(server).host_view() == old(server).host_view(),
            has_user_id(old(server).users_view(), origin) ==> {
                let ui = crate::server::user_idx(old(server).users_view(), origin);
                &&& final(server).users_view().len() == old(server).users_view().len()
                &&& final(server).users_view()[ui].info_spec().username_view() == self.username@
                &&& final(server).users_view()[ui].info_spec().realname_view() == self.realname@
                &&& final(server).users_view()[ui].info_spec().status_spec()
                    == RegistrationStatus::Registered
                &&& out@.len() == 1
                &&& out@[0].to == origin
                &&& out@[0].msg.command_view() == crate::cmd::Command::REPLY(
                    ResponseCode::ERR_ALREADYREGISTRED,
                ).to_bytes_spec()
            },
            !has_user_id(old(server).users_view(), origin) && crate::server::has_con_id(
                old(server).connections_view(),
                origin,
            ) ==> {
                let ci = crate::server::con_idx(old(server).connections_view(), origin);
                let nick = old(server).connections_view()[ci].peer_spec().info_spec().nick_view();
                &&& final(server).connections_view().len() == old(server).connections_view().len()
                &&& final(server).connections_view()[ci].peer_spec().info_spec().username_view()
                    == self.username@
                &&& final(server).connections_view()[ci].peer_spec().info_spec().realname_view()
                    == self.realname@
                &&& final(server).connections_view()[ci].peer_spec().info_spec().status_spec()
                    == RegistrationStatus::Registered
                // with a nick in hand and free, the peer is promoted
                &&& (nick != "*"@ && !nick_in_map(old(server).nicks_view(), nick)
                    ==> has_user_id(final(server).users_view(), origin) && out@.len() == 1
                    && out@[0].msg.command_view() == crate::cmd::Command::REPLY(
                    ResponseCode::RPL_WELCOME,
                ).to_bytes_spec())
            },
            !has_user_id(old(server).users_view(), origin) && !crate::server::has_con_id(
                old(server).connections_view(),
                origin,
            ) ==> *final(server) == *old(server) && out@.len() == 0,
    {
        let mut out: Vec<Envelope> = Vec::new();
        let host = clone_string_str(server.host());
        match server.user_index(&origin) {
            Some(i) => {
                server.user_set_user(i, self.username, self.realname);
                // the nick is already in the directory: the promotion
                // refuses a second registration
                let me = clone_string(server.user_at(i).info().nick());
                out.push(
                    response_to(
                        origin,
                        me.as_str(),
                        ResponseCode::ERR_ALREADYREGISTRED,
                        &["somebody already registered with the same nickname"],
                        host.as_str(),
                    ),
                );
            },
            None => {
                match server.connection_index(&origin) {
                    Some(j) => {
                        server.conn_set_user(j, self.username, self.realname);
                        let nick_unset = {
                            let n = server.connection_at(j).peer().info().nick().as_str();
                            let r = crate::cmd::eq_bytes(n.as_bytes(), "*".as_bytes());
                            proof {
                                if r {
                                    crate::channel::lemma_str_bytes_agree(n, "*");
                                }
                            }
                            r
                        };
                        if !nick_unset {
                            proof {
                                assert(crate::server::has_con_id(
                                    server.connections_view(),
                                    origin,
                                ));
                                let w = crate::server::con_idx(
                                    server.connections_view(),
                                    origin,
                                );
                                assert(0 <= w < server.connections_view().len()
                                    && server.connections_view()[w].id_spec() == origin);
                                if w < j as int {
                                    assert(server.connections_view()[w].id_spec()
                                        != server.connections_view()[j as int].id_spec());
                                } else if w > j as int {
                                    assert(server.connections_view()[j as int].id_spec()
                                        != server.connections_view()[w].id_spec());
                                }
                            }
                            let mut more = try_register(server, origin);
                            out.append(&mut more);
                        }
                    },
                    None => {},
                }
            },
        }
        out
    }
}

} // verus!
