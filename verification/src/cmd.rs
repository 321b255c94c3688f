//! IRC commands and numeric reply codes.

use vstd::prelude::*;

verus! {

/// Numeric reply and error codes of RFC 1459 / RFC 2812.
///
/// Each code renders on the wire as a three-digit zero-padded decimal,
/// given by [`ResponseCode::code`].
#[allow(non_camel_case_types)]
#[derive(Clone, Copy, Debug, PartialEq, Eq, Structural)]
pub enum ResponseCode {
    RPL_WELCOME,
    RPL_CHANNELMODEIS,
    RPL_NOTOPIC,
    RPL_TOPIC,
    RPL_WHOREPLY,
    RPL_ENDOFWHO,
    RPL_NAMREPLY,
    RPL_ENDOFNAMES,
    RPL_BANLIST,
    RPL_ENDOFBANLIST,
    RPL_INVITELIST,
    RPL_ENDOFINVITELIST,
    RPL_EXCEPTLIST,
    RPL_ENDOFEXCEPTLIST,
    ERR_NOSUCHNICK,
    ERR_NOSUCHCHANNEL,
    ERR_CANNOTSENDTOCHAN,
    ERR_NONICKNAMEGIVEN,
    ERR_ERRONEUSNICKNAME,
    ERR_NICKNAMEINUSE,
    ERR_USERNOTINCHANNEL,
    ERR_NOTONCHANNEL,
    ERR_NEEDMOREPARAMS,
    ERR_ALREADYREGISTRED,
    ERR_KEYSET,
    ERR_CHANNELISFULL,
    ERR_UNKNOWNMODE,
    ERR_INVITEONLYCHAN,
    ERR_BANNEDFROMCHAN,
    ERR_BADCHANNELKEY,
    ERR_CHANOPRIVSNEEDED,
}

impl ResponseCode {
    /// The three-digit number of the reply, always below 1000.
    pub fn code(&self) -> (r: u16)
        ensures
            r == self.spec_code(),
    {
        match *self {
            ResponseCode::RPL_WELCOME => 1,
            ResponseCode::RPL_CHANNELMODEIS => 324,
            ResponseCode::RPL_NOTOPIC => 331,
            ResponseCode::RPL_TOPIC => 332,
            ResponseCode::RPL_WHOREPLY => 352,
            ResponseCode::RPL_ENDOFWHO => 315,
            ResponseCode::RPL_NAMREPLY => 353,
            ResponseCode::RPL_ENDOFNAMES => 366,
            ResponseCode::RPL_BANLIST => 367,
            ResponseCode::RPL_ENDOFBANLIST => 368,
            ResponseCode::RPL_INVITELIST => 346,
            ResponseCode::RPL_ENDOFINVITELIST => 347,
            ResponseCode::RPL_EXCEPTLIST => 348,
            ResponseCode::RPL_ENDOFEXCEPTLIST => 349,
            ResponseCode::ERR_NOSUCHNICK => 401,
            ResponseCode::ERR_NOSUCHCHANNEL => 403,
            ResponseCode::ERR_CANNOTSENDTOCHAN => 404,
            ResponseCode::ERR_NONICKNAMEGIVEN => 431,
            ResponseCode::ERR_ERRONEUSNICKNAME => 432,
            ResponseCode::ERR_NICKNAMEINUSE => 433,
            ResponseCode::ERR_USERNOTINCHANNEL => 441,
            ResponseCode::ERR_NOTONCHANNEL => 442,
            ResponseCode::ERR_NEEDMOREPARAMS => 461,
            ResponseCode::ERR_ALREADYREGISTRED => 462,
            ResponseCode::ERR_KEYSET => 467,
            ResponseCode::ERR_CHANNELISFULL => 471,
            ResponseCode::ERR_UNKNOWNMODE => 472,
            ResponseCode::ERR_INVITEONLYCHAN => 473,
            ResponseCode::ERR_BANNEDFROMCHAN => 474,
            ResponseCode::ERR_BADCHANNELKEY => 475,
            ResponseCode::ERR_CHANOPRIVSNEEDED => 482,
        }
    }

    /// Specification twin of [`ResponseCode::code`].
    pub open spec fn spec_code(self) -> u16 {
        match self {
            ResponseCode::RPL_WELCOME => 1,
            ResponseCode::RPL_CHANNELMODEIS => 324,
            ResponseCode::RPL_NOTOPIC => 331,
            ResponseCode::RPL_TOPIC => 332,
            ResponseCode::RPL_WHOREPLY => 352,
            ResponseCode::RPL_ENDOFWHO => 315,
            ResponseCode::RPL_NAMREPLY => 353,
            ResponseCode::RPL_ENDOFNAMES => 366,
            ResponseCode::RPL_BANLIST => 367,
            ResponseCode::RPL_ENDOFBANLIST => 368,
            ResponseCode::RPL_INVITELIST => 346,
            ResponseCode::RPL_ENDOFINVITELIST => 347,
            ResponseCode::RPL_EXCEPTLIST => 348,
            ResponseCode::RPL_ENDOFEXCEPTLIST => 349,
            ResponseCode::ERR_NOSUCHNICK => 401,
            ResponseCode::ERR_NOSUCHCHANNEL => 403,
            ResponseCode::ERR_CANNOTSENDTOCHAN => 404,
            ResponseCode::ERR_NONICKNAMEGIVEN => 431,
            ResponseCode::ERR_ERRONEUSNICKNAME => 432,
            ResponseCode::ERR_NICKNAMEINUSE => 433,
            ResponseCode::ERR_USERNOTINCHANNEL => 441,
            ResponseCode::ERR_NOTONCHANNEL => 442,
            ResponseCode::ERR_NEEDMOREPARAMS => 461,
            ResponseCode::ERR_ALREADYREGISTRED => 462,
            ResponseCode::ERR_KEYSET => 467,
            ResponseCode::ERR_CHANNELISFULL => 471,
            ResponseCode::ERR_UNKNOWNMODE => 472,
            ResponseCode::ERR_INVITEONLYCHAN => 473,
            ResponseCode::ERR_BANNEDFROMCHAN => 474,
            ResponseCode::ERR_BADCHANNELKEY => 475,
            ResponseCode::ERR_CHANOPRIVSNEEDED => 482,
        }
    }
}


/// An IRC command: one of the commands this daemon understands, a numeric
/// reply, or an unknown command kept as its bytes.
#[allow(non_camel_case_types)]
#[derive(Clone, Debug)]
pub enum Command {
    PRIVMSG,
    NOTICE,
    MODE,
    JOIN,
    PING,
    WHO,
    NAMES,
    TOPIC,
    PART,
    QUIT,
    PONG,
    NICK,
    USER,
    CAP,
    /// Numeric reply codes, see [`ResponseCode`]
    REPLY(ResponseCode),
    /// Catch all for unknown or unsupported commands
    UNKNOWN(Vec<u8>),
}

/// The bytes of a decimal rendering of `n`, zero-padded to three places.
pub open spec fn three_digits(n: u16) -> Seq<u8> {
    seq![(48 + n / 100 % 10) as u8, (48 + n / 10 % 10) as u8, (48 + n % 10) as u8]
}

/// Compares two byte slices.
pub fn eq_bytes(a: &[u8], b: &[u8]) -> (r: bool)
    ensures
        r == (a@ == b@),
{
    if a.len() != b.len() {
        proof {
            assert(a@.len() != b@.len());
        }
        return false;
    }
    let mut i: usize = 0;
    while i < a.len()
        invariant
            0 <= i <= a@.len(),
            a@.len() == b@.len(),
            forall|j: int| 0 <= j < i ==> a@[j] == b@[j],
        decreases a@.len() - i,
    {
        if a[i] != b[i] {
            return false;
        }
        i = i + 1;
    }
    proof {
        assert(a@ =~= b@);
    }
    true
}

impl Command {
    /// Specification twin of [`Command::to_bytes`].
    pub open spec fn to_bytes_spec(self) -> Seq<u8> {
        match self {
            Command::PRIVMSG => seq![80u8, 82u8, 73u8, 86u8, 77u8, 83u8, 71u8],
            Command::NOTICE => seq![78u8, 79u8, 84u8, 73u8, 67u8, 69u8],
            Command::MODE => seq![77u8, 79u8, 68u8, 69u8],
            Command::JOIN => seq![74u8, 79u8, 73u8, 78u8],
            Command::PING => seq![80u8, 73u8, 78u8, 71u8],
            Command::WHO => seq![87u8, 72u8, 79u8],
            Command::NAMES => seq![78u8, 65u8, 77u8, 69u8, 83u8],
            Command::TOPIC => seq![84u8, 79u8, 80u8, 73u8, 67u8],
            Command::PART => seq![80u8, 65u8, 82u8, 84u8],
            Command::QUIT => seq![81u8, 85u8, 73u8, 84u8],
            Command::PONG => seq![80u8, 79u8, 78u8, 71u8],
            Command::NICK => seq![78u8, 73u8, 67u8, 75u8],
            Command::USER => seq![85u8, 83u8, 69u8, 82u8],
            Command::CAP => seq![67u8, 65u8, 80u8],
            Command::REPLY(reply) => three_digits(reply.spec_code()),
            Command::UNKNOWN(bytes) => bytes@,
        }
    }

    /// The command the given bytes name, when they name one.
    pub open spec fn known_command(b: Seq<u8>) -> Option<Command> {
        if b == Command::PRIVMSG.to_bytes_spec() {
            Some(Command::PRIVMSG)
        } else if b == Command::NOTICE.to_bytes_spec() {
            Some(Command::NOTICE)
        } else if b == Command::MODE.to_bytes_spec() {
            Some(Command::MODE)
        } else if b == Command::JOIN.to_bytes_spec() {
            Some(Command::JOIN)
        } else if b == Command::PING.to_bytes_spec() {
            Some(Command::PING)
        } else if b == Command::WHO.to_bytes_spec() {
            Some(Command::WHO)
        } else if b == Command::NAMES.to_bytes_spec() {
            Some(Command::NAMES)
        } else if b == Command::TOPIC.to_bytes_spec() {
            Some(Command::TOPIC)
        } else if b == Command::PART.to_bytes_spec() {
            Some(Command::PART)
        } else if b == Command::QUIT.to_bytes_spec() {
            Some(Command::QUIT)
        } else if b == Command::PONG.to_bytes_spec() {
            Some(Command::PONG)
        } else if b == Command::NICK.to_bytes_spec() {
            Some(Command::NICK)
        } else if b == Command::USER.to_bytes_spec() {
            Some(Command::USER)
        } else if b == Command::CAP.to_bytes_spec() {
            Some(Command::CAP)
        } else {
            None
        }
    }

    /// Converts a byte string to the command it names; bytes that name
    /// none are kept as an unknown command.
    pub fn from_bytes(bytes: &[u8]) -> (r: Command)
        ensures
            match Command::known_command(bytes@) {
                Some(c) => r == c,
                None => r matches Command::UNKNOWN(u) && u@ == bytes@,
            },
    {
        if eq_bytes(bytes, Command::PRIVMSG.to_bytes().as_slice()) {
            return Command::PRIVMSG;
        }
        if eq_bytes(bytes, Command::NOTICE.to_bytes().as_slice()) {
            return Command::NOTICE;
        }
        if eq_bytes(bytes, Command::MODE.to_bytes().as_slice()) {
            return Command::MODE;
        }
        if eq_bytes(bytes, Command::JOIN.to_bytes().as_slice()) {
            return Command::JOIN;
        }
        if eq_bytes(bytes, Command::PING.to_bytes().as_slice()) {
            return Command::PING;
        }
        if eq_bytes(bytes, Command::WHO.to_bytes().as_slice()) {
            return Command::WHO;
        }
        if eq_bytes(bytes, Command::NAMES.to_bytes().as_slice()) {
            return Command::NAMES;
        }
        if eq_bytes(bytes, Command::TOPIC.to_bytes().as_slice()) {
            return Command::TOPIC;
        }
        if eq_bytes(bytes, Command::PART.to_bytes().as_slice()) {
            return Command::PART;
        }
        if eq_bytes(bytes, Command::QUIT.to_bytes().as_slice()) {
            return Command::QUIT;
        }
        if eq_bytes(bytes, Command::PONG.to_bytes().as_slice()) {
            return Command::PONG;
        }
        if eq_bytes(bytes, Command::NICK.to_bytes().as_slice()) {
            return Command::NICK;
        }
        if eq_bytes(bytes, Command::USER.to_bytes().as_slice()) {
            return Command::USER;
        }
        if eq_bytes(bytes, Command::CAP.to_bytes().as_slice()) {
            return Command::CAP;
        }
        Command::UNKNOWN(vstd::slice::slice_to_vec(bytes))
    }

    /// Converts the command into its wire bytes.
    pub fn to_bytes(&self) -> (r: Vec<u8>)
        ensures
            r@ == self.to_bytes_spec(),
    {
        match self {
            Command::PRIVMSG => {
                let mut v: Vec<u8> = Vec::new();
                v.push(80u8);
                v.push(82u8);
                v.push(73u8);
                v.push(86u8);
                v.push(77u8);
                v.push(83u8);
                v.push(71u8);
                assert(v@ =~= self.to_bytes_spec());
                v
            },
            Command::NOTICE => {
                let mut v: Vec<u8> = Vec::new();
                v.push(78u8);
                v.push(79u8);
                v.push(84u8);
                v.push(73u8);
                v.push(67u8);
                v.push(69u8);
                assert(v@ =~= self.to_bytes_spec());
                v
            },
            Command::MODE => {
                let mut v: Vec<u8> = Vec::new();
                v.push(77u8);
                v.push(79u8);
                v.push(68u8);
                v.push(69u8);
                assert(v@ =~= self.to_bytes_spec());
                v
            },
            Command::JOIN => {
                let mut v: Vec<u8> = Vec::new();
                v.push(74u8);
                v.push(79u8);
                v.push(73u8);
                v.push(78u8);
                assert(v@ =~= self.to_bytes_spec());
                v
            },
            Command::PING => {
                let mut v: Vec<u8> = Vec::new();
                v.push(80u8);
                v.push(73u8);
                v.push(78u8);
                v.push(71u8);
                assert(v@ =~= self.to_bytes_spec());
                v
            },
            Command::WHO => {
                let mut v: Vec<u8> = Vec::new();
                v.push(87u8);
                v.push(72u8);
                v.push(79u8);
                assert(v@ =~= self.to_bytes_spec());
                v
            },
            Command::NAMES => {
                let mut v: Vec<u8> = Vec::new();
                v.push(78u8);
                v.push(65u8);
                v.push(77u8);
                v.push(69u8);
                v.push(83u8);
                assert(v@ =~= self.to_bytes_spec());
                v
            },
            Command::TOPIC => {
                let mut v: Vec<u8> = Vec::new();
                v.push(84u8);
                v.push(79u8);
                v.push(80u8);
                v.push(73u8);
                v.push(67u8);
                assert(v@ =~= self.to_bytes_spec());
                v
            },
            Command::PART => {
                let mut v: Vec<u8> = Vec::new();
                v.push(80u8);
                v.push(65u8);
                v.push(82u8);
                v.push(84u8);
                assert(v@ =~= self.to_bytes_spec());
                v
            },
            Command::QUIT => {
                let mut v: Vec<u8> = Vec::new();
                v.push(81u8);
                v.push(85u8);
                v.push(73u8);
                v.push(84u8);
                assert(v@ =~= self.to_bytes_spec());
                v
            },
            Command::PONG => {
                let mut v: Vec<u8> = Vec::new();
                v.push(80u8);
                v.push(79u8);
                v.push(78u8);
                v.push(71u8);
                assert(v@ =~= self.to_bytes_spec());
                v
            },
            Command::NICK => {
                let mut v: Vec<u8> = Vec::new();
                v.push(78u8);
                v.push(73u8);
                v.push(67u8);
                v.push(75u8);
                assert(v@ =~= self.to_bytes_spec());
                v
            },
            Command::USER => {
                let mut v: Vec<u8> = Vec::new();
                v.push(85u8);
                v.push(83u8);
                v.push(69u8);
                v.push(82u8);
                assert(v@ =~= self.to_bytes_spec());
                v
            },
            Command::CAP => {
                let mut v: Vec<u8> = Vec::new();
                v.push(67u8);
                v.push(65u8);
                v.push(80u8);
                assert(v@ =~= self.to_bytes_spec());
                v
            },
            Command::REPLY(reply) => {
                let c = reply.code();
                let mut v: Vec<u8> = Vec::new();
                v.push(48 + (c / 100 % 10) as u8);
                v.push(48 + (c / 10 % 10) as u8);
                v.push(48 + (c % 10) as u8);
                assert(v@ =~= three_digits(reply.spec_code()));
                v
            },
            Command::UNKNOWN(bytes) => {
                let mut v: Vec<u8> = Vec::new();
                let mut i: usize = 0;
                while i < bytes.len()
                    invariant
                        0 <= i <= bytes@.len(),
                        v@ =~= bytes@.subrange(0, i as int),
                    decreases bytes@.len() - i,
                {
                    v.push(bytes[i]);
                    i = i + 1;
                }
                assert(v@ =~= bytes@);
                v
            },
        }
    }
}

} // verus!
