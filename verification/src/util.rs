//! Validation of nicknames, channel names and message receivers, and host
//! masks with `*` wildcards.

use vstd::prelude::*;
use vstd::string::StrSliceExecFns;

verus! {

/// True when every byte is ASCII.
pub open spec fn is_ascii_bytes(s: Seq<u8>) -> bool {
    forall|i: int| 0 <= i < s.len() ==> s[i] < 128
}

/// The characters that a byte string spells, byte for byte.
pub open spec fn ascii_chars(s: Seq<u8>) -> Seq<char> {
    Seq::new(s.len(), |i: int| s[i] as char)
}

/// The UTF-8 bytes of the characters.
pub open spec fn char_bytes(s: Seq<char>) -> Seq<u8> {
    vstd::utf8::encode_utf8(s)
}

/// True when the bytes are a well-formed UTF-8 encoding.
pub open spec fn utf8_valid(b: Seq<u8>) -> bool {
    vstd::utf8::valid_utf8(b)
}

/// The characters a well-formed UTF-8 byte string spells.
pub open spec fn utf8_chars(b: Seq<u8>) -> Seq<char> {
    vstd::utf8::decode_utf8(b)
}

/// Relies on `str::from_utf8`: accepts exactly the well-formed UTF-8 byte
/// strings and returns the characters they encode.
#[verifier::external_body]
pub(crate) fn utf8_string(bytes: &[u8]) -> (r: Option<String>)
    ensures
        r is Some <==> utf8_valid(bytes@),
        r matches Some(s) ==> s@ == utf8_chars(bytes@),
{
    match std::str::from_utf8(bytes) {
        Ok(s) => Some(s.to_string()),
        Err(_) => None,
    }
}

/// Relies on `String::from_utf8_lossy`: ASCII bytes decode to the same
/// characters, one per byte.
#[verifier::external_body]
pub(crate) fn lossy_string(bytes: &[u8]) -> (r: String)
    ensures
        is_ascii_bytes(bytes@) ==> r@ == ascii_chars(bytes@),
{
    String::from_utf8_lossy(bytes).into_owned()
}

/// A letter, of either case.
pub open spec fn is_letter(c: char) -> bool {
    ('a' <= c && c <= 'z') || ('A' <= c && c <= 'Z')
}

/// A decimal digit.
pub open spec fn is_digit(c: char) -> bool {
    '0' <= c && c <= '9'
}

/// The special characters a nickname may hold: `[ \ ] ^ _ \u{60} { | }`.
pub open spec fn is_special(c: char) -> bool {
    ('\u{5B}' <= c && c <= '\u{60}') || ('\u{7B}' <= c && c <= '\u{7D}')
}

/// A character that may open a nickname.
pub open spec fn nick_start(c: char) -> bool {
    is_letter(c) || is_special(c)
}

/// A character that may continue a nickname.
pub open spec fn nick_char(c: char) -> bool {
    is_letter(c) || is_digit(c) || is_special(c) || c == '-'
}

/// The nickname grammar: `( letter / special ) *8( letter / digit /
/// special / "-" )`.
pub open spec fn valid_nick_spec(s: Seq<char>) -> bool {
    &&& 1 <= s.len() <= 9
    &&& nick_start(s[0])
    &&& forall|i: int| 1 <= i < s.len() ==> nick_char(#[trigger] s[i])
}

/// Whether a character may open a nickname.
fn nick_start_exec(c: char) -> (r: bool)
    ensures
        r == nick_start(c),
{
    ('a' <= c && c <= 'z') || ('A' <= c && c <= 'Z') || ('\u{5B}' <= c && c <= '\u{60}') || (
    '\u{7B}' <= c && c <= '\u{7D}')
}

/// Whether a character may continue a nickname.
fn nick_char_exec(c: char) -> (r: bool)
    ensures
        r == nick_char(c),
{
    nick_start_exec(c) || ('0' <= c && c <= '9') || c == '-'
}

/// Checks if the nickname is valid: at most nine characters, opening with
/// a letter or a special character, continuing with letters, digits,
/// specials or `-`.
pub fn valid_nick(nick: &str) -> (r: bool)
    ensures
        r == valid_nick_spec(nick@),
{
    let n = nick.unicode_len();
    if n < 1 || n > 9 {
        return false;
    }
    if !nick_start_exec(nick.get_char(0)) {
        return false;
    }
    let mut i: usize = 1;
    while i < n
        invariant
            1 <= i <= n,
            n == nick@.len(),
            forall|j: int| 1 <= j < i ==> nick_char(#[trigger] nick@[j]),
        decreases n - i,
    {
        if !nick_char_exec(nick.get_char(i)) {
            return false;
        }
        i = i + 1;
    }
    true
}

/// The channel name grammar: `#` or `&`, then at least one more character,
/// none of them a space, a comma or BEL.
pub open spec fn valid_channel_spec(s: Seq<char>) -> bool {
    &&& s.len() >= 2
    &&& (s[0] == '#' || s[0] == '&')
    &&& forall|i: int| 0 <= i < s.len() ==> !forbidden_in_channel(#[trigger] s[i])
}

/// The characters a channel name may not hold.
pub open spec fn forbidden_in_channel(c: char) -> bool {
    c == ' ' || c == ',' || c == '\u{7}'
}

/// Checks if the channel name is valid.
pub fn valid_channel(channel: &str) -> (r: bool)
    ensures
        r == valid_channel_spec(channel@),
{
    let n = channel.unicode_len();
    if n < 2 {
        return false;
    }
    let first = channel.get_char(0);
    if !(first == '#' || first == '&') {
        return false;
    }
    let mut i: usize = 0;
    while i < n
        invariant
            0 <= i <= n,
            n == channel@.len(),
            forall|j: int| 0 <= j < i ==> !forbidden_in_channel(#[trigger] channel@[j]),
        decreases n - i,
    {
        let c = channel.get_char(i);
        if c == ' ' || c == ',' || c == '\u{7}' {
            return false;
        }
        i = i + 1;
    }
    true
}

/// Validates a raw nickname and converts it into a string.
pub fn verify_nick(nick: &[u8]) -> (r: Option<String>)
    ensures
        match r {
            Some(s) => utf8_valid(nick@) && s@ == utf8_chars(nick@) && valid_nick_spec(s@),
            None => !(utf8_valid(nick@) && valid_nick_spec(utf8_chars(nick@))),
        },
{
    match utf8_string(nick) {
        None => None,
        Some(s) => if valid_nick(s.as_str()) {
            Some(s)
        } else {
            None
        },
    }
}

/// Validates a raw channel name and converts it into a string.
pub fn verify_channel(channel: &[u8]) -> (r: Option<String>)
    ensures
        match r {
            Some(s) => utf8_valid(channel@) && s@ == utf8_chars(channel@)
                && valid_channel_spec(s@),
            None => !(utf8_valid(channel@) && valid_channel_spec(utf8_chars(channel@))),
        },
{
    match utf8_string(channel) {
        None => None,
        Some(s) => if valid_channel(s.as_str()) {
            Some(s)
        } else {
            None
        },
    }
}

/// What a message may be addressed to: a channel, a nickname, or neither.
#[derive(Clone)]
pub enum Receiver {
    ChannelName(String),
    NickName(String),
    InvalidReceiver(Vec<u8>),
}

/// What [`verify_receiver`] promises of its result for the given raw
/// name: a channel when the characters make a valid channel name, else a
/// nick when they make a valid nick, else the bytes unchanged.
pub open spec fn receiver_classified(r: Receiver, raw: Seq<u8>) -> bool {
    match r {
        Receiver::ChannelName(s) => utf8_valid(raw) && s@ == utf8_chars(raw)
            && valid_channel_spec(s@),
        Receiver::NickName(s) => utf8_valid(raw) && s@ == utf8_chars(raw) && !valid_channel_spec(
            s@,
        ) && valid_nick_spec(s@),
        Receiver::InvalidReceiver(b) => b@ == raw && !(utf8_valid(raw) && (valid_channel_spec(
            utf8_chars(raw),
        ) || valid_nick_spec(utf8_chars(raw)))),
    }
}

/// Validates a raw receiver name: a valid channel name, else a valid
/// nickname, else invalid.
pub fn verify_receiver(recv: &[u8]) -> (r: Receiver)
    ensures
        receiver_classified(r, recv@),
{
    match utf8_string(recv) {
        None => Receiver::InvalidReceiver(vstd::slice::slice_to_vec(recv)),
        Some(s) => if valid_channel(s.as_str()) {
            Receiver::ChannelName(s)
        } else if valid_nick(s.as_str()) {
            Receiver::NickName(s)
        } else {
            Receiver::InvalidReceiver(vstd::slice::slice_to_vec(recv))
        },
    }
}


/// Index of the first occurrence of `c` in `s`, if any.
pub open spec fn find_char(s: Seq<char>, c: char) -> Option<int>
    decreases s.len(),
{
    if s.len() == 0 {
        None
    } else if s[0] == c {
        Some(0int)
    } else {
        match find_char(s.drop_first(), c) {
            None => None,
            Some(i) => Some(i + 1),
        }
    }
}

/// Index of the last occurrence of `c` in `s`, if any.
pub open spec fn rfind_char(s: Seq<char>, c: char) -> Option<int>
    decreases s.len(),
{
    if s.len() == 0 {
        None
    } else if s.last() == c {
        Some(s.len() - 1)
    } else {
        rfind_char(s.drop_last(), c)
    }
}

/// What [`find_char`] returns: the first occurrence, or nothing.
pub proof fn lemma_find_char(s: Seq<char>, c: char)
    ensures
        match find_char(s, c) {
            None => forall|j: int| 0 <= j < s.len() ==> s[j] != c,
            Some(i) => 0 <= i < s.len() && s[i] == c && forall|j: int| 0 <= j < i ==> s[j] != c,
        },
    decreases s.len(),
{
    if s.len() != 0 && s[0] != c {
        lemma_find_char(s.drop_first(), c);
        match find_char(s.drop_first(), c) {
            None => {
                assert forall|j: int| 0 <= j < s.len() implies s[j] != c by {
                    if j >= 1 {
                        assert(s.drop_first()[j - 1] != c);
                    }
                }
            },
            Some(i) => {
                assert(s[i + 1] == s.drop_first()[i]);
                assert forall|j: int| 0 <= j < i + 1 implies s[j] != c by {
                    if j >= 1 {
                        assert(s.drop_first()[j - 1] != c);
                    }
                }
            },
        }
    }
}

/// What [`rfind_char`] returns: the last occurrence, or nothing.
pub proof fn lemma_rfind_char(s: Seq<char>, c: char)
    ensures
        match rfind_char(s, c) {
            None => forall|j: int| 0 <= j < s.len() ==> s[j] != c,
            Some(i) => 0 <= i < s.len() && s[i] == c && forall|j: int|
                i < j < s.len() ==> s[j] != c,
        },
    decreases s.len(),
{
    if s.len() != 0 && s.last() != c {
        lemma_rfind_char(s.drop_last(), c);
        match rfind_char(s.drop_last(), c) {
            None => {
                assert forall|j: int| 0 <= j < s.len() implies s[j] != c by {
                    if j < s.len() - 1 {
                        assert(s.drop_last()[j] != c);
                    }
                }
            },
            Some(i) => {
                assert(s[i] == s.drop_last()[i]);
                assert forall|j: int| i < j < s.len() implies s[j] != c by {
                    if j < s.len() - 1 {
                        assert(s.drop_last()[j] != c);
                    }
                }
            },
        }
    }
}

/// Glob matching with `*` as the only wildcard: `*` may stand for any
/// stretch of characters, everything else matches literally,
/// case-sensitive.
pub open spec fn glob_match(p: Seq<char>, s: Seq<char>) -> bool
    decreases p.len(), s.len(),
{
    if p.len() == 0 {
        s.len() == 0
    } else if p[0] == '*' {
        glob_match(p.drop_first(), s) || (s.len() > 0 && glob_match(p, s.drop_first()))
    } else {
        s.len() > 0 && p[0] == s[0] && glob_match(p.drop_first(), s.drop_first())
    }
}

/// On a pattern without wildcards, matching means literal equality.
pub proof fn lemma_match_no_star_is_equality(p: Seq<char>, s: Seq<char>)
    requires
        forall|i: int| 0 <= i < p.len() ==> p[i] != '*',
    ensures
        glob_match(p, s) <==> p == s,
    decreases p.len(),
{
    if p.len() == 0 {
        if s.len() == 0 {
            assert(p =~= s);
        }
    } else {
        assert(forall|i: int|
            0 <= i < p.drop_first().len() ==> #[trigger] p.drop_first()[i] == p[i + 1]);
        lemma_match_no_star_is_equality(p.drop_first(), s.drop_first());
        if s.len() > 0 && p[0] == s[0] && p.drop_first() == s.drop_first() {
            assert forall|k: int| 0 <= k < p.len() implies p[k] == s[k] by {
                if k >= 1 {
                    assert(p.drop_first()[k - 1] == s.drop_first()[k - 1]);
                }
            }
            assert(p =~= s);
        }
        if p == s {
            assert(p.drop_first() =~= s.drop_first());
        }
    }
}

/// A host mask in the form `nick!user@host`, with `*` wildcards.
#[derive(PartialEq, Eq, Clone, Debug)]
pub struct HostMask {
    mask: String,
}

impl HostMask {
    /// The characters of the mask.
    pub closed spec fn view(&self) -> Seq<char> {
        self.mask@
    }

    /// Wraps a mask string.
    pub fn new(mask: String) -> (r: HostMask)
        ensures
            r@ == mask@,
    {
        HostMask { mask }
    }

    /// Builds the mask `nick!user@host`.
    pub fn from_parts(nick: &str, user: &str, host: &str) -> (r: HostMask)
        ensures
            r@ == nick@ + "!"@ + user@ + "@"@ + host@,
    {
        let mut m = String::from_str(nick);
        m.append("!");
        m.append(user);
        m.append("@");
        m.append(host);
        HostMask { mask: m }
    }

    /// Checks the given string against the mask, `*` standing for any
    /// stretch of characters.
    ///
    /// `"*!*@*.com"` matches `"a!b@example.com"`.
    pub fn matches(&self, mask: &str) -> (r: bool)
        ensures
            r == glob_match(self@, mask@),
    {
        let r = match_from(self.mask.as_str(), mask, 0, 0);
        proof {
            assert(self.mask@.subrange(0, self.mask@.len() as int) =~= self.mask@);
            assert(mask@.subrange(0, mask@.len() as int) =~= mask@);
        }
        r
    }

    /// The host part: everything after the last `@`, or the whole mask
    /// when there is none.
    pub fn host(&self) -> (r: Option<&str>)
        ensures
            r matches Some(h) && h@ == (match rfind_char(self@, '@') {
                Some(i) => self@.subrange(i + 1, self@.len() as int),
                None => self@,
            }),
    {
        let n = self.mask.as_str().unicode_len();
        let mut i: usize = n;
        while i > 0
            invariant
                0 <= i <= n,
                n == self@.len(),
                forall|j: int| i <= j < n ==> self@[j] != '@',
            decreases i,
        {
            if self.mask.as_str().get_char(i - 1) == '@' {
                proof {
                    lemma_rfind_char(self@, '@');
                }
                return Some(self.mask.as_str().substring_char(i, n));
            }
            i = i - 1;
        }
        proof {
            lemma_rfind_char(self@, '@');
            assert(self@.subrange(0, n as int) =~= self@);
        }
        Some(self.mask.as_str().substring_char(0, n))
    }

    /// The user part: what stands between the last `!` and the first `@`.
    pub fn user(&self) -> (r: Option<&str>)
        ensures
            r matches Some(u) && u@ == ({
                let upto = match find_char(self@, '@') {
                    Some(i) => i,
                    None => self@.len() as int,
                };
                let part = self@.subrange(0, upto);
                match rfind_char(part, '!') {
                    Some(j) => part.subrange(j + 1, part.len() as int),
                    None => part,
                }
            }),
    {
        let n = self.mask.as_str().unicode_len();
        // the end of the part before the first '@'
        let mut upto: usize = n;
        let mut i: usize = 0;
        loop
            invariant_except_break
                0 <= i <= n,
                upto == n,
                forall|j: int| 0 <= j < i ==> self@[j] != '@',
            invariant
                n == self@.len(),
            ensures
                upto <= n,
                upto as int == (match find_char(self@, '@') {
                    Some(x) => x,
                    None => self@.len() as int,
                }),
            decreases n - i,
        {
            if i >= n {
                proof {
                    lemma_find_char(self@, '@');
                }
                break;
            }
            if self.mask.as_str().get_char(i) == '@' {
                upto = i;
                proof {
                    lemma_find_char(self@, '@');
                }
                break;
            }
            i = i + 1;
        }
        let ghost part = self@.subrange(0, upto as int);
        proof {
            assert(forall|x: int| 0 <= x < upto ==> #[trigger] part[x] == self@[x]);
        }
        // the start of the part after its last '!'
        let mut k: usize = upto;
        while k > 0
            invariant
                0 <= k <= upto <= n,
                n == self@.len(),
                part == self@.subrange(0, upto as int),
                upto as int == (match find_char(self@, '@') {
                    Some(x) => x,
                    None => self@.len() as int,
                }),
                forall|j: int| k <= j < upto ==> self@[j] != '!',
            decreases k,
        {
            if self.mask.as_str().get_char(k - 1) == '!' {
                proof {
                    lemma_rfind_char(part, '!');
                    assert(part[k - 1] == '!');
                    match rfind_char(part, '!') {
                        None => {
                            assert(false);
                        },
                        Some(w) => {
                            if w > k - 1 {
                                assert(self@[w] != '!');
                                assert(part[w] == self@[w]);
                                assert(false);
                            }
                        },
                    }
                    assert(self@.subrange(k as int, upto as int) =~= part.subrange(
                        k as int,
                        part.len() as int,
                    ));
                }
                return Some(self.mask.as_str().substring_char(k, upto));
            }
            k = k - 1;
        }
        proof {
            lemma_rfind_char(part, '!');
            match rfind_char(part, '!') {
                None => {},
                Some(w) => {
                    assert(self@[w] != '!');
                    assert(part[w] == self@[w]);
                    assert(false);
                },
            }
            assert(self@.subrange(0, upto as int) =~= part.subrange(0, part.len() as int));
        }
        Some(self.mask.as_str().substring_char(0, upto))
    }

    /// The nick part: everything before the first `!`, or the whole mask
    /// when there is none.
    pub fn nick(&self) -> (r: Option<&str>)
        ensures
            r matches Some(nk) && nk@ == (match find_char(self@, '!') {
                Some(i) => self@.subrange(0, i),
                None => self@,
            }),
    {
        let n = self.mask.as_str().unicode_len();
        let mut i: usize = 0;
        while i < n
            invariant
                0 <= i <= n,
                n == self@.len(),
                forall|j: int| 0 <= j < i ==> self@[j] != '!',
            decreases n - i,
        {
            if self.mask.as_str().get_char(i) == '!' {
                proof {
                    lemma_find_char(self@, '!');
                }
                return Some(self.mask.as_str().substring_char(0, i));
            }
            i = i + 1;
        }
        proof {
            lemma_find_char(self@, '!');
            assert(self@.subrange(0, n as int) =~= self@);
        }
        Some(self.mask.as_str().substring_char(0, n))
    }

    /// A view into the mask.
    pub fn as_str(&self) -> (r: &str)
        ensures
            r@ == self@,
    {
        self.mask.as_str()
    }
}

/// Whether the pattern suffix `p[i..]` glob-matches the subject suffix
/// `s[j..]`.
fn match_from(p: &str, s: &str, i: usize, j: usize) -> (r: bool)
    requires
        i <= p@.len(),
        j <= s@.len(),
    ensures
        r == glob_match(
            p@.subrange(i as int, p@.len() as int),
            s@.subrange(j as int, s@.len() as int),
        ),
    decreases p@.len() - i, s@.len() - j,
{
    let pn = p.unicode_len();
    let sn = s.unicode_len();
    let ghost pv = p@.subrange(i as int, p@.len() as int);
    let ghost sv = s@.subrange(j as int, s@.len() as int);
    if i == pn {
        return j == sn;
    }
    let c = p.get_char(i);
    assert(pv[0] == p@[i as int]);
    proof {
        assert(pv.drop_first() =~= p@.subrange(i as int + 1, p@.len() as int));
    }
    if c == '*' {
        // either the star stands for nothing here, or it swallows one
        // more subject character
        if match_from(p, s, i + 1, j) {
            return true;
        }
        if j < sn {
            proof {
                assert(sv[0] == s@[j as int]);
                assert(sv.drop_first() =~= s@.subrange(j as int + 1, s@.len() as int));
            }
            match_from(p, s, i, j + 1)
        } else {
            false
        }
    } else {
        if j == sn {
            return false;
        }
        if s.get_char(j) != c {
            proof {
                assert(sv[0] == s@[j as int]);
            }
            return false;
        }
        proof {
            assert(sv[0] == s@[j as int]);
            assert(sv.drop_first() =~= s@.subrange(j as int + 1, s@.len() as int));
        }
        match_from(p, s, i + 1, j + 1)
    }
}

/// Index of the first occurrence of `b` in `l`, if any.
pub open spec fn find_byte(l: Seq<u8>, b: u8) -> Option<int>
    decreases l.len(),
{
    if l.len() == 0 {
        None
    } else if l[0] == b {
        Some(0int)
    } else {
        match find_byte(l.drop_first(), b) {
            None => None,
            Some(i) => Some(i + 1),
        }
    }
}

/// What [`find_byte`] returns: the first occurrence, or nothing.
pub proof fn lemma_find_byte(l: Seq<u8>, b: u8)
    ensures
        match find_byte(l, b) {
            None => forall|j: int| 0 <= j < l.len() ==> l[j] != b,
            Some(i) => 0 <= i < l.len() && l[i] == b && forall|j: int| 0 <= j < i ==> l[j] != b,
        },
    decreases l.len(),
{
    if l.len() != 0 && l[0] != b {
        lemma_find_byte(l.drop_first(), b);
        match find_byte(l.drop_first(), b) {
            None => {
                assert forall|j: int| 0 <= j < l.len() implies l[j] != b by {
                    if j >= 1 {
                        assert(l.drop_first()[j - 1] != b);
                    }
                }
            },
            Some(i) => {
                assert(l[i + 1] == l.drop_first()[i]);
                assert forall|j: int| 0 <= j < i + 1 implies l[j] != b by {
                    if j >= 1 {
                        assert(l.drop_first()[j - 1] != b);
                    }
                }
            },
        }
    }
}

/// The pieces of `l` split on `b`.  Always at least one piece; adjacent
/// separators give empty pieces.
pub open spec fn split_byte(l: Seq<u8>, b: u8) -> Seq<Seq<u8>>
    decreases l.len(),
    via split_byte_decreases
{
    match find_byte(l, b) {
        None => seq![l],
        Some(i) => seq![l.subrange(0, i)] + split_byte(l.subrange(i + 1, l.len() as int), b),
    }
}

#[via_fn]
proof fn split_byte_decreases(l: Seq<u8>, b: u8) {
    lemma_find_byte(l, b);
}

/// Splits a byte string on a separator byte.
pub fn split_bytes(v: &[u8], b: u8) -> (r: Vec<Vec<u8>>)
    ensures
        r.deep_view() == split_byte(v@, b),
        r@.len() == split_byte(v@, b).len(),
{
    let n = v.len();
    let mut out: Vec<Vec<u8>> = Vec::new();
    let mut pos: usize = 0;
    proof {
        assert(v@.subrange(0, n as int) =~= v@);
    }
    loop
        invariant_except_break
            split_byte(v@, b) =~~= out.deep_view() + split_byte(
                v@.subrange(pos as int, n as int),
                b,
            ),
        invariant
            0 <= pos <= n,
            n == v@.len(),
        ensures
            split_byte(v@, b) =~~= out.deep_view(),
        decreases n - pos,
    {
        let ghost done = out.deep_view();
        let ghost rem = v@.subrange(pos as int, n as int);
        let mut cur = pos;
        while cur < n && *vstd::slice::slice_index_get(v, cur) != b
            invariant
                pos <= cur <= n,
                n == v@.len(),
                forall|j: int| pos <= j < cur ==> v@[j] != b,
            decreases n - cur,
        {
            cur = cur + 1;
        }
        proof {
            lemma_find_byte(rem, b);
            assert(forall|j: int| 0 <= j < cur - pos ==> rem[j] == v@[pos + j]);
        }
        let piece = crate::message::copy_bytes(vstd::slice::slice_subrange(v, pos, cur));
        out.push(piece);
        proof {
            assert(out.deep_view() =~~= done.push(v@.subrange(pos as int, cur as int)));
        }
        if cur < n {
            proof {
                assert(rem[cur - pos] == b);
                assert(find_byte(rem, b) == Some(cur - pos as int));
                assert(rem.subrange(0, cur - pos as int) =~= v@.subrange(pos as int, cur as int));
                assert(rem.subrange(cur - pos as int + 1, rem.len() as int) =~= v@.subrange(
                    cur as int + 1,
                    n as int,
                ));
                assert(split_byte(rem, b) == seq![v@.subrange(pos as int, cur as int)]
                    + split_byte(v@.subrange(cur as int + 1, n as int), b));
                assert(out.deep_view() + split_byte(v@.subrange(cur as int + 1, n as int), b)
                    =~~= done + split_byte(rem, b));
            }
            pos = cur + 1;
        } else {
            proof {
                assert(forall|j: int| 0 <= j < rem.len() ==> rem[j] != b);
                assert(find_byte(rem, b) is None);
                assert(split_byte(rem, b) == seq![rem]);
                assert(rem =~= v@.subrange(pos as int, cur as int));
                assert(split_byte(v@, b) =~~= out.deep_view());
            }
            break;
        }
    }
    out
}

} // verus!
