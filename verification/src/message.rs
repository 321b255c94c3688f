//! The wire-protocol codec for IRC lines.
//!
//! A line is `[ ":" prefix SP ] command *( SP param ) [ SP ":" trailing ]`.
//! [`RawMessage`] keeps the prefix and the body (everything from the command
//! onwards) as byte buffers, together with the command and parameters that
//! the body decomposes into.  [`RawMessage::parse`] and [`RawMessage::new_raw`]
//! are specified against the pure functions [`parse_spec`] and [`render_spec`],
//! and the round-trip laws at the end of this module tie the two together.

use vstd::prelude::*;
use vstd::string::StringSliceAdditionalSpecFns;

use crate::cmd::Command;

verus! {

/// The space byte, the separator of the wire format.
pub const SP: u8 = 32;

/// The colon byte, which introduces the prefix and the trailing parameter.
pub const COLON: u8 = 58;

/// The mathematical content of a wire line: who said it, the command,
/// and the parameters in order.
pub ghost struct MsgModel {
    pub prefix: Option<Seq<u8>>,
    pub command: Seq<u8>,
    pub params: Seq<Seq<u8>>,
}

/// Index of the first space in `l`, if any.
pub open spec fn find_sp(l: Seq<u8>) -> Option<int>
    decreases l.len(),
{
    if l.len() == 0 {
        None
    } else if l[0] == SP {
        Some(0int)
    } else {
        match find_sp(l.drop_first()) {
            None => None,
            Some(i) => Some(i + 1),
        }
    }
}

/// Index of the first `" :"` pair in `l`, if any.
pub open spec fn find_marker(l: Seq<u8>) -> Option<int>
    decreases l.len(),
{
    if l.len() < 2 {
        None
    } else if l[0] == SP && l[1] == COLON {
        Some(0int)
    } else {
        match find_marker(l.drop_first()) {
            None => None,
            Some(i) => Some(i + 1),
        }
    }
}

/// What [`find_sp`] returns: the first space, or nothing when there is none.
pub proof fn lemma_find_sp(l: Seq<u8>)
    ensures
        match find_sp(l) {
            None => forall|j: int| 0 <= j < l.len() ==> l[j] != SP,
            Some(i) => 0 <= i < l.len() && l[i] == SP && forall|j: int| 0 <= j < i ==> l[j] != SP,
        },
    decreases l.len(),
{
    if l.len() != 0 && l[0] != SP {
        lemma_find_sp(l.drop_first());
        match find_sp(l.drop_first()) {
            None => {
                assert forall|j: int| 0 <= j < l.len() implies l[j] != SP by {
                    if j >= 1 {
                        assert(l.drop_first()[j - 1] != SP);
                    }
                }
            },
            Some(i) => {
                assert(l[i + 1] == l.drop_first()[i]);
                assert forall|j: int| 0 <= j < i + 1 implies l[j] != SP by {
                    if j >= 1 {
                        assert(l.drop_first()[j - 1] != SP);
                    }
                }
            },
        }
    }
}

/// What [`find_marker`] returns: the first `" :"`, or nothing when there is none.
pub proof fn lemma_find_marker(l: Seq<u8>)
    ensures
        match find_marker(l) {
            None => forall|j: int| 0 <= j < l.len() - 1 ==> !(#[trigger] l[j] == SP && l[j + 1] == COLON),
            Some(i) => 0 <= i < l.len() - 1 && l[i] == SP && l[i + 1] == COLON && forall|j: int|
                0 <= j < i ==> !(#[trigger] l[j] == SP && l[j + 1] == COLON),
        },
    decreases l.len(),
{
    if l.len() >= 2 && !(l[0] == SP && l[1] == COLON) {
        lemma_find_marker(l.drop_first());
        match find_marker(l.drop_first()) {
            None => {
                assert forall|j: int| 0 <= j < l.len() - 1 implies !(#[trigger] l[j] == SP
                    && l[j + 1] == COLON) by {
                    if j >= 1 {
                        assert(!(l.drop_first()[j - 1] == SP && l.drop_first()[j] == COLON));
                    }
                }
            },
            Some(i) => {
                assert(l[i + 1] == l.drop_first()[i]);
                assert(l[i + 2] == l.drop_first()[i + 1]);
                assert forall|j: int| 0 <= j < i + 1 implies !(#[trigger] l[j] == SP
                    && l[j + 1] == COLON) by {
                    if j >= 1 {
                        assert(!(l.drop_first()[j - 1] == SP && l.drop_first()[j] == COLON));
                    }
                }
            },
        }
    }
}

/// The tokens of `l` split on single spaces.  Always at least one token;
/// adjacent spaces give empty tokens.
pub open spec fn split_sp(l: Seq<u8>) -> Seq<Seq<u8>>
    decreases l.len(),
    via split_sp_decreases
{
    match find_sp(l) {
        None => seq![l],
        Some(i) => seq![l.subrange(0, i)] + split_sp(l.subrange(i + 1, l.len() as int)),
    }
}

#[via_fn]
proof fn split_sp_decreases(l: Seq<u8>) {
    lemma_find_sp(l);
}

/// Parses a body (the bytes from the command onwards): splits off a
/// trailing parameter at the first `" :"`, then splits the rest on spaces.
/// `None` when the command token is empty.
pub open spec fn parse_body_spec(rest: Seq<u8>) -> Option<(Seq<u8>, Seq<Seq<u8>>)> {
    let (mid, trailing) = match find_marker(rest) {
        Some(t) => (rest.subrange(0, t), Some(rest.subrange(t + 2, rest.len() as int))),
        None => (rest, None::<Seq<u8>>),
    };
    let toks = split_sp(mid);
    if toks[0].len() == 0 {
        None
    } else {
        let middles = toks.drop_first();
        Some(
            (
                toks[0],
                match trailing {
                    Some(t) => middles.push(t),
                    None => middles,
                },
            ),
        )
    }
}

/// Parses a whole wire line into its model.
pub open spec fn parse_spec(l: Seq<u8>) -> Option<MsgModel> {
    if l.len() > 0 && l[0] == COLON {
        match find_sp(l) {
            None => None,
            Some(sp) => match parse_body_spec(l.subrange(sp + 1, l.len() as int)) {
                None => None,
                Some((command, params)) => Some(
                    MsgModel { prefix: Some(l.subrange(1, sp)), command, params },
                ),
            },
        }
    } else {
        match parse_body_spec(l) {
            None => None,
            Some((command, params)) => Some(MsgModel { prefix: None, command, params }),
        }
    }
}

/// The middle parameters, each preceded by one space.
pub open spec fn cat_middles(ps: Seq<Seq<u8>>) -> Seq<u8>
    decreases ps.len(),
{
    if ps.len() == 0 {
        Seq::empty()
    } else {
        seq![SP] + ps[0] + cat_middles(ps.drop_first())
    }
}

/// Renders a body: the command, the middle parameters space-separated,
/// and the last parameter in the `" :"` form.
pub open spec fn render_body_spec(command: Seq<u8>, params: Seq<Seq<u8>>) -> Seq<u8> {
    if params.len() == 0 {
        command
    } else {
        command + cat_middles(params.drop_last()) + seq![SP, COLON] + params.last()
    }
}

/// The prefix part of a line: `":" prefix " "`, or nothing.
pub open spec fn prefix_part(prefix: Option<Seq<u8>>) -> Seq<u8> {
    match prefix {
        Some(p) => seq![COLON] + p + seq![SP],
        None => Seq::empty(),
    }
}

/// Renders a whole model to its wire line.
pub open spec fn render_spec(m: MsgModel) -> Seq<u8> {
    prefix_part(m.prefix) + render_body_spec(m.command, m.params)
}

/// A token that may stand before the trailing parameter: nonempty,
/// without spaces, and not opening with a colon.
pub open spec fn plain_token(t: Seq<u8>) -> bool {
    &&& t.len() > 0
    &&& (forall|j: int| 0 <= j < t.len() ==> t[j] != SP)
    &&& t[0] != COLON
}

/// The messages the renderer may be given so that parsing is its inverse:
/// the prefix (when present) is nonempty and space-free, the command is a
/// plain token (it may open with a colon only under a prefix), and every
/// parameter except the last is a plain token.  The last parameter is free.
pub open spec fn legal_msg(m: MsgModel) -> bool {
    &&& m.command.len() > 0
    &&& (forall|j: int| 0 <= j < m.command.len() ==> m.command[j] != SP)
    &&& (m.prefix is None ==> m.command[0] != COLON)
    &&& (m.prefix matches Some(p) ==> p.len() > 0 && forall|j: int|
        0 <= j < p.len() ==> p[j] != SP)
    &&& (forall|i: int| 0 <= i < m.params.len() - 1 ==> #[trigger] plain_token(m.params[i]))
}

/// A token without spaces followed by a space splits off as the first token.
proof fn lemma_split_head(x: Seq<u8>, b: Seq<u8>)
    requires
        x.len() > 0,
        forall|j: int| 0 <= j < x.len() ==> x[j] != SP,
    ensures
        split_sp(x + seq![SP] + b) == seq![x] + split_sp(b),
{
    let l = x + seq![SP] + b;
    lemma_find_sp(l);
    assert(l[x.len() as int] == SP);
    assert(forall|j: int| 0 <= j < x.len() ==> l[j] == x[j]);
    let i = find_sp(l)->Some_0;
    assert(i == x.len());
    assert(l.subrange(0, i) =~= x);
    assert(l.subrange(i + 1, l.len() as int) =~= b);
    assert(seq![l.subrange(0, i)] + split_sp(b) =~= seq![x] + split_sp(b));
}

/// Splitting a head token followed by rendered middle parameters yields
/// exactly the head and those parameters.
proof fn lemma_split_middles(x: Seq<u8>, ps: Seq<Seq<u8>>)
    requires
        x.len() > 0,
        forall|j: int| 0 <= j < x.len() ==> x[j] != SP,
        forall|i: int| 0 <= i < ps.len() ==> #[trigger] plain_token(ps[i]),
    ensures
        split_sp(x + cat_middles(ps)) == seq![x] + ps,
    decreases ps.len(),
{
    if ps.len() == 0 {
        let l = x + cat_middles(ps);
        assert(l =~= x);
        lemma_find_sp(l);
        assert(split_sp(l) == seq![l]);
        assert(seq![l] =~= seq![x] + ps);
    } else {
        let rest = ps[0] + cat_middles(ps.drop_first());
        assert(x + cat_middles(ps) =~= x + seq![SP] + rest);
        lemma_split_head(x, rest);
        assert(plain_token(ps[0]));
        assert(forall|i: int| 0 <= i < ps.drop_first().len() ==> #[trigger] plain_token(
            ps.drop_first()[i],
        ));
        lemma_split_middles(ps[0], ps.drop_first());
        assert(split_sp(rest) == seq![ps[0]] + ps.drop_first());
        assert(seq![x] + (seq![ps[0]] + ps.drop_first()) =~= seq![x] + ps);
    }
}

/// A head token followed by rendered middle parameters contains no `" :"`.
proof fn lemma_middles_no_marker(x: Seq<u8>, ps: Seq<Seq<u8>>)
    requires
        x.len() > 0,
        forall|j: int| 0 <= j < x.len() ==> x[j] != SP,
        forall|i: int| 0 <= i < ps.len() ==> #[trigger] plain_token(ps[i]),
    ensures
        forall|j: int|
            0 <= j < (x + cat_middles(ps)).len() - 1 ==> !(#[trigger] (x + cat_middles(ps))[j]
                == SP && (x + cat_middles(ps))[j + 1] == COLON),
    decreases ps.len(),
{
    let s = x + cat_middles(ps);
    if ps.len() == 0 {
        assert(s =~= x);
    } else {
        let tail = ps[0] + cat_middles(ps.drop_first());
        assert(s =~= x + seq![SP] + tail);
        assert(plain_token(ps[0]));
        assert(forall|i: int| 0 <= i < ps.drop_first().len() ==> #[trigger] plain_token(
            ps.drop_first()[i],
        ));
        lemma_middles_no_marker(ps[0], ps.drop_first());
        let s2 = ps[0] + cat_middles(ps.drop_first());
        assert forall|j: int| 0 <= j < s.len() - 1 implies !(#[trigger] s[j] == SP && s[j + 1]
            == COLON) by {
            if j < x.len() {
                // within the head token or at its closing space
                assert(s[j] == if j < x.len() { x[j] } else { SP });
                if j + 1 <= x.len() {
                    assert(s[j + 1] != COLON || s[j] != SP);
                } else {
                    // j == x.len() - 1 would need s[j] == SP inside x
                    assert(s[j] != SP);
                }
            } else if j == x.len() {
                // the separator space, followed by the first parameter byte
                assert(s[j + 1] == ps[0][0]);
                assert(s[j + 1] != COLON);
            } else {
                // inside the rendered tail, covered by the recursive call
                let j2 = j - x.len() - 1;
                assert(s[j] == s2[j2] && s[j + 1] == s2[j2 + 1]);
                assert(!(s2[j2] == SP && s2[j2 + 1] == COLON));
            }
        }
    }
}

/// Parsing a rendered body recovers the command and the parameters.
proof fn lemma_parse_render_body(command: Seq<u8>, params: Seq<Seq<u8>>)
    requires
        command.len() > 0,
        forall|j: int| 0 <= j < command.len() ==> command[j] != SP,
        forall|i: int| 0 <= i < params.len() - 1 ==> #[trigger] plain_token(params[i]),
    ensures
        parse_body_spec(render_body_spec(command, params)) == Some((command, params)),
{
    let rest = render_body_spec(command, params);
    if params.len() == 0 {
        lemma_find_marker(rest);
        match find_marker(rest) {
            Some(t) => {
                assert(rest[t] == SP);
            },
            None => {},
        }
        lemma_find_sp(rest);
        assert(split_sp(rest) == seq![rest]);
        assert(split_sp(rest).drop_first() =~= Seq::<Seq<u8>>::empty());
    } else {
        let middles = params.drop_last();
        let head = command + cat_middles(middles);
        assert(forall|i: int| 0 <= i < middles.len() ==> #[trigger] plain_token(middles[i]));
        assert(rest =~= head + seq![SP, COLON] + params.last());
        // the marker is exactly the one the renderer wrote
        lemma_middles_no_marker(command, middles);
        lemma_find_marker(rest);
        assert(rest[head.len() as int] == SP && rest[head.len() as int + 1] == COLON);
        assert forall|j: int| 0 <= j < head.len() implies !(#[trigger] rest[j] == SP
            && rest[j + 1] == COLON) by {
            if j < head.len() - 1 {
                assert(head[j] == rest[j] && head[j + 1] == rest[j + 1]);
                assert(!(head[j] == SP && head[j + 1] == COLON));
            } else {
                // the byte before the marker space is the last byte of the head
                assert(rest[j + 1] == SP);
            }
        }
        let t = find_marker(rest)->Some_0;
        assert(t == head.len());
        assert(rest.subrange(0, t) =~= head);
        assert(rest.subrange(t + 2, rest.len() as int) =~= params.last());
        lemma_split_middles(command, middles);
        assert(split_sp(head) == seq![command] + middles);
        assert((seq![command] + middles)[0] == command);
        assert((seq![command] + middles).drop_first() =~= middles);
        assert(middles.push(params.last()) =~= params);
    }
}

/// The first round-trip law: a legal message, rendered to its wire line
/// and parsed back, comes back unchanged.
pub proof fn lemma_parse_render_round_trip(m: MsgModel)
    requires
        legal_msg(m),
    ensures
        parse_spec(render_spec(m)) == Some(m),
{
    let l = render_spec(m);
    let body = render_body_spec(m.command, m.params);
    lemma_parse_render_body(m.command, m.params);
    match m.prefix {
        None => {
            assert(l =~= body);
            assert(body.len() > 0);
            assert(body[0] == m.command[0]);
        },
        Some(p) => {
            assert(l =~= seq![COLON] + p + seq![SP] + body);
            assert(l[0] == COLON);
            lemma_find_sp(l);
            assert(l[p.len() as int + 1] == SP);
            assert(forall|j: int| 1 <= j < p.len() as int + 1 ==> l[j] == p[j - 1]);
            let sp = find_sp(l)->Some_0;
            assert(sp == p.len() + 1);
            assert(l.subrange(1, sp) =~= p);
            assert(l.subrange(sp + 1, l.len() as int) =~= body);
        },
    }
}

/// A wire line is well formed when it parses, its prefix (if it carries one)
/// is nonempty, and none of its middle parameters is empty.  Every line that
/// meets the RFC grammar does.
pub open spec fn wire_wf(l: Seq<u8>) -> bool {
    match parse_spec(l) {
        None => false,
        Some(m) => {
            &&& (m.prefix matches Some(p) ==> p.len() > 0)
            &&& (forall|i: int| 0 <= i < m.params.len() - 1 ==> #[trigger] m.params[i].len() > 0)
        },
    }
}

/// Every token of a space-split has no spaces inside.
proof fn lemma_split_tokens_no_sp(l: Seq<u8>)
    ensures
        forall|i: int, j: int|
            0 <= i < split_sp(l).len() && 0 <= j < split_sp(l)[i].len()
                ==> #[trigger] split_sp(l)[i][j] != SP,
    decreases l.len(),
{
    lemma_find_sp(l);
    match find_sp(l) {
        None => {},
        Some(i) => {
            let tail = l.subrange(i + 1, l.len() as int);
            lemma_split_tokens_no_sp(tail);
            assert forall|a: int, j: int|
                0 <= a < split_sp(l).len() && 0 <= j < split_sp(l)[a].len() implies #[trigger] split_sp(
                l,
            )[a][j] != SP by {
                if a == 0 {
                    assert(split_sp(l)[0] == l.subrange(0, i));
                    assert(l.subrange(0, i)[j] == l[j]);
                } else {
                    assert(split_sp(l)[a] == split_sp(tail)[a - 1]);
                }
            }
        },
    }
}

/// When a stretch of bytes contains no `" :"` and does not open with a
/// colon, none of its space-split tokens opens with a colon.
proof fn lemma_split_tokens_no_colon(l: Seq<u8>)
    requires
        forall|j: int| 0 <= j < l.len() - 1 ==> !(#[trigger] l[j] == SP && l[j + 1] == COLON),
        l.len() > 0 ==> l[0] != COLON,
    ensures
        forall|i: int|
            0 <= i < split_sp(l).len() && (#[trigger] split_sp(l)[i]).len() > 0
                ==> split_sp(l)[i][0] != COLON,
    decreases l.len(),
{
    lemma_find_sp(l);
    match find_sp(l) {
        None => {},
        Some(i) => {
            let tail = l.subrange(i + 1, l.len() as int);
            assert forall|j: int| 0 <= j < tail.len() - 1 implies !(#[trigger] tail[j] == SP
                && tail[j + 1] == COLON) by {
                assert(tail[j] == l[i + 1 + j] && tail[j + 1] == l[i + 2 + j]);
            }
            if tail.len() > 0 {
                // the byte after the first space is no colon: no marker at `i`
                assert(tail[0] == l[i + 1]);
            }
            lemma_split_tokens_no_colon(tail);
            assert forall|a: int|
                0 <= a < split_sp(l).len() && (#[trigger] split_sp(l)[a]).len() > 0 implies split_sp(
                l,
            )[a][0] != COLON by {
                if a == 0 {
                    assert(split_sp(l)[0] == l.subrange(0, i));
                    if i > 0 {
                        assert(l.subrange(0, i)[0] == l[0]);
                    }
                } else {
                    assert(split_sp(l)[a] == split_sp(tail)[a - 1]);
                }
            }
        },
    }
}

/// What parsing a body guarantees of its pieces: the command is nonempty,
/// space-free, and opens with the first byte of the body; the middle
/// parameters are space-free and never open with a colon.
proof fn lemma_parse_body_legal(rest: Seq<u8>)
    requires
        parse_body_spec(rest) is Some,
    ensures
        parse_body_spec(rest) matches Some((c, ps)) && {
            &&& c.len() > 0
            &&& rest.len() > 0 && c[0] == rest[0]
            &&& (forall|j: int| 0 <= j < c.len() ==> c[j] != SP)
            &&& (forall|i: int, j: int|
                0 <= i < ps.len() - 1 && 0 <= j < ps[i].len() ==> #[trigger] ps[i][j] != SP)
            &&& (forall|i: int|
                0 <= i < ps.len() - 1 && (#[trigger] ps[i]).len() > 0 ==> ps[i][0] != COLON)
        },
{
    let (c, ps) = parse_body_spec(rest)->Some_0;
    let mid = match find_marker(rest) {
        Some(t) => rest.subrange(0, t),
        None => rest,
    };
    lemma_find_marker(rest);
    lemma_split_tokens_no_sp(mid);
    assert forall|j: int| 0 <= j < mid.len() - 1 implies !(#[trigger] mid[j] == SP && mid[j + 1]
        == COLON) by {
        match find_marker(rest) {
            Some(t) => {
                assert(mid[j] == rest[j] && mid[j + 1] == rest[j + 1]);
            },
            None => {},
        }
    }
    lemma_split_tokens_no_colon_weak(mid);
    let toks = split_sp(mid);
    lemma_find_sp(mid);
    assert(c == toks[0]);
    match find_sp(mid) {
        None => {
            assert(toks[0] == mid);
        },
        Some(i) => {
            assert(toks[0] == mid.subrange(0, i));
            assert(mid.subrange(0, i)[0] == mid[0]);
        },
    }
    if mid.len() > 0 {
        assert(mid[0] == rest[0]);
    }
    assert forall|i: int, j: int|
        0 <= i < ps.len() - 1 && 0 <= j < ps[i].len() implies #[trigger] ps[i][j] != SP by {
        assert(ps[i] == toks[i + 1]);
    }
    assert forall|i: int|
        0 <= i < ps.len() - 1 && (#[trigger] ps[i]).len() > 0 implies ps[i][0] != COLON by {
        assert(ps[i] == toks[i + 1]);
    }
}

/// What parsing guarantees of its result: a well-formed line parses to a
/// legal message.
pub proof fn lemma_wire_wf_legal(l: Seq<u8>)
    requires
        wire_wf(l),
    ensures
        parse_spec(l) matches Some(m) && legal_msg(m),
{
    let m = parse_spec(l)->Some_0;
    if l.len() > 0 && l[0] == COLON {
        lemma_find_sp(l);
        let sp = find_sp(l)->Some_0;
        let rest = l.subrange(sp + 1, l.len() as int);
        lemma_parse_body_legal(rest);
        let p = m.prefix->Some_0;
        assert(p == l.subrange(1, sp));
        assert(forall|j: int| 0 <= j < p.len() ==> p[j] == l[j + 1]);
    } else {
        lemma_parse_body_legal(l);
        assert(m.command[0] == l[0]);
    }
}

/// As [`lemma_split_tokens_no_colon`], but never constraining the first
/// token: tokens after a space cannot open with a colon when the stretch
/// holds no `" :"`.
proof fn lemma_split_tokens_no_colon_weak(l: Seq<u8>)
    requires
        forall|j: int| 0 <= j < l.len() - 1 ==> !(#[trigger] l[j] == SP && l[j + 1] == COLON),
    ensures
        forall|i: int|
            1 <= i < split_sp(l).len() && (#[trigger] split_sp(l)[i]).len() > 0
                ==> split_sp(l)[i][0] != COLON,
    decreases l.len(),
{
    lemma_find_sp(l);
    match find_sp(l) {
        None => {},
        Some(i) => {
            let tail = l.subrange(i + 1, l.len() as int);
            assert forall|j: int| 0 <= j < tail.len() - 1 implies !(#[trigger] tail[j] == SP
                && tail[j + 1] == COLON) by {
                assert(tail[j] == l[i + 1 + j] && tail[j + 1] == l[i + 2 + j]);
            }
            if tail.len() > 0 {
                assert(tail[0] == l[i + 1]);
                assert(i < l.len() - 1 ==> !(l[i] == SP && l[i + 1] == COLON));
            }
            lemma_split_tokens_no_colon(tail);
            assert forall|a: int|
                1 <= a < split_sp(l).len() && (#[trigger] split_sp(l)[a]).len() > 0 implies split_sp(
                l,
            )[a][0] != COLON by {
                assert(split_sp(l)[a] == split_sp(tail)[a - 1]);
            }
        },
    }
}

/// The second round-trip law: rendering what a well-formed wire line parsed
/// to yields a line that parses to the same model.
pub proof fn lemma_render_parse_round_trip(l: Seq<u8>)
    requires
        wire_wf(l),
    ensures
        parse_spec(l) matches Some(m) && parse_spec(render_spec(m)) == Some(m),
{
    lemma_wire_wf_legal(l);
    lemma_parse_render_round_trip(parse_spec(l)->Some_0);
}


/// Appending one more middle parameter extends the rendered middles by a
/// space and the parameter.
proof fn lemma_cat_middles_push(ps: Seq<Seq<u8>>, x: Seq<u8>)
    ensures
        cat_middles(ps.push(x)) == cat_middles(ps) + seq![SP] + x,
    decreases ps.len(),
{
    if ps.len() == 0 {
        assert(ps.push(x).drop_first() =~= Seq::<Seq<u8>>::empty());
        assert(cat_middles(ps.push(x).drop_first()) == Seq::<u8>::empty());
        assert(cat_middles(ps.push(x)) =~= cat_middles(ps) + seq![SP] + x);
    } else {
        assert(ps.push(x).drop_first() =~= ps.drop_first().push(x));
        lemma_cat_middles_push(ps.drop_first(), x);
        assert(cat_middles(ps.push(x)) =~= cat_middles(ps) + seq![SP] + x);
    }
}

/// Copies a byte slice into an owned vector.
pub(crate) fn copy_bytes(s: &[u8]) -> (r: Vec<u8>)
    ensures
        r@ == s@,
{
    vstd::slice::slice_to_vec(s)
}

/// Appends a byte slice to a vector.
fn append_bytes(v: &mut Vec<u8>, s: &[u8])
    ensures
        final(v)@ == old(v)@ + s@,
{
    let mut i: usize = 0;
    while i < s.len()
        invariant
            0 <= i <= s@.len(),
            v@ =~= old(v)@ + s@.subrange(0, i as int),
        decreases s@.len() - i,
    {
        v.push(s[i]);
        i = i + 1;
    }
    proof {
        assert(v@ =~= old(v)@ + s@);
    }
}

/// An IRC wire message: the optional prefix and the body (the bytes from
/// the command onwards), together with the command and parameters the body
/// decomposes into.
pub struct RawMessage {
    prefix: Option<Vec<u8>>,
    body: Vec<u8>,
    command: Vec<u8>,
    params: Vec<Vec<u8>>,
}

impl RawMessage {
    /// The prefix bytes, if a prefix is present.
    pub closed spec fn prefix_view(&self) -> Option<Seq<u8>> {
        match self.prefix {
            Some(p) => Some(p@),
            None => None,
        }
    }

    /// The command bytes.
    pub closed spec fn command_view(&self) -> Seq<u8> {
        self.command@
    }

    /// The parameters, as byte sequences.
    pub closed spec fn params_view(&self) -> Seq<Seq<u8>> {
        self.params.deep_view()
    }

    /// The message as its mathematical model.
    pub open spec fn model(&self) -> MsgModel {
        MsgModel {
            prefix: self.prefix_view(),
            command: self.command_view(),
            params: self.params_view(),
        }
    }

    /// The body bytes: everything from the command onwards.
    pub closed spec fn body_view(&self) -> Seq<u8> {
        self.body@
    }

    /// The whole line: the prefix part followed by the body.
    pub open spec fn raw_view(&self) -> Seq<u8> {
        prefix_part(self.prefix_view()) + self.body_view()
    }

    /// The message is well formed when its body parses back to its command
    /// and parameters.  [`RawMessage::parse`] establishes it always,
    /// [`RawMessage::new_raw`] for every legal model.
    pub open spec fn wf(&self) -> bool {
        parse_body_spec(self.body_view()) == Some((self.command_view(), self.params_view()))
    }

    /// Creates a new message from raw byte parameters.  The last parameter
    /// is always rendered in the `" :"` form, so that parameters with
    /// spaces, an empty last parameter, and one opening with a colon all
    /// survive the wire.
    pub fn new_raw(command: Command, params: &[Vec<u8>], prefix: Option<&[u8]>) -> (r: RawMessage)
        ensures
            r.prefix_view() == (match prefix {
                Some(p) => Some(p@),
                None => None::<Seq<u8>>,
            }),
            r.command_view() == command.to_bytes_spec(),
            r.params_view() == params.deep_view(),
            r.body_view() == render_body_spec(command.to_bytes_spec(), params.deep_view()),
            r.raw_view() == render_spec(r.model()),
    {
        let cmd_bytes = command.to_bytes();
        let n = params.len();
        let mut body: Vec<u8> = Vec::new();
        append_bytes(&mut body, cmd_bytes.as_slice());
        let mut stored: Vec<Vec<u8>> = Vec::new();
        proof {
            assert(params.deep_view().len() == params@.len());
        }
        if n > 0 {
            let mut i: usize = 0;
            while i + 1 < n
                invariant
                    0 <= i < n,
                    n == params@.len(),
                    params.deep_view().len() == n,
                    body@ =~= command.to_bytes_spec() + cat_middles(
                        params.deep_view().subrange(0, i as int),
                    ),
                    stored.deep_view() =~~= params.deep_view().subrange(0, i as int),
                decreases n - i,
            {
                let ghost done = params.deep_view().subrange(0, i as int);
                body.push(SP);
                append_bytes(&mut body, params[i].as_slice());
                stored.push(copy_bytes(params[i].as_slice()));
                proof {
                    assert(params.deep_view()[i as int] == params@[i as int]@);
                    lemma_cat_middles_push(done, params.deep_view()[i as int]);
                    assert(done.push(params.deep_view()[i as int]) =~= params.deep_view()
                        .subrange(0, i as int + 1));
                    assert(stored.deep_view() =~~= params.deep_view().subrange(0, i as int + 1));
                }
                i = i + 1;
            }
            body.push(SP);
            body.push(COLON);
            append_bytes(&mut body, params[n - 1].as_slice());
            stored.push(copy_bytes(params[n - 1].as_slice()));
            proof {
                let ps = params.deep_view();
                assert(i == n - 1);
                assert(ps.subrange(0, n - 1) =~= ps.drop_last());
                assert(body@ =~= command.to_bytes_spec() + cat_middles(ps.drop_last())
                    + seq![SP, COLON] + ps.last());
                assert forall|k: int| 0 <= k < n implies stored.deep_view()[k] =~~= ps[k] by {
                    if k < n - 1 {
                        assert(stored.deep_view()[k] == ps.subrange(0, n - 1)[k]);
                    } else {
                        assert(stored@[k]@ == params@[k]@);
                    }
                }
                assert(stored.deep_view() =~~= ps);
            }
        } else {
            proof {
                assert(stored.deep_view() =~= params.deep_view());
            }
        }
        let pfx: Option<Vec<u8>> = match prefix {
            Some(p) => Some(copy_bytes(p)),
            None => None,
        };
        RawMessage { prefix: pfx, body, command: cmd_bytes, params: stored }
    }

    /// Creates a new message from string parameters.
    pub fn new(command: Command, params: &[&str], prefix: Option<&str>) -> (r: RawMessage)
        ensures
            r.prefix_view() == (match prefix {
                Some(p) => Some(p.spec_bytes()),
                None => None::<Seq<u8>>,
            }),
            r.command_view() == command.to_bytes_spec(),
            r.params_view() == Seq::new(params@.len(), |i: int| params@[i].spec_bytes()),
            r.body_view() == render_body_spec(
                command.to_bytes_spec(),
                Seq::new(params@.len(), |i: int| params@[i].spec_bytes()),
            ),
    {
        let mut bufs: Vec<Vec<u8>> = Vec::new();
        let mut i: usize = 0;
        while i < params.len()
            invariant
                0 <= i <= params@.len(),
                bufs.deep_view() =~~= Seq::new(i as int as nat, |j: int| params@[j].spec_bytes()),
            decreases params@.len() - i,
        {
            let p: &str = params[i];
            bufs.push(copy_bytes(p.as_bytes()));
            proof {
                let goal = Seq::new((i + 1) as nat, |j: int| params@[j].spec_bytes());
                assert forall|k: int| 0 <= k < i + 1 implies bufs.deep_view()[k] =~~= goal[k] by {
                    if k < i {
                        assert(bufs.deep_view()[k] =~~= Seq::new(
                            i as nat,
                            |j: int| params@[j].spec_bytes(),
                        )[k]);
                    } else {
                        assert(bufs@[k]@ == params@[k].spec_bytes());
                    }
                }
                assert(bufs.deep_view() =~~= goal);
            }
            i = i + 1;
        }
        let pfx_bytes: Option<&[u8]> = match prefix {
            Some(p) => Some(p.as_bytes()),
            None => None,
        };
        let r = RawMessage::new_raw(command, bufs.as_slice(), pfx_bytes);
        proof {
            assert(bufs.deep_view() =~~= Seq::new(
                params@.len(),
                |i: int| params@[i].spec_bytes(),
            ));
        }
        r
    }

    /// Parses a wire line into a message: the prefix after a leading colon
    /// up to the first space, the trailing parameter after the first `" :"`,
    /// and the rest split on spaces into the command and the middle
    /// parameters.  A line without a command is refused.
    pub fn parse(message: &[u8]) -> (r: Result<RawMessage, &'static str>)
        ensures
            match r {
                Ok(m) => {
                    &&& parse_spec(message@) == Some(m.model())
                    &&& m.raw_view() == message@
                    &&& m.wf()
                },
                Err(_) => parse_spec(message@) is None,
            },
    {
        let n = message.len();
        let mut start: usize = 0;
        let mut prefix: Option<Vec<u8>> = None;
        if n > 0 && *vstd::slice::slice_index_get(message, 0) == COLON {
            let mut i: usize = 0;
            while i < n && *vstd::slice::slice_index_get(message, i) != SP
                invariant
                    0 <= i <= n,
                    n == message@.len(),
                    forall|j: int| 0 <= j < i ==> message@[j] != SP,
                decreases n - i,
            {
                i = i + 1;
            }
            proof {
                lemma_find_sp(message@);
            }
            if i == n {
                return Err("RawMessage does not contain a command.");
            }
            assert(find_sp(message@) == Some(i as int));
            prefix = Some(copy_bytes(vstd::slice::slice_subrange(message, 1, i)));
            start = i + 1;
        }
        let rest: &[u8] = vstd::slice::slice_subrange(message, start, n);
        proof {
            if start == 0 {
                assert(rest@ =~= message@);
            }
        }
        let rn = rest.len();

        // find the trailing marker
        let mut t: usize = 0;
        let mut found = false;
        while !found && rn - t > 1
            invariant
                0 <= t <= rn,
                rn == rest@.len(),
                !found ==> forall|j: int|
                    0 <= j < t ==> !(#[trigger] rest@[j] == SP && rest@[j + 1] == COLON),
                found ==> t + 1 < rn && rest@[t as int] == SP && rest@[t as int + 1] == COLON
                    && forall|j: int|
                    0 <= j < t ==> !(#[trigger] rest@[j] == SP && rest@[j + 1] == COLON),
            decreases rn - t + (if found { 0int } else { 1int }),
        {
            if *vstd::slice::slice_index_get(rest, t) == SP && *vstd::slice::slice_index_get(
                rest,
                t + 1,
            ) == COLON {
                found = true;
            } else {
                t = t + 1;
            }
        }
        proof {
            lemma_find_marker(rest@);
        }
        let (mid, trailing): (&[u8], Option<Vec<u8>>) = if found {
            assert(find_marker(rest@) == Some(t as int));
            (
                vstd::slice::slice_subrange(rest, 0, t),
                Some(copy_bytes(vstd::slice::slice_subrange(rest, t + 2, rn))),
            )
        } else {
            assert(find_marker(rest@) is None);
            (rest, None)
        };

        // split the middle part on spaces
        let ml = mid.len();
        let mut toks: Vec<Vec<u8>> = Vec::new();
        let mut pos: usize = 0;
        proof {
            assert(mid@.subrange(0, ml as int) =~= mid@);
        }
        loop
            invariant_except_break
                split_sp(mid@) =~~= toks.deep_view() + split_sp(
                    mid@.subrange(pos as int, ml as int),
                ),
            invariant
                0 <= pos <= ml,
                ml == mid@.len(),
            ensures
                split_sp(mid@) =~~= toks.deep_view(),
            decreases ml - pos,
        {
            let ghost done = toks.deep_view();
            let ghost rem = mid@.subrange(pos as int, ml as int);
            let mut cur = pos;
            while cur < ml && *vstd::slice::slice_index_get(mid, cur) != SP
                invariant
                    pos <= cur <= ml,
                    ml == mid@.len(),
                    forall|j: int| pos <= j < cur ==> mid@[j] != SP,
                decreases ml - cur,
            {
                cur = cur + 1;
            }
            proof {
                lemma_find_sp(rem);
                assert(forall|j: int| 0 <= j < cur - pos ==> rem[j] == mid@[pos + j]);
            }
            let tok = copy_bytes(vstd::slice::slice_subrange(mid, pos, cur));
            toks.push(tok);
            proof {
                assert(toks.deep_view() =~~= done.push(mid@.subrange(pos as int, cur as int)));
            }
            if cur < ml {
                proof {
                    assert(rem[cur - pos] == SP);
                    assert(find_sp(rem) == Some(cur - pos as int));
                    assert(rem.subrange(0, cur - pos as int) =~= mid@.subrange(
                        pos as int,
                        cur as int,
                    ));
                    assert(rem.subrange(cur - pos as int + 1, rem.len() as int) =~= mid@.subrange(
                        cur as int + 1,
                        ml as int,
                    ));
                    assert(split_sp(rem) == seq![mid@.subrange(pos as int, cur as int)]
                        + split_sp(mid@.subrange(cur as int + 1, ml as int)));
                }
                proof {
                    assert(toks.deep_view() + split_sp(mid@.subrange(cur as int + 1, ml as int))
                        =~~= done + split_sp(rem));
                }
                pos = cur + 1;
            } else {
                proof {
                    assert(forall|j: int| 0 <= j < rem.len() ==> rem[j] != SP);
                    assert(find_sp(rem) is None);
                    assert(split_sp(rem) == seq![rem]);
                    assert(rem =~= mid@.subrange(pos as int, cur as int));
                    assert(split_sp(mid@) =~~= toks.deep_view());
                }
                break;
            }
        }

        // the first token is the command
        let ghost toks_before = toks.deep_view();
        let command = toks.remove(0);
        proof {
            assert(command@ == toks_before[0]);
            assert(toks_before[0] == split_sp(mid@)[0]);
        }
        if command.len() == 0 {
            proof {
                assert(parse_body_spec(rest@) is None);
            }
            return Err("RawMessage does not contain a command.");
        }
        let ghost toks_view = seq![command@] + toks.deep_view();
        proof {
            assert(toks.deep_view() =~~= toks_before.drop_first());
            assert(toks_view =~~= split_sp(mid@));
        }
        let mut params = toks;
        let ghost middles = params.deep_view();
        match trailing {
            Some(tr) => {
                params.push(tr);
                proof {
                    assert(params.deep_view() =~~= middles.push(
                        rest@.subrange(t as int + 2, rn as int),
                    ));
                }
            },
            None => {},
        }
        let m = RawMessage { prefix, body: copy_bytes(rest), command, params };
        proof {
            assert(m.raw_view() =~= message@);
            assert(split_sp(mid@).drop_first() =~~= middles);
        }
        Ok(m)
    }

    /// The message prefix.  It may contain non-UTF-8 bytes, so bytes are
    /// returned.
    pub fn prefix(&self) -> (r: Option<&Vec<u8>>)
        ensures
            match r {
                Some(p) => self.prefix_view() == Some(p@),
                None => self.prefix_view() is None,
            },
    {
        self.prefix.as_ref()
    }

    /// Sets the message prefix.  The body, and with it the command and the
    /// parameters, are untouched.
    pub fn set_prefix(&mut self, prefix: &str)
        ensures
            final(self).prefix_view() == Some(prefix.spec_bytes()),
            final(self).body_view() == old(self).body_view(),
            final(self).command_view() == old(self).command_view(),
            final(self).params_view() == old(self).params_view(),
    {
        self.prefix = Some(copy_bytes(prefix.as_bytes()));
    }

    /// The message command.
    pub fn command(&self) -> (r: Command)
        ensures
            match Command::known_command(self.command_view()) {
                Some(c) => r == c,
                None => r matches Command::UNKNOWN(u) && u@ == self.command_view(),
            },
    {
        Command::from_bytes(self.command.as_slice())
    }

    /// The parameters of the command.  The wire format mandates no
    /// encoding, so raw bytes are returned.
    pub fn params(&self) -> (r: &Vec<Vec<u8>>)
        ensures
            r.deep_view() == self.params_view(),
    {
        &self.params
    }

    /// The whole line as bytes.
    pub fn as_slice(&self) -> (r: Vec<u8>)
        ensures
            r@ == self.raw_view(),
    {
        let mut v: Vec<u8> = Vec::new();
        match &self.prefix {
            Some(p) => {
                v.push(COLON);
                append_bytes(&mut v, p.as_slice());
                v.push(SP);
            },
            None => {},
        }
        append_bytes(&mut v, self.body.as_slice());
        proof {
            assert(v@ =~= self.raw_view());
        }
        v
    }

    /// The whole line as a string, for reading along; bytes beyond ASCII
    /// come out as replacement characters.
    pub fn to_string(&self) -> (r: String)
        ensures
            crate::util::is_ascii_bytes(self.raw_view()) ==> r@ == crate::util::ascii_chars(
                self.raw_view(),
            ),
    {
        let line = self.as_slice();
        crate::util::lossy_string(line.as_slice())
    }

    /// A copy of the message, sharing no storage with this one.
    pub fn duplicate(&self) -> (r: RawMessage)
        ensures
            r.model() == self.model(),
            r.raw_view() == self.raw_view(),
            r.body_view() == self.body_view(),
    {
        let pfx: Option<Vec<u8>> = match &self.prefix {
            Some(p) => Some(copy_bytes(p.as_slice())),
            None => None,
        };
        let mut params: Vec<Vec<u8>> = Vec::new();
        let mut i: usize = 0;
        while i < self.params.len()
            invariant
                0 <= i <= self.params@.len(),
                params@.len() == i,
                forall|k: int| 0 <= k < i ==> #[trigger] params@[k]@ == self.params@[k]@,
            decreases self.params@.len() - i,
        {
            let elem = copy_bytes(self.params[i].as_slice());
            params.push(elem);
            i = i + 1;
        }
        let r = RawMessage {
            prefix: pfx,
            body: copy_bytes(self.body.as_slice()),
            command: copy_bytes(self.command.as_slice()),
            params,
        };
        proof {
            assert(r.params_view() =~~= self.params_view());
        }
        r
    }
}

} // verus!
