//! The wire format. Every message starts with a one-byte tag naming its
//! variant. Indices travel as eight little-endian bytes, a player as one byte
//! (1 or 2), an optional winner as one byte (0 for none), and a text as its
//! UTF-8 byte length in eight little-endian bytes followed by those bytes.
//! Messages therefore carry their own extent and can follow one another
//! in a stream.
use vstd::prelude::*;
use vstd::bytes::{
    spec_u64_from_le_bytes, spec_u64_to_le_bytes, u64_from_le_bytes, u64_to_le_bytes,
    lemma_auto_spec_u64_to_from_le_bytes,
};
use vstd::slice::slice_subrange;
use vstd::utf8::{decode_utf8, encode_utf8, valid_utf8, encode_utf8_valid_utf8, encode_utf8_decode_utf8};
use crate::board::Player;

verus! {

/// A message from the client to the game's authority.
#[derive(Clone, Debug, PartialEq, Eq)]
pub enum GameAction {
    Connect(String),
    Move(usize, String),
    Reset,
}

/// A message from the game's authority to the client.
#[derive(Clone, Debug, PartialEq, Eq)]
pub enum ServerResponse {
    Accepted(Option<Player>),
    Rejected(String),
    MoveApplied(usize, Player, Option<Player>),
    Reset,
}

/// Why bytes could not be read as a message.
#[derive(Clone, Copy, Debug, PartialEq, Eq, Structural)]
pub enum CodecError {
    /// A tag, player or winner byte, or an index, that names nothing.
    Malformed,
    /// The bytes end before the message does.
    Truncated,
    /// A text field is not valid UTF-8.
    InvalidUtf8,
}

/// `GameAction` with its texts as character sequences.
pub enum ActionView {
    Connect(Seq<char>),
    Move(usize, Seq<char>),
    Reset,
}

/// `ServerResponse` with its texts as character sequences.
pub enum ResponseView {
    Accepted(Option<Player>),
    Rejected(Seq<char>),
    MoveApplied(usize, Player, Option<Player>),
    Reset,
}

impl View for GameAction {
    type V = ActionView;

    open spec fn view(&self) -> ActionView {
        match self {
            GameAction::Connect(s) => ActionView::Connect(s@),
            GameAction::Move(i, s) => ActionView::Move(*i, s@),
            GameAction::Reset => ActionView::Reset,
        }
    }
}

impl View for ServerResponse {
    type V = ResponseView;

    open spec fn view(&self) -> ResponseView {
        match self {
            ServerResponse::Accepted(w) => ResponseView::Accepted(*w),
            ServerResponse::Rejected(s) => ResponseView::Rejected(s@),
            ServerResponse::MoveApplied(i, p, w) => ResponseView::MoveApplied(*i, *p, *w),
            ServerResponse::Reset => ResponseView::Reset,
        }
    }
}

pub open spec fn player_byte(p: Player) -> u8 {
    match p {
        Player::One => 1,
        Player::Two => 2,
    }
}

pub open spec fn winner_byte(w: Option<Player>) -> u8 {
    match w {
        None => 0,
        Some(p) => player_byte(p),
    }
}

/// A text as it travels: its UTF-8 byte length, then the bytes.
pub open spec fn text_bytes(s: Seq<char>) -> Seq<u8> {
    spec_u64_to_le_bytes(encode_utf8(s).len() as u64) + encode_utf8(s)
}

/// Every text in the message is short enough for its length to be written.
pub open spec fn text_fits(s: Seq<char>) -> bool {
    encode_utf8(s).len() <= u64::MAX
}

pub open spec fn action_fits(m: ActionView) -> bool {
    match m {
        ActionView::Connect(s) => text_fits(s),
        ActionView::Move(_, s) => text_fits(s),
        ActionView::Reset => true,
    }
}

pub open spec fn response_fits(m: ResponseView) -> bool {
    match m {
        ResponseView::Rejected(s) => text_fits(s),
        _ => true,
    }
}

/// The bytes of a client message.
pub open spec fn action_bytes(m: ActionView) -> Seq<u8> {
    match m {
        ActionView::Connect(s) => seq![0u8] + text_bytes(s),
        ActionView::Move(i, s) => seq![1u8] + spec_u64_to_le_bytes(i as u64) + text_bytes(s),
        ActionView::Reset => seq![2u8],
    }
}

/// The bytes of an authority message.
pub open spec fn response_bytes(m: ResponseView) -> Seq<u8> {
    match m {
        ResponseView::Accepted(w) => seq![0u8, winner_byte(w)],
        ResponseView::Rejected(s) => seq![1u8] + text_bytes(s),
        ResponseView::MoveApplied(i, p, w) => seq![2u8] + spec_u64_to_le_bytes(i as u64) + seq![
            player_byte(p),
            winner_byte(w),
        ],
        ResponseView::Reset => seq![3u8],
    }
}

pub open spec fn player_of(x: u8) -> Option<Player> {
    if x == 1 {
        Some(Player::One)
    } else if x == 2 {
        Some(Player::Two)
    } else {
        None
    }
}

/// Reads an index at `at`: the value and the position after it.
pub open spec fn parse_index(b: Seq<u8>, at: int) -> Result<(usize, int), CodecError> {
    if b.len() < at + 8 {
        Err(CodecError::Truncated)
    } else {
        let v = spec_u64_from_le_bytes(b.subrange(at, at + 8));
        if v > usize::MAX {
            Err(CodecError::Malformed)
        } else {
            Ok((v as usize, at + 8))
        }
    }
}

/// Reads a text at `at`: its characters and the position after it.
pub open spec fn parse_text(b: Seq<u8>, at: int) -> Result<(Seq<char>, int), CodecError> {
    if b.len() < at + 8 {
        Err(CodecError::Truncated)
    } else {
        let n = spec_u64_from_le_bytes(b.subrange(at, at + 8)) as int;
        if b.len() < at + 8 + n {
            Err(CodecError::Truncated)
        } else if !valid_utf8(b.subrange(at + 8, at + 8 + n)) {
            Err(CodecError::InvalidUtf8)
        } else {
            Ok((decode_utf8(b.subrange(at + 8, at + 8 + n)), at + 8 + n))
        }
    }
}

/// Reads an optional winner byte at `at`.
pub open spec fn parse_winner(b: Seq<u8>, at: int) -> Result<Option<Player>, CodecError> {
    if b.len() < at + 1 {
        Err(CodecError::Truncated)
    } else if b[at] == 0 {
        Ok(None)
    } else if player_of(b[at]) is Some {
        Ok(player_of(b[at]))
    } else {
        Err(CodecError::Malformed)
    }
}

/// The client message at the start of `b`, and how many bytes it takes.
pub open spec fn parse_action(b: Seq<u8>) -> Result<(ActionView, int), CodecError> {
    if b.len() < 1 {
        Err(CodecError::Truncated)
    } else if b[0] == 0 {
        match parse_text(b, 1) {
            Ok((s, n)) => Ok((ActionView::Connect(s), n)),
            Err(e) => Err(e),
        }
    } else if b[0] == 1 {
        match parse_index(b, 1) {
            Ok((i, k)) => match parse_text(b, k) {
                Ok((s, n)) => Ok((ActionView::Move(i, s), n)),
                Err(e) => Err(e),
            },
            Err(e) => Err(e),
        }
    } else if b[0] == 2 {
        Ok((ActionView::Reset, 1))
    } else {
        Err(CodecError::Malformed)
    }
}

/// The authority message at the start of `b`, and how many bytes it takes.
pub open spec fn parse_response(b: Seq<u8>) -> Result<(ResponseView, int), CodecError> {
    if b.len() < 1 {
        Err(CodecError::Truncated)
    } else if b[0] == 0 {
        match parse_winner(b, 1) {
            Ok(w) => Ok((ResponseView::Accepted(w), 2)),
            Err(e) => Err(e),
        }
    } else if b[0] == 1 {
        match parse_text(b, 1) {
            Ok((s, n)) => Ok((ResponseView::Rejected(s), n)),
            Err(e) => Err(e),
        }
    } else if b[0] == 2 {
        match parse_index(b, 1) {
            Ok((i, k)) => if b.len() < k + 1 {
                Err(CodecError::Truncated)
            } else if player_of(b[k]) is None {
                Err(CodecError::Malformed)
            } else {
                match parse_winner(b, k + 1) {
                    Ok(w) => Ok((ResponseView::MoveApplied(i, player_of(b[k])->0, w), k + 2)),
                    Err(e) => Err(e),
                }
            },
            Err(e) => Err(e),
        }
    } else if b[0] == 3 {
        Ok((ResponseView::Reset, 1))
    } else {
        Err(CodecError::Malformed)
    }
}

pub open spec fn action_result(r: Result<(GameAction, usize), CodecError>) -> Result<
    (ActionView, int),
    CodecError,
> {
    match r {
        Ok((m, n)) => Ok((m@, n as int)),
        Err(e) => Err(e),
    }
}

pub open spec fn response_result(r: Result<(ServerResponse, usize), CodecError>) -> Result<
    (ResponseView, int),
    CodecError,
> {
    match r {
        Ok((m, n)) => Ok((m@, n as int)),
        Err(e) => Err(e),
    }
}

/// Relies on std::str::from_utf8: it succeeds exactly on valid UTF-8, and
/// then yields the characters that the bytes encode.
#[verifier::external_body]
fn utf8_text(b: &[u8]) -> (r: Option<String>)
    ensures
        r is Some <==> valid_utf8(b@),
        r is Some ==> r->0@ == decode_utf8(b@),
{
    match std::str::from_utf8(b) {
        Ok(s) => Some(s.to_owned()),
        Err(_) => None,
    }
}

pub(crate) fn push_bytes(out: &mut Vec<u8>, b: &[u8])
    ensures
        final(out)@ == old(out)@ + b@,
{
    let mut i: usize = 0;
    while i < b.len()
        invariant
            i <= b@.len(),
            out@ == old(out)@ + b@.subrange(0, i as int),
        decreases b@.len() - i,
    {
        out.push(b[i]);
        i = i + 1;
        assert(out@ =~= old(out)@ + b@.subrange(0, i as int));
    }
    assert(b@.subrange(0, i as int) =~= b@);
}

fn push_u64(out: &mut Vec<u8>, v: u64)
    ensures
        final(out)@ == old(out)@ + spec_u64_to_le_bytes(v),
{
    let mut b = u64_to_le_bytes(v);
    out.append(&mut b);
}

fn push_text(out: &mut Vec<u8>, s: &String)
    ensures
        final(out)@ == old(out)@ + text_bytes(s@),
{
    let b: &[u8] = s.as_str().as_bytes();
    push_u64(out, b.len() as u64);
    push_bytes(out, b);
    assert(final(out)@ =~= old(out)@ + text_bytes(s@));
}

fn player_to_byte(p: Player) -> (r: u8)
    ensures
        r == player_byte(p),
{
    match p {
        Player::One => 1,
        Player::Two => 2,
    }
}

fn winner_to_byte(w: Option<Player>) -> (r: u8)
    ensures
        r == winner_byte(w),
{
    match w {
        None => 0,
        Some(p) => player_to_byte(p),
    }
}

/// The bytes of `m`.
pub fn encode_action(m: &GameAction) -> (r: Vec<u8>)
    ensures
        r@ == action_bytes(m@),
{
    let mut out: Vec<u8> = Vec::new();
    match m {
        GameAction::Connect(s) => {
            out.push(0);
            push_text(&mut out, s);
        },
        GameAction::Move(i, s) => {
            out.push(1);
            push_u64(&mut out, *i as u64);
            push_text(&mut out, s);
        },
        GameAction::Reset => {
            out.push(2);
        },
    }
    assert(out@ =~= action_bytes(m@));
    out
}

/// The bytes of `m`.
pub fn encode_response(m: &ServerResponse) -> (r: Vec<u8>)
    ensures
        r@ == response_bytes(m@),
{
    let mut out: Vec<u8> = Vec::new();
    match m {
        ServerResponse::Accepted(w) => {
            out.push(0);
            out.push(winner_to_byte(*w));
        },
        ServerResponse::Rejected(s) => {
            out.push(1);
            push_text(&mut out, s);
        },
        ServerResponse::MoveApplied(i, p, w) => {
            out.push(2);
            push_u64(&mut out, *i as u64);
            out.push(player_to_byte(*p));
            out.push(winner_to_byte(*w));
        },
        ServerResponse::Reset => {
            out.push(3);
        },
    }
    assert(out@ =~= response_bytes(m@));
    out
}

pub open spec fn index_result(r: Result<(usize, usize), CodecError>) -> Result<(usize, int), CodecError> {
    match r {
        Ok((i, n)) => Ok((i, n as int)),
        Err(e) => Err(e),
    }
}

pub open spec fn text_result(r: Result<(String, usize), CodecError>) -> Result<
    (Seq<char>, int),
    CodecError,
> {
    match r {
        Ok((s, n)) => Ok((s@, n as int)),
        Err(e) => Err(e),
    }
}

fn read_index(b: &[u8], at: usize) -> (r: Result<(usize, usize), CodecError>)
    requires
        at <= b@.len(),
    ensures
        index_result(r) == parse_index(b@, at as int),
{
    if b.len() - at < 8 {
        return Err(CodecError::Truncated);
    }
    let v = u64_from_le_bytes(slice_subrange(b, at, at + 8));
    if v > usize::MAX as u64 {
        return Err(CodecError::Malformed);
    }
    Ok((v as usize, at + 8))
}

fn read_text(b: &[u8], at: usize) -> (r: Result<(String, usize), CodecError>)
    requires
        at <= b@.len(),
    ensures
        text_result(r) == parse_text(b@, at as int),
{
    if b.len() - at < 8 {
        return Err(CodecError::Truncated);
    }
    let n = u64_from_le_bytes(slice_subrange(b, at, at + 8));
    if ((b.len() - at - 8) as u64) < n {
        return Err(CodecError::Truncated);
    }
    let end: usize = at + 8 + n as usize;
    match utf8_text(slice_subrange(b, at + 8, end)) {
        None => Err(CodecError::InvalidUtf8),
        Some(s) => Ok((s, end)),
    }
}

fn read_player(x: u8) -> (r: Option<Player>)
    ensures
        r == player_of(x),
{
    if x == 1 {
        Some(Player::One)
    } else if x == 2 {
        Some(Player::Two)
    } else {
        None
    }
}

fn read_winner(b: &[u8], at: usize) -> (r: Result<Option<Player>, CodecError>)
    requires
        at <= b@.len(),
    ensures
        r == parse_winner(b@, at as int),
{
    if b.len() - at < 1 {
        return Err(CodecError::Truncated);
    }
    if b[at] == 0 {
        return Ok(None);
    }
    match read_player(b[at]) {
        Some(p) => Ok(Some(p)),
        None => Err(CodecError::Malformed),
    }
}

/// Reads the client message at the start of `b`; on success also gives the
/// number of bytes it took, so that what follows can be read next.
pub fn decode_action(b: &[u8]) -> (r: Result<(GameAction, usize), CodecError>)
    ensures
        action_result(r) == parse_action(b@),
{
    if b.len() < 1 {
        return Err(CodecError::Truncated);
    }
    if b[0] == 0 {
        match read_text(b, 1) {
            Ok((s, n)) => Ok((GameAction::Connect(s), n)),
            Err(e) => Err(e),
        }
    } else if b[0] == 1 {
        match read_index(b, 1) {
            Ok((i, k)) => match read_text(b, k) {
                Ok((s, n)) => Ok((GameAction::Move(i, s), n)),
                Err(e) => Err(e),
            },
            Err(e) => Err(e),
        }
    } else if b[0] == 2 {
        Ok((GameAction::Reset, 1))
    } else {
        Err(CodecError::Malformed)
    }
}

/// Reads the authority message at the start of `b`; on success also gives
/// the number of bytes it took, so that what follows can be read next.
pub fn decode_response(b: &[u8]) -> (r: Result<(ServerResponse, usize), CodecError>)
    ensures
        response_result(r) == parse_response(b@),
{
    if b.len() < 1 {
        return Err(CodecError::Truncated);
    }
    if b[0] == 0 {
        match read_winner(b, 1) {
            Ok(w) => Ok((ServerResponse::Accepted(w), 2)),
            Err(e) => Err(e),
        }
    } else if b[0] == 1 {
        match read_text(b, 1) {
            Ok((s, n)) => Ok((ServerResponse::Rejected(s), n)),
            Err(e) => Err(e),
        }
    } else if b[0] == 2 {
        match read_index(b, 1) {
            Ok((i, k)) => {
                if b.len() - k < 1 {
                    return Err(CodecError::Truncated);
                }
                match read_player(b[k]) {
                    None => Err(CodecError::Malformed),
                    Some(p) => match read_winner(b, k + 1) {
                        Ok(w) => Ok((ServerResponse::MoveApplied(i, p, w), k + 2)),
                        Err(e) => Err(e),
                    },
                }
            },
            Err(e) => Err(e),
        }
    } else if b[0] == 3 {
        Ok((ServerResponse::Reset, 1))
    } else {
        Err(CodecError::Malformed)
    }
}

proof fn lemma_index_at(b: Seq<u8>, at: int, i: usize)
    requires
        0 <= at,
        at + 8 <= b.len(),
        b.subrange(at, at + 8) == spec_u64_to_le_bytes(i as u64),
    ensures
        parse_index(b, at) == Ok::<(usize, int), CodecError>((i, at + 8)),
{
    lemma_auto_spec_u64_to_from_le_bytes();
    assert(spec_u64_from_le_bytes(spec_u64_to_le_bytes(i as u64)) == i as u64);
}

proof fn lemma_text_at(b: Seq<u8>, at: int, s: Seq<char>)
    requires
        0 <= at,
        text_fits(s),
        at + text_bytes(s).len() <= b.len(),
        b.subrange(at, at + text_bytes(s).len() as int) == text_bytes(s),
    ensures
        parse_text(b, at) == Ok::<(Seq<char>, int), CodecError>((s, at + text_bytes(s).len() as int)),
{
    broadcast use encode_utf8_valid_utf8, encode_utf8_decode_utf8;

    lemma_auto_spec_u64_to_from_le_bytes();
    let e = encode_utf8(s);
    let h = spec_u64_to_le_bytes(e.len() as u64);
    assert(h.len() == 8);
    assert(spec_u64_from_le_bytes(h) == e.len() as u64);
    assert(b.subrange(at, at + 8) =~= text_bytes(s).subrange(0, 8));
    assert(text_bytes(s).subrange(0, 8) =~= h);
    assert(b.subrange(at + 8, at + 8 + e.len() as int) =~= text_bytes(s).subrange(8, 8 + e.len() as int));
    assert(text_bytes(s).subrange(8, 8 + e.len() as int) =~= e);
}

/// Reading back the bytes of a client message, whatever bytes follow them,
/// gives that message and the number of its bytes.
pub proof fn lemma_action_round_trip(m: ActionView, rest: Seq<u8>)
    requires
        action_fits(m),
    ensures
        parse_action(action_bytes(m) + rest) == Ok::<(ActionView, int), CodecError>(
            (m, action_bytes(m).len() as int),
        ),
{
    lemma_auto_spec_u64_to_from_le_bytes();
    let b = action_bytes(m) + rest;
    match m {
        ActionView::Connect(s) => {
            assert(b.subrange(1, 1 + text_bytes(s).len() as int) =~= text_bytes(s));
            lemma_text_at(b, 1, s);
        },
        ActionView::Move(i, s) => {
            let h = spec_u64_to_le_bytes(i as u64);
            assert(h.len() == 8);
            assert(b.subrange(1, 9) =~= h);
            lemma_index_at(b, 1, i);
            assert(b.subrange(9, 9 + text_bytes(s).len() as int) =~= text_bytes(s));
            lemma_text_at(b, 9, s);
        },
        ActionView::Reset => {},
    }
}

/// Reading back the bytes of an authority message, whatever bytes follow
/// them, gives that message and the number of its bytes.
pub proof fn lemma_response_round_trip(m: ResponseView, rest: Seq<u8>)
    requires
        response_fits(m),
    ensures
        parse_response(response_bytes(m) + rest) == Ok::<(ResponseView, int), CodecError>(
            (m, response_bytes(m).len() as int),
        ),
{
    lemma_auto_spec_u64_to_from_le_bytes();
    let b = response_bytes(m) + rest;
    match m {
        ResponseView::Accepted(w) => {
            assert(b[1] == winner_byte(w));
        },
        ResponseView::Rejected(s) => {
            assert(b.subrange(1, 1 + text_bytes(s).len() as int) =~= text_bytes(s));
            lemma_text_at(b, 1, s);
        },
        ResponseView::MoveApplied(i, p, w) => {
            let h = spec_u64_to_le_bytes(i as u64);
            assert(h.len() == 8);
            assert(b.subrange(1, 9) =~= h);
            lemma_index_at(b, 1, i);
            assert(b[9] == player_byte(p));
            assert(b[10] == winner_byte(w));
        },
        ResponseView::Reset => {},
    }
}

} // verus!
