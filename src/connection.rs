//! The receive side of a connection: what the background task does with each
//! read of the transport. It gathers bytes, cuts them into messages, and
//! stops with one `Disconnected` notice when the peer closes, the read fails
//! or the bytes stop making sense.
use vstd::prelude::*;
use vstd::slice::{slice_subrange, slice_to_vec};
use crate::codec::{
    CodecError, ResponseView, ServerResponse, decode_response, parse_response, push_bytes,
};

verus! {

/// What the receive task hands to the game loop, in arrival order.
#[derive(Clone, Debug, PartialEq, Eq)]
pub enum Inbound {
    Response(ServerResponse),
    /// The connection is over; the text says why.
    Disconnected(String),
}

/// `Inbound` without the wording of the disconnect reason.
pub enum InboundView {
    Response(ResponseView),
    Disconnected,
}

impl View for Inbound {
    type V = InboundView;

    open spec fn view(&self) -> InboundView {
        match self {
            Inbound::Response(m) => InboundView::Response(m@),
            Inbound::Disconnected(_) => InboundView::Disconnected,
        }
    }
}

/// The receive task's state: bytes of a message not yet complete, and
/// whether the task has stopped.
pub struct ReaderState {
    pub pending: Seq<u8>,
    pub closed: bool,
}

/// A message read at the start of `b` takes at least one of its bytes.
pub proof fn lemma_response_extent(b: Seq<u8>)
    ensures
        parse_response(b) is Ok ==> 1 <= parse_response(b)->Ok_0.1 <= b.len(),
{
}

/// The complete messages at the front of `b`, one after another; the number
/// of bytes they take; and the error that stops reading, if one does
/// (a message cut short is no error: it waits for more bytes).
pub open spec fn drain(b: Seq<u8>) -> (Seq<ResponseView>, int, Option<CodecError>)
    decreases b.len(),
{
    match parse_response(b) {
        Ok((m, n)) => if 0 < n <= b.len() {
            let (ms, k, e) = drain(b.subrange(n, b.len() as int));
            (seq![m] + ms, n + k, e)
        } else {
            (seq![], 0, None)
        },
        Err(CodecError::Truncated) => (seq![], 0, None),
        Err(e) => (seq![], 0, Some(e)),
    }
}

/// One read of `chunk`: the next state and what is handed on. A stopped task
/// hands on nothing; an empty read means the peer closed.
pub open spec fn reader_step(st: ReaderState, chunk: Seq<u8>) -> (ReaderState, Seq<InboundView>) {
    if st.closed {
        (st, seq![])
    } else if chunk.len() == 0 {
        (ReaderState { closed: true, ..st }, seq![InboundView::Disconnected])
    } else {
        let b = st.pending + chunk;
        let (ms, k, e) = drain(b);
        let out = delivered(ms);
        let rest = b.subrange(k, b.len() as int);
        if e is Some {
            (ReaderState { pending: rest, closed: true }, out.push(InboundView::Disconnected))
        } else {
            (ReaderState { pending: rest, closed: false }, out)
        }
    }
}

/// A failed read: the task stops, with one notice unless it had stopped.
pub open spec fn reader_fail(st: ReaderState) -> (ReaderState, Seq<InboundView>) {
    if st.closed {
        (st, seq![])
    } else {
        (ReaderState { closed: true, ..st }, seq![InboundView::Disconnected])
    }
}

/// Each message as handed on.
pub open spec fn delivered(ms: Seq<ResponseView>) -> Seq<InboundView> {
    ms.map_values(|m: ResponseView| InboundView::Response(m))
}

pub open spec fn inbound_views(v: Seq<Inbound>) -> Seq<InboundView> {
    v.map_values(|x: Inbound| x@)
}

/// The decisions of the background receive task of one connection.
pub struct FrameReader {
    pending: Vec<u8>,
    closed: bool,
}

impl View for FrameReader {
    type V = ReaderState;

    closed spec fn view(&self) -> ReaderState {
        ReaderState { pending: self.pending@, closed: self.closed }
    }
}

fn reason_text(e: CodecError) -> String {
    match e {
        CodecError::Malformed => "malformed message".to_string(),
        CodecError::Truncated => "message cut short".to_string(),
        CodecError::InvalidUtf8 => "text that is not UTF-8".to_string(),
    }
}

impl FrameReader {
    /// A task that has read nothing yet.
    pub fn new() -> (r: FrameReader)
        ensures
            r@ == (ReaderState { pending: seq![], closed: false }),
    {
        FrameReader { pending: Vec::new(), closed: false }
    }

    /// Whether the task has stopped; it then reads no more.
    pub fn is_closed(&self) -> (r: bool)
        ensures
            r == self@.closed,
    {
        self.closed
    }

    /// Takes the bytes of one read and returns what to hand to the game
    /// loop. An empty `chunk` is the peer closing the connection.
    pub fn on_read(&mut self, chunk: &[u8]) -> (r: Vec<Inbound>)
        ensures
            (final(self)@, inbound_views(r@)) == reader_step(old(self)@, chunk@),
    {
        let mut out: Vec<Inbound> = Vec::new();
        if self.closed {
            assert(inbound_views(out@) =~= seq![]);
            return out;
        }
        if chunk.len() == 0 {
            self.closed = true;
            out.push(Inbound::Disconnected("connection closed by peer".to_string()));
            assert(inbound_views(out@) =~= seq![InboundView::Disconnected]);
            return out;
        }
        push_bytes(&mut self.pending, chunk);
        let ghost b = self.pending@;
        assert(b == old(self)@.pending + chunk@);
        let mut pos: usize = 0;
        let mut failed: Option<CodecError> = None;
        let ghost mut done: Seq<ResponseView> = seq![];
        assert(b.subrange(0, b.len() as int) =~= b);
        assert(inbound_views(out@) =~= delivered(done));
        loop
            invariant_except_break
                failed is None,
            invariant
                self.pending@ == b,
                0 <= pos <= b.len(),
                ({
                    let (ms, k, e) = drain(b.subrange(pos as int, b.len() as int));
                    drain(b) == (done + ms, pos + k, e)
                }),
                inbound_views(out@) == delivered(done),
            ensures
                failed is None ==> drain(b) == (done, pos as int, None::<CodecError>),
                failed is Some ==> drain(b) == (done, pos as int, failed),
            decreases b.len() - pos,
        {
            let rest = slice_subrange(self.pending.as_slice(), pos, self.pending.len());
            proof {
                lemma_response_extent(rest@);
            }
            match decode_response(rest) {
                Ok((m, n)) => {
                    proof {
                        let t = b.subrange(pos as int, b.len() as int);
                        assert(rest@ == t);
                        assert(t.subrange(n as int, t.len() as int) =~= b.subrange(
                            pos + n,
                            b.len() as int,
                        ));
                    }
                    let ghost old_out = out@;
                    let ghost old_done = done;
                    proof {
                        done = done.push(m@);
                    }
                    out.push(Inbound::Response(m));
                    pos = pos + n;
                    assert(inbound_views(out@) =~= inbound_views(old_out).push(
                        InboundView::Response(m@),
                    ));
                    assert(delivered(done) =~= delivered(old_done).push(InboundView::Response(m@)));
                },
                Err(CodecError::Truncated) => {
                    break ;
                },
                Err(e) => {
                    failed = Some(e);
                    break ;
                },
            }
        }
        let kept = slice_to_vec(slice_subrange(self.pending.as_slice(), pos, self.pending.len()));
        self.pending = kept;
        match failed {
            Some(e) => {
                self.closed = true;
                out.push(Inbound::Disconnected(reason_text(e)));
                assert(inbound_views(out@) =~= delivered(done).push(InboundView::Disconnected));
            },
            None => {},
        }
        out
    }

    /// A read that failed: the task stops and reports it once.
    pub fn on_error(&mut self) -> (r: Vec<Inbound>)
        ensures
            (final(self)@, inbound_views(r@)) == reader_fail(old(self)@),
    {
        let mut out: Vec<Inbound> = Vec::new();
        if !self.closed {
            self.closed = true;
            out.push(Inbound::Disconnected("read from the connection failed".to_string()));
        }
        assert(inbound_views(out@) =~= reader_fail(old(self)@).1);
        out
    }
}

/// Once the peer closes a running connection, the task hands on exactly one
/// `Disconnected` notice and stops; a stopped task hands on nothing more,
/// whatever it is given.
pub proof fn lemma_close_reports_once(st: ReaderState, later: Seq<u8>)
    requires
        !st.closed,
    ensures
        reader_step(st, seq![]).1 == seq![InboundView::Disconnected],
        reader_step(st, seq![]).0.closed,
        reader_step(reader_step(st, seq![]).0, later).1 == Seq::<InboundView>::empty(),
        reader_step(reader_step(st, seq![]).0, later).0 == reader_step(st, seq![]).0,
        reader_fail(reader_step(st, seq![]).0).1 == Seq::<InboundView>::empty(),
{
}

} // verus!
