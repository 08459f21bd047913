//! The state machine of one request/response exchange.
//!
//! The machine performs no I/O itself. For sending, `send_plan` says which
//! bytes to write next and `on_write` takes the outcome of that write; for
//! receiving, `recv_plan` says whether to read and `on_read` takes the bytes
//! read. Each returns what the host should do next: retry at once, register
//! for readiness and wait, or report a state to its caller.
use vstd::prelude::*;
use vstd::slice::slice_subrange;
use vstd::string::StringSliceAdditionalSpecFns;
use crate::Error;
use crate::types::{CallBuilderImpl, Request, view_headers, find_header, is_decimal_usize, decimal_value, header_index, parse_decimal, append_bytes};
use crate::head::{fill_send_req, request_head};
use crate::chunked::{ChunkIndex, decode_from};
use crate::bindings::{ResponseHead, HeadParse, HeadView, parse_response_head, response_head_of};
use crate::tls_api::TlsStream;

verus! {

/// Phase of a call.
#[derive(PartialEq, Eq, Structural, Clone, Copy, Debug)]
pub enum Dir {
    /// Bytes `0..offset` of the request head are written.
    SendingHdr(usize),
    /// Bytes `0..offset` of the request body are written.
    SendingBody(usize),
    /// Body bytes received so far, and whether the exchange switched to a
    /// duplex protocol.
    Receiving(usize, bool),
    Done,
}

/// What a send step reports.
#[derive(PartialEq, Eq, Structural, Clone, Copy, Debug)]
pub enum SendState {
    /// Wait for the next readiness event.
    Wait,
    /// The request body is to be supplied by the caller.
    WaitReqBody,
    /// Body bytes written so far.
    SentBody(usize),
    /// The request is sent: the call now receives.
    Receiving,
    Done,
}

/// Shape of a response body.
#[derive(PartialEq, Eq, Structural, Clone, Copy, Debug)]
pub enum ResponseBody {
    Sized(usize),
    Streamed,
}

/// What a receive step reports.
#[derive(Debug)]
pub enum RecvState {
    Wait,
    /// The request is still being sent.
    Sending,
    /// The response head arrived.
    Response(ResponseHead, ResponseBody),
    /// Body bytes received by this step.
    ReceivedBody(usize),
    /// The whole body.
    DoneWithBody(Vec<u8>),
    Done,
}

/// Outcome of one read or write on the transport.
#[derive(PartialEq, Eq, Structural, Clone, Copy, Debug)]
pub enum IoOutcome {
    /// This many bytes were transferred.
    Done(usize),
    WouldBlock,
    Interrupted,
    NotConnected,
    /// Any other failure.
    Failed,
}

/// What the host does after a step.
#[derive(Debug)]
pub enum Step<S> {
    /// Perform the step again at once.
    Retry,
    /// Register for readiness, then report the state.
    Register(S),
    /// Report the state.
    Report(S),
}

/// The next write of the send phase.
#[derive(PartialEq, Eq, Structural, Clone, Copy, Debug)]
pub enum SendPlan {
    /// Write bytes `from..to` of the request head (`CallImpl::head_bytes`).
    Header(usize, usize),
    /// Write bytes `from..to` of the request body.
    Body(usize, usize),
    /// Write the first `n` bytes that the caller supplied.
    Supplied(usize),
    /// Write nothing; report the state.
    Finished(SendState),
}

/// The next read of the receive phase.
#[derive(Debug)]
pub enum RecvPlan {
    /// Read, and hand the bytes to `on_read`.
    Read,
    /// Read, and hand the bytes to `on_read_into`.
    ReadInto,
    /// Read nothing; report the state.
    Finished(RecvState),
}

/// The request's body length is absent or a decimal number.
pub open spec fn request_ok(req: Request) -> bool {
    match find_header(view_headers(req.headers@), "content-length".spec_bytes()) {
        None => true,
        Some(v) => is_decimal_usize(v),
    }
}

/// Number of body bytes the request declares.
pub open spec fn declared_body_len(req: Request) -> int {
    match find_header(view_headers(req.headers@), "content-length".spec_bytes()) {
        None => req.body@.len() as int,
        Some(v) => decimal_value(v, v.len()),
    }
}

pub open spec fn is_chunked_te(hs: Seq<(Seq<u8>, Seq<u8>)>) -> bool {
    find_header(hs, "transfer-encoding".spec_bytes()) == Some("chunked".spec_bytes())
}

pub open spec fn wants_close(hs: Seq<(Seq<u8>, Seq<u8>)>) -> bool {
    find_header(hs, "connection".spec_bytes()) == Some("close".spec_bytes())
}

/// Body length of a response: unbounded when chunked or switching
/// protocols, else its `content-length`, else none.
pub open spec fn response_body_len(hs: Seq<(Seq<u8>, Seq<u8>)>, code: u16) -> int {
    if code == 101 || is_chunked_te(hs) {
        usize::MAX as int
    } else {
        match find_header(hs, "content-length".spec_bytes()) {
            Some(v) => if is_decimal_usize(v) { decimal_value(v, v.len()) } else { 0 },
            None => 0,
        }
    }
}

/// Phase right after a response head: duplex after a protocol switch, done
/// when there is no body, else receiving with the bytes already buffered.
pub open spec fn head_phase(code: u16, body_len: int, extra: int) -> Dir {
    if code == 101 {
        Dir::Receiving(extra as usize, true)
    } else if body_len == 0 {
        Dir::Done
    } else {
        Dir::Receiving(extra as usize, false)
    }
}

pub open spec fn sat_add(a: usize, b: usize) -> usize {
    if a + b > usize::MAX { usize::MAX } else { (a + b) as usize }
}

/// Reads the declared request body length.
pub fn declared_len(req: &Request) -> (r: Option<usize>)
    ensures
        r is Some <==> request_ok(*req),
        r matches Some(n) ==> n == declared_body_len(*req),
{
    match header_index(&req.headers, "content-length".as_bytes()) {
        None => Some(req.body.len()),
        Some(i) => parse_decimal(req.headers[i].value.as_slice()),
    }
}

fn bytes_eq(a: &[u8], b: &[u8]) -> (r: bool)
    ensures
        r == (a@ == b@),
{
    if a.len() != b.len() {
        return false;
    }
    let mut i: usize = 0;
    while i < a.len()
        invariant
            a@.len() == b@.len(),
            i <= a.len(),
            forall|j: int| 0 <= j < i ==> a@[j] == b@[j],
        decreases a.len() - i,
    {
        if a[i] != b[i] {
            return false;
        }
        i = i + 1;
    }
    assert(a@ =~= b@);
    true
}

fn header_is(hs: &Vec<crate::types::Header>, name: &str, value: &str) -> (r: bool)
    ensures
        r == (find_header(view_headers(hs@), name.spec_bytes()) == Some(value.spec_bytes())),
{
    match header_index(hs, name.as_bytes()) {
        None => false,
        Some(i) => bytes_eq(hs[i].value.as_slice(), value.as_bytes()),
    }
}

fn sat_add_exec(a: usize, b: usize) -> (r: usize)
    ensures
        r == sat_add(a, b),
{
    if a > usize::MAX - b { usize::MAX } else { a + b }
}

/// One request/response exchange.
pub struct CallImpl {
    b: CallBuilderImpl,
    start: u64,
    buf: Vec<u8>,
    /// Length of the serialized request head; 0 until it is built.
    head_len: usize,
    /// Number of request body bytes to send.
    req_body_sz: usize,
    /// Length of the response head; 0 until it is parsed.
    hdr_sz: usize,
    /// Length of the response body; `usize::MAX` when unbounded.
    body_sz: usize,
    dir: Dir,
    chunked: ChunkIndex,
    /// Length of the window handed out by the last send plan.
    offered: usize,
    /// The peer asked to close the connection after this exchange.
    to_close: bool,
}

impl CallImpl {
    pub closed spec fn phase(&self) -> Dir {
        self.dir
    }

    pub closed spec fn buffer(&self) -> Seq<u8> {
        self.buf@
    }

    pub closed spec fn config(&self) -> CallBuilderImpl {
        self.b
    }

    pub closed spec fn head_len(&self) -> nat {
        self.head_len as nat
    }

    pub closed spec fn req_body_len(&self) -> nat {
        self.req_body_sz as nat
    }

    pub closed spec fn hdr_len(&self) -> nat {
        self.hdr_sz as nat
    }

    pub closed spec fn body_len(&self) -> nat {
        self.body_sz as nat
    }

    pub closed spec fn offered(&self) -> nat {
        self.offered as nat
    }

    pub closed spec fn chunk_offset(&self) -> nat {
        self.chunked.offset()
    }

    pub closed spec fn closing(&self) -> bool {
        self.to_close
    }

    pub closed spec fn started(&self) -> u64 {
        self.start
    }

    pub closed spec fn wf(&self) -> bool {
        &&& match self.dir {
            Dir::SendingHdr(p) => {
                &&& self.hdr_sz == 0
                &&& self.head_len == 0 ==> p == 0 && self.offered == 0
                &&& self.head_len > 0 ==> p < self.head_len && self.buf@.len() == self.head_len
                    && self.offered <= self.head_len - p
            },
            Dir::SendingBody(p) => self.hdr_sz == 0 && p < self.req_body_sz && self.offered <= self.req_body_sz - p,
            Dir::Receiving(_, duplex) => !duplex ==> self.offered == 0,
            Dir::Done => self.offered == 0,
        }
        &&& self.hdr_sz <= self.buf@.len()
        &&& self.hdr_sz == 0 ==> self.body_sz == 0 && self.chunked.offset() == 0
        &&& self.b.chunked_parse && self.hdr_sz > 0 ==> self.hdr_sz + self.chunked.offset() <= self.buf@.len()
        &&& self.req_body_sz == declared_body_len(self.b.req)
    }

    /// Creates a call for the request in `b`, reusing `buf`.
    pub fn new(b: CallBuilderImpl, buf: Vec<u8>, start: u64) -> (r: Option<CallImpl>)
        ensures
            r is Some <==> request_ok(b.req),
            r matches Some(c) ==> {
                &&& c.wf()
                &&& c.phase() == Dir::SendingHdr(0)
                &&& c.buffer().len() == 0
                &&& c.config() == b
                &&& c.started() == start
                &&& c.hdr_len() == 0
                &&& c.body_len() == 0
                &&& c.head_len() == 0
                &&& c.offered() == 0
                &&& c.req_body_len() == declared_body_len(b.req)
                &&& !c.closing()
            },
    {
        let req_body_sz = match declared_len(&b.req) {
            Some(n) => n,
            None => return None,
        };
        let mut buf = buf;
        buf.truncate(0);
        Some(CallImpl {
            b,
            start,
            buf,
            head_len: 0,
            req_body_sz,
            hdr_sz: 0,
            body_sz: 0,
            dir: Dir::SendingHdr(0),
            chunked: ChunkIndex::new(),
            offered: 0,
            to_close: false,
        })
    }

    pub fn start_time(&self) -> (r: u64)
        ensures
            r == self.started(),
    {
        self.start
    }

    pub fn settings(&self) -> (r: &CallBuilderImpl)
        ensures
            *r == self.config(),
    {
        &self.b
    }

    /// The current phase.
    pub fn dir(&self) -> (r: Dir)
        ensures
            r == self.phase(),
    {
        self.dir
    }

    pub fn is_done(&self) -> (r: bool)
        ensures
            r == (self.phase() == Dir::Done),
    {
        self.dir == Dir::Done
    }

    /// The peer asked to close the connection after this exchange.
    pub fn close_after(&self) -> (r: bool)
        ensures
            r == self.closing(),
    {
        self.to_close
    }

    /// Ends the call and hands back its buffer.
    pub fn stop(self) -> (r: Vec<u8>)
        ensures
            r@ == self.buffer(),
    {
        self.buf
    }

    /// Milliseconds since the call started, at time `now`.
    pub fn duration(&self, now: u64) -> (r: u64)
        ensures
            r == if now >= self.started() { now - self.started() } else { 0 },
    {
        if now >= self.start { now - self.start } else { 0 }
    }

    /// The serialized request head, once it is built.
    pub fn head_bytes(&self) -> (r: &[u8])
        ensures
            r@ == self.buffer(),
    {
        self.buf.as_slice()
    }

    /// The request body held by the call.
    pub fn body_bytes(&self) -> (r: &[u8])
        ensures
            r@ == self.config().req.body@,
    {
        self.b.req.body.as_slice()
    }

    /// The request head still has to be built: the next send step needs a
    /// websocket key if the call asks for an upgrade.
    pub fn needs_head(&self) -> (r: bool)
        ensures
            r == (self.phase() == Dir::SendingHdr(0) && self.head_len() == 0),
    {
        self.dir == Dir::SendingHdr(0) && self.head_len == 0
    }

    /// The parts of the call that sending and receiving never change.
    pub open spec fn same_call(&self, other: &CallImpl) -> bool {
        &&& self.config().req == other.config().req
        &&& self.config().max_response == other.config().max_response
        &&& self.config().max_chunk == other.config().max_chunk
        &&& self.config().ws == other.config().ws
        &&& self.started() == other.started()
        &&& self.req_body_len() == other.req_body_len()
    }

    /// What `send_plan` does.
    pub open spec fn send_effect(old: &CallImpl, new: &CallImpl, supplied: Option<usize>, key: Seq<u8>, r: SendPlan) -> bool {
        &&& new.phase() == old.phase()
        &&& match r {
            SendPlan::Header(from, to) => new.offered() == to - from,
            SendPlan::Body(from, to) => new.offered() == to - from,
            SendPlan::Supplied(n) => new.offered() == n,
            SendPlan::Finished(_) => *new == *old,
        }
        &&& match old.phase() {
            Dir::Done => r == SendPlan::Finished(SendState::Done),
            Dir::Receiving(_, false) => r == SendPlan::Finished(SendState::Receiving),
            Dir::Receiving(_, true) => new.buffer() == old.buffer() && match supplied {
                Some(n) => if n > 0 {
                    r == SendPlan::Supplied(n)
                } else {
                    r == SendPlan::Finished(SendState::WaitReqBody)
                },
                None => r == SendPlan::Finished(SendState::WaitReqBody),
            },
            Dir::SendingHdr(p) => {
                &&& old.head_len() == 0 ==> new.buffer() == request_head(
                    old.config().req,
                    old.config().ws,
                    key,
                )
                &&& old.head_len() > 0 ==> new.buffer() == old.buffer()
                &&& new.head_len() == new.buffer().len()
                &&& p < new.head_len()
                &&& r == SendPlan::Header(p, new.head_len() as usize)
            },
            Dir::SendingBody(p) => {
                let body = old.config().req.body@;
                let declared = old.req_body_len();
                &&& new.buffer() == old.buffer()
                &&& if body.len() > 0 {
                    let to = if declared < body.len() { declared } else { body.len() };
                    if p < to {
                        r == SendPlan::Body(p, to as usize)
                    } else {
                        r == SendPlan::Finished(SendState::WaitReqBody)
                    }
                } else {
                    match supplied {
                        Some(n) => if n > 0 {
                            r == SendPlan::Supplied(
                                if n < declared - p { n } else { (declared - p) as usize },
                            )
                        } else {
                            r == SendPlan::Finished(SendState::WaitReqBody)
                        },
                        None => r == SendPlan::Finished(SendState::WaitReqBody),
                    }
                }
            },
        }
    }

    /// What `on_write` does. An outcome that moves nothing forward leaves the
    /// call as it was.
    pub open spec fn write_effect(old: &CallImpl, new: &CallImpl, outcome: IoOutcome, r: Result<Step<SendState>, Error>) -> bool {
        match outcome {
            IoOutcome::Interrupted => r == Ok::<Step<SendState>, Error>(Step::Retry) && *new == *old,
            IoOutcome::NotConnected => r == Ok::<Step<SendState>, Error>(Step::Report(SendState::Wait)) && *new == *old,
            IoOutcome::WouldBlock => r == Ok::<Step<SendState>, Error>(Step::Register(SendState::Wait)) && *new == *old,
            IoOutcome::Failed => r == Err::<Step<SendState>, Error>(Error::Io) && *new == *old,
            IoOutcome::Done(n) => if n == 0 {
                r == Err::<Step<SendState>, Error>(Error::Closed) && *new == *old
            } else if n > old.offered() {
                r == Err::<Step<SendState>, Error>(Error::Io) && *new == *old
            } else {
                &&& new.offered() == 0
                &&& match old.phase() {
                    Dir::SendingHdr(p) => if p + n == old.head_len() {
                        if old.req_body_len() > 0 {
                            &&& new.phase() == Dir::SendingBody(0)
                            &&& new.buffer().len() == 0
                            &&& r == Ok::<Step<SendState>, Error>(Step::Report(SendState::Wait))
                        } else {
                            &&& new.phase() == Dir::Receiving(0, false)
                            &&& new.buffer().len() == 0
                            &&& new.hdr_len() == 0
                            &&& new.body_len() == 0
                            &&& r == Ok::<Step<SendState>, Error>(Step::Report(SendState::Receiving))
                        }
                    } else {
                        &&& new.phase() == Dir::SendingHdr((p + n) as usize)
                        &&& new.buffer() == old.buffer()
                        &&& new.head_len() == old.head_len()
                        &&& r == Ok::<Step<SendState>, Error>(Step::Report(SendState::Wait))
                    },
                    Dir::SendingBody(p) => if p + n == old.req_body_len() {
                        &&& new.phase() == Dir::Receiving(0, false)
                        &&& new.buffer().len() == 0
                        &&& new.hdr_len() == 0
                        &&& new.body_len() == 0
                        &&& r == Ok::<Step<SendState>, Error>(Step::Report(SendState::Receiving))
                    } else {
                        &&& new.phase() == Dir::SendingBody((p + n) as usize)
                        &&& new.buffer() == old.buffer()
                        &&& r == Ok::<Step<SendState>, Error>(Step::Report(SendState::SentBody((p + n) as usize)))
                    },
                    _ => {
                        &&& new.phase() == old.phase()
                        &&& new.buffer() == old.buffer()
                        &&& new.hdr_len() == old.hdr_len()
                        &&& new.body_len() == old.body_len()
                        &&& r == Ok::<Step<SendState>, Error>(Step::Report(SendState::SentBody(n)))
                    },
                }
            },
        }
    }

    /// Decides the next write of the send phase. `supplied` is the length of
    /// the bytes the caller offers, if any; `key` is the encoded websocket
    /// key, used when the request head is built.
    pub fn send_plan(&mut self, supplied: Option<usize>, key: &[u8]) -> (r: SendPlan)
        requires
            old(self).wf(),
        ensures
            final(self).wf(),
            final(self).same_call(old(self)),
            final(self).config() == old(self).config(),
            final(self).phase() == old(self).phase(),
            final(self).hdr_len() == old(self).hdr_len(),
            final(self).closing() == old(self).closing(),
            Self::send_effect(old(self), final(self), supplied, key@, r),
    {
        match self.dir {
            Dir::Done => SendPlan::Finished(SendState::Done),
            Dir::Receiving(_, false) => SendPlan::Finished(SendState::Receiving),
            Dir::Receiving(_, true) => {
                match supplied {
                    Some(n) => {
                        if n > 0 {
                            self.offered = n;
                            SendPlan::Supplied(n)
                        } else {
                            SendPlan::Finished(SendState::WaitReqBody)
                        }
                    },
                    None => SendPlan::Finished(SendState::WaitReqBody),
                }
            },
            Dir::SendingHdr(pos) => {
                if self.head_len == 0 {
                    self.buf.truncate(0);
                    fill_send_req(&self.b.req, self.b.ws, key, &mut self.buf);
                    proof {
                        reveal_strlit("\r\n");
                        assert(self.buf@.len() >= 2);
                    }
                    self.head_len = self.buf.len();
                }
                self.offered = self.head_len - pos;
                SendPlan::Header(pos, self.head_len)
            },
            Dir::SendingBody(pos) => {
                let blen = self.b.req.body.len();
                if blen > 0 {
                    let to = if self.req_body_sz < blen { self.req_body_sz } else { blen };
                    if pos < to {
                        self.offered = to - pos;
                        SendPlan::Body(pos, to)
                    } else {
                        SendPlan::Finished(SendState::WaitReqBody)
                    }
                } else {
                    match supplied {
                        Some(n) => {
                            if n > 0 {
                                let rest = self.req_body_sz - pos;
                                let m = if n < rest { n } else { rest };
                                self.offered = m;
                                SendPlan::Supplied(m)
                            } else {
                                SendPlan::Finished(SendState::WaitReqBody)
                            }
                        },
                        None => SendPlan::Finished(SendState::WaitReqBody),
                    }
                }
            },
        }
    }

    /// Takes the outcome of the write that the last `send_plan` asked for.
    pub fn on_write(&mut self, outcome: IoOutcome) -> (r: Result<Step<SendState>, Error>)
        requires
            old(self).wf(),
        ensures
            final(self).wf(),
            final(self).same_call(old(self)),
            final(self).config() == old(self).config(),
            final(self).closing() == old(self).closing(),
            Self::write_effect(old(self), final(self), outcome, r),
    {
        let n = match outcome {
            IoOutcome::Interrupted => return Ok(Step::Retry),
            IoOutcome::NotConnected => return Ok(Step::Report(SendState::Wait)),
            IoOutcome::WouldBlock => return Ok(Step::Register(SendState::Wait)),
            IoOutcome::Failed => return Err(Error::Io),
            IoOutcome::Done(n) => n,
        };
        if n == 0 {
            return Err(Error::Closed);
        }
        if n > self.offered {
            return Err(Error::Io);
        }
        self.offered = 0;
        match self.dir {
            Dir::SendingHdr(pos) => {
                if pos + n == self.head_len {
                    if self.req_body_sz > 0 {
                        self.buf.truncate(0);
                        self.head_len = 0;
                        self.dir = Dir::SendingBody(0);
                        Ok(Step::Report(SendState::Wait))
                    } else {
                        self.enter_receiving();
                        Ok(Step::Report(SendState::Receiving))
                    }
                } else {
                    self.dir = Dir::SendingHdr(pos + n);
                    Ok(Step::Report(SendState::Wait))
                }
            },
            Dir::SendingBody(pos) => {
                if pos + n == self.req_body_sz {
                    self.enter_receiving();
                    Ok(Step::Report(SendState::Receiving))
                } else {
                    self.dir = Dir::SendingBody(pos + n);
                    Ok(Step::Report(SendState::SentBody(pos + n)))
                }
            },
            _ => Ok(Step::Report(SendState::SentBody(n))),
        }
    }

    /// Effect of `n` bytes of `data` read on the receive path. `dst` is the
    /// caller's buffer when `has_dst`.
    pub open spec fn read_effect(
        old: &CallImpl,
        new: &CallImpl,
        n: nat,
        data: Seq<u8>,
        dst0: Seq<u8>,
        dst1: Seq<u8>,
        has_dst: bool,
        r: Result<Step<RecvState>, Error>,
    ) -> bool {
        let got = data.subrange(0, n as int);
        let b2 = old.buffer() + got;
        let max = old.config().max_chunk;
        match old.phase() {
            Dir::Receiving(p, duplex) => {
                let zero_copy = has_dst && old.hdr_len() > 0 && !old.config().chunked_parse;
                if zero_copy {
                    let q = sat_add(p, n as usize);
                    &&& dst1 == dst0 + got
                    &&& new.buffer() == old.buffer()
                    &&& new.hdr_len() == old.hdr_len()
                    &&& new.body_len() == old.body_len()
                    &&& new.phase() == if q >= old.body_len() { Dir::Done } else { Dir::Receiving(q, duplex) }
                    &&& r == Ok::<Step<RecvState>, Error>(Step::Report(RecvState::ReceivedBody(n as usize)))
                } else if old.hdr_len() == 0 {
                    match response_head_of(b2) {
                        HeadView::Partial => {
                            &&& r == Ok::<Step<RecvState>, Error>(Step::Retry)
                            &&& new.buffer() == b2
                            &&& new.hdr_len() == 0
                            &&& new.phase() == old.phase()
                            &&& dst1 == dst0
                        },
                        HeadView::Invalid => r == Err::<Step<RecvState>, Error>(Error::Httparse) && dst1 == dst0,
                        HeadView::Complete { len, code, version, headers } => {
                            let chunking = old.config().chunked_parse && is_chunked_te(headers);
                            let body_len = response_body_len(headers, code);
                            let phase = head_phase(code, body_len, b2.len() - len);
                            let d = decode_from(b2, len as int, max);
                            &&& new.buffer() == b2
                            &&& new.hdr_len() == len
                            &&& new.body_len() == body_len
                            &&& new.closing() == (old.closing() || wants_close(headers))
                            &&& new.config().chunked_parse == chunking
                            &&& dst1 == dst0
                            &&& if chunking && d.err is Some {
                                r == Err::<Step<RecvState>, Error>(d.err.unwrap())
                            } else {
                                &&& new.phase() == phase
                                &&& new.chunk_offset() == 0
                                &&& r matches Ok(Step::Report(RecvState::Response(h, shape)))
                                &&& HeadParse::Complete(len as usize, h).view() == response_head_of(b2)
                                &&& shape == if chunking {
                                    ResponseBody::Streamed
                                } else {
                                    ResponseBody::Sized(body_len as usize)
                                }
                            }
                        },
                    }
                } else if !old.config().chunked_parse {
                    &&& new.buffer() == b2
                    &&& new.hdr_len() == old.hdr_len()
                    &&& new.body_len() == old.body_len()
                    &&& new.phase() == Dir::Receiving(sat_add(p, n as usize), duplex)
                    &&& dst1 == dst0
                    &&& r == Ok::<Step<RecvState>, Error>(Step::Report(RecvState::ReceivedBody(n as usize)))
                } else {
                    let d = decode_from(b2, (old.hdr_len() + old.chunk_offset()) as int, max);
                    match d.err {
                        Some(e) => {
                            &&& r == Err::<Step<RecvState>, Error>(e)
                            &&& dst1 == dst0
                            &&& new.buffer() == b2
                            &&& new.hdr_len() == old.hdr_len()
                            &&& new.body_len() == old.body_len()
                            &&& new.phase() == old.phase()
                        },
                        None => {
                            &&& new.buffer() == b2
                            &&& new.hdr_len() == old.hdr_len()
                            &&& new.body_len() == old.body_len()
                            &&& new.phase() == if d.done { Dir::Done } else { Dir::Receiving(sat_add(p, n as usize), duplex) }
                            &&& if has_dst {
                                &&& dst1 == dst0 + d.out
                                &&& new.hdr_len() + new.chunk_offset() == d.next
                                &&& r == Ok::<Step<RecvState>, Error>(if d.out.len() == 0 {
                                    Step::Retry
                                } else {
                                    Step::Report(RecvState::ReceivedBody(d.out.len() as usize))
                                })
                            } else if d.done {
                                &&& dst1 == dst0
                                &&& r matches Ok(Step::Report(RecvState::DoneWithBody(v)))
                                &&& v@ == d.out
                            } else {
                                &&& dst1 == dst0
                                &&& new.chunk_offset() == old.chunk_offset()
                                &&& r == Ok::<Step<RecvState>, Error>(Step::Report(RecvState::ReceivedBody(n as usize)))
                            }
                        },
                    }
                }
            },
            Dir::Done => r == Ok::<Step<RecvState>, Error>(Step::Report(RecvState::Done)) && *new == *old && dst1 == dst0,
            _ => r == Ok::<Step<RecvState>, Error>(Step::Report(RecvState::Sending)) && *new == *old && dst1 == dst0,
        }
    }

    /// What a read outcome that carries no bytes, or a broken one, does.
    pub open spec fn read_failure(outcome: IoOutcome, len: nat, r: Result<Step<RecvState>, Error>) -> bool {
        match outcome {
            IoOutcome::Interrupted => r == Ok::<Step<RecvState>, Error>(Step::Retry),
            IoOutcome::WouldBlock => r == Ok::<Step<RecvState>, Error>(Step::Register(RecvState::Wait)),
            IoOutcome::NotConnected => r == Err::<Step<RecvState>, Error>(Error::Io),
            IoOutcome::Failed => r == Err::<Step<RecvState>, Error>(Error::Io),
            IoOutcome::Done(n) => if n == 0 {
                r == Err::<Step<RecvState>, Error>(Error::Closed)
            } else {
                n > len && r == Err::<Step<RecvState>, Error>(Error::Io)
            },
        }
    }

    fn parse_head(&mut self) -> (r: Result<Step<RecvState>, Error>)
        requires
            old(self).wf(),
            old(self).hdr_len() == 0,
            old(self).phase() matches Dir::Receiving(_, _),
        ensures
            final(self).wf(),
            final(self).same_call(old(self)),
            final(self).buffer() == old(self).buffer(),
            final(self).config().max_response == old(self).config().max_response,
            match response_head_of(old(self).buffer()) {
                HeadView::Partial => {
                    &&& r == Ok::<Step<RecvState>, Error>(Step::Retry)
                    &&& *final(self) == *old(self)
                },
                HeadView::Invalid => r == Err::<Step<RecvState>, Error>(Error::Httparse),
                HeadView::Complete { len, code, version, headers } => {
                    let b2 = old(self).buffer();
                    let chunking = old(self).config().chunked_parse && is_chunked_te(headers);
                    let body_len = response_body_len(headers, code);
                    let phase = head_phase(code, body_len, b2.len() - len);
                    let d = decode_from(b2, len as int, old(self).config().max_chunk);
                    &&& final(self).hdr_len() == len
                    &&& final(self).body_len() == body_len
                    &&& final(self).closing() == (old(self).closing() || wants_close(headers))
                    &&& final(self).config().chunked_parse == chunking
                    &&& if chunking && d.err is Some {
                        r == Err::<Step<RecvState>, Error>(d.err.unwrap())
                    } else {
                        &&& final(self).phase() == phase
                        &&& final(self).chunk_offset() == 0
                        &&& r matches Ok(Step::Report(RecvState::Response(h, shape)))
                        &&& HeadParse::Complete(len as usize, h).view() == response_head_of(b2)
                        &&& shape == if chunking {
                            ResponseBody::Streamed
                        } else {
                            ResponseBody::Sized(body_len as usize)
                        }
                    }
                },
            },
    {
        match parse_response_head(self.buf.as_slice()) {
            HeadParse::Partial => Ok(Step::Retry),
            HeadParse::Invalid => Err(Error::Httparse),
            HeadParse::Complete(len, head) => {
                let ghost hs = view_headers(head.headers@);
                let chunked_te = header_is(&head.headers, "transfer-encoding", "chunked");
                let mut body_sz: usize = 0;
                match header_index(&head.headers, "content-length".as_bytes()) {
                    Some(i) => {
                        match parse_decimal(head.headers[i].value.as_slice()) {
                            Some(v) => {
                                body_sz = v;
                            },
                            None => {},
                        }
                    },
                    None => {},
                }
                if chunked_te || head.status == 101 {
                    body_sz = usize::MAX;
                }
                if header_is(&head.headers, "connection", "close") {
                    self.to_close = true;
                }
                if !chunked_te {
                    self.b.chunked_parse = false;
                }
                self.hdr_sz = len;
                self.body_sz = body_sz;
                self.offered = 0;
                let extra = self.buf.len() - len;
                if head.status == 101 {
                    self.dir = Dir::Receiving(extra, true);
                } else if body_sz == 0 {
                    self.dir = Dir::Done;
                } else {
                    self.dir = Dir::Receiving(extra, false);
                }
                if self.b.chunked_parse {
                    self.chunked.check_done(self.b.max_chunk, self.buf.as_slice(), self.hdr_sz)?;
                    Ok(Step::Report(RecvState::Response(head, ResponseBody::Streamed)))
                } else {
                    Ok(Step::Report(RecvState::Response(head, ResponseBody::Sized(body_sz))))
                }
            },
        }
    }

    /// What planning a read does once the call receives: hand out the body
    /// if it has all arrived, refuse to read past the size limit, or read.
    pub open spec fn plan_effect(old: &CallImpl, new: &CallImpl, r: Result<RecvPlan, Error>) -> bool {
        let hdr = old.hdr_len();
        let buf = old.buffer();
        match old.phase() {
            Dir::Receiving(p, _) => if hdr > 0 && old.config().chunked_parse && (
                decode_from(buf, (hdr + old.chunk_offset()) as int, old.config().max_chunk).err is Some
                || decode_from(buf, (hdr + old.chunk_offset()) as int, old.config().max_chunk).done) {
                let d = decode_from(buf, (hdr + old.chunk_offset()) as int, old.config().max_chunk);
                match d.err {
                    Some(e) => r == Err::<RecvPlan, Error>(e),
                    None => {
                        &&& new.phase() == Dir::Done
                        &&& new.buffer() == buf
                        &&& new.hdr_len() == hdr
                        &&& r matches Ok(RecvPlan::Finished(RecvState::DoneWithBody(v)))
                        &&& v@ == d.out
                    },
                }
            } else if p > 0 && p >= old.body_len() && hdr > 0 {
                let end = if hdr + old.body_len() < buf.len() { (hdr + old.body_len()) as int } else { buf.len() as int };
                &&& new.phase() == Dir::Done
                &&& new.buffer() == buf.subrange(0, hdr as int)
                &&& new.hdr_len() == hdr
                &&& r matches Ok(RecvPlan::Finished(RecvState::DoneWithBody(v)))
                &&& v@ == buf.subrange(hdr as int, end)
            } else if old.config().max_response <= buf.len() {
                r == Err::<RecvPlan, Error>(Error::ResponseTooBig) && *new == *old
            } else {
                r == Ok::<RecvPlan, Error>(RecvPlan::Read) && *new == *old
            },
            Dir::Done => r == Ok::<RecvPlan, Error>(RecvPlan::Finished(RecvState::Done)) && *new == *old,
            _ => r == Ok::<RecvPlan, Error>(RecvPlan::Finished(RecvState::Sending)) && *new == *old,
        }
    }

    /// What `recv_plan_into` does with the caller's buffer going from `dst0`
    /// to `dst1`.
    pub open spec fn plan_into_effect(old: &CallImpl, new: &CallImpl, dst0: Seq<u8>, dst1: Seq<u8>, r: Result<RecvPlan, Error>) -> bool {
        let hdr = old.hdr_len();
        let buf = old.buffer();
        let extra = buf.subrange(hdr as int, buf.len() as int);
        if old.phase() matches Dir::Receiving(p, _) && hdr > 0 && !old.config().chunked_parse {
            &&& dst1 == dst0 + extra
            &&& if extra.len() > 0 && old.phase()->Receiving_0 >= old.body_len() {
                &&& new.phase() == Dir::Done
                &&& new.buffer() == buf
                &&& r == Ok::<RecvPlan, Error>(RecvPlan::Finished(RecvState::ReceivedBody(extra.len() as usize)))
            } else {
                &&& new.phase() == old.phase()
                &&& new.buffer() == buf.subrange(0, hdr as int)
                &&& if old.config().max_response <= dst1.len() {
                    r == Err::<RecvPlan, Error>(Error::ResponseTooBig)
                } else {
                    r == Ok::<RecvPlan, Error>(RecvPlan::ReadInto)
                }
            }
        } else {
            dst1 == dst0 && Self::plan_effect(old, new, r)
        }
    }

    /// Decides the next read, when the caller keeps no buffer of its own.
    pub fn recv_plan(&mut self) -> (r: Result<RecvPlan, Error>)
        requires
            old(self).wf(),
        ensures
            final(self).wf(),
            final(self).same_call(old(self)),
            final(self).config() == old(self).config(),
            final(self).closing() == old(self).closing(),
            Self::plan_effect(old(self), final(self), r),
    {
        match self.dir {
            Dir::Done => Ok(RecvPlan::Finished(RecvState::Done)),
            Dir::SendingHdr(_) => Ok(RecvPlan::Finished(RecvState::Sending)),
            Dir::SendingBody(_) => Ok(RecvPlan::Finished(RecvState::Sending)),
            Dir::Receiving(p, _) => {
                if self.hdr_sz > 0 && self.b.chunked_parse {
                    let done = self.chunked.check_done(self.b.max_chunk, self.buf.as_slice(), self.hdr_sz)?;
                    if done {
                        let mut v: Vec<u8> = Vec::new();
                        let _ = self.chunked.push_to(self.b.max_chunk, self.buf.as_slice(), self.hdr_sz, &mut v);
                        assert(v@ =~= decode_from(old(self).buf@, (self.hdr_sz + old(self).chunked.offset()) as int, self.b.max_chunk).out);
                        self.dir = Dir::Done;
                        self.offered = 0;
                        return Ok(RecvPlan::Finished(RecvState::DoneWithBody(v)));
                    }
                }
                if p > 0 && p >= self.body_sz && self.hdr_sz > 0 {
                    let ghost old_buf = self.buf@;
                    let mut body = self.buf.split_off(self.hdr_sz);
                    assert(body@ == old_buf.subrange(self.hdr_sz as int, old_buf.len() as int));
                    body.truncate(self.body_sz);
                    assert(body@ =~= old_buf.subrange(
                        self.hdr_sz as int,
                        if self.hdr_sz + self.body_sz < old_buf.len() { self.hdr_sz + self.body_sz } else { old_buf.len() as int },
                    ));
                    self.dir = Dir::Done;
                    self.offered = 0;
                    self.chunked = ChunkIndex::new();
                    Ok(RecvPlan::Finished(RecvState::DoneWithBody(body)))
                } else if self.b.max_response <= self.buf.len() {
                    Err(Error::ResponseTooBig)
                } else {
                    Ok(RecvPlan::Read)
                }
            },
        }
    }

    /// Decides the next read, when the caller keeps a buffer `dst` for the
    /// body. Once the head is parsed, and unless the body is chunked, body
    /// bytes already buffered move to `dst` and the next read goes there.
    pub fn recv_plan_into(&mut self, dst: &mut Vec<u8>) -> (r: Result<RecvPlan, Error>)
        requires
            old(self).wf(),
        ensures
            final(self).wf(),
            final(self).same_call(old(self)),
            final(self).config() == old(self).config(),
            final(self).closing() == old(self).closing(),
            Self::plan_into_effect(old(self), final(self), old(dst)@, final(dst)@, r),
    {
        if let Dir::Receiving(p, _) = self.dir {
            if self.hdr_sz > 0 && !self.b.chunked_parse {
                let n = self.buf.len();
                append_bytes(dst, slice_subrange(self.buf.as_slice(), self.hdr_sz, n));
                if n > self.hdr_sz && p >= self.body_sz {
                    self.dir = Dir::Done;
                    self.offered = 0;
                    return Ok(RecvPlan::Finished(RecvState::ReceivedBody(n - self.hdr_sz)));
                }
                self.buf.truncate(self.hdr_sz);
                if self.b.max_response <= dst.len() {
                    return Err(Error::ResponseTooBig);
                }
                return Ok(RecvPlan::ReadInto);
            }
        }
        self.recv_plan()
    }

    fn absorb(&mut self, n: usize, data: &[u8], dst: &mut Vec<u8>, has_dst: bool) -> (r: Result<Step<RecvState>, Error>)
        requires
            old(self).wf(),
            0 < n <= data@.len(),
        ensures
            final(self).wf(),
            final(self).same_call(old(self)),
            final(self).config().max_response == old(self).config().max_response,
            Self::read_effect(old(self), final(self), n as nat, data@, old(dst)@, final(dst)@, has_dst, r),
    {
        let (p, duplex) = match self.dir {
            Dir::Done => return Ok(Step::Report(RecvState::Done)),
            Dir::SendingHdr(_) => return Ok(Step::Report(RecvState::Sending)),
            Dir::SendingBody(_) => return Ok(Step::Report(RecvState::Sending)),
            Dir::Receiving(p, duplex) => (p, duplex),
        };
        let got = slice_subrange(data, 0, n);
        let q = sat_add_exec(p, n);
        if has_dst && self.hdr_sz > 0 && !self.b.chunked_parse {
            append_bytes(dst, got);
            if q >= self.body_sz {
                self.dir = Dir::Done;
                self.offered = 0;
            } else {
                self.dir = Dir::Receiving(q, duplex);
            }
            return Ok(Step::Report(RecvState::ReceivedBody(n)));
        }
        append_bytes(&mut self.buf, got);
        if self.hdr_sz == 0 {
            return self.parse_head();
        }
        if !self.b.chunked_parse {
            self.dir = Dir::Receiving(q, duplex);
            return Ok(Step::Report(RecvState::ReceivedBody(n)));
        }
        let done = self.chunked.check_done(self.b.max_chunk, self.buf.as_slice(), self.hdr_sz)?;
        if done {
            self.dir = Dir::Done;
            self.offered = 0;
        } else {
            self.dir = Dir::Receiving(q, duplex);
        }
        if has_dst {
            let nc = self.chunked.push_to(self.b.max_chunk, self.buf.as_slice(), self.hdr_sz, dst)?;
            if nc == 0 {
                Ok(Step::Retry)
            } else {
                Ok(Step::Report(RecvState::ReceivedBody(nc)))
            }
        } else if done {
            let mut v: Vec<u8> = Vec::new();
            self.chunked.push_to(self.b.max_chunk, self.buf.as_slice(), self.hdr_sz, &mut v)?;
            Ok(Step::Report(RecvState::DoneWithBody(v)))
        } else {
            Ok(Step::Report(RecvState::ReceivedBody(n)))
        }
    }

    pub open spec fn read_len(outcome: IoOutcome) -> nat {
        match outcome {
            IoOutcome::Done(n) => n as nat,
            _ => 0,
        }
    }

    /// Takes the outcome of a read that `recv_plan` asked for; on success the
    /// bytes read are the start of `data`.
    pub fn on_read(&mut self, outcome: IoOutcome, data: &[u8]) -> (r: Result<Step<RecvState>, Error>)
        requires
            old(self).wf(),
        ensures
            final(self).wf(),
            final(self).same_call(old(self)),
            final(self).config().max_response == old(self).config().max_response,
            Self::read_outcome(old(self), final(self), outcome, data@, r),
    {
        let mut scratch: Vec<u8> = Vec::new();
        match outcome {
            IoOutcome::Interrupted => Ok(Step::Retry),
            IoOutcome::WouldBlock => Ok(Step::Register(RecvState::Wait)),
            IoOutcome::NotConnected => Err(Error::Io),
            IoOutcome::Failed => Err(Error::Io),
            IoOutcome::Done(n) => {
                if n == 0 {
                    Err(Error::Closed)
                } else if n > data.len() {
                    Err(Error::Io)
                } else {
                    proof {
                        assert(scratch@ =~= seq![]);
                    }
                    self.absorb(n, data, &mut scratch, false)
                }
            },
        }
    }

    /// Takes the outcome of a read that `recv_plan_into` asked for, with the
    /// caller's buffer `dst`; on success the bytes read are the start of
    /// `data`.
    pub fn on_read_into(&mut self, outcome: IoOutcome, data: &[u8], dst: &mut Vec<u8>) -> (r: Result<Step<RecvState>, Error>)
        requires
            old(self).wf(),
        ensures
            final(self).wf(),
            final(self).same_call(old(self)),
            final(self).config().max_response == old(self).config().max_response,
            if 0 < Self::read_len(outcome) <= data@.len() {
                Self::read_effect(old(self), final(self), Self::read_len(outcome), data@, old(dst)@, final(dst)@, true, r)
            } else {
                Self::read_failure(outcome, data@.len(), r) && *final(self) == *old(self) && final(dst)@ == old(dst)@
            },
    {
        match outcome {
            IoOutcome::Interrupted => Ok(Step::Retry),
            IoOutcome::WouldBlock => Ok(Step::Register(RecvState::Wait)),
            IoOutcome::NotConnected => Err(Error::Io),
            IoOutcome::Failed => Err(Error::Io),
            IoOutcome::Done(n) => {
                if n == 0 {
                    Err(Error::Closed)
                } else if n > data.len() {
                    Err(Error::Io)
                } else {
                    self.absorb(n, data, dst, true)
                }
            },
        }
    }

    /// Buffered body bytes past `off`; see `peek_body`.
    pub fn body_after(&self, off: usize) -> (r: &[u8])
        requires
            self.wf(),
        ensures
            r@ == if self.body_len() > 0 && self.buffer().len() > self.hdr_len() + off {
                self.buffer().subrange(self.hdr_len() + off, self.buffer().len() as int)
            } else {
                seq![]
            },
    {
        let n = self.buf.len();
        if self.body_sz > 0 && off < n - self.hdr_sz {
            slice_subrange(self.buf.as_slice(), self.hdr_sz + off, n)
        } else {
            slice_subrange(self.buf.as_slice(), 0, 0)
        }
    }

    /// Body bytes buffered past `off` (counted from the end of the response
    /// head), if the response has a body. Once the caller has consumed every
    /// buffered body byte, they are dropped, keeping the head, and `off` is
    /// reset (see `try_truncate`).
    pub fn peek_body(&mut self, off: &mut usize) -> (r: &[u8])
        requires
            old(self).wf(),
        ensures
            final(self).wf(),
            final(self).same_call(old(self)),
            final(self).config() == old(self).config(),
            final(self).phase() == old(self).phase(),
            final(self).hdr_len() == old(self).hdr_len(),
            final(self).body_len() == old(self).body_len(),
            r@ == if old(self).body_len() > 0 && old(self).buffer().len() > old(self).hdr_len() + *old(off) {
                old(self).buffer().subrange(old(self).hdr_len() + *old(off), old(self).buffer().len() as int)
            } else {
                seq![]
            },
            if old(self).body_len() > 0 && old(self).buffer().len() > old(self).hdr_len()
                && old(self).buffer().len() <= old(self).hdr_len() + *old(off) {
                &&& final(self).buffer() == old(self).buffer().subrange(0, old(self).hdr_len() as int)
                &&& *final(off) == 0
            } else {
                &&& final(self).buffer() == old(self).buffer()
                &&& *final(off) == *old(off)
            },
    {
        self.try_truncate(off);
        self.body_after(*off)
    }

    /// Once the caller has consumed every buffered body byte (`off` reaches
    /// the end of the buffer), drops them, keeping the response head, and
    /// resets `off`.
    pub fn try_truncate(&mut self, off: &mut usize)
        requires
            old(self).wf(),
        ensures
            final(self).wf(),
            final(self).same_call(old(self)),
            final(self).config() == old(self).config(),
            final(self).phase() == old(self).phase(),
            final(self).hdr_len() == old(self).hdr_len(),
            final(self).body_len() == old(self).body_len(),
            final(self).closing() == old(self).closing(),
            if old(self).body_len() > 0 && old(self).buffer().len() > old(self).hdr_len()
                && old(self).buffer().len() <= old(self).hdr_len() + *old(off) {
                &&& final(self).buffer() == old(self).buffer().subrange(0, old(self).hdr_len() as int)
                &&& *final(off) == 0
            } else {
                &&& final(self).buffer() == old(self).buffer()
                &&& *final(off) == *old(off)
            },
    {
        let n = self.buf.len();
        if self.body_sz > 0 && n > self.hdr_sz && *off >= n - self.hdr_sz {
            self.buf.truncate(self.hdr_sz);
            self.chunked = ChunkIndex::new();
            *off = 0;
        }
    }

    /// One send step over `con`: plans the next write (the websocket key is
    /// `key`), performs it and takes its outcome. `b` holds bytes the caller
    /// offers. The step is exactly a `send_plan` followed, when it asks for a
    /// write, by `on_write` with whatever the stream reported; when it asks
    /// for none, the stream is left untouched.
    pub fn event_send<S>(&mut self, con: &mut TlsStream<S>, key: &[u8], b: Option<&[u8]>) -> (r: Result<Step<SendState>, Error>)
        requires
            old(self).wf(),
        ensures
            final(self).wf(),
            final(self).same_call(old(self)),
            exists|mid: CallImpl, plan: SendPlan| {
                &&& #[trigger] Self::send_effect(old(self), &mid, Self::offer_len(b), key@, plan)
                &&& mid.wf()
                &&& match plan {
                    SendPlan::Finished(st) => {
                        &&& r == Ok::<Step<SendState>, Error>(Step::Report(st))
                        &&& *final(self) == mid
                        &&& *final(con) == *old(con)
                    },
                    _ => exists|outcome: IoOutcome| #[trigger] Self::write_effect(&mid, final(self), outcome, r),
                }
            },
    {
        let plan = self.send_plan(Self::offer_len_exec(b), key);
        let ghost mid = *self;
        let outcome = match plan {
            SendPlan::Finished(st) => {
                assert(Self::send_effect(old(self), &mid, Self::offer_len(b), key@, plan));
                return Ok(Step::Report(st));
            },
            SendPlan::Header(from, to) => con.write(slice_subrange(self.buf.as_slice(), from, to)),
            SendPlan::Body(from, to) => con.write(slice_subrange(self.b.req.body.as_slice(), from, to)),
            SendPlan::Supplied(n) => match b {
                Some(bytes) => con.write(slice_subrange(bytes, 0, n)),
                None => IoOutcome::Failed,
            },
        };
        let r = self.on_write(outcome);
        assert(Self::send_effect(old(self), &mid, Self::offer_len(b), key@, plan));
        assert(Self::write_effect(&mid, self, outcome, r));
        r
    }

    pub open spec fn offer_len(b: Option<&[u8]>) -> Option<usize> {
        match b {
            Some(bytes) => Some(bytes@.len() as usize),
            None => None,
        }
    }

    fn offer_len_exec(b: Option<&[u8]>) -> (r: Option<usize>)
        ensures
            r == Self::offer_len(b),
    {
        match b {
            Some(bytes) => Some(bytes.len()),
            None => None,
        }
    }

    /// One receive step over `con`, when the caller keeps no buffer of its
    /// own: plans the next read, performs it and takes its outcome. The step
    /// is exactly a `recv_plan` followed, when it asks for a read, by
    /// `on_read` with whatever the stream delivered; when it asks for none,
    /// the stream is left untouched.
    pub fn event_recv<S>(&mut self, con: &mut TlsStream<S>) -> (r: Result<Step<RecvState>, Error>)
        requires
            old(self).wf(),
        ensures
            final(self).wf(),
            final(self).same_call(old(self)),
            exists|mid: CallImpl, plan: Result<RecvPlan, Error>| {
                &&& #[trigger] Self::plan_effect(old(self), &mid, plan)
                &&& mid.wf()
                &&& match plan {
                    Err(e) => r == Err::<Step<RecvState>, Error>(e) && *final(self) == mid && *final(con) == *old(con),
                    Ok(RecvPlan::Read) => exists|outcome: IoOutcome, data: Seq<u8>|
                        #[trigger] Self::read_outcome(&mid, final(self), outcome, data, r),
                    Ok(RecvPlan::Finished(st)) => {
                        &&& r == Ok::<Step<RecvState>, Error>(Step::Report(st))
                        &&& *final(self) == mid
                        &&& *final(con) == *old(con)
                    },
                    Ok(RecvPlan::ReadInto) => false,
                }
            },
    {
        let plan = self.recv_plan();
        let ghost mid = *self;
        match plan {
            Err(e) => {
                assert(Self::plan_effect(old(self), &mid, plan));
                Err(e)
            },
            Ok(RecvPlan::Read) => {
                let mut data: Vec<u8> = Vec::new();
                let outcome = con.read(&mut data);
                let r = self.on_read(outcome, data.as_slice());
                assert(Self::plan_effect(old(self), &mid, plan));
                assert(Self::read_outcome(&mid, self, outcome, data@, r));
                r
            },
            Ok(RecvPlan::ReadInto) => {
                assert(false);
                Err(Error::Io)
            },
            Ok(RecvPlan::Finished(st)) => {
                assert(Self::plan_effect(old(self), &mid, Ok::<RecvPlan, Error>(RecvPlan::Finished(st))));
                Ok(Step::Report(st))
            },
        }
    }

    /// What `on_read` does with an outcome and the bytes delivered.
    pub open spec fn read_outcome(old: &CallImpl, new: &CallImpl, outcome: IoOutcome, data: Seq<u8>, r: Result<Step<RecvState>, Error>) -> bool {
        if 0 < Self::read_len(outcome) <= data.len() {
            Self::read_effect(old, new, Self::read_len(outcome), data, seq![], seq![], false, r)
        } else {
            Self::read_failure(outcome, data.len(), r) && *new == *old
        }
    }

    fn enter_receiving(&mut self)
        requires
            old(self).req_body_sz == declared_body_len(old(self).b.req),
        ensures
            final(self).wf(),
            final(self).phase() == Dir::Receiving(0, false),
            final(self).buffer().len() == 0,
            final(self).hdr_len() == 0,
            final(self).body_len() == 0,
            final(self).chunk_offset() == 0,
            final(self).config() == old(self).config(),
            final(self).closing() == old(self).closing(),
            final(self).started() == old(self).started(),
            final(self).req_body_len() == old(self).req_body_len(),
    {
        self.dir = Dir::Receiving(0, false);
        self.hdr_sz = 0;
        self.body_sz = 0;
        self.head_len = 0;
        self.offered = 0;
        self.buf.truncate(0);
        self.chunked = ChunkIndex::new();
    }
}

/// Body bytes are never written past the declared length: while the body is
/// sent, every write window ends within the declared length, and a write
/// moves the call on to receiving exactly when it reaches that length.
pub proof fn lemma_body_within_declared(
    c: CallImpl,
    c2: CallImpl,
    supplied: Option<usize>,
    key: Seq<u8>,
    plan: SendPlan,
    c3: CallImpl,
    outcome: IoOutcome,
    res: Result<Step<SendState>, Error>,
)
    requires
        c.wf(),
        c2.wf(),
        c3.wf(),
        c.phase() is SendingBody,
        CallImpl::send_effect(&c, &c2, supplied, key, plan),
        CallImpl::write_effect(&c2, &c3, outcome, res),
        c2.req_body_len() == c.req_body_len(),
        c3.req_body_len() == c.req_body_len(),
    ensures
        c.req_body_len() == declared_body_len(c.config().req),
        plan matches SendPlan::Body(from, to) ==> from == c.phase()->SendingBody_0 && to <= c.req_body_len(),
        plan matches SendPlan::Supplied(n) ==> c.phase()->SendingBody_0 + n <= c.req_body_len(),
        ({
            let p = c.phase()->SendingBody_0;
            let n = CallImpl::read_len(outcome);
            0 < n <= c2.offered() ==> {
                &&& (c3.phase() == Dir::Receiving(0, false)) == (p + n == c.req_body_len())
                &&& c3.phase() is SendingBody ==> c3.phase()->SendingBody_0 == p + n < c.req_body_len()
            }
        }),
{
}

/// The lengths a call tracks fit in a `usize`.
pub proof fn lemma_lengths_fit(c: CallImpl)
    ensures
        c.head_len() <= usize::MAX,
        c.req_body_len() <= usize::MAX,
        c.hdr_len() <= usize::MAX,
        c.body_len() <= usize::MAX,
        c.offered() <= usize::MAX,
{
}

/// The request body length a call sends is the one its request declares:
/// its `content-length` value, else the length of its body.
pub proof fn lemma_declared_length(c: CallImpl)
    requires
        c.wf(),
    ensures
        c.req_body_len() == declared_body_len(c.config().req),
{
}

/// A finished call stays finished: planning a write or a read, or handing it
/// a read, reports `Done`, asks for no I/O and leaves the call as it was, so
/// any number of such steps do the same.
pub proof fn lemma_done_is_idle(
    c: CallImpl,
    c2: CallImpl,
    supplied: Option<usize>,
    key: Seq<u8>,
    send: SendPlan,
    recv: Result<RecvPlan, Error>,
    n: nat,
    data: Seq<u8>,
    dst0: Seq<u8>,
    dst1: Seq<u8>,
    has_dst: bool,
    read: Result<Step<RecvState>, Error>,
)
    requires
        c.phase() == Dir::Done,
    ensures
        CallImpl::send_effect(&c, &c2, supplied, key, send) ==> send == SendPlan::Finished(SendState::Done) && c2 == c,
        CallImpl::plan_effect(&c, &c2, recv) ==> recv == Ok::<RecvPlan, Error>(RecvPlan::Finished(RecvState::Done)) && c2 == c,
        CallImpl::read_effect(&c, &c2, n, data, dst0, dst1, has_dst, read) ==> read == Ok::<Step<RecvState>, Error>(
            Step::Report(RecvState::Done),
        ) && c2 == c && dst1 == dst0,
{
}

} // verus!
