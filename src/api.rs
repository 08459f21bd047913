//! The public face of the engine: building calls, and the table that maps
//! reactor tokens to live calls and recycles their buffers.
use vstd::prelude::*;
use crate::Error;
use crate::types::{CallBuilderImpl, Request};
use crate::call::{CallImpl, Dir, SendPlan, SendState, RecvPlan, RecvState, Step, IoOutcome, request_ok, declared_len};
use crate::bindings::{random_u64, write_u64_le, base64_encode, base64_of, le_bytes};
use crate::types::append_bytes;

verus! {

/// Largest number of concurrent connections: the 16-bit token range.
pub const MAX_CONNECTIONS: usize = 0xFFFF;

/// Number of freed buffers kept for reuse by default.
pub const DEFAULT_CACHED_BUFFERS: usize = 4;

/// Configuration of the connection table.
#[derive(PartialEq, Eq, Structural, Clone, Copy, Debug)]
pub struct HttpcCfg {
    /// Largest number of calls in flight.
    pub max_connections: usize,
    /// Largest number of freed buffers kept for reuse.
    pub cache_buffers: usize,
}

/// Identifies a call in readiness events: its reactor token.
#[derive(PartialEq, Eq, Structural, Clone, Copy, Debug)]
pub struct CallRef {
    pub token: usize,
}

/// The handle of a live call, held by its owner until the call is closed.
#[derive(Debug)]
pub struct Call {
    r: CallRef,
}

impl Call {
    pub closed spec fn token(&self) -> usize {
        self.r.token
    }

    pub fn get_ref(&self) -> (r: CallRef)
        ensures
            r.token == self.token(),
    {
        self.r
    }

    pub fn is_ref(&self, r: CallRef) -> (b: bool)
        ensures
            b == (r.token == self.token()),
    {
        self.r.token == r.token
    }
}

/// Builds a call.
#[derive(Debug)]
pub struct CallBuilder {
    cb: Option<CallBuilderImpl>,
}

impl CallBuilder {
    /// The builder still holds its settings: no call was made from it yet.
    pub closed spec fn pending(&self) -> bool {
        self.cb is Some
    }

    pub closed spec fn settings(&self) -> CallBuilderImpl {
        self.cb.unwrap()
    }

    pub fn new(req: Request) -> (r: CallBuilder)
        ensures
            r.pending(),
            r.settings() == CallBuilderImpl::new_spec(req),
    {
        CallBuilder { cb: Some(CallBuilderImpl::new(req)) }
    }

    /// Submits the call to `httpc`, started at time `now`; see `Httpc::call`.
    pub fn call(&mut self, httpc: &mut Httpc, now: u64) -> (r: Result<Call, Error>)
        requires
            old(self).pending(),
            old(httpc).wf(),
        ensures
            !final(self).pending(),
            final(httpc).wf(),
            Self::submitted(old(httpc), final(httpc), old(self).settings(), r),
    {
        let mut cb: Option<CallBuilderImpl> = None;
        std::mem::swap(&mut self.cb, &mut cb);
        match cb {
            Some(b) => httpc.call(b, now),
            None => Err(Error::NoSpace),
        }
    }

    /// Submits the call to `httpc` as a websocket upgrade, started at time
    /// `now`; see `Httpc::call`.
    pub fn websocket(&mut self, httpc: &mut Httpc, now: u64) -> (r: Result<Call, Error>)
        requires
            old(self).pending(),
            old(httpc).wf(),
        ensures
            !final(self).pending(),
            final(httpc).wf(),
            Self::submitted(old(httpc), final(httpc), CallBuilderImpl { ws: true, ..old(self).settings() }, r),
    {
        let mut cb: Option<CallBuilderImpl> = None;
        std::mem::swap(&mut self.cb, &mut cb);
        match cb {
            Some(b) => {
                let mut b = b;
                b.ws = true;
                httpc.call(b, now)
            },
            None => Err(Error::NoSpace),
        }
    }

    /// What submitting settings `b` to a table does.
    pub open spec fn submitted(old: &Httpc, new: &Httpc, b: CallBuilderImpl, r: Result<Call, Error>) -> bool {
        &&& old.full() ==> r == Err::<Call, Error>(Error::NoSpace) && *new == *old
        &&& !old.full() && !request_ok(b.req) ==> r == Err::<Call, Error>(Error::InvalidContentLength) && *new == *old
        &&& !old.full() && request_ok(b.req) ==> (r matches Ok(c) && {
            &&& !old.live(c.token())
            &&& new.live(c.token())
            &&& new.call_at(c.token()).config() == b
            &&& new.call_at(c.token()).phase() == Dir::SendingHdr(0)
        })
    }

    /// Largest response, head and body, that the call accepts.
    pub fn max_response(&mut self, m: usize) -> (r: &mut Self)
        requires
            old(self).pending(),
        ensures
            r.pending(),
            r.settings() == (CallBuilderImpl { max_response: m, ..old(self).settings() }),
            *final(self) == *final(r),
    {
        match &mut self.cb {
            Some(cb) => {
                cb.max_response = m;
            },
            None => {},
        }
        self
    }

    /// Interval between name resolution retries.
    pub fn dns_retry_ms(&mut self, n: u64) -> (r: &mut Self)
        requires
            old(self).pending(),
        ensures
            r.pending(),
            r.settings() == (CallBuilderImpl { dns_retry_ms: n, ..old(self).settings() }),
            *final(self) == *final(r),
    {
        match &mut self.cb {
            Some(cb) => {
                cb.dns_retry_ms = n;
            },
            None => {},
        }
        self
    }

    /// Decode chunked response bodies.
    pub fn chunked_parse(&mut self, b: bool) -> (r: &mut Self)
        requires
            old(self).pending(),
        ensures
            r.pending(),
            r.settings() == (CallBuilderImpl { chunked_parse: b, ..old(self).settings() }),
            *final(self) == *final(r),
    {
        match &mut self.cb {
            Some(cb) => {
                cb.chunked_parse = b;
            },
            None => {},
        }
        self
    }

    /// Largest chunk that the decoder accepts.
    pub fn chunked_max_chunk(&mut self, v: usize) -> (r: &mut Self)
        requires
            old(self).pending(),
        ensures
            r.pending(),
            r.settings() == (CallBuilderImpl { max_chunk: v, ..old(self).settings() }),
            *final(self) == *final(r),
    {
        match &mut self.cb {
            Some(cb) => {
                cb.max_chunk = v;
            },
            None => {},
        }
        self
    }

    /// Time after which the call counts as timed out.
    pub fn timeout_ms(&mut self, d: u64) -> (r: &mut Self)
        requires
            old(self).pending(),
        ensures
            r.pending(),
            r.settings() == (CallBuilderImpl { timeout_ms: d, ..old(self).settings() }),
            *final(self) == *final(r),
    {
        match &mut self.cb {
            Some(cb) => {
                cb.timeout_ms = d;
            },
            None => {},
        }
        self
    }

    /// Use digest authentication.
    pub fn digest_auth(&mut self, v: bool) -> (r: &mut Self)
        requires
            old(self).pending(),
        ensures
            r.pending(),
            r.settings() == (CallBuilderImpl { digest: v, ..old(self).settings() }),
            *final(self) == *final(r),
    {
        match &mut self.cb {
            Some(cb) => {
                cb.digest = v;
            },
            None => {},
        }
        self
    }

    /// Accept gzip encoded responses.
    pub fn gzip(&mut self, b: bool) -> (r: &mut Self)
        requires
            old(self).pending(),
        ensures
            r.pending(),
            r.settings() == (CallBuilderImpl { gzip: b, ..old(self).settings() }),
            *final(self) == *final(r),
    {
        match &mut self.cb {
            Some(cb) => {
                cb.gzip = b;
            },
            None => {},
        }
        self
    }

    /// Largest number of redirects to follow.
    pub fn max_redirects(&mut self, v: u8) -> (r: &mut Self)
        requires
            old(self).pending(),
        ensures
            r.pending(),
            r.settings() == (CallBuilderImpl { max_redirects: v, ..old(self).settings() }),
            *final(self) == *final(r),
    {
        match &mut self.cb {
            Some(cb) => {
                cb.max_redirects = v;
            },
            None => {},
        }
        self
    }

    /// Skip verification of the peer's certificate.
    pub fn insecure_do_not_verify_domain(&mut self) -> (r: &mut Self)
        requires
            old(self).pending(),
        ensures
            r.pending(),
            r.settings() == (CallBuilderImpl { insecure: true, ..old(self).settings() }),
            *final(self) == *final(r),
    {
        match &mut self.cb {
            Some(cb) => {
                cb.insecure = true;
            },
            None => {},
        }
        self
    }
}

/// Number of occupied slots.
pub open spec fn count_open(s: Seq<Option<CallImpl>>) -> nat
    decreases s.len(),
{
    if s.len() == 0 {
        0
    } else {
        count_open(s.drop_last()) + if s.last() is Some { 1nat } else { 0nat }
    }
}

/// The call has run for longer than its timeout at time `now`.
pub open spec fn timed_out(c: CallImpl, now: u64) -> bool {
    now >= c.started() && now - c.started() > c.config().timeout_ms
}

/// References to the timed-out calls among the slots, in slot order.
pub open spec fn expired_refs(s: Seq<Option<CallImpl>>, offset: nat, now: u64) -> Seq<CallRef>
    decreases s.len(),
{
    if s.len() == 0 {
        seq![]
    } else {
        let rest = expired_refs(s.drop_last(), offset, now);
        match s.last() {
            Some(c) => if timed_out(c, now) {
                rest.push(CallRef { token: (offset + s.len() - 1) as usize })
            } else {
                rest
            },
            None => rest,
        }
    }
}

/// A websocket handshake key: the encoding of two random words.
pub open spec fn is_ws_key(k: Seq<u8>) -> bool {
    &&& k.len() == 24
    &&& exists|a: u64, b: u64| k == base64_of(#[trigger] le_bytes(a) + #[trigger] le_bytes(b))
}

fn ws_key() -> (r: Vec<u8>)
    ensures
        is_ws_key(r@),
{
    let a = random_u64();
    let b = random_u64();
    let mut raw = write_u64_le(a);
    let tail = write_u64_le(b);
    append_bytes(&mut raw, tail.as_slice());
    let r = base64_encode(raw.as_slice());
    assert(r@ == base64_of(le_bytes(a) + le_bytes(b)));
    assert(raw@.len() == 16);
    r
}

/// The table of calls in flight, indexed by reactor token, and the pool of
/// buffers freed by closed calls.
pub struct Httpc {
    con_offset: usize,
    calls: Vec<Option<CallImpl>>,
    /// Per slot: the call there met an error, so its connection is not to
    /// be reused.
    broken: Vec<bool>,
    free_bufs: Vec<Vec<u8>>,
    cache_buffers: usize,
}

impl Httpc {
    pub closed spec fn offset(&self) -> nat {
        self.con_offset as nat
    }

    pub closed spec fn slots(&self) -> Seq<Option<CallImpl>> {
        self.calls@
    }

    pub closed spec fn broken(&self) -> Seq<bool> {
        self.broken@
    }

    /// The call of token `t` met an error.
    pub open spec fn failed(&self, t: usize) -> bool {
        self.broken()[t - self.offset()]
    }

    pub open spec fn capacity(&self) -> nat {
        self.slots().len()
    }

    /// The buffers kept for reuse.
    pub closed spec fn spare(&self) -> Seq<Seq<u8>> {
        self.free_bufs@.map_values(|b: Vec<u8>| b@)
    }

    pub closed spec fn cache_limit(&self) -> nat {
        self.cache_buffers as nat
    }

    pub closed spec fn wf(&self) -> bool {
        &&& self.con_offset + self.calls@.len() <= usize::MAX
        &&& self.broken@.len() == self.calls@.len()
        &&& forall|i: int| 0 <= i < self.calls@.len() ==> (#[trigger] self.calls@[i] matches Some(c) ==> c.wf())
        &&& forall|i: int| 0 <= i < self.free_bufs@.len() ==> (#[trigger] self.free_bufs@[i])@.len() == 0
        &&& self.free_bufs@.len() <= self.cache_buffers
    }

    /// Token `t` names a live call.
    pub open spec fn live(&self, t: usize) -> bool {
        self.offset() <= t < self.offset() + self.capacity() && self.slots()[t - self.offset()] is Some
    }

    pub open spec fn call_at(&self, t: usize) -> CallImpl {
        self.slots()[t - self.offset()].unwrap()
    }

    /// Every slot but that of token `t` is as in `old`, and so are the
    /// table's dimensions and spare buffers.
    pub open spec fn others_kept(&self, old: &Httpc, t: usize) -> bool {
        &&& self.offset() == old.offset()
        &&& self.capacity() == old.capacity()
        &&& self.spare() == old.spare()
        &&& self.cache_limit() == old.cache_limit()
        &&& forall|j: int| 0 <= j < self.capacity() && j != t - self.offset() ==> self.slots()[j] == old.slots()[j]
        &&& self.broken().len() == old.broken().len()
        &&& forall|j: int| 0 <= j < self.capacity() && j != t - self.offset() ==> self.broken()[j] == old.broken()[j]
    }

    /// Creates an empty table whose tokens start at `con_offset`. It holds
    /// `cfg.max_connections` calls, at most the 16-bit token range.
    pub fn new(con_offset: usize, cfg: Option<HttpcCfg>) -> (r: Httpc)
        requires
            con_offset <= usize::MAX - MAX_CONNECTIONS,
        ensures
            r.wf(),
            r.offset() == con_offset,
            r.capacity() == match cfg {
                Some(c) => if c.max_connections < MAX_CONNECTIONS { c.max_connections } else { MAX_CONNECTIONS },
                None => MAX_CONNECTIONS,
            },
            r.capacity() <= MAX_CONNECTIONS,
            r.cache_limit() == match cfg {
                Some(c) => c.cache_buffers,
                None => DEFAULT_CACHED_BUFFERS,
            },
            forall|j: int| 0 <= j < r.capacity() ==> r.slots()[j] is None,
            r.spare().len() == 0,
    {
        let (cap, cache) = match cfg {
            Some(c) => (if c.max_connections < MAX_CONNECTIONS { c.max_connections } else { MAX_CONNECTIONS }, c.cache_buffers),
            None => (MAX_CONNECTIONS, DEFAULT_CACHED_BUFFERS),
        };
        let mut calls: Vec<Option<CallImpl>> = Vec::new();
        let mut broken: Vec<bool> = Vec::new();
        let mut i: usize = 0;
        while i < cap
            invariant
                i <= cap,
                calls@.len() == i,
                broken@.len() == i,
                forall|j: int| 0 <= j < i ==> calls@[j] is None,
            decreases cap - i,
        {
            calls.push(None);
            broken.push(false);
            i = i + 1;
        }
        Httpc { con_offset, calls, broken, free_bufs: Vec::new(), cache_buffers: cache }
    }


    /// All slots are taken.
    pub open spec fn full(&self) -> bool {
        forall|j: int| 0 <= j < self.capacity() ==> (#[trigger] self.slots()[j]) is Some
    }

    /// Submits a call with settings `b`, started at time `now`. It takes the
    /// first free slot, whose token identifies it from then on, and a spare
    /// buffer if there is one.
    pub fn call(&mut self, b: CallBuilderImpl, now: u64) -> (r: Result<Call, Error>)
        requires
            old(self).wf(),
        ensures
            final(self).wf(),
            old(self).full() ==> r == Err::<Call, Error>(Error::NoSpace) && *final(self) == *old(self),
            !old(self).full() && !request_ok(b.req) ==> r == Err::<Call, Error>(Error::InvalidContentLength)
                && *final(self) == *old(self),
            !old(self).full() && request_ok(b.req) ==> (r matches Ok(c) && {
                let i = c.token() - old(self).offset();
                let n = final(self).call_at(c.token());
                &&& old(self).offset() <= c.token() < old(self).offset() + old(self).capacity()
                &&& old(self).slots()[i] is None
                &&& forall|j: int| 0 <= j < i ==> (#[trigger] old(self).slots()[j]) is Some
                &&& final(self).live(c.token())
                &&& final(self).slots() == old(self).slots().update(i, Some(n))
                &&& final(self).broken() == old(self).broken().update(i, false)
                &&& !final(self).failed(c.token())
                &&& final(self).offset() == old(self).offset()
                &&& final(self).cache_limit() == old(self).cache_limit()
                &&& final(self).spare() == if old(self).spare().len() > 0 {
                    old(self).spare().drop_last()
                } else {
                    old(self).spare()
                }
                &&& n.phase() == Dir::SendingHdr(0)
                &&& n.config() == b
                &&& n.started() == now
                &&& n.buffer().len() == 0
                &&& n.hdr_len() == 0
                &&& n.head_len() == 0
            }),
    {
        let mut i: usize = 0;
        while i < self.calls.len() && self.calls[i].is_some()
            invariant
                i <= self.calls@.len(),
                forall|j: int| 0 <= j < i ==> (#[trigger] self.calls@[j]) is Some,
            decreases self.calls.len() - i,
        {
            i = i + 1;
        }
        if i == self.calls.len() {
            return Err(Error::NoSpace);
        }
        if declared_len(&b.req).is_none() {
            return Err(Error::InvalidContentLength);
        }
        let buf = match self.free_bufs.pop() {
            Some(v) => v,
            None => Vec::new(),
        };
        proof {
            if old(self).spare().len() > 0 {
                assert(self.spare() =~= old(self).spare().drop_last());
            }
        }
        match CallImpl::new(b, buf, now) {
            Some(c) => {
                self.calls.set(i, Some(c));
                self.broken.set(i, false);
                Ok(Call { r: CallRef { token: self.con_offset + i } })
            },
            None => Err(Error::InvalidContentLength),
        }
    }

    /// Closes the call: frees its slot and keeps its buffer, emptied, for
    /// reuse. Returns whether its connection may serve another exchange: the
    /// exchange completed, no step of it failed, and the peer did not ask to
    /// close.
    pub fn call_close(&mut self, id: Call) -> (r: bool)
        requires
            old(self).wf(),
        ensures
            final(self).wf(),
            !old(self).live(id.token()) ==> !r && *final(self) == *old(self),
            old(self).live(id.token()) ==> ({
                let c = old(self).call_at(id.token());
                &&& r == (c.phase() == Dir::Done && !c.closing() && !old(self).failed(id.token()))
                &&& final(self).slots() == old(self).slots().update(id.token() - old(self).offset(), None)
                &&& final(self).broken() == old(self).broken()
                &&& final(self).offset() == old(self).offset()
                &&& final(self).spare() == if old(self).spare().len() < old(self).cache_limit() {
                    old(self).spare().push(seq![])
                } else {
                    old(self).spare()
                }
            }),
    {
        let t = id.r.token;
        let i = match self.slot_of(t) {
            Some(i) => i,
            None => return false,
        };
        let mut slot: Option<CallImpl> = None;
        self.calls.set_and_swap(i, &mut slot);
        match slot {
            Some(c) => {
                let keep = c.is_done() && !c.close_after() && !self.broken[i];
                let buf = c.stop();
                self.reuse(buf);
                keep
            },
            None => false,
        }
    }

    /// Decides the next write of the call; see `CallImpl::send_plan`. The
    /// websocket key, when the call needs one, is drawn at random.
    #[verifier::rlimit(40)]
    pub fn call_send(&mut self, id: &Call, supplied: Option<usize>) -> (r: SendPlan)
        requires
            old(self).wf(),
        ensures
            final(self).wf(),
            final(self).others_kept(old(self), id.token()),
            !old(self).live(id.token()) ==> r == SendPlan::Finished(SendState::Done) && *final(self) == *old(self),
            old(self).live(id.token()) ==> final(self).live(id.token()) && (if old(self).call_at(id.token()).config().ws && old(self).call_at(id.token()).phase() == Dir::SendingHdr(0) && old(self).call_at(id.token()).head_len() == 0 {
                exists|k: Seq<u8>| is_ws_key(k) && #[trigger] CallImpl::send_effect(&old(self).call_at(id.token()), &final(self).call_at(id.token()), supplied, k, r)
            } else {
                CallImpl::send_effect(&old(self).call_at(id.token()), &final(self).call_at(id.token()), supplied, seq![], r)
            }),
            old(self).live(id.token()) ==> final(self).failed(id.token()) == old(self).failed(id.token()),
    {
        let i = match self.slot_of(id.r.token) {
            Some(i) => i,
            None => return SendPlan::Finished(SendState::Done),
        };
        let mut slot: Option<CallImpl> = None;
        self.calls.set_and_swap(i, &mut slot);
        match slot {
            Some(c) => {
                let mut c = c;
                let ghost c0 = c;
                let key = if c.needs_head() && c.settings().ws { ws_key() } else { Vec::new() };
                let r = c.send_plan(supplied, key.as_slice());
                self.calls.set(i, Some(c));
                proof {
                    assert(self.calls@ =~= old(self).calls@.update(i as int, Some(c)));
                    assert(c0 == old(self).call_at(id.token()));
                    assert(c == self.call_at(id.token()));
                    assert(CallImpl::send_effect(&c0, &c, supplied, key@, r));
                    if !(c0.config().ws && c0.phase() == Dir::SendingHdr(0) && c0.head_len() == 0) {
                        assert(key@ =~= Seq::<u8>::empty());
                    }
                }
                r
            },
            None => SendPlan::Finished(SendState::Done),
        }
    }

    /// Takes the outcome of the write that `call_send` asked for; see `CallImpl::on_write`.
    pub fn call_sent(&mut self, id: &Call, outcome: IoOutcome) -> (r: Result<Step<SendState>, Error>)
        requires
            old(self).wf(),
        ensures
            final(self).wf(),
            final(self).others_kept(old(self), id.token()),
            !old(self).live(id.token()) ==> (r matches Err(Error::Closed)) && *final(self) == *old(self),
            old(self).live(id.token()) ==> final(self).live(id.token()) && CallImpl::write_effect(&old(self).call_at(id.token()), &final(self).call_at(id.token()), outcome, r),
            old(self).live(id.token()) ==> final(self).failed(id.token()) == (old(self).failed(id.token()) || r is Err),
    {
        let i = match self.slot_of(id.r.token) {
            Some(i) => i,
            None => return Err(Error::Closed),
        };
        let mut slot: Option<CallImpl> = None;
        self.calls.set_and_swap(i, &mut slot);
        match slot {
            Some(c) => {
                let mut c = c;
                let r = c.on_write(outcome);
                self.calls.set(i, Some(c));
                proof {
                    assert(self.calls@ =~= old(self).calls@.update(i as int, Some(c)));
                }
                if r.is_err() {
                    self.broken.set(i, true);
                }
                r
            },
            None => Err(Error::Closed),
        }
    }

    /// Decides the next read of the call; see `CallImpl::recv_plan`.
    pub fn call_recv(&mut self, id: &Call) -> (r: Result<RecvPlan, Error>)
        requires
            old(self).wf(),
        ensures
            final(self).wf(),
            final(self).others_kept(old(self), id.token()),
            !old(self).live(id.token()) ==> (r matches Err(Error::Closed)) && *final(self) == *old(self),
            old(self).live(id.token()) ==> final(self).live(id.token()) && CallImpl::plan_effect(&old(self).call_at(id.token()), &final(self).call_at(id.token()), r),
            old(self).live(id.token()) ==> final(self).failed(id.token()) == (old(self).failed(id.token()) || r is Err),
    {
        let i = match self.slot_of(id.r.token) {
            Some(i) => i,
            None => return Err(Error::Closed),
        };
        let mut slot: Option<CallImpl> = None;
        self.calls.set_and_swap(i, &mut slot);
        match slot {
            Some(c) => {
                let mut c = c;
                let r = c.recv_plan();
                self.calls.set(i, Some(c));
                proof {
                    assert(self.calls@ =~= old(self).calls@.update(i as int, Some(c)));
                }
                if r.is_err() {
                    self.broken.set(i, true);
                }
                r
            },
            None => Err(Error::Closed),
        }
    }

    /// Takes the outcome of the read that `call_recv` asked for; see `CallImpl::on_read`.
    pub fn call_read(&mut self, id: &Call, outcome: IoOutcome, data: &[u8]) -> (r: Result<Step<RecvState>, Error>)
        requires
            old(self).wf(),
        ensures
            final(self).wf(),
            final(self).others_kept(old(self), id.token()),
            !old(self).live(id.token()) ==> (r matches Err(Error::Closed)) && *final(self) == *old(self),
            old(self).live(id.token()) ==> final(self).live(id.token()) && (if 0 < CallImpl::read_len(outcome) <= data@.len() {
                CallImpl::read_effect(&old(self).call_at(id.token()), &final(self).call_at(id.token()), CallImpl::read_len(outcome), data@, seq![], seq![], false, r)
            } else {
                CallImpl::read_failure(outcome, data@.len(), r) && final(self).call_at(id.token()) == old(self).call_at(id.token())
            }),
            old(self).live(id.token()) ==> final(self).failed(id.token()) == (old(self).failed(id.token()) || r is Err),
    {
        let i = match self.slot_of(id.r.token) {
            Some(i) => i,
            None => return Err(Error::Closed),
        };
        let mut slot: Option<CallImpl> = None;
        self.calls.set_and_swap(i, &mut slot);
        match slot {
            Some(c) => {
                let mut c = c;
                let r = c.on_read(outcome, data);
                self.calls.set(i, Some(c));
                proof {
                    assert(self.calls@ =~= old(self).calls@.update(i as int, Some(c)));
                }
                if r.is_err() {
                    self.broken.set(i, true);
                }
                r
            },
            None => Err(Error::Closed),
        }
    }

    /// Decides the next read of the call into the caller's buffer `dst`; see
    /// `CallImpl::recv_plan_into`.
    pub fn call_recv_into(&mut self, id: &Call, dst: &mut Vec<u8>) -> (r: Result<RecvPlan, Error>)
        requires
            old(self).wf(),
        ensures
            final(self).wf(),
            final(self).others_kept(old(self), id.token()),
            !old(self).live(id.token()) ==> (r matches Err(Error::Closed)) && *final(self) == *old(self)
                && final(dst)@ == old(dst)@,
            old(self).live(id.token()) ==> final(self).live(id.token())
                && CallImpl::plan_into_effect(&old(self).call_at(id.token()), &final(self).call_at(id.token()), old(dst)@, final(dst)@, r),
            old(self).live(id.token()) ==> final(self).failed(id.token()) == (old(self).failed(id.token()) || r is Err),
    {
        let i = match self.slot_of(id.r.token) {
            Some(i) => i,
            None => return Err(Error::Closed),
        };
        let mut slot: Option<CallImpl> = None;
        self.calls.set_and_swap(i, &mut slot);
        match slot {
            Some(c) => {
                let mut c = c;
                let r = c.recv_plan_into(dst);
                self.calls.set(i, Some(c));
                proof {
                    assert(self.calls@ =~= old(self).calls@.update(i as int, Some(c)));
                }
                if r.is_err() {
                    self.broken.set(i, true);
                }
                r
            },
            None => Err(Error::Closed),
        }
    }

    /// Takes the outcome of the read that `call_recv_into` asked for, with
    /// the caller's buffer `dst`; see `CallImpl::on_read_into`.
    pub fn call_read_into(&mut self, id: &Call, outcome: IoOutcome, data: &[u8], dst: &mut Vec<u8>) -> (r: Result<Step<RecvState>, Error>)
        requires
            old(self).wf(),
        ensures
            final(self).wf(),
            final(self).others_kept(old(self), id.token()),
            !old(self).live(id.token()) ==> (r matches Err(Error::Closed)) && *final(self) == *old(self)
                && final(dst)@ == old(dst)@,
            old(self).live(id.token()) ==> final(self).live(id.token()) && (if 0 < CallImpl::read_len(outcome) <= data@.len() {
                CallImpl::read_effect(&old(self).call_at(id.token()), &final(self).call_at(id.token()), CallImpl::read_len(outcome), data@, old(dst)@, final(dst)@, true, r)
            } else {
                CallImpl::read_failure(outcome, data@.len(), r) && final(self).call_at(id.token()) == old(self).call_at(id.token()) && final(dst)@ == old(dst)@
            }),
            old(self).live(id.token()) ==> final(self).failed(id.token()) == (old(self).failed(id.token()) || r is Err),
    {
        let i = match self.slot_of(id.r.token) {
            Some(i) => i,
            None => return Err(Error::Closed),
        };
        let mut slot: Option<CallImpl> = None;
        self.calls.set_and_swap(i, &mut slot);
        match slot {
            Some(c) => {
                let mut c = c;
                let r = c.on_read_into(outcome, data, dst);
                self.calls.set(i, Some(c));
                proof {
                    assert(self.calls@ =~= old(self).calls@.update(i as int, Some(c)));
                }
                if r.is_err() {
                    self.broken.set(i, true);
                }
                r
            },
            None => Err(Error::Closed),
        }
    }

    /// Body bytes of the call buffered past `off`, if it has a body; once all
    /// of them are consumed they are dropped and `off` is reset. See
    /// `CallImpl::peek_body`.
    pub fn peek_body(&mut self, id: &Call, off: &mut usize) -> (r: &[u8])
        requires
            old(self).wf(),
        ensures
            final(self).wf(),
            final(self).others_kept(old(self), id.token()),
            !old(self).live(id.token()) ==> r@.len() == 0 && *final(self) == *old(self) && *final(off) == *old(off),
            old(self).live(id.token()) ==> final(self).live(id.token()) && ({
                let c = old(self).call_at(id.token());
                let d = final(self).call_at(id.token());
                &&& r@ == if c.body_len() > 0 && c.buffer().len() > c.hdr_len() + *old(off) {
                    c.buffer().subrange(c.hdr_len() + *old(off), c.buffer().len() as int)
                } else {
                    seq![]
                }
                &&& d.phase() == c.phase()
                &&& d.hdr_len() == c.hdr_len()
                &&& if c.body_len() > 0 && c.buffer().len() > c.hdr_len() && c.buffer().len() <= c.hdr_len() + *old(off) {
                    d.buffer() == c.buffer().subrange(0, c.hdr_len() as int) && *final(off) == 0
                } else {
                    d.buffer() == c.buffer() && *final(off) == *old(off)
                }
            }),
    {
        self.try_truncate(id, off);
        match self.slot_of(id.r.token) {
            Some(i) => match &self.calls[i] {
                Some(c) => c.body_after(*off),
                None => &[],
            },
            None => &[],
        }
    }

    /// Drops the call's consumed body bytes; see `CallImpl::try_truncate`.
    pub fn try_truncate(&mut self, id: &Call, off: &mut usize)
        requires
            old(self).wf(),
        ensures
            final(self).wf(),
            final(self).others_kept(old(self), id.token()),
            !old(self).live(id.token()) ==> *final(self) == *old(self) && *final(off) == *old(off),
            old(self).live(id.token()) ==> final(self).live(id.token()) && ({
                let c = old(self).call_at(id.token());
                let d = final(self).call_at(id.token());
                &&& d.phase() == c.phase()
                &&& d.hdr_len() == c.hdr_len()
                &&& d.body_len() == c.body_len()
                &&& if c.body_len() > 0 && c.buffer().len() > c.hdr_len() && c.buffer().len() <= c.hdr_len() + *old(off) {
                    d.buffer() == c.buffer().subrange(0, c.hdr_len() as int) && *final(off) == 0
                } else {
                    d.buffer() == c.buffer() && *final(off) == *old(off)
                }
            }),
            old(self).live(id.token()) ==> final(self).failed(id.token()) == old(self).failed(id.token()),
    {
        let i = match self.slot_of(id.r.token) {
            Some(i) => i,
            None => return ,
        };
        let mut slot: Option<CallImpl> = None;
        self.calls.set_and_swap(i, &mut slot);
        match slot {
            Some(c) => {
                let mut c = c;
                c.try_truncate(off);
                self.calls.set(i, Some(c));
                proof {
                    assert(self.calls@ =~= old(self).calls@.update(i as int, Some(c)));
                }
            },
            None => {},
        }
    }

    /// The call's serialized request head, once built; bytes of a
    /// `SendPlan::Header` window are taken from it.
    pub fn head_bytes(&self, id: &Call) -> (r: &[u8])
        requires
            self.wf(),
        ensures
            !self.live(id.token()) ==> r@.len() == 0,
            self.live(id.token()) ==> r@ == self.call_at(id.token()).buffer(),
    {
        match self.slot_of(id.r.token) {
            Some(i) => match &self.calls[i] {
                Some(c) => c.head_bytes(),
                None => &[],
            },
            None => &[],
        }
    }

    /// The call's request body; bytes of a `SendPlan::Body` window are taken
    /// from it.
    pub fn body_bytes(&self, id: &Call) -> (r: &[u8])
        requires
            self.wf(),
        ensures
            !self.live(id.token()) ==> r@.len() == 0,
            self.live(id.token()) ==> r@ == self.call_at(id.token()).config().req.body@,
    {
        match self.slot_of(id.r.token) {
            Some(i) => match &self.calls[i] {
                Some(c) => c.body_bytes(),
                None => &[],
            },
            None => &[],
        }
    }

    /// Number of calls in flight.
    pub fn open_connections(&self) -> (r: usize)
        ensures
            r == count_open(self.slots()),
    {
        let mut n: usize = 0;
        let mut i: usize = 0;
        assert(self.calls@.subrange(0, 0) =~= Seq::<Option<CallImpl>>::empty());
        while i < self.calls.len()
            invariant
                i <= self.calls@.len(),
                n == count_open(self.calls@.subrange(0, i as int)),
                n <= i,
            decreases self.calls.len() - i,
        {
            assert(self.calls@.subrange(0, i + 1).drop_last() =~= self.calls@.subrange(0, i as int));
            if self.calls[i].is_some() {
                n = n + 1;
            }
            i = i + 1;
        }
        assert(self.calls@.subrange(0, self.calls@.len() as int) =~= self.calls@);
        n
    }

    /// Keeps `buf`, emptied, for a later call, if the pool has room.
    pub fn reuse(&mut self, buf: Vec<u8>)
        requires
            old(self).wf(),
        ensures
            final(self).wf(),
            final(self).slots() == old(self).slots(),
            final(self).offset() == old(self).offset(),
            final(self).cache_limit() == old(self).cache_limit(),
            final(self).broken() == old(self).broken(),
            final(self).spare() == if old(self).spare().len() < old(self).cache_limit() {
                old(self).spare().push(seq![])
            } else {
                old(self).spare()
            },
    {
        let mut buf = buf;
        buf.truncate(0);
        assert(buf@ =~= Seq::<u8>::empty());
        if self.free_bufs.len() < self.cache_buffers {
            self.free_bufs.push(buf);
            assert(self.free_bufs@.last()@ =~= Seq::<u8>::empty());
            assert(self.spare() =~= old(self).spare().push(seq![]));
        }
    }

    fn slot_of(&self, t: usize) -> (r: Option<usize>)
        ensures
            r is Some <==> self.live(t),
            r matches Some(i) ==> i == t - self.offset(),
    {
        if t >= self.con_offset && t - self.con_offset < self.calls.len() {
            let i = t - self.con_offset;
            if self.calls[i].is_some() {
                return Some(i);
            }
        }
        None
    }

    /// The call that a readiness event for token `t` is for, if any.
    pub fn event(&self, t: usize) -> (r: Option<CallRef>)
        ensures
            r is Some <==> self.live(t),
            r matches Some(c) ==> c.token == t,
    {
        match self.slot_of(t) {
            Some(_) => Some(CallRef { token: t }),
            None => None,
        }
    }

    /// Appends to `out` the calls that have run past their timeout at time
    /// `now`, in token order. Nothing is closed.
    pub fn timeout_extend(&self, now: u64, out: &mut Vec<CallRef>)
        requires
            self.wf(),
        ensures
            final(out)@ == old(out)@ + expired_refs(self.slots(), self.offset(), now),
    {
        let mut i: usize = 0;
        assert(self.calls@.subrange(0, 0) =~= Seq::<Option<CallImpl>>::empty());
        assert(old(out)@ + seq![] =~= old(out)@);
        while i < self.calls.len()
            invariant
                self.wf(),
                i <= self.calls@.len(),
                out@ == old(out)@ + expired_refs(self.calls@.subrange(0, i as int), self.offset(), now),
            decreases self.calls.len() - i,
        {
            let ghost pre = self.calls@.subrange(0, i + 1);
            assert(pre.drop_last() =~= self.calls@.subrange(0, i as int));
            match &self.calls[i] {
                Some(c) => {
                    if c.duration(now) > c.settings().timeout_ms && now >= c.start_time() {
                        out.push(CallRef { token: self.con_offset + i });
                    }
                },
                None => {},
            }
            assert(out@ =~= old(out)@ + expired_refs(pre, self.offset(), now));
            i = i + 1;
        }
        assert(self.calls@.subrange(0, self.calls@.len() as int) =~= self.calls@);
    }

    /// The calls that have run past their timeout at time `now`.
    pub fn timeout(&self, now: u64) -> (r: Vec<CallRef>)
        requires
            self.wf(),
        ensures
            r@ == expired_refs(self.slots(), self.offset(), now),
    {
        let mut out: Vec<CallRef> = Vec::new();
        self.timeout_extend(now, &mut out);
        assert(out@ =~= expired_refs(self.slots(), self.offset(), now));
        out
    }
}

proof fn lemma_count_open_full(s: Seq<Option<CallImpl>>)
    ensures
        count_open(s) <= s.len(),
        count_open(s) == s.len() ==> forall|j: int| 0 <= j < s.len() ==> (#[trigger] s[j]) is Some,
    decreases s.len(),
{
    if s.len() > 0 {
        lemma_count_open_full(s.drop_last());
        if count_open(s) == s.len() {
            assert forall|j: int| 0 <= j < s.len() implies (#[trigger] s[j]) is Some by {
                if j < s.len() - 1 {
                    assert(s.drop_last()[j] == s[j]);
                }
            }
        }
    }
}

/// A table with as many calls open as it has slots is full: submitting one
/// more call then fails with `Error::NoSpace` and takes no slot
/// (see `Httpc::call`).
pub proof fn lemma_capacity(h: &Httpc)
    requires
        count_open(h.slots()) == h.capacity(),
    ensures
        h.full(),
{
    lemma_count_open_full(h.slots());
}

/// Buffers kept for reuse hold no bytes: what a closed call received never
/// reaches the next call that takes its buffer.
pub proof fn lemma_spare_buffers_empty(h: &Httpc)
    requires
        h.wf(),
    ensures
        forall|i: int| 0 <= i < h.spare().len() ==> (#[trigger] h.spare()[i]).len() == 0,
{
    assert forall|i: int| 0 <= i < h.spare().len() implies (#[trigger] h.spare()[i]).len() == 0 by {
        assert(h.spare()[i] == h.free_bufs@[i]@);
    }
}

} // verus!
