//! The capability interface that TLS backends implement. The engine drives
//! handshakes and encrypted I/O through it only, so backends are
//! interchangeable.
use vstd::prelude::*;
use crate::Error;
use crate::call::IoOutcome;

verus! {

/// An established, possibly encrypting, stream over an underlying stream `S`.
pub trait TlsStreamImpl<S> {
    /// The negotiated ALPN protocol, if any.
    fn get_alpn_protocol(&self) -> Option<Vec<u8>>;

    fn shutdown(&mut self) -> Result<(), Error>;

    fn get_mut(&mut self) -> &mut S;

    fn get_ref(&self) -> &S;

    /// Reads into `buf`.
    fn read(&mut self, buf: &mut Vec<u8>) -> IoOutcome;

    /// Writes from `buf`.
    fn write(&mut self, buf: &[u8]) -> IoOutcome;

    fn flush(&mut self) -> Result<(), Error>;
}

/// A stream of whichever backend made it.
#[verifier::reject_recursive_types(S)]
pub struct TlsStream<S> {
    imp: Box<dyn TlsStreamImpl<S>>,
}

impl<S> TlsStream<S> {
    pub fn new<I: TlsStreamImpl<S> + 'static>(imp: I) -> (r: TlsStream<S>) {
        TlsStream { imp: Box::new(imp) }
    }

    pub fn shutdown(&mut self) -> (r: Result<(), Error>) {
        self.imp.shutdown()
    }

    pub fn get_mut(&mut self) -> (r: &mut S) {
        self.imp.get_mut()
    }

    pub fn get_ref(&self) -> (r: &S) {
        self.imp.get_ref()
    }

    pub fn get_alpn_protocol(&self) -> (r: Option<Vec<u8>>) {
        self.imp.get_alpn_protocol()
    }

    pub fn read(&mut self, buf: &mut Vec<u8>) -> (r: IoOutcome) {
        self.imp.read(buf)
    }

    pub fn write(&mut self, buf: &[u8]) -> (r: IoOutcome) {
        self.imp.write(buf)
    }

    pub fn flush(&mut self) -> (r: Result<(), Error>) {
        self.imp.flush()
    }
}

/// A handshake that stopped because the underlying stream would block.
pub trait MidHandshakeTlsStreamImpl<S> {
    /// Resumes the handshake on the same underlying stream: the stream when
    /// it completes, `Err(None)` when the underlying stream would block
    /// again, `Err(Some(e))` when it failed.
    fn handshake(&mut self) -> Result<TlsStream<S>, Option<Error>>;
}

/// A resumable handshake of whichever backend made it.
#[verifier::reject_recursive_types(S)]
pub struct MidHandshakeTlsStream<S> {
    imp: Box<dyn MidHandshakeTlsStreamImpl<S>>,
}

impl<S> MidHandshakeTlsStream<S> {
    pub fn new<I: MidHandshakeTlsStreamImpl<S> + 'static>(stream: I) -> (r: MidHandshakeTlsStream<S>) {
        MidHandshakeTlsStream { imp: Box::new(stream) }
    }

    /// Resumes the handshake; when the stream would block again, the
    /// handshake comes back in `HandshakeError::Interrupted` with its
    /// progress kept.
    pub fn handshake(self) -> (r: Result<TlsStream<S>, HandshakeError<S>>) {
        let mut s = self;
        match s.imp.handshake() {
            Ok(t) => Ok(t),
            Err(Some(e)) => Err(HandshakeError::Failure(e)),
            Err(None) => Err(HandshakeError::Interrupted(s)),
        }
    }
}

/// Why a handshake did not complete.
#[verifier::reject_recursive_types(S)]
pub enum HandshakeError<S> {
    /// A fatal error.
    Failure(Error),
    /// The underlying stream would block; resume later with `handshake`.
    Interrupted(MidHandshakeTlsStream<S>),
}

/// Builds connectors of one backend.
pub trait TlsConnectorBuilder: Sized {
    type Connector;

    fn supports_alpn() -> bool;

    fn set_alpn_protocols(&mut self, protocols: &Vec<Vec<u8>>) -> Result<(), Error>;

    fn add_der_certificate(&mut self, cert: &[u8]) -> Result<(), Error>;

    fn add_pem_certificate(&mut self, cert: &[u8]) -> Result<(), Error>;

    fn danger_accept_invalid_certs(&mut self) -> Result<(), Error>;

    fn build(self) -> Result<Self::Connector, Error>;
}

/// The client side of one backend.
pub trait TlsConnector: Sized {
    type Builder: TlsConnectorBuilder<Connector = Self>;

    fn supports_alpn() -> bool;

    fn builder() -> Result<Self::Builder, Error>;

    /// Starts a handshake with `domain` over `stream`.
    fn connect<S: 'static>(&self, domain: &[u8], stream: S) -> Result<TlsStream<S>, HandshakeError<S>>;
}

/// Builds acceptors of one backend.
pub trait TlsAcceptorBuilder: Sized {
    type Acceptor;

    fn supports_alpn() -> bool;

    fn set_alpn_protocols(&mut self, protocols: &Vec<Vec<u8>>) -> Result<(), Error>;

    fn build(self) -> Result<Self::Acceptor, Error>;
}

/// The server side of one backend.
pub trait TlsAcceptor: Sized {
    type Builder: TlsAcceptorBuilder<Acceptor = Self>;

    fn supports_alpn() -> bool;

    fn accept<S: 'static>(&self, stream: S) -> Result<TlsStream<S>, HandshakeError<S>>;
}

/// What a handshake step leaves the host with.
#[verifier::reject_recursive_types(S)]
pub enum Handshake<S> {
    /// The stream is ready.
    Ready(TlsStream<S>),
    /// Register for readiness and resume with `resume_handshake`.
    Pending(MidHandshakeTlsStream<S>),
}

/// Classifies the outcome of a handshake attempt: a stream that would block
/// keeps its progress, a failure is fatal.
pub fn handshake_outcome<S>(res: Result<TlsStream<S>, HandshakeError<S>>) -> (r: Result<Handshake<S>, Error>)
    ensures
        res is Ok <==> r matches Ok(Handshake::Ready(_)),
        (res matches Err(HandshakeError::Interrupted(_))) <==> (r matches Ok(Handshake::Pending(_))),
        res matches Err(HandshakeError::Failure(e)) ==> r == Err::<Handshake<S>, Error>(e),
{
    match res {
        Ok(s) => Ok(Handshake::Ready(s)),
        Err(HandshakeError::Interrupted(m)) => Ok(Handshake::Pending(m)),
        Err(HandshakeError::Failure(e)) => Err(e),
    }
}

/// Resumes a pending handshake.
pub fn resume_handshake<S>(m: MidHandshakeTlsStream<S>) -> (r: Result<Handshake<S>, Error>) {
    handshake_outcome(m.handshake())
}

/// Starts a handshake with `domain` over `stream`.
pub fn start_handshake<C: TlsConnector, S: 'static>(c: &C, domain: &[u8], stream: S) -> (r: Result<Handshake<S>, Error>) {
    handshake_outcome(c.connect(domain, stream))
}

/// One configuration call made on a connector builder.
#[derive(PartialEq, Eq, Structural, Clone, Copy, Debug)]
pub enum BuilderStep {
    /// Trust the DER certificate of this index.
    AddDer(usize),
    /// Offer the ALPN protocols.
    SetAlpn,
    /// Skip verification of the peer.
    AcceptInvalid,
}

/// Trust each of the first `n` certificates, in order.
pub open spec fn der_steps(n: nat) -> Seq<BuilderStep>
    decreases n,
{
    if n == 0 {
        seq![]
    } else {
        der_steps((n - 1) as nat).push(BuilderStep::AddDer((n - 1) as usize))
    }
}

/// The calls a connector builder gets: every certificate in order, the
/// ALPN list when there is one and the backend supports ALPN, then the
/// verification skip when asked for.
pub open spec fn builder_plan(n_certs: nat, has_alpn: bool, supports_alpn: bool, insecure: bool) -> Seq<BuilderStep> {
    der_steps(n_certs)
        + (if has_alpn && supports_alpn { seq![BuilderStep::SetAlpn] } else { seq![] })
        + (if insecure { seq![BuilderStep::AcceptInvalid] } else { seq![] })
}

proof fn lemma_der_steps(n: nat)
    requires
        n <= usize::MAX,
    ensures
        der_steps(n).len() == n,
        forall|k: int| 0 <= k < n ==> #[trigger] der_steps(n)[k] == BuilderStep::AddDer(k as usize),
    decreases n,
{
    if n > 0 {
        lemma_der_steps((n - 1) as nat);
    }
}

/// The calls to make on a connector builder, in order; see `builder_plan`.
pub fn builder_steps(n_certs: usize, has_alpn: bool, supports_alpn: bool, insecure: bool) -> (r: Vec<BuilderStep>)
    ensures
        r@ == builder_plan(n_certs as nat, has_alpn, supports_alpn, insecure),
{
    let mut r: Vec<BuilderStep> = Vec::new();
    let mut i: usize = 0;
    while i < n_certs
        invariant
            i <= n_certs,
            r@ == der_steps(i as nat),
        decreases n_certs - i,
    {
        r.push(BuilderStep::AddDer(i));
        i = i + 1;
    }
    if has_alpn && supports_alpn {
        r.push(BuilderStep::SetAlpn);
    }
    if insecure {
        r.push(BuilderStep::AcceptInvalid);
    }
    assert(r@ =~= builder_plan(n_certs as nat, has_alpn, supports_alpn, insecure));
    r
}

/// Builds a connector of backend `C` that trusts the DER certificates
/// `certs`, offers the ALPN protocols `alpn` where the backend supports
/// them, and skips verification of the peer when `insecure`: it makes on
/// the backend's builder exactly the calls of `builder_steps`, in order,
/// then builds. The first error of the backend stops the build.
pub fn build_connector<C: TlsConnector>(certs: &Vec<Vec<u8>>, alpn: &Vec<Vec<u8>>, insecure: bool) -> (r: Result<C, Error>) {
    let mut b = C::builder()?;
    let supports = C::Builder::supports_alpn();
    let steps = builder_steps(certs.len(), alpn.len() > 0, supports, insecure);
    proof {
        lemma_der_steps(certs@.len());
    }
    let mut k: usize = 0;
    while k < steps.len()
        invariant
            steps@ == builder_plan(certs@.len(), alpn@.len() > 0, supports, insecure),
            der_steps(certs@.len()).len() == certs@.len(),
            forall|j: int| 0 <= j < certs@.len() ==> #[trigger] der_steps(certs@.len())[j] == BuilderStep::AddDer(j as usize),
        decreases steps.len() - k,
    {
        match steps[k] {
            BuilderStep::AddDer(i) => {
                assert(i < certs@.len()) by {
                    if k as int >= certs@.len() {
                        assert(steps@[k as int] != BuilderStep::AddDer(i));
                    } else {
                        assert(steps@[k as int] == der_steps(certs@.len())[k as int]);
                    }
                }
                b.add_der_certificate(certs[i].as_slice())?;
            },
            BuilderStep::SetAlpn => {
                b.set_alpn_protocols(alpn)?;
            },
            BuilderStep::AcceptInvalid => {
                b.danger_accept_invalid_certs()?;
            },
        }
        k = k + 1;
    }
    b.build()
}

} // verus!
