use mio_httpc::call::{CallImpl, IoOutcome, RecvState, SendState, Step};
use mio_httpc::types::{CallBuilderImpl, Header, Request};
use mio_httpc::tls_api::{
    build_connector, builder_steps, handshake_outcome, BuilderStep, resume_handshake, start_handshake, Handshake, HandshakeError,
    MidHandshakeTlsStream, MidHandshakeTlsStreamImpl, TlsConnector, TlsConnectorBuilder, TlsStream, TlsStreamImpl,
};
use mio_httpc::Error;

struct Plain {
    inner: Vec<u8>,
    shut: bool,
}

impl TlsStreamImpl<Vec<u8>> for Plain {
    fn get_alpn_protocol(&self) -> Option<Vec<u8>> {
        Some(b"http/1.1".to_vec())
    }
    fn shutdown(&mut self) -> Result<(), Error> {
        self.shut = true;
        Ok(())
    }
    fn get_mut(&mut self) -> &mut Vec<u8> {
        &mut self.inner
    }
    fn get_ref(&self) -> &Vec<u8> {
        &self.inner
    }
    fn read(&mut self, buf: &mut Vec<u8>) -> IoOutcome {
        let n = self.inner.len();
        buf.extend_from_slice(&self.inner);
        self.inner.clear();
        IoOutcome::Done(n)
    }
    fn write(&mut self, buf: &[u8]) -> IoOutcome {
        self.inner.extend_from_slice(buf);
        IoOutcome::Done(buf.len())
    }
    fn flush(&mut self) -> Result<(), Error> {
        Ok(())
    }
}

struct Slow {
    left: u32,
    fail: bool,
}

impl MidHandshakeTlsStreamImpl<Vec<u8>> for Slow {
    fn handshake(&mut self) -> Result<TlsStream<Vec<u8>>, Option<Error>> {
        if self.fail {
            return Err(Some(Error::NoTls));
        }
        if self.left == 0 {
            Ok(TlsStream::new(Plain { inner: Vec::new(), shut: false }))
        } else {
            self.left -= 1;
            Err(None)
        }
    }
}

#[test]
fn stream_forwards_to_backend() {
    let mut s = TlsStream::new(Plain { inner: Vec::new(), shut: false });
    assert_eq!(s.write(b"abc"), IoOutcome::Done(3));
    assert_eq!(s.get_ref(), &b"abc".to_vec());
    s.get_mut().push(b'd');
    let mut out = Vec::new();
    assert_eq!(s.read(&mut out), IoOutcome::Done(4));
    assert_eq!(out, b"abcd".to_vec());
    assert_eq!(s.get_alpn_protocol(), Some(b"http/1.1".to_vec()));
    assert_eq!(s.flush(), Ok(()));
    assert_eq!(s.shutdown(), Ok(()));
}

#[test]
fn handshake_resumes_until_ready() {
    let mut pending = MidHandshakeTlsStream::new(Slow { left: 2, fail: false });
    let mut rounds = 0;
    loop {
        match resume_handshake(pending) {
            Ok(Handshake::Ready(_)) => break,
            Ok(Handshake::Pending(m)) => {
                rounds += 1;
                pending = m;
            }
            Err(e) => panic!("{:?}", e),
        }
    }
    assert_eq!(rounds, 2);
}

#[test]
fn handshake_failure_is_fatal() {
    let m = MidHandshakeTlsStream::new(Slow { left: 0, fail: true });
    assert!(matches!(m.handshake(), Err(HandshakeError::Failure(Error::NoTls))));
    let r: Result<TlsStream<Vec<u8>>, HandshakeError<Vec<u8>>> = Err(HandshakeError::Failure(Error::Closed));
    assert!(matches!(handshake_outcome(r), Err(Error::Closed)));
}

struct Builder {
    certs: usize,
    alpn: bool,
    insecure: bool,
}

struct Connector {
    certs: usize,
    alpn: bool,
    insecure: bool,
}

impl TlsConnectorBuilder for Builder {
    type Connector = Connector;
    fn supports_alpn() -> bool {
        true
    }
    fn set_alpn_protocols(&mut self, _protocols: &Vec<Vec<u8>>) -> Result<(), Error> {
        self.alpn = true;
        Ok(())
    }
    fn add_der_certificate(&mut self, cert: &[u8]) -> Result<(), Error> {
        if cert.is_empty() {
            return Err(Error::NoTls);
        }
        self.certs += 1;
        Ok(())
    }
    fn add_pem_certificate(&mut self, _cert: &[u8]) -> Result<(), Error> {
        Ok(())
    }
    fn danger_accept_invalid_certs(&mut self) -> Result<(), Error> {
        self.insecure = true;
        Ok(())
    }
    fn build(self) -> Result<Connector, Error> {
        Ok(Connector { certs: self.certs, alpn: self.alpn, insecure: self.insecure })
    }
}

impl TlsConnector for Connector {
    type Builder = Builder;
    fn supports_alpn() -> bool {
        true
    }
    fn builder() -> Result<Builder, Error> {
        Ok(Builder { certs: 0, alpn: false, insecure: false })
    }
    fn connect<S: 'static>(&self, _domain: &[u8], _stream: S) -> Result<TlsStream<S>, HandshakeError<S>> {
        Err(HandshakeError::Failure(Error::NoTls))
    }
}

#[test]
fn connector_gets_certificates_alpn_and_verification_flag() {
    let c: Connector = build_connector(&vec![b"a".to_vec(), b"b".to_vec()], &vec![b"h2".to_vec()], true).unwrap();
    assert_eq!(c.certs, 2);
    assert!(c.alpn);
    assert!(c.insecure);
    let c: Connector = build_connector(&vec![], &vec![], false).unwrap();
    assert_eq!(c.certs, 0);
    assert!(!c.alpn);
    assert!(!c.insecure);
    assert!(build_connector::<Connector>(&vec![Vec::new()], &vec![], false).is_err());
    assert!(matches!(start_handshake(&c, b"host", 5u8), Err(Error::NoTls)));
}

struct Wire {
    sent: Vec<u8>,
    incoming: Vec<u8>,
    accept: usize,
}

impl TlsStreamImpl<Vec<u8>> for Wire {
    fn get_alpn_protocol(&self) -> Option<Vec<u8>> {
        None
    }
    fn shutdown(&mut self) -> Result<(), Error> {
        Ok(())
    }
    fn get_mut(&mut self) -> &mut Vec<u8> {
        &mut self.incoming
    }
    fn get_ref(&self) -> &Vec<u8> {
        &self.sent
    }
    fn read(&mut self, buf: &mut Vec<u8>) -> IoOutcome {
        if self.incoming.is_empty() {
            return IoOutcome::WouldBlock;
        }
        let n = self.incoming.len();
        buf.extend_from_slice(&self.incoming);
        self.incoming.clear();
        IoOutcome::Done(n)
    }
    fn write(&mut self, buf: &[u8]) -> IoOutcome {
        if self.accept == 0 {
            return IoOutcome::WouldBlock;
        }
        let n = buf.len().min(self.accept);
        self.accept -= n;
        self.sent.extend_from_slice(&buf[..n]);
        IoOutcome::Done(n)
    }
    fn flush(&mut self) -> Result<(), Error> {
        Ok(())
    }
}

#[test]
fn event_steps_drive_a_call_over_a_stream() {
    let req = Request {
        method: b"PUT".to_vec(),
        path: b"/x".to_vec(),
        query: None,
        host: None,
        user: None,
        password: None,
        headers: vec![Header { name: b"user-agent".to_vec(), value: b"t".to_vec() }, Header { name: b"connection".to_vec(), value: b"c".to_vec() }],
        body: b"hello".to_vec(),
    };
    let mut c = CallImpl::new(CallBuilderImpl::new(req), Vec::new(), 0).unwrap();
    let wire = Wire { sent: Vec::new(), incoming: Vec::new(), accept: 71 };
    let mut s = TlsStream::new(wire);
    assert!(matches!(c.event_send(&mut s, b"", None), Ok(Step::Report(SendState::Wait))));
    assert!(matches!(c.event_send(&mut s, b"", None), Ok(Step::Report(SendState::SentBody(3)))));
    assert!(matches!(c.event_send(&mut s, b"", None), Ok(Step::Register(SendState::Wait))));
    assert_eq!(
        String::from_utf8(s.get_ref().clone()).unwrap(),
        "PUT /x HTTP/1.1\r\nuser-agent: t\r\nconnection: c\r\ncontent-length: 5\r\n\r\nhel"
    );
    assert!(matches!(c.event_recv(&mut s), Ok(Step::Report(RecvState::Sending))));
    s.get_mut().extend_from_slice(b"HTTP/1.1 200 OK\r\ncontent-length: 0\r\n\r\n");
    assert!(matches!(c.event_recv(&mut s), Ok(Step::Report(RecvState::Sending))));
}

#[test]
fn builder_steps_list_each_certificate_then_alpn_then_skip() {
    assert_eq!(
        builder_steps(2, true, true, true),
        vec![BuilderStep::AddDer(0), BuilderStep::AddDer(1), BuilderStep::SetAlpn, BuilderStep::AcceptInvalid]
    );
    assert_eq!(builder_steps(1, true, false, false), vec![BuilderStep::AddDer(0)]);
    assert_eq!(builder_steps(0, false, true, true), vec![BuilderStep::AcceptInvalid]);
    assert!(builder_steps(0, false, false, false).is_empty());
}
