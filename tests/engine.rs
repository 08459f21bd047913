use mio_httpc::call::{CallImpl, Dir, IoOutcome, RecvPlan, RecvState, ResponseBody, SendPlan, SendState, Step};
use mio_httpc::chunked::ChunkIndex;
use mio_httpc::types::{CallBuilderImpl, Header, Request};
use mio_httpc::Error;

fn request(method: &str, path: &str, headers: &[(&str, &str)], body: &[u8]) -> Request {
    Request {
        method: method.as_bytes().to_vec(),
        path: path.as_bytes().to_vec(),
        query: None,
        host: Some(b"example.com".to_vec()),
        user: None,
        password: None,
        headers: headers
            .iter()
            .map(|(n, v)| Header { name: n.as_bytes().to_vec(), value: v.as_bytes().to_vec() })
            .collect(),
        body: body.to_vec(),
    }
}

fn new_call(req: Request) -> CallImpl {
    CallImpl::new(CallBuilderImpl::new(req), Vec::new(), 0).unwrap()
}

/// Sends the whole request in one write per plan and returns the head bytes.
fn send_all(c: &mut CallImpl) -> Vec<u8> {
    let mut head = Vec::new();
    loop {
        match c.send_plan(None, b"") {
            SendPlan::Header(from, to) => {
                head.extend_from_slice(&c.head_bytes()[from..to]);
                c.on_write(IoOutcome::Done(to - from)).unwrap();
            }
            SendPlan::Body(from, to) => {
                c.on_write(IoOutcome::Done(to - from)).unwrap();
            }
            SendPlan::Finished(SendState::Receiving) => return head,
            other => panic!("unexpected plan {:?}", other),
        }
    }
}

#[test]
fn content_length_body_resumes_after_would_block() {
    let mut c = new_call(request("POST", "/up", &[("content-length", "5")], b"hello"));
    let h = match c.send_plan(None, b"") {
        SendPlan::Header(0, h) => h,
        other => panic!("{:?}", other),
    };
    assert!(matches!(c.on_write(IoOutcome::Done(h)), Ok(Step::Report(SendState::Wait))));
    assert_eq!(c.send_plan(None, b""), SendPlan::Body(0, 5));
    assert!(matches!(c.on_write(IoOutcome::Done(3)), Ok(Step::Report(SendState::SentBody(3)))));
    assert_eq!(c.send_plan(None, b""), SendPlan::Body(3, 5));
    assert!(matches!(c.on_write(IoOutcome::WouldBlock), Ok(Step::Register(SendState::Wait))));
    // the next write-ready event resumes at byte 3
    assert_eq!(c.send_plan(None, b""), SendPlan::Body(3, 5));
    assert_eq!(&c.body_bytes()[3..5], b"lo");
    assert!(matches!(c.on_write(IoOutcome::Done(2)), Ok(Step::Report(SendState::Receiving))));
    assert_eq!(c.send_plan(None, b""), SendPlan::Finished(SendState::Receiving));
}

#[test]
fn body_write_never_exceeds_declared_length() {
    let mut c = new_call(request("POST", "/up", &[("content-length", "3")], b"hello"));
    send_head_only(&mut c);
    assert_eq!(c.send_plan(None, b""), SendPlan::Body(0, 3));
    assert!(c.on_write(IoOutcome::Done(4)).is_err());
}

fn send_head_only(c: &mut CallImpl) {
    if let SendPlan::Header(from, to) = c.send_plan(None, b"") {
        c.on_write(IoOutcome::Done(to - from)).unwrap();
    } else {
        panic!("no head");
    }
}

#[test]
fn request_head_is_serialized_exactly() {
    let mut c = new_call(request("GET", "/a/b", &[("accept", "*/*")], b""));
    let head = send_all(&mut c);
    let want = "GET /a/b HTTP/1.1\r\naccept: */*\r\ncontent-length: 0\r\nuser-agent: mio_httpc 0.1.0\r\nconnection: keep-alive\r\nhost: example.com\r\n\r\n";
    assert_eq!(String::from_utf8(head).unwrap(), want);
}

#[test]
fn request_head_keeps_caller_headers_and_query() {
    let mut r = request("GET", "/s", &[("Host", "other"), ("User-Agent", "x"), ("Connection", "close"), ("Content-Length", "0")], b"");
    r.query = Some(b"q=1".to_vec());
    let mut c = new_call(r);
    let head = send_all(&mut c);
    let want = "GET /s?q=1 HTTP/1.1\r\nHost: other\r\nUser-Agent: x\r\nConnection: close\r\nContent-Length: 0\r\n\r\n";
    assert_eq!(String::from_utf8(head).unwrap(), want);
}

#[test]
fn basic_auth_header_is_base64_of_credentials() {
    let mut r = request("GET", "/", &[("user-agent", "t"), ("connection", "x"), ("host", "h")], b"");
    r.user = Some(b"user".to_vec());
    r.password = Some(b"pass".to_vec());
    let mut c = new_call(r);
    let head = String::from_utf8(send_all(&mut c)).unwrap();
    assert!(head.ends_with("content-length: 0\r\nauthorization: Basic dXNlcjpwYXNz\r\n\r\n"), "{}", head);
}

#[test]
fn websocket_request_carries_upgrade_headers() {
    let mut cb = CallBuilderImpl::new(request("GET", "/ws", &[], b""));
    cb.ws = true;
    let mut c = CallImpl::new(cb, Vec::new(), 0).unwrap();
    assert!(c.needs_head());
    let key = b"dGhlIHNhbXBsZSBub25jZQ==";
    let (from, to) = match c.send_plan(None, key) {
        SendPlan::Header(f, t) => (f, t),
        other => panic!("{:?}", other),
    };
    let head = String::from_utf8(c.head_bytes()[from..to].to_vec()).unwrap();
    assert!(head.contains("connection: upgrade\r\nupgrade: websocket\r\nsec-websocket-key: dGhlIHNhbXBsZSBub25jZQ==\r\nsec-websocket-version: 13\r\n"), "{}", head);
}

fn response_call(body_mode_chunked: bool) -> CallImpl {
    let mut cb = CallBuilderImpl::new(request("GET", "/", &[], b""));
    cb.chunked_parse = body_mode_chunked;
    let mut c = CallImpl::new(cb, Vec::new(), 0).unwrap();
    send_all(&mut c);
    c
}

fn read(c: &mut CallImpl, bytes: &[u8]) -> Result<Step<RecvState>, Error> {
    assert!(matches!(c.recv_plan(), Ok(RecvPlan::Read)));
    c.on_read(IoOutcome::Done(bytes.len()), bytes)
}

#[test]
fn chunked_response_decodes_to_test() {
    let mut c = response_call(true);
    let wire = b"HTTP/1.1 200 OK\r\nTransfer-Encoding: chunked\r\n\r\n4\r\ntest\r\n0\r\n\r\n";
    match read(&mut c, wire) {
        Ok(Step::Report(RecvState::Response(h, ResponseBody::Streamed))) => assert_eq!(h.status, 200),
        other => panic!("{:?}", other),
    }
    match c.recv_plan() {
        Ok(RecvPlan::Finished(RecvState::DoneWithBody(b))) => assert_eq!(b, b"test".to_vec()),
        other => panic!("{:?}", other),
    }
    assert!(c.is_done());
    assert!(matches!(c.recv_plan(), Ok(RecvPlan::Finished(RecvState::Done))));
}

#[test]
fn chunked_response_in_pieces_into_caller_buffer() {
    let mut c = response_call(true);
    let mut dst = Vec::new();
    assert!(matches!(c.recv_plan_into(&mut dst), Ok(RecvPlan::Read)));
    let head = b"HTTP/1.1 200 OK\r\ntransfer-encoding: chunked\r\n\r\n3\r\nab";
    assert!(matches!(c.on_read_into(IoOutcome::Done(head.len()), head, &mut dst), Ok(Step::Report(RecvState::Response(_, ResponseBody::Streamed)))));
    let more = b"c\r\n2\r\nde\r\n0\r\n\r\n";
    assert!(matches!(c.recv_plan_into(&mut dst), Ok(RecvPlan::Read)));
    assert!(matches!(c.on_read_into(IoOutcome::Done(more.len()), more, &mut dst), Ok(Step::Report(RecvState::ReceivedBody(5)))));
    assert_eq!(dst, b"abcde".to_vec());
    assert!(c.is_done());
}

#[test]
fn switching_protocols_enters_duplex() {
    let mut c = response_call(true);
    let wire = b"HTTP/1.1 101 Switching Protocols\r\nUpgrade: websocket\r\n\r\n";
    match read(&mut c, wire) {
        Ok(Step::Report(RecvState::Response(h, ResponseBody::Sized(n)))) => {
            assert_eq!(h.status, 101);
            assert_eq!(n, usize::MAX);
        }
        other => panic!("{:?}", other),
    }
    assert_eq!(c.dir(), Dir::Receiving(0, true));
    // both directions stay open
    assert_eq!(c.send_plan(Some(4), b""), SendPlan::Supplied(4));
    assert!(matches!(c.on_write(IoOutcome::Done(4)), Ok(Step::Report(SendState::SentBody(4)))));
    assert!(matches!(c.recv_plan(), Ok(RecvPlan::Read)));
    assert!(matches!(c.on_read(IoOutcome::Done(2), b"xy"), Ok(Step::Report(RecvState::ReceivedBody(2)))));
    assert_eq!(c.send_plan(None, b""), SendPlan::Finished(SendState::WaitReqBody));
}

#[test]
fn sized_response_is_handed_out_whole() {
    let mut c = response_call(true);
    let wire = b"HTTP/1.1 200 OK\r\nContent-Length: 5\r\nConnection: close\r\n\r\nhel";
    match read(&mut c, wire) {
        Ok(Step::Report(RecvState::Response(_, ResponseBody::Sized(5)))) => {}
        other => panic!("{:?}", other),
    }
    assert!(c.close_after());
    assert!(matches!(read(&mut c, b"lo"), Ok(Step::Report(RecvState::ReceivedBody(2)))));
    match c.recv_plan() {
        Ok(RecvPlan::Finished(RecvState::DoneWithBody(b))) => assert_eq!(b, b"hello".to_vec()),
        other => panic!("{:?}", other),
    }
    assert!(c.is_done());
}

#[test]
fn zero_copy_body_goes_to_caller_buffer() {
    let mut c = response_call(false);
    let wire = b"HTTP/1.1 200 OK\r\nContent-Length: 4\r\n\r\nab";
    assert!(matches!(read(&mut c, wire), Ok(Step::Report(RecvState::Response(_, ResponseBody::Sized(4))))));
    let mut dst = Vec::new();
    assert!(matches!(c.recv_plan_into(&mut dst), Ok(RecvPlan::ReadInto)));
    assert_eq!(dst, b"ab".to_vec());
    assert!(matches!(c.on_read_into(IoOutcome::Done(2), b"cd", &mut dst), Ok(Step::Report(RecvState::ReceivedBody(2)))));
    assert_eq!(dst, b"abcd".to_vec());
    assert!(c.is_done());
}

#[test]
fn empty_body_response_is_done_at_once() {
    let mut c = response_call(true);
    let wire = b"HTTP/1.1 204 No Content\r\nContent-Length: 0\r\n\r\n";
    assert!(matches!(read(&mut c, wire), Ok(Step::Report(RecvState::Response(_, ResponseBody::Sized(0))))));
    assert!(c.is_done());
}

#[test]
fn partial_head_asks_for_more() {
    let mut c = response_call(true);
    assert!(matches!(read(&mut c, b"HTTP/1.1 200 OK\r\nContent-"), Ok(Step::Retry)));
    assert!(matches!(read(&mut c, b"Length: 1\r\n\r\nz"), Ok(Step::Report(RecvState::Response(_, ResponseBody::Sized(1))))));
}

#[test]
fn malformed_head_is_a_parse_error() {
    let mut c = response_call(true);
    assert!(matches!(read(&mut c, b"HTTP/1.1 2x0 OK\r\n\r\n"), Err(Error::Httparse)));
}

#[test]
fn response_over_limit_is_refused() {
    let mut cb = CallBuilderImpl::new(request("GET", "/", &[], b""));
    cb.max_response = 8;
    let mut c = CallImpl::new(cb, Vec::new(), 0).unwrap();
    send_all(&mut c);
    assert!(matches!(read(&mut c, b"HTTP/1.1 "), Ok(Step::Retry)));
    assert!(matches!(c.recv_plan(), Err(Error::ResponseTooBig)));
}

#[test]
fn io_outcomes_map_to_steps_and_errors() {
    let mut c = response_call(true);
    assert!(matches!(c.on_read(IoOutcome::WouldBlock, b""), Ok(Step::Register(RecvState::Wait))));
    assert!(matches!(c.on_read(IoOutcome::Interrupted, b""), Ok(Step::Retry)));
    assert!(matches!(c.on_read(IoOutcome::Done(0), b""), Err(Error::Closed)));
    assert!(matches!(c.on_read(IoOutcome::Failed, b""), Err(Error::Io)));
    let mut s = new_call(request("GET", "/", &[], b""));
    let _ = s.send_plan(None, b"");
    assert!(matches!(s.on_write(IoOutcome::Done(0)), Err(Error::Closed)));
    assert!(matches!(s.on_write(IoOutcome::NotConnected), Ok(Step::Report(SendState::Wait))));
    assert!(matches!(s.on_write(IoOutcome::Failed), Err(Error::Io)));
}

#[test]
fn done_call_stays_done() {
    let mut c = response_call(true);
    assert!(matches!(read(&mut c, b"HTTP/1.1 200 OK\r\nContent-Length: 0\r\n\r\n"), Ok(_)));
    for _ in 0..3 {
        assert_eq!(c.send_plan(Some(3), b""), SendPlan::Finished(SendState::Done));
        assert!(matches!(c.recv_plan(), Ok(RecvPlan::Finished(RecvState::Done))));
        assert!(matches!(c.on_read(IoOutcome::Done(1), b"x"), Ok(Step::Report(RecvState::Done))));
    }
}

#[test]
fn invalid_request_length_is_refused() {
    assert!(CallImpl::new(CallBuilderImpl::new(request("POST", "/", &[("content-length", "5x")], b"hello")), Vec::new(), 0).is_none());
}

#[test]
fn chunked_decoding_is_split_invariant() {
    let wire = b"3\r\nabc\r\n5\r\ndefgh\r\n0\r\n\r\n";
    let mut whole = Vec::new();
    let mut idx = ChunkIndex::new();
    assert_eq!(idx.push_to(16, wire, 0, &mut whole), Ok(8));
    for cut in 0..wire.len() {
        let mut out = Vec::new();
        let mut idx = ChunkIndex::new();
        idx.push_to(16, &wire[..cut], 0, &mut out).unwrap();
        idx.push_to(16, wire, 0, &mut out).unwrap();
        assert_eq!(out, whole, "cut at {}", cut);
    }
    assert_eq!(ChunkIndex::new().check_done(16, wire, 0), Ok(true));
    assert_eq!(ChunkIndex::new().check_done(16, &wire[..wire.len() - 1], 0), Ok(false));
}

#[test]
fn chunk_over_limit_fails_without_output() {
    let mut out = b"x".to_vec();
    let mut idx = ChunkIndex::new();
    assert_eq!(idx.push_to(3, b"4\r\ntest\r\n", 0, &mut out), Err(Error::ChunkOverlimit(3)));
    assert_eq!(out, b"x".to_vec());
    let mut out = Vec::new();
    let mut idx = ChunkIndex::new();
    assert_eq!(idx.push_to(3, b"2\r\nab\r\nffffffffffffffffffff", 0, &mut out), Err(Error::ChunkOverlimit(3)));
    assert_eq!(out, b"ab".to_vec());
}

#[test]
fn malformed_chunk_line_is_a_parse_error() {
    let mut out = Vec::new();
    assert_eq!(ChunkIndex::new().push_to(16, b"zz\r\n", 0, &mut out), Err(Error::ChunkedParse));
    assert_eq!(ChunkIndex::new().push_to(16, b"2\r\nabXY", 0, &mut out), Err(Error::ChunkedParse));
    assert_eq!(ChunkIndex::new().push_to(16, b"A\r\n0123", 0, &mut out), Ok(0));
}

#[test]
fn chunk_trailers_end_the_body() {
    let wire = b"0\r\nX-Sum: 1\r\n\r\n";
    assert_eq!(ChunkIndex::new().check_done(16, wire, 0), Ok(true));
    assert_eq!(ChunkIndex::new().check_done(16, &wire[..wire.len() - 2], 0), Ok(false));
}

#[test]
fn content_length_is_written_in_decimal() {
    let mut c = new_call(request("POST", "/", &[("user-agent", "u"), ("connection", "k")], b"0123456789ab"));
    let (from, to) = match c.send_plan(None, b"") {
        SendPlan::Header(f, t) => (f, t),
        other => panic!("{:?}", other),
    };
    let head = String::from_utf8(c.head_bytes()[from..to].to_vec()).unwrap();
    assert_eq!(head, "POST / HTTP/1.1\r\nuser-agent: u\r\nconnection: k\r\ncontent-length: 12\r\nhost: example.com\r\n\r\n");
}

#[test]
fn caller_streams_the_body_up_to_the_declared_length() {
    let mut c = new_call(request("POST", "/", &[("content-length", "4")], b""));
    send_head_only(&mut c);
    assert_eq!(c.send_plan(None, b""), SendPlan::Finished(SendState::WaitReqBody));
    assert_eq!(c.send_plan(Some(3), b""), SendPlan::Supplied(3));
    assert!(matches!(c.on_write(IoOutcome::Done(3)), Ok(Step::Report(SendState::SentBody(3)))));
    assert_eq!(c.send_plan(Some(10), b""), SendPlan::Supplied(1));
    assert!(matches!(c.on_write(IoOutcome::Done(1)), Ok(Step::Report(SendState::Receiving))));
}

#[test]
fn websocket_keeps_a_caller_connection_header() {
    let mut cb = CallBuilderImpl::new(request("GET", "/ws", &[("connection", "Upgrade")], b""));
    cb.ws = true;
    let mut c = CallImpl::new(cb, Vec::new(), 0).unwrap();
    let (from, to) = match c.send_plan(None, b"k") {
        SendPlan::Header(f, t) => (f, t),
        other => panic!("{:?}", other),
    };
    let head = String::from_utf8(c.head_bytes()[from..to].to_vec()).unwrap();
    assert!(!head.contains("connection: upgrade"), "{}", head);
    assert!(head.contains("connection: Upgrade\r\n"));
    assert!(head.contains("upgrade: websocket\r\nsec-websocket-key: k\r\nsec-websocket-version: 13\r\n"));
}

#[test]
fn failed_writes_leave_the_call_unchanged() {
    let mut c = new_call(request("GET", "/", &[], b""));
    let (from, to) = match c.send_plan(None, b"") {
        SendPlan::Header(f, t) => (f, t),
        other => panic!("{:?}", other),
    };
    assert!(matches!(c.on_write(IoOutcome::Done(0)), Err(Error::Closed)));
    assert_eq!(c.dir(), Dir::SendingHdr(0));
    assert!(matches!(c.on_write(IoOutcome::Done(to - from + 1)), Err(Error::Io)));
    assert_eq!(c.dir(), Dir::SendingHdr(0));
    assert!(matches!(c.on_write(IoOutcome::Done(2)), Ok(Step::Report(SendState::Wait))));
    assert_eq!(c.dir(), Dir::SendingHdr(2));
    assert_eq!(c.send_plan(None, b""), SendPlan::Header(2, to));
}
