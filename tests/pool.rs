use mio_httpc::api::{CallBuilder, Httpc, HttpcCfg, MAX_CONNECTIONS};
use mio_httpc::call::{IoOutcome, RecvPlan, RecvState, SendPlan, SendState, Step};
use mio_httpc::types::{CallBuilderImpl, Request};
use mio_httpc::Error;

fn get(path: &str) -> Request {
    Request {
        method: b"GET".to_vec(),
        path: path.as_bytes().to_vec(),
        query: None,
        host: Some(b"h".to_vec()),
        user: None,
        password: None,
        headers: Vec::new(),
        body: Vec::new(),
    }
}

fn small_pool(n: usize) -> Httpc {
    Httpc::new(100, Some(HttpcCfg { max_connections: n, cache_buffers: 2 }))
}

#[test]
fn one_call_over_capacity_fails_with_no_space() {
    let mut h = small_pool(2);
    let a = h.call(CallBuilderImpl::new(get("/a")), 0).unwrap();
    let b = h.call(CallBuilderImpl::new(get("/b")), 0).unwrap();
    assert_eq!(a.get_ref().token, 100);
    assert_eq!(b.get_ref().token, 101);
    assert_eq!(h.open_connections(), 2);
    assert!(matches!(h.call(CallBuilderImpl::new(get("/c")), 0), Err(Error::NoSpace)));
    assert_eq!(h.open_connections(), 2);
    assert!(h.event(102).is_none());
}

#[test]
fn freed_slot_is_taken_again() {
    let mut h = small_pool(2);
    let a = h.call(CallBuilderImpl::new(get("/a")), 0).unwrap();
    let _b = h.call(CallBuilderImpl::new(get("/b")), 0).unwrap();
    assert!(!h.call_close(a));
    assert_eq!(h.open_connections(), 1);
    let c = h.call(CallBuilderImpl::new(get("/c")), 0).unwrap();
    assert_eq!(c.get_ref().token, 100);
}

#[test]
fn unknown_tokens_give_no_call() {
    let mut h = small_pool(4);
    let a = h.call(CallBuilderImpl::new(get("/a")), 0).unwrap();
    assert_eq!(h.event(100).map(|r| r.token), Some(100));
    assert!(h.event(99).is_none());
    assert!(h.event(101).is_none());
    assert!(h.event(usize::MAX).is_none());
    h.call_close(a);
    assert!(h.event(100).is_none());
}

#[test]
fn default_capacity_is_the_token_range() {
    let h = Httpc::new(0, None);
    assert_eq!(h.open_connections(), 0);
    assert_eq!(MAX_CONNECTIONS, 0xFFFF);
}

#[test]
fn timeout_lists_overdue_calls_only() {
    let mut h = small_pool(3);
    let mut cb = CallBuilder::new(get("/a"));
    cb.timeout_ms(10);
    let a = cb.call(&mut h, 100).unwrap();
    let mut cb = CallBuilder::new(get("/b"));
    cb.timeout_ms(1000);
    let _b = cb.call(&mut h, 100).unwrap();
    assert!(h.timeout(105).is_empty());
    let late = h.timeout(111);
    assert_eq!(late.len(), 1);
    assert!(a.is_ref(late[0]));
    let mut out = Vec::new();
    h.timeout_extend(2000, &mut out);
    assert_eq!(out.len(), 2);
}

fn drive_to_done(h: &mut Httpc, id: &mio_httpc::api::Call, wire: &[u8]) {
    loop {
        match h.call_send(id, None) {
            SendPlan::Header(f, t) => {
                h.call_sent(id, IoOutcome::Done(t - f)).unwrap();
            }
            SendPlan::Finished(SendState::Receiving) => break,
            other => panic!("{:?}", other),
        }
    }
    assert!(matches!(h.call_recv(id), Ok(RecvPlan::Read)));
    assert!(matches!(h.call_read(id, IoOutcome::Done(wire.len()), wire), Ok(Step::Report(RecvState::Response(_, _)))));
}

#[test]
fn closed_call_leaves_an_empty_buffer_for_the_next() {
    let mut h = small_pool(1);
    let a = h.call(CallBuilderImpl::new(get("/a")), 0).unwrap();
    drive_to_done(&mut h, &a, b"HTTP/1.1 200 OK\r\nContent-Length: 0\r\n\r\n");
    assert!(h.call_close(a));
    let b = h.call(CallBuilderImpl::new(get("/b")), 0).unwrap();
    let mut off = 0;
    assert!(h.peek_body(&b, &mut off).is_empty());
    h.try_truncate(&b, &mut off);
    assert_eq!(off, 0);
    h.reuse(vec![1, 2, 3]);
    assert!(!h.call_close(b));
}

#[test]
fn connection_close_response_is_not_kept() {
    let mut h = small_pool(1);
    let a = h.call(CallBuilderImpl::new(get("/a")), 0).unwrap();
    drive_to_done(&mut h, &a, b"HTTP/1.1 200 OK\r\nConnection: close\r\nContent-Length: 0\r\n\r\n");
    assert!(!h.call_close(a));
}

#[test]
fn peek_and_truncate_buffered_body() {
    let mut h = small_pool(1);
    let mut cb = CallBuilder::new(get("/a"));
    cb.chunked_parse(false);
    let a = cb.call(&mut h, 0).unwrap();
    drive_to_done(&mut h, &a, b"HTTP/1.1 200 OK\r\nContent-Length: 10\r\n\r\nabc");
    let mut off = 0;
    assert_eq!(h.peek_body(&a, &mut off), b"abc");
    off = 1;
    assert_eq!(h.peek_body(&a, &mut off), b"bc");
    assert_eq!(off, 1);
    off = 3;
    assert!(h.peek_body(&a, &mut off).is_empty());
    assert_eq!(off, 0);
    assert!(h.peek_body(&a, &mut off).is_empty());
    let mut off = 5;
    h.try_truncate(&a, &mut off);
    assert_eq!(off, 5);
}

#[test]
fn builder_setters_reach_the_call() {
    let mut h = small_pool(1);
    let mut cb = CallBuilder::new(get("/a"));
    cb.max_response(7).dns_retry_ms(9).chunked_max_chunk(11).digest_auth(true).gzip(false).max_redirects(2).insecure_do_not_verify_domain();
    let a = cb.websocket(&mut h, 0).unwrap();
    match h.call_send(&a, None) {
        SendPlan::Header(0, n) => assert!(n > 0),
        other => panic!("{:?}", other),
    }
}

#[test]
fn websocket_key_is_random_base64() {
    let mut h = small_pool(2);
    let a = CallBuilder::new(get("/a")).websocket(&mut h, 0).unwrap();
    let b = CallBuilder::new(get("/b")).websocket(&mut h, 0).unwrap();
    let key_of = |h: &mut Httpc, id: &mio_httpc::api::Call| -> String {
        match h.call_send(id, None) {
            SendPlan::Header(_, _) => {}
            other => panic!("{:?}", other),
        }
        let text = String::from_utf8(h.head_bytes(id).to_vec()).unwrap();
        let line = text.lines().find(|l| l.starts_with("sec-websocket-key: ")).unwrap().to_string();
        line["sec-websocket-key: ".len()..].to_string()
    };
    let ka = key_of(&mut h, &a);
    let kb = key_of(&mut h, &b);
    assert_eq!(ka.len(), 24);
    assert!(ka.ends_with("=="));
    assert_ne!(ka, kb);
}

#[test]
fn failed_call_connection_is_not_kept() {
    let mut h = small_pool(1);
    let a = h.call(CallBuilderImpl::new(get("/a")), 0).unwrap();
    assert!(matches!(h.call_send(&a, None), SendPlan::Header(0, _)));
    assert!(matches!(h.call_sent(&a, IoOutcome::Failed), Err(Error::Io)));
    assert!(!h.call_close(a));
    let b = h.call(CallBuilderImpl::new(get("/b")), 0).unwrap();
    drive_to_done(&mut h, &b, b"HTTP/1.1 200 OK\r\nContent-Length: 0\r\n\r\n");
    assert!(h.call_close(b));
}

#[test]
fn capacity_is_clamped_to_the_token_range() {
    let mut h = Httpc::new(0, Some(HttpcCfg { max_connections: usize::MAX, cache_buffers: 0 }));
    let a = h.call(CallBuilderImpl::new(get("/a")), 0).unwrap();
    assert_eq!(a.get_ref().token, 0);
    assert!(h.event(MAX_CONNECTIONS).is_none());
}
