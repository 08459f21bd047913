//! Serialization of the request head.
use vstd::prelude::*;
use vstd::string::StringSliceAdditionalSpecFns;
use crate::types::{Request, Header, view_headers, find_header, decimal, header_index, append_bytes, append_decimal};
use crate::bindings::{base64_of, base64_encode};

verus! {

pub open spec fn crlf() -> Seq<u8> {
    "\r\n".spec_bytes()
}

/// `name: value` lines for each header, in order.
pub open spec fn header_lines(hs: Seq<(Seq<u8>, Seq<u8>)>) -> Seq<u8>
    decreases hs.len(),
{
    if hs.len() == 0 {
        seq![]
    } else {
        header_lines(hs.drop_last()) + hs.last().0 + ": ".spec_bytes() + hs.last().1 + crlf()
    }
}

pub open spec fn request_line(req: Request) -> Seq<u8> {
    req.method@ + " ".spec_bytes() + req.path@ + match req.query {
        Some(q) => "?".spec_bytes() + q@,
        None => seq![],
    } + " HTTP/1.1\r\n".spec_bytes()
}

/// The user and password joined for basic authorization.
pub open spec fn credentials(req: Request) -> Option<Seq<u8>> {
    match (req.user, req.password) {
        (Some(u), Some(p)) => Some(u@ + ":".spec_bytes() + p@),
        _ => None,
    }
}

pub open spec fn lacks(req: Request, name: &str) -> bool {
    find_header(view_headers(req.headers@), name.spec_bytes()) is None
}

/// A `content-length` line for the body, unless the request declares one.
pub open spec fn length_line(req: Request) -> Seq<u8> {
    if lacks(req, "content-length") {
        "content-length: ".spec_bytes() + decimal(req.body@.len()) + crlf()
    } else {
        seq![]
    }
}

/// A `user-agent` line naming this package and its version, unless the
/// request has one.
pub open spec fn agent_line(req: Request) -> Seq<u8> {
    if lacks(req, "user-agent") {
        "user-agent: mio_httpc 0.1.0\r\n".spec_bytes()
    } else {
        seq![]
    }
}

/// The upgrade headers in websocket mode, else a keep-alive line; either
/// way a `connection` line only when the request has none.
pub open spec fn connection_lines(req: Request, ws: bool, key: Seq<u8>) -> Seq<u8> {
    if ws {
        (if lacks(req, "connection") { "connection: upgrade\r\n".spec_bytes() } else { seq![] })
            + "upgrade: websocket\r\n".spec_bytes()
            + "sec-websocket-key: ".spec_bytes() + key + crlf()
            + "sec-websocket-version: 13\r\n".spec_bytes()
    } else if lacks(req, "connection") {
        "connection: keep-alive\r\n".spec_bytes()
    } else {
        seq![]
    }
}

pub open spec fn host_line(req: Request) -> Seq<u8> {
    match req.host {
        Some(h) => if lacks(req, "host") {
            "host: ".spec_bytes() + h@ + crlf()
        } else {
            seq![]
        },
        None => seq![],
    }
}

pub open spec fn auth_line(req: Request) -> Seq<u8> {
    match credentials(req) {
        Some(c) => if c.len() <= usize::MAX / 512 {
            "authorization: Basic ".spec_bytes() + base64_of(c) + crlf()
        } else {
            seq![]
        },
        None => seq![],
    }
}

/// The complete request head: request line, the request's header lines,
/// the lines the engine adds, and the empty line.
pub open spec fn request_head(req: Request, ws: bool, key: Seq<u8>) -> Seq<u8> {
    request_line(req) + header_lines(view_headers(req.headers@)) + length_line(req) + agent_line(req)
        + connection_lines(req, ws, key) + host_line(req) + auth_line(req) + crlf()
}

fn append_header_lines(dst: &mut Vec<u8>, hs: &Vec<Header>)
    ensures
        final(dst)@ == old(dst)@ + header_lines(view_headers(hs@)),
{
    let mut i: usize = 0;
    while i < hs.len()
        invariant
            i <= hs@.len(),
            dst@ == old(dst)@ + header_lines(view_headers(hs@.subrange(0, i as int))),
        decreases hs.len() - i,
    {
        append_bytes(dst, hs[i].name.as_slice());
        append_bytes(dst, ": ".as_bytes());
        append_bytes(dst, hs[i].value.as_slice());
        append_bytes(dst, "\r\n".as_bytes());
        proof {
            let v = view_headers(hs@.subrange(0, i + 1));
            assert(v.drop_last() =~= view_headers(hs@.subrange(0, i as int)));
            assert(v.last() == (hs@[i as int].name@, hs@[i as int].value@));
            assert(dst@ =~= old(dst)@ + header_lines(v));
        }
        i = i + 1;
    }
    assert(hs@.subrange(0, hs@.len() as int) =~= hs@);
}

fn append_request_line(dst: &mut Vec<u8>, req: &Request)
    ensures
        final(dst)@ == old(dst)@ + request_line(*req),
{
    append_bytes(dst, req.method.as_slice());
    append_bytes(dst, " ".as_bytes());
    append_bytes(dst, req.path.as_slice());
    match &req.query {
        Some(q) => {
            append_bytes(dst, "?".as_bytes());
            append_bytes(dst, q.as_slice());
        },
        None => {},
    }
    append_bytes(dst, " HTTP/1.1\r\n".as_bytes());
    assert(dst@ =~= old(dst)@ + request_line(*req));
}

fn append_length_line(dst: &mut Vec<u8>, req: &Request)
    ensures
        final(dst)@ == old(dst)@ + length_line(*req),
{
    if header_index(&req.headers, "content-length".as_bytes()).is_none() {
        append_bytes(dst, "content-length: ".as_bytes());
        append_decimal(dst, req.body.len());
        append_bytes(dst, "\r\n".as_bytes());
        assert(dst@ =~= old(dst)@ + length_line(*req));
    } else {
        assert(dst@ =~= old(dst)@ + length_line(*req));
    }
}

fn append_agent_line(dst: &mut Vec<u8>, req: &Request)
    ensures
        final(dst)@ == old(dst)@ + agent_line(*req),
{
    if header_index(&req.headers, "user-agent".as_bytes()).is_none() {
        append_bytes(dst, "user-agent: mio_httpc 0.1.0\r\n".as_bytes());
    } else {
        assert(dst@ =~= old(dst)@ + agent_line(*req));
    }
}

fn append_connection_lines(dst: &mut Vec<u8>, req: &Request, ws: bool, key: &[u8])
    ensures
        final(dst)@ == old(dst)@ + connection_lines(*req, ws, key@),
{
    if ws {
        if header_index(&req.headers, "connection".as_bytes()).is_none() {
            append_bytes(dst, "connection: upgrade\r\n".as_bytes());
        }
        append_bytes(dst, "upgrade: websocket\r\n".as_bytes());
        append_bytes(dst, "sec-websocket-key: ".as_bytes());
        append_bytes(dst, key);
        append_bytes(dst, "\r\n".as_bytes());
        append_bytes(dst, "sec-websocket-version: 13\r\n".as_bytes());
        assert(dst@ =~= old(dst)@ + connection_lines(*req, ws, key@));
    } else if header_index(&req.headers, "connection".as_bytes()).is_none() {
        append_bytes(dst, "connection: keep-alive\r\n".as_bytes());
    } else {
        assert(dst@ =~= old(dst)@ + connection_lines(*req, ws, key@));
    }
}

fn append_host_line(dst: &mut Vec<u8>, req: &Request)
    ensures
        final(dst)@ == old(dst)@ + host_line(*req),
{
    match &req.host {
        Some(h) => {
            if header_index(&req.headers, "host".as_bytes()).is_none() {
                append_bytes(dst, "host: ".as_bytes());
                append_bytes(dst, h.as_slice());
                append_bytes(dst, "\r\n".as_bytes());
                assert(dst@ =~= old(dst)@ + host_line(*req));
            } else {
                assert(dst@ =~= old(dst)@ + host_line(*req));
            }
        },
        None => {
            assert(dst@ =~= old(dst)@ + host_line(*req));
        },
    }
}

fn append_auth_line(dst: &mut Vec<u8>, req: &Request)
    ensures
        final(dst)@ == old(dst)@ + auth_line(*req),
{
    match (&req.user, &req.password) {
        (Some(u), Some(p)) => {
            let mut c: Vec<u8> = Vec::new();
            append_bytes(&mut c, u.as_slice());
            append_bytes(&mut c, ":".as_bytes());
            append_bytes(&mut c, p.as_slice());
            assert(c@ =~= u@ + ":".spec_bytes() + p@);
            if c.len() <= usize::MAX / 512 {
                let enc = base64_encode(c.as_slice());
                append_bytes(dst, "authorization: Basic ".as_bytes());
                append_bytes(dst, enc.as_slice());
                append_bytes(dst, "\r\n".as_bytes());
                assert(dst@ =~= old(dst)@ + auth_line(*req));
            } else {
                assert(dst@ =~= old(dst)@ + auth_line(*req));
            }
        },
        _ => {
            assert(dst@ =~= old(dst)@ + auth_line(*req));
        },
    }
}

/// Appends the request head for `req` to `dst`. In websocket mode `key` is
/// the encoded handshake key.
pub fn fill_send_req(req: &Request, ws: bool, key: &[u8], dst: &mut Vec<u8>)
    ensures
        final(dst)@ == old(dst)@ + request_head(*req, ws, key@),
{
    let ghost d0 = dst@;
    append_request_line(dst, req);
    append_header_lines(dst, &req.headers);
    append_length_line(dst, req);
    append_agent_line(dst, req);
    append_connection_lines(dst, req, ws, key);
    append_host_line(dst, req);
    append_auth_line(dst, req);
    let ghost d7 = dst@;
    append_bytes(dst, "\r\n".as_bytes());
    proof {
        let l = request_line(*req);
        let h = header_lines(view_headers(req.headers@));
        let c = length_line(*req);
        let a = agent_line(*req);
        let k = connection_lines(*req, ws, key@);
        let o = host_line(*req);
        let u = auth_line(*req);
        assert(d7 == d0 + l + h + c + a + k + o + u);
        assert(dst@ =~= d0 + (l + h + c + a + k + o + u + crlf()));
    }
}

} // verus!
