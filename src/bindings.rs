//! Calls into outside crates, each behind a contract.
use vstd::prelude::*;
use crate::types::{Header, view_headers};
use byteorder::ByteOrder;

verus! {

/// Standard base64 (with padding) of a byte string.
pub uninterp spec fn base64_of(b: Seq<u8>) -> Seq<u8>;

/// Relies on `data_encoding::BASE64.encode`: the padded standard encoding,
/// four characters for every started group of three bytes. It asserts that
/// the input length is at most `usize::MAX / 512`.
#[verifier::external_body]
pub(crate) fn base64_encode(b: &[u8]) -> (r: Vec<u8>)
    requires
        b@.len() <= usize::MAX / 512,
    ensures
        r@ == base64_of(b@),
        r@.len() == 4 * ((b@.len() + 2) / 3),
{
    data_encoding::BASE64.encode(b).into_bytes()
}

/// The eight bytes of `n`, least significant first.
pub open spec fn le_bytes(n: u64) -> Seq<u8> {
    seq![
        (n % 0x100) as u8,
        ((n / 0x100) % 0x100) as u8,
        ((n / 0x10000) % 0x100) as u8,
        ((n / 0x1000000) % 0x100) as u8,
        ((n / 0x100000000) % 0x100) as u8,
        ((n / 0x10000000000) % 0x100) as u8,
        ((n / 0x1000000000000) % 0x100) as u8,
        ((n / 0x100000000000000) % 0x100) as u8,
    ]
}

/// Relies on `byteorder::LittleEndian::write_u64`: writes the little-endian
/// bytes of `n` into the first eight bytes of the buffer.
#[verifier::external_body]
pub(crate) fn write_u64_le(n: u64) -> (r: Vec<u8>)
    ensures
        r@ == le_bytes(n),
{
    let mut ar = [0u8; 8];
    byteorder::LittleEndian::write_u64(&mut ar, n);
    ar.to_vec()
}

/// Relies on `rand::random::<u64>`: a value from the thread-local generator.
/// Nothing is known of it; the value only serves as websocket key material.
#[verifier::external_body]
pub(crate) fn random_u64() -> (r: u64) {
    rand::random::<u64>()
}

/// What the response head parser makes of a buffer.
pub enum HeadView {
    /// The head is not complete yet.
    Partial,
    /// The head is malformed.
    Invalid,
    /// A complete head of `len` bytes.
    Complete { len: nat, code: u16, version: u8, headers: Seq<(Seq<u8>, Seq<u8>)> },
}

/// The parse of a response head at the start of a buffer.
pub uninterp spec fn response_head_of(b: Seq<u8>) -> HeadView;

/// A parsed response head.
#[derive(Debug)]
pub struct ResponseHead {
    pub status: u16,
    /// Minor version: `1` for HTTP/1.1.
    pub version: u8,
    pub headers: Vec<Header>,
}

/// Executable result of parsing a response head.
pub enum HeadParse {
    Partial,
    Invalid,
    Complete(usize, ResponseHead),
}

impl HeadParse {
    pub open spec fn view(self) -> HeadView {
        match self {
            HeadParse::Partial => HeadView::Partial,
            HeadParse::Invalid => HeadView::Invalid,
            HeadParse::Complete(len, h) => HeadView::Complete {
                len: len as nat,
                code: h.status,
                version: h.version,
                headers: view_headers(h.headers@),
            },
        }
    }
}

/// Relies on `httparse::Response::parse` with room for 32 headers: a
/// complete head is at least a status line long, lies within the buffer,
/// and has at most as many headers as there was room for.
#[verifier::external_body]
pub(crate) fn parse_response_head(buf: &[u8]) -> (r: HeadParse)
    ensures
        r.view() == response_head_of(buf@),
        r matches HeadParse::Complete(len, h) ==> 0 < len <= buf@.len() && h.headers@.len() <= 32,
{
    let mut headers = [httparse::EMPTY_HEADER; 32];
    let mut resp = httparse::Response::new(&mut headers);
    match resp.parse(buf) {
        Ok(httparse::Status::Complete(len)) => HeadParse::Complete(len, ResponseHead {
            status: resp.code.unwrap_or(0),
            version: resp.version.unwrap_or(0),
            headers: resp.headers.iter().map(|h| Header { name: h.name.as_bytes().to_vec(), value: h.value.to_vec() }).collect(),
        }),
        Ok(httparse::Status::Partial) => HeadParse::Partial,
        Err(_) => HeadParse::Invalid,
    }
}

} // verus!
