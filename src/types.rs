//! The request descriptor, the per-call settings and the byte-level helpers
//! shared by the request serializer and the response reader.
use vstd::prelude::*;

verus! {

/// One header line: a name and its raw value.
#[derive(Debug)]
pub struct Header {
    pub name: Vec<u8>,
    pub value: Vec<u8>,
}

/// The request to perform, with the parts of its URI that the wire format
/// needs already separated out.
#[derive(Debug)]
pub struct Request {
    pub method: Vec<u8>,
    pub path: Vec<u8>,
    pub query: Option<Vec<u8>>,
    /// Host part of the URI's authority.
    pub host: Option<Vec<u8>>,
    /// User name and password embedded in the URI's authority.
    pub user: Option<Vec<u8>>,
    pub password: Option<Vec<u8>>,
    pub headers: Vec<Header>,
    pub body: Vec<u8>,
}

/// Settings of one call, fixed when the call is built.
#[derive(Debug)]
pub struct CallBuilderImpl {
    pub req: Request,
    /// Largest response, head and body, that the call accepts.
    pub max_response: usize,
    pub dns_retry_ms: u64,
    /// Decode chunked response bodies.
    pub chunked_parse: bool,
    /// Largest chunk that the decoder accepts.
    pub max_chunk: usize,
    pub timeout_ms: u64,
    pub digest: bool,
    pub gzip: bool,
    pub max_redirects: u8,
    /// Skip verification of the peer's certificate.
    pub insecure: bool,
    /// Ask for a websocket upgrade.
    pub ws: bool,
}

pub const DEFAULT_MAX_RESPONSE: usize = 10 * 1024 * 1024;
pub const DEFAULT_DNS_RETRY_MS: u64 = 100;
pub const DEFAULT_MAX_CHUNK: usize = 128 * 1024;
pub const DEFAULT_TIMEOUT_MS: u64 = 30000;
pub const DEFAULT_MAX_REDIRECTS: u8 = 4;

impl CallBuilderImpl {
    /// The default settings for `req`.
    pub open spec fn new_spec(req: Request) -> CallBuilderImpl {
        CallBuilderImpl {
            req,
            max_response: DEFAULT_MAX_RESPONSE,
            dns_retry_ms: DEFAULT_DNS_RETRY_MS,
            chunked_parse: true,
            max_chunk: DEFAULT_MAX_CHUNK,
            timeout_ms: DEFAULT_TIMEOUT_MS,
            digest: false,
            gzip: true,
            max_redirects: DEFAULT_MAX_REDIRECTS,
            insecure: false,
            ws: false,
        }
    }

    pub fn new(req: Request) -> (r: CallBuilderImpl)
        ensures
            r == Self::new_spec(req),
    {
        CallBuilderImpl {
            req,
            max_response: DEFAULT_MAX_RESPONSE,
            dns_retry_ms: DEFAULT_DNS_RETRY_MS,
            chunked_parse: true,
            max_chunk: DEFAULT_MAX_CHUNK,
            timeout_ms: DEFAULT_TIMEOUT_MS,
            digest: false,
            gzip: true,
            max_redirects: DEFAULT_MAX_REDIRECTS,
            insecure: false,
            ws: false,
        }
    }
}

pub open spec fn lower(b: u8) -> u8 {
    if 65 <= b && b <= 90 { (b + 32) as u8 } else { b }
}

/// Header names compare without regard to ASCII case.
pub open spec fn same_name(a: Seq<u8>, b: Seq<u8>) -> bool {
    a.len() == b.len() && forall|i: int| 0 <= i < a.len() ==> lower(#[trigger] a[i]) == lower(b[i])
}

pub open spec fn view_headers(hs: Seq<Header>) -> Seq<(Seq<u8>, Seq<u8>)> {
    hs.map_values(|h: Header| (h.name@, h.value@))
}

/// The value of the first header in `hs` named `name`.
pub open spec fn find_header(hs: Seq<(Seq<u8>, Seq<u8>)>, name: Seq<u8>) -> Option<Seq<u8>>
    decreases hs.len(),
{
    if hs.len() == 0 {
        None
    } else if same_name(hs[0].0, name) {
        Some(hs[0].1)
    } else {
        find_header(hs.drop_first(), name)
    }
}

pub open spec fn is_digit(b: u8) -> bool {
    48 <= b && b <= 57
}

/// Value of the decimal digits `s[0..k]`.
pub open spec fn decimal_value(s: Seq<u8>, k: nat) -> int
    decreases k,
{
    if k == 0 { 0 } else { decimal_value(s, (k - 1) as nat) * 10 + (s[k - 1] - 48) }
}

/// `s` is a non-empty run of decimal digits whose value fits in a `usize`.
pub open spec fn is_decimal_usize(s: Seq<u8>) -> bool {
    &&& s.len() > 0
    &&& forall|i: int| 0 <= i < s.len() ==> is_digit(#[trigger] s[i])
    &&& decimal_value(s, s.len()) <= usize::MAX
}

/// Decimal digits of `n`, most significant first.
pub open spec fn decimal(n: nat) -> Seq<u8>
    decreases n,
{
    if n < 10 {
        seq![(48 + n) as u8]
    } else {
        decimal(n / 10).push((48 + n % 10) as u8)
    }
}

pub fn lower_byte(b: u8) -> (r: u8)
    ensures
        r == lower(b),
{
    if 65 <= b && b <= 90 { b + 32 } else { b }
}

pub fn names_match(a: &[u8], b: &[u8]) -> (r: bool)
    ensures
        r == same_name(a@, b@),
{
    if a.len() != b.len() {
        return false;
    }
    let mut i: usize = 0;
    while i < a.len()
        invariant
            a@.len() == b@.len(),
            i <= a.len(),
            forall|j: int| 0 <= j < i ==> lower(#[trigger] a@[j]) == lower(b@[j]),
        decreases a.len() - i,
    {
        if lower_byte(a[i]) != lower_byte(b[i]) {
            return false;
        }
        i = i + 1;
    }
    true
}

/// Index of the first header of `hs` named `name`.
pub fn header_index(hs: &Vec<Header>, name: &[u8]) -> (r: Option<usize>)
    ensures
        match r {
            None => find_header(view_headers(hs@), name@) is None,
            Some(i) => i < hs@.len() && find_header(view_headers(hs@), name@) == Some(hs@[i as int].value@),
        },
{
    let mut i: usize = 0;
    let ghost v = view_headers(hs@);
    assert(v.subrange(0, v.len() as int) =~= v);
    while i < hs.len()
        invariant
            i <= hs@.len(),
            v == view_headers(hs@),
            find_header(v, name@) == find_header(v.subrange(i as int, v.len() as int), name@),
        decreases hs.len() - i,
    {
        let ghost rest = v.subrange(i as int, v.len() as int);
        assert(rest.drop_first() =~= v.subrange(i + 1, v.len() as int));
        assert(rest[0] == v[i as int]);
        if names_match(hs[i].name.as_slice(), name) {
            return Some(i);
        }
        i = i + 1;
    }
    None
}

/// Appends `src` to `dst`.
pub fn append_bytes(dst: &mut Vec<u8>, src: &[u8])
    ensures
        final(dst)@ == old(dst)@ + src@,
{
    let mut i: usize = 0;
    while i < src.len()
        invariant
            i <= src@.len(),
            dst@ == old(dst)@ + src@.subrange(0, i as int),
        decreases src.len() - i,
    {
        dst.push(src[i]);
        assert(src@.subrange(0, i + 1) =~= src@.subrange(0, i as int).push(src@[i as int]));
        i = i + 1;
    }
    assert(src@.subrange(0, src@.len() as int) =~= src@);
}

/// Appends the decimal digits of `n` to `dst`.
pub fn append_decimal(dst: &mut Vec<u8>, n: usize)
    ensures
        final(dst)@ == old(dst)@ + decimal(n as nat),
    decreases n,
{
    if n >= 10 {
        append_decimal(dst, n / 10);
    }
    let d = (n % 10) as u8;
    dst.push(48 + d);
    assert(old(dst)@ + decimal(n as nat) =~= dst@);
}

/// Reads a decimal number that fits in a `usize`.
pub fn parse_decimal(s: &[u8]) -> (r: Option<usize>)
    ensures
        match r {
            Some(v) => is_decimal_usize(s@) && v as int == decimal_value(s@, s@.len()),
            None => !is_decimal_usize(s@),
        },
{
    if s.len() == 0 {
        return None;
    }
    let mut i: usize = 0;
    let mut v: usize = 0;
    while i < s.len()
        invariant
            i <= s@.len(),
            forall|j: int| 0 <= j < i ==> is_digit(#[trigger] s@[j]),
            v as int == decimal_value(s@, i as nat),
        decreases s.len() - i,
    {
        if !(48 <= s[i] && s[i] <= 57) {
            return None;
        }
        let d = (s[i] - 48) as usize;
        if v > (usize::MAX - d) / 10 {
            proof {
                assert(v * 10 + d > usize::MAX) by (nonlinear_arith)
                    requires v > (usize::MAX - d) / 10, d <= 9;
                if is_decimal_usize(s@) {
                    lemma_decimal_mono(s@, (i + 1) as nat, s@.len());
                }
            }
            return None;
        }
        proof {
            assert(v * 10 + d <= usize::MAX) by (nonlinear_arith)
                requires v <= (usize::MAX - d) / 10, d <= 9;
        }
        v = v * 10 + d;
        i = i + 1;
    }
    Some(v)
}

proof fn lemma_decimal_mono(s: Seq<u8>, k: nat, m: nat)
    requires
        k <= m <= s.len(),
        forall|j: int| 0 <= j < m ==> is_digit(#[trigger] s[j]),
    ensures
        0 <= decimal_value(s, k) <= decimal_value(s, m),
    decreases m,
{
    if k < m {
        lemma_decimal_mono(s, k, (m - 1) as nat);
        assert(is_digit(s[m - 1]));
    } else if k > 0 {
        lemma_decimal_mono(s, (k - 1) as nat, (k - 1) as nat);
        assert(is_digit(s[k - 1]));
    }
}

} // verus!
