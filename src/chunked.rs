//! Decoder for the chunked transfer coding of HTTP/1.1 response bodies.
//!
//! The decoder works in place on the receive buffer: it keeps a cursor past
//! the chunks it has already handed out and, on each call, decodes the
//! complete chunks that follow it. An incomplete chunk is left for the next
//! call, when more bytes have arrived.
use vstd::prelude::*;
use crate::Error;

verus! {

pub open spec fn is_hex(b: u8) -> bool {
    (48 <= b && b <= 57) || (97 <= b && b <= 102) || (65 <= b && b <= 70)
}

pub open spec fn hex_val(b: u8) -> int {
    if 48 <= b && b <= 57 {
        b - 48
    } else if 97 <= b && b <= 102 {
        b - 87
    } else if 65 <= b && b <= 70 {
        b - 55
    } else {
        0
    }
}

/// Number of consecutive hex digits in `s` from index `i`.
pub open spec fn hex_run(s: Seq<u8>, i: int) -> nat
    decreases s.len() - i,
{
    if 0 <= i < s.len() && is_hex(s[i]) {
        1 + hex_run(s, i + 1)
    } else {
        0
    }
}

/// Value of the `k` hex digits of `s` that start at `i`.
pub open spec fn hex_value(s: Seq<u8>, i: int, k: nat) -> int
    decreases k,
{
    if k == 0 {
        0
    } else {
        hex_value(s, i, (k - 1) as nat) * 16 + hex_val(s[i + k - 1])
    }
}

pub open spec fn crlf_at(s: Seq<u8>, m: int) -> bool {
    0 <= m && m + 2 <= s.len() && s[m] == 13 && s[m + 1] == 10
}

/// The trailer block that follows the last chunk's size line (which ends
/// just before `j`) is complete: an empty line has arrived.
pub open spec fn trailers_done(s: Seq<u8>, j: int) -> bool {
    exists|m: int| j <= m && #[trigger] crlf_at(s, m) && crlf_at(s, m - 2)
}

/// What stands at index `i` of a chunked body.
pub enum ChunkStep {
    /// More bytes are needed to tell.
    Incomplete,
    /// The size line or the chunk's framing is malformed.
    Malformed,
    /// The declared size exceeds the limit.
    OverLimit,
    /// A complete chunk: payload `start..start + size`, next chunk at `next`.
    Chunk { start: int, size: int, next: int },
    /// The last (zero-size) chunk together with its complete trailer block.
    Last,
}

pub open spec fn chunk_at(s: Seq<u8>, i: int, max: usize) -> ChunkStep {
    let k = hex_run(s, i);
    let v = hex_value(s, i, k);
    let start = i + k + 2;
    if k == 0 {
        if i >= s.len() { ChunkStep::Incomplete } else { ChunkStep::Malformed }
    } else if v > max {
        ChunkStep::OverLimit
    } else if i + k >= s.len() {
        ChunkStep::Incomplete
    } else if s[i + k] != 13 {
        ChunkStep::Malformed
    } else if i + k + 1 >= s.len() {
        ChunkStep::Incomplete
    } else if s[i + k + 1] != 10 {
        ChunkStep::Malformed
    } else if v == 0 {
        if trailers_done(s, start) { ChunkStep::Last } else { ChunkStep::Incomplete }
    } else if start + v + 2 > s.len() {
        ChunkStep::Incomplete
    } else if s[start + v] != 13 || s[start + v + 1] != 10 {
        ChunkStep::Malformed
    } else {
        ChunkStep::Chunk { start, size: v, next: start + v + 2 }
    }
}

/// The outcome of decoding every complete chunk from some index on.
pub struct Decoded {
    /// The payload bytes of the complete chunks, in order.
    pub out: Seq<u8>,
    /// Index of the first chunk that was not consumed.
    pub next: int,
    /// The error met at `next`, if any.
    pub err: Option<Error>,
    /// The last chunk and its trailers stand at `next`.
    pub done: bool,
}

pub open spec fn decode_from(s: Seq<u8>, i: int, max: usize) -> Decoded
    decreases s.len() - i,
{
    match chunk_at(s, i, max) {
        ChunkStep::Incomplete => Decoded { out: seq![], next: i, err: None, done: false },
        ChunkStep::Malformed => Decoded {
            out: seq![],
            next: i,
            err: Some(Error::ChunkedParse),
            done: false,
        },
        ChunkStep::OverLimit => Decoded {
            out: seq![],
            next: i,
            err: Some(Error::ChunkOverlimit(max)),
            done: false,
        },
        ChunkStep::Last => Decoded { out: seq![], next: i, err: None, done: true },
        ChunkStep::Chunk { start, size, next } => {
            if i < next <= s.len() {
                let rest = decode_from(s, next, max);
                Decoded { out: s.subrange(start, start + size) + rest.out, ..rest }
            } else {
                Decoded { out: seq![], next: i, err: None, done: false }
            }
        },
    }
}


proof fn lemma_hex_run_step(s: Seq<u8>, i: int, k: nat)
    requires
        0 <= i,
        hex_run(s, i) == k + hex_run(s, i + k),
        0 <= i + k < s.len(),
        is_hex(s[i + k]),
    ensures
        hex_run(s, i) == (k + 1) + hex_run(s, i + k + 1),
{
}

proof fn lemma_hex_value_mono(s: Seq<u8>, i: int, k: nat, m: nat)
    requires
        k <= m,
    ensures
        hex_value(s, i, k) <= hex_value(s, i, m),
        0 <= hex_value(s, i, k),
    decreases m,
{
    if k < m {
        lemma_hex_value_mono(s, i, k, (m - 1) as nat);
        assert(hex_value(s, i, (m - 1) as nat) * 16 >= hex_value(s, i, (m - 1) as nat));
    } else if k > 0 {
        lemma_hex_value_mono(s, i, (k - 1) as nat, (k - 1) as nat);
    }
}

proof fn lemma_hex_prefix(s1: Seq<u8>, s2: Seq<u8>, i: int)
    requires
        0 <= i,
        s1.len() <= s2.len(),
        s1 == s2.subrange(0, s1.len() as int),
    ensures
        hex_run(s1, i) <= hex_run(s2, i),
        i + hex_run(s1, i) < s1.len() ==> hex_run(s2, i) == hex_run(s1, i),
        forall|k: nat| i + k <= s1.len() ==> #[trigger] hex_value(s1, i, k) == hex_value(s2, i, k),
    decreases s1.len() - i,
{
    if 0 <= i < s1.len() {
        assert(s1[i] == s2[i]);
        if is_hex(s1[i]) {
            lemma_hex_prefix(s1, s2, i + 1);
        }
    }
    assert forall|k: nat| i + k <= s1.len() implies #[trigger] hex_value(s1, i, k) == hex_value(s2, i, k) by {
        lemma_hex_value_prefix(s1, s2, i, k);
    }
}

proof fn lemma_hex_value_prefix(s1: Seq<u8>, s2: Seq<u8>, i: int, k: nat)
    requires
        0 <= i,
        i + k <= s1.len(),
        s1.len() <= s2.len(),
        s1 == s2.subrange(0, s1.len() as int),
    ensures
        hex_value(s1, i, k) == hex_value(s2, i, k),
    decreases k,
{
    if k > 0 {
        lemma_hex_value_prefix(s1, s2, i, (k - 1) as nat);
        assert(s1[i + k - 1] == s2[i + k - 1]);
    }
}

proof fn lemma_hex_run_bound(s: Seq<u8>, i: int)
    requires
        0 <= i,
    ensures
        hex_run(s, i) > 0 ==> i + hex_run(s, i) <= s.len(),
    decreases s.len() - i,
{
    if 0 <= i < s.len() && is_hex(s[i]) {
        lemma_hex_run_bound(s, i + 1);
    }
}

proof fn lemma_chunk_shape(s: Seq<u8>, i: int, max: usize)
    requires
        0 <= i,
    ensures
        chunk_at(s, i, max) matches ChunkStep::Chunk { start, size, next } ==> i < start && 0 < size
            && next == start + size + 2 && next <= s.len(),
{
    lemma_hex_value_mono(s, i, 0, hex_run(s, i));
}

/// A step that can already be told on a prefix of the body stays the same
/// when more bytes arrive.
proof fn lemma_chunk_at_prefix(s1: Seq<u8>, s2: Seq<u8>, i: int, max: usize)
    requires
        0 <= i,
        s1.len() <= s2.len(),
        s1 == s2.subrange(0, s1.len() as int),
        !(chunk_at(s1, i, max) is Incomplete),
    ensures
        chunk_at(s2, i, max) == chunk_at(s1, i, max),
{
    lemma_hex_prefix(s1, s2, i);
    let k1 = hex_run(s1, i);
    let k2 = hex_run(s2, i);
    lemma_hex_value_mono(s1, i, 0, k1);
    lemma_hex_run_bound(s1, i);
    if k1 > 0 {
        lemma_hex_value_prefix(s1, s2, i, k1);
    }
    if k1 > 0 && hex_value(s1, i, k1) > max {
        lemma_hex_value_mono(s2, i, k1, k2);
        assert(hex_value(s2, i, k2) > max);
    }
    if i + k1 < s1.len() {
        assert(k1 == k2);
    }
    if i + k1 < s1.len() {
        assert(s1[i + k1] == s2[i + k1]);
    }
    if i + k1 + 1 < s1.len() {
        assert(s1[i + k1 + 1] == s2[i + k1 + 1]);
    }
    let start = i + k1 + 2;
    let v = hex_value(s1, i, k1);
    if v == 0 && k1 > 0 && start <= s1.len() && trailers_done(s1, start) {
        let m = choose|m: int| start <= m && #[trigger] crlf_at(s1, m) && crlf_at(s1, m - 2);
        assert(s1[m] == s2[m] && s1[m + 1] == s2[m + 1] && s1[m - 2] == s2[m - 2] && s1[m - 1] == s2[m - 1]);
        assert(crlf_at(s2, m) && crlf_at(s2, m - 2));
    }
    if start + v + 2 <= s1.len() && 0 <= v {
        assert(s1[start + v] == s2[start + v] && s1[start + v + 1] == s2[start + v + 1]);
    }
}

/// Decoding is insensitive to how the body is split across arrivals: the
/// output of decoding a received prefix, followed by the output of resuming
/// where that left off once more bytes arrived, is the output of decoding
/// everything at once, with the same final position, error and end flag.
pub proof fn lemma_decode_fragmented(s1: Seq<u8>, s2: Seq<u8>, i: int, max: usize)
    requires
        0 <= i <= s1.len(),
        s1.is_prefix_of(s2),
        decode_from(s1, i, max).err is None,
    ensures
        ({
            let first = decode_from(s1, i, max);
            let rest = decode_from(s2, first.next, max);
            decode_from(s2, i, max) == (Decoded { out: first.out + rest.out, ..rest })
        }),
    decreases s1.len() - i,
{
    assert(s1 == s2.subrange(0, s1.len() as int));
    let first = decode_from(s1, i, max);
    match chunk_at(s1, i, max) {
        ChunkStep::Incomplete => {
            assert(seq![] + decode_from(s2, i, max).out =~= decode_from(s2, i, max).out);
        },
        ChunkStep::Chunk { start, size, next } => {
            lemma_chunk_at_prefix(s1, s2, i, max);
            lemma_chunk_shape(s1, i, max);
            if i < next <= s1.len() {
                lemma_decode_fragmented(s1, s2, next, max);
                assert(s1.subrange(start, start + size) =~= s2.subrange(start, start + size));
                let rest = decode_from(s2, first.next, max);
                assert(s1.subrange(start, start + size) + decode_from(s1, next, max).out + rest.out
                    =~= s1.subrange(start, start + size) + (decode_from(s1, next, max).out + rest.out));
            } else {
                assert(seq![] + decode_from(s2, i, max).out =~= decode_from(s2, i, max).out);
            }
        },
        _ => {
            lemma_chunk_at_prefix(s1, s2, i, max);
            assert(seq![] + decode_from(s2, i, max).out =~= decode_from(s2, i, max).out);
        },
    }
}

/// A chunk whose declared size exceeds the limit fails decoding with the
/// over-limit error, and none of its payload is handed out.
pub proof fn lemma_over_limit(s: Seq<u8>, i: int, max: usize)
    requires
        0 <= i,
        hex_run(s, i) > 0,
        hex_value(s, i, hex_run(s, i)) > max,
    ensures
        decode_from(s, i, max) == (Decoded {
            out: seq![],
            next: i,
            err: Some(Error::ChunkOverlimit(max)),
            done: false,
        }),
{
}

fn is_hex_byte(b: u8) -> (r: bool)
    ensures
        r == is_hex(b),
{
    (48 <= b && b <= 57) || (97 <= b && b <= 102) || (65 <= b && b <= 70)
}

fn hex_digit(b: u8) -> (r: u8)
    ensures
        r as int == hex_val(b),
        r < 16,
{
    if 48 <= b && b <= 57 {
        b - 48
    } else if 97 <= b && b <= 102 {
        b - 87
    } else if 65 <= b && b <= 70 {
        b - 55
    } else {
        0
    }
}

fn find_trailers_end(s: &[u8], j: usize) -> (r: bool)
    requires
        j >= 2,
    ensures
        r == trailers_done(s@, j as int),
{
    let mut m: usize = j;
    while m < s.len() && s.len() - m >= 2
        invariant
            j <= m,
            j >= 2,
            forall|q: int| j <= q < m ==> !(#[trigger] crlf_at(s@, q) && crlf_at(s@, q - 2)),
        decreases s.len() - m,
    {
        if s[m] == 13 && s[m + 1] == 10 && s[m - 2] == 13 && s[m - 1] == 10 {
            assert(crlf_at(s@, m as int) && crlf_at(s@, m - 2));
            return true;
        }
        m = m + 1;
    }
    assert forall|q: int| j <= q && #[trigger] crlf_at(s@, q) implies !crlf_at(s@, q - 2) by {
        assert(q < m);
    }
    false
}

/// Executable counterpart of `ChunkStep`.
enum Step {
    Incomplete,
    Malformed,
    OverLimit,
    Chunk(usize, usize, usize),
    Last,
}

impl Step {
    spec fn view(self) -> ChunkStep {
        match self {
            Step::Incomplete => ChunkStep::Incomplete,
            Step::Malformed => ChunkStep::Malformed,
            Step::OverLimit => ChunkStep::OverLimit,
            Step::Chunk(a, b, c) => ChunkStep::Chunk { start: a as int, size: b as int, next: c as int },
            Step::Last => ChunkStep::Last,
        }
    }
}

fn step_at(s: &[u8], i: usize, max: usize) -> (r: Step)
    requires
        i <= s.len(),
    ensures
        r.view() == chunk_at(s@, i as int, max),
        r matches Step::Chunk(a, b, c) ==> i < c <= s.len() && a + b + 2 == c,
{
    let mut k: usize = 0;
    let mut v: usize = 0;
    while i + k < s.len() && is_hex_byte(s[i + k])
        invariant
            i + k <= s.len(),
            hex_run(s@, i as int) == k + hex_run(s@, i + k),
            v as int == hex_value(s@, i as int, k as nat),
            v <= max,
        decreases s.len() - i - k,
    {
        proof {
            lemma_hex_run_step(s@, i as int, k as nat);
        }
        let d = hex_digit(s[i + k]);
        if (v as u128) * 16 + (d as u128) > max as u128 {
            proof {
                lemma_hex_value_mono(s@, i as int, (k + 1) as nat, hex_run(s@, i as int));
            }
            return Step::OverLimit;
        }
        v = v * 16 + d as usize;
        k = k + 1;
    }
    assert(hex_run(s@, i as int) == k);
    if k == 0 {
        if i >= s.len() {
            return Step::Incomplete;
        } else {
            return Step::Malformed;
        }
    }
    if i + k >= s.len() {
        return Step::Incomplete;
    }
    if s[i + k] != 13 {
        return Step::Malformed;
    }
    if i + k + 1 >= s.len() {
        return Step::Incomplete;
    }
    if s[i + k + 1] != 10 {
        return Step::Malformed;
    }
    let start = i + k + 2;
    if v == 0 {
        if find_trailers_end(s, start) {
            return Step::Last;
        } else {
            return Step::Incomplete;
        }
    }
    if v > s.len() || start > s.len() - v || s.len() - v - start < 2 {
        return Step::Incomplete;
    }
    if s[start + v] != 13 || s[start + v + 1] != 10 {
        return Step::Malformed;
    }
    Step::Chunk(start, v, start + v + 2)
}

/// Appends the payload of every complete chunk from index `i` on to `dst`.
/// Returns the index of the first chunk left undecoded, and whether the
/// last chunk was reached, or the framing error met there.
fn decode_into(s: &[u8], i: usize, max: usize, dst: &mut Vec<u8>) -> (r: (usize, Result<bool, Error>))
    requires
        i <= s.len(),
    ensures
        ({
            let d = decode_from(s@, i as int, max);
            &&& final(dst)@ == old(dst)@ + d.out
            &&& r.0 as int == d.next
            &&& i <= r.0 <= s.len()
            &&& match d.err {
                None => r.1 == Ok::<bool, Error>(d.done),
                Some(e) => r.1 == Err::<bool, Error>(e),
            }
        }),
{
    let mut pos: usize = i;
    let ghost acc: Seq<u8> = seq![];
    loop
        invariant
            i <= pos <= s.len(),
            dst@ == old(dst)@ + acc,
            decode_from(s@, i as int, max) == (Decoded {
                out: acc + decode_from(s@, pos as int, max).out,
                ..decode_from(s@, pos as int, max)
            }),
        decreases s.len() - pos,
    {
        let st = step_at(s, pos, max);
        match st {
            Step::Incomplete => {
                assert(acc + seq![] =~= acc);
                return (pos, Ok(false));
            },
            Step::Malformed => {
                assert(acc + seq![] =~= acc);
                return (pos, Err(Error::ChunkedParse));
            },
            Step::OverLimit => {
                assert(acc + seq![] =~= acc);
                return (pos, Err(Error::ChunkOverlimit(max)));
            },
            Step::Last => {
                assert(acc + seq![] =~= acc);
                return (pos, Ok(true));
            },
            Step::Chunk(start, size, next) => {
                let ghost before = dst@;
                let mut j: usize = start;
                while j < start + size
                    invariant
                        start <= j <= start + size,
                        start + size + 2 == next,
                        next <= s.len(),
                        dst@ == before + s@.subrange(start as int, j as int),
                    decreases start + size - j,
                {
                    dst.push(s[j]);
                    assert(s@.subrange(start as int, j + 1) =~= s@.subrange(start as int, j as int).push(s[j as int]));
                    j = j + 1;
                }
                proof {
                    let payload = s@.subrange(start as int, (start + size) as int);
                    assert(acc + payload + decode_from(s@, next as int, max).out
                        =~= acc + (payload + decode_from(s@, next as int, max).out));
                    acc = acc + payload;
                }
                pos = next;
            },
        }
    }
}

/// The decoder's state: how far into the body the complete chunks have
/// already been handed out.
pub struct ChunkIndex {
    off: usize,
}

impl ChunkIndex {
    /// Offset, from the start of the body, of the first undecoded chunk.
    pub closed spec fn offset(&self) -> nat {
        self.off as nat
    }

    pub fn new() -> (r: ChunkIndex)
        ensures
            r.offset() == 0,
    {
        ChunkIndex { off: 0 }
    }

    /// Decodes the complete chunks that follow the cursor in the body that
    /// starts at `base` in `buf`, appends their payload to `dst` and moves
    /// the cursor past them. Returns the number of bytes appended; `0` means
    /// that more bytes are needed.
    pub fn push_to(&mut self, max_chunk: usize, buf: &[u8], base: usize, dst: &mut Vec<u8>) -> (r: Result<usize, Error>)
        requires
            base + old(self).offset() <= buf@.len(),
        ensures
            ({
                let d = decode_from(buf@, base + old(self).offset(), max_chunk);
                &&& final(dst)@ == old(dst)@ + d.out
                &&& base + final(self).offset() == d.next
                &&& base + final(self).offset() <= buf@.len()
                &&& match d.err {
                    None => r is Ok && r->Ok_0 == d.out.len(),
                    Some(e) => r == Err::<usize, Error>(e),
                }
            }),
    {
        let n = buf.len();
        assert(base + self.off <= n);
        let start = base + self.off;
        let ghost before = dst@;
        let before_len = dst.len();
        let (next, res) = decode_into(buf, start, max_chunk, dst);
        self.off = next - base;
        match res {
            Ok(_) => {
                assert(dst@.len() == before.len() + decode_from(buf@, start as int, max_chunk).out.len());
                Ok(dst.len() - before_len)
            },
            Err(e) => Err(e),
        }
    }

    /// Whether the last chunk and its trailers have arrived after the cursor,
    /// in the body that starts at `base` in `buf`.
    pub fn check_done(&self, max_chunk: usize, buf: &[u8], base: usize) -> (r: Result<bool, Error>)
        requires
            base + self.offset() <= buf@.len(),
        ensures
            ({
                let d = decode_from(buf@, base + self.offset(), max_chunk);
                match d.err {
                    None => r == Ok::<bool, Error>(d.done),
                    Some(e) => r == Err::<bool, Error>(e),
                }
            }),
    {
        let n = buf.len();
        assert(base + self.off <= n);
        let mut scratch: Vec<u8> = Vec::new();
        let (_, res) = decode_into(buf, base + self.off, max_chunk, &mut scratch);
        res
    }
}

} // verus!
