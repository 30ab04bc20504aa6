//! Length-prefixed frames: a 4-byte little-endian length, then the payload.
use vstd::prelude::*;

verus! {

/// The largest payload length the streaming receive path accepts.
pub const MAX_FRAME_LEN: u32 = 16777216;

/// Why a buffer does not hold a whole frame.
#[derive(Debug, PartialEq, Eq, Structural)]
pub enum FrameError {
    /// Fewer bytes are there than the header and the payload it announces.
    Truncated,
    /// The announced length is over the limit the receiver set.
    TooLarge,
}

/// The four little-endian bytes of `n`.
pub open spec fn le_bytes(n: u32) -> Seq<u8> {
    seq![(n % 256) as u8, (n / 256 % 256) as u8, (n / 65536 % 256) as u8, (n / 16777216) as u8]
}

/// The number whose little-endian encoding is the first four bytes of `b`.
pub open spec fn le_value(b: Seq<u8>) -> nat
    recommends
        b.len() >= 4,
{
    b[0] as nat + 256 * b[1] as nat + 65536 * b[2] as nat + 16777216 * b[3] as nat
}

/// The wire form of one frame carrying `p`.
pub open spec fn frame_of(p: Seq<u8>) -> Seq<u8>
    recommends
        p.len() <= u32::MAX,
{
    le_bytes(p.len() as u32) + p
}

/// What decoding a frame from the start of `b` gives: the payload and the
/// number of bytes it took, or `Truncated` when `b` is shorter than the header
/// and the payload it announces.
pub open spec fn decoded(b: Seq<u8>) -> Result<(Seq<u8>, nat), FrameError> {
    if b.len() < 4 || b.len() < 4 + le_value(b) {
        Err(FrameError::Truncated)
    } else {
        Ok((b.subrange(4, 4 + le_value(b) as int), 4 + le_value(b)))
    }
}

/// Reading back the header of `n` gives `n`.
pub proof fn lemma_le_round_trip(n: u32)
    ensures
        le_bytes(n).len() == 4,
        le_value(le_bytes(n)) == n,
{
    let b = le_bytes(n);
    assert(b[0] as nat == n % 256);
    assert(b[1] as nat == n / 256 % 256);
    assert(b[2] as nat == n / 65536 % 256);
    assert(b[3] as nat == n / 16777216);
    assert(n == n % 256 + 256 * (n / 256 % 256) + 65536 * (n / 65536 % 256) + 16777216 * (n
        / 16777216)) by (nonlinear_arith);
}

/// Decoding the bytes of a frame, whatever follows them, gives back exactly
/// its payload and the frame's length.
pub proof fn lemma_frame_round_trip(p: Seq<u8>, rest: Seq<u8>)
    requires
        p.len() <= u32::MAX,
    ensures
        decoded(frame_of(p) + rest) == Ok::<(Seq<u8>, nat), FrameError>((p, 4 + p.len())),
{
    let b = frame_of(p) + rest;
    lemma_le_round_trip(p.len() as u32);
    assert(b.subrange(0, 4) == le_bytes(p.len() as u32));
    assert(le_value(b) == le_value(le_bytes(p.len() as u32)));
    assert(b.subrange(4, 4 + p.len() as int) == p);
}

/// A frame cut short anywhere, in its header or in its payload, does not
/// decode: it fails with `Truncated` rather than giving a shorter payload.
pub proof fn lemma_frame_truncation(p: Seq<u8>, k: nat)
    requires
        p.len() <= u32::MAX,
        k < 4 + p.len(),
    ensures
        decoded(frame_of(p).subrange(0, k as int)) == Err::<(Seq<u8>, nat), FrameError>(
            FrameError::Truncated,
        ),
{
    let b = frame_of(p).subrange(0, k as int);
    lemma_le_round_trip(p.len() as u32);
    if k >= 4 {
        assert(le_value(b) == le_value(le_bytes(p.len() as u32)));
    }
}

/// Encodes a frame length as the 4-byte header that precedes the payload.
pub fn encode_header(n: u32) -> (r: [u8; 4])
    ensures
        r@ == le_bytes(n),
{
    [(n % 256) as u8, (n / 256 % 256) as u8, (n / 65536 % 256) as u8, (n / 16777216) as u8]
}

/// Reads the payload length announced by a 4-byte header.
pub fn decode_header(h: [u8; 4]) -> (r: u32)
    ensures
        r as nat == le_value(h@),
{
    h[0] as u32 + 256 * (h[1] as u32) + 65536 * (h[2] as u32) + 16777216 * (h[3] as u32)
}

/// The payload length announced by `h`, refused with `TooLarge` when it is
/// over `limit`.
pub fn frame_len_within(h: [u8; 4], limit: u32) -> (r: Result<usize, FrameError>)
    ensures
        match r {
            Ok(n) => n as nat == le_value(h@) && le_value(h@) <= limit,
            Err(e) => e == FrameError::TooLarge && le_value(h@) > limit,
        },
{
    let n = decode_header(h);
    if n > limit {
        Err(FrameError::TooLarge)
    } else {
        Ok(n as usize)
    }
}

/// The bytes of one frame: the little-endian length of `payload`, then
/// `payload` itself.
pub fn encode_frame(payload: &[u8]) -> (r: Vec<u8>)
    requires
        payload@.len() <= u32::MAX,
    ensures
        r@ == frame_of(payload@),
{
    let h = encode_header(payload.len() as u32);
    let mut r: Vec<u8> = Vec::new();
    r.push(h[0]);
    r.push(h[1]);
    r.push(h[2]);
    r.push(h[3]);
    let mut i: usize = 0;
    while i < payload.len()
        invariant
            i <= payload@.len(),
            r@ == h@ + payload@.subrange(0, i as int),
        decreases payload@.len() - i,
    {
        r.push(payload[i]);
        i = i + 1;
        assert(payload@.subrange(0, i as int) == payload@.subrange(0, i - 1).push(payload@[i - 1]));
    }
    assert(payload@.subrange(0, i as int) == payload@);
    r
}

/// Decodes the frame at the start of `buf`: its payload and the number of
/// bytes it took. Fails with `Truncated`, never with a short payload, when
/// `buf` ends before the header or before the announced payload.
pub fn decode_frame(buf: &[u8]) -> (r: Result<(Vec<u8>, usize), FrameError>)
    ensures
        match r {
            Ok((p, used)) => decoded(buf@) == Ok::<(Seq<u8>, nat), FrameError>((p@, used as nat)),
            Err(e) => decoded(buf@) == Err::<(Seq<u8>, nat), FrameError>(e),
        },
{
    if buf.len() < 4 {
        return Err(FrameError::Truncated);
    }
    let n = decode_header([buf[0], buf[1], buf[2], buf[3]]) as usize;
    if buf.len() - 4 < n {
        return Err(FrameError::Truncated);
    }
    let mut p: Vec<u8> = Vec::with_capacity(n);
    let mut i: usize = 0;
    while i < n
        invariant
            4 + n <= buf@.len() <= usize::MAX,
            i <= n,
            p@ == buf@.subrange(4, 4 + i),
        decreases n - i,
    {
        p.push(buf[4 + i]);
        i = i + 1;
        assert(buf@.subrange(4, 4 + i) == buf@.subrange(4, 4 + i - 1).push(buf@[4 + i - 1]));
    }
    Ok((p, 4 + n))
}

} // verus!
