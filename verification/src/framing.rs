//! Byte layouts of the project: the length-prefixed frames of the IPC socket
//! and the header of the binary macro cache.
//!
//! A frame is a 32-bit little-endian length followed by that many payload
//! bytes; payloads above [`MAX_MESSAGE_SIZE`] are refused on both sides. The
//! cache file is a 32-bit little-endian magic number followed by the payload.
use vstd::prelude::*;
use crate::client::IpcError;

verus! {

/// Maximum payload size of a frame (1 MiB).
pub const MAX_MESSAGE_SIZE: usize = 1048576;

/// Magic number at the start of the macro cache file.
pub const CACHE_MAGIC: u32 = 0xDEAD_BEEF;

/// Little-endian bytes of a 32-bit number.
pub open spec fn le_bytes(n: u32) -> Seq<u8> {
    seq![
        (n % 256) as u8,
        ((n / 256) % 256) as u8,
        ((n / 65536) % 256) as u8,
        (n / 16777216) as u8,
    ]
}

/// The number that four little-endian bytes encode.
pub open spec fn le_value(b: Seq<u8>) -> nat
    recommends
        b.len() == 4,
{
    (b[0] + 256 * b[1] + 65536 * b[2] + 16777216 * b[3]) as nat
}

/// The frame that carries `payload`: its length, then the payload itself.
pub open spec fn frame_spec(payload: Seq<u8>) -> Seq<u8> {
    le_bytes(payload.len() as u32) + payload
}

/// The cache file content that stores `payload`.
pub open spec fn cache_spec(payload: Seq<u8>) -> Seq<u8> {
    le_bytes(CACHE_MAGIC) + payload
}

/// Encoding and decoding a 32-bit number are inverse.
pub proof fn lemma_le_roundtrip(n: u32)
    ensures
        le_bytes(n).len() == 4,
        le_value(le_bytes(n)) == n,
{
}

/// Decoding and encoding four bytes are inverse.
pub proof fn lemma_le_roundtrip_bytes(b: Seq<u8>)
    requires
        b.len() == 4,
    ensures
        le_value(b) <= u32::MAX,
        le_bytes(le_value(b) as u32) == b,
{
    lemma_le_parts(b[0], b[1], b[2], b[3]);
    let v = le_value(b);
    assert(le_bytes(v as u32) =~= b);
}

proof fn lemma_le_parts(b0: u8, b1: u8, b2: u8, b3: u8)
    by (nonlinear_arith)
    ensures
        ({
            let v = b0 + 256 * b1 + 65536 * b2 + 16777216 * b3;
            &&& v <= u32::MAX
            &&& v % 256 == b0
            &&& (v / 256) % 256 == b1
            &&& (v / 65536) % 256 == b2
            &&& v / 16777216 == b3
        }),
{
}

/// The little-endian bytes of `n` (`u32::to_le_bytes`).
pub fn u32_to_le(n: u32) -> (r: [u8; 4])
    ensures
        r@ == le_bytes(n),
{
    let r = [(n % 256) as u8, ((n / 256) % 256) as u8, ((n / 65536) % 256) as u8, (n / 16777216) as u8];
    assert(r@ =~= le_bytes(n));
    r
}

/// The number of four little-endian bytes (`u32::from_le_bytes`).
pub fn u32_from_le(b: [u8; 4]) -> (r: u32)
    ensures
        r == le_value(b@),
{
    (b[0] as u32) + 256 * (b[1] as u32) + 65536 * (b[2] as u32) + 16777216 * (b[3] as u32)
}

/// The frame of a payload whose length fits in the 32-bit prefix.
fn frame_bytes(payload: &[u8]) -> (r: Vec<u8>)
    requires
        payload@.len() <= u32::MAX,
    ensures
        r@ == frame_spec(payload@),
{
    let n = payload.len();
    let prefix = u32_to_le(n as u32);
    let mut out: Vec<u8> = Vec::new();
    out.push(prefix[0]);
    out.push(prefix[1]);
    out.push(prefix[2]);
    out.push(prefix[3]);
    let mut i: usize = 0;
    while i < n
        invariant
            n == payload@.len(),
            n <= u32::MAX,
            i <= n,
            out@ == le_bytes(n as u32) + payload@.subrange(0, i as int),
        decreases n - i,
    {
        out.push(payload[i]);
        i = i + 1;
        assert(out@ =~= le_bytes(n as u32) + payload@.subrange(0, i as int));
    }
    assert(payload@.subrange(0, n as int) =~= payload@);
    out
}

/// Frames a request for the socket: the little-endian length, then the
/// payload. Payloads above [`MAX_MESSAGE_SIZE`] are refused.
pub fn encode_frame(payload: &[u8]) -> (r: Result<Vec<u8>, IpcError>)
    ensures
        payload@.len() <= MAX_MESSAGE_SIZE ==> (r matches Ok(f) && f@ == frame_spec(payload@)),
        payload@.len() > MAX_MESSAGE_SIZE ==> r == Err::<Vec<u8>, IpcError>(
            IpcError::MessageTooLarge(payload@.len() as usize, MAX_MESSAGE_SIZE),
        ),
{
    let n = payload.len();
    if n > MAX_MESSAGE_SIZE {
        return Err(IpcError::MessageTooLarge(n, MAX_MESSAGE_SIZE));
    }
    Ok(frame_bytes(payload))
}

/// Frames a reply of the daemon: the little-endian length, then the payload,
/// with no cap on the size. A payload whose length does not fit in the 32-bit
/// prefix cannot be framed.
pub fn encode_reply(payload: &[u8]) -> (r: Option<Vec<u8>>)
    ensures
        payload@.len() <= u32::MAX ==> (r matches Some(f) && f@ == frame_spec(payload@)),
        payload@.len() > u32::MAX ==> r is None,
{
    let n = payload.len() as u64;
    if n > 0xFFFF_FFFFu64 {
        return None;
    }
    Some(frame_bytes(payload))
}

/// Reads the length prefix of an incoming frame; lengths above
/// [`MAX_MESSAGE_SIZE`] are refused.
pub fn decode_length(prefix: [u8; 4]) -> (r: Result<usize, IpcError>)
    ensures
        le_value(prefix@) <= MAX_MESSAGE_SIZE ==> r == Ok::<usize, IpcError>(
            le_value(prefix@) as usize,
        ),
        le_value(prefix@) > MAX_MESSAGE_SIZE ==> r == Err::<usize, IpcError>(
            IpcError::MessageTooLarge(le_value(prefix@) as usize, MAX_MESSAGE_SIZE),
        ),
{
    let len = u32_from_le(prefix) as usize;
    if len > MAX_MESSAGE_SIZE {
        Err(IpcError::MessageTooLarge(len, MAX_MESSAGE_SIZE))
    } else {
        Ok(len)
    }
}

/// A frame written by [`encode_frame`] is read back by [`decode_length`]: its
/// first four bytes give the payload's length, and the payload follows them.
pub proof fn lemma_frame_roundtrip(payload: Seq<u8>)
    requires
        payload.len() <= MAX_MESSAGE_SIZE,
    ensures
        frame_spec(payload).len() == payload.len() + 4,
        le_value(frame_spec(payload).subrange(0, 4)) == payload.len(),
        frame_spec(payload).subrange(4, 4 + payload.len() as int) == payload,
{
    let f = frame_spec(payload);
    assert(f.subrange(0, 4) =~= le_bytes(payload.len() as u32));
    assert(f.subrange(4, 4 + payload.len() as int) =~= payload);
}

/// Why a cache file was refused.
#[derive(Debug)]
pub enum CacheError {
    /// Fewer than four bytes.
    TooShort,
    /// The first four bytes are not the magic number.
    BadMagic,
}

impl CacheError {
    /// The message of the error.
    pub open spec fn message_spec(&self) -> Seq<char> {
        match self {
            CacheError::TooShort => "Cache file too short"@,
            CacheError::BadMagic => "Invalid cache file magic number"@,
        }
    }

    /// The message of the error.
    pub fn message(&self) -> (r: String)
        ensures
            r@ == self.message_spec(),
    {
        match self {
            CacheError::TooShort => crate::text::owned("Cache file too short"),
            CacheError::BadMagic => crate::text::owned("Invalid cache file magic number"),
        }
    }
}

/// The cache file content for a serialized macro table: the magic number, then the payload.
pub fn encode_cache(payload: &[u8]) -> (r: Vec<u8>)
    ensures
        r@ == cache_spec(payload@),
{
    let prefix = u32_to_le(CACHE_MAGIC);
    let mut out: Vec<u8> = Vec::new();
    out.push(prefix[0]);
    out.push(prefix[1]);
    out.push(prefix[2]);
    out.push(prefix[3]);
    let n = payload.len();
    let mut i: usize = 0;
    while i < n
        invariant
            n == payload@.len(),
            i <= n,
            out@ == le_bytes(CACHE_MAGIC) + payload@.subrange(0, i as int),
        decreases n - i,
    {
        out.push(payload[i]);
        i = i + 1;
        assert(out@ =~= le_bytes(CACHE_MAGIC) + payload@.subrange(0, i as int));
    }
    assert(payload@.subrange(0, n as int) =~= payload@);
    out
}

/// The payload of a cache file: refused when shorter than four bytes or when
/// the magic number is wrong.
pub fn decode_cache(content: &[u8]) -> (r: Result<Vec<u8>, CacheError>)
    ensures
        content@.len() < 4 ==> r matches Err(CacheError::TooShort),
        content@.len() >= 4 && le_value(content@.subrange(0, 4)) != CACHE_MAGIC ==> r matches Err(
            CacheError::BadMagic,
        ),
        content@.len() >= 4 && le_value(content@.subrange(0, 4)) == CACHE_MAGIC ==> (r matches Ok(
            p,
        ) && p@ == content@.subrange(4, content@.len() as int)),
{
    let n = content.len();
    if n < 4 {
        return Err(CacheError::TooShort);
    }
    let magic = u32_from_le([content[0], content[1], content[2], content[3]]);
    assert(content@.subrange(0, 4) =~= seq![content@[0], content@[1], content@[2], content@[3]]);
    if magic != CACHE_MAGIC {
        return Err(CacheError::BadMagic);
    }
    let mut out: Vec<u8> = Vec::new();
    let mut i: usize = 4;
    while i < n
        invariant
            n == content@.len(),
            4 <= i <= n,
            out@ == content@.subrange(4, i as int),
        decreases n - i,
    {
        out.push(content[i]);
        i = i + 1;
        assert(out@ =~= content@.subrange(4, i as int));
    }
    Ok(out)
}

/// A cache written by [`encode_cache`] is read back by [`decode_cache`] unchanged.
pub proof fn lemma_cache_roundtrip(payload: Seq<u8>)
    ensures
        cache_spec(payload).len() >= 4,
        le_value(cache_spec(payload).subrange(0, 4)) == CACHE_MAGIC,
        cache_spec(payload).subrange(4, cache_spec(payload).len() as int) == payload,
{
    let c = cache_spec(payload);
    assert(c.subrange(0, 4) =~= le_bytes(CACHE_MAGIC));
    assert(c.subrange(4, c.len() as int) =~= payload);
}

} // verus!
