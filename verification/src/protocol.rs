//! The wire protocol: message types, content hashing and the length-prefixed
//! framing (`[4-byte big-endian length][payload]`).

use vstd::prelude::*;
use bytes::BytesMut;
use crate::buffer::{is_64_bit_target, buffer_contents, be_u32_bytes, buf_len, buf_byte, buf_advance, buf_split_to, buf_reserve, buf_put_u32, buf_extend_from_slice};

verus! {

pub const PROTOCOL_VERSION: u32 = 1;

/// 16 MiB.
pub const DEFAULT_MAX_FRAME_SIZE: usize = 16 * 1024 * 1024;

/// What kind of clipboard content a payload carries.
#[derive(Debug, Clone, Copy, PartialEq, Eq, Structural)]
pub enum ContentType {
    Text,
    Image,
    Url,
}

/// The identity of a connected peer (a UUID, held as its 128-bit value).
#[derive(Debug, Clone, Copy, PartialEq, Eq, Structural, Hash)]
pub struct ClientId {
    pub value: u128,
}

/// One piece of clipboard content.
#[derive(Debug, Clone)]
pub struct ClipboardContent {
    pub content_type: ContentType,
    pub data: Vec<u8>,
}

/// One line of the history listing that the server sends to a client.
#[derive(Debug, Clone)]
pub struct HistoryEntry {
    pub index: usize,
    pub content_type: ContentType,
    pub hash: [u8; 32],
    pub origin_client: ClientId,
    pub preview: String,
    pub size_bytes: usize,
    pub timestamp_secs: u64,
}

/// Every message of the protocol, in both directions.
#[derive(Debug, Clone)]
pub enum Message {
    Hello { client_id: ClientId, protocol_version: u32 },
    Welcome { client_id: ClientId },
    ClipboardUpdate { content_type: ContentType, data: Vec<u8>, hash: [u8; 32], origin_client: ClientId },
    Ping,
    Pong,
    HistoryRequest { count: usize },
    HistoryResponse { entries: Vec<HistoryEntry> },
    HistoryFetch { hash: [u8; 32] },
    HistoryContent { content_type: ContentType, data: Vec<u8> },
    HistoryClear,
    HistoryClearAck,
}

/// The BLAKE3 digest of a byte string, as `blake3::hash` computes it.
pub uninterp spec fn blake3_digest(data: Seq<u8>) -> Seq<u8>;

/// The content hash used for deduplication: the 32-byte BLAKE3 digest of
/// `data`, computed by `blake3::hash`.  Nothing about the digest beyond its
/// being a function of `data` is claimed.
#[verifier::external_body]
pub fn content_hash(data: &[u8]) -> (h: [u8; 32])
    ensures
        h@ == blake3_digest(data@),
{
    *blake3::hash(data).as_bytes()
}

/// Why the codec refused a frame.
#[derive(Debug, Clone, Copy, PartialEq, Eq, Structural)]
pub enum CodecError {
    /// An incoming frame declared a payload longer than the limit.
    FrameTooLarge { length: usize },
    /// An outgoing payload is longer than the limit.
    MessageTooLarge { size: usize },
}

/// The value of the first four bytes of `s`, read as a big-endian integer.
pub open spec fn be_u32_value(s: Seq<u8>) -> int {
    s[0] * 0x100_0000 + s[1] * 0x1_0000 + s[2] * 0x100 + s[3]
}

/// The frame that carries `payload`: its length in four big-endian bytes,
/// then the payload itself.
pub open spec fn frame(payload: Seq<u8>) -> Seq<u8> {
    be_u32_bytes(payload.len() as u32) + payload
}

/// What reading one frame from the front of a buffer gives.
pub enum FrameRead {
    /// Not a whole frame yet: wait for more bytes.
    Incomplete,
    /// The header declares a payload longer than the limit.
    TooLarge { length: int },
    /// A whole frame: its payload, and the bytes after it.
    Frame { payload: Seq<u8>, rest: Seq<u8> },
}

/// Reading one frame from the front of `s` under the payload limit `max`.
pub open spec fn read_frame(max: int, s: Seq<u8>) -> FrameRead {
    if s.len() < 4 {
        FrameRead::Incomplete
    } else {
        let length = be_u32_value(s);
        if length > max {
            FrameRead::TooLarge { length }
        } else if s.len() < 4 + length {
            FrameRead::Incomplete
        } else {
            FrameRead::Frame { payload: s.subrange(4, 4 + length), rest: s.skip(4 + length) }
        }
    }
}

/// The length-prefixed frame codec, with its limit on payload size.
pub struct MessageCodec {
    max_frame_size: usize,
}

impl MessageCodec {
    /// The largest payload, in bytes, that this codec accepts.
    pub closed spec fn max_frame_size_spec(&self) -> usize {
        self.max_frame_size
    }

    pub fn new(max_frame_size: usize) -> (codec: Self)
        ensures
            codec.max_frame_size_spec() == max_frame_size,
    {
        Self { max_frame_size }
    }

    /// Takes one frame off the front of `src`.
    ///
    /// With fewer than four bytes, or fewer bytes than the header declares,
    /// nothing is taken and `Ok(None)` is returned (the buffer may have grown
    /// its capacity); a header that declares more than the limit is an error
    /// and leaves the buffer as it was; otherwise the header and payload are
    /// removed and the payload is returned.  Growing the buffer is claimed
    /// safe on 64-bit targets only (see `is_64_bit_target`).
    pub fn decode(&mut self, src: &mut BytesMut) -> (r: Result<Option<BytesMut>, CodecError>)
        requires
            is_64_bit_target(),
        ensures
            *final(self) == *old(self),
            match read_frame(old(self).max_frame_size_spec() as int, buffer_contents(*old(src))) {
                FrameRead::Incomplete => r == Ok::<Option<BytesMut>, CodecError>(None)
                    && buffer_contents(*final(src)) == buffer_contents(*old(src)),
                FrameRead::TooLarge { length } => r == Err::<Option<BytesMut>, CodecError>(
                    CodecError::FrameTooLarge { length: length as usize },
                ) && buffer_contents(*final(src)) == buffer_contents(*old(src)),
                FrameRead::Frame { payload, rest } => match r {
                    Ok(Some(p)) => buffer_contents(p) == payload
                        && buffer_contents(*final(src)) == rest,
                    _ => false,
                },
            },
    {
        let len = buf_len(src);
        if len < 4 {
            return Ok(None);
        }
        let b0 = buf_byte(src, 0);
        let b1 = buf_byte(src, 1);
        let b2 = buf_byte(src, 2);
        let b3 = buf_byte(src, 3);
        let header: u32 = (b0 as u32) * 0x100_0000 + (b1 as u32) * 0x1_0000 + (b2 as u32) * 0x100
            + (b3 as u32);
        let length = header as usize;
        if length > self.max_frame_size {
            return Err(CodecError::FrameTooLarge { length });
        }
        if len - 4 < length {
            buf_reserve(src, length - (len - 4));
            return Ok(None);
        }
        buf_advance(src, 4);
        let payload = buf_split_to(src, length);
        Ok(Some(payload))
    }

    /// Appends the frame of `payload` to `dst`, unless the payload is longer
    /// than the limit, in which case `dst` is left as it was.  Growing the
    /// buffer is claimed safe on 64-bit targets only.
    pub fn encode(&mut self, payload: &[u8], dst: &mut BytesMut) -> (r: Result<(), CodecError>)
        requires
            is_64_bit_target(),
            buffer_contents(*old(dst)).len() + 4 + payload@.len() <= isize::MAX,
        ensures
            *final(self) == *old(self),
            payload@.len() > old(self).max_frame_size_spec() ==> r == Err::<(), CodecError>(
                CodecError::MessageTooLarge { size: payload@.len() as usize },
            ) && buffer_contents(*final(dst)) == buffer_contents(*old(dst)),
            payload@.len() <= old(self).max_frame_size_spec() ==> r == Ok::<(), CodecError>(())
                && buffer_contents(*final(dst)) == buffer_contents(*old(dst)) + frame(payload@),
    {
        let size = payload.len();
        if size > self.max_frame_size {
            return Err(CodecError::MessageTooLarge { size });
        }
        buf_reserve(dst, 4 + size);
        buf_put_u32(dst, size as u32);
        buf_extend_from_slice(dst, payload);
        Ok(())
    }
}

impl Default for MessageCodec {
    fn default() -> (codec: Self)
        ensures
            codec.max_frame_size_spec() == DEFAULT_MAX_FRAME_SIZE,
    {
        Self { max_frame_size: DEFAULT_MAX_FRAME_SIZE }
    }
}

/// Reading back the four big-endian bytes of `n` gives `n`.
pub proof fn lemma_be_u32_roundtrip(n: u32)
    ensures
        be_u32_value(be_u32_bytes(n)) == n,
{
    assert(n == (n / 0x100_0000) * 0x100_0000 + ((n / 0x1_0000) % 0x100) * 0x1_0000 + ((n / 0x100)
        % 0x100) * 0x100 + n % 0x100) by (nonlinear_arith);
}

/// A frame reads back as the payload it was made from, whatever bytes follow
/// it: for every payload that `encode` accepts under the limit `max` and
/// whose length a four-byte header can carry, reading the front of
/// `frame(payload) + rest` yields `payload` and leaves `rest`.
pub proof fn lemma_frame_roundtrip(max: int, payload: Seq<u8>, rest: Seq<u8>)
    requires
        payload.len() <= max,
        payload.len() <= u32::MAX,
    ensures
        read_frame(max, frame(payload) + rest) == (FrameRead::Frame { payload, rest }),
{
    let s = frame(payload) + rest;
    lemma_be_u32_roundtrip(payload.len() as u32);
    assert(s.subrange(4, 4 + payload.len() as int) =~= payload);
    assert(s.skip(4 + payload.len() as int) =~= rest);
}

/// A frame that has only partly arrived is not read: every strict prefix of
/// the frame of an acceptable payload reads as `Incomplete`, so `decode`
/// returns `Ok(None)` and keeps the bytes until the rest arrives.
pub proof fn lemma_partial_frame_incomplete(max: int, payload: Seq<u8>, k: int)
    requires
        payload.len() <= max,
        payload.len() <= u32::MAX,
        0 <= k < frame(payload).len(),
    ensures
        read_frame(max, frame(payload).take(k)) == FrameRead::Incomplete,
{
    if k >= 4 {
        lemma_be_u32_roundtrip(payload.len() as u32);
    }
}

/// Whether two content hashes are equal.
pub fn same_hash(a: &[u8; 32], b: &[u8; 32]) -> (r: bool)
    ensures
        r == (a@ == b@),
{
    let mut i: usize = 0;
    while i < 32
        invariant
            i <= 32,
            a@.len() == 32,
            b@.len() == 32,
            forall|j: int| 0 <= j < i ==> a@[j] == b@[j],
        decreases 32 - i,
    {
        if a[i] != b[i] {
            return false;
        }
        i = i + 1;
    }
    assert(a@ =~= b@);
    true
}

/// The view of an optional hash.
pub open spec fn hash_view(h: Option<[u8; 32]>) -> Option<Seq<u8>> {
    match h {
        Some(x) => Some(x@),
        None => None,
    }
}

/// Whether an optional hash is `Some(h)`.
pub fn is_hash(opt: &Option<[u8; 32]>, h: &[u8; 32]) -> (r: bool)
    ensures
        r == (hash_view(*opt) == Some(h@)),
{
    match opt {
        Some(x) => same_hash(x, h),
        None => false,
    }
}

/// The greeting a client opens a connection with.
pub fn hello(client_id: ClientId) -> (m: Message)
    ensures
        m == (Message::Hello { client_id, protocol_version: PROTOCOL_VERSION }),
{
    Message::Hello { client_id, protocol_version: PROTOCOL_VERSION }
}

/// Why a peer's opening message was refused.
#[derive(Debug, Clone, Copy, PartialEq, Eq, Structural)]
pub enum HandshakeError {
    /// The client speaks another protocol version.
    VersionMismatch { client_id: ClientId, protocol_version: u32 },
    /// The first message was not the expected greeting.
    UnexpectedMessage,
}

/// The update message that announces local clipboard content, or `None`
/// when the content is larger than `max_size` bytes and is not shared.
pub fn local_update(content: ClipboardContent, max_size: usize, origin_client: ClientId) -> (m: Option<Message>)
    ensures
        content.data@.len() > max_size ==> m == None::<Message>,
        content.data@.len() <= max_size ==> match m {
            Some(Message::ClipboardUpdate { content_type, data, hash, origin_client: o }) => content_type
                == content.content_type && data@ == content.data@ && hash@ == blake3_digest(
                content.data@,
            ) && o == origin_client,
            _ => false,
        },
{
    if content.data.len() > max_size {
        return None;
    }
    let hash = content_hash(content.data.as_slice());
    Some(Message::ClipboardUpdate { content_type: content.content_type, data: content.data, hash, origin_client })
}

} // verus!
