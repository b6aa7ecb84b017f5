//! Frames: a length prefix of four bytes, big-endian, and then that many
//! bytes of UTF-8 text.

use vstd::prelude::*;
use vstd::slice::{slice_subrange, slice_to_vec};
use vstd::utf8::{decode_utf8, encode_utf8, encode_utf8_decode_utf8, encode_utf8_valid_utf8, valid_utf8};

use crate::error::ErrorKind;

verus! {

/// Number of bytes of the length prefix.
pub const PREFIX_LEN: usize = 4;

/// Why a frame could not be read or written.
#[derive(Clone, Copy, Debug, PartialEq, Eq, Structural)]
pub enum FrameError {
    /// Fewer than four bytes of length prefix arrived.
    TruncatedLength,
    /// The prefix declares more bytes than arrived after it.
    TruncatedBody,
    /// The payload is not UTF-8.
    InvalidUtf8,
    /// The payload is longer than a prefix can declare.
    PayloadTooLarge,
}

impl FrameError {
    /// The kind of failure that an unreadable or unwritable frame is: a failed
    /// transport, whatever the reason.
    pub open spec fn kind_of(self) -> ErrorKind {
        ErrorKind::Transport
    }

    pub fn kind(&self) -> (kind: ErrorKind)
        ensures
            kind == self.kind_of(),
    {
        ErrorKind::Transport
    }
}

/// The number that four prefix bytes declare: big-endian, first byte highest.
pub open spec fn declared_length(prefix: Seq<u8>) -> nat {
    (prefix[0] as nat) * 0x100_0000 + (prefix[1] as nat) * 0x1_0000 + (prefix[2] as nat) * 0x100
        + (prefix[3] as nat)
}

/// The four prefix bytes that declare `len`.
pub open spec fn length_prefix(len: nat) -> Seq<u8> {
    seq![
        (len / 0x100_0000) as u8,
        ((len / 0x1_0000) % 0x100) as u8,
        ((len / 0x100) % 0x100) as u8,
        (len % 0x100) as u8,
    ]
}

/// The frame of a payload: the length of its UTF-8 bytes, then the bytes.
pub open spec fn frame_of(payload: Seq<char>) -> Seq<u8> {
    length_prefix(encode_utf8(payload).len()) + encode_utf8(payload)
}

/// What the bytes of a connection decode to: the payload of the frame they
/// start with, or the reason why they hold no frame. Bytes beyond the frame
/// are not looked at.
pub open spec fn decoded(bytes: Seq<u8>) -> Result<Seq<char>, FrameError> {
    if bytes.len() < PREFIX_LEN {
        Err(FrameError::TruncatedLength)
    } else {
        let len = declared_length(bytes.take(PREFIX_LEN as int));
        if bytes.len() - PREFIX_LEN < len {
            Err(FrameError::TruncatedBody)
        } else {
            let body = bytes.subrange(PREFIX_LEN as int, PREFIX_LEN + len);
            if valid_utf8(body) {
                Ok(decode_utf8(body))
            } else {
                Err(FrameError::InvalidUtf8)
            }
        }
    }
}

/// A prefix declares the length it was made for.
pub proof fn lemma_length_round_trip(len: nat)
    requires
        len <= u32::MAX,
    ensures
        length_prefix(len).len() == PREFIX_LEN,
        declared_length(length_prefix(len)) == len,
{
}

/// Decoding the frame of a payload gives the payload back, for every payload
/// whose UTF-8 bytes a prefix can count.
pub proof fn lemma_frame_round_trip(payload: Seq<char>)
    requires
        encode_utf8(payload).len() <= u32::MAX,
    ensures
        decoded(frame_of(payload)) == Ok::<Seq<char>, FrameError>(payload),
{
    let body = encode_utf8(payload);
    let frame = frame_of(payload);
    lemma_length_round_trip(body.len());
    assert(frame.take(PREFIX_LEN as int) == length_prefix(body.len()));
    assert(frame.subrange(PREFIX_LEN as int, PREFIX_LEN + body.len()) == body);
    encode_utf8_valid_utf8(payload);
    encode_utf8_decode_utf8(payload);
}

/// A frame whose prefix declares more bytes than follow it is refused, and the
/// refusal counts as a failed transport.
pub proof fn lemma_short_frame_is_rejected(bytes: Seq<u8>)
    requires
        bytes.len() >= PREFIX_LEN,
        declared_length(bytes.take(PREFIX_LEN as int)) > bytes.len() - PREFIX_LEN,
    ensures
        decoded(bytes) == Err::<Seq<char>, FrameError>(FrameError::TruncatedBody),
        decoded(bytes)->Err_0.kind_of() == ErrorKind::Transport,
{
}

/// `String::from_utf8` of the standard library: it turns bytes into the text
/// they encode, and refuses them exactly if they are not valid UTF-8.
#[verifier::external_body]
fn string_from_utf8(bytes: Vec<u8>) -> (text: Option<String>)
    ensures
        text is Some <==> valid_utf8(bytes@),
        text matches Some(s) ==> s@ == decode_utf8(bytes@),
{
    String::from_utf8(bytes).ok()
}

/// The length that the prefix of a frame declares.
pub fn body_length(prefix: &[u8]) -> (len: Result<usize, FrameError>)
    ensures
        len == if prefix@.len() == PREFIX_LEN {
            Ok::<usize, FrameError>(declared_length(prefix@) as usize)
        } else {
            Err::<usize, FrameError>(FrameError::TruncatedLength)
        },
        len matches Ok(n) ==> n == declared_length(prefix@),
{
    if prefix.len() != PREFIX_LEN {
        return Err(FrameError::TruncatedLength);
    }
    let len: u32 = (prefix[0] as u32) * 0x100_0000 + (prefix[1] as u32) * 0x1_0000 + (
    prefix[2] as u32) * 0x100 + (prefix[3] as u32);
    Ok(len as usize)
}

/// The text that the payload of a frame holds, `len` being the length that
/// the prefix declared.
pub fn body_text(len: usize, body: Vec<u8>) -> (request: Result<String, FrameError>)
    ensures
        match request {
            Ok(text) => body@.len() == len && valid_utf8(body@) && text@ == decode_utf8(body@),
            Err(e) => e == if body@.len() != len {
                FrameError::TruncatedBody
            } else {
                FrameError::InvalidUtf8
            } && !(body@.len() == len && valid_utf8(body@)),
        },
{
    if body.len() != len {
        return Err(FrameError::TruncatedBody);
    }
    match string_from_utf8(body) {
        Some(text) => Ok(text),
        None => Err(FrameError::InvalidUtf8),
    }
}

/// The frame that carries `payload`.
pub fn encode(payload: &str) -> (frame: Result<Vec<u8>, FrameError>)
    ensures
        match frame {
            Ok(bytes) => encode_utf8(payload@).len() <= u32::MAX && bytes@ == frame_of(payload@),
            Err(e) => e == FrameError::PayloadTooLarge && encode_utf8(payload@).len() > u32::MAX,
        },
{
    let body = payload.as_bytes();
    let len = body.len();
    if len > 0xffff_ffff {
        return Err(FrameError::PayloadTooLarge);
    }
    let mut frame: Vec<u8> = Vec::with_capacity(PREFIX_LEN);
    frame.push((len / 0x100_0000) as u8);
    frame.push(((len / 0x1_0000) % 0x100) as u8);
    frame.push(((len / 0x100) % 0x100) as u8);
    frame.push((len % 0x100) as u8);
    assert(frame@ == length_prefix(len as nat));
    let mut i: usize = 0;
    while i < len
        invariant
            i <= len,
            len == body@.len(),
            frame@ == length_prefix(len as nat) + body@.take(i as int),
        decreases len - i,
    {
        frame.push(body[i]);
        assert(body@.take(i + 1) == body@.take(i as int).push(body@[i as int]));
        i += 1;
    }
    assert(body@.take(len as int) == body@);
    Ok(frame)
}

/// Reads the frame that `bytes` start with, all at once.
pub fn decode(bytes: &[u8]) -> (payload: Result<String, FrameError>)
    ensures
        match payload {
            Ok(text) => decoded(bytes@) == Ok::<Seq<char>, FrameError>(text@),
            Err(e) => decoded(bytes@) == Err::<Seq<char>, FrameError>(e),
        },
{
    if bytes.len() < PREFIX_LEN {
        return Err(FrameError::TruncatedLength);
    }
    let prefix = slice_subrange(bytes, 0, PREFIX_LEN);
    assert(prefix@ == bytes@.take(PREFIX_LEN as int));
    let len = match body_length(prefix) {
        Ok(len) => len,
        Err(e) => {
            return Err(e);
        },
    };
    if bytes.len() - PREFIX_LEN < len {
        return Err(FrameError::TruncatedBody);
    }
    let body = slice_to_vec(slice_subrange(bytes, PREFIX_LEN, PREFIX_LEN + len));
    body_text(len, body)
}

} // verus!
