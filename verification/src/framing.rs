//! The wire format.
//!
//! Every frame on the wire is a four-byte big-endian length followed by that
//! many payload bytes (the default `LengthDelimitedCodec` of tokio-util,
//! which refuses payloads above 8 MiB). The first payload byte tells a
//! control frame (a JSON-encoded `Message`) from a data frame (raw file
//! bytes).
use vstd::prelude::*;
use bytes::BytesMut;
use tokio_util::codec::{Decoder, Encoder, LengthDelimitedCodec};

use crate::protocol::Message;

verus! {

/// Tag byte of a control frame.
pub const TAG_CONTROL: u8 = 0;

/// Tag byte of a data frame.
pub const TAG_DATA: u8 = 1;

/// The largest payload the length-delimited codec accepts (8 MiB).
pub const MAX_FRAME_LEN: usize = 8388608;

#[verifier::external_type_specification]
#[verifier::external_body]
pub struct ExIoError(std::io::Error);

/// A frame as it comes off the wire: its kind and the bytes after the tag.
#[derive(Debug, Clone, PartialEq, Eq)]
pub enum RawFrame {
    /// The JSON text of a control message.
    Control(Vec<u8>),
    /// A chunk of file contents.
    Data(Vec<u8>),
}

impl RawFrame {
    /// The tag byte this frame is written with.
    pub open spec fn tag(&self) -> u8 {
        match self {
            RawFrame::Control(_) => TAG_CONTROL,
            RawFrame::Data(_) => TAG_DATA,
        }
    }

    /// The bytes after the tag.
    pub open spec fn body(&self) -> Seq<u8> {
        match self {
            RawFrame::Control(b) => b@,
            RawFrame::Data(b) => b@,
        }
    }
}

/// A frame whose control payload has been decoded into a `Message`.
#[derive(Debug, Clone, PartialEq, Eq)]
pub enum Frame {
    Control(Message),
    Data(Vec<u8>),
}

/// Why bytes from the wire are not a frame, or a frame is not what was expected.
#[derive(Debug, Clone, Copy, PartialEq, Eq)]
pub enum FrameError {
    /// A frame with no tag byte.
    Empty,
    /// A tag byte that is neither control nor data.
    UnknownTag(u8),
    /// A payload above `MAX_FRAME_LEN`, on the way out or announced on the way in.
    TooLarge,
    /// A data frame where a control message was expected.
    ExpectedControl,
}

// -------- the length prefix --------

/// The four big-endian bytes of `n`.
pub open spec fn be32(n: nat) -> Seq<u8> {
    seq![
        (n / 16777216 % 256) as u8,
        (n / 65536 % 256) as u8,
        (n / 256 % 256) as u8,
        (n % 256) as u8,
    ]
}

/// The number that four big-endian bytes stand for.
pub open spec fn be32_value(b: Seq<u8>) -> nat {
    (b[0] as nat) * 16777216 + (b[1] as nat) * 65536 + (b[2] as nat) * 256 + (b[3] as nat)
}

/// A payload as it is written to the wire.
pub open spec fn wire_form(payload: Seq<u8>) -> Seq<u8> {
    be32(payload.len()) + payload
}

/// What the codec reads from the front of `buf`: nothing yet (`Ok(None)`),
/// one payload and the bytes after it, or an error for an oversized length.
pub open spec fn spec_split_wire(buf: Seq<u8>) -> Result<Option<(Seq<u8>, Seq<u8>)>, ()> {
    if buf.len() < 4 {
        Ok(None)
    } else {
        let n = be32_value(buf.take(4));
        if n > MAX_FRAME_LEN {
            Err(())
        } else if buf.len() < 4 + n {
            Ok(None)
        } else {
            Ok(Some((buf.subrange(4, 4 + n as int), buf.skip(4 + n as int))))
        }
    }
}

/// `LengthDelimitedCodec::encode` with the default settings: a four-byte
/// big-endian length, then the payload; an error for payloads above 8 MiB.
#[verifier::external_body]
fn codec_encode(payload: &[u8]) -> (res: Result<Vec<u8>, std::io::Error>)
    ensures
        match res {
            Ok(v) => payload@.len() <= MAX_FRAME_LEN && v@ == wire_form(payload@),
            Err(_) => payload@.len() > MAX_FRAME_LEN,
        },
{
    let mut codec = LengthDelimitedCodec::new();
    let mut dst = BytesMut::new();
    match codec.encode(payload, &mut dst) {
        Ok(()) => Ok(dst.to_vec()),
        Err(e) => Err(e),
    }
}

/// `LengthDelimitedCodec::decode` on a fresh codec with the default settings:
/// it reads the length and, if the whole payload is there, splits it off.
#[verifier::external_body]
fn codec_decode(buf: &[u8]) -> (res: Result<Option<(Vec<u8>, Vec<u8>)>, std::io::Error>)
    ensures
        match res {
            Ok(Some((frame, rest))) => spec_split_wire(buf@) == Ok::<_, ()>(Some((frame@, rest@))),
            Ok(None) => spec_split_wire(buf@) == Ok::<_, ()>(None::<(Seq<u8>, Seq<u8>)>),
            Err(_) => spec_split_wire(buf@) is Err,
        },
{
    let mut codec = LengthDelimitedCodec::new();
    let mut src = BytesMut::from(buf);
    match codec.decode(&mut src) {
        Ok(Some(frame)) => Ok(Some((frame.to_vec(), src.to_vec()))),
        Ok(None) => Ok(None),
        Err(e) => Err(e),
    }
}

// -------- the tag byte --------

/// The payload of a frame: its tag, then its body.
pub open spec fn spec_payload(tag: u8, body: Seq<u8>) -> Seq<u8> {
    seq![tag] + body
}

/// How a payload is read back: its tag and body, or why it is not a frame.
pub open spec fn spec_decode_payload(p: Seq<u8>) -> Result<(u8, Seq<u8>), FrameError> {
    if p.len() == 0 {
        Err(FrameError::Empty)
    } else if p[0] == TAG_CONTROL || p[0] == TAG_DATA {
        Ok((p[0], p.skip(1)))
    } else {
        Err(FrameError::UnknownTag(p[0]))
    }
}

fn tagged(tag: u8, body: &[u8]) -> (v: Vec<u8>)
    ensures
        v@ == spec_payload(tag, body@),
{
    let mut v: Vec<u8> = Vec::with_capacity(body.len());
    v.push(tag);
    let mut i: usize = 0;
    while i < body.len()
        invariant
            i <= body@.len(),
            v@ == seq![tag] + body@.take(i as int),
        decreases body@.len() - i,
    {
        v.push(body[i]);
        i = i + 1;
        assert(body@.take(i as int) == body@.take(i - 1 as int).push(body@[i - 1]));
    }
    assert(body@.take(body@.len() as int) == body@);
    v
}

/// The payload of a control frame holding the JSON text `json`.
pub fn encode_control(json: &[u8]) -> (v: Vec<u8>)
    ensures
        v@ == spec_payload(TAG_CONTROL, json@),
{
    tagged(TAG_CONTROL, json)
}

/// The payload of a data frame holding `data`.
pub fn encode_data(data: &[u8]) -> (v: Vec<u8>)
    ensures
        v@ == spec_payload(TAG_DATA, data@),
{
    tagged(TAG_DATA, data)
}

/// Reads a payload: an empty one and an unknown tag are errors.
pub fn decode_payload(payload: &[u8]) -> (res: Result<RawFrame, FrameError>)
    ensures
        match res {
            Ok(f) => spec_decode_payload(payload@) == Ok::<_, FrameError>((f.tag(), f.body())),
            Err(e) => spec_decode_payload(payload@) == Err::<(u8, Seq<u8>), _>(e),
        },
{
    if payload.len() == 0 {
        return Err(FrameError::Empty);
    }
    let tag = payload[0];
    if tag != TAG_CONTROL && tag != TAG_DATA {
        return Err(FrameError::UnknownTag(tag));
    }
    let mut body: Vec<u8> = Vec::with_capacity(payload.len() - 1);
    let mut i: usize = 1;
    while i < payload.len()
        invariant
            1 <= i <= payload@.len(),
            body@ == payload@.subrange(1, i as int),
        decreases payload@.len() - i,
    {
        body.push(payload[i]);
        i = i + 1;
        assert(payload@.subrange(1, i as int) == payload@.subrange(1, i - 1 as int).push(payload@[i - 1]));
    }
    assert(payload@.subrange(1, payload@.len() as int) == payload@.skip(1));
    if tag == TAG_CONTROL {
        Ok(RawFrame::Control(body))
    } else {
        Ok(RawFrame::Data(body))
    }
}

/// The bytes that carry `payload` on the wire.
pub fn wire_frame(payload: &[u8]) -> (res: Result<Vec<u8>, FrameError>)
    ensures
        match res {
            Ok(v) => payload@.len() <= MAX_FRAME_LEN && v@ == wire_form(payload@),
            Err(e) => payload@.len() > MAX_FRAME_LEN && e == FrameError::TooLarge,
        },
{
    match codec_encode(payload) {
        Ok(v) => Ok(v),
        Err(_) => Err(FrameError::TooLarge),
    }
}

/// What `next_frame` reads from the front of `buf`.
pub open spec fn spec_next_frame(buf: Seq<u8>) -> Result<Option<((u8, Seq<u8>), Seq<u8>)>, FrameError> {
    match spec_split_wire(buf) {
        Err(_) => Err(FrameError::TooLarge),
        Ok(None) => Ok(None),
        Ok(Some((payload, rest))) => match spec_decode_payload(payload) {
            Ok(f) => Ok(Some((f, rest))),
            Err(e) => Err(e),
        },
    }
}

/// Reads the next frame from the bytes received so far: `Ok(None)` while the
/// frame is incomplete, otherwise the frame and the bytes after it.
pub fn next_frame(buf: &[u8]) -> (res: Result<Option<(RawFrame, Vec<u8>)>, FrameError>)
    ensures
        match res {
            Ok(Some((f, rest))) => spec_next_frame(buf@) == Ok::<_, FrameError>(Some(((f.tag(), f.body()), rest@))),
            Ok(None) => spec_next_frame(buf@) == Ok::<_, FrameError>(None::<((u8, Seq<u8>), Seq<u8>)>),
            Err(e) => spec_next_frame(buf@) == Err::<Option<((u8, Seq<u8>), Seq<u8>)>, _>(e),
        },
{
    match codec_decode(buf) {
        Err(_) => Err(FrameError::TooLarge),
        Ok(None) => Ok(None),
        Ok(Some((payload, rest))) => match decode_payload(payload.as_slice()) {
            Ok(f) => Ok(Some((f, rest))),
            Err(e) => Err(e),
        },
    }
}

/// A received frame that must be a control message.
pub fn expect_control(frame: Frame) -> (res: Result<Message, FrameError>)
    ensures
        match frame {
            Frame::Control(m) => res == Ok::<Message, FrameError>(m),
            Frame::Data(_) => res == Err::<Message, _>(FrameError::ExpectedControl),
        },
{
    match frame {
        Frame::Control(m) => Ok(m),
        Frame::Data(_) => Err(FrameError::ExpectedControl),
    }
}

// -------- laws --------

/// The length prefix reads back the length it was written with.
pub proof fn lemma_be32_roundtrip(n: nat)
    requires
        n < 4294967296,
    ensures
        be32(n).len() == 4,
        be32_value(be32(n)) == n,
{
    let b = be32(n);
    assert(b[0] as nat == n / 16777216 % 256);
    assert(b[1] as nat == n / 65536 % 256);
    assert(b[2] as nat == n / 256 % 256);
    assert(b[3] as nat == n % 256);
    assert((n / 16777216 % 256) * 16777216 + (n / 65536 % 256) * 65536 + (n / 256 % 256) * 256
        + n % 256 == n) by (nonlinear_arith)
        requires
            n < 4294967296,
    ;
}

/// A payload reads back, tag and body, as it was written.
pub proof fn law_payload_roundtrip(tag: u8, body: Seq<u8>)
    requires
        tag == TAG_CONTROL || tag == TAG_DATA,
    ensures
        spec_decode_payload(spec_payload(tag, body)) == Ok::<_, FrameError>((tag, body)),
{
    assert(spec_payload(tag, body).skip(1) =~= body);
}

/// A payload written to the wire is read back whole, whatever follows it.
pub proof fn law_wire_roundtrip(payload: Seq<u8>, rest: Seq<u8>)
    requires
        payload.len() <= MAX_FRAME_LEN,
    ensures
        spec_split_wire(wire_form(payload) + rest) == Ok::<_, ()>(Some((payload, rest))),
{
    let buf = wire_form(payload) + rest;
    lemma_be32_roundtrip(payload.len());
    assert(buf.take(4) =~= be32(payload.len()));
    assert(buf.subrange(4, 4 + payload.len() as int) =~= payload);
    assert(buf.skip(4 + payload.len() as int) =~= rest);
}

/// A frame written to the wire is read back, tag and body, by `next_frame`,
/// and the bytes after it are left for the next call.
pub proof fn law_frame_roundtrip(tag: u8, body: Seq<u8>, rest: Seq<u8>)
    requires
        tag == TAG_CONTROL || tag == TAG_DATA,
        body.len() < MAX_FRAME_LEN,
    ensures
        spec_next_frame(wire_form(spec_payload(tag, body)) + rest)
            == Ok::<_, FrameError>(Some(((tag, body), rest))),
{
    law_wire_roundtrip(spec_payload(tag, body), rest);
    law_payload_roundtrip(tag, body);
}

/// A prefix shorter than a whole frame is not yet a frame.
pub proof fn law_partial_frame_waits(payload: Seq<u8>, k: int)
    requires
        payload.len() <= MAX_FRAME_LEN,
        0 <= k < wire_form(payload).len(),
    ensures
        spec_split_wire(wire_form(payload).take(k)) == Ok::<_, ()>(None::<(Seq<u8>, Seq<u8>)>),
{
    let w = wire_form(payload);
    if k >= 4 {
        lemma_be32_roundtrip(payload.len());
        assert(w.take(k).take(4) =~= be32(payload.len()));
    }
}

} // verus!
