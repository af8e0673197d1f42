//! The length-delimited transport frame and its wire format.
//!
//! A frame is `id:u16_be | seq:u8 | type:u8 | len:u32_be | payload[len]`.
//! A logical message is a header frame (`seq` 0) followed by one data frame
//! (`seq` 1) with the same id.

use vstd::prelude::*;

use crate::endian::{be_u16, be_u32, put_u16, put_u32, read_u16, read_u32, u16_from_be, u32_from_be};
use crate::error::Error;
use crate::message::MessageId;

verus! {

/// What a frame's payload carries.
#[derive(Clone, Copy, PartialEq, Eq, Structural, Debug)]
pub enum PayloadType {
    /// A marshaled protocol header.
    Header,
    /// A message body.
    Data,
    /// Reserved for stream-style messages.
    Trailer,
}

/// The discriminant byte of a payload type on the wire.
pub open spec fn spec_type_byte(t: PayloadType) -> u8 {
    match t {
        PayloadType::Header => 0,
        PayloadType::Data => 1,
        PayloadType::Trailer => 2,
    }
}

/// The payload type a discriminant byte stands for.
pub open spec fn spec_type_of_byte(b: u8) -> PayloadType
    recommends
        b <= 2,
{
    if b == 0 {
        PayloadType::Header
    } else if b == 1 {
        PayloadType::Data
    } else {
        PayloadType::Trailer
    }
}

/// The smallest unit of the framed transport.
#[derive(Debug)]
pub struct Frame {
    /// Id of the logical message this frame belongs to.
    pub id: MessageId,
    /// 0 for the header frame, 1 for the body frame.
    pub seq_no: u8,
    /// What the payload carries.
    pub payload_type: PayloadType,
    /// The payload bytes.
    pub payload: Vec<u8>,
}

/// The mathematical value of a frame.
pub struct FrameView {
    /// Id of the logical message.
    pub id: MessageId,
    /// Position of this frame within its logical message.
    pub seq_no: u8,
    /// What the payload carries.
    pub payload_type: PayloadType,
    /// The payload bytes.
    pub payload: Seq<u8>,
}

impl View for Frame {
    type V = FrameView;

    open spec fn view(&self) -> FrameView {
        FrameView {
            id: self.id,
            seq_no: self.seq_no,
            payload_type: self.payload_type,
            payload: self.payload@,
        }
    }
}

impl Frame {
    /// Builds a frame from its parts.
    pub fn new(id: MessageId, seq_no: u8, payload_type: PayloadType, payload: Vec<u8>) -> (r: Self)
        ensures
            r@ == (FrameView { id, seq_no, payload_type, payload: payload@ }),
    {
        Frame { id, seq_no, payload_type, payload }
    }
}

/// A frame can be put on the wire when its payload length fits the 32-bit
/// length field.
pub open spec fn frame_wf(f: FrameView) -> bool {
    f.payload.len() <= 0xFFFF_FFFF
}

/// The bytes of a frame on the wire.
pub open spec fn spec_encode_frame(f: FrameView) -> Seq<u8>
    recommends
        frame_wf(f),
{
    be_u16(f.id) + seq![f.seq_no, spec_type_byte(f.payload_type)] + be_u32(
        f.payload.len() as u32,
    ) + f.payload
}

/// Parses the frame at the head of `s`: the frame and the count of bytes it
/// occupies, or `None` when `s` does not start with a complete frame.
pub open spec fn spec_parse_frame(s: Seq<u8>) -> Option<(FrameView, int)> {
    if s.len() < 8 {
        None
    } else {
        let tb = s[3];
        let len = u32_from_be(s.subrange(4, 8)) as int;
        if tb > 2 {
            None
        } else if s.len() < 8 + len {
            None
        } else {
            Some(
                (
                    FrameView {
                        id: u16_from_be(s.subrange(0, 2)),
                        seq_no: s[2],
                        payload_type: spec_type_of_byte(tb),
                        payload: s.subrange(8, 8 + len),
                    },
                    8 + len,
                ),
            )
        }
    }
}

/// How many bytes the frame at the head of `s` occupies, by its length
/// field.
pub open spec fn spec_frame_size(s: Seq<u8>) -> int
    recommends
        s.len() >= 8,
{
    8 + u32_from_be(s.subrange(4, 8)) as int
}

/// Whether `s` starts with all the bytes of one frame, parseable or not.
pub open spec fn spec_frame_complete(s: Seq<u8>) -> bool {
    s.len() >= 8 && s.len() >= spec_frame_size(s)
}

/// A frame parses exactly when its bytes are all there and its payload type
/// is known, and it then occupies what its length field says.
pub proof fn lemma_parse_frame_size(s: Seq<u8>)
    ensures
        spec_parse_frame(s) is Some <==> (spec_frame_complete(s) && s.len() >= 4 && s[3] <= 2),
        spec_parse_frame(s) matches Some((f, c)) ==> c == spec_frame_size(s),
{
}

/// Whether the byte at `pos` starts a complete frame.
pub fn frame_complete_at(buf: &Vec<u8>, pos: usize) -> (r: bool)
    requires
        pos <= buf@.len(),
    ensures
        r == spec_frame_complete(buf@.skip(pos as int)),
{
    let n = buf.len();
    if n - pos < 8 {
        return false;
    }
    let len32 = read_u32(buf, pos + 4);
    proof {
        assert(buf@.skip(pos as int).subrange(4, 8) =~= buf@.subrange(
            pos as int + 4,
            pos as int + 8,
        ));
    }
    n - pos - 8 >= len32 as usize
}

/// Parsing inverts encoding: a well-formed frame followed by anything parses
/// back to itself, consuming exactly its own bytes.
pub proof fn lemma_frame_round_trip(f: FrameView, rest: Seq<u8>)
    requires
        frame_wf(f),
    ensures
        spec_parse_frame(spec_encode_frame(f) + rest) == Some(
            (f, 8 + f.payload.len() as int),
        ),
{
    let s = spec_encode_frame(f) + rest;
    crate::endian::lemma_u16_round_trip(f.id);
    crate::endian::lemma_u32_round_trip(f.payload.len() as u32);
    assert(s.subrange(0, 2) =~= be_u16(f.id));
    assert(s.subrange(4, 8) =~= be_u32(f.payload.len() as u32));
    assert(s[2] == f.seq_no);
    assert(s[3] == spec_type_byte(f.payload_type));
    assert(s.subrange(8, 8 + f.payload.len() as int) =~= f.payload);
}

/// Returns the wire discriminant of a payload type.
pub fn type_byte(t: PayloadType) -> (r: u8)
    ensures
        r == spec_type_byte(t),
{
    match t {
        PayloadType::Header => 0,
        PayloadType::Data => 1,
        PayloadType::Trailer => 2,
    }
}

/// Appends the wire bytes of `f` to `out`.
///
/// Fails, leaving `out` unchanged, exactly when the payload is too long for
/// the 32-bit length field.
pub fn encode_frame(out: &mut Vec<u8>, f: &Frame) -> (r: Result<(), Error>)
    ensures
        frame_wf(f@) ==> r is Ok && final(out)@ == old(out)@ + spec_encode_frame(f@),
        !frame_wf(f@) ==> (r matches Err(e) && e is Internal && final(out)@ == old(out)@),
{
    if f.payload.len() as u64 > 0xFFFF_FFFFu64 {
        return Err(Error::Internal("frame payload too long for the length field".to_string()));
    }
    put_u16(out, f.id);
    out.push(f.seq_no);
    out.push(type_byte(f.payload_type));
    put_u32(out, f.payload.len() as u32);
    out.extend_from_slice(f.payload.as_slice());
    assert(out@ == old(out)@ + spec_encode_frame(f@));
    Ok(())
}

/// Parses the frame starting at `pos` in `buf`.
///
/// Returns the frame and the position of the first byte after it. Fails with
/// `ParseError` exactly when the bytes at `pos` do not start a complete
/// frame, which covers a truncated prefix and an unknown payload type.
pub fn decode_frame(buf: &Vec<u8>, pos: usize) -> (r: Result<(Frame, usize), Error>)
    requires
        pos <= buf@.len(),
    ensures
        r matches Ok((f, end)) ==> {
            &&& spec_parse_frame(buf@.skip(pos as int)) == Some((f@, end - pos))
            &&& pos < end <= buf@.len()
        },
        r is Err ==> spec_parse_frame(buf@.skip(pos as int)) is None,
        r matches Err(e) ==> e is ParseError,
{
    let n = buf.len();
    let ghost s = buf@.skip(pos as int);
    if n - pos < 8 {
        return Err(Error::ParseError("truncated frame header".to_string()));
    }
    let id = read_u16(buf, pos);
    let seq_no = buf[pos + 2];
    let tb = buf[pos + 3];
    let len32 = read_u32(buf, pos + 4);
    proof {
        assert(s.subrange(0, 2) =~= buf@.subrange(pos as int, pos as int + 2));
        assert(s.subrange(4, 8) =~= buf@.subrange(pos as int + 4, pos as int + 8));
        assert(s[2] == buf@[pos as int + 2]);
        assert(s[3] == buf@[pos as int + 3]);
    }
    if tb > 2 {
        return Err(Error::ParseError("unknown payload type".to_string()));
    }
    let payload_type = if tb == 0 {
        PayloadType::Header
    } else if tb == 1 {
        PayloadType::Data
    } else {
        PayloadType::Trailer
    };
    let len = len32 as usize;
    if n - (pos + 8) < len {
        return Err(Error::ParseError("truncated frame payload".to_string()));
    }
    let mut payload: Vec<u8> = Vec::new();
    let mut i: usize = 0;
    while i < len
        invariant
            i <= len,
            n == buf@.len(),
            pos + 8 + len <= n,
            payload@ =~= buf@.subrange(pos as int + 8, pos as int + 8 + i as int),
        decreases len - i,
    {
        payload.push(buf[pos + 8 + i]);
        i = i + 1;
    }
    let end = pos + 8 + len;
    let f = Frame { id, seq_no, payload_type, payload };
    proof {
        assert(s.subrange(8, 8 + len as int) =~= buf@.subrange(
            pos as int + 8,
            pos as int + 8 + len as int,
        ));
        assert(spec_parse_frame(s) == Some((f@, 8 + len as int)));
    }
    Ok((f, end))
}

} // verus!
