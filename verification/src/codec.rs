//! The codec and its split into independent read and write halves.
//!
//! The halves share no mutable state: each owns its own byte buffer and the
//! pure marshal and unmarshal functions of the protocol. A transport of any
//! kind pumps bytes out of the write half and into the read half.

use vstd::prelude::*;

use crate::error::Error;
use crate::frame::{
    spec_encode_frame, spec_frame_complete, spec_frame_size, spec_parse_frame, encode_frame,
    decode_frame, Frame, FrameView, PayloadType,
};
use crate::message::{Metadata, MessageId};
use crate::protocol::{
    header_wf, spec_marshal_header, spec_parse_header, marshal_header, unmarshal_header, Header,
    HeaderView,
};

verus! {

/// The header frame that carries a marshaled header.
pub open spec fn spec_header_frame(h: HeaderView) -> FrameView {
    FrameView {
        id: crate::protocol::spec_header_id(h),
        seq_no: 0,
        payload_type: PayloadType::Header,
        payload: spec_marshal_header(h),
    }
}

/// The data frame that carries the body bytes of message `id`.
pub open spec fn spec_body_frame(id: MessageId, body: Seq<u8>) -> FrameView {
    FrameView { id, seq_no: 1, payload_type: PayloadType::Data, payload: body }
}

/// Whether `s` starts with all the bytes of a header frame and a body
/// frame, parseable or not.
pub open spec fn spec_message_available(s: Seq<u8>) -> bool {
    spec_frame_complete(s) && spec_frame_complete(s.skip(spec_frame_size(s)))
}

/// The next logical message at the head of `s`: its header, its body bytes
/// and the count of bytes the two frames occupy, or `None` when `s` does
/// not start with two parseable frames whose first payload is a header.
pub open spec fn spec_next_message(s: Seq<u8>) -> Option<(HeaderView, Seq<u8>, int)> {
    match spec_parse_frame(s) {
        Some((f1, c1)) => match spec_parse_header(f1.payload) {
            Some(h) => match spec_parse_frame(s.skip(c1)) {
                Some((f2, c2)) => Some((h, f2.payload, c1 + c2)),
                None => None,
            },
            None => None,
        },
        None => None,
    }
}

/// What one peer's write half puts on the wire for a message, the other
/// peer's read half reads back unchanged: the header frame and body frame
/// of a fitting header and body, followed by anything, parse to exactly
/// that header and that body, consuming exactly the two frames.
#[verifier::rlimit(50)]
pub proof fn lemma_message_round_trip(h: HeaderView, body: Seq<u8>, rest: Seq<u8>)
    requires
        header_fits(h),
        body.len() <= 0xFFFF_FFFF,
    ensures
        spec_next_message(
            spec_encode_frame(spec_header_frame(h)) + spec_encode_frame(
                spec_body_frame(crate::protocol::spec_header_id(h), body),
            ) + rest,
        ) == Some(
            (
                h,
                body,
                spec_encode_frame(spec_header_frame(h)).len() + spec_encode_frame(
                    spec_body_frame(crate::protocol::spec_header_id(h), body),
                ).len() as int,
            ),
        ),
{
    let id = crate::protocol::spec_header_id(h);
    let f1 = spec_header_frame(h);
    let f2 = spec_body_frame(id, body);
    let enc1 = spec_encode_frame(f1);
    let enc2 = spec_encode_frame(f2);
    let s = enc1 + enc2 + rest;
    let c1 = 8 + f1.payload.len() as int;
    let c2 = 8 + f2.payload.len() as int;
    assert(spec_parse_frame(s) == Some((f1, c1))) by {
        assert(s =~= enc1 + (enc2 + rest));
        crate::frame::lemma_frame_round_trip(f1, enc2 + rest);
    }
    assert(spec_parse_header(f1.payload) == Some(h)) by {
        crate::protocol::lemma_header_round_trip(h);
    }
    assert(spec_parse_frame(s.skip(c1)) == Some((f2, c2))) by {
        assert(s.skip(c1) =~= enc2 + rest);
        crate::frame::lemma_frame_round_trip(f2, rest);
    }
    assert(c1 == enc1.len() && c2 == enc2.len());
    assert(spec_next_message(s) == Some((h, body, c1 + c2)));
}

/// A header both marshals and fits in one frame.
pub open spec fn header_fits(h: HeaderView) -> bool {
    header_wf(h) && spec_marshal_header(h).len() <= 0xFFFF_FFFF
}

/// Write half of the codec: owns the outbound wire bytes.
pub struct CodecWriteHalf {
    /// Encoded frames not yet taken by the transport.
    pub writer: Vec<u8>,
}

/// Read half of the codec: owns the inbound wire bytes.
pub struct CodecReadHalf {
    /// Bytes handed in by the transport.
    pub reader: Vec<u8>,
    /// How many bytes of `reader` have been consumed.
    pub pos: usize,
}

/// A codec over one duplex byte stream, before it is split.
pub struct Codec {
    /// Bytes handed in by the transport.
    pub reader: Vec<u8>,
    /// Encoded frames not yet taken by the transport.
    pub writer: Vec<u8>,
}

/// Split a codec into a writing half and a reading half.
pub trait SplittableCodec {
    /// Type of the writing half.
    type Writer;

    /// Type of the reading half.
    type Reader;

    /// The two halves this codec splits into.
    spec fn spec_split(self) -> (Self::Writer, Self::Reader);

    /// Splits the codec into a writer and a reader.
    fn split(self) -> (r: (Self::Writer, Self::Reader))
        ensures
            r == self.spec_split(),
    ;
}

impl Codec {
    /// A codec with nothing buffered in either direction.
    pub fn new() -> (r: Self)
        ensures
            r.reader@ == Seq::<u8>::empty(),
            r.writer@ == Seq::<u8>::empty(),
    {
        Codec { reader: Vec::new(), writer: Vec::new() }
    }
}

impl SplittableCodec for Codec {
    type Writer = CodecWriteHalf;

    type Reader = CodecReadHalf;

    open spec fn spec_split(self) -> (CodecWriteHalf, CodecReadHalf) {
        (
            CodecWriteHalf { writer: self.writer },
            CodecReadHalf { reader: self.reader, pos: 0 },
        )
    }

    fn split(self) -> (r: (CodecWriteHalf, CodecReadHalf)) {
        (CodecWriteHalf { writer: self.writer }, CodecReadHalf { reader: self.reader, pos: 0 })
    }
}

impl CodecWriteHalf {
    /// Marshals a value of the protocol to its wire bytes.
    pub fn marshal(h: &Header) -> (r: Result<Vec<u8>, Error>)
        ensures
            header_wf(h@) ==> (r matches Ok(v) && v@ == spec_marshal_header(h@)),
            !header_wf(h@) ==> (r matches Err(e) && e is Internal),
    {
        marshal_header(h)
    }

    /// Writes a header as one header frame.
    ///
    /// Fails, leaving the half unchanged, exactly when the header is too
    /// long for the wire format.
    pub fn write_header(&mut self, h: &Header) -> (r: Result<(), Error>)
        ensures
            header_fits(h@) ==> (r is Ok && final(self).writer@ == old(self).writer@
                + spec_encode_frame(spec_header_frame(h@))),
            !header_fits(h@) ==> (r matches Err(e) && e is Internal && final(self).writer@ == old(self).writer@),
    {
        let id = h.get_id();
        let buf = match marshal_header(h) {
            Ok(buf) => buf,
            Err(e) => {
                return Err(e);
            },
        };
        let f = Frame::new(id, 0, PayloadType::Header, buf);
        encode_frame(&mut self.writer, &f)
    }

    /// Writes body bytes as one data frame.
    ///
    /// Fails, leaving the half unchanged, exactly when the body is too long
    /// for the 32-bit length field.
    pub fn write_body(&mut self, id: MessageId, body: Vec<u8>) -> (r: Result<(), Error>)
        ensures
            body@.len() <= 0xFFFF_FFFF ==> (r is Ok && final(self).writer@ == old(self).writer@
                + spec_encode_frame(spec_body_frame(id, body@))),
            body@.len() > 0xFFFF_FFFF ==> (r matches Err(e) && e is Internal && final(self).writer@
                == old(self).writer@),
    {
        let f = Frame::new(id, 1, PayloadType::Data, body);
        encode_frame(&mut self.writer, &f)
    }

    /// Hands every buffered outbound byte to the transport.
    pub fn take_outbound(&mut self) -> (r: Vec<u8>)
        ensures
            r@ == old(self).writer@,
            final(self).writer@ == Seq::<u8>::empty(),
    {
        let mut out: Vec<u8> = Vec::new();
        core::mem::swap(&mut out, &mut self.writer);
        out
    }
}

impl CodecReadHalf {
    /// The consumed prefix never passes the end of the buffer.
    pub open spec fn wf(self) -> bool {
        self.pos <= self.reader.len()
    }

    /// The bytes not consumed yet.
    pub open spec fn remaining(self) -> Seq<u8> {
        self.reader@.skip(self.pos as int)
    }

    /// Unmarshals a value of the protocol from its wire bytes.
    pub fn unmarshal(buf: &Vec<u8>) -> (r: Result<Header, Error>)
        ensures
            r matches Ok(h) ==> spec_parse_header(buf@) == Some(h@),
            r is Err ==> spec_parse_header(buf@) is None,
            r matches Err(e) ==> e is ParseError,
    {
        unmarshal_header(buf)
    }

    /// Accepts bytes from the transport.
    pub fn feed(&mut self, bytes: &[u8])
        requires
            old(self).wf(),
        ensures
            final(self).wf(),
            final(self).remaining() == old(self).remaining() + bytes@,
            final(self).pos == old(self).pos,
    {
        self.reader.extend_from_slice(bytes);
        assert(self.remaining() =~= old(self).remaining() + bytes@);
    }

    /// Reads one frame.
    ///
    /// `None` means a clean end: no byte is left. An error means the stream
    /// is corrupt; the half consumes the rest of it and surrenders.
    fn read_frame(&mut self) -> (r: Option<Result<Frame, Error>>)
        requires
            old(self).wf(),
        ensures
            final(self).wf(),
            old(self).remaining().len() == 0 ==> (r is None && *final(self) == *old(self)),
            old(self).remaining().len() > 0 && spec_parse_frame(old(self).remaining()) is None
                ==> (r matches Some(res) && res matches Err(e) && e is ParseError && final(self).remaining().len() == 0),
            old(self).remaining().len() > 0 ==> match spec_parse_frame(old(self).remaining()) {
                Some((f, c)) => r matches Some(res) && res matches Ok(fr) && fr@ == f && final(self).remaining()
                    == old(self).remaining().skip(c),
                None => true,
            },
    {
        let n = self.reader.len();
        if self.pos == n {
            return None;
        }
        match decode_frame(&self.reader, self.pos) {
            Ok((f, end)) => {
                proof {
                    assert(self.reader@.skip(end as int) =~= self.remaining().skip(
                        end - self.pos,
                    ));
                }
                self.pos = end;
                Some(Ok(f))
            },
            Err(e) => {
                self.pos = n;
                Some(Err(e))
            },
        }
    }

    /// Reads one frame and unmarshals its payload as a header.
    ///
    /// `None` means a clean end of the stream. An error is a corrupt frame
    /// or a payload that is not a header; the bytes of the frame are
    /// consumed either way.
    pub fn read_header(&mut self) -> (r: Option<Result<Header, Error>>)
        requires
            old(self).wf(),
        ensures
            final(self).wf(),
            old(self).remaining().len() == 0 ==> (r is None && *final(self) == *old(self)),
            old(self).remaining().len() > 0 && spec_parse_frame(old(self).remaining()) is None
                ==> (r matches Some(res) && res matches Err(e) && e is ParseError && final(self).remaining().len() == 0),
            old(self).remaining().len() > 0 ==> match spec_parse_frame(old(self).remaining()) {
                Some((f, c)) => final(self).remaining() == old(self).remaining().skip(c)
                    && match r {
                    Some(res) => match res {
                        Ok(h) => spec_parse_header(f.payload) == Some(h@),
                        Err(e) => e is ParseError && spec_parse_header(f.payload) is None,
                    },
                    None => false,
                },
                None => true,
            },
    {
        match self.read_frame() {
            None => None,
            Some(Err(e)) => Some(Err(e)),
            Some(Ok(f)) => Some(unmarshal_header(&f.payload)),
        }
    }

    /// Whether a whole logical message — a header frame and a body frame —
    /// is buffered, parseable or not.
    pub fn message_available(&self) -> (r: bool)
        requires
            self.wf(),
        ensures
            r == spec_message_available(self.remaining()),
    {
        if !crate::frame::frame_complete_at(&self.reader, self.pos) {
            return false;
        }
        let len32 = crate::endian::read_u32(&self.reader, self.pos + 4);
        proof {
            assert(self.remaining().subrange(4, 8) =~= self.reader@.subrange(
                self.pos as int + 4,
                self.pos as int + 8,
            ));
        }
        let first = 8 + len32 as usize;
        proof {
            assert(self.remaining().skip(spec_frame_size(self.remaining())) =~= self.reader@.skip(
                self.pos as int + first as int,
            ));
        }
        crate::frame::frame_complete_at(&self.reader, self.pos + first)
    }

    /// Reads one frame and returns its payload as body bytes.
    ///
    /// `None` means a clean end of the stream; an error is a corrupt frame.
    pub fn read_body(&mut self) -> (r: Option<Result<Vec<u8>, Error>>)
        requires
            old(self).wf(),
        ensures
            final(self).wf(),
            old(self).remaining().len() == 0 ==> (r is None && *final(self) == *old(self)),
            old(self).remaining().len() > 0 && spec_parse_frame(old(self).remaining()) is None
                ==> (r matches Some(res) && res matches Err(e) && e is ParseError && final(self).remaining().len() == 0),
            old(self).remaining().len() > 0 ==> match spec_parse_frame(old(self).remaining()) {
                Some((f, c)) => r matches Some(res) && res matches Ok(b) && b@ == f.payload
                    && final(self).remaining() == old(self).remaining().skip(c),
                None => true,
            },
    {
        match self.read_frame() {
            None => None,
            Some(Err(e)) => Some(Err(e)),
            Some(Ok(f)) => Some(Ok(f.payload)),
        }
    }
}

} // verus!
