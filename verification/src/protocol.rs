//! The typed message protocol between server and client.
//!
//! A logical message is a [`Header`] plus opaque body bytes. Headers travel
//! marshaled in the payload of a header frame; this module gives them their
//! default binary encoding and proves that unmarshaling inverts marshaling.

use vstd::prelude::*;
use vstd::string::StrSliceExecFns;
use vstd::utf8::{decode_utf8, encode_utf8, valid_utf8};

use crate::endian::{
    be_u16, be_u32, be_u64, lemma_u16_round_trip, lemma_u32_round_trip, lemma_u64_round_trip,
    put_u16, put_u32, put_u64, read_u16, read_u32, read_u64, u16_from_be, u32_from_be, u64_from_be,
};
use crate::error::Error;
use crate::message::{ErrorMessage, Metadata, MessageId};

verus! {

/// Header of a message.
#[derive(Debug, Clone)]
pub enum Header {
    /// Header of a request; the body contains the arguments.
    Request {
        /// Message id.
        id: MessageId,
        /// RPC service and method in the format `"{Service}.{method}"`.
        service_method: String,
        /// RPC timeout in milliseconds; all requests carry one.
        timeout_millis: u64,
    },
    /// Header of a response; the body contains the result, or an
    /// [`ErrorMessage`] when `is_ok` is false.
    Response {
        /// Message id of the request this answers.
        id: MessageId,
        /// Whether the result is Ok.
        is_ok: bool,
    },
    /// Header of a cancellation message; the body is unit.
    Cancel(MessageId),
    /// Header of a publish message; the body contains the published value.
    Publish {
        /// Message id.
        id: MessageId,
        /// Topic to publish to.
        topic: String,
    },
    /// Header of a subscribe message; the body is unit.
    Subscribe {
        /// Message id.
        id: MessageId,
        /// Topic to subscribe to.
        topic: String,
    },
    /// Header of an unsubscribe message; the body is unit.
    Unsubscribe {
        /// Message id.
        id: MessageId,
        /// Topic to unsubscribe from.
        topic: String,
    },
    /// Acknowledgement of a publish or subscribe message; the body is unit.
    Ack(MessageId),
    /// Reserved for a message-queue style design: produce a message.
    Produce {
        /// Message id.
        id: MessageId,
        /// Topic of the queue.
        topic: String,
        /// Number of times this message can be consumed.
        tickets: u32,
    },
    /// Reserved for a message-queue style design: consume a message.
    Consume {
        /// Message id.
        id: MessageId,
        /// Topic of the queue.
        topic: String,
    },
    /// Reserved for further extension of the protocol.
    Ext {
        /// Message id.
        id: MessageId,
        /// Reserved content.
        content: String,
        /// Reserved numerical content.
        marker: u32,
    },
}

/// The mathematical value of a header.
pub enum HeaderView {
    /// A request.
    Request { id: MessageId, service_method: Seq<char>, timeout_millis: u64 },
    /// A response.
    Response { id: MessageId, is_ok: bool },
    /// A cancellation.
    Cancel(MessageId),
    /// A publication.
    Publish { id: MessageId, topic: Seq<char> },
    /// A subscription.
    Subscribe { id: MessageId, topic: Seq<char> },
    /// An unsubscription.
    Unsubscribe { id: MessageId, topic: Seq<char> },
    /// An acknowledgement.
    Ack(MessageId),
    /// Reserved.
    Produce { id: MessageId, topic: Seq<char>, tickets: u32 },
    /// Reserved.
    Consume { id: MessageId, topic: Seq<char> },
    /// Reserved.
    Ext { id: MessageId, content: Seq<char>, marker: u32 },
}

impl View for Header {
    type V = HeaderView;

    open spec fn view(&self) -> HeaderView {
        match self {
            Header::Request { id, service_method, timeout_millis } => HeaderView::Request {
                id: *id,
                service_method: service_method@,
                timeout_millis: *timeout_millis,
            },
            Header::Response { id, is_ok } => HeaderView::Response { id: *id, is_ok: *is_ok },
            Header::Cancel(id) => HeaderView::Cancel(*id),
            Header::Publish { id, topic } => HeaderView::Publish { id: *id, topic: topic@ },
            Header::Subscribe { id, topic } => HeaderView::Subscribe { id: *id, topic: topic@ },
            Header::Unsubscribe { id, topic } => HeaderView::Unsubscribe {
                id: *id,
                topic: topic@,
            },
            Header::Ack(id) => HeaderView::Ack(*id),
            Header::Produce { id, topic, tickets } => HeaderView::Produce {
                id: *id,
                topic: topic@,
                tickets: *tickets,
            },
            Header::Consume { id, topic } => HeaderView::Consume { id: *id, topic: topic@ },
            Header::Ext { id, content, marker } => HeaderView::Ext {
                id: *id,
                content: content@,
                marker: *marker,
            },
        }
    }
}

/// The id a header carries.
pub open spec fn spec_header_id(h: HeaderView) -> MessageId {
    match h {
        HeaderView::Request { id, .. } => id,
        HeaderView::Response { id, .. } => id,
        HeaderView::Cancel(id) => id,
        HeaderView::Publish { id, .. } => id,
        HeaderView::Subscribe { id, .. } => id,
        HeaderView::Unsubscribe { id, .. } => id,
        HeaderView::Ack(id) => id,
        HeaderView::Produce { id, .. } => id,
        HeaderView::Consume { id, .. } => id,
        HeaderView::Ext { id, .. } => id,
    }
}

impl Metadata for Header {
    open spec fn spec_id(&self) -> MessageId {
        spec_header_id(self@)
    }

    fn get_id(&self) -> (id: MessageId) {
        match self {
            Self::Request { id, .. } => *id,
            Self::Response { id, .. } => *id,
            Self::Cancel(id) => *id,
            Self::Publish { id, .. } => *id,
            Self::Subscribe { id, .. } => *id,
            Self::Unsubscribe { id, .. } => *id,
            Self::Ack(id) => *id,
            Self::Produce { id, .. } => *id,
            Self::Consume { id, .. } => *id,
            Self::Ext { id, .. } => *id,
        }
    }
}

/// A string can be put on the wire when its UTF-8 form fits the 32-bit
/// length field.
pub open spec fn str_wf(s: Seq<char>) -> bool {
    encode_utf8(s).len() <= 0xFFFF_FFFF
}

/// The wire bytes of a string: a 32-bit length then its UTF-8 bytes.
pub open spec fn spec_marshal_str(s: Seq<char>) -> Seq<u8>
    recommends
        str_wf(s),
{
    be_u32(encode_utf8(s).len() as u32) + encode_utf8(s)
}

/// Parses the string at the head of `s`: the characters and the count of
/// bytes consumed, or `None` when no well-formed string starts `s`.
pub open spec fn spec_parse_str(s: Seq<u8>) -> Option<(Seq<char>, int)> {
    if s.len() < 4 {
        None
    } else {
        let n = u32_from_be(s.subrange(0, 4)) as int;
        if s.len() < 4 + n {
            None
        } else if !valid_utf8(s.subrange(4, 4 + n)) {
            None
        } else {
            Some((decode_utf8(s.subrange(4, 4 + n)), 4 + n))
        }
    }
}

/// String parsing inverts string marshaling, whatever follows.
pub proof fn lemma_str_round_trip(s: Seq<char>, rest: Seq<u8>)
    requires
        str_wf(s),
    ensures
        spec_parse_str(spec_marshal_str(s) + rest) == Some(
            (s, 4 + encode_utf8(s).len() as int),
        ),
{
    let b = encode_utf8(s);
    let t = spec_marshal_str(s) + rest;
    lemma_u32_round_trip(b.len() as u32);
    assert(t.subrange(0, 4) =~= be_u32(b.len() as u32));
    assert(t.subrange(4, 4 + b.len() as int) =~= b);
    vstd::utf8::encode_utf8_valid_utf8(s);
    vstd::utf8::encode_utf8_decode_utf8(s);
}

/// A header can be put on the wire when each of its strings fits its length
/// field.
pub open spec fn header_wf(h: HeaderView) -> bool {
    match h {
        HeaderView::Request { service_method, .. } => str_wf(service_method),
        HeaderView::Response { .. } => true,
        HeaderView::Cancel(_) => true,
        HeaderView::Publish { topic, .. } => str_wf(topic),
        HeaderView::Subscribe { topic, .. } => str_wf(topic),
        HeaderView::Unsubscribe { topic, .. } => str_wf(topic),
        HeaderView::Ack(_) => true,
        HeaderView::Produce { topic, .. } => str_wf(topic),
        HeaderView::Consume { topic, .. } => str_wf(topic),
        HeaderView::Ext { content, .. } => str_wf(content),
    }
}

/// The tag byte of each header variant.
pub open spec fn spec_header_tag(h: HeaderView) -> u8 {
    match h {
        HeaderView::Request { .. } => 0,
        HeaderView::Response { .. } => 1,
        HeaderView::Cancel(_) => 2,
        HeaderView::Publish { .. } => 3,
        HeaderView::Subscribe { .. } => 4,
        HeaderView::Unsubscribe { .. } => 5,
        HeaderView::Ack(_) => 6,
        HeaderView::Produce { .. } => 7,
        HeaderView::Consume { .. } => 8,
        HeaderView::Ext { .. } => 9,
    }
}

/// The wire bytes of a header: a tag byte, the id, then the fields of the
/// variant in order.
pub open spec fn spec_marshal_header(h: HeaderView) -> Seq<u8>
    recommends
        header_wf(h),
{
    seq![spec_header_tag(h), (spec_header_id(h) / 256) as u8, (spec_header_id(h) % 256) as u8]
        + match h {
        HeaderView::Request { service_method, timeout_millis, .. } => be_u64(timeout_millis)
            + spec_marshal_str(service_method),
        HeaderView::Response { is_ok, .. } => seq![if is_ok { 1u8 } else { 0u8 }],
        HeaderView::Cancel(_) => Seq::<u8>::empty(),
        HeaderView::Publish { topic, .. } => spec_marshal_str(topic),
        HeaderView::Subscribe { topic, .. } => spec_marshal_str(topic),
        HeaderView::Unsubscribe { topic, .. } => spec_marshal_str(topic),
        HeaderView::Ack(_) => Seq::<u8>::empty(),
        HeaderView::Produce { topic, tickets, .. } => spec_marshal_str(topic) + be_u32(tickets),
        HeaderView::Consume { topic, .. } => spec_marshal_str(topic),
        HeaderView::Ext { content, marker, .. } => spec_marshal_str(content) + be_u32(marker),
    }
}

/// Parses a complete header from all of `s`: the header, or `None` when `s`
/// is not exactly the marshaled form of one.
pub open spec fn spec_parse_header(s: Seq<u8>) -> Option<HeaderView> {
    if s.len() < 3 {
        None
    } else {
        let tag = s[0];
        let id = u16_from_be(s.subrange(1, 3));
        let r = s.skip(3);
        if tag == 0 {
            if r.len() < 8 {
                None
            } else {
                let timeout_millis = u64_from_be(r.subrange(0, 8));
                match spec_parse_str(r.skip(8)) {
                    Some((sm, n)) => if r.len() == 8 + n {
                        Some(
                            HeaderView::Request {
                                id,
                                service_method: sm,
                                timeout_millis,
                            },
                        )
                    } else {
                        None
                    },
                    None => None,
                }
            }
        } else if tag == 1 {
            if r.len() == 1 && r[0] <= 1 {
                Some(HeaderView::Response { id, is_ok: r[0] == 1 })
            } else {
                None
            }
        } else if tag == 2 {
            if r.len() == 0 {
                Some(HeaderView::Cancel(id))
            } else {
                None
            }
        } else if tag == 3 || tag == 4 || tag == 5 || tag == 8 {
            match spec_parse_str(r) {
                Some((topic, n)) => if r.len() == n {
                    if tag == 3 {
                        Some(HeaderView::Publish { id, topic })
                    } else if tag == 4 {
                        Some(HeaderView::Subscribe { id, topic })
                    } else if tag == 5 {
                        Some(HeaderView::Unsubscribe { id, topic })
                    } else {
                        Some(HeaderView::Consume { id, topic })
                    }
                } else {
                    None
                },
                None => None,
            }
        } else if tag == 6 {
            if r.len() == 0 {
                Some(HeaderView::Ack(id))
            } else {
                None
            }
        } else if tag == 7 || tag == 9 {
            match spec_parse_str(r) {
                Some((topic, n)) => if r.len() == n + 4 {
                    let word = u32_from_be(r.subrange(n, n + 4));
                    if tag == 7 {
                        Some(HeaderView::Produce { id, topic, tickets: word })
                    } else {
                        Some(HeaderView::Ext { id, content: topic, marker: word })
                    }
                } else {
                    None
                },
                None => None,
            }
        } else {
            None
        }
    }
}

proof fn lemma_header_prefix(h: HeaderView)
    ensures
        spec_marshal_header(h).len() >= 3,
        spec_marshal_header(h)[0] == spec_header_tag(h),
        u16_from_be(spec_marshal_header(h).subrange(1, 3)) == spec_header_id(h),
        spec_marshal_header(h).skip(3) == match h {
            HeaderView::Request { service_method, timeout_millis, .. } => be_u64(timeout_millis)
                + spec_marshal_str(service_method),
            HeaderView::Response { is_ok, .. } => seq![if is_ok { 1u8 } else { 0u8 }],
            HeaderView::Cancel(_) => Seq::<u8>::empty(),
            HeaderView::Publish { topic, .. } => spec_marshal_str(topic),
            HeaderView::Subscribe { topic, .. } => spec_marshal_str(topic),
            HeaderView::Unsubscribe { topic, .. } => spec_marshal_str(topic),
            HeaderView::Ack(_) => Seq::<u8>::empty(),
            HeaderView::Produce { topic, tickets, .. } => spec_marshal_str(topic) + be_u32(
                tickets,
            ),
            HeaderView::Consume { topic, .. } => spec_marshal_str(topic),
            HeaderView::Ext { content, marker, .. } => spec_marshal_str(content) + be_u32(marker),
        },
{
    let s = spec_marshal_header(h);
    let id = spec_header_id(h);
    lemma_u16_round_trip(id);
    assert(s.subrange(1, 3) =~= be_u16(id));
    assert(s.skip(3) =~= s.subrange(3, s.len() as int));
}

proof fn lemma_round_trip_request(id: MessageId, service_method: Seq<char>, timeout_millis: u64)
    requires
        str_wf(service_method),
    ensures
        spec_parse_header(
            spec_marshal_header(HeaderView::Request { id, service_method, timeout_millis }),
        ) == Some(HeaderView::Request { id, service_method, timeout_millis }),
{
    let h = HeaderView::Request { id, service_method, timeout_millis };
    lemma_header_prefix(h);
    let r = spec_marshal_header(h).skip(3);
    lemma_u64_round_trip(timeout_millis);
    assert(r.subrange(0, 8) =~= be_u64(timeout_millis));
    assert(r.skip(8) =~= spec_marshal_str(service_method) + Seq::<u8>::empty());
    lemma_str_round_trip(service_method, Seq::<u8>::empty());
}

proof fn lemma_round_trip_plain(h: HeaderView)
    requires
        h is Response || h is Cancel || h is Ack,
    ensures
        spec_parse_header(spec_marshal_header(h)) == Some(h),
{
    lemma_header_prefix(h);
}

proof fn lemma_round_trip_topic(h: HeaderView, topic: Seq<char>)
    requires
        str_wf(topic),
        match h {
            HeaderView::Publish { topic: t, .. } => t == topic,
            HeaderView::Subscribe { topic: t, .. } => t == topic,
            HeaderView::Unsubscribe { topic: t, .. } => t == topic,
            HeaderView::Consume { topic: t, .. } => t == topic,
            _ => false,
        },
    ensures
        spec_parse_header(spec_marshal_header(h)) == Some(h),
{
    lemma_header_prefix(h);
    let r = spec_marshal_header(h).skip(3);
    assert(r =~= spec_marshal_str(topic) + Seq::<u8>::empty());
    lemma_str_round_trip(topic, Seq::<u8>::empty());
}

proof fn lemma_round_trip_topic_word(h: HeaderView, topic: Seq<char>, word: u32)
    requires
        str_wf(topic),
        match h {
            HeaderView::Produce { topic: t, tickets, .. } => t == topic && tickets == word,
            HeaderView::Ext { content, marker, .. } => content == topic && marker == word,
            _ => false,
        },
    ensures
        spec_parse_header(spec_marshal_header(h)) == Some(h),
{
    lemma_header_prefix(h);
    let r = spec_marshal_header(h).skip(3);
    lemma_u32_round_trip(word);
    lemma_str_round_trip(topic, be_u32(word));
    let n = 4 + encode_utf8(topic).len() as int;
    assert(r.subrange(n, n + 4) =~= be_u32(word));
}

/// Unmarshaling inverts marshaling for every protocol header variant.
pub proof fn lemma_header_round_trip(h: HeaderView)
    requires
        header_wf(h),
    ensures
        spec_parse_header(spec_marshal_header(h)) == Some(h),
{
    match h {
        HeaderView::Request { id, service_method, timeout_millis } => {
            lemma_round_trip_request(id, service_method, timeout_millis);
        },
        HeaderView::Response { .. } => lemma_round_trip_plain(h),
        HeaderView::Cancel(_) => lemma_round_trip_plain(h),
        HeaderView::Publish { topic, .. } => lemma_round_trip_topic(h, topic),
        HeaderView::Subscribe { topic, .. } => lemma_round_trip_topic(h, topic),
        HeaderView::Unsubscribe { topic, .. } => lemma_round_trip_topic(h, topic),
        HeaderView::Ack(_) => lemma_round_trip_plain(h),
        HeaderView::Produce { topic, tickets, .. } => lemma_round_trip_topic_word(
            h,
            topic,
            tickets,
        ),
        HeaderView::Consume { topic, .. } => lemma_round_trip_topic(h, topic),
        HeaderView::Ext { content, marker, .. } => lemma_round_trip_topic_word(h, content, marker),
    }
}

/// A wire error message can be put on the wire when its text fits its
/// length field.
pub open spec fn err_msg_wf(m: crate::message::ErrorMessageView) -> bool {
    match m {
        crate::message::ErrorMessageView::ExecutionError(s) => str_wf(s),
        _ => true,
    }
}

/// The tag byte of each wire error message variant.
pub open spec fn spec_err_msg_tag(m: crate::message::ErrorMessageView) -> u8 {
    match m {
        crate::message::ErrorMessageView::InvalidArgument => 0,
        crate::message::ErrorMessageView::ServiceNotFound => 1,
        crate::message::ErrorMessageView::MethodNotFound => 2,
        crate::message::ErrorMessageView::ExecutionError(_) => 3,
    }
}

/// The wire bytes of an error message carried in an error response body.
pub open spec fn spec_marshal_err_msg(m: crate::message::ErrorMessageView) -> Seq<u8>
    recommends
        err_msg_wf(m),
{
    seq![spec_err_msg_tag(m)] + match m {
        crate::message::ErrorMessageView::ExecutionError(s) => spec_marshal_str(s),
        _ => Seq::<u8>::empty(),
    }
}

/// Parses a complete error message from all of `s`, or `None` when `s` is
/// not exactly the marshaled form of one.
pub open spec fn spec_parse_err_msg(s: Seq<u8>) -> Option<crate::message::ErrorMessageView> {
    if s.len() < 1 {
        None
    } else if s[0] == 0 {
        if s.len() == 1 {
            Some(crate::message::ErrorMessageView::InvalidArgument)
        } else {
            None
        }
    } else if s[0] == 1 {
        if s.len() == 1 {
            Some(crate::message::ErrorMessageView::ServiceNotFound)
        } else {
            None
        }
    } else if s[0] == 2 {
        if s.len() == 1 {
            Some(crate::message::ErrorMessageView::MethodNotFound)
        } else {
            None
        }
    } else if s[0] == 3 {
        match spec_parse_str(s.skip(1)) {
            Some((msg, n)) => if s.len() == 1 + n {
                Some(crate::message::ErrorMessageView::ExecutionError(msg))
            } else {
                None
            },
            None => None,
        }
    } else {
        None
    }
}

/// Unmarshaling inverts marshaling for every wire error message variant.
pub proof fn lemma_err_msg_round_trip(m: crate::message::ErrorMessageView)
    requires
        err_msg_wf(m),
    ensures
        spec_parse_err_msg(spec_marshal_err_msg(m)) == Some(m),
{
    let s = spec_marshal_err_msg(m);
    match m {
        crate::message::ErrorMessageView::ExecutionError(msg) => {
            assert(s.skip(1) =~= spec_marshal_str(msg) + Seq::<u8>::empty());
            lemma_str_round_trip(msg, Seq::<u8>::empty());
        },
        _ => {
            assert(s.len() == 1);
        },
    }
}

/// Marshals a wire error message to its wire bytes.
///
/// Fails exactly when an execution error's text is too long for its length
/// field.
pub fn marshal_err_msg(m: &ErrorMessage) -> (r: Result<Vec<u8>, Error>)
    ensures
        err_msg_wf(m@) ==> (r matches Ok(v) && v@ == spec_marshal_err_msg(m@)),
        !err_msg_wf(m@) ==> (r matches Err(e) && e is Internal),
{
    let mut out: Vec<u8> = Vec::new();
    match m {
        ErrorMessage::InvalidArgument => {
            out.push(0);
        },
        ErrorMessage::ServiceNotFound => {
            out.push(1);
        },
        ErrorMessage::MethodNotFound => {
            out.push(2);
        },
        ErrorMessage::ExecutionError(s) => {
            out.push(3);
            match marshal_str_into(&mut out, s.as_str()) {
                Ok(()) => {},
                Err(e) => {
                    return Err(e);
                },
            }
        },
    }
    assert(out@ == spec_marshal_err_msg(m@));
    Ok(out)
}

/// Unmarshals a wire error message from exactly the bytes of `buf`.
///
/// Fails with `ParseError` exactly when `buf` is not the marshaled form of
/// one.
pub fn unmarshal_err_msg(buf: &Vec<u8>) -> (r: Result<ErrorMessage, Error>)
    ensures
        r matches Ok(m) ==> spec_parse_err_msg(buf@) == Some(m@),
        r is Err ==> spec_parse_err_msg(buf@) is None,
        r matches Err(e) ==> e is ParseError,
{
    let n = buf.len();
    if n < 1 {
        return Err(Error::ParseError("empty error message".to_string()));
    }
    let tag = buf[0];
    if tag == 0 || tag == 1 || tag == 2 {
        if n != 1 {
            return Err(Error::ParseError("trailing bytes after error message".to_string()));
        }
        if tag == 0 {
            Ok(ErrorMessage::InvalidArgument)
        } else if tag == 1 {
            Ok(ErrorMessage::ServiceNotFound)
        } else {
            Ok(ErrorMessage::MethodNotFound)
        }
    } else if tag == 3 {
        match parse_str_at(buf, 1) {
            Ok((msg, end)) => {
                if end != n {
                    return Err(Error::ParseError("trailing bytes after error message".to_string()));
                }
                Ok(ErrorMessage::ExecutionError(msg))
            },
            Err(e) => Err(e),
        }
    } else {
        Err(Error::ParseError("unknown error message tag".to_string()))
    }
}

/// Relies on `String::from_utf8`: it succeeds exactly on valid UTF-8 input
/// and the string's bytes are the input bytes.
#[verifier::external_body]
fn string_from_utf8(v: Vec<u8>) -> (r: Option<String>)
    ensures
        r is Some <==> valid_utf8(v@),
        r matches Some(s) ==> encode_utf8(s@) == v@,
{
    match String::from_utf8(v) {
        Ok(s) => Some(s),
        Err(_) => None,
    }
}

/// Appends the wire bytes of the string `s` to `out`.
///
/// Fails, leaving `out` unchanged, exactly when the string's UTF-8 form is
/// too long for the 32-bit length field.
fn marshal_str_into(out: &mut Vec<u8>, s: &str) -> (r: Result<(), Error>)
    ensures
        str_wf(s@) ==> (r is Ok && final(out)@ == old(out)@ + spec_marshal_str(s@)),
        !str_wf(s@) ==> (r matches Err(e) && e is Internal && final(out)@ == old(out)@),
{
    let bytes = s.as_bytes_vec();
    if bytes.len() as u64 > 0xFFFF_FFFFu64 {
        return Err(Error::Internal("string too long for the length field".to_string()));
    }
    put_u32(out, bytes.len() as u32);
    out.extend_from_slice(bytes.as_slice());
    assert(out@ == old(out)@ + spec_marshal_str(s@));
    Ok(())
}

/// Parses the string starting at `pos` in `buf`.
///
/// Returns the string and the position of the first byte after it. Fails
/// with `ParseError` exactly when no well-formed string starts at `pos`.
fn parse_str_at(buf: &Vec<u8>, pos: usize) -> (r: Result<(String, usize), Error>)
    requires
        pos <= buf@.len(),
    ensures
        r matches Ok((st, end)) ==> {
            &&& spec_parse_str(buf@.skip(pos as int)) == Some((st@, end - pos))
            &&& pos < end <= buf@.len()
        },
        r is Err ==> spec_parse_str(buf@.skip(pos as int)) is None,
        r matches Err(e) ==> e is ParseError,
{
    let n = buf.len();
    let ghost s = buf@.skip(pos as int);
    if n - pos < 4 {
        return Err(Error::ParseError("truncated string length".to_string()));
    }
    let len32 = read_u32(buf, pos);
    proof {
        assert(s.subrange(0, 4) =~= buf@.subrange(pos as int, pos as int + 4));
    }
    let len = len32 as usize;
    if n - (pos + 4) < len {
        return Err(Error::ParseError("truncated string".to_string()));
    }
    let mut bytes: Vec<u8> = Vec::new();
    let mut i: usize = 0;
    while i < len
        invariant
            i <= len,
            n == buf@.len(),
            pos + 4 + len <= n,
            bytes@ =~= buf@.subrange(pos as int + 4, pos as int + 4 + i as int),
        decreases len - i,
    {
        bytes.push(buf[pos + 4 + i]);
        i = i + 1;
    }
    proof {
        assert(s.subrange(4, 4 + len as int) =~= buf@.subrange(
            pos as int + 4,
            pos as int + 4 + len as int,
        ));
    }
    match string_from_utf8(bytes) {
        Some(st) => {
            proof {
                vstd::utf8::encode_utf8_decode_utf8(st@);
            }
            Ok((st, pos + 4 + len))
        },
        None => Err(Error::ParseError("string is not valid UTF-8".to_string())),
    }
}

/// Returns the wire tag of a header variant.
fn header_tag(h: &Header) -> (r: u8)
    ensures
        r == spec_header_tag(h@),
{
    match h {
        Header::Request { .. } => 0,
        Header::Response { .. } => 1,
        Header::Cancel(_) => 2,
        Header::Publish { .. } => 3,
        Header::Subscribe { .. } => 4,
        Header::Unsubscribe { .. } => 5,
        Header::Ack(_) => 6,
        Header::Produce { .. } => 7,
        Header::Consume { .. } => 8,
        Header::Ext { .. } => 9,
    }
}

/// Marshals a header to its wire bytes.
///
/// Fails exactly when a string of the header is too long for its length
/// field.
pub fn marshal_header(h: &Header) -> (r: Result<Vec<u8>, Error>)
    ensures
        header_wf(h@) ==> (r matches Ok(v) && v@ == spec_marshal_header(h@)),
        !header_wf(h@) ==> (r matches Err(e) && e is Internal),
{
    let mut out: Vec<u8> = Vec::new();
    out.push(header_tag(h));
    put_u16(&mut out, h.get_id());
    match h {
        Header::Request { service_method, timeout_millis, .. } => {
            put_u64(&mut out, *timeout_millis);
            match marshal_str_into(&mut out, service_method.as_str()) {
                Ok(()) => {},
                Err(e) => {
                    return Err(e);
                },
            }
        },
        Header::Response { is_ok, .. } => {
            out.push(if *is_ok { 1 } else { 0 });
        },
        Header::Cancel(_) => {},
        Header::Publish { topic, .. } => {
            match marshal_str_into(&mut out, topic.as_str()) {
                Ok(()) => {},
                Err(e) => {
                    return Err(e);
                },
            }
        },
        Header::Subscribe { topic, .. } => {
            match marshal_str_into(&mut out, topic.as_str()) {
                Ok(()) => {},
                Err(e) => {
                    return Err(e);
                },
            }
        },
        Header::Unsubscribe { topic, .. } => {
            match marshal_str_into(&mut out, topic.as_str()) {
                Ok(()) => {},
                Err(e) => {
                    return Err(e);
                },
            }
        },
        Header::Ack(_) => {},
        Header::Produce { topic, tickets, .. } => {
            match marshal_str_into(&mut out, topic.as_str()) {
                Ok(()) => {},
                Err(e) => {
                    return Err(e);
                },
            }
            put_u32(&mut out, *tickets);
        },
        Header::Consume { topic, .. } => {
            match marshal_str_into(&mut out, topic.as_str()) {
                Ok(()) => {},
                Err(e) => {
                    return Err(e);
                },
            }
        },
        Header::Ext { content, marker, .. } => {
            match marshal_str_into(&mut out, content.as_str()) {
                Ok(()) => {},
                Err(e) => {
                    return Err(e);
                },
            }
            put_u32(&mut out, *marker);
        },
    }
    assert(out@ == spec_marshal_header(h@));
    Ok(out)
}

/// Unmarshals a header from exactly the bytes of `buf`.
///
/// Fails with `ParseError` exactly when `buf` is not the marshaled form of
/// a header: an unknown tag, a truncated field, trailing bytes, or a string
/// that is not valid UTF-8.
pub fn unmarshal_header(buf: &Vec<u8>) -> (r: Result<Header, Error>)
    ensures
        r matches Ok(h) ==> spec_parse_header(buf@) == Some(h@),
        r is Err ==> spec_parse_header(buf@) is None,
        r matches Err(e) ==> e is ParseError,
{
    let n = buf.len();
    if n < 3 {
        return Err(Error::ParseError("truncated header".to_string()));
    }
    let tag = buf[0];
    let id = read_u16(buf, 1);
    let ghost r0 = buf@.skip(3);
    proof {
        assert(buf@.subrange(1, 3) =~= be_u16(u16_from_be(buf@.subrange(1, 3))));
    }
    if tag == 0 {
        if n < 11 {
            return Err(Error::ParseError("truncated request header".to_string()));
        }
        let timeout_millis = read_u64(buf, 3);
        proof {
            assert(r0.subrange(0, 8) =~= buf@.subrange(3, 11));
            assert(r0.skip(8) =~= buf@.skip(11));
        }
        match parse_str_at(buf, 11) {
            Ok((sm, end)) => {
                if end != n {
                    return Err(Error::ParseError("trailing bytes after header".to_string()));
                }
                Ok(Header::Request { id, service_method: sm, timeout_millis })
            },
            Err(e) => Err(e),
        }
    } else if tag == 1 {
        if n == 4 && buf[3] <= 1 {
            Ok(Header::Response { id, is_ok: buf[3] == 1 })
        } else {
            Err(Error::ParseError("malformed response header".to_string()))
        }
    } else if tag == 2 {
        if n == 3 {
            Ok(Header::Cancel(id))
        } else {
            Err(Error::ParseError("trailing bytes after header".to_string()))
        }
    } else if tag == 3 || tag == 4 || tag == 5 || tag == 8 {
        match parse_str_at(buf, 3) {
            Ok((topic, end)) => {
                if end != n {
                    return Err(Error::ParseError("trailing bytes after header".to_string()));
                }
                if tag == 3 {
                    Ok(Header::Publish { id, topic })
                } else if tag == 4 {
                    Ok(Header::Subscribe { id, topic })
                } else if tag == 5 {
                    Ok(Header::Unsubscribe { id, topic })
                } else {
                    Ok(Header::Consume { id, topic })
                }
            },
            Err(e) => Err(e),
        }
    } else if tag == 6 {
        if n == 3 {
            Ok(Header::Ack(id))
        } else {
            Err(Error::ParseError("trailing bytes after header".to_string()))
        }
    } else if tag == 7 || tag == 9 {
        match parse_str_at(buf, 3) {
            Ok((topic, end)) => {
                if n - end != 4 {
                    return Err(Error::ParseError("malformed header tail".to_string()));
                }
                let word = read_u32(buf, end);
                proof {
                    let m = end - 3;
                    assert(r0.subrange(m, m + 4) =~= buf@.subrange(end as int, end as int + 4));
                }
                if tag == 7 {
                    Ok(Header::Produce { id, topic, tickets: word })
                } else {
                    Ok(Header::Ext { id, content: topic, marker: word })
                }
            },
            Err(e) => Err(e),
        }
    } else {
        Err(Error::ParseError("unknown header tag".to_string()))
    }
}

} // verus!
