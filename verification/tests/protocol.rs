//! Wire-format tests: exact frame bytes, header and error-message round
//! trips, and rejection of malformed input.

use toy_rpc::client::{ClientBrokerItem, ClientReader};
use toy_rpc::codec::{Codec, CodecReadHalf, CodecWriteHalf, SplittableCodec};
use toy_rpc::error::Error;
use toy_rpc::frame::{decode_frame, encode_frame, Frame, PayloadType};
use toy_rpc::message::{
    ErrorMessage, Metadata, RequestHeader, ResponseHeader, TimeoutRequestBody, CANCELLATION_TOKEN,
    TIMEOUT_TOKEN,
};
use toy_rpc::protocol::{marshal_err_msg, marshal_header, unmarshal_err_msg, unmarshal_header, Header};
use toy_rpc::server::rpc_path;

fn round_trip(h: Header) -> Header {
    let bytes = marshal_header(&h).unwrap();
    unmarshal_header(&bytes).unwrap()
}

#[test]
fn frame_wire_bytes_are_exact() {
    let f = Frame::new(0x0102, 0, PayloadType::Header, vec![0xAB, 0xCD]);
    let mut out: Vec<u8> = Vec::new();
    encode_frame(&mut out, &f).unwrap();
    assert_eq!(out, vec![0x01, 0x02, 0, 0, 0, 0, 0, 2, 0xAB, 0xCD]);
}

#[test]
fn frame_decodes_to_itself() {
    let f = Frame::new(7, 1, PayloadType::Data, vec![9, 8, 7]);
    let mut out: Vec<u8> = Vec::new();
    encode_frame(&mut out, &f).unwrap();
    let (g, end) = decode_frame(&out, 0).unwrap();
    assert_eq!(end, out.len());
    assert_eq!(g.id, 7);
    assert_eq!(g.seq_no, 1);
    assert_eq!(g.payload_type, PayloadType::Data);
    assert_eq!(g.payload, vec![9, 8, 7]);
}

#[test]
fn frame_rejects_unknown_payload_type() {
    let bytes = vec![0, 1, 0, 9, 0, 0, 0, 0];
    assert!(matches!(decode_frame(&bytes, 0), Err(Error::ParseError(_))));
}

#[test]
fn frame_rejects_truncation() {
    let bytes = vec![0, 1, 0, 0, 0, 0, 0, 5, 1, 2];
    assert!(matches!(decode_frame(&bytes, 0), Err(Error::ParseError(_))));
}

#[test]
fn header_request_round_trips() {
    let h = round_trip(Header::Request {
        id: 3000,
        service_method: "Arith.add".to_string(),
        timeout_millis: 10_000,
    });
    match h {
        Header::Request { id, service_method, timeout_millis } => {
            assert_eq!(id, 3000);
            assert_eq!(service_method, "Arith.add");
            assert_eq!(timeout_millis, 10_000);
        }
        _ => panic!("wrong variant"),
    }
}

#[test]
fn header_response_round_trips() {
    assert!(matches!(
        round_trip(Header::Response { id: 0, is_ok: true }),
        Header::Response { id: 0, is_ok: true }
    ));
    assert!(matches!(
        round_trip(Header::Response { id: 9, is_ok: false }),
        Header::Response { id: 9, is_ok: false }
    ));
}

#[test]
fn header_cancel_and_ack_round_trip() {
    assert!(matches!(round_trip(Header::Cancel(41)), Header::Cancel(41)));
    assert!(matches!(round_trip(Header::Ack(42)), Header::Ack(42)));
}

#[test]
fn header_topic_variants_round_trip() {
    match round_trip(Header::Publish { id: 1, topic: "Count".to_string() }) {
        Header::Publish { id, topic } => {
            assert_eq!((id, topic.as_str()), (1, "Count"));
        }
        _ => panic!("wrong variant"),
    }
    match round_trip(Header::Subscribe { id: 2, topic: "Count".to_string() }) {
        Header::Subscribe { id, topic } => {
            assert_eq!((id, topic.as_str()), (2, "Count"));
        }
        _ => panic!("wrong variant"),
    }
    match round_trip(Header::Unsubscribe { id: 3, topic: "Count".to_string() }) {
        Header::Unsubscribe { id, topic } => {
            assert_eq!((id, topic.as_str()), (3, "Count"));
        }
        _ => panic!("wrong variant"),
    }
    match round_trip(Header::Consume { id: 4, topic: "q".to_string() }) {
        Header::Consume { id, topic } => {
            assert_eq!((id, topic.as_str()), (4, "q"));
        }
        _ => panic!("wrong variant"),
    }
}

#[test]
fn header_reserved_variants_round_trip() {
    match round_trip(Header::Produce { id: 5, topic: "q".to_string(), tickets: 3 }) {
        Header::Produce { id, topic, tickets } => {
            assert_eq!((id, topic.as_str(), tickets), (5, "q", 3));
        }
        _ => panic!("wrong variant"),
    }
    match round_trip(Header::Ext { id: 6, content: "x".to_string(), marker: 77 }) {
        Header::Ext { id, content, marker } => {
            assert_eq!((id, content.as_str(), marker), (6, "x", 77));
        }
        _ => panic!("wrong variant"),
    }
}

#[test]
fn header_keeps_unicode_text() {
    match round_trip(Header::Publish { id: 1, topic: "héllo→世界".to_string() }) {
        Header::Publish { topic, .. } => assert_eq!(topic, "héllo→世界"),
        _ => panic!("wrong variant"),
    }
}

#[test]
fn header_rejects_malformed_bytes() {
    assert!(matches!(unmarshal_header(&vec![]), Err(Error::ParseError(_))));
    // unknown tag
    assert!(matches!(unmarshal_header(&vec![200, 0, 0]), Err(Error::ParseError(_))));
    // trailing byte after a cancel header
    assert!(matches!(unmarshal_header(&vec![2, 0, 1, 9]), Err(Error::ParseError(_))));
    // a topic that is not valid UTF-8
    assert!(matches!(
        unmarshal_header(&vec![3, 0, 1, 0, 0, 0, 1, 0xFF]),
        Err(Error::ParseError(_))
    ));
}

#[test]
fn error_message_round_trips() {
    let all = vec![
        ErrorMessage::InvalidArgument,
        ErrorMessage::ServiceNotFound,
        ErrorMessage::MethodNotFound,
        ErrorMessage::ExecutionError("boom".to_string()),
    ];
    for m in all {
        let bytes = marshal_err_msg(&m).unwrap();
        let back = unmarshal_err_msg(&bytes).unwrap();
        match (m, back) {
            (ErrorMessage::InvalidArgument, ErrorMessage::InvalidArgument) => {}
            (ErrorMessage::ServiceNotFound, ErrorMessage::ServiceNotFound) => {}
            (ErrorMessage::MethodNotFound, ErrorMessage::MethodNotFound) => {}
            (ErrorMessage::ExecutionError(a), ErrorMessage::ExecutionError(b)) => {
                assert_eq!(a, b)
            }
            _ => panic!("variant changed in flight"),
        }
    }
}

#[test]
fn error_message_maps_to_local_errors() {
    assert!(matches!(
        Error::from_err_msg(ErrorMessage::InvalidArgument),
        Error::InvalidArgument
    ));
    assert!(matches!(
        Error::from_err_msg(ErrorMessage::ServiceNotFound),
        Error::ServiceNotFound
    ));
    assert!(matches!(
        Error::from_err_msg(ErrorMessage::MethodNotFound),
        Error::MethodNotFound
    ));
    match Error::from_err_msg(ErrorMessage::ExecutionError("why".to_string())) {
        Error::ExecutionError(s) => assert_eq!(s, "why"),
        _ => panic!("wrong variant"),
    }
}

#[test]
fn sendable_errors_cross_the_wire_only() {
    assert!(ErrorMessage::from_err(Error::InvalidArgument).is_ok());
    assert!(ErrorMessage::from_err(Error::ExecutionError("e".to_string())).is_ok());
    assert!(ErrorMessage::from_err(Error::Canceled(None)).is_err());
    assert!(ErrorMessage::from_err(Error::Timeout(Some(3))).is_err());
    assert!(ErrorMessage::from_err(Error::IoError("io".to_string())).is_err());
}

#[test]
fn metadata_returns_the_id() {
    assert_eq!(RequestHeader { id: 5, service_method: "A.b".to_string() }.get_id(), 5);
    assert_eq!(ResponseHeader { id: 6, is_error: false }.get_id(), 6);
    assert_eq!(Header::Cancel(7).get_id(), 7);
    assert_eq!(
        Header::Request { id: 8, service_method: "A.b".to_string(), timeout_millis: 1 }.get_id(),
        8
    );
    assert_eq!(Header::Publish { id: 9, topic: "t".to_string() }.get_id(), 9);
}

#[test]
fn timeout_request_body_wraps_millis() {
    let b = TimeoutRequestBody::new(1500);
    assert_eq!(b.0, 1500);
}

#[test]
fn reserved_tokens_are_fixed() {
    assert_eq!(CANCELLATION_TOKEN, "RPC_TASK_CANCELLATION");
    assert_eq!(TIMEOUT_TOKEN, "RPC_TASK_TIMEOUT");
}

#[test]
fn rpc_path_appends_the_token() {
    assert_eq!(rpc_path("ws://127.0.0.1:8080/"), "ws://127.0.0.1:8080/_rpc");
}

#[test]
fn header_wire_bytes_are_exact() {
    // tag, then the id big-endian; a cancel carries nothing else.
    assert_eq!(marshal_header(&Header::Cancel(0x0102)).unwrap(), vec![2, 1, 2]);
    // a response adds its ok flag.
    assert_eq!(
        marshal_header(&Header::Response { id: 3, is_ok: true }).unwrap(),
        vec![1, 0, 3, 1]
    );
    // a publish adds its topic, length-prefixed UTF-8.
    assert_eq!(
        marshal_header(&Header::Publish { id: 4, topic: "ab".to_string() }).unwrap(),
        vec![3, 0, 4, 0, 0, 0, 2, b'a', b'b']
    );
}

#[test]
fn a_partial_message_is_not_delivered() {
    let (mut w, r) = Codec::new().split();
    w.write_header(&Header::Response { id: 1, is_ok: true }).unwrap();
    w.write_body(1, vec![42]).unwrap();
    let bytes = w.take_outbound();

    let mut reader = ClientReader { reader: r };
    assert!(reader.op().is_none());
    // Everything but the last byte: still no whole message.
    reader.reader.feed(&bytes[..bytes.len() - 1]);
    assert!(reader.op().is_none());
    // The last byte completes it.
    reader.reader.feed(&bytes[bytes.len() - 1..]);
    match reader.op() {
        Some(Ok(ClientBrokerItem::Response { id: 1, is_ok: true, body })) => {
            assert_eq!(body, vec![42]);
        }
        _ => panic!("the completed message did not come out"),
    }
}

#[test]
fn codec_splits_into_independent_halves() {
    let codec = Codec::new();
    let (mut w, mut r): (CodecWriteHalf, CodecReadHalf) = codec.split();
    w.write_header(&Header::Ack(1)).unwrap();
    let bytes = w.take_outbound();
    assert!(!bytes.is_empty());
    r.feed(&bytes);
    match r.read_header() {
        Some(Ok(Header::Ack(1))) => {}
        _ => panic!("header did not come back"),
    }
}

#[test]
fn marshal_and_unmarshal_agree_on_the_codec() {
    let h = Header::Response { id: 2, is_ok: true };
    let bytes = CodecWriteHalf::marshal(&h).unwrap();
    match CodecReadHalf::unmarshal(&bytes) {
        Ok(Header::Response { id: 2, is_ok: true }) => {}
        _ => panic!("codec halves disagree"),
    }
}
