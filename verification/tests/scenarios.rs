//! End-to-end scenarios: a client and a server wired through the byte
//! codec, with the test playing the runtime — pumping bytes, running
//! handlers, and firing timers.

use toy_rpc::client::{Client, ClientBrokerItem, Connected, NotConnected};
use toy_rpc::codec::{Codec, CodecWriteHalf, SplittableCodec};
use toy_rpc::error::Error;
use toy_rpc::server::{
    send_response, ServerAction, ServerBroker, ServerBrokerItem, ServerReader,
};

fn new_client() -> Client<Connected> {
    Client::<NotConnected>::with_codec(Codec::new())
}

/// A server's end of one connection: its reader and its write half.
fn new_conn() -> (ServerReader, CodecWriteHalf) {
    let (w, r) = Codec::new().split();
    (ServerReader { reader: r }, w)
}

fn arith_server() -> ServerBroker {
    ServerBroker::builder()
        .register("Arith".to_string(), vec!["add".to_string()])
        .register("Slow".to_string(), vec!["op".to_string()])
        .build()
}

fn enc_pair(a: i32, b: i32) -> Vec<u8> {
    let mut v = a.to_be_bytes().to_vec();
    v.extend_from_slice(&b.to_be_bytes());
    v
}

fn dec_i32(body: &[u8]) -> i32 {
    i32::from_be_bytes([body[0], body[1], body[2], body[3]])
}

/// Carries one client's outbound bytes to the server's reader and hands
/// back the next typed item.
fn server_recv(client: &mut Client<Connected>, reader: &mut ServerReader) -> ServerBrokerItem {
    let bytes = client.writer.take_outbound();
    reader.reader.feed(&bytes);
    reader.op().unwrap().unwrap()
}

/// Carries the server's outbound bytes for one connection back to its
/// client and hands back the next typed item.
fn client_recv(writer: &mut CodecWriteHalf, client: &mut Client<Connected>) -> ClientBrokerItem {
    let bytes = writer.take_outbound();
    client.reader.reader.feed(&bytes);
    client.reader.op().unwrap().unwrap()
}

/// The add handler a test runs when the broker dispatches to it.
fn run_add_handler(action: ServerAction, server: &mut ServerBroker) -> ServerAction {
    match action {
        ServerAction::Dispatch { conn, id, service, method, body, .. } => {
            assert_eq!(service, "Arith");
            assert_eq!(method, "add");
            let sum = dec_i32(&body[0..4]) + dec_i32(&body[4..8]);
            server
                .process_result(conn, id, Ok(sum.to_be_bytes().to_vec()))
                .expect("execution should still be registered")
        }
        other => panic!("expected a dispatch, got {}", action_name(&other)),
    }
}

fn action_name(a: &ServerAction) -> &'static str {
    match a {
        ServerAction::Dispatch { .. } => "Dispatch",
        ServerAction::Respond { .. } => "Respond",
        ServerAction::Publication { .. } => "Publication",
        ServerAction::Ack { .. } => "Ack",
        ServerAction::CancelSignal { .. } => "CancelSignal",
    }
}

/// Sends one respond action down the connection's write half.
fn perform_respond(action: ServerAction, writer: &mut CodecWriteHalf) {
    match action {
        ServerAction::Respond { id, result, .. } => {
            send_response(writer, id, result).unwrap();
        }
        other => panic!("expected a respond, got {}", action_name(&other)),
    }
}

#[test]
fn echo_add_returns_the_sum() {
    let mut server = arith_server();
    let mut client = new_client();
    let (mut reader, mut writer) = new_conn();

    let id = client.async_call("Arith.add".to_string(), enc_pair(2, 3), 1000).unwrap();

    let item = server_recv(&mut client, &mut reader);
    let action = match item {
        ServerBrokerItem::Request { id, service_method, timeout_millis, body } => {
            server.process_request(0, id, &service_method, timeout_millis, body)
        }
        _ => panic!("expected a request"),
    };
    let respond = run_add_handler(action, &mut server);
    perform_respond(respond, &mut writer);

    match client_recv(&mut writer, &mut client) {
        ClientBrokerItem::Response { id: rid, is_ok, body } => {
            let res = client.handle_response(rid, is_ok, body).unwrap();
            assert_eq!(res.id, id);
            assert_eq!(dec_i32(&res.result.unwrap()), 5);
        }
        _ => panic!("expected a response"),
    }
}

#[test]
fn unknown_method_is_answered_without_a_handler() {
    let mut server = arith_server();
    let mut client = new_client();
    let (mut reader, mut writer) = new_conn();

    let id = client.async_call("Arith.mul".to_string(), enc_pair(2, 3), 1000).unwrap();
    let item = server_recv(&mut client, &mut reader);
    let action = match item {
        ServerBrokerItem::Request { id, service_method, timeout_millis, body } => {
            server.process_request(0, id, &service_method, timeout_millis, body)
        }
        _ => panic!("expected a request"),
    };
    assert!(matches!(
        action,
        ServerAction::Respond { result: Err(Error::MethodNotFound), .. }
    ));
    perform_respond(action, &mut writer);

    match client_recv(&mut writer, &mut client) {
        ClientBrokerItem::Response { id: rid, is_ok, body } => {
            let res = client.handle_response(rid, is_ok, body).unwrap();
            assert_eq!(res.id, id);
            assert!(matches!(res.result, Err(Error::MethodNotFound)));
        }
        _ => panic!("expected a response"),
    }
}

#[test]
fn unknown_service_is_answered_without_a_handler() {
    let mut server = arith_server();
    let mut client = new_client();
    let (mut reader, mut writer) = new_conn();

    client.async_call("NoSuch.foo".to_string(), Vec::new(), 1000).unwrap();
    let item = server_recv(&mut client, &mut reader);
    let action = match item {
        ServerBrokerItem::Request { id, service_method, timeout_millis, body } => {
            server.process_request(0, id, &service_method, timeout_millis, body)
        }
        _ => panic!("expected a request"),
    };
    assert!(matches!(
        action,
        ServerAction::Respond { result: Err(Error::ServiceNotFound), .. }
    ));
    perform_respond(action, &mut writer);

    match client_recv(&mut writer, &mut client) {
        ClientBrokerItem::Response { id: rid, is_ok, body } => {
            let res = client.handle_response(rid, is_ok, body).unwrap();
            assert!(matches!(res.result, Err(Error::ServiceNotFound)));
        }
        _ => panic!("expected a response"),
    }
}

#[test]
fn missing_separator_is_method_not_found() {
    let mut server = arith_server();
    let mut client = new_client();
    let (mut reader, _writer) = new_conn();

    client.async_call("noseparator".to_string(), Vec::new(), 1000).unwrap();
    let item = server_recv(&mut client, &mut reader);
    let action = match item {
        ServerBrokerItem::Request { id, service_method, timeout_millis, body } => {
            server.process_request(0, id, &service_method, timeout_millis, body)
        }
        _ => panic!("expected a request"),
    };
    assert!(matches!(
        action,
        ServerAction::Respond { result: Err(Error::MethodNotFound), .. }
    ));
}

#[test]
fn timeout_cancels_the_execution_and_drops_the_late_result() {
    let mut server = arith_server();
    let mut client = new_client();
    let (mut reader, _writer) = new_conn();

    let id = client.async_call("Slow.op".to_string(), Vec::new(), 100).unwrap();
    let item = server_recv(&mut client, &mut reader);
    let action = match item {
        ServerBrokerItem::Request { id, service_method, timeout_millis, body } => {
            server.process_request(0, id, &service_method, timeout_millis, body)
        }
        _ => panic!("expected a request"),
    };
    assert!(matches!(action, ServerAction::Dispatch { .. }));

    // The handler sleeps past the deadline: the client's timer fires first.
    let res = client.handle_timeout(id).expect("the call is still outstanding");
    assert_eq!(res.id, id);
    assert!(matches!(res.result, Err(Error::Timeout(Some(i))) if i == id));

    // The cancellation reaches the server, which abandons the execution.
    match server_recv(&mut client, &mut reader) {
        ServerBrokerItem::Cancel(cid) => {
            assert_eq!(cid, id);
            let signal = server.process_cancel(0, cid);
            assert!(matches!(signal, Some(ServerAction::CancelSignal { .. })));
        }
        _ => panic!("expected a cancel"),
    }

    // The handler finishes anyway; its result is discarded.
    assert!(server.process_result(0, id, Ok(vec![1])).is_none());

    // A late response for the id is dropped at the client too.
    assert!(client.handle_response(id, true, vec![1]).is_none());
}

#[test]
fn cancel_removes_the_execution_and_no_response_comes() {
    let mut server = arith_server();
    let mut client = new_client();
    let (mut reader, _writer) = new_conn();

    let id = client.async_call("Slow.op".to_string(), Vec::new(), 1000).unwrap();
    let item = server_recv(&mut client, &mut reader);
    match item {
        ServerBrokerItem::Request { id, service_method, timeout_millis, body } => {
            server.process_request(0, id, &service_method, timeout_millis, body);
        }
        _ => panic!("expected a request"),
    }

    // The caller drops its future before completion.
    client.cancel(id);

    match server_recv(&mut client, &mut reader) {
        ServerBrokerItem::Cancel(cid) => {
            assert_eq!(cid, id);
            assert!(server.process_cancel(0, cid).is_some());
        }
        _ => panic!("expected a cancel"),
    }

    // The handler's completion settles nothing: no response is emitted.
    assert!(server.process_result(0, id, Ok(vec![5])).is_none());
}

#[test]
fn publish_fans_out_to_both_subscribers_with_one_ack() {
    let mut server = ServerBroker::builder().build();
    let mut publisher = new_client();
    let mut sub1 = new_client();
    let mut sub2 = new_client();
    let (mut pub_reader, mut pub_writer) = new_conn();
    let (mut sub1_reader, mut sub1_writer) = new_conn();
    let (mut sub2_reader, mut sub2_writer) = new_conn();

    sub1.subscribe("Count".to_string()).unwrap();
    match server_recv(&mut sub1, &mut sub1_reader) {
        ServerBrokerItem::Subscribe { id, topic } => {
            let ack = server.process_subscribe(1, id, topic);
            assert!(matches!(ack, ServerAction::Ack { conn: 1, .. }));
        }
        _ => panic!("expected a subscribe"),
    }
    sub2.subscribe("Count".to_string()).unwrap();
    match server_recv(&mut sub2, &mut sub2_reader) {
        ServerBrokerItem::Subscribe { id, topic } => {
            server.process_subscribe(2, id, topic);
        }
        _ => panic!("expected a subscribe"),
    }

    publisher.publish("Count".to_string(), 7i32.to_be_bytes().to_vec()).unwrap();
    let actions = match server_recv(&mut publisher, &mut pub_reader) {
        ServerBrokerItem::Publish { id, topic, body } => {
            server.process_publish(0, id, &topic, &body)
        }
        _ => panic!("expected a publish"),
    };

    // One push per subscriber, then exactly one acknowledgement.
    assert_eq!(actions.len(), 3);
    let mut acks = 0;
    for action in actions {
        match action {
            ServerAction::Publication { conn, id, topic, body } => {
                let writer = if conn == 1 { &mut sub1_writer } else { &mut sub2_writer };
                writer.write_header(&toy_rpc::protocol::Header::Publish { id, topic }).unwrap();
                writer.write_body(id, body).unwrap();
            }
            ServerAction::Ack { conn, id } => {
                assert_eq!(conn, 0);
                acks += 1;
                pub_writer.write_header(&toy_rpc::protocol::Header::Ack(id)).unwrap();
                pub_writer.write_body(id, Vec::new()).unwrap();
            }
            other => panic!("unexpected action {}", action_name(&other)),
        }
    }
    assert_eq!(acks, 1);

    // Both subscribers receive Count(7).
    for (client, writer) in [(&mut sub1, &mut sub1_writer), (&mut sub2, &mut sub2_writer)] {
        match client_recv(writer, client) {
            ClientBrokerItem::Publication { topic, body, .. } => {
                assert_eq!(topic, "Count");
                let delivered = client.handle_publication(&topic, body).unwrap();
                assert_eq!(dec_i32(&delivered), 7);
            }
            _ => panic!("expected a publication"),
        }
    }

    // The publisher sees the acknowledgement exactly once.
    assert!(matches!(
        client_recv(&mut pub_writer, &mut publisher),
        ClientBrokerItem::Ack(0)
    ));
}

#[test]
fn interleaved_responses_resolve_by_id_in_arrival_order() {
    let mut server = arith_server();
    let mut client = new_client();
    let (mut reader, mut writer) = new_conn();

    let slow = client.async_call("Slow.op".to_string(), Vec::new(), 1000).unwrap();
    let fast = client.async_call("Arith.add".to_string(), enc_pair(1, 1), 1000).unwrap();
    assert_ne!(slow, fast);

    // The server reads both requests and dispatches both handlers.
    for _ in 0..2 {
        match server_recv(&mut client, &mut reader) {
            ServerBrokerItem::Request { id, service_method, timeout_millis, body } => {
                let action = server.process_request(0, id, &service_method, timeout_millis, body);
                assert!(matches!(action, ServerAction::Dispatch { .. }));
            }
            _ => panic!("expected a request"),
        }
    }

    // The fast handler finishes first; its response goes out first.
    let fast_respond = server.process_result(0, fast, Ok(2i32.to_be_bytes().to_vec())).unwrap();
    perform_respond(fast_respond, &mut writer);
    let slow_respond = server.process_result(0, slow, Ok(9i32.to_be_bytes().to_vec())).unwrap();
    perform_respond(slow_respond, &mut writer);

    // The client resolves the fast call first, then the slow one, each to
    // its own waiter.
    match client_recv(&mut writer, &mut client) {
        ClientBrokerItem::Response { id, is_ok, body } => {
            let res = client.handle_response(id, is_ok, body).unwrap();
            assert_eq!(res.id, fast);
            assert_eq!(dec_i32(&res.result.unwrap()), 2);
        }
        _ => panic!("expected a response"),
    }
    match client.reader.op().unwrap().unwrap() {
        ClientBrokerItem::Response { id, is_ok, body } => {
            let res = client.handle_response(id, is_ok, body).unwrap();
            assert_eq!(res.id, slow);
            assert_eq!(dec_i32(&res.result.unwrap()), 9);
        }
        _ => panic!("expected a response"),
    }
}

#[test]
fn handler_parse_error_travels_as_invalid_argument() {
    let mut server = arith_server();
    let mut client = new_client();
    let (mut reader, mut writer) = new_conn();

    let id = client.async_call("Arith.add".to_string(), vec![1], 1000).unwrap();
    match server_recv(&mut client, &mut reader) {
        ServerBrokerItem::Request { id, service_method, timeout_millis, body } => {
            server.process_request(0, id, &service_method, timeout_millis, body);
        }
        _ => panic!("expected a request"),
    }
    // The handler cannot deserialize one byte as a pair of integers.
    let respond = server
        .process_result(0, id, Err(Error::ParseError("short body".to_string())))
        .unwrap();
    assert!(matches!(
        respond,
        ServerAction::Respond { result: Err(Error::InvalidArgument), .. }
    ));
    perform_respond(respond, &mut writer);
    match client_recv(&mut writer, &mut client) {
        ClientBrokerItem::Response { id: rid, is_ok, body } => {
            let res = client.handle_response(rid, is_ok, body).unwrap();
            assert!(matches!(res.result, Err(Error::InvalidArgument)));
        }
        _ => panic!("expected a response"),
    }
}

#[test]
fn server_timeout_answers_with_the_reserved_token() {
    let mut server = arith_server();
    let mut client = new_client();
    let (mut reader, mut writer) = new_conn();

    let id = client.async_call("Slow.op".to_string(), Vec::new(), 50).unwrap();
    match server_recv(&mut client, &mut reader) {
        ServerBrokerItem::Request { id, service_method, timeout_millis, body } => {
            server.process_request(0, id, &service_method, timeout_millis, body);
        }
        _ => panic!("expected a request"),
    }
    // The server's own deadline fires before the handler completes.
    let respond = server.process_timeout(0, id).unwrap();
    perform_respond(respond, &mut writer);
    match client_recv(&mut writer, &mut client) {
        ClientBrokerItem::Response { id: rid, is_ok, body } => {
            let res = client.handle_response(rid, is_ok, body).unwrap();
            match res.result {
                Err(Error::ExecutionError(msg)) => assert_eq!(msg, "RPC_TASK_TIMEOUT"),
                _ => panic!("expected an execution error"),
            }
        }
        _ => panic!("expected a response"),
    }
}
