//! Broker-level tests: call registry discipline, shutdown, wraparound
//! collisions, and subscription routing on each side.

use toy_rpc::client::{Client, Connected, NotConnected};
use toy_rpc::codec::{Codec, SplittableCodec};
use toy_rpc::error::Error;
use toy_rpc::server::{ServerAction, ServerBroker};

fn new_client() -> Client<Connected> {
    Client::<NotConnected>::with_codec(Codec::new())
}

#[test]
fn a_response_resolves_a_call_only_once() {
    let mut client = new_client();
    let id = client.async_call("A.b".to_string(), vec![1], 1000).unwrap();
    assert!(client.handle_response(id, true, vec![2]).is_some());
    // The same id again: the registry no longer knows it.
    assert!(client.handle_response(id, true, vec![2]).is_none());
}

#[test]
fn responses_resolve_their_own_waiters_in_any_order() {
    let mut client = new_client();
    let first = client.async_call("A.b".to_string(), vec![], 1000).unwrap();
    let second = client.async_call("A.c".to_string(), vec![], 1000).unwrap();

    let res2 = client.handle_response(second, true, vec![20]).unwrap();
    let res1 = client.handle_response(first, true, vec![10]).unwrap();
    assert_eq!(res2.id, second);
    assert_eq!(res2.result.unwrap(), vec![20]);
    assert_eq!(res1.id, first);
    assert_eq!(res1.result.unwrap(), vec![10]);
}

#[test]
fn cancel_then_response_is_dropped() {
    let mut client = new_client();
    let id = client.async_call("A.b".to_string(), vec![], 1000).unwrap();
    client.cancel(id);
    assert!(client.handle_response(id, true, vec![1]).is_none());
}

#[test]
fn stop_fails_every_outstanding_call_exactly_once() {
    let mut client = new_client();
    let a = client.async_call("A.b".to_string(), vec![], 1000).unwrap();
    let b = client.async_call("A.c".to_string(), vec![], 1000).unwrap();
    client.subscribe("t".to_string()).unwrap();

    let resolutions = client.stop();
    assert_eq!(resolutions.len(), 2);
    let mut ids: Vec<u16> = resolutions
        .iter()
        .map(|r| {
            assert!(matches!(r.result, Err(Error::Canceled(None))));
            r.id
        })
        .collect();
    ids.sort();
    assert_eq!(ids, vec![a, b]);

    // Nothing outstanding is left; subscriptions are closed.
    assert!(client.handle_response(a, true, vec![]).is_none());
    assert!(client.handle_publication(&"t".to_string(), vec![]).is_none());
}

#[test]
fn a_wrapped_id_still_outstanding_is_a_collision() {
    let mut client = new_client();
    let id = client.async_call("A.b".to_string(), vec![], 1000).unwrap();
    // The counter comes back around to an id that never resolved.
    client.count = id;
    match client.async_call("A.c".to_string(), vec![], 1000) {
        Err(Error::Internal(_)) => {}
        _ => panic!("a wraparound collision must fail with Internal"),
    }
}

#[test]
fn publications_route_only_to_subscribed_topics() {
    let mut client = new_client();
    client.subscribe("news".to_string()).unwrap();
    assert!(client.handle_publication(&"news".to_string(), vec![1]).is_some());
    assert!(client.handle_publication(&"other".to_string(), vec![1]).is_none());

    client.unsubscribe("news".to_string()).unwrap();
    assert!(client.handle_publication(&"news".to_string(), vec![1]).is_none());
}

#[test]
fn a_repeated_subscribe_registers_a_connection_once() {
    let mut server = ServerBroker::builder().build();
    server.process_subscribe(4, 0, "t".to_string());
    server.process_subscribe(4, 1, "t".to_string());
    let actions = server.process_publish(9, 2, &"t".to_string(), &vec![1]);
    // One delivery to connection 4 and the acknowledgement.
    assert_eq!(actions.len(), 2);
    assert!(matches!(actions[0], ServerAction::Publication { conn: 4, .. }));
    assert!(matches!(actions[1], ServerAction::Ack { conn: 9, .. }));
}

#[test]
fn unsubscribe_stops_the_fanout() {
    let mut server = ServerBroker::builder().build();
    server.process_subscribe(1, 0, "t".to_string());
    server.process_subscribe(2, 1, "t".to_string());
    server.process_unsubscribe(1, &"t".to_string());
    let actions = server.process_publish(9, 2, &"t".to_string(), &vec![1]);
    assert_eq!(actions.len(), 2);
    assert!(matches!(actions[0], ServerAction::Publication { conn: 2, .. }));
    assert!(matches!(actions[1], ServerAction::Ack { conn: 9, .. }));
}

#[test]
fn executions_on_different_connections_do_not_collide() {
    let mut server = ServerBroker::builder()
        .register("A".to_string(), vec!["b".to_string()])
        .build();
    let one = server.process_request(1, 7, &"A.b".to_string(), 1000, vec![]);
    let two = server.process_request(2, 7, &"A.b".to_string(), 1000, vec![]);
    assert!(matches!(one, ServerAction::Dispatch { .. }));
    assert!(matches!(two, ServerAction::Dispatch { .. }));
    // Settling connection 1's execution leaves connection 2's in place.
    assert!(server.process_result(1, 7, Ok(vec![])).is_some());
    assert!(server.process_result(1, 7, Ok(vec![])).is_none());
    assert!(server.process_result(2, 7, Ok(vec![])).is_some());
}

#[test]
fn a_service_name_may_contain_dots() {
    let mut server = ServerBroker::builder()
        .register("a.b".to_string(), vec!["c".to_string()])
        .build();
    let action = server.process_request(0, 1, &"a.b.c".to_string(), 1000, vec![]);
    match action {
        ServerAction::Dispatch { service, method, .. } => {
            assert_eq!(service, "a.b");
            assert_eq!(method, "c");
        }
        _ => panic!("expected a dispatch"),
    }
}

#[test]
fn unsendable_errors_stay_local() {
    let (mut writer, _reader) = Codec::new().split();
    let r = toy_rpc::server::send_response(&mut writer, 1, Err(Error::Canceled(Some(1))));
    assert!(matches!(r, Err(Error::Canceled(Some(1)))));
    assert!(writer.take_outbound().is_empty());
}
