use railway::protocol::{ClientMessage, ServerMessage};
use railway::session::{Delivery, Session, SessionState};

fn next(id: &str, payload: &str) -> ServerMessage {
    ServerMessage::Next { id: id.to_string(), payload: payload.to_string() }
}

fn ready_session() -> Session {
    let mut s = Session::new();
    assert_eq!(s.socket_opened(), Some(ClientMessage::ConnectionInit));
    assert_eq!(s.state(), SessionState::Handshaking);
    assert_eq!(s.on_message(ServerMessage::ConnectionAck), None);
    assert_eq!(s.state(), SessionState::Ready);
    s
}

#[test]
fn ack_then_two_payloads_then_complete() {
    let mut s = ready_session();
    let (id, msg) = s.subscribe("{\"query\":\"subscription\"}".to_string()).unwrap();
    assert_eq!(id, 1);
    assert_eq!(msg.encode(), "{\"type\":\"subscribe\",\"id\":\"1\",\"payload\":{\"query\":\"subscription\"}}");
    assert_eq!(s.state(), SessionState::Active);
    assert_eq!(s.on_message(next("1", "{\"n\":1}")), None);
    assert_eq!(s.on_message(next("1", "{\"n\":2}")), None);
    assert_eq!(s.on_message(ServerMessage::Complete { id: "1".to_string() }), None);
    assert_eq!(s.next_delivery(1), Some(Delivery::Payload("{\"n\":1}".to_string())));
    assert_eq!(s.next_delivery(1), Some(Delivery::Payload("{\"n\":2}".to_string())));
    assert_eq!(s.next_delivery(1), Some(Delivery::Completed));
    assert_eq!(s.next_delivery(1), None);
    assert!(!s.is_open(1));
    assert_eq!(s.state(), SessionState::Active);
}

#[test]
fn unknown_operation_id_is_dropped() {
    let mut s = ready_session();
    let (id, _) = s.subscribe("{}".to_string()).unwrap();
    assert_eq!(s.on_message(next("99", "{\"n\":1}")), None);
    assert_eq!(s.on_message(ServerMessage::Complete { id: "99".to_string() }), None);
    assert_eq!(s.state(), SessionState::Active);
    assert!(s.is_open(id));
    assert_eq!(s.next_delivery(id), None);
}

#[test]
fn payloads_keep_arrival_order_per_operation() {
    let mut s = ready_session();
    let (a, _) = s.subscribe("{}".to_string()).unwrap();
    let (b, _) = s.subscribe("{}".to_string()).unwrap();
    s.on_message(next("1", "a1"));
    s.on_message(next("2", "b1"));
    s.on_message(next("1", "a2"));
    s.on_message(next("1", "a3"));
    assert_eq!(s.next_delivery(b), Some(Delivery::Payload("b1".to_string())));
    assert_eq!(s.next_delivery(a), Some(Delivery::Payload("a1".to_string())));
    assert_eq!(s.next_delivery(a), Some(Delivery::Payload("a2".to_string())));
    assert_eq!(s.next_delivery(a), Some(Delivery::Payload("a3".to_string())));
    assert_eq!(s.next_delivery(a), None);
}

#[test]
fn ids_increase_after_completion_and_error() {
    let mut s = ready_session();
    let (a, _) = s.subscribe("{}".to_string()).unwrap();
    s.on_message(ServerMessage::Complete { id: "1".to_string() });
    let (b, _) = s.subscribe("{}".to_string()).unwrap();
    s.on_message(ServerMessage::Error { id: "2".to_string(), payload: "[]".to_string() });
    assert_eq!(s.cancel(b), None);
    let (c, _) = s.subscribe("{}".to_string()).unwrap();
    assert_eq!((a, b, c), (1, 2, 3));
    let mut ids = vec![a];
    for _ in 0..9 {
        ids.push(s.subscribe("{}".to_string()).unwrap().0);
    }
    assert_eq!(ids.last(), Some(&12));
    assert_eq!(s.on_message(next("12", "x")), None);
    assert_eq!(s.next_delivery(12), Some(Delivery::Payload("x".to_string())));
}

#[test]
fn operation_error_ends_only_that_operation() {
    let mut s = ready_session();
    let (a, _) = s.subscribe("{}".to_string()).unwrap();
    let (b, _) = s.subscribe("{}".to_string()).unwrap();
    s.on_message(ServerMessage::Error { id: "1".to_string(), payload: "[{\"message\":\"bad\"}]".to_string() });
    assert_eq!(s.next_delivery(a), Some(Delivery::Failed("[{\"message\":\"bad\"}]".to_string())));
    assert!(!s.is_open(a));
    assert!(s.is_open(b));
    assert_eq!(s.state(), SessionState::Active);
    s.on_message(next("1", "late"));
    assert_eq!(s.next_delivery(a), None);
}

#[test]
fn dropping_a_handle_sends_one_complete() {
    let mut s = ready_session();
    let (id, _) = s.subscribe("{}".to_string()).unwrap();
    s.on_message(next("1", "buffered"));
    let msg = s.cancel(id);
    assert_eq!(msg, Some(ClientMessage::Complete { id: 1 }));
    assert_eq!(msg.unwrap().encode(), "{\"type\":\"complete\",\"id\":\"1\"}");
    assert_eq!(s.cancel(id), None);
    s.on_message(next("1", "after"));
    assert_eq!(s.next_delivery(id), None);
    s.close();
    assert_eq!(s.next_delivery(id), None);
}

#[test]
fn dropping_a_completed_handle_sends_nothing() {
    let mut s = ready_session();
    let (id, _) = s.subscribe("{}".to_string()).unwrap();
    s.on_message(ServerMessage::Complete { id: "1".to_string() });
    assert_eq!(s.cancel(id), None);
    assert_eq!(s.cancel(7), None);
}

#[test]
fn close_signals_each_open_handle_once() {
    let mut s = ready_session();
    let (a, _) = s.subscribe("{}".to_string()).unwrap();
    let (b, _) = s.subscribe("{}".to_string()).unwrap();
    let (c, _) = s.subscribe("{}".to_string()).unwrap();
    s.on_message(ServerMessage::Complete { id: "2".to_string() });
    s.on_message(next("3", "p"));
    s.close();
    assert_eq!(s.state(), SessionState::Closed);
    s.close();
    s.on_message(next("1", "late"));
    assert_eq!(s.next_delivery(a), Some(Delivery::SessionClosed));
    assert_eq!(s.next_delivery(a), None);
    assert_eq!(s.next_delivery(b), Some(Delivery::Completed));
    assert_eq!(s.next_delivery(b), None);
    assert_eq!(s.next_delivery(c), Some(Delivery::Payload("p".to_string())));
    assert_eq!(s.next_delivery(c), Some(Delivery::SessionClosed));
    assert_eq!(s.next_delivery(c), None);
    assert_eq!(s.subscribe("{}".to_string()), None);
    assert_eq!(s.cancel(a), None);
}

#[test]
fn error_during_handshake_closes_the_session() {
    let mut s = Session::new();
    s.socket_opened();
    assert_eq!(s.on_message(ServerMessage::Ping), Some(ClientMessage::Pong));
    assert_eq!(s.state(), SessionState::Handshaking);
    s.on_message(ServerMessage::Error { id: "1".to_string(), payload: "[]".to_string() });
    assert_eq!(s.state(), SessionState::Closed);
    assert_eq!(s.subscribe("{}".to_string()), None);
}

#[test]
fn subscribe_waits_for_the_handshake() {
    let mut s = Session::new();
    assert_eq!(s.state(), SessionState::Connecting);
    assert_eq!(s.subscribe("{}".to_string()), None);
    assert_eq!(s.on_message(ServerMessage::ConnectionAck), None);
    assert_eq!(s.state(), SessionState::Connecting);
    s.socket_opened();
    assert_eq!(s.socket_opened(), None);
    assert_eq!(s.subscribe("{}".to_string()), None);
}

#[test]
fn ping_is_answered_with_pong() {
    let mut s = ready_session();
    let reply = s.on_message(ServerMessage::Ping);
    assert_eq!(reply, Some(ClientMessage::Pong));
    assert_eq!(reply.unwrap().encode(), "{\"type\":\"pong\"}");
    assert_eq!(s.on_message(ServerMessage::Pong), None);
    s.close();
    assert_eq!(s.on_message(ServerMessage::Ping), None);
}
