use railway::protocol::{id_text, server_message, ClientMessage, ServerMessage};

#[test]
fn id_text_is_decimal() {
    assert_eq!(id_text(0), "0");
    assert_eq!(id_text(7), "7");
    assert_eq!(id_text(10), "10");
    assert_eq!(id_text(99), "99");
    assert_eq!(id_text(1203), "1203");
    assert_eq!(id_text(u64::MAX), u64::MAX.to_string());
}

#[test]
fn frames_are_encoded() {
    assert_eq!(ClientMessage::ConnectionInit.encode(), "{\"type\":\"connection_init\"}");
    assert_eq!(
        ClientMessage::Subscribe { id: 42, payload: "{\"query\":\"q\",\"variables\":{}}".to_string() }.encode(),
        "{\"type\":\"subscribe\",\"id\":\"42\",\"payload\":{\"query\":\"q\",\"variables\":{}}}"
    );
    assert_eq!(ClientMessage::Complete { id: 305 }.encode(), "{\"type\":\"complete\",\"id\":\"305\"}");
}

#[test]
fn frames_are_decoded_by_type() {
    let id = || Some("3".to_string());
    assert_eq!(server_message(&"connection_ack".to_string(), None, "null".to_string()), Some(ServerMessage::ConnectionAck));
    assert_eq!(
        server_message(&"next".to_string(), id(), "{\"n\":1}".to_string()),
        Some(ServerMessage::Next { id: "3".to_string(), payload: "{\"n\":1}".to_string() })
    );
    assert_eq!(
        server_message(&"error".to_string(), id(), "[]".to_string()),
        Some(ServerMessage::Error { id: "3".to_string(), payload: "[]".to_string() })
    );
    assert_eq!(server_message(&"complete".to_string(), id(), "null".to_string()), Some(ServerMessage::Complete { id: "3".to_string() }));
    assert_eq!(server_message(&"ping".to_string(), None, "null".to_string()), Some(ServerMessage::Ping));
    assert_eq!(server_message(&"pong".to_string(), id(), "null".to_string()), Some(ServerMessage::Pong));
    assert_eq!(server_message(&"next".to_string(), None, "{}".to_string()), None);
    assert_eq!(server_message(&"subscribe".to_string(), id(), "{}".to_string()), None);
    assert_eq!(server_message(&"".to_string(), None, "{}".to_string()), None);
}
