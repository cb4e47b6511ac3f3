use railway::connector::{build_handshake, endpoint, resolve_token, SessionError};

#[test]
fn no_credential_fails_with_auth_missing() {
    let r = build_handshake("backboard.railway.app", None, None);
    assert!(matches!(r, Err(SessionError::AuthMissing)));
}

#[test]
fn configured_token_takes_precedence() {
    assert_eq!(resolve_token(Some("conf".to_string()), Some("env".to_string())), Some("conf".to_string()));
    assert_eq!(resolve_token(None, Some("env".to_string())), Some("env".to_string()));
    assert_eq!(resolve_token(None, None), None);
    let req = build_handshake("example.org", Some("conf".to_string()), Some("env".to_string())).unwrap();
    assert_eq!(req.authorization, "Bearer conf");
}

#[test]
fn handshake_request_carries_uri_and_headers() {
    let req = build_handshake("backboard.railway.app", None, Some("tok-123".to_string())).unwrap();
    assert_eq!(req.uri, "wss://backboard.railway.app/graphql/v2");
    assert_eq!(req.authorization, "Bearer tok-123");
    assert_eq!(req.authorization_value.to_str().unwrap(), "Bearer tok-123");
    assert_eq!(req.protocol, "graphql-transport-ws");
    assert_eq!(req.protocol_value.to_str().unwrap(), "graphql-transport-ws");
}

#[test]
fn token_with_control_character_is_refused() {
    let r = build_handshake("example.org", Some("bad\ntoken".to_string()), None);
    assert!(matches!(r, Err(SessionError::HandshakeError)));
    let r = build_handshake("example.org", Some("del\u{7f}".to_string()), None);
    assert!(matches!(r, Err(SessionError::HandshakeError)));
    let ok = build_handshake("example.org", Some("tab\tand caf\u{e9}".to_string()), None);
    assert!(ok.is_ok());
}

#[test]
fn endpoint_has_fixed_path() {
    assert_eq!(endpoint("localhost:4000"), "wss://localhost:4000/graphql/v2");
    assert_eq!(endpoint(""), "wss:///graphql/v2");
}
