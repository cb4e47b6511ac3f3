//! The authenticated handshake request that opens a session's socket.
use vstd::prelude::*;
use async_tungstenite::tungstenite::http::header::{HeaderValue, InvalidHeaderValue};

verus! {

#[verifier::external_type_specification]
#[verifier::external_body]
pub struct ExHeaderValue(HeaderValue);

#[verifier::external_type_specification]
#[verifier::external_body]
pub struct ExInvalidHeaderValue(InvalidHeaderValue);

/// A character that a header value may hold: tab, or anything from space up but DEL.
pub open spec fn header_char_ok(c: char) -> bool {
    c == '\t' || (c as u32 >= 32 && c as u32 != 127)
}

pub open spec fn valid_header_text(s: Seq<char>) -> bool {
    forall|i: int| 0 <= i < s.len() ==> header_char_ok(#[trigger] s[i])
}

/// Relies on http::HeaderValue::from_str, which refuses exactly the texts holding a
/// byte below 32 other than tab, or 127 (bytes of a multi-byte character are all 128 or more).
pub assume_specification[ HeaderValue::from_str ](src: &str) -> (r: Result<HeaderValue, InvalidHeaderValue>)
    ensures
        r is Ok <==> valid_header_text(src@),
;

#[derive(Debug, PartialEq, Eq)]
pub enum SessionError {
    /// No credential could be resolved; nothing was sent.
    AuthMissing,
    /// The upgrade request could not be formed, or the upgrade did not complete.
    HandshakeError,
}

/// The request that upgrades the socket: the target and the two headers it carries.
pub struct HandshakeRequest {
    pub uri: String,
    pub authorization: String,
    pub authorization_value: HeaderValue,
    pub protocol: String,
    pub protocol_value: HeaderValue,
}

pub open spec fn endpoint_uri(host: Seq<char>) -> Seq<char> {
    "wss://"@ + host + "/graphql/v2"@
}

pub open spec fn bearer(token: Seq<char>) -> Seq<char> {
    "Bearer "@ + token
}

/// The configured token when there is one, else the one from the environment.
pub open spec fn chosen_token(configured: Option<String>, environment: Option<String>) -> Option<String> {
    match configured {
        Some(t) => Some(t),
        None => environment,
    }
}

/// The token a session authenticates with: the configured one takes precedence.
pub fn resolve_token(configured: Option<String>, environment: Option<String>) -> (r: Option<String>)
    ensures
        r == chosen_token(configured, environment),
{
    match configured {
        Some(t) => Some(t),
        None => environment,
    }
}

/// The endpoint of the subscription service on `host`.
pub fn endpoint(host: &str) -> (r: String)
    ensures
        r@ == endpoint_uri(host@),
{
    let r = String::from_str("wss://");
    let r = r.concat(host);
    r.concat("/graphql/v2")
}

proof fn lemma_bearer_valid(token: Seq<char>)
    ensures
        valid_header_text(bearer(token)) <==> valid_header_text(token),
{
    reveal_strlit("Bearer ");
    let b = bearer(token);
    assert(b.len() == 7 + token.len());
    assert forall|i: int| 0 <= i < 7 implies header_char_ok(#[trigger] b[i]) by {
        assert(b[i] == "Bearer "@[i]);
    }
    if valid_header_text(token) {
        assert forall|i: int| 0 <= i < b.len() implies header_char_ok(#[trigger] b[i]) by {
            if i >= 7 {
                assert(b[i] == token[i - 7]);
            }
        }
    }
    if valid_header_text(b) {
        assert forall|i: int| 0 <= i < token.len() implies header_char_ok(#[trigger] token[i]) by {
            assert(b[i + 7] == token[i]);
        }
    }
}

/// Builds the handshake request for `host`, authenticated with the resolved token.
///
/// Fails with `AuthMissing` when neither token is present, before anything else is
/// built, and with `HandshakeError` when the token cannot stand in a header.
pub fn build_handshake(host: &str, configured: Option<String>, environment: Option<String>) -> (r: Result<
    HandshakeRequest,
    SessionError,
>)
    ensures
        chosen_token(configured, environment) is None ==> r == Err::<HandshakeRequest, SessionError>(
            SessionError::AuthMissing,
        ),
        chosen_token(configured, environment) matches Some(t) ==> {
            &&& !valid_header_text(t@) ==> r == Err::<HandshakeRequest, SessionError>(SessionError::HandshakeError)
            &&& valid_header_text(t@) ==> (r matches Ok(req) && req.uri@ == endpoint_uri(host@)
                && req.authorization@ == bearer(t@) && req.protocol@ == "graphql-transport-ws"@)
        },
{
    let token = match resolve_token(configured, environment) {
        Some(t) => t,
        None => {
            return Err(SessionError::AuthMissing);
        },
    };
    let authorization = String::from_str("Bearer ").concat(token.as_str());
    proof {
        lemma_bearer_valid(token@);
    }
    let authorization_value = match HeaderValue::from_str(authorization.as_str()) {
        Ok(v) => v,
        Err(_) => {
            return Err(SessionError::HandshakeError);
        },
    };
    let protocol = String::from_str("graphql-transport-ws");
    proof {
        reveal_strlit("graphql-transport-ws");
        assert(valid_header_text(protocol@));
    }
    let protocol_value = match HeaderValue::from_str(protocol.as_str()) {
        Ok(v) => v,
        Err(_) => {
            return Err(SessionError::HandshakeError);
        },
    };
    Ok(HandshakeRequest { uri: endpoint(host), authorization, authorization_value, protocol, protocol_value })
}

} // verus!
