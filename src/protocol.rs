//! Wire-level messages of the `graphql-transport-ws` sub-protocol.
use vstd::prelude::*;

verus! {

/// Decimal digit for `d < 10`.
pub open spec fn digit_char(d: nat) -> char {
    if d == 0 { '0' } else if d == 1 { '1' } else if d == 2 { '2' } else if d == 3 { '3' }
    else if d == 4 { '4' } else if d == 5 { '5' } else if d == 6 { '6' } else if d == 7 { '7' }
    else if d == 8 { '8' } else { '9' }
}

/// The decimal text of `n`, without leading zeros.
pub open spec fn decimal_text(n: nat) -> Seq<char>
    decreases n,
{
    if n < 10 {
        seq![digit_char(n)]
    } else {
        decimal_text(n / 10).push(digit_char(n % 10))
    }
}

proof fn lemma_decimal_text_len(n: nat)
    ensures
        decimal_text(n).len() >= 1,
        n >= 10 ==> decimal_text(n).len() >= 2,
    decreases n,
{
    if n >= 10 {
        lemma_decimal_text_len(n / 10);
    }
}

/// Distinct numbers have distinct decimal texts.
pub proof fn lemma_decimal_text_injective(a: nat, b: nat)
    requires
        decimal_text(a) == decimal_text(b),
    ensures
        a == b,
    decreases a,
{
    lemma_decimal_text_len(a);
    lemma_decimal_text_len(b);
    let ta = decimal_text(a);
    let tb = decimal_text(b);
    if a < 10 && b < 10 {
        assert(ta[0] == tb[0]);
    } else if a >= 10 && b >= 10 {
        assert(ta.last() == tb.last());
        assert(decimal_text(a / 10) =~= ta.drop_last());
        assert(decimal_text(b / 10) =~= tb.drop_last());
        lemma_decimal_text_injective(a / 10, b / 10);
    } else {
        assert(ta.len() != tb.len());
    }
}

fn digit_text(d: u64) -> (r: String)
    requires
        d < 10,
    ensures
        r@ == seq![digit_char(d as nat)],
{
    let s = if d == 0 { "0" } else if d == 1 { "1" } else if d == 2 { "2" } else if d == 3 { "3" }
    else if d == 4 { "4" } else if d == 5 { "5" } else if d == 6 { "6" } else if d == 7 { "7" }
    else if d == 8 { "8" } else { "9" };
    proof {
        reveal_strlit("0");
        reveal_strlit("1");
        reveal_strlit("2");
        reveal_strlit("3");
        reveal_strlit("4");
        reveal_strlit("5");
        reveal_strlit("6");
        reveal_strlit("7");
        reveal_strlit("8");
        reveal_strlit("9");
    }
    let r = String::from_str(s);
    assert(r@ =~= seq![digit_char(d as nat)]);
    r
}

/// The operation id as it appears on the wire.
pub fn id_text(n: u64) -> (r: String)
    ensures
        r@ == decimal_text(n as nat),
    decreases n,
{
    if n < 10 {
        digit_text(n)
    } else {
        let high = id_text(n / 10);
        let low = digit_text(n % 10);
        let r = high.concat(low.as_str());
        assert(r@ =~= decimal_text(n as nat));
        r
    }
}

/// A message received from the server.
#[derive(Debug, PartialEq, Eq)]
pub enum ServerMessage {
    ConnectionAck,
    Next { id: String, payload: String },
    Error { id: String, payload: String },
    Complete { id: String },
    Ping,
    Pong,
}

/// The server message that a frame of type `kind` stands for, given the frame's
/// `id` and its payload as text; `None` for a frame type that the server does not
/// send, or an operation message without an id.
pub open spec fn decoded(kind: Seq<char>, id: Option<String>, payload: String) -> Option<ServerMessage> {
    if kind == "connection_ack"@ {
        Some(ServerMessage::ConnectionAck)
    } else if kind == "ping"@ {
        Some(ServerMessage::Ping)
    } else if kind == "pong"@ {
        Some(ServerMessage::Pong)
    } else if kind == "next"@ || kind == "error"@ || kind == "complete"@ {
        match id {
            Some(id) => if kind == "next"@ {
                Some(ServerMessage::Next { id, payload })
            } else if kind == "error"@ {
                Some(ServerMessage::Error { id, payload })
            } else {
                Some(ServerMessage::Complete { id })
            },
            None => None,
        }
    } else {
        None
    }
}

/// Builds the server message of a received frame from its `type`, `id` and payload.
pub fn server_message(kind: &String, id: Option<String>, payload: String) -> (r: Option<ServerMessage>)
    ensures
        r == decoded(kind@, id, payload),
{
    if *kind == String::from_str("connection_ack") {
        Some(ServerMessage::ConnectionAck)
    } else if *kind == String::from_str("ping") {
        Some(ServerMessage::Ping)
    } else if *kind == String::from_str("pong") {
        Some(ServerMessage::Pong)
    } else {
        let next = *kind == String::from_str("next");
        let error = *kind == String::from_str("error");
        let complete = *kind == String::from_str("complete");
        if next || error || complete {
            match id {
                Some(id) => if next {
                    Some(ServerMessage::Next { id, payload })
                } else if error {
                    Some(ServerMessage::Error { id, payload })
                } else {
                    Some(ServerMessage::Complete { id })
                },
                None => None,
            }
        } else {
            None
        }
    }
}

/// A message sent to the server. Payloads are JSON documents kept as text.
#[derive(Debug, PartialEq, Eq)]
pub enum ClientMessage {
    ConnectionInit,
    Subscribe { id: u64, payload: String },
    Complete { id: u64 },
    Pong,
}

/// The text frame carrying a client message.
pub open spec fn frame_text(m: ClientMessage) -> Seq<char> {
    match m {
        ClientMessage::ConnectionInit => "{\"type\":\"connection_init\"}"@,
        ClientMessage::Subscribe { id, payload } =>
            "{\"type\":\"subscribe\",\"id\":\""@ + decimal_text(id as nat) + "\",\"payload\":"@
                + payload@ + "}"@,
        ClientMessage::Complete { id } =>
            "{\"type\":\"complete\",\"id\":\""@ + decimal_text(id as nat) + "\"}"@,
        ClientMessage::Pong => "{\"type\":\"pong\"}"@,
    }
}

impl ClientMessage {
    /// Encodes the message as one text frame; a subscribe payload is inserted as it stands.
    pub fn encode(&self) -> (r: String)
        ensures
            r@ == frame_text(*self),
    {
        match self {
            ClientMessage::ConnectionInit => String::from_str("{\"type\":\"connection_init\"}"),
            ClientMessage::Subscribe { id, payload } => {
                let r = String::from_str("{\"type\":\"subscribe\",\"id\":\"");
                let r = r.concat(id_text(*id).as_str());
                let r = r.concat("\",\"payload\":");
                let r = r.concat(payload.as_str());
                r.concat("}")
            },
            ClientMessage::Complete { id } => {
                let r = String::from_str("{\"type\":\"complete\",\"id\":\"");
                let r = r.concat(id_text(*id).as_str());
                r.concat("\"}")
            },
            ClientMessage::Pong => String::from_str("{\"type\":\"pong\"}"),
        }
    }
}

} // verus!
