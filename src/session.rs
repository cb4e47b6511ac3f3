//! The protocol session: a state machine driven by socket events and caller calls.
//!
//! The session does no I/O itself. The task that owns the socket feeds it each
//! inbound message and sends the client message that each step hands back.
use vstd::prelude::*;
use crate::protocol::{decimal_text, id_text, lemma_decimal_text_injective, ClientMessage, ServerMessage};

verus! {

/// Where the session stands. `Closing` lasts while `close` signals the open
/// operations; every step that starts it ends in `Closed`.
#[derive(PartialEq, Eq, Structural, Clone, Copy, Debug)]
pub enum SessionState {
    Connecting,
    Handshaking,
    Ready,
    Active,
    Closing,
    Closed,
}

/// What a subscription handle receives, in order.
#[derive(Debug, PartialEq, Eq)]
pub enum Delivery {
    Payload(String),
    /// The server completed the operation: the sequence ends normally.
    Completed,
    /// The server reported an error for this operation only.
    Failed(String),
    /// The session closed while the operation was still open.
    SessionClosed,
}

/// The model of one operation: its id, its wire id, whether it is open, and
/// what has been buffered for its handle and not yet taken.
pub struct OperationView {
    pub id: u64,
    pub text: Seq<char>,
    pub open: bool,
    pub queue: Seq<Delivery>,
}

pub struct SessionView {
    pub state: SessionState,
    pub next_id: nat,
    pub ops: Seq<OperationView>,
}

pub open spec fn op_closed(op: OperationView) -> OperationView {
    OperationView { open: false, ..op }
}

pub open spec fn op_push(op: OperationView, d: Delivery) -> OperationView {
    OperationView { queue: op.queue.push(d), ..op }
}

/// Ids are 1, 2, 3, ... in order of subscription, and `next_id` is the next one.
pub open spec fn view_wf(v: SessionView) -> bool {
    &&& v.next_id == v.ops.len() + 1
    &&& forall|i: int| 0 <= i < v.ops.len() ==> (#[trigger] v.ops[i]).id == i + 1
        && v.ops[i].text == decimal_text((i + 1) as nat)
    &&& v.state == SessionState::Closed ==> forall|i: int| 0 <= i < v.ops.len() ==> !(#[trigger] v.ops[i]).open
    &&& (v.state == SessionState::Connecting || v.state == SessionState::Handshaking
        || v.state == SessionState::Ready) ==> v.ops.len() == 0
}

/// Closing: every open operation gets one `SessionClosed` and is closed.
pub open spec fn close_step(v: SessionView) -> SessionView {
    SessionView {
        state: SessionState::Closed,
        next_id: v.next_id,
        ops: Seq::new(v.ops.len(), |i: int|
            if v.ops[i].open { op_closed(op_push(v.ops[i], Delivery::SessionClosed)) } else { v.ops[i] }),
    }
}

/// What an inbound message addressed to operation `text` does to `op`.
pub open spec fn route(op: OperationView, text: Seq<char>, m: ServerMessage) -> OperationView {
    if op.open && op.text == text {
        match m {
            ServerMessage::Next { payload, .. } => op_push(op, Delivery::Payload(payload)),
            ServerMessage::Error { payload, .. } => op_closed(op_push(op, Delivery::Failed(payload))),
            ServerMessage::Complete { .. } => op_closed(op_push(op, Delivery::Completed)),
            _ => op,
        }
    } else {
        op
    }
}

/// The wire id that an operation-level message names.
pub open spec fn message_target(m: ServerMessage) -> Option<Seq<char>> {
    match m {
        ServerMessage::Next { id, .. } => Some(id@),
        ServerMessage::Error { id, .. } => Some(id@),
        ServerMessage::Complete { id } => Some(id@),
        _ => None,
    }
}

/// The session after an inbound message.
pub open spec fn message_step(v: SessionView, m: ServerMessage) -> SessionView {
    match v.state {
        SessionState::Handshaking => match m {
            ServerMessage::ConnectionAck => SessionView { state: SessionState::Ready, ..v },
            ServerMessage::Ping => v,
            ServerMessage::Pong => v,
            _ => close_step(v),
        },
        SessionState::Ready | SessionState::Active => match message_target(m) {
            Some(text) => SessionView {
                ops: Seq::new(v.ops.len(), |i: int| route(v.ops[i], text, m)),
                ..v
            },
            None => v,
        },
        _ => v,
    }
}

/// The reply that an inbound message asks for.
pub open spec fn message_reply(v: SessionView, m: ServerMessage) -> Option<ClientMessage> {
    if (v.state == SessionState::Handshaking || v.state == SessionState::Ready
        || v.state == SessionState::Active) && m is Ping {
        Some(ClientMessage::Pong)
    } else {
        None
    }
}

/// Whether a new operation can start: the handshake is done and ids remain.
pub open spec fn can_subscribe(v: SessionView) -> bool {
    (v.state == SessionState::Ready || v.state == SessionState::Active) && v.next_id < u64::MAX
}

pub open spec fn subscribe_step(v: SessionView) -> SessionView {
    SessionView {
        state: SessionState::Active,
        next_id: v.next_id + 1,
        ops: v.ops.push(OperationView {
            id: v.next_id as u64,
            text: decimal_text(v.next_id),
            open: true,
            queue: Seq::empty(),
        }),
    }
}

/// Whether dropping the handle of `id` sends an unsubscribe.
pub open spec fn cancel_sends(v: SessionView, id: u64) -> bool {
    v.state == SessionState::Active && 1 <= id < v.next_id && v.ops[id - 1].open
}

/// Dropping a handle: the operation is closed and what was buffered for it is discarded.
pub open spec fn cancel_step(v: SessionView, id: u64) -> SessionView {
    if 1 <= id < v.next_id {
        SessionView {
            ops: v.ops.update(id - 1, OperationView { open: false, queue: Seq::empty(), ..v.ops[id - 1] }),
            ..v
        }
    } else {
        v
    }
}

/// The session after a sequence of inbound messages, in arrival order.
pub open spec fn run(v: SessionView, ms: Seq<ServerMessage>) -> SessionView
    decreases ms.len(),
{
    if ms.len() == 0 {
        v
    } else {
        run(message_step(v, ms[0]), ms.drop_first())
    }
}

pub open spec fn payload_of(m: ServerMessage) -> Delivery {
    match m {
        ServerMessage::Next { payload, .. } => Delivery::Payload(payload),
        _ => Delivery::Completed,
    }
}

/// Payloads reach a handle in the order they arrived: after any run of `next`
/// messages for an open operation of a ready session, its buffer holds what it held
/// before followed by their payloads, in order, and the operation is still open.
pub proof fn lemma_fifo_delivery(v: SessionView, i: int, ms: Seq<ServerMessage>)
    requires
        view_wf(v),
        v.state == SessionState::Ready || v.state == SessionState::Active,
        0 <= i < v.ops.len(),
        v.ops[i].open,
        forall|k: int| 0 <= k < ms.len() ==> (#[trigger] ms[k]) is Next && message_target(ms[k]) == Some(v.ops[i].text),
    ensures
        run(v, ms).ops.len() == v.ops.len(),
        run(v, ms).state == v.state,
        run(v, ms).ops[i].open,
        run(v, ms).ops[i].queue == v.ops[i].queue + ms.map_values(|m: ServerMessage| payload_of(m)),
    decreases ms.len(),
{
    if ms.len() == 0 {
        assert(ms.map_values(|m: ServerMessage| payload_of(m)) =~= Seq::<Delivery>::empty());
        assert(v.ops[i].queue + Seq::<Delivery>::empty() =~= v.ops[i].queue);
    } else {
        let w = message_step(v, ms[0]);
        assert(ms[0] is Next);
        assert(w.ops[i] == route(v.ops[i], v.ops[i].text, ms[0]));
        lemma_message_step_wf(v, ms[0]);
        let rest = ms.drop_first();
        assert forall|k: int| 0 <= k < rest.len() implies (#[trigger] rest[k]) is Next
            && message_target(rest[k]) == Some(w.ops[i].text) by {
            assert(rest[k] == ms[k + 1]);
        }
        lemma_fifo_delivery(w, i, rest);
        assert(ms.map_values(|m: ServerMessage| payload_of(m)) =~= seq![payload_of(ms[0])]
            + rest.map_values(|m: ServerMessage| payload_of(m)));
        assert(v.ops[i].queue + ms.map_values(|m: ServerMessage| payload_of(m))
            =~= w.ops[i].queue + rest.map_values(|m: ServerMessage| payload_of(m)));
    }
}

/// Every inbound message keeps the session well formed and leaves the ids alone.
pub proof fn lemma_message_step_wf(v: SessionView, m: ServerMessage)
    requires
        view_wf(v),
    ensures
        view_wf(message_step(v, m)),
        message_step(v, m).next_id == v.next_id,
        message_step(v, m).ops.len() == v.ops.len(),
        forall|i: int| 0 <= i < v.ops.len() ==> (#[trigger] message_step(v, m).ops[i]).id == v.ops[i].id,
{
    lemma_close_step_wf(v);
}

/// Closing keeps the session well formed and leaves the ids alone.
pub proof fn lemma_close_step_wf(v: SessionView)
    requires
        view_wf(v),
    ensures
        view_wf(close_step(v)),
        close_step(v).next_id == v.next_id,
        close_step(v).ops.len() == v.ops.len(),
        forall|i: int| 0 <= i < v.ops.len() ==> (#[trigger] close_step(v).ops[i]).id == v.ops[i].id,
{
}

/// Operation ids are unique and increasing for the life of a session: each new
/// operation gets an id above every earlier one, and no later message, drop or
/// close changes an id or lowers the next one.
pub proof fn lemma_ids_increase(v: SessionView, m: ServerMessage, id: u64)
    requires
        view_wf(v),
    ensures
        forall|i: int, j: int| 0 <= i < j < v.ops.len() ==> (#[trigger] v.ops[i]).id < (#[trigger] v.ops[j]).id,
        forall|i: int| 0 <= i < v.ops.len() ==> (#[trigger] v.ops[i]).id < v.next_id,
        can_subscribe(v) ==> view_wf(subscribe_step(v)) && subscribe_step(v).ops.last().id == v.next_id
            && subscribe_step(v).next_id == v.next_id + 1,
        view_wf(message_step(v, m)) && message_step(v, m).next_id == v.next_id,
        view_wf(cancel_step(v, id)) && cancel_step(v, id).next_id == v.next_id,
        view_wf(close_step(v)) && close_step(v).next_id == v.next_id,
{
    lemma_message_step_wf(v, m);
    lemma_close_step_wf(v);
    if can_subscribe(v) {
        let w = subscribe_step(v);
        assert forall|i: int| 0 <= i < w.ops.len() implies (#[trigger] w.ops[i]).id == i + 1
            && w.ops[i].text == decimal_text((i + 1) as nat) by {
            if i < v.ops.len() {
                assert(w.ops[i] == v.ops[i]);
            }
        }
    }
    if 1 <= id < v.next_id {
        let w = cancel_step(v, id);
        assert forall|i: int| 0 <= i < w.ops.len() implies (#[trigger] w.ops[i]).id == i + 1
            && w.ops[i].text == decimal_text((i + 1) as nat) by {
            assert(v.ops[i].id == i + 1);
        }
    }
}

/// Dropping the handle of an open operation of an active session sends one
/// `complete`: a second drop sends nothing, and no later message or close puts
/// anything in that operation's buffer.
pub proof fn lemma_cancel_once(v: SessionView, id: u64, m: ServerMessage)
    requires
        view_wf(v),
        cancel_sends(v, id),
    ensures
        !cancel_sends(cancel_step(v, id), id),
        cancel_step(v, id).ops[id - 1].queue.len() == 0,
        message_step(cancel_step(v, id), m).ops[id - 1].queue.len() == 0,
        close_step(cancel_step(v, id)).ops[id - 1].queue.len() == 0,
{
    let w = cancel_step(v, id);
    assert(!w.ops[id - 1].open);
}

/// When the session closes, each operation still open receives `SessionClosed`
/// exactly once and is closed; the others are untouched; closing again, or any
/// later message, changes nothing.
pub proof fn lemma_close_signals_once(v: SessionView, m: ServerMessage)
    requires
        view_wf(v),
    ensures
        forall|i: int| 0 <= i < v.ops.len() && (#[trigger] v.ops[i]).open ==>
            close_step(v).ops[i].queue == v.ops[i].queue.push(Delivery::SessionClosed)
                && !close_step(v).ops[i].open,
        forall|i: int| 0 <= i < v.ops.len() && !(#[trigger] v.ops[i]).open ==> close_step(v).ops[i] == v.ops[i],
        close_step(close_step(v)) == close_step(v),
        message_step(close_step(v), m) == close_step(v),
{
    let w = close_step(v);
    assert(close_step(w).ops =~= w.ops);
}

/// A message that names no open operation leaves a ready session exactly as it was.
pub proof fn lemma_unknown_id_ignored(v: SessionView, m: ServerMessage)
    requires
        view_wf(v),
        v.state == SessionState::Ready || v.state == SessionState::Active,
        message_target(m) matches Some(t) && forall|i: int| 0 <= i < v.ops.len() ==>
            !((#[trigger] v.ops[i]).open && v.ops[i].text == t),
    ensures
        message_step(v, m) == v,
        message_reply(v, m) is None,
{
    assert(message_step(v, m).ops =~= v.ops);
}

struct Operation {
    id: u64,
    id_text: String,
    open: bool,
    queue: Vec<Delivery>,
}

impl Operation {
    spec fn view(&self) -> OperationView {
        OperationView { id: self.id, text: self.id_text@, open: self.open, queue: self.queue@ }
    }
}

/// One session over one socket.
pub struct Session {
    state: SessionState,
    next_id: u64,
    ops: Vec<Operation>,
}

impl View for Session {
    type V = SessionView;

    closed spec fn view(&self) -> SessionView {
        SessionView {
            state: self.state,
            next_id: self.next_id as nat,
            ops: Seq::new(self.ops@.len(), |i: int| self.ops@[i].view()),
        }
    }
}

impl Session {
    /// A session whose socket upgrade has not completed yet.
    pub fn new() -> (r: Session)
        ensures
            view_wf(r@),
            r@.state == SessionState::Connecting,
            r@.next_id == 1,
            r@.ops.len() == 0,
    {
        let r = Session { state: SessionState::Connecting, next_id: 1, ops: Vec::new() };
        assert(r@.ops =~= Seq::<OperationView>::empty());
        r
    }

    pub fn state(&self) -> (r: SessionState)
        ensures
            r == self@.state,
    {
        self.state
    }

    /// The socket upgrade completed: the session starts the handshake with `connection_init`.
    pub fn socket_opened(&mut self) -> (r: Option<ClientMessage>)
        requires
            view_wf(old(self)@),
        ensures
            view_wf(final(self)@),
            old(self)@.state == SessionState::Connecting ==> final(self)@ == (SessionView {
                state: SessionState::Handshaking,
                ..old(self)@
            }) && r == Some(ClientMessage::ConnectionInit),
            old(self)@.state != SessionState::Connecting ==> final(self)@ == old(self)@ && r is None,
    {
        if self.state == SessionState::Connecting {
            self.state = SessionState::Handshaking;
            Some(ClientMessage::ConnectionInit)
        } else {
            None
        }
    }

    /// The index of the open operation whose wire id is `text`, if there is one.
    fn find_open(&self, text: &String) -> (r: Option<usize>)
        requires
            view_wf(self@),
        ensures
            match r {
                Some(j) => j < self@.ops.len() && self@.ops[j as int].open && self@.ops[j as int].text == text@
                    && forall|k: int| 0 <= k < self@.ops.len() && k != j ==> (#[trigger] self@.ops[k]).text != text@,
                None => forall|k: int| 0 <= k < self@.ops.len() ==>
                    !((#[trigger] self@.ops[k]).open && self@.ops[k].text == text@),
            },
    {
        let mut i: usize = 0;
        while i < self.ops.len()
            invariant
                view_wf(self@),
                i <= self.ops@.len(),
                forall|k: int| 0 <= k < i ==> !((#[trigger] self@.ops[k]).open && self@.ops[k].text == text@),
            decreases self.ops@.len() - i,
        {
            if self.ops[i].open && self.ops[i].id_text == *text {
                assert forall|k: int| 0 <= k < self@.ops.len() && k != i implies (#[trigger] self@.ops[k]).text != text@ by {
                    assert(self@.ops[i as int].text == text@);
                    assert(self@.ops[i as int].text == decimal_text((i + 1) as nat));
                    assert(self@.ops[k].text == decimal_text((k + 1) as nat));
                    if self@.ops[k].text == text@ {
                        lemma_decimal_text_injective((k + 1) as nat, (i + 1) as nat);
                    }
                }
                return Some(i);
            }
            i += 1;
        }
        None
    }

    /// Hands `d` to the open operation whose wire id is `text`, closing it when `last`.
    fn deliver(&mut self, text: &String, d: Delivery, last: bool)
        requires
            view_wf(old(self)@),
            old(self)@.state == SessionState::Ready || old(self)@.state == SessionState::Active,
        ensures
            view_wf(final(self)@),
            final(self)@ == (SessionView {
                ops: Seq::new(old(self)@.ops.len(), |i: int|
                    if old(self)@.ops[i].open && old(self)@.ops[i].text == text@ {
                        if last { op_closed(op_push(old(self)@.ops[i], d)) } else { op_push(old(self)@.ops[i], d) }
                    } else {
                        old(self)@.ops[i]
                    }),
                ..old(self)@
            }),
    {
        let ghost pre = self@;
        match self.find_open(text) {
            Some(j) => {
                self.ops[j].queue.push(d);
                if last {
                    self.ops[j].open = false;
                }
            },
            None => {},
        }
        assert(self@.ops =~= Seq::new(pre.ops.len(), |i: int|
            if pre.ops[i].open && pre.ops[i].text == text@ {
                if last { op_closed(op_push(pre.ops[i], d)) } else { op_push(pre.ops[i], d) }
            } else {
                pre.ops[i]
            }));
    }

    /// Closes the session: each open operation receives `SessionClosed` once.
    pub fn close(&mut self)
        requires
            view_wf(old(self)@),
        ensures
            view_wf(final(self)@),
            final(self)@ == close_step(old(self)@),
    {
        let ghost pre = self@;
        self.state = SessionState::Closing;
        let mut i: usize = 0;
        while i < self.ops.len()
            invariant
                i <= self.ops@.len(),
                self@.ops.len() == pre.ops.len(),
                self.next_id == pre.next_id,
                forall|k: int| 0 <= k < i ==> #[trigger] self.ops@[k].view() == (
                    if pre.ops[k].open { op_closed(op_push(pre.ops[k], Delivery::SessionClosed)) } else { pre.ops[k] }),
                forall|k: int| i <= k < self.ops@.len() ==> #[trigger] self.ops@[k].view() == pre.ops[k],
            decreases self.ops@.len() - i,
        {
            let ghost before = self.ops@[i as int].view();
            assert(before == pre.ops[i as int]);
            if self.ops[i].open {
                self.ops[i].queue.push(Delivery::SessionClosed);
                self.ops[i].open = false;
                assert(self.ops@[i as int].view().queue =~= before.queue.push(Delivery::SessionClosed));
            }
            assert(self.ops@[i as int].view() == (if pre.ops[i as int].open {
                op_closed(op_push(pre.ops[i as int], Delivery::SessionClosed))
            } else {
                pre.ops[i as int]
            }));
            i += 1;
        }
        self.state = SessionState::Closed;
        assert(self@.ops =~= close_step(pre).ops);
    }

    /// Handles one inbound message and returns the reply it asks for, if any.
    ///
    /// During the handshake anything but `connection_ack`, `ping` or `pong` fails the
    /// session. Once ready, `next`, `error` and `complete` go to the open operation they
    /// name; a message naming no open operation is dropped and changes nothing.
    pub fn on_message(&mut self, m: ServerMessage) -> (r: Option<ClientMessage>)
        requires
            view_wf(old(self)@),
        ensures
            view_wf(final(self)@),
            final(self)@ == message_step(old(self)@, m),
            r == message_reply(old(self)@, m),
    {
        let ghost pre = self@;
        let ghost msg = m;
        match self.state {
            SessionState::Handshaking => match m {
                ServerMessage::ConnectionAck => {
                    self.state = SessionState::Ready;
                    None
                },
                ServerMessage::Ping => Some(ClientMessage::Pong),
                ServerMessage::Pong => None,
                _ => {
                    self.close();
                    None
                },
            },
            SessionState::Ready | SessionState::Active => {
                let ping = match &m {
                    ServerMessage::Ping => true,
                    _ => false,
                };
                match m {
                    ServerMessage::Next { id, payload } => {
                        self.deliver(&id, Delivery::Payload(payload), false);
                    },
                    ServerMessage::Error { id, payload } => {
                        self.deliver(&id, Delivery::Failed(payload), true);
                    },
                    ServerMessage::Complete { id } => {
                        self.deliver(&id, Delivery::Completed, true);
                    },
                    _ => {},
                }
                assert(self@ == message_step(pre, msg)) by {
                    match message_target(msg) {
                        Some(text) => {
                            assert(self@.ops =~= Seq::new(pre.ops.len(), |i: int| route(pre.ops[i], text, msg)));
                        },
                        None => {},
                    }
                }
                if ping {
                    Some(ClientMessage::Pong)
                } else {
                    None
                }
            },
            _ => None,
        }
    }

    /// Starts an operation: it gets the next id, and the `subscribe` message carries `payload`.
    /// Returns `None`, changing nothing, before the handshake is done, once the session
    /// is closing or closed, or when ids are used up.
    pub fn subscribe(&mut self, payload: String) -> (r: Option<(u64, ClientMessage)>)
        requires
            view_wf(old(self)@),
        ensures
            view_wf(final(self)@),
            can_subscribe(old(self)@) ==> final(self)@ == subscribe_step(old(self)@)
                && r == Some((old(self)@.next_id as u64, ClientMessage::Subscribe {
                    id: old(self)@.next_id as u64,
                    payload,
                })),
            !can_subscribe(old(self)@) ==> final(self)@ == old(self)@ && r is None,
    {
        if (self.state == SessionState::Ready || self.state == SessionState::Active) && self.next_id < u64::MAX {
            let ghost pre = self@;
            let id = self.next_id;
            let text = id_text(id);
            self.ops.push(Operation { id, id_text: text, open: true, queue: Vec::new() });
            self.next_id = id + 1;
            self.state = SessionState::Active;
            assert(self@.ops =~= subscribe_step(pre).ops);
            assert(self@.ops.last().queue =~= Seq::<Delivery>::empty());
            Some((id, ClientMessage::Subscribe { id, payload }))
        } else {
            None
        }
    }

    /// The handle of operation `id` was dropped: what was buffered for it is discarded,
    /// and if the operation was still open in an active session, it is closed and one
    /// `complete` message is returned to send.
    pub fn cancel(&mut self, id: u64) -> (r: Option<ClientMessage>)
        requires
            view_wf(old(self)@),
        ensures
            view_wf(final(self)@),
            final(self)@ == cancel_step(old(self)@, id),
            r == (if cancel_sends(old(self)@, id) { Some(ClientMessage::Complete { id }) } else { None }),
    {
        let _ = self.ops.len();
        assert(self@.ops.len() == self.ops@.len());
        if 1 <= id && id < self.next_id {
            let ghost pre = self@;
            let j = (id - 1) as usize;
            assert(self@.ops[j as int] == self.ops@[j as int].view());
            let sends = self.state == SessionState::Active && self.ops[j].open;
            self.ops[j].open = false;
            self.ops[j].queue = Vec::new();
            assert(self@.ops =~= cancel_step(pre, id).ops) by {
                assert(self@.ops[j as int].queue =~= Seq::<Delivery>::empty());
            }
            if sends {
                Some(ClientMessage::Complete { id })
            } else {
                None
            }
        } else {
            None
        }
    }

    /// Takes the oldest delivery buffered for operation `id`.
    pub fn next_delivery(&mut self, id: u64) -> (r: Option<Delivery>)
        requires
            view_wf(old(self)@),
        ensures
            view_wf(final(self)@),
            (1 <= id < old(self)@.next_id && old(self)@.ops[id - 1].queue.len() > 0) ==> {
                &&& r == Some(old(self)@.ops[id - 1].queue[0])
                &&& final(self)@ == (SessionView {
                    ops: old(self)@.ops.update(id - 1, OperationView {
                        queue: old(self)@.ops[id - 1].queue.drop_first(),
                        ..old(self)@.ops[id - 1]
                    }),
                    ..old(self)@
                })
            },
            !(1 <= id < old(self)@.next_id && old(self)@.ops[id - 1].queue.len() > 0) ==> r is None
                && final(self)@ == old(self)@,
    {
        let _ = self.ops.len();
        assert(self@.ops.len() == self.ops@.len());
        if 1 <= id && id < self.next_id {
            assert(self@.ops[id - 1] == self.ops@[id - 1].view());
        }
        if 1 <= id && id < self.next_id && self.ops[(id - 1) as usize].queue.len() > 0 {
            let ghost pre = self@;
            let j = (id - 1) as usize;
            let d = self.ops[j].queue.remove(0);
            assert(self@.ops =~= pre.ops.update(j as int, OperationView {
                queue: pre.ops[j as int].queue.drop_first(),
                ..pre.ops[j as int]
            })) by {
                assert(self@.ops[j as int].queue =~= pre.ops[j as int].queue.drop_first());
            }
            Some(d)
        } else {
            None
        }
    }

    /// Whether operation `id` is still open.
    pub fn is_open(&self, id: u64) -> (r: bool)
        requires
            view_wf(self@),
        ensures
            r == (1 <= id < self@.next_id && self@.ops[id - 1].open),
    {
        let _ = self.ops.len();
        assert(self@.ops.len() == self.ops@.len());
        if 1 <= id && id < self.next_id {
            let j = (id - 1) as usize;
            assert(self@.ops[j as int] == self.ops@[j as int].view());
            self.ops[j].open
        } else {
            false
        }
    }
}

} // verus!
