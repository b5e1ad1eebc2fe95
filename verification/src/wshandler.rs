//! The connection multiplexer: the life of one connection as a state
//! machine.
//!
//! The caller owns the network session, the outbound channel and the
//! timer. It reports what happened as an [`Event`], with the time at which
//! it happened, and carries out the [`Action`] that comes back. Time is in
//! milliseconds since any fixed instant.

use crate::json::{decimal, json_string, lemma_plain_text_stays, number, quote};
use crate::room::{ConnId, RoomId};
use vstd::prelude::*;
use vstd::string::StringExecFns;

verus! {

/// How often a ping is sent to the peer, in milliseconds.
pub const HEARTBEAT_INTERVAL: u64 = 5_000;

/// How long a peer may stay without ping or pong before it is taken for
/// dead, in milliseconds.
pub const CLIENT_TIMEOUT: u64 = 10_000;

/// The `type` of the envelope by which a peer asks for its connection id.
pub open spec fn request_id_kind() -> Seq<char> {
    "request_id"@
}

/// The `type` of the envelope that answers with the connection id.
pub open spec fn id_kind() -> Seq<char> {
    "id"@
}

/// The `type` of the envelope that reports a rejection.
pub open spec fn error_kind() -> Seq<char> {
    "error"@
}

/// The envelope `{"type":<kind>,"conn_id":<conn_id>}`, the kind as a JSON
/// string and the id in decimal digits.
pub open spec fn id_envelope(kind: Seq<char>, conn_id: ConnId) -> Seq<char> {
    "{\"type\":"@ + json_string(kind) + ",\"conn_id\":"@ + decimal(conn_id as nat) + "}"@
}

/// The envelope `{"type":<kind>,"message":<message>}`, both as JSON
/// strings.
pub open spec fn error_envelope(kind: Seq<char>, message: Seq<char>) -> Seq<char> {
    "{\"type\":"@ + json_string(kind) + ",\"message\":"@ + json_string(message) + "}"@
}

/// On the wire the answer to a request for the id reads
/// `{"type":"id","conn_id":` and the id in decimal digits and `}`.
pub proof fn lemma_id_envelope_text(conn_id: ConnId)
    ensures
        id_envelope(id_kind(), conn_id) == "{\"type\":\"id\",\"conn_id\":"@ + decimal(conn_id as nat)
            + "}"@,
{
    reveal_strlit("id");
    reveal_strlit("{\"type\":");
    reveal_strlit(",\"conn_id\":");
    reveal_strlit("{\"type\":\"id\",\"conn_id\":");
    lemma_plain_text_stays("id"@);
    assert("{\"type\":"@ + json_string("id"@) + ",\"conn_id\":"@ =~= "{\"type\":\"id\",\"conn_id\":"@);
}

/// On the wire the notice of a rejection reads
/// `{"type":"error","message":` and the message as a JSON string and `}`.
pub proof fn lemma_error_envelope_text(message: Seq<char>)
    ensures
        error_envelope(error_kind(), message) == "{\"type\":\"error\",\"message\":"@ + json_string(
            message,
        ) + "}"@,
{
    reveal_strlit("error");
    reveal_strlit("{\"type\":");
    reveal_strlit(",\"message\":");
    reveal_strlit("{\"type\":\"error\",\"message\":");
    lemma_plain_text_stays("error"@);
    assert("{\"type\":"@ + json_string("error"@) + ",\"message\":"@
        =~= "{\"type\":\"error\",\"message\":"@);
}

/// The envelope of an inbound text frame, reduced to its `type`.
#[derive(Debug)]
pub struct WSMessage {
    pub kind: String,
}

/// The reply to a request for the connection id.
pub struct IDMessage {
    kind: String,
    conn_id: ConnId,
}

/// The mathematical value of an [`IDMessage`].
pub struct IDMessageView {
    pub kind: Seq<char>,
    pub conn_id: ConnId,
}

impl View for IDMessage {
    type V = IDMessageView;

    closed spec fn view(&self) -> IDMessageView {
        IDMessageView { kind: self.kind@, conn_id: self.conn_id }
    }
}

impl IDMessage {
    pub fn new(conn_id: ConnId) -> (msg: Self)
        ensures
            msg@ == (IDMessageView { kind: id_kind(), conn_id }),
    {
        Self { kind: String::from_str("id"), conn_id }
    }

    /// The message as the JSON text that goes on the wire.
    pub fn to_string(&self) -> (text: String)
        ensures
            text@ == id_envelope(self@.kind, self@.conn_id),
    {
        let mut text = String::from_str("{\"type\":");
        text.append(quote(self.kind.as_str()).as_str());
        text.append(",\"conn_id\":");
        text.append(number(self.conn_id).as_str());
        text.append("}");
        text
    }
}

/// The notice sent to a peer that is turned away.
pub struct ErrorMessage {
    kind: String,
    message: String,
}

/// The mathematical value of an [`ErrorMessage`].
pub struct ErrorMessageView {
    pub kind: Seq<char>,
    pub message: Seq<char>,
}

impl View for ErrorMessage {
    type V = ErrorMessageView;

    closed spec fn view(&self) -> ErrorMessageView {
        ErrorMessageView { kind: self.kind@, message: self.message@ }
    }
}

impl ErrorMessage {
    pub fn new(message: String) -> (msg: Self)
        ensures
            msg@ == (ErrorMessageView { kind: error_kind(), message: message@ }),
    {
        Self { kind: String::from_str("error"), message }
    }

    /// The message as the JSON text that goes on the wire.
    pub fn to_string(&self) -> (text: String)
        ensures
            text@ == error_envelope(self@.kind, self@.message),
    {
        let mut text = String::from_str("{\"type\":");
        text.append(quote(self.kind.as_str()).as_str());
        text.append(",\"message\":");
        text.append(quote(self.message.as_str()).as_str());
        text.append("}");
        text
    }
}

/// Why a peer closed the connection: the close code and its description.
#[derive(Debug)]
pub struct CloseReason {
    pub code: u16,
    pub description: Option<String>,
}

/// The mathematical value of a [`CloseReason`].
pub struct CloseReasonView {
    pub code: u16,
    pub description: Option<Seq<char>>,
}

impl View for CloseReason {
    type V = CloseReasonView;

    open spec fn view(&self) -> CloseReasonView {
        CloseReasonView {
            code: self.code,
            description: match self.description {
                Some(text) => Some(text@),
                None => None,
            },
        }
    }
}

/// The mathematical value of an optional [`CloseReason`].
pub open spec fn reason_view(reason: Option<CloseReason>) -> Option<CloseReasonView> {
    match reason {
        Some(r) => Some(r@),
        None => None,
    }
}

/// What can happen to a connection.
#[derive(Debug)]
pub enum Event {
    /// The peer sent a ping with this payload.
    Ping(Vec<u8>),
    /// The peer sent a pong.
    Pong,
    /// The peer sent a close frame.
    Close(Option<CloseReason>),
    /// The peer sent a binary frame.
    Binary,
    /// The peer sent a text frame. `envelope` is the frame read as an
    /// envelope with a `type`, where it can be read as one.
    Text { text: String, envelope: Option<WSMessage> },
    /// The inbound stream reported an error.
    StreamError,
    /// The inbound stream ended.
    StreamEnded,
    /// The room queued a message for this connection.
    RoomUpdate(String),
    /// The heartbeat timer fired.
    Tick,
    /// A pong or a text frame could not be written to the peer.
    WriteFailed,
    /// The outbound channel of the connection closed: the room let go of
    /// the pipe, as it does where another connection takes its place.
    PipeClosed,
}

/// The mathematical value of an [`Event`].
pub enum EventView {
    Ping(Seq<u8>),
    Pong,
    Close(Option<CloseReasonView>),
    Binary,
    Text { text: Seq<char>, kind: Option<Seq<char>> },
    StreamError,
    StreamEnded,
    RoomUpdate(Seq<char>),
    Tick,
    WriteFailed,
    PipeClosed,
}

impl View for Event {
    type V = EventView;

    open spec fn view(&self) -> EventView {
        match *self {
            Event::Ping(bytes) => EventView::Ping(bytes@),
            Event::Pong => EventView::Pong,
            Event::Close(reason) => EventView::Close(reason_view(reason)),
            Event::Binary => EventView::Binary,
            Event::Text { text, envelope } => EventView::Text {
                text: text@,
                kind: match envelope {
                    Some(msg) => Some(msg.kind@),
                    None => None,
                },
            },
            Event::StreamError => EventView::StreamError,
            Event::StreamEnded => EventView::StreamEnded,
            Event::RoomUpdate(text) => EventView::RoomUpdate(text@),
            Event::Tick => EventView::Tick,
            Event::WriteFailed => EventView::WriteFailed,
            Event::PipeClosed => EventView::PipeClosed,
        }
    }
}

/// What the caller is to do after an event.
#[derive(Debug)]
pub enum Action {
    /// Nothing; wait for the next event.
    Continue,
    /// Answer the peer's ping with a pong of the same payload.
    Pong(Vec<u8>),
    /// Send the peer a ping with an empty payload.
    Ping,
    /// Send the peer this text frame.
    Text(String),
    /// Hand this text to the command callback of the connection's role.
    Forward(String),
    /// Leave the event loop: deregister the connection from its room,
    /// then close the session with this reason.
    Disconnect { room: RoomId, conn: ConnId, user_type: ConnId, reason: Option<CloseReason> },
}

/// The mathematical value of an [`Action`].
pub enum ActionView {
    Continue,
    Pong(Seq<u8>),
    Ping,
    Text(Seq<char>),
    Forward(Seq<char>),
    Disconnect { room: RoomId, conn: ConnId, user_type: ConnId, reason: Option<CloseReasonView> },
}

impl View for Action {
    type V = ActionView;

    open spec fn view(&self) -> ActionView {
        match *self {
            Action::Continue => ActionView::Continue,
            Action::Pong(bytes) => ActionView::Pong(bytes@),
            Action::Ping => ActionView::Ping,
            Action::Text(text) => ActionView::Text(text@),
            Action::Forward(text) => ActionView::Forward(text@),
            Action::Disconnect { room, conn, user_type, reason } => ActionView::Disconnect {
                room,
                conn,
                user_type,
                reason: reason_view(reason),
            },
        }
    }
}

/// The mathematical value of a [`Connection`].
pub struct ConnectionView {
    pub room: RoomId,
    pub conn_id: ConnId,
    pub user_type: ConnId,
    /// When the peer was last heard by ping or pong.
    pub last_heartbeat: u64,
    /// Whether the event loop is still running.
    pub open: bool,
}

impl ConnectionView {
    /// A connection that was registered at `now`.
    pub open spec fn registered(room: RoomId, conn_id: ConnId, user_type: ConnId, now: u64) -> ConnectionView {
        ConnectionView { room, conn_id, user_type, last_heartbeat: now, open: true }
    }

    /// The connection after a ping or pong at `now`.
    pub open spec fn beat(self, now: u64) -> ConnectionView {
        ConnectionView { last_heartbeat: now, ..self }
    }

    /// The connection after its event loop ended.
    pub open spec fn closed(self) -> ConnectionView {
        ConnectionView { open: false, ..self }
    }

    /// How long the peer has been silent at `now`. A clock that ran
    /// backwards counts as no silence.
    pub open spec fn silence(self, now: u64) -> int {
        if now >= self.last_heartbeat {
            now - self.last_heartbeat
        } else {
            0
        }
    }

    /// The action that ends the event loop.
    pub open spec fn farewell(self, reason: Option<CloseReasonView>) -> ActionView {
        ActionView::Disconnect { room: self.room, conn: self.conn_id, user_type: self.user_type, reason }
    }

    /// The connection after `event` at `now`, and what the caller is to do.
    ///
    /// - A ping is answered with a pong and counts as a heartbeat, a pong
    ///   counts as a heartbeat.
    /// - A close frame, the end of the stream, a failed write and the
    ///   closing of the outbound channel end the event loop; only the close
    ///   frame has a reason.
    /// - A text frame that asks for the connection id is answered to the
    ///   peer alone; every other text frame is forwarded as it is.
    /// - A message from the room goes to the peer as a text frame.
    /// - On a tick the peer is pinged, unless it was silent for longer
    ///   than [`CLIENT_TIMEOUT`]: then the event loop ends.
    /// - A binary frame and a stream error change nothing.
    /// - Once the event loop has ended, nothing happens any more.
    pub open spec fn step(self, event: EventView, now: u64) -> (ConnectionView, ActionView) {
        if !self.open {
            (self, ActionView::Continue)
        } else {
            match event {
                EventView::Ping(bytes) => (self.beat(now), ActionView::Pong(bytes)),
                EventView::Pong => (self.beat(now), ActionView::Continue),
                EventView::Close(reason) => (self.closed(), self.farewell(reason)),
                EventView::Binary => (self, ActionView::Continue),
                EventView::Text { text, kind } => if kind == Some(request_id_kind()) {
                    (self, ActionView::Text(id_envelope(id_kind(), self.conn_id)))
                } else {
                    (self, ActionView::Forward(text))
                },
                EventView::StreamError => (self, ActionView::Continue),
                EventView::StreamEnded => (self.closed(), self.farewell(None)),
                EventView::RoomUpdate(text) => (self, ActionView::Text(text)),
                EventView::Tick => if self.silence(now) > CLIENT_TIMEOUT {
                    (self.closed(), self.farewell(None))
                } else {
                    (self, ActionView::Ping)
                },
                EventView::WriteFailed => (self.closed(), self.farewell(None)),
                EventView::PipeClosed => (self.closed(), self.farewell(None)),
            }
        }
    }
}

/// One connection between its registration and the end of its event loop.
pub struct Connection {
    room: RoomId,
    conn_id: ConnId,
    user_type: ConnId,
    last_heartbeat: u64,
    open: bool,
}

impl View for Connection {
    type V = ConnectionView;

    closed spec fn view(&self) -> ConnectionView {
        ConnectionView {
            room: self.room,
            conn_id: self.conn_id,
            user_type: self.user_type,
            last_heartbeat: self.last_heartbeat,
            open: self.open,
        }
    }
}

impl Connection {
    /// The connection `conn_id` of role `user_type`, registered with
    /// `room` at `now`.
    pub fn new(room: RoomId, conn_id: ConnId, user_type: ConnId, now: u64) -> (conn: Self)
        ensures
            conn@ == ConnectionView::registered(room, conn_id, user_type, now),
    {
        Self { room, conn_id, user_type, last_heartbeat: now, open: true }
    }

    /// The room of the connection.
    pub fn room(&self) -> (room: RoomId)
        ensures
            room == self@.room,
    {
        self.room
    }

    /// The id under which the connection is registered.
    pub fn conn_id(&self) -> (conn_id: ConnId)
        ensures
            conn_id == self@.conn_id,
    {
        self.conn_id
    }

    /// The role of the connection.
    pub fn user_type(&self) -> (user_type: ConnId)
        ensures
            user_type == self@.user_type,
    {
        self.user_type
    }

    /// Whether the event loop is still running.
    pub fn is_open(&self) -> (open: bool)
        ensures
            open == self@.open,
    {
        self.open
    }

    /// Whether the peer has been silent for longer than [`CLIENT_TIMEOUT`]
    /// at `now`.
    pub fn timed_out(&self, now: u64) -> (late: bool)
        ensures
            late == (self@.silence(now) > CLIENT_TIMEOUT),
    {
        now >= self.last_heartbeat && now - self.last_heartbeat > CLIENT_TIMEOUT
    }

    /// Ends the event loop and says how to take leave.
    fn hang_up(&mut self, reason: Option<CloseReason>) -> (action: Action)
        ensures
            final(self)@ == old(self)@.closed(),
            action@ == old(self)@.farewell(reason_view(reason)),
    {
        self.open = false;
        Action::Disconnect { room: self.room, conn: self.conn_id, user_type: self.user_type, reason }
    }

    /// Takes `event`, which happened at `now`, and says what to do.
    pub fn on_event(&mut self, event: Event, now: u64) -> (action: Action)
        ensures
            (final(self)@, action@) == old(self)@.step(event@, now),
    {
        if !self.open {
            return Action::Continue;
        }
        match event {
            Event::Ping(bytes) => {
                self.last_heartbeat = now;
                Action::Pong(bytes)
            },
            Event::Pong => {
                self.last_heartbeat = now;
                Action::Continue
            },
            Event::Close(reason) => self.hang_up(reason),
            Event::Binary => Action::Continue,
            Event::Text { text, envelope } => {
                let asks_id = match &envelope {
                    Some(msg) => msg.kind == String::from_str("request_id"),
                    None => false,
                };
                if asks_id {
                    Action::Text(IDMessage::new(self.conn_id).to_string())
                } else {
                    Action::Forward(text)
                }
            },
            Event::StreamError => Action::Continue,
            Event::StreamEnded => self.hang_up(None),
            Event::RoomUpdate(text) => Action::Text(text),
            Event::Tick => {
                if self.timed_out(now) {
                    self.hang_up(None)
                } else {
                    Action::Ping
                }
            },
            Event::WriteFailed => self.hang_up(None),
            Event::PipeClosed => self.hang_up(None),
        }
    }
}

/// An event and the time at which it happened.
pub struct Timed {
    pub event: EventView,
    pub at: u64,
}

impl ConnectionView {
    /// The connection after `events`, first to last.
    pub open spec fn after(self, events: Seq<Timed>) -> ConnectionView
        decreases events.len(),
    {
        if events.len() == 0 {
            self
        } else {
            self.after(events.drop_last()).step(events.last().event, events.last().at).0
        }
    }

    /// How often the caller was told to deregister the connection in the
    /// course of `events`.
    pub open spec fn farewells(self, events: Seq<Timed>) -> nat
        decreases events.len(),
    {
        if events.len() == 0 {
            0
        } else {
            self.farewells(events.drop_last()) + if self.after(events.drop_last()).step(
                events.last().event,
                events.last().at,
            ).1 is Disconnect {
                1nat
            } else {
                0nat
            }
        }
    }
}

/// Whether none of `events` is a ping or a pong.
pub open spec fn silent(events: Seq<Timed>) -> bool {
    forall|i: int| 0 <= i < events.len() ==> !((#[trigger] events[i]).event is Ping) && !(events[i].event is Pong)
}

/// Whatever happens, the caller is told to deregister a connection once
/// when its event loop ends, and never before or after: once if the
/// connection was open and is closed now, not at all otherwise. A closed
/// connection stays as it is, and what identifies the connection never
/// changes.
pub proof fn lemma_one_farewell(conn: ConnectionView, events: Seq<Timed>)
    ensures
        conn.farewells(events) == if conn.open && !conn.after(events).open {
            1nat
        } else {
            0nat
        },
        !conn.open ==> conn.after(events) == conn,
        conn.after(events).room == conn.room,
        conn.after(events).conn_id == conn.conn_id,
        conn.after(events).user_type == conn.user_type,
    decreases events.len(),
{
    if events.len() > 0 {
        lemma_one_farewell(conn, events.drop_last());
    }
}

/// Without ping or pong the time of the last heartbeat stays.
pub proof fn lemma_silent_keeps_heartbeat(conn: ConnectionView, events: Seq<Timed>)
    requires
        silent(events),
    ensures
        conn.after(events).last_heartbeat == conn.last_heartbeat,
    decreases events.len(),
{
    if events.len() > 0 {
        let init = events.drop_last();
        assert forall|i: int| 0 <= i < init.len() implies !((#[trigger] init[i]).event is Ping) && !(
        init[i].event is Pong) by {
            assert(init[i] == events[i]);
        }
        lemma_silent_keeps_heartbeat(conn, init);
        assert(events.last() == events[events.len() - 1]);
    }
}

/// A connection whose peer sends neither ping nor pong is closed by the
/// first tick that comes later than [`CLIENT_TIMEOUT`] after the last
/// heartbeat, if nothing closed it before, and the caller has then been
/// told to deregister it exactly once, with the ids it was registered
/// with.
pub proof fn lemma_silence_ends_connection(conn: ConnectionView, events: Seq<Timed>, now: u64)
    requires
        conn.open,
        silent(events),
        now - conn.last_heartbeat > CLIENT_TIMEOUT,
    ensures
        !conn.after(events.push(Timed { event: EventView::Tick, at: now })).open,
        conn.farewells(events.push(Timed { event: EventView::Tick, at: now })) == 1,
        conn.after(events).open ==> conn.after(events).step(EventView::Tick, now).1 == (
        ActionView::Disconnect {
            room: conn.room,
            conn: conn.conn_id,
            user_type: conn.user_type,
            reason: None,
        }),
{
    let all = events.push(Timed { event: EventView::Tick, at: now });
    assert(all.drop_last() =~= events);
    lemma_silent_keeps_heartbeat(conn, events);
    lemma_one_farewell(conn, events);
    lemma_one_farewell(conn, all);
}

} // verus!
