//! Rooms: the routing state of one broadcast domain, and the credentials
//! that name it.
//!
//! A room holds one host slot and a map from connection id to the outbound
//! pipe of each client. Each pipe keeps the ledger of what was handed to
//! it, so that the contracts can say who is reached by a broadcast or a
//! direct send and who is not.
//!
//! A connection is a host where its role marker is [`USER_HOST`], and a
//! client with every other marker: in joining, in leaving and in
//! broadcasting alike.

pub use crate::server::{BingoServer, Command, Reply, RoomGrant};

use crate::entropy::{random_conn_id, random_room_id, random_token_bytes};
pub use crate::pipe::Endpoint;

use crate::pipe::Pipe;
use crate::token::{hex_encode, is_host_token};
use std::collections::HashMap;
use tokio::sync::mpsc::UnboundedSender;
use vstd::prelude::*;
use vstd::std_specs::iter::IteratorSpec;

verus! {

broadcast use vstd::std_specs::hash::group_hash_axioms;

/// Identifies a room.
pub type RoomId = i32;

/// Identifies a connection within a room, and doubles as the role marker.
pub type ConnId = u32;

/// A text message on its way to a peer.
pub type Msg = String;

/// The role marker of the host, and the id of the host slot.
pub const USER_HOST: ConnId = 0;

/// The role marker of an ordinary client.
pub const USER_CLIENT: ConnId = 1;

/// The id that a freshly drawn client id is moved to when the draw hits the
/// host slot.
pub const FIRST_CLIENT_ID: ConnId = 1;

/// What a host needs to come back to its room.
#[derive(Debug)]
pub struct RoomCreds {
    pub id: RoomId,
    pub host: String,
    pub token: String,
}

/// The mathematical value of [`RoomCreds`].
pub struct RoomCredsView {
    pub id: RoomId,
    pub host: Seq<char>,
    pub token: Seq<char>,
}

impl View for RoomCreds {
    type V = RoomCredsView;

    open spec fn view(&self) -> RoomCredsView {
        RoomCredsView { id: self.id, host: self.host@, token: self.token@ }
    }
}

impl RoomCreds {
    pub fn new(id: RoomId, host: String, token: String) -> (creds: Self)
        ensures
            creds.id == id,
            creds.host == host,
            creds.token == token,
    {
        Self { id, host, token }
    }
}

/// The mathematical value of a [`Room`].
pub struct RoomView {
    pub id: RoomId,
    pub host: Seq<char>,
    pub host_token: Seq<char>,
    /// The host slot: empty, or the one host connection.
    pub host_pipe: Option<Endpoint>,
    /// The client connections by id.
    pub sessions: Map<ConnId, Endpoint>,
}

impl RoomView {
    /// A room that nobody has joined yet.
    pub open spec fn fresh(id: RoomId, host: Seq<char>, host_token: Seq<char>) -> RoomView {
        RoomView { id, host, host_token, host_pipe: None, sessions: Map::empty() }
    }

    /// The credentials of the room.
    pub open spec fn creds(self) -> RoomCredsView {
        RoomCredsView { id: self.id, host: self.host, token: self.host_token }
    }

    /// The id under which a connection of role `user_type` is registered
    /// when `drawn` came out of the generator.
    pub open spec fn assigned_id(user_type: ConnId, drawn: ConnId) -> ConnId {
        if user_type == USER_HOST {
            USER_HOST
        } else if drawn == USER_HOST {
            FIRST_CLIENT_ID
        } else {
            drawn
        }
    }

    /// The room after a connection of role `user_type` joined with `pipe`
    /// and was registered under `id`. A host takes the host slot, whoever
    /// held it; anyone else takes the entry `id` of the client map.
    pub open spec fn join(self, pipe: UnboundedSender<Msg>, user_type: ConnId, id: ConnId) -> RoomView {
        if user_type == USER_HOST {
            RoomView { host_pipe: Some(Endpoint::fresh(pipe)), ..self }
        } else {
            RoomView { sessions: self.sessions.insert(id, Endpoint::fresh(pipe)), ..self }
        }
    }

    /// The room after the connection `conn_id` of role `user_type` left.
    pub open spec fn leave(self, conn_id: ConnId, user_type: ConnId) -> RoomView {
        if user_type == USER_HOST {
            RoomView { host_pipe: None, ..self }
        } else {
            RoomView { sessions: self.sessions.remove(conn_id), ..self }
        }
    }

    /// The room after a sender of role `user_type` broadcast `text`: the
    /// host reaches every client, and anyone else, being a client, reaches
    /// the host slot only.
    pub open spec fn relay(self, text: Seq<char>, user_type: ConnId) -> RoomView {
        if user_type == USER_HOST {
            RoomView { sessions: self.sessions.map_values(|e: Endpoint| e.heard(text)), ..self }
        } else {
            RoomView {
                host_pipe: match self.host_pipe {
                    Some(host) => Some(host.heard(text)),
                    None => None,
                },
                ..self
            }
        }
    }

    /// The room after `text` was sent to the client `conn_id` alone.
    pub open spec fn send(self, conn_id: ConnId, text: Seq<char>) -> RoomView {
        if self.sessions.contains_key(conn_id) {
            RoomView {
                sessions: self.sessions.insert(conn_id, self.sessions[conn_id].heard(text)),
                ..self
            }
        } else {
            self
        }
    }
}

/// The routing state of one room.
pub struct Room {
    id: RoomId,
    host: String,
    host_token: String,
    host_pipe: Option<Pipe>,
    sessions: HashMap<ConnId, Pipe>,
}

impl View for Room {
    type V = RoomView;

    closed spec fn view(&self) -> RoomView {
        RoomView {
            id: self.id,
            host: self.host@,
            host_token: self.host_token@,
            host_pipe: match self.host_pipe {
                Some(pipe) => Some(pipe@),
                None => None,
            },
            sessions: self.sessions@.map_values(|pipe: Pipe| pipe@),
        }
    }
}

impl Room {
    /// A new room for `host`, with a random id and a random 256-bit token.
    pub fn new(host: String) -> (room: Self)
        ensures
            room@ == RoomView::fresh(room@.id, host@, room@.host_token),
            is_host_token(room@.host_token),
    {
        let id = random_room_id();
        let bytes = random_token_bytes();
        let host_token = hex_encode(&bytes);
        Room::create_from_entry(host, id, host_token)
    }

    /// The room that the stored triple describes, with nobody in it.
    pub fn create_from_entry(host: String, id: RoomId, host_token: String) -> (room: Self)
        ensures
            room@ == RoomView::fresh(id, host@, host_token@),
    {
        let room = Self {
            id,
            host,
            host_token,
            host_pipe: None,
            sessions: HashMap::new(),
        };
        assert(room@.sessions =~= Map::empty());
        room
    }

    /// The id of the room.
    pub fn id(&self) -> (id: RoomId)
        ensures
            id == self@.id,
    {
        self.id
    }

    /// The identity of the host that owns the room.
    pub fn host(&self) -> (host: &String)
        ensures
            host@ == self@.host,
    {
        &self.host
    }

    /// The secret that proves host privileges.
    pub fn host_token(&self) -> (token: &String)
        ensures
            token@ == self@.host_token,
    {
        &self.host_token
    }

    /// The credentials of the room.
    pub fn creds(&self) -> (creds: RoomCreds)
        ensures
            creds@ == self@.creds(),
    {
        RoomCreds::new(self.id, self.host.clone(), self.host_token.clone())
    }

    /// The number of clients in the room.
    pub fn client_count(&self) -> (n: usize)
        ensures
            n == self@.sessions.len(),
    {
        assert(self@.sessions.dom() =~= self.sessions@.dom());
        self.sessions.len()
    }

    /// A room holds finitely many clients.
    pub proof fn lemma_sessions_finite(&self)
        ensures
            self@.sessions.dom().finite(),
    {
        assert(self@.sessions.dom() =~= self.sessions@.dom());
    }

    /// Whether a host holds the host slot.
    pub fn has_host(&self) -> (present: bool)
        ensures
            present == self@.host_pipe.is_some(),
    {
        self.host_pipe.is_some()
    }

    /// Whether a client is registered under `conn_id`.
    pub fn has_client(&self, conn_id: ConnId) -> (present: bool)
        ensures
            present == self@.sessions.contains_key(conn_id),
    {
        self.sessions.contains_key(&conn_id)
    }

    /// Registers a connection under the id that follows from `drawn`: a host
    /// takes the host slot and gets `0`; a client is entered in the client
    /// map under `drawn`, or under `1` when `drawn` is the host's `0`. An
    /// entry that was there under that id is replaced.
    pub fn register(&mut self, tx: UnboundedSender<Msg>, user_type: ConnId, drawn: ConnId) -> (id: ConnId)
        ensures
            id == RoomView::assigned_id(user_type, drawn),
            final(self)@ == old(self)@.join(tx, user_type, id),
    {
        if user_type == USER_HOST {
            self.host_pipe = Some(Pipe::new(tx));
            return USER_HOST;
        }
        let id = if drawn == USER_HOST {
            FIRST_CLIENT_ID
        } else {
            drawn
        };
        self.sessions.insert(id, Pipe::new(tx));
        assert(self@.sessions =~= old(self)@.sessions.insert(id, Endpoint::fresh(tx)));
        id
    }

    /// Registers a connection: a host takes the host slot, replacing
    /// whoever held it, and gets `0`; a client gets a random non-zero id
    /// and is entered in the client map under it.
    pub fn add_client(&mut self, tx: UnboundedSender<Msg>, user_type: ConnId) -> (id: ConnId)
        ensures
            (id == USER_HOST) == (user_type == USER_HOST),
            final(self)@ == old(self)@.join(tx, user_type, id),
    {
        if user_type == USER_HOST {
            return self.register(tx, user_type, USER_HOST);
        }
        let drawn = random_conn_id();
        self.register(tx, user_type, drawn)
    }

    /// Removes a connection: a host empties the host slot, a client leaves
    /// the client map. Removing a client that is not there changes nothing.
    pub fn remove_client(&mut self, conn_id: ConnId, user_type: ConnId)
        ensures
            final(self)@ == old(self)@.leave(conn_id, user_type),
    {
        if user_type == USER_HOST {
            self.host_pipe = None;
            return ;
        }
        self.sessions.remove(&conn_id);
        assert(self@.sessions =~= old(self)@.sessions.remove(conn_id));
    }

    /// The ids of the clients, each once, in no particular order.
    fn client_ids(&self) -> (ids: Vec<ConnId>)
        ensures
            ids@.no_duplicates(),
            forall|c: ConnId| ids@.contains(c) <==> self@.sessions.contains_key(c),
    {
        let mut ids: Vec<ConnId> = Vec::new();
        let ghost order = self.sessions.keys().remaining();
        for id in it: self.sessions.keys()
            invariant
                it.seq() == order,
                ids@ == order.unref().take(it.index()),
        {
            ids.push(*id);
            assert(order.unref().take(it.index() + 1) =~= order.unref().take(it.index()).push(*id));
        }
        proof {
            assert(ids@ =~= order.unref());
            assert forall|i: int, j: int| 0 <= i < j < ids@.len() implies ids@[i] != ids@[j] by {
                assert(order[i] != order[j]);
            }
            assert forall|c: ConnId| ids@.contains(c) <==> self@.sessions.contains_key(c) by {
                assert(order.unref().to_set().contains(c) <==> self.sessions@.dom().contains(c));
            }
        }
        ids
    }

    /// Hands `msg` to every client when the sender is the host, and to the
    /// host slot when it is anyone else. Whether a pipe still has a reader
    /// is not looked at: a pipe without one drops the text.
    pub fn broadcast(&mut self, msg: &str, user_type: ConnId)
        ensures
            final(self)@ == old(self)@.relay(msg@, user_type),
    {
        if user_type != USER_HOST {
            match &mut self.host_pipe {
                Some(pipe) => {
                    pipe.offer(msg);
                },
                None => {},
            }
            return ;
        }
        let ids = self.client_ids();
        let mut i: usize = 0;
        while i < ids.len()
            invariant
                i <= ids.len(),
                ids@.no_duplicates(),
                forall|c: ConnId| ids@.contains(c) <==> old(self)@.sessions.contains_key(c),
                self.id == old(self).id,
                self.host == old(self).host,
                self.host_token == old(self).host_token,
                self.host_pipe == old(self).host_pipe,
                self@.sessions.dom() == old(self)@.sessions.dom(),
                forall|c: ConnId| #[trigger]
                    self@.sessions.contains_key(c) ==> self@.sessions[c] == if ids@.take(
                        i as int,
                    ).contains(c) {
                        old(self)@.sessions[c].heard(msg@)
                    } else {
                        old(self)@.sessions[c]
                    },
            decreases ids.len() - i,
        {
            let id = ids[i];
            let ghost before = self@.sessions;
            assert(ids@.contains(id));
            assert(!ids@.take(i as int).contains(id));
            match self.sessions.remove(&id) {
                Some(pipe) => {
                    let mut pipe = pipe;
                    pipe.offer(msg);
                    self.sessions.insert(id, pipe);
                },
                None => {},
            }
            proof {
                let seen = ids@.take(i as int);
                let seen_now = ids@.take(i as int + 1);
                assert(seen_now =~= seen.push(id));
                assert(self@.sessions =~= before.insert(id, before[id].heard(msg@)));
                assert forall|c: ConnId| seen_now.contains(c) <==> seen.contains(c) || c == id by {
                    if seen.contains(c) {
                        let j = seen.index_of(c);
                        assert(seen_now[j] == c);
                    }
                    if c == id {
                        assert(seen_now[i as int] == c);
                    }
                    if seen_now.contains(c) && c != id {
                        let j = seen_now.index_of(c);
                        assert(seen[j] == c);
                    }
                }
            }
            i = i + 1;
        }
        proof {
            assert(ids@.take(ids.len() as int) =~= ids@);
            assert(self@.sessions =~= old(self)@.sessions.map_values(|e: Endpoint| e.heard(msg@)));
        }
    }

    /// Hands `msg` to the client `conn_id` alone. Where no client is
    /// registered under that id, nothing happens.
    pub fn send(&mut self, conn_id: ConnId, msg: &str)
        ensures
            final(self)@ == old(self)@.send(conn_id, msg@),
    {
        match self.sessions.remove(&conn_id) {
            Some(pipe) => {
                let mut pipe = pipe;
                pipe.offer(msg);
                self.sessions.insert(conn_id, pipe);
                assert(self@.sessions =~= old(self)@.sessions.insert(
                    conn_id,
                    old(self)@.sessions[conn_id].heard(msg@),
                ));
            },
            None => {
                assert(self@.sessions =~= old(self)@.sessions);
            },
        }
    }
}

/// A connection coming or going.
pub enum Membership {
    /// A connection of role `user_type` joins with `pipe` and is registered
    /// under `id`.
    Join { pipe: UnboundedSender<Msg>, user_type: ConnId, id: ConnId },
    /// The connection `conn_id` of role `user_type` leaves.
    Leave { conn_id: ConnId, user_type: ConnId },
}

impl Membership {
    /// Whether a client joins.
    pub open spec fn is_client_join(self) -> bool {
        self matches Membership::Join { user_type, .. } && user_type != USER_HOST
    }

    /// Whether a client of `room` leaves: a leave of a client that names an
    /// id under which a client is registered.
    pub open spec fn is_client_leave_of(self, room: RoomView) -> bool {
        self matches Membership::Leave { conn_id, user_type } && user_type != USER_HOST
            && room.sessions.contains_key(conn_id)
    }

    /// Whether a client joins `room` under an id that is not taken.
    pub open spec fn is_fresh_for(self, room: RoomView) -> bool {
        self matches Membership::Join { user_type, id, .. } ==> user_type == USER_HOST
            || !room.sessions.contains_key(id)
    }
}

impl RoomView {
    /// The room after one connection came or went.
    pub open spec fn apply(self, change: Membership) -> RoomView {
        match change {
            Membership::Join { pipe, user_type, id } => self.join(pipe, user_type, id),
            Membership::Leave { conn_id, user_type } => self.leave(conn_id, user_type),
        }
    }

    /// The room after `changes`, first to last.
    pub open spec fn replay(self, changes: Seq<Membership>) -> RoomView
        decreases changes.len(),
    {
        if changes.len() == 0 {
            self
        } else {
            self.replay(changes.drop_last()).apply(changes.last())
        }
    }

    /// How many of `changes` are joins of a client.
    pub open spec fn client_joins(changes: Seq<Membership>) -> nat
        decreases changes.len(),
    {
        if changes.len() == 0 {
            0
        } else {
            RoomView::client_joins(changes.drop_last()) + if changes.last().is_client_join() {
                1nat
            } else {
                0nat
            }
        }
    }

    /// How many of `changes` are leaves of a client that was registered
    /// when it left.
    pub open spec fn client_leaves(self, changes: Seq<Membership>) -> nat
        decreases changes.len(),
    {
        if changes.len() == 0 {
            0
        } else {
            self.client_leaves(changes.drop_last()) + if changes.last().is_client_leave_of(
                self.replay(changes.drop_last()),
            ) {
                1nat
            } else {
                0nat
            }
        }
    }

    /// Whether every client among `changes` joins under an id that is not
    /// taken when it joins.
    pub open spec fn joins_fresh(self, changes: Seq<Membership>) -> bool
        decreases changes.len(),
    {
        changes.len() > 0 ==> self.joins_fresh(changes.drop_last()) && changes.last().is_fresh_for(
            self.replay(changes.drop_last()),
        )
    }
}

/// Over any sequence of joins and leaves in which no client joins under an
/// id that is taken, the client map grows by the number of client joins
/// less the number of leaves of clients that were registered: a leave that
/// names nobody changes nothing.
pub proof fn lemma_client_count(room: RoomView, changes: Seq<Membership>)
    requires
        room.sessions.dom().finite(),
        room.joins_fresh(changes),
    ensures
        room.replay(changes).sessions.dom().finite(),
        room.replay(changes).sessions.len() + room.client_leaves(changes) == room.sessions.len()
            + RoomView::client_joins(changes),
    decreases changes.len(),
{
    if changes.len() > 0 {
        lemma_client_count(room, changes.drop_last());
        let before = room.replay(changes.drop_last());
        match changes.last() {
            Membership::Join { pipe, user_type, id } => {
                if user_type != USER_HOST {
                    assert(before.join(pipe, user_type, id).sessions.dom() =~= before.sessions.dom().insert(
                        id,
                    ));
                }
            },
            Membership::Leave { conn_id, user_type } => {
                if user_type != USER_HOST {
                    assert(before.leave(conn_id, user_type).sessions.dom()
                        =~= before.sessions.dom().remove(conn_id));
                }
            },
        }
    }
}

/// A room has one host slot. A host that joins takes it from the host that
/// held it, and the client map stays as it was: after two hosts joined one
/// after the other, the room is as if only the second had.
pub proof fn lemma_second_host_replaces(
    room: RoomView,
    first: UnboundedSender<Msg>,
    second: UnboundedSender<Msg>,
)
    ensures
        room.join(first, USER_HOST, USER_HOST).join(second, USER_HOST, USER_HOST) == room.join(
            second,
            USER_HOST,
            USER_HOST,
        ),
        room.join(second, USER_HOST, USER_HOST).host_pipe == Some(Endpoint::fresh(second)),
        room.join(second, USER_HOST, USER_HOST).sessions == room.sessions,
{
}

/// A broadcast from a client, whatever its role marker, reaches the host
/// slot and nothing else: the host's ledger grows by the text, once, every
/// client is where it was, and a room without a host is unchanged.
pub proof fn lemma_client_reaches_host_only(room: RoomView, text: Seq<char>, user_type: ConnId)
    requires
        user_type != USER_HOST,
    ensures
        room.relay(text, user_type).sessions == room.sessions,
        room.host_pipe matches Some(host) ==> room.relay(text, user_type).host_pipe == Some(
            host.heard(text),
        ),
        room.host_pipe is None ==> room.relay(text, user_type) == room,
{
}

/// A connection that joined as a client stays one: after it joined with any
/// marker but the host's, its broadcast with the same marker leaves every
/// client, itself among them, with what it had, and reaches the host alone.
pub proof fn lemma_joined_client_reaches_host_only(
    room: RoomView,
    pipe: UnboundedSender<Msg>,
    user_type: ConnId,
    id: ConnId,
    text: Seq<char>,
)
    requires
        user_type != USER_HOST,
    ensures
        room.join(pipe, user_type, id).relay(text, user_type).sessions == room.join(
            pipe,
            user_type,
            id,
        ).sessions,
        room.join(pipe, user_type, id).relay(text, user_type).sessions[id] == Endpoint::fresh(
            pipe,
        ),
        room.host_pipe matches Some(host) ==> room.join(pipe, user_type, id).relay(
            text,
            user_type,
        ).host_pipe == Some(host.heard(text)),
{
}

/// After two hosts joined one after the other and a client broadcast, the
/// host slot holds the second pipe, which was handed the text once, and
/// the first pipe is nowhere in the room.
pub proof fn lemma_replaced_host_is_not_reached(
    room: RoomView,
    first: UnboundedSender<Msg>,
    second: UnboundedSender<Msg>,
    text: Seq<char>,
)
    ensures
        room.join(first, USER_HOST, USER_HOST).join(second, USER_HOST, USER_HOST).relay(
            text,
            USER_CLIENT,
        ).host_pipe == Some(Endpoint { pipe: second, offered: seq![text] }),
        room.join(first, USER_HOST, USER_HOST).join(second, USER_HOST, USER_HOST).relay(
            text,
            USER_CLIENT,
        ).sessions == room.sessions,
{
    assert(Seq::<Seq<char>>::empty().push(text) =~= seq![text]);
}

/// After two clients joined under different ids, the first left and the
/// host broadcast, the first is gone from the room and the second was
/// handed the text once.
pub proof fn lemma_left_client_is_not_reached(
    room: RoomView,
    first: UnboundedSender<Msg>,
    a: ConnId,
    second: UnboundedSender<Msg>,
    b: ConnId,
    text: Seq<char>,
)
    requires
        a != b,
    ensures
        ({
            let then = room.join(first, USER_CLIENT, a).join(second, USER_CLIENT, b).leave(
                a,
                USER_CLIENT,
            ).relay(text, USER_HOST);
            &&& !then.sessions.contains_key(a)
            &&& then.sessions.contains_key(b)
            &&& then.sessions[b] == (Endpoint { pipe: second, offered: seq![text] })
            &&& then.host_pipe == room.host_pipe
        }),
{
    assert(Seq::<Seq<char>>::empty().push(text) =~= seq![text]);
}

/// A broadcast from the host reaches every client that is registered, the
/// host slot is where it was, and nobody else is in the room. A client
/// that left before the broadcast is not among them.
pub proof fn lemma_host_reaches_every_client(room: RoomView, text: Seq<char>, gone: ConnId)
    ensures
        room.relay(text, USER_HOST).host_pipe == room.host_pipe,
        room.relay(text, USER_HOST).sessions.dom() == room.sessions.dom(),
        forall|c: ConnId| #[trigger]
            room.sessions.contains_key(c) ==> room.relay(text, USER_HOST).sessions[c]
                == room.sessions[c].heard(text),
        !room.leave(gone, USER_CLIENT).relay(text, USER_HOST).sessions.contains_key(gone),
{
}

/// A direct send reaches the client it names and nobody else, and a send
/// to an id under which nobody is registered leaves the room as it was.
pub proof fn lemma_send_reaches_one(room: RoomView, conn_id: ConnId, text: Seq<char>)
    ensures
        !room.sessions.contains_key(conn_id) ==> room.send(conn_id, text) == room,
        room.send(conn_id, text).host_pipe == room.host_pipe,
        room.send(conn_id, text).sessions.dom() == room.sessions.dom(),
        forall|c: ConnId|
            c != conn_id && room.sessions.contains_key(c) ==> #[trigger] room.send(
                conn_id,
                text,
            ).sessions[c] == room.sessions[c],
        room.sessions.contains_key(conn_id) ==> room.send(conn_id, text).sessions[conn_id]
            == room.sessions[conn_id].heard(text),
{
}

} // verus!
