//! The registry: the single owner of every room.
//!
//! Every operation on a room goes through the registry, one command at a
//! time. What needs a durable store or a reply channel is done by the
//! caller: the registry takes what the store returned as an argument and
//! says in its result what is to be stored.

use crate::room::{ConnId, Msg, Room, RoomCreds, RoomCredsView, RoomId, RoomView, USER_HOST};
use crate::entropy::{random_room_id, random_token_bytes};
use crate::token::{hex_encode, hex_of, is_host_token};
use std::collections::HashMap;
use tokio::sync::mpsc::UnboundedSender;
use vstd::prelude::*;
use vstd::std_specs::iter::IteratorSpec;

verus! {

broadcast use vstd::std_specs::hash::group_hash_axioms;

/// The mathematical value of the registry: its rooms by key.
pub type Rooms = Map<RoomId, RoomView>;

/// Every room is filed under its own id.
pub open spec fn keyed_by_id(rooms: Rooms) -> bool {
    forall|id: RoomId| rooms.contains_key(id) ==> (#[trigger] rooms[id]).id == id
}

/// No two rooms belong to the same host.
pub open spec fn hosts_distinct(rooms: Rooms) -> bool {
    forall|a: RoomId, b: RoomId|
        rooms.contains_key(a) && rooms.contains_key(b) && (#[trigger] rooms[a]).host == (
        #[trigger] rooms[b]).host ==> a == b
}

/// At most one room belongs to `host`.
pub open spec fn at_most_one_room_of(rooms: Rooms, host: Seq<char>) -> bool {
    forall|a: RoomId, b: RoomId|
        rooms.contains_key(a) && rooms.contains_key(b) && (#[trigger] rooms[a]).host == host && (
        #[trigger] rooms[b]).host == host ==> a == b
}

/// Some room belongs to `host`.
pub open spec fn owns_room(rooms: Rooms, host: Seq<char>) -> bool {
    exists|id: RoomId| rooms.contains_key(id) && (#[trigger] rooms[id]).host == host
}

/// Whether `token` proves host privileges for the room `room_id`: the room
/// exists and `token` is its host token, character for character.
pub open spec fn authorizes(rooms: Rooms, room_id: RoomId, token: Seq<char>) -> bool {
    rooms.contains_key(room_id) && rooms[room_id].host_token == token
}

/// The rooms after the stored `rows` were loaded one after the other, each
/// as an empty room under its id. A later row replaces an earlier one, and
/// a room that was there, under the same id.
pub open spec fn hydrate(rooms: Rooms, rows: Seq<RoomCredsView>) -> Rooms
    decreases rows.len(),
{
    if rows.len() == 0 {
        rooms
    } else {
        let row = rows.last();
        hydrate(rooms, rows.drop_last()).insert(row.id, RoomView::fresh(row.id, row.host, row.token))
    }
}

/// What a request for a room may lead to. `stored` is what the durable
/// store holds for `host`, if there is a store and it holds anything.
///
/// - A stored room is handed back as it is, and the registry stays as it
///   was.
/// - Else, when some room in memory belongs to `host`, the credentials of
///   such a room are handed back.
/// - Else a room is minted: it is new in the registry, empty, filed under
///   its id, with a token of 64 hexadecimal digits, and `minted` tells the
///   caller to store it.
pub open spec fn create_outcome(
    pre: Rooms,
    host: Seq<char>,
    stored: Option<RoomCredsView>,
    post: Rooms,
    creds: RoomCredsView,
    minted: bool,
) -> bool {
    match stored {
        Some(found) => post == pre && creds == found && !minted,
        None => if owns_room(pre, host) {
            &&& post == pre
            &&& !minted
            &&& pre.contains_key(creds.id)
            &&& pre[creds.id].creds() == creds
            &&& creds.host == host
        } else {
            &&& minted
            &&& creds.host == host
            &&& is_host_token(creds.token)
            &&& post == pre.insert(creds.id, RoomView::fresh(creds.id, host, creds.token))
        },
    }
}

/// The mathematical value of stored credentials, if any.
pub open spec fn stored_view(stored: Option<RoomCreds>) -> Option<RoomCredsView> {
    match stored {
        Some(creds) => Some(creds@),
        None => None,
    }
}

/// The mathematical values of stored rows.
pub open spec fn rows_view(rows: Seq<RoomCreds>) -> Seq<RoomCredsView> {
    rows.map_values(|row: RoomCreds| row@)
}

/// The answer to a request for a room.
#[derive(Debug)]
pub struct RoomGrant {
    /// The credentials of the host's room.
    pub creds: RoomCreds,
    /// Whether the room was minted by this request and is to be stored.
    pub minted: bool,
}

/// One operation on the registry. The registry takes commands one at a
/// time, in the order in which they arrive.
#[derive(Debug)]
pub enum Command {
    /// `host` asks for its room; `stored` is what the durable store holds
    /// for it, `None` also where there is no store or the store failed.
    Create { host: String, stored: Option<RoomCreds> },
    /// Is there a room `room_id`?
    RoomExists { room_id: RoomId },
    /// Does `host_token` prove host privileges for `room_id`?
    RoomHostAuth { room_id: RoomId, host_token: String },
    /// A connection of role `user_type` joins `room` with its pipe.
    Connect { room: RoomId, conn_tx: UnboundedSender<Msg>, user_type: ConnId },
    /// The connection `conn` of role `user_type` leaves `room`.
    Disconnect { room: RoomId, conn: ConnId, user_type: ConnId },
    /// A sender of role `user_type` broadcasts `msg` in `room`.
    Update { room: RoomId, msg: String, user_type: ConnId },
    /// `msg` goes to the client `conn` of `room` alone.
    Send { room: RoomId, conn: ConnId, msg: String },
}

impl Command {
    /// The room that the command works on, where it works on one that must
    /// exist.
    pub open spec fn room(&self) -> Option<RoomId> {
        match *self {
            Command::Create { .. } => None,
            Command::RoomExists { .. } => None,
            Command::RoomHostAuth { .. } => None,
            Command::Connect { room, .. } => Some(room),
            Command::Disconnect { room, .. } => Some(room),
            Command::Update { room, .. } => Some(room),
            Command::Send { room, .. } => Some(room),
        }
    }
}

/// What the registry answers to a command.
#[derive(Debug)]
pub enum Reply {
    /// The credentials of the host's room.
    Room(RoomGrant),
    /// Whether the room exists.
    Exists(bool),
    /// Whether host privileges are granted.
    Privileged(bool),
    /// The id under which the connection was registered.
    Connected(ConnId),
    /// The command expects no answer.
    Done,
}

/// What a command does to the rooms, and the answer it gets: the operation
/// of the same meaning, applied to the room that the command names.
pub open spec fn handled(pre: Rooms, cmd: Command, post: Rooms, reply: Reply) -> bool {
    match cmd {
        Command::Create { host, stored } => {
            &&& reply matches Reply::Room(grant)
            &&& create_outcome(pre, host@, stored_view(stored), post, grant.creds@, grant.minted)
        },
        Command::RoomExists { room_id } => {
            &&& reply == Reply::Exists(pre.contains_key(room_id))
            &&& post == pre
        },
        Command::RoomHostAuth { room_id, host_token } => {
            &&& reply == Reply::Privileged(authorizes(pre, room_id, host_token@))
            &&& post == pre
        },
        Command::Connect { room, conn_tx, user_type } => {
            &&& reply matches Reply::Connected(id)
            &&& (id == USER_HOST) == (user_type == USER_HOST)
            &&& post == pre.insert(room, pre[room].join(conn_tx, user_type, id))
        },
        Command::Disconnect { room, conn, user_type } => {
            &&& reply == Reply::Done
            &&& post == pre.insert(room, pre[room].leave(conn, user_type))
        },
        Command::Update { room, msg, user_type } => {
            &&& reply == Reply::Done
            &&& post == pre.insert(room, pre[room].relay(msg@, user_type))
        },
        Command::Send { room, conn, msg } => {
            &&& reply == Reply::Done
            &&& post == pre.insert(room, pre[room].send(conn, msg@))
        },
    }
}

/// Whether `states` are the rooms before, between and after the commands
/// of a queue: each command leads from one state to the next and gets the
/// answer in its place.
pub open spec fn steps(states: Seq<Rooms>, cmds: Seq<Command>, replies: Seq<Reply>) -> bool {
    &&& states.len() == cmds.len() + 1
    &&& replies.len() == cmds.len()
    &&& forall|i: int|
        0 <= i < cmds.len() ==> #[trigger] handled(states[i], cmds[i], states[i + 1], replies[i])
}

/// What a queue of commands does: each command is carried out on what the
/// commands before it left, in the order of the queue, and answered in its
/// place.
pub open spec fn ran(pre: Rooms, cmds: Seq<Command>, post: Rooms, replies: Seq<Reply>) -> bool {
    exists|states: Seq<Rooms>|
        #[trigger] steps(states, cmds, replies) && states.first() == pre && states.last() == post
}

/// Every command of the queue that works on a room names one of `rooms`.
pub open spec fn rooms_known(rooms: Rooms, cmds: Seq<Command>) -> bool {
    forall|i: int|
        0 <= i < cmds.len() ==> ((#[trigger] cmds[i]).room() matches Some(room) ==> rooms.contains_key(
            room,
        ))
}

/// The owner of all rooms.
pub struct BingoServer {
    rooms: HashMap<RoomId, Room>,
}

impl View for BingoServer {
    type V = Rooms;

    closed spec fn view(&self) -> Rooms {
        self.rooms@.map_values(|room: Room| room@)
    }
}

impl BingoServer {
    /// The invariant of the registry: every room is filed under its id.
    pub open spec fn wf(&self) -> bool {
        keyed_by_id(self@)
    }

    /// A registry without rooms.
    pub fn new() -> (server: Self)
        ensures
            server@ == Rooms::empty(),
            server.wf(),
    {
        Self { rooms: HashMap::with_capacity(0) }
    }

    /// Loads the stored rooms, in the order of `rows`.
    pub fn populate_rooms(&mut self, rows: Vec<RoomCreds>)
        requires
            old(self).wf(),
        ensures
            final(self)@ == hydrate(old(self)@, rows_view(rows@)),
            final(self).wf(),
    {
        let mut i: usize = 0;
        while i < rows.len()
            invariant
                i <= rows.len(),
                self@ == hydrate(old(self)@, rows_view(rows@).subrange(0, i as int)),
                self.wf(),
            decreases rows.len() - i,
        {
            let row = &rows[i];
            let room = Room::create_from_entry(row.host.clone(), row.id, row.token.clone());
            let ghost before = self@;
            self.rooms.insert(row.id, room);
            proof {
                let loaded = rows_view(rows@).subrange(0, i as int + 1);
                assert(loaded.drop_last() =~= rows_view(rows@).subrange(0, i as int));
                assert(loaded.last() == row@);
                assert(self@ =~= before.insert(row.id, RoomView::fresh(row.id, row.host@, row.token@)));
            }
            i = i + 1;
        }
        assert(rows_view(rows@).subrange(0, rows.len() as int) =~= rows_view(rows@));
    }

    /// Hands `host` the credentials of its room, minting the room where
    /// neither the store nor the registry has one.
    pub fn create_room(&mut self, host: String, stored: Option<RoomCreds>) -> (grant: RoomGrant)
        requires
            old(self).wf(),
        ensures
            create_outcome(
                old(self)@,
                host@,
                stored_view(stored),
                final(self)@,
                grant.creds@,
                grant.minted,
            ),
            final(self).wf(),
    {
        if let Some(creds) = stored {
            return RoomGrant { creds, minted: false };
        }
        let ghost order = self.rooms.iter().remaining();
        let ghost mut done: int = 0;
        for pair in it: self.rooms.iter()
            invariant
                it.seq() == order,
                done == it.index(),
                *self == *old(self),
                self.wf(),
                stored is None,
                forall|j: int| 0 <= j < done ==> (#[trigger] order[j]).1@.host != host@,
        {
            let (id, room) = pair;
            assert(self@[*id] == room@);
            if *room.host() == host {
                let token = room.host_token().clone();
                return RoomGrant { creds: RoomCreds::new(room.id(), host, token), minted: false };
            }
            proof {
                done = done + 1;
            }
        }
        assert(!owns_room(self@, host@)) by {
            if owns_room(self@, host@) {
                let id = choose|id: RoomId| self@.contains_key(id) && (#[trigger] self@[id]).host == host@;
                let j = order.index_of((&id, &self.rooms@[id]));
                assert(order[j].1@.host != host@);
            }
        }
        let id = random_room_id();
        let bytes = random_token_bytes();
        let creds = self.mint(host, id, &bytes);
        RoomGrant { creds, minted: true }
    }

    /// Files a new, empty room for `host` under `id`, with the hexadecimal
    /// text of `bytes` as its token, and hands out its credentials. A room
    /// that was filed under `id` is replaced, with everyone in it.
    pub fn mint(&mut self, host: String, id: RoomId, bytes: &[u8; 32]) -> (creds: RoomCreds)
        requires
            old(self).wf(),
        ensures
            creds@ == (RoomCredsView { id, host: host@, token: hex_of(bytes@) }),
            final(self)@ == old(self)@.insert(id, RoomView::fresh(id, host@, hex_of(bytes@))),
            final(self).wf(),
    {
        let token = hex_encode(bytes);
        let room = Room::create_from_entry(host.clone(), id, token.clone());
        self.rooms.insert(id, room);
        assert(self@ =~= old(self)@.insert(id, RoomView::fresh(id, host@, hex_of(bytes@))));
        RoomCreds::new(id, host, token)
    }

    /// Whether a room is filed under `room_id`.
    pub fn room_exists(&self, room_id: RoomId) -> (exists: bool)
        ensures
            exists == self@.contains_key(room_id),
    {
        self.rooms.contains_key(&room_id)
    }

    /// Whether `host_token` is the host token of the room `room_id`. A room
    /// that does not exist grants nothing.
    pub fn has_room_host_privileges(&self, room_id: RoomId, host_token: String) -> (granted: bool)
        ensures
            granted == authorizes(self@, room_id, host_token@),
    {
        match self.rooms.get(&room_id) {
            None => false,
            Some(room) => *room.host_token() == host_token,
        }
    }

    /// Registers a connection with the room `room_id`.
    pub fn add_client(&mut self, room_id: RoomId, tx: UnboundedSender<Msg>, user_type: ConnId) -> (id:
        ConnId)
        requires
            old(self).wf(),
            old(self)@.contains_key(room_id),
        ensures
            (id == USER_HOST) == (user_type == USER_HOST),
            final(self)@ == old(self)@.insert(room_id, old(self)@[room_id].join(tx, user_type, id)),
            final(self).wf(),
    {
        let mut room = self.take(room_id);
        let id = room.add_client(tx, user_type);
        self.put(room_id, room);
        id
    }

    /// Registers a connection with the room `room_id` under the id that
    /// follows from `drawn`, as [`Room::register`] does.
    pub fn register(
        &mut self,
        room_id: RoomId,
        tx: UnboundedSender<Msg>,
        user_type: ConnId,
        drawn: ConnId,
    ) -> (id: ConnId)
        requires
            old(self).wf(),
            old(self)@.contains_key(room_id),
        ensures
            id == RoomView::assigned_id(user_type, drawn),
            final(self)@ == old(self)@.insert(room_id, old(self)@[room_id].join(tx, user_type, id)),
            final(self).wf(),
    {
        let mut room = self.take(room_id);
        let id = room.register(tx, user_type, drawn);
        self.put(room_id, room);
        id
    }

    /// Removes a connection from the room `room_id`.
    pub fn remove_client(&mut self, room_id: RoomId, conn_id: ConnId, user_type: ConnId)
        requires
            old(self).wf(),
            old(self)@.contains_key(room_id),
        ensures
            final(self)@ == old(self)@.insert(room_id, old(self)@[room_id].leave(conn_id, user_type)),
            final(self).wf(),
    {
        let mut room = self.take(room_id);
        room.remove_client(conn_id, user_type);
        self.put(room_id, room);
    }

    /// Broadcasts `msg` in the room `room_id` for a sender of role
    /// `user_type`.
    pub fn broadcast(&mut self, room_id: RoomId, msg: &str, user_type: ConnId)
        requires
            old(self).wf(),
            old(self)@.contains_key(room_id),
        ensures
            final(self)@ == old(self)@.insert(room_id, old(self)@[room_id].relay(msg@, user_type)),
            final(self).wf(),
    {
        let mut room = self.take(room_id);
        room.broadcast(msg, user_type);
        self.put(room_id, room);
    }

    /// Sends `msg` to the client `conn_id` of the room `room_id` alone.
    pub fn send(&mut self, room_id: RoomId, conn_id: ConnId, msg: &str)
        requires
            old(self).wf(),
            old(self)@.contains_key(room_id),
        ensures
            final(self)@ == old(self)@.insert(room_id, old(self)@[room_id].send(conn_id, msg@)),
            final(self).wf(),
    {
        let mut room = self.take(room_id);
        room.send(conn_id, msg);
        self.put(room_id, room);
    }

    /// Carries out one command and answers it.
    pub fn handle(&mut self, cmd: Command) -> (reply: Reply)
        requires
            old(self).wf(),
            cmd.room() matches Some(room) ==> old(self)@.contains_key(room),
        ensures
            handled(old(self)@, cmd, final(self)@, reply),
            final(self).wf(),
    {
        match cmd {
            Command::Create { host, stored } => Reply::Room(self.create_room(host, stored)),
            Command::RoomExists { room_id } => Reply::Exists(self.room_exists(room_id)),
            Command::RoomHostAuth { room_id, host_token } => Reply::Privileged(
                self.has_room_host_privileges(room_id, host_token),
            ),
            Command::Connect { room, conn_tx, user_type } => Reply::Connected(
                self.add_client(room, conn_tx, user_type),
            ),
            Command::Disconnect { room, conn, user_type } => {
                self.remove_client(room, conn, user_type);
                Reply::Done
            },
            Command::Update { room, msg, user_type } => {
                self.broadcast(room, msg.as_str(), user_type);
                Reply::Done
            },
            Command::Send { room, conn, msg } => {
                self.send(room, conn, msg.as_str());
                Reply::Done
            },
        }
    }

    /// Carries out a queue of commands, first to last, and answers each.
    pub fn run(&mut self, cmds: Vec<Command>) -> (replies: Vec<Reply>)
        requires
            old(self).wf(),
            rooms_known(old(self)@, cmds@),
        ensures
            ran(old(self)@, cmds@, final(self)@, replies@),
            final(self).wf(),
    {
        let mut replies: Vec<Reply> = Vec::new();
        let ghost queue = cmds@;
        let ghost mut states: Seq<Rooms> = seq![self@];
        for cmd in it: cmds
            invariant
                it.seq() == queue,
                self.wf(),
                rooms_known(old(self)@, queue),
                forall|room: RoomId| old(self)@.contains_key(room) ==> self@.contains_key(room),
                steps(states, queue.take(it.index()), replies@),
                states.first() == old(self)@,
                states.last() == self@,
        {
            let ghost done = it.index();
            let ghost before = states;
            let ghost answered = replies@;
            assert(queue[done] == cmd);
            let reply = self.handle(cmd);
            replies.push(reply);
            proof {
                states = states.push(self@);
                let now = queue.take(done + 1);
                assert forall|i: int| 0 <= i < now.len() implies #[trigger] handled(
                    states[i],
                    now[i],
                    states[i + 1],
                    replies@[i],
                ) by {
                    if i < done {
                        assert(handled(before[i], queue.take(done)[i], before[i + 1], answered[i]));
                    }
                }
            }
        }
        assert(queue.take(queue.len() as int) =~= queue);
        assert(steps(states, queue, replies@));
        replies
    }

    /// Takes the room `room_id` out of the map, to be changed and put back.
    fn take(&mut self, room_id: RoomId) -> (room: Room)
        requires
            old(self)@.contains_key(room_id),
        ensures
            room@ == old(self)@[room_id],
            final(self)@ == old(self)@.remove(room_id),
    {
        let taken = self.rooms.remove(&room_id);
        taken.unwrap()
    }

    /// Files `room` under `room_id`.
    fn put(&mut self, room_id: RoomId, room: Room)
        ensures
            final(self)@ == old(self)@.insert(room_id, room@),
    {
        self.rooms.insert(room_id, room);
    }
}

/// The rows have pairwise different ids and pairwise different hosts.
pub open spec fn rows_distinct(rows: Seq<RoomCredsView>) -> bool {
    forall|i: int, j: int|
        0 <= i < j < rows.len() ==> (#[trigger] rows[i]).id != (#[trigger] rows[j]).id && rows[i].host
            != rows[j].host
}

/// Loading rows with different ids and hosts into an empty registry gives
/// one empty room for each row and no other, each filed under its id, and
/// no two of one host.
pub proof fn lemma_hydrate_distinct(rows: Seq<RoomCredsView>)
    requires
        rows_distinct(rows),
    ensures
        keyed_by_id(hydrate(Map::empty(), rows)),
        hosts_distinct(hydrate(Map::empty(), rows)),
        forall|id: RoomId| #[trigger]
            hydrate(Map::empty(), rows).contains_key(id) <==> exists|i: int|
                0 <= i < rows.len() && (#[trigger] rows[i]).id == id,
        forall|i: int|
            0 <= i < rows.len() ==> hydrate(Map::empty(), rows)[(#[trigger] rows[i]).id]
                == RoomView::fresh(rows[i].id, rows[i].host, rows[i].token),
    decreases rows.len(),
{
    let loaded = hydrate(Map::empty(), rows);
    if rows.len() > 0 {
        let init = rows.drop_last();
        let last = rows.last();
        let n = rows.len() - 1;
        assert(rows[n] == last);
        assert forall|i: int, j: int| 0 <= i < j < init.len() implies (#[trigger] init[i]).id != (
        #[trigger] init[j]).id && init[i].host != init[j].host by {
            assert(init[i] == rows[i] && init[j] == rows[j]);
        }
        lemma_hydrate_distinct(init);
        let before = hydrate(Map::empty(), init);
        assert(loaded == before.insert(last.id, RoomView::fresh(last.id, last.host, last.token)));
        assert forall|i: int| 0 <= i < n implies rows[i].id != last.id && rows[i].host != last.host
            && before.contains_key(rows[i].id) && before[rows[i].id] == RoomView::fresh(
            rows[i].id,
            rows[i].host,
            rows[i].token,
        ) by {
            assert(init[i] == rows[i]);
        }
        assert(!before.contains_key(last.id)) by {
            if before.contains_key(last.id) {
                let i = choose|i: int| 0 <= i < init.len() && (#[trigger] init[i]).id == last.id;
                assert(init[i] == rows[i]);
            }
        }
        assert forall|id: RoomId| #[trigger] loaded.contains_key(id) implies exists|i: int|
            0 <= i < rows.len() && (#[trigger] rows[i]).id == id by {
            if id == last.id {
                assert(rows[n].id == id);
            } else {
                let i = choose|i: int| 0 <= i < init.len() && (#[trigger] init[i]).id == id;
                assert(rows[i].id == id);
            }
        }
        assert forall|id: RoomId|
            (exists|i: int| 0 <= i < rows.len() && (#[trigger] rows[i]).id == id) implies #[trigger]
            loaded.contains_key(id) by {
            let i = choose|i: int| 0 <= i < rows.len() && (#[trigger] rows[i]).id == id;
            if i < n {
                assert(init[i] == rows[i]);
            }
        }
        assert forall|a: RoomId, b: RoomId|
            loaded.contains_key(a) && loaded.contains_key(b) && (#[trigger] loaded[a]).host == (
            #[trigger] loaded[b]).host implies a == b by {
            let i = choose|i: int| 0 <= i < rows.len() && (#[trigger] rows[i]).id == a;
            let j = choose|j: int| 0 <= j < rows.len() && (#[trigger] rows[j]).id == b;
            if i < j {
                assert(rows[i].host != rows[j].host);
            }
            if j < i {
                assert(rows[j].host != rows[i].host);
            }
        }
    }
}

/// Where no two rooms belong to the same host, no host has more than one
/// room.
pub proof fn lemma_distinct_hosts_have_one_room(rooms: Rooms, host: Seq<char>)
    requires
        hosts_distinct(rooms),
    ensures
        at_most_one_room_of(rooms, host),
{
}

/// Asking twice for the room of one host gives the same credentials, and
/// the second request leaves the registry as the first left it. This holds
/// where the host has at most one room to begin with, and where the store,
/// at the second request, holds what the first request handed out, or
/// holds nothing as it held nothing at the first.
pub proof fn lemma_create_room_idempotent(
    rooms: Rooms,
    host: Seq<char>,
    stored: Option<RoomCredsView>,
    between: Rooms,
    first: RoomCredsView,
    first_minted: bool,
    stored_again: Option<RoomCredsView>,
    after: Rooms,
    second: RoomCredsView,
    second_minted: bool,
)
    requires
        at_most_one_room_of(rooms, host),
        create_outcome(rooms, host, stored, between, first, first_minted),
        create_outcome(between, host, stored_again, after, second, second_minted),
        stored_again == Some(first) || (stored is None && stored_again is None),
    ensures
        second == first,
        after == between,
        !second_minted,
{
    if stored_again is None {
        if owns_room(rooms, host) {
            assert(rooms[first.id].host == rooms[second.id].host);
        } else {
            assert(between[first.id].host == host);
            if second.id != first.id {
                assert(rooms[second.id].host == host);
            }
        }
    }
}

/// After a restart that loaded the stored rows, the host of a stored room
/// gets that room again, whether the store answers the request or not, and
/// nothing is minted. This holds where the room is in the registry as it
/// was stored, and is the only room of its host there.
pub proof fn lemma_create_room_after_restart(
    rows: Seq<RoomCredsView>,
    i: int,
    stored: Option<RoomCredsView>,
    after: Rooms,
    creds: RoomCredsView,
    minted: bool,
)
    requires
        0 <= i < rows.len(),
        hydrate(Map::empty(), rows).contains_key(rows[i].id),
        hydrate(Map::empty(), rows)[rows[i].id].creds() == rows[i],
        at_most_one_room_of(hydrate(Map::empty(), rows), rows[i].host),
        stored == Some(rows[i]) || stored is None,
        create_outcome(hydrate(Map::empty(), rows), rows[i].host, stored, after, creds, minted),
    ensures
        creds == rows[i],
        after == hydrate(Map::empty(), rows),
        !minted,
{
    let loaded = hydrate(Map::empty(), rows);
    if stored is None {
        assert(loaded[rows[i].id].host == rows[i].host);
        assert(loaded[creds.id].host == loaded[rows[i].id].host);
    }
}

/// Host privileges are granted for the token of the room and for no other
/// text: one that differs from the token in a single character, or a
/// single bit of one, is refused, and so is every token for a room that
/// does not exist.
pub proof fn lemma_only_the_token_grants(rooms: Rooms, room_id: RoomId, token: Seq<char>)
    ensures
        authorizes(rooms, room_id, token) <==> rooms.contains_key(room_id) && token
            == rooms[room_id].host_token,
        rooms.contains_key(room_id) ==> authorizes(rooms, room_id, rooms[room_id].host_token),
        rooms.contains_key(room_id) && token != rooms[room_id].host_token ==> !authorizes(
            rooms,
            room_id,
            token,
        ),
{
}

/// The token handed out when a room is minted is the one text that grants
/// host privileges for that room.
pub proof fn lemma_minted_token_grants(
    rooms: Rooms,
    host: Seq<char>,
    after: Rooms,
    creds: RoomCredsView,
    token: Seq<char>,
)
    requires
        create_outcome(rooms, host, None, after, creds, true),
    ensures
        authorizes(after, creds.id, token) <==> token == creds.token,
{
}

} // verus!
