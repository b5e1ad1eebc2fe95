use bingo_server::client::client_command_handler;
use bingo_server::host::{host_command_handler, ClientMessage};
use bingo_server::room::{USER_CLIENT, USER_HOST};
use bingo_server::server::{BingoServer, Reply};
use bingo_server::wshandler::{Action, Connection, Event, WSMessage};
use tokio::sync::mpsc::error::TryRecvError;
use tokio::sync::mpsc::unbounded_channel;

fn envelope_of(text: &str) -> Option<WSMessage> {
    let value: serde_json::Value = serde_json::from_str(text).ok()?;
    let kind = value.as_object()?.get("type")?.as_str()?;
    Some(WSMessage { kind: kind.to_string() })
}

fn target_of(text: &str) -> Option<ClientMessage> {
    let value: serde_json::Value = serde_json::from_str(text).ok()?;
    let object = value.as_object()?;
    let kind = object.get("type")?.as_str()?;
    let client_id = u32::try_from(object.get("client_id")?.as_u64()?).ok()?;
    Some(ClientMessage { kind: kind.to_string(), client_id })
}

#[test]
fn a_room_from_creation_to_direct_send() {
    let mut server = BingoServer::new();

    // room created for host "alice"
    let grant = server.create_room("alice".to_string(), None);
    let room = grant.creds.id;
    assert!(server.room_exists(room));
    assert!(!server.room_exists(room.wrapping_add(1)));

    // host joins, then a client
    let (host_tx, mut host_rx) = unbounded_channel();
    let (c1_tx, mut c1_rx) = unbounded_channel();
    let (_c2_tx, mut c2_rx) = unbounded_channel::<String>();
    assert!(server.has_room_host_privileges(room, grant.creds.token.clone()));
    let host_id = server.add_client(room, host_tx, USER_HOST);
    assert_eq!(host_id, 0);
    let c1 = server.add_client(room, c1_tx, USER_CLIENT);
    assert_ne!(c1, 0);
    let mut host_conn = Connection::new(room, host_id, USER_HOST, 0);
    let mut c1_conn = Connection::new(room, c1, USER_CLIENT, 0);

    // host broadcasts "start": c1 receives it, c2 has not joined and receives nothing
    let forwarded = match host_conn.on_event(
        Event::Text { text: "start".to_string(), envelope: envelope_of("start") },
        1,
    ) {
        Action::Forward(text) => text,
        other => panic!("unexpected action {:?}", other),
    };
    let target = target_of(&forwarded);
    assert!(matches!(
        server.handle(host_command_handler(room, target, forwarded)),
        Reply::Done
    ));
    assert_eq!(c1_rx.try_recv(), Ok("start".to_string()));
    assert_eq!(c1_rx.try_recv(), Err(TryRecvError::Empty));
    assert_eq!(c2_rx.try_recv(), Err(TryRecvError::Empty));
    assert_eq!(host_rx.try_recv(), Err(TryRecvError::Empty));

    // c1 asks for its id and is answered directly, with nothing sent to the registry
    let ask = "{\"type\":\"request_id\"}";
    match c1_conn.on_event(Event::Text { text: ask.to_string(), envelope: envelope_of(ask) }, 2) {
        Action::Text(text) => assert_eq!(text, format!("{{\"type\":\"id\",\"conn_id\":{}}}", c1)),
        other => panic!("unexpected action {:?}", other),
    }
    assert_eq!(host_rx.try_recv(), Err(TryRecvError::Empty));
    assert_eq!(c1_rx.try_recv(), Err(TryRecvError::Empty));

    // a third client joins, to see that a direct send is no broadcast
    let (c3_tx, mut c3_rx) = unbounded_channel();
    let c3 = server.register(room, c3_tx, USER_CLIENT, c1.wrapping_add(1));
    assert_ne!(c3, c1);

    // host sends a ping to c1: delivered to c1 alone
    let ping = format!("{{\"type\":\"ping\",\"client_id\":{}}}", c1);
    let forwarded = match host_conn.on_event(
        Event::Text { text: ping.clone(), envelope: envelope_of(&ping) },
        3,
    ) {
        Action::Forward(text) => text,
        other => panic!("unexpected action {:?}", other),
    };
    let target = target_of(&forwarded);
    assert_eq!(target.as_ref().map(|t| t.client_id), Some(c1));
    assert!(matches!(
        server.handle(host_command_handler(room, target, forwarded)),
        Reply::Done
    ));
    assert_eq!(c1_rx.try_recv(), Ok(ping));
    assert_eq!(c1_rx.try_recv(), Err(TryRecvError::Empty));
    assert_eq!(c3_rx.try_recv(), Err(TryRecvError::Empty));
    assert_eq!(host_rx.try_recv(), Err(TryRecvError::Empty));

    // c1 answers: a client's text reaches the host alone
    let pong = "{\"type\":\"pong\"}";
    let forwarded = match c1_conn.on_event(
        Event::Text { text: pong.to_string(), envelope: envelope_of(pong) },
        4,
    ) {
        Action::Forward(text) => text,
        other => panic!("unexpected action {:?}", other),
    };
    assert!(matches!(
        server.handle(client_command_handler(room, forwarded)),
        Reply::Done
    ));
    assert_eq!(host_rx.try_recv(), Ok(pong.to_string()));
    assert_eq!(c1_rx.try_recv(), Err(TryRecvError::Empty));
    assert_eq!(c3_rx.try_recv(), Err(TryRecvError::Empty));
}

#[test]
fn a_silent_connection_is_deregistered_exactly_once() {
    let mut server = BingoServer::new();
    let room = server.create_room("alice".to_string(), None).creds.id;
    let (tx, mut rx) = unbounded_channel();
    let id = server.add_client(room, tx, USER_CLIENT);
    let mut conn = Connection::new(room, id, USER_CLIENT, 0);

    let mut farewells = 0;
    let mut now = 0;
    while now <= 60_000 {
        now += 5_000;
        if let Action::Disconnect { room, conn, user_type, reason } = conn.on_event(Event::Tick, now) {
            assert!(reason.is_none());
            assert!(server.room_exists(room));
            server.remove_client(room, conn, user_type);
            farewells += 1;
        }
    }
    assert_eq!(farewells, 1);
    assert!(!conn.is_open());

    // the registry has let go of the pipe: nothing is kept for a dead peer
    server.broadcast(room, "anyone?", USER_HOST);
    assert_eq!(rx.try_recv(), Err(TryRecvError::Disconnected));
}

#[test]
fn a_peer_that_keeps_answering_stays_connected() {
    let mut conn = Connection::new(1, 2, USER_CLIENT, 0);
    let mut now = 0;
    for _ in 0..100 {
        now += 5_000;
        assert!(matches!(conn.on_event(Event::Tick, now), Action::Ping));
        assert!(matches!(conn.on_event(Event::Pong, now + 20), Action::Continue));
    }
    assert!(conn.is_open());
}

#[test]
fn a_replaced_host_takes_leave_once_when_its_pipe_closes() {
    let mut server = BingoServer::new();
    let room = server.create_room("alice".to_string(), None).creds.id;
    let (first_tx, mut first_rx) = unbounded_channel::<String>();
    let (second_tx, _second_rx) = unbounded_channel::<String>();
    assert_eq!(server.add_client(room, first_tx, USER_HOST), 0);
    let mut first_conn = Connection::new(room, 0, USER_HOST, 0);
    assert_eq!(server.add_client(room, second_tx, USER_HOST), 0);

    // the first host's outbound channel has lost its only sender
    assert_eq!(first_rx.try_recv(), Err(TryRecvError::Disconnected));
    let mut farewells = 0;
    for now in [1u64, 2, 3] {
        if let Action::Disconnect { room, conn, user_type, reason } =
            first_conn.on_event(Event::PipeClosed, now)
        {
            assert!(reason.is_none());
            assert_eq!((conn, user_type), (0, USER_HOST));
            server.remove_client(room, conn, user_type);
            farewells += 1;
        }
    }
    assert_eq!(farewells, 1);
    assert!(!first_conn.is_open());
}
