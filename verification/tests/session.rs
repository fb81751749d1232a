use console_backend::session::{
    ConsoleWebSocket, HeartbeatAction, SessionAction, WsMessage, CLIENT_TIMEOUT,
    HEARTBEAT_INTERVAL,
};
use console_backend::state::AppState;

#[test]
fn started_session_registers_with_the_hub() {
    let mut app = AppState::new();
    let mut session = ConsoleWebSocket::new(0);
    let _rx = session.started(&mut app);
    assert_eq!(app.hub.client_count(), 1);
    assert_eq!(session.assigned_id(), 1);
}

#[test]
fn welcome_banner_carries_id_and_timestamp() {
    assert_eq!(
        console_backend::session::welcome_banner(7, 1700000000),
        "--- Connected to Minecraft console WebSocket (client ID: 7, timestamp: 1700000000) ---"
    );
    assert_eq!(
        console_backend::session::welcome_banner(0, 0),
        "--- Connected to Minecraft console WebSocket (client ID: 0, timestamp: 0) ---"
    );
    assert_eq!(
        console_backend::session::welcome_banner(u64::MAX - 1, 10),
        "--- Connected to Minecraft console WebSocket (client ID: 18446744073709551614, timestamp: 10) ---"
    );
}

#[test]
fn ping_is_answered_with_its_own_payload() {
    let mut app = AppState::new();
    let mut session = ConsoleWebSocket::new(0);
    let _rx = session.started(&mut app);
    match session.handle(WsMessage::Ping(b"beat".to_vec()), 3) {
        SessionAction::ReplyPong(payload) => assert_eq!(payload, b"beat".to_vec()),
        _ => panic!("a ping must be answered with a pong"),
    }
}

#[test]
fn text_is_acknowledged_then_forwarded_as_a_command() {
    let mut app = AppState::new();
    let mut session = ConsoleWebSocket::new(0);
    let _rx = session.started(&mut app);
    match session.handle(WsMessage::Text(String::from("list players")), 3) {
        SessionAction::AckAndForward { ack, command } => {
            assert_eq!(ack, "Command received: list players");
            assert_eq!(command, "list players");
        },
        _ => panic!("text must become an acknowledged command"),
    }
}

#[test]
fn rejected_command_does_not_tear_the_connection_down() {
    let mut app = AppState::new();
    let mut session = ConsoleWebSocket::new(0);
    let _rx = session.started(&mut app);
    let action = session.handle(WsMessage::Text(String::from("stop")), 3);
    let command = match action {
        SessionAction::AckAndForward { command, .. } => command,
        _ => panic!("text must become an acknowledged command"),
    };
    // Nothing is running, so the supervisor refuses the command; the
    // session is still active and the client still subscribed.
    assert!(app.send_command(&command).is_err());
    assert_eq!(app.hub.client_count(), 1);
}

#[test]
fn binary_is_echoed_back() {
    let mut app = AppState::new();
    let mut session = ConsoleWebSocket::new(0);
    let _rx = session.started(&mut app);
    match session.handle(WsMessage::Binary(vec![1, 2, 3]), 3) {
        SessionAction::EchoBinary(payload) => assert_eq!(payload, vec![1, 2, 3]),
        _ => panic!("binary must be echoed"),
    }
}

#[test]
fn close_frame_closes_the_connection() {
    let mut app = AppState::new();
    let mut session = ConsoleWebSocket::new(0);
    let _rx = session.started(&mut app);
    assert!(matches!(
        session.handle(WsMessage::Close, 3),
        SessionAction::CloseConnection
    ));
}

#[test]
fn responsive_client_keeps_being_probed() {
    let mut app = AppState::new();
    let mut session = ConsoleWebSocket::new(0);
    let _rx = session.started(&mut app);
    assert!(matches!(
        session.hb(HEARTBEAT_INTERVAL),
        HeartbeatAction::Probe
    ));
    session.handle(WsMessage::Pong, HEARTBEAT_INTERVAL);
    // Exactly at the timeout bound the client is still considered live.
    assert!(matches!(
        session.hb(HEARTBEAT_INTERVAL + CLIENT_TIMEOUT),
        HeartbeatAction::Probe
    ));
}

#[test]
fn silent_session_self_terminates_and_leaves_the_table() {
    let mut app = AppState::new();
    let mut session = ConsoleWebSocket::new(0);
    let _rx = session.started(&mut app);
    assert_eq!(app.hub.client_count(), 1);
    // No pong arrives for more than CLIENT_TIMEOUT time-units after
    // the last sign of life.
    assert!(matches!(
        session.hb(CLIENT_TIMEOUT + 1),
        HeartbeatAction::Terminate
    ));
    session.stopping(&mut app);
    assert_eq!(app.hub.client_count(), 0);
}
