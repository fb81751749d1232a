use console_backend::lines::{LineSplitter, Origin};
use console_backend::session::ConsoleWebSocket;
use console_backend::state::AppState;
use console_backend::supervisor::{StartAction, StopAction};
use tokio::sync::mpsc::error::TryRecvError;

/// Push one chunk of captured stdout through the splitter and the hub,
/// as the reader and broadcaster tasks do at runtime.
fn capture_and_broadcast(app: &mut AppState, splitter: &mut LineSplitter, chunk: &[u8]) {
    for line in splitter.feed(chunk) {
        if let Some(text) = console_backend::lines::render_line(Origin::Stdout, line) {
            app.broadcast_log(&text);
        }
    }
}

#[test]
fn full_round_trip_from_start_to_stop() {
    let mut app = AppState::new();

    // Start the server; the runtime's spawn succeeds.
    assert!(matches!(app.start_minecraft(), StartAction::Spawn));
    app.start_minecraft_outcome(true).unwrap();
    assert!(app.is_running());

    // Two clients connect.
    let mut first = ConsoleWebSocket::new(0);
    let mut rx_first = first.started(&mut app);
    let mut second = ConsoleWebSocket::new(0);
    let mut rx_second = second.started(&mut app);
    assert_eq!(app.hub.client_count(), 2);

    // The subprocess announces itself on stdout.
    let mut splitter = LineSplitter::new();
    capture_and_broadcast(&mut app, &mut splitter, b"Server started\n");

    // Both clients observe exactly one frame with that line.
    assert_eq!(rx_first.try_recv().as_deref(), Ok("Server started"));
    assert_eq!(rx_first.try_recv(), Err(TryRecvError::Empty));
    assert_eq!(rx_second.try_recv().as_deref(), Ok("Server started"));
    assert_eq!(rx_second.try_recv(), Err(TryRecvError::Empty));

    // The first client disconnects.
    first.stopping(&mut app);
    drop(rx_first);
    assert_eq!(app.hub.client_count(), 1);

    // Only the remaining client observes the next line.
    capture_and_broadcast(&mut app, &mut splitter, b"tick\n");
    assert_eq!(rx_second.try_recv().as_deref(), Ok("tick"));
    assert_eq!(rx_second.try_recv(), Err(TryRecvError::Empty));

    // Stop the server: the stop line goes to stdin, the exit is waited
    // for, and nothing is running afterwards.
    match app.stop_minecraft() {
        StopAction::Terminate(line) => assert_eq!(line, "stop\n"),
        StopAction::AlreadyStopped => panic!("a live process must be terminated"),
    }
    app.stop_minecraft_outcome();
    assert!(!app.is_running());
}

#[test]
fn stderr_output_reaches_clients_with_the_error_tag() {
    let mut app = AppState::new();
    let mut session = ConsoleWebSocket::new(0);
    let mut rx = session.started(&mut app);

    let mut splitter = LineSplitter::new();
    for line in splitter.feed(b"something failed\n") {
        if let Some(text) = console_backend::lines::render_line(Origin::Stderr, line) {
            app.broadcast_log(&text);
        }
    }
    assert_eq!(rx.try_recv().as_deref(), Ok("ERROR: something failed"));
}
