use console_backend::supervisor::{
    MinecraftServer, StartAction, StopAction, SupervisorError,
};

#[test]
fn send_command_while_stopped_fails_with_not_running() {
    let server = MinecraftServer::new();
    assert!(!server.is_running());
    assert_eq!(server.send_command("foo"), Err(SupervisorError::NotRunning));
}

#[test]
fn send_command_after_start_frames_the_bytes() {
    let mut server = MinecraftServer::new();
    assert!(matches!(server.start(), StartAction::Spawn));
    assert_eq!(server.start_outcome(true), Ok(()));
    assert!(server.is_running());
    let line = server.send_command("foo").unwrap();
    assert_eq!(line.as_bytes(), b"foo\n");
}

#[test]
fn start_while_running_is_a_no_op_success() {
    let mut server = MinecraftServer::new();
    assert!(matches!(server.start(), StartAction::Spawn));
    assert_eq!(server.start_outcome(true), Ok(()));
    assert!(matches!(server.start(), StartAction::AlreadyRunning));
    assert!(server.is_running());
}

#[test]
fn stop_while_stopped_is_a_no_op_success() {
    let mut server = MinecraftServer::new();
    assert!(matches!(server.stop(), StopAction::AlreadyStopped));
    assert!(!server.is_running());
}

#[test]
fn stop_writes_the_stop_line_then_drops_the_handle() {
    let mut server = MinecraftServer::new();
    assert!(matches!(server.start(), StartAction::Spawn));
    assert_eq!(server.start_outcome(true), Ok(()));
    match server.stop() {
        StopAction::Terminate(line) => assert_eq!(line, "stop\n"),
        StopAction::AlreadyStopped => panic!("a live process must be terminated"),
    }
    assert!(!server.is_running());
    server.stop_outcome();
    assert!(!server.is_running());
}

#[test]
fn failed_spawn_reports_spawn_error_and_returns_to_stopped() {
    let mut server = MinecraftServer::new();
    assert!(matches!(server.start(), StartAction::Spawn));
    assert_eq!(server.start_outcome(false), Err(SupervisorError::SpawnError));
    assert!(!server.is_running());
    assert_eq!(server.send_command("foo"), Err(SupervisorError::NotRunning));
}

#[test]
fn is_running_tracks_the_latest_completed_call() {
    let mut server = MinecraftServer::new();
    assert!(!server.is_running());
    server.start();
    server.start_outcome(true).unwrap();
    assert!(server.is_running());
    if let StopAction::Terminate(_) = server.stop() {
        server.stop_outcome();
    }
    assert!(!server.is_running());
    server.start();
    server.start_outcome(true).unwrap();
    assert!(server.is_running());
}
