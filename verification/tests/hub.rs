use console_backend::hub::Hub;
use tokio::sync::mpsc::error::TryRecvError;

#[test]
fn client_ids_are_monotonic_and_never_reused() {
    let mut hub = Hub::new();
    let (id1, _rx1) = hub.register_client();
    let (id2, _rx2) = hub.register_client();
    assert_eq!(id1, 1);
    assert_eq!(id2, 2);
    hub.unregister_client(id1);
    let (id3, _rx3) = hub.register_client();
    assert_eq!(id3, 3);
    assert_eq!(hub.client_count(), 2);
}

#[test]
fn broadcast_delivers_once_to_each_client_in_order() {
    let mut hub = Hub::new();
    let (_id1, mut rx1) = hub.register_client();
    let (_id2, mut rx2) = hub.register_client();

    hub.broadcast_log(&String::from("one"));
    hub.broadcast_log(&String::from("two"));

    assert_eq!(rx1.try_recv().as_deref(), Ok("one"));
    assert_eq!(rx1.try_recv().as_deref(), Ok("two"));
    assert_eq!(rx1.try_recv(), Err(TryRecvError::Empty));

    assert_eq!(rx2.try_recv().as_deref(), Ok("one"));
    assert_eq!(rx2.try_recv().as_deref(), Ok("two"));
    assert_eq!(rx2.try_recv(), Err(TryRecvError::Empty));
}

#[test]
fn dead_receiver_is_pruned_by_the_broadcast_that_hits_it() {
    let mut hub = Hub::new();
    let (_id1, rx1) = hub.register_client();
    let (_id2, mut rx2) = hub.register_client();
    drop(rx1);

    hub.broadcast_log(&String::from("line"));
    assert_eq!(hub.client_count(), 1);

    // The surviving client saw nothing of the failure.
    assert_eq!(rx2.try_recv().as_deref(), Ok("line"));
    hub.broadcast_log(&String::from("after"));
    assert_eq!(rx2.try_recv().as_deref(), Ok("after"));
    assert_eq!(rx2.try_recv(), Err(TryRecvError::Empty));
}

#[test]
fn unregister_is_idempotent() {
    let mut hub = Hub::new();
    let (id, _rx) = hub.register_client();
    assert_eq!(hub.client_count(), 1);
    hub.unregister_client(id);
    assert_eq!(hub.client_count(), 0);
    hub.unregister_client(id);
    assert_eq!(hub.client_count(), 0);
}

#[test]
fn dropped_session_stops_receiving_later_broadcasts() {
    let mut hub = Hub::new();
    let (id1, mut rx1) = hub.register_client();
    let (_id2, mut rx2) = hub.register_client();

    hub.broadcast_log(&String::from("both"));
    assert_eq!(rx1.try_recv().as_deref(), Ok("both"));
    assert_eq!(rx2.try_recv().as_deref(), Ok("both"));

    hub.unregister_client(id1);
    hub.broadcast_log(&String::from("only second"));
    assert_eq!(rx1.try_recv(), Err(TryRecvError::Disconnected));
    assert_eq!(rx2.try_recv().as_deref(), Ok("only second"));
}
