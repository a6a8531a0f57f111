use mpmc::{queue, stack, Error};

#[test]
fn queue_channel_fifo_scenario() {
    let (tx, rx) = queue();
    assert!(tx.send(10).is_ok());
    assert!(tx.send(5).is_ok());
    assert!(tx.send(0).is_ok());
    assert_eq!(tx.size_hint(), 3);
    assert_eq!(rx.try_recv(), Ok(10));
    assert_eq!(rx.try_recv(), Ok(5));
    assert_eq!(rx.try_recv(), Ok(0));
    assert_eq!(rx.try_recv(), Err(Error::Empty));
}

#[test]
fn stack_channel_lifo_scenario() {
    let (tx, rx) = stack();
    assert!(tx.send(10).is_ok());
    assert!(tx.send(5).is_ok());
    assert!(tx.send(0).is_ok());
    assert_eq!(tx.size_hint(), 3);
    assert_eq!(rx.try_recv(), Ok(0));
    assert_eq!(rx.try_recv(), Ok(5));
    assert_eq!(rx.try_recv(), Ok(10));
    assert_eq!(rx.try_recv(), Err(Error::Empty));
}

#[test]
fn send_after_last_receiver_gives_value_back() {
    let (tx, rx) = queue();
    let rx2 = rx.clone();
    rx.close();
    assert_eq!(tx.send(String::from("kept")), Ok(()));
    rx2.close();
    assert_eq!(tx.send(String::from("returned")), Err(String::from("returned")));
}

#[test]
fn recv_drains_then_reports_disconnected() {
    let (tx, rx) = queue();
    let tx2 = tx.clone();
    tx.send(1).unwrap();
    tx2.send(2).unwrap();
    tx.close();
    assert_eq!(rx.try_recv(), Ok(1));
    tx2.close();
    assert_eq!(rx.recv(), Ok(2));
    assert_eq!(rx.recv(), Err(Error::Disconnected));
    assert_eq!(rx.try_recv(), Err(Error::Disconnected));
}

#[test]
fn recv_returns_pending_value_without_waiting() {
    let (tx, rx) = stack();
    tx.send(42).unwrap();
    assert_eq!(rx.recv(), Ok(42));
    assert_eq!(rx.try_recv(), Err(Error::Empty));
}

#[test]
fn cloned_handles_share_one_channel() {
    let (tx, rx) = queue();
    let tx2 = tx.clone();
    let rx2 = rx.clone();
    tx2.send(3).unwrap();
    assert_eq!(tx.size_hint(), 1);
    assert_eq!(rx.try_recv(), Ok(3));
    assert_eq!(rx2.try_recv(), Err(Error::Empty));
}

#[test]
fn error_messages() {
    assert_eq!(Error::Empty.message(), "Receiver Error: channel is empty");
    assert_eq!(
        Error::Disconnected.message(),
        "Receiver Error: channel is disconnected"
    );
}

fn shareable<X: Send + Sync>(_: &X) -> bool {
    true
}

#[test]
fn handles_are_send_and_sync() {
    let (tx, rx) = queue::<u64>();
    assert!(shareable(&tx));
    assert!(shareable(&rx));
}

#[test]
fn queue_channel_interleaved_order() {
    let (tx, rx) = queue();
    tx.send(1).unwrap();
    tx.send(2).unwrap();
    assert_eq!(rx.recv(), Ok(1));
    tx.send(3).unwrap();
    assert_eq!(rx.recv(), Ok(2));
    assert_eq!(rx.recv(), Ok(3));
    assert_eq!(rx.try_recv(), Err(Error::Empty));
    assert_eq!(tx.size_hint(), 0);
}

#[test]
fn stack_channel_disconnect_drains_lifo() {
    let (tx, rx) = stack();
    tx.send(1).unwrap();
    tx.send(2).unwrap();
    tx.close();
    assert_eq!(rx.try_recv(), Ok(2));
    assert_eq!(rx.try_recv(), Ok(1));
    assert_eq!(rx.try_recv(), Err(Error::Disconnected));
}
