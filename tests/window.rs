use talk_to_me::window::WindowConnection;

#[test]
fn messages_reach_the_worker() {
    let (conn, worker) = WindowConnection::new();
    conn.send("hello".to_string());
    conn.send("again".to_string());
    assert_eq!(worker.outgoing.recv().unwrap(), "hello");
    assert_eq!(worker.outgoing.recv().unwrap(), "again");
}

#[test]
fn replies_are_polled_without_waiting() {
    let (conn, worker) = WindowConnection::new();
    assert_eq!(conn.try_receive(), None);
    worker.responses.send("reply".to_string()).unwrap();
    assert_eq!(conn.try_receive(), Some("reply".to_string()));
    assert_eq!(conn.try_receive(), None);
}

#[test]
fn send_after_worker_is_gone_is_dropped() {
    let (conn, worker) = WindowConnection::new();
    drop(worker);
    conn.send("lost".to_string());
    assert_eq!(conn.try_receive(), None);
}
