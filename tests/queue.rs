use hello_tcp::{JobQueue, Received};

#[test]
fn queue_is_fifo() {
    let mut q = JobQueue::new();
    assert_eq!(q.send(1u8), Ok(()));
    assert_eq!(q.send(2u8), Ok(()));
    assert_eq!(q.len(), 2);
    assert!(matches!(q.receive(), Received::Job(1)));
    assert!(matches!(q.receive(), Received::Job(2)));
    assert!(matches!(q.receive(), Received::Empty));
}

#[test]
fn closed_queue_refuses_send_and_drains() {
    let mut q = JobQueue::new();
    assert_eq!(q.send(5u8), Ok(()));
    q.close();
    q.close();
    assert!(q.is_closed());
    assert_eq!(q.send(6u8), Err(6));
    assert!(matches!(q.receive(), Received::Job(5)));
    assert!(matches!(q.receive(), Received::Closed));
    assert!(matches!(q.receive(), Received::Closed));
}
