use rrd_migration::queue::{Received, SendError, WorkQueue};

#[test]
fn new_queue_is_empty_and_open() {
    let queue: WorkQueue<u8> = WorkQueue::new(3);
    assert_eq!(queue.len(), 0);
    assert_eq!(queue.producers(), 0);
    assert_eq!(queue.consumers(), 3);
    assert!(!queue.is_closed());
}

#[test]
fn queue_is_first_in_first_out() {
    let mut queue: WorkQueue<u8> = WorkQueue::new(1);
    queue.new_producer_handle();
    assert_eq!(queue.send(3), Ok(()));
    assert_eq!(queue.send(1), Ok(()));
    assert_eq!(queue.send(2), Ok(()));
    assert_eq!(queue.len(), 3);
    assert_eq!(queue.receive(), Received::Item(3));
    assert_eq!(queue.receive(), Received::Item(1));
    assert_eq!(queue.len(), 1);
    assert_eq!(queue.receive(), Received::Item(2));
    assert_eq!(queue.receive(), Received::Empty);
}

#[test]
fn queue_closes_with_its_last_producer() {
    let mut queue: WorkQueue<u8> = WorkQueue::new(1);
    queue.new_producer_handle();
    queue.new_producer_handle();
    assert_eq!(queue.producers(), 2);
    assert_eq!(queue.send(9), Ok(()));
    queue.release();
    assert!(!queue.is_closed());
    queue.drop_producer_handle();
    assert!(!queue.is_closed());
    queue.drop_producer_handle();
    assert!(queue.is_closed());
    // What was queued before is still handed out.
    assert_eq!(queue.receive(), Received::Item(9));
    assert_eq!(queue.receive(), Received::Closed);
    assert_eq!(queue.receive(), Received::Closed);
}

#[test]
fn owner_alone_keeps_the_queue_open() {
    let mut queue: WorkQueue<u8> = WorkQueue::new(2);
    assert_eq!(queue.receive(), Received::Empty);
    queue.release();
    assert!(queue.is_closed());
    assert_eq!(queue.receive(), Received::Closed);
}

#[test]
fn send_fails_without_consumers() {
    let mut queue: WorkQueue<u8> = WorkQueue::new(2);
    queue.new_producer_handle();
    queue.consumer_left();
    assert_eq!(queue.consumers(), 1);
    assert_eq!(queue.send(1), Ok(()));
    queue.consumer_left();
    assert_eq!(queue.consumers(), 0);
    assert_eq!(queue.send(2), Err(SendError::ChannelClosed));
    assert_eq!(queue.len(), 1);
}
