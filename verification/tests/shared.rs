use std::rc::Rc;

use pubsub::poll::Async;
use pubsub::poll::AsyncSink;
use pubsub::shared::Shared;

#[test]
fn new_state_is_empty() {
    let shared = Shared::<u8>::new(3);
    assert_eq!(shared.capacity(), 3);
    assert_eq!(shared.len(), 0);
}

#[test]
fn send_fills_up_to_capacity() {
    let mut shared = Shared::<u8>::new(2);
    assert_eq!(shared.start_send(1), AsyncSink::Ready);
    assert_eq!(shared.len(), 1);
    assert_eq!(shared.start_send(2), AsyncSink::Ready);
    assert_eq!(shared.len(), 2);
    assert_eq!(shared.start_send(3), AsyncSink::NotReady(3));
    assert_eq!(shared.len(), 2);
    assert_eq!(shared.capacity(), 2);
}

#[test]
fn receive_on_empty_queue_is_not_ready() {
    let mut shared = Shared::<u8>::new(2);
    assert_eq!(shared.poll(1, 1), Async::NotReady);
    assert_eq!(shared.len(), 0);
}

#[test]
fn receive_without_producers_ends_and_keeps_the_queue() {
    let mut shared = Shared::<u8>::new(2);
    assert_eq!(shared.start_send(1), AsyncSink::Ready);
    assert_eq!(shared.poll(0, 1), Async::Ready(None));
    assert_eq!(shared.poll(0, 3), Async::Ready(None));
    assert_eq!(shared.len(), 1);
    assert_eq!(shared.poll(1, 1), Async::Ready(Some(1)));
}

#[test]
fn slot_leaves_after_as_many_reads_as_there_are_consumers() {
    let mut shared = Shared::<u8>::new(4);
    assert_eq!(shared.start_send(7), AsyncSink::Ready);
    assert_eq!(shared.start_send(8), AsyncSink::Ready);
    assert_eq!(shared.poll(1, 3), Async::Ready(Some(7)));
    assert_eq!(shared.len(), 2);
    assert_eq!(shared.poll(1, 3), Async::Ready(Some(7)));
    assert_eq!(shared.len(), 2);
    assert_eq!(shared.poll(1, 3), Async::Ready(Some(7)));
    assert_eq!(shared.len(), 1);
    assert_eq!(shared.poll(1, 3), Async::Ready(Some(8)));
    assert_eq!(shared.len(), 1);
}

#[test]
fn slot_leaves_at_once_when_consumers_have_dropped_below_its_count() {
    let mut shared = Shared::<u8>::new(4);
    assert_eq!(shared.start_send(7), AsyncSink::Ready);
    assert_eq!(shared.poll(1, 4), Async::Ready(Some(7)));
    assert_eq!(shared.poll(1, 4), Async::Ready(Some(7)));
    assert_eq!(shared.len(), 1);
    // Two of the four consumers are gone: the next read is the last.
    assert_eq!(shared.poll(1, 2), Async::Ready(Some(7)));
    assert_eq!(shared.len(), 0);
}

#[test]
fn single_read_removes_when_no_consumer_is_counted() {
    let mut shared = Shared::<u8>::new(1);
    assert_eq!(shared.start_send(7), AsyncSink::Ready);
    assert_eq!(shared.poll(1, 0), Async::Ready(Some(7)));
    assert_eq!(shared.len(), 0);
}

#[test]
fn same_consumer_reading_twice_takes_the_turn_of_another() {
    let mut shared = Shared::<u8>::new(4);
    assert_eq!(shared.start_send(1), AsyncSink::Ready);
    assert_eq!(shared.start_send(2), AsyncSink::Ready);
    // Both reads stand for one consumer of two: the queue only counts.
    assert_eq!(shared.poll(1, 2), Async::Ready(Some(1)));
    assert_eq!(shared.poll(1, 2), Async::Ready(Some(1)));
    assert_eq!(shared.poll(1, 2), Async::Ready(Some(2)));
}

#[test]
fn non_last_reads_hand_out_clones() {
    let mut shared = Shared::<Rc<u8>>::new(1);
    let item = Rc::new(9);
    assert_eq!(shared.start_send(item.clone()), AsyncSink::Ready);
    assert_eq!(Rc::strong_count(&item), 2);
    let first = shared.poll(1, 2);
    assert_eq!(Rc::strong_count(&item), 3);
    let second = shared.poll(1, 2);
    assert_eq!(Rc::strong_count(&item), 3);
    assert_eq!(first, Async::Ready(Some(Rc::new(9))));
    assert_eq!(second, Async::Ready(Some(Rc::new(9))));
}
