use std::cell::RefCell;
use std::rc::Rc;

use pubsub::broadcast::channel;
use pubsub::collect;
use pubsub::deliver;
use pubsub::broadcast::Receiver;
use pubsub::broadcast::Sender;
use pubsub::poll::Async;
use pubsub::poll::AsyncSink;
use pubsub::shared::Shared;

fn send(tx: &mut Sender<u32>, item: u32) -> AsyncSink<u32> {
    match tx.start_send(item) {
        Ok(answer) => answer,
        Err(error) => panic!("send failed with {:?}", error),
    }
}

fn receive(rx: &mut Receiver<u32>) -> Async<Option<u32>> {
    match rx.poll() {
        Ok(answer) => answer,
        Err(_) => unreachable!(),
    }
}

#[test]
fn single_consumer_receives_in_send_order() {
    let (mut tx, mut rx) = channel::<u32>(8);
    for item in 1..=5 {
        assert_eq!(send(&mut tx, item), AsyncSink::Ready);
    }
    for item in 1..=5 {
        assert_eq!(receive(&mut rx), Async::Ready(Some(item)));
    }
    assert_eq!(receive(&mut rx), Async::NotReady);
}

#[test]
fn two_consumers_taking_turns_each_receive_every_item() {
    let (mut tx, mut first) = channel::<u32>(4);
    let mut second = first.clone();
    for item in [10, 20, 30] {
        assert_eq!(send(&mut tx, item), AsyncSink::Ready);
    }
    let mut seen_by_first = Vec::new();
    let mut seen_by_second = Vec::new();
    for _ in 0..3 {
        if let Async::Ready(Some(item)) = receive(&mut first) {
            seen_by_first.push(item);
        }
        if let Async::Ready(Some(item)) = receive(&mut second) {
            seen_by_second.push(item);
        }
    }
    assert_eq!(seen_by_first, vec![10, 20, 30]);
    assert_eq!(seen_by_second, vec![10, 20, 30]);
    assert_eq!(receive(&mut first), Async::NotReady);
    assert_eq!(receive(&mut second), Async::NotReady);
}

#[test]
fn second_send_waits_until_a_receive_frees_the_slot() {
    let (mut tx, mut rx) = channel::<u32>(1);
    assert_eq!(send(&mut tx, 1), AsyncSink::Ready);
    assert_eq!(send(&mut tx, 2), AsyncSink::NotReady(2));
    assert_eq!(send(&mut tx, 2), AsyncSink::NotReady(2));
    assert_eq!(receive(&mut rx), Async::Ready(Some(1)));
    assert_eq!(send(&mut tx, 2), AsyncSink::Ready);
    assert_eq!(receive(&mut rx), Async::Ready(Some(2)));
}

#[test]
fn zero_capacity_never_accepts() {
    let (mut tx, mut rx) = channel::<u32>(0);
    for _ in 0..4 {
        assert_eq!(send(&mut tx, 7), AsyncSink::NotReady(7));
        assert_eq!(receive(&mut rx), Async::NotReady);
    }
}

#[test]
fn consumer_cloned_after_the_send_must_read_the_item_too() {
    let (mut tx, mut early) = channel::<u32>(2);
    assert_eq!(send(&mut tx, 5), AsyncSink::Ready);
    let mut late = early.clone();
    assert_eq!(receive(&mut early), Async::Ready(Some(5)));
    assert_eq!(send(&mut tx, 6), AsyncSink::Ready);
    assert_eq!(send(&mut tx, 7), AsyncSink::NotReady(7));
    assert_eq!(receive(&mut late), Async::Ready(Some(5)));
    assert_eq!(send(&mut tx, 7), AsyncSink::Ready);
}

#[test]
fn send_fails_with_the_item_once_every_receiver_is_gone() {
    let (mut tx, rx) = channel::<u32>(2);
    let other = rx.clone();
    drop(rx);
    assert_eq!(send(&mut tx, 1), AsyncSink::Ready);
    drop(other);
    match tx.start_send(9) {
        Err(error) => assert_eq!(error.0, 9),
        Ok(_) => panic!("a send without receivers went through"),
    }
    let mut cloned = tx.clone();
    match cloned.start_send(11) {
        Err(error) => assert_eq!(error.0, 11),
        Ok(_) => panic!("a send without receivers went through"),
    }
}

#[test]
fn stream_ends_for_good_once_every_sender_is_gone() {
    let (mut tx, mut rx) = channel::<u32>(2);
    let spare = tx.clone();
    assert_eq!(send(&mut tx, 1), AsyncSink::Ready);
    drop(tx);
    assert_eq!(receive(&mut rx), Async::Ready(Some(1)));
    drop(spare);
    for _ in 0..3 {
        assert_eq!(receive(&mut rx), Async::Ready(None));
    }
    let mut cloned = rx.clone();
    assert_eq!(receive(&mut cloned), Async::Ready(None));
}

#[test]
fn items_still_queued_are_dropped_when_the_stream_ends() {
    let (mut tx, mut rx) = channel::<u32>(2);
    assert_eq!(send(&mut tx, 1), AsyncSink::Ready);
    assert_eq!(send(&mut tx, 2), AsyncSink::Ready);
    drop(tx);
    assert_eq!(receive(&mut rx), Async::Ready(None));
    assert_eq!(receive(&mut rx), Async::Ready(None));
}

#[test]
fn flush_and_close_are_always_done() {
    let (mut tx, rx) = channel::<u32>(0);
    assert_eq!(tx.poll_complete().unwrap(), Async::Ready(()));
    assert_eq!(tx.close().unwrap(), Async::Ready(()));
    drop(rx);
    assert_eq!(tx.poll_complete().unwrap(), Async::Ready(()));
    assert_eq!(tx.close().unwrap(), Async::Ready(()));
}

#[test]
fn consumer_that_reads_twice_in_a_row_takes_the_read_of_the_other() {
    let (mut tx, mut first) = channel::<u32>(4);
    let mut second = first.clone();
    assert_eq!(send(&mut tx, 1), AsyncSink::Ready);
    assert_eq!(send(&mut tx, 2), AsyncSink::Ready);
    assert_eq!(receive(&mut first), Async::Ready(Some(1)));
    assert_eq!(receive(&mut first), Async::Ready(Some(1)));
    assert_eq!(receive(&mut second), Async::Ready(Some(2)));
    assert_eq!(receive(&mut first), Async::Ready(Some(2)));
    assert_eq!(receive(&mut second), Async::NotReady);
}

#[test]
fn dropped_consumer_no_longer_owes_a_read() {
    let (mut tx, mut first) = channel::<u32>(1);
    let second = first.clone();
    assert_eq!(send(&mut tx, 1), AsyncSink::Ready);
    drop(second);
    assert_eq!(receive(&mut first), Async::Ready(Some(1)));
    assert_eq!(send(&mut tx, 2), AsyncSink::Ready);
}

#[test]
fn cloned_sender_sends_on_the_same_channel() {
    let (mut tx, mut rx) = channel::<u32>(2);
    let mut other = tx.clone();
    assert_eq!(send(&mut tx, 1), AsyncSink::Ready);
    assert_eq!(send(&mut other, 2), AsyncSink::Ready);
    assert_eq!(send(&mut tx, 3), AsyncSink::NotReady(3));
    assert_eq!(receive(&mut rx), Async::Ready(Some(1)));
    assert_eq!(receive(&mut rx), Async::Ready(Some(2)));
}

#[test]
fn stream_goes_on_while_one_sender_is_left() {
    let (tx, mut rx) = channel::<u32>(2);
    let mut other = tx.clone();
    drop(tx);
    assert_eq!(receive(&mut rx), Async::NotReady);
    assert_eq!(send(&mut other, 1), AsyncSink::Ready);
    assert_eq!(receive(&mut rx), Async::Ready(Some(1)));
}

#[test]
fn deliver_without_a_target_fails_with_the_item() {
    match deliver::<u32>(None, 4) {
        Err(error) => assert_eq!(error.0, 4),
        Ok(_) => panic!("a send without a target went through"),
    }
}

#[test]
fn deliver_with_a_target_sends_to_it() {
    let state = Rc::new(RefCell::new(Shared::<u32>::new(1)));
    assert_eq!(deliver(Some(state.clone()), 4).unwrap(), AsyncSink::Ready);
    assert_eq!(state.borrow().len(), 1);
    assert_eq!(deliver(Some(state.clone()), 5).unwrap(), AsyncSink::NotReady(5));
    assert_eq!(state.borrow().len(), 1);
    assert_eq!(state.borrow_mut().poll(1, 1), Async::Ready(Some(4)));
}

#[test]
fn flush_and_close_leave_the_sender_alive() {
    let (mut tx, mut rx) = channel::<u32>(2);
    assert_eq!(tx.close().unwrap(), Async::Ready(()));
    assert_eq!(tx.poll_complete().unwrap(), Async::Ready(()));
    assert_eq!(receive(&mut rx), Async::NotReady);
    assert_eq!(send(&mut tx, 1), AsyncSink::Ready);
    assert_eq!(receive(&mut rx), Async::Ready(Some(1)));
}

#[test]
fn deliver_to_a_borrowed_state_hands_the_item_back() {
    let state = Rc::new(RefCell::new(Shared::<u32>::new(1)));
    let guard = state.borrow_mut();
    assert_eq!(deliver(Some(state.clone()), 4).unwrap(), AsyncSink::NotReady(4));
    drop(guard);
    assert_eq!(state.borrow().len(), 0);
    assert_eq!(deliver(Some(state.clone()), 4).unwrap(), AsyncSink::Ready);
}

#[test]
fn collect_from_a_borrowed_state_is_not_ready() {
    let state = Rc::new(RefCell::new(Shared::<u32>::new(1)));
    assert_eq!(deliver(Some(state.clone()), 4).unwrap(), AsyncSink::Ready);
    let guard = state.borrow_mut();
    assert_eq!(collect(&state, 1, 1).unwrap(), Async::NotReady);
    assert_eq!(collect(&state, 0, 1).unwrap(), Async::Ready(None));
    drop(guard);
    assert_eq!(state.borrow().len(), 1);
    assert_eq!(collect(&state, 1, 1).unwrap(), Async::Ready(Some(4)));
}

#[test]
fn collect_without_producers_ends_the_stream() {
    let state = Rc::new(RefCell::new(Shared::<u32>::new(1)));
    assert_eq!(deliver(Some(state.clone()), 4).unwrap(), AsyncSink::Ready);
    assert_eq!(collect(&state, 0, 1).unwrap(), Async::Ready(None));
    assert_eq!(collect(&state, 0, 1).unwrap(), Async::Ready(None));
    assert_eq!(state.borrow().len(), 1);
}

/// An item whose clone goes back to the channel that it is read from.
struct Probe {
    tx: Rc<RefCell<Option<Sender<Probe>>>>,
    rx: Rc<RefCell<Option<Receiver<Probe>>>>,
    sends: Rc<RefCell<Vec<bool>>>,
    receives: Rc<RefCell<Vec<bool>>>,
}

impl Clone for Probe {
    fn clone(&self) -> Self {
        let copy = Probe {
            tx: self.tx.clone(),
            rx: self.rx.clone(),
            sends: self.sends.clone(),
            receives: self.receives.clone(),
        };
        if let Some(rx) = self.rx.borrow_mut().as_mut() {
            let not_ready = matches!(rx.poll(), Ok(Async::NotReady));
            self.receives.borrow_mut().push(not_ready);
        }
        let sender = self.tx.borrow_mut().take();
        if let Some(mut tx) = sender {
            let handed_back = matches!(tx.start_send(copy), Ok(AsyncSink::NotReady(_)));
            self.sends.borrow_mut().push(handed_back);
        }
        Probe {
            tx: self.tx.clone(),
            rx: self.rx.clone(),
            sends: self.sends.clone(),
            receives: self.receives.clone(),
        }
    }
}

#[test]
fn send_and_receive_made_while_an_item_is_cloned_touch_nothing() {
    let (mut tx, mut first) = channel::<Probe>(4);
    let probe = Probe {
        tx: Rc::new(RefCell::new(Some(tx.clone()))),
        rx: Rc::new(RefCell::new(Some(first.clone()))),
        sends: Rc::new(RefCell::new(Vec::new())),
        receives: Rc::new(RefCell::new(Vec::new())),
    };
    let (sends, receives) = (probe.sends.clone(), probe.receives.clone());
    assert!(matches!(tx.start_send(probe), Ok(AsyncSink::Ready)));
    // Two receivers are alive, so this read hands out a clone.
    assert!(matches!(first.poll(), Ok(Async::Ready(Some(_)))));
    assert_eq!(*receives.borrow(), vec![true]);
    assert_eq!(*sends.borrow(), vec![true]);
    // The queue still holds the one item, read once; the next read is its last.
    assert!(matches!(first.poll(), Ok(Async::Ready(Some(_)))));
    assert!(matches!(first.poll(), Ok(Async::NotReady)));
}
