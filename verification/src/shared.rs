//! The state that the handles of one channel share, and the two operations on
//! it.

use vstd::prelude::*;
use std::collections::VecDeque;
use futures::task::Task;
use crate::poll::Async;
use crate::poll::AsyncSink;
use crate::queue::Queue;
use crate::queue::Slot;
use crate::task::park;
use crate::task::wake_all;

verus! {

/// A queued value with the number of reads it has served.
#[derive(Debug)]
struct Bucket<T> {
    data: T,
    view_count: usize,
}

/// The bounded buffer of a channel and the tasks parked on it.
#[derive(Debug)]
pub struct Shared<T: Clone> {
    queue: VecDeque<Bucket<T>>,
    capacity: usize,
    tx_blocked: VecDeque<Task>,
    rx_blocked: VecDeque<Task>,
}

/// What a `Shared` stands for: its queue, and the tasks parked on either side,
/// longest-waiting first.
pub struct State<T> {
    pub queue: Queue<T>,
    pub tx_blocked: Seq<Task>,
    pub rx_blocked: Seq<Task>,
}

impl<T> View for Bucket<T> {
    type V = Slot<T>;

    closed spec fn view(&self) -> Slot<T> {
        Slot { value: self.data, seen: self.view_count as nat }
    }
}

impl<T> Bucket<T> {
    fn new(data: T) -> (bucket: Self)
        ensures
            bucket@ == Slot::fresh(data),
    {
        Bucket { data, view_count: 0 }
    }
}

impl<T: Clone> View for Shared<T> {
    type V = State<T>;

    closed spec fn view(&self) -> State<T> {
        State {
            queue: Queue {
                slots: self.queue@.map_values(|b: Bucket<T>| b@),
                capacity: self.capacity as nat,
            },
            tx_blocked: self.tx_blocked@,
            rx_blocked: self.rx_blocked@,
        }
    }
}

impl<T: Clone> Shared<T> {
    /// An empty queue that holds up to `capacity` slots, with nobody parked.
    pub fn new(capacity: usize) -> (shared: Self)
        ensures
            shared@.queue == Queue::<T>::empty(capacity as nat),
            shared@.tx_blocked == Seq::<Task>::empty(),
            shared@.rx_blocked == Seq::<Task>::empty(),
    {
        let shared = Shared {
            queue: VecDeque::new(),
            capacity,
            tx_blocked: VecDeque::new(),
            rx_blocked: VecDeque::new(),
        };
        assert(shared@.queue.slots =~= Seq::<Slot<T>>::empty());
        shared
    }

    /// The bound on the number of queued slots.
    pub fn capacity(&self) -> (capacity: usize)
        ensures
            capacity == self@.queue.capacity,
    {
        self.capacity
    }

    /// The number of queued slots.
    pub fn len(&self) -> (len: usize)
        ensures
            len == self@.queue.slots.len(),
    {
        self.queue.len()
    }

    /// Tries to queue `item`.
    ///
    /// With room left, `item` goes to the back of the queue as a fresh slot,
    /// every parked receiver is woken and forgotten, and the answer is `Ready`.
    /// On a full queue nothing is queued: the caller's task is parked with the
    /// senders and `item` comes back in `NotReady`.
    pub fn start_send(&mut self, item: T) -> (answer: AsyncSink<T>)
        ensures
            answer == old(self)@.queue.send_outcome(item),
            final(self)@.queue == old(self)@.queue.send(item),
            old(self)@.queue.is_full() ==> {
                &&& final(self)@.rx_blocked == old(self)@.rx_blocked
                &&& old(self)@.tx_blocked.is_prefix_of(final(self)@.tx_blocked)
                &&& final(self)@.tx_blocked.len() <= old(self)@.tx_blocked.len() + 1
            },
            !old(self)@.queue.is_full() ==> {
                &&& final(self)@.rx_blocked == Seq::<Task>::empty()
                &&& final(self)@.tx_blocked == old(self)@.tx_blocked
            },
    {
        if self.queue.len() >= self.capacity {
            park(&mut self.tx_blocked);
            AsyncSink::NotReady(item)
        } else {
            self.queue.push_back(Bucket::new(item));
            wake_all(&mut self.rx_blocked);
            assert(self@.queue.slots =~= old(self)@.queue.slots.push(Slot::fresh(item)));
            AsyncSink::Ready
        }
    }

    /// Tries to take the next value, with `producers` sender handles and
    /// `consumers` receiver handles alive.
    ///
    /// With no producer left the stream has ended, whatever is still queued:
    /// the answer is `Ready(None)` and nothing changes. On an empty queue the
    /// caller's task is parked with the receivers and the answer is
    /// `NotReady`. Otherwise the front slot is read once more. While it still
    /// owes a read to another consumer it stays at the front and the answer
    /// holds a clone of its value; on its last read it leaves the queue, every
    /// parked sender is woken and forgotten, and the answer holds the value
    /// itself.
    pub fn poll(&mut self, producers: usize, consumers: usize) -> (answer: Async<Option<T>>)
        ensures
            old(self)@.queue.receive_answers(producers as nat, consumers as nat, answer),
            final(self)@.queue == old(self)@.queue.receive(producers as nat, consumers as nat),
            producers == 0 ==> final(self)@ == old(self)@,
            answer is NotReady ==> {
                &&& final(self)@.tx_blocked == old(self)@.tx_blocked
                &&& old(self)@.rx_blocked.is_prefix_of(final(self)@.rx_blocked)
                &&& final(self)@.rx_blocked.len() <= old(self)@.rx_blocked.len() + 1
            },
            answer is Ready ==> final(self)@.rx_blocked == old(self)@.rx_blocked,
            old(self)@.queue.serves(producers as nat) ==> final(self)@.tx_blocked == (
            if old(self)@.queue.front_read_is_last(consumers as nat) {
                Seq::<Task>::empty()
            } else {
                old(self)@.tx_blocked
            }),
    {
        if producers == 0 {
            return Async::Ready(None);
        }
        match self.queue.pop_front() {
            None => {
                park(&mut self.rx_blocked);
                assert(self@.queue.slots =~= old(self)@.queue.slots);
                Async::NotReady
            },
            Some(mut bucket) => {
                if consumers >= 2 && bucket.view_count < consumers - 1 {
                    bucket.view_count = bucket.view_count + 1;
                    let copy = bucket.data.clone();
                    self.queue.push_front(bucket);
                    assert(self@.queue.slots =~= old(self)@.queue.slots.update(
                        0,
                        old(self)@.queue.slots[0].read_once_more(),
                    ));
                    Async::Ready(Some(copy))
                } else {
                    wake_all(&mut self.tx_blocked);
                    assert(self@.queue.slots =~= old(self)@.queue.slots.drop_first());
                    Async::Ready(Some(bucket.data))
                }
            },
        }
    }
}

} // verus!
