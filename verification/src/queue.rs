//! The mathematical model of the broadcast queue.
//!
//! A queue is a sequence of slots, oldest first, and a capacity. A slot holds
//! one value and the number of reads it has served so far. Sending and
//! receiving are functions from queue to queue; what an attempt answers is a
//! function of the queue it met.

use vstd::prelude::*;
use crate::poll::Async;
use crate::poll::AsyncSink;

verus! {

/// One queued value and how many consumers have read it.
pub struct Slot<T> {
    pub value: T,
    pub seen: nat,
}

/// The slots in delivery order, front first, and the bound on their number.
pub struct Queue<T> {
    pub slots: Seq<Slot<T>>,
    pub capacity: nat,
}

impl<T> Slot<T> {
    /// A slot that nobody has read yet.
    pub open spec fn fresh(value: T) -> Self {
        Slot { value, seen: 0 }
    }

    /// The same value, read once more.
    pub open spec fn read_once_more(self) -> Self {
        Slot { value: self.value, seen: self.seen + 1 }
    }
}

impl<T> Queue<T> {
    /// The queue of a new channel.
    pub open spec fn empty(capacity: nat) -> Self {
        Queue { slots: Seq::empty(), capacity }
    }

    /// The queue holds no more slots than its capacity allows.
    pub open spec fn within_capacity(self) -> bool {
        self.slots.len() <= self.capacity
    }

    /// There is no room for another slot.
    pub open spec fn is_full(self) -> bool {
        self.slots.len() >= self.capacity
    }

    /// The queued values, front first.
    pub open spec fn values(self) -> Seq<T> {
        self.slots.map_values(|s: Slot<T>| s.value)
    }

    /// Only the front slot may have been read: the slots behind it wait
    /// untouched.
    pub open spec fn unread_behind_front(self) -> bool {
        forall|i: int| 0 < i < self.slots.len() ==> (#[trigger] self.slots[i]).seen == 0
    }

    /// The queue after an attempt to send `item`: unchanged when full, else
    /// with a fresh slot at the back.
    pub open spec fn send(self, item: T) -> Self {
        if self.is_full() {
            self
        } else {
            Queue { slots: self.slots.push(Slot::fresh(item)), capacity: self.capacity }
        }
    }

    /// What an attempt to send `item` answers.
    pub open spec fn send_outcome(self, item: T) -> AsyncSink<T> {
        if self.is_full() {
            AsyncSink::NotReady(item)
        } else {
            AsyncSink::Ready
        }
    }

    /// A receive finds a slot to read: some producer is left and the queue is
    /// not empty.
    pub open spec fn serves(self, producers: nat) -> bool {
        producers > 0 && self.slots.len() > 0
    }

    /// The read that a receive makes now is the last one that the front slot
    /// owes, given how many consumers are alive.
    pub open spec fn front_read_is_last(self, consumers: nat) -> bool {
        self.slots[0].seen + 1 >= consumers
    }

    /// The queue after a receive, with `producers` and `consumers` handles
    /// alive: unchanged when the stream has ended or nothing is queued; else
    /// the front slot is read once more, and leaves if that read was its last.
    pub open spec fn receive(self, producers: nat, consumers: nat) -> Self {
        if !self.serves(producers) {
            self
        } else if self.front_read_is_last(consumers) {
            Queue { slots: self.slots.drop_first(), capacity: self.capacity }
        } else {
            Queue {
                slots: self.slots.update(0, self.slots[0].read_once_more()),
                capacity: self.capacity,
            }
        }
    }
}

impl<T: Clone> Queue<T> {
    /// Whether `answer` is what a receive may answer on this queue: the end of
    /// the stream when no producer is left, `NotReady` on an empty queue, else
    /// the front value: itself on its last read, a clone of it before.
    pub open spec fn receive_answers(self, producers: nat, consumers: nat, answer: Async<Option<T>>) -> bool {
        if producers == 0 {
            answer == Async::Ready(None::<T>)
        } else if self.slots.len() == 0 {
            answer == Async::<Option<T>>::NotReady
        } else if self.front_read_is_last(consumers) {
            answer == Async::Ready(Some(self.slots[0].value))
        } else {
            answer matches Async::Ready(Some(v)) && cloned(self.slots[0].value, v)
        }
    }
}

} // verus!
