//! The handles of a broadcast channel.
//!
//! A channel is made by [`channel`] and lives as long as one of its receivers
//! does. Receivers own the shared state; senders only point to it, and find
//! out that it is gone when they try to send. Each handle may be cloned. All
//! handles of a channel belong to one thread.

use vstd::prelude::*;
use std::cell::RefCell;
use std::cell::RefMut;
use std::convert::Infallible;
use std::rc::Rc;
use std::rc::Weak;
use crate::poll::Async;
use crate::poll::AsyncSink;
use crate::shared::Shared;

verus! {

/// `std::cell::RefCell`. Its content changes behind shared references, so
/// nothing is known of it but through a borrow.
#[verifier::external_type_specification]
#[verifier::external_body]
#[verifier::reject_recursive_types(T)]
pub struct ExRefCell<T: ?Sized>(RefCell<T>);

/// `std::cell::RefMut`, the guard of a mutable borrow of a `RefCell`.
#[verifier::external_type_specification]
#[verifier::external_body]
#[verifier::reject_recursive_types(T)]
pub struct ExRefMut<'b, T: ?Sized + 'b>(RefMut<'b, T>);

/// The sending side of a channel: a `std::rc::Weak` pointer to the shared
/// state, which does not keep it alive.
#[verifier::external_body]
#[verifier::reject_recursive_types(T)]
#[derive(Debug)]
pub struct Sender<T: Clone>(Weak<RefCell<Shared<T>>>);

/// The receiving side of a channel: one owner of the shared state.
#[verifier::reject_recursive_types(T)]
#[derive(Debug, Clone)]
pub struct Receiver<T: Clone>(Rc<RefCell<Shared<T>>>);

/// A send that found no receiver left. It holds the item that was not sent.
#[derive(Debug)]
pub struct SendError<T>(pub T);

/// The error of a receive. There is no value of this type: a receive never
/// fails.
#[derive(Debug)]
pub struct ReceiveError(Infallible);

/// Puts `shared` into a new cell (`RefCell::new`).
#[verifier::external_body]
fn new_cell<T: Clone>(shared: Shared<T>) -> RefCell<Shared<T>> {
    RefCell::new(shared)
}

/// A sender for the state that `state` owns (`Rc::downgrade`).
#[verifier::external_body]
fn downgrade<T: Clone>(state: &Rc<RefCell<Shared<T>>>) -> Sender<T> {
    Sender(Rc::downgrade(state))
}

/// The state that `sender` points to, or `None` once its last owner is gone
/// (`Weak::upgrade`). Which of the two depends on the other handles, so
/// nothing is claimed of the answer.
#[verifier::external_body]
fn upgrade<T: Clone>(sender: &Sender<T>) -> Option<Rc<RefCell<Shared<T>>>> {
    sender.0.upgrade()
}

/// The number of owners of `state` (`Rc::strong_count`): the receivers alive.
/// It depends on the other handles, so nothing is claimed of it.
#[verifier::external_body]
fn strong_count<T: Clone>(state: &Rc<RefCell<Shared<T>>>) -> usize {
    Rc::strong_count(state)
}

/// The number of `Weak` pointers to `state` (`Rc::weak_count`): the senders
/// alive. It depends on the other handles, so nothing is claimed of it.
#[verifier::external_body]
fn weak_count<T: Clone>(state: &Rc<RefCell<Shared<T>>>) -> usize {
    Rc::weak_count(state)
}

/// Borrows the content of `cell` mutably, or gives `None` while another
/// borrow of the cell is alive (`RefCell::try_borrow_mut`, its error turned
/// into `None`). Whether the cell is borrowed depends on who else holds it,
/// so nothing is claimed of the answer.
#[verifier::external_body]
fn try_borrow_mut<'a, T: Clone>(cell: &'a RefCell<Shared<T>>) -> Option<RefMut<'a, Shared<T>>> {
    cell.try_borrow_mut().ok()
}

/// The state behind a borrow (`DerefMut::deref_mut` of `RefMut`). What it
/// holds is what the handles of the channel left there, so nothing is claimed
/// of it.
#[verifier::external_body]
fn state_mut<'a, 'b, T: Clone>(guard: &'a mut RefMut<'b, Shared<T>>) -> &'a mut Shared<T> {
    &mut *guard
}

/// A new channel whose queue holds up to `capacity` items: its first sender
/// and its first receiver.
pub fn channel<T: Clone>(capacity: usize) -> (Sender<T>, Receiver<T>) {
    let shared = Rc::new(new_cell(Shared::new(capacity)));
    (downgrade(&shared), Receiver(shared))
}

/// Whether `answer` hands `item` back wherever it did not take it.
pub open spec fn keeps_item<T>(answer: Result<AsyncSink<T>, SendError<T>>, item: T) -> bool {
    match answer {
        Ok(AsyncSink::Ready) => true,
        Ok(AsyncSink::NotReady(back)) => back == item,
        Err(SendError(back)) => back == item,
    }
}

/// Sends `item` to the state that a sender found, if it found one.
///
/// Without a target no receiver is left: the send fails and the error holds
/// `item`. With one, the answer is that of [`Shared::start_send`] on the
/// state behind it. While that state is in use, by a caller who has borrowed
/// it or by a send or receive that this call was made from, nothing is
/// touched and `item` comes back in `NotReady`.
pub fn deliver<T: Clone>(target: Option<Rc<RefCell<Shared<T>>>>, item: T) -> (answer: Result<
    AsyncSink<T>,
    SendError<T>,
>)
    ensures
        target is None <==> answer is Err,
        target is None ==> answer == Err::<AsyncSink<T>, SendError<T>>(SendError(item)),
        keeps_item(answer, item),
{
    match target {
        None => Err(SendError(item)),
        Some(state) => match try_borrow_mut(&state) {
            None => Ok(AsyncSink::NotReady(item)),
            Some(mut guard) => {
                let shared = state_mut(&mut guard);
                Ok(shared.start_send(item))
            },
        },
    }
}

/// Receives from `state`, which `producers` senders point to and `consumers`
/// receivers own.
///
/// Never fails. The answer is `Ready(None)`, the end of the stream, if and
/// only if no producer is left, whatever the state holds. While one is left
/// the answer is that of [`Shared::poll`] on the state; and while the state
/// is in use, by a caller who has borrowed it or by a send or receive that
/// this call was made from, nothing is touched and the answer is `NotReady`.
pub fn collect<T: Clone>(state: &Rc<RefCell<Shared<T>>>, producers: usize, consumers: usize) -> (answer:
    Result<Async<Option<T>>, ReceiveError>)
    ensures
        answer is Ok,
        producers == 0 <==> answer == Ok::<Async<Option<T>>, ReceiveError>(Async::Ready(None)),
{
    if producers == 0 {
        return Ok(Async::Ready(None));
    }
    match try_borrow_mut(state) {
        None => Ok(Async::NotReady),
        Some(mut guard) => {
            let shared = state_mut(&mut guard);
            Ok(shared.poll(producers, consumers))
        },
    }
}

impl<T: Clone> Clone for Sender<T> {
    /// Another sender for the same channel (`Weak::clone`). It changes
    /// nothing in the queue.
    #[verifier::external_body]
    fn clone(&self) -> Self {
        Sender(self.0.clone())
    }
}

impl<T: Clone> Sender<T> {
    /// Tries to send `item` to every receiver of the channel.
    ///
    /// Answers as [`deliver`] does on what the sender points to: it fails,
    /// with `item` in the error, once no receiver is left; else the answer is
    /// `Ready` when `item` was queued and `NotReady` with `item` when it was
    /// not. The sender itself is left as it was.
    pub fn start_send(&mut self, item: T) -> (answer: Result<AsyncSink<T>, SendError<T>>)
        ensures
            keeps_item(answer, item),
            *final(self) == *old(self),
    {
        deliver(upgrade(self), item)
    }

    /// Nothing is buffered outside the queue, so there is never anything to
    /// flush: the answer is `Ready` and the sender is left as it was.
    pub fn poll_complete(&mut self) -> (answer: Result<Async<()>, SendError<T>>)
        ensures
            answer == Ok::<Async<()>, SendError<T>>(Async::Ready(())),
            *final(self) == *old(self),
    {
        Ok(Async::Ready(()))
    }

    /// Closing a sender takes no work either: the answer is `Ready` and the
    /// sender is left as it was, alive and able to send.
    pub fn close(&mut self) -> (answer: Result<Async<()>, SendError<T>>)
        ensures
            answer == Ok::<Async<()>, SendError<T>>(Async::Ready(())),
            *final(self) == *old(self),
    {
        Ok(Async::Ready(()))
    }
}

impl<T: Clone> Receiver<T> {
    /// Tries to take the next item.
    ///
    /// Never fails. Answers as [`collect`] does on the channel's state, with
    /// the senders and receivers that are alive now. The receiver itself is
    /// left as it was.
    pub fn poll(&mut self) -> (answer: Result<Async<Option<T>>, ReceiveError>)
        ensures
            answer is Ok,
            *final(self) == *old(self),
    {
        let producers = weak_count(&self.0);
        let consumers = strong_count(&self.0);
        collect(&self.0, producers, consumers)
    }
}

} // verus!
