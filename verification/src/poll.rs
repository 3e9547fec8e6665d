//! Outcomes of a non-blocking attempt.

use vstd::prelude::*;

verus! {

/// What an attempt to take a value gave.
#[derive(Copy, Clone, Debug, PartialEq)]
pub enum Async<T> {
    /// The value is there.
    Ready(T),
    /// Nothing yet: the caller tries again once it has been notified.
    NotReady,
}

/// What an attempt to hand a value over gave.
#[derive(Copy, Clone, Debug, PartialEq)]
pub enum AsyncSink<T> {
    /// The value was taken.
    Ready,
    /// There was no room: the value comes back to the caller, who tries again
    /// with it once it has been notified.
    NotReady(T),
}

} // verus!
