//! Parked tasks: who waits on a channel, and how they are woken.
//!
//! The channel never blocks a thread. An attempt that cannot go on records the
//! task that made it and answers `NotReady`; a later change wakes every task
//! recorded for it, and each woken task tries again.

use vstd::prelude::*;
use std::collections::VecDeque;
use futures::task::Task;

verus! {

/// `futures::task::Task`, a handle by which a task is woken. Nothing is known
/// of what it holds.
#[verifier::external_type_specification]
#[verifier::external_body]
pub struct ExTask(Task);

/// Whether the caller runs inside a task (`futures::task::is_in_task`). The
/// answer depends on where the call is made, so nothing is claimed of it.
#[verifier::external_body]
fn in_task() -> bool {
    futures::task::is_in_task()
}

/// A handle to the running task (`futures::task::current`). Nothing is claimed
/// of the handle. Outside a task the call panics: make it only after
/// `in_task` has answered `true`.
#[verifier::external_body]
fn current_task() -> Task {
    futures::task::current()
}

/// Tells `task` to try again (`Task::notify`). The effect is on the executor
/// that runs the task; nothing is claimed of it.
#[verifier::external_body]
fn notify(task: &Task) {
    task.notify()
}

/// Records the calling task at the back of `waiters`, where there is one: a
/// caller outside any task has nothing to be woken and leaves `waiters` as it
/// is. Whether there is a calling task is for the executor to say; what is
/// recorded for each answer is what `record` states.
pub(crate) fn park(waiters: &mut VecDeque<Task>)
    ensures
        old(waiters)@.is_prefix_of(final(waiters)@),
        final(waiters)@.len() <= old(waiters)@.len() + 1,
{
    record(waiters, calling_task());
}

/// Wakes every task in `waiters`, oldest first, and forgets them all.
pub(crate) fn wake_all(waiters: &mut VecDeque<Task>)
    ensures
        final(waiters)@ == Seq::<Task>::empty(),
{
    loop
        ensures
            waiters@.len() == 0,
        decreases waiters@.len(),
    {
        match waiters.pop_front() {
            Some(task) => notify(&task),
            None => break,
        }
    }
}

/// The task that makes the call, or `None` for a caller outside any task.
fn calling_task() -> Option<Task> {
    if in_task() {
        Some(current_task())
    } else {
        None
    }
}

/// Puts `caller`, where there is one, at the back of `waiters`, behind the
/// tasks that have waited longer.
pub fn record(waiters: &mut VecDeque<Task>, caller: Option<Task>)
    ensures
        final(waiters)@ == match caller {
            Some(task) => old(waiters)@.push(task),
            None => old(waiters)@,
        },
{
    match caller {
        Some(task) => waiters.push_back(task),
        None => {},
    }
}

} // verus!
