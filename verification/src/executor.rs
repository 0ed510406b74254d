//! Running a task to its end, together with the reactor.

use vstd::prelude::*;

verus! {

/// What has happened in the main loop.
#[derive(Debug, PartialEq, Eq)]
pub enum Happened<T> {
    /// All the tasks that can make progress have made it; the main one has left
    /// its output, or has not come to its end yet.
    Stalled(Option<T>),
    /// The reactor has waited for events, and has dispatched them.
    Dispatched,
}

/// What the main loop is to do next.
#[derive(Debug, PartialEq, Eq)]
pub enum Todo<T> {
    /// Let the tasks make progress.
    RunTasks,
    /// Block waiting for I/O.
    Dispatch,
    /// Return that output.
    Return(T),
}

/// What is to be done after that has happened: the output is returned as soon as
/// there is one, and I/O is waited for only when no task can make progress.
pub open spec fn spec_run<T>(happened: Happened<T>) -> Todo<T> {
    match happened {
        Happened::Stalled(Some(output)) => Todo::Return(output),
        Happened::Stalled(None) => Todo::Dispatch,
        Happened::Dispatched => Todo::RunTasks,
    }
}

/// Takes what has happened in the main loop, and returns what to do next.
pub fn run<T>(happened: Happened<T>) -> (todo: Todo<T>)
    ensures
        todo == spec_run(happened),
{
    match happened {
        Happened::Stalled(Some(output)) => Todo::Return(output),
        Happened::Stalled(None) => Todo::Dispatch,
        Happened::Dispatched => Todo::RunTasks,
    }
}

} // verus!
