//! The life of one task that runs beside its caller: running, finished,
//! joined.
//!
//! A [`WorkerHandle`] is made when a task is handed to whatever executes it.
//! The executor reports how the task ended with [`WorkerHandle::finish`], and
//! the caller collects the result with [`WorkerHandle::join`], once. The
//! handle never runs anything itself.

use crate::blocking::Blocking;
use crate::error::Error;
use vstd::prelude::*;

verus! {

/// How a task ended.
#[derive(Debug, PartialEq, Eq)]
pub enum Outcome<R> {
    /// The task ran to its end and returned this value.
    Returned(R),
    /// The task ended abnormally.
    Panicked,
}

/// Where a task is in its life. This is also the mathematical picture of a
/// [`WorkerHandle`].
#[derive(Debug, PartialEq, Eq)]
pub enum WorkerState<R> {
    /// The task has been started and has not ended yet.
    Running,
    /// The task has ended; its outcome waits to be collected.
    Finished(Outcome<R>),
    /// The outcome has been collected.
    Joined,
}

impl<R> WorkerState<R> {
    /// The state after the executor has reported `outcome`. A task ends
    /// once: a report for a task that is not running changes nothing.
    pub open spec fn finish(self, outcome: Outcome<R>) -> Self {
        match self {
            WorkerState::Running => WorkerState::Finished(outcome),
            _ => self,
        }
    }

    /// What a join reports in this state.
    pub open spec fn join_result(self) -> Blocking<Result<R, Error>> {
        match self {
            WorkerState::Running => Blocking::WouldBlock,
            WorkerState::Finished(Outcome::Returned(value)) => Blocking::Ready(Ok(value)),
            WorkerState::Finished(Outcome::Panicked) => Blocking::Ready(Err(Error::TaskPanicked)),
            WorkerState::Joined => Blocking::Ready(Err(Error::DoubleJoin)),
        }
    }

    /// The state after a join: a running task keeps running, any other ends
    /// up joined.
    pub open spec fn join(self) -> Self {
        match self {
            WorkerState::Running => WorkerState::Running,
            _ => WorkerState::Joined,
        }
    }
}

/// The stage of a task's life, without its result.
#[derive(Clone, Copy, Debug, PartialEq, Eq, Structural)]
pub enum Stage {
    /// The task has not ended yet.
    Running,
    /// The task has ended and has not been joined.
    Finished,
    /// The task has been joined.
    Joined,
}

/// The caller's end of one task.
pub struct WorkerHandle<R> {
    outcome: Option<Outcome<R>>,
    joined: bool,
}

impl<R> View for WorkerHandle<R> {
    type V = WorkerState<R>;

    closed spec fn view(&self) -> WorkerState<R> {
        if self.joined {
            WorkerState::Joined
        } else {
            match self.outcome {
                Some(outcome) => WorkerState::Finished(outcome),
                None => WorkerState::Running,
            }
        }
    }
}

impl<R> WorkerHandle<R> {
    /// The handle of a task that has just been started.
    pub fn new() -> (handle: Self)
        ensures
            handle@ == WorkerState::<R>::Running,
    {
        WorkerHandle { outcome: None, joined: false }
    }

    /// The stage that the task is in.
    pub fn stage(&self) -> (stage: Stage)
        ensures
            stage == match self@ {
                WorkerState::Running => Stage::Running,
                WorkerState::Finished(_) => Stage::Finished,
                WorkerState::Joined => Stage::Joined,
            },
    {
        if self.joined {
            Stage::Joined
        } else if self.outcome.is_some() {
            Stage::Finished
        } else {
            Stage::Running
        }
    }

    /// Records how the task ended. Only the first report for a running task
    /// counts.
    pub fn finish(&mut self, outcome: Outcome<R>)
        ensures
            final(self)@ == old(self)@.finish(outcome),
    {
        if !self.joined && self.outcome.is_none() {
            self.outcome = Some(outcome);
        }
    }

    /// Collects the result of the task.
    ///
    /// While the task runs, the answer is `WouldBlock` and nothing changes.
    /// The first join after the task has ended hands out what the task
    /// returned, or `TaskPanicked` if it ended abnormally. Every join after
    /// that fails with `DoubleJoin`.
    pub fn join(&mut self) -> (result: Blocking<Result<R, Error>>)
        ensures
            result == old(self)@.join_result(),
            final(self)@ == old(self)@.join(),
    {
        if self.joined {
            return Blocking::Ready(Err(Error::DoubleJoin));
        }
        match self.outcome.take() {
            None => Blocking::WouldBlock,
            Some(Outcome::Returned(value)) => {
                self.joined = true;
                Blocking::Ready(Ok(value))
            },
            Some(Outcome::Panicked) => {
                self.joined = true;
                Blocking::Ready(Err(Error::TaskPanicked))
            },
        }
    }
}

/// A result is handed out once.
///
/// A join that did not have to wait leaves the handle joined, whatever it
/// handed out, and every join after it fails with `DoubleJoin`. A join that
/// has to wait changes nothing.
pub proof fn law_join_hands_out_once<R>(state: WorkerState<R>)
    ensures
        state.join_result() is WouldBlock <==> state is Running,
        state is Running ==> state.join() == state,
        !(state is Running) ==> state.join() is Joined && state.join().join_result()
            == Blocking::<Result<R, Error>>::Ready(Err(Error::DoubleJoin)),
        state.join().join() == state.join(),
{
}

/// A task that ended abnormally is reported to the one who joins it, and
/// to that one alone: the first join after the report fails with
/// `TaskPanicked`, whereas a task that returned hands its value to the first
/// join.
pub proof fn law_outcome_reaches_joiner<R>(outcome: Outcome<R>)
    ensures
        WorkerState::<R>::Running.finish(outcome).join_result() == match outcome {
            Outcome::Returned(value) => Blocking::<Result<R, Error>>::Ready(Ok(value)),
            Outcome::Panicked => Blocking::<Result<R, Error>>::Ready(Err(Error::TaskPanicked)),
        },
{
}

} // verus!
