//! The ways in which a coordination operation can fail.

use vstd::prelude::*;

verus! {

/// Every failure is handed to the immediate caller as a value of this type.
#[derive(Clone, Copy, Debug, PartialEq, Eq, Structural)]
pub enum Error {
    /// A task ended abnormally; reported when it is joined.
    TaskPanicked,
    /// A value was sent although nobody can ever receive it.
    SendError,
    /// A worker handle was joined more than once.
    DoubleJoin,
    /// A context asked for a guard that it already holds.
    ReentrantLock,
}

impl Error {
    /// The text of [`Error::description`].
    pub open spec fn spec_description(self) -> Seq<char> {
        match self {
            Error::TaskPanicked => "join failed: the task panicked"@,
            Error::SendError => "send failed: nobody is left to receive the value"@,
            Error::DoubleJoin => "join failed: the handle has already been joined"@,
            Error::ReentrantLock => "lock failed: the guard is already held by this context"@,
        }
    }

    /// Names the operation that failed and says why.
    pub fn description(&self) -> (text: &'static str)
        ensures
            text@ == self.spec_description(),
    {
        match self {
            Error::TaskPanicked => "join failed: the task panicked",
            Error::SendError => "send failed: nobody is left to receive the value",
            Error::DoubleJoin => "join failed: the handle has already been joined",
            Error::ReentrantLock => "lock failed: the guard is already held by this context",
        }
    }
}

} // verus!
