//! The outcome of an operation that may have to wait.
//!
//! Nothing in this crate suspends a thread. An operation that would have to
//! wait for another party reports [`Blocking::WouldBlock`] and leaves the
//! state untouched; the caller parks itself and tries again once the state
//! has changed.

use vstd::prelude::*;

verus! {

/// Either the result of an operation, or the news that it cannot finish yet.
#[derive(Debug, PartialEq, Eq)]
pub enum Blocking<T> {
    /// The operation finished with this result.
    Ready(T),
    /// The operation has to wait; nothing was changed.
    WouldBlock,
}

impl<T> Blocking<T> {
    /// Whether the operation finished.
    pub fn is_ready(&self) -> (ready: bool)
        ensures
            ready == (self is Ready),
    {
        match self {
            Blocking::Ready(_) => true,
            Blocking::WouldBlock => false,
        }
    }

    /// The result, if the operation finished.
    pub fn ready(self) -> (result: Option<T>)
        ensures
            result == match self {
                Blocking::Ready(value) => Some(value),
                Blocking::WouldBlock => None,
            },
    {
        match self {
            Blocking::Ready(value) => Some(value),
            Blocking::WouldBlock => None,
        }
    }
}

} // verus!
