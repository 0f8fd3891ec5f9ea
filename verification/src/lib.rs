//! A small, verified core for tasks that work together, and a few plain
//! data types beside it.
//!
//! The core has three parts. [`worker`] follows a task from its start to the
//! moment at which its result is collected. [`channel`] is a queue with many
//! sending ends and one receiving end. [`counter`] is a value behind a guard,
//! shared by many handles. Each part is a piece of state with operations on
//! it, and each operation is proved to do what its mathematical picture
//! says. [`history`] and [`schedule`] prove what holds of a channel and of a
//! shared counter in every order in which their users may act.
//!
//! Nothing here starts a thread or puts one to sleep. An operation that
//! would have to wait says so ([`blocking`]), and the program around the
//! core decides how to wait. Failures are values ([`error`]).
//!
//! The plain data types are [`rectangles`], [`cafe`] and [`inventory`];
//! [`decimal`] writes numbers out in digits.

pub mod blocking;
pub mod cafe;
pub mod channel;
pub mod counter;
pub mod decimal;
pub mod error;
pub mod history;
pub mod inventory;
pub mod rectangles;
pub mod schedule;
pub mod worker;

pub use crate::cafe::{CoffeeFlavor, Drinks};
pub use crate::rectangles::MyRectangle;
