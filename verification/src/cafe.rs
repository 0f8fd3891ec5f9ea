//! What the cafe serves.

use vstd::prelude::*;

verus! {

/// The ways in which the cafe makes coffee.
#[derive(Debug, Clone, Copy, PartialEq, Eq, Structural)]
pub enum CoffeeFlavor {
    Mocha,
    Latte,
    Capuchino,
    Americano,
}

/// The drinks on the menu.
#[derive(Debug, Clone, Copy, PartialEq, Eq, Structural)]
pub enum Drinks {
    Water,
    Coffee(CoffeeFlavor),
    Soda,
    Beer,
}

} // verus!
