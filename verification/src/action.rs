//! What the application can be asked to do next.

use vstd::prelude::*;

verus! {

/// One step for the application to take.
#[derive(Clone, Copy, Debug, PartialEq, Eq, Structural, Hash)]
pub enum Action {
    Tick,
    Increment,
    Decrement,
    Quit,
    Render,
    /// Nothing to do.
    Nothing,
}

} // verus!
