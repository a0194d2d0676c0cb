//! How events travel through the widget tree.

use vstd::prelude::*;

verus! {

/// The strategy of an event: how it moves through the tree.
#[derive(Clone, PartialEq, Eq, Structural, Debug)]
pub enum EventStrategy {
    /// From leaf to root.
    BottomUp,
    /// Delivered directly to its target.
    Direct,
}

/// An event; by default it bubbles from leaf to root.
pub trait Event {
    /// The strategy this event travels with.
    fn strategy(&self) -> EventStrategy {
        EventStrategy::BottomUp
    }
}

} // verus!
