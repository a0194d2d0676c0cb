//! Plain widget state the selection-driven widgets keep between updates.
//!
//! The widgets themselves — templates, event wiring, styling — live outside
//! this core; what remains here is the state their interaction handlers
//! mutate: a switch's on/off flag and a table item's pending
//! selection-toggle request.

use vstd::prelude::*;

verus! {

/// State of a switch widget: whether it is on, and the identifier of its
/// toggle handle in the tree.
#[derive(Clone, Copy, PartialEq, Eq, Structural, Debug)]
pub struct SwitchState {
    pub selected: bool,
    pub switch_toggle: usize,
}

impl SwitchState {
    /// Flips the switch between on and off.
    pub fn toggle_selection(&mut self)
        ensures
            final(self).selected == !old(self).selected,
            final(self).switch_toggle == old(self).switch_toggle,
    {
        self.selected = !self.selected;
    }
}

impl Default for SwitchState {
    /// A switch starts off, with no toggle handle yet.
    fn default() -> (r: Self)
        ensures
            r == (SwitchState { selected: false, switch_toggle: 0 }),
    {
        SwitchState { selected: false, switch_toggle: 0 }
    }
}

/// State of one table item: whether a selection toggle was requested and
/// not yet handled by the item's update.
#[derive(Clone, Copy, PartialEq, Eq, Structural, Debug)]
pub struct TableViewItemState {
    pub request_selection_toggle: bool,
}

impl TableViewItemState {
    /// Requests a selection toggle, to be consumed by the next update.
    pub fn toggle_selection(&mut self)
        ensures
            final(self).request_selection_toggle,
    {
        self.request_selection_toggle = true;
    }

    /// Consumes a pending request: reports whether one was there and clears
    /// it, the first step of the item's update.
    pub fn take_selection_request(&mut self) -> (r: bool)
        ensures
            r == old(self).request_selection_toggle,
            !final(self).request_selection_toggle,
    {
        let r = self.request_selection_toggle;
        self.request_selection_toggle = false;
        r
    }
}

impl Default for TableViewItemState {
    /// No toggle is pending at first.
    fn default() -> (r: Self)
        ensures
            r == (TableViewItemState { request_selection_toggle: false }),
    {
        TableViewItemState { request_selection_toggle: false }
    }
}

} // verus!
