//! Sizes of widgets.

use vstd::prelude::*;

verus! {

/// How much room a widget takes along one direction.
#[derive(Clone, Copy, Debug, PartialEq, Eq, Structural)]
pub enum Length {
    /// All the room that is left.
    Fill,
    /// A share of the room that is left.
    FillPortion(u16),
    /// As little as its content needs.
    Shrink,
    /// This many units.
    Units(u16),
}

impl Length {
    pub fn fill() -> (length: Length)
        ensures
            length == Length::Fill,
    {
        Length::Fill
    }
}

} // verus!
