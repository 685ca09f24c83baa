use vstd::prelude::*;

verus! {

/// Represents the scroll axis of a list.
#[derive(Debug, Default, Clone, Copy, PartialEq, Eq, Structural)]
pub enum ScrollAxis {
    /// Indicates vertical scrolling. This is the default.
    #[default]
    Vertical,
    /// Indicates horizontal scrolling.
    Horizontal,
}

impl ScrollAxis {
    /// Splits the extent of an area into its size along the scroll axis
    /// (main axis) and its size across it (cross axis).
    pub fn main_and_cross(self, width: u16, height: u16) -> (r: (u16, u16))
        ensures
            self is Vertical ==> r == (height, width),
            self is Horizontal ==> r == (width, height),
    {
        match self {
            ScrollAxis::Vertical => (height, width),
            ScrollAxis::Horizontal => (width, height),
        }
    }
}

} // verus!
