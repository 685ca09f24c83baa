use vstd::prelude::*;

verus! {

/// How much of an item is clipped, and from which edge.
#[derive(Debug, Clone, Copy, Default, PartialEq, Eq, PartialOrd, Ord, Structural)]
pub enum Truncation {
    /// The item is shown whole.
    #[default]
    Whole,
    /// The item's leading edge is clipped by this many units.
    Top(u16),
    /// The item's trailing edge is clipped by this many units.
    Bot(u16),
}

impl Truncation {
    /// The number of clipped units, whichever the edge.
    pub open spec fn amount(self) -> u16 {
        match self {
            Truncation::Top(v) => v,
            Truncation::Bot(v) => v,
            Truncation::Whole => 0,
        }
    }

    /// Returns the number of clipped units, whichever the edge.
    pub fn value(&self) -> (r: u16)
        ensures
            r == self.amount(),
    {
        match self {
            Truncation::Top(value) => *value,
            Truncation::Bot(value) => *value,
            Truncation::Whole => 0,
        }
    }
}

/// One visible item of a layout pass: the item, its untruncated size along the
/// scroll axis, and how it is clipped.
#[derive(Debug, PartialEq, Eq, PartialOrd, Ord)]
pub struct ViewportElement<T> {
    pub widget: T,
    pub main_axis_size: u16,
    pub truncation: Truncation,
}

/// The number of units that an item of size `size` clipped by `truncation`
/// takes on screen.
pub open spec fn visible_size(size: u16, truncation: Truncation) -> int {
    if size >= truncation.amount() {
        size - truncation.amount()
    } else {
        0
    }
}

/// What a map of elements lays out: each index's untruncated size and
/// truncation.
pub open spec fn layout_of<T>(m: Map<usize, ViewportElement<T>>) -> Map<usize, (u16, Truncation)> {
    Map::new(|k: usize| m.contains_key(k), |k: usize| (m[k].main_axis_size, m[k].truncation))
}

impl<T> ViewportElement<T> {
    pub fn new(widget: T, main_axis_size: u16, truncation: Truncation) -> (r: Self)
        ensures
            r.widget == widget,
            r.main_axis_size == main_axis_size,
            r.truncation == truncation,
    {
        ViewportElement { widget, main_axis_size, truncation }
    }

    /// The number of units this element takes on screen.
    pub fn visible_main_axis_size(&self) -> (r: u16)
        ensures
            r == visible_size(self.main_axis_size, self.truncation),
    {
        self.main_axis_size.saturating_sub(self.truncation.value())
    }
}

} // verus!
