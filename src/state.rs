use vstd::prelude::*;

verus! {

/// Where the viewport starts: the first item shown and how much of it is
/// clipped at its leading edge.
#[derive(Debug, Clone, Copy, Default, PartialEq, Eq, Structural)]
pub struct ViewState {
    /// The index of the first item displayed on the screen.
    pub offset: usize,
    /// The truncation in rows/columns of the first item displayed on the screen.
    pub first_truncated: u16,
}

/// The state of a list: the selection and the scroll position.
#[derive(Debug, Clone, Copy, PartialEq, Eq, Structural)]
pub struct ListState {
    /// The selected item. If `None`, no item is currently selected.
    pub selected: Option<usize>,
    /// The total number of elements in the list. This is necessary to correctly
    /// handle item selection.
    pub num_elements: usize,
    /// Indicates if the selection is circular. If true, calling `next` on the last
    /// element returns the first, and calling `previous` on the first returns the last.
    pub infinite_scrolling: bool,
    /// The state for the viewport. Keeps track which item to show
    /// first and how much it is truncated.
    pub view_state: ViewState,
}

/// The index that `next` selects.
pub open spec fn next_index(selected: Option<usize>, num_elements: usize, circular: bool) -> usize
    recommends
        num_elements > 0,
{
    match selected {
        Some(i) => if i >= num_elements - 1 {
            if circular {
                0
            } else {
                i
            }
        } else {
            (i + 1) as usize
        },
        None => 0,
    }
}

/// The index that `previous` selects.
pub open spec fn previous_index(
    selected: Option<usize>,
    num_elements: usize,
    circular: bool,
) -> usize
    recommends
        num_elements > 0,
{
    match selected {
        Some(i) => if i == 0 {
            if circular {
                (num_elements - 1) as usize
            } else {
                i
            }
        } else {
            (i - 1) as usize
        },
        None => 0,
    }
}

impl Default for ListState {
    fn default() -> (r: Self)
        ensures
            r.selected is None,
            r.num_elements == 0,
            r.infinite_scrolling,
            r.view_state == (ViewState { offset: 0, first_truncated: 0 }),
    {
        ListState {
            selected: None,
            num_elements: 0,
            infinite_scrolling: true,
            view_state: ViewState { offset: 0, first_truncated: 0 },
        }
    }
}

impl ListState {
    /// Sets whether the selection wraps around at either end.
    pub fn set_infinite_scrolling(&mut self, infinite_scrolling: bool)
        ensures
            *final(self) == (ListState { infinite_scrolling, ..*old(self) }),
    {
        self.infinite_scrolling = infinite_scrolling;
    }

    /// Returns the index of the currently selected item, if any.
    pub fn selected(&self) -> (r: Option<usize>)
        ensures
            r == self.selected,
    {
        self.selected
    }

    /// Selects an item by its index. Selecting nothing scrolls back to the top.
    pub fn select(&mut self, index: Option<usize>)
        ensures
            final(self).selected == index,
            final(self).num_elements == old(self).num_elements,
            final(self).infinite_scrolling == old(self).infinite_scrolling,
            index is Some ==> final(self).view_state == old(self).view_state,
            index is None ==> final(self).view_state == (ViewState {
                offset: 0,
                ..old(self).view_state
            }),
    {
        self.selected = index;
        if index.is_none() {
            self.view_state.offset = 0;
        }
    }

    /// Selects the next element of the list. If circular is true,
    /// calling next on the last element selects the first.
    pub fn next(&mut self)
        ensures
            old(self).num_elements == 0 ==> *final(self) == *old(self),
            old(self).num_elements > 0 ==> *final(self) == (ListState {
                selected: Some(
                    next_index(
                        old(self).selected,
                        old(self).num_elements,
                        old(self).infinite_scrolling,
                    ),
                ),
                ..*old(self)
            }),
    {
        if self.num_elements == 0 {
            return ;
        }
        let i = match self.selected {
            Some(i) => {
                if i >= self.num_elements - 1 {
                    if self.infinite_scrolling {
                        0
                    } else {
                        i
                    }
                } else {
                    i + 1
                }
            },
            None => 0,
        };
        self.select(Some(i));
    }

    /// Selects the previous element of the list. If circular is true,
    /// calling previous on the first element selects the last.
    pub fn previous(&mut self)
        ensures
            old(self).num_elements == 0 ==> *final(self) == *old(self),
            old(self).num_elements > 0 ==> *final(self) == (ListState {
                selected: Some(
                    previous_index(
                        old(self).selected,
                        old(self).num_elements,
                        old(self).infinite_scrolling,
                    ),
                ),
                ..*old(self)
            }),
    {
        if self.num_elements == 0 {
            return ;
        }
        let i = match self.selected {
            Some(i) => {
                if i == 0 {
                    if self.infinite_scrolling {
                        self.num_elements - 1
                    } else {
                        i
                    }
                } else {
                    i - 1
                }
            },
            None => 0,
        };
        self.select(Some(i));
    }

    /// Updates the number of elements that are present in the list.
    pub fn set_num_elements(&mut self, num_elements: usize)
        ensures
            *final(self) == (ListState { num_elements, ..*old(self) }),
    {
        self.num_elements = num_elements;
    }

    /// Returns the index of the first item currently displayed on the screen.
    pub fn scroll_offset_index(&self) -> (r: usize)
        ensures
            r == self.view_state.offset,
    {
        self.view_state.offset
    }
}

} // verus!
