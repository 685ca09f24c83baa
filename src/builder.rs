use vstd::prelude::*;

use crate::scroll_axis::ScrollAxis;

verus! {

/// This structure holds information about the item's position, selection
/// status, scrolling behavior, and size along the cross axis.
#[derive(Debug, Clone, Copy, PartialEq, Eq, Structural)]
pub struct ListBuildContext {
    /// The position of the item in the list.
    pub index: usize,
    /// A boolean flag indicating whether the item is currently selected.
    pub is_selected: bool,
    /// Defines the axis along which the list can be scrolled.
    pub scroll_axis: ScrollAxis,
    /// The size of the item along the cross axis.
    pub cross_axis_size: u16,
}

/// The context in which item `index` is built during one layout pass.
pub open spec fn context_of(
    index: usize,
    selected: Option<usize>,
    scroll_axis: ScrollAxis,
    cross_axis_size: u16,
) -> ListBuildContext {
    ListBuildContext {
        index,
        is_selected: selected == Some(index),
        scroll_axis,
        cross_axis_size,
    }
}

/// The builder for constructing list elements: a closure that returns an
/// item together with its size along the scroll axis.
pub struct ListBuilder<F> {
    /// Builds the item for a context and returns it with its size.
    pub closure: F,
}

impl<T, F: Fn(&ListBuildContext) -> (T, u16)> ListBuilder<F> {
    /// The builder may be called on every context, and the size it returns
    /// depends on the context alone.
    pub open spec fn is_pure(&self) -> bool {
        &&& forall|c: ListBuildContext| #[trigger] call_requires(self.closure, (&c,))
        &&& forall|c: ListBuildContext, a: (T, u16), b: (T, u16)|
            #[trigger] call_ensures(self.closure, (&c,), a) && #[trigger] call_ensures(
                self.closure,
                (&c,),
                b,
            ) ==> a.1 == b.1
    }

    /// `item` with size `size` is a possible result of building in `context`.
    pub open spec fn builds(&self, context: ListBuildContext, item: T, size: u16) -> bool {
        call_ensures(self.closure, (&context,), (item, size))
    }

    /// The size of the item built in `context`.
    pub open spec fn size_of(&self, context: ListBuildContext) -> u16 {
        (choose|r: (T, u16)| call_ensures(self.closure, (&context,), r)).1
    }

    /// Whatever a pure builder returns has the size that `size_of` names.
    pub proof fn lemma_built_size(&self, context: ListBuildContext, item: T, size: u16)
        requires
            self.is_pure(),
            self.builds(context, item, size),
        ensures
            size == self.size_of(context),
    {
        let r = choose|r: (T, u16)| call_ensures(self.closure, (&context,), r);
        assert(call_ensures(self.closure, (&context,), (item, size)));
        assert(call_ensures(self.closure, (&context,), r));
    }

    /// Creates a new `ListBuilder` taking a closure as a parameter
    pub fn new(closure: F) -> (r: Self)
        ensures
            r.closure == closure,
    {
        ListBuilder { closure }
    }

    /// Method to call the stored closure.
    pub fn call_closure(&self, context: &ListBuildContext) -> (r: (T, u16))
        requires
            self.is_pure(),
        ensures
            self.builds(*context, r.0, r.1),
            r.1 == self.size_of(*context),
    {
        let r = (self.closure)(context);
        proof {
            self.lemma_built_size(*context, r.0, r.1);
        }
        r
    }
}

} // verus!

verus! {

impl<F> ListBuilder<F> {
    /// The sizes of the first `n` items in one layout pass.
    pub open spec fn sizes<T>(
        &self,
        n: nat,
        selected: Option<usize>,
        scroll_axis: ScrollAxis,
        cross_axis_size: u16,
    ) -> Seq<u16> where F: Fn(&ListBuildContext) -> (T, u16) {
        Seq::new(
            n,
            |i: int| self.size_of(context_of(i as usize, selected, scroll_axis, cross_axis_size)),
        )
    }
}

} // verus!
