use std::collections::HashMap;

use vstd::prelude::*;

use crate::builder::{context_of, ListBuildContext, ListBuilder};
use crate::element::ViewportElement;
use crate::scroll_axis::ScrollAxis;

verus! {

broadcast use vstd::std_specs::hash::group_hash_axioms;

/// Keeps the items built during one layout pass, so that the builder is
/// called as rarely as possible.
pub struct WidgetCacher<'a, T, F> {
    pub cache: HashMap<usize, (T, u16)>,
    pub builder: &'a ListBuilder<F>,
    pub scroll_axis: ScrollAxis,
    pub cross_axis_size: u16,
    pub selected: Option<usize>,
}

impl<'a, T, F: Fn(&ListBuildContext) -> (T, u16)> WidgetCacher<'a, T, F> {
    /// The context in which this pass builds item `index`.
    pub open spec fn context(&self, index: usize) -> ListBuildContext {
        context_of(index, self.selected, self.scroll_axis, self.cross_axis_size)
    }

    /// The builder is pure and every cached entry is what it builds for its
    /// index.
    pub open spec fn wf(&self) -> bool {
        &&& self.builder.is_pure()
        &&& forall|i: usize| #[trigger]
            self.cache@.contains_key(i) ==> {
                &&& self.builder.builds(self.context(i), self.cache@[i].0, self.cache@[i].1)
                &&& self.cache@[i].1 == self.builder.size_of(self.context(i))
            }
    }

    /// `s` holds the sizes that the builder gives in this pass.
    pub open spec fn sizes_agree(&self, s: Seq<u16>) -> bool {
        forall|i: int| 0 <= i < s.len() ==> #[trigger] s[i] == self.builder.size_of(self.context(i as usize))
    }

    /// Every element of `m` is what the builder builds for its index.
    pub open spec fn all_built(&self, m: Map<usize, ViewportElement<T>>) -> bool {
        forall|i: usize| #[trigger]
            m.contains_key(i) ==> self.builder.builds(self.context(i), m[i].widget, m[i].main_axis_size)
    }

    /// Both cachers serve the same pass.
    pub open spec fn same_pass(&self, other: &Self) -> bool {
        &&& self.builder == other.builder
        &&& self.scroll_axis == other.scroll_axis
        &&& self.cross_axis_size == other.cross_axis_size
        &&& self.selected == other.selected
    }

    /// Create a new WidgetCacher
    pub fn new(
        builder: &'a ListBuilder<F>,
        scroll_axis: ScrollAxis,
        cross_axis_size: u16,
        selected: Option<usize>,
    ) -> (r: Self)
        requires
            builder.is_pure(),
        ensures
            r.wf(),
            r.cache@ == Map::<usize, (T, u16)>::empty(),
            r.builder == builder,
            r.scroll_axis == scroll_axis,
            r.cross_axis_size == cross_axis_size,
            r.selected == selected,
    {
        WidgetCacher { cache: HashMap::new(), builder, scroll_axis, cross_axis_size, selected }
    }

    fn context_exec(&self, index: usize) -> (r: ListBuildContext)
        ensures
            r == self.context(index),
    {
        let is_selected = match self.selected {
            Some(j) => index == j,
            None => false,
        };
        ListBuildContext {
            index,
            is_selected,
            scroll_axis: self.scroll_axis,
            cross_axis_size: self.cross_axis_size,
        }
    }

    /// Gets the widget and the height. Removes the widget from the cache.
    pub fn get(&mut self, index: usize) -> (r: (T, u16))
        requires
            old(self).wf(),
        ensures
            final(self).wf(),
            final(self).same_pass(old(self)),
            final(self).cache@ == old(self).cache@.remove(index),
            old(self).cache@.contains_key(index) ==> r == old(self).cache@[index],
            old(self).builder.builds(old(self).context(index), r.0, r.1),
            r.1 == old(self).builder.size_of(old(self).context(index)),
    {
        if let Some(entry) = self.cache.remove(&index) {
            return entry;
        }
        let context = self.context_exec(index);
        self.builder.call_closure(&context)
    }

    /// Gets the height. Keeps the widget in the cache.
    pub fn get_height(&mut self, index: usize) -> (r: u16)
        requires
            old(self).wf(),
        ensures
            final(self).wf(),
            final(self).same_pass(old(self)),
            final(self).cache@.contains_key(index),
            final(self).cache@.remove(index) == old(self).cache@.remove(index),
            old(self).cache@.contains_key(index) ==> final(self).cache@ == old(self).cache@,
            r == final(self).cache@[index].1,
            r == old(self).builder.size_of(old(self).context(index)),
    {
        if let Some(entry) = self.cache.get(&index) {
            return entry.1;
        }
        let context = self.context_exec(index);
        let (widget, main_axis_size) = self.builder.call_closure(&context);
        self.cache.insert(index, (widget, main_axis_size));
        proof {
            assert(self.cache@.remove(index) =~= old(self).cache@.remove(index));
        }
        main_axis_size
    }

    /// Puts an item that the builder built for `index` back into the cache.
    pub fn insert(&mut self, index: usize, widget: T, main_axis_size: u16)
        requires
            old(self).wf(),
            old(self).builder.builds(old(self).context(index), widget, main_axis_size),
        ensures
            final(self).wf(),
            final(self).same_pass(old(self)),
            final(self).cache@ == old(self).cache@.insert(index, (widget, main_axis_size)),
    {
        proof {
            self.builder.lemma_built_size(self.context(index), widget, main_axis_size);
        }
        self.cache.insert(index, (widget, main_axis_size));
    }
}

} // verus!
