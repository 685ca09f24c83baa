use std::collections::HashMap;

use vstd::prelude::*;

use crate::builder::{context_of, ListBuildContext, ListBuilder};
use crate::cache::WidgetCacher;
use crate::element::{layout_of, Truncation, ViewportElement};
use crate::model::{
    backward_walk, corrected_view, effective_padding, fill_walk, forward_walk, layout,
    lemma_sum_range_mono, lemma_sum_range_push, padding_walk, sum_range,
};
use crate::scroll_axis::ScrollAxis;
use crate::state::ListState;

verus! {

broadcast use vstd::std_specs::hash::group_hash_axioms;

/// Calculate the effective scroll padding.
/// Padding is applied until the scroll padding limit is reached,
/// after which elements at the beginning or end of the list do
/// not receive padding.
///
/// Returns a map from each index of the list to the padding it gets.
pub fn calculate_effective_scroll_padding<T, F: Fn(&ListBuildContext) -> (T, u16)>(
    state: &ListState,
    builder: &ListBuilder<F>,
    item_count: usize,
    cross_axis_size: u16,
    scroll_axis: ScrollAxis,
    scroll_padding: u16,
) -> (r: HashMap<usize, u16>)
    requires
        builder.is_pure(),
    ensures
        forall|i: usize| #[trigger] r@.contains_key(i) <==> i < item_count,
        forall|i: usize|
            i < item_count ==> #[trigger] r@[i] == effective_padding(
                builder.sizes(item_count as nat, state.selected, scroll_axis, cross_axis_size),
                scroll_padding as int,
                i as int,
            ),
{
    let ghost s = builder.sizes(item_count as nat, state.selected, scroll_axis, cross_axis_size);
    let ghost p = scroll_padding as int;
    let mut padding_by_element: HashMap<usize, u16> = HashMap::new();
    let mut total_main_axis_size: u16 = 0;
    let mut index: usize = 0;
    while index < item_count
        invariant
            index <= item_count,
            builder.is_pure(),
            s == builder.sizes(item_count as nat, state.selected, scroll_axis, cross_axis_size),
            p == scroll_padding as int,
            sum_range(s, 0, index as int) < p ==> total_main_axis_size == sum_range(
                s,
                0,
                index as int,
            ),
            sum_range(s, 0, index as int) >= p ==> total_main_axis_size >= p,
            forall|i: usize| #[trigger] padding_by_element@.contains_key(i) <==> i < index,
            forall|i: usize|
                i < index ==> #[trigger] padding_by_element@[i] == if sum_range(s, 0, i as int)
                    < p {
                    sum_range(s, 0, i as int)
                } else {
                    p
                },
        decreases item_count - index,
    {
        proof {
            lemma_sum_range_push(s, 0, index as int);
        }
        if total_main_axis_size >= scroll_padding {
            padding_by_element.insert(index, scroll_padding);
        } else {
            padding_by_element.insert(index, total_main_axis_size);
            let context = ListBuildContext {
                index,
                is_selected: match state.selected {
                    Some(j) => index == j,
                    None => false,
                },
                scroll_axis,
                cross_axis_size,
            };
            let (_, item_main_axis_size) = builder.call_closure(&context);
            total_main_axis_size = total_main_axis_size.saturating_add(item_main_axis_size);
        }
        index += 1;
    }
    total_main_axis_size = 0;
    let ghost n = item_count as int;
    while index > 0
        invariant
            index <= item_count,
            n == item_count,
            builder.is_pure(),
            s == builder.sizes(item_count as nat, state.selected, scroll_axis, cross_axis_size),
            p == scroll_padding as int,
            sum_range(s, index as int, n) < p ==> total_main_axis_size == sum_range(
                s,
                index as int,
                n,
            ),
            sum_range(s, index as int, n) >= p ==> total_main_axis_size >= p,
            forall|i: usize| #[trigger] padding_by_element@.contains_key(i) <==> i < item_count,
            forall|i: usize|
                index <= i < item_count ==> #[trigger] padding_by_element@[i]
                    == effective_padding(s, p, i as int),
            forall|i: usize|
                i < index ==> #[trigger] padding_by_element@[i] == if sum_range(s, 0, i as int)
                    < p {
                    sum_range(s, 0, i as int)
                } else {
                    p
                },
        ensures
            forall|i: usize|
                i < item_count ==> #[trigger] padding_by_element@[i] == effective_padding(
                    s,
                    p,
                    i as int,
                ),
            forall|i: usize| #[trigger] padding_by_element@.contains_key(i) <==> i < item_count,
        decreases index,
    {
        if total_main_axis_size >= scroll_padding {
            proof {
                assert forall|i: usize| i < index implies #[trigger] padding_by_element@[i]
                    == effective_padding(s, p, i as int) by {
                    lemma_sum_range_mono(s, i as int + 1, index as int, n);
                }
            }
            break;
        }
        index -= 1;
        padding_by_element.insert(index, total_main_axis_size);
        let context = ListBuildContext {
            index,
            is_selected: match state.selected {
                Some(j) => index == j,
                None => false,
            },
            scroll_axis,
            cross_axis_size,
        };
        let (_, item_main_axis_size) = builder.call_closure(&context);
        total_main_axis_size = total_main_axis_size.saturating_add(item_main_axis_size);
    }
    padding_by_element
}

/// The padding recorded for `index`, or none.
pub open spec fn padding_at(pads: Map<usize, u16>, index: usize) -> int {
    if pads.contains_key(index) {
        pads[index] as int
    } else {
        0
    }
}

fn padding_of(pads: &HashMap<usize, u16>, index: usize) -> (r: u16)
    ensures
        r == padding_at(pads@, index),
{
    match pads.get(&index) {
        Some(v) => *v,
        None => 0,
    }
}

/// If the selected value is smaller than the offset, we roll the offset so
/// that the selected value is at the top, keeping its top padding in view.
fn update_offset<T, F: Fn(&ListBuildContext) -> (T, u16)>(
    state: &mut ListState,
    cacher: &mut WidgetCacher<'_, T, F>,
    selected: usize,
    scroll_padding_by_index: &HashMap<usize, u16>,
    Ghost(s): Ghost<Seq<u16>>,
)
    requires
        old(cacher).wf(),
        old(cacher).sizes_agree(s),
        selected < s.len(),
    ensures
        final(cacher).wf(),
        final(cacher).same_pass(old(cacher)),
        *final(state) == (ListState {
            view_state: corrected_view(
                s,
                selected as int,
                padding_at(scroll_padding_by_index@, selected),
                old(state).view_state,
            ),
            ..*old(state)
        }),
{
    let scroll_padding_top = padding_of(scroll_padding_by_index, selected);
    let mut first_element = selected;
    let mut first_element_truncated: u16 = 0;
    let mut available_size = scroll_padding_top;
    let mut index = selected;
    let ghost target = padding_walk(s, selected as int, scroll_padding_top as int, 0);
    loop
        invariant_except_break
            target == padding_walk(
                s,
                index as int,
                available_size as int,
                first_element_truncated as int,
            ),
        invariant
            cacher.wf(),
            cacher.same_pass(old(cacher)),
            cacher.sizes_agree(s),
            index <= selected < s.len(),
            target == padding_walk(s, selected as int, scroll_padding_top as int, 0),
        ensures
            target == (first_element as int, first_element_truncated as int),
        decreases index,
    {
        first_element = index;
        if available_size == 0 {
            break;
        }
        let main_axis_size = cacher.get_height(index);
        available_size = available_size.saturating_sub(main_axis_size);
        if available_size > 0 {
            first_element_truncated = main_axis_size.saturating_sub(available_size);
        }
        if index == 0 {
            break;
        }
        index -= 1;
    }
    if first_element < state.view_state.offset || (first_element == state.view_state.offset
        && state.view_state.first_truncated > 0) {
        state.view_state.offset = first_element;
        state.view_state.first_truncated = first_element_truncated;
    }
}

/// Iterate forward through the list of widgets, starting at `offset`.
///
/// Returns true if the selected widget is inside the viewport.
fn forward_pass<T, F: Fn(&ListBuildContext) -> (T, u16)>(
    viewport: &mut HashMap<usize, ViewportElement<T>>,
    state: &ListState,
    cacher: &mut WidgetCacher<'_, T, F>,
    offset: usize,
    item_count: usize,
    total_main_axis_size: u16,
    selected: usize,
    scroll_padding_by_index: &HashMap<usize, u16>,
    Ghost(s): Ghost<Seq<u16>>,
    Ghost(p): Ghost<int>,
) -> (found: bool)
    requires
        old(cacher).wf(),
        old(cacher).sizes_agree(s),
        s.len() == item_count,
        forall|i: usize|
            i < item_count ==> #[trigger] padding_at(scroll_padding_by_index@, i)
                == effective_padding(s, p, i as int),
        offset == state.view_state.offset,
        old(viewport)@ == Map::<usize, ViewportElement<T>>::empty(),
    ensures
        final(cacher).wf(),
        final(cacher).same_pass(old(cacher)),
        final(cacher).all_built(final(viewport)@),
        (layout_of(final(viewport)@), found) == forward_walk(
            s,
            p,
            selected as int,
            state.view_state,
            offset as int,
            total_main_axis_size as int,
            false,
            Map::empty(),
        ),
{
    let mut found_selected = false;
    let mut available_size = total_main_axis_size;
    let mut index = offset;
    let ghost target = forward_walk(
        s,
        p,
        selected as int,
        state.view_state,
        offset as int,
        total_main_axis_size as int,
        false,
        Map::empty(),
    );
    proof {
        assert(layout_of(viewport@) =~= Map::empty());
    }
    while index < item_count
        invariant_except_break
            target == forward_walk(
                s,
                p,
                selected as int,
                state.view_state,
                index as int,
                available_size as int,
                found_selected,
                layout_of(viewport@),
            ),
        invariant
            cacher.wf(),
            cacher.same_pass(old(cacher)),
            cacher.sizes_agree(s),
            cacher.all_built(viewport@),
            s.len() == item_count,
            forall|i: usize|
                i < item_count ==> #[trigger] padding_at(scroll_padding_by_index@, i)
                    == effective_padding(s, p, i as int),
        ensures
            target == (layout_of(viewport@), found_selected),
        decreases item_count - index,
    {
        let is_first = index == state.view_state.offset;
        let (widget, total_size) = cacher.get(index);
        assert(s[index as int] == total_size);
        let main_axis_size = if is_first {
            total_size.saturating_sub(state.view_state.first_truncated)
        } else {
            total_size
        };
        let scroll_padding_effective = padding_of(scroll_padding_by_index, index);
        let available_effective = available_size.saturating_sub(scroll_padding_effective);
        // Out of bounds
        if !found_selected && main_axis_size >= available_effective {
            break;
        }
        // Selected value is within view/bounds, so we are good
        // but we keep iterating to collect the full viewport.
        if selected == index {
            found_selected = true;
        }
        let truncation = if available_size == main_axis_size {
            // The last element, and it fits onto the viewport
            Truncation::Whole
        } else if available_size < main_axis_size {
            // The last element, and it needs to be truncated
            Truncation::Bot(main_axis_size - available_size)
        } else if is_first && state.view_state.first_truncated != 0 {
            // The first element was truncated in the last layout run,
            // we keep it truncated to handle scroll ups gracefully.
            Truncation::Top(state.view_state.first_truncated)
        } else {
            Truncation::Whole
        };
        let found_last = available_size <= main_axis_size;
        let ghost before = viewport@;
        viewport.insert(index, ViewportElement::new(widget, total_size, truncation));
        proof {
            assert(layout_of(viewport@) =~= layout_of(before).insert(
                index,
                (total_size, truncation),
            ));
        }
        if found_last {
            break;
        }
        available_size = available_size - main_axis_size;
        index += 1;
    }
    found_selected
}

/// The selected item is out of bounds. We iterate backwards from the selected
/// item and determine the first widget that still fits on the screen, then
/// fill the padding after the selected item.
fn backward_pass<T, F: Fn(&ListBuildContext) -> (T, u16)>(
    viewport: &mut HashMap<usize, ViewportElement<T>>,
    state: &mut ListState,
    cacher: &mut WidgetCacher<'_, T, F>,
    item_count: usize,
    total_main_axis_size: u16,
    selected: usize,
    scroll_padding_by_index: &HashMap<usize, u16>,
    Ghost(s): Ghost<Seq<u16>>,
)
    requires
        old(cacher).wf(),
        old(cacher).sizes_agree(s),
        s.len() == item_count,
        selected < item_count,
        old(viewport)@ == Map::<usize, ViewportElement<T>>::empty(),
    ensures
        final(cacher).wf(),
        final(cacher).same_pass(old(cacher)),
        final(cacher).all_built(final(viewport)@),
        ({
            let pad = padding_at(scroll_padding_by_index@, selected);
            let back = backward_walk(
                s,
                selected as int,
                pad,
                selected as int,
                total_main_axis_size as int,
                Map::empty(),
            );
            &&& layout_of(final(viewport)@) == if pad > 0 {
                fill_walk(s, selected + 1, pad, back.0)
            } else {
                back.0
            }
            &&& *final(state) == (ListState { view_state: back.1, ..*old(state) })
        }),
{
    let mut found_first = false;
    let mut available_size = total_main_axis_size;
    let scroll_padding_effective = padding_of(scroll_padding_by_index, selected);
    let ghost pad = scroll_padding_effective as int;
    let ghost target = backward_walk(
        s,
        selected as int,
        pad,
        selected as int,
        total_main_axis_size as int,
        Map::empty(),
    );
    proof {
        assert(layout_of(viewport@) =~= Map::empty());
    }
    let mut index = selected;
    loop
        invariant_except_break
            target == backward_walk(
                s,
                selected as int,
                pad,
                index as int,
                available_size as int,
                layout_of(viewport@),
            ),
            *state == *old(state),
            !found_first,
        invariant
            index <= selected < item_count,
            pad == scroll_padding_effective,
            target == backward_walk(
                s,
                selected as int,
                pad,
                selected as int,
                total_main_axis_size as int,
                Map::empty(),
            ),
            cacher.wf(),
            cacher.same_pass(old(cacher)),
            cacher.sizes_agree(s),
            cacher.all_built(viewport@),
            s.len() == item_count,
        ensures
            target.0 == layout_of(viewport@),
            *state == (ListState { view_state: target.1, ..*old(state) }),
        decreases index,
    {
        let (widget, main_axis_size) = cacher.get(index);
        assert(s[index as int] == main_axis_size);
        let available_effective = available_size.saturating_sub(scroll_padding_effective);
        let truncation = if available_effective == main_axis_size {
            // The first element, and it fits into the viewport
            found_first = true;
            state.view_state.offset = index;
            state.view_state.first_truncated = 0;
            Truncation::Whole
        } else if available_effective < main_axis_size {
            // The first element, and it needs to be truncated
            found_first = true;
            state.view_state.offset = index;
            state.view_state.first_truncated = main_axis_size - available_effective;
            // Truncate from the bottom if the selected element is the only
            // one on the viewport
            if index == selected && scroll_padding_effective == 0 {
                Truncation::Bot(state.view_state.first_truncated)
            } else {
                Truncation::Top(state.view_state.first_truncated)
            }
        } else {
            if index == 0 {
                // Everything up to the first element fits: the list starts
                // the viewport.
                state.view_state.offset = 0;
                state.view_state.first_truncated = 0;
            }
            Truncation::Whole
        };
        let ghost before = viewport@;
        viewport.insert(index, ViewportElement::new(widget, main_axis_size, truncation));
        proof {
            assert(layout_of(viewport@) =~= layout_of(before).insert(
                index,
                (main_axis_size, truncation),
            ));
        }
        if found_first || index == 0 {
            break;
        }
        available_size = available_size - main_axis_size;
        index -= 1;
    }
    // Append elements to the list to fill the viewport after the selected item.
    // Only necessary for lists with scroll padding.
    if scroll_padding_effective > 0 {
        available_size = scroll_padding_effective;
        let mut index = selected + 1;
        let ghost fill_target = fill_walk(s, selected + 1, pad, layout_of(viewport@));
        while index < item_count
            invariant_except_break
                fill_target == fill_walk(s, index as int, available_size as int, layout_of(viewport@)),
            invariant
                selected < index,
                cacher.wf(),
                cacher.same_pass(old(cacher)),
                cacher.sizes_agree(s),
                cacher.all_built(viewport@),
                s.len() == item_count,
            ensures
                fill_target == layout_of(viewport@),
            decreases item_count - index,
        {
            let (widget, main_axis_size) = cacher.get(index);
            assert(s[index as int] == main_axis_size);
            let truncation = if available_size >= main_axis_size {
                Truncation::Whole
            } else {
                Truncation::Bot(main_axis_size - available_size)
            };
            let ghost before = viewport@;
            viewport.insert(index, ViewportElement::new(widget, main_axis_size, truncation));
            proof {
                assert(layout_of(viewport@) =~= layout_of(before).insert(
                    index,
                    (main_axis_size, truncation),
                ));
            }
            available_size = available_size.saturating_sub(main_axis_size);
            // Out of bounds
            if available_size == 0 {
                break;
            }
            index += 1;
        }
    }
}

/// Determines the new viewport layout based on the previous viewport state, i.e.
/// the offset of the first element and the truncation of the first element.
///
/// Evaluates the sizes of the items lazily through the builder, updates the
/// view state (offset and truncation of the first element) and returns the
/// items that are shown in the viewport, keyed by their index.
pub fn layout_on_viewport<T, F: Fn(&ListBuildContext) -> (T, u16)>(
    state: &mut ListState,
    builder: &ListBuilder<F>,
    item_count: usize,
    total_main_axis_size: u16,
    cross_axis_size: u16,
    scroll_axis: ScrollAxis,
    scroll_padding: u16,
) -> (viewport: HashMap<usize, ViewportElement<T>>)
    requires
        builder.is_pure(),
    ensures
        ({
            let s = builder.sizes(
                item_count as nat,
                old(state).selected,
                scroll_axis,
                cross_axis_size,
            );
            let r = layout(
                s,
                total_main_axis_size,
                scroll_padding,
                old(state).selected,
                old(state).view_state,
            );
            &&& layout_of(viewport@) == r.0
            &&& *final(state) == (ListState {
                num_elements: item_count,
                view_state: r.1,
                ..*old(state)
            })
        }),
        forall|i: usize| #[trigger]
            viewport@.contains_key(i) ==> builder.builds(
                context_of(i, old(state).selected, scroll_axis, cross_axis_size),
                viewport@[i].widget,
                viewport@[i].main_axis_size,
            ),
{
    state.set_num_elements(item_count);
    if item_count == 0 {
        let viewport = HashMap::new();
        proof {
            assert(layout_of(viewport@) =~= Map::empty());
        }
        return viewport;
    }
    let ghost s = builder.sizes(item_count as nat, state.selected, scroll_axis, cross_axis_size);
    let ghost p = scroll_padding as int;
    // Cache the widgets and sizes to evaluate the builder less often.
    let mut cacher = WidgetCacher::new(builder, scroll_axis, cross_axis_size, state.selected);
    // If none is selected, the first item should be shown on top of the viewport.
    let selected = match state.selected {
        Some(i) => if i < item_count {
            i
        } else {
            0
        },
        None => 0,
    };
    let scroll_padding_by_index = calculate_effective_scroll_padding(
        state,
        builder,
        item_count,
        cross_axis_size,
        scroll_axis,
        scroll_padding,
    );
    assert(forall|i: usize|
        i < item_count ==> #[trigger] padding_at(scroll_padding_by_index@, i)
            == effective_padding(s, p, i as int));
    assert(cacher.sizes_agree(s));
    update_offset(state, &mut cacher, selected, &scroll_padding_by_index, Ghost(s));
    let mut viewport = HashMap::new();
    // A viewport without room shows nothing.
    if total_main_axis_size == 0 {
        proof {
            assert(layout_of(viewport@) =~= Map::empty());
        }
        return viewport;
    }
    let offset = state.view_state.offset;
    let found_selected = forward_pass(
        &mut viewport,
        state,
        &mut cacher,
        offset,
        item_count,
        total_main_axis_size,
        selected,
        &scroll_padding_by_index,
        Ghost(s),
        Ghost(p),
    );
    if found_selected {
        return viewport;
    }
    // Hand the items built so far back to the cache.
    let mut index = offset;
    while index < item_count
        invariant
            cacher.wf(),
            cacher.builder == builder,
            cacher.scroll_axis == scroll_axis,
            cacher.cross_axis_size == cross_axis_size,
            cacher.selected == state.selected,
            cacher.sizes_agree(s),
            cacher.all_built(viewport@),
        decreases item_count - index,
    {
        match viewport.remove(&index) {
            Some(element) => cacher.insert(index, element.widget, element.main_axis_size),
            None => break,
        }
        index += 1;
    }
    let mut viewport = HashMap::new();
    // The selected item was not found on the viewport: perform a backward
    // pass, starting from the selected item.
    backward_pass(
        &mut viewport,
        state,
        &mut cacher,
        item_count,
        total_main_axis_size,
        selected,
        &scroll_padding_by_index,
        Ghost(s),
    );
    viewport
}

/// Takes the elements of a layout out of `viewport` in index order, starting
/// at `offset` and stopping at the first index that is missing.
pub fn take_in_order<T>(viewport: &mut HashMap<usize, ViewportElement<T>>, offset: usize) -> (r: Vec<
    (usize, ViewportElement<T>),
>)
    ensures
        offset + r.len() <= usize::MAX + 1,
        forall|j: int|
            0 <= j < r.len() ==> #[trigger] r[j].0 == offset + j && old(viewport)@.contains_key(
                r[j].0,
            ) && r[j].1 == old(viewport)@[r[j].0],
        offset + r.len() <= usize::MAX ==> !old(viewport)@.contains_key(
            (offset + r.len()) as usize,
        ),
        final(viewport)@ == old(viewport)@.remove_keys(
            Set::new(|k: usize| offset <= k < offset + r.len()),
        ),
{
    let mut taken: Vec<(usize, ViewportElement<T>)> = Vec::new();
    let mut index = offset;
    loop
        invariant_except_break
            index == offset + taken.len(),
            viewport@ == old(viewport)@.remove_keys(Set::new(|k: usize| offset <= k < index)),
        invariant
            offset <= index,
            forall|j: int|
                0 <= j < taken.len() ==> #[trigger] taken[j].0 == offset + j && old(
                    viewport,
                )@.contains_key(taken[j].0) && taken[j].1 == old(viewport)@[taken[j].0],
        ensures
            offset + taken.len() <= usize::MAX + 1,
            forall|j: int|
                0 <= j < taken.len() ==> #[trigger] taken[j].0 == offset + j && old(
                    viewport,
                )@.contains_key(taken[j].0) && taken[j].1 == old(viewport)@[taken[j].0],
            offset + taken.len() <= usize::MAX ==> !old(viewport)@.contains_key(
                (offset + taken.len()) as usize,
            ),
            viewport@ == old(viewport)@.remove_keys(
                Set::new(|k: usize| offset <= k < offset + taken.len()),
            ),
        decreases usize::MAX - index,
    {
        let ghost before = viewport@;
        match viewport.remove(&index) {
            Some(element) => {
                taken.push((index, element));
                proof {
                    assert(viewport@ =~= old(viewport)@.remove_keys(
                        Set::new(|k: usize| offset <= k < index + 1),
                    ));
                }
            },
            None => {
                break;
            },
        }
        if index == usize::MAX {
            break;
        }
        index += 1;
    }
    taken
}

} // verus!
