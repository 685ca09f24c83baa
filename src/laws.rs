//! What holds of every layout.
use vstd::prelude::*;

use crate::element::{visible_size, Truncation};
use crate::model::{
    anchor_index, backward_walk, corrected_view, effective_padding, fill_walk, forward_walk,
    layout, padding_walk, sat_sub, sum_range,
};
use crate::state::ViewState;

verus! {

/// The units on screen taken by the items of `m` whose index lies in `[lo, hi)`.
pub open spec fn shown(m: Map<usize, (u16, Truncation)>, lo: int, hi: int) -> int
    decreases hi - lo,
{
    if lo >= hi {
        0
    } else {
        (if m.contains_key(lo as usize) {
            visible_size(m[lo as usize].0, m[lo as usize].1)
        } else {
            0
        }) + shown(m, lo + 1, hi)
    }
}

/// A truncated item stands at an edge of `m`: `Top` at the lowest index,
/// `Bot` at the highest.
pub open spec fn truncated_at_edges(m: Map<usize, (u16, Truncation)>) -> bool {
    forall|k: usize, j: usize|
        #![trigger m.contains_key(k), m.contains_key(j)]
        m.contains_key(k) && m.contains_key(j) ==> {
            &&& m[k].1 is Top ==> k <= j
            &&& m[k].1 is Bot ==> j <= k
        }
}

/// The padding kept below the selection, as far as there are items to fill
/// it, fits in the viewport.
pub open spec fn padding_below_fits(s: Seq<u16>, total: u16, padding: u16, selected: Option<usize>) -> bool {
    s.len() == 0 || total == 0 || {
        let sel = anchor_index(selected, s.len());
        let pad = effective_padding(s, padding as int, sel);
        let below = sum_range(s, sel + 1, s.len() as int);
        (if pad < below {
            pad
        } else {
            below
        }) <= total
    }
}

proof fn lemma_shown_insert(
    m: Map<usize, (u16, Truncation)>,
    k: usize,
    x: (u16, Truncation),
    lo: int,
    hi: int,
)
    requires
        !m.contains_key(k),
        0 <= lo,
        hi <= usize::MAX,
    ensures
        lo <= k < hi ==> shown(m.insert(k, x), lo, hi) == shown(m, lo, hi) + visible_size(x.0, x.1),
        !(lo <= k < hi) ==> shown(m.insert(k, x), lo, hi) == shown(m, lo, hi),
    decreases hi - lo,
{
    if lo < hi {
        lemma_shown_insert(m, k, x, lo + 1, hi);
    }
}

/// `m` holds exactly the indices in `[lo, hi)`.
pub open spec fn runs_over(m: Map<usize, (u16, Truncation)>, lo: int, hi: int) -> bool {
    forall|k: usize| #[trigger] m.contains_key(k) <==> lo <= k < hi
}

/// Every entry of `m` has the size that `s` gives its index, and a clip of
/// more than nothing.
pub open spec fn sized_and_clipped(s: Seq<u16>, m: Map<usize, (u16, Truncation)>) -> bool {
    forall|k: usize| #[trigger]
        m.contains_key(k) ==> k < s.len() && m[k].0 == s[k as int] && (!(m[k].1 is Whole)
            ==> m[k].1.amount() > 0)
}

proof fn lemma_forward(
    s: Seq<u16>,
    p: int,
    sel: int,
    view: ViewState,
    index: int,
    avail: int,
    found: bool,
    placed: Map<usize, (u16, Truncation)>,
) -> (end: int)
    requires
        s.len() <= usize::MAX,
        0 <= p,
        view.offset <= index,
        index == view.offset ==> !found,
        0 <= avail,
        runs_over(placed, view.offset as int, index),
        sized_and_clipped(s, placed),
        forall|k: usize| #[trigger]
            placed.contains_key(k) ==> !(placed[k].1 is Bot) && (placed[k].1 is Top ==> k
                == view.offset),
    ensures
        ({
            let r = forward_walk(s, p, sel, view, index, avail, found, placed);
            &&& runs_over(r.0, view.offset as int, end)
            &&& forall|k: usize| placed.contains_key(k) ==> #[trigger] r.0.contains_key(k)
            &&& sized_and_clipped(s, r.0)
            &&& r.1 ==> found || r.0.contains_key(sel as usize)
            &&& forall|k: usize| #[trigger]
                r.0.contains_key(k) && r.0[k].1 is Top ==> k == view.offset
            &&& truncated_at_edges(r.0)
            &&& shown(r.0, 0, s.len() as int) <= shown(placed, 0, s.len() as int) + avail
        }),
    decreases s.len() - index,
{
    if index < 0 || index >= s.len() {
        return index;
    }
    let is_first = index == view.offset;
    let size = s[index] as int;
    let main = if is_first {
        sat_sub(size, view.first_truncated as int)
    } else {
        size
    };
    let avail_effective = sat_sub(avail, effective_padding(s, p, index));
    crate::model::lemma_sum_range_mono(s, index + 1, index + 1, s.len() as int);
    crate::model::lemma_sum_range_mono(s, 0, 0, index);
    assert(avail_effective <= avail);
    if !found && main >= avail_effective {
        return index;
    }
    let now_found = found || index == sel;
    let truncation = if avail == main {
        Truncation::Whole
    } else if avail < main {
        Truncation::Bot((main - avail) as u16)
    } else if is_first && view.first_truncated != 0 {
        Truncation::Top(view.first_truncated)
    } else {
        Truncation::Whole
    };
    let now_placed = placed.insert(index as usize, (s[index], truncation));
    lemma_shown_insert(placed, index as usize, (s[index], truncation), 0, s.len() as int);
    assert(visible_size(s[index], truncation) <= avail);
    if avail <= main {
        assert(!is_first);
        index + 1
    } else {
        assert(visible_size(s[index], truncation) == main);
        lemma_forward(s, p, sel, view, index + 1, avail - main, now_found, now_placed)
    }
}

proof fn lemma_backward(
    s: Seq<u16>,
    sel: int,
    pad: int,
    index: int,
    avail: int,
    placed: Map<usize, (u16, Truncation)>,
)
    requires
        s.len() <= usize::MAX,
        0 <= index <= sel < s.len(),
        0 <= avail,
        0 <= pad,
        runs_over(placed, index + 1, sel + 1),
        forall|k: usize| #[trigger]
            placed.contains_key(k) ==> placed[k] == (s[k as int], Truncation::Whole),
    ensures
        ({
            let r = backward_walk(s, sel, pad, index, avail, placed);
            &&& r.1.offset <= index
            &&& runs_over(r.0, r.1.offset as int, sel + 1)
            &&& sized_and_clipped(s, r.0)
            &&& forall|k: usize| #[trigger]
                r.0.contains_key(k) && r.0[k].1 is Top ==> k == r.1.offset
            &&& forall|k: usize| #[trigger]
                r.0.contains_key(k) && r.0[k].1 is Bot ==> k == sel == r.1.offset && pad == 0
            &&& shown(r.0, 0, s.len() as int) <= shown(placed, 0, s.len() as int) + sat_sub(
                avail,
                pad,
            )
        }),
    decreases index,
{
    let size = s[index] as int;
    let avail_effective = sat_sub(avail, pad);
    if avail_effective == size {
        lemma_shown_insert(
            placed,
            index as usize,
            (s[index], Truncation::Whole),
            0,
            s.len() as int,
        );
    } else if avail_effective < size {
        let cut = (size - avail_effective) as u16;
        let t = if index == sel && pad == 0 {
            Truncation::Bot(cut)
        } else {
            Truncation::Top(cut)
        };
        lemma_shown_insert(placed, index as usize, (s[index], t), 0, s.len() as int);
    } else {
        lemma_shown_insert(
            placed,
            index as usize,
            (s[index], Truncation::Whole),
            0,
            s.len() as int,
        );
        if index > 0 {
            lemma_backward(
                s,
                sel,
                pad,
                index - 1,
                avail - size,
                placed.insert(index as usize, (s[index], Truncation::Whole)),
            );
        }
    }
}

proof fn lemma_fill(
    s: Seq<u16>,
    lo: int,
    index: int,
    avail: int,
    placed: Map<usize, (u16, Truncation)>,
) -> (end: int)
    requires
        s.len() <= usize::MAX,
        0 <= lo <= index <= s.len(),
        0 <= avail,
        runs_over(placed, lo, index),
    ensures
        ({
            let r = fill_walk(s, index, avail, placed);
            &&& index <= end <= s.len()
            &&& runs_over(r, lo, end)
            &&& forall|k: usize| placed.contains_key(k) ==> #[trigger] r[k] == placed[k]
            &&& forall|k: usize| #[trigger]
                r.contains_key(k) && !placed.contains_key(k) ==> r[k].0 == s[k as int] && !(
                r[k].1 is Top) && (r[k].1 is Bot ==> k == end - 1 && r[k].1.amount() > 0)
            &&& shown(r, 0, s.len() as int) <= shown(placed, 0, s.len() as int) + if avail
                < sum_range(s, index, s.len() as int) {
                avail
            } else {
                sum_range(s, index, s.len() as int)
            }
        }),
    decreases s.len() - index,
{
    if index >= s.len() {
        return index;
    }
    let size = s[index] as int;
    let truncation = if avail >= size {
        Truncation::Whole
    } else {
        Truncation::Bot((size - avail) as u16)
    };
    let now_placed = placed.insert(index as usize, (s[index], truncation));
    lemma_shown_insert(placed, index as usize, (s[index], truncation), 0, s.len() as int);
    crate::model::lemma_sum_range_mono(s, index + 1, index + 1, s.len() as int);
    if sat_sub(avail, size) != 0 {
        lemma_fill(s, lo, index + 1, sat_sub(avail, size), now_placed)
    } else {
        index + 1
    }
}

proof fn lemma_padding_walk_above(s: Seq<u16>, index: int, avail: int, trunc: int)
    requires
        0 <= index,
    ensures
        0 <= padding_walk(s, index, avail, trunc).0 <= index,
    decreases index,
{
    if avail != 0 && index > 0 {
        let a = sat_sub(avail, s[index] as int);
        lemma_padding_walk_above(
            s,
            index - 1,
            a,
            if a > 0 {
                sat_sub(s[index] as int, a)
            } else {
                trunc
            },
        );
    }
}

proof fn lemma_shown_empty(lo: int, hi: int)
    ensures
        shown(Map::empty(), lo, hi) == 0,
    decreases hi - lo,
{
    if lo < hi {
        lemma_shown_empty(lo + 1, hi);
    }
}

proof fn lemma_padding_nonneg(s: Seq<u16>, padding: int, i: int)
    requires
        0 <= padding,
    ensures
        0 <= effective_padding(s, padding, i) <= padding,
{
    crate::model::lemma_sum_range_mono(s, i + 1, i + 1, s.len() as int);
    crate::model::lemma_sum_range_mono(s, 0, 0, i);
}

/// Establishes the facts that the laws below draw on: for a list with items
/// and a viewport with room, the shape of each walk that `layout` takes.
proof fn lemma_walks(s: Seq<u16>, total: u16, padding: u16, selected: Option<usize>, view: ViewState)
    requires
        s.len() <= usize::MAX,
        s.len() > 0,
        total > 0,
    ensures
        ({
            let sel = anchor_index(selected, s.len());
            let pad = effective_padding(s, padding as int, sel);
            let v = corrected_view(s, sel, pad, view);
            let fwd = forward_walk(
                s,
                padding as int,
                sel,
                v,
                v.offset as int,
                total as int,
                false,
                Map::empty(),
            );
            let back = backward_walk(s, sel, pad, sel, total as int, Map::empty());
            let r = layout(s, total, padding, selected, view);
            &&& 0 <= pad <= padding
            &&& v.offset <= sel
            &&& fwd.1 ==> fwd.0.contains_key(sel as usize) && r == (fwd.0, v)
            &&& !fwd.1 ==> r.1 == back.1 && r.0.contains_key(sel as usize)
            &&& sized_and_clipped(s, r.0)
            &&& truncated_at_edges(r.0)
            &&& exists|end: int| runs_over(r.0, r.1.offset as int, end)
            &&& r.1.offset <= sel
        }),
{
    let sel = anchor_index(selected, s.len());
    let pad = effective_padding(s, padding as int, sel);
    let v = corrected_view(s, sel, pad, view);
    lemma_padding_nonneg(s, padding as int, sel);
    lemma_padding_walk_above(s, sel, pad, 0);
    let r = layout(s, total, padding, selected, view);
    let fwd = forward_walk(s, padding as int, sel, v, v.offset as int, total as int, false, Map::empty());
    if v.offset <= sel {
        let end = lemma_forward(
            s,
            padding as int,
            sel,
            v,
            v.offset as int,
            total as int,
            false,
            Map::empty(),
        );
        if fwd.1 {
            assert(runs_over(r.0, r.1.offset as int, end));
        }
    }
    if !fwd.1 {
        lemma_backward(s, sel, pad, sel, total as int, Map::empty());
        let back = backward_walk(s, sel, pad, sel, total as int, Map::empty());
        if pad > 0 {
            let end = lemma_fill(s, back.1.offset as int, sel + 1, pad, back.0);
            assert(runs_over(r.0, r.1.offset as int, end));
            assert forall|k: usize, j: usize|
                #![trigger r.0.contains_key(k), r.0.contains_key(j)]
                r.0.contains_key(k) && r.0.contains_key(j) implies {
                &&& r.0[k].1 is Top ==> k <= j
                &&& r.0[k].1 is Bot ==> j <= k
            } by {
                if back.0.contains_key(k) && back.0.contains_key(j) {
                    assert(back.0.contains_key(j));
                }
            }
        } else {
            assert(runs_over(r.0, r.1.offset as int, sel + 1));
        }
    }
}

/// Every layout pass shows the selected item, or the first one when nothing
/// is selected, as long as the list has items and the viewport has room.
pub proof fn lemma_selection_visible(
    s: Seq<u16>,
    total: u16,
    padding: u16,
    selected: Option<usize>,
    view: ViewState,
)
    requires
        s.len() <= usize::MAX,
        s.len() > 0,
        total > 0,
        selected is Some ==> selected.unwrap() < s.len(),
    ensures
        layout(s, total, padding, selected, view).0.contains_key(
            match selected {
                Some(i) => i,
                None => 0,
            },
        ),
{
    lemma_walks(s, total, padding, selected, view);
}

/// The items of a layout take no more room on screen than the viewport has,
/// unless the padding kept below the selection alone exceeds the viewport.
pub proof fn lemma_layout_fits_viewport(
    s: Seq<u16>,
    total: u16,
    padding: u16,
    selected: Option<usize>,
    view: ViewState,
)
    requires
        s.len() <= usize::MAX,
        padding_below_fits(s, total, padding, selected),
    ensures
        forall|k: usize| #[trigger]
            layout(s, total, padding, selected, view).0.contains_key(k) ==> k < s.len(),
        shown(layout(s, total, padding, selected, view).0, 0, s.len() as int) <= total,
{
    lemma_shown_empty(0, s.len() as int);
    if s.len() == 0 || total == 0 {
        return;
    }
    lemma_walks(s, total, padding, selected, view);
    let sel = anchor_index(selected, s.len());
    let pad = effective_padding(s, padding as int, sel);
    let v = corrected_view(s, sel, pad, view);
    let fwd = forward_walk(s, padding as int, sel, v, v.offset as int, total as int, false, Map::empty());
    if fwd.1 {
        lemma_forward(s, padding as int, sel, v, v.offset as int, total as int, false, Map::empty());
    } else {
        lemma_backward(s, sel, pad, sel, total as int, Map::empty());
        let back = backward_walk(s, sel, pad, sel, total as int, Map::empty());
        if pad > 0 {
            lemma_fill(s, back.1.offset as int, sel + 1, pad, back.0);
        }
    }
}

/// A `Top` truncation stands only at the lowest index of a layout and a `Bot`
/// truncation only at the highest.
pub proof fn lemma_truncation_at_edges(
    s: Seq<u16>,
    total: u16,
    padding: u16,
    selected: Option<usize>,
    view: ViewState,
)
    requires
        s.len() <= usize::MAX,
    ensures
        truncated_at_edges(layout(s, total, padding, selected, view).0),
{
    if s.len() > 0 && total > 0 {
        lemma_walks(s, total, padding, selected, view);
    }
}

/// The visible items of a layout run without gaps from the new offset, which
/// lies at or above the selected item (the first one when nothing is selected
/// or the selection is out of range). Each keeps the size that the list gives
/// it, and a clipped item loses more than nothing.
pub proof fn lemma_layout_shape(
    s: Seq<u16>,
    total: u16,
    padding: u16,
    selected: Option<usize>,
    view: ViewState,
)
    requires
        s.len() <= usize::MAX,
    ensures
        exists|end: int|
            runs_over(
                layout(s, total, padding, selected, view).0,
                layout(s, total, padding, selected, view).1.offset as int,
                end,
            ),
        sized_and_clipped(s, layout(s, total, padding, selected, view).0),
        s.len() > 0 ==> layout(s, total, padding, selected, view).1.offset <= anchor_index(
            selected,
            s.len(),
        ),
{
    let r = layout(s, total, padding, selected, view);
    if s.len() > 0 && total > 0 {
        lemma_walks(s, total, padding, selected, view);
    } else {
        assert(runs_over(r.0, r.1.offset as int, r.1.offset as int));
        if s.len() > 0 {
            let sel = anchor_index(selected, s.len());
            lemma_padding_nonneg(s, padding as int, sel);
            lemma_padding_walk_above(s, sel, effective_padding(s, padding as int, sel), 0);
        }
    }
}

proof fn lemma_backward_reach(
    s: Seq<u16>,
    sel: int,
    pad: int,
    index: int,
    avail: int,
    placed: Map<usize, (u16, Truncation)>,
)
    requires
        s.len() <= usize::MAX,
        0 <= index <= sel < s.len(),
        0 <= pad,
    ensures
        ({
            let w = backward_walk(s, sel, pad, index, avail, placed).1;
            w.offset > 0 ==> avail - pad <= sum_range(s, w.offset as int, index + 1)
                && w.offset <= index
        }),
    decreases index,
{
    let size = s[index] as int;
    crate::model::lemma_sum_range_mono(s, index + 1, index + 1, index + 1);
    crate::model::lemma_sum_range_mono(s, index, index + 1, index + 1);
    assert(sum_range(s, index + 1, index + 1) == 0);
    assert(sum_range(s, index, index + 1) == size);
    if sat_sub(avail, pad) > size && index > 0 {
        lemma_backward_reach(
            s,
            sel,
            pad,
            index - 1,
            avail - size,
            placed.insert(index as usize, (s[index], Truncation::Whole)),
        );
        let w = backward_walk(s, sel, pad, index, avail, placed).1;
        if w.offset > 0 {
            crate::model::lemma_sum_range_push(s, w.offset as int, index);
        }
    }
}

proof fn lemma_forward_reach(
    s: Seq<u16>,
    p: int,
    sel: int,
    view: ViewState,
    index: int,
    avail: int,
    placed: Map<usize, (u16, Truncation)>,
)
    requires
        0 <= p,
        view.offset <= index <= sel < s.len(),
    ensures
        forward_walk(s, p, sel, view, index, avail, false, placed).1 ==> avail > sum_range(
            s,
            index + 1,
            sel + 1,
        ) + effective_padding(s, p, sel) + if index == view.offset {
            sat_sub(s[index] as int, view.first_truncated as int)
        } else {
            s[index] as int
        },
    decreases sel - index,
{
    let is_first = index == view.offset;
    let size = s[index] as int;
    let main = if is_first {
        sat_sub(size, view.first_truncated as int)
    } else {
        size
    };
    lemma_padding_nonneg(s, p, index);
    crate::model::lemma_sum_range_mono(s, sel + 1, sel + 1, sel + 1);
    if index < sel && avail > main && main < sat_sub(avail, effective_padding(s, p, index)) {
        let truncation = if is_first && view.first_truncated != 0 {
            Truncation::Top(view.first_truncated)
        } else {
            Truncation::Whole
        };
        lemma_forward_reach(
            s,
            p,
            sel,
            view,
            index + 1,
            avail - main,
            placed.insert(index as usize, (s[index], truncation)),
        );
    }
}

/// Laying out again with the same items, viewport, padding and selection
/// leaves the offset where the previous pass put it. This holds whether or not
/// the selected item was shown whole.
pub proof fn lemma_stable_offset(
    s: Seq<u16>,
    total: u16,
    padding: u16,
    selected: Option<usize>,
    view: ViewState,
)
    requires
        s.len() <= usize::MAX,
    ensures
        layout(s, total, padding, selected, layout(s, total, padding, selected, view).1).1.offset
            == layout(s, total, padding, selected, view).1.offset,
{
    if s.len() == 0 {
        return;
    }
    let sel = anchor_index(selected, s.len());
    let pad = effective_padding(s, padding as int, sel);
    lemma_padding_nonneg(s, padding as int, sel);
    lemma_padding_walk_above(s, sel, pad, 0);
    let u1 = corrected_view(s, sel, pad, view);
    let v1 = layout(s, total, padding, selected, view).1;
    let u2 = corrected_view(s, sel, pad, v1);
    if total == 0 {
        assert(u2 == u1);
        return;
    }
    let f1 = forward_walk(s, padding as int, sel, u1, u1.offset as int, total as int, false, Map::empty());
    let back = backward_walk(s, sel, pad, sel, total as int, Map::empty());
    let f2 = forward_walk(s, padding as int, sel, u2, u2.offset as int, total as int, false, Map::empty());
    if f1.1 {
        assert(u2 == u1);
    } else if f2.1 && u2.offset != v1.offset {
        let w = back.1;
        lemma_backward_reach(s, sel, pad, sel, total as int, Map::empty());
        assert(u2.offset < w.offset);
        lemma_forward_reach(s, padding as int, sel, u2, u2.offset as int, total as int, Map::empty());
        crate::model::lemma_sum_range_mono(s, u2.offset + 1, w.offset as int, sel + 1);
        assert(false);
    }
}

} // verus!
