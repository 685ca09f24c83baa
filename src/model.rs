//! The layout of a list as mathematics: sizes are a sequence, the result a map
//! from index to (untruncated size, truncation).
use vstd::prelude::*;

use crate::element::Truncation;
use crate::state::ViewState;

verus! {

/// `a - b`, floored at zero.
pub open spec fn sat_sub(a: int, b: int) -> int {
    if a > b {
        a - b
    } else {
        0
    }
}

/// The sum of `s[lo..hi]`.
pub open spec fn sum_range(s: Seq<u16>, lo: int, hi: int) -> int
    decreases hi - lo,
{
    if lo >= hi {
        0
    } else {
        s[lo] as int + sum_range(s, lo + 1, hi)
    }
}

/// Adding the next item at the end.
pub proof fn lemma_sum_range_push(s: Seq<u16>, lo: int, hi: int)
    requires
        0 <= lo <= hi < s.len(),
    ensures
        sum_range(s, lo, hi + 1) == sum_range(s, lo, hi) + s[hi],
    decreases hi - lo,
{
    if lo < hi {
        lemma_sum_range_push(s, lo + 1, hi);
    } else {
        assert(sum_range(s, hi + 1, hi + 1) == 0);
    }
}

/// A range that starts earlier sums to at least as much.
pub proof fn lemma_sum_range_mono(s: Seq<u16>, lo1: int, lo2: int, hi: int)
    requires
        lo1 <= lo2,
    ensures
        sum_range(s, lo1, hi) >= sum_range(s, lo2, hi),
        sum_range(s, lo2, hi) >= 0,
    decreases lo2 - lo1 + (hi - lo2) + (hi - lo1),
{
    if lo2 < hi {
        lemma_sum_range_mono(s, lo2 + 1, lo2 + 1, hi);
    }
    if lo1 < lo2 && lo1 < hi {
        lemma_sum_range_mono(s, lo1 + 1, lo2, hi);
    }
}

/// The padding that item `i` gets: what lies below it if that is less than
/// `padding`, else what lies above it, capped at `padding`.
pub open spec fn effective_padding(s: Seq<u16>, padding: int, i: int) -> int {
    let below = sum_range(s, i + 1, s.len() as int);
    let above = sum_range(s, 0, i);
    if below < padding {
        below
    } else if above < padding {
        above
    } else {
        padding
    }
}

/// The item that positions the viewport: the selected one, or the first when
/// the selection is empty or out of range.
pub open spec fn anchor_index(selected: Option<usize>, n: nat) -> int {
    match selected {
        Some(i) => if i < n {
            i as int
        } else {
            0
        },
        None => 0,
    }
}

/// Walks upwards from `index` while `avail` units of padding are left.
/// Returns the index where the padding ran out (or 0) and the truncation
/// recorded on the way.
pub open spec fn padding_walk(s: Seq<u16>, index: int, avail: int, trunc: int) -> (int, int)
    decreases index,
{
    if avail == 0 || index <= 0 {
        if avail == 0 {
            (index, trunc)
        } else {
            let a = sat_sub(avail, s[index] as int);
            (0, if a > 0 { sat_sub(s[index] as int, a) } else { trunc })
        }
    } else {
        let a = sat_sub(avail, s[index] as int);
        padding_walk(s, index - 1, a, if a > 0 { sat_sub(s[index] as int, a) } else { trunc })
    }
}

/// The view after pulling the selection's top padding into view: it moves to
/// the walk's result when that lies above the current offset, or equals it
/// while the current first item is truncated.
pub open spec fn corrected_view(s: Seq<u16>, sel: int, pad_top: int, view: ViewState) -> ViewState {
    let (first, trunc) = padding_walk(s, sel, pad_top, 0);
    if first < view.offset || (first == view.offset && view.first_truncated > 0) {
        ViewState { offset: first as usize, first_truncated: trunc as u16 }
    } else {
        view
    }
}

/// What the walk from the offset towards the end of the list yields: the
/// items placed and whether the selection was among them.
pub open spec fn forward_walk(
    s: Seq<u16>,
    padding: int,
    sel: int,
    view: ViewState,
    index: int,
    avail: int,
    found: bool,
    placed: Map<usize, (u16, Truncation)>,
) -> (Map<usize, (u16, Truncation)>, bool)
    decreases s.len() - index,
{
    if index < 0 || index >= s.len() {
        (placed, found)
    } else {
        let is_first = index == view.offset;
        let size = s[index] as int;
        let main = if is_first {
            sat_sub(size, view.first_truncated as int)
        } else {
            size
        };
        let avail_effective = sat_sub(avail, effective_padding(s, padding, index));
        if !found && main >= avail_effective {
            (placed, found)
        } else {
            let now_found = found || index == sel;
            let truncation = if avail == main {
                Truncation::Whole
            } else if avail < main {
                Truncation::Bot((main - avail) as u16)
            } else if is_first && view.first_truncated != 0 {
                Truncation::Top(view.first_truncated)
            } else {
                Truncation::Whole
            };
            let now_placed = placed.insert(index as usize, (s[index], truncation));
            if avail <= main {
                (now_placed, now_found)
            } else {
                forward_walk(
                    s,
                    padding,
                    sel,
                    view,
                    index + 1,
                    avail - main,
                    now_found,
                    now_placed,
                )
            }
        }
    }
}

/// What the walk from the selection towards the top yields: the items placed
/// and the new view, which starts at the item that fills the viewport, or at
/// the first item. An item clipped there loses its leading edge, unless it is
/// the selection and nothing follows it, where it loses its trailing edge.
pub open spec fn backward_walk(
    s: Seq<u16>,
    sel: int,
    pad: int,
    index: int,
    avail: int,
    placed: Map<usize, (u16, Truncation)>,
) -> (Map<usize, (u16, Truncation)>, ViewState)
    decreases index,
{
    let size = s[index] as int;
    let avail_effective = sat_sub(avail, pad);
    if avail_effective == size {
        (
            placed.insert(index as usize, (s[index], Truncation::Whole)),
            ViewState { offset: index as usize, first_truncated: 0 },
        )
    } else if avail_effective < size {
        let cut = (size - avail_effective) as u16;
        (
            placed.insert(
                index as usize,
                (
                    s[index],
                    if index == sel && pad == 0 {
                        Truncation::Bot(cut)
                    } else {
                        Truncation::Top(cut)
                    },
                ),
            ),
            ViewState { offset: index as usize, first_truncated: cut },
        )
    } else if index <= 0 {
        (
            placed.insert(index as usize, (s[index], Truncation::Whole)),
            ViewState { offset: 0, first_truncated: 0 },
        )
    } else {
        backward_walk(
            s,
            sel,
            pad,
            index - 1,
            avail - size,
            placed.insert(index as usize, (s[index], Truncation::Whole)),
        )
    }
}

/// Places the items after the selection while `avail` units of padding are
/// left, clipping the last one at its trailing edge.
pub open spec fn fill_walk(
    s: Seq<u16>,
    index: int,
    avail: int,
    placed: Map<usize, (u16, Truncation)>,
) -> Map<usize, (u16, Truncation)>
    decreases s.len() - index,
{
    if index < 0 || index >= s.len() {
        placed
    } else {
        let size = s[index] as int;
        let truncation = if avail >= size {
            Truncation::Whole
        } else {
            Truncation::Bot((size - avail) as u16)
        };
        let now_placed = placed.insert(index as usize, (s[index], truncation));
        if sat_sub(avail, size) == 0 {
            now_placed
        } else {
            fill_walk(s, index + 1, sat_sub(avail, size), now_placed)
        }
    }
}

/// The layout of items of sizes `s` in a viewport of extent `total`, with
/// `padding` units kept around the selection, starting from `view`: the
/// visible items and the view for the next pass. A viewport without room
/// shows nothing, but the view is still corrected.
pub open spec fn layout(
    s: Seq<u16>,
    total: u16,
    padding: u16,
    selected: Option<usize>,
    view: ViewState,
) -> (Map<usize, (u16, Truncation)>, ViewState) {
    if s.len() == 0 {
        (Map::empty(), view)
    } else {
        let sel = anchor_index(selected, s.len());
        let pad = effective_padding(s, padding as int, sel);
        let v = corrected_view(s, sel, pad, view);
        if total == 0 {
            (Map::empty(), v)
        } else {
            let (placed, found) = forward_walk(
                s,
                padding as int,
                sel,
                v,
                v.offset as int,
                total as int,
                false,
                Map::empty(),
            );
            if found {
                (placed, v)
            } else {
                let (back, next_view) = backward_walk(
                    s,
                    sel,
                    pad,
                    sel,
                    total as int,
                    Map::empty(),
                );
                if pad > 0 {
                    (fill_walk(s, sel + 1, pad, back), next_view)
                } else {
                    (back, next_view)
                }
            }
        }
    }
}

} // verus!
