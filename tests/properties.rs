use std::cell::Cell;
use std::collections::HashMap;

use tui_widget_list::{
    layout_on_viewport, ListBuilder, ListState, ScrollAxis, Truncation, ViewState,
    ViewportElement,
};

fn run(
    state: &mut ListState,
    sizes: &[u16],
    total: u16,
    padding: u16,
) -> HashMap<usize, ViewportElement<usize>> {
    let sizes = sizes.to_vec();
    let count = sizes.len();
    layout_on_viewport(
        state,
        &ListBuilder::new(move |context| (context.index, sizes[context.index])),
        count,
        total,
        3,
        ScrollAxis::Vertical,
        padding,
    )
}

fn state_at(selected: Option<usize>, offset: usize, first_truncated: u16) -> ListState {
    ListState {
        selected,
        view_state: ViewState {
            offset,
            first_truncated,
        },
        ..ListState::default()
    }
}

fn on_screen(viewport: &HashMap<usize, ViewportElement<usize>>) -> u32 {
    viewport
        .values()
        .map(|e| e.main_axis_size.saturating_sub(e.truncation.value()) as u32)
        .sum()
}

#[test]
fn empty_list_leaves_offset() {
    let mut state = state_at(Some(2), 3, 1);
    let viewport = run(&mut state, &[], 10, 0);
    assert!(viewport.is_empty());
    assert_eq!(state.view_state, ViewState { offset: 3, first_truncated: 1 });
    assert_eq!(state.num_elements, 0);
}

#[test]
fn zero_viewport_shows_nothing() {
    let mut state = state_at(Some(1), 0, 0);
    let viewport = run(&mut state, &[3, 3, 3], 0, 0);
    assert!(viewport.is_empty());
    assert_eq!(state.view_state, ViewState { offset: 0, first_truncated: 0 });
    assert_eq!(state.num_elements, 3);
}

#[test]
fn visible_sizes_fit_viewport() {
    let sizes = [3, 1, 4, 1, 5, 9, 2, 6];
    for total in 1..12 {
        for selected in 0..sizes.len() {
            for padding in 0..3.min(total + 1) {
                let mut state = state_at(Some(selected), 2, 1);
                let viewport = run(&mut state, &sizes, total, padding);
                assert!(on_screen(&viewport) <= total as u32);
            }
        }
    }
}

#[test]
fn selection_always_shown() {
    let sizes = [2, 7, 1, 3, 3, 8];
    for total in 1..10 {
        for selected in 0..sizes.len() {
            for offset in 0..sizes.len() {
                let mut state = state_at(Some(selected), offset, 0);
                let viewport = run(&mut state, &sizes, total, 1);
                assert!(viewport.contains_key(&selected));
            }
        }
    }
    let mut state = state_at(None, 4, 0);
    let viewport = run(&mut state, &sizes, 5, 0);
    assert!(viewport.contains_key(&0));
}

#[test]
fn offset_stable_on_repeat() {
    let sizes = [2, 3, 3, 1, 4];
    for total in 1..9 {
        for selected in 0..sizes.len() {
            for offset in 0..sizes.len() {
                let mut state = state_at(Some(selected), offset, 1);
                run(&mut state, &sizes, total, 1);
                let first = state.view_state.offset;
                run(&mut state, &sizes, total, 1);
                assert_eq!(state.view_state.offset, first);
            }
        }
    }
}

#[test]
fn truncation_only_at_edges() {
    let sizes = [2, 3, 1, 4, 2, 10, 2];
    for total in 1..9 {
        for selected in 0..sizes.len() {
            for offset in 0..sizes.len() {
                for padding in 0..4 {
                    let mut state = state_at(Some(selected), offset, 1);
                    let viewport = run(&mut state, &sizes, total, padding);
                    let lowest = *viewport.keys().min().unwrap();
                    let highest = *viewport.keys().max().unwrap();
                    for (index, element) in &viewport {
                        match element.truncation {
                            Truncation::Top(n) => {
                                assert_eq!(*index, lowest);
                                assert!(n > 0);
                            }
                            Truncation::Bot(n) => {
                                assert_eq!(*index, highest);
                                assert!(n > 0);
                            }
                            Truncation::Whole => {}
                        }
                    }
                }
            }
        }
    }
}

#[test]
fn visible_items_follow_the_offset() {
    let sizes = [2, 3, 1, 4, 2, 10, 2];
    for total in 1..9 {
        for selected in 0..sizes.len() {
            for offset in 0..sizes.len() {
                for padding in 0..4 {
                    let mut state = state_at(Some(selected), offset, 1);
                    let viewport = run(&mut state, &sizes, total, padding);
                    let start = state.view_state.offset;
                    assert!(start <= selected);
                    for index in start..start + viewport.len() {
                        assert_eq!(viewport[&index].main_axis_size, sizes[index]);
                    }
                }
            }
        }
    }
}

#[test]
fn clipped_selection_with_padding_below() {
    let mut state = state_at(Some(1), 0, 0);
    let viewport = run(&mut state, &[2, 10, 2], 4, 1);
    assert_eq!(
        layout_of(&viewport),
        vec![(1, 10, Truncation::Top(7)), (2, 2, Truncation::Bot(1))]
    );
    assert_eq!(state.view_state, ViewState { offset: 1, first_truncated: 7 });
    let viewport = run(&mut state, &[2, 10, 2], 4, 1);
    assert_eq!(
        layout_of(&viewport),
        vec![(1, 10, Truncation::Top(7)), (2, 2, Truncation::Bot(1))]
    );
    assert_eq!(state.view_state, ViewState { offset: 1, first_truncated: 7 });
}

#[test]
fn zero_viewport_still_corrects_offset() {
    let mut state = state_at(Some(0), 2, 0);
    let viewport = run(&mut state, &[3, 3, 3], 0, 0);
    assert!(viewport.is_empty());
    assert_eq!(state.view_state, ViewState { offset: 0, first_truncated: 0 });
}

#[test]
fn oversized_item_is_clipped_alone() {
    let mut state = state_at(Some(1), 0, 0);
    let viewport = run(&mut state, &[1, 10, 1], 4, 0);
    assert_eq!(viewport.len(), 1);
    assert_eq!(viewport[&1].main_axis_size, 10);
    assert_eq!(viewport[&1].truncation, Truncation::Bot(6));
    assert_eq!(state.view_state, ViewState { offset: 1, first_truncated: 6 });
}

#[test]
fn selection_out_of_range_positions_first_item() {
    let mut state = state_at(Some(9), 2, 0);
    let viewport = run(&mut state, &[2, 2, 2], 4, 0);
    assert_eq!(state.view_state.offset, 0);
    assert!(viewport.contains_key(&0));
    assert_eq!(state.selected, Some(9));
}

#[test]
fn padding_keeps_context_below_selection() {
    let mut state = state_at(Some(2), 0, 0);
    let viewport = run(&mut state, &[2, 2, 2, 2, 2], 6, 2);
    assert_eq!(viewport.len(), 3);
    assert_eq!(viewport[&1].truncation, Truncation::Whole);
    assert_eq!(viewport[&2].truncation, Truncation::Whole);
    assert_eq!(viewport[&3].truncation, Truncation::Whole);
    assert_eq!(state.view_state, ViewState { offset: 1, first_truncated: 0 });
}

#[test]
fn builds_only_visible_items() {
    let calls = Cell::new(0u32);
    let mut state = state_at(Some(0), 0, 0);
    let viewport = layout_on_viewport(
        &mut state,
        &ListBuilder::new(|context| {
            calls.set(calls.get() + 1);
            (context.is_selected, 2)
        }),
        100,
        4,
        7,
        ScrollAxis::Horizontal,
        0,
    );
    assert_eq!(calls.get(), 2);
    assert_eq!(viewport.len(), 2);
    assert!(viewport[&0].widget);
    assert!(!viewport[&1].widget);
}

fn layout_of(viewport: &HashMap<usize, ViewportElement<usize>>) -> Vec<(usize, u16, Truncation)> {
    let mut items: Vec<(usize, u16, Truncation)> = viewport
        .iter()
        .map(|(index, element)| (*index, element.main_axis_size, element.truncation))
        .collect();
    items.sort();
    items
}

#[test]
fn three_items_fill_nine_units() {
    let mut state = ListState::default();
    let viewport = run(&mut state, &[3, 3, 3], 9, 0);
    assert_eq!(
        layout_of(&viewport),
        vec![(0, 3, Truncation::Whole), (1, 3, Truncation::Whole), (2, 3, Truncation::Whole)]
    );
}

#[test]
fn last_of_three_clipped_at_bottom() {
    let mut state = ListState::default();
    let viewport = run(&mut state, &[3, 3, 3], 8, 0);
    assert_eq!(
        layout_of(&viewport),
        vec![(0, 3, Truncation::Whole), (1, 3, Truncation::Whole), (2, 3, Truncation::Bot(1))]
    );
}

#[test]
fn selecting_last_clips_first_at_top_and_stays_on_way_up() {
    let mut state = ListState::default();
    state.select(Some(2));
    let viewport = run(&mut state, &[3, 3, 3], 8, 0);
    let expected = vec![
        (0, 3, Truncation::Top(1)),
        (1, 3, Truncation::Whole),
        (2, 3, Truncation::Whole),
    ];
    assert_eq!(layout_of(&viewport), expected);
    assert_eq!(state.view_state, ViewState { offset: 0, first_truncated: 1 });

    state.select(Some(1));
    let viewport = run(&mut state, &[3, 3, 3], 8, 0);
    assert_eq!(layout_of(&viewport), expected);
    assert_eq!(state.view_state, ViewState { offset: 0, first_truncated: 1 });
}
