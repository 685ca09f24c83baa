use tui_widget_list::{ListState, ViewState};

fn with(num_elements: usize, selected: Option<usize>, circular: bool) -> ListState {
    let mut state = ListState {
        num_elements,
        selected,
        ..ListState::default()
    };
    state.set_infinite_scrolling(circular);
    state
}

#[test]
fn default_state() {
    let state = ListState::default();
    assert_eq!(state.selected, None);
    assert_eq!(state.num_elements, 0);
    assert!(state.infinite_scrolling);
    assert_eq!(state.view_state, ViewState::default());
}

#[test]
fn next_from_nothing_selects_first() {
    let mut state = with(3, None, true);
    state.next();
    assert_eq!(state.selected, Some(0));
}

#[test]
fn next_advances_and_wraps() {
    let mut state = with(3, Some(1), true);
    state.next();
    assert_eq!(state.selected, Some(2));
    state.next();
    assert_eq!(state.selected, Some(0));
}

#[test]
fn next_stays_at_end_without_wrap() {
    let mut state = with(3, Some(2), false);
    state.next();
    assert_eq!(state.selected, Some(2));
}

#[test]
fn previous_retreats_and_wraps() {
    let mut state = with(3, Some(1), true);
    state.previous();
    assert_eq!(state.selected, Some(0));
    state.previous();
    assert_eq!(state.selected, Some(2));
}

#[test]
fn previous_stays_at_start_without_wrap() {
    let mut state = with(3, Some(0), false);
    state.previous();
    assert_eq!(state.selected, Some(0));
}

#[test]
fn navigation_on_empty_list_does_nothing() {
    let mut state = with(0, Some(4), true);
    state.next();
    assert_eq!(state.selected, Some(4));
    state.previous();
    assert_eq!(state.selected, Some(4));
}

#[test]
fn select_none_scrolls_to_top() {
    let mut state = with(5, Some(3), true);
    state.view_state = ViewState {
        offset: 2,
        first_truncated: 1,
    };
    state.select(Some(4));
    assert_eq!(state.scroll_offset_index(), 2);
    state.select(None);
    assert_eq!(state.selected(), None);
    assert_eq!(state.scroll_offset_index(), 0);
}

#[test]
fn set_num_elements_keeps_selection() {
    let mut state = with(5, Some(4), true);
    state.set_num_elements(2);
    assert_eq!(state.num_elements, 2);
    assert_eq!(state.selected, Some(4));
}
