use std::cell::Cell;
use std::collections::HashMap;

use tui_widget_list::{
    take_in_order, ListBuildContext, ListBuilder, ScrollAxis, Truncation, ViewportElement,
    WidgetCacher,
};

#[test]
fn truncation_value() {
    assert_eq!(Truncation::Whole.value(), 0);
    assert_eq!(Truncation::Top(3).value(), 3);
    assert_eq!(Truncation::Bot(7).value(), 7);
    assert_eq!(Truncation::default(), Truncation::Whole);
}

#[test]
fn visible_size_of_element() {
    assert_eq!(ViewportElement::new((), 5, Truncation::Top(2)).visible_main_axis_size(), 3);
    assert_eq!(ViewportElement::new((), 5, Truncation::Whole).visible_main_axis_size(), 5);
    assert_eq!(ViewportElement::new((), 1, Truncation::Bot(4)).visible_main_axis_size(), 0);
}

#[test]
fn main_and_cross_by_axis() {
    assert_eq!(ScrollAxis::Vertical.main_and_cross(10, 4), (4, 10));
    assert_eq!(ScrollAxis::Horizontal.main_and_cross(10, 4), (10, 4));
    assert_eq!(ScrollAxis::default(), ScrollAxis::Vertical);
}

#[test]
fn builder_passes_context() {
    let builder = ListBuilder::new(|context: &ListBuildContext| {
        (context.index * 10, context.cross_axis_size + 1)
    });
    let context = ListBuildContext {
        index: 4,
        is_selected: true,
        scroll_axis: ScrollAxis::Horizontal,
        cross_axis_size: 8,
    };
    assert_eq!(builder.call_closure(&context), (40, 9));
}

#[test]
fn cacher_builds_once_for_height_then_item() {
    let calls = Cell::new(0u32);
    let builder = ListBuilder::new(|context: &ListBuildContext| {
        calls.set(calls.get() + 1);
        (context.is_selected, (context.index as u16) + 2)
    });
    let mut cacher = WidgetCacher::new(&builder, ScrollAxis::Vertical, 5, Some(1));
    assert_eq!(cacher.get_height(1), 3);
    assert_eq!(cacher.get_height(1), 3);
    assert_eq!(calls.get(), 1);
    assert_eq!(cacher.get(1), (true, 3));
    assert_eq!(calls.get(), 1);
    assert_eq!(cacher.get(1), (true, 3));
    assert_eq!(calls.get(), 2);
    assert_eq!(cacher.get(0), (false, 2));
}

#[test]
fn cacher_returns_inserted_item() {
    let calls = Cell::new(0u32);
    let builder = ListBuilder::new(|context: &ListBuildContext| {
        calls.set(calls.get() + 1);
        (context.index, 1)
    });
    let mut cacher = WidgetCacher::new(&builder, ScrollAxis::Vertical, 5, None);
    let (item, size) = cacher.get(6);
    cacher.insert(6, item, size);
    assert_eq!(cacher.get_height(6), 1);
    assert_eq!(cacher.get(6), (6, 1));
    assert_eq!(calls.get(), 1);
}

#[test]
fn take_in_order_stops_at_gap() {
    let mut viewport = HashMap::from([
        (2, ViewportElement::new('a', 1, Truncation::Top(1))),
        (3, ViewportElement::new('b', 2, Truncation::Whole)),
        (5, ViewportElement::new('c', 3, Truncation::Whole)),
    ]);
    let taken = take_in_order(&mut viewport, 2);
    assert_eq!(taken.len(), 2);
    assert_eq!(taken[0].0, 2);
    assert_eq!(taken[0].1.widget, 'a');
    assert_eq!(taken[1].0, 3);
    assert_eq!(taken[1].1.widget, 'b');
    assert_eq!(viewport.len(), 1);
    assert!(viewport.contains_key(&5));
}
