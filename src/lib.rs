//! A scrollable, selectable list of lazily built items of varying size.
//!
//! The core is [`layout_on_viewport`]: from the previous scroll position, the
//! selected index and a builder that yields each item with its size along the
//! scroll axis, it decides which items are visible in a viewport of fixed
//! extent, how much of the first and last visible item is clipped, and where
//! the viewport starts next time. [`model::layout`] states the result, and
//! [`laws`] proves what holds of every layout.
pub mod builder;
pub mod cache;
pub mod element;
pub mod laws;
pub mod layout;
pub mod model;
pub mod scroll_axis;
pub mod state;

pub use builder::{ListBuildContext, ListBuilder};
pub use cache::WidgetCacher;
pub use element::{Truncation, ViewportElement};
pub use layout::{calculate_effective_scroll_padding, layout_on_viewport, take_in_order};
pub use scroll_axis::ScrollAxis;
pub use state::{ListState, ViewState};
