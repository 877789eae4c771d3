//! Retained widget descriptors and the controllers that drive them: platform
//! menus, raw tooltips, reorderable and animated sliver lists, selection
//! values and the small layout wrappers.
use vstd::prelude::*;

pub mod callback;
pub mod text;
pub mod time;
pub mod menu;
pub mod widget;
pub mod tooltip;
pub mod sliver_lists;
pub mod slivers;
pub mod back_dispatch;
pub mod page_storage;
pub mod descriptors;
pub mod recursion;
pub mod reorder_marker;
pub mod reorder_listener;
pub mod laws;

verus! {
} // verus!
