//! Sliver descriptors that hold their children for a viewport, the list body
//! that lowers onto a flex container, and the header scroll policies.
use vstd::prelude::*;
use crate::sliver_lists::{ItemBuilder, item_builder_from};
use crate::widget::{Axis, Widget};

verus! {

/// Scroll behavior of a resizing or natural header.
#[derive(Clone, Copy, Debug, PartialEq, Eq, Structural)]
pub enum SliverHeaderScrollBehavior {
    /// Collapse, then scroll the minimum extent out of view.
    Scroll,
    /// Keep the collapsed header at the viewport edge.
    Pinned,
    /// Reveal the header immediately when scrolling reverses.
    Floating,
    /// Keep the minimum extent visible and expand on scroll reversal.
    FloatingPinned,
}

impl Default for SliverHeaderScrollBehavior {
    fn default() -> (r: Self)
        ensures
            r == SliverHeaderScrollBehavior::Pinned,
    {
        SliverHeaderScrollBehavior::Pinned
    }
}

/// Response of a header to leading overscroll.
#[derive(Clone, Copy, Debug, PartialEq, Eq, Structural)]
pub enum SliverHeaderOverscrollBehavior {
    /// Preserve the header extent and translate with the viewport.
    Translate,
    /// Expand into leading overscroll without increasing the scroll extent.
    Stretch,
}

impl Default for SliverHeaderOverscrollBehavior {
    fn default() -> (r: Self)
        ensures
            r == SliverHeaderOverscrollBehavior::Translate,
    {
        SliverHeaderOverscrollBehavior::Translate
    }
}

/// Adapts an ordinary box widget into a sliver.
pub struct SliverToBoxAdapter {
    pub child: Widget,
}

impl SliverToBoxAdapter {
    /// A sliver around `child`.
    pub fn new(child: Widget) -> (r: Self)
        ensures
            r.child == child,
    {
        SliverToBoxAdapter { child }
    }
}

/// A lazy list sliver of `item_count` items built on demand.
pub struct SliverList {
    item_count: usize,
    builder: ItemBuilder,
}

impl SliverList {
    /// The number of items.
    pub closed spec fn item_count_spec(&self) -> usize {
        self.item_count
    }

    /// A list of `item_count` items, item `i` built by `builder(i)`.
    pub fn builder(item_count: usize, builder: impl Fn(usize) -> Widget + 'static) -> (r: Self)
        ensures
            r.item_count_spec() == item_count,
    {
        SliverList { item_count, builder: item_builder_from(builder) }
    }
}

/// A list sliver whose items all take the extent of a prototype item.
pub struct SliverPrototypeExtentList {
    item_count: usize,
    prototype_item: Widget,
    builder: ItemBuilder,
}

impl SliverPrototypeExtentList {
    /// The number of items.
    pub closed spec fn item_count_spec(&self) -> usize {
        self.item_count
    }

    /// The prototype the list measures.
    pub closed spec fn prototype_spec(&self) -> Widget {
        self.prototype_item
    }

    /// A list of `item_count` items sized like `prototype_item`.
    pub fn new(
        item_count: usize,
        prototype_item: Widget,
        builder: impl Fn(usize) -> Widget + 'static,
    ) -> (r: Self)
        ensures
            r.item_count_spec() == item_count,
            r.prototype_spec() == prototype_item,
    {
        SliverPrototypeExtentList { item_count, prototype_item, builder: item_builder_from(builder) }
    }

    /// The prototype item.
    pub fn prototype_item(&self) -> (r: &Widget)
        ensures
            *r == self.prototype_spec(),
    {
        &self.prototype_item
    }
}

/// A sliver that fills the space left in the viewport.
pub struct SliverFillRemaining {
    pub child: Widget,
    pub has_scroll_body: bool,
}

impl SliverFillRemaining {
    /// Fills the remaining space with `child`, which scrolls by default.
    pub fn new(child: Widget) -> (r: Self)
        ensures
            r.child == child,
            r.has_scroll_body,
    {
        SliverFillRemaining { child, has_scroll_body: true }
    }

    /// Sets whether the child is a scroll body.
    pub fn has_scroll_body(self, has_scroll_body: bool) -> (r: Self)
        ensures
            r == (SliverFillRemaining { has_scroll_body, ..self }),
    {
        SliverFillRemaining { has_scroll_body, ..self }
    }

    /// Whether the child is a scroll body.
    pub fn is_scroll_body(&self) -> (r: bool)
        ensures
            r == self.has_scroll_body,
    {
        self.has_scroll_body
    }
}

/// A header pinned at the leading edge of the viewport.
pub struct PinnedHeaderSliver {
    pub child: Widget,
}

impl PinnedHeaderSliver {
    /// A pinned header around `child`.
    pub fn new(child: Widget) -> (r: Self)
        ensures
            r.child == child,
    {
        PinnedHeaderSliver { child }
    }
}

/// A header that scrolls away and reappears when scrolling reverses.
pub struct SliverFloatingHeader {
    pub child: Widget,
}

impl SliverFloatingHeader {
    /// A floating header around `child`.
    pub fn new(child: Widget) -> (r: Self)
        ensures
            r.child == child,
    {
        SliverFloatingHeader { child }
    }
}

/// How a header sliver presents its child in the viewport.
#[derive(Clone, Copy, Debug, PartialEq, Eq, Structural)]
pub enum HeaderPresentation {
    /// An ordinary box sliver that scrolls with the content.
    BoxAdapter,
    /// A persistent header that is not pinned.
    Floating,
    /// A persistent header pinned at the leading edge.
    Pinned,
}

/// A header sized by its child's natural extent.
pub struct SliverNaturalHeader {
    pub child: Widget,
    pub scroll_behavior: SliverHeaderScrollBehavior,
    pub overscroll_behavior: SliverHeaderOverscrollBehavior,
}

/// The presentation that a scroll behavior selects.
pub open spec fn header_presentation(behavior: SliverHeaderScrollBehavior) -> HeaderPresentation {
    match behavior {
        SliverHeaderScrollBehavior::Scroll => HeaderPresentation::BoxAdapter,
        SliverHeaderScrollBehavior::Floating => HeaderPresentation::Floating,
        SliverHeaderScrollBehavior::Pinned => HeaderPresentation::Pinned,
        SliverHeaderScrollBehavior::FloatingPinned => HeaderPresentation::Pinned,
    }
}

impl SliverNaturalHeader {
    /// A pinned, translating header around `child`.
    pub fn new(child: Widget) -> (r: Self)
        ensures
            r.child == child,
            r.scroll_behavior == SliverHeaderScrollBehavior::Pinned,
            r.overscroll_behavior == SliverHeaderOverscrollBehavior::Translate,
    {
        SliverNaturalHeader {
            child,
            scroll_behavior: SliverHeaderScrollBehavior::Pinned,
            overscroll_behavior: SliverHeaderOverscrollBehavior::Translate,
        }
    }

    /// Sets the scroll behavior.
    pub fn scroll_behavior(self, behavior: SliverHeaderScrollBehavior) -> (r: Self)
        ensures
            r == (SliverNaturalHeader { scroll_behavior: behavior, ..self }),
    {
        SliverNaturalHeader { scroll_behavior: behavior, ..self }
    }

    /// Sets the overscroll behavior.
    pub fn overscroll_behavior(self, behavior: SliverHeaderOverscrollBehavior) -> (r: Self)
        ensures
            r == (SliverNaturalHeader { overscroll_behavior: behavior, ..self }),
    {
        SliverNaturalHeader { overscroll_behavior: behavior, ..self }
    }

    /// How the header is presented: scrolling headers become box slivers,
    /// floating ones unpinned persistent headers, and pinned or
    /// floating-pinned ones pinned persistent headers.
    pub fn presentation(&self) -> (r: HeaderPresentation)
        ensures
            r == header_presentation(self.scroll_behavior),
    {
        match self.scroll_behavior {
            SliverHeaderScrollBehavior::Scroll => HeaderPresentation::BoxAdapter,
            SliverHeaderScrollBehavior::Floating => HeaderPresentation::Floating,
            SliverHeaderScrollBehavior::Pinned => HeaderPresentation::Pinned,
            SliverHeaderScrollBehavior::FloatingPinned => HeaderPresentation::Pinned,
        }
    }
}

/// A sequential layout of children along the main axis.
pub struct ListBody {
    pub main_axis: Axis,
    pub children: Vec<Widget>,
}

impl Default for ListBody {
    fn default() -> (r: Self)
        ensures
            r.main_axis == Axis::Vertical,
            r.children@.len() == 0,
    {
        ListBody { main_axis: Axis::Vertical, children: Vec::new() }
    }
}

impl ListBody {
    /// A vertical list body of `children`.
    pub fn new(children: Vec<Widget>) -> (r: Self)
        ensures
            r.main_axis == Axis::Vertical,
            r.children == children,
    {
        ListBody { main_axis: Axis::Vertical, children }
    }

    /// Sets the main axis.
    pub fn main_axis(self, axis: Axis) -> (r: Self)
        ensures
            r == (ListBody { main_axis: axis, ..self }),
    {
        ListBody { main_axis: axis, ..self }
    }

    /// Lowers onto a row for a horizontal axis and a column for a vertical
    /// one, keeping the children in order.
    pub fn into_widget(self) -> (r: Widget)
        ensures
            self.main_axis == Axis::Horizontal ==> r == Widget::Row(self.children),
            self.main_axis == Axis::Vertical ==> r == Widget::Column(self.children),
    {
        match self.main_axis {
            Axis::Horizontal => Widget::Row(self.children),
            Axis::Vertical => Widget::Column(self.children),
        }
    }
}

} // verus!
