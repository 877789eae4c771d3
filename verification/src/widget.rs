//! The retained widget description: an owned tree of descriptors that the
//! renderer lowers. Each public descriptor converts into one of these nodes.
use vstd::prelude::*;
use crate::callback::Callback;
use crate::menu::PlatformMenuBinding;

verus! {

/// How a flexible child fills its allotted main-axis space.
#[derive(Clone, Copy, Debug, PartialEq, Eq, Structural)]
pub enum FlexFit {
    Tight,
    Loose,
}

/// The main axis of a scrollable or flex container.
#[derive(Clone, Copy, Debug, PartialEq, Eq, Structural)]
pub enum Axis {
    Horizontal,
    Vertical,
}

/// A retained widget description.
pub enum Widget {
    /// A zero-size box (`SizedBox::shrink`).
    Empty,
    /// A run of text.
    Text(String),
    /// A horizontal flex container.
    Row(Vec<Widget>),
    /// A vertical flex container.
    Column(Vec<Widget>),
    /// A flexible child of a flex container; `flex` is at least one.
    Flexible { flex: u32, fit: FlexFit, child: Box<Widget> },
    /// A child centered in its box.
    Center(Box<Widget>),
    /// A child included in layout, paint and hit testing only when visible.
    Visibility { visible: bool, child: Box<Widget> },
    /// A child painted into its own retained layer.
    RepaintBoundary(Box<Widget>),
    /// The nearest tap-region registry for its subtree.
    TapRegionSurface(Box<Widget>),
    /// A pointer-selectable region.
    SelectionArea(Box<Widget>),
    /// A child that runs `on_tap` when tapped.
    Tappable { on_tap: Option<Callback>, child: Box<Widget> },
    /// A reorderable-list drag-start listener around a child.
    ReorderListener { index: usize, enabled: bool, delayed: bool, child: Box<Widget> },
    /// A platform menu bar's retained binding above its visual child.
    MenuBarScope { binding: Box<PlatformMenuBinding>, child: Box<Widget> },
}

impl Widget {
    /// A zero-size box.
    pub fn shrink() -> (r: Widget)
        ensures
            r is Empty,
    {
        Widget::Empty
    }

    /// A text run.
    pub fn text(text: &str) -> (r: Widget)
        ensures
            r matches Widget::Text(s) && s@ == text@,
    {
        Widget::Text(crate::text::owned(text))
    }

    /// The descriptor name of this node, for diagnostics.
    pub fn debug_type_name(&self) -> (r: &'static str)
        ensures
            r@ == widget_type_name(*self),
    {
        match self {
            Widget::Empty => "SizedBox",
            Widget::Text(_) => "Text",
            Widget::Row(_) => "Row",
            Widget::Column(_) => "Column",
            Widget::Flexible { .. } => "Flexible",
            Widget::Center(_) => "Center",
            Widget::Visibility { .. } => "Visibility",
            Widget::RepaintBoundary(_) => "RepaintBoundary",
            Widget::TapRegionSurface(_) => "TapRegionSurface",
            Widget::SelectionArea(_) => "SelectionArea",
            Widget::Tappable { .. } => "GestureDetector",
            Widget::ReorderListener { .. } => "ReorderableListener",
            Widget::MenuBarScope { .. } => "PlatformMenuBar",
        }
    }
}

/// The descriptor name of a node.
pub open spec fn widget_type_name(w: Widget) -> Seq<char> {
    match w {
        Widget::Empty => "SizedBox"@,
        Widget::Text(_) => "Text"@,
        Widget::Row(_) => "Row"@,
        Widget::Column(_) => "Column"@,
        Widget::Flexible { .. } => "Flexible"@,
        Widget::Center(_) => "Center"@,
        Widget::Visibility { .. } => "Visibility"@,
        Widget::RepaintBoundary(_) => "RepaintBoundary"@,
        Widget::TapRegionSurface(_) => "TapRegionSurface"@,
        Widget::SelectionArea(_) => "SelectionArea"@,
        Widget::Tappable { .. } => "GestureDetector"@,
        Widget::ReorderListener { .. } => "ReorderableListener"@,
        Widget::MenuBarScope { .. } => "PlatformMenuBar"@,
    }
}

} // verus!
