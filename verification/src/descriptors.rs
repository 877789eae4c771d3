//! Small Flutter-style descriptors that lower onto the retained widget tree:
//! flex containers and their children, visibility, selection values, radio
//! buttons, drag-start listeners, builders and the modal barrier.
use vstd::prelude::*;
use std::rc::Rc;
use crate::callback::{Callback, run_callback};
use crate::back_dispatch::{FlagCallback, call_flag};
use crate::widget::{Axis, FlexFit, Widget};

verus! {

/// A horizontal flex container.
pub struct Row {
    pub children: Vec<Widget>,
}

impl Row {
    /// A row of `children`, in order.
    pub fn new(children: Vec<Widget>) -> (r: Self)
        ensures
            r.children@ == children@,
    {
        Row { children }
    }

    /// Replaces the children.
    pub fn children(self, children: Vec<Widget>) -> (r: Self)
        ensures
            r.children@ == children@,
    {
        Row { children }
    }

    /// The row as a widget node.
    pub fn into_widget(self) -> (r: Widget)
        ensures
            r == Widget::Row(self.children),
    {
        Widget::Row(self.children)
    }
}

/// A vertical flex container.
pub struct Column {
    pub children: Vec<Widget>,
}

impl Column {
    /// A column of `children`, in order.
    pub fn new(children: Vec<Widget>) -> (r: Self)
        ensures
            r.children@ == children@,
    {
        Column { children }
    }

    /// Replaces the children.
    pub fn children(self, children: Vec<Widget>) -> (r: Self)
        ensures
            r.children@ == children@,
    {
        Column { children }
    }

    /// The column as a widget node.
    pub fn into_widget(self) -> (r: Widget)
        ensures
            r == Widget::Column(self.children),
    {
        Widget::Column(self.children)
    }
}

/// A tight flexible child of a flex container.
pub struct Expanded {
    flex: u32,
    child: Widget,
}

/// A flex factor of at least one.
pub open spec fn flex_factor(flex: u32) -> u32 {
    if flex < 1 { 1 } else { flex }
}

impl Expanded {
    /// The flex factor.
    pub closed spec fn flex_spec(&self) -> u32 {
        self.flex
    }

    /// The child.
    pub closed spec fn child_spec(&self) -> Widget {
        self.child
    }

    /// `child` with flex factor one.
    pub fn new(child: Widget) -> (r: Self)
        ensures
            r.flex_spec() == 1,
            r.child_spec() == child,
    {
        Expanded { flex: 1, child }
    }

    /// Sets the flex factor; zero counts as one.
    pub fn flex(self, flex: u32) -> (r: Self)
        ensures
            r.flex_spec() == flex_factor(flex),
            r.child_spec() == self.child_spec(),
    {
        Expanded { flex: if flex < 1 { 1 } else { flex }, child: self.child }
    }

    /// The tight flexible node.
    pub fn into_widget(self) -> (r: Widget)
        ensures
            r == (Widget::Flexible { flex: self.flex_spec(), fit: FlexFit::Tight, child: Box::new(self.child_spec()) }),
    {
        Widget::Flexible { flex: self.flex, fit: FlexFit::Tight, child: Box::new(self.child) }
    }
}

/// Empty flexible space in a flex container.
#[derive(Clone, Copy, Debug, PartialEq, Eq, Structural)]
pub struct Spacer {
    flex: u32,
}

impl View for Spacer {
    type V = u32;

    closed spec fn view(&self) -> u32 {
        self.flex
    }
}

impl Spacer {
    /// Flex factor one.
    pub fn new() -> (r: Self)
        ensures
            r@ == 1,
    {
        Spacer { flex: 1 }
    }

    /// Sets the flex factor; zero counts as one.
    pub fn flex(self, flex: u32) -> (r: Self)
        ensures
            r@ == flex_factor(flex),
    {
        Spacer { flex: if flex < 1 { 1 } else { flex } }
    }

    /// A tight flexible node around a zero-size box.
    pub fn into_widget(self) -> (r: Widget)
        ensures
            r == (Widget::Flexible { flex: self@, fit: FlexFit::Tight, child: Box::new(Widget::Empty) }),
    {
        Widget::Flexible { flex: self.flex, fit: FlexFit::Tight, child: Box::new(Widget::Empty) }
    }
}

impl Default for Spacer {
    fn default() -> (r: Self)
        ensures
            r@ == 1,
    {
        Spacer::new()
    }
}

/// Centers one child inside its available box.
pub struct Center {
    pub child: Widget,
}

impl Center {
    /// Centers `child`.
    pub fn new(child: Widget) -> (r: Self)
        ensures
            r.child == child,
    {
        Center { child }
    }

    /// The centering node.
    pub fn into_widget(self) -> (r: Widget)
        ensures
            r == Widget::Center(Box::new(self.child)),
    {
        Widget::Center(Box::new(self.child))
    }
}

/// Includes a child in layout, paint, hit testing and semantics only while
/// visible.
pub struct Visibility {
    pub visible: bool,
    pub child: Widget,
}

impl Visibility {
    /// `child`, shown when `visible`.
    pub fn new(visible: bool, child: Widget) -> (r: Self)
        ensures
            r.visible == visible,
            r.child == child,
    {
        Visibility { visible, child }
    }

    /// Sets whether the child is shown.
    pub fn visible(self, visible: bool) -> (r: Self)
        ensures
            r.visible == visible,
            r.child == self.child,
    {
        Visibility { visible, child: self.child }
    }

    /// The visibility node.
    pub fn into_widget(self) -> (r: Widget)
        ensures
            r == (Widget::Visibility { visible: self.visible, child: Box::new(self.child) }),
    {
        Widget::Visibility { visible: self.visible, child: Box::new(self.child) }
    }
}

/// A child kept out of layout, paint and hit testing: a hidden
/// [`Visibility`].
pub struct Offstage {
    pub child: Widget,
}

impl Offstage {
    /// Hides `child`.
    pub fn new(child: Widget) -> (r: Self)
        ensures
            r.child == child,
    {
        Offstage { child }
    }

    /// A visibility node that hides the child.
    pub fn into_widget(self) -> (r: Widget)
        ensures
            r == (Widget::Visibility { visible: false, child: Box::new(self.child) }),
    {
        Widget::Visibility { visible: false, child: Box::new(self.child) }
    }
}

/// Renders its child into a retained raster snapshot.
pub struct SnapshotWidget {
    pub child: Widget,
}

impl SnapshotWidget {
    /// Snapshots `child`.
    pub fn new(child: Widget) -> (r: Self)
        ensures
            r.child == child,
    {
        SnapshotWidget { child }
    }

    /// A repaint boundary around the child.
    pub fn into_widget(self) -> (r: Widget)
        ensures
            r == Widget::RepaintBoundary(Box::new(self.child)),
    {
        Widget::RepaintBoundary(Box::new(self.child))
    }
}

/// The style of a border stroke.
#[derive(Clone, Copy, Debug, PartialEq, Eq, Structural)]
pub enum BorderStyle {
    /// No stroke.
    NoStroke,
    Solid,
}

impl Default for BorderStyle {
    fn default() -> (r: Self)
        ensures
            r == BorderStyle::Solid,
    {
        BorderStyle::Solid
    }
}

/// The geometric shape of a box.
#[derive(Clone, Copy, Debug, PartialEq, Eq, Structural)]
pub enum BoxShape {
    Rectangle,
    Circle,
}

impl Default for BoxShape {
    fn default() -> (r: Self)
        ensures
            r == BoxShape::Rectangle,
    {
        BoxShape::Rectangle
    }
}

/// Blur style for shadows.
#[derive(Clone, Copy, Debug, PartialEq, Eq, Structural)]
pub enum BlurStyle {
    Normal,
    Solid,
    Outer,
    Inner,
}

impl Default for BlurStyle {
    fn default() -> (r: Self)
        ensures
            r == BlurStyle::Normal,
    {
        BlurStyle::Normal
    }
}

/// Gradient tiling mode.
#[derive(Clone, Copy, Debug, PartialEq, Eq, Structural)]
pub enum TileMode {
    Clamp,
    Repeated,
    Mirror,
    Decal,
}

impl Default for TileMode {
    fn default() -> (r: Self)
        ensures
            r == TileMode::Clamp,
    {
        TileMode::Clamp
    }
}

/// The current state of a selection.
#[derive(Clone, Copy, Debug, PartialEq, Eq, Structural)]
pub enum SelectionStatus {
    /// No selection edge is active.
    Inactive,
    /// Both edges are at the same content position.
    Collapsed,
    /// The selection covers a non-empty range.
    Uncollapsed,
}

impl Default for SelectionStatus {
    fn default() -> (r: Self)
        ensures
            r == SelectionStatus::Inactive,
    {
        SelectionStatus::Inactive
    }
}

/// A content-relative selection range.
#[derive(Clone, Copy, Debug, PartialEq, Eq, Structural)]
pub struct SelectedContentRange {
    pub start_offset: usize,
    pub end_offset: usize,
}

impl SelectedContentRange {
    /// The range from `start_offset` to `end_offset`.
    pub fn new(start_offset: usize, end_offset: usize) -> (r: Self)
        ensures
            r == (SelectedContentRange { start_offset, end_offset }),
    {
        SelectedContentRange { start_offset, end_offset }
    }

    /// Whether both edges are at the same position.
    pub fn is_collapsed(self) -> (r: bool)
        ensures
            r == (self.start_offset == self.end_offset),
    {
        self.start_offset == self.end_offset
    }

    /// Whether the range covers nothing (a reversed range covers nothing).
    pub fn is_empty(self) -> (r: bool)
        ensures
            r == (self.start_offset >= self.end_offset),
    {
        self.start_offset >= self.end_offset
    }
}

impl Default for SelectedContentRange {
    fn default() -> (r: Self)
        ensures
            r == (SelectedContentRange { start_offset: 0, end_offset: 0 }),
    {
        SelectedContentRange { start_offset: 0, end_offset: 0 }
    }
}

/// Plain-text selected content for clipboard and platform adapters.
pub struct SelectedContent {
    pub plain_text: String,
}

impl SelectedContent {
    /// Content holding `plain_text`.
    pub fn new(plain_text: &str) -> (r: Self)
        ensures
            r.plain_text@ == plain_text@,
    {
        SelectedContent { plain_text: crate::text::owned(plain_text) }
    }
}

/// The handle orientation of a selection edge.
#[derive(Clone, Copy, Debug, PartialEq, Eq, Structural)]
pub enum SelectionHandleType {
    Left,
    Right,
    Collapsed,
}

/// Which selectable children a selection container admits.
#[derive(Clone, Copy, Debug, PartialEq, Eq, Structural)]
pub enum SelectableChildPolicy {
    /// Every selectable child.
    All,
    /// The disabled-container policy: no child.
    Disabled,
}

impl Default for SelectableChildPolicy {
    fn default() -> (r: Self)
        ensures
            r == SelectableChildPolicy::All,
    {
        SelectableChildPolicy::All
    }
}

impl SelectableChildPolicy {
    /// Whether the policy admits selectable children.
    pub fn accepts_children(self) -> (r: bool)
        ensures
            r == (self == SelectableChildPolicy::All),
    {
        match self {
            SelectableChildPolicy::All => true,
            SelectableChildPolicy::Disabled => false,
        }
    }
}

/// An area that supports pointer-based text selection.
pub struct SelectableRegion {
    pub child: Widget,
}

impl SelectableRegion {
    /// A selectable region around `child`.
    pub fn new(child: Widget) -> (r: Self)
        ensures
            r.child == child,
    {
        SelectableRegion { child }
    }

    /// A selection area around the child.
    pub fn into_widget(self) -> (r: Widget)
        ensures
            r == Widget::SelectionArea(Box::new(self.child)),
    {
        Widget::SelectionArea(Box::new(self.child))
    }
}

/// A shared handle to a caller-supplied callback that receives a value.
#[verifier::external_body]
#[verifier::reject_recursive_types(T)]
pub struct ValueCallback<T> {
    inner: Rc<dyn Fn(T)>,
}

/// Moves a value callback behind a shared handle (`Rc::new`).
#[verifier::external_body]
fn value_callback<T, F: Fn(T) + 'static>(f: F) -> ValueCallback<T> {
    ValueCallback { inner: Rc::new(f) }
}


/// Coordinates mutually exclusive selection for a group of radio buttons.
#[verifier::reject_recursive_types(T)]
pub struct RadioGroup<T> {
    pub value: Option<T>,
    pub on_changed: Option<ValueCallback<T>>,
    pub child: Widget,
}

impl<T> RadioGroup<T> {
    /// A group around `child` with no selected value.
    pub fn new(child: Widget) -> (r: Self)
        ensures
            r.value is None,
            r.on_changed is None,
            r.child == child,
    {
        RadioGroup { value: None, on_changed: None, child }
    }

    /// Sets the selected value.
    pub fn value(self, value: Option<T>) -> (r: Self)
        ensures
            r.value == value,
            r.on_changed == self.on_changed,
            r.child == self.child,
    {
        RadioGroup { value, on_changed: self.on_changed, child: self.child }
    }

    /// Sets the callback told of a newly selected value.
    pub fn on_changed(self, callback: impl Fn(T) + 'static) -> (r: Self)
        ensures
            r.value == self.value,
            r.on_changed is Some,
            r.child == self.child,
    {
        RadioGroup { value: self.value, on_changed: Some(value_callback(callback)), child: self.child }
    }

    /// The group lowers to its child.
    pub fn into_widget(self) -> (r: Widget)
        ensures
            r == self.child,
    {
        self.child
    }
}

/// A raw radio button.
#[verifier::reject_recursive_types(T)]
pub struct RawRadio<T> {
    pub value: T,
    pub group_value: Option<T>,
    pub on_changed: Option<ValueCallback<T>>,
}

impl<T> RawRadio<T> {
    /// A button for `value` in a group whose selected value is `group_value`.
    pub fn new(value: T, group_value: Option<T>) -> (r: Self)
        ensures
            r.value == value,
            r.group_value == group_value,
            r.on_changed is None,
    {
        RawRadio { value, group_value, on_changed: None }
    }

    /// Sets the callback told of this button's value when it is tapped.
    pub fn on_changed(self, callback: impl Fn(T) + 'static) -> (r: Self)
        ensures
            r.value == self.value,
            r.group_value == self.group_value,
            r.on_changed is Some,
    {
        RawRadio { value: self.value, group_value: self.group_value, on_changed: Some(value_callback(callback)) }
    }
}

/// Identity used to group tap regions.
#[derive(Clone, Debug, PartialEq, Eq)]
pub enum TapRegionGroupId {
    Named(String),
    Numeric(u64),
    /// The default group of text-field tap regions.
    TextField,
}

impl TapRegionGroupId {
    /// A group named `value`.
    pub fn named(value: &str) -> (r: Self)
        ensures
            r matches TapRegionGroupId::Named(s) && s@ == value@,
    {
        TapRegionGroupId::Named(crate::text::owned(value))
    }

    /// A group numbered `value`.
    pub fn numeric(value: u64) -> (r: Self)
        ensures
            r == TapRegionGroupId::Numeric(value),
    {
        TapRegionGroupId::Numeric(value)
    }

    /// The text-field group.
    pub fn text_field() -> (r: Self)
        ensures
            r == TapRegionGroupId::TextField,
    {
        TapRegionGroupId::TextField
    }
}

impl Default for TapRegionGroupId {
    fn default() -> (r: Self)
        ensures
            r == TapRegionGroupId::TextField,
    {
        TapRegionGroupId::TextField
    }
}

/// Establishes the nearest tap-region registry for its subtree.
pub struct TapRegionSurface {
    pub child: Widget,
}

impl TapRegionSurface {
    /// A surface around `child`.
    pub fn new(child: Widget) -> (r: Self)
        ensures
            r.child == child,
    {
        TapRegionSurface { child }
    }

    /// The surface node.
    pub fn into_widget(self) -> (r: Widget)
        ensures
            r == Widget::TapRegionSurface(Box::new(self.child)),
    {
        Widget::TapRegionSurface(Box::new(self.child))
    }
}

/// How a raw input region takes part in hit testing.
#[derive(Clone, Copy, Debug, PartialEq, Eq, Structural)]
pub enum HitTestBehavior {
    DeferToChild,
    Opaque,
    Translucent,
}

/// The kind of a raw input node.
#[derive(Clone, Copy, Debug, PartialEq, Eq, Structural)]
pub enum RawInputType {
    Listener,
    RawGestureDetector,
    MouseRegion,
    TapRegion,
    TapRegionSurface,
    TextFieldTapRegion,
}

/// The hit-testing configuration of a raw input node. Tap regions carry the
/// group they belong to (text-field regions always name one).
#[derive(Clone, Debug, PartialEq, Eq)]
pub enum RawInputKind {
    Listener { behavior: HitTestBehavior },
    RawGestureDetector { behavior: HitTestBehavior, exclude_from_semantics: bool },
    MouseRegion { opaque: bool, explicit_behavior: Option<HitTestBehavior> },
    TapRegion { enabled: bool, behavior: HitTestBehavior, group_id: Option<TapRegionGroupId>, consume_outside_taps: bool },
    TapRegionSurface,
    TextFieldTapRegion { enabled: bool, behavior: HitTestBehavior, group_id: TapRegionGroupId, consume_outside_taps: bool },
}

impl RawInputKind {
    /// The node type of this configuration.
    pub fn type_(&self) -> (r: RawInputType)
        ensures
            r == (match *self {
                RawInputKind::Listener { .. } => RawInputType::Listener,
                RawInputKind::RawGestureDetector { .. } => RawInputType::RawGestureDetector,
                RawInputKind::MouseRegion { .. } => RawInputType::MouseRegion,
                RawInputKind::TapRegion { .. } => RawInputType::TapRegion,
                RawInputKind::TapRegionSurface => RawInputType::TapRegionSurface,
                RawInputKind::TextFieldTapRegion { .. } => RawInputType::TextFieldTapRegion,
            }),
    {
        match self {
            RawInputKind::Listener { .. } => RawInputType::Listener,
            RawInputKind::RawGestureDetector { .. } => RawInputType::RawGestureDetector,
            RawInputKind::MouseRegion { .. } => RawInputType::MouseRegion,
            RawInputKind::TapRegion { .. } => RawInputType::TapRegion,
            RawInputKind::TapRegionSurface => RawInputType::TapRegionSurface,
            RawInputKind::TextFieldTapRegion { .. } => RawInputType::TextFieldTapRegion,
        }
    }

    /// The behavior used in hit testing: the configured one; for a mouse
    /// region without one, opaque or translucent as configured; a tap-region
    /// surface defers to its child.
    pub fn hit_test_behavior(&self) -> (r: HitTestBehavior)
        ensures
            r == (match *self {
                RawInputKind::Listener { behavior } => behavior,
                RawInputKind::RawGestureDetector { behavior, .. } => behavior,
                RawInputKind::TapRegion { behavior, .. } => behavior,
                RawInputKind::TextFieldTapRegion { behavior, .. } => behavior,
                RawInputKind::MouseRegion { opaque, explicit_behavior } => match explicit_behavior {
                    Some(b) => b,
                    None => if opaque { HitTestBehavior::Opaque } else { HitTestBehavior::Translucent },
                },
                RawInputKind::TapRegionSurface => HitTestBehavior::DeferToChild,
            }),
    {
        match self {
            RawInputKind::Listener { behavior } => *behavior,
            RawInputKind::RawGestureDetector { behavior, .. } => *behavior,
            RawInputKind::TapRegion { behavior, .. } => *behavior,
            RawInputKind::TextFieldTapRegion { behavior, .. } => *behavior,
            RawInputKind::MouseRegion { explicit_behavior: Some(b), .. } => *b,
            RawInputKind::MouseRegion { explicit_behavior: None, opaque } => if *opaque {
                HitTestBehavior::Opaque
            } else {
                HitTestBehavior::Translucent
            },
            RawInputKind::TapRegionSurface => HitTestBehavior::DeferToChild,
        }
    }

    /// Whether the node reacts to input: tap regions as configured, every
    /// other kind always.
    pub fn is_enabled(&self) -> (r: bool)
        ensures
            r == (match *self {
                RawInputKind::TapRegion { enabled, .. } => enabled,
                RawInputKind::TextFieldTapRegion { enabled, .. } => enabled,
                _ => true,
            }),
    {
        match self {
            RawInputKind::TapRegion { enabled, .. } => *enabled,
            RawInputKind::TextFieldTapRegion { enabled, .. } => *enabled,
            _ => true,
        }
    }
}

/// Starts a reorder drag as soon as its pointer sequence becomes a drag.
pub struct ReorderableDragStartListener {
    pub child: Widget,
    pub index: usize,
    pub enabled: bool,
}

impl ReorderableDragStartListener {
    /// An enabled listener for item `index`.
    pub fn new(index: usize, child: Widget) -> (r: Self)
        ensures
            r.index == index,
            r.enabled,
            r.child == child,
    {
        ReorderableDragStartListener { child, index, enabled: true }
    }

    /// The child-first spelling of [`Self::new`].
    pub fn with_child(child: Widget, index: usize) -> (r: Self)
        ensures
            r.index == index,
            r.enabled,
            r.child == child,
    {
        Self::new(index, child)
    }

    /// Enables or disables the listener.
    pub fn enabled(self, enabled: bool) -> (r: Self)
        ensures
            r.enabled == enabled,
            r.index == self.index,
            r.child == self.child,
    {
        ReorderableDragStartListener { enabled, ..self }
    }

    /// The item index.
    pub fn index(&self) -> (r: usize)
        ensures
            r == self.index,
    {
        self.index
    }

    /// Whether the listener is enabled.
    pub fn is_enabled(&self) -> (r: bool)
        ensures
            r == self.enabled,
    {
        self.enabled
    }

    /// The immediate listener node.
    pub fn into_widget(self) -> (r: Widget)
        ensures
            r == (Widget::ReorderListener { index: self.index, enabled: self.enabled, delayed: false, child: Box::new(self.child) }),
    {
        Widget::ReorderListener { index: self.index, enabled: self.enabled, delayed: false, child: Box::new(self.child) }
    }
}

/// Starts a reorder drag only after a long press.
pub struct ReorderableDelayedDragStartListener {
    pub child: Widget,
    pub index: usize,
    pub enabled: bool,
}

impl ReorderableDelayedDragStartListener {
    /// An enabled delayed listener for item `index`.
    pub fn new(index: usize, child: Widget) -> (r: Self)
        ensures
            r.index == index,
            r.enabled,
            r.child == child,
    {
        ReorderableDelayedDragStartListener { child, index, enabled: true }
    }

    /// The child-first spelling of [`Self::new`].
    pub fn with_child(child: Widget, index: usize) -> (r: Self)
        ensures
            r.index == index,
            r.enabled,
            r.child == child,
    {
        Self::new(index, child)
    }

    /// Enables or disables the listener.
    pub fn enabled(self, enabled: bool) -> (r: Self)
        ensures
            r.enabled == enabled,
            r.index == self.index,
            r.child == self.child,
    {
        ReorderableDelayedDragStartListener { enabled, ..self }
    }

    /// The item index.
    pub fn index(&self) -> (r: usize)
        ensures
            r == self.index,
    {
        self.index
    }

    /// Whether the listener is enabled.
    pub fn is_enabled(&self) -> (r: bool)
        ensures
            r == self.enabled,
    {
        self.enabled
    }

    /// The delayed listener node.
    pub fn into_widget(self) -> (r: Widget)
        ensures
            r == (Widget::ReorderListener { index: self.index, enabled: self.enabled, delayed: true, child: Box::new(self.child) }),
    {
        Widget::ReorderListener { index: self.index, enabled: self.enabled, delayed: true, child: Box::new(self.child) }
    }
}

/// The identity of a child of a sliver: a list item's index plus one, zero
/// for no item.
#[derive(Clone, Copy, Debug, PartialEq, Eq, Structural)]
pub struct SliverChildId(pub u64);

impl SliverChildId {
    /// The identity of list item `index`.
    pub fn list_item(index: usize) -> (r: Self)
        requires
            index < u64::MAX,
        ensures
            r.0 == index + 1,
    {
        SliverChildId(index as u64 + 1)
    }

    /// The item index an identity names: none for zero, else the low 32
    /// bits of the identity minus one.
    pub fn item_index(self) -> (r: Option<usize>)
        ensures
            r == (if self.0 == 0 { None } else { Some(((self.0 - 1) % 0x1_0000_0000) as usize) }),
    {
        if self.0 == 0 {
            None
        } else {
            let x: u64 = self.0 - 1;
            let low: u64 = x & 0xFFFF_FFFF;
            assert(low == x % 0x1_0000_0000) by (bit_vector)
                requires
                    low == x & 0xFFFF_FFFF;
            assert(low < 0x1_0000_0000);
            Some(low as usize)
        }
    }
}

/// The scope byte of a nested sliver: its index plus one, at most 255.
pub open spec fn scope_byte(sliver: usize) -> u64 {
    if sliver + 1 < 255 { (sliver + 1) as u64 } else { 255 }
}

impl SliverChildId {
    /// The upper half of an identity: the path of enclosing slivers, the
    /// innermost scope in its low byte.
    pub open spec fn path(self) -> u64 {
        self.0 / 0x1_0000_0000
    }

    /// The lower half of an identity: the child within its sliver.
    pub open spec fn local_part(self) -> u64 {
        self.0 % 0x1_0000_0000
    }

    /// `child` seen from the sliver at index `sliver` of a group: the scope
    /// byte of `sliver` is pushed onto the low end of its path (keeping the
    /// path's low 24 bits) and the local part is kept.
    pub fn scoped(sliver: usize, child: Self) -> (r: Self)
        ensures
            r.path() == (child.path() % 0x100_0000) * 256 + scope_byte(sliver),
            r.local_part() == child.local_part(),
    {
        let x: u64 = child.0;
        let path: u64 = x >> 32;
        let scope: u64 = if sliver < 254 { sliver as u64 + 1 } else { 255 };
        assert(scope == scope_byte(sliver));
        let p2: u64 = (((path & 0x00ff_ffff) << 8) | scope) & 0xFFFF_FFFF;
        let r: u64 = (p2 << 32) | (x & 0xFFFF_FFFF);
        assert(r / 0x1_0000_0000 == ((x / 0x1_0000_0000) % 0x100_0000) * 256 + scope
            && r % 0x1_0000_0000 == x % 0x1_0000_0000) by (bit_vector)
            requires
                path == x >> 32,
                scope <= 255,
                p2 == (((path & 0x00ff_ffff) << 8) | scope) & 0xFFFF_FFFF,
                r == (p2 << 32) | (x & 0xFFFF_FFFF);
        SliverChildId(r)
    }

    /// The index of the innermost sliver scope, or `usize::MAX` for an
    /// identity with no scope.
    pub fn scope(self) -> (r: usize)
        ensures
            r == (if self.path() % 256 == 0 { usize::MAX } else { (self.path() % 256 - 1) as usize }),
    {
        let x: u64 = self.0;
        let s: u64 = (x >> 32) & 0xFF;
        assert(s == (x / 0x1_0000_0000) % 256) by (bit_vector)
            requires
                s == (x >> 32) & 0xFF;
        if s == 0 { usize::MAX } else { (s - 1) as usize }
    }

    /// The identity with its innermost scope removed.
    pub fn local(self) -> (r: Self)
        ensures
            r.path() == self.path() / 256,
            r.local_part() == self.local_part(),
    {
        let x: u64 = self.0;
        let r: u64 = (((x >> 32) >> 8) << 32) | (x & 0xFFFF_FFFF);
        assert(r / 0x1_0000_0000 == (x / 0x1_0000_0000) / 256 && r % 0x1_0000_0000 == x % 0x1_0000_0000) by (bit_vector)
            requires
                r == (((x >> 32) >> 8) << 32) | (x & 0xFFFF_FFFF);
        SliverChildId(r)
    }
}

impl Default for SliverChildId {
    fn default() -> (r: Self)
        ensures
            r.0 == 0,
    {
        SliverChildId(0)
    }
}

/// A shared handle to a caller-supplied builder of a widget from an
/// optional prebuilt child.
#[verifier::external_body]
pub struct ChildBuilder {
    inner: Rc<dyn Fn(Option<Widget>) -> Widget>,
}

/// Moves a child builder closure behind a shared handle (`Rc::new`).
#[verifier::external_body]
fn child_builder<F: Fn(Option<Widget>) -> Widget + 'static>(f: F) -> ChildBuilder {
    ChildBuilder { inner: Rc::new(f) }
}

/// Rebuilds its child whenever an animation ticks.
pub struct AnimatedBuilder {
    pub builder: ChildBuilder,
    pub child: Option<Widget>,
}

impl AnimatedBuilder {
    /// A builder with no prebuilt child.
    pub fn new(builder: impl Fn(Option<Widget>) -> Widget + 'static) -> (r: Self)
        ensures
            r.child is None,
    {
        AnimatedBuilder { builder: child_builder(builder), child: None }
    }

    /// Sets the prebuilt child handed to the builder.
    pub fn child(self, child: Widget) -> (r: Self)
        ensures
            r.builder == self.builder,
            r.child == Some(child),
    {
        AnimatedBuilder { builder: self.builder, child: Some(child) }
    }
}

/// Interpolates towards `tween_end` over `duration` and rebuilds with the
/// current value.
#[verifier::reject_recursive_types(T)]
pub struct TweenAnimationBuilder<T> {
    pub tween_end: T,
    pub duration: crate::time::Duration,
    pub builder: ValueBuilder<T>,
    pub child: Option<Widget>,
}

/// A shared handle to a caller-supplied builder of a widget from an
/// animated value and an optional prebuilt child.
#[verifier::external_body]
#[verifier::reject_recursive_types(T)]
pub struct ValueBuilder<T> {
    inner: Rc<dyn Fn(&T, Option<Widget>) -> Widget>,
}

/// Moves a value builder closure behind a shared handle (`Rc::new`).
#[verifier::external_body]
fn value_builder<T, F: Fn(&T, Option<Widget>) -> Widget + 'static>(f: F) -> ValueBuilder<T> {
    ValueBuilder { inner: Rc::new(f) }
}

impl<T> TweenAnimationBuilder<T> {
    /// A builder animating towards `tween_end` over `duration`.
    pub fn new(
        tween_end: T,
        duration: crate::time::Duration,
        builder: impl Fn(&T, Option<Widget>) -> Widget + 'static,
    ) -> (r: Self)
        ensures
            r.tween_end == tween_end,
            r.duration == duration,
            r.child is None,
    {
        TweenAnimationBuilder { tween_end, duration, builder: value_builder(builder), child: None }
    }

    /// Sets the prebuilt child handed to the builder.
    pub fn child(self, child: Widget) -> (r: Self)
        ensures
            r.tween_end == self.tween_end,
            r.duration == self.duration,
            r.child == Some(child),
    {
        TweenAnimationBuilder { tween_end: self.tween_end, duration: self.duration, builder: self.builder, child: Some(child) }
    }

    /// The animation's length.
    pub fn duration(&self) -> (r: crate::time::Duration)
        ensures
            r == self.duration,
    {
        self.duration
    }
}

/// Listens for scroll notifications bubbling up from descendant viewports.
pub struct NotificationListener {
    pub child: Widget,
}

impl NotificationListener {
    /// A listener around `child`.
    pub fn new(child: Widget) -> (r: Self)
        ensures
            r.child == child,
    {
        NotificationListener { child }
    }
}

/// Observes scroll notifications; lowers to its child.
pub struct ScrollNotificationObserver {
    pub child: Widget,
}

impl ScrollNotificationObserver {
    /// An observer around `child`.
    pub fn new(child: Widget) -> (r: Self)
        ensures
            r.child == child,
    {
        ScrollNotificationObserver { child }
    }

    /// The observer lowers to its child.
    pub fn into_widget(self) -> (r: Widget)
        ensures
            r == self.child,
    {
        self.child
    }
}

/// How a scroll view clips its content.
#[derive(Clone, Copy, Debug, PartialEq, Eq, Structural)]
pub enum Clip {
    /// No clipping.
    NoClip,
    HardEdge,
    AntiAlias,
    AntiAliasWithSaveLayer,
}

/// A scrollable viewport around one child.
pub struct SingleChildScrollView {
    pub child: Widget,
    pub scroll_direction: Axis,
    pub reverse: bool,
    pub clip_behavior: Clip,
}

impl SingleChildScrollView {
    /// A vertical, forward, hard-edge clipped scroll view.
    pub fn new(child: Widget) -> (r: Self)
        ensures
            r.child == child,
            r.scroll_direction == Axis::Vertical,
            !r.reverse,
            r.clip_behavior == Clip::HardEdge,
    {
        SingleChildScrollView { child, scroll_direction: Axis::Vertical, reverse: false, clip_behavior: Clip::HardEdge }
    }

    /// Sets the scroll axis.
    pub fn scroll_direction(self, direction: Axis) -> (r: Self)
        ensures
            r == (SingleChildScrollView { scroll_direction: direction, ..self }),
    {
        SingleChildScrollView { scroll_direction: direction, ..self }
    }

    /// The scroll axis.
    pub fn get_scroll_direction(&self) -> (r: Axis)
        ensures
            r == self.scroll_direction,
    {
        self.scroll_direction
    }

    /// Sets whether the view scrolls in reverse.
    pub fn reverse(self, reverse: bool) -> (r: Self)
        ensures
            r == (SingleChildScrollView { reverse, ..self }),
    {
        SingleChildScrollView { reverse, ..self }
    }

    /// Sets the clipping behavior.
    pub fn clip_behavior(self, clip: Clip) -> (r: Self)
        ensures
            r == (SingleChildScrollView { clip_behavior: clip, ..self }),
    {
        SingleChildScrollView { clip_behavior: clip, ..self }
    }
}

/// A color as red, green, blue and alpha bytes.
#[derive(Clone, Copy, Debug, PartialEq, Eq, Structural)]
pub struct Color {
    pub r: u8,
    pub g: u8,
    pub b: u8,
    pub a: u8,
}

impl Color {
    /// The color with the given channels.
    pub fn rgba(r: u8, g: u8, b: u8, a: u8) -> (c: Self)
        ensures
            c == (Color { r, g, b, a }),
    {
        Color { r, g, b, a }
    }
}

/// A color animation as sampled: the color it shows now.
#[derive(Clone, Copy, Debug, PartialEq, Eq, Structural)]
pub struct ColorAnimation {
    pub value: Color,
}

impl ColorAnimation {
    /// An animation that stays at `color`.
    pub fn constant(color: Color) -> (r: Self)
        ensures
            r.value == color,
    {
        ColorAnimation { value: color }
    }

    /// The current color.
    pub fn value(&self) -> (r: Color)
        ensures
            r == self.value,
    {
        self.value
    }
}

/// A retained, animated modal barrier: it absorbs pointer input behind it
/// and, when dismissible, dismisses on a tap or an accessibility activate.
/// One dismissal callback run by a barrier.
pub enum BarrierDismissal {
    /// The dismissal callback ran.
    OnDismiss(Callback),
    /// The dismissal bridge ran and gave this answer.
    Handler(FlagCallback, bool),
}

pub struct AnimatedModalBarrier {
    pub color: ColorAnimation,
    pub dismissible: bool,
    pub semantics_label: Option<String>,
    pub barrier_semantics_dismissible: bool,
    pub semantics_on_tap_hint: Option<String>,
    pub on_dismiss: Option<Callback>,
    pub dismissal_handler: Option<FlagCallback>,
    pub child: Option<Widget>,
    /// The dismissal callbacks run so far, oldest first.
    pub dismissals: Ghost<Seq<BarrierDismissal>>,
}

impl AnimatedModalBarrier {
    /// A black barrier at half opacity.
    pub fn new() -> (r: Self)
        ensures
            r.color.value == (Color { r: 0, g: 0, b: 0, a: 128 }),
            r.dismissible,
            r.barrier_semantics_dismissible,
            r.semantics_label is None,
            r.semantics_on_tap_hint is None,
            r.on_dismiss is None,
            r.dismissal_handler is None,
            r.child is None,
    {
        Self::with_color(ColorAnimation::constant(Color::rgba(0, 0, 0, 128)))
    }

    /// A dismissible barrier driven by `color`.
    pub fn with_color(color: ColorAnimation) -> (r: Self)
        ensures
            r.color == color,
            r.dismissible,
            r.barrier_semantics_dismissible,
            r.semantics_label is None,
            r.semantics_on_tap_hint is None,
            r.on_dismiss is None,
            r.dismissal_handler is None,
            r.child is None,
    {
        AnimatedModalBarrier {
            color,
            dismissible: true,
            semantics_label: None,
            barrier_semantics_dismissible: true,
            semantics_on_tap_hint: None,
            on_dismiss: None,
            dismissal_handler: None,
            child: None,
            dismissals: Ghost(Seq::empty()),
        }
    }

    /// The same as [`Self::with_color`].
    pub fn color_animation(color: ColorAnimation) -> (r: Self)
        ensures
            r.color == color,
            r.dismissible,
            r.barrier_semantics_dismissible,
            r.on_dismiss is None,
            r.dismissal_handler is None,
            r.child is None,
    {
        Self::with_color(color)
    }

    /// Sets the color animation.
    pub fn color(self, color: ColorAnimation) -> (r: Self)
        ensures
            r == (AnimatedModalBarrier { color, ..self }),
    {
        AnimatedModalBarrier { color, ..self }
    }

    /// The color shown now.
    pub fn current_color(&self) -> (r: Color)
        ensures
            r == self.color.value,
    {
        self.color.value()
    }

    /// The animation driving the barrier.
    pub fn animation(&self) -> (r: ColorAnimation)
        ensures
            r == self.color,
    {
        self.color
    }

    /// Enables or disables pointer and semantic dismissal.
    pub fn dismissible(self, dismissible: bool) -> (r: Self)
        ensures
            r == (AnimatedModalBarrier { dismissible, ..self }),
    {
        AnimatedModalBarrier { dismissible, ..self }
    }

    /// Sets the callback run on dismissal.
    pub fn on_dismiss(self, callback: impl Fn() + 'static) -> (r: Self)
        ensures
            r.on_dismiss is Some,
            r == (AnimatedModalBarrier { on_dismiss: r.on_dismiss, ..self }),
    {
        AnimatedModalBarrier { on_dismiss: Some(crate::callback::callback_from(callback)), ..self }
    }

    /// Sets the yes/no dismissal bridge, asked when no callback is set.
    pub fn dismissal_handler(self, callback: impl Fn() -> bool + 'static) -> (r: Self)
        ensures
            r.dismissal_handler is Some,
            r == (AnimatedModalBarrier { dismissal_handler: r.dismissal_handler, ..self }),
    {
        AnimatedModalBarrier { dismissal_handler: Some(crate::back_dispatch::flag_handle(callback)), ..self }
    }

    /// Sets the accessibility label.
    pub fn semantics_label(self, label: &str) -> (r: Self)
        ensures
            r.semantics_label matches Some(s) && s@ == label@,
            r.color == self.color,
            r.dismissible == self.dismissible,
            r.barrier_semantics_dismissible == self.barrier_semantics_dismissible,
            r.semantics_on_tap_hint == self.semantics_on_tap_hint,
            r.on_dismiss == self.on_dismiss,
            r.dismissal_handler == self.dismissal_handler,
            r.child == self.child,
    {
        AnimatedModalBarrier { semantics_label: Some(crate::text::owned(label)), ..self }
    }

    /// Sets whether a labelled barrier offers an accessibility dismiss.
    pub fn barrier_semantics_dismissible(self, value: bool) -> (r: Self)
        ensures
            r == (AnimatedModalBarrier { barrier_semantics_dismissible: value, ..self }),
    {
        AnimatedModalBarrier { barrier_semantics_dismissible: value, ..self }
    }

    /// Sets the accessibility tap hint.
    pub fn semantics_on_tap_hint(self, hint: &str) -> (r: Self)
        ensures
            r.semantics_on_tap_hint matches Some(s) && s@ == hint@,
            r.color == self.color,
            r.dismissible == self.dismissible,
            r.barrier_semantics_dismissible == self.barrier_semantics_dismissible,
            r.semantics_label == self.semantics_label,
            r.on_dismiss == self.on_dismiss,
            r.dismissal_handler == self.dismissal_handler,
            r.child == self.child,
    {
        AnimatedModalBarrier { semantics_on_tap_hint: Some(crate::text::owned(hint)), ..self }
    }

    /// Places the barrier above `child`.
    pub fn child(self, child: Widget) -> (r: Self)
        ensures
            r == (AnimatedModalBarrier { child: Some(child), ..self }),
    {
        AnimatedModalBarrier { child: Some(child), ..self }
    }

    /// Whether the barrier offers an accessibility dismiss action.
    pub open spec fn semantic_dismiss(&self) -> bool {
        self.dismissible && self.barrier_semantics_dismissible
    }

    /// Runs the dismissal: nothing when not dismissible; the callback when
    /// set (handled); else the bridge's answer; else not handled.
    pub fn dismiss(&mut self) -> (r: bool)
        ensures
            *final(self) == (AnimatedModalBarrier { dismissals: final(self).dismissals, ..*old(self) }),
            !old(self).dismissible ==> !r && final(self).dismissals@ == old(self).dismissals@,
            old(self).dismissible && old(self).on_dismiss is Some ==> r
                && final(self).dismissals@ == old(self).dismissals@.push(BarrierDismissal::OnDismiss(old(self).on_dismiss->0)),
            old(self).dismissible && old(self).on_dismiss is None && old(self).dismissal_handler is Some
                ==> final(self).dismissals@ == old(self).dismissals@.push(
                    BarrierDismissal::Handler(old(self).dismissal_handler->0, r)),
            old(self).dismissible && old(self).on_dismiss is None && old(self).dismissal_handler is None
                ==> !r && final(self).dismissals@ == old(self).dismissals@,
    {
        if !self.dismissible {
            return false;
        }
        match &self.on_dismiss {
            Some(callback) => {
                run_callback(callback);
                proof {
                    self.dismissals@ = self.dismissals@.push(BarrierDismissal::OnDismiss(self.on_dismiss->0));
                }
                true
            },
            None => match &self.dismissal_handler {
                Some(handler) => {
                    let answer = call_flag(handler);
                    proof {
                        self.dismissals@ = self.dismissals@.push(BarrierDismissal::Handler(self.dismissal_handler->0, answer));
                    }
                    answer
                },
                None => false,
            },
        }
    }
}

/// The accessibility role of a barrier's veil.
#[derive(Clone, Copy, Debug, PartialEq, Eq, Structural)]
pub enum BarrierRole {
    Button,
    GenericContainer,
}

/// The accessibility node of a barrier's veil.
pub struct BarrierSemantics {
    pub role: BarrierRole,
    pub label: Option<String>,
    pub hint: Option<String>,
    /// Whether the node offers an activate action that dismisses.
    pub activate_dismisses: bool,
}

/// How a barrier lowers: a veil of `color` that either reports taps as
/// dismissals or absorbs them, an optional accessibility node, semantics of
/// what lies behind always blocked, stacked above the child when there is one.
pub struct BarrierLowering {
    pub color: Color,
    pub tap_dismisses: bool,
    pub absorbs_pointer: bool,
    pub semantics: Option<BarrierSemantics>,
    pub blocks_background_semantics: bool,
    pub stacked_over_child: bool,
}

fn copy_text(s: &Option<String>) -> (r: Option<String>)
    ensures
        r is Some == s is Some,
        r is Some ==> r->0@ == s->0@,
{
    match s {
        Some(t) => Some(crate::text::owned(t.as_str())),
        None => None,
    }
}

impl AnimatedModalBarrier {
    /// The barrier's lowering: taps dismiss exactly when dismissible (else
    /// they are absorbed); an accessibility node exists when there is a
    /// label or a semantic dismissal, with the button role and an activate
    /// action exactly for a semantic dismissal, carrying the label and hint.
    pub fn lowering(&self) -> (r: BarrierLowering)
        ensures
            r.color == self.color.value,
            r.tap_dismisses == self.dismissible,
            r.absorbs_pointer == !self.dismissible,
            r.blocks_background_semantics,
            r.stacked_over_child == self.child is Some,
            r.semantics is Some == (self.semantics_label is Some || self.semantic_dismiss()),
            r.semantics matches Some(sem) ==> {
                &&& sem.role == (if self.semantic_dismiss() { BarrierRole::Button } else { BarrierRole::GenericContainer })
                &&& sem.activate_dismisses == self.semantic_dismiss()
                &&& (sem.label is Some == self.semantics_label is Some)
                &&& (sem.label is Some ==> sem.label->0@ == self.semantics_label->0@)
                &&& (sem.hint is Some == self.semantics_on_tap_hint is Some)
                &&& (sem.hint is Some ==> sem.hint->0@ == self.semantics_on_tap_hint->0@)
            },
    {
        let semantic_dismiss = self.dismissible && self.barrier_semantics_dismissible;
        let semantics = if self.semantics_label.is_some() || semantic_dismiss {
            Some(BarrierSemantics {
                role: if semantic_dismiss { BarrierRole::Button } else { BarrierRole::GenericContainer },
                label: copy_text(&self.semantics_label),
                hint: copy_text(&self.semantics_on_tap_hint),
                activate_dismisses: semantic_dismiss,
            })
        } else {
            None
        };
        BarrierLowering {
            color: self.color.value(),
            tap_dismisses: self.dismissible,
            absorbs_pointer: !self.dismissible,
            semantics,
            blocks_background_semantics: true,
            stacked_over_child: self.child.is_some(),
        }
    }
}

} // verus!
