use incular_widgets::descriptors::{
    AnimatedModalBarrier, BlurStyle, BorderStyle, BoxShape, Center, Clip, Color,
    ColorAnimation, Column, Expanded, HitTestBehavior, Offstage, RadioGroup, RawInputKind,
    RawInputType, RawRadio, ReorderableDelayedDragStartListener, ReorderableDragStartListener, Row,
    SelectableChildPolicy, SelectableRegion, SelectedContent, SelectedContentRange, SelectionStatus,
    SingleChildScrollView, SliverChildId, SnapshotWidget, Spacer, TapRegionGroupId, TapRegionSurface,
    TileMode, Visibility,
};
use incular_widgets::widget::{Axis, FlexFit, Widget};
use std::cell::Cell;
use std::rc::Rc;

#[test]
fn row_and_column_build_retained_widgets() {
    let row = Row::new(vec![Widget::Empty]).into_widget();
    assert!(matches!(&row, Widget::Row(children) if children.len() == 1));
    let column = Column::new(vec![Widget::Empty]).into_widget();
    assert!(matches!(&column, Widget::Column(children) if children.len() == 1));
    let replaced = Row::new(vec![]).children(vec![Widget::Empty, Widget::Empty]);
    assert_eq!(replaced.children.len(), 2);
}

#[test]
fn alignment_wrappers_convert_to_widgets() {
    let centered = Center::new(Widget::Empty).into_widget();
    assert!(matches!(centered, Widget::Center(_)));
}

#[test]
fn expanded_and_spacer_flex_is_at_least_one() {
    let w = Expanded::new(Widget::Empty).flex(0).into_widget();
    assert!(matches!(w, Widget::Flexible { flex: 1, fit: FlexFit::Tight, .. }));
    let w = Expanded::new(Widget::Empty).flex(3).into_widget();
    assert!(matches!(w, Widget::Flexible { flex: 3, .. }));
    let w = Spacer::new().flex(0).into_widget();
    assert!(matches!(w, Widget::Flexible { flex: 1, fit: FlexFit::Tight, .. }));
    let w = Spacer::default().flex(2).into_widget();
    assert!(matches!(w, Widget::Flexible { flex: 2, .. }));
}

#[test]
fn visibility_and_offstage_lower_to_visibility_nodes() {
    let w = Visibility::new(true, Widget::Empty).visible(false).into_widget();
    assert!(matches!(w, Widget::Visibility { visible: false, .. }));
    let w = Offstage::new(Widget::Empty).into_widget();
    assert!(matches!(w, Widget::Visibility { visible: false, .. }));
    let w = SnapshotWidget::new(Widget::Empty).into_widget();
    assert!(matches!(w, Widget::RepaintBoundary(_)));
    let w = SelectableRegion::new(Widget::Empty).into_widget();
    assert!(matches!(w, Widget::SelectionArea(_)));
    let w = TapRegionSurface::new(Widget::Empty).into_widget();
    assert!(matches!(w, Widget::TapRegionSurface(_)));
}

#[test]
fn painting_enums_default_as_documented() {
    assert_eq!(BorderStyle::default(), BorderStyle::Solid);
    assert_eq!(BoxShape::default(), BoxShape::Rectangle);
    assert_eq!(BlurStyle::default(), BlurStyle::Normal);
    assert_eq!(TileMode::default(), TileMode::Clamp);
}

#[test]
fn selected_range_predicates() {
    let r = SelectedContentRange::new(3, 3);
    assert!(r.is_collapsed() && r.is_empty());
    let r = SelectedContentRange::new(2, 5);
    assert!(!r.is_collapsed() && !r.is_empty());
    let r = SelectedContentRange::new(5, 2);
    assert!(!r.is_collapsed() && r.is_empty());
    assert_eq!(SelectedContentRange::default(), SelectedContentRange::new(0, 0));
    assert_eq!(SelectionStatus::default(), SelectionStatus::Inactive);
    assert_eq!(SelectedContent::new("hi").plain_text, "hi");
}

#[test]
fn selectable_child_policy_accepts_only_all() {
    assert!(SelectableChildPolicy::All.accepts_children());
    assert!(!SelectableChildPolicy::Disabled.accepts_children());
    assert_eq!(SelectableChildPolicy::default(), SelectableChildPolicy::All);
}

#[test]
fn radio_builders_keep_their_values() {
    let g: RadioGroup<u32> = RadioGroup::new(Widget::Empty).value(Some(2));
    assert_eq!(g.value, Some(2));
    let seen = Rc::new(Cell::new(0));
    let s = seen.clone();
    let g = g.on_changed(move |v: u32| s.set(v));
    assert!(g.on_changed.is_some());
    let r = RawRadio::new(1u32, Some(2)).on_changed(|_v: u32| {});
    assert_eq!(r.value, 1);
    assert_eq!(r.group_value, Some(2));
    assert!(matches!(g.into_widget(), Widget::Empty));
}

#[test]
fn tap_region_group_ids() {
    assert!(matches!(TapRegionGroupId::named("menu"), TapRegionGroupId::Named(s) if s == "menu"));
    assert!(matches!(TapRegionGroupId::numeric(7), TapRegionGroupId::Numeric(7)));
    assert!(matches!(TapRegionGroupId::text_field(), TapRegionGroupId::TextField));
    assert!(matches!(TapRegionGroupId::default(), TapRegionGroupId::TextField));
}

#[test]
fn raw_input_hit_test_behavior() {
    let k = RawInputKind::MouseRegion { opaque: true, explicit_behavior: None };
    assert_eq!(k.hit_test_behavior(), HitTestBehavior::Opaque);
    let k = RawInputKind::MouseRegion { opaque: false, explicit_behavior: None };
    assert_eq!(k.hit_test_behavior(), HitTestBehavior::Translucent);
    let k = RawInputKind::MouseRegion { opaque: true, explicit_behavior: Some(HitTestBehavior::DeferToChild) };
    assert_eq!(k.hit_test_behavior(), HitTestBehavior::DeferToChild);
    assert_eq!(RawInputKind::TapRegionSurface.hit_test_behavior(), HitTestBehavior::DeferToChild);
    let k = RawInputKind::TapRegion {
        enabled: false,
        behavior: HitTestBehavior::Opaque,
        group_id: Some(TapRegionGroupId::numeric(3)),
        consume_outside_taps: true,
    };
    assert_eq!(k.hit_test_behavior(), HitTestBehavior::Opaque);
    assert!(!k.is_enabled());
    assert_eq!(k.type_(), RawInputType::TapRegion);
    assert!(RawInputKind::Listener { behavior: HitTestBehavior::Translucent }.is_enabled());
    let field = RawInputKind::TextFieldTapRegion {
        enabled: true,
        behavior: HitTestBehavior::DeferToChild,
        group_id: TapRegionGroupId::text_field(),
        consume_outside_taps: false,
    };
    assert_eq!(field.type_(), RawInputType::TextFieldTapRegion);
    let other = RawInputKind::TextFieldTapRegion {
        enabled: true,
        behavior: HitTestBehavior::DeferToChild,
        group_id: TapRegionGroupId::named("search"),
        consume_outside_taps: false,
    };
    assert_ne!(field, other);
}

#[test]
fn reorder_listeners_lower_with_their_index() {
    let l = ReorderableDragStartListener::with_child(Widget::Empty, 4).enabled(false);
    assert_eq!(l.index(), 4);
    assert!(!l.is_enabled());
    assert!(matches!(l.into_widget(), Widget::ReorderListener { index: 4, enabled: false, delayed: false, .. }));
    let l = ReorderableDelayedDragStartListener::new(2, Widget::Empty);
    assert!(l.is_enabled());
    assert!(matches!(l.into_widget(), Widget::ReorderListener { index: 2, enabled: true, delayed: true, .. }));
}

#[test]
fn sliver_child_ids_round_trip() {
    assert_eq!(SliverChildId::list_item(0).0, 1);
    assert_eq!(SliverChildId::list_item(41).item_index(), Some(41));
    assert_eq!(SliverChildId::default().item_index(), None);
    assert_eq!(SliverChildId((1u64 << 32) + 6).item_index(), Some(5));
}

#[test]
fn scroll_view_defaults_and_setters() {
    let v = SingleChildScrollView::new(Widget::Empty);
    assert_eq!(v.get_scroll_direction(), Axis::Vertical);
    assert!(!v.reverse);
    assert_eq!(v.clip_behavior, Clip::HardEdge);
    let v = v.scroll_direction(Axis::Horizontal).reverse(true).clip_behavior(Clip::NoClip);
    assert_eq!(v.get_scroll_direction(), Axis::Horizontal);
    assert!(v.reverse);
    assert_eq!(v.clip_behavior, Clip::NoClip);
}


#[test]
fn barrier_defaults_and_dismissal() {
    let mut b = AnimatedModalBarrier::new();
    assert_eq!(b.current_color(), Color::rgba(0, 0, 0, 128));
    assert!(b.dismissible);
    assert!(!b.dismiss());
    let ran = Rc::new(Cell::new(0));
    let r = ran.clone();
    let mut b = b.on_dismiss(move || r.set(r.get() + 1));
    assert!(b.dismiss());
    assert_eq!(ran.get(), 1);
    let mut b = b.dismissible(false);
    assert!(!b.dismiss());
    assert_eq!(ran.get(), 1);
    let mut b = AnimatedModalBarrier::with_color(ColorAnimation::constant(Color::rgba(1, 2, 3, 4)))
        .dismissal_handler(|| false);
    assert!(!b.dismiss());
    let mut b = b.dismissal_handler(|| true);
    assert!(b.dismiss());
    assert_eq!(b.animation().value(), Color::rgba(1, 2, 3, 4));
    let b = b.semantics_label("Close").semantics_on_tap_hint("tap").barrier_semantics_dismissible(false);
    assert_eq!(b.semantics_label.as_deref(), Some("Close"));
    assert_eq!(b.semantics_on_tap_hint.as_deref(), Some("tap"));
    assert!(!b.barrier_semantics_dismissible);
}

#[test]
fn barrier_lowering_follows_dismissal_and_labels() {
    let plain = AnimatedModalBarrier::new().lowering();
    assert!(plain.tap_dismisses && !plain.absorbs_pointer);
    assert!(plain.blocks_background_semantics);
    assert!(!plain.stacked_over_child);
    let sem = plain.semantics.expect("semantic dismissal gives a node");
    assert_eq!(sem.role, incular_widgets::descriptors::BarrierRole::Button);
    assert!(sem.activate_dismisses);
    let locked = AnimatedModalBarrier::new().dismissible(false).lowering();
    assert!(locked.absorbs_pointer && !locked.tap_dismisses);
    assert!(locked.semantics.is_none());
    let labelled = AnimatedModalBarrier::new()
        .dismissible(false)
        .semantics_label("Dialog")
        .semantics_on_tap_hint("hint")
        .child(Widget::Empty)
        .lowering();
    let sem = labelled.semantics.expect("label gives a node");
    assert_eq!(sem.role, incular_widgets::descriptors::BarrierRole::GenericContainer);
    assert!(!sem.activate_dismisses);
    assert_eq!(sem.label.as_deref(), Some("Dialog"));
    assert_eq!(sem.hint.as_deref(), Some("hint"));
    assert!(labelled.stacked_over_child);
}
