use incular_widgets::back_dispatch::{BackButtonDispatcher, BackDispatchTree, PopAttempt, PopScopeController};
use incular_widgets::recursion::RecursionDiagnostics;
use incular_widgets::descriptors::{ReorderableDragStartListener, SliverChildId};
use incular_widgets::menu::{
    DelegateHandle, MenuItemId, MenuOwnerId, PlatformMenu, PlatformMenuBarController, PlatformMenuDelegate,
    PlatformMenuEventSink, PlatformMenuItem, PlatformMenuSnapshot, PlatformMenuUpdate,
};
use incular_widgets::page_storage::{PageStorageBucket, PageStorageIdentifier, PageStorageKey};
use incular_widgets::reorder_listener::install_listener;
use incular_widgets::sliver_lists::{
    drag_end_index, drag_source, drop_on, DragSource, ReorderNotice, SliverAnimatedList, SliverAnimatedListController,
    SliverReorderController,
};
use incular_widgets::reorder_marker::ReorderableListenerSpec;
use incular_widgets::time::{Duration, Instant};
use incular_widgets::tooltip::{
    RawTooltip, RawTooltipController, RawTooltipVisibility, TooltipPlacement, TooltipRegistry, TooltipTriggerMode, TouchTrigger,
};
use incular_widgets::menu::{DeferredPlatformMenuDelegate, ShortcutModifiers};
use incular_widgets::widget::Widget;
use serde_json::Value;
use std::cell::RefCell;
use std::rc::Rc;

struct Logged {
    log: Rc<RefCell<Vec<String>>>,
    set_menus_answer: PlatformMenuUpdate,
}

impl PlatformMenuDelegate for Logged {
    fn acquire(&self, owner: MenuOwnerId) -> PlatformMenuUpdate {
        self.log.borrow_mut().push(format!("acquire {}", owner.get()));
        PlatformMenuUpdate::Applied
    }
    fn set_menus(&self, owner: MenuOwnerId, _snapshot: PlatformMenuSnapshot) -> PlatformMenuUpdate {
        self.log.borrow_mut().push(format!("set_menus {}", owner.get()));
        self.set_menus_answer
    }
    fn clear_menus(&self, owner: MenuOwnerId) -> PlatformMenuUpdate {
        self.log.borrow_mut().push(format!("clear_menus {}", owner.get()));
        PlatformMenuUpdate::Unchanged
    }
    fn release(&self, owner: MenuOwnerId) -> PlatformMenuUpdate {
        self.log.borrow_mut().push(format!("release {}", owner.get()));
        PlatformMenuUpdate::Applied
    }
    fn set_event_handler(&self, owner: MenuOwnerId, sink: Option<PlatformMenuEventSink>) -> PlatformMenuUpdate {
        self.log.borrow_mut().push(format!("sink {} {}", owner.get(), sink.is_some()));
        PlatformMenuUpdate::Applied
    }
}

fn menus() -> Vec<PlatformMenu> {
    vec![PlatformMenu::with_items("File", vec![PlatformMenuItem::new("Open").id(MenuItemId::new("open"))])]
}

#[test]
fn install_sends_acquire_sink_and_menus_in_order() {
    let log = Rc::new(RefCell::new(Vec::new()));
    let delegate = DelegateHandle::new(Logged { log: log.clone(), set_menus_answer: PlatformMenuUpdate::Applied });
    let mut c = PlatformMenuBarController::new(MenuOwnerId::new(7), delegate);
    assert!(matches!(c.install(&menus()), Ok(PlatformMenuUpdate::Applied)));
    assert_eq!(*log.borrow(), vec!["acquire 7", "sink 7 true", "set_menus 7"]);
    assert!(matches!(c.install(&menus()), Ok(PlatformMenuUpdate::Unchanged)));
    assert_eq!(log.borrow().len(), 3);
}

#[test]
fn rejected_first_install_gives_back_sink_and_ownership() {
    let log = Rc::new(RefCell::new(Vec::new()));
    let delegate = DelegateHandle::new(Logged { log: log.clone(), set_menus_answer: PlatformMenuUpdate::RejectedByPlatform });
    let mut c = PlatformMenuBarController::new(MenuOwnerId::new(3), delegate);
    assert!(matches!(c.install(&menus()), Ok(PlatformMenuUpdate::RejectedByPlatform)));
    assert_eq!(*log.borrow(), vec!["acquire 3", "sink 3 true", "set_menus 3", "sink 3 false", "release 3"]);
    assert!(c.snapshot().is_none());
    assert_eq!(c.last_update(), Some(PlatformMenuUpdate::RejectedByPlatform));
}

#[test]
fn detach_clears_removes_sink_and_releases() {
    let log = Rc::new(RefCell::new(Vec::new()));
    let delegate = DelegateHandle::new(Logged { log: log.clone(), set_menus_answer: PlatformMenuUpdate::Applied });
    let mut c = PlatformMenuBarController::new(MenuOwnerId::new(5), delegate);
    let _ = c.install(&menus());
    log.borrow_mut().clear();
    assert_eq!(c.detach(), PlatformMenuUpdate::Unchanged);
    assert_eq!(*log.borrow(), vec!["clear_menus 5", "sink 5 false", "release 5"]);
    assert!(c.snapshot().is_none());
}

#[test]
fn zero_span_show_for_is_kept_open() {
    let mut c = RawTooltipController::new();
    c.show_for(Duration::zero(), Instant::from_nanos(0));
    assert!(!c.cancel_trigger_at(Instant::from_nanos(0)));
    assert!(c.is_visible());
    assert_eq!(c.state(), RawTooltipVisibility::Visible);
    c.show_for(Duration::from_millis(10), Instant::from_nanos(0));
    assert_eq!(c.state(), RawTooltipVisibility::Dismissing);
}

#[test]
fn trigger_callback_runs_when_shown_and_on_every_tap() {
    let runs = Rc::new(RefCell::new(0));
    let r = runs.clone();
    let mut c = RawTooltipController::new();
    c.set_on_triggered(move || *r.borrow_mut() += 1);
    assert!(c.show_at(Instant::from_nanos(0)));
    assert!(!c.show_at(Instant::from_nanos(0)));
    assert_eq!(*runs.borrow(), 1);
    assert!(c.hide_at(Instant::from_nanos(0)));
    assert_eq!(*runs.borrow(), 1);
    c.trigger_tap_at(Instant::from_nanos(0));
    c.trigger_tap_at(Instant::from_nanos(0));
    assert_eq!(*runs.borrow(), 3);
}

#[test]
fn hover_dismisses_other_presented_tooltips() {
    let mut registry = TooltipRegistry::new();
    let a = registry.register(RawTooltipController::new());
    let b = registry.register(RawTooltipController::new());
    let c = registry.register(RawTooltipController::new());
    assert!(registry.trigger_tap_at(a, Instant::from_nanos(0)));
    assert!(registry.show_at(b, Instant::from_nanos(0)));
    assert!(registry.mouse_enter_at(c, 1, Instant::from_nanos(0)));
    assert!(!registry.get(a).is_visible());
    assert!(registry.get(b).is_visible());
    assert!(registry.get(c).is_visible());
    assert!(registry.dismiss_all_at(Instant::from_nanos(0)));
    assert!(!registry.get(b).is_visible());
    assert!(!registry.get(c).is_visible());
    assert_eq!(registry.len(), 3);
}

#[test]
fn listener_is_replaced_by_its_wrapped_child() {
    let listener = ReorderableDragStartListener::new(3, Widget::text("handle")).into_widget();
    let mut row = Widget::Row(vec![Widget::text("title"), listener]);
    let found = install_listener(&mut row, |child, _spec| Widget::Center(Box::new(child)));
    let found = found.expect("listener");
    assert_eq!(found.index, 3);
    assert!(found.enabled);
    match &row {
        Widget::Row(children) => {
            assert!(matches!(&children[0], Widget::Text(t) if t == "title"));
            assert!(matches!(&children[1], Widget::Center(c) if matches!(&**c, Widget::Text(t) if t == "handle")));
        },
        _ => panic!("row expected"),
    }
    assert!(install_listener(&mut row, |child, _spec| child).is_none());
}

#[test]
fn disabled_listener_leaves_its_bare_child() {
    let listener = ReorderableDragStartListener::new(1, Widget::Empty).enabled(false).into_widget();
    let mut w = Widget::Center(Box::new(listener));
    let found = install_listener(&mut w, |child, _spec| Widget::Center(Box::new(child)));
    assert!(!found.expect("listener").enabled);
    assert!(matches!(&w, Widget::Center(c) if matches!(&**c, Widget::Empty)));
}

#[test]
fn scoped_child_ids_round_trip() {
    let child = SliverChildId::list_item(4);
    let scoped = SliverChildId::scoped(2, child);
    assert_eq!(scoped.scope(), 2);
    assert_eq!(scoped.local(), child);
    assert_eq!(scoped.item_index(), Some(4));
    assert_eq!(SliverChildId::scoped(900, child).scope(), 254);
    assert_eq!(child.scope(), usize::MAX);
}

#[test]
fn huge_millisecond_spans_saturate() {
    assert_eq!(Duration::from_millis(2).as_nanos(), 2_000_000);
    assert_eq!(Duration::from_millis(u64::MAX).as_nanos(), u64::MAX);
}

#[test]
fn animated_list_builds_its_items() {
    let mut list = SliverAnimatedList::new(2, |i| Widget::text(&format!("item {i}")));
    assert!(matches!(list.build_item(1), Some(Widget::Text(t)) if t == "item 1"));
    assert!(list.build_item(2).is_none());
    let mut c = SliverAnimatedListController::new(2);
    assert!(c.remove_at(0, Instant::from_nanos(0)));
}

#[test]
fn a_fresh_tree_is_well_formed() {
    let mut tree = BackDispatchTree::new();
    assert!(tree.is_well_formed());
    let root = BackButtonDispatcher::new(&mut tree);
    let _child = root.create_child(&mut tree);
    assert!(tree.is_well_formed());
}

#[test]
fn a_different_value_overwrites_the_saved_one() {
    let id = PageStorageIdentifier::new(vec![PageStorageKey::new(1)]);
    let mut bucket = PageStorageBucket::new();
    assert!(bucket.write_state(PageStorageIdentifier::new(vec![PageStorageKey::new(1)]), Value::from(1)));
    assert!(bucket.write_state(PageStorageIdentifier::new(vec![PageStorageKey::new(1)]), Value::from(2)));
    assert_eq!(bucket.read_state(&id), Some(Value::from(2)));
    assert!(!bucket.write_state(PageStorageIdentifier::new(vec![PageStorageKey::new(1)]), Value::from(2)));
    assert_eq!(bucket.revision(), 2);
}

#[test]
fn tooltip_layers_follow_the_trigger_mode() {
    let t = RawTooltip::new("Save", Widget::Empty);
    let l = t.tooltip_layers().expect("active");
    assert!(l.hover && l.popup_hover);
    let listener = l.pointer_listener.expect("touch mode listens to pointers");
    assert!(listener.dismiss_on_other_pointer);
    let g = l.gesture.expect("long press gesture");
    assert_eq!(g.trigger, TouchTrigger::LongPress);
    assert!(g.cancel_dismisses);
    assert!(!l.focus_detector);
    assert_eq!(l.semantics.as_deref(), Some("Save"));
    assert!(l.tap_outside_dismisses);
    assert_eq!(l.placement, TooltipPlacement::Below);

    let t = RawTooltip::new("Save", Widget::Empty)
        .trigger_mode(TooltipTriggerMode::Focus)
        .enable_tap_to_dismiss(false)
        .prefer_below(false)
        .exclude_from_semantics(true);
    let l = t.tooltip_layers().expect("active");
    assert!(l.pointer_listener.is_none());
    assert!(l.gesture.is_none());
    assert!(l.focus_detector);
    assert!(l.semantics.is_none());
    assert!(!l.tap_outside_dismisses);
    assert_eq!(l.placement, TooltipPlacement::Above);

    let t = RawTooltip::new("Save", Widget::Empty).trigger_mode(TooltipTriggerMode::Tap);
    assert_eq!(t.tooltip_layers().expect("active").gesture.expect("tap").trigger, TouchTrigger::Tap);
    assert!(RawTooltip::new("", Widget::Empty).tooltip_layers().is_none());
    assert!(RawTooltip::new("Save", Widget::Empty).enabled(false).tooltip_layers().is_none());
}

#[test]
fn focus_tooltip_sync_follows_the_focus_node() {
    let mut t = RawTooltip::new("Save", Widget::Empty).trigger_mode(TooltipTriggerMode::Focus);
    t.sync_controller(true, Instant::from_nanos(0));
    assert!(t.controller_ref().is_visible());
}

#[test]
fn drop_reports_insertion_index_and_notice() {
    let mut c = SliverReorderController::new(4);
    let d = drop_on(&mut c, 0, 2, ReorderNotice::OnReorder).expect("item 0 is in the list");
    assert_eq!(d.from, 0);
    assert_eq!(d.insertion_index, 3);
    assert!(d.moved);
    assert_eq!(d.notice, Some((0, 3)));
    assert_eq!(c.order(), vec![1, 2, 0, 3]);
    let d = drop_on(&mut c, 3, 0, ReorderNotice::OnReorderItem).expect("item 3");
    assert_eq!(d.insertion_index, 0);
    assert_eq!(d.notice, Some((3, 0)));
    assert_eq!(c.order(), vec![3, 1, 2, 0]);
    let d = drop_on(&mut c, 1, 1, ReorderNotice::OnReorder).expect("item 1");
    assert!(!d.moved);
    assert_eq!(d.notice, None);
    assert!(drop_on(&mut c, 9, 0, ReorderNotice::Silent).is_none());
    assert_eq!(drag_end_index(&c, Some(2), 0), Some(2));
    assert_eq!(drag_end_index(&c, None, 0), Some(3));
}

#[test]
fn rows_become_drag_sources_as_their_listener_says() {
    let spec = ReorderableListenerSpec { index: 4, enabled: true, delayed: true };
    assert_eq!(drag_source(Some(spec), true, 1), DragSource::Listener { start_index: 4, delayed: true });
    let off = ReorderableListenerSpec { index: 4, enabled: false, delayed: false };
    assert_eq!(drag_source(Some(off), false, 1), DragSource::NotDraggable);
    assert_eq!(drag_source(None, false, 1), DragSource::WholeRow { start_index: 1 });
    assert_eq!(drag_source(None, true, 1), DragSource::NotDraggable);
}

#[test]
fn shortcuts_reach_only_a_bound_delegate() {
    let mut deferred = DeferredPlatformMenuDelegate::new();
    assert!(!deferred.handle_shortcut("S", ShortcutModifiers::control()));
}

#[test]
fn pop_scope_records_each_attempt_told() {
    let seen = Rc::new(RefCell::new(Vec::new()));
    let s = seen.clone();
    let mut tree = BackDispatchTree::new();
    let root = BackButtonDispatcher::new(&mut tree);
    let s2 = seen.clone();
    let _a = root.register_pop_scope(&mut tree, || false, move |a: PopAttempt| s.borrow_mut().push((1, a.blocked)));
    let _b = root.register_pop_scope(&mut tree, || true, move |a: PopAttempt| s2.borrow_mut().push((2, a.blocked)));
    let report = root.dispatch_back(&mut tree);
    assert!(report.blocked);
    assert_eq!(*seen.borrow(), vec![(1, true), (2, true)]);
    let mut c = PopScopeController::new();
    c.invoke_pop(false, None);
}

#[test]
fn recursion_limit_setting_is_read_and_clamped() {
    assert_eq!(RecursionDiagnostics::configured_limit(Some("500")), 500);
    assert_eq!(RecursionDiagnostics::configured_limit(Some("+500")), 500);
    assert_eq!(RecursionDiagnostics::configured_limit(Some("3")), 16);
    assert_eq!(RecursionDiagnostics::configured_limit(Some("999999")), 4096);
    assert_eq!(RecursionDiagnostics::configured_limit(Some("x")), 256);
    assert_eq!(RecursionDiagnostics::configured_limit(None), 256);
}
