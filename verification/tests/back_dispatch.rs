use incular_widgets::back_dispatch::{
    pop_attempt_from_report, pop_stage_decision, BackButtonDispatcher, BackDispatchReport,
    BackDispatchTree, BackHandlerResult, DispatchStage, NavigatorPopHandlerController, PopAttempt,
    PopScopeController,
};
use incular_widgets::back_dispatch::{BackButtonListener, NavigatorPopHandler, PopScope};
use incular_widgets::widget::Widget;
use std::cell::RefCell;
use std::rc::Rc;

fn log() -> Rc<RefCell<Vec<&'static str>>> {
    Rc::new(RefCell::new(Vec::new()))
}

#[test]
fn empty_dispatcher_reports_unhandled_at_depth_zero() {
    let mut tree = BackDispatchTree::new();
    let root = BackButtonDispatcher::new(&mut tree);
    let report = root.dispatch_back(&mut tree);
    assert!(!report.handled);
    assert!(!report.blocked);
    assert_eq!(report.depth, 0);
    assert!(report.pop.is_none());
}

#[test]
fn newest_handler_runs_first_and_stops_dispatch() {
    let mut tree = BackDispatchTree::new();
    let root = BackButtonDispatcher::new(&mut tree);
    let calls = log();
    let c1 = calls.clone();
    let _old = root.add_callback(&mut tree, move || {
        c1.borrow_mut().push("old");
        true
    });
    let c2 = calls.clone();
    let _new = root.add_callback(&mut tree, move || {
        c2.borrow_mut().push("new");
        true
    });
    let report = root.dispatch_back(&mut tree);
    assert!(report.handled);
    assert_eq!(report.depth, 0);
    assert_eq!(*calls.borrow(), vec!["new"]);
}

#[test]
fn declining_handler_passes_to_older_one() {
    let mut tree = BackDispatchTree::new();
    let root = BackButtonDispatcher::new(&mut tree);
    let calls = log();
    let c1 = calls.clone();
    let _old = root.add_handler(&mut tree, move || {
        c1.borrow_mut().push("old");
        BackHandlerResult::handled()
    });
    let c2 = calls.clone();
    let _new = root.add_callback(&mut tree, move || {
        c2.borrow_mut().push("new");
        false
    });
    let report = root.dispatch_back(&mut tree);
    assert!(report.handled);
    assert_eq!(*calls.borrow(), vec!["new", "old"]);
}

#[test]
fn child_dispatcher_gets_first_refusal() {
    let mut tree = BackDispatchTree::new();
    let root = BackButtonDispatcher::new(&mut tree);
    let calls = log();
    let c1 = calls.clone();
    let _parent = root.add_callback(&mut tree, move || {
        c1.borrow_mut().push("parent");
        true
    });
    let child = root.create_child(&mut tree);
    let c2 = calls.clone();
    let _child = child.add_callback(&mut tree, move || {
        c2.borrow_mut().push("child");
        true
    });
    assert_eq!(root.child_count(&tree), 1);
    let report = root.dispatch_back(&mut tree);
    assert!(report.handled);
    assert_eq!(report.depth, 1);
    assert_eq!(*calls.borrow(), vec!["child"]);
}

#[test]
fn refusing_pop_guard_blocks_and_tells_every_guard() {
    let mut tree = BackDispatchTree::new();
    let root = BackButtonDispatcher::new(&mut tree);
    let told = Rc::new(RefCell::new(Vec::new()));
    let t1 = told.clone();
    let _g1 = root.register_pop_scope(
        &mut tree,
        || true,
        move |a: PopAttempt| t1.borrow_mut().push((a.did_pop, a.blocked)),
    );
    let t2 = told.clone();
    let _g2 = root.register_pop_scope(
        &mut tree,
        || false,
        move |a: PopAttempt| t2.borrow_mut().push((a.did_pop, a.blocked)),
    );
    let fallback_ran = Rc::new(RefCell::new(false));
    let f = fallback_ran.clone();
    root.set_fallback(&mut tree, move || {
        *f.borrow_mut() = true;
        PopAttempt::popped(None)
    });
    let report = root.dispatch_back(&mut tree);
    assert!(report.handled);
    assert!(report.blocked);
    let pop = report.pop.expect("blocked attempt");
    assert!(pop.blocked && pop.handled && !pop.did_pop);
    assert!(!*fallback_ran.borrow());
    assert_eq!(*told.borrow(), vec![(false, true), (false, true)]);
}

#[test]
fn allowing_guards_run_the_fallback_and_see_its_result() {
    let mut tree = BackDispatchTree::new();
    let root = BackButtonDispatcher::new(&mut tree);
    let told = Rc::new(RefCell::new(Vec::new()));
    let t1 = told.clone();
    let _g = root.register_pop_scope(
        &mut tree,
        || true,
        move |a: PopAttempt| t1.borrow_mut().push(a.result.clone()),
    );
    let report = root.dispatch_back_with_fallback(
        &mut tree,
        || PopAttempt::popped(Some(serde_json::Value::from(7))),
    );
    assert!(report.handled);
    assert!(!report.blocked);
    let pop = report.pop.expect("fallback attempt");
    assert!(pop.did_pop);
    assert_eq!(pop.result, Some(serde_json::Value::from(7)));
    assert_eq!(*told.borrow(), vec![Some(serde_json::Value::from(7))]);
}

#[test]
fn guards_without_fallback_report_an_unhandled_attempt() {
    let mut tree = BackDispatchTree::new();
    let root = BackButtonDispatcher::new(&mut tree);
    let _g = root.register_pop_scope(&mut tree, || true, |_a: PopAttempt| {});
    let report = root.dispatch_back(&mut tree);
    assert!(!report.handled);
    let pop = report.pop.expect("unhandled attempt");
    assert!(!pop.handled && !pop.did_pop && !pop.blocked);
}

#[test]
fn dropping_a_registration_removes_its_handler() {
    let mut tree = BackDispatchTree::new();
    let root = BackButtonDispatcher::new(&mut tree);
    let keep = root.add_callback(&mut tree, || false);
    let gone = root.add_callback(&mut tree, || true);
    assert_eq!(root.handler_count(&tree), 2);
    assert!(root.has_callbacks(&tree));
    gone.drop(&mut tree);
    assert_eq!(root.handler_count(&tree), 1);
    let report = root.dispatch_back(&mut tree);
    assert!(!report.handled);
    keep.drop(&mut tree);
    assert_eq!(root.handler_count(&tree), 0);
    assert!(!root.has_callbacks(&tree));
}

#[test]
fn attaching_self_or_twice_changes_nothing() {
    let mut tree = BackDispatchTree::new();
    let a = BackButtonDispatcher::new(&mut tree);
    let b = BackButtonDispatcher::new(&mut tree);
    let _self_link = a.attach_child(&mut tree, &a);
    assert_eq!(a.child_count(&tree), 0);
    let link = a.attach_child(&mut tree, &b);
    let _again = a.attach_child(&mut tree, &b);
    assert_eq!(a.child_count(&tree), 1);
    link.drop(&mut tree);
    assert_eq!(a.child_count(&tree), 0);
}

#[test]
fn detach_child_removes_the_attachment() {
    let mut tree = BackDispatchTree::new();
    let a = BackButtonDispatcher::new(&mut tree);
    let b = BackButtonDispatcher::new(&mut tree);
    let _link = a.attach_child(&mut tree, &b);
    a.detach_child(&mut tree, &b);
    assert_eq!(a.child_count(&tree), 0);
}

#[test]
fn take_priority_moves_a_child_to_the_front() {
    let mut tree = BackDispatchTree::new();
    let root = BackButtonDispatcher::new(&mut tree);
    let first = root.create_child(&mut tree);
    let second = root.create_child(&mut tree);
    let calls = log();
    let c1 = calls.clone();
    let _r1 = first.add_callback(&mut tree, move || {
        c1.borrow_mut().push("first");
        true
    });
    let c2 = calls.clone();
    let _r2 = second.add_callback(&mut tree, move || {
        c2.borrow_mut().push("second");
        true
    });
    let _ = root.dispatch_back(&mut tree);
    first.take_priority(&mut tree);
    let _ = root.dispatch_back(&mut tree);
    assert_eq!(*calls.borrow(), vec!["second", "first"]);
    assert_eq!(root.child_count(&tree), 2);
}

#[test]
fn take_priority_on_a_root_drops_its_children() {
    let mut tree = BackDispatchTree::new();
    let root = BackButtonDispatcher::new(&mut tree);
    let _child = root.create_child_back_button_dispatcher(&mut tree);
    root.take_priority(&mut tree);
    assert_eq!(root.child_count(&tree), 0);
}

#[test]
fn defer_to_attaches_a_new_child() {
    let mut tree = BackDispatchTree::new();
    let a = BackButtonDispatcher::new(&mut tree);
    let b = BackButtonDispatcher::new(&mut tree);
    a.defer_to(&mut tree, &b);
    assert_eq!(a.child_count(&tree), 1);
    a.defer_to(&mut tree, &b);
    assert_eq!(a.child_count(&tree), 1);
}

#[test]
fn cyclic_attachment_visits_each_dispatcher_once() {
    let mut tree = BackDispatchTree::new();
    let a = BackButtonDispatcher::new(&mut tree);
    let b = BackButtonDispatcher::new(&mut tree);
    let _ab = a.attach_child(&mut tree, &b);
    let _ba = b.attach_child(&mut tree, &a);
    let plan = a.dispatch_plan(&tree);
    assert_eq!(
        plan,
        vec![
            DispatchStage::Skip { depth: 2 },
            DispatchStage::Pop { node: 1, depth: 1 },
            DispatchStage::Pop { node: 0, depth: 0 },
        ]
    );
    let report = a.invoke_callback(&mut tree);
    assert!(!report.handled);
}

#[test]
fn plan_lists_handlers_newest_first() {
    let mut tree = BackDispatchTree::new();
    let root = BackButtonDispatcher::new(&mut tree);
    let _r0 = root.register_callback(&mut tree, || false);
    let _r1 = root.register_callback(&mut tree, || false);
    let plan = root.dispatch_plan(&tree);
    assert_eq!(
        plan,
        vec![
            DispatchStage::Handler { node: 0, index: 1, depth: 0 },
            DispatchStage::Handler { node: 0, index: 0, depth: 0 },
            DispatchStage::Pop { node: 0, depth: 0 },
        ]
    );
}

#[test]
fn own_fallback_and_clearing_it() {
    let mut tree = BackDispatchTree::new();
    let root = BackButtonDispatcher::with_fallback(&mut tree, PopAttempt::rejected);
    let report = root.dispatch_back(&mut tree);
    assert!(report.handled && !report.blocked);
    root.clear_fallback(&mut tree);
    let report = root.dispatch_back(&mut tree);
    assert!(!report.handled);
}

#[test]
fn pop_stage_decision_covers_each_case() {
    let r = pop_stage_decision(true, true, None, 3);
    assert!(!r.handled && r.pop.is_none() && r.depth == 3);
    let r = pop_stage_decision(false, false, Some(PopAttempt::popped(None)), 1);
    assert!(r.handled && r.blocked);
    let r = pop_stage_decision(false, true, None, 0);
    assert!(!r.handled && r.pop.is_some());
    let r = pop_stage_decision(true, false, Some(PopAttempt::rejected()), 0);
    assert!(r.handled && !r.blocked);
}

fn report(handled: bool, blocked: bool, pop: Option<PopAttempt>) -> BackDispatchReport {
    BackDispatchReport { handled, depth: 0, blocked, pop }
}

#[test]
fn pop_attempt_from_report_prefers_the_pop_result() {
    let a = pop_attempt_from_report(report(true, false, Some(PopAttempt::popped(None))));
    assert!(a.did_pop);
    let a = pop_attempt_from_report(report(true, true, None));
    assert!(a.blocked && a.handled);
    let a = pop_attempt_from_report(report(true, false, None));
    assert!(a.handled && !a.blocked && !a.did_pop);
    let a = pop_attempt_from_report(report(false, false, None));
    assert!(!a.handled);
}

#[test]
fn nested_pop_handler_claims_the_action_only_when_enabled_and_owning() {
    let mut c = NavigatorPopHandlerController::new();
    assert!(c.enabled() && c.can_pop());
    let r = c.handle_back();
    assert!(!r.handled);
    let seen = Rc::new(RefCell::new(Vec::new()));
    let s = seen.clone();
    c.set_on_pop_with_result(move |v| s.borrow_mut().push(v));
    c.set_pop_handler(|| PopAttempt::popped(Some(serde_json::Value::from("done"))));
    let r = c.handle_back();
    assert!(r.handled);
    assert!(r.pop.expect("attempt").did_pop);
    assert_eq!(*seen.borrow(), vec![Some(serde_json::Value::from("done"))]);
    c.set_can_pop(false);
    assert!(!c.handle_back().handled);
    c.set_can_pop(true);
    c.set_enabled(false);
    assert!(!c.handle_back().handled);
    assert_eq!(seen.borrow().len(), 1);
}

#[test]
fn pop_scope_controller_tells_its_callback() {
    let mut c = PopScopeController::new();
    assert!(c.can_pop());
    c.set_can_pop(false);
    assert!(!c.can_pop());
    let seen = Rc::new(RefCell::new(Vec::new()));
    let s = seen.clone();
    c.set_on_pop_invoked_with_result(
        move |did_pop, result| s.borrow_mut().push((did_pop, result)),
    );
    c.invoke_pop(true, Some(serde_json::Value::from(1)));
    assert_eq!(*seen.borrow(), vec![(true, Some(serde_json::Value::from(1)))]);
}

#[test]
fn back_button_listener_registers_only_with_a_callback() {
    let mut tree = BackDispatchTree::new();
    let root = BackButtonDispatcher::new(&mut tree);
    let bare = BackButtonListener::new(Widget::Empty);
    assert!(bare.register(&mut tree, &root).is_none());
    assert_eq!(root.handler_count(&tree), 0);
    let listening = BackButtonListener::new(Widget::Empty).on_back_button_pressed(|| true).dispatcher(root);
    assert!(listening.register(&mut tree, &root).is_some());
    assert_eq!(root.handler_count(&tree), 1);
    assert!(root.dispatch_back(&mut tree).handled);
}

#[test]
fn pop_scope_descriptor_configures_its_controller() {
    let mut tree = BackDispatchTree::new();
    let root = BackButtonDispatcher::new(&mut tree);
    let scope = PopScope::new(Widget::Empty).can_pop(false).on_pop_invoked(|_did_pop| {}).dispatcher(root);
    assert!(!scope.controller().can_pop());
    assert!(scope.dispatcher.is_some());
    let scope = PopScope::with_controller(PopScopeController::new(), Widget::Empty)
        .on_pop_invoked_with_result(|_did_pop, _result| {});
    assert!(scope.controller().can_pop());
}

#[test]
fn navigator_pop_handler_descriptor_configures_its_controller() {
    let h = NavigatorPopHandler::new(Widget::Empty).enabled(false).can_pop(false).on_pop(|| {});
    assert!(!h.controller().enabled());
    assert!(!h.controller().can_pop());
    let mut h = NavigatorPopHandler::with_controller(NavigatorPopHandlerController::new(), Widget::Empty)
        .on_pop_with_result(|_r| {});
    assert!(h.controller().enabled());
    assert!(!h.controller.handle_back().handled);
}
