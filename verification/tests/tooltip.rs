use incular_widgets::time::{Duration, Instant};
use incular_widgets::tooltip::{RawTooltip, RawTooltipController, RawTooltipDurations, RawTooltipVisibility, TooltipTriggerMode};
use incular_widgets::widget::Widget;

fn at(ms: u64) -> Instant {
    Instant::from_nanos(ms * 1_000_000)
}

#[test]
fn default_durations() {
    let d = RawTooltipDurations::default();
    assert_eq!(d.wait().as_nanos(), 0);
    assert_eq!(d.show().as_nanos(), 1_500_000_000);
    assert_eq!(d.exit().as_nanos(), 100_000_000);
}

#[test]
fn show_hide_and_revision() {
    let mut c = RawTooltipController::new();
    assert!(!c.is_visible());
    assert!(c.show_at(at(0)));
    assert!(c.is_visible());
    assert_eq!(c.revision_cell(), 1);
    assert!(!c.show_at(at(1)));
    assert_eq!(c.revision_cell(), 1);
    assert!(c.hide_at(at(2)));
    assert!(!c.hide_at(at(3)));
    assert_eq!(c.revision_cell(), 2);
    assert!(!c.is_visible());
}

#[test]
fn toggle_twice_returns_to_hidden() {
    let mut c = RawTooltipController::new();
    assert!(c.toggle_at(at(0)));
    assert!(c.is_visible());
    assert!(c.toggle_at(at(1)));
    assert!(!c.is_visible());
}

#[test]
fn touch_window_hides_after_show_duration() {
    let mut c = RawTooltipController::new();
    assert!(c.trigger_tap_at(at(0)));
    assert!(c.is_visible());
    assert!(c.is_dismissing());
    assert_eq!(c.pending_deadline(), Some(at(1500)));
    assert!(!c.tick(at(1499)));
    assert!(c.is_visible());
    assert!(c.tick(at(1500)));
    assert!(!c.is_visible());
}

#[test]
fn hover_with_wait_shows_after_the_delay() {
    let mut c = RawTooltipController::with_durations(RawTooltipDurations::new(
        Duration::from_millis(300),
        Duration::from_millis(1500),
        Duration::from_millis(100),
    ));
    assert!(!c.mouse_enter_at(7, at(0)));
    assert!(c.is_waiting());
    assert_eq!(c.state(), RawTooltipVisibility::Waiting);
    assert!(c.tick(at(300)));
    assert!(c.is_visible());
    assert_eq!(c.hovering_devices(), 1);
    assert!(!c.mouse_exit_at(7, at(400)));
    assert!(c.is_dismissing());
    assert!(c.tick(at(500)));
    assert!(!c.is_visible());
}

#[test]
fn focus_keeps_the_tooltip_open() {
    let mut c = RawTooltipController::new();
    assert!(c.focus_changed_at(true, at(0)));
    assert!(c.has_focus());
    assert!(c.is_kept_open());
    c.cancel_trigger();
    assert!(c.is_visible());
    assert!(!c.focus_changed_at(false, at(10)));
    assert!(c.tick(at(110)));
    assert!(!c.is_visible());
}

#[test]
fn pointer_dismissal_forgets_hover() {
    let mut c = RawTooltipController::new();
    c.mouse_enter_at(1, at(0));
    assert!(c.is_visible());
    assert!(c.dismiss_by_pointer_at(at(5)));
    assert!(!c.is_visible());
    assert_eq!(c.hovering_devices(), 0);
}

#[test]
fn show_for_hides_when_the_span_ends() {
    let mut c = RawTooltipController::new();
    c.show_for(Duration::from_millis(200), at(100));
    assert!(c.is_visible());
    assert!(c.tick(at(300)));
    assert!(!c.is_visible());
}

#[test]
fn dismiss_all_hides_every_controller() {
    let mut a = RawTooltipController::new();
    a.show_at(at(0));
    let b = RawTooltipController::new();
    let mut all = vec![a, b];
    assert!(RawTooltipController::dismiss_all_at(&mut all, at(1)));
    assert!(all.iter().all(|c| !c.is_visible()));
    assert!(!RawTooltipController::dismiss_all_at(&mut all, at(2)));
}

#[test]
fn clock_reading_triggers_show() {
    let mut c = RawTooltipController::new();
    c.trigger_long_press();
    assert!(c.is_visible());
    c.hide_tooltip();
    c.mouse_enter(3);
    assert!(c.is_visible());
    c.mouse_exit(3);
    c.focus_changed(true);
    assert!(c.is_visible());
    let _ = c.poll();
}

#[test]
fn hiding_twice_is_hiding_once() {
    let mut c = RawTooltipController::new();
    c.show_at(at(0));
    c.hide_tooltip();
    let revision = c.revision_cell();
    c.hide_tooltip();
    assert_eq!(c.revision_cell(), revision);
    assert!(!c.is_visible());
    assert_eq!(c.state(), RawTooltipVisibility::Hidden);
}

#[test]
fn raw_tooltip_defaults() {
    let t = RawTooltip::new("Save", Widget::Empty);
    assert_eq!(t.message(), Some("Save"));
    assert_eq!(t.trigger_mode_value(), TooltipTriggerMode::LongPress);
    assert!(t.is_enabled() && t.is_tap_to_dismiss_enabled() && t.feedback_enabled() && !t.ignores_pointer());
    assert_eq!(t.show_duration_value().as_nanos(), 1_500_000_000);
    assert!(t.has_overlay_content() && t.is_active());
    assert_eq!(t.semantic_value().as_deref(), Some("Save"));
    assert!(!t.controller_ref().is_visible());
}

#[test]
fn raw_tooltip_content_kinds_replace_each_other() {
    let t = RawTooltip::empty(Widget::Empty);
    assert!(!t.has_overlay_content());
    assert_eq!(t.semantic_value(), None);
    let t = t.set_rich_message("Rich");
    assert_eq!(t.message(), None);
    assert_eq!(t.rich_message(), Some("Rich"));
    assert_eq!(t.semantic_value().as_deref(), Some("Rich"));
    let t = t.content(|| Widget::Empty);
    assert!(t.tooltip_builder().is_some());
    assert!(t.rich_message().is_none());
    assert!(t.has_overlay_content());
    assert_eq!(t.semantic_value(), None);
    let t = t.clear_message();
    assert!(!t.has_overlay_content());
    let t = RawTooltip::with_rich_message("R", Widget::Empty);
    assert_eq!(t.semantic_value(), None);
    assert!(t.has_overlay_content());
}

#[test]
fn raw_tooltip_semantics_priority() {
    let t = RawTooltip::new("Msg", Widget::Empty).semantics_tooltip("Explicit");
    assert_eq!(t.semantic_value().as_deref(), Some("Explicit"));
    let t = t.clear_semantics_tooltip();
    assert_eq!(t.semantic_value(), None);
    let t = RawTooltip::new("Msg", Widget::Empty).without_semantics();
    assert_eq!(t.semantic_value(), None);
    let t = RawTooltip::new("Msg", Widget::Empty).enabled(false);
    assert!(!t.is_active());
}

#[test]
fn raw_tooltip_duration_builders() {
    let t = RawTooltip::new("x", Widget::Empty)
        .hover_delay(Duration::from_millis(10))
        .touch_delay(Duration::from_millis(20))
        .dismiss_delay(Duration::from_millis(30));
    assert_eq!(t.wait_duration_value().as_nanos(), 10_000_000);
    assert_eq!(t.show_duration_value().as_nanos(), 20_000_000);
    assert_eq!(t.exit_duration_value().as_nanos(), 30_000_000);
    assert_eq!(t.durations_value().exit().as_nanos(), 30_000_000);
    let t = t.dismissible(false).ignore_pointer(true).enable_feedback(false).prefer_below(false).on_triggered(|| {});
    assert!(!t.is_tap_to_dismiss_enabled() && t.ignores_pointer() && !t.feedback_enabled());
}
