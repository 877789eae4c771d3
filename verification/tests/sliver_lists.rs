use incular_widgets::sliver_lists::{SliverAnimatedListController, SliverReorderController};
use incular_widgets::time::{Duration, Instant};

#[test]
fn move_item_then_back_restores_the_order() {
    let mut c = SliverReorderController::new(4);
    assert_eq!(c.order(), vec![0, 1, 2, 3]);
    assert!(c.move_item(0, 2));
    assert_eq!(c.order(), vec![1, 2, 0, 3]);
    assert!(c.move_item(2, 0));
    assert_eq!(c.order(), vec![0, 1, 2, 3]);
    assert_eq!(c.revision(), 2);
    assert!(!c.move_item(1, 1));
    assert!(!c.move_item(4, 0));
    assert_eq!(c.revision(), 2);
}

#[test]
fn reorder_uses_the_insert_before_convention() {
    let mut c = SliverReorderController::new(3);
    assert!(c.reorder(0, 3));
    assert_eq!(c.order(), vec![1, 2, 0]);
    assert!(!c.reorder(0, 1));
    assert_eq!(c.item_at(2), Some(0));
    assert_eq!(c.position_of(0), Some(2));
    assert_eq!(c.position_of(9), None);
}

#[test]
fn resizing_appends_fresh_items_or_truncates() {
    let mut c = SliverReorderController::new(2);
    c.move_item(0, 1);
    c.set_item_count(4);
    assert_eq!(c.order(), vec![1, 0, 2, 3]);
    c.set_item_count(1);
    assert_eq!(c.order(), vec![1]);
    assert_eq!(c.item_count(), 1);
}

fn at(ms: u64) -> Instant {
    Instant::from_nanos(ms * 1_000_000)
}

#[test]
fn inserted_item_grows_and_removed_item_leaves_after_shrinking() {
    let mut c = SliverAnimatedListController::with_duration(2, Duration::from_millis(100));
    assert!(!c.is_animating());
    assert!(c.insert_at(1, at(0)));
    assert_eq!(c.item_count(), 3);
    assert!(c.is_animating());
    let snap = c.snapshot();
    assert_eq!(snap[1].id, 2);
    assert_eq!(snap[1].animation.value, 0);
    assert!(c.tick(at(50)));
    assert_eq!(c.snapshot()[1].animation.value, 50_000_000);
    assert!(c.tick(at(100)));
    assert!(!c.is_animating());
    assert!(c.remove_at(0, at(200)));
    assert!(!c.remove_at(0, at(200)));
    assert_eq!(c.item_count(), 3);
    assert!(c.tick(at(300)));
    assert_eq!(c.item_count(), 2);
    assert_eq!(c.structure_revision(), 3);
}

#[test]
fn clock_reading_insert_and_remove() {
    let mut c = SliverAnimatedListController::new(1);
    assert_eq!(c.duration().as_nanos(), 250_000_000);
    assert!(c.insert(10));
    assert_eq!(c.item_count(), 2);
    assert!(c.remove(1));
    assert!(!c.remove(5));
}

#[test]
fn moves_keep_every_item() {
    let mut c = SliverReorderController::new(5);
    c.move_item(4, 0);
    c.move_item(1, 3);
    c.reorder(2, 5);
    let mut order = c.order();
    order.sort();
    assert_eq!(order, vec![0, 1, 2, 3, 4]);
}
