use incular_widgets::slivers::{
    HeaderPresentation, ListBody, PinnedHeaderSliver, SliverFillRemaining, SliverFloatingHeader,
    SliverHeaderOverscrollBehavior, SliverHeaderScrollBehavior, SliverList, SliverNaturalHeader,
    SliverPrototypeExtentList, SliverToBoxAdapter,
};
use incular_widgets::widget::{Axis, Widget};

#[test]
fn header_behaviors_default_to_pinned_and_translate() {
    assert_eq!(SliverHeaderScrollBehavior::default(), SliverHeaderScrollBehavior::Pinned);
    assert_eq!(
        SliverHeaderOverscrollBehavior::default(),
        SliverHeaderOverscrollBehavior::Translate
    );
}

#[test]
fn natural_header_presentation_follows_scroll_behavior() {
    let header = SliverNaturalHeader::new(Widget::Empty);
    assert_eq!(header.scroll_behavior, SliverHeaderScrollBehavior::Pinned);
    assert_eq!(header.overscroll_behavior, SliverHeaderOverscrollBehavior::Translate);
    assert_eq!(header.presentation(), HeaderPresentation::Pinned);
    let header = header.scroll_behavior(SliverHeaderScrollBehavior::Scroll);
    assert_eq!(header.presentation(), HeaderPresentation::BoxAdapter);
    let header = header.scroll_behavior(SliverHeaderScrollBehavior::Floating);
    assert_eq!(header.presentation(), HeaderPresentation::Floating);
    let header = header
        .scroll_behavior(SliverHeaderScrollBehavior::FloatingPinned)
        .overscroll_behavior(SliverHeaderOverscrollBehavior::Stretch);
    assert_eq!(header.presentation(), HeaderPresentation::Pinned);
    assert_eq!(header.overscroll_behavior, SliverHeaderOverscrollBehavior::Stretch);
}

#[test]
fn fill_remaining_has_scroll_body_by_default() {
    let fill = SliverFillRemaining::new(Widget::Empty);
    assert!(fill.is_scroll_body());
    let fill = fill.has_scroll_body(false);
    assert!(!fill.is_scroll_body());
    assert!(matches!(fill.child, Widget::Empty));
}

#[test]
fn list_body_lowers_along_its_main_axis() {
    let body = ListBody::new(vec![Widget::Empty, Widget::Empty]);
    assert_eq!(body.main_axis, Axis::Vertical);
    assert!(matches!(body.into_widget(), Widget::Column(children) if children.len() == 2));
    let body = ListBody::new(vec![Widget::Empty]).main_axis(Axis::Horizontal);
    assert!(matches!(body.into_widget(), Widget::Row(children) if children.len() == 1));
    let empty = ListBody::default();
    assert_eq!(empty.main_axis, Axis::Vertical);
    assert!(empty.children.is_empty());
}

#[test]
fn slivers_keep_their_children() {
    let prototype = SliverPrototypeExtentList::new(3, Widget::Empty, |_| Widget::Empty);
    assert!(matches!(prototype.prototype_item(), Widget::Empty));
    let _list = SliverList::builder(4, |_| Widget::Empty);
    assert!(matches!(SliverToBoxAdapter::new(Widget::Empty).child, Widget::Empty));
    assert!(matches!(PinnedHeaderSliver::new(Widget::Empty).child, Widget::Empty));
    assert!(matches!(SliverFloatingHeader::new(Widget::Empty).child, Widget::Empty));
}
