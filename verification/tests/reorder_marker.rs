use incular_widgets::reorder_marker::{marker_key, marker_spec, ReorderableListenerSpec};

fn spec(index: usize, enabled: bool, delayed: bool) -> ReorderableListenerSpec {
    ReorderableListenerSpec { index, enabled, delayed }
}

#[test]
fn marker_text_is_prefix_kind_state_index() {
    assert_eq!(marker_key(spec(12, true, false)), "\u{1f}incular-reorderable-listener:i:e:12");
    assert_eq!(marker_key(spec(0, false, true)), "\u{1f}incular-reorderable-listener:d:x:0");
}

#[test]
fn marker_round_trips() {
    for s in [spec(0, true, true), spec(7, false, false), spec(usize::MAX, true, false)] {
        assert_eq!(marker_spec(&marker_key(s)), Some(s));
    }
}

#[test]
fn malformed_markers_name_no_listener() {
    let p = "\u{1f}incular-reorderable-listener:";
    assert_eq!(marker_spec("incular-reorderable-listener:i:e:1"), None);
    assert_eq!(marker_spec(&format!("{p}q:e:1")), None);
    assert_eq!(marker_spec(&format!("{p}i:y:1")), None);
    assert_eq!(marker_spec(&format!("{p}i:e:1:2")), None);
    assert_eq!(marker_spec(&format!("{p}i:e:")), None);
    assert_eq!(marker_spec(&format!("{p}i:e:1a")), None);
    assert_eq!(marker_spec(&format!("{p}i:e:99999999999999999999999")), None);
    assert_eq!(marker_spec(&format!("{p}ii:e:1")), None);
}

#[test]
fn a_plus_sign_is_accepted_before_the_index() {
    let p = "\u{1f}incular-reorderable-listener:";
    assert_eq!(marker_spec(&format!("{p}d:e:+42")), Some(spec(42, true, true)));
    assert_eq!(marker_spec(&format!("{p}d:e:+")), None);
}
