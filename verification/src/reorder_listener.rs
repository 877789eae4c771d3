//! Installing the first drag-start listener found in a row's widget tree:
//! the reorderable sliver replaces the listener node by the widget its
//! wrapper makes of the listener's child (or by the bare child when the
//! listener is disabled), wherever in the row the listener stands.
use vstd::prelude::*;
use crate::reorder_marker::ReorderableListenerSpec;
use crate::widget::Widget;

verus! {

/// The first listener of `w` in pre-order, with its child.
pub open spec fn first_listener(w: Widget) -> Option<(ReorderableListenerSpec, Widget)>
    decreases w,
{
    match w {
        Widget::ReorderListener { index, enabled, delayed, child } =>
            Some((ReorderableListenerSpec { index, enabled, delayed }, *child)),
        Widget::Row(cs) => first_listener_in(cs@),
        Widget::Column(cs) => first_listener_in(cs@),
        Widget::Flexible { child, .. } => first_listener(*child),
        Widget::Center(child) => first_listener(*child),
        Widget::Visibility { child, .. } => first_listener(*child),
        Widget::RepaintBoundary(child) => first_listener(*child),
        Widget::TapRegionSurface(child) => first_listener(*child),
        Widget::SelectionArea(child) => first_listener(*child),
        Widget::Tappable { child, .. } => first_listener(*child),
        Widget::MenuBarScope { child, .. } => first_listener(*child),
        Widget::Empty => None,
        Widget::Text(_) => None,
    }
}

/// The first listener among `cs`, in order.
pub open spec fn first_listener_in(cs: Seq<Widget>) -> Option<(ReorderableListenerSpec, Widget)>
    decreases cs,
{
    if cs.len() == 0 {
        None
    } else {
        match first_listener(cs[0]) {
            Some(x) => Some(x),
            None => first_listener_in(cs.subrange(1, cs.len() as int)),
        }
    }
}

/// Whether `after` is `before` with its first listener replaced by `by`,
/// everything else unchanged.
pub open spec fn replaced_first(before: Widget, after: Widget, by: Widget) -> bool
    decreases before,
{
    match before {
        Widget::ReorderListener { .. } => after == by,
        Widget::Row(cs) => after matches Widget::Row(ns) && replaced_first_in(cs@, ns@, by),
        Widget::Column(cs) => after matches Widget::Column(ns) && replaced_first_in(cs@, ns@, by),
        Widget::Flexible { flex, fit, child } => after matches Widget::Flexible { flex: f2, fit: g2, child: c2 }
            && f2 == flex && g2 == fit && replaced_first(*child, *c2, by),
        Widget::Center(child) => after matches Widget::Center(c2) && replaced_first(*child, *c2, by),
        Widget::Visibility { visible, child } => after matches Widget::Visibility { visible: v2, child: c2 }
            && v2 == visible && replaced_first(*child, *c2, by),
        Widget::RepaintBoundary(child) => after matches Widget::RepaintBoundary(c2) && replaced_first(*child, *c2, by),
        Widget::TapRegionSurface(child) => after matches Widget::TapRegionSurface(c2) && replaced_first(*child, *c2, by),
        Widget::SelectionArea(child) => after matches Widget::SelectionArea(c2) && replaced_first(*child, *c2, by),
        Widget::Tappable { on_tap, child } => after matches Widget::Tappable { on_tap: t2, child: c2 }
            && t2 == on_tap && replaced_first(*child, *c2, by),
        Widget::MenuBarScope { binding, child } => after matches Widget::MenuBarScope { binding: b2, child: c2 }
            && b2 == binding && replaced_first(*child, *c2, by),
        Widget::Empty => after == before,
        Widget::Text(_) => after == before,
    }
}

/// Whether `ns` is `cs` with the first listener among them replaced by `by`.
pub open spec fn replaced_first_in(cs: Seq<Widget>, ns: Seq<Widget>, by: Widget) -> bool
    decreases cs,
{
    &&& ns.len() == cs.len()
    &&& cs.len() > 0 ==> {
        if first_listener(cs[0]) is Some {
            replaced_first(cs[0], ns[0], by) && ns.subrange(1, ns.len() as int) == cs.subrange(1, cs.len() as int)
        } else {
            ns[0] == cs[0] && replaced_first_in(cs.subrange(1, cs.len() as int), ns.subrange(1, ns.len() as int), by)
        }
    }
}

/// What takes a listener's place: the wrapper's result for an enabled
/// listener, the bare child for a disabled one.
pub open spec fn listener_replacement<F: Fn(Widget, ReorderableListenerSpec) -> Widget>(
    wrap: F,
    spec: ReorderableListenerSpec,
    child: Widget,
    by: Widget,
) -> bool {
    if spec.enabled { call_ensures(wrap, (child, spec), by) } else { by == child }
}

/// What installing the first listener of `before` gives `after` and `r`.
pub open spec fn installed<F: Fn(Widget, ReorderableListenerSpec) -> Widget>(
    wrap: F,
    before: Widget,
    after: Widget,
    r: Option<ReorderableListenerSpec>,
) -> bool {
    match first_listener(before) {
        None => r is None && after == before,
        Some((spec, child)) => r == Some(spec)
            && exists|by: Widget| #[trigger] listener_replacement(wrap, spec, child, by) && replaced_first(before, after, by),
    }
}

fn install_owned<F: Fn(Widget, ReorderableListenerSpec) -> Widget>(w: Widget, wrap: &F) -> (res: (Widget, Option<ReorderableListenerSpec>))
    requires
        forall|c: Widget, s: ReorderableListenerSpec| call_requires(*wrap, (c, s)),
        first_listener(w) is Some,
    ensures
        installed(*wrap, w, res.0, res.1),
    decreases w,
{
    let ghost w0 = w;
    match w {
        Widget::ReorderListener { index, enabled, delayed, child } => {
            let spec = ReorderableListenerSpec { index, enabled, delayed };
            let ghost c = *child;
            proof {
                assert(first_listener(w0) == Some((spec, c)));
            }
            let by = if enabled { wrap(*child, spec) } else { *child };
            proof {
                assert(listener_replacement(*wrap, spec, c, by));
                assert(replaced_first(w0, by, by));
            }
            (by, Some(spec))
        },
        Widget::Row(cs) => {
            let ghost before = cs@;
            let (ns, r) = install_in(cs, wrap);
            proof {
                lemma_installed_in_row(*wrap, before, ns@, r);
                {
                    let (spec, child) = first_listener_in(before)->0;
                    let by = choose|by: Widget| #[trigger] listener_replacement(*wrap, spec, child, by) && replaced_first_in(before, ns@, by);
                    assert(replaced_first(w0, Widget::Row(ns), by));
                }
            }
            (Widget::Row(ns), r)
        },
        Widget::Column(cs) => {
            let ghost before = cs@;
            let (ns, r) = install_in(cs, wrap);
            proof {
                lemma_installed_in_row(*wrap, before, ns@, r);
                {
                    let (spec, child) = first_listener_in(before)->0;
                    let by = choose|by: Widget| #[trigger] listener_replacement(*wrap, spec, child, by) && replaced_first_in(before, ns@, by);
                    assert(replaced_first(w0, Widget::Column(ns), by));
                }
            }
            (Widget::Column(ns), r)
        },
        Widget::Flexible { flex, fit, child } => {
            let (c, r) = install_owned(*child, wrap);
            (Widget::Flexible { flex, fit, child: Box::new(c) }, r)
        },
        Widget::Center(child) => {
            let (c, r) = install_owned(*child, wrap);
            (Widget::Center(Box::new(c)), r)
        },
        Widget::Visibility { visible, child } => {
            let (c, r) = install_owned(*child, wrap);
            (Widget::Visibility { visible, child: Box::new(c) }, r)
        },
        Widget::RepaintBoundary(child) => {
            let (c, r) = install_owned(*child, wrap);
            (Widget::RepaintBoundary(Box::new(c)), r)
        },
        Widget::TapRegionSurface(child) => {
            let (c, r) = install_owned(*child, wrap);
            (Widget::TapRegionSurface(Box::new(c)), r)
        },
        Widget::SelectionArea(child) => {
            let (c, r) = install_owned(*child, wrap);
            (Widget::SelectionArea(Box::new(c)), r)
        },
        Widget::Tappable { on_tap, child } => {
            let (c, r) = install_owned(*child, wrap);
            (Widget::Tappable { on_tap, child: Box::new(c) }, r)
        },
        Widget::MenuBarScope { binding, child } => {
            let (c, r) = install_owned(*child, wrap);
            (Widget::MenuBarScope { binding, child: Box::new(c) }, r)
        },
        Widget::Empty => (Widget::Empty, None),
        Widget::Text(t) => (Widget::Text(t), None),
    }
}

/// What installing the first listener among `cs` gives `ns` and `r`.
pub open spec fn installed_in<F: Fn(Widget, ReorderableListenerSpec) -> Widget>(
    wrap: F,
    cs: Seq<Widget>,
    ns: Seq<Widget>,
    r: Option<ReorderableListenerSpec>,
) -> bool {
    match first_listener_in(cs) {
        None => r is None && ns == cs,
        Some((spec, child)) => r == Some(spec)
            && exists|by: Widget| #[trigger] listener_replacement(wrap, spec, child, by) && replaced_first_in(cs, ns, by),
    }
}

proof fn lemma_installed_in_row<F: Fn(Widget, ReorderableListenerSpec) -> Widget>(
    wrap: F,
    cs: Seq<Widget>,
    ns: Seq<Widget>,
    r: Option<ReorderableListenerSpec>,
)
    requires
        installed_in(wrap, cs, ns, r),
    ensures
        first_listener_in(cs) is None ==> r is None && ns == cs,
        first_listener_in(cs) matches Some((spec, child)) ==> r == Some(spec)
            && exists|by: Widget| #[trigger] listener_replacement(wrap, spec, child, by) && replaced_first_in(cs, ns, by),
{
}

fn install_in<F: Fn(Widget, ReorderableListenerSpec) -> Widget>(cs: Vec<Widget>, wrap: &F) -> (res: (Vec<Widget>, Option<ReorderableListenerSpec>))
    requires
        forall|c: Widget, s: ReorderableListenerSpec| call_requires(*wrap, (c, s)),
        first_listener_in(cs@) is Some,
    ensures
        installed_in(*wrap, cs@, res.0@, res.1),
    decreases cs@,
{
    let ghost before = cs@;
    let mut cs = cs;
    let head = cs.remove(0);
    proof {
        assert(head == before[0]);
        assert(cs@ == before.subrange(1, before.len() as int));
    }
    if has_listener(&head) {
        let (nh, r) = install_owned(head, wrap);
        cs.insert(0, nh);
        proof {
            assert(cs@.subrange(1, cs@.len() as int) =~= before.subrange(1, before.len() as int));
            assert(cs@[0] == nh);
        }
        return (cs, r);
    }
    let ghost tail = cs@;
    let (mut out, r2) = install_in(cs, wrap);
    let ghost ntail = out@;
    out.insert(0, head);
    proof {
        assert(out@[0] == before[0]);
        assert(out@.subrange(1, out@.len() as int) =~= ntail);
        assert(first_listener(before[0]) is None);
        assert(first_listener_in(before) == first_listener_in(tail));
    }
    (out, r2)
}

/// Whether `w` holds a listener.
fn has_listener(w: &Widget) -> (r: bool)
    ensures
        r == first_listener(*w) is Some,
    decreases w,
{
    match w {
        Widget::ReorderListener { .. } => true,
        Widget::Row(cs) => has_listener_in(cs),
        Widget::Column(cs) => has_listener_in(cs),
        Widget::Flexible { child, .. } => has_listener(child),
        Widget::Center(child) => has_listener(child),
        Widget::Visibility { child, .. } => has_listener(child),
        Widget::RepaintBoundary(child) => has_listener(child),
        Widget::TapRegionSurface(child) => has_listener(child),
        Widget::SelectionArea(child) => has_listener(child),
        Widget::Tappable { child, .. } => has_listener(child),
        Widget::MenuBarScope { child, .. } => has_listener(child),
        Widget::Empty => false,
        Widget::Text(_) => false,
    }
}

/// Whether some widget of `cs` holds a listener.
fn has_listener_in(cs: &Vec<Widget>) -> (r: bool)
    ensures
        r == first_listener_in(cs@) is Some,
    decreases cs,
{
    let mut i: usize = 0;
    while i < cs.len()
        invariant
            i <= cs.len(),
            forall|j: int| 0 <= j < i ==> first_listener(#[trigger] cs@[j]) is None,
        decreases cs.len() - i,
    {
        proof {
            vstd::std_specs::vec::axiom_vec_index_decreases(*cs, i as int);
        }
        if has_listener(&cs[i]) {
            proof {
                lemma_first_in_skips_none(cs@, i as int);
                assert(cs@.subrange(i as int, cs@.len() as int)[0] == cs@[i as int]);
            }
            return true;
        }
        i += 1;
    }
    proof {
        lemma_first_in_skips_none(cs@, i as int);
    }
    false
}

/// Widgets without a listener at the front do not change the first
/// listener among them.
proof fn lemma_first_in_skips_none(cs: Seq<Widget>, i: int)
    requires
        0 <= i <= cs.len(),
        forall|j: int| 0 <= j < i ==> first_listener(#[trigger] cs[j]) is None,
    ensures
        first_listener_in(cs) == first_listener_in(cs.subrange(i, cs.len() as int)),
    decreases i,
{
    if i > 0 {
        let rest = cs.subrange(1, cs.len() as int);
        assert forall|j: int| 0 <= j < i - 1 implies first_listener(#[trigger] rest[j]) is None by {
            assert(rest[j] == cs[j + 1]);
        }
        lemma_first_in_skips_none(rest, i - 1);
        assert(rest.subrange(i - 1, rest.len() as int) =~= cs.subrange(i, cs.len() as int));
        assert(first_listener(cs[0]) is None);
    } else {
        assert(cs.subrange(0, cs.len() as int) =~= cs);
    }
}

/// Replaces the first drag-start listener of `widget` (in pre-order) by
/// `wrap` of its child when the listener is enabled, or by the bare child
/// when it is not, and answers the listener found; with none, the widget is
/// left as it was.
pub fn install_listener<F: Fn(Widget, ReorderableListenerSpec) -> Widget>(widget: &mut Widget, wrap: F) -> (r: Option<ReorderableListenerSpec>)
    requires
        forall|c: Widget, s: ReorderableListenerSpec| call_requires(wrap, (c, s)),
    ensures
        installed(wrap, *old(widget), *final(widget), r),
        r is None ==> *final(widget) == *old(widget),
        r == (match first_listener(*old(widget)) { Some((spec, _)) => Some(spec), None => None }),
{
    if !has_listener(widget) {
        return None;
    }
    let mut taken = Widget::Empty;
    core::mem::swap(&mut taken, widget);
    let (w, r) = install_owned(taken, &wrap);
    *widget = w;
    r
}

} // verus!
