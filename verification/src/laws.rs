//! Properties that relate several operations of the library.
use vstd::prelude::*;
use serde_json::Value;
use crate::page_storage::{BucketModel, write_outcome, already_saved};
use crate::sliver_lists::{seq_move, resized_order, identity_order, distinct_items, lemma_reorder_distinct, reorder_destination, insertion_index_spec,
    ItemAnimation, AnimationDirection, animation_at, shrink, AnimatedListEntry, live_entries, entry_finished};
use crate::tooltip::{
    TooltipModel, show_spec, hide_spec, tick_spec, trigger_touch_spec, next_revision,
    show_for_spec, cancel_trigger_spec, dismiss_by_pointer_spec, model_wf, visibility_of,
    RawTooltipVisibility, mouse_exit_spec, PendingTransition,
};
use crate::time::{Instant, deadline_instant};
use crate::back_dispatch::{
    DispatcherView, DispatchStage, HandlerEntry, BackDispatchReport, dispatch_stages,
    dispatch_fits, tree_wf, handler_stages, other_handlers, unhandled_report, walk, walk_children, with_handler,
    stage_fits, pop_stage_report, pop_run, pop_told, pop_blocked, report_of_attempt, PopAttempt,
};
use crate::reorder_marker::{ReorderableListenerSpec, marker_parse, marker_text, marker_prefix, parse_usize, number_digits, lemma_decimal_digits};
use crate::recursion::{RecursionModel, DiagnosticNode, entered, exited, repeats};
use crate::descriptors::{SliverChildId, scope_byte};
use crate::menu::{PlatformMenu, PlatformMenuBarController, PlatformMenuUpdate, PlatformMenuBuildError, install_outcome, menus_accepted,
    MenuDispatchResult, CallbackEntry, dispatched, same_but_runs, menus_trace, selected_of, opened_of,
    PlatformMenuEntry, PlatformMenuItem, menus_nodes_spec, entries_nodes_spec, top_path, child_path, item_seg, node_id,
    trace_ids, lemma_menus_nodes_index, lemma_entry_item_nodes, lemma_item_in_menus_trace, lemma_no_duplicate_distinct,
    lemma_selected_origin, lemma_selected_registered, lemma_opened_registered, lemma_opened_origin,
    lemma_menu_head_in_menus_trace, first_duplicate};
use crate::callback::Callback;

verus! {

/// A read after a write on a non-empty identifier finds a value: the one
/// written whenever it was not already saved (a different saved value is
/// overwritten), and otherwise the value already saved, with the bucket
/// untouched.
pub proof fn law_read_after_write(
    before: BucketModel,
    id: Seq<u64>,
    v: Value,
    changed: bool,
    after: BucketModel,
)
    requires
        write_outcome(before, id, v, changed, after),
        id.len() > 0,
    ensures
        after.values.dom().contains(id),
        changed ==> after.values[id] == v,
        !changed ==> after == before,
        before.values.get(id) == Some(v) ==> after.values.get(id) == Some(v),
        !already_saved(before, id, v) ==> changed && after.values[id] == v,
        already_saved(before, id, v) ==> !changed && after == before,
{
}

/// A write leaves every other identifier's value as it was.
pub proof fn law_write_keeps_others(
    before: BucketModel,
    id: Seq<u64>,
    v: Value,
    changed: bool,
    after: BucketModel,
    other: Seq<u64>,
)
    requires
        write_outcome(before, id, v, changed, after),
        other != id,
    ensures
        after.values.get(other) == before.values.get(other),
{
}

/// Moving an item and moving it back restores the order.
pub proof fn law_move_back_restores(s: Seq<usize>, from: int, to: int)
    requires
        0 <= from < s.len(),
        0 <= to < s.len(),
    ensures
        seq_move(seq_move(s, from, to), to, from) == s,
        seq_move(s, from, to)[to] == s[from],
{
    let m = seq_move(s, from, to);
    assert(m[to] == s[from]);
    assert(m.remove(to) =~= s.remove(from));
    assert(seq_move(m, to, from) =~= s);
}

/// Moving an item keeps every item: the order is a permutation.
pub proof fn law_move_is_permutation(s: Seq<usize>, from: int, to: int)
    requires
        0 <= from < s.len(),
        0 <= to < s.len(),
    ensures
        seq_move(s, from, to).to_multiset() == s.to_multiset(),
        seq_move(s, from, to).len() == s.len(),
{
    broadcast use vstd::multiset::group_multiset_axioms;
    let x = s[from];
    vstd::seq_lib::to_multiset_remove(s, from);
    vstd::seq_lib::to_multiset_insert(s.remove(from), to, x);
    assert(s.contains(x));
    vstd::seq_lib::to_multiset_contains(s, x);
    assert(s.to_multiset().remove(x).insert(x) =~= s.to_multiset());
}

/// Hiding twice is hiding once.
pub proof fn law_hide_idempotent(m: TooltipModel)
    ensures
        hide_spec(hide_spec(m)) == hide_spec(m),
{
}

/// Showing twice is showing once.
pub proof fn law_show_idempotent(m: TooltipModel)
    ensures
        show_spec(show_spec(m)) == show_spec(m),
{
}

/// A hide undoes a show's visibility and explicit-show flag.
pub proof fn law_hide_after_show(m: TooltipModel)
    ensures
        !hide_spec(show_spec(m)).visible,
        !hide_spec(show_spec(m)).manual,
        hide_spec(show_spec(m)).pending is None,
{
}

/// The revision advances exactly when visibility changes, by one step.
pub open spec fn revision_tracks_visibility(before: TooltipModel, after: TooltipModel) -> bool {
    &&& (after.revision != before.revision) == (after.visible != before.visible)
    &&& after.visible != before.visible ==> after.revision == next_revision(before.revision)
}

/// Show, hide, a touch trigger and a tick all move the revision exactly
/// when they change visibility.
pub proof fn law_revision_tracks_visibility(m: TooltipModel, now: Instant)
    ensures
        revision_tracks_visibility(m, show_spec(m)),
        revision_tracks_visibility(m, hide_spec(m)),
        revision_tracks_visibility(m, trigger_touch_spec(m, now)),
        revision_tracks_visibility(m, tick_spec(m, now)),
{
}

/// A touch shows the tooltip; with no hover and no focus, a tick at the
/// end of the touch window hides it again.
pub proof fn law_touch_window_closes(m: TooltipModel, now: Instant)
    requires
        m.hovering.is_empty(),
        !m.focused,
    ensures
        trigger_touch_spec(m, now).visible,
        !tick_spec(trigger_touch_spec(m, now), deadline_instant(now, m.durations.show_duration)).visible,
{
}

/// Installing menus that were accepted, then the same menus again, answers
/// that nothing changed.
pub proof fn law_reinstall_is_unchanged(
    c0: PlatformMenuBarController,
    c1: PlatformMenuBarController,
    c2: PlatformMenuBarController,
    menus: Seq<PlatformMenu>,
    u1: PlatformMenuUpdate,
    r2: Result<PlatformMenuUpdate, PlatformMenuBuildError>,
)
    requires
        install_outcome(c0, c1, menus, Ok(u1)),
        menus_accepted(u1),
        install_outcome(c1, c2, menus, r2),
    ensures
        r2 == Ok::<PlatformMenuUpdate, PlatformMenuBuildError>(PlatformMenuUpdate::Unchanged),
        c2.installed_spec() == c1.installed_spec(),
{
}

/// After an installation the delegate accepted (or found unchanged), a
/// selection resolves against exactly the callbacks the installed menus
/// register: it is handled exactly when some registered selection carries
/// the id, and then that callback (and no other) has run once.
pub proof fn law_dispatch_resolves_against_installed_menus(
    before: PlatformMenuBarController,
    installed: PlatformMenuBarController,
    after: PlatformMenuBarController,
    menus: Seq<PlatformMenu>,
    u: PlatformMenuUpdate,
    id: Seq<char>,
    res: MenuDispatchResult,
)
    requires
        install_outcome(before, installed, menus, Ok(u)),
        menus_accepted(u),
        same_but_runs(installed, after),
        dispatched(installed.callbacks_spec().selected_spec(), id, installed.runs_spec(), after.runs_spec(), res),
    ensures
        dispatched(selected_of(menus_trace(menus)), id, installed.runs_spec(), after.runs_spec(), res),
        after.installed_spec() == installed.installed_spec(),
        after.last_update_spec() == installed.last_update_spec(),
{
}

/// After an installation the delegate accepted, opening a submenu resolves
/// against the open callbacks the menus register only: no selection or
/// close callback runs.
pub proof fn law_open_runs_open_callbacks_only(
    before: PlatformMenuBarController,
    installed: PlatformMenuBarController,
    after: PlatformMenuBarController,
    menus: Seq<PlatformMenu>,
    u: PlatformMenuUpdate,
    id: Seq<char>,
    res: MenuDispatchResult,
)
    requires
        install_outcome(before, installed, menus, Ok(u)),
        menus_accepted(u),
        same_but_runs(installed, after),
        dispatched(installed.callbacks_spec().opened_spec(), id, installed.runs_spec(), after.runs_spec(), res),
    ensures
        dispatched(opened_of(menus_trace(menus)), id, installed.runs_spec(), after.runs_spec(), res),
        res == MenuDispatchResult::Handled ==> exists|i: int| 0 <= i < opened_of(menus_trace(menus)).len()
            && after.runs_spec() == installed.runs_spec().push(#[trigger] opened_of(menus_trace(menus))[i].1),
{
}

/// An installation the delegate refused keeps the callbacks that were
/// committed before it, so dispatch still resolves against them.
pub proof fn law_refused_install_keeps_callbacks(
    before: PlatformMenuBarController,
    after: PlatformMenuBarController,
    menus: Seq<PlatformMenu>,
    u: PlatformMenuUpdate,
)
    requires
        install_outcome(before, after, menus, Ok(u)),
        !menus_accepted(u),
    ensures
        after.callbacks_spec() == before.callbacks_spec(),
        after.installed_spec() == before.installed_spec(),
{
}

/// With no registered callback (as after a detach), nothing is handled and
/// no callback runs.
pub proof fn law_detached_dispatch_is_unknown(
    entries: Seq<CallbackEntry>,
    id: Seq<char>,
    runs_before: Seq<Callback>,
    runs_after: Seq<Callback>,
    res: MenuDispatchResult,
)
    requires
        entries == Seq::<CallbackEntry>::empty(),
        dispatched(entries, id, runs_before, runs_after, res),
    ensures
        res == MenuDispatchResult::Unknown,
        runs_after == runs_before,
{
}

/// Every item node of a snapshot carries the item it was built from: its
/// shortcut, label and tooltip, and it is enabled exactly when the item is
/// enabled and has a selection callback. This holds of an item placed
/// directly in a top-level menu and of each item of a group there.
pub proof fn law_item_nodes_carry_item_fields(ms: Seq<PlatformMenu>, i: int, j: int)
    requires
        0 <= i < ms.len(),
        0 <= j < ms[i].entries_spec().len(),
    ensures
        ({
            let es = ms[i].entries_spec();
            let nodes = menus_nodes_spec(ms)[i].children;
            let p = entries_nodes_spec(es.take(j), top_path(i as nat)).len() as int;
            &&& es[j] matches PlatformMenuEntry::Item(it) ==> {
                &&& p < nodes.len()
                &&& nodes[p].shortcut == it.shortcut_spec()
                &&& nodes[p].label == it.label_spec()
                &&& nodes[p].tooltip == it.tooltip_spec()
                &&& nodes[p].enabled == (it.enabled_spec() && it.callback_spec() is Some)
                &&& nodes[p].selectable
            }
            &&& es[j] matches PlatformMenuEntry::Group(g) ==> {
                &&& p + g.items_spec().len() <= nodes.len()
                &&& forall|k: int| 0 <= k < g.items_spec().len() ==>
                    (#[trigger] nodes[p + k]).shortcut == g.items_spec()[k].shortcut_spec()
                    && nodes[p + k].enabled == (g.items_spec()[k].enabled_spec()
                        && g.items_spec()[k].callback_spec() is Some)
            }
        }),
{
    lemma_menus_nodes_index(ms);
    lemma_entry_item_nodes(ms[i].entries_spec(), top_path(i as nat), j);
}

/// A disabled item registers no selection callback: once menus holding it
/// are installed, dispatching its identity is unknown and runs nothing.
pub proof fn law_disabled_item_dispatch_is_unknown(
    before: PlatformMenuBarController,
    installed: PlatformMenuBarController,
    after: PlatformMenuBarController,
    menus: Seq<PlatformMenu>,
    u: PlatformMenuUpdate,
    i: int,
    j: int,
    it: PlatformMenuItem,
    res: MenuDispatchResult,
)
    requires
        install_outcome(before, installed, menus, Ok(u)),
        menus_accepted(u),
        0 <= i < menus.len(),
        0 <= j < menus[i].entries_spec().len(),
        menus[i].entries_spec()[j] == PlatformMenuEntry::Item(it),
        !it.enabled_spec(),
        same_but_runs(installed, after),
        dispatched(installed.callbacks_spec().selected_spec(),
            node_id(it.id_spec(), child_path(top_path(i as nat), item_seg(), j as nat)),
            installed.runs_spec(), after.runs_spec(), res),
    ensures
        res == MenuDispatchResult::Unknown,
        after.runs_spec() == installed.runs_spec(),
{
    let t = menus_trace(menus);
    let id = node_id(it.id_spec(), child_path(top_path(i as nat), item_seg(), j as nat));
    let p = lemma_item_in_menus_trace(menus, i, j, it);
    let sel = selected_of(t);
    assert(installed.callbacks_spec().selected_spec() == sel);
    assert forall|k: int| 0 <= k < sel.len() implies #[trigger] sel[k].0 != id by {
        let q = lemma_selected_origin(t, k);
        if sel[k].0 == id {
            assert(q != p);
            assert(trace_ids(t)[q] == trace_ids(t)[p]);
            if q < p {
                lemma_no_duplicate_distinct(trace_ids(t), q, p);
            } else {
                lemma_no_duplicate_distinct(trace_ids(t), p, q);
            }
        }
    }
}

/// An enabled item with a selection callback registers it: once menus
/// holding it are installed, dispatching its identity is handled by running
/// that callback once.
pub proof fn law_enabled_item_dispatch_runs_its_callback(
    before: PlatformMenuBarController,
    installed: PlatformMenuBarController,
    after: PlatformMenuBarController,
    menus: Seq<PlatformMenu>,
    u: PlatformMenuUpdate,
    i: int,
    j: int,
    it: PlatformMenuItem,
    c: Callback,
    res: MenuDispatchResult,
)
    requires
        install_outcome(before, installed, menus, Ok(u)),
        menus_accepted(u),
        0 <= i < menus.len(),
        0 <= j < menus[i].entries_spec().len(),
        menus[i].entries_spec()[j] == PlatformMenuEntry::Item(it),
        it.enabled_spec(),
        it.callback_spec() == Some(c),
        same_but_runs(installed, after),
        dispatched(installed.callbacks_spec().selected_spec(),
            node_id(it.id_spec(), child_path(top_path(i as nat), item_seg(), j as nat)),
            installed.runs_spec(), after.runs_spec(), res),
    ensures
        res == MenuDispatchResult::Handled,
        after.runs_spec() == installed.runs_spec().push(c),
{
    let t = menus_trace(menus);
    let id = node_id(it.id_spec(), child_path(top_path(i as nat), item_seg(), j as nat));
    let p = lemma_item_in_menus_trace(menus, i, j, it);
    let sel = selected_of(t);
    assert(installed.callbacks_spec().selected_spec() == sel);
    let k = lemma_selected_registered(t, p, c);
    assert(sel[k].0 == id);
    let k2 = choose|k2: int| 0 <= k2 < sel.len() && #[trigger] sel[k2].0 == id
        && after.runs_spec() == installed.runs_spec().push(sel[k2].1);
    let q = lemma_selected_origin(t, k2);
    if q != p {
        assert(trace_ids(t)[q] == trace_ids(t)[p]);
        if q < p {
            lemma_no_duplicate_distinct(trace_ids(t), q, p);
        } else {
            lemma_no_duplicate_distinct(trace_ids(t), p, q);
        }
    }
}

/// A top-level menu with an open callback registers it: once the menus are
/// installed, opening that menu is handled by running its open callback once.
pub proof fn law_menu_open_runs_its_callback(
    before: PlatformMenuBarController,
    installed: PlatformMenuBarController,
    after: PlatformMenuBarController,
    menus: Seq<PlatformMenu>,
    u: PlatformMenuUpdate,
    i: int,
    c: Callback,
    res: MenuDispatchResult,
)
    requires
        install_outcome(before, installed, menus, Ok(u)),
        menus_accepted(u),
        0 <= i < menus.len(),
        menus[i].open_spec() == Some(c),
        same_but_runs(installed, after),
        dispatched(installed.callbacks_spec().opened_spec(), node_id(menus[i].id_spec(), top_path(i as nat)),
            installed.runs_spec(), after.runs_spec(), res),
    ensures
        res == MenuDispatchResult::Handled,
        after.runs_spec() == installed.runs_spec().push(c),
{
    let t = menus_trace(menus);
    let id = node_id(menus[i].id_spec(), top_path(i as nat));
    let p = lemma_menu_head_in_menus_trace(menus, i);
    let op = opened_of(t);
    assert(installed.callbacks_spec().opened_spec() == op);
    let k = lemma_opened_registered(t, p, c);
    assert(op[k].0 == id);
    let k2 = choose|k2: int| 0 <= k2 < op.len() && #[trigger] op[k2].0 == id
        && after.runs_spec() == installed.runs_spec().push(op[k2].1);
    let q = lemma_opened_origin(t, k2);
    if q != p {
        assert(trace_ids(t)[q] == trace_ids(t)[p]);
        if q < p {
            lemma_no_duplicate_distinct(trace_ids(t), q, p);
        } else {
            lemma_no_duplicate_distinct(trace_ids(t), p, q);
        }
    }
}

/// A menu tree is refused exactly when some identity occurs twice among the
/// nodes it visits, and the identity it is refused with is one that occurs
/// twice.
pub proof fn law_duplicate_identity_detected(ids: Seq<Seq<char>>)
    ensures
        first_duplicate(ids) is None <==> forall|p: int, q: int| 0 <= p < q < ids.len() ==> ids[p] != ids[q],
        first_duplicate(ids) matches Some(d) ==> exists|p: int, q: int| 0 <= p < q < ids.len()
            && #[trigger] ids[p] == d && #[trigger] ids[q] == d,
    decreases ids.len(),
{
    if first_duplicate(ids) is None {
        assert forall|p: int, q: int| 0 <= p < q < ids.len() implies ids[p] != ids[q] by {
            lemma_no_duplicate_distinct(ids, p, q);
        }
    }
    if ids.len() > 0 {
        let init = ids.drop_last();
        law_duplicate_identity_detected(init);
        match first_duplicate(init) {
            Some(d) => {
                let (p, q) = choose|p: int, q: int| 0 <= p < q < init.len() && #[trigger] init[p] == d && #[trigger] init[q] == d;
                assert(ids[p] == d && ids[q] == d);
            },
            None => {
                if init.contains(ids.last()) {
                    let p = choose|p: int| 0 <= p < init.len() && init[p] == ids.last();
                    assert(ids[p] == ids.last() && ids[ids.len() - 1] == ids.last());
                }
            },
        }
    }
}

/// A pop stage with guards tells every guard, in order, of the attempt:
/// blocked when a guard refused, otherwise the fallback's attempt; and its
/// report is that same attempt.
pub proof fn law_every_guard_is_told(
    guards: nat,
    has_fallback: bool,
    depth: usize,
    node: usize,
    can_pop: bool,
    attempt: Option<PopAttempt>,
    o: BackDispatchReport,
    told: Seq<crate::back_dispatch::GuardNotice>,
)
    requires
        pop_run(guards, has_fallback, depth, node, can_pop, attempt, o, told),
        guards > 0,
    ensures
        told.len() == guards,
        forall|j: int| 0 <= j < guards ==> (#[trigger] told[j]).node == node && told[j].guard == j
            && told[j].attempt == pop_told(can_pop, attempt),
        !can_pop ==> forall|j: int| 0 <= j < guards ==> (#[trigger] told[j]).attempt == pop_blocked(),
        o == report_of_attempt(pop_told(can_pop, attempt), depth),
{
}

/// Dropping the token of a freshly added handler leaves the handlers as
/// they were, provided no older handler carries the new id (ids wrap only
/// after `u64::MAX` registrations).
pub proof fn law_drop_undoes_add(n: DispatcherView, e: HandlerEntry)
    requires
        e.id == n.next_id,
        forall|i: int| 0 <= i < n.handlers.len() ==> (#[trigger] n.handlers[i]).id != n.next_id,
    ensures
        with_handler(n, e).handlers.filter(other_handlers(n.next_id)) == n.handlers,
{
    let pred = other_handlers(n.next_id);
    n.handlers.lemma_filter_push(e, pred);
    lemma_filter_all_kept(n.handlers, n.next_id);
}

proof fn lemma_filter_all_kept(s: Seq<HandlerEntry>, id: u64)
    requires
        forall|i: int| 0 <= i < s.len() ==> (#[trigger] s[i]).id != id,
    ensures
        s.filter(other_handlers(id)) == s,
    decreases s.len(),
{
    if s.len() > 0 {
        let init = s.drop_last();
        assert forall|i: int| 0 <= i < init.len() implies (#[trigger] init[i]).id != id by {
            assert(init[i] == s[i]);
        }
        lemma_filter_all_kept(init, id);
        init.lemma_filter_push(s.last(), other_handlers(id));
        assert(init.push(s.last()) =~= s);
    }
}

/// A dispatcher without children tries its handlers newest first, then
/// its pop stage.
pub proof fn law_handlers_newest_first(t: Seq<DispatcherView>, root: usize)
    requires
        tree_wf(t),
        root < t.len(),
        t[root as int].children.len() == 0,
    ensures
        dispatch_stages(t, root) == handler_stages(root, t[root as int].handlers.len(), 0)
            + seq![DispatchStage::Pop { node: root, depth: 0 }],
        forall|i: int| 0 <= i < t[root as int].handlers.len() ==>
            (#[trigger] handler_stages(root, t[root as int].handlers.len(), 0)[i])
                == (DispatchStage::Handler { node: root, index: (t[root as int].handlers.len() - 1 - i) as usize, depth: 0 }),
{
    let visited = Seq::new(t.len(), |i: int| false);
    let v1 = visited.update(root as int, true);
    let (cs, v2) = walk_children(t, root, 0, 1, v1, t.len() as nat);
    assert(cs =~= Seq::<DispatchStage>::empty());
    assert(dispatch_stages(t, root) =~= handler_stages(root, t[root as int].handlers.len(), 0)
        + seq![DispatchStage::Pop { node: root, depth: 0 }]);
}

/// A dispatcher defers to its newest child first: when that child has no
/// children of its own, a dispatch starts with the child's handlers (newest
/// first, one level deeper) and its pop stage, before any handler of the
/// dispatcher itself.
pub proof fn law_newest_child_tried_first(t: Seq<DispatcherView>, root: usize)
    requires
        tree_wf(t),
        root < t.len(),
        t[root as int].children.len() > 0,
        t[root as int].children.last().child != root,
        t[t[root as int].children.last().child as int].children.len() == 0,
    ensures
        ({
            let c = t[root as int].children.last().child;
            let first = handler_stages(c, t[c as int].handlers.len(), 1)
                + seq![DispatchStage::Pop { node: c, depth: 1 }];
            &&& first.len() <= dispatch_stages(t, root).len()
            &&& dispatch_stages(t, root).take(first.len() as int) == first
        }),
{
    let k = t[root as int].children.len();
    let c = t[root as int].children.last().child;
    assert(t[root as int].children[k - 1] == t[root as int].children.last());
    assert(c < t.len());
    let fuel = (t.len() + 1) as nat;
    let visited = Seq::new(t.len(), |i: int| false);
    let v1 = visited.update(root as int, true);
    assert(!v1[c as int]);
    let v2 = v1.update(c as int, true);
    let (cc, v3) = walk_children(t, c, 0, 2, v2, (fuel - 2) as nat);
    assert(cc =~= Seq::<DispatchStage>::empty());
    let first = handler_stages(c, t[c as int].handlers.len(), 1) + seq![DispatchStage::Pop { node: c, depth: 1 }];
    let (s1, w1) = walk(t, c, 1, v1, (fuel - 1) as nat);
    assert(s1 =~= first);
    let (cs, w2) = walk_children(t, root, k, 1, v1, (fuel - 1) as nat);
    let (s2, w3) = walk_children(t, root, (k - 1) as nat, 1, w1, (fuel - 1) as nat);
    assert(cs == s1 + s2);
    let all = dispatch_stages(t, root);
    assert(all == cs + handler_stages(root, t[root as int].handlers.len(), 0) + seq![DispatchStage::Pop { node: root, depth: 0 }]);
    assert(all.take(first.len() as int) =~= first);
}

/// A dispatcher with nothing registered and no fallback lets every back
/// action through: whatever the dispatch reports is unhandled at depth zero.
pub proof fn law_empty_dispatcher_unhandled(
    t: Seq<DispatcherView>,
    root: usize,
    outs: Seq<BackDispatchReport>,
    r: BackDispatchReport,
)
    requires
        tree_wf(t),
        root < t.len(),
        t[root as int].children.len() == 0,
        t[root as int].handlers.len() == 0,
        t[root as int].guards.len() == 0,
        t[root as int].fallback is None,
        dispatch_fits(t, root, false, dispatch_stages(t, root), outs, r),
    ensures
        r == unhandled_report(0),
{
    law_handlers_newest_first(t, root);
    let stages = dispatch_stages(t, root);
    assert(handler_stages(root, 0, 0) =~= Seq::<DispatchStage>::empty());
    assert(stages =~= seq![DispatchStage::Pop { node: root, depth: 0 }]);
    assert(stage_fits(t, root, false, stages[0], outs[0]));
    let can = choose|can_pop: bool| outs[0] == #[trigger] pop_stage_report(true, can_pop, None, 0);
    assert(outs[0] == pop_stage_report(true, can, None, 0));
}

/// A node that was let in and then leaves restores the guard, as long as
/// the depth was below its saturation point.
pub proof fn law_exit_undoes_enter(m: RecursionModel, node: DiagnosticNode)
    requires
        m.depth < usize::MAX,
    ensures
        exited(entered(m, node)) == m,
{
    assert(m.active.push(node).drop_last() =~= m.active);
}

/// A node with an identity that has entered and not yet left is refused if
/// it enters again in the same phase, however deep it now sits; a node
/// without an identity never is, and entering one node does not change
/// whether a different one re-enters.
pub proof fn law_reentry_is_detected(m: RecursionModel, node: DiagnosticNode, inner: Seq<DiagnosticNode>, other: DiagnosticNode)
    ensures
        node.id is Some ==> repeats(entered(m, node).active + inner, node),
        other.id is None ==> !repeats(entered(m, node).active + inner, other),
        other.phase != node.phase || other.id != node.id
            ==> (repeats(entered(m, node).active, other) <==> repeats(m.active, other)),
{
    let a = entered(m, node).active + inner;
    if node.id is Some {
        assert(a[m.active.len() as int] == node);
    }
    let e = entered(m, node).active;
    if other.phase != node.phase || other.id != node.id {
        if repeats(m.active, other) {
            let j = choose|j: int| 0 <= j < m.active.len() && (#[trigger] m.active[j]).phase == other.phase
                && m.active[j].id == other.id;
            assert(e[j] == m.active[j]);
        }
        if repeats(e, other) {
            let j = choose|j: int| 0 <= j < e.len() && (#[trigger] e[j]).phase == other.phase && e[j].id == other.id;
            assert(j < m.active.len());
            assert(e[j] == m.active[j]);
        }
    }
}

/// Reading back the marker of a drag-start listener gives the listener.
pub proof fn law_marker_round_trip(spec: ReorderableListenerSpec)
    ensures
        marker_parse(marker_text(spec)) == Some(spec),
{
    reveal_strlit("\u{1f}incular-reorderable-listener:");
    let s = marker_text(spec);
    let n = marker_prefix().len();
    let dec = crate::text::decimal(spec.index as nat);
    lemma_decimal_digits(spec.index as nat);
    assert(n == 30);
    assert(s.take(n as int) =~= marker_prefix());
    let rest = s.skip(n as int);
    assert(rest.skip(4) =~= dec);
    assert(!dec.contains(':')) by {
        if dec.contains(':') {
            let i = choose|i: int| 0 <= i < dec.len() && dec[i] == ':';
            assert(crate::reorder_marker::is_digit(dec[i]));
        }
    }
    assert(crate::reorder_marker::is_digit(dec[0]));
    assert(number_digits(dec) == dec);
    assert(parse_usize(dec) == Some(spec.index));
}

/// A pending deadline exists exactly while the tooltip is waiting to show
/// or dismissing.
pub proof fn law_pending_while_waiting_or_dismissing(m: TooltipModel)
    requires
        model_wf(m),
    ensures
        (m.pending is Some) == (visibility_of(m) == RawTooltipVisibility::Waiting
            || visibility_of(m) == RawTooltipVisibility::Dismissing),
{
}

/// The trigger callback runs when a show makes the tooltip visible and on
/// every accepted touch trigger; a show of a visible tooltip, a hide and a
/// pointer dismissal leave it alone.
pub proof fn law_trigger_callback_runs(m: TooltipModel, now: Instant)
    ensures
        !m.visible && m.on_triggered is Some ==> show_spec(m).triggered == m.triggered.push(m.on_triggered->0),
        m.visible ==> show_spec(m).triggered == m.triggered,
        m.on_triggered is Some ==> trigger_touch_spec(m, now).triggered == m.triggered.push(m.on_triggered->0),
        hide_spec(m).triggered == m.triggered,
        dismiss_by_pointer_spec(m).triggered == m.triggered,
{
}

/// A show for a zero span is an explicit show: a cancelled trigger leaves
/// it visible.
pub proof fn law_zero_show_for_stays_open(m: TooltipModel, span: crate::time::Duration, now: Instant)
    requires
        span@ == 0,
    ensures
        show_for_spec(m, span, now).manual,
        cancel_trigger_spec(show_for_spec(m, span, now)) == show_for_spec(m, span, now),
        cancel_trigger_spec(show_for_spec(m, span, now)).visible,
{
}

/// A fresh order, a move and a resize keep the reorder identities
/// distinct, as long as fresh identities do not wrap around.
pub proof fn law_reorder_items_never_repeat(order: Seq<usize>, next: usize, from: int, to: int, n: nat)
    requires
        distinct_items(order, next),
    ensures
        distinct_items(identity_order(n), n as usize) || n > usize::MAX,
        0 <= from < order.len() && 0 <= to < order.len() ==> distinct_items(seq_move(order, from, to), next),
        n <= order.len() ==> distinct_items(resized_order(order, next, n), next),
        n > order.len() && next + (n - order.len()) <= usize::MAX
            ==> distinct_items(resized_order(order, next, n), (next + (n - order.len())) as usize),
{
    lemma_reorder_distinct(order, next, from, to, n);
}

/// Scoping a child identity to a sliver records the sliver's index (up to
/// 254) as the innermost scope and keeps the child's local part; removing
/// that scope gives back the child's path when it had room (24 bits).
pub proof fn law_scoped_child_id_round_trip(sliver: usize, child: SliverChildId, r: SliverChildId)
    requires
        r.path() == (child.path() % 0x100_0000) * 256 + scope_byte(sliver),
        r.local_part() == child.local_part(),
    ensures
        r.path() % 256 - 1 == (if sliver < 254 { sliver as int } else { 254 }),
        r.path() / 256 == child.path() % 0x100_0000,
        child.path() < 0x100_0000 ==> r.path() / 256 == child.path(),
{
    let p = child.path() % 0x100_0000;
    assert((p * 256 + scope_byte(sliver)) % 256 == scope_byte(sliver)) by (nonlinear_arith)
        requires 1 <= scope_byte(sliver) <= 255, p >= 0;
    assert((p * 256 + scope_byte(sliver)) / 256 == p) by (nonlinear_arith)
        requires 1 <= scope_byte(sliver) <= 255, p >= 0;
}

/// With distinct identities, the first position of the item at `p` is `p`
/// itself: a later or earlier position holding the same identity is `p`.
pub proof fn law_reorder_position_of_item(order: Seq<usize>, next: usize, p: int, q: int)
    requires
        distinct_items(order, next),
        0 <= p < order.len(),
        0 <= q < order.len(),
        order[q] == order[p],
    ensures
        q == p,
{
}

/// Under the `onReorder(old, new)` convention an item moved up lands at
/// `new`, and an item moved down lands at `new - 1` (as `new` counts the
/// moved item itself); the items outside the span between the two
/// positions stay where they were.
pub proof fn law_reorder_lands_item(s: Seq<usize>, old_index: int, new_index: int)
    requires
        0 <= old_index < s.len(),
        0 <= new_index <= s.len(),
    ensures
        ({
            let r = seq_move(s, old_index, reorder_destination(s.len() as int, old_index, new_index));
            &&& r.len() == s.len()
            &&& new_index < old_index ==> r[new_index] == s[old_index]
            &&& old_index < new_index ==> r[new_index - 1] == s[old_index]
            &&& forall|i: int| 0 <= i < s.len() && (i < old_index && i < new_index
                || i > old_index && i >= new_index) ==> #[trigger] r[i] == s[i]
        }),
{
}

/// The insertion index a drop reports, read back by the `onReorder(old, new)`
/// convention, lands the item on the row it was dropped on.
pub proof fn law_drop_insertion_index_round_trip(len: int, from: usize, position: usize)
    requires
        from < len,
        position < len,
        len <= usize::MAX,
    ensures
        reorder_destination(len, from as int, insertion_index_spec(from, position) as int) == position,
{
}

/// A removal shrinks from the progress the item had when it started: `d`
/// after the removal the progress is that progress less `d` (never below
/// zero), and a later tick never shows more of the item than an earlier one.
pub proof fn law_shrink_never_grows(a: ItemAnimation, start: Instant, t1: Instant, t2: Instant)
    requires
        a.wf(),
        start@ <= t1@ <= t2@,
    ensures
        ({
            let s = shrink(a, start);
            let d: int = t1@ - start@;
            &&& animation_at(s, t1).value == (if a.value <= d { 0 } else { a.value - d })
            &&& animation_at(s, t1).value <= a.value
            &&& animation_at(s, t2).value <= animation_at(s, t1).value
            &&& animation_at(animation_at(s, t1), t2).value <= animation_at(s, t1).value
            &&& (animation_at(s, t1).value == 0 <==> animation_at(s, t1).direction == AnimationDirection::Idle)
        }),
{
}

/// A hovering device leaving a visible tooltip that is neither shown
/// explicitly nor focused hides it no later than `exit_duration` after the
/// exit: at once when that duration is zero, and otherwise by a hide due by
/// then, which a tick at or after that deadline carries out once no other
/// device hovers.
pub proof fn law_exit_hides_within_exit_duration(m: TooltipModel, device: u64, now: Instant, later: Instant)
    requires
        m.hovering.contains(device),
        m.visible,
        !m.manual,
        !m.focused,
    ensures
        ({
            let r = mouse_exit_spec(m, device, now);
            let deadline = deadline_instant(now, m.durations.exit_duration);
            &&& !r.hovering.contains(device)
            &&& m.durations.exit_duration@ == 0 ==> !r.visible && r.pending is None
            &&& m.durations.exit_duration@ != 0 ==> r.visible && (r.pending matches
                Some(PendingTransition::Hide { at, .. }) && at@ <= deadline@)
            &&& m.durations.exit_duration@ != 0 && r.hovering.is_empty() && later@ >= deadline@
                ==> !tick_spec(r, later).visible
        }),
{
}

/// A tick drops exactly the entries whose removal finished: no finished
/// entry stays, and every other entry stays, in order.
pub proof fn law_tick_drops_finished_removals(es: Seq<AnimatedListEntry>)
    ensures
        live_entries(es).len() <= es.len(),
        forall|i: int| 0 <= i < live_entries(es).len() ==> !entry_finished(#[trigger] live_entries(es)[i]),
        forall|i: int| 0 <= i < es.len() && !entry_finished(#[trigger] es[i]) ==> live_entries(es).contains(es[i]),
        (forall|i: int| 0 <= i < es.len() ==> !entry_finished(#[trigger] es[i])) ==> live_entries(es) == es,
    decreases es.len(),
{
    if es.len() > 0 {
        law_tick_drops_finished_removals(es.drop_last());
        let head = live_entries(es.drop_last());
        assert forall|i: int| 0 <= i < es.len() && !entry_finished(#[trigger] es[i]) implies live_entries(es).contains(es[i]) by {
            if i < es.len() - 1 {
                assert(es.drop_last()[i] == es[i]);
                let k = choose|k: int| 0 <= k < head.len() && head[k] == es[i];
                assert(live_entries(es)[k] == es[i]);
            } else {
                assert(live_entries(es)[head.len() as int] == es[i]);
            }
        }
        if forall|i: int| 0 <= i < es.len() ==> !entry_finished(#[trigger] es[i]) {
            assert forall|i: int| 0 <= i < es.drop_last().len() implies !entry_finished(#[trigger] es.drop_last()[i]) by {
                assert(es.drop_last()[i] == es[i]);
            }
            assert(!entry_finished(es[es.len() - 1]));
            assert(live_entries(es) =~= es.drop_last().push(es.last()));
            assert(es.drop_last().push(es.last()) =~= es);
        }
    } else {
        assert(live_entries(es) =~= es);
    }
}

/// Toggling twice restores visibility.
pub proof fn law_toggle_twice(m: TooltipModel)
    ensures
        ({
            let toggle = |x: TooltipModel| if x.visible { hide_spec(x) } else { show_spec(x) };
            toggle(toggle(m)).visible == m.visible
        }),
{
}

} // verus!
