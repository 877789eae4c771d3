//! Retained state of reorderable and animated slivers.
//!
//! A reorder controller stores logical item identities in visual order, so
//! moving an item keeps its identity (and the element state keyed by it).
//! An animated-list controller keeps one entry per logical item with its
//! size transition; removed entries stay until their shrink completes.
use vstd::prelude::*;
use crate::time::{Instant, Duration};
use crate::widget::Widget;

verus! {

/// `s` with the element at `from` moved to final position `to`.
pub open spec fn seq_move(s: Seq<usize>, from: int, to: int) -> Seq<usize> {
    s.remove(from).insert(to, s[from])
}

/// `0, 1, ..., n - 1`.
pub open spec fn identity_order(n: nat) -> Seq<usize> {
    Seq::new(n, |i: int| i as usize)
}

/// `revision + 1`, wrapping.
pub open spec fn bump(r: u64) -> u64 {
    if r == u64::MAX { 0 } else { (r + 1) as u64 }
}

/// Reorder identities never repeat: every identity is below the next fresh
/// one and occurs once.
pub open spec fn distinct_items(order: Seq<usize>, next: usize) -> bool {
    &&& order.no_duplicates()
    &&& forall|i: int| 0 <= i < order.len() ==> #[trigger] order[i] < next
}

/// The position in `s` of the element at position `k` of `seq_move(s, from, to)`.
pub open spec fn moved_from(from: int, to: int, k: int) -> int {
    if k == to {
        from
    } else {
        let t = if k < to { k } else { k - 1 };
        if t < from { t } else { t + 1 }
    }
}

/// A fresh order, a move and a resize keep reorder identities distinct
/// while fresh identities do not wrap around.
pub proof fn lemma_reorder_distinct(order: Seq<usize>, next: usize, from: int, to: int, n: nat)
    requires
        distinct_items(order, next),
    ensures
        distinct_items(identity_order(n), n as usize) || n > usize::MAX,
        0 <= from < order.len() && 0 <= to < order.len() ==> distinct_items(seq_move(order, from, to), next),
        n <= order.len() ==> distinct_items(resized_order(order, next, n), next),
        n > order.len() && next + (n - order.len()) <= usize::MAX
            ==> distinct_items(resized_order(order, next, n), (next + (n - order.len())) as usize),
{
    if n <= usize::MAX {
        assert(distinct_items(identity_order(n), n as usize));
    }
    if 0 <= from < order.len() && 0 <= to < order.len() {
        let r = seq_move(order, from, to);
        assert forall|k: int| 0 <= k < r.len() implies #[trigger] r[k] == order[moved_from(from, to, k)]
            && 0 <= moved_from(from, to, k) < order.len() by {
        }
        assert forall|i: int, j: int| 0 <= i < r.len() && 0 <= j < r.len() && i != j implies r[i] != r[j] by {
            assert(r[i] == order[moved_from(from, to, i)]);
            assert(r[j] == order[moved_from(from, to, j)]);
            assert(moved_from(from, to, i) != moved_from(from, to, j));
        }
        assert forall|i: int| 0 <= i < r.len() implies #[trigger] r[i] < next by {
            assert(r[i] == order[moved_from(from, to, i)]);
        }
    }
    if n <= order.len() {
        let r = resized_order(order, next, n);
        assert forall|i: int| 0 <= i < r.len() implies #[trigger] r[i] == order[i] by {}
    }
    if n > order.len() && next + (n - order.len()) <= usize::MAX {
        let r = resized_order(order, next, n);
        let m = (next + (n - order.len())) as usize;
        assert forall|k: int| 0 <= k < n - order.len() implies #[trigger] wrapping_next(next, k) == next + k by {
            assert((next + k) % (usize::MAX + 1) == next + k) by (nonlinear_arith)
                requires 0 <= next + k <= usize::MAX;
        }
        assert forall|i: int| 0 <= i < r.len() implies #[trigger] r[i] < m by {
            if i >= order.len() {
                assert(r[i] == wrapping_next(next, i - order.len()));
            }
        }
        assert forall|i: int, j: int| 0 <= i < r.len() && 0 <= j < r.len() && i != j implies r[i] != r[j] by {
            if i >= order.len() {
                assert(r[i] == wrapping_next(next, i - order.len()));
            }
            if j >= order.len() {
                assert(r[j] == wrapping_next(next, j - order.len()));
            }
        }
    }
}

/// The value of a reorder controller.
pub struct ReorderModel {
    pub order: Seq<usize>,
    pub next_item: usize,
    pub revision: u64,
}

/// Retained order of a reorderable sliver.
pub struct SliverReorderController {
    order: Vec<usize>,
    next_item: usize,
    revision: u64,
    wrapped: Ghost<bool>,
}

impl View for SliverReorderController {
    type V = ReorderModel;

    closed spec fn view(&self) -> ReorderModel {
        ReorderModel { order: self.order@, next_item: self.next_item, revision: self.revision }
    }
}

/// The destination of Flutter's `onReorder(old, new)` convention, where
/// `new` counts positions before the old item is removed.
pub open spec fn reorder_destination(len: int, old_index: int, new_index: int) -> int {
    let d = if old_index < new_index { new_index - 1 } else { new_index };
    let last = if len > 0 { len - 1 } else { 0 };
    if d < last { d } else { last }
}

/// The order after appending fresh identities `next, next + 1, ...` (wrapping)
/// up to `n` items, or truncating to `n`.
pub open spec fn resized_order(order: Seq<usize>, next: usize, n: nat) -> Seq<usize> {
    if n <= order.len() {
        order.take(n as int)
    } else {
        order + Seq::new((n - order.len()) as nat, |k: int| wrapping_next(next, k))
    }
}

/// `next + k`, wrapping on `usize`.
pub open spec fn wrapping_next(next: usize, k: int) -> usize {
    ((next + k) % (usize::MAX + 1)) as usize
}

impl SliverReorderController {
    /// Until fresh identities wrap around, the order holds each identity
    /// once, every one below the next fresh identity.
    #[verifier::type_invariant]
    spec fn order_inv(self) -> bool {
        !self.wrapped@ ==> distinct_items(self.order@, self.next_item)
    }

    /// Whether fresh identities have wrapped around `usize`.
    pub closed spec fn ids_wrapped(&self) -> bool {
        self.wrapped@
    }

    /// Items `0..item_count` in order.
    pub fn new(item_count: usize) -> (r: Self)
        ensures
            r@.order == identity_order(item_count as nat),
            r@.next_item == item_count,
            r@.revision == 0,
            !r.ids_wrapped(),
            distinct_items(r@.order, r@.next_item),
            r@.order.len() == item_count,
            forall|i: int| 0 <= i < item_count ==> #[trigger] r@.order[i] == i,
    {
        let mut order: Vec<usize> = Vec::new();
        let mut i: usize = 0;
        while i < item_count
            invariant
                i <= item_count,
                order@ == identity_order(i as nat),
            decreases item_count - i,
        {
            order.push(i);
            proof {
                assert(order@ =~= identity_order(i as nat + 1));
            }
            i += 1;
        }
        proof {
            assert(distinct_items(order@, item_count));
        }
        SliverReorderController { order, next_item: item_count, revision: 0, wrapped: Ghost(false) }
    }

    /// The number of items.
    pub fn item_count(&self) -> (r: usize)
        ensures
            r == self@.order.len(),
    {
        self.order.len()
    }

    /// The item identities in visual order.
    pub fn order(&self) -> (r: Vec<usize>)
        ensures
            r@ == self@.order,
    {
        self.order.clone()
    }

    /// The item at a visual position.
    pub fn item_at(&self, position: usize) -> (r: Option<usize>)
        ensures
            position < self@.order.len() ==> r == Some(self@.order[position as int]),
            position >= self@.order.len() ==> r is None,
    {
        if position < self.order.len() {
            Some(self.order[position])
        } else {
            None
        }
    }

    /// The first visual position of `item`.
    pub fn position_of(&self, item: usize) -> (r: Option<usize>)
        ensures
            r matches Some(p) ==> p < self@.order.len() && self@.order[p as int] == item
                && forall|j: int| 0 <= j < p ==> self@.order[j] != item,
            r is None ==> !self@.order.contains(item),
    {
        let mut i: usize = 0;
        while i < self.order.len()
            invariant
                i <= self.order.len(),
                forall|j: int| 0 <= j < i ==> self.order@[j] != item,
            decreases self.order.len() - i,
        {
            if self.order[i] == item {
                return Some(i);
            }
            i += 1;
        }
        None
    }

    /// The change counter; it advances on every effective change.
    pub fn revision(&self) -> (r: u64)
        ensures
            r == self@.revision,
    {
        self.revision
    }

    /// Moves the item at `from` to final position `to` (counted after its
    /// removal). Out-of-range or equal positions change nothing.
    pub fn move_item(&mut self, from: usize, to: usize) -> (r: bool)
        ensures
            r == (from < old(self)@.order.len() && to < old(self)@.order.len() && from != to),
            r ==> final(self)@ == (ReorderModel {
                order: seq_move(old(self)@.order, from as int, to as int),
                revision: bump(old(self)@.revision),
                ..old(self)@
            }),
            !r ==> final(self)@ == old(self)@,
            final(self).ids_wrapped() == old(self).ids_wrapped(),
            !final(self).ids_wrapped() ==> distinct_items(final(self)@.order, final(self)@.next_item),
            r ==> final(self)@.order.len() == old(self)@.order.len()
                && final(self)@.order[to as int] == old(self)@.order[from as int],
            r ==> forall|i: int| 0 <= i < old(self)@.order.len() && (i < from && i < to || i > from && i > to)
                ==> #[trigger] final(self)@.order[i] == old(self)@.order[i],
    {
        proof {
            use_type_invariant(&*self);
        }
        if from >= self.order.len() || to >= self.order.len() || from == to {
            return false;
        }
        let ghost before = self.order@;
        let mut order: Vec<usize> = Vec::new();
        std::mem::swap(&mut order, &mut self.order);
        let item = order.remove(from);
        order.insert(to, item);
        proof {
            assert(order@ =~= seq_move(before, from as int, to as int));
            if !self.wrapped@ {
                lemma_reorder_distinct(before, self.next_item, from as int, to as int, 0);
            }
        }
        self.order = order;
        self.revision = self.revision.wrapping_add(1);
        proof {
            use_type_invariant(&*self);
        }
        true
    }

    /// Applies Flutter's `onReorder(old_index, new_index)` convention.
    pub fn reorder(&mut self, old_index: usize, new_index: usize) -> (r: bool)
        ensures
            ({
                let len = old(self)@.order.len() as int;
                let dest = reorder_destination(len, old_index as int, new_index as int);
                &&& r == (old_index < len && new_index <= len && dest != old_index)
                &&& r ==> final(self)@ == (ReorderModel {
                    order: seq_move(old(self)@.order, old_index as int, dest),
                    revision: bump(old(self)@.revision),
                    ..old(self)@
                })
                &&& !r ==> final(self)@ == old(self)@
            }),
            r == (old_index < old(self)@.order.len() && new_index <= old(self)@.order.len()
                && new_index != old_index && new_index != old_index + 1),
            r ==> final(self)@.order.len() == old(self)@.order.len(),
            r && new_index < old_index ==> final(self)@.order[new_index as int]
                == old(self)@.order[old_index as int],
            r && old_index < new_index ==> final(self)@.order[new_index - 1]
                == old(self)@.order[old_index as int],
            final(self).ids_wrapped() == old(self).ids_wrapped(),
            !final(self).ids_wrapped() ==> distinct_items(final(self)@.order, final(self)@.next_item),
    {
        proof {
            use_type_invariant(&*self);
        }
        let len = self.item_count();
        if old_index >= len || new_index > len {
            return false;
        }
        let destination = if old_index < new_index { new_index.saturating_sub(1) } else { new_index };
        let last = len.saturating_sub(1);
        let dest = if destination < last { destination } else { last };
        self.move_item(old_index, dest)
    }

    /// Changes the number of items: truncates, or appends fresh identities.
    pub fn set_item_count(&mut self, item_count: usize)
        ensures
            item_count == old(self)@.order.len() ==> final(self)@ == old(self)@,
            item_count != old(self)@.order.len() ==> {
                &&& final(self)@.order == resized_order(old(self)@.order, old(self)@.next_item, item_count as nat)
                &&& final(self)@.revision == bump(old(self)@.revision)
                &&& item_count > old(self)@.order.len() ==> final(self)@.next_item
                    == wrapping_next(old(self)@.next_item, item_count - old(self)@.order.len())
                &&& item_count < old(self)@.order.len() ==> final(self)@.next_item == old(self)@.next_item
            },
            final(self).ids_wrapped() == (old(self).ids_wrapped()
                || (item_count > old(self)@.order.len()
                    && old(self)@.next_item + (item_count - old(self)@.order.len()) > usize::MAX)),
            !final(self).ids_wrapped() ==> distinct_items(final(self)@.order, final(self)@.next_item),
            final(self)@.order.len() == item_count,
            forall|i: int| 0 <= i < item_count && i < old(self)@.order.len()
                ==> #[trigger] final(self)@.order[i] == old(self)@.order[i],
    {
        proof {
            use_type_invariant(&*self);
        }
        if item_count == self.order.len() {
            return;
        }
        let ghost old_order = self.order@;
        let ghost old_next = self.next_item;
        let ghost old_wrapped = self.wrapped@;
        let mut order: Vec<usize> = Vec::new();
        std::mem::swap(&mut order, &mut self.order);
        let mut next: usize = self.next_item;
        if item_count < order.len() {
            order.truncate(item_count);
        } else {
            proof {
                assert(old_next as int % (usize::MAX + 1) == old_next) by (nonlinear_arith)
                    requires old_next <= usize::MAX;
                assert(order@ =~= old_order + Seq::new(0nat, |k: int| wrapping_next(old_next, k)));
            }
            while order.len() < item_count
                invariant
                    old_order.len() <= order.len() <= item_count,
                    order@ == old_order + Seq::new((order.len() - old_order.len()) as nat,
                        |k: int| wrapping_next(old_next, k)),
                    next == wrapping_next(old_next, order.len() - old_order.len()),
                decreases item_count - order.len(),
            {
                let item = next;
                next = next.wrapping_add(1);
                order.push(item);
                proof {
                    let k = order.len() - old_order.len();
                    assert(next == wrapping_next(old_next, k)) by {
                        assert((old_next + (k - 1)) % (usize::MAX + 1) + 1 == usize::MAX + 1
                            ==> (old_next + k) % (usize::MAX + 1) == 0) by (nonlinear_arith);
                        assert((old_next + (k - 1)) % (usize::MAX + 1) + 1 < usize::MAX + 1
                            ==> (old_next + k) % (usize::MAX + 1) == (old_next + (k - 1)) % (usize::MAX + 1) + 1) by (nonlinear_arith);
                    }
                    assert(order@ =~= old_order + Seq::new(k as nat, |j: int| wrapping_next(old_next, j)));
                }
            }
        }
        proof {
            if item_count < old_order.len() {
                assert(order@ =~= old_order.take(item_count as int));
            }
            if !old_wrapped {
                lemma_reorder_distinct(old_order, old_next, 0, 0, item_count as nat);
            }
            if item_count > old_order.len() && old_next + (item_count - old_order.len()) <= usize::MAX {
                assert(wrapping_next(old_next, item_count - old_order.len()) == old_next + (item_count - old_order.len())) by (nonlinear_arith)
                    requires 0 <= old_next + (item_count - old_order.len()) <= usize::MAX;
            }
        }
        let ghost now_wrapped = old_wrapped
            || (item_count > old_order.len() && old_next + (item_count - old_order.len()) > usize::MAX);
        self.wrapped = Ghost(now_wrapped);
        self.next_item = next;
        self.order = order;
        self.revision = self.revision.wrapping_add(1);
        proof {
            use_type_invariant(&*self);
        }
    }
}

/// Which reorder callback a list has: told `(old position, insertion
/// index)`, told `(old position, final position)`, or none.
#[derive(Clone, Copy, Debug, PartialEq, Eq, Structural)]
pub enum ReorderNotice {
    OnReorder,
    OnReorderItem,
    Silent,
}

/// What a drop on a row did.
#[derive(Clone, Copy, Debug, PartialEq, Eq)]
pub struct DropReport {
    /// The dragged item's position before the drop.
    pub from: usize,
    /// Where the item lands, counted before it is removed (Flutter's
    /// `onReorder` convention): one past the row when dragged downwards.
    pub insertion_index: usize,
    /// Whether the order changed.
    pub moved: bool,
    /// The positions the list's reorder callback is told, when it is told.
    pub notice: Option<(usize, usize)>,
}

/// The insertion index of a drop from `from` onto the row at `position`:
/// one past the row when the item comes from above, else the row itself.
pub open spec fn insertion_index_spec(from: usize, position: usize) -> usize {
    if from < position {
        if position < usize::MAX { (position + 1) as usize } else { usize::MAX }
    } else {
        position
    }
}

/// Drops `source_item` on the row at `position`: the item moves to that
/// position, and the report says where it came from, its insertion index
/// and what the list's reorder callback is told. None when the item is not
/// in the list.
pub fn drop_on(controller: &mut SliverReorderController, source_item: usize, position: usize, notice: ReorderNotice)
    -> (r: Option<DropReport>)
    ensures
        final(controller).ids_wrapped() == old(controller).ids_wrapped(),
        r is None <==> !old(controller)@.order.contains(source_item),
        r is None ==> final(controller)@ == old(controller)@,
        r matches Some(d) ==> {
            let before = old(controller)@;
            &&& d.from < before.order.len()
            &&& before.order[d.from as int] == source_item
            &&& forall|j: int| 0 <= j < d.from ==> before.order[j] != source_item
            &&& d.insertion_index == insertion_index_spec(d.from, position)
            &&& d.moved == (position < before.order.len() && d.from != position)
            &&& d.moved ==> final(controller)@ == (ReorderModel {
                order: seq_move(before.order, d.from as int, position as int),
                revision: bump(before.revision),
                ..before
            })
            &&& !d.moved ==> final(controller)@ == before
            &&& d.moved ==> final(controller)@.order[position as int] == source_item
                && final(controller)@.order.len() == before.order.len()
            &&& d.from < position ==> d.insertion_index as int == (if position < usize::MAX { position + 1 } else { position as int })
            &&& d.from >= position ==> d.insertion_index == position
            &&& d.notice == (if !d.moved {
                None
            } else {
                match notice {
                    ReorderNotice::OnReorder => Some((d.from, d.insertion_index)),
                    ReorderNotice::OnReorderItem => Some((d.from, position)),
                    ReorderNotice::Silent => None,
                }
            })
        },
{
    let from = match controller.position_of(source_item) {
        Some(p) => p,
        None => return None,
    };
    let insertion_index = if from < position { position.saturating_add(1) } else { position };
    let moved = controller.move_item(from, position) && from != position;
    let told = if !moved {
        None
    } else {
        match notice {
            ReorderNotice::OnReorder => Some((from, insertion_index)),
            ReorderNotice::OnReorderItem => Some((from, position)),
            ReorderNotice::Silent => None,
        }
    };
    Some(DropReport { from, insertion_index, moved, notice: told })
}

/// The index a finished drag reports: where it was dropped, else the
/// item's current position.
pub fn drag_end_index(controller: &SliverReorderController, drop_index: Option<usize>, item: usize) -> (r: Option<usize>)
    ensures
        drop_index is Some ==> r == drop_index,
        drop_index is None ==> match r {
            Some(p) => p < controller@.order.len() && controller@.order[p as int] == item
                && forall|j: int| 0 <= j < p ==> controller@.order[j] != item,
            None => !controller@.order.contains(item),
        },
{
    match drop_index {
        Some(i) => Some(i),
        None => controller.position_of(item),
    }
}

/// How a row becomes a drag source.
#[derive(Clone, Copy, Debug, PartialEq, Eq, Structural)]
pub enum DragSource {
    /// The row's enabled listener starts the drag (after a long press when
    /// delayed) and reports its own index when it starts.
    Listener { start_index: usize, delayed: bool },
    /// With no listener and none required, the whole row starts the drag
    /// and reports its position.
    WholeRow { start_index: usize },
    /// A disabled listener, or no listener where one is required: the row
    /// does not start a drag.
    NotDraggable,
}

/// How the row at `position` becomes a drag source, given the listener
/// found in it (if any) and whether the list requires one.
pub fn drag_source(found: Option<crate::reorder_marker::ReorderableListenerSpec>, require_drag_listener: bool, position: usize)
    -> (r: DragSource)
    ensures
        r == (match found {
            Some(spec) => if spec.enabled {
                DragSource::Listener { start_index: spec.index, delayed: spec.delayed }
            } else {
                DragSource::NotDraggable
            },
            None => if require_drag_listener {
                DragSource::NotDraggable
            } else {
                DragSource::WholeRow { start_index: position }
            },
        }),
{
    match found {
        Some(spec) => if spec.enabled {
            DragSource::Listener { start_index: spec.index, delayed: spec.delayed }
        } else {
            DragSource::NotDraggable
        },
        None => if require_drag_listener {
            DragSource::NotDraggable
        } else {
            DragSource::WholeRow { start_index: position }
        },
    }
}

} // verus!

verus! {

/// Where a size transition is heading.
#[derive(Clone, Copy, Debug, PartialEq, Eq, Structural)]
pub enum AnimationDirection {
    /// At rest.
    Idle,
    /// Growing toward full extent.
    Forward,
    /// Shrinking toward zero extent.
    Reverse,
}

/// A linear size transition: `value` is the progress in nanoseconds out of
/// `duration` (zero extent at 0, full extent at `duration`).
#[derive(Clone, Copy, Debug, PartialEq, Eq, Structural)]
pub struct ItemAnimation {
    pub value: u64,
    pub duration: u64,
    pub direction: AnimationDirection,
    pub from_value: u64,
    pub started: Instant,
}

/// The progress of an animation at `now`.
pub open spec fn animation_at(a: ItemAnimation, now: Instant) -> ItemAnimation {
    let elapsed: int = if now@ >= a.started@ { now@ - a.started@ } else { 0 };
    match a.direction {
        AnimationDirection::Idle => a,
        AnimationDirection::Forward => {
            let v: int = if a.from_value + elapsed >= a.duration { a.duration as int } else { a.from_value + elapsed };
            ItemAnimation {
                value: v as u64,
                direction: if v == a.duration { AnimationDirection::Idle } else { AnimationDirection::Forward },
                ..a
            }
        },
        AnimationDirection::Reverse => {
            let v: int = if a.from_value <= elapsed { 0 } else { a.from_value - elapsed };
            ItemAnimation {
                value: v as u64,
                direction: if v == 0 { AnimationDirection::Idle } else { AnimationDirection::Reverse },
                ..a
            }
        },
    }
}

impl ItemAnimation {
    /// The animation's constraint: progress within the duration.
    pub open spec fn wf(&self) -> bool {
        self.value <= self.duration && self.from_value <= self.duration
    }

    /// At rest at full extent.
    pub fn complete(duration: Duration, now: Instant) -> (r: Self)
        ensures
            r.wf(),
            r.value == duration@,
            r.duration == duration@,
            r.direction == AnimationDirection::Idle,
    {
        ItemAnimation {
            value: duration.as_nanos(),
            duration: duration.as_nanos(),
            direction: AnimationDirection::Idle,
            from_value: duration.as_nanos(),
            started: now,
        }
    }

    /// Starts growing from zero extent at `now`.
    pub fn growing(duration: Duration, now: Instant) -> (r: Self)
        ensures
            r.wf(),
            r.value == 0,
            r.duration == duration@,
            r.direction == AnimationDirection::Forward,
            r.from_value == 0,
            r.started == now,
    {
        ItemAnimation { value: 0, duration: duration.as_nanos(), direction: AnimationDirection::Forward, from_value: 0, started: now }
    }

    /// Starts shrinking from the current progress at `now`.
    pub fn reverse(self, now: Instant) -> (r: Self)
        requires
            self.wf(),
        ensures
            r.wf(),
            r == (ItemAnimation { direction: AnimationDirection::Reverse, from_value: self.value, started: now, ..self }),
    {
        ItemAnimation { direction: AnimationDirection::Reverse, from_value: self.value, started: now, ..self }
    }

    /// Advances to `now`; whether the progress or the direction changed.
    pub fn tick(self, now: Instant) -> (r: (Self, bool))
        requires
            self.wf(),
        ensures
            r.0.wf(),
            r.0 == animation_at(self, now),
            r.1 == (r.0.value != self.value || r.0.direction != self.direction),
            self.direction == AnimationDirection::Reverse ==> r.0.value <= self.from_value,
            self.direction == AnimationDirection::Reverse ==> r.0.value == (
                if now@ < self.started@ { self.from_value as int }
                else if self.from_value <= now@ - self.started@ { 0 }
                else { self.from_value - (now@ - self.started@) }),
            self.direction == AnimationDirection::Forward ==> self.from_value <= r.0.value <= self.duration,
            self.direction == AnimationDirection::Forward ==> r.0.value == (
                if now@ < self.started@ { self.from_value as int }
                else if self.from_value + (now@ - self.started@) >= self.duration { self.duration as int }
                else { self.from_value + (now@ - self.started@) }),
            self.direction == AnimationDirection::Idle ==> r.0 == self && !r.1,
            r.0.direction == AnimationDirection::Idle <==> (self.direction == AnimationDirection::Idle
                || self.direction == AnimationDirection::Forward && r.0.value == self.duration
                || self.direction == AnimationDirection::Reverse && r.0.value == 0),
    {
        let elapsed: u64 = if now.as_nanos() >= self.started.as_nanos() { now.as_nanos() - self.started.as_nanos() } else { 0 };
        match self.direction {
            AnimationDirection::Idle => (self, false),
            AnimationDirection::Forward => {
                let v: u64 = if elapsed >= self.duration - self.from_value { self.duration } else { self.from_value + elapsed };
                let direction = if v == self.duration { AnimationDirection::Idle } else { AnimationDirection::Forward };
                let next = ItemAnimation { value: v, direction, ..self };
                (next, v != self.value || direction != self.direction)
            },
            AnimationDirection::Reverse => {
                let v: u64 = if self.from_value <= elapsed { 0 } else { self.from_value - elapsed };
                let direction = if v == 0 { AnimationDirection::Idle } else { AnimationDirection::Reverse };
                let next = ItemAnimation { value: v, direction, ..self };
                (next, v != self.value || direction != self.direction)
            },
        }
    }

    /// Whether the transition is running.
    pub fn is_active(&self) -> (r: bool)
        ensures
            r == (self.direction != AnimationDirection::Idle),
    {
        !matches!(self.direction, AnimationDirection::Idle)
    }
}

/// One logical item of an animated list.
#[derive(Clone, Copy, Debug, PartialEq, Eq, Structural)]
pub struct AnimatedListEntry {
    pub id: u64,
    pub animation: ItemAnimation,
    pub removing: bool,
}

/// An animation growing from zero extent over `duration`, started at `now`.
pub open spec fn growth(duration: u64, now: Instant) -> ItemAnimation {
    ItemAnimation { value: 0, duration, direction: AnimationDirection::Forward, from_value: 0, started: now }
}

/// `a` turned to shrink from its current progress, starting at `now`.
pub open spec fn shrink(a: ItemAnimation, now: Instant) -> ItemAnimation {
    ItemAnimation { direction: AnimationDirection::Reverse, from_value: a.value, started: now, ..a }
}

/// Whether an entry has finished its removal and leaves the list.
pub open spec fn entry_finished(e: AnimatedListEntry) -> bool {
    e.removing && e.animation.direction == AnimationDirection::Idle && e.animation.value == 0
}

/// The entries advanced to `now`.
pub open spec fn ticked_entries(es: Seq<AnimatedListEntry>, now: Instant) -> Seq<AnimatedListEntry> {
    es.map_values(|e: AnimatedListEntry| AnimatedListEntry { animation: animation_at(e.animation, now), ..e })
}

/// The entries that have not finished their removal, in order.
pub open spec fn live_entries(es: Seq<AnimatedListEntry>) -> Seq<AnimatedListEntry>
    decreases es.len(),
{
    if es.len() == 0 {
        Seq::empty()
    } else if entry_finished(es.last()) {
        live_entries(es.drop_last())
    } else {
        live_entries(es.drop_last()).push(es.last())
    }
}

/// The value of an animated-list controller.
pub struct AnimatedListModel {
    pub entries: Seq<AnimatedListEntry>,
    pub next_id: u64,
    pub duration: Duration,
    pub revision: u64,
    pub structure_revision: u64,
}

/// Insertion and removal state of an animated list.
pub struct SliverAnimatedListController {
    entries: Vec<AnimatedListEntry>,
    next_id: u64,
    duration: Duration,
    revision: u64,
    structure_revision: u64,
}

impl View for SliverAnimatedListController {
    type V = AnimatedListModel;

    closed spec fn view(&self) -> AnimatedListModel {
        AnimatedListModel {
            entries: self.entries@,
            next_id: self.next_id,
            duration: self.duration,
            revision: self.revision,
            structure_revision: self.structure_revision,
        }
    }
}

/// Every entry's progress stays within the controller's duration.
pub open spec fn entries_wf(m: AnimatedListModel) -> bool {
    forall|i: int| 0 <= i < m.entries.len() ==> (#[trigger] m.entries[i]).animation.wf()
        && m.entries[i].animation.duration == m.duration@
}

/// `revision + 1`, wrapping, for 64-bit identities.
pub open spec fn bump_id(r: u64) -> u64 {
    if r == u64::MAX { 0 } else { (r + 1) as u64 }
}

impl SliverAnimatedListController {
    /// The controller's constraint.
    pub open spec fn wf(&self) -> bool {
        entries_wf(self@)
    }

    /// `item_count` items at full extent with the given transition length.
    pub fn with_duration(item_count: usize, duration: Duration) -> (r: Self)
        ensures
            r.wf(),
            r@.entries.len() == item_count,
            forall|i: int| 0 <= i < item_count ==> (#[trigger] r@.entries[i]).id == i
                && !r@.entries[i].removing
                && r@.entries[i].animation.value == duration@
                && r@.entries[i].animation.direction == AnimationDirection::Idle,
            r@.next_id == item_count,
            r@.duration == duration,
            r@.revision == 0,
            r@.structure_revision == 0,
    {
        let mut entries: Vec<AnimatedListEntry> = Vec::new();
        let mut i: usize = 0;
        while i < item_count
            invariant
                i <= item_count,
                entries.len() == i,
                forall|j: int| 0 <= j < i ==> (#[trigger] entries@[j]).id == j
                    && !entries@[j].removing
                    && entries@[j].animation.value == duration@
                    && entries@[j].animation.duration == duration@
                    && entries@[j].animation.wf()
                    && entries@[j].animation.direction == AnimationDirection::Idle,
            decreases item_count - i,
        {
            entries.push(AnimatedListEntry {
                id: i as u64,
                animation: ItemAnimation::complete(duration, Instant::from_nanos(0)),
                removing: false,
            });
            i += 1;
        }
        SliverAnimatedListController {
            entries,
            next_id: item_count as u64,
            duration,
            revision: 0,
            structure_revision: 0,
        }
    }

    /// `item_count` items with a 250 ms transition.
    pub fn new(item_count: usize) -> (r: Self)
        ensures
            r.wf(),
            r@.entries.len() == item_count,
            forall|i: int| 0 <= i < item_count ==> (#[trigger] r@.entries[i]).id == i
                && !r@.entries[i].removing
                && r@.entries[i].animation.value == r@.duration@
                && r@.entries[i].animation.direction == AnimationDirection::Idle,
            r@.next_id == item_count,
            r@.duration@ == 250_000_000,
            r@.revision == 0,
            r@.structure_revision == 0,
    {
        Self::with_duration(item_count, Duration::from_millis(250))
    }

    /// The number of entries (items being removed included).
    pub fn item_count(&self) -> (r: usize)
        ensures
            r == self@.entries.len(),
    {
        self.entries.len()
    }

    /// The transition length.
    pub fn duration(&self) -> (r: Duration)
        ensures
            r == self@.duration,
    {
        self.duration
    }

    /// The change counter.
    pub fn revision(&self) -> (r: u64)
        ensures
            r == self@.revision,
    {
        self.revision
    }

    /// The counter of insertions and removals only.
    pub fn structure_revision(&self) -> (r: u64)
        ensures
            r == self@.structure_revision,
    {
        self.structure_revision
    }

    /// The entries in order.
    pub fn snapshot(&self) -> (r: Vec<AnimatedListEntry>)
        ensures
            r@ == self@.entries,
    {
        let mut out: Vec<AnimatedListEntry> = Vec::new();
        let mut i: usize = 0;
        while i < self.entries.len()
            invariant
                i <= self.entries.len(),
                out@ == self.entries@.take(i as int),
            decreases self.entries.len() - i,
        {
            out.push(self.entries[i]);
            proof {
                assert(out@ =~= self.entries@.take(i as int + 1));
            }
            i += 1;
        }
        proof {
            assert(self.entries@.take(i as int) =~= self.entries@);
        }
        out
    }

    /// A copy with the same entries and counters.
    pub fn copy(&self) -> (r: Self)
        ensures
            r@ == self@,
    {
        SliverAnimatedListController {
            entries: self.snapshot(),
            next_id: self.next_id,
            duration: self.duration,
            revision: self.revision,
            structure_revision: self.structure_revision,
        }
    }

    /// Inserts a fresh item at `index` (clamped to the end) that grows from
    /// zero extent starting at `now`.
    pub fn insert_at(&mut self, index: usize, now: Instant) -> (r: bool)
        requires
            old(self).wf(),
        ensures
            r,
            final(self).wf(),
            ({
                let m = old(self)@;
                let at = if index <= m.entries.len() { index as int } else { m.entries.len() as int };
                final(self)@ == (AnimatedListModel {
                    entries: m.entries.insert(at, AnimatedListEntry {
                        id: m.next_id,
                        animation: ItemAnimation { value: 0, duration: m.duration@, direction: AnimationDirection::Forward, from_value: 0, started: now },
                        removing: false,
                    }),
                    next_id: bump_id(m.next_id),
                    revision: bump_id(m.revision),
                    structure_revision: bump_id(m.structure_revision),
                    ..m
                })
            }),
    {
        let id = self.next_id;
        self.next_id = self.next_id.wrapping_add(1);
        let at = if index <= self.entries.len() { index } else { self.entries.len() };
        let entry = AnimatedListEntry { id, animation: ItemAnimation::growing(self.duration, now), removing: false };
        let ghost before = self.entries@;
        self.entries.insert(at, entry);
        self.revision = self.revision.wrapping_add(1);
        self.structure_revision = self.structure_revision.wrapping_add(1);
        proof {
            assert forall|i: int| 0 <= i < self.entries@.len() implies (#[trigger] self.entries@[i]).animation.wf()
                && self.entries@[i].animation.duration == self.duration@ by {
                if i < at {
                    assert(self.entries@[i] == before[i]);
                } else if i > at {
                    assert(self.entries@[i] == before[i - 1]);
                }
            }
        }
        true
    }

    /// Starts shrinking the item at `index`; it stays until the shrink
    /// completes. Out of range or already removing: nothing changes.
    pub fn remove_at(&mut self, index: usize, now: Instant) -> (r: bool)
        requires
            old(self).wf(),
        ensures
            final(self).wf(),
            r == (index < old(self)@.entries.len() && !old(self)@.entries[index as int].removing),
            !r ==> final(self)@ == old(self)@,
            r ==> ({
                let m = old(self)@;
                let e = m.entries[index as int];
                final(self)@ == (AnimatedListModel {
                    entries: m.entries.update(index as int, AnimatedListEntry {
                        animation: ItemAnimation { direction: AnimationDirection::Reverse, from_value: e.animation.value, started: now, ..e.animation },
                        removing: true,
                        ..e
                    }),
                    revision: bump_id(m.revision),
                    structure_revision: bump_id(m.structure_revision),
                    ..m
                })
            }),
    {
        if index >= self.entries.len() {
            return false;
        }
        let entry = self.entries[index];
        if entry.removing {
            return false;
        }
        proof {
            assert(entry.animation.wf());
        }
        let updated = AnimatedListEntry { animation: entry.animation.reverse(now), removing: true, ..entry };
        self.entries.set(index, updated);
        self.revision = self.revision.wrapping_add(1);
        self.structure_revision = self.structure_revision.wrapping_add(1);
        proof {
            assert forall|i: int| 0 <= i < self.entries@.len() implies (#[trigger] self.entries@[i]).animation.wf()
                && self.entries@[i].animation.duration == self.duration@ by {
                if i != index {
                    assert(self.entries@[i] == old(self).entries@[i]);
                }
            }
        }
        true
    }

    /// Advances every transition to `now` and drops entries whose removal
    /// finished; whether anything changed.
    pub fn tick(&mut self, now: Instant) -> (changed: bool)
        requires
            old(self).wf(),
        ensures
            final(self).wf(),
            ({
                let m = old(self)@;
                let advanced = ticked_entries(m.entries, now);
                let kept = live_entries(advanced);
                let structure_changed = kept.len() != m.entries.len();
                &&& final(self)@.entries == kept
                &&& final(self)@.next_id == m.next_id
                &&& final(self)@.duration == m.duration
                &&& changed == (advanced != m.entries || structure_changed)
                &&& final(self)@.structure_revision == if structure_changed { bump_id(m.structure_revision) } else { m.structure_revision }
                &&& final(self)@.revision == if changed { bump_id(m.revision) } else { m.revision }
            }),
    {
        let ghost old_entries = self.entries@;
        let ghost advanced = ticked_entries(old_entries, now);
        let mut changed = false;
        let mut kept: Vec<AnimatedListEntry> = Vec::new();
        let mut i: usize = 0;
        while i < self.entries.len()
            invariant
                i <= self.entries.len(),
                self.entries@ == old_entries,
                old_entries == old(self).entries@,
                advanced == ticked_entries(old_entries, now),
                entries_wf(old(self)@),
                self.duration == old(self).duration,
                kept@ == live_entries(advanced.take(i as int)),
                changed == (exists|k: int| 0 <= k < i && #[trigger] advanced[k] != old_entries[k]),
                forall|j: int| 0 <= j < kept@.len() ==> (#[trigger] kept@[j]).animation.wf()
                    && kept@[j].animation.duration == self.duration@,
            decreases self.entries.len() - i,
        {
            let e = self.entries[i];
            proof {
                assert(e.animation.wf());
            }
            let (animation, moved) = e.animation.tick(now);
            let next = AnimatedListEntry { animation, ..e };
            proof {
                assert(advanced[i as int] == next);
                assert(advanced.take(i as int + 1).drop_last() =~= advanced.take(i as int));
                assert(advanced.take(i as int + 1).last() == next);
                assert(moved == (next != e));
                assert(old_entries[i as int] == e);
                if moved {
                    assert(advanced[i as int] != old_entries[i as int]);
                }
            }
            changed = changed || moved;
            let finished = next.removing && !next.animation.is_active() && next.animation.value == 0;
            if !finished {
                kept.push(next);
            }
            proof {
                assert(kept@ =~= live_entries(advanced.take(i as int + 1)));
            }
            i += 1;
        }
        proof {
            assert(advanced.take(i as int) =~= advanced);
            assert(advanced.len() == old_entries.len());
            if !changed {
                assert(advanced =~= old_entries);
            } else {
                let k = choose|k: int| 0 <= k < i && #[trigger] advanced[k] != old_entries[k];
                assert(advanced[k] != old_entries[k]);
            }
        }
        let structure_changed = kept.len() != self.entries.len();
        proof {
            assert(advanced.len() == old_entries.len());
        }
        self.entries = kept;
        if structure_changed {
            changed = true;
            self.structure_revision = self.structure_revision.wrapping_add(1);
        }
        if changed {
            self.revision = self.revision.wrapping_add(1);
        }
        changed
    }

    /// Inserts a fresh item at `index` (clamped to the end) that grows from
    /// zero extent starting now.
    pub fn insert(&mut self, index: usize) -> (r: bool)
        requires
            old(self).wf(),
        ensures
            r,
            final(self).wf(),
            exists|now: Instant| {
                let m = old(self)@;
                let at = if index <= m.entries.len() { index as int } else { m.entries.len() as int };
                final(self)@ == (AnimatedListModel {
                    entries: m.entries.insert(at, AnimatedListEntry {
                        id: m.next_id,
                        animation: #[trigger] growth(old(self)@.duration@, now),
                        removing: false,
                    }),
                    next_id: bump_id(m.next_id),
                    revision: bump_id(m.revision),
                    structure_revision: bump_id(m.structure_revision),
                    ..m
                })
            },
    {
        let now = crate::time::now();
        let r = self.insert_at(index, now);
        assert(growth(old(self)@.duration@, now) == ItemAnimation { value: 0, duration: old(self)@.duration@, direction: AnimationDirection::Forward, from_value: 0, started: now });
        r
    }

    /// Starts shrinking the item at `index` now; out of range or already
    /// removing: nothing changes.
    pub fn remove(&mut self, index: usize) -> (r: bool)
        requires
            old(self).wf(),
        ensures
            final(self).wf(),
            r == (index < old(self)@.entries.len() && !old(self)@.entries[index as int].removing),
            !r ==> final(self)@ == old(self)@,
            r ==> exists|now: Instant| {
                let m = old(self)@;
                let e = m.entries[index as int];
                final(self)@ == (AnimatedListModel {
                    entries: m.entries.update(index as int, AnimatedListEntry {
                        animation: #[trigger] shrink(old(self)@.entries[index as int].animation, now),
                        removing: true,
                        ..e
                    }),
                    revision: bump_id(m.revision),
                    structure_revision: bump_id(m.structure_revision),
                    ..m
                })
            },
    {
        let now = crate::time::now();
        let r = self.remove_at(index, now);
        if r {
            let ghost e = old(self)@.entries[index as int];
            assert(shrink(e.animation, now) == ItemAnimation { direction: AnimationDirection::Reverse, from_value: e.animation.value, started: now, ..e.animation });
        }
        r
    }

    /// Whether any transition is running.
    pub fn is_animating(&self) -> (r: bool)
        ensures
            r == exists|i: int| 0 <= i < self@.entries.len()
                && (#[trigger] self@.entries[i]).animation.direction != AnimationDirection::Idle,
    {
        let mut i: usize = 0;
        while i < self.entries.len()
            invariant
                i <= self.entries.len(),
                forall|j: int| 0 <= j < i ==> (#[trigger] self.entries@[j]).animation.direction == AnimationDirection::Idle,
            decreases self.entries.len() - i,
        {
            if self.entries[i].animation.is_active() {
                assert(self@.entries[i as int].animation.direction != AnimationDirection::Idle);
                return true;
            }
            i += 1;
        }
        false
    }
}

/// Shared handle to a caller-supplied builder of list items.
#[verifier::external_body]
pub struct ItemBuilder {
    inner: std::rc::Rc<dyn Fn(usize) -> Widget>,
}

/// Moves an item builder closure behind a shared handle (`Rc::new`).
#[verifier::external_body]
pub(crate) fn item_builder_from<F: Fn(usize) -> Widget + 'static>(f: F) -> ItemBuilder {
    ItemBuilder { inner: std::rc::Rc::new(f) }
}


/// Builds item `position` with the caller's builder; nothing is stated of
/// the widget it makes.
#[verifier::external_body]
fn run_item_builder(b: &ItemBuilder, position: usize) -> Widget {
    (b.inner)(position)
}

/// Animated list sliver with retained insertion and removal transitions.
pub struct SliverAnimatedList {
    builder: ItemBuilder,
    controller: SliverAnimatedListController,
    builds: Ghost<Seq<(usize, Widget)>>,
}

impl SliverAnimatedList {
    /// The item builds run so far, oldest first: the position the builder
    /// was given and the widget it made.
    pub closed spec fn builds_spec(&self) -> Seq<(usize, Widget)> {
        self.builds@
    }

    /// The transition state.
    pub closed spec fn controller_spec(&self) -> SliverAnimatedListController {
        self.controller
    }

    /// A list of `item_count` items built by `builder`.
    pub fn new(item_count: usize, builder: impl Fn(usize) -> Widget + 'static) -> (r: Self)
        ensures
            r.controller_spec().wf(),
            r.controller_spec()@.entries.len() == item_count,
            forall|i: int| 0 <= i < item_count ==> (#[trigger] r.controller_spec()@.entries[i]).id == i
                && !r.controller_spec()@.entries[i].removing
                && r.controller_spec()@.entries[i].animation.direction == AnimationDirection::Idle,
            r.controller_spec()@.next_id == item_count,
            r.controller_spec()@.duration@ == 250_000_000,
    {
        SliverAnimatedList {
            builder: item_builder_from(builder),
            controller: SliverAnimatedListController::new(item_count),
            builds: Ghost(Seq::empty()),
        }
    }

    /// Replaces the transition state.
    pub fn controller(self, controller: SliverAnimatedListController) -> (r: Self)
        ensures
            r.controller_spec() == controller,
    {
        SliverAnimatedList { controller, ..self }
    }

    /// The widget of the entry at `position`, built by the item builder
    /// from that position; none past the last entry.
    pub fn build_item(&mut self, position: usize) -> (r: Option<Widget>)
        ensures
            final(self).controller_spec() == old(self).controller_spec(),
            r is Some == (position < old(self).controller_spec()@.entries.len()),
            r matches Some(w) ==> final(self).builds_spec() == old(self).builds_spec().push((position, w)),
            r is None ==> final(self).builds_spec() == old(self).builds_spec(),
    {
        if position < self.controller.item_count() {
            let w = run_item_builder(&self.builder, position);
            proof {
                self.builds@ = self.builds@.push((position, w));
            }
            Some(w)
        } else {
            None
        }
    }

    /// A copy of the transition state.
    pub fn animation_controller(&self) -> (r: SliverAnimatedListController)
        ensures
            r@ == self.controller_spec()@,
    {
        self.controller.copy()
    }
}

} // verus!
