//! The raw tooltip state machine.
//!
//! The controller owns visibility, the hovering pointer devices, focus, an
//! explicit (manual) show and at most one pending timed transition. Timing is
//! driven by the host through the `_at` transitions and [`RawTooltipController::tick`];
//! nothing here reads a clock.
use vstd::prelude::*;
use std::collections::HashSet;
use crate::callback::{Callback, callback_from, run_callback};
use crate::time::{Instant, Duration, deadline_spec, deadline_instant};
use crate::widget::Widget;

verus! {

broadcast use vstd::std_specs::hash::group_hash_axioms;

/// How a raw tooltip is triggered. Mouse and trackpad hover act in every mode.
#[derive(Clone, Copy, Debug, Default, PartialEq, Eq, Hash, Structural)]
pub enum TooltipTriggerMode {
    /// Show from controller calls and pointer hover only.
    Manual,
    /// Show after a touch/pen tap.
    Tap,
    /// Show after a touch/pen long press.
    #[default]
    LongPress,
    /// Show while the supplied focus node is focused.
    Focus,
    /// Hover only (hover is active in every mode).
    Hover,
}

/// The kind of device behind a pointer event.
#[derive(Clone, Copy, Debug, PartialEq, Eq, Hash, Structural)]
pub enum PointerDeviceKind {
    Touch,
    Mouse,
    Stylus,
    InvertedStylus,
    Trackpad,
    Unknown,
}

/// Whether a pointer of `kind` acts as a touch trigger (anything but a mouse).
pub fn is_touch_trigger_kind(kind: PointerDeviceKind) -> (r: bool)
    ensures
        r == (kind != PointerDeviceKind::Mouse),
{
    !matches!(kind, PointerDeviceKind::Mouse)
}

/// Whether a pointer of `kind` triggers a tooltip in `mode`: a non-mouse
/// pointer in tap or long-press mode.
pub fn is_trigger_pointer(mode: TooltipTriggerMode, kind: PointerDeviceKind) -> (r: bool)
    ensures
        r == (kind != PointerDeviceKind::Mouse
            && (mode == TooltipTriggerMode::Tap || mode == TooltipTriggerMode::LongPress)),
{
    is_touch_trigger_kind(kind) && matches!(mode, TooltipTriggerMode::Tap | TooltipTriggerMode::LongPress)
}

/// Current logical visibility of a tooltip.
#[derive(Clone, Copy, Debug, Default, PartialEq, Eq, Structural)]
pub enum RawTooltipVisibility {
    #[default]
    Hidden,
    Waiting,
    Visible,
    Dismissing,
}

/// Delays used by the raw tooltip state machine. `show_duration` is the
/// touch/pen visibility window after a recognized tap or long press.
#[derive(Clone, Copy, Debug, PartialEq, Eq, Structural)]
pub struct RawTooltipDurations {
    pub wait_duration: Duration,
    pub show_duration: Duration,
    pub exit_duration: Duration,
}

impl RawTooltipDurations {
    /// The three delays.
    pub fn new(wait_duration: Duration, show_duration: Duration, exit_duration: Duration) -> (r: Self)
        ensures
            r.wait_duration == wait_duration,
            r.show_duration == show_duration,
            r.exit_duration == exit_duration,
    {
        RawTooltipDurations { wait_duration, show_duration, exit_duration }
    }

    /// The hover wait before showing.
    pub fn wait(self) -> (r: Duration)
        ensures
            r == self.wait_duration,
    {
        self.wait_duration
    }

    /// The touch visibility window.
    pub fn show(self) -> (r: Duration)
        ensures
            r == self.show_duration,
    {
        self.show_duration
    }

    /// The delay before hiding after hover or focus ends.
    pub fn exit(self) -> (r: Duration)
        ensures
            r == self.exit_duration,
    {
        self.exit_duration
    }
}

impl Default for RawTooltipDurations {
    /// No wait, a 1.5 s touch window and a 0.1 s exit delay.
    fn default() -> (r: Self)
        ensures
            r.wait_duration@ == 0,
            r.show_duration@ == 1_500_000_000,
            r.exit_duration@ == 100_000_000,
    {
        RawTooltipDurations {
            wait_duration: Duration::zero(),
            show_duration: Duration::from_millis(1_500),
            exit_duration: Duration::from_millis(100),
        }
    }
}

/// A scheduled transition.
#[derive(Clone, Copy, Debug, PartialEq, Eq, Structural)]
pub enum PendingTransition {
    /// Show once `at` is reached (if still wanted).
    Show { at: Instant },
    /// Hide once `at` is reached; `force` hides even while kept open.
    Hide { at: Instant, force: bool },
}

/// The value of a tooltip controller.
pub struct TooltipModel {
    pub visible: bool,
    pub hovering: Set<u64>,
    pub focused: bool,
    pub manual: bool,
    pub pending: Option<PendingTransition>,
    pub durations: RawTooltipDurations,
    pub revision: u64,
    pub on_triggered: Option<Callback>,
    /// The trigger callbacks run so far, oldest first.
    pub triggered: Seq<Callback>,
}

/// Records a run of the installed trigger callback, if there is one.
pub open spec fn note_trigger(m: TooltipModel) -> TooltipModel {
    match m.on_triggered {
        Some(c) => TooltipModel { triggered: m.triggered.push(c), ..m },
        None => m,
    }
}

/// The model's own constraint: finitely many hovering devices, a pending
/// show only while hidden and a pending hide only while visible.
pub open spec fn model_wf(m: TooltipModel) -> bool {
    &&& m.hovering.finite()
    &&& m.visible ==> !(m.pending matches Some(PendingTransition::Show { .. }))
    &&& !m.visible ==> !(m.pending matches Some(PendingTransition::Hide { .. }))
}

/// `revision + 1`, wrapping.
pub open spec fn next_revision(r: u64) -> u64 {
    if r == u64::MAX { 0 } else { (r + 1) as u64 }
}

/// Sets visibility; the revision advances exactly when visibility changes.
pub open spec fn with_visible(m: TooltipModel, visible: bool) -> TooltipModel {
    if m.visible == visible {
        m
    } else {
        TooltipModel { visible, revision: next_revision(m.revision), ..m }
    }
}

/// Whether something keeps the tooltip open: an explicit show, focus or a
/// hovering device.
pub open spec fn kept_open(m: TooltipModel) -> bool {
    m.manual || m.focused || !m.hovering.is_empty()
}

/// Schedules a show at `at`, keeping the earlier of two pending shows.
pub open spec fn schedule_show_spec(p: Option<PendingTransition>, at: Instant) -> Option<PendingTransition> {
    match p {
        Some(PendingTransition::Show { at: previous }) =>
            Some(PendingTransition::Show { at: if previous@ <= at@ { previous } else { at } }),
        _ => Some(PendingTransition::Show { at }),
    }
}

/// Schedules a hide at `at`, keeping the earlier deadline and either force.
pub open spec fn schedule_hide_spec(p: Option<PendingTransition>, at: Instant, force: bool) -> Option<PendingTransition> {
    match p {
        Some(PendingTransition::Hide { at: previous, force: previous_force }) =>
            Some(PendingTransition::Hide { at: if previous@ <= at@ { previous } else { at }, force: previous_force || force }),
        _ => Some(PendingTransition::Hide { at, force }),
    }
}


/// The visibility state reported for a model.
pub open spec fn visibility_of(m: TooltipModel) -> RawTooltipVisibility {
    if m.visible {
        if m.pending matches Some(PendingTransition::Hide { .. }) {
            RawTooltipVisibility::Dismissing
        } else {
            RawTooltipVisibility::Visible
        }
    } else if m.pending matches Some(PendingTransition::Show { .. }) {
        RawTooltipVisibility::Waiting
    } else {
        RawTooltipVisibility::Hidden
    }
}

/// An explicit persistent show; the trigger callback runs when the
/// tooltip was hidden.
pub open spec fn show_spec(m: TooltipModel) -> TooltipModel {
    let shown = with_visible(TooltipModel { pending: None, manual: true, ..m }, true);
    if m.visible { shown } else { note_trigger(shown) }
}

/// An immediate hide cancelling any pending transition and explicit show.
pub open spec fn hide_spec(m: TooltipModel) -> TooltipModel {
    with_visible(TooltipModel { pending: None, manual: false, ..m }, false)
}

/// A bounded programmatic show: visible now and, for a non-zero span, a
/// forced hide at `now + span`; a zero span is an unbounded explicit show.
/// The trigger callback runs when the tooltip was hidden.
pub open spec fn show_for_spec(m: TooltipModel, span: Duration, now: Instant) -> TooltipModel {
    let visible = with_visible(TooltipModel { manual: span@ == 0, pending: None, ..m }, true);
    let shown = if m.visible { visible } else { note_trigger(visible) };
    if span@ > 0 {
        TooltipModel { pending: Some(PendingTransition::Hide { at: deadline_instant(now, span), force: true }), ..shown }
    } else {
        shown
    }
}

/// A recognized touch or pen tap / long press: visible now and, unless hover
/// or focus keeps it open, a hide after the touch window. Every accepted
/// trigger runs the trigger callback, a retrigger too.
pub open spec fn trigger_touch_spec(m: TooltipModel, now: Instant) -> TooltipModel {
    let shown = note_trigger(with_visible(TooltipModel { manual: false, pending: None, ..m }, true));
    if m.hovering.is_empty() && !m.focused {
        TooltipModel {
            pending: Some(PendingTransition::Hide { at: deadline_instant(now, m.durations.show_duration), force: false }),
            ..shown
        }
    } else {
        shown
    }
}

/// A mouse or trackpad `device` entering the target.
pub open spec fn mouse_enter_spec(m: TooltipModel, device: u64, now: Instant) -> TooltipModel {
    let entered = TooltipModel { hovering: m.hovering.insert(device), ..m };
    if m.manual || m.focused {
        entered
    } else if m.visible {
        if m.pending matches Some(PendingTransition::Hide { .. }) {
            TooltipModel { pending: None, ..entered }
        } else {
            entered
        }
    } else if m.durations.wait_duration@ == 0 {
        with_visible(TooltipModel { pending: None, ..entered }, true)
    } else {
        TooltipModel { pending: schedule_show_spec(m.pending, deadline_instant(now, m.durations.wait_duration)), ..entered }
    }
}

/// A mouse or trackpad `device` leaving the target.
pub open spec fn mouse_exit_spec(m: TooltipModel, device: u64, now: Instant) -> TooltipModel {
    let left = TooltipModel { hovering: m.hovering.remove(device), ..m };
    if !m.hovering.contains(device) || m.manual || m.focused {
        left
    } else if !m.visible {
        if m.pending matches Some(PendingTransition::Show { .. }) {
            TooltipModel { pending: None, ..left }
        } else {
            left
        }
    } else if m.durations.exit_duration@ == 0 {
        with_visible(TooltipModel { pending: None, ..left }, false)
    } else {
        TooltipModel { pending: schedule_hide_spec(m.pending, deadline_instant(now, m.durations.exit_duration), false), ..left }
    }
}

/// The focus trigger following a focus node.
pub open spec fn focus_changed_spec(m: TooltipModel, focused: bool, now: Instant) -> TooltipModel {
    let updated = TooltipModel { focused, ..m };
    if focused {
        if m.manual {
            TooltipModel { pending: None, ..updated }
        } else {
            with_visible(TooltipModel { pending: None, ..updated }, true)
        }
    } else if m.manual || !m.hovering.is_empty() {
        updated
    } else if !m.visible {
        if m.pending matches Some(PendingTransition::Show { .. }) {
            TooltipModel { pending: None, ..updated }
        } else {
            updated
        }
    } else if m.durations.exit_duration@ == 0 {
        with_visible(TooltipModel { pending: None, ..updated }, false)
    } else {
        TooltipModel { pending: schedule_hide_spec(m.pending, deadline_instant(now, m.durations.exit_duration), false), ..updated }
    }
}

/// An unrecognized pointer down: forgets hover and hides.
pub open spec fn dismiss_by_pointer_spec(m: TooltipModel) -> TooltipModel {
    with_visible(TooltipModel { hovering: Set::empty(), pending: None, manual: false, ..m }, false)
}

/// A cancelled tap / long press: hides unless something keeps it open.
pub open spec fn cancel_trigger_spec(m: TooltipModel) -> TooltipModel {
    if kept_open(m) { m } else { hide_spec(m) }
}

/// A long-press release: schedules the touch window's hide when nothing
/// keeps the visible tooltip open.
pub open spec fn release_touch_spec(m: TooltipModel, now: Instant) -> TooltipModel {
    if m.hovering.is_empty() && !m.focused && !m.manual && m.visible {
        TooltipModel { pending: schedule_hide_spec(m.pending, deadline_instant(now, m.durations.show_duration), false), ..m }
    } else {
        m
    }
}

/// Applies the pending transition when its deadline has been reached.
pub open spec fn tick_spec(m: TooltipModel, now: Instant) -> TooltipModel {
    match m.pending {
        Some(PendingTransition::Show { at }) if now@ >= at@ => {
            let cleared = TooltipModel { pending: None, ..m };
            if kept_open(m) { with_visible(cleared, true) } else { cleared }
        },
        Some(PendingTransition::Hide { at, force }) if now@ >= at@ => {
            if force || !kept_open(m) {
                with_visible(TooltipModel { pending: None, manual: false, ..m }, false)
            } else {
                TooltipModel { pending: None, ..m }
            }
        },
        _ => m,
    }
}

/// Shared handle to a caller-supplied builder of the tooltip overlay.
#[verifier::external_body]
pub struct TooltipComponentBuilder {
    inner: std::rc::Rc<dyn Fn() -> Widget>,
}

/// Moves a builder closure behind a shared handle (`Rc::new`).
#[verifier::external_body]
fn builder_from<F: Fn() -> Widget + 'static>(f: F) -> TooltipComponentBuilder {
    TooltipComponentBuilder { inner: std::rc::Rc::new(f) }
}

/// Runs the builder closure; the widget is whatever it builds.
#[verifier::external_body]
fn run_builder(b: &TooltipComponentBuilder) -> Widget {
    (b.inner)()
}

impl TooltipComponentBuilder {
    /// Wraps a builder closure.
    pub fn new(builder: impl Fn() -> Widget + 'static) -> Self {
        builder_from(builder)
    }

    /// Builds the overlay widget.
    pub fn build(&self) -> Widget {
        run_builder(self)
    }

    /// Alias for [`Self::build`].
    pub fn call(&self) -> Widget {
        self.build()
    }
}

/// Shared imperative state of a raw tooltip.
pub struct RawTooltipController {
    visible: bool,
    hovering: HashSet<u64>,
    focused: bool,
    manual: bool,
    pending: Option<PendingTransition>,
    durations: RawTooltipDurations,
    on_triggered: Option<Callback>,
    revision: u64,
    triggered: Ghost<Seq<Callback>>,
}

impl View for RawTooltipController {
    type V = TooltipModel;

    closed spec fn view(&self) -> TooltipModel {
        TooltipModel {
            visible: self.visible,
            hovering: self.hovering@,
            focused: self.focused,
            manual: self.manual,
            pending: self.pending,
            durations: self.durations,
            revision: self.revision,
            on_triggered: self.on_triggered,
            triggered: self.triggered@,
        }
    }
}

impl RawTooltipController {
    /// Each hovering device is recorded once, and the model's own
    /// constraint holds.
    pub closed spec fn wf(&self) -> bool {
        &&& model_wf(self@)
    }

    /// A well-formed controller has a well-formed model.
    pub proof fn lemma_wf_model(&self)
        requires
            self.wf(),
        ensures
            model_wf(self@),
    {
    }

    /// A hidden tooltip with the default delays and no callback.
    pub fn new() -> (r: Self)
        ensures
            r.wf(),
            !r@.visible,
            r@.hovering == Set::<u64>::empty(),
            !r@.focused,
            !r@.manual,
            r@.pending is None,
            r@.durations.wait_duration@ == 0,
            r@.durations.show_duration@ == 1_500_000_000,
            r@.durations.exit_duration@ == 100_000_000,
            r@.revision == 0,
            r@.on_triggered is None,
            r@.triggered == Seq::<Callback>::empty(),
    {
        let r = RawTooltipController {
            visible: false,
            hovering: HashSet::new(),
            focused: false,
            manual: false,
            pending: None,
            durations: RawTooltipDurations::default(),
            on_triggered: None,
            revision: 0,
            triggered: Ghost(Seq::empty()),
        };
        proof {
            assert(r.hovering@ =~= Set::<u64>::empty());
        }
        r
    }

    /// A hidden tooltip with the given delays.
    pub fn with_durations(durations: RawTooltipDurations) -> (r: Self)
        ensures
            r.wf(),
            !r@.visible,
            r@.hovering == Set::<u64>::empty(),
            !r@.focused,
            !r@.manual,
            r@.pending is None,
            r@.durations == durations,
            r@.revision == 0,
            r@.on_triggered is None,
    {
        let mut r = Self::new();
        r.set_durations(durations);
        r
    }

    fn set_visible(&mut self, visible: bool) -> (changed: bool)
        ensures
            final(self)@ == with_visible(old(self)@, visible),
            final(self).hovering@ == old(self).hovering@,
            changed == (old(self)@.visible != visible),
    {
        if self.visible == visible {
            return false;
        }
        self.visible = visible;
        self.revision = self.revision.wrapping_add(1);
        true
    }

    /// Records, next to its call, a run of the installed trigger callback.
    fn note_trigger(&mut self)
        ensures
            final(self)@ == note_trigger(old(self)@),
            final(self).hovering@ == old(self).hovering@,
    {
        proof {
            if self.on_triggered is Some {
                self.triggered@ = self.triggered@.push(self.on_triggered->0);
            }
        }
    }

    /// The invalidation counter: it advances exactly when visibility changes.
    pub fn revision_cell(&self) -> (r: u64)
        ensures
            r == self@.revision,
    {
        self.revision
    }

    /// Shows immediately and keeps the tooltip open until an explicit hide,
    /// toggle or dismissal. Runs the trigger callback when visibility changed.
    /// Returns whether visibility changed.
    pub fn show_at(&mut self, now: Instant) -> (changed: bool)
        requires
            old(self).wf(),
        ensures
            final(self).wf(),
            final(self)@ == show_spec(old(self)@),
            changed == !old(self)@.visible,
            final(self)@.visible && final(self)@.manual && final(self)@.pending is None,
            changed == !old(self)@.visible,
            !old(self)@.visible && old(self)@.on_triggered is Some ==> final(self)@.triggered
                == old(self)@.triggered.push(old(self)@.on_triggered->0),
            old(self)@.visible ==> final(self)@.triggered == old(self)@.triggered,
    {
        self.pending = None;
        self.manual = true;
        let changed = self.set_visible(true);
        if changed {
            if let Some(c) = &self.on_triggered {
                run_callback(c);
            }
            self.note_trigger();
        }
        changed
    }

    /// Explicit persistent show.
    pub fn show(&mut self)
        requires
            old(self).wf(),
        ensures
            final(self).wf(),
            final(self)@ == show_spec(old(self)@),
    {
        let _ = self.show_at(Instant::from_nanos(0));
    }

    /// Shows if hidden; whether it was shown now.
    pub fn ensure_visible_at(&mut self, now: Instant) -> (r: bool)
        requires
            old(self).wf(),
        ensures
            final(self).wf(),
            old(self)@.visible ==> !r && final(self)@ == old(self)@,
            !old(self)@.visible ==> r && final(self)@ == show_spec(old(self)@),
    {
        if self.visible {
            return false;
        }
        self.show_at(now)
    }

    /// Shows if hidden; whether it was shown now.
    pub fn ensure_visible(&mut self) -> (r: bool)
        requires
            old(self).wf(),
        ensures
            final(self).wf(),
            old(self)@.visible ==> !r && final(self)@ == old(self)@,
            !old(self)@.visible ==> r && final(self)@ == show_spec(old(self)@),
    {
        self.ensure_visible_at(Instant::from_nanos(0))
    }

    /// Hides immediately and cancels any pending transition; whether
    /// visibility changed.
    pub fn hide_at(&mut self, now: Instant) -> (changed: bool)
        requires
            old(self).wf(),
        ensures
            final(self).wf(),
            final(self)@ == hide_spec(old(self)@),
            changed == old(self)@.visible,
            !final(self)@.visible && !final(self)@.manual && final(self)@.pending is None,
            changed == old(self)@.visible,
            final(self)@.triggered == old(self)@.triggered,
    {
        self.pending = None;
        self.manual = false;
        self.set_visible(false)
    }

    /// Hides immediately.
    pub fn hide_tooltip(&mut self)
        requires
            old(self).wf(),
        ensures
            final(self).wf(),
            final(self)@ == hide_spec(old(self)@),
    {
        let _ = self.hide_at(Instant::from_nanos(0));
    }

    /// Toggles between explicit persistent show and hide; whether visibility changed.
    pub fn toggle_at(&mut self, now: Instant) -> (changed: bool)
        requires
            old(self).wf(),
        ensures
            final(self).wf(),
            final(self)@ == if old(self)@.visible { hide_spec(old(self)@) } else { show_spec(old(self)@) },
            changed,
            final(self)@.visible == !old(self)@.visible,
            changed,
    {
        if self.visible {
            self.hide_at(now)
        } else {
            self.show_at(now)
        }
    }

    /// Toggles between explicit persistent show and hide.
    pub fn toggle(&mut self)
        requires
            old(self).wf(),
        ensures
            final(self).wf(),
            final(self)@ == if old(self)@.visible { hide_spec(old(self)@) } else { show_spec(old(self)@) },
    {
        let _ = self.toggle_at(Instant::from_nanos(0));
    }
}

} // verus!

verus! {

fn schedule_show(p: Option<PendingTransition>, at: Instant) -> (r: Option<PendingTransition>)
    ensures
        r == schedule_show_spec(p, at),
{
    match p {
        Some(PendingTransition::Show { at: previous }) => Some(PendingTransition::Show { at: previous.earlier(at) }),
        _ => Some(PendingTransition::Show { at }),
    }
}

fn schedule_hide(p: Option<PendingTransition>, at: Instant, force: bool) -> (r: Option<PendingTransition>)
    ensures
        r == schedule_hide_spec(p, at, force),
{
    match p {
        Some(PendingTransition::Hide { at: previous, force: previous_force }) =>
            Some(PendingTransition::Hide { at: previous.earlier(at), force: previous_force || force }),
        _ => Some(PendingTransition::Hide { at, force }),
    }
}

impl RawTooltipController {
    /// Shows for a bounded programmatic lifetime: a zero span is an
    /// unbounded explicit show, kept open like [`Self::show_at`].
    pub fn show_for(&mut self, duration: Duration, now: Instant)
        requires
            old(self).wf(),
        ensures
            final(self).wf(),
            final(self)@ == show_for_spec(old(self)@, duration, now),
            final(self)@.visible,
            duration@ > 0 ==> !final(self)@.manual && final(self)@.pending
                == Some(PendingTransition::Hide { at: deadline_instant(now, duration), force: true }),
            duration@ == 0 ==> final(self)@.manual && final(self)@.pending is None,
    {
        self.manual = duration.as_nanos() == 0;
        self.pending = None;
        let changed = self.set_visible(true);
        if changed {
            if let Some(c) = &self.on_triggered {
                run_callback(c);
            }
            self.note_trigger();
        }
        if duration.as_nanos() > 0 {
            self.pending = Some(PendingTransition::Hide { at: now.deadline(duration), force: true });
        }
    }

    fn trigger_touch_at(&mut self, now: Instant) -> (changed: bool)
        requires
            old(self).wf(),
        ensures
            final(self).wf(),
            final(self)@ == trigger_touch_spec(old(self)@, now),
            changed == !old(self)@.visible,
    {
        self.manual = false;
        self.pending = None;
        let changed = self.set_visible(true);
        if self.hovering.is_empty() && !self.focused {
            self.pending = Some(PendingTransition::Hide { at: now.deadline(self.durations.show_duration), force: false });
        }
        // Every accepted tap / long press runs the callback, even a retrigger.
        if let Some(c) = &self.on_triggered {
            run_callback(c);
        }
        self.note_trigger();
        changed
    }

    /// A recognized touch/pen tap; whether visibility changed.
    pub fn trigger_tap_at(&mut self, now: Instant) -> (changed: bool)
        requires
            old(self).wf(),
        ensures
            final(self).wf(),
            final(self)@ == trigger_touch_spec(old(self)@, now),
            changed == !old(self)@.visible,
            final(self)@.visible && !final(self)@.manual,
            old(self)@.hovering.is_empty() && !old(self)@.focused ==> final(self)@.pending
                == Some(PendingTransition::Hide { at: deadline_instant(now, old(self)@.durations.show_duration), force: false }),
            !(old(self)@.hovering.is_empty() && !old(self)@.focused) ==> final(self)@.pending is None,
            old(self)@.on_triggered matches Some(c) ==> final(self)@.triggered == old(self)@.triggered.push(c),
    {
        self.trigger_touch_at(now)
    }

    /// A recognized touch/pen long press; whether visibility changed.
    pub fn trigger_long_press_at(&mut self, now: Instant) -> (changed: bool)
        requires
            old(self).wf(),
        ensures
            final(self).wf(),
            final(self)@ == trigger_touch_spec(old(self)@, now),
            changed == !old(self)@.visible,
            final(self)@.visible && !final(self)@.manual,
            old(self)@.hovering.is_empty() && !old(self)@.focused ==> final(self)@.pending
                == Some(PendingTransition::Hide { at: deadline_instant(now, old(self)@.durations.show_duration), force: false }),
            !(old(self)@.hovering.is_empty() && !old(self)@.focused) ==> final(self)@.pending is None,
            old(self)@.on_triggered matches Some(c) ==> final(self)@.triggered == old(self)@.triggered.push(c),
    {
        self.trigger_touch_at(now)
    }

    fn hovering_is_empty(&self) -> (r: bool)
        ensures
            r == self@.hovering.is_empty(),
    {
        self.hovering.is_empty()
    }

    /// A mouse or trackpad device entering the target or overlay; whether
    /// visibility changed. The other presented tooltips are dismissed by
    /// [`TooltipRegistry::mouse_enter_at`].
    pub fn mouse_enter_at(&mut self, device: u64, now: Instant) -> (changed: bool)
        requires
            old(self).wf(),
        ensures
            final(self).wf(),
            final(self)@ == mouse_enter_spec(old(self)@, device, now),
            changed == (final(self)@.visible != old(self)@.visible),
            final(self)@.hovering == old(self)@.hovering.insert(device),
            !old(self)@.manual && !old(self)@.focused && !old(self)@.visible ==> {
                &&& old(self)@.durations.wait_duration@ == 0 ==> changed && final(self)@.visible
                    && final(self)@.pending is None
                &&& old(self)@.durations.wait_duration@ != 0 ==> !changed && (final(self)@.pending matches
                    Some(PendingTransition::Show { at })
                    && at@ <= deadline_instant(now, old(self)@.durations.wait_duration)@)
            },
            !old(self)@.manual && !old(self)@.focused && old(self)@.visible ==> final(self)@.visible
                && !(final(self)@.pending matches Some(PendingTransition::Hide { .. })),
    {
        self.hovering.insert(device);
        if self.manual || self.focused {
            false
        } else if self.visible {
            if matches!(self.pending, Some(PendingTransition::Hide { .. })) {
                self.pending = None;
            }
            false
        } else if self.durations.wait_duration.is_zero() {
            self.pending = None;
            self.set_visible(true)
        } else {
            let at = now.deadline(self.durations.wait_duration);
            self.pending = schedule_show(self.pending, at);
            false
        }
    }

    /// A mouse or trackpad device leaving the target or overlay; whether
    /// visibility changed.
    pub fn mouse_exit_at(&mut self, device: u64, now: Instant) -> (changed: bool)
        requires
            old(self).wf(),
        ensures
            final(self).wf(),
            final(self)@ == mouse_exit_spec(old(self)@, device, now),
            changed == (final(self)@.visible != old(self)@.visible),
            final(self)@.hovering == old(self)@.hovering.remove(device),
            old(self)@.hovering.contains(device) && old(self)@.visible && !old(self)@.manual
                && !old(self)@.focused ==> {
                &&& old(self)@.durations.exit_duration@ == 0 ==> changed && !final(self)@.visible
                    && final(self)@.pending is None
                &&& old(self)@.durations.exit_duration@ != 0 ==> !changed && (final(self)@.pending matches
                    Some(PendingTransition::Hide { at, .. })
                    && at@ <= deadline_instant(now, old(self)@.durations.exit_duration)@)
            },
    {
        let removed = self.hovering.remove(&device);
        if !removed || self.manual || self.focused {
            false
        } else if !self.visible {
            if matches!(self.pending, Some(PendingTransition::Show { .. })) {
                self.pending = None;
            }
            false
        } else if self.durations.exit_duration.is_zero() {
            self.pending = None;
            self.set_visible(false)
        } else {
            let at = now.deadline(self.durations.exit_duration);
            self.pending = schedule_hide(self.pending, at, false);
            false
        }
    }

    /// Follows a focus node for the focus trigger; whether visibility changed.
    pub fn focus_changed_at(&mut self, focused: bool, now: Instant) -> (changed: bool)
        requires
            old(self).wf(),
        ensures
            final(self).wf(),
            final(self)@ == focus_changed_spec(old(self)@, focused, now),
            changed == (final(self)@.visible != old(self)@.visible),
            final(self)@.focused == focused,
            focused && !old(self)@.manual ==> final(self)@.visible && final(self)@.pending is None,
            !focused && old(self)@.visible && !old(self)@.manual && old(self)@.hovering.is_empty() ==> {
                &&& old(self)@.durations.exit_duration@ == 0 ==> changed && !final(self)@.visible
                &&& old(self)@.durations.exit_duration@ != 0 ==> !changed && (final(self)@.pending matches
                    Some(PendingTransition::Hide { at, .. })
                    && at@ <= deadline_instant(now, old(self)@.durations.exit_duration)@)
            },
    {
        let hovering_empty = self.hovering_is_empty();
        self.focused = focused;
        if focused {
            self.pending = None;
            if self.manual {
                false
            } else {
                self.set_visible(true)
            }
        } else if self.manual || !hovering_empty {
            false
        } else if !self.visible {
            if matches!(self.pending, Some(PendingTransition::Show { .. })) {
                self.pending = None;
            }
            false
        } else if self.durations.exit_duration.is_zero() {
            self.pending = None;
            self.set_visible(false)
        } else {
            let at = now.deadline(self.durations.exit_duration);
            self.pending = schedule_hide(self.pending, at, false);
            false
        }
    }

    /// Dismisses on an unrecognized pointer down: forgets hover and hides;
    /// whether visibility changed.
    pub fn dismiss_by_pointer_at(&mut self, now: Instant) -> (changed: bool)
        requires
            old(self).wf(),
        ensures
            final(self).wf(),
            final(self)@ == dismiss_by_pointer_spec(old(self)@),
            changed == old(self)@.visible,
            !final(self)@.visible && final(self)@.hovering.is_empty() && !final(self)@.manual
                && final(self)@.pending is None,
    {
        self.hovering.clear();
        self.pending = None;
        self.manual = false;
        proof {
        }
        self.set_visible(false)
    }

    /// Dismisses on an unrecognized pointer down.
    pub fn dismiss_by_pointer(&mut self)
        requires
            old(self).wf(),
        ensures
            final(self).wf(),
            final(self)@ == dismiss_by_pointer_spec(old(self)@),
    {
        let _ = self.dismiss_by_pointer_at(Instant::from_nanos(0));
    }

    /// Whether an explicit show, focus or a hovering device keeps the tooltip open.
    pub fn is_kept_open(&self) -> (r: bool)
        requires
            self.wf(),
        ensures
            r == kept_open(self@),
    {
        self.manual || self.focused || !self.hovering_is_empty()
    }

    /// Cancels an in-progress tap / long press; whether visibility changed.
    pub fn cancel_trigger_at(&mut self, now: Instant) -> (changed: bool)
        requires
            old(self).wf(),
        ensures
            final(self).wf(),
            final(self)@ == cancel_trigger_spec(old(self)@),
            changed == (final(self)@.visible != old(self)@.visible),
            !kept_open(old(self)@) ==> !final(self)@.visible && final(self)@.pending is None,
            kept_open(old(self)@) ==> final(self)@ == old(self)@,
    {
        if self.is_kept_open() {
            return false;
        }
        self.hide_at(now)
    }

    /// Cancels an in-progress tap / long press.
    pub fn cancel_trigger(&mut self)
        requires
            old(self).wf(),
        ensures
            final(self).wf(),
            final(self)@ == cancel_trigger_spec(old(self)@),
    {
        let _ = self.cancel_trigger_at(Instant::from_nanos(0));
    }

    /// Schedules the touch window's hide after a long press is released.
    pub fn release_touch_at(&mut self, now: Instant)
        requires
            old(self).wf(),
        ensures
            final(self).wf(),
            final(self)@ == release_touch_spec(old(self)@, now),
            final(self)@.visible == old(self)@.visible,
            old(self)@.visible && !kept_open(old(self)@) ==> (final(self)@.pending matches
                Some(PendingTransition::Hide { at, .. })
                && at@ <= deadline_instant(now, old(self)@.durations.show_duration)@),
            !(old(self)@.visible && !kept_open(old(self)@)) ==> final(self)@ == old(self)@,
    {
        if self.hovering_is_empty() && !self.focused && !self.manual && self.visible {
            let at = now.deadline(self.durations.show_duration);
            self.pending = schedule_hide(self.pending, at, false);
        }
    }

    /// Applies the scheduled transition if its deadline is reached; whether
    /// visibility changed.
    pub fn tick(&mut self, now: Instant) -> (changed: bool)
        requires
            old(self).wf(),
        ensures
            final(self).wf(),
            final(self)@ == tick_spec(old(self)@, now),
            changed == (final(self)@.visible != old(self)@.visible),
            old(self)@.pending is None ==> final(self)@ == old(self)@,
            old(self)@.pending matches Some(PendingTransition::Show { at }) ==> {
                &&& now@ < at@ ==> final(self)@ == old(self)@
                &&& now@ >= at@ ==> final(self)@.pending is None
                    && final(self)@.visible == (old(self)@.visible || kept_open(old(self)@))
            },
            old(self)@.pending matches Some(PendingTransition::Hide { at, force }) ==> {
                &&& now@ < at@ ==> final(self)@ == old(self)@
                &&& now@ >= at@ ==> final(self)@.pending is None
                    && final(self)@.visible == (old(self)@.visible && !force && kept_open(old(self)@))
            },
    {
        let kept = self.is_kept_open();
        match self.pending {
            Some(PendingTransition::Show { at }) => {
                if now.is_at_or_after(at) {
                    self.pending = None;
                    if kept {
                        self.set_visible(true)
                    } else {
                        false
                    }
                } else {
                    false
                }
            },
            Some(PendingTransition::Hide { at, force }) => {
                if now.is_at_or_after(at) {
                    if force || !kept {
                        self.pending = None;
                        self.manual = false;
                        self.set_visible(false)
                    } else {
                        self.pending = None;
                        false
                    }
                } else {
                    false
                }
            },
            None => false,
        }
    }

    /// The reported visibility state.
    pub fn state(&self) -> (r: RawTooltipVisibility)
        ensures
            r == visibility_of(self@),
            self@.visible ==> (r == RawTooltipVisibility::Visible || r == RawTooltipVisibility::Dismissing),
            !self@.visible ==> (r == RawTooltipVisibility::Hidden || r == RawTooltipVisibility::Waiting),
            r == RawTooltipVisibility::Dismissing <==> self@.visible && (self@.pending matches Some(PendingTransition::Hide { .. })),
            r == RawTooltipVisibility::Waiting <==> !self@.visible && (self@.pending matches Some(PendingTransition::Show { .. })),
    {
        if self.visible {
            if matches!(self.pending, Some(PendingTransition::Hide { .. })) {
                RawTooltipVisibility::Dismissing
            } else {
                RawTooltipVisibility::Visible
            }
        } else if matches!(self.pending, Some(PendingTransition::Show { .. })) {
            RawTooltipVisibility::Waiting
        } else {
            RawTooltipVisibility::Hidden
        }
    }

    /// Whether the tooltip is visible.
    pub fn is_visible(&self) -> (r: bool)
        ensures
            r == self@.visible,
    {
        self.visible
    }

    /// Whether a show is scheduled.
    pub fn is_waiting(&self) -> (r: bool)
        ensures
            r == (visibility_of(self@) == RawTooltipVisibility::Waiting),
    {
        matches!(self.state(), RawTooltipVisibility::Waiting)
    }

    /// Whether a hide is scheduled on the visible tooltip.
    pub fn is_dismissing(&self) -> (r: bool)
        ensures
            r == (visibility_of(self@) == RawTooltipVisibility::Dismissing),
    {
        matches!(self.state(), RawTooltipVisibility::Dismissing)
    }

    /// The deadline of the pending transition, if any.
    pub fn pending_deadline(&self) -> (r: Option<Instant>)
        ensures
            r == match self@.pending {
                Some(PendingTransition::Show { at }) => Some(at),
                Some(PendingTransition::Hide { at, .. }) => Some(at),
                None => None,
            },
    {
        match self.pending {
            Some(PendingTransition::Show { at }) => Some(at),
            Some(PendingTransition::Hide { at, .. }) => Some(at),
            None => None,
        }
    }

    /// The number of hovering devices.
    pub fn hovering_devices(&self) -> (r: usize)
        requires
            self.wf(),
        ensures
            r == self@.hovering.len(),
    {
        self.hovering.len()
    }

    /// Whether the focus trigger is focused.
    pub fn has_focus(&self) -> (r: bool)
        ensures
            r == self@.focused,
    {
        self.focused
    }

    /// Replaces the delays.
    pub fn set_durations(&mut self, durations: RawTooltipDurations)
        requires
            old(self).wf(),
        ensures
            final(self).wf(),
            final(self)@ == (TooltipModel { durations, ..old(self)@ }),
    {
        self.durations = durations;
    }

    /// The delays.
    pub fn durations(&self) -> (r: RawTooltipDurations)
        ensures
            r == self@.durations,
    {
        self.durations
    }

    /// Installs the callback run by programmatic and touch triggers.
    pub fn set_on_triggered(&mut self, callback: impl Fn() + 'static)
        requires
            old(self).wf(),
        ensures
            final(self).wf(),
            final(self)@.on_triggered is Some,
            final(self)@ == (TooltipModel { on_triggered: final(self)@.on_triggered, ..old(self)@ }),
    {
        self.on_triggered = Some(callback_from(callback));
    }

    /// Removes the trigger callback.
    pub fn clear_on_triggered(&mut self)
        requires
            old(self).wf(),
        ensures
            final(self).wf(),
            final(self)@ == (TooltipModel { on_triggered: None, ..old(self)@ }),
    {
        self.on_triggered = None;
    }

    /// Hides every given tooltip (those a host has presented); whether any
    /// visibility changed. Every tooltip is hidden, not only the first.
    pub fn dismiss_all_at(controllers: &mut Vec<RawTooltipController>, now: Instant) -> (changed: bool)
        requires
            forall|i: int| 0 <= i < old(controllers).len() ==> #[trigger] old(controllers)@[i].wf(),
        ensures
            final(controllers).len() == old(controllers).len(),
            forall|i: int| 0 <= i < final(controllers).len() ==> final(controllers)@[i].wf()
                && #[trigger] final(controllers)@[i]@ == hide_spec(old(controllers)@[i]@),
            changed == exists|i: int| 0 <= i < old(controllers).len() && #[trigger] old(controllers)@[i]@.visible,
    {
        let ghost before = controllers@;
        let mut changed = false;
        let mut i: usize = 0;
        while i < controllers.len()
            invariant
                i <= controllers.len(),
                controllers.len() == before.len(),
                forall|j: int| i <= j < controllers.len() ==> #[trigger] controllers@[j] == before[j],
                forall|j: int| 0 <= j < before.len() ==> #[trigger] before[j].wf(),
                before == old(controllers)@,
                forall|j: int| 0 <= j < i ==> controllers@[j].wf() && #[trigger] controllers@[j]@ == hide_spec(before[j]@),
                changed == exists|j: int| 0 <= j < i && #[trigger] before[j]@.visible,
            decreases controllers.len() - i,
        {
            let mut c = controllers.remove(i);
            let hid = c.hide_at(now);
            controllers.insert(i, c);
            proof {
                if hid {
                    assert(before[i as int]@.visible);
                }
                if changed {
                    let j = choose|j: int| 0 <= j < i && #[trigger] before[j]@.visible;
                    assert(0 <= j < i + 1 && before[j]@.visible);
                }
            }
            changed = changed || hid;
            i += 1;
        }
        changed
    }

    /// Alias for [`Self::dismiss_all_at`].
    pub fn dismiss_all(controllers: &mut Vec<RawTooltipController>) -> (changed: bool)
        requires
            forall|i: int| 0 <= i < old(controllers).len() ==> #[trigger] old(controllers)@[i].wf(),
        ensures
            final(controllers).len() == old(controllers).len(),
            forall|i: int| 0 <= i < final(controllers).len() ==> final(controllers)@[i].wf()
                && #[trigger] final(controllers)@[i]@ == hide_spec(old(controllers)@[i]@),
            changed == exists|i: int| 0 <= i < old(controllers).len() && #[trigger] old(controllers)@[i]@.visible,
    {
        Self::dismiss_all_at(controllers, Instant::from_nanos(0))
    }

    /// Alias for [`Self::dismiss_all`].
    pub fn dismiss_all_tooltips(controllers: &mut Vec<RawTooltipController>) -> (changed: bool)
        requires
            forall|i: int| 0 <= i < old(controllers).len() ==> #[trigger] old(controllers)@[i].wf(),
        ensures
            final(controllers).len() == old(controllers).len(),
            forall|i: int| 0 <= i < final(controllers).len() ==> final(controllers)@[i].wf()
                && #[trigger] final(controllers)@[i]@ == hide_spec(old(controllers)@[i]@),
            changed == exists|i: int| 0 <= i < old(controllers).len() && #[trigger] old(controllers)@[i]@.visible,
    {
        Self::dismiss_all(controllers)
    }
}

impl RawTooltipController {
    /// A recognized tap, at the current time.
    pub fn trigger_tap(&mut self)
        requires
            old(self).wf(),
        ensures
            final(self).wf(),
            exists|now: Instant| final(self)@ == #[trigger] trigger_touch_spec(old(self)@, now),
    {
        let now = crate::time::now();
        let _ = self.trigger_tap_at(now);
    }

    /// A recognized long press, at the current time.
    pub fn trigger_long_press(&mut self)
        requires
            old(self).wf(),
        ensures
            final(self).wf(),
            exists|now: Instant| final(self)@ == #[trigger] trigger_touch_spec(old(self)@, now),
    {
        let now = crate::time::now();
        let _ = self.trigger_long_press_at(now);
    }

    /// A mouse device entered the trigger, at the current time.
    pub fn mouse_enter(&mut self, device: u64)
        requires
            old(self).wf(),
        ensures
            final(self).wf(),
            exists|now: Instant| final(self)@ == #[trigger] mouse_enter_spec(old(self)@, device, now),
    {
        let now = crate::time::now();
        let _ = self.mouse_enter_at(device, now);
    }

    /// A mouse device left the trigger, at the current time.
    pub fn mouse_exit(&mut self, device: u64)
        requires
            old(self).wf(),
        ensures
            final(self).wf(),
            exists|now: Instant| final(self)@ == #[trigger] mouse_exit_spec(old(self)@, device, now),
    {
        let now = crate::time::now();
        let _ = self.mouse_exit_at(device, now);
    }

    /// The trigger gained or lost focus, at the current time.
    pub fn focus_changed(&mut self, focused: bool)
        requires
            old(self).wf(),
        ensures
            final(self).wf(),
            exists|now: Instant| final(self)@ == #[trigger] focus_changed_spec(old(self)@, focused, now),
    {
        let now = crate::time::now();
        let _ = self.focus_changed_at(focused, now);
    }

    /// Runs a due transition at the current time; whether visibility changed.
    pub fn poll(&mut self) -> (changed: bool)
        requires
            old(self).wf(),
        ensures
            final(self).wf(),
            exists|now: Instant| final(self)@ == #[trigger] tick_spec(old(self)@, now),
            changed == (final(self)@.visible != old(self)@.visible),
    {
        let now = crate::time::now();
        self.tick(now)
    }
}

/// The configuration of a raw tooltip descriptor.
pub struct RawTooltipView {
    pub message: Option<Seq<char>>,
    /// The plain text of a rich message.
    pub rich_message: Option<Seq<char>>,
    pub has_builder: bool,
    pub trigger_mode: TooltipTriggerMode,
    pub enabled: bool,
    pub durations: RawTooltipDurations,
    pub enable_tap_to_dismiss: bool,
    pub ignore_pointer: bool,
    pub enable_feedback: bool,
    pub has_on_triggered: bool,
    pub semantics_tooltip: Option<Seq<char>>,
    pub semantics_explicit: bool,
    pub exclude_from_semantics: bool,
    pub prefer_below: bool,
}

/// The text of an optional string.
pub open spec fn opt_chars(o: Option<String>) -> Option<Seq<char>> {
    match o {
        Some(s) => Some(s@),
        None => None,
    }
}

/// Whether the tooltip has something to show: a builder, a non-empty
/// message or a rich message with non-empty text.
pub open spec fn has_overlay_content_spec(v: RawTooltipView) -> bool {
    v.has_builder || (v.message matches Some(m) && m.len() > 0) || (v.rich_message matches Some(m) && m.len() > 0)
}

/// The accessibility value: none when excluded; else the explicit
/// semantics text when one was set, else the message, else the rich
/// message's text; an empty text counts as none.
pub open spec fn semantic_value_spec(v: RawTooltipView) -> Option<Seq<char>> {
    if v.exclude_from_semantics {
        None
    } else {
        let value = if v.semantics_explicit {
            v.semantics_tooltip
        } else if v.message is Some {
            v.message
        } else {
            v.rich_message
        };
        match value {
            Some(t) => if t.len() > 0 { Some(t) } else { None },
            None => None,
        }
    }
}

/// A tooltip around a child, shown by its controller.
pub struct RawTooltip {
    child: Widget,
    message: Option<String>,
    rich_message: Option<String>,
    tooltip_builder: Option<TooltipComponentBuilder>,
    controller: RawTooltipController,
    trigger_mode: TooltipTriggerMode,
    enabled: bool,
    durations: RawTooltipDurations,
    enable_tap_to_dismiss: bool,
    ignore_pointer: bool,
    enable_feedback: bool,
    on_triggered: Option<Callback>,
    semantics_tooltip: Option<String>,
    semantics_explicit: bool,
    exclude_from_semantics: bool,
    prefer_below: bool,
}

impl View for RawTooltip {
    type V = RawTooltipView;

    closed spec fn view(&self) -> RawTooltipView {
        RawTooltipView {
            message: opt_chars(self.message),
            rich_message: opt_chars(self.rich_message),
            has_builder: self.tooltip_builder is Some,
            trigger_mode: self.trigger_mode,
            enabled: self.enabled,
            durations: self.durations,
            enable_tap_to_dismiss: self.enable_tap_to_dismiss,
            ignore_pointer: self.ignore_pointer,
            enable_feedback: self.enable_feedback,
            has_on_triggered: self.on_triggered is Some,
            semantics_tooltip: opt_chars(self.semantics_tooltip),
            semantics_explicit: self.semantics_explicit,
            exclude_from_semantics: self.exclude_from_semantics,
            prefer_below: self.prefer_below,
        }
    }
}

fn copy_opt_chars(o: &Option<String>) -> (r: Option<String>)
    ensures
        opt_chars(r) == opt_chars(*o),
{
    match o {
        Some(s) => Some(crate::text::owned(s.as_str())),
        None => None,
    }
}

impl RawTooltip {
    /// The wrapped child.
    pub closed spec fn child_spec(&self) -> Widget {
        self.child
    }

    /// The controller.
    pub closed spec fn controller_spec(&self) -> RawTooltipController {
        self.controller
    }

    /// A text tooltip around `child` with the default configuration: long
    /// press trigger, enabled, default durations, tap to dismiss, feedback,
    /// placed below. An empty message shows nothing.
    pub fn new(message: &str, child: Widget) -> (r: Self)
        ensures
            r@ == (RawTooltipView {
                message: Some(message@),
                rich_message: None,
                has_builder: false,
                trigger_mode: TooltipTriggerMode::LongPress,
                enabled: true,
                durations: r@.durations,
                enable_tap_to_dismiss: true,
                ignore_pointer: false,
                enable_feedback: true,
                has_on_triggered: false,
                semantics_tooltip: None,
                semantics_explicit: false,
                exclude_from_semantics: false,
                prefer_below: true,
            }),
            r@.durations.wait_duration@ == 0,
            r@.durations.show_duration@ == 1_500_000_000,
            r@.durations.exit_duration@ == 100_000_000,
            r.child_spec() == child,
            r.controller_spec().wf(),
            !r.controller_spec()@.visible,
            r.controller_spec()@.revision == 0,
    {
        RawTooltip {
            child,
            message: Some(crate::text::owned(message)),
            rich_message: None,
            tooltip_builder: None,
            controller: RawTooltipController::new(),
            trigger_mode: TooltipTriggerMode::LongPress,
            enabled: true,
            durations: RawTooltipDurations::default(),
            enable_tap_to_dismiss: true,
            ignore_pointer: false,
            enable_feedback: true,
            on_triggered: None,
            semantics_tooltip: None,
            semantics_explicit: false,
            exclude_from_semantics: false,
            prefer_below: true,
        }
    }

    /// A tooltip with an empty message: it shows nothing.
    pub fn empty(child: Widget) -> (r: Self)
        ensures
            r@.message == Some(Seq::<char>::empty()),
            r@.rich_message is None,
            !r@.has_builder,
            !has_overlay_content_spec(r@),
            r.child_spec() == child,
            r.controller_spec().wf(),
    {
        let r = Self::new("", child);
        proof {
            reveal_strlit("");
        }
        r
    }

    /// A tooltip showing a rich message (given by its text).
    pub fn with_rich_message(rich_message: &str, child: Widget) -> (r: Self)
        ensures
            r@.message == Some(Seq::<char>::empty()),
            r@.rich_message == Some(rich_message@),
            !r@.has_builder,
            r.child_spec() == child,
            r.controller_spec().wf(),
    {
        let mut t = Self::empty(child);
        t.rich_message = Some(crate::text::owned(rich_message));
        t
    }

    /// The same as [`Self::with_rich_message`].
    pub fn from_rich_message(rich_message: &str, child: Widget) -> (r: Self)
        ensures
            r@.message == Some(Seq::<char>::empty()),
            r@.rich_message == Some(rich_message@),
            !r@.has_builder,
            r.child_spec() == child,
            r.controller_spec().wf(),
    {
        Self::with_rich_message(rich_message, child)
    }

    /// A tooltip whose overlay is built by `builder`.
    pub fn with_builder(child: Widget, builder: impl Fn() -> Widget + 'static) -> (r: Self)
        ensures
            r@.message == Some(Seq::<char>::empty()),
            r@.rich_message is None,
            r@.has_builder,
            r.child_spec() == child,
            r.controller_spec().wf(),
    {
        let mut t = Self::empty(child);
        t.tooltip_builder = Some(TooltipComponentBuilder::new(builder));
        t
    }

    /// The builder-first spelling of [`Self::with_builder`].
    pub fn with_tooltip_builder(builder: impl Fn() -> Widget + 'static, child: Widget) -> (r: Self)
        ensures
            r@.message == Some(Seq::<char>::empty()),
            r@.rich_message is None,
            r@.has_builder,
            r.child_spec() == child,
            r.controller_spec().wf(),
    {
        Self::with_builder(child, builder)
    }

    /// Replaces the child.
    pub fn child(self, child: Widget) -> (r: Self)
        ensures
            r@ == self@,
            r.child_spec() == child,
            r.controller_spec() == self.controller_spec(),
    {
        RawTooltip { child, ..self }
    }

    /// Shows `message`, dropping any rich message or builder.
    pub fn set_message(self, message: &str) -> (r: Self)
        ensures
            r@ == (RawTooltipView { message: Some(message@), rich_message: None, has_builder: false, ..self@ }),
            r.child_spec() == self.child_spec(),
            r.controller_spec() == self.controller_spec(),
    {
        RawTooltip { message: Some(crate::text::owned(message)), rich_message: None, tooltip_builder: None, ..self }
    }

    /// Removes every kind of content.
    pub fn clear_message(self) -> (r: Self)
        ensures
            r@ == (RawTooltipView { message: None, rich_message: None, has_builder: false, ..self@ }),
            r.child_spec() == self.child_spec(),
            r.controller_spec() == self.controller_spec(),
    {
        RawTooltip { message: None, rich_message: None, tooltip_builder: None, ..self }
    }

    /// Shows a rich message (given by its text), dropping any message or builder.
    pub fn set_rich_message(self, rich_message: &str) -> (r: Self)
        ensures
            r@ == (RawTooltipView { message: None, rich_message: Some(rich_message@), has_builder: false, ..self@ }),
            r.child_spec() == self.child_spec(),
            r.controller_spec() == self.controller_spec(),
    {
        RawTooltip { message: None, rich_message: Some(crate::text::owned(rich_message)), tooltip_builder: None, ..self }
    }

    /// Builds the overlay with `builder`, dropping any message.
    pub fn set_tooltip_builder(self, builder: impl Fn() -> Widget + 'static) -> (r: Self)
        ensures
            r@ == (RawTooltipView { message: None, rich_message: None, has_builder: true, ..self@ }),
            r.child_spec() == self.child_spec(),
            r.controller_spec() == self.controller_spec(),
    {
        RawTooltip { message: None, rich_message: None, tooltip_builder: Some(TooltipComponentBuilder::new(builder)), ..self }
    }

    /// The same as [`Self::set_tooltip_builder`].
    pub fn content(self, builder: impl Fn() -> Widget + 'static) -> (r: Self)
        ensures
            r@ == (RawTooltipView { message: None, rich_message: None, has_builder: true, ..self@ }),
            r.child_spec() == self.child_spec(),
            r.controller_spec() == self.controller_spec(),
    {
        self.set_tooltip_builder(builder)
    }

    /// The text message.
    pub fn message(&self) -> (r: Option<&str>)
        ensures
            match r {
                Some(m) => self@.message == Some(m@),
                None => self@.message is None,
            },
    {
        match &self.message {
            Some(m) => Some(m.as_str()),
            None => None,
        }
    }

    /// The rich message's text.
    pub fn rich_message(&self) -> (r: Option<&str>)
        ensures
            match r {
                Some(m) => self@.rich_message == Some(m@),
                None => self@.rich_message is None,
            },
    {
        match &self.rich_message {
            Some(m) => Some(m.as_str()),
            None => None,
        }
    }

    /// The overlay builder.
    pub fn tooltip_builder(&self) -> (r: Option<&TooltipComponentBuilder>)
        ensures
            r is Some == self@.has_builder,
    {
        match &self.tooltip_builder {
            Some(b) => Some(b),
            None => None,
        }
    }

    /// Replaces the controller.
    pub fn controller(self, controller: RawTooltipController) -> (r: Self)
        ensures
            r@ == self@,
            r.child_spec() == self.child_spec(),
            r.controller_spec() == controller,
    {
        RawTooltip { controller, ..self }
    }

    /// The controller.
    pub fn controller_ref(&self) -> (r: &RawTooltipController)
        ensures
            *r == self.controller_spec(),
    {
        &self.controller
    }

    /// Sets the trigger mode.
    pub fn trigger_mode(self, mode: TooltipTriggerMode) -> (r: Self)
        ensures
            r@ == (RawTooltipView { trigger_mode: mode, ..self@ }),
            r.child_spec() == self.child_spec(),
            r.controller_spec() == self.controller_spec(),
    {
        RawTooltip { trigger_mode: mode, ..self }
    }

    /// The trigger mode.
    pub fn trigger_mode_value(&self) -> (r: TooltipTriggerMode)
        ensures
            r == self@.trigger_mode,
    {
        self.trigger_mode
    }

    /// Enables or disables the tooltip.
    pub fn enabled(self, enabled: bool) -> (r: Self)
        ensures
            r@ == (RawTooltipView { enabled, ..self@ }),
            r.child_spec() == self.child_spec(),
            r.controller_spec() == self.controller_spec(),
    {
        RawTooltip { enabled, ..self }
    }

    /// Whether the tooltip is enabled.
    pub fn is_enabled(&self) -> (r: bool)
        ensures
            r == self@.enabled,
    {
        self.enabled
    }

    /// Replaces the delays.
    pub fn durations(self, durations: RawTooltipDurations) -> (r: Self)
        ensures
            r@ == (RawTooltipView { durations, ..self@ }),
            r.child_spec() == self.child_spec(),
            r.controller_spec() == self.controller_spec(),
    {
        RawTooltip { durations, ..self }
    }

    /// Sets the hover delay.
    pub fn wait_duration(self, duration: Duration) -> (r: Self)
        ensures
            r@ == (RawTooltipView { durations: RawTooltipDurations { wait_duration: duration, ..self@.durations }, ..self@ }),
            r.child_spec() == self.child_spec(),
            r.controller_spec() == self.controller_spec(),
    {
        let durations = RawTooltipDurations { wait_duration: duration, ..self.durations };
        RawTooltip { durations, ..self }
    }

    /// Sets the touch window.
    pub fn show_duration(self, duration: Duration) -> (r: Self)
        ensures
            r@ == (RawTooltipView { durations: RawTooltipDurations { show_duration: duration, ..self@.durations }, ..self@ }),
            r.child_spec() == self.child_spec(),
            r.controller_spec() == self.controller_spec(),
    {
        let durations = RawTooltipDurations { show_duration: duration, ..self.durations };
        RawTooltip { durations, ..self }
    }

    /// Sets the exit delay.
    pub fn exit_duration(self, duration: Duration) -> (r: Self)
        ensures
            r@ == (RawTooltipView { durations: RawTooltipDurations { exit_duration: duration, ..self@.durations }, ..self@ }),
            r.child_spec() == self.child_spec(),
            r.controller_spec() == self.controller_spec(),
    {
        let durations = RawTooltipDurations { exit_duration: duration, ..self.durations };
        RawTooltip { durations, ..self }
    }

    /// The same as [`Self::wait_duration`].
    pub fn hover_delay(self, duration: Duration) -> (r: Self)
        ensures
            r@ == (RawTooltipView { durations: RawTooltipDurations { wait_duration: duration, ..self@.durations }, ..self@ }),
            r.child_spec() == self.child_spec(),
            r.controller_spec() == self.controller_spec(),
    {
        self.wait_duration(duration)
    }

    /// The same as [`Self::show_duration`].
    pub fn touch_delay(self, duration: Duration) -> (r: Self)
        ensures
            r@ == (RawTooltipView { durations: RawTooltipDurations { show_duration: duration, ..self@.durations }, ..self@ }),
            r.child_spec() == self.child_spec(),
            r.controller_spec() == self.controller_spec(),
    {
        self.show_duration(duration)
    }

    /// The same as [`Self::exit_duration`].
    pub fn dismiss_delay(self, duration: Duration) -> (r: Self)
        ensures
            r@ == (RawTooltipView { durations: RawTooltipDurations { exit_duration: duration, ..self@.durations }, ..self@ }),
            r.child_spec() == self.child_spec(),
            r.controller_spec() == self.controller_spec(),
    {
        self.exit_duration(duration)
    }

    /// The delays.
    pub fn durations_value(&self) -> (r: RawTooltipDurations)
        ensures
            r == self@.durations,
    {
        self.durations
    }

    /// The hover delay.
    pub fn wait_duration_value(&self) -> (r: Duration)
        ensures
            r == self@.durations.wait_duration,
    {
        self.durations.wait_duration
    }

    /// The touch window.
    pub fn show_duration_value(&self) -> (r: Duration)
        ensures
            r == self@.durations.show_duration,
    {
        self.durations.show_duration
    }

    /// The exit delay.
    pub fn exit_duration_value(&self) -> (r: Duration)
        ensures
            r == self@.durations.exit_duration,
    {
        self.durations.exit_duration
    }

    /// Sets whether an unrelated pointer down dismisses the tooltip.
    pub fn enable_tap_to_dismiss(self, enabled: bool) -> (r: Self)
        ensures
            r@ == (RawTooltipView { enable_tap_to_dismiss: enabled, ..self@ }),
            r.child_spec() == self.child_spec(),
            r.controller_spec() == self.controller_spec(),
    {
        RawTooltip { enable_tap_to_dismiss: enabled, ..self }
    }

    /// The same as [`Self::enable_tap_to_dismiss`].
    pub fn dismissible(self, enabled: bool) -> (r: Self)
        ensures
            r@ == (RawTooltipView { enable_tap_to_dismiss: enabled, ..self@ }),
            r.child_spec() == self.child_spec(),
            r.controller_spec() == self.controller_spec(),
    {
        self.enable_tap_to_dismiss(enabled)
    }

    /// Whether an unrelated pointer down dismisses the tooltip.
    pub fn is_tap_to_dismiss_enabled(&self) -> (r: bool)
        ensures
            r == self@.enable_tap_to_dismiss,
    {
        self.enable_tap_to_dismiss
    }

    /// Sets whether the overlay lets pointer events through.
    pub fn ignore_pointer(self, ignore: bool) -> (r: Self)
        ensures
            r@ == (RawTooltipView { ignore_pointer: ignore, ..self@ }),
            r.child_spec() == self.child_spec(),
            r.controller_spec() == self.controller_spec(),
    {
        RawTooltip { ignore_pointer: ignore, ..self }
    }

    /// Whether the overlay lets pointer events through.
    pub fn ignores_pointer(&self) -> (r: bool)
        ensures
            r == self@.ignore_pointer,
    {
        self.ignore_pointer
    }

    /// Sets whether showing gives platform feedback.
    pub fn enable_feedback(self, enabled: bool) -> (r: Self)
        ensures
            r@ == (RawTooltipView { enable_feedback: enabled, ..self@ }),
            r.child_spec() == self.child_spec(),
            r.controller_spec() == self.controller_spec(),
    {
        RawTooltip { enable_feedback: enabled, ..self }
    }

    /// Whether showing gives platform feedback.
    pub fn feedback_enabled(&self) -> (r: bool)
        ensures
            r == self@.enable_feedback,
    {
        self.enable_feedback
    }

    /// Sets the callback run when the tooltip is triggered.
    pub fn on_triggered(self, callback: impl Fn() + 'static) -> (r: Self)
        ensures
            r@ == (RawTooltipView { has_on_triggered: true, ..self@ }),
            r.child_spec() == self.child_spec(),
            r.controller_spec() == self.controller_spec(),
    {
        RawTooltip { on_triggered: Some(callback_from(callback)), ..self }
    }

    /// Sets an explicit accessibility text.
    pub fn semantics_tooltip(self, tooltip: &str) -> (r: Self)
        ensures
            r@ == (RawTooltipView { semantics_tooltip: Some(tooltip@), semantics_explicit: true, ..self@ }),
            r.child_spec() == self.child_spec(),
            r.controller_spec() == self.controller_spec(),
    {
        RawTooltip { semantics_tooltip: Some(crate::text::owned(tooltip)), semantics_explicit: true, ..self }
    }

    /// Explicitly sets no accessibility text.
    pub fn clear_semantics_tooltip(self) -> (r: Self)
        ensures
            r@ == (RawTooltipView { semantics_tooltip: None, semantics_explicit: true, ..self@ }),
            r.child_spec() == self.child_spec(),
            r.controller_spec() == self.controller_spec(),
    {
        RawTooltip { semantics_tooltip: None, semantics_explicit: true, ..self }
    }

    /// Sets whether the tooltip is left out of accessibility.
    pub fn exclude_from_semantics(self, exclude: bool) -> (r: Self)
        ensures
            r@ == (RawTooltipView { exclude_from_semantics: exclude, ..self@ }),
            r.child_spec() == self.child_spec(),
            r.controller_spec() == self.controller_spec(),
    {
        RawTooltip { exclude_from_semantics: exclude, ..self }
    }

    /// Leaves the tooltip out of accessibility.
    pub fn without_semantics(self) -> (r: Self)
        ensures
            r@ == (RawTooltipView { exclude_from_semantics: true, ..self@ }),
            r.child_spec() == self.child_spec(),
            r.controller_spec() == self.controller_spec(),
    {
        self.exclude_from_semantics(true)
    }

    /// Sets whether the overlay is placed below the child.
    pub fn prefer_below(self, prefer_below: bool) -> (r: Self)
        ensures
            r@ == (RawTooltipView { prefer_below, ..self@ }),
            r.child_spec() == self.child_spec(),
            r.controller_spec() == self.controller_spec(),
    {
        RawTooltip { prefer_below, ..self }
    }

    /// Whether the tooltip has something to show.
    pub fn has_overlay_content(&self) -> (r: bool)
        ensures
            r == has_overlay_content_spec(self@),
    {
        self.tooltip_builder.is_some()
            || (match &self.message { Some(m) => !m.as_str().is_empty(), None => false })
            || (match &self.rich_message { Some(m) => !m.as_str().is_empty(), None => false })
    }

    /// The accessibility value of the tooltip.
    pub fn semantic_value(&self) -> (r: Option<String>)
        ensures
            opt_chars(r) == semantic_value_spec(self@),
    {
        if self.exclude_from_semantics {
            return None;
        }
        let value = if self.semantics_explicit {
            copy_opt_chars(&self.semantics_tooltip)
        } else if self.message.is_some() {
            copy_opt_chars(&self.message)
        } else {
            copy_opt_chars(&self.rich_message)
        };
        match value {
            Some(t) => if !t.as_str().is_empty() { Some(t) } else { None },
            None => None,
        }
    }

    /// Whether the tooltip is active: enabled with something to show.
    pub fn is_active(&self) -> (r: bool)
        ensures
            r == (self@.enabled && has_overlay_content_spec(self@)),
    {
        self.enabled && self.has_overlay_content()
    }

    /// The layers a build wraps around the child, from the inside out; none
    /// for an inactive tooltip, which builds to its bare child.
    pub fn tooltip_layers(&self) -> (r: Option<TooltipLayers>)
        ensures
            r is None <==> !(self@.enabled && has_overlay_content_spec(self@)),
            r matches Some(l) ==> layers_match(self@, l),
            r matches Some(l) ==> opt_chars(l.semantics) == semantic_value_spec(self@),
    {
        if !self.is_active() {
            return None;
        }
        let touch = matches!(self.trigger_mode, TooltipTriggerMode::Tap | TooltipTriggerMode::LongPress);
        let pointer_listener = if touch || self.enable_tap_to_dismiss {
            Some(PointerListenerLayer { dismiss_on_other_pointer: self.enable_tap_to_dismiss })
        } else {
            None
        };
        let gesture = match self.trigger_mode {
            TooltipTriggerMode::Tap => Some(GestureLayer {
                trigger: TouchTrigger::Tap,
                cancel_dismisses: self.enable_tap_to_dismiss,
            }),
            TooltipTriggerMode::LongPress => Some(GestureLayer {
                trigger: TouchTrigger::LongPress,
                cancel_dismisses: self.enable_tap_to_dismiss,
            }),
            _ => None,
        };
        Some(TooltipLayers {
            hover: true,
            pointer_listener,
            gesture,
            focus_detector: self.trigger_mode == TooltipTriggerMode::Focus,
            semantics: self.semantic_value(),
            tap_outside_dismisses: self.enable_tap_to_dismiss,
            popup_hover: true,
            popup_ignores_pointer: self.ignore_pointer,
            placement: if self.prefer_below { TooltipPlacement::Below } else { TooltipPlacement::Above },
        })
    }

    /// Brings the controller up to date before a build: it takes the
    /// configured durations, and a focus-triggered tooltip follows whether
    /// its focus node `has_focus`.
    pub fn sync_controller(&mut self, has_focus: bool, now: Instant)
        requires
            old(self).controller_spec().wf(),
        ensures
            final(self)@ == old(self)@,
            final(self).child_spec() == old(self).child_spec(),
            final(self).controller_spec().wf(),
            old(self)@.trigger_mode != TooltipTriggerMode::Focus ==> final(self).controller_spec()@
                == (TooltipModel { durations: old(self)@.durations, ..old(self).controller_spec()@ }),
            old(self)@.trigger_mode == TooltipTriggerMode::Focus ==> final(self).controller_spec()@
                == focus_changed_spec(TooltipModel { durations: old(self)@.durations, ..old(self).controller_spec()@ }, has_focus, now),
    {
        self.controller.set_durations(self.durations);
        if self.trigger_mode == TooltipTriggerMode::Focus {
            let _ = self.controller.focus_changed_at(has_focus, now);
        }
    }
}

/// The touch gesture that triggers a tooltip.
#[derive(Clone, Copy, Debug, PartialEq, Eq, Structural)]
pub enum TouchTrigger {
    /// A touch or pen tap shows it.
    Tap,
    /// A touch or pen long press shows it; releasing starts the touch window.
    LongPress,
}

/// Where the popup stands relative to the child.
#[derive(Clone, Copy, Debug, PartialEq, Eq, Structural)]
pub enum TooltipPlacement {
    /// Below the child: the child's bottom center meets the popup's top center.
    Below,
    /// Above the child: the child's top center meets the popup's bottom center.
    Above,
}

/// The opaque pointer listener over the child.
#[derive(Clone, Copy, Debug, PartialEq, Eq, Structural)]
pub struct PointerListenerLayer {
    /// A pointer down that is not a trigger pointer dismisses the tooltip.
    pub dismiss_on_other_pointer: bool,
}

/// The touch gesture detector over the child.
#[derive(Clone, Copy, Debug, PartialEq, Eq, Structural)]
pub struct GestureLayer {
    pub trigger: TouchTrigger,
    /// A cancelled gesture cancels the trigger.
    pub cancel_dismisses: bool,
}

/// What a raw tooltip's build wraps around its child and its popup.
pub struct TooltipLayers {
    /// Hover enters and exits reach the controller (every trigger mode).
    pub hover: bool,
    pub pointer_listener: Option<PointerListenerLayer>,
    pub gesture: Option<GestureLayer>,
    /// A focus detector drives the controller's focus trigger.
    pub focus_detector: bool,
    /// The tooltip's accessibility value, when it has one.
    pub semantics: Option<String>,
    /// A tap outside the child dismisses the tooltip.
    pub tap_outside_dismisses: bool,
    /// Hover over the popup keeps the tooltip open.
    pub popup_hover: bool,
    pub popup_ignores_pointer: bool,
    pub placement: TooltipPlacement,
}

/// The layers a tooltip configured as `v` builds: hover always; a pointer
/// listener for a touch trigger mode or tap-to-dismiss; a tap or long-press
/// detector for those modes; a focus detector for the focus mode; a
/// tap-outside region for tap-to-dismiss; the popup below or above as
/// preferred.
pub open spec fn layers_match(v: RawTooltipView, l: TooltipLayers) -> bool {
    let touch = v.trigger_mode == TooltipTriggerMode::Tap || v.trigger_mode == TooltipTriggerMode::LongPress;
    &&& l.hover
    &&& l.popup_hover
    &&& l.pointer_listener is Some <==> (touch || v.enable_tap_to_dismiss)
    &&& l.pointer_listener matches Some(p) ==> p.dismiss_on_other_pointer == v.enable_tap_to_dismiss
    &&& l.gesture is Some <==> touch
    &&& l.gesture matches Some(g) ==> {
        &&& (g.trigger == TouchTrigger::Tap) == (v.trigger_mode == TooltipTriggerMode::Tap)
        &&& g.cancel_dismisses == v.enable_tap_to_dismiss
    }
    &&& l.focus_detector == (v.trigger_mode == TooltipTriggerMode::Focus)
    &&& l.tap_outside_dismisses == v.enable_tap_to_dismiss
    &&& l.popup_ignores_pointer == v.ignore_pointer
    &&& l.placement == (if v.prefer_below { TooltipPlacement::Below } else { TooltipPlacement::Above })
}

} // verus!

verus! {

/// The tooltips of one thread that "dismiss all" reaches: each controller
/// with whether it has presented its tooltip (become visible) since it was
/// registered.
pub struct TooltipRegistry {
    entries: Vec<RawTooltipController>,
    presented: Vec<bool>,
}

impl TooltipRegistry {
    /// The registered controllers' models, in registration order.
    pub closed spec fn models(&self) -> Seq<TooltipModel> {
        self.entries@.map_values(|c: RawTooltipController| c@)
    }

    /// Which registered tooltips have been presented.
    pub closed spec fn presented_spec(&self) -> Seq<bool> {
        self.presented@
    }

    /// Every controller is well formed, and each has a presented flag.
    pub closed spec fn wf(&self) -> bool {
        &&& self.entries@.len() == self.presented@.len()
        &&& forall|i: int| 0 <= i < self.entries@.len() ==> #[trigger] self.entries@[i].wf()
    }

    /// Each registered model is well formed.
    pub proof fn lemma_models_wf(&self)
        requires
            self.wf(),
        ensures
            forall|i: int| 0 <= i < self.models().len() ==> model_wf(#[trigger] self.models()[i]),
    {
        assert forall|i: int| 0 <= i < self.models().len() implies model_wf(#[trigger] self.models()[i]) by {
            assert(self.entries@[i].wf());
        }
    }

    /// No tooltip.
    pub fn new() -> (r: Self)
        ensures
            r.wf(),
            r.models() == Seq::<TooltipModel>::empty(),
            r.presented_spec() == Seq::<bool>::empty(),
    {
        let r = TooltipRegistry { entries: Vec::new(), presented: Vec::new() };
        assert(r.models() =~= Seq::<TooltipModel>::empty());
        r
    }

    /// The number of registered tooltips.
    pub fn len(&self) -> (r: usize)
        requires
            self.wf(),
        ensures
            r == self.models().len(),
    {
        self.entries.len()
    }

    /// Registers `controller`; its index. A visible tooltip counts as
    /// presented.
    pub fn register(&mut self, controller: RawTooltipController) -> (i: usize)
        requires
            old(self).wf(),
            controller.wf(),
        ensures
            final(self).wf(),
            i == old(self).models().len(),
            final(self).models() == old(self).models().push(controller@),
            final(self).presented_spec() == old(self).presented_spec().push(controller@.visible),
    {
        let visible = controller.is_visible();
        let ghost m = controller@;
        self.entries.push(controller);
        self.presented.push(visible);
        assert(self.models() =~= old(self).models().push(m));
        self.entries.len() - 1
    }

    /// The controller at `i`.
    pub fn get(&self, i: usize) -> (r: &RawTooltipController)
        requires
            self.wf(),
            i < self.models().len(),
        ensures
            r@ == self.models()[i as int],
            r.wf(),
    {
        &self.entries[i]
    }

    /// Marks `i` presented when it is visible.
    fn note_presented(&mut self, i: usize)
        requires
            i < old(self).entries@.len(),
            old(self).entries@.len() == old(self).presented@.len(),
        ensures
            final(self).entries == old(self).entries,
            final(self).presented@ == old(self).presented@.update(i as int,
                old(self).presented@[i as int] || old(self).entries@[i as int]@.visible),
    {
        if self.entries[i].is_visible() {
            self.presented.set(i, true);
        } else {
            let p = self.presented[i];
            self.presented.set(i, p);
        }
    }

    /// A mouse or trackpad device entering tooltip `i`: every other
    /// presented tooltip that nothing keeps open is hidden first, then `i`
    /// takes the hover (and counts as presented once visible). Whether `i`
    /// changed visibility.
    pub fn mouse_enter_at(&mut self, i: usize, device: u64, now: Instant) -> (changed: bool)
        requires
            old(self).wf(),
            i < old(self).models().len(),
        ensures
            final(self).wf(),
            final(self).models().len() == old(self).models().len(),
            final(self).models()[i as int] == mouse_enter_spec(old(self).models()[i as int], device, now),
            forall|j: int| 0 <= j < old(self).models().len() && j != i ==> #[trigger] final(self).models()[j] == (
                if old(self).presented_spec()[j] && !kept_open(old(self).models()[j]) {
                    hide_spec(old(self).models()[j])
                } else {
                    old(self).models()[j]
                }),
            final(self).presented_spec() == old(self).presented_spec().update(i as int,
                old(self).presented_spec()[i as int] || final(self).models()[i as int].visible),
            changed == (final(self).models()[i as int].visible != old(self).models()[i as int].visible),
            forall|j: int| 0 <= j < old(self).models().len() && j != i && old(self).presented_spec()[j]
                && !kept_open(old(self).models()[j]) ==> !(#[trigger] final(self).models()[j]).visible
                && final(self).models()[j].pending is None,
            final(self).models()[i as int].hovering.contains(device),
    {
        let ghost before = self.entries@;
        let n = self.entries.len();
        let mut j: usize = 0;
        while j < n
            invariant
                n == before.len(),
                self.entries@.len() == n,
                self.presented@ == old(self).presented@,
                self.presented@.len() == n,
                before == old(self).entries@,
                i < n,
                j <= n,
                forall|k: int| 0 <= k < n ==> #[trigger] before[k].wf(),
                forall|k: int| 0 <= k < n ==> #[trigger] self.entries@[k].wf(),
                forall|k: int| j <= k < n ==> #[trigger] self.entries@[k] == before[k],
                self.entries@[i as int] == before[i as int],
                forall|k: int| 0 <= k < j && k != i ==> #[trigger] self.entries@[k]@ == (
                    if old(self).presented@[k] && !kept_open(before[k]@) { hide_spec(before[k]@) } else { before[k]@ }),
            decreases n - j,
        {
            if j != i && self.presented[j] {
                let mut c = self.entries.remove(j);
                if !c.is_kept_open() {
                    let _ = c.hide_at(now);
                }
                self.entries.insert(j, c);
            }
            j += 1;
        }
        let mut c = self.entries.remove(i);
        let changed = c.mouse_enter_at(device, now);
        self.entries.insert(i, c);
        self.note_presented(i);
        proof {
            assert forall|k: int| 0 <= k < n && k != i implies #[trigger] self.models()[k] == (
                if old(self).presented_spec()[k] && !kept_open(old(self).models()[k]) {
                    hide_spec(old(self).models()[k])
                } else {
                    old(self).models()[k]
                }) by {
                assert(old(self).models()[k] == before[k]@);
            }
            assert(old(self).models()[i as int] == before[i as int]@);
        }
        changed
    }

    /// An explicit show of tooltip `i`; it counts as presented once visible. Whether it changed
    /// visibility.
    pub fn show_at(&mut self, i: usize, now: Instant) -> (changed: bool)
        requires
            old(self).wf(),
            i < old(self).models().len(),
        ensures
            final(self).wf(),
            final(self).models() == old(self).models().update(i as int, show_spec(old(self).models()[i as int])),
            final(self).presented_spec() == old(self).presented_spec().update(i as int,
                old(self).presented_spec()[i as int] || final(self).models()[i as int].visible),
            changed == !old(self).models()[i as int].visible,
            final(self).models()[i as int].visible && final(self).models()[i as int].manual,
            final(self).presented_spec()[i as int],
    {
        let ghost before = self.entries@;
        let mut c = self.entries.remove(i);
        let changed = c.show_at(now);
        self.entries.insert(i, c);
        self.note_presented(i);
        proof {
            assert(self.entries@ =~= before.update(i as int, self.entries@[i as int]));
            assert(self.models() =~= old(self).models().update(i as int, show_spec(old(self).models()[i as int])));
        }
        changed
    }

    /// A bounded show of tooltip `i`; it counts as presented once visible.
    pub fn show_for(&mut self, i: usize, duration: Duration, now: Instant)
        requires
            old(self).wf(),
            i < old(self).models().len(),
        ensures
            final(self).wf(),
            final(self).models() == old(self).models().update(i as int, show_for_spec(old(self).models()[i as int], duration, now)),
            final(self).presented_spec() == old(self).presented_spec().update(i as int,
                old(self).presented_spec()[i as int] || final(self).models()[i as int].visible),
    {
        let ghost before = self.entries@;
        let mut c = self.entries.remove(i);
        c.show_for(duration, now);
        self.entries.insert(i, c);
        self.note_presented(i);
        proof {
            assert(self.entries@ =~= before.update(i as int, self.entries@[i as int]));
            assert(self.models() =~= old(self).models().update(i as int, show_for_spec(old(self).models()[i as int], duration, now)));
        }
    }

    /// A recognized tap on tooltip `i`; it counts as presented once visible. Whether it changed
    /// visibility.
    pub fn trigger_tap_at(&mut self, i: usize, now: Instant) -> (changed: bool)
        requires
            old(self).wf(),
            i < old(self).models().len(),
        ensures
            final(self).wf(),
            final(self).models() == old(self).models().update(i as int, trigger_touch_spec(old(self).models()[i as int], now)),
            final(self).presented_spec() == old(self).presented_spec().update(i as int,
                old(self).presented_spec()[i as int] || final(self).models()[i as int].visible),
            changed == !old(self).models()[i as int].visible,
    {
        let ghost before = self.entries@;
        let mut c = self.entries.remove(i);
        let changed = c.trigger_tap_at(now);
        self.entries.insert(i, c);
        self.note_presented(i);
        proof {
            assert(self.entries@ =~= before.update(i as int, self.entries@[i as int]));
            assert(self.models() =~= old(self).models().update(i as int, trigger_touch_spec(old(self).models()[i as int], now)));
        }
        changed
    }

    /// A recognized long press on tooltip `i`; it counts as presented once visible. Whether it changed
    /// visibility.
    pub fn trigger_long_press_at(&mut self, i: usize, now: Instant) -> (changed: bool)
        requires
            old(self).wf(),
            i < old(self).models().len(),
        ensures
            final(self).wf(),
            final(self).models() == old(self).models().update(i as int, trigger_touch_spec(old(self).models()[i as int], now)),
            final(self).presented_spec() == old(self).presented_spec().update(i as int,
                old(self).presented_spec()[i as int] || final(self).models()[i as int].visible),
            changed == !old(self).models()[i as int].visible,
    {
        let ghost before = self.entries@;
        let mut c = self.entries.remove(i);
        let changed = c.trigger_long_press_at(now);
        self.entries.insert(i, c);
        self.note_presented(i);
        proof {
            assert(self.entries@ =~= before.update(i as int, self.entries@[i as int]));
            assert(self.models() =~= old(self).models().update(i as int, trigger_touch_spec(old(self).models()[i as int], now)));
        }
        changed
    }

    /// A focus change of tooltip `i`; it counts as presented once visible. Whether it changed
    /// visibility.
    pub fn focus_changed_at(&mut self, i: usize, focused: bool, now: Instant) -> (changed: bool)
        requires
            old(self).wf(),
            i < old(self).models().len(),
        ensures
            final(self).wf(),
            final(self).models() == old(self).models().update(i as int, focus_changed_spec(old(self).models()[i as int], focused, now)),
            final(self).presented_spec() == old(self).presented_spec().update(i as int,
                old(self).presented_spec()[i as int] || final(self).models()[i as int].visible),
            changed == (final(self).models()[i as int].visible != old(self).models()[i as int].visible),
    {
        let ghost before = self.entries@;
        let mut c = self.entries.remove(i);
        let changed = c.focus_changed_at(focused, now);
        self.entries.insert(i, c);
        self.note_presented(i);
        proof {
            assert(self.entries@ =~= before.update(i as int, self.entries@[i as int]));
            assert(self.models() =~= old(self).models().update(i as int, focus_changed_spec(old(self).models()[i as int], focused, now)));
        }
        changed
    }

    /// The scheduled transition of tooltip `i`; it counts as presented once visible. Whether it changed
    /// visibility.
    pub fn tick(&mut self, i: usize, now: Instant) -> (changed: bool)
        requires
            old(self).wf(),
            i < old(self).models().len(),
        ensures
            final(self).wf(),
            final(self).models() == old(self).models().update(i as int, tick_spec(old(self).models()[i as int], now)),
            final(self).presented_spec() == old(self).presented_spec().update(i as int,
                old(self).presented_spec()[i as int] || final(self).models()[i as int].visible),
            changed == (final(self).models()[i as int].visible != old(self).models()[i as int].visible),
    {
        let ghost before = self.entries@;
        let mut c = self.entries.remove(i);
        let changed = c.tick(now);
        self.entries.insert(i, c);
        self.note_presented(i);
        proof {
            assert(self.entries@ =~= before.update(i as int, self.entries@[i as int]));
            assert(self.models() =~= old(self).models().update(i as int, tick_spec(old(self).models()[i as int], now)));
        }
        changed
    }

    /// Hides every presented tooltip; whether any visibility changed.
    /// Tooltips never presented are left alone.
    pub fn dismiss_all_at(&mut self, now: Instant) -> (changed: bool)
        requires
            old(self).wf(),
        ensures
            final(self).wf(),
            final(self).models().len() == old(self).models().len(),
            final(self).presented_spec() == old(self).presented_spec(),
            forall|j: int| 0 <= j < old(self).models().len() ==> #[trigger] final(self).models()[j] == (
                if old(self).presented_spec()[j] { hide_spec(old(self).models()[j]) } else { old(self).models()[j] }),
            changed == exists|j: int| 0 <= j < old(self).models().len() && old(self).presented_spec()[j]
                && #[trigger] old(self).models()[j].visible,
            forall|j: int| 0 <= j < old(self).models().len() && old(self).presented_spec()[j]
                ==> !(#[trigger] final(self).models()[j]).visible && final(self).models()[j].pending is None
                    && !final(self).models()[j].manual,
    {
        let ghost before = self.entries@;
        let n = self.entries.len();
        let mut changed = false;
        let mut j: usize = 0;
        while j < n
            invariant
                n == before.len(),
                self.entries@.len() == n,
                self.presented@ == old(self).presented@,
                self.presented@.len() == n,
                before == old(self).entries@,
                j <= n,
                forall|k: int| 0 <= k < n ==> #[trigger] before[k].wf(),
                forall|k: int| 0 <= k < n ==> #[trigger] self.entries@[k].wf(),
                forall|k: int| j <= k < n ==> #[trigger] self.entries@[k] == before[k],
                forall|k: int| 0 <= k < j ==> #[trigger] self.entries@[k]@ == (
                    if old(self).presented@[k] { hide_spec(before[k]@) } else { before[k]@ }),
                changed == exists|k: int| 0 <= k < j && old(self).presented@[k] && #[trigger] before[k]@.visible,
            decreases n - j,
        {
            if self.presented[j] {
                let mut c = self.entries.remove(j);
                let hid = c.hide_at(now);
                self.entries.insert(j, c);
                proof {
                    if changed {
                        let k = choose|k: int| 0 <= k < j && old(self).presented@[k] && #[trigger] before[k]@.visible;
                        assert(0 <= k < j + 1 && old(self).presented@[k] && before[k]@.visible);
                    }
                    if hid {
                        assert(before[j as int]@.visible);
                    }
                }
                changed = changed || hid;
            } else {
                proof {
                    if changed {
                        let k = choose|k: int| 0 <= k < j && old(self).presented@[k] && #[trigger] before[k]@.visible;
                        assert(0 <= k < j + 1 && old(self).presented@[k] && before[k]@.visible);
                    }
                }
            }
            j += 1;
        }
        proof {
            assert forall|k: int| 0 <= k < n implies #[trigger] self.models()[k] == (
                if old(self).presented_spec()[k] { hide_spec(old(self).models()[k]) } else { old(self).models()[k] }) by {
                assert(old(self).models()[k] == before[k]@);
            }
            if changed {
                let k = choose|k: int| 0 <= k < n && old(self).presented@[k] && #[trigger] before[k]@.visible;
                assert(old(self).models()[k] == before[k]@);
            }
            if exists|k: int| 0 <= k < n && old(self).presented_spec()[k] && #[trigger] old(self).models()[k].visible {
                let k = choose|k: int| 0 <= k < n && old(self).presented_spec()[k] && #[trigger] old(self).models()[k].visible;
                assert(before[k]@.visible);
            }
        }
        changed
    }
}

} // verus!
