//! Ordered, retained back dispatch.
//!
//! The newest child dispatcher gets the first refusal of a platform back
//! action, then the dispatcher's own handlers (newest first), then its pop
//! guards together with the navigation fallback. Dispatchers live in a
//! [`BackDispatchTree`] and are addressed by [`BackButtonDispatcher`]
//! handles, so that a child can be attached to several parents and a cycle
//! of attachments is walked only once.
use vstd::prelude::*;
use serde_json::Value;
use std::rc::Rc;

verus! {

/// JSON values carried through a pop attempt; the dispatcher never looks inside.
#[verifier::external_type_specification]
#[verifier::external_body]
pub struct ExJsonValue(Value);

/// Copies a JSON value (`serde_json::Value::clone`, a derived deep copy):
/// the copy is the same value.
#[verifier::external_body]
pub(crate) fn copy_json(v: &Value) -> (r: Value)
    ensures
        r == *v,
{
    v.clone()
}

/// Copies an optional JSON value.
fn copy_json_option(v: &Option<Value>) -> (r: Option<Value>)
    ensures
        r == *v,
{
    match v {
        Some(x) => Some(copy_json(x)),
        None => None,
    }
}

/// The result of one platform back/pop attempt.
pub struct PopAttempt {
    /// Whether a route or nested navigator actually popped.
    pub did_pop: bool,
    /// The result supplied by the popped route.
    pub result: Option<Value>,
    /// Whether the fallback consumed the platform action.
    pub handled: bool,
    /// Whether a pop guard consumed the action without mutating navigation.
    pub blocked: bool,
}

/// An attempt that nobody handled.
pub open spec fn pop_unhandled() -> PopAttempt {
    PopAttempt { did_pop: false, result: None, handled: false, blocked: false }
}

/// An attempt that a pop guard blocked.
pub open spec fn pop_blocked() -> PopAttempt {
    PopAttempt { did_pop: false, result: None, handled: true, blocked: true }
}

/// A handled attempt that did not pop.
pub open spec fn pop_rejected() -> PopAttempt {
    PopAttempt { did_pop: false, result: None, handled: true, blocked: false }
}

impl PopAttempt {
    /// An accepted pop with the route's result.
    pub fn popped(result: Option<Value>) -> (r: Self)
        ensures
            r == (PopAttempt { did_pop: true, result, handled: true, blocked: false }),
    {
        PopAttempt { did_pop: true, result, handled: true, blocked: false }
    }

    /// A handled attempt that did not mutate a route stack.
    pub fn rejected() -> (r: Self)
        ensures
            r == pop_rejected(),
    {
        PopAttempt { did_pop: false, result: None, handled: true, blocked: false }
    }

    /// A guard-blocked attempt.
    pub fn blocked() -> (r: Self)
        ensures
            r == pop_blocked(),
    {
        PopAttempt { did_pop: false, result: None, handled: true, blocked: true }
    }

    /// An unhandled attempt.
    pub fn unhandled() -> (r: Self)
        ensures
            r == pop_unhandled(),
    {
        PopAttempt { did_pop: false, result: None, handled: false, blocked: false }
    }

    /// A copy of the attempt.
    pub fn copy(&self) -> (r: Self)
        ensures
            r == *self,
    {
        PopAttempt {
            did_pop: self.did_pop,
            result: copy_json_option(&self.result),
            handled: self.handled,
            blocked: self.blocked,
        }
    }
}

impl Clone for PopAttempt {
    fn clone(&self) -> (r: Self)
        ensures
            r == *self,
    {
        self.copy()
    }
}

/// The result returned by a retained back callback.
pub struct BackHandlerResult {
    /// Whether the callback consumed the back action.
    pub handled: bool,
    /// Whether the callback consumed it because a pop was blocked.
    pub blocked: bool,
    /// Optional pop result to propagate to surrounding scopes.
    pub pop: Option<PopAttempt>,
}

/// A callback result that consumed the action.
pub open spec fn result_handled() -> BackHandlerResult {
    BackHandlerResult { handled: true, blocked: false, pop: None }
}

/// A callback result that let the action through.
pub open spec fn result_unhandled() -> BackHandlerResult {
    BackHandlerResult { handled: false, blocked: false, pop: None }
}

impl BackHandlerResult {
    /// An unhandled callback result.
    pub fn unhandled() -> (r: Self)
        ensures
            r == result_unhandled(),
    {
        BackHandlerResult { handled: false, blocked: false, pop: None }
    }

    /// A handled callback result without a route result.
    pub fn handled() -> (r: Self)
        ensures
            r == result_handled(),
    {
        BackHandlerResult { handled: true, blocked: false, pop: None }
    }

    /// Converts a pop attempt into a callback result.
    pub fn from_pop(pop: PopAttempt) -> (r: Self)
        ensures
            r == (BackHandlerResult { handled: pop.handled, blocked: pop.blocked, pop: Some(pop) }),
    {
        BackHandlerResult { handled: pop.handled, blocked: pop.blocked, pop: Some(pop) }
    }
}

/// Report returned after routing one platform back action.
pub struct BackDispatchReport {
    /// Whether a callback or the fallback consumed the action.
    pub handled: bool,
    /// Depth of the dispatcher that handled or blocked the action; the
    /// dispatcher asked is depth zero.
    pub depth: usize,
    /// Whether a pop guard consumed the action without a stack mutation.
    pub blocked: bool,
    /// The pop result propagated through the dispatch chain.
    pub pop: Option<PopAttempt>,
}

/// The report of a callback result at `depth`.
pub open spec fn report_of_result(result: BackHandlerResult, depth: usize) -> BackDispatchReport {
    BackDispatchReport { handled: result.handled, depth, blocked: result.blocked, pop: result.pop }
}

/// The report of a pop attempt at `depth`.
pub open spec fn report_of_attempt(attempt: PopAttempt, depth: usize) -> BackDispatchReport {
    BackDispatchReport { handled: attempt.handled, depth, blocked: attempt.blocked, pop: Some(attempt) }
}

/// The report of a dispatcher that had nothing to offer.
pub open spec fn unhandled_report(depth: usize) -> BackDispatchReport {
    BackDispatchReport { handled: false, depth, blocked: false, pop: None }
}

/// Whether a report ends the dispatch.
pub open spec fn decisive(r: BackDispatchReport) -> bool {
    r.handled || r.blocked
}

impl BackDispatchReport {
    fn from_result(result: BackHandlerResult, depth: usize) -> (r: Self)
        ensures
            r == report_of_result(result, depth),
    {
        BackDispatchReport { handled: result.handled, depth, blocked: result.blocked, pop: result.pop }
    }
}

/// What the pop-guard stage of a dispatcher reports: with no guard the
/// fallback decides alone (unhandled without one); a guard that refuses
/// blocks the attempt; otherwise the fallback's attempt (unhandled without
/// one) is reported. `can_pop` is whether every guard allowed the pop and
/// `fallback` what the fallback returned, when there is one.
pub open spec fn pop_stage_report(
    guards_empty: bool,
    can_pop: bool,
    fallback: Option<PopAttempt>,
    depth: usize,
) -> BackDispatchReport {
    if guards_empty {
        match fallback {
            None => unhandled_report(depth),
            Some(a) => report_of_attempt(a, depth),
        }
    } else if !can_pop {
        report_of_attempt(pop_blocked(), depth)
    } else {
        match fallback {
            None => report_of_attempt(pop_unhandled(), depth),
            Some(a) => report_of_attempt(a, depth),
        }
    }
}

/// The pop-guard stage decided from what the guards and the fallback
/// answered.
pub fn pop_stage_decision(
    guards_empty: bool,
    can_pop: bool,
    fallback: Option<PopAttempt>,
    depth: usize,
) -> (r: BackDispatchReport)
    ensures
        r == pop_stage_report(guards_empty, can_pop, fallback, depth),
        r.depth == depth,
        !guards_empty && !can_pop ==> r.handled && r.blocked && (r.pop matches Some(a) && !a.did_pop),
        guards_empty && fallback is None ==> !r.handled && !r.blocked && r.pop is None,
        !guards_empty && can_pop && fallback is None ==> !r.handled && !r.blocked
            && (r.pop matches Some(a) && !a.did_pop && !a.handled),
        (guards_empty || can_pop) && fallback is Some ==> r.pop == fallback
            && r.handled == fallback->0.handled && r.blocked == fallback->0.blocked,
{
    if guards_empty {
        match fallback {
            None => BackDispatchReport { handled: false, depth, blocked: false, pop: None },
            Some(a) => BackDispatchReport { handled: a.handled, depth, blocked: a.blocked, pop: Some(a) },
        }
    } else if !can_pop {
        let a = PopAttempt::blocked();
        BackDispatchReport { handled: true, depth, blocked: true, pop: Some(a) }
    } else {
        let a = match fallback {
            None => PopAttempt::unhandled(),
            Some(a) => a,
        };
        BackDispatchReport { handled: a.handled, depth, blocked: a.blocked, pop: Some(a) }
    }
}

/// A pop attempt for an enclosing handler from a nested dispatcher's
/// report: its pop result when it has one, else blocked, rejected or
/// unhandled as the report says.
pub fn pop_attempt_from_report(report: BackDispatchReport) -> (r: PopAttempt)
    ensures
        r == (match report.pop {
            Some(p) => p,
            None => if report.blocked {
                pop_blocked()
            } else if report.handled {
                pop_rejected()
            } else {
                pop_unhandled()
            },
        }),
{
    match report.pop {
        Some(p) => p,
        None => if report.blocked {
            PopAttempt::blocked()
        } else if report.handled {
            PopAttempt::rejected()
        } else {
            PopAttempt::unhandled()
        },
    }
}

/// A shared handle to a caller-supplied back handler.
#[verifier::external_body]
pub struct HandlerCallback {
    inner: Rc<dyn Fn() -> BackHandlerResult>,
}

/// Moves a back-handler closure behind a shared handle (`Rc::new`).
#[verifier::external_body]
fn handler_callback<F: Fn() -> BackHandlerResult + 'static>(f: F) -> HandlerCallback {
    HandlerCallback { inner: Rc::new(f) }
}

/// Runs a back handler; its result is whatever the closure answers.
#[verifier::external_body]
fn call_handler(h: &HandlerCallback) -> BackHandlerResult {
    (h.inner)()
}

/// A shared handle to a caller-supplied yes/no callback.
#[verifier::external_body]
pub struct FlagCallback {
    inner: Rc<dyn Fn() -> bool>,
}

/// Moves a yes/no closure behind a shared handle (`Rc::new`).
#[verifier::external_body]
fn flag_callback<F: Fn() -> bool + 'static>(f: F) -> FlagCallback {
    FlagCallback { inner: Rc::new(f) }
}

/// A yes/no callback handle for a closure.
pub(crate) fn flag_handle(f: impl Fn() -> bool + 'static) -> FlagCallback {
    flag_callback(f)
}

/// Shares a yes/no callback handle (`Rc::clone`): the same closure.
#[verifier::external_body]
fn share_flag(f: &FlagCallback) -> (r: FlagCallback)
    ensures
        r == *f,
{
    FlagCallback { inner: Rc::clone(&f.inner) }
}

impl Clone for FlagCallback {
    fn clone(&self) -> (r: Self)
        ensures
            r == *self,
    {
        share_flag(self)
    }
}

/// Runs a yes/no callback; its answer is whatever the closure answers.
#[verifier::external_body]
pub(crate) fn call_flag(f: &FlagCallback) -> bool {
    (f.inner)()
}

/// A shared handle to a caller-supplied callback told of a pop attempt.
#[verifier::external_body]
pub struct AttemptCallback {
    inner: Rc<dyn Fn(PopAttempt)>,
}

/// Moves an attempt callback behind a shared handle (`Rc::new`).
#[verifier::external_body]
fn attempt_callback<F: Fn(PopAttempt) + 'static>(f: F) -> AttemptCallback {
    AttemptCallback { inner: Rc::new(f) }
}

/// Tells an attempt callback of `attempt`; nothing is stated of its effect.
#[verifier::external_body]
fn call_attempt(c: &AttemptCallback, attempt: PopAttempt) {
    (c.inner)(attempt)
}

/// A shared handle to a caller-supplied navigation fallback.
#[verifier::external_body]
pub struct FallbackCallback {
    inner: Rc<dyn Fn() -> PopAttempt>,
}

/// Moves a fallback closure behind a shared handle (`Rc::new`).
#[verifier::external_body]
fn fallback_callback<F: Fn() -> PopAttempt + 'static>(f: F) -> FallbackCallback {
    FallbackCallback { inner: Rc::new(f) }
}

/// Runs the fallback; its attempt is whatever the closure answers.
#[verifier::external_body]
fn call_fallback(f: &FallbackCallback) -> PopAttempt {
    (f.inner)()
}

/// What a registered handler runs.
pub enum HandlerAction {
    /// A callback answering with a full result.
    Result(HandlerCallback),
    /// A yes/no callback: yes consumes the action.
    Flag(FlagCallback),
}

/// A registered back handler.
pub struct HandlerEntry {
    pub id: u64,
    pub action: HandlerAction,
}

/// An attached child dispatcher.
#[derive(Clone, Copy, PartialEq, Eq, Structural)]
pub struct ChildEntry {
    pub id: u64,
    pub child: usize,
}

/// A registered pop guard and the callback told of each attempt.
pub struct PopGuardEntry {
    pub id: u64,
    pub can_pop: FlagCallback,
    pub callback: AttemptCallback,
}

/// The value of one dispatcher.
pub struct DispatcherView {
    pub next_id: u64,
    pub handlers: Seq<HandlerEntry>,
    pub children: Seq<ChildEntry>,
    pub guards: Seq<PopGuardEntry>,
    pub fallback: Option<FallbackCallback>,
    pub parent: Option<usize>,
}

struct DispatcherState {
    next_id: u64,
    handlers: Vec<HandlerEntry>,
    children: Vec<ChildEntry>,
    pop_guards: Vec<PopGuardEntry>,
    fallback: Option<FallbackCallback>,
    parent: Option<usize>,
}

impl DispatcherState {
    spec fn view(&self) -> DispatcherView {
        DispatcherView {
            next_id: self.next_id,
            handlers: self.handlers@,
            children: self.children@,
            guards: self.pop_guards@,
            fallback: self.fallback,
            parent: self.parent,
        }
    }

    fn empty(parent: Option<usize>) -> (r: Self)
        ensures
            r.view() == empty_dispatcher(parent),
    {
        DispatcherState {
            next_id: 1,
            handlers: Vec::new(),
            children: Vec::new(),
            pop_guards: Vec::new(),
            fallback: None,
            parent,
        }
    }
}

/// A dispatcher with nothing registered.
pub open spec fn empty_dispatcher(parent: Option<usize>) -> DispatcherView {
    DispatcherView {
        next_id: 1,
        handlers: Seq::empty(),
        children: Seq::empty(),
        guards: Seq::empty(),
        fallback: None,
        parent,
    }
}

/// The registration id after `id`: ids count up from one and skip zero
/// when they wrap.
pub open spec fn id_after(id: u64) -> u64 {
    if id == u64::MAX { 1 } else { (id + 1) as u64 }
}

/// `n` with handler `e` registered as the newest.
pub open spec fn with_handler(n: DispatcherView, e: HandlerEntry) -> DispatcherView {
    DispatcherView { next_id: id_after(n.next_id), handlers: n.handlers.push(e), ..n }
}

/// `n` with pop guard `g` registered as the newest.
pub open spec fn with_guard(n: DispatcherView, g: PopGuardEntry) -> DispatcherView {
    DispatcherView { next_id: id_after(n.next_id), guards: n.guards.push(g), ..n }
}

/// `n` with fallback `f`.
pub open spec fn with_fallback_callback(n: DispatcherView, f: FallbackCallback) -> DispatcherView {
    DispatcherView { fallback: Some(f), ..n }
}

/// Every child and parent link names a dispatcher of the tree.
pub open spec fn tree_wf(t: Seq<DispatcherView>) -> bool {
    &&& forall|n: int, j: int| 0 <= n < t.len() && 0 <= j < t[n].children.len()
        ==> (#[trigger] t[n].children[j]).child < t.len()
    &&& forall|n: int| 0 <= n < t.len() && (#[trigger] t[n].parent) is Some ==> t[n].parent->0 < t.len()
}

/// All dispatchers of an application, addressed by handle.
pub struct BackDispatchTree {
    nodes: Vec<DispatcherState>,
    steps: Ghost<Seq<DispatchStage>>,
    notices: Ghost<Seq<GuardNotice>>,
}

/// A pop attempt told to pop guard `guard` of dispatcher `node`.
pub struct GuardNotice {
    pub node: usize,
    pub guard: nat,
    pub attempt: PopAttempt,
}

/// The attempt a pop stage tells its guards: blocked when a guard refused,
/// else the fallback's attempt, else an unhandled one.
pub open spec fn pop_told(can_pop: bool, attempt: Option<PopAttempt>) -> PopAttempt {
    if !can_pop {
        pop_blocked()
    } else {
        match attempt {
            Some(a) => a,
            None => pop_unhandled(),
        }
    }
}

/// Whether a pop stage of dispatcher `d` has a fallback: its own, or one
/// `given` for the dispatch.
pub open spec fn has_pop_fallback(d: DispatcherView, given: bool) -> bool {
    d.fallback is Some || given
}

/// The notices a dispatch step sends: a pop stage tells its guards as
/// [`pop_run`] says (for the same report `o`); other steps tell none.
pub open spec fn told_fits(
    t: Seq<DispatcherView>,
    root: usize,
    fallback_given: bool,
    st: DispatchStage,
    o: BackDispatchReport,
    told: Seq<GuardNotice>,
) -> bool {
    match st {
        DispatchStage::Pop { node, depth } => exists|can_pop: bool, attempt: Option<PopAttempt>| #[trigger] pop_run(
            t[node as int].guards.len(),
            has_pop_fallback(t[node as int], given_at(node, root, fallback_given)),
            depth,
            node,
            can_pop,
            attempt,
            o,
            told,
        ),
        _ => told == Seq::<GuardNotice>::empty(),
    }
}

/// Whether the fallback given for a dispatch applies at dispatcher `node`:
/// only at the dispatch's root.
pub open spec fn given_at(node: usize, root: usize, fallback_given: bool) -> bool {
    node == root && fallback_given
}

/// The notices of several steps, one after another.
pub open spec fn concat_notices(ts: Seq<Seq<GuardNotice>>) -> Seq<GuardNotice>
    decreases ts.len(),
{
    if ts.len() == 0 { Seq::empty() } else { concat_notices(ts.drop_last()) + ts.last() }
}

/// The notices of the steps taken match their reports, and are what was
/// told, in order.
pub open spec fn dispatch_told(
    t: Seq<DispatcherView>,
    root: usize,
    fallback_given: bool,
    stages: Seq<DispatchStage>,
    outs: Seq<BackDispatchReport>,
    tolds: Seq<Seq<GuardNotice>>,
    before: Seq<GuardNotice>,
    after: Seq<GuardNotice>,
) -> bool {
    &&& tolds.len() == outs.len()
    &&& forall|i: int| 0 <= i < outs.len() ==> #[trigger] told_fits(t, root, fallback_given, stages[i], outs[i], tolds[i])
    &&& after == before + concat_notices(tolds)
}

/// Every guard of dispatcher `node`, in order, told `a`.
pub open spec fn guard_notices(node: usize, n: nat, a: PopAttempt) -> Seq<GuardNotice> {
    Seq::new(n, |j: int| GuardNotice { node, guard: j as nat, attempt: a })
}

/// A pop stage's report `o` and the notices `told` it sent, for the guard
/// answer `can_pop` and the fallback's `attempt`: with no guard nothing is
/// told; otherwise each guard is told [`pop_told`].
pub open spec fn pop_run(
    guards: nat,
    has_fallback: bool,
    depth: usize,
    node: usize,
    can_pop: bool,
    attempt: Option<PopAttempt>,
    o: BackDispatchReport,
    told: Seq<GuardNotice>,
) -> bool {
    &&& (attempt is Some) == has_fallback
    &&& guards == 0 ==> can_pop
    &&& o == pop_stage_report(guards == 0, can_pop, attempt, depth)
    &&& told == (if guards == 0 { Seq::empty() } else { guard_notices(node, guards, pop_told(can_pop, attempt)) })
}

impl View for BackDispatchTree {
    type V = Seq<DispatcherView>;

    closed spec fn view(&self) -> Seq<DispatcherView> {
        Seq::new(self.nodes@.len(), |i: int| self.nodes@[i].view())
    }
}

impl BackDispatchTree {
    /// The dispatch steps taken so far, oldest first: a handler asked, a
    /// pop stage run, or a skipped dispatcher passed.
    pub closed spec fn steps_spec(&self) -> Seq<DispatchStage> {
        self.steps@
    }

    /// The pop attempts told to pop guards so far, oldest first.
    pub closed spec fn notices_spec(&self) -> Seq<GuardNotice> {
        self.notices@
    }

    /// An empty tree.
    pub fn new() -> (r: Self)
        ensures
            r@ == Seq::<DispatcherView>::empty(),
    {
        let r = BackDispatchTree { nodes: Vec::new(), steps: Ghost(Seq::empty()), notices: Ghost(Seq::empty()) };
        assert(r@ =~= Seq::<DispatcherView>::empty());
        r
    }

    /// Whether `dispatcher` names a dispatcher of this tree.
    pub fn contains(&self, dispatcher: &BackButtonDispatcher) -> (r: bool)
        ensures
            r == dispatcher.in_tree(self@),
    {
        dispatcher.index < self.nodes.len()
    }

    /// Whether every child and parent link names a dispatcher of the tree
    /// (what the dispatching operations need; the tree's own operations
    /// keep it).
    pub fn is_well_formed(&self) -> (r: bool)
        ensures
            r == tree_wf(self@),
    {
        let n = self.nodes.len();
        let mut i: usize = 0;
        while i < n
            invariant
                n == self@.len(),
                i <= n,
                forall|m: int, j: int| 0 <= m < i && 0 <= j < self@[m].children.len()
                    ==> (#[trigger] self@[m].children[j]).child < n,
                forall|m: int| 0 <= m < i && (#[trigger] self@[m].parent) is Some ==> self@[m].parent->0 < n,
            decreases n - i,
        {
            let node = &self.nodes[i];
            assert(node.view() == self@[i as int]);
            match node.parent {
                Some(p) => {
                    if p >= n {
                        assert((#[trigger] self@[i as int].parent) is Some && self@[i as int].parent->0 >= self@.len());
                        return false;
                    }
                },
                None => {},
            }
            let k = node.children.len();
            let mut j: usize = 0;
            while j < k
                invariant
                    n == self@.len(),
                    i < n,
                    k == self@[i as int].children.len(),
                    node.view() == self@[i as int],
                    j <= k,
                    forall|q: int| 0 <= q < j ==> (#[trigger] self@[i as int].children[q]).child < n,
                decreases k - j,
            {
                if node.children[j].child >= n {
                    assert((#[trigger] self@[i as int].children[j as int]).child >= self@.len());
                    return false;
                }
                j += 1;
            }
            i += 1;
        }
        true
    }

    /// The number of dispatchers in the tree.
    pub fn len(&self) -> (r: usize)
        ensures
            r == self@.len(),
    {
        self.nodes.len()
    }

    fn add_node(&mut self, parent: Option<usize>) -> (r: usize)
        requires
            tree_wf(old(self)@),
            parent is Some ==> parent->0 < old(self)@.len(),
        ensures
            tree_wf(final(self)@),
            r == old(self)@.len(),
            final(self)@ == old(self)@.push(empty_dispatcher(parent)),
    {
        let r = self.nodes.len();
        self.nodes.push(DispatcherState::empty(parent));
        assert(self@ =~= old(self)@.push(empty_dispatcher(parent)));
        proof {
            let t = self@;
            assert forall|n: int, j: int| 0 <= n < t.len() && 0 <= j < t[n].children.len()
                implies (#[trigger] t[n].children[j]).child < t.len() by {
                if n < old(self)@.len() {
                    assert(t[n] == old(self)@[n]);
                }
            }
            assert forall|n: int| 0 <= n < t.len() && (#[trigger] t[n].parent) is Some
                implies t[n].parent->0 < t.len() by {
                if n < old(self)@.len() {
                    assert(t[n] == old(self)@[n]);
                }
            }
        }
        r
    }

    fn take_next_id(&mut self, node: usize) -> (id: u64)
        requires
            node < old(self)@.len(),
        ensures
            id == old(self)@[node as int].next_id,
            final(self)@ == old(self)@.update(node as int, DispatcherView { next_id: id_after(id), ..old(self)@[node as int] }),
    {
        let id = self.nodes[node].next_id;
        let next = if id == u64::MAX { 1 } else { id + 1 };
        self.nodes[node].next_id = next;
        assert(self@ =~= old(self)@.update(node as int, DispatcherView { next_id: id_after(id), ..old(self)@[node as int] }));
        id
    }
}

/// A handle to one dispatcher of a [`BackDispatchTree`].
#[derive(Clone, Copy, PartialEq, Eq, Structural)]
pub struct BackButtonDispatcher {
    index: usize,
}

impl View for BackButtonDispatcher {
    type V = usize;

    closed spec fn view(&self) -> usize {
        self.index
    }
}

/// Which list a registration belongs to.
#[derive(Clone, Copy, PartialEq, Eq, Structural)]
pub enum RegistrationKind {
    Handler,
    Child,
    PopGuard,
    Noop,
}

/// The value of a registration token.
pub struct RegistrationView {
    pub dispatcher: usize,
    pub kind: RegistrationKind,
    pub id: u64,
}

/// Owns one registration in a dispatcher; dropping it through
/// [`BackRegistration::drop`] removes the registered callback, child or guard.
pub struct BackRegistration {
    dispatcher: usize,
    kind: RegistrationKind,
    id: u64,
}

impl View for BackRegistration {
    type V = RegistrationView;

    closed spec fn view(&self) -> RegistrationView {
        RegistrationView { dispatcher: self.dispatcher, kind: self.kind, id: self.id }
    }
}

/// Whether `children` holds an entry for dispatcher `c`.
pub open spec fn has_child(children: Seq<ChildEntry>, c: usize) -> bool {
    exists|j: int| 0 <= j < children.len() && (#[trigger] children[j]).child == c
}

/// Keeps the handlers other than registration `id`.
pub open spec fn other_handlers(id: u64) -> spec_fn(HandlerEntry) -> bool {
    |e: HandlerEntry| e.id != id
}

/// Keeps the guards other than registration `id`.
pub open spec fn other_guards(id: u64) -> spec_fn(PopGuardEntry) -> bool {
    |e: PopGuardEntry| e.id != id
}

/// Keeps the child entries other than registration `key` (`by_id`), or
/// other than those of dispatcher `child`.
pub open spec fn other_children(by_id: bool, key: u64, child: usize) -> spec_fn(ChildEntry) -> bool {
    |e: ChildEntry| if by_id { e.id != key } else { e.child != child }
}

impl BackRegistration {
    fn noop() -> (r: Self)
        ensures
            r@.kind == RegistrationKind::Noop,
    {
        BackRegistration { dispatcher: 0, kind: RegistrationKind::Noop, id: 0 }
    }

    /// Removes what this token registered; a token of a removed entry or a
    /// no-op token changes nothing.
    pub fn drop(self, tree: &mut BackDispatchTree)
        requires
            tree_wf(old(tree)@),
        ensures
            tree_wf(final(tree)@),
            ({
                let t = old(tree)@;
                let r = self@;
                let n = r.dispatcher as int;
                if r.kind == RegistrationKind::Noop || n >= t.len() {
                    final(tree)@ == t
                } else {
                    final(tree)@ == t.update(n, match r.kind {
                        RegistrationKind::Handler => DispatcherView { handlers: t[n].handlers.filter(other_handlers(r.id)), ..t[n] },
                        RegistrationKind::Child => DispatcherView { children: t[n].children.filter(other_children(true, r.id, 0)), ..t[n] },
                        _ => DispatcherView { guards: t[n].guards.filter(other_guards(r.id)), ..t[n] },
                    })
                }
            }),
    {
        if self.dispatcher >= tree.nodes.len() {
            return;
        }
        match self.kind {
            RegistrationKind::Handler => tree.retain_handlers(self.dispatcher, self.id),
            RegistrationKind::Child => tree.retain_children_where(self.dispatcher, true, self.id, 0),
            RegistrationKind::PopGuard => tree.retain_guards(self.dispatcher, self.id),
            RegistrationKind::Noop => {},
        }
    }
}

impl BackDispatchTree {
    fn retain_handlers(&mut self, node: usize, id: u64)
        requires
            node < old(self)@.len(),
            tree_wf(old(self)@),
        ensures
            tree_wf(final(self)@),
            final(self)@ == old(self)@.update(node as int, DispatcherView {
                handlers: old(self)@[node as int].handlers.filter(other_handlers(id)),
                ..old(self)@[node as int]
            }),
    {
        let ghost pred = other_handlers(id);
        let mut kept: Vec<HandlerEntry> = Vec::new();
        let mut old_list: Vec<HandlerEntry> = Vec::new();
        std::mem::swap(&mut old_list, &mut self.nodes[node].handlers);
        let ghost src = old_list@;
        assert(src == old(self)@[node as int].handlers);
        let ghost mut k: int = 0;
        while old_list.len() > 0
            invariant
                src == old(self)@[node as int].handlers,
                0 <= k <= src.len(),
                old_list@ == src.subrange(k, src.len() as int),
                kept@ == src.take(k).filter(pred),
                forall|x: HandlerEntry| #[trigger] pred(x) == (x.id != id),
            decreases old_list.len(),
        {
            let e = old_list.remove(0);
            proof {
                assert(e == src[k]);
                assert(src.take(k + 1) =~= src.take(k).push(e));
                src.take(k).lemma_filter_push(e, pred);
                k = k + 1;
                assert(old_list@ =~= src.subrange(k, src.len() as int));
            }
            if e.id != id {
                kept.push(e);
            }
        }
        proof {
            assert(src.take(k) =~= src);
        }
        self.nodes[node].handlers = kept;
        assert(self@ =~= old(self)@.update(node as int, DispatcherView {
            handlers: old(self)@[node as int].handlers.filter(pred),
            ..old(self)@[node as int]
        }));
    }

    fn retain_guards(&mut self, node: usize, id: u64)
        requires
            node < old(self)@.len(),
            tree_wf(old(self)@),
        ensures
            tree_wf(final(self)@),
            final(self)@ == old(self)@.update(node as int, DispatcherView {
                guards: old(self)@[node as int].guards.filter(other_guards(id)),
                ..old(self)@[node as int]
            }),
    {
        let ghost pred = other_guards(id);
        let mut kept: Vec<PopGuardEntry> = Vec::new();
        let mut old_list: Vec<PopGuardEntry> = Vec::new();
        std::mem::swap(&mut old_list, &mut self.nodes[node].pop_guards);
        let ghost src = old_list@;
        assert(src == old(self)@[node as int].guards);
        let ghost mut k: int = 0;
        while old_list.len() > 0
            invariant
                src == old(self)@[node as int].guards,
                0 <= k <= src.len(),
                old_list@ == src.subrange(k, src.len() as int),
                kept@ == src.take(k).filter(pred),
                forall|x: PopGuardEntry| #[trigger] pred(x) == (x.id != id),
            decreases old_list.len(),
        {
            let e = old_list.remove(0);
            proof {
                assert(e == src[k]);
                assert(src.take(k + 1) =~= src.take(k).push(e));
                src.take(k).lemma_filter_push(e, pred);
                k = k + 1;
                assert(old_list@ =~= src.subrange(k, src.len() as int));
            }
            if e.id != id {
                kept.push(e);
            }
        }
        proof {
            assert(src.take(k) =~= src);
        }
        self.nodes[node].pop_guards = kept;
        assert(self@ =~= old(self)@.update(node as int, DispatcherView {
            guards: old(self)@[node as int].guards.filter(pred),
            ..old(self)@[node as int]
        }));
    }

    fn retain_children_where(&mut self, node: usize, by_id: bool, key: u64, child: usize)
        requires
            node < old(self)@.len(),
            tree_wf(old(self)@),
        ensures
            tree_wf(final(self)@),
            final(self)@ == old(self)@.update(node as int, DispatcherView {
                children: old(self)@[node as int].children.filter(other_children(by_id, key, child)),
                ..old(self)@[node as int]
            }),
    {
        let ghost pred = other_children(by_id, key, child);
        let ghost src = old(self)@[node as int].children;
        let mut kept: Vec<ChildEntry> = Vec::new();
        let mut i: usize = 0;
        let n = self.nodes[node].children.len();
        while i < n
            invariant
                node < self@.len(),
                self@ == old(self)@,
                src == old(self)@[node as int].children,
                n == src.len(),
                i <= n,
                kept@ == src.take(i as int).filter(pred),
                forall|x: ChildEntry| #[trigger] pred(x) == (if by_id { x.id != key } else { x.child != child }),
            decreases n - i,
        {
            let e = self.nodes[node].children[i];
            proof {
                assert(e == src[i as int]);
                assert(src.take(i as int + 1) =~= src.take(i as int).push(e));
                src.take(i as int).lemma_filter_push(e, pred);
            }
            let keep = if by_id { e.id != key } else { e.child != child };
            if keep {
                kept.push(e);
            }
            i += 1;
        }
        proof {
            assert(src.take(n as int) =~= src);
            assert forall|j: int| 0 <= j < kept@.len() implies (#[trigger] kept@[j]).child < old(self)@.len() by {
                src.lemma_filter_contains_rev(pred, kept@[j]);
                assert(src.filter(pred).contains(kept@[j]));
            }
        }
        self.nodes[node].children = kept;
        assert(self@ =~= old(self)@.update(node as int, DispatcherView {
            children: src.filter(pred),
            ..old(self)@[node as int]
        }));
    }
}

impl BackButtonDispatcher {
    /// Whether the handle names a dispatcher of `tree`.
    pub open spec fn in_tree(self, tree: Seq<DispatcherView>) -> bool {
        self@ < tree.len()
    }

    /// Creates an empty root dispatcher.
    pub fn new(tree: &mut BackDispatchTree) -> (r: Self)
        requires
            tree_wf(old(tree)@),
        ensures
            tree_wf(final(tree)@),
            r@ == old(tree)@.len(),
            final(tree)@ == old(tree)@.push(empty_dispatcher(None)),
    {
        let index = tree.add_node(None);
        BackButtonDispatcher { index }
    }

    /// Creates a root dispatcher whose final fallback is `fallback`.
    pub fn with_fallback(tree: &mut BackDispatchTree, fallback: impl Fn() -> PopAttempt + 'static) -> (r: Self)
        requires
            tree_wf(old(tree)@),
        ensures
            tree_wf(final(tree)@),
            r@ == old(tree)@.len(),
            exists|f: FallbackCallback| final(tree)@
                == old(tree)@.push(#[trigger] with_fallback_callback(empty_dispatcher(None), f)),
    {
        let d = Self::new(tree);
        let f = fallback_callback(fallback);
        d.set_fallback_callback(tree, f);
        assert(final(tree)@ == old(tree)@.push(with_fallback_callback(empty_dispatcher(None), f)));
        d
    }

    /// Installs the final navigation fallback.
    pub fn set_fallback(&self, tree: &mut BackDispatchTree, fallback: impl Fn() -> PopAttempt + 'static)
        requires
            tree_wf(old(tree)@),
            self.in_tree(old(tree)@),
        ensures
            tree_wf(final(tree)@),
            exists|f: FallbackCallback| final(tree)@
                == old(tree)@.update(self@ as int, #[trigger] with_fallback_callback(old(tree)@[self@ as int], f)),
    {
        let f = fallback_callback(fallback);
        self.set_fallback_callback(tree, f);
    }

    fn set_fallback_callback(&self, tree: &mut BackDispatchTree, fallback: FallbackCallback)
        requires
            tree_wf(old(tree)@),
            self.in_tree(old(tree)@),
        ensures
            tree_wf(final(tree)@),
            final(tree)@ == old(tree)@.update(self@ as int, with_fallback_callback(old(tree)@[self@ as int], fallback)),
    {
        tree.nodes[self.index].fallback = Some(fallback);
        assert(tree@ =~= old(tree)@.update(self@ as int, with_fallback_callback(old(tree)@[self@ as int], fallback)));
    }

    /// Removes the final navigation fallback.
    pub fn clear_fallback(&self, tree: &mut BackDispatchTree)
        requires
            tree_wf(old(tree)@),
            self.in_tree(old(tree)@),
        ensures
            tree_wf(final(tree)@),
            final(tree)@ == old(tree)@.update(self@ as int, DispatcherView { fallback: None, ..old(tree)@[self@ as int] }),
    {
        tree.nodes[self.index].fallback = None;
        assert(tree@ =~= old(tree)@.update(self@ as int, DispatcherView { fallback: None, ..old(tree)@[self@ as int] }));
    }

    /// Whether any handler, child or pop guard is registered.
    pub fn has_callbacks(&self, tree: &BackDispatchTree) -> (r: bool)
        requires
            self.in_tree(tree@),
        ensures
            r == (tree@[self@ as int].handlers.len() > 0 || tree@[self@ as int].children.len() > 0
                || tree@[self@ as int].guards.len() > 0),
    {
        let node = &tree.nodes[self.index];
        node.handlers.len() > 0 || node.children.len() > 0 || node.pop_guards.len() > 0
    }

    /// The number of local back handlers.
    pub fn handler_count(&self, tree: &BackDispatchTree) -> (r: usize)
        requires
            self.in_tree(tree@),
        ensures
            r == tree@[self@ as int].handlers.len(),
    {
        tree.nodes[self.index].handlers.len()
    }

    /// The number of attached child dispatchers.
    pub fn child_count(&self, tree: &BackDispatchTree) -> (r: usize)
        requires
            self.in_tree(tree@),
        ensures
            r == tree@[self@ as int].children.len(),
    {
        tree.nodes[self.index].children.len()
    }

    /// The number of registered pop guards.
    pub fn pop_scope_count(&self, tree: &BackDispatchTree) -> (r: usize)
        requires
            self.in_tree(tree@),
        ensures
            r == tree@[self@ as int].guards.len(),
    {
        tree.nodes[self.index].pop_guards.len()
    }

    /// Registers a handler; newer handlers run before older ones.
    pub fn add_handler(
        &self,
        tree: &mut BackDispatchTree,
        callback: impl Fn() -> BackHandlerResult + 'static,
    ) -> (r: BackRegistration)
        requires
            tree_wf(old(tree)@),
            self.in_tree(old(tree)@),
        ensures
            tree_wf(final(tree)@),
            ({
                let n = old(tree)@[self@ as int];
                &&& r@ == (RegistrationView { dispatcher: self@, kind: RegistrationKind::Handler, id: n.next_id })
                &&& exists|e: HandlerEntry| e.id == n.next_id && e.action is Result
                    && final(tree)@ == old(tree)@.update(self@ as int, #[trigger] with_handler(n, e))
            }),
    {
        let action = HandlerAction::Result(handler_callback(callback));
        let ghost e = HandlerEntry { id: old(tree)@[self@ as int].next_id, action };
        let r = self.add_action(tree, action);
        assert(final(tree)@ == old(tree)@.update(self@ as int, with_handler(old(tree)@[self@ as int], e)));
        r
    }

    fn add_action(&self, tree: &mut BackDispatchTree, action: HandlerAction) -> (r: BackRegistration)
        requires
            tree_wf(old(tree)@),
            self.in_tree(old(tree)@),
        ensures
            tree_wf(final(tree)@),
            ({
                let n = old(tree)@[self@ as int];
                &&& r@ == (RegistrationView { dispatcher: self@, kind: RegistrationKind::Handler, id: n.next_id })
                &&& final(tree)@ == old(tree)@.update(self@ as int, DispatcherView {
                    next_id: id_after(n.next_id),
                    handlers: n.handlers.push(HandlerEntry { id: n.next_id, action }),
                    ..n
                })
            }),
    {
        let id = tree.take_next_id(self.index);
        assert(tree.nodes@.len() == tree@.len());
        let ghost mid_nodes = tree.nodes@;
        let ghost mid = tree@;
        tree.nodes[self.index].handlers.push(HandlerEntry { id, action });
        proof {
            let n = old(tree)@[self@ as int];
            assert forall|j: int| 0 <= j < tree@.len() && j != self@ implies tree@[j] == old(tree)@[j] by {
                assert(tree.nodes@[j] == mid_nodes[j]);
                assert(mid[j] == mid_nodes[j].view());
                assert(mid[j] == old(tree)@[j]);
            }
            assert(tree@[self@ as int] == tree.nodes@[self@ as int].view());
            assert(mid[self@ as int] == mid_nodes[self@ as int].view());
            assert(tree.nodes@[self@ as int].handlers@ == mid_nodes[self@ as int].handlers@.push(HandlerEntry { id, action }));
            assert(tree.nodes@[self@ as int].next_id == mid_nodes[self@ as int].next_id);
            assert(tree.nodes@[self@ as int].children == mid_nodes[self@ as int].children);
            assert(tree.nodes@[self@ as int].fallback == mid_nodes[self@ as int].fallback);
            assert(tree.nodes@[self@ as int].pop_guards == mid_nodes[self@ as int].pop_guards);
            assert(tree.nodes@[self@ as int].parent == mid_nodes[self@ as int].parent);
            assert(tree@[self@ as int] == DispatcherView {
                next_id: id_after(n.next_id),
                handlers: n.handlers.push(HandlerEntry { id: n.next_id, action }),
                ..n
            });
            assert(tree.nodes@.len() == mid_nodes.len());
            assert(tree@.len() == old(tree)@.len());
            assert(tree@ =~= old(tree)@.update(self@ as int, DispatcherView {
                next_id: id_after(n.next_id),
                handlers: n.handlers.push(HandlerEntry { id: n.next_id, action }),
                ..n
            }));
        }
        BackRegistration { dispatcher: self.index, kind: RegistrationKind::Handler, id }
    }

    /// Registers a yes/no back callback: yes consumes the action.
    pub fn add_callback(&self, tree: &mut BackDispatchTree, callback: impl Fn() -> bool + 'static) -> (r: BackRegistration)
        requires
            tree_wf(old(tree)@),
            self.in_tree(old(tree)@),
        ensures
            tree_wf(final(tree)@),
            ({
                let n = old(tree)@[self@ as int];
                &&& r@ == (RegistrationView { dispatcher: self@, kind: RegistrationKind::Handler, id: n.next_id })
                &&& exists|e: HandlerEntry| e.id == n.next_id && e.action is Flag
                    && final(tree)@ == old(tree)@.update(self@ as int, #[trigger] with_handler(n, e))
            }),
    {
        let action = HandlerAction::Flag(flag_callback(callback));
        let ghost e = HandlerEntry { id: old(tree)@[self@ as int].next_id, action };
        let r = self.add_action(tree, action);
        assert(final(tree)@ == old(tree)@.update(self@ as int, with_handler(old(tree)@[self@ as int], e)));
        r
    }

    /// The same as [`Self::add_callback`].
    pub fn register_callback(&self, tree: &mut BackDispatchTree, callback: impl Fn() -> bool + 'static) -> (r: BackRegistration)
        requires
            tree_wf(old(tree)@),
            self.in_tree(old(tree)@),
        ensures
            tree_wf(final(tree)@),
            ({
                let n = old(tree)@[self@ as int];
                &&& r@ == (RegistrationView { dispatcher: self@, kind: RegistrationKind::Handler, id: n.next_id })
                &&& exists|e: HandlerEntry| e.id == n.next_id && e.action is Flag
                    && final(tree)@ == old(tree)@.update(self@ as int, #[trigger] with_handler(n, e))
            }),
    {
        self.add_callback(tree, callback)
    }

    /// Registers a pop guard and its post-attempt callback.
    pub fn register_pop_scope(
        &self,
        tree: &mut BackDispatchTree,
        can_pop: impl Fn() -> bool + 'static,
        callback: impl Fn(PopAttempt) + 'static,
    ) -> (r: BackRegistration)
        requires
            tree_wf(old(tree)@),
            self.in_tree(old(tree)@),
        ensures
            tree_wf(final(tree)@),
            ({
                let n = old(tree)@[self@ as int];
                &&& r@ == (RegistrationView { dispatcher: self@, kind: RegistrationKind::PopGuard, id: n.next_id })
                &&& exists|g: PopGuardEntry| g.id == n.next_id
                    && final(tree)@ == old(tree)@.update(self@ as int, #[trigger] with_guard(n, g))
            }),
    {
        let can_pop = flag_callback(can_pop);
        let callback = attempt_callback(callback);
        let ghost g = PopGuardEntry { id: old(tree)@[self@ as int].next_id, can_pop, callback };
        let r = self.add_guard(tree, can_pop, callback);
        assert(final(tree)@ == old(tree)@.update(self@ as int, with_guard(old(tree)@[self@ as int], g)));
        r
    }

    fn add_guard(
        &self,
        tree: &mut BackDispatchTree,
        can_pop: FlagCallback,
        callback: AttemptCallback,
    ) -> (r: BackRegistration)
        requires
            tree_wf(old(tree)@),
            self.in_tree(old(tree)@),
        ensures
            tree_wf(final(tree)@),
            ({
                let n = old(tree)@[self@ as int];
                &&& r@ == (RegistrationView { dispatcher: self@, kind: RegistrationKind::PopGuard, id: n.next_id })
                &&& final(tree)@ == old(tree)@.update(self@ as int, DispatcherView {
                    next_id: id_after(n.next_id),
                    guards: n.guards.push(PopGuardEntry { id: n.next_id, can_pop, callback }),
                    ..n
                })
            }),
    {
        let id = tree.take_next_id(self.index);
        assert(tree.nodes@.len() == tree@.len());
        let ghost mid_nodes = tree.nodes@;
        let ghost mid = tree@;
        tree.nodes[self.index].pop_guards.push(PopGuardEntry { id, can_pop, callback });
        proof {
            let n = old(tree)@[self@ as int];
            assert forall|j: int| 0 <= j < tree@.len() && j != self@ implies tree@[j] == old(tree)@[j] by {
                assert(tree.nodes@[j] == mid_nodes[j]);
                assert(mid[j] == mid_nodes[j].view());
                assert(mid[j] == old(tree)@[j]);
            }
            assert(tree@[self@ as int] == tree.nodes@[self@ as int].view());
            assert(mid[self@ as int] == mid_nodes[self@ as int].view());
            assert(tree@ =~= old(tree)@.update(self@ as int, DispatcherView {
                next_id: id_after(n.next_id),
                guards: n.guards.push(PopGuardEntry { id: n.next_id, can_pop, callback }),
                ..n
            }));
        }
        BackRegistration { dispatcher: self.index, kind: RegistrationKind::PopGuard, id }
    }
}

impl BackDispatchTree {
    /// The first position of dispatcher `child` among the children of `node`.
    fn find_child(&self, node: usize, child: usize) -> (r: Option<usize>)
        requires
            node < self@.len(),
        ensures
            match r {
                Some(k) => first_child_index(self@[node as int].children, child, k as int),
                None => !has_child(self@[node as int].children, child),
            },
    {
        let ghost cs = self@[node as int].children;
        let n = self.nodes[node].children.len();
        let mut k: usize = 0;
        while k < n
            invariant
                node < self@.len(),
                cs == self@[node as int].children,
                n == cs.len(),
                k <= n,
                forall|j: int| 0 <= j < k ==> (#[trigger] cs[j]).child != child,
            decreases n - k,
        {
            if self.nodes[node].children[k].child == child {
                return Some(k);
            }
            k += 1;
        }
        None
    }

    fn replace_children(&mut self, node: usize, children: Vec<ChildEntry>, next_id: u64)
        requires
            node < old(self)@.len(),
            tree_wf(old(self)@),
            forall|j: int| 0 <= j < children@.len() ==> (#[trigger] children@[j]).child < old(self)@.len(),
        ensures
            tree_wf(final(self)@),
            final(self)@ == old(self)@.update(node as int, DispatcherView {
                next_id,
                children: children@,
                ..old(self)@[node as int]
            }),
    {
        let ghost mid_nodes = self.nodes@;
        let ghost cs = children@;
        self.nodes[node].children = children;
        self.nodes[node].next_id = next_id;
        proof {
            assert forall|j: int| 0 <= j < self@.len() && j != node implies self@[j] == old(self)@[j] by {
                assert(self.nodes@[j] == mid_nodes[j]);
            }
            assert(self@[node as int] == DispatcherView { next_id, children: cs, ..old(self)@[node as int] });
            assert(self@ =~= old(self)@.update(node as int, DispatcherView { next_id, children: cs, ..old(self)@[node as int] }));
        }
    }
}

/// `k` is the first position of dispatcher `c` in `children`.
pub open spec fn first_child_index(children: Seq<ChildEntry>, c: usize, k: int) -> bool {
    &&& 0 <= k < children.len()
    &&& children[k].child == c
    &&& forall|j: int| 0 <= j < k ==> (#[trigger] children[j]).child != c
}

impl BackButtonDispatcher {
    /// Attaches `child` as this dispatcher's newest child. Attaching a
    /// dispatcher to itself or attaching it twice changes nothing and gives
    /// a no-op token.
    pub fn attach_child(&self, tree: &mut BackDispatchTree, child: &BackButtonDispatcher) -> (r: BackRegistration)
        requires
            tree_wf(old(tree)@),
            self.in_tree(old(tree)@),
            child.in_tree(old(tree)@),
        ensures
            tree_wf(final(tree)@),
            ({
                let n = old(tree)@[self@ as int];
                if self@ == child@ || has_child(n.children, child@) {
                    &&& r@.kind == RegistrationKind::Noop
                    &&& final(tree)@ == old(tree)@
                } else {
                    &&& r@ == (RegistrationView { dispatcher: self@, kind: RegistrationKind::Child, id: n.next_id })
                    &&& final(tree)@ == old(tree)@.update(self@ as int, DispatcherView {
                        next_id: id_after(n.next_id),
                        children: n.children.push(ChildEntry { id: n.next_id, child: child@ }),
                        ..n
                    })
                }
            }),
    {
        if self.index == child.index {
            return BackRegistration::noop();
        }
        match tree.find_child(self.index, child.index) {
            Some(_) => BackRegistration::noop(),
            None => {
                let id = tree.nodes[self.index].next_id;
                let next = if id == u64::MAX { 1 } else { id + 1 };
                let mut children: Vec<ChildEntry> = tree.copy_children(self.index);
                children.push(ChildEntry { id, child: child.index });
                tree.replace_children(self.index, children, next);
                BackRegistration { dispatcher: self.index, kind: RegistrationKind::Child, id }
            },
        }
    }

    /// Creates a dispatcher attached as this one's newest child, with this
    /// one as its parent.
    pub fn create_child(&self, tree: &mut BackDispatchTree) -> (r: Self)
        requires
            tree_wf(old(tree)@),
            self.in_tree(old(tree)@),
        ensures
            tree_wf(final(tree)@),
            r@ == old(tree)@.len(),
            ({
                let n = old(tree)@[self@ as int];
                final(tree)@ == old(tree)@.push(empty_dispatcher(Some(self@))).update(self@ as int, DispatcherView {
                    next_id: id_after(n.next_id),
                    children: n.children.push(ChildEntry { id: n.next_id, child: r@ }),
                    ..n
                })
            }),
    {
        let index = tree.add_node(Some(self.index));
        let child = BackButtonDispatcher { index };
        proof {
            assert(!has_child(tree@[self@ as int].children, index)) by {
                if has_child(tree@[self@ as int].children, index) {
                    let j = choose|j: int| 0 <= j < tree@[self@ as int].children.len()
                        && (#[trigger] tree@[self@ as int].children[j]).child == index;
                    assert(old(tree)@[self@ as int].children[j].child < old(tree)@.len());
                }
            }
        }
        let _link = self.attach_child(tree, &child);
        child
    }

    /// The same as [`Self::create_child`].
    pub fn create_child_back_button_dispatcher(&self, tree: &mut BackDispatchTree) -> (r: Self)
        requires
            tree_wf(old(tree)@),
            self.in_tree(old(tree)@),
        ensures
            tree_wf(final(tree)@),
            r@ == old(tree)@.len(),
            ({
                let n = old(tree)@[self@ as int];
                final(tree)@ == old(tree)@.push(empty_dispatcher(Some(self@))).update(self@ as int, DispatcherView {
                    next_id: id_after(n.next_id),
                    children: n.children.push(ChildEntry { id: n.next_id, child: r@ }),
                    ..n
                })
            }),
    {
        self.create_child(tree)
    }

    /// Moves `child` to the newest-priority position, attaching it when it
    /// is not a child yet.
    pub fn defer_to(&self, tree: &mut BackDispatchTree, child: &BackButtonDispatcher)
        requires
            tree_wf(old(tree)@),
            self.in_tree(old(tree)@),
            child.in_tree(old(tree)@),
        ensures
            tree_wf(final(tree)@),
            final(tree)@[self@ as int].children.len() > 0,
            final(tree)@[self@ as int].children.last().child == child@,
            ({
                let n = old(tree)@[self@ as int];
                if has_child(n.children, child@) {
                    exists|k: int| first_child_index(n.children, child@, k)
                        && final(tree)@ == old(tree)@.update(self@ as int, DispatcherView {
                            children: n.children.remove(k).push(n.children[k]),
                            ..n
                        })
                } else {
                    final(tree)@ == old(tree)@.update(self@ as int, DispatcherView {
                        next_id: id_after(n.next_id),
                        children: n.children.push(ChildEntry { id: n.next_id, child: child@ }),
                        ..n
                    })
                }
            }),
    {
        let ghost n = old(tree)@[self@ as int];
        let id = tree.nodes[self.index].next_id;
        let mut children: Vec<ChildEntry> = tree.copy_children(self.index);
        match tree.find_child(self.index, child.index) {
            Some(k) => {
                let entry = children.remove(k);
                children.push(entry);
                proof {
                    assert(children@ =~= n.children.remove(k as int).push(n.children[k as int]));
                    assert forall|j: int| 0 <= j < children@.len() implies (#[trigger] children@[j]).child < old(tree)@.len() by {
                        if j < k {
                            assert(children@[j] == n.children[j]);
                        } else if j < children@.len() - 1 {
                            assert(children@[j] == n.children[j + 1]);
                        }
                    }
                }
                tree.replace_children(self.index, children, id);
                proof {
                    assert(first_child_index(n.children, child@, k as int));
                }
            },
            None => {
                let next = if id == u64::MAX { 1 } else { id + 1 };
                children.push(ChildEntry { id, child: child.index });
                tree.replace_children(self.index, children, next);
            },
        }
    }

    /// Gives this dispatcher priority over its siblings; on a dispatcher
    /// without a parent, drops all of its children.
    pub fn take_priority(&self, tree: &mut BackDispatchTree)
        requires
            tree_wf(old(tree)@),
            self.in_tree(old(tree)@),
        ensures
            tree_wf(final(tree)@),
            old(tree)@[self@ as int].parent matches Some(p) ==> final(tree)@[p as int].children.len() > 0
                && final(tree)@[p as int].children.last().child == self@,
            ({
                let t = old(tree)@;
                match t[self@ as int].parent {
                    Some(p) => {
                        let n = t[p as int];
                        if has_child(n.children, self@) {
                            exists|k: int| first_child_index(n.children, self@, k)
                                && final(tree)@ == t.update(p as int, DispatcherView {
                                    children: n.children.remove(k).push(n.children[k]),
                                    ..n
                                })
                        } else {
                            final(tree)@ == t.update(p as int, DispatcherView {
                                next_id: id_after(n.next_id),
                                children: n.children.push(ChildEntry { id: n.next_id, child: self@ }),
                                ..n
                            })
                        }
                    },
                    None => final(tree)@ == t.update(self@ as int, DispatcherView {
                        children: Seq::empty(),
                        ..t[self@ as int]
                    }),
                }
            }),
    {
        match tree.nodes[self.index].parent {
            Some(p) => {
                let parent = BackButtonDispatcher { index: p };
                parent.defer_to(tree, self);
            },
            None => {
                let id = tree.nodes[self.index].next_id;
                tree.replace_children(self.index, Vec::new(), id);
                assert(tree@ =~= old(tree)@.update(self@ as int, DispatcherView {
                    children: Seq::empty(),
                    ..old(tree)@[self@ as int]
                }));
            },
        }
    }

    /// Detaches every entry of `child` without touching the child itself.
    pub fn detach_child(&self, tree: &mut BackDispatchTree, child: &BackButtonDispatcher)
        requires
            tree_wf(old(tree)@),
            self.in_tree(old(tree)@),
        ensures
            tree_wf(final(tree)@),
            final(tree)@ == old(tree)@.update(self@ as int, DispatcherView {
                children: old(tree)@[self@ as int].children.filter(other_children(false, 0, child@)),
                ..old(tree)@[self@ as int]
            }),
    {
        tree.retain_children_where(self.index, false, 0, child.index);
    }
}

impl BackDispatchTree {
    fn copy_children(&self, node: usize) -> (r: Vec<ChildEntry>)
        requires
            node < self@.len(),
        ensures
            r@ == self@[node as int].children,
    {
        let ghost cs = self@[node as int].children;
        let n = self.nodes[node].children.len();
        let mut out: Vec<ChildEntry> = Vec::new();
        let mut i: usize = 0;
        while i < n
            invariant
                node < self@.len(),
                cs == self@[node as int].children,
                n == cs.len(),
                i <= n,
                out@ == cs.take(i as int),
            decreases n - i,
        {
            out.push(self.nodes[node].children[i]);
            assert(out@ =~= cs.take(i as int + 1));
            i += 1;
        }
        assert(cs.take(n as int) =~= cs);
        out
    }
}

/// One step of a back dispatch, in the order the steps are tried.
#[derive(Clone, Copy, Debug, PartialEq, Eq, Structural)]
pub enum DispatchStage {
    /// A dispatcher reached a second time: it answers unhandled.
    Skip { depth: usize },
    /// Handler `index` of dispatcher `node`.
    Handler { node: usize, index: usize, depth: usize },
    /// The pop guards and fallback of dispatcher `node`.
    Pop { node: usize, depth: usize },
}

/// The handlers of `node`, newest first.
pub open spec fn handler_stages(node: usize, count: nat, depth: usize) -> Seq<DispatchStage> {
    Seq::new(count, |i: int| DispatchStage::Handler { node, index: (count - 1 - i) as usize, depth })
}

/// The steps of dispatching from `node`: a dispatcher already visited is
/// skipped; otherwise its children (newest first, one level deeper), its
/// handlers (newest first) and its pop stage, in that order. Returns the
/// steps and the visited marks after them. `fuel` bounds the nesting.
pub open spec fn walk(
    t: Seq<DispatcherView>,
    node: usize,
    depth: usize,
    visited: Seq<bool>,
    fuel: nat,
) -> (Seq<DispatchStage>, Seq<bool>)
    decreases fuel, 0nat, 0nat,
{
    if fuel == 0 || node >= t.len() || node >= visited.len() || visited[node as int] {
        (seq![DispatchStage::Skip { depth }], visited)
    } else {
        let v1 = visited.update(node as int, true);
        let (cs, v2) = walk_children(t, node, t[node as int].children.len(), (depth + 1) as usize, v1, (fuel - 1) as nat);
        (cs + handler_stages(node, t[node as int].handlers.len(), depth) + seq![DispatchStage::Pop { node, depth }], v2)
    }
}

/// The steps of the first `k` children of `node`, the newest first.
pub open spec fn walk_children(
    t: Seq<DispatcherView>,
    node: usize,
    k: nat,
    depth: usize,
    visited: Seq<bool>,
    fuel: nat,
) -> (Seq<DispatchStage>, Seq<bool>)
    decreases fuel, 1nat, k,
{
    if k == 0 || node >= t.len() || k > t[node as int].children.len() {
        (Seq::empty(), visited)
    } else {
        let (s1, v1) = walk(t, t[node as int].children[k - 1].child, depth, visited, fuel);
        let (s2, v2) = walk_children(t, node, (k - 1) as nat, depth, v1, fuel);
        (s1 + s2, v2)
    }
}

/// The steps of a dispatch started at `root`.
pub open spec fn dispatch_stages(t: Seq<DispatcherView>, root: usize) -> Seq<DispatchStage> {
    walk(t, root, 0, Seq::new(t.len(), |i: int| false), (t.len() + 1) as nat).0
}

/// A step names a dispatcher and handler of the tree.
pub open spec fn valid_stage(t: Seq<DispatcherView>, st: DispatchStage) -> bool {
    match st {
        DispatchStage::Skip { .. } => true,
        DispatchStage::Handler { node, index, .. } => node < t.len() && index < t[node as int].handlers.len(),
        DispatchStage::Pop { node, .. } => node < t.len(),
    }
}

/// Every step names a dispatcher and handler of the tree.
pub open spec fn valid_stages(t: Seq<DispatcherView>, s: Seq<DispatchStage>) -> bool {
    forall|i: int| 0 <= i < s.len() ==> valid_stage(t, #[trigger] s[i])
}

impl BackDispatchTree {
    fn plan_node(
        &self,
        node: usize,
        depth: usize,
        visited: &mut Vec<bool>,
        fuel: usize,
        out: &mut Vec<DispatchStage>,
    )
        requires
            tree_wf(self@),
            node < self@.len(),
            old(visited)@.len() == self@.len(),
            depth as int + fuel as int <= usize::MAX,
            valid_stages(self@, old(out)@),
        ensures
            final(visited)@.len() == self@.len(),
            final(out)@ == old(out)@ + walk(self@, node, depth, old(visited)@, fuel as nat).0,
            final(visited)@ == walk(self@, node, depth, old(visited)@, fuel as nat).1,
            valid_stages(self@, final(out)@),
        decreases fuel, 0nat, 0nat,
    {
        let ghost out0 = out@;
        if fuel == 0 || visited[node] {
            out.push(DispatchStage::Skip { depth });
            return;
        }
        visited.set(node, true);
        let k = self.nodes[node].children.len();
        self.plan_children(node, k, depth + 1, visited, fuel - 1, out);
        let ghost out1 = out@;
        let h = self.nodes[node].handlers.len();
        let ghost hs = handler_stages(node, h as nat, depth);
        let mut j: usize = 0;
        while j < h
            invariant
                node < self@.len(),
                h == self@[node as int].handlers.len(),
                j <= h,
                hs == handler_stages(node, h as nat, depth),
                out@ == out1 + hs.take(j as int),
                valid_stages(self@, out1),
                valid_stages(self@, out@),
            decreases h - j,
        {
            out.push(DispatchStage::Handler { node, index: h - 1 - j, depth });
            proof {
                assert(hs.take(j as int + 1) =~= hs.take(j as int).push(hs[j as int]));
                assert(out@ =~= out1 + hs.take(j as int + 1));
            }
            j += 1;
        }
        out.push(DispatchStage::Pop { node, depth });
        proof {
            assert(hs.take(h as int) =~= hs);
            let (cs, v2) = walk_children(self@, node, self@[node as int].children.len(), (depth + 1) as usize,
                old(visited)@.update(node as int, true), (fuel - 1) as nat);
            assert(out1 =~= out0 + cs);
            assert(out@ =~= out0 + (cs + hs + seq![DispatchStage::Pop { node, depth }]));
        }
    }

    fn plan_children(
        &self,
        node: usize,
        k: usize,
        depth: usize,
        visited: &mut Vec<bool>,
        fuel: usize,
        out: &mut Vec<DispatchStage>,
    )
        requires
            tree_wf(self@),
            node < self@.len(),
            k <= self@[node as int].children.len(),
            old(visited)@.len() == self@.len(),
            depth as int + fuel as int <= usize::MAX,
            valid_stages(self@, old(out)@),
        ensures
            final(visited)@.len() == self@.len(),
            final(out)@ == old(out)@ + walk_children(self@, node, k as nat, depth, old(visited)@, fuel as nat).0,
            final(visited)@ == walk_children(self@, node, k as nat, depth, old(visited)@, fuel as nat).1,
            valid_stages(self@, final(out)@),
        decreases fuel, 1nat, k,
    {
        if k == 0 {
            assert(out@ =~= old(out)@ + Seq::<DispatchStage>::empty());
            return;
        }
        let child = self.nodes[node].children[k - 1].child;
        proof {
            assert(self@[node as int].children[k - 1].child < self@.len());
        }
        let ghost out0 = out@;
        self.plan_node(child, depth, visited, fuel, out);
        let ghost out1 = out@;
        self.plan_children(node, k - 1, depth, visited, fuel, out);
        proof {
            let (s1, v1) = walk(self@, child, depth, old(visited)@, fuel as nat);
            let (s2, v2) = walk_children(self@, node, (k - 1) as nat, depth, v1, fuel as nat);
            assert(out@ =~= out0 + (s1 + s2));
        }
    }
}

impl BackButtonDispatcher {
    /// The steps a dispatch from this dispatcher tries, in order.
    pub fn dispatch_plan(&self, tree: &BackDispatchTree) -> (r: Vec<DispatchStage>)
        requires
            tree_wf(tree@),
            self.in_tree(tree@),
            tree@.len() < usize::MAX,
        ensures
            r@ == dispatch_stages(tree@, self@),
            valid_stages(tree@, r@),
    {
        let n = tree.nodes.len();
        let mut visited: Vec<bool> = Vec::new();
        let mut i: usize = 0;
        while i < n
            invariant
                n == tree@.len(),
                i <= n,
                visited@ == Seq::new(i as nat, |j: int| false),
            decreases n - i,
        {
            visited.push(false);
            assert(visited@ =~= Seq::new(i as nat + 1, |j: int| false));
            i += 1;
        }
        assert(visited@ =~= Seq::new(tree@.len(), |j: int| false));
        let mut out: Vec<DispatchStage> = Vec::new();
        tree.plan_node(self.index, 0, &mut visited, n + 1, &mut out);
        assert(out@ =~= dispatch_stages(tree@, self@));
        out
    }
}

/// The reports a pop stage can give: those of [`pop_stage_report`] for
/// some answer of the guards and, when there is a fallback, some attempt of
/// it.
pub open spec fn pop_outcome_fits(guards_empty: bool, has_fallback: bool, depth: usize, o: BackDispatchReport) -> bool {
    if has_fallback {
        exists|can_pop: bool, attempt: PopAttempt| o == #[trigger] pop_stage_report(guards_empty, can_pop, Some(attempt), depth)
    } else {
        exists|can_pop: bool| o == #[trigger] pop_stage_report(guards_empty, can_pop, None, depth)
    }
}

/// The reports a step can give. A skipped dispatcher is unhandled; a
/// handler reports at its depth, and a yes/no handler only as handled or
/// unhandled; a pop stage as [`pop_outcome_fits`] says, the fallback given
/// for the dispatch counting at the root.
pub open spec fn stage_fits(
    t: Seq<DispatcherView>,
    root: usize,
    fallback_given: bool,
    st: DispatchStage,
    o: BackDispatchReport,
) -> bool {
    match st {
        DispatchStage::Skip { depth } => o == unhandled_report(depth),
        DispatchStage::Handler { node, index, depth } => {
            &&& o.depth == depth
            &&& t[node as int].handlers[index as int].action is Flag ==> (o == report_of_result(result_handled(), depth)
                || o == report_of_result(result_unhandled(), depth))
        },
        DispatchStage::Pop { node, depth } => pop_outcome_fits(
            t[node as int].guards.len() == 0,
            t[node as int].fallback is Some || (node == root && fallback_given),
            depth,
            o,
        ),
    }
}

/// `outs` are the reports of the steps tried, in order: each fits its
/// step, every one but the last let the action through, and the last ended
/// the dispatch or was the last step; `r` is the last report.
pub open spec fn dispatch_fits(
    t: Seq<DispatcherView>,
    root: usize,
    fallback_given: bool,
    stages: Seq<DispatchStage>,
    outs: Seq<BackDispatchReport>,
    r: BackDispatchReport,
) -> bool {
    &&& 1 <= outs.len() <= stages.len()
    &&& forall|i: int| 0 <= i < outs.len() ==> #[trigger] stage_fits(t, root, fallback_given, stages[i], outs[i])
    &&& forall|i: int| 0 <= i < outs.len() - 1 ==> !decisive(#[trigger] outs[i])
    &&& decisive(outs.last()) || outs.len() == stages.len()
    &&& r == outs.last()
}

impl BackDispatchTree {
    fn run_pop_stage(&mut self, node: usize, depth: usize, fallback_override: &Option<FallbackCallback>) -> (r: BackDispatchReport)
        requires
            node < old(self)@.len(),
        ensures
            final(self)@ == old(self)@,
            final(self).steps_spec() == old(self).steps_spec(),
            exists|can_pop: bool, attempt: Option<PopAttempt>, told: Seq<GuardNotice>| #[trigger] pop_run(
                old(self)@[node as int].guards.len(),
                has_pop_fallback(old(self)@[node as int], fallback_override is Some),
                depth,
                node,
                can_pop,
                attempt,
                r,
                told,
            ) && final(self).notices_spec() == old(self).notices_spec() + told,
    {
        let ghost notices0 = self.notices@;
        let ghost has_fallback = has_pop_fallback(self@[node as int], fallback_override is Some);
        let n = self.nodes[node].pop_guards.len();
        assert(self@[node as int] == self.nodes@[node as int].view());
        assert(old(self)@[node as int].guards.len() == n);
        let attempt_first: Option<PopAttempt> = if n == 0 {
            match fallback_override {
                Some(f) => Some(call_fallback(f)),
                None => match &self.nodes[node].fallback {
                    Some(f) => Some(call_fallback(f)),
                    None => None,
                },
            }
        } else {
            None
        };
        if n == 0 {
            let ghost att_g = attempt_first;
            let r = pop_stage_decision(true, true, attempt_first, depth);
            proof {
                assert(pop_run(old(self)@[node as int].guards.len(), has_fallback, depth, node, true, att_g, r, Seq::empty()));
                assert(self.notices@ =~= notices0 + Seq::<GuardNotice>::empty());
            }
            return r;
        }
        let mut can_pop = true;
        let mut i: usize = 0;
        while i < n && can_pop
            invariant
                n == self.nodes@[node as int].pop_guards@.len(),
                node < self.nodes@.len(),
                i <= n,
            decreases n - i,
        {
            can_pop = call_flag(&self.nodes[node].pop_guards[i].can_pop);
            i += 1;
        }
        let attempt: Option<PopAttempt> = if can_pop {
            match fallback_override {
                Some(f) => Some(call_fallback(f)),
                None => match &self.nodes[node].fallback {
                    Some(f) => Some(call_fallback(f)),
                    None => None,
                },
            }
        } else {
            None
        };
        let ghost att_g = attempt;
        let ghost shown: Option<PopAttempt> = if has_fallback {
            Some(match att_g { Some(a) => a, None => pop_unhandled() })
        } else {
            None
        };
        let told = if !can_pop {
            PopAttempt::blocked()
        } else {
            match &attempt {
                Some(a) => a.copy(),
                None => PopAttempt::unhandled(),
            }
        };
        proof {
            assert(told == pop_told(can_pop, shown));
        }
        let mut j: usize = 0;
        while j < n
            invariant
                n == self.nodes@[node as int].pop_guards@.len(),
                node < self.nodes@.len(),
                self@ == old(self)@,
                self.steps@ == old(self).steps_spec(),
                j <= n,
                self.notices@ == notices0 + guard_notices(node, j as nat, told),
            decreases n - j,
        {
            call_attempt(&self.nodes[node].pop_guards[j].callback, told.copy());
            proof {
                self.notices@ = self.notices@.push(GuardNotice { node, guard: j as nat, attempt: told });
                assert(guard_notices(node, j as nat + 1, told) =~= guard_notices(node, j as nat, told).push(
                    GuardNotice { node, guard: j as nat, attempt: told }));
            }
            j += 1;
        }
        let r = pop_stage_decision(false, can_pop, attempt, depth);
        proof {
            assert(r == pop_stage_report(false, can_pop, shown, depth));
            assert(pop_run(old(self)@[node as int].guards.len(), has_fallback, depth, node, can_pop, shown, r, guard_notices(node, n as nat, told)));
            assert(self.notices_spec() == old(self).notices_spec() + guard_notices(node, n as nat, told));
        }
        r
    }

    /// Records, next to it, a dispatch step taken.
    fn note_step(&mut self, st: DispatchStage)
        ensures
            final(self)@ == old(self)@,
            final(self).steps_spec() == old(self).steps_spec().push(st),
            final(self).notices_spec() == old(self).notices_spec(),
    {
        proof {
            self.steps@ = self.steps@.push(st);
        }
    }

    fn run_stage(&mut self, root: usize, st: DispatchStage, fallback_override: &Option<FallbackCallback>) -> (r: BackDispatchReport)
        requires
            valid_stage(old(self)@, st),
        ensures
            final(self)@ == old(self)@,
            final(self).steps_spec() == old(self).steps_spec().push(st),
            stage_fits(old(self)@, root, fallback_override is Some, st, r),
            exists|told: Seq<GuardNotice>| #[trigger] told_fits(old(self)@, root, fallback_override is Some, st, r, told)
                && final(self).notices_spec() == old(self).notices_spec() + told,
    {
        let ghost notices0 = self.notices@;
        let r = match st {
            DispatchStage::Skip { depth } => BackDispatchReport { handled: false, depth, blocked: false, pop: None },
            DispatchStage::Handler { node, index, depth } => {
                let result = match &self.nodes[node].handlers[index].action {
                    HandlerAction::Result(h) => call_handler(h),
                    HandlerAction::Flag(f) => if call_flag(f) {
                        BackHandlerResult::handled()
                    } else {
                        BackHandlerResult::unhandled()
                    },
                };
                BackDispatchReport::from_result(result, depth)
            },
            DispatchStage::Pop { node, depth } => {
                let ghost given = given_at(node, root, fallback_override is Some);
                let r = if node == root {
                    self.run_pop_stage(node, depth, fallback_override)
                } else {
                    self.run_pop_stage(node, depth, &None)
                };
                proof {
                    let (c, a, t) = choose|c: bool, a: Option<PopAttempt>, t: Seq<GuardNotice>| #[trigger] pop_run(
                        old(self)@[node as int].guards.len(),
                        has_pop_fallback(old(self)@[node as int], given),
                        depth, node, c, a, r, t) && self.notices_spec() == old(self).notices_spec() + t;
                    assert(told_fits(old(self)@, root, fallback_override is Some, st, r, t));
                }
                r
            },
        };
        let ghost mid_notices = self.notices_spec();
        self.note_step(st);
        proof {
            match st {
                DispatchStage::Pop { .. } => {},
                _ => {
                    assert(self.notices@ =~= notices0 + Seq::<GuardNotice>::empty());
                    assert(told_fits(old(self)@, root, fallback_override is Some, st, r, Seq::<GuardNotice>::empty()));
                },
            }
        }
        r
    }

    fn run_stages(&mut self, root: usize, stages: &Vec<DispatchStage>, fallback_override: &Option<FallbackCallback>) -> (r: BackDispatchReport)
        requires
            valid_stages(old(self)@, stages@),
            stages@.len() >= 1,
        ensures
            final(self)@ == old(self)@,
            exists|outs: Seq<BackDispatchReport>, tolds: Seq<Seq<GuardNotice>>|
                #[trigger] dispatch_fits(old(self)@, root, fallback_override is Some, stages@, outs, r)
                && final(self).steps_spec() == old(self).steps_spec() + stages@.take(outs.len() as int)
                && #[trigger] dispatch_told(old(self)@, root, fallback_override is Some, stages@, outs, tolds,
                    old(self).notices_spec(), final(self).notices_spec()),
    {
        let ghost steps0 = self.steps_spec();
        let ghost notices0 = self.notices_spec();
        let ghost mut outs: Seq<BackDispatchReport> = Seq::empty();
        let ghost mut tolds: Seq<Seq<GuardNotice>> = Seq::empty();
        assert(notices0 + concat_notices(tolds) =~= notices0);
        let mut last = BackDispatchReport { handled: false, depth: 0, blocked: false, pop: None };
        let mut i: usize = 0;
        assert(steps0 + stages@.take(0) =~= steps0);
        while i < stages.len()
            invariant
                self@ == old(self)@,
                steps0 == old(self).steps_spec(),
                valid_stages(self@, stages@),
                stages@.len() >= 1,
                i <= stages@.len(),
                outs.len() == i,
                self.steps_spec() == steps0 + stages@.take(i as int),
                notices0 == old(self).notices_spec(),
                dispatch_told(self@, root, fallback_override is Some, stages@, outs, tolds, notices0, self.notices_spec()),
                i > 0 ==> last == outs.last(),
                forall|k: int| 0 <= k < i ==> #[trigger] stage_fits(self@, root, fallback_override is Some, stages@[k], outs[k]),
                forall|k: int| 0 <= k < i ==> !decisive(#[trigger] outs[k]),
            decreases stages@.len() - i,
        {
            let ghost n_before = self.notices_spec();
            let o = self.run_stage(root, stages[i], fallback_override);
            proof {
                let told = choose|told: Seq<GuardNotice>| #[trigger] told_fits(self@, root, fallback_override is Some, stages@[i as int], o, told)
                    && self.notices_spec() == n_before + told;
                let tolds0 = tolds;
                tolds = tolds.push(told);
                assert(tolds.drop_last() =~= tolds0);
                assert(concat_notices(tolds) == concat_notices(tolds0) + told);
                assert(self.notices_spec() =~= notices0 + concat_notices(tolds));
                assert forall|k: int| 0 <= k < outs.len() + 1 implies #[trigger] told_fits(self@, root, fallback_override is Some, stages@[k], outs.push(o)[k], tolds[k]) by {
                    if k < outs.len() {
                        assert(outs.push(o)[k] == outs[k]);
                        assert(tolds[k] == tolds0[k]);
                    }
                }
                outs = outs.push(o);
                assert(stages@.take(i as int + 1) =~= stages@.take(i as int).push(stages@[i as int]));
                assert(self.steps_spec() =~= steps0 + stages@.take(i as int + 1));
            }
            if o.handled || o.blocked {
                proof {
                    assert(dispatch_fits(old(self)@, root, fallback_override is Some, stages@, outs, o)
                        && self.steps_spec() == old(self).steps_spec() + stages@.take(outs.len() as int)
                        && dispatch_told(old(self)@, root, fallback_override is Some, stages@, outs, tolds,
                            old(self).notices_spec(), self.notices_spec()));
                }
                return o;
            }
            last = o;
            i += 1;
        }
        proof {
            assert(dispatch_fits(old(self)@, root, fallback_override is Some, stages@, outs, last)
                && self.steps_spec() == old(self).steps_spec() + stages@.take(outs.len() as int)
                && dispatch_told(old(self)@, root, fallback_override is Some, stages@, outs, tolds,
                    old(self).notices_spec(), self.notices_spec()));
        }
        last
    }
}

/// The steps of a dispatch are never empty.
proof fn lemma_walk_nonempty(t: Seq<DispatcherView>, node: usize, depth: usize, visited: Seq<bool>, fuel: nat)
    ensures
        walk(t, node, depth, visited, fuel).0.len() >= 1,
{
}

impl BackButtonDispatcher {
    /// Dispatches a back action through the children (newest first), then
    /// the handlers (newest first), then the pop guards and the fallback.
    /// The report is that of the first step that consumed or blocked the
    /// action, or of this dispatcher's pop stage when none did.
    pub fn dispatch_back(&self, tree: &mut BackDispatchTree) -> (r: BackDispatchReport)
        requires
            tree_wf(old(tree)@),
            self.in_tree(old(tree)@),
            old(tree)@.len() < usize::MAX,
        ensures
            final(tree)@ == old(tree)@,
            exists|outs: Seq<BackDispatchReport>, tolds: Seq<Seq<GuardNotice>>|
                #[trigger] dispatch_fits(old(tree)@, self@, false, dispatch_stages(old(tree)@, self@), outs, r)
                && final(tree).steps_spec() == old(tree).steps_spec() + dispatch_stages(old(tree)@, self@).take(outs.len() as int)
                && #[trigger] dispatch_told(old(tree)@, self@, false, dispatch_stages(old(tree)@, self@), outs, tolds,
                    old(tree).notices_spec(), final(tree).notices_spec()),
    {
        let stages = self.dispatch_plan(tree);
        proof {
            lemma_walk_nonempty(tree@, self@, 0, Seq::new(tree@.len(), |i: int| false), (tree@.len() + 1) as nat);
        }
        tree.run_stages(self.index, &stages, &None)
    }

    /// The same as [`Self::dispatch_back`].
    pub fn invoke_callback(&self, tree: &mut BackDispatchTree) -> (r: BackDispatchReport)
        requires
            tree_wf(old(tree)@),
            self.in_tree(old(tree)@),
            old(tree)@.len() < usize::MAX,
        ensures
            final(tree)@ == old(tree)@,
            exists|outs: Seq<BackDispatchReport>, tolds: Seq<Seq<GuardNotice>>|
                #[trigger] dispatch_fits(old(tree)@, self@, false, dispatch_stages(old(tree)@, self@), outs, r)
                && final(tree).steps_spec() == old(tree).steps_spec() + dispatch_stages(old(tree)@, self@).take(outs.len() as int)
                && #[trigger] dispatch_told(old(tree)@, self@, false, dispatch_stages(old(tree)@, self@), outs, tolds,
                    old(tree).notices_spec(), final(tree).notices_spec()),
    {
        self.dispatch_back(tree)
    }

    /// Dispatches with a one-shot fallback that replaces this dispatcher's
    /// own fallback.
    pub fn dispatch_back_with_fallback(&self, tree: &mut BackDispatchTree, fallback: impl Fn() -> PopAttempt + 'static) -> (r: BackDispatchReport)
        requires
            tree_wf(old(tree)@),
            self.in_tree(old(tree)@),
            old(tree)@.len() < usize::MAX,
        ensures
            final(tree)@ == old(tree)@,
            exists|outs: Seq<BackDispatchReport>, tolds: Seq<Seq<GuardNotice>>|
                #[trigger] dispatch_fits(old(tree)@, self@, true, dispatch_stages(old(tree)@, self@), outs, r)
                && final(tree).steps_spec() == old(tree).steps_spec() + dispatch_stages(old(tree)@, self@).take(outs.len() as int)
                && #[trigger] dispatch_told(old(tree)@, self@, true, dispatch_stages(old(tree)@, self@), outs, tolds,
                    old(tree).notices_spec(), final(tree).notices_spec()),
    {
        let stages = self.dispatch_plan(tree);
        proof {
            lemma_walk_nonempty(tree@, self@, 0, Seq::new(tree@.len(), |i: int| false), (tree@.len() + 1) as nat);
        }
        tree.run_stages(self.index, &stages, &Some(fallback_callback(fallback)))
    }
}

/// A shared handle to a caller-supplied callback told of a pop's result.
#[verifier::external_body]
pub struct ResultCallback {
    inner: Rc<dyn Fn(Option<Value>)>,
}

/// Moves a result callback behind a shared handle (`Rc::new`).
#[verifier::external_body]
fn result_callback<F: Fn(Option<Value>) + 'static>(f: F) -> ResultCallback {
    ResultCallback { inner: Rc::new(f) }
}

/// Tells a result callback of `result`; nothing is stated of its effect.
#[verifier::external_body]
fn call_result(c: &ResultCallback, result: Option<Value>) {
    (c.inner)(result)
}

/// A shared handle to a caller-supplied callback told whether a pop
/// happened and with which result.
#[verifier::external_body]
pub struct PopInvokedCallback {
    inner: Rc<dyn Fn(bool, Option<Value>)>,
}

/// Moves a pop-invoked callback behind a shared handle (`Rc::new`).
#[verifier::external_body]
fn pop_invoked_callback<F: Fn(bool, Option<Value>) + 'static>(f: F) -> PopInvokedCallback {
    PopInvokedCallback { inner: Rc::new(f) }
}

/// Tells a pop-invoked callback of an attempt; nothing is stated of its effect.
#[verifier::external_body]
fn call_pop_invoked(c: &PopInvokedCallback, did_pop: bool, result: Option<Value>) {
    (c.inner)(did_pop, result)
}

/// A shared handle to a caller-supplied callback told only whether a pop
/// happened.
#[verifier::external_body]
pub struct DidPopCallback {
    inner: Rc<dyn Fn(bool)>,
}

/// Moves a did-pop callback behind a shared handle (`Rc::new`).
#[verifier::external_body]
fn did_pop_callback<F: Fn(bool) + 'static>(f: F) -> DidPopCallback {
    DidPopCallback { inner: Rc::new(f) }
}

/// Tells a did-pop callback whether a pop happened; nothing is stated of its effect.
#[verifier::external_body]
fn call_did_pop(c: &DidPopCallback, did_pop: bool) {
    (c.inner)(did_pop)
}

/// The callback of a pop scope.
pub enum PopScopeCallback {
    /// Told whether the pop happened and the route's result.
    WithResult(PopInvokedCallback),
    /// Told only whether the pop happened.
    DidPop(DidPopCallback),
}

/// Whether a route may pop, and who is told of each attempt.
pub struct PopScopeController {
    can_pop: bool,
    callback: Option<PopScopeCallback>,
    notices: Ghost<Seq<PopNotice>>,
}

/// A pop attempt told to a pop scope's callback: whether the route popped
/// and the route's result.
pub struct PopNotice {
    pub did_pop: bool,
    pub result: Option<Value>,
}

impl PopScopeController {
    /// The current pop permission.
    pub closed spec fn can_pop_spec(&self) -> bool {
        self.can_pop
    }

    /// Whether a callback is installed.
    pub closed spec fn has_callback(&self) -> bool {
        self.callback is Some
    }

    /// The pop attempts told to the installed callbacks so far, oldest first.
    pub closed spec fn notices_spec(&self) -> Seq<PopNotice> {
        self.notices@
    }

    /// A controller whose route may pop, with no callback.
    pub fn new() -> (r: Self)
        ensures
            r.can_pop_spec(),
            !r.has_callback(),
    {
        PopScopeController { can_pop: true, callback: None, notices: Ghost(Seq::empty()) }
    }

    /// The current pop permission.
    pub fn can_pop(&self) -> (r: bool)
        ensures
            r == self.can_pop_spec(),
    {
        self.can_pop
    }

    /// Updates the pop permission.
    pub fn set_can_pop(&mut self, can_pop: bool)
        ensures
            final(self).can_pop_spec() == can_pop,
            final(self).has_callback() == old(self).has_callback(),
            final(self).notices_spec() == old(self).notices_spec(),
    {
        self.can_pop = can_pop;
    }

    /// Installs a callback told of the did-pop bit and the route's result.
    pub fn set_on_pop_invoked_with_result(&mut self, callback: impl Fn(bool, Option<Value>) + 'static)
        ensures
            final(self).can_pop_spec() == old(self).can_pop_spec(),
            final(self).has_callback(),
            final(self).notices_spec() == old(self).notices_spec(),
    {
        self.callback = Some(PopScopeCallback::WithResult(pop_invoked_callback(callback)));
    }

    /// Installs a callback told only of the did-pop bit.
    pub fn set_on_pop_invoked(&mut self, callback: impl Fn(bool) + 'static)
        ensures
            final(self).can_pop_spec() == old(self).can_pop_spec(),
            final(self).has_callback(),
            final(self).notices_spec() == old(self).notices_spec(),
    {
        self.callback = Some(PopScopeCallback::DidPop(did_pop_callback(callback)));
    }

    /// Tells the installed callback, if any, of a pop attempt: whether the
    /// route popped, and its result (a did-pop-only callback gets the bit).
    pub fn invoke_pop(&mut self, did_pop: bool, result: Option<Value>)
        ensures
            final(self).can_pop_spec() == old(self).can_pop_spec(),
            final(self).has_callback() == old(self).has_callback(),
            old(self).has_callback() ==> final(self).notices_spec()
                == old(self).notices_spec().push(PopNotice { did_pop, result }),
            !old(self).has_callback() ==> final(self).notices_spec() == old(self).notices_spec(),
    {
        let ghost told = PopNotice { did_pop, result };
        match &self.callback {
            Some(PopScopeCallback::WithResult(c)) => call_pop_invoked(c, did_pop, result),
            Some(PopScopeCallback::DidPop(c)) => call_did_pop(c, did_pop),
            None => {},
        }
        if self.callback.is_some() {
            proof {
                self.notices@ = self.notices@.push(told);
            }
        }
    }
}

/// What a nested navigator's handler answers: nothing while disabled or
/// without a pop to own; otherwise the attempt of its pop operation
/// (unhandled without one), passed on when handled.
pub open spec fn nested_pop_result(enabled: bool, can_pop: bool, attempt: PopAttempt) -> BackHandlerResult {
    if !enabled || !can_pop || !attempt.handled {
        result_unhandled()
    } else {
        BackHandlerResult { handled: attempt.handled, blocked: attempt.blocked, pop: Some(attempt) }
    }
}

/// The callback of a nested navigator's pop handler.
pub enum NestedPopCallback {
    /// Told the nested navigator's result.
    WithResult(ResultCallback),
    /// Told only that a nested pop happened.
    Plain(crate::callback::Callback),
}

/// A nested navigator's claim on platform back actions.
pub struct NavigatorPopHandlerController {
    enabled: bool,
    can_pop: bool,
    on_pop: Option<NestedPopCallback>,
    pop_handler: Option<FallbackCallback>,
    told: Ghost<Seq<Option<Value>>>,
}

impl NavigatorPopHandlerController {
    /// Whether the handler takes part in back dispatch.
    pub closed spec fn enabled_spec(&self) -> bool {
        self.enabled
    }

    /// Whether the nested navigator currently owns a pop.
    pub closed spec fn can_pop_spec(&self) -> bool {
        self.can_pop
    }

    /// Whether a pop operation is installed.
    pub closed spec fn has_pop_handler(&self) -> bool {
        self.pop_handler is Some
    }

    /// The results of handled nested pops told to the on-pop callback so
    /// far, oldest first.
    pub closed spec fn told_spec(&self) -> Seq<Option<Value>> {
        self.told@
    }

    /// The callback told of a handled nested pop, if any.
    pub closed spec fn on_pop_spec(&self) -> Option<NestedPopCallback> {
        self.on_pop
    }

    /// An enabled handler that claims nested-pop ownership.
    pub fn new() -> (r: Self)
        ensures
            r.enabled_spec(),
            r.can_pop_spec(),
            !r.has_pop_handler(),
    {
        NavigatorPopHandlerController { enabled: true, can_pop: true, on_pop: None, pop_handler: None, told: Ghost(Seq::empty()) }
    }

    /// Sets whether the handler takes part in back dispatch.
    pub fn set_enabled(&mut self, enabled: bool)
        ensures
            final(self).enabled_spec() == enabled,
            final(self).can_pop_spec() == old(self).can_pop_spec(),
            final(self).has_pop_handler() == old(self).has_pop_handler(),
    {
        self.enabled = enabled;
    }

    /// Whether the handler takes part in back dispatch.
    pub fn enabled(&self) -> (r: bool)
        ensures
            r == self.enabled_spec(),
    {
        self.enabled
    }

    /// Sets whether the nested navigator owns a pop.
    pub fn set_can_pop(&mut self, can_pop: bool)
        ensures
            final(self).can_pop_spec() == can_pop,
            final(self).enabled_spec() == old(self).enabled_spec(),
            final(self).has_pop_handler() == old(self).has_pop_handler(),
    {
        self.can_pop = can_pop;
    }

    /// Whether the nested navigator owns a pop.
    pub fn can_pop(&self) -> (r: bool)
        ensures
            r == self.can_pop_spec(),
    {
        self.can_pop
    }

    /// Installs a callback told of the nested navigator's result.
    pub fn set_on_pop_with_result(&mut self, callback: impl Fn(Option<Value>) + 'static)
        ensures
            final(self).can_pop_spec() == old(self).can_pop_spec(),
            final(self).enabled_spec() == old(self).enabled_spec(),
            final(self).has_pop_handler() == old(self).has_pop_handler(),
            final(self).on_pop_spec() matches Some(NestedPopCallback::WithResult(_)),
    {
        self.on_pop = Some(NestedPopCallback::WithResult(result_callback(callback)));
    }

    /// Installs a callback told only that a nested pop happened.
    pub fn set_on_pop(&mut self, callback: impl Fn() + 'static)
        ensures
            final(self).can_pop_spec() == old(self).can_pop_spec(),
            final(self).enabled_spec() == old(self).enabled_spec(),
            final(self).has_pop_handler() == old(self).has_pop_handler(),
            final(self).on_pop_spec() matches Some(NestedPopCallback::Plain(_)),
    {
        self.on_pop = Some(NestedPopCallback::Plain(crate::callback::callback_from(callback)));
    }

    /// Installs the nested pop operation.
    pub fn set_pop_handler(&mut self, handler: impl Fn() -> PopAttempt + 'static)
        ensures
            final(self).can_pop_spec() == old(self).can_pop_spec(),
            final(self).enabled_spec() == old(self).enabled_spec(),
            final(self).has_pop_handler(),
    {
        self.pop_handler = Some(fallback_callback(handler));
    }

    /// Attempts the nested pop. A handler that owns the pop consumes the
    /// action even when its attempt did not pop; the callback is told of a
    /// handled attempt's result.
    pub fn handle_back(&mut self) -> (r: BackHandlerResult)
        ensures
            final(self).enabled_spec() == old(self).enabled_spec(),
            final(self).can_pop_spec() == old(self).can_pop_spec(),
            final(self).has_pop_handler() == old(self).has_pop_handler(),
            final(self).on_pop_spec() == old(self).on_pop_spec(),
            exists|attempt: PopAttempt| {
                &&& !old(self).has_pop_handler() ==> attempt == pop_unhandled()
                &&& r == #[trigger] nested_pop_result(old(self).enabled_spec(), old(self).can_pop_spec(), attempt)
                &&& final(self).told_spec() == if old(self).enabled_spec() && old(self).can_pop_spec()
                    && attempt.handled && old(self).on_pop_spec() is Some {
                    old(self).told_spec().push(attempt.result)
                } else {
                    old(self).told_spec()
                }
            },
            !old(self).enabled_spec() || !old(self).can_pop_spec() || !old(self).has_pop_handler()
                ==> !r.handled && !r.blocked && r.pop is None && final(self).told_spec() == old(self).told_spec(),
            r.handled ==> old(self).enabled_spec() && old(self).can_pop_spec() && (r.pop matches Some(a) && a.handled),
            !r.handled ==> final(self).told_spec() == old(self).told_spec(),
    {
        if !self.enabled || !self.can_pop {
            let r = BackHandlerResult::unhandled();
            assert(r == nested_pop_result(self.enabled_spec(), self.can_pop_spec(), pop_unhandled()));
            return r;
        }
        let attempt = match &self.pop_handler {
            Some(h) => call_fallback(h),
            None => PopAttempt::unhandled(),
        };
        if !attempt.handled {
            let r = BackHandlerResult::unhandled();
            assert(!self.has_pop_handler() ==> attempt == pop_unhandled());
            assert(r == nested_pop_result(self.enabled_spec(), self.can_pop_spec(), attempt));
            return r;
        }
        match &self.on_pop {
            Some(NestedPopCallback::WithResult(c)) => call_result(c, copy_json_option(&attempt.result)),
            Some(NestedPopCallback::Plain(c)) => crate::callback::run_callback(c),
            None => {},
        }
        if self.on_pop.is_some() {
            proof {
                self.told@ = self.told@.push(attempt.result);
            }
        }
        let ghost a = attempt;
        let r = BackHandlerResult::from_pop(attempt);
        assert(!old(self).has_pop_handler() ==> a == pop_unhandled());
        assert(r == nested_pop_result(old(self).enabled_spec(), old(self).can_pop_spec(), a));
        r
    }
}

/// Listens for the platform back button at a widget boundary.
pub struct BackButtonListener {
    pub callback: Option<FlagCallback>,
    pub dispatcher: Option<BackButtonDispatcher>,
    pub child: crate::widget::Widget,
}

impl BackButtonListener {
    /// A listener around `child` with no callback.
    pub fn new(child: crate::widget::Widget) -> (r: Self)
        ensures
            r.callback is None,
            r.dispatcher is None,
            r.child == child,
    {
        BackButtonListener { callback: None, dispatcher: None, child }
    }

    /// Sets the callback: answering yes consumes the back action, no lets
    /// older and parent handlers continue.
    pub fn on_back_button_pressed(self, callback: impl Fn() -> bool + 'static) -> (r: Self)
        ensures
            r.callback is Some,
            r.dispatcher == self.dispatcher,
            r.child == self.child,
    {
        BackButtonListener { callback: Some(flag_callback(callback)), ..self }
    }

    /// Sets the dispatcher the listener registers with.
    pub fn dispatcher(self, dispatcher: BackButtonDispatcher) -> (r: Self)
        ensures
            r.callback == self.callback,
            r.dispatcher == Some(dispatcher),
            r.child == self.child,
    {
        BackButtonListener { dispatcher: Some(dispatcher), ..self }
    }

    /// Registers the callback with `dispatcher`, when there is one.
    pub fn register(&self, tree: &mut BackDispatchTree, dispatcher: &BackButtonDispatcher) -> (r: Option<BackRegistration>)
        requires
            tree_wf(old(tree)@),
            dispatcher.in_tree(old(tree)@),
        ensures
            tree_wf(final(tree)@),
            match self.callback {
                None => r is None && final(tree)@ == old(tree)@,
                Some(cb) => {
                    let n = old(tree)@[dispatcher@ as int];
                    &&& r matches Some(reg) && reg@ == (RegistrationView { dispatcher: dispatcher@, kind: RegistrationKind::Handler, id: n.next_id })
                    &&& final(tree)@ == old(tree)@.update(dispatcher@ as int, DispatcherView {
                        next_id: id_after(n.next_id),
                        handlers: n.handlers.push(HandlerEntry { id: n.next_id, action: HandlerAction::Flag(cb) }),
                        ..n
                    })
                },
            },
    {
        match &self.callback {
            Some(cb) => Some(dispatcher.add_action(tree, HandlerAction::Flag(cb.clone()))),
            None => None,
        }
    }
}

/// Reports attempted route pops and can block the route stack before the
/// navigation fallback runs.
pub struct PopScope {
    pub controller: PopScopeController,
    pub dispatcher: Option<BackButtonDispatcher>,
    pub child: crate::widget::Widget,
}

impl PopScope {
    /// A scope around `child` whose route may pop.
    pub fn new(child: crate::widget::Widget) -> (r: Self)
        ensures
            r.controller.can_pop_spec(),
            !r.controller.has_callback(),
            r.dispatcher is None,
            r.child == child,
    {
        PopScope { controller: PopScopeController::new(), dispatcher: None, child }
    }

    /// A scope around `child` with the given controller.
    pub fn with_controller(controller: PopScopeController, child: crate::widget::Widget) -> (r: Self)
        ensures
            r.controller == controller,
            r.dispatcher is None,
            r.child == child,
    {
        PopScope { controller, dispatcher: None, child }
    }

    /// Sets whether the enclosing route may pop.
    pub fn can_pop(self, can_pop: bool) -> (r: Self)
        ensures
            r.controller.can_pop_spec() == can_pop,
            r.controller.has_callback() == self.controller.has_callback(),
            r.dispatcher == self.dispatcher,
            r.child == self.child,
    {
        let mut scope = self;
        scope.controller.set_can_pop(can_pop);
        scope
    }

    /// Installs a callback told only whether the pop happened.
    pub fn on_pop_invoked(self, callback: impl Fn(bool) + 'static) -> (r: Self)
        ensures
            r.controller.can_pop_spec() == self.controller.can_pop_spec(),
            r.controller.has_callback(),
            r.dispatcher == self.dispatcher,
            r.child == self.child,
    {
        let mut scope = self;
        scope.controller.set_on_pop_invoked(callback);
        scope
    }

    /// Installs a callback told whether the pop happened and its result.
    pub fn on_pop_invoked_with_result(self, callback: impl Fn(bool, Option<Value>) + 'static) -> (r: Self)
        ensures
            r.controller.can_pop_spec() == self.controller.can_pop_spec(),
            r.controller.has_callback(),
            r.dispatcher == self.dispatcher,
            r.child == self.child,
    {
        let mut scope = self;
        scope.controller.set_on_pop_invoked_with_result(callback);
        scope
    }

    /// Sets the dispatcher the scope registers with.
    pub fn dispatcher(self, dispatcher: BackButtonDispatcher) -> (r: Self)
        ensures
            r.controller == self.controller,
            r.dispatcher == Some(dispatcher),
            r.child == self.child,
    {
        PopScope { dispatcher: Some(dispatcher), ..self }
    }

    /// The scope's controller.
    pub fn controller(&self) -> (r: &PopScopeController)
        ensures
            *r == self.controller,
    {
        &self.controller
    }
}

/// Gives a nested navigator first refusal of platform back actions.
pub struct NavigatorPopHandler {
    pub controller: NavigatorPopHandlerController,
    pub dispatcher: Option<BackButtonDispatcher>,
    pub child: crate::widget::Widget,
}

impl NavigatorPopHandler {
    /// An enabled handler around `child` that owns nested pops.
    pub fn new(child: crate::widget::Widget) -> (r: Self)
        ensures
            r.controller.enabled_spec(),
            r.controller.can_pop_spec(),
            !r.controller.has_pop_handler(),
            r.dispatcher is None,
            r.child == child,
    {
        NavigatorPopHandler { controller: NavigatorPopHandlerController::new(), dispatcher: None, child }
    }

    /// A handler around `child` with the given controller.
    pub fn with_controller(controller: NavigatorPopHandlerController, child: crate::widget::Widget) -> (r: Self)
        ensures
            r.controller == controller,
            r.dispatcher is None,
            r.child == child,
    {
        NavigatorPopHandler { controller, dispatcher: None, child }
    }

    /// Enables or disables nested pop ownership.
    pub fn enabled(self, enabled: bool) -> (r: Self)
        ensures
            r.controller.enabled_spec() == enabled,
            r.controller.can_pop_spec() == self.controller.can_pop_spec(),
            r.controller.has_pop_handler() == self.controller.has_pop_handler(),
            r.dispatcher == self.dispatcher,
            r.child == self.child,
    {
        let mut h = self;
        h.controller.set_enabled(enabled);
        h
    }

    /// Sets whether the nested navigator owns a pop.
    pub fn can_pop(self, can_pop: bool) -> (r: Self)
        ensures
            r.controller.can_pop_spec() == can_pop,
            r.controller.enabled_spec() == self.controller.enabled_spec(),
            r.controller.has_pop_handler() == self.controller.has_pop_handler(),
            r.dispatcher == self.dispatcher,
            r.child == self.child,
    {
        let mut h = self;
        h.controller.set_can_pop(can_pop);
        h
    }

    /// Installs a callback told that a nested pop happened.
    pub fn on_pop(self, callback: impl Fn() + 'static) -> (r: Self)
        ensures
            r.controller.can_pop_spec() == self.controller.can_pop_spec(),
            r.controller.enabled_spec() == self.controller.enabled_spec(),
            r.controller.has_pop_handler() == self.controller.has_pop_handler(),
            r.controller.on_pop_spec() matches Some(NestedPopCallback::Plain(_)),
            r.dispatcher == self.dispatcher,
            r.child == self.child,
    {
        let mut h = self;
        h.controller.set_on_pop(callback);
        h
    }

    /// Installs a callback told of the nested navigator's result.
    pub fn on_pop_with_result(self, callback: impl Fn(Option<Value>) + 'static) -> (r: Self)
        ensures
            r.controller.can_pop_spec() == self.controller.can_pop_spec(),
            r.controller.enabled_spec() == self.controller.enabled_spec(),
            r.controller.has_pop_handler() == self.controller.has_pop_handler(),
            r.controller.on_pop_spec() matches Some(NestedPopCallback::WithResult(_)),
            r.dispatcher == self.dispatcher,
            r.child == self.child,
    {
        let mut h = self;
        h.controller.set_on_pop_with_result(callback);
        h
    }

    /// Sets the dispatcher the handler registers with.
    pub fn dispatcher(self, dispatcher: BackButtonDispatcher) -> (r: Self)
        ensures
            r.controller == self.controller,
            r.dispatcher == Some(dispatcher),
            r.child == self.child,
    {
        NavigatorPopHandler { dispatcher: Some(dispatcher), ..self }
    }

    /// The handler's controller.
    pub fn controller(&self) -> (r: &NavigatorPopHandlerController)
        ensures
            *r == self.controller,
    {
        &self.controller
    }
}

} // verus!
