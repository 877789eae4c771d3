//! The frame-pipeline recursion guard: it tracks the retained nodes that are
//! being built, laid out or painted, and refuses a node that re-enters its
//! own phase or a nesting deeper than the configured limit, with a report of
//! how it got there.
use vstd::prelude::*;
use crate::text::{concat, decimal, owned, usize_to_decimal};
use crate::reorder_marker::{parse_usize, parse_usize_text};

verus! {

/// The nesting limit used when none is configured.
pub const DEFAULT_RECURSION_LIMIT: usize = 256;
/// The smallest nesting limit accepted.
pub const MIN_RECURSION_LIMIT: usize = 16;
/// The largest nesting limit accepted.
pub const MAX_RECURSION_LIMIT: usize = 4096;

/// A retained frame-pipeline phase protected by the recursion guard.
#[derive(Clone, Copy, Debug, PartialEq, Eq, Structural)]
pub enum FramePhase {
    Build,
    Layout,
    Paint,
    Semantics,
    Compositor,
}

/// The display name of a phase.
pub open spec fn phase_name(p: FramePhase) -> Seq<char> {
    match p {
        FramePhase::Build => "Build"@,
        FramePhase::Layout => "Layout"@,
        FramePhase::Paint => "Paint"@,
        FramePhase::Semantics => "Semantics"@,
        FramePhase::Compositor => "Compositor"@,
    }
}

/// The lower-case name of a phase.
pub open spec fn phase_lower_name(p: FramePhase) -> Seq<char> {
    match p {
        FramePhase::Build => "build"@,
        FramePhase::Layout => "layout"@,
        FramePhase::Paint => "paint"@,
        FramePhase::Semantics => "semantics"@,
        FramePhase::Compositor => "compositor"@,
    }
}

impl FramePhase {
    /// The phase's display name.
    pub fn name(&self) -> (r: &'static str)
        ensures
            r@ == phase_name(*self),
    {
        match self {
            FramePhase::Build => "Build",
            FramePhase::Layout => "Layout",
            FramePhase::Paint => "Paint",
            FramePhase::Semantics => "Semantics",
            FramePhase::Compositor => "Compositor",
        }
    }

    /// The phase's lower-case name.
    pub fn lower_name(&self) -> (r: &'static str)
        ensures
            r@ == phase_lower_name(*self),
    {
        match self {
            FramePhase::Build => "build",
            FramePhase::Layout => "layout",
            FramePhase::Paint => "paint",
            FramePhase::Semantics => "semantics",
            FramePhase::Compositor => "compositor",
        }
    }
}

/// The identity of a retained node: an element or a render object, by its
/// arena slot and generation.
#[derive(Clone, Copy, Debug, PartialEq, Eq, Structural)]
pub enum DiagnosticNodeId {
    Element { index: u32, generation: u32 },
    Render { index: u32, generation: u32 },
}

/// A node entering a frame phase.
pub struct DiagnosticNode {
    pub phase: FramePhase,
    pub id: Option<DiagnosticNodeId>,
    /// The node's descriptor name.
    pub kind: String,
    /// The layout constraints the node was given, as text.
    pub constraints: Option<String>,
}

/// How a node is named in a report: its identity, if any, then its kind.
pub open spec fn node_label(n: DiagnosticNode) -> Seq<char> {
    match n.id {
        Some(DiagnosticNodeId::Element { index, generation }) =>
            "ElementId("@ + decimal(index as nat) + ","@ + decimal(generation as nat) + ") "@ + n.kind@,
        Some(DiagnosticNodeId::Render { index, generation }) =>
            "RenderObjectId("@ + decimal(index as nat) + ","@ + decimal(generation as nat) + ") "@ + n.kind@,
        None => n.kind@,
    }
}

fn copy_opt_string(s: &Option<String>) -> (r: Option<String>)
    ensures
        r is Some == s is Some,
        r is Some ==> r->0@ == s->0@,
{
    match s {
        Some(t) => Some(owned(t.as_str())),
        None => None,
    }
}

impl DiagnosticNode {
    /// The root of a phase's walk: no identity, kind `WidgetTree`.
    pub fn phase_root(phase: FramePhase) -> (r: Self)
        ensures
            r.phase == phase,
            r.id is None,
            r.kind@ == "WidgetTree"@,
            r.constraints is None,
    {
        DiagnosticNode { phase, id: None, kind: owned("WidgetTree"), constraints: None }
    }

    /// A copy of the node.
    pub fn copy(&self) -> (r: Self)
        ensures
            r.phase == self.phase,
            r.id == self.id,
            r.kind@ == self.kind@,
            r.constraints is Some == self.constraints is Some,
            r.constraints is Some ==> r.constraints->0@ == self.constraints->0@,
            node_label(r) == node_label(*self),
    {
        DiagnosticNode {
            phase: self.phase,
            id: self.id,
            kind: owned(self.kind.as_str()),
            constraints: copy_opt_string(&self.constraints),
        }
    }

    /// How the node is named in a report.
    pub fn label(&self) -> (r: String)
        ensures
            r@ == node_label(*self),
    {
        match self.id {
            Some(DiagnosticNodeId::Element { index, generation }) => {
                let a = concat("ElementId(", usize_to_decimal(index as usize).as_str());
                let b = concat(a.as_str(), ",");
                let c = concat(b.as_str(), usize_to_decimal(generation as usize).as_str());
                let d = concat(c.as_str(), ") ");
                concat(d.as_str(), self.kind.as_str())
            },
            Some(DiagnosticNodeId::Render { index, generation }) => {
                let a = concat("RenderObjectId(", usize_to_decimal(index as usize).as_str());
                let b = concat(a.as_str(), ",");
                let c = concat(b.as_str(), usize_to_decimal(generation as usize).as_str());
                let d = concat(c.as_str(), ") ");
                concat(d.as_str(), self.kind.as_str())
            },
            None => owned(self.kind.as_str()),
        }
    }
}

/// Snapshot kept when render recursion is caught before the native stack
/// runs out.
pub struct RecursionReport {
    pub phase: FramePhase,
    pub reason: String,
    pub reentered: bool,
    pub trigger: Option<String>,
    pub repeated_node: String,
    pub constraints: Option<String>,
    pub widget_path: Vec<String>,
    pub last_external_call: Option<String>,
    /// Filled in by the host that persists the report.
    pub backtrace: String,
    /// Where the host persisted the report, when it did.
    pub log_path: Option<String>,
}

/// The text of an optional string.
pub open spec fn opt_text(o: Option<String>) -> Option<Seq<char>> {
    match o {
        Some(s) => Some(s@),
        None => None,
    }
}

/// The texts of a list of strings.
pub open spec fn texts(v: Seq<String>) -> Seq<Seq<char>> {
    v.map_values(|s: String| s@)
}

/// The value of a recursion report.
pub struct ReportView {
    pub phase: FramePhase,
    pub reason: Seq<char>,
    pub reentered: bool,
    pub trigger: Option<Seq<char>>,
    pub repeated_node: Seq<char>,
    pub constraints: Option<Seq<char>>,
    pub widget_path: Seq<Seq<char>>,
    pub last_external_call: Option<Seq<char>>,
    pub backtrace: Seq<char>,
    pub log_path: Option<Seq<char>>,
}

impl View for RecursionReport {
    type V = ReportView;

    open spec fn view(&self) -> ReportView {
        ReportView {
            phase: self.phase,
            reason: self.reason@,
            reentered: self.reentered,
            trigger: opt_text(self.trigger),
            repeated_node: self.repeated_node@,
            constraints: opt_text(self.constraints),
            widget_path: texts(self.widget_path@),
            last_external_call: opt_text(self.last_external_call),
            backtrace: self.backtrace@,
            log_path: opt_text(self.log_path),
        }
    }
}

fn copy_strings(v: &Vec<String>) -> (r: Vec<String>)
    ensures
        texts(r@) == texts(v@),
{
    let mut out: Vec<String> = Vec::new();
    let mut i: usize = 0;
    while i < v.len()
        invariant
            i <= v@.len(),
            out@.len() == i,
            forall|j: int| 0 <= j < i ==> (#[trigger] out@[j])@ == v@[j]@,
        decreases v@.len() - i,
    {
        out.push(owned(v[i].as_str()));
        i += 1;
    }
    assert(texts(out@) =~= texts(v@));
    out
}

impl RecursionReport {
    /// A copy of the report.
    pub fn copy(&self) -> (r: Self)
        ensures
            r@ == self@,
    {
        RecursionReport {
            phase: self.phase,
            reason: owned(self.reason.as_str()),
            reentered: self.reentered,
            trigger: copy_opt_string(&self.trigger),
            repeated_node: owned(self.repeated_node.as_str()),
            constraints: copy_opt_string(&self.constraints),
            widget_path: copy_strings(&self.widget_path),
            last_external_call: copy_opt_string(&self.last_external_call),
            backtrace: owned(self.backtrace.as_str()),
            log_path: copy_opt_string(&self.log_path),
        }
    }
}

/// The labels of the identified nodes of `nodes`, in order.
pub open spec fn identified_labels(nodes: Seq<DiagnosticNode>) -> Seq<Seq<char>>
    decreases nodes.len(),
{
    if nodes.len() == 0 {
        Seq::empty()
    } else if nodes.last().id is Some {
        identified_labels(nodes.drop_last()).push(node_label(nodes.last()))
    } else {
        identified_labels(nodes.drop_last())
    }
}

/// The first active node that `node` re-enters: same phase, same identity.
/// A node without identity re-enters nothing.
pub open spec fn is_first_repeat(active: Seq<DiagnosticNode>, node: DiagnosticNode, k: int) -> bool {
    &&& node.id is Some
    &&& 0 <= k < active.len()
    &&& active[k].phase == node.phase && active[k].id == node.id
    &&& forall|j: int| 0 <= j < k ==> !((#[trigger] active[j]).phase == node.phase && active[j].id == node.id)
}

/// Whether `node` re-enters an active node.
pub open spec fn repeats(active: Seq<DiagnosticNode>, node: DiagnosticNode) -> bool {
    node.id is Some && exists|j: int| 0 <= j < active.len()
        && (#[trigger] active[j]).phase == node.phase && active[j].id == node.id
}

/// Why a re-entry is refused.
pub open spec fn reentry_reason(p: FramePhase) -> Seq<char> {
    "the same retained node re-entered "@ + phase_name(p) + " before its previous invocation completed"@
}

/// Why a nesting that is too deep is refused.
pub open spec fn depth_reason(depth: nat, limit: nat) -> Seq<char> {
    "active frame-pipeline depth "@ + decimal(depth) + " exceeded the configured limit "@ + decimal(limit)
}

/// `depth + 1`, saturating.
pub open spec fn next_depth(depth: usize) -> usize {
    if depth == usize::MAX { depth } else { (depth + 1) as usize }
}

/// `limit` clamped to the accepted range.
pub open spec fn clamp_limit(limit: usize) -> usize {
    if limit < MIN_RECURSION_LIMIT {
        MIN_RECURSION_LIMIT
    } else if limit > MAX_RECURSION_LIMIT {
        MAX_RECURSION_LIMIT
    } else {
        limit
    }
}

/// The report of a refused `node`: the path runs from the re-entered node
/// (from the start for a nesting too deep) over the identified active nodes
/// to `node`.
pub open spec fn refusal_report(
    active: Seq<DiagnosticNode>,
    trigger: Option<Seq<char>>,
    calls: Seq<Seq<char>>,
    node: DiagnosticNode,
    repeated_at: Option<int>,
    reason: Seq<char>,
) -> ReportView {
    let start = match repeated_at { Some(k) => k, None => 0 };
    ReportView {
        phase: node.phase,
        reason,
        reentered: repeated_at is Some,
        trigger,
        repeated_node: node_label(node),
        constraints: opt_text(node.constraints),
        widget_path: identified_labels(active.subrange(start, active.len() as int)).push(node_label(node)),
        last_external_call: if calls.len() > 0 { Some(calls.last()) } else { None },
        backtrace: Seq::empty(),
        log_path: None,
    }
}

/// The guard after `node` entered: one level deeper, `node` innermost.
pub open spec fn entered(m: RecursionModel, node: DiagnosticNode) -> RecursionModel {
    RecursionModel { depth: next_depth(m.depth), active: m.active.push(node), ..m }
}

/// The guard after the innermost node left.
pub open spec fn exited(m: RecursionModel) -> RecursionModel {
    RecursionModel {
        depth: if m.depth == 0 { 0 } else { (m.depth - 1) as usize },
        active: if m.active.len() == 0 { m.active } else { m.active.drop_last() },
        ..m
    }
}

/// The state of a recursion guard.
pub struct RecursionModel {
    pub depth: usize,
    pub active: Seq<DiagnosticNode>,
    pub trigger: Option<Seq<char>>,
    pub external_calls: Seq<Seq<char>>,
    pub last_report: Option<ReportView>,
    pub limit: usize,
}

/// Tracks the nodes active in the frame pipeline.
pub struct RecursionDiagnostics {
    depth: usize,
    active: Vec<DiagnosticNode>,
    trigger: Option<String>,
    external_calls: Vec<String>,
    last_report: Option<RecursionReport>,
    limit: usize,
}

impl View for RecursionDiagnostics {
    type V = RecursionModel;

    closed spec fn view(&self) -> RecursionModel {
        RecursionModel {
            depth: self.depth,
            active: self.active@,
            trigger: opt_text(self.trigger),
            external_calls: texts(self.external_calls@),
            last_report: match self.last_report { Some(r) => Some(r@), None => None },
            limit: self.limit,
        }
    }
}

impl RecursionDiagnostics {
    /// A guard with nothing active and the default limit.
    pub fn new() -> (r: Self)
        ensures
            r@.depth == 0,
            r@.active.len() == 0,
            r@.trigger is None,
            r@.external_calls.len() == 0,
            r@.last_report is None,
            r@.limit == DEFAULT_RECURSION_LIMIT,
    {
        let r = RecursionDiagnostics {
            depth: 0,
            active: Vec::new(),
            trigger: None,
            external_calls: Vec::new(),
            last_report: None,
            limit: DEFAULT_RECURSION_LIMIT,
        };
        assert(r@.external_calls =~= Seq::<Seq<char>>::empty());
        r
    }

    fn find_repeat(&self, node: &DiagnosticNode) -> (r: Option<usize>)
        ensures
            match r {
                Some(k) => is_first_repeat(self@.active, *node, k as int),
                None => !repeats(self@.active, *node),
            },
    {
        if node.id.is_none() {
            return None;
        }
        let mut k: usize = 0;
        while k < self.active.len()
            invariant
                node.id is Some,
                k <= self.active@.len(),
                forall|j: int| 0 <= j < k ==> !((#[trigger] self.active@[j]).phase == node.phase && self.active@[j].id == node.id),
            decreases self.active@.len() - k,
        {
            if self.active[k].phase == node.phase && self.active[k].id == node.id {
                return Some(k);
            }
            k += 1;
        }
        None
    }

    fn path_from(&self, start: usize, node: &DiagnosticNode) -> (r: Vec<String>)
        requires
            start <= self@.active.len(),
        ensures
            texts(r@) == identified_labels(self@.active.subrange(start as int, self@.active.len() as int)).push(node_label(*node)),
    {
        let mut out: Vec<String> = Vec::new();
        let mut i: usize = start;
        while i < self.active.len()
            invariant
                start <= i <= self.active@.len(),
                texts(out@) == identified_labels(self.active@.subrange(start as int, i as int)),
            decreases self.active@.len() - i,
        {
            let ghost sub = self.active@.subrange(start as int, i as int + 1);
            assert(sub.drop_last() =~= self.active@.subrange(start as int, i as int));
            assert(sub.last() == self.active@[i as int]);
            if self.active[i].id.is_some() {
                out.push(self.active[i].label());
                assert(texts(out@) =~= identified_labels(sub));
            } else {
                assert(texts(out@) =~= identified_labels(sub));
            }
            i += 1;
        }
        out.push(node.label());
        assert(texts(out@) =~= identified_labels(self.active@.subrange(start as int, self.active@.len() as int)).push(node_label(*node)));
        out
    }

    fn refuse(&mut self, node: &DiagnosticNode, repeated_at: Option<usize>, reason: String) -> (r: RecursionReport)
        requires
            repeated_at matches Some(k) ==> k <= old(self)@.active.len(),
        ensures
            r@ == refusal_report(old(self)@.active, old(self)@.trigger, old(self)@.external_calls, *node,
                match repeated_at { Some(k) => Some(k as int), None => None }, reason@),
            final(self)@ == (RecursionModel { last_report: Some(r@), ..old(self)@ }),
    {
        let start = match repeated_at { Some(k) => k, None => 0 };
        let widget_path = self.path_from(start, node);
        let last_external_call = if self.external_calls.len() > 0 {
            Some(owned(self.external_calls[self.external_calls.len() - 1].as_str()))
        } else {
            None
        };
        let report = RecursionReport {
            phase: node.phase,
            reason,
            reentered: repeated_at.is_some(),
            trigger: copy_opt_string(&self.trigger),
            repeated_node: node.label(),
            constraints: copy_opt_string(&node.constraints),
            widget_path,
            last_external_call,
            backtrace: String::new(),
            log_path: None,
        };
        self.last_report = Some(report.copy());
        proof {
            if self.external_calls@.len() > 0 {
                assert(texts(self.external_calls@).last() == self.external_calls@.last()@);
            }
            assert(report@.backtrace =~= Seq::<char>::empty());
        }
        report
    }

    /// A node enters its phase. A node that re-enters an active node of the
    /// same phase, or a nesting beyond the limit, is refused with a report
    /// (which is also kept as the last report) and nothing else changes;
    /// otherwise the node becomes active one level deeper.
    pub fn enter(&mut self, node: DiagnosticNode) -> (r: Result<(), RecursionReport>)
        ensures
            ({
                let m = old(self)@;
                let next = next_depth(m.depth);
                if repeats(m.active, node) {
                    exists|k: int| #[trigger] is_first_repeat(m.active, node, k) && (r matches Err(report)
                        && report@ == refusal_report(m.active, m.trigger, m.external_calls, node, Some(k), reentry_reason(node.phase))
                        && final(self)@ == (RecursionModel { last_report: Some(report@), ..m }))
                } else if next > m.limit {
                    r matches Err(report)
                        && report@ == refusal_report(m.active, m.trigger, m.external_calls, node, None, depth_reason(next as nat, m.limit as nat))
                        && final(self)@ == (RecursionModel { last_report: Some(report@), ..m })
                } else {
                    r is Ok && final(self)@ == entered(m, node)
                }
            }),
            r is Err ==> final(self)@.active == old(self)@.active && final(self)@.depth == old(self)@.depth,
            r is Ok ==> final(self)@.active == old(self)@.active.push(node)
                && final(self)@.depth as int == (if old(self)@.depth == usize::MAX { old(self)@.depth as int }
                    else { old(self)@.depth + 1 })
                && final(self)@.depth <= old(self)@.limit,
            node.id is Some && (exists|j: int| 0 <= j < old(self)@.active.len()
                && (#[trigger] old(self)@.active[j]).phase == node.phase && old(self)@.active[j].id == node.id)
                ==> r is Err,
    {
        let next = if self.depth == usize::MAX { self.depth } else { self.depth + 1 };
        match self.find_repeat(&node) {
            Some(k) => {
                let a = concat("the same retained node re-entered ", node.phase.name());
                let reason = concat(a.as_str(), " before its previous invocation completed");
                let report = self.refuse(&node, Some(k), reason);
                proof {
                    assert(is_first_repeat(old(self)@.active, node, k as int));
                    assert(repeats(old(self)@.active, node));
                }
                Err(report)
            },
            None => {
                if next > self.limit {
                    let a = concat("active frame-pipeline depth ", usize_to_decimal(next).as_str());
                    let b = concat(a.as_str(), " exceeded the configured limit ");
                    let reason = concat(b.as_str(), usize_to_decimal(self.limit).as_str());
                    let report = self.refuse(&node, None, reason);
                    Err(report)
                } else {
                    self.depth = next;
                    self.active.push(node);
                    Ok(())
                }
            },
        }
    }

    /// The innermost active node leaves its phase.
    pub fn exit(&mut self)
        ensures
            final(self)@ == exited(old(self)@),
    {
        if self.active.len() > 0 {
            let _ = self.active.pop();
        }
        self.depth = if self.depth == 0 { 0 } else { self.depth - 1 };
    }

    /// An external call named `name` starts.
    pub fn external_call(&mut self, name: &str)
        ensures
            final(self)@ == (RecursionModel { external_calls: old(self)@.external_calls.push(name@), ..old(self)@ }),
    {
        self.external_calls.push(owned(name));
        assert(texts(self.external_calls@) =~= old(self)@.external_calls.push(name@));
    }

    /// The innermost external call ends.
    pub fn end_external_call(&mut self)
        ensures
            final(self)@ == (RecursionModel {
                external_calls: if old(self)@.external_calls.len() == 0 {
                    old(self)@.external_calls
                } else {
                    old(self)@.external_calls.drop_last()
                },
                ..old(self)@
            }),
    {
        if self.external_calls.len() > 0 {
            let _ = self.external_calls.pop();
            assert(texts(self.external_calls@) =~= old(self)@.external_calls.drop_last());
        }
    }

    /// Records what triggered the current frame.
    pub fn set_trigger(&mut self, trigger: &str)
        ensures
            final(self)@ == (RecursionModel { trigger: Some(trigger@), ..old(self)@ }),
    {
        self.trigger = Some(owned(trigger));
    }

    /// The last refusal's report.
    pub fn last_report(&self) -> (r: Option<RecursionReport>)
        ensures
            match r {
                Some(rep) => self@.last_report == Some(rep@),
                None => self@.last_report is None,
            },
    {
        match &self.last_report {
            Some(rep) => Some(rep.copy()),
            None => None,
        }
    }

    /// The nesting limit a setting configures: the setting read as a
    /// decimal number, else the default, clamped to the accepted range.
    pub fn configured_limit(setting: Option<&str>) -> (r: usize)
        ensures
            r == clamp_limit(match setting {
                Some(text) => match parse_usize(text@) {
                    Some(n) => n,
                    None => DEFAULT_RECURSION_LIMIT,
                },
                None => DEFAULT_RECURSION_LIMIT,
            }),
    {
        let limit = match setting {
            Some(text) => match parse_usize_text(text) {
                Some(n) => n,
                None => DEFAULT_RECURSION_LIMIT,
            },
            None => DEFAULT_RECURSION_LIMIT,
        };
        if limit < MIN_RECURSION_LIMIT {
            MIN_RECURSION_LIMIT
        } else if limit > MAX_RECURSION_LIMIT {
            MAX_RECURSION_LIMIT
        } else {
            limit
        }
    }

    /// Sets the nesting limit, clamped to the accepted range.
    pub fn set_limit(&mut self, limit: usize)
        ensures
            final(self)@ == (RecursionModel { limit: clamp_limit(limit), ..old(self)@ }),
    {
        self.limit = if limit < MIN_RECURSION_LIMIT {
            MIN_RECURSION_LIMIT
        } else if limit > MAX_RECURSION_LIMIT {
            MAX_RECURSION_LIMIT
        } else {
            limit
        };
    }

    /// The current nesting depth.
    pub fn depth(&self) -> (r: usize)
        ensures
            r == self@.depth,
    {
        self.depth
    }

    /// The nesting limit.
    pub fn limit(&self) -> (r: usize)
        ensures
            r == self@.limit,
    {
        self.limit
    }
}

/// `s` repeated `n` times.
pub open spec fn repeat_text(s: Seq<char>, n: nat) -> Seq<char>
    decreases n,
{
    if n == 0 { Seq::empty() } else { repeat_text(s, (n - 1) as nat) + s }
}

/// Line `d` of a report's widget path: indented two spaces per level, a
/// branch mark below the first line, and the re-entered mark on the last
/// line of a re-entry.
pub open spec fn path_line(paths: Seq<Seq<char>>, d: nat, reentered: bool) -> Seq<char> {
    repeat_text("  "@, d) + (if d == 0 { Seq::empty() } else { "└─ "@ }) + paths[d as int]
        + (if reentered && d + 1 == paths.len() { "  <-- entered twice"@ } else { Seq::empty() })
        + "\n"@
}

/// The first `k` lines of a report's widget path.
pub open spec fn path_text(paths: Seq<Seq<char>>, k: nat, reentered: bool) -> Seq<char>
    decreases k,
{
    if k == 0 { Seq::empty() } else { path_text(paths, (k - 1) as nat, reentered) + path_line(paths, (k - 1) as nat, reentered) }
}

/// The first part of a report's text, up to the widget path's lines.
pub open spec fn report_head(r: ReportView) -> Seq<char> {
    "Incular detected unsafe "@ + phase_lower_name(r.phase) + " nesting\n\nTrigger: "@
        + (match r.trigger { Some(t) => t, None => "unknown"@ })
        + "\nFrame phase: "@ + phase_name(r.phase)
        + "\nReason: "@ + r.reason
        + "\n"@ + (if r.reentered { "Repeated node"@ } else { "Deepest node"@ }) + ": "@ + r.repeated_node
        + (match r.constraints { Some(c) => "\nConstraints: "@ + c, None => Seq::empty() })
        + "\n\nWidget path:\n"@
}

/// The last part of a report's text, after the widget path's lines.
pub open spec fn report_tail(r: ReportView, include_log_path: bool) -> Seq<char> {
    "\nLast external call: "@ + (match r.last_external_call { Some(c) => c, None => "none"@ })
        + (match r.log_path {
            Some(p) => if include_log_path { "\nCrash report: "@ + p } else { Seq::empty() },
            None => Seq::empty(),
        })
        + "\n\nBacktrace:\n"@ + r.backtrace
}

/// The text of a report; the log path is included only when asked for.
pub open spec fn report_text(r: ReportView, include_log_path: bool) -> Seq<char> {
    report_head(r) + path_text(r.widget_path, r.widget_path.len(), r.reentered) + report_tail(r, include_log_path)
}

impl RecursionReport {
    fn render_head(&self) -> (r: String)
        ensures
            r@ == report_head(self@),
    {
        let mut out = owned("Incular detected unsafe ");
        out.append(self.phase.lower_name());
        out.append(" nesting\n\nTrigger: ");
        match &self.trigger {
            Some(t) => out.append(t.as_str()),
            None => out.append("unknown"),
        }
        out.append("\nFrame phase: ");
        out.append(self.phase.name());
        out.append("\nReason: ");
        out.append(self.reason.as_str());
        out.append("\n");
        if self.reentered {
            out.append("Repeated node");
        } else {
            out.append("Deepest node");
        }
        out.append(": ");
        out.append(self.repeated_node.as_str());
        if let Some(c) = &self.constraints {
            out.append("\nConstraints: ");
            out.append(c.as_str());
        }
        out.append("\n\nWidget path:\n");
        assert(out@ =~= report_head(self@));
        out
    }

    fn append_path(&self, out: &mut String)
        ensures
            final(out)@ == old(out)@ + path_text(texts(self.widget_path@), self.widget_path@.len(), self.reentered),
    {
        let ghost head = out@;
        let ghost paths = texts(self.widget_path@);
        let n = self.widget_path.len();
        let mut d: usize = 0;
        while d < n
            invariant
                n == self.widget_path@.len(),
                paths == texts(self.widget_path@),
                d <= n,
                out@ == head + path_text(paths, d as nat, self.reentered),
            decreases n - d,
        {
            let ghost before = out@;
            let mut k: usize = 0;
            while k < d
                invariant
                    k <= d,
                    out@ == before + repeat_text("  "@, k as nat),
                decreases d - k,
            {
                out.append("  ");
                k += 1;
            }
            if d > 0 {
                out.append("└─ ");
            }
            out.append(self.widget_path[d].as_str());
            if self.reentered && d + 1 == n {
                out.append("  <-- entered twice");
            }
            out.append("\n");
            proof {
                assert(paths[d as int] == self.widget_path@[d as int]@);
                assert(paths.len() == n);
                assert(out@ =~= before + path_line(paths, d as nat, self.reentered));
            }
            d += 1;
        }
        assert(paths.len() == n);
    }

    fn append_tail(&self, out: &mut String, include_log_path: bool)
        ensures
            final(out)@ == old(out)@ + report_tail(self@, include_log_path),
    {
        let ghost start = out@;
        out.append("\nLast external call: ");
        match &self.last_external_call {
            Some(c) => out.append(c.as_str()),
            None => out.append("none"),
        }
        if include_log_path {
            if let Some(p) = &self.log_path {
                out.append("\nCrash report: ");
                out.append(p.as_str());
            }
        }
        out.append("\n\nBacktrace:\n");
        out.append(self.backtrace.as_str());
        assert(out@ =~= start + report_tail(self@, include_log_path));
    }

    /// The report as text, with the log path when `include_log_path`.
    pub fn render(&self, include_log_path: bool) -> (r: String)
        ensures
            r@ == report_text(self@, include_log_path),
    {
        let mut out = self.render_head();
        self.append_path(&mut out);
        self.append_tail(&mut out, include_log_path);
        assert(out@ =~= report_text(self@, include_log_path));
        out
    }
}

} // verus!
