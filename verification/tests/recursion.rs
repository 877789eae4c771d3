use incular_widgets::recursion::{
    DiagnosticNode, DiagnosticNodeId, FramePhase, RecursionDiagnostics, MIN_RECURSION_LIMIT,
};

fn render_node(index: u32, kind: &str, phase: FramePhase) -> DiagnosticNode {
    DiagnosticNode {
        phase,
        id: Some(DiagnosticNodeId::Render { index, generation: 0 }),
        kind: kind.to_string(),
        constraints: None,
    }
}

#[test]
fn repeated_render_is_reported_before_stack_exhaustion() {
    let mut diagnostics = RecursionDiagnostics::new();
    diagnostics.set_trigger("click(\"Open menu\")");
    let node = render_node(113, "Decorated", FramePhase::Layout);
    assert!(diagnostics.enter(node.copy()).is_ok());
    let refused = diagnostics.enter(node.copy());
    let report = match refused {
        Err(report) => report,
        Ok(()) => panic!("re-entry must be refused"),
    };
    diagnostics.exit();
    assert_eq!(report.phase, FramePhase::Layout);
    assert!(report.reentered);
    assert_eq!(report.trigger.as_deref(), Some("click(\"Open menu\")"));
    assert!(report.repeated_node.contains("Decorated"));
    let kept = diagnostics.last_report().expect("recursion report");
    assert_eq!(kept.reason, report.reason);
    assert_eq!(diagnostics.depth(), 0);
}

#[test]
fn excessive_unique_depth_is_reported_as_depth_not_reentry() {
    let mut diagnostics = RecursionDiagnostics::new();
    diagnostics.set_limit(MIN_RECURSION_LIMIT);
    for index in 0..MIN_RECURSION_LIMIT {
        assert!(diagnostics.enter(render_node(index as u32, "Container", FramePhase::Paint)).is_ok());
    }
    let refused = diagnostics.enter(render_node(MIN_RECURSION_LIMIT as u32, "Text", FramePhase::Paint));
    let report = match refused {
        Err(report) => report,
        Ok(()) => panic!("too deep"),
    };
    assert!(!report.reentered);
    assert!(report.reason.contains("exceeded the configured limit"));
    assert!(!report.render(true).contains("entered twice"));
    let report = diagnostics.last_report().expect("depth report");
    assert_eq!(report.reason, "active frame-pipeline depth 17 exceeded the configured limit 16");
}

#[test]
fn reentry_reason_and_path_start_at_the_repeated_node() {
    let mut d = RecursionDiagnostics::new();
    assert!(d.enter(DiagnosticNode::phase_root(FramePhase::Build)).is_ok());
    assert!(d.enter(render_node(1, "A", FramePhase::Build)).is_ok());
    assert!(d.enter(render_node(2, "B", FramePhase::Build)).is_ok());
    let report = match d.enter(render_node(1, "A", FramePhase::Build)) {
        Err(r) => r,
        Ok(()) => panic!("re-entry"),
    };
    assert_eq!(report.reason, "the same retained node re-entered Build before its previous invocation completed");
    assert_eq!(report.widget_path, vec!["RenderObjectId(1,0) A", "RenderObjectId(2,0) B", "RenderObjectId(1,0) A"]);
    assert_eq!(d.depth(), 3);
}

#[test]
fn same_node_in_another_phase_is_not_a_reentry() {
    let mut d = RecursionDiagnostics::new();
    assert!(d.enter(render_node(5, "X", FramePhase::Build)).is_ok());
    assert!(d.enter(render_node(5, "X", FramePhase::Paint)).is_ok());
    d.exit();
    d.exit();
    d.exit();
    assert_eq!(d.depth(), 0);
}

#[test]
fn limit_is_clamped() {
    let mut d = RecursionDiagnostics::new();
    assert_eq!(d.limit(), 256);
    d.set_limit(1);
    assert_eq!(d.limit(), 16);
    d.set_limit(100_000);
    assert_eq!(d.limit(), 4096);
}

#[test]
fn report_text_lists_the_path_with_marks() {
    let mut d = RecursionDiagnostics::new();
    d.external_call("layout_callback");
    assert!(d.enter(render_node(7, "Box", FramePhase::Layout)).is_ok());
    let report = match d.enter(render_node(7, "Box", FramePhase::Layout)) {
        Err(r) => r,
        Ok(()) => panic!("re-entry"),
    };
    let text = report.render(false);
    assert_eq!(
        text,
        "Incular detected unsafe layout nesting\n\nTrigger: unknown\nFrame phase: Layout\n\
         Reason: the same retained node re-entered Layout before its previous invocation completed\n\
         Repeated node: RenderObjectId(7,0) Box\n\nWidget path:\nRenderObjectId(7,0) Box\n  └─ RenderObjectId(7,0) Box  <-- entered twice\n\
         \nLast external call: layout_callback\n\nBacktrace:\n"
    );
    d.end_external_call();
    let mut with_path = report.copy();
    with_path.log_path = Some("/tmp/r.log".to_string());
    assert!(with_path.render(true).contains("\nCrash report: /tmp/r.log"));
    assert!(!with_path.render(false).contains("Crash report"));
}

#[test]
fn node_labels() {
    let e = DiagnosticNode { phase: FramePhase::Build, id: Some(DiagnosticNodeId::Element { index: 3, generation: 2 }), kind: "Text".to_string(), constraints: None };
    assert_eq!(e.label(), "ElementId(3,2) Text");
    assert_eq!(DiagnosticNode::phase_root(FramePhase::Paint).label(), "WidgetTree");
    assert_eq!(FramePhase::Semantics.name(), "Semantics");
    assert_eq!(FramePhase::Compositor.lower_name(), "compositor");
}
