//! Windowing of streaming pipelines: missing windows, lateness, global
//! windows.
use crate::analyzer::{
    count_milli, counted, counted_text, finding_views, fixed_finding, make_finding, make_result,
    metric_views, no_nodes, one_node, push_finding, push_metric, AnalysisContext, AnalysisResult,
    AnalysisResultView, Finding, FindingType, FindingView, Impact, Metric, RiskSeverity, impact,
    has_id,
};
use crate::ir::{count_class, count_selected, NodeClass, PipelineIR, Selector, TransformNode, TransformType};
use crate::text::{contains, decimal, str_contains, str_eq};
use vstd::prelude::*;

verus! {

pub const MISSING_TITLE: &'static str = "Streaming pipeline without windowing";
pub const MISSING_DESC: &'static str = "This appears to be a streaming pipeline (PubSub/Kafka source) but no windowing is configured. Without windows, how will results be emitted?";
pub const MISSING_REC: &'static str = "Add explicit windowing (FixedWindows, SlidingWindows, or SessionWindows) or configure global windowing with a trigger.";
pub const NO_LATENESS_TITLE: &'static str = "Missing allowed lateness configuration";
pub const NO_LATENESS_DESC: &'static str = "Streaming pipelines should configure allowed lateness to handle late-arriving data. Without it, late events are silently discarded.";
pub const NO_LATENESS_REC: &'static str = "Configure allowed lateness based on your SLA. Example: .withAllowedLateness(Duration.standardSeconds(3600))";
pub const LONG_TITLE_A: &'static str = "Very long allowed lateness (";
pub const LONG_TITLE_B: &'static str = " seconds)";
pub const LONG_DESC: &'static str = "Long allowed lateness causes state to be retained for days. This increases memory/disk costs significantly.";
pub const LONG_REC: &'static str = "Reduce allowed lateness to match your SLA (typically 1-3 hours). Balance correctness against state cost.";
pub const GLOBAL_TITLE: &'static str = "Global window without manual trigger";
pub const GLOBAL_DESC: &'static str = "Global windows with default trigger will never emit in unbounded streams. You must set a trigger.";
pub const GLOBAL_REC: &'static str = "Add a trigger: .triggering(Repeatedly(AfterProcessingTime(...))) or AfterPane(...).";
pub const BATCH_NA_SUMMARY: &'static str = "Batch pipeline detected; windowing not applicable";
pub const BATCH_SUMMARY: &'static str = "Batch pipeline detected";
pub const STREAM_SUMMARY_A: &'static str = "Streaming pipeline with ";
pub const STREAM_SUMMARY_B: &'static str = " windowing operation(s)";

/// Allowed lateness beyond one day (in seconds) is reported as too long.
pub const MAX_LATENESS_SEC: u64 = 86400;

/// Checks the windowing of streaming pipelines.
pub struct WindowingAnalyzer;

/// A source reading from Pub/Sub or Kafka.
pub open spec fn streaming_source(t: TransformType) -> bool {
    match t {
        TransformType::Source { source_type } => contains(source_type@, "pubsub"@) || contains(
            source_type@,
            "kafka"@,
        ),
        _ => false,
    }
}

/// Some source of the pipeline reads from Pub/Sub or Kafka.
pub open spec fn is_streaming(nodes: Seq<TransformNode>) -> bool {
    exists|i: int| 0 <= i < nodes.len() && streaming_source(#[trigger] nodes[i].node_type)
}

pub open spec fn node_finding(
    id: Seq<char>,
    sev: RiskSeverity,
    ty: FindingType,
    title: Seq<char>,
    desc: Seq<char>,
    node: Seq<char>,
    rec: Seq<char>,
    imp: Impact,
    conf: u32,
) -> FindingView {
    FindingView {
        id,
        severity: sev,
        finding_type: ty,
        title,
        description: desc,
        affected_nodes: seq![node],
        recommendation: Some(rec),
        estimated_impact: Some(imp),
        confidence: conf,
    }
}

/// The findings for each windowing transform among `nodes`, in order:
/// missing lateness (streaming only), lateness over a day, global window.
pub open spec fn window_findings(nodes: Seq<TransformNode>, streaming: bool) -> Seq<FindingView>
    decreases nodes.len(),
{
    if nodes.len() == 0 {
        Seq::empty()
    } else {
        let r = window_findings(nodes.drop_last(), streaming);
        let n = nodes.last();
        match n.node_type {
            TransformType::Windowing { window_type, allowed_lateness_sec, .. } => {
                let r1 = if allowed_lateness_sec is None && streaming {
                    r.push(
                        node_finding(
                            "WINDOWING_NO_LATENESS"@,
                            RiskSeverity::Medium,
                            FindingType::ReliabilityRisk,
                            NO_LATENESS_TITLE@,
                            NO_LATENESS_DESC@,
                            n.id@,
                            NO_LATENESS_REC@,
                            impact(None, None, Some(2_000)),
                            820,
                        ),
                    )
                } else {
                    r
                };
                let r2 = match allowed_lateness_sec {
                    Some(l) => if l > MAX_LATENESS_SEC {
                        r1.push(
                            node_finding(
                                "WINDOWING_LONG_LATENESS"@,
                                RiskSeverity::Medium,
                                FindingType::CostRisk,
                                LONG_TITLE_A@ + decimal(l as nat) + LONG_TITLE_B@,
                                LONG_DESC@,
                                n.id@,
                                LONG_REC@,
                                impact(None, Some(500_000), None),
                                800,
                            ),
                        )
                    } else {
                        r1
                    },
                    None => r1,
                };
                if window_type@ == "global"@ {
                    r2.push(
                        node_finding(
                            "WINDOWING_GLOBAL_NO_TRIGGER"@,
                            RiskSeverity::High,
                            FindingType::ReliabilityRisk,
                            GLOBAL_TITLE@,
                            GLOBAL_DESC@,
                            n.id@,
                            GLOBAL_REC@,
                            impact(None, None, Some(100_000)),
                            900,
                        ),
                    )
                } else {
                    r2
                }
            },
            _ => r,
        }
    }
}

pub open spec fn missing_finding() -> FindingView {
    FindingView {
        id: "WINDOWING_MISSING"@,
        severity: RiskSeverity::Medium,
        finding_type: FindingType::ReliabilityRisk,
        title: MISSING_TITLE@,
        description: MISSING_DESC@,
        affected_nodes: Seq::empty(),
        recommendation: Some(MISSING_REC@),
        estimated_impact: Some(impact(None, None, Some(100_000))),
        confidence: 750,
    }
}

/// What [`WindowingAnalyzer::analyze`] reports for a pipeline.
pub open spec fn windowing_result(ir: PipelineIR) -> AnalysisResultView {
    let nodes = ir.nodes@;
    let nwin = count_selected(nodes, Selector::Class(NodeClass::Windowing));
    let streaming = is_streaming(nodes);
    let metrics = seq![("windowing_operation_count"@, count_milli(nwin))];
    if !streaming && nwin == 0 {
        AnalysisResultView {
            analyzer_name: "WindowingAnalyzer"@,
            version: "0.1.0"@,
            findings: Seq::empty(),
            metrics,
            summary: BATCH_NA_SUMMARY@,
            confidence: 900,
        }
    } else {
        let s0 = if streaming && nwin == 0 {
            seq![missing_finding()]
        } else {
            Seq::empty()
        };
        AnalysisResultView {
            analyzer_name: "WindowingAnalyzer"@,
            version: "0.1.0"@,
            findings: s0 + window_findings(nodes, streaming),
            metrics,
            summary: if streaming {
                counted(STREAM_SUMMARY_A@, nwin, STREAM_SUMMARY_B@)
            } else {
                BATCH_SUMMARY@
            },
            confidence: 850,
        }
    }
}

/// Whether some source reads from Pub/Sub or Kafka.
pub fn streaming_nodes(nodes: &Vec<TransformNode>) -> (r: bool)
    ensures
        r == is_streaming(nodes@),
{
    let mut i: usize = 0;
    while i < nodes.len()
        invariant
            i <= nodes@.len(),
            forall|j: int| 0 <= j < i ==> !streaming_source(#[trigger] nodes@[j].node_type),
        decreases nodes@.len() - i,
    {
        if let TransformType::Source { source_type } = &nodes[i].node_type {
            if str_contains(source_type.as_str(), "pubsub") || str_contains(source_type.as_str(), "kafka") {
                assert(streaming_source(nodes@[i as int].node_type));
                return true;
            }
        }
        i = i + 1;
    }
    false
}

impl WindowingAnalyzer {
    pub fn name(&self) -> (r: &'static str)
        ensures
            r@ == "WindowingAnalyzer"@,
    {
        "WindowingAnalyzer"
    }

    pub fn version(&self) -> (r: &'static str)
        ensures
            r@ == "0.1.0"@,
    {
        "0.1.0"
    }

    pub fn priority(&self) -> (r: u32)
        ensures
            r == 4,
    {
        4
    }

    /// Reports the windowing issues of a pipeline.
    pub fn analyze(&self, ctx: &AnalysisContext) -> (r: AnalysisResult)
        ensures
            r@ == windowing_result(ctx.pipeline_ir),
    {
        let ir = &ctx.pipeline_ir;
        let nwin = count_class(&ir.nodes, NodeClass::Windowing);
        let streaming = streaming_nodes(&ir.nodes);
        let mut metrics: Vec<Metric> = Vec::new();
        push_metric(&mut metrics, "windowing_operation_count", crate::analyzer::count_value(nwin));
        let mut findings: Vec<Finding> = Vec::new();
        proof {
            assert(finding_views(findings@) =~= Seq::<FindingView>::empty());
        }
        if !streaming && nwin == 0 {
            proof {
                assert(metric_views(metrics@) =~= windowing_result(*ir).metrics);
            }
            return make_result(
                self.name(),
                self.version(),
                findings,
                metrics,
                String::from_str(BATCH_NA_SUMMARY),
                900,
            );
        }
        if streaming && nwin == 0 {
            push_finding(
                &mut findings,
                fixed_finding(
                    "WINDOWING_MISSING",
                    RiskSeverity::Medium,
                    FindingType::ReliabilityRisk,
                    MISSING_TITLE,
                    MISSING_DESC,
                    no_nodes(),
                    Some(MISSING_REC),
                    Some(
                        Impact {
                            latency_multiplier: None,
                            cost_delta_monthly: None,
                            affected_records_percent: Some(100_000),
                        },
                    ),
                    750,
                ),
            );
        }
        let ghost s0 = finding_views(findings@);
        let mut i: usize = 0;
        proof {
            assert(window_findings(ir.nodes@.take(0), streaming) =~= Seq::<FindingView>::empty());
            assert(s0 + Seq::<FindingView>::empty() =~= s0);
        }
        while i < ir.nodes.len()
            invariant
                i <= ir.nodes@.len(),
                finding_views(findings@) == s0 + window_findings(ir.nodes@.take(i as int), streaming),
            decreases ir.nodes@.len() - i,
        {
            proof {
                assert(ir.nodes@.take(i + 1).drop_last() =~= ir.nodes@.take(i as int));
                assert(ir.nodes@.take(i + 1).last() == ir.nodes@[i as int]);
            }
            let node = &ir.nodes[i];
            let ghost before = finding_views(findings@);
            if let TransformType::Windowing { window_type, allowed_lateness_sec, .. } = &node.node_type {
                if allowed_lateness_sec.is_none() && streaming {
                    push_finding(
                        &mut findings,
                        fixed_finding(
                            "WINDOWING_NO_LATENESS",
                            RiskSeverity::Medium,
                            FindingType::ReliabilityRisk,
                            NO_LATENESS_TITLE,
                            NO_LATENESS_DESC,
                            one_node(&node.id),
                            Some(NO_LATENESS_REC),
                            Some(
                                Impact {
                                    latency_multiplier: None,
                                    cost_delta_monthly: None,
                                    affected_records_percent: Some(2_000),
                                },
                            ),
                            820,
                        ),
                    );
                }
                if let Some(l) = allowed_lateness_sec {
                    if *l > MAX_LATENESS_SEC {
                        push_finding(
                            &mut findings,
                            make_finding(
                                "WINDOWING_LONG_LATENESS",
                                RiskSeverity::Medium,
                                FindingType::CostRisk,
                                counted_text(LONG_TITLE_A, *l, LONG_TITLE_B),
                                String::from_str(LONG_DESC),
                                one_node(&node.id),
                                Some(LONG_REC),
                                Some(
                                    Impact {
                                        latency_multiplier: None,
                                        cost_delta_monthly: Some(500_000),
                                        affected_records_percent: None,
                                    },
                                ),
                                800,
                            ),
                        );
                    }
                }
                if str_eq(window_type.as_str(), "global") {
                    push_finding(
                        &mut findings,
                        fixed_finding(
                            "WINDOWING_GLOBAL_NO_TRIGGER",
                            RiskSeverity::High,
                            FindingType::ReliabilityRisk,
                            GLOBAL_TITLE,
                            GLOBAL_DESC,
                            one_node(&node.id),
                            Some(GLOBAL_REC),
                            Some(
                                Impact {
                                    latency_multiplier: None,
                                    cost_delta_monthly: None,
                                    affected_records_percent: Some(100_000),
                                },
                            ),
                            900,
                        ),
                    );
                }
            }
            proof {
                let w = window_findings(ir.nodes@.take(i as int), streaming);
                let w1 = window_findings(ir.nodes@.take(i + 1), streaming);
                assert(before == s0 + w);
                assert(finding_views(findings@) =~= s0 + w1);
            }
            i = i + 1;
        }
        proof {
            assert(ir.nodes@.take(ir.nodes@.len() as int) =~= ir.nodes@);
            assert(finding_views(findings@) =~= windowing_result(*ir).findings);
            assert(metric_views(metrics@) =~= windowing_result(*ir).metrics);
        }
        let summary = if streaming {
            counted_text(STREAM_SUMMARY_A, nwin as u64, STREAM_SUMMARY_B)
        } else {
            String::from_str(BATCH_SUMMARY)
        };
        make_result(self.name(), self.version(), findings, metrics, summary, 850)
    }
}

/// The window rule named `id` applies to the node `n`: no allowed lateness
/// in a streaming pipeline, lateness over a day, or a global window.
pub open spec fn window_rule_applies(n: TransformNode, streaming: bool, id: Seq<char>) -> bool {
    match n.node_type {
        TransformType::Windowing { window_type, allowed_lateness_sec, .. } => {
            ||| id == "WINDOWING_NO_LATENESS"@ && allowed_lateness_sec is None && streaming
            ||| id == "WINDOWING_LONG_LATENESS"@ && match allowed_lateness_sec {
                Some(l) => l > MAX_LATENESS_SEC,
                None => false,
            }
            ||| id == "WINDOWING_GLOBAL_NO_TRIGGER"@ && window_type@ == "global"@
        },
        _ => false,
    }
}

/// The findings that one node adds to those of the nodes before it.
pub open spec fn node_window_findings(n: TransformNode, streaming: bool) -> Seq<FindingView> {
    window_findings(seq![n], streaming)
}

proof fn lemma_window_findings_step(nodes: Seq<TransformNode>, streaming: bool)
    requires
        nodes.len() > 0,
    ensures
        window_findings(nodes, streaming) == window_findings(nodes.drop_last(), streaming)
            + node_window_findings(nodes.last(), streaming),
{
    reveal_with_fuel(window_findings, 2);
    let n = nodes.last();
    assert(seq![n].drop_last() =~= Seq::<TransformNode>::empty());
    assert(seq![n].last() == n);
    assert(window_findings(nodes, streaming) =~= window_findings(nodes.drop_last(), streaming)
        + window_findings(seq![n], streaming));
}

proof fn lemma_node_window_findings(n: TransformNode, streaming: bool)
    ensures
        forall|id: Seq<char>|
            #[trigger] window_rule_applies(n, streaming, id) ==> exists|i: int|
                0 <= i < node_window_findings(n, streaming).len() && (#[trigger] node_window_findings(
                    n,
                    streaming,
                )[i]).id == id && node_window_findings(n, streaming)[i].affected_nodes == seq![n.id@],
        forall|i: int|
            0 <= i < node_window_findings(n, streaming).len() ==> window_rule_applies(
                n,
                streaming,
                (#[trigger] node_window_findings(n, streaming)[i]).id,
            ) && node_window_findings(n, streaming)[i].affected_nodes == seq![n.id@],
{
    reveal_with_fuel(window_findings, 2);
    let f = node_window_findings(n, streaming);
    assert(seq![n].drop_last() =~= Seq::<TransformNode>::empty());
    assert(seq![n].last() == n);
    assert forall|id: Seq<char>| #[trigger] window_rule_applies(n, streaming, id) implies exists|i: int|
        0 <= i < f.len() && (#[trigger] f[i]).id == id && f[i].affected_nodes == seq![n.id@] by {
        if f.len() > 0 && f[0].id == id {
        } else if f.len() > 1 && f[1].id == id {
        } else {
            assert(f[f.len() - 1].id == id);
        }
    }
}

/// Each window rule that applies to a window is reported on that window
/// alone, and every finding reports a rule that applies to the window it
/// names.
pub proof fn lemma_window_findings(nodes: Seq<TransformNode>, streaming: bool)
    ensures
        forall|k: int, id: Seq<char>|
            0 <= k < nodes.len() && #[trigger] window_rule_applies(nodes[k], streaming, id) ==> exists|i: int|
                0 <= i < window_findings(nodes, streaming).len() && (#[trigger] window_findings(
                    nodes,
                    streaming,
                )[i]).id == id && window_findings(nodes, streaming)[i].affected_nodes == seq![nodes[k].id@],
        forall|i: int|
            #![trigger window_findings(nodes, streaming)[i]]
            0 <= i < window_findings(nodes, streaming).len() ==> exists|k: int|
                0 <= k < nodes.len() && #[trigger] window_rule_applies(
                    nodes[k],
                    streaming,
                    window_findings(nodes, streaming)[i].id,
                ) && window_findings(nodes, streaming)[i].affected_nodes == seq![nodes[k].id@],
    decreases nodes.len(),
{
    if nodes.len() > 0 {
        let d = nodes.drop_last();
        let n = nodes.last();
        lemma_window_findings(d, streaming);
        lemma_window_findings_step(nodes, streaming);
        lemma_node_window_findings(n, streaming);
        let r = window_findings(d, streaming);
        let g = node_window_findings(n, streaming);
        let f = window_findings(nodes, streaming);
        let last = nodes.len() - 1;
        assert(nodes[last] == n);
        assert forall|k: int, id: Seq<char>|
            0 <= k < nodes.len() && #[trigger] window_rule_applies(nodes[k], streaming, id) implies exists|i: int|
            0 <= i < f.len() && (#[trigger] f[i]).id == id && f[i].affected_nodes == seq![nodes[k].id@] by {
            if k < d.len() {
                assert(d[k] == nodes[k]);
                assert(window_rule_applies(d[k], streaming, id));
                let i = choose|i: int|
                    0 <= i < r.len() && (#[trigger] r[i]).id == id && r[i].affected_nodes == seq![d[k].id@];
                assert(f[i] == r[i]);
            } else {
                assert(window_rule_applies(n, streaming, id));
                let j = choose|j: int| 0 <= j < g.len() && (#[trigger] g[j]).id == id && g[j].affected_nodes == seq![n.id@];
                assert(f[r.len() + j] == g[j]);
            }
        }
        assert forall|i: int| #![trigger f[i]] 0 <= i < f.len() implies exists|k: int|
            0 <= k < nodes.len() && #[trigger] window_rule_applies(nodes[k], streaming, f[i].id)
                && f[i].affected_nodes == seq![nodes[k].id@] by {
            if i < r.len() {
                assert(f[i] == r[i]);
                let k = choose|k: int|
                    0 <= k < d.len() && #[trigger] window_rule_applies(d[k], streaming, r[i].id)
                        && r[i].affected_nodes == seq![d[k].id@];
                assert(d[k] == nodes[k]);
            } else {
                assert(f[i] == g[i - r.len()]);
                assert(window_rule_applies(nodes[last], streaming, f[i].id));
            }
        }
    }
}

proof fn lemma_window_findings_not_missing(nodes: Seq<TransformNode>, streaming: bool)
    ensures
        !has_id(window_findings(nodes, streaming), "WINDOWING_MISSING"@),
{
    let w = window_findings(nodes, streaming);
    lemma_window_findings(nodes, streaming);
    reveal_strlit("WINDOWING_MISSING");
    reveal_strlit("WINDOWING_NO_LATENESS");
    reveal_strlit("WINDOWING_LONG_LATENESS");
    reveal_strlit("WINDOWING_GLOBAL_NO_TRIGGER");
    assert("WINDOWING_MISSING"@.len() == 17);
    assert("WINDOWING_NO_LATENESS"@.len() == 21);
    assert("WINDOWING_LONG_LATENESS"@.len() == 23);
    assert("WINDOWING_GLOBAL_NO_TRIGGER"@.len() == 27);
    if has_id(w, "WINDOWING_MISSING"@) {
        let i = choose|i: int| 0 <= i < w.len() && (#[trigger] w[i]).id == "WINDOWING_MISSING"@;
        let k = choose|k: int|
            0 <= k < nodes.len() && #[trigger] window_rule_applies(nodes[k], streaming, w[i].id)
                && w[i].affected_nodes == seq![nodes[k].id@];
    }
}

proof fn lemma_window_findings_need_windows(nodes: Seq<TransformNode>, streaming: bool)
    requires
        nodes.len() <= usize::MAX,
        count_selected(nodes, Selector::Class(NodeClass::Windowing)) == 0,
    ensures
        window_findings(nodes, streaming).len() == 0,
{
    let w = window_findings(nodes, streaming);
    lemma_window_findings(nodes, streaming);
    crate::ir::lemma_select(nodes, Selector::Class(NodeClass::Windowing));
    if w.len() > 0 {
        let k = choose|k: int|
            0 <= k < nodes.len() && #[trigger] window_rule_applies(nodes[k], streaming, w[0].id)
                && w[0].affected_nodes == seq![nodes[k].id@];
        assert(!crate::ir::selected(nodes[k], Selector::Class(NodeClass::Windowing)));
    }
}

/// The windowing rules over a whole pipeline: a batch pipeline without
/// windows gets nothing; a streaming one without windows is reported as
/// missing them (and only then); every window rule that applies is reported
/// on its window, and nothing else is reported.
#[verifier::spinoff_prover]
pub proof fn lemma_windowing_rules(ir: PipelineIR)
    ensures
        ({
            let nodes = ir.nodes@;
            let r = windowing_result(ir);
            let streaming = is_streaming(nodes);
            let nwin = count_selected(nodes, Selector::Class(NodeClass::Windowing));
            &&& !streaming && nwin == 0 ==> r.findings.len() == 0
            &&& has_id(r.findings, "WINDOWING_MISSING"@) <==> (streaming && nwin == 0)
            &&& forall|k: int, id: Seq<char>|
                0 <= k < nodes.len() && #[trigger] window_rule_applies(nodes[k], streaming, id) ==> exists|i: int|
                    0 <= i < r.findings.len() && (#[trigger] r.findings[i]).id == id
                        && r.findings[i].affected_nodes == seq![nodes[k].id@]
            &&& forall|i: int|
                #![trigger r.findings[i]]
                0 <= i < r.findings.len() ==> r.findings[i].id == "WINDOWING_MISSING"@ || exists|k: int|
                    0 <= k < nodes.len() && #[trigger] window_rule_applies(nodes[k], streaming, r.findings[i].id)
                        && r.findings[i].affected_nodes == seq![nodes[k].id@]
        }),
{
    broadcast use crate::analyzer::group_has_id;

    let nodes = ir.nodes@;
    let streaming = is_streaming(nodes);
    let nwin = count_selected(nodes, Selector::Class(NodeClass::Windowing));
    let f = windowing_result(ir).findings;
    let w = window_findings(nodes, streaming);
    let s0 = if streaming && nwin == 0 {
        seq![missing_finding()]
    } else {
        Seq::<FindingView>::empty()
    };
    lemma_window_findings(nodes, streaming);
    lemma_window_findings_not_missing(nodes, streaming);
    assert(ir.nodes@.len() == ir.nodes.len());
    if nwin == 0 {
        lemma_window_findings_need_windows(nodes, streaming);
    }
    if !streaming && nwin == 0 {
        assert(f.len() == 0);
    } else {
        assert(f == s0 + w);
        assert(has_id(s0, "WINDOWING_MISSING"@) <==> (streaming && nwin == 0));
        assert forall|k: int, id: Seq<char>|
            0 <= k < nodes.len() && #[trigger] window_rule_applies(nodes[k], streaming, id) implies exists|i: int|
            0 <= i < f.len() && (#[trigger] f[i]).id == id && f[i].affected_nodes == seq![nodes[k].id@] by {
            let i = choose|i: int|
                0 <= i < w.len() && (#[trigger] w[i]).id == id && w[i].affected_nodes == seq![nodes[k].id@];
            assert(f[s0.len() + i] == w[i]);
        }
        assert forall|i: int| #![trigger f[i]] 0 <= i < f.len() implies f[i].id == "WINDOWING_MISSING"@
            || exists|k: int|
            0 <= k < nodes.len() && #[trigger] window_rule_applies(nodes[k], streaming, f[i].id)
                && f[i].affected_nodes == seq![nodes[k].id@] by {
            if i >= s0.len() {
                assert(f[i] == w[i - s0.len()]);
            }
        }
    }
}
} // verus!
