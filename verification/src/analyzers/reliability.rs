//! Reliability: error handling, dead-letter queues, sinks.
use crate::analyzer::{
    count_milli, counted, counted_text, finding_views, fixed_finding, flag, flag_value,
    make_finding, make_result, metric_views, no_nodes, one_node, push_finding, push_metric,
    AnalysisContext, AnalysisResult, AnalysisResultView, Finding, FindingType, FindingView,
    Impact, Metric, RiskSeverity, impact, finding_ids, id_if,
};
use crate::ir::{
    class_positions, count_selected, ids_at, ids_of, lower_has, select, NodeClass, PipelineIR,
    Selector, TransformNode, TransformType,
};
use crate::text::{contains, decimal, lower_contains, lower_text};
use vstd::prelude::*;

verus! {

pub const NO_EH_TITLE_A: &'static str = "'";
pub const NO_EH_TITLE_B: &'static str = "' lacks error handling";
pub const NO_EH_DESC_A: &'static str = "Transform '";
pub const NO_EH_DESC_B: &'static str = "' performs parsing/decoding but has no visible error handling. Malformed input will cause silent failures or exceptions.";
pub const NO_EH_REC: &'static str = "Implement one of:\n1. Try-catch with side output for failed records\n2. Dead-letter queue pattern\n3. Graceful fallback value";
pub const NO_SINK_TITLE: &'static str = "Pipeline has no sink/output";
pub const NO_SINK_DESC: &'static str = "The pipeline processes data but has no output. All data is discarded.";
pub const NO_SINK_REC: &'static str = "Add a sink operation (WriteToBigQuery, WriteToPubSub, etc.)";
pub const MULTI_TITLE_A: &'static str = "Pipeline has ";
pub const MULTI_TITLE_B: &'static str = " sinks (fan-out)";
pub const MULTI_DESC: &'static str = "Multiple sinks increase complexity. Ensure all outputs are coordinated.";
pub const SUMMARY_A: &'static str = "Reliability score: ";
pub const SUMMARY_B: &'static str = "/100 | Error handling: ";
pub const SUMMARY_C: &'static str = " | DLQ: ";
pub const SUMMARY_D: &'static str = " | Sinks: ";
pub const CHECK: &'static str = "✓";
pub const CROSS: &'static str = "✗";

/// Checks error handling, dead-letter queues and sinks.
pub struct ReliabilityAnalyzer;

/// The DoFn of a ParDo parses, decodes or extracts.
pub open spec fn parsing_dofn(t: TransformType) -> bool {
    match t {
        TransformType::ParDo { dofn_name, .. } => lower_has(dofn_name@, "parse"@) || lower_has(
            dofn_name@,
            "decode"@,
        ) || lower_has(dofn_name@, "extract"@),
        _ => false,
    }
}

/// The name of a sink suggests a dead-letter queue.
pub open spec fn dlq_sink(n: TransformNode) -> bool {
    n.node_type is Sink && (lower_has(n.name@, "dead"@) || lower_has(n.name@, "error"@)
        || lower_has(n.name@, "dlq"@))
}

/// The DoFn name of a ParDo (empty for other transforms).
pub open spec fn dofn_text(t: TransformType) -> Seq<char> {
    match t {
        TransformType::ParDo { dofn_name, .. } => dofn_name@,
        _ => Seq::empty(),
    }
}

pub open spec fn no_error_handling_finding(n: TransformNode) -> FindingView {
    FindingView {
        id: "RELIABILITY_NO_ERROR_HANDLING"@,
        severity: RiskSeverity::High,
        finding_type: FindingType::ReliabilityRisk,
        title: NO_EH_TITLE_A@ + dofn_text(n.node_type) + NO_EH_TITLE_B@,
        description: NO_EH_DESC_A@ + dofn_text(n.node_type) + NO_EH_DESC_B@,
        affected_nodes: seq![n.id@],
        recommendation: Some(NO_EH_REC@),
        estimated_impact: Some(impact(None, None, Some(100))),
        confidence: 850,
    }
}

/// A finding for each parsing ParDo among `nodes`, in order.
pub open spec fn parsing_findings(nodes: Seq<TransformNode>) -> Seq<FindingView>
    decreases nodes.len(),
{
    if nodes.len() == 0 {
        Seq::empty()
    } else {
        let r = parsing_findings(nodes.drop_last());
        if parsing_dofn(nodes.last().node_type) {
            r.push(no_error_handling_finding(nodes.last()))
        } else {
            r
        }
    }
}

/// Some sink looks like a dead-letter queue.
pub open spec fn has_dlq(nodes: Seq<TransformNode>) -> bool {
    exists|i: int| 0 <= i < nodes.len() && dlq_sink(#[trigger] nodes[i])
}

/// The reliability score: 100 less 15 per issue (findings, missing error
/// handling, missing dead-letter queue), at least 0.
pub open spec fn reliability_score(issues: nat) -> nat {
    if 15 * issues >= 100 {
        0
    } else {
        (100 - 15 * issues) as nat
    }
}

pub open spec fn mark(b: bool) -> Seq<char> {
    if b {
        CHECK@
    } else {
        CROSS@
    }
}

/// The findings of [`ReliabilityAnalyzer::analyze`].
pub open spec fn reliability_findings(ir: PipelineIR) -> Seq<FindingView> {
    let nodes = ir.nodes@;
    let eh = count_selected(nodes, Selector::Class(NodeClass::SideOutputs)) > 0;
    let sinks = select(nodes, Selector::Class(NodeClass::Sink));
    let s0 = if !eh {
        parsing_findings(nodes)
    } else {
        Seq::empty()
    };
    let s1 = if sinks.len() == 0 {
        s0.push(
            FindingView {
                id: "RELIABILITY_NO_SINK"@,
                severity: RiskSeverity::Critical,
                finding_type: FindingType::ReliabilityRisk,
                title: NO_SINK_TITLE@,
                description: NO_SINK_DESC@,
                affected_nodes: Seq::empty(),
                recommendation: Some(NO_SINK_REC@),
                estimated_impact: Some(impact(None, None, Some(100_000))),
                confidence: 990,
            },
        )
    } else {
        s0
    };
    if sinks.len() > 1 {
        s1.push(
            FindingView {
                id: "RELIABILITY_MULTIPLE_SINKS"@,
                severity: RiskSeverity::Low,
                finding_type: FindingType::ConfigurationIssue,
                title: counted(MULTI_TITLE_A@, sinks.len(), MULTI_TITLE_B@),
                description: MULTI_DESC@,
                affected_nodes: ids_at(nodes, sinks),
                recommendation: None,
                estimated_impact: None,
                confidence: 800,
            },
        )
    } else {
        s1
    }
}

/// What [`ReliabilityAnalyzer::analyze`] reports for a pipeline.
pub open spec fn reliability_result(ir: PipelineIR) -> AnalysisResultView {
    let nodes = ir.nodes@;
    let eh = count_selected(nodes, Selector::Class(NodeClass::SideOutputs)) > 0;
    let dlq = has_dlq(nodes);
    let findings = reliability_findings(ir);
    let issues = findings.len() + (if eh {
        0nat
    } else {
        1nat
    }) + (if dlq {
        0nat
    } else {
        1nat
    });
    let score = reliability_score(issues);
    AnalysisResultView {
        analyzer_name: "ReliabilityAnalyzer"@,
        version: "0.1.0"@,
        findings,
        metrics: seq![
            ("has_error_handling"@, flag(eh)),
            ("has_dead_letter_queue"@, flag(dlq)),
            ("has_side_outputs"@, flag(eh)),
            ("reliability_score"@, (score * 1000) as i64),
        ],
        summary: SUMMARY_A@ + decimal(score) + SUMMARY_B@ + mark(eh) + SUMMARY_C@ + mark(dlq)
            + SUMMARY_D@ + decimal(count_selected(nodes, Selector::Class(NodeClass::Sink))),
        confidence: 750,
    }
}

fn dlq_exec(nodes: &Vec<TransformNode>) -> (r: bool)
    ensures
        r == has_dlq(nodes@),
{
    let mut i: usize = 0;
    while i < nodes.len()
        invariant
            i <= nodes@.len(),
            forall|j: int| 0 <= j < i ==> !dlq_sink(#[trigger] nodes@[j]),
        decreases nodes@.len() - i,
    {
        let n = &nodes[i];
        if let TransformType::Sink { .. } = &n.node_type {
            if lower_contains(n.name.as_str(), "dead") || lower_contains(n.name.as_str(), "error")
                || lower_contains(n.name.as_str(), "dlq") {
                assert(dlq_sink(nodes@[i as int]));
                return true;
            }
        }
        i = i + 1;
    }
    false
}

fn mark_text(b: bool) -> (r: &'static str)
    ensures
        r@ == mark(b),
{
    if b {
        CHECK
    } else {
        CROSS
    }
}

impl ReliabilityAnalyzer {
    pub fn name(&self) -> (r: &'static str)
        ensures
            r@ == "ReliabilityAnalyzer"@,
    {
        "ReliabilityAnalyzer"
    }

    pub fn version(&self) -> (r: &'static str)
        ensures
            r@ == "0.1.0"@,
    {
        "0.1.0"
    }

    pub fn priority(&self) -> (r: u32)
        ensures
            r == 7,
    {
        7
    }

    /// Reports the reliability issues of a pipeline.
    pub fn analyze(&self, ctx: &AnalysisContext) -> (r: AnalysisResult)
        ensures
            r@ == reliability_result(ctx.pipeline_ir),
    {
        let ir = &ctx.pipeline_ir;
        let eh = crate::ir::count_class(&ir.nodes, NodeClass::SideOutputs) > 0;
        let dlq = dlq_exec(&ir.nodes);
        let mut findings: Vec<Finding> = Vec::new();
        proof {
            assert(finding_views(findings@) =~= Seq::<FindingView>::empty());
        }
        if !eh {
            let mut i: usize = 0;
            proof {
                assert(parsing_findings(ir.nodes@.take(0)) =~= Seq::<FindingView>::empty());
            }
            while i < ir.nodes.len()
                invariant
                    i <= ir.nodes@.len(),
                    finding_views(findings@) == parsing_findings(ir.nodes@.take(i as int)),
                decreases ir.nodes@.len() - i,
            {
                proof {
                    assert(ir.nodes@.take(i + 1).drop_last() =~= ir.nodes@.take(i as int));
                    assert(ir.nodes@.take(i + 1).last() == ir.nodes@[i as int]);
                }
                let node = &ir.nodes[i];
                if let TransformType::ParDo { dofn_name, .. } = &node.node_type {
                    let d = dofn_name.as_str();
                    if lower_contains(d, "parse") || lower_contains(d, "decode") || lower_contains(
                        d,
                        "extract",
                    ) {
                        push_finding(
                            &mut findings,
                            make_finding(
                                "RELIABILITY_NO_ERROR_HANDLING",
                                RiskSeverity::High,
                                FindingType::ReliabilityRisk,
                                crate::text::concat3(NO_EH_TITLE_A, d, NO_EH_TITLE_B),
                                crate::text::concat3(NO_EH_DESC_A, d, NO_EH_DESC_B),
                                one_node(&node.id),
                                Some(NO_EH_REC),
                                Some(
                                    Impact {
                                        latency_multiplier: None,
                                        cost_delta_monthly: None,
                                        affected_records_percent: Some(100),
                                    },
                                ),
                                850,
                            ),
                        );
                    }
                }
                i = i + 1;
            }
            proof {
                assert(ir.nodes@.take(ir.nodes@.len() as int) =~= ir.nodes@);
            }
        }
        let sinks = class_positions(&ir.nodes, NodeClass::Sink);
        let nsinks = sinks.len();
        if nsinks == 0 {
            push_finding(
                &mut findings,
                fixed_finding(
                    "RELIABILITY_NO_SINK",
                    RiskSeverity::Critical,
                    FindingType::ReliabilityRisk,
                    NO_SINK_TITLE,
                    NO_SINK_DESC,
                    no_nodes(),
                    Some(NO_SINK_REC),
                    Some(
                        Impact {
                            latency_multiplier: None,
                            cost_delta_monthly: None,
                            affected_records_percent: Some(100_000),
                        },
                    ),
                    990,
                ),
            );
        }
        if nsinks > 1 {
            push_finding(
                &mut findings,
                make_finding(
                    "RELIABILITY_MULTIPLE_SINKS",
                    RiskSeverity::Low,
                    FindingType::ConfigurationIssue,
                    counted_text(MULTI_TITLE_A, nsinks as u64, MULTI_TITLE_B),
                    String::from_str(MULTI_DESC),
                    ids_of(&ir.nodes, &sinks),
                    None,
                    None,
                    800,
                ),
            );
        }
        proof {
            assert(finding_views(findings@) =~= reliability_findings(*ir));
        }
        let nf = findings.len();
        let extra: usize = (if eh {
            0
        } else {
            1
        }) + (if dlq {
            0
        } else {
            1
        });
        let score: u64 = if nf >= 7 || nf + extra >= 7 {
            0
        } else {
            (100 - 15 * (nf + extra)) as u64
        };
        let mut metrics: Vec<Metric> = Vec::new();
        push_metric(&mut metrics, "has_error_handling", flag_value(eh));
        push_metric(&mut metrics, "has_dead_letter_queue", flag_value(dlq));
        push_metric(&mut metrics, "has_side_outputs", flag_value(eh));
        push_metric(&mut metrics, "reliability_score", (score * 1000) as i64);
        let mut summary = String::from_str(SUMMARY_A);
        let s1 = crate::text::decimal_text(score);
        summary.append(s1.as_str());
        summary.append(SUMMARY_B);
        summary.append(mark_text(eh));
        summary.append(SUMMARY_C);
        summary.append(mark_text(dlq));
        summary.append(SUMMARY_D);
        let s2 = crate::text::decimal_text(nsinks as u64);
        summary.append(s2.as_str());
        proof {
            let spec = reliability_result(*ir);
            assert(metric_views(metrics@) =~= spec.metrics);
            assert(summary@ =~= spec.summary);
        }
        make_result(self.name(), self.version(), findings, metrics, summary, 750)
    }
}

/// Without error handling the parsing findings come first; then a pipeline
/// without a sink is reported, and one with several sinks. The score loses
/// 15 points per issue (each finding, missing error handling, a missing
/// dead-letter queue), never below 0.
pub proof fn lemma_reliability_rules(ir: PipelineIR)
    ensures
        ({
            let nodes = ir.nodes@;
            let r = reliability_result(ir);
            let eh = count_selected(nodes, Selector::Class(NodeClass::SideOutputs)) > 0;
            let sinks = count_selected(nodes, Selector::Class(NodeClass::Sink));
            let issues = r.findings.len() + (if eh {
                0int
            } else {
                1int
            }) + (if has_dlq(nodes) {
                0int
            } else {
                1int
            });
            &&& finding_ids(r.findings) == finding_ids(
                if eh {
                    Seq::empty()
                } else {
                    parsing_findings(nodes)
                },
            ) + id_if(sinks == 0, "RELIABILITY_NO_SINK"@) + id_if(sinks > 1, "RELIABILITY_MULTIPLE_SINKS"@)
            &&& r.metrics[3].0 == "reliability_score"@
            &&& r.metrics[3].1 == 1000 * (if 15 * issues >= 100 {
                0
            } else {
                100 - 15 * issues
            })
            &&& 0 <= r.metrics[3].1 <= 100_000
        }),
{
    let nodes = ir.nodes@;
    let eh = count_selected(nodes, Selector::Class(NodeClass::SideOutputs)) > 0;
    let sinks = select(nodes, Selector::Class(NodeClass::Sink));
    let s0 = if !eh {
        parsing_findings(nodes)
    } else {
        Seq::empty()
    };
    let f = reliability_findings(ir);
    assert(finding_ids(f) =~= finding_ids(s0) + id_if(sinks.len() == 0, "RELIABILITY_NO_SINK"@) + id_if(
        sinks.len() > 1,
        "RELIABILITY_MULTIPLE_SINKS"@,
    ));
}

proof fn lemma_parsing_findings_cover(nodes: Seq<TransformNode>)
    ensures
        forall|k: int|
            0 <= k < nodes.len() && parsing_dofn(#[trigger] nodes[k].node_type) ==> exists|i: int|
                0 <= i < parsing_findings(nodes).len() && parsing_findings(nodes)[i] == no_error_handling_finding(
                    nodes[k],
                ),
    decreases nodes.len(),
{
    if nodes.len() > 0 {
        let d = nodes.drop_last();
        lemma_parsing_findings_cover(d);
        let f = parsing_findings(nodes);
        let r = parsing_findings(d);
        assert forall|k: int| 0 <= k < nodes.len() && parsing_dofn(#[trigger] nodes[k].node_type) implies exists|i: int|
            0 <= i < f.len() && f[i] == no_error_handling_finding(nodes[k]) by {
            if k < d.len() {
                assert(d[k] == nodes[k]);
                assert(parsing_dofn(d[k].node_type));
                let i = choose|i: int| 0 <= i < r.len() && r[i] == no_error_handling_finding(d[k]);
                assert(f[i] == r[i]);
            } else {
                assert(nodes[k] == nodes.last());
                assert(f[r.len() as int] == no_error_handling_finding(nodes[k]));
            }
        }
    }
}

/// Without side outputs, every ParDo whose lowercased DoFn name mentions
/// parsing, decoding or extracting is reported, on that node, as lacking
/// error handling.
pub proof fn lemma_parsers_need_error_handling(ir: PipelineIR, k: int)
    requires
        count_selected(ir.nodes@, Selector::Class(NodeClass::SideOutputs)) == 0,
        0 <= k < ir.nodes@.len(),
        ir.nodes@[k].node_type matches TransformType::ParDo { dofn_name, .. } && (contains(
            lower_text(dofn_name@),
            "parse"@,
        ) || contains(lower_text(dofn_name@), "decode"@) || contains(lower_text(dofn_name@), "extract"@)),
    ensures
        exists|i: int|
            0 <= i < reliability_result(ir).findings.len() && (#[trigger] reliability_result(ir).findings[i]).id
                == "RELIABILITY_NO_ERROR_HANDLING"@ && reliability_result(ir).findings[i].affected_nodes
                == seq![ir.nodes@[k].id@] && reliability_result(ir).findings[i].severity == RiskSeverity::High,
{
    let nodes = ir.nodes@;
    lemma_parsing_findings_cover(nodes);
    assert(parsing_dofn(nodes[k].node_type));
    let p = parsing_findings(nodes);
    let i = choose|i: int| 0 <= i < p.len() && p[i] == no_error_handling_finding(nodes[k]);
    let f = reliability_findings(ir);
    assert(f.len() >= p.len());
    assert(f.subrange(0, p.len() as int) =~= p);
    assert(f[i] == f.subrange(0, p.len() as int)[i]);
    assert(reliability_result(ir).findings[i] == f[i]);
}

} // verus!
