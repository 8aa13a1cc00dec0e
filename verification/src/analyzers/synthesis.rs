//! The executive summary: performance, reliability and cost-efficiency
//! scores combined into one overall score.
use crate::analyzer::{
    finding_views, make_finding, make_result, metric_views, no_nodes, push_finding, push_metric,
    AnalysisContext, AnalysisResult, AnalysisResultView, Finding, FindingType, FindingView,
    Metric, RiskSeverity,
};
use crate::analyzers::windowing::is_streaming;
use crate::ir::{count_class, count_selected, lower_has, NodeClass, PipelineIR, Selector, TransformNode, TransformType};
use crate::text::{decimal, decimal_text, fixed, fixed_text, lower_contains};
use vstd::prelude::*;

verus! {

pub const TITLE: &'static str = "PyBeamGuard Analysis Complete";
pub const DESC_A: &'static str = "Risk Score Breakdown:\n- Performance: ";
pub const DESC_B: &'static str = "/100\n- Reliability: ";
pub const DESC_C: &'static str = "/100\n- Cost Efficiency: ";
pub const DESC_D: &'static str = "/100";
pub const REC_RISKY: &'static str = "Address critical findings before deploying to production.";
pub const REC_READY: &'static str = "Pipeline appears ready for production. Monitor metrics after deployment.";
pub const SUMMARY_A: &'static str = "PyBeamGuard Executive Summary: Overall Risk Score ";
pub const SUMMARY_B: &'static str = "/100 (";
pub const SUMMARY_C: &'static str = ") | Performance ";
pub const SUMMARY_D: &'static str = " | Reliability ";
pub const SUMMARY_E: &'static str = " | Cost Efficiency ";
pub const LEVEL_EXCELLENT: &'static str = "EXCELLENT - Production Ready";
pub const LEVEL_GOOD: &'static str = "GOOD - Minor Issues";
pub const LEVEL_WARNING: &'static str = "WARNING - Address Before Production";
pub const LEVEL_CRITICAL: &'static str = "CRITICAL - Do Not Deploy";

/// An executive summary of an analysis: the scores (thousandths of a
/// point), the top risks, costs and recommendations.
pub struct ExecutiveSummary {
    pub overall_risk_score: i64,
    pub performance_score: i64,
    pub reliability_score: i64,
    pub cost_efficiency_score: i64,
    pub top_risks: Vec<crate::analyzer::Finding>,
    pub cost_analysis: CostSummary,
    pub recommendations: Vec<Recommendation>,
}

/// The estimated monthly cost (thousandths of a dollar), by category, and
/// its hotspots.
pub struct CostSummary {
    pub estimated_monthly_cost: i64,
    pub cost_categories: Vec<(String, i64)>,
    pub cost_hotspots: Vec<CostHotspot>,
}

/// A stage's share of the cost.
pub struct CostHotspot {
    pub stage: String,
    /// Cost, in thousandths of a dollar.
    pub estimated_cost: i64,
    /// Share of the total, in thousandths of a percent.
    pub percentage_of_total: i64,
}

/// A prioritised recommendation.
pub struct Recommendation {
    pub priority: u32,
    pub title: String,
    pub description: String,
    pub estimated_impact: crate::analyzer::Impact,
    pub implementation_effort_hours: u32,
    /// Return on investment, in thousandths.
    pub roi_multiplier: i64,
}

/// Combines structural heuristics into an overall risk score; runs last.
pub struct SynthesisEngine;

/// `x` clamped to `0..=100`.
pub open spec fn clamp100(x: int) -> nat {
    if x <= 0 {
        0
    } else if x >= 100 {
        100
    } else {
        x as nat
    }
}

/// Number of ParDo transforms whose DoFn name mentions parsing.
pub open spec fn parse_count(nodes: Seq<TransformNode>) -> nat
    decreases nodes.len(),
{
    if nodes.len() == 0 {
        0
    } else {
        parse_count(nodes.drop_last()) + match nodes.last().node_type {
            TransformType::ParDo { dofn_name, .. } => if lower_has(dofn_name@, "parse"@) {
                1nat
            } else {
                0nat
            },
            _ => 0nat,
        }
    }
}

pub open spec fn class_count(ir: PipelineIR, k: NodeClass) -> int {
    count_selected(ir.nodes@, Selector::Class(k)) as int
}

/// The performance score: 100, less 10 per shuffle, less 5 per node beyond
/// five, plus 10 per CombinePerKey, less 15 when any GroupByKey is present.
pub open spec fn performance_score(ir: PipelineIR) -> nat {
    let n = ir.nodes@.len() as int;
    clamp100(
        100 - 10 * class_count(ir, NodeClass::Shuffle) - (if n > 5 {
            5 * (n - 5)
        } else {
            0int
        }) + 10 * class_count(ir, NodeClass::CombinePerKey) - (if class_count(
            ir,
            NodeClass::GroupByKey,
        ) > 0 {
            15int
        } else {
            0int
        }),
    )
}

/// The reliability score: 100, less 50 without a sink, less 15 with
/// stateful operations, less 10 per parsing ParDo, less 20 for a streaming
/// pipeline without windowing.
pub open spec fn reliability_score(ir: PipelineIR) -> nat {
    clamp100(
        100 - (if class_count(ir, NodeClass::Sink) == 0 {
            50int
        } else {
            0int
        }) - (if class_count(ir, NodeClass::Stateful) > 0 {
            15int
        } else {
            0int
        }) - 10 * parse_count(ir.nodes@) - (if is_streaming(ir.nodes@) && class_count(
            ir,
            NodeClass::Windowing,
        ) == 0 {
            20int
        } else {
            0int
        }),
    )
}

/// The minimum worker count of the deployment, if configured.
pub open spec fn min_workers_of(ir: PipelineIR) -> Option<u64> {
    match ir.metadata.deployment_config {
        Some(c) => c.min_workers,
        None => None,
    }
}

/// The deployment enables the streaming engine.
pub open spec fn streaming_engine_on(ir: PipelineIR) -> bool {
    match ir.metadata.deployment_config {
        Some(c) => c.streaming_engine == Some(true),
        None => false,
    }
}

/// The cost-efficiency score: 100, less 20 per shuffle beyond the first,
/// less 15 per stateful operation, plus 20 with the streaming engine, less
/// 10 per full ten minimum workers beyond ten.
pub open spec fn cost_efficiency_score(ir: PipelineIR) -> nat {
    let sh = class_count(ir, NodeClass::Shuffle);
    clamp100(
        100 - (if sh > 1 {
            20 * (sh - 1)
        } else {
            0int
        }) - 15 * class_count(ir, NodeClass::Stateful) + (if streaming_engine_on(ir) {
            20int
        } else {
            0int
        }) - match min_workers_of(ir) {
            Some(m) => if m > 10 {
                (m - 10) / 10 * 10
            } else {
                0int
            },
            None => 0int,
        },
    )
}

/// The overall score in thousandths: 35% performance, 35% reliability, 30%
/// cost efficiency.
pub open spec fn overall_milli(p: nat, r: nat, c: nat) -> nat {
    350 * p + 350 * r + 300 * c
}

pub open spec fn risk_level(o: nat) -> Seq<char> {
    if o >= 80_000 {
        LEVEL_EXCELLENT@
    } else if o >= 60_000 {
        LEVEL_GOOD@
    } else if o >= 40_000 {
        LEVEL_WARNING@
    } else {
        LEVEL_CRITICAL@
    }
}

pub open spec fn risk_severity(o: nat) -> RiskSeverity {
    if o >= 80_000 {
        RiskSeverity::Info
    } else if o >= 60_000 {
        RiskSeverity::Low
    } else if o >= 40_000 {
        RiskSeverity::Medium
    } else {
        RiskSeverity::Critical
    }
}

/// What [`SynthesisEngine::analyze`] reports for a pipeline.
pub open spec fn synthesis_result(ir: PipelineIR) -> AnalysisResultView {
    let p = performance_score(ir);
    let r = reliability_score(ir);
    let c = cost_efficiency_score(ir);
    let o = overall_milli(p, r, c);
    AnalysisResultView {
        analyzer_name: "SynthesisEngine"@,
        version: "0.1.0"@,
        findings: seq![
            FindingView {
                id: "SYNTHESIS_EXECUTIVE_SUMMARY"@,
                severity: risk_severity(o),
                finding_type: FindingType::ConfigurationIssue,
                title: TITLE@,
                description: DESC_A@ + decimal(p) + DESC_B@ + decimal(r) + DESC_C@ + decimal(c)
                    + DESC_D@,
                affected_nodes: Seq::empty(),
                recommendation: Some(
                    if o < 60_000 {
                        REC_RISKY@
                    } else {
                        REC_READY@
                    },
                ),
                estimated_impact: None,
                confidence: 900,
            },
        ],
        metrics: seq![
            ("overall_risk_score"@, o as i64),
            ("performance_score"@, (p * 1000) as i64),
            ("reliability_score"@, (r * 1000) as i64),
            ("cost_efficiency_score"@, (c * 1000) as i64),
        ],
        summary: SUMMARY_A@ + fixed(o, 0) + SUMMARY_B@ + risk_level(o) + SUMMARY_C@ + decimal(p)
            + SUMMARY_D@ + decimal(r) + SUMMARY_E@ + decimal(c),
        confidence: 900,
    }
}

fn clamp_exec(x: i128) -> (r: u64)
    ensures
        r == clamp100(x as int),
{
    if x <= 0 {
        0
    } else if x >= 100 {
        100
    } else {
        x as u64
    }
}

fn parse_count_exec(nodes: &Vec<TransformNode>) -> (r: usize)
    ensures
        r == parse_count(nodes@),
{
    let mut c: usize = 0;
    let mut i: usize = 0;
    while i < nodes.len()
        invariant
            i <= nodes@.len(),
            c == parse_count(nodes@.take(i as int)),
            c <= i,
        decreases nodes@.len() - i,
    {
        proof {
            assert(nodes@.take(i + 1).drop_last() =~= nodes@.take(i as int));
            assert(nodes@.take(i + 1).last() == nodes@[i as int]);
        }
        if let TransformType::ParDo { dofn_name, .. } = &nodes[i].node_type {
            if lower_contains(dofn_name.as_str(), "parse") {
                c = c + 1;
            }
        }
        i = i + 1;
    }
    proof {
        assert(nodes@.take(nodes@.len() as int) =~= nodes@);
    }
    c
}

fn level_text(o: u64) -> (r: &'static str)
    ensures
        r@ == risk_level(o as nat),
{
    if o >= 80_000 {
        LEVEL_EXCELLENT
    } else if o >= 60_000 {
        LEVEL_GOOD
    } else if o >= 40_000 {
        LEVEL_WARNING
    } else {
        LEVEL_CRITICAL
    }
}

impl SynthesisEngine {
    pub fn name(&self) -> (r: &'static str)
        ensures
            r@ == "SynthesisEngine"@,
    {
        "SynthesisEngine"
    }

    pub fn version(&self) -> (r: &'static str)
        ensures
            r@ == "0.1.0"@,
    {
        "0.1.0"
    }

    /// Runs last, after all other analyzers.
    pub fn priority(&self) -> (r: u32)
        ensures
            r == 10,
    {
        10
    }

    /// The performance score of a pipeline (see [`performance_score`]).
    pub fn calculate_performance_score(&self, ir: &PipelineIR) -> (r: u64)
        ensures
            r == performance_score(*ir),
    {
        let n = ir.nodes.len() as i128;
        let sh = count_class(&ir.nodes, NodeClass::Shuffle) as i128;
        let comb = count_class(&ir.nodes, NodeClass::CombinePerKey) as i128;
        let gbk = count_class(&ir.nodes, NodeClass::GroupByKey);
        let depth_pen: i128 = if n > 5 {
            5 * (n - 5)
        } else {
            0
        };
        let gbk_pen: i128 = if gbk > 0 {
            15
        } else {
            0
        };
        clamp_exec(100 - 10 * sh - depth_pen + 10 * comb - gbk_pen)
    }

    /// The reliability score of a pipeline (see [`reliability_score`]).
    pub fn calculate_reliability_score(&self, ir: &PipelineIR) -> (r: u64)
        ensures
            r == reliability_score(*ir),
    {
        let sinks = count_class(&ir.nodes, NodeClass::Sink);
        let stateful = count_class(&ir.nodes, NodeClass::Stateful);
        let parsing = parse_count_exec(&ir.nodes) as i128;
        let streaming = crate::analyzers::windowing::streaming_nodes(&ir.nodes);
        let windows = count_class(&ir.nodes, NodeClass::Windowing);
        let sink_pen: i128 = if sinks == 0 {
            50
        } else {
            0
        };
        let state_pen: i128 = if stateful > 0 {
            15
        } else {
            0
        };
        let window_pen: i128 = if streaming && windows == 0 {
            20
        } else {
            0
        };
        clamp_exec(100 - sink_pen - state_pen - 10 * parsing - window_pen)
    }

    /// The cost-efficiency score of a pipeline (see
    /// [`cost_efficiency_score`]).
    pub fn calculate_cost_efficiency_score(&self, ir: &PipelineIR) -> (r: u64)
        ensures
            r == cost_efficiency_score(*ir),
    {
        let sh = count_class(&ir.nodes, NodeClass::Shuffle) as i128;
        let stateful = count_class(&ir.nodes, NodeClass::Stateful) as i128;
        let sh_pen: i128 = if sh > 1 {
            20 * (sh - 1)
        } else {
            0
        };
        let (engine, min_workers) = match &ir.metadata.deployment_config {
            Some(c) => (
                match c.streaming_engine {
                    Some(b) => b,
                    None => false,
                },
                c.min_workers,
            ),
            None => (false, None),
        };
        let bonus: i128 = if engine {
            20
        } else {
            0
        };
        let worker_pen: i128 = match min_workers {
            Some(m) => if m > 10 {
                ((m - 10) / 10 * 10) as i128
            } else {
                0
            },
            None => 0,
        };
        clamp_exec(100 - sh_pen - 15 * stateful + bonus - worker_pen)
    }

    /// Reports the executive summary of a pipeline.
    pub fn analyze(&self, ctx: &AnalysisContext) -> (r: AnalysisResult)
        ensures
            r@ == synthesis_result(ctx.pipeline_ir),
    {
        let ir = &ctx.pipeline_ir;
        let p = self.calculate_performance_score(ir);
        let rs = self.calculate_reliability_score(ir);
        let c = self.calculate_cost_efficiency_score(ir);
        let o: u64 = 350 * p + 350 * rs + 300 * c;
        let mut metrics: Vec<Metric> = Vec::new();
        push_metric(&mut metrics, "overall_risk_score", o as i64);
        push_metric(&mut metrics, "performance_score", (p * 1000) as i64);
        push_metric(&mut metrics, "reliability_score", (rs * 1000) as i64);
        push_metric(&mut metrics, "cost_efficiency_score", (c * 1000) as i64);
        let ps = decimal_text(p);
        let rss = decimal_text(rs);
        let cs = decimal_text(c);
        let mut desc = String::from_str(DESC_A);
        desc.append(ps.as_str());
        desc.append(DESC_B);
        desc.append(rss.as_str());
        desc.append(DESC_C);
        desc.append(cs.as_str());
        desc.append(DESC_D);
        let sev = if o >= 80_000 {
            RiskSeverity::Info
        } else if o >= 60_000 {
            RiskSeverity::Low
        } else if o >= 40_000 {
            RiskSeverity::Medium
        } else {
            RiskSeverity::Critical
        };
        let rec = if o < 60_000 {
            REC_RISKY
        } else {
            REC_READY
        };
        let mut findings: Vec<Finding> = Vec::new();
        proof {
            assert(finding_views(findings@) =~= Seq::<FindingView>::empty());
        }
        push_finding(
            &mut findings,
            make_finding(
                "SYNTHESIS_EXECUTIVE_SUMMARY",
                sev,
                FindingType::ConfigurationIssue,
                String::from_str(TITLE),
                desc,
                no_nodes(),
                Some(rec),
                None,
                900,
            ),
        );
        let mut summary = String::from_str(SUMMARY_A);
        let os = fixed_text(o, 0);
        summary.append(os.as_str());
        summary.append(SUMMARY_B);
        summary.append(level_text(o));
        summary.append(SUMMARY_C);
        summary.append(ps.as_str());
        summary.append(SUMMARY_D);
        summary.append(rss.as_str());
        summary.append(SUMMARY_E);
        summary.append(cs.as_str());
        proof {
            let spec = synthesis_result(*ir);
            assert(finding_views(findings@) =~= spec.findings);
            assert(metric_views(metrics@) =~= spec.metrics);
            assert(summary@ =~= spec.summary);
        }
        make_result(self.name(), self.version(), findings, metrics, summary, 900)
    }
}

/// The overall risk score is between 0 and 100 (in thousandths), and the
/// executive summary is always reported.
pub proof fn lemma_overall_score_bounded(ir: PipelineIR)
    ensures
        synthesis_result(ir).metrics[0].0 == "overall_risk_score"@,
        0 <= synthesis_result(ir).metrics[0].1 <= 100_000,
        synthesis_result(ir).findings.len() == 1,
        synthesis_result(ir).findings[0].id == "SYNTHESIS_EXECUTIVE_SUMMARY"@,
{
    let p = performance_score(ir);
    let r = reliability_score(ir);
    let c = cost_efficiency_score(ir);
    assert(overall_milli(p, r, c) <= 100_000);
}

/// Reliability starts at 100: a pipeline with a sink and no other
/// reliability issue (no stateful operation, no parsing ParDo, not streaming
/// without windows) keeps 100, and the same pipeline without a sink keeps 50.
pub proof fn lemma_sink_penalty(ir: PipelineIR)
    requires
        class_count(ir, NodeClass::Stateful) == 0,
        parse_count(ir.nodes@) == 0,
        !(is_streaming(ir.nodes@) && class_count(ir, NodeClass::Windowing) == 0),
    ensures
        class_count(ir, NodeClass::Sink) > 0 ==> reliability_score(ir) == 100
            && synthesis_result(ir).metrics[2] == ("reliability_score"@, 100_000i64),
        class_count(ir, NodeClass::Sink) == 0 ==> reliability_score(ir) == 50
            && synthesis_result(ir).metrics[2] == ("reliability_score"@, 50_000i64),
{
}

/// Each further reliability issue lowers the score of a pipeline with a
/// sink: stateful operations by 15, each parsing ParDo by 10, streaming
/// without windows by 20; it never goes below 0.
pub proof fn lemma_reliability_penalties(ir: PipelineIR)
    requires
        class_count(ir, NodeClass::Sink) > 0,
    ensures
        reliability_score(ir) <= 100,
        class_count(ir, NodeClass::Stateful) > 0 && parse_count(ir.nodes@) == 0 && !(is_streaming(ir.nodes@)
            && class_count(ir, NodeClass::Windowing) == 0) ==> reliability_score(ir) == 85,
        class_count(ir, NodeClass::Stateful) == 0 && parse_count(ir.nodes@) == 1 && !(is_streaming(ir.nodes@)
            && class_count(ir, NodeClass::Windowing) == 0) ==> reliability_score(ir) == 90,
        class_count(ir, NodeClass::Stateful) == 0 && parse_count(ir.nodes@) == 0 && is_streaming(ir.nodes@)
            && class_count(ir, NodeClass::Windowing) == 0 ==> reliability_score(ir) == 80,
{
}

} // verus!
