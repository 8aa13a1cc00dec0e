//! Flink watermarks and event-time windowing.
use crate::analyzer::{
    count_milli, counted, counted_text, finding_views, fixed_finding, flag, flag_value, impact,
    make_finding, make_result, metric_views, no_nodes, one_node, push_finding, push_metric,
    AnalysisContext, AnalysisResult, AnalysisResultView, Finding, FindingType, FindingView,
    Impact, Metric, RiskSeverity, has_id,
};
use crate::ir::{
    class_positions, config_lookup, custom_positions, first_custom, ids_at, ids_of, select,
    value_str, value_u64, NodeClass, PipelineIR, Selector, TransformNode,
};
use crate::text::str_eq;
use vstd::prelude::*;

verus! {

/// An out-of-orderness bound beyond an hour (in seconds) is excessive.
pub const EXCESSIVE_OUT_OF_ORDERNESS_SEC: u64 = 3_600;

pub const MISSING_TITLE: &'static str = "Event-time windowing without a watermark strategy";
pub const MISSING_DESC: &'static str = "Event-time windows are detected but no `WatermarkStrategy` (forBoundedOutOfOrderness/forMonotonousTimestamps + assign_timestamps_and_watermarks) was found. Without watermarks, Flink has no signal for when a window is complete, so event-time windows may never fire.";
pub const MISSING_REC: &'static str = "Assign a watermark strategy on the source stream: `ds.assign_timestamps_and_watermarks(WatermarkStrategy.for_bounded_out_of_orderness(Duration.of_seconds(N)))`.";
pub const OOO_TITLE_A: &'static str = "Bounded out-of-orderness is very large (";
pub const OOO_TITLE_B: &'static str = " minutes)";
pub const OOO_DESC: &'static str = "A large out-of-orderness bound delays the watermark, which delays every downstream event-time window from firing. Results lag proportionally.";
pub const OOO_REC: &'static str = "Tighten the bound to the smallest value that matches your source's real late-arrival distribution, and use `allowedLateness`/a side-output for the rare outliers instead of a huge global bound.";
pub const NOWIN_TITLE: &'static str = "Keyed stream with no windowing detected";
pub const NOWIN_DESC: &'static str = "A `key_by(...)` was found with no `.window(...)` downstream. Keyed process functions without windowing accumulate state indefinitely unless the DoFn manages its own timers/cleanup -- easy to get wrong and easy to miss in review.";
pub const NOWIN_REC: &'static str = "Either add explicit windowing, or confirm the KeyedProcessFunction registers cleanup timers (state.clear() on a TTL/expiry timer).";
pub const GOOD_SUMMARY: &'static str = "Watermark and windowing configuration looks reasonable";
pub const SUMMARY_A: &'static str = "Found ";
pub const SUMMARY_B: &'static str = " watermark/windowing configuration issue(s)";

/// Analyzes Flink watermark strategies and event-time windowing.
pub struct FlinkWatermarkAnalyzer;

/// A window whose `time_domain` setting is not `processing`.
pub open spec fn event_time_window(n: TransformNode) -> bool {
    value_str(config_lookup(n.config.entries@, "time_domain"@)) != Some("processing"@)
}

/// Some of the windows at `win` run on event time.
pub open spec fn has_event_time_window(nodes: Seq<TransformNode>, win: Seq<usize>) -> bool {
    exists|k: int| 0 <= k < win.len() && event_time_window(#[trigger] nodes[win[k] as int])
}

/// The watermark findings: event-time windowing without a watermark; an
/// out-of-orderness bound over an hour; a keyed stream without windows.
pub open spec fn watermark_findings(ir: PipelineIR) -> Seq<FindingView> {
    let nodes = ir.nodes@;
    let keyed = select(nodes, Selector::Custom("flink_keyed_state"@)).len() > 0;
    let win = select(nodes, Selector::Class(NodeClass::Windowing));
    let wm = select(nodes, Selector::Custom("flink_watermark"@));
    let event_time = has_event_time_window(nodes, win) || wm.len() > 0;
    let s0 = if event_time && wm.len() == 0 {
        seq![
            FindingView {
                id: "FLINK_WATERMARK_MISSING"@,
                severity: RiskSeverity::High,
                finding_type: FindingType::ReliabilityRisk,
                title: MISSING_TITLE@,
                description: MISSING_DESC@,
                affected_nodes: ids_at(nodes, win),
                recommendation: Some(MISSING_REC@),
                estimated_impact: Some(impact(None, None, Some(100_000))),
                confidence: 780,
            },
        ]
    } else {
        Seq::empty()
    };
    let s1 = if wm.len() > 0 {
        let n = nodes[wm[0] as int];
        match value_u64(config_lookup(n.config.entries@, "out_of_orderness_sec"@)) {
            Some(sec) => if sec > EXCESSIVE_OUT_OF_ORDERNESS_SEC {
                s0.push(
                    FindingView {
                        id: "FLINK_WATERMARK_EXCESSIVE_OUT_OF_ORDERNESS"@,
                        severity: RiskSeverity::Medium,
                        finding_type: FindingType::PerformanceRisk,
                        title: counted(OOO_TITLE_A@, (sec / 60) as nat, OOO_TITLE_B@),
                        description: OOO_DESC@,
                        affected_nodes: seq![n.id@],
                        recommendation: Some(OOO_REC@),
                        estimated_impact: Some(impact(Some(1500), None, None)),
                        confidence: 650,
                    },
                )
            } else {
                s0
            },
            None => s0,
        }
    } else {
        s0
    };
    if keyed && win.len() == 0 {
        s1.push(
            FindingView {
                id: "FLINK_KEYED_STREAM_NO_WINDOW"@,
                severity: RiskSeverity::Medium,
                finding_type: FindingType::ReliabilityRisk,
                title: NOWIN_TITLE@,
                description: NOWIN_DESC@,
                affected_nodes: Seq::empty(),
                recommendation: Some(NOWIN_REC@),
                estimated_impact: None,
                confidence: 550,
            },
        )
    } else {
        s1
    }
}

/// What [`FlinkWatermarkAnalyzer::analyze`] reports for a pipeline.
pub open spec fn flink_watermark_result(ir: PipelineIR) -> AnalysisResultView {
    let nodes = ir.nodes@;
    let findings = watermark_findings(ir);
    AnalysisResultView {
        analyzer_name: "FlinkWatermarkAnalyzer"@,
        version: "0.1.0"@,
        findings,
        metrics: seq![
            ("window_count"@, count_milli(select(nodes, Selector::Class(NodeClass::Windowing)).len())),
            ("watermark_configured"@, flag(select(nodes, Selector::Custom("flink_watermark"@)).len() > 0)),
        ],
        summary: if findings.len() == 0 {
            GOOD_SUMMARY@
        } else {
            counted(SUMMARY_A@, findings.len(), SUMMARY_B@)
        },
        confidence: 750,
    }
}

fn event_time_exec(nodes: &Vec<TransformNode>, win: &Vec<usize>) -> (r: bool)
    requires
        forall|k: int| 0 <= k < win@.len() ==> #[trigger] win@[k] < nodes@.len(),
    ensures
        r == has_event_time_window(nodes@, win@),
{
    let mut k: usize = 0;
    while k < win.len()
        invariant
            k <= win@.len(),
            forall|j: int| 0 <= j < win@.len() ==> #[trigger] win@[j] < nodes@.len(),
            forall|j: int| 0 <= j < k ==> !event_time_window(#[trigger] nodes@[win@[j] as int]),
        decreases win@.len() - k,
    {
        let n = &nodes[win[k]];
        let processing = match n.config.get_str("time_domain") {
            Some(s) => str_eq(s.as_str(), "processing"),
            None => false,
        };
        if !processing {
            assert(event_time_window(nodes@[win@[k as int] as int]));
            return true;
        }
        k = k + 1;
    }
    false
}

impl FlinkWatermarkAnalyzer {
    pub fn name(&self) -> (r: &'static str)
        ensures
            r@ == "FlinkWatermarkAnalyzer"@,
    {
        "FlinkWatermarkAnalyzer"
    }

    pub fn version(&self) -> (r: &'static str)
        ensures
            r@ == "0.1.0"@,
    {
        "0.1.0"
    }

    pub fn priority(&self) -> (r: u32)
        ensures
            r == 22,
    {
        22
    }

    /// Reports the watermark and windowing issues of a Flink pipeline.
    pub fn analyze(&self, ctx: &AnalysisContext) -> (r: AnalysisResult)
        ensures
            r@ == flink_watermark_result(ctx.pipeline_ir),
    {
        let ir = &ctx.pipeline_ir;
        let keyed = custom_positions(&ir.nodes, "flink_keyed_state").len() > 0;
        let win = class_positions(&ir.nodes, NodeClass::Windowing);
        let wm = first_custom(&ir.nodes, "flink_watermark");
        let mut metrics: Vec<Metric> = Vec::new();
        push_metric(&mut metrics, "window_count", crate::analyzer::count_value(win.len()));
        push_metric(&mut metrics, "watermark_configured", flag_value(wm.is_some()));
        let event_time = event_time_exec(&ir.nodes, &win) || wm.is_some();
        let mut findings: Vec<Finding> = Vec::new();
        proof {
            assert(finding_views(findings@) =~= Seq::<FindingView>::empty());
        }
        if event_time && wm.is_none() {
            push_finding(
                &mut findings,
                fixed_finding(
                    "FLINK_WATERMARK_MISSING",
                    RiskSeverity::High,
                    FindingType::ReliabilityRisk,
                    MISSING_TITLE,
                    MISSING_DESC,
                    ids_of(&ir.nodes, &win),
                    Some(MISSING_REC),
                    Some(
                        Impact {
                            latency_multiplier: None,
                            cost_delta_monthly: None,
                            affected_records_percent: Some(100_000),
                        },
                    ),
                    780,
                ),
            );
        }
        if let Some(p) = wm {
            let n = &ir.nodes[p];
            if let Some(sec) = n.config.get_u64("out_of_orderness_sec") {
                if sec > EXCESSIVE_OUT_OF_ORDERNESS_SEC {
                    push_finding(
                        &mut findings,
                        make_finding(
                            "FLINK_WATERMARK_EXCESSIVE_OUT_OF_ORDERNESS",
                            RiskSeverity::Medium,
                            FindingType::PerformanceRisk,
                            counted_text(OOO_TITLE_A, sec / 60, OOO_TITLE_B),
                            String::from_str(OOO_DESC),
                            one_node(&n.id),
                            Some(OOO_REC),
                            Some(
                                Impact {
                                    latency_multiplier: Some(1500),
                                    cost_delta_monthly: None,
                                    affected_records_percent: None,
                                },
                            ),
                            650,
                        ),
                    );
                }
            }
        }
        if keyed && win.len() == 0 {
            push_finding(
                &mut findings,
                fixed_finding(
                    "FLINK_KEYED_STREAM_NO_WINDOW",
                    RiskSeverity::Medium,
                    FindingType::ReliabilityRisk,
                    NOWIN_TITLE,
                    NOWIN_DESC,
                    no_nodes(),
                    Some(NOWIN_REC),
                    None,
                    550,
                ),
            );
        }
        proof {
            let spec = flink_watermark_result(*ir);
            assert(finding_views(findings@) =~= spec.findings);
            assert(metric_views(metrics@) =~= spec.metrics);
        }
        let nf = findings.len();
        let summary = if nf == 0 {
            String::from_str(GOOD_SUMMARY)
        } else {
            counted_text(SUMMARY_A, nf as u64, SUMMARY_B)
        };
        make_result(self.name(), self.version(), findings, metrics, summary, 750)
    }
}

/// The watermark rules, one finding each: event-time windows without a
/// watermark, an out-of-orderness bound over an hour, and keyed state
/// without any window; no other finding is reported.
pub proof fn lemma_flink_watermark_rules(ir: PipelineIR, id: Seq<char>)
    ensures
        ({
            let nodes = ir.nodes@;
            let win = select(nodes, Selector::Class(NodeClass::Windowing));
            let wm = select(nodes, Selector::Custom("flink_watermark"@));
            has_id(flink_watermark_result(ir).findings, "FLINK_WATERMARK_MISSING"@) <==> (wm.len() == 0
                && has_event_time_window(nodes, win))
        }),
        ({
            let nodes = ir.nodes@;
            let wm = select(nodes, Selector::Custom("flink_watermark"@));
            has_id(flink_watermark_result(ir).findings, "FLINK_WATERMARK_EXCESSIVE_OUT_OF_ORDERNESS"@) <==> (
            wm.len() > 0 && match value_u64(
                config_lookup(nodes[wm[0] as int].config.entries@, "out_of_orderness_sec"@),
            ) {
                Some(sec) => sec > 3_600,
                None => false,
            })
        }),
        ({
            let nodes = ir.nodes@;
            let win = select(nodes, Selector::Class(NodeClass::Windowing));
            let keyed = select(nodes, Selector::Custom("flink_keyed_state"@));
            has_id(flink_watermark_result(ir).findings, "FLINK_KEYED_STREAM_NO_WINDOW"@) <==> (keyed.len() > 0
                && win.len() == 0)
        }),
        has_id(flink_watermark_result(ir).findings, id) ==> id == "FLINK_WATERMARK_MISSING"@ || id
            == "FLINK_WATERMARK_EXCESSIVE_OUT_OF_ORDERNESS"@ || id == "FLINK_KEYED_STREAM_NO_WINDOW"@,
{
    broadcast use crate::analyzer::group_has_id;

    reveal_strlit("FLINK_WATERMARK_MISSING");
    reveal_strlit("FLINK_WATERMARK_EXCESSIVE_OUT_OF_ORDERNESS");
    reveal_strlit("FLINK_KEYED_STREAM_NO_WINDOW");
    assert("FLINK_WATERMARK_MISSING"@[16] == 'M');
    assert("FLINK_WATERMARK_EXCESSIVE_OUT_OF_ORDERNESS"@[16] == 'E');
    assert("FLINK_KEYED_STREAM_NO_WINDOW"@[6] == 'K');
    assert("FLINK_WATERMARK_MISSING"@[6] == 'W');
    assert("FLINK_WATERMARK_EXCESSIVE_OUT_OF_ORDERNESS"@[6] == 'W');
    assert("FLINK_WATERMARK_MISSING"@ != "FLINK_WATERMARK_EXCESSIVE_OUT_OF_ORDERNESS"@);
    assert("FLINK_WATERMARK_MISSING"@ != "FLINK_KEYED_STREAM_NO_WINDOW"@);
    assert("FLINK_WATERMARK_EXCESSIVE_OUT_OF_ORDERNESS"@ != "FLINK_KEYED_STREAM_NO_WINDOW"@);
}

} // verus!
