//! Stateful processing: unbounded growth, lifecycle, key cardinality and
//! measured state size.
use crate::analyzer::{
    clamp_i64, clamp_value, count_milli, count_value, counted, counted_text, finding_views,
    fixed_finding, impact, make_finding, make_result, metric_views, one_node, push_finding,
    push_metric, AnalysisContext, AnalysisResult, AnalysisResultView, DataProfile, Finding,
    FindingType, FindingView, Impact, Metric, RiskSeverity, has_id,
};
use crate::ir::{
    class_positions, ids_at, ids_of, is_stateful_pardo, lower_has, select, NodeClass, PipelineIR,
    Selector, TransformNode, TransformType,
};
use crate::rules::StateRules;
use crate::text::{decimal, fixed, fixed_text, lower_contains};
use vstd::prelude::*;

verus! {

pub const GROWTH_TITLE_A: &'static str = "Stateful ParDo detected: '";
pub const GROWTH_TITLE_B: &'static str = "'";
pub const GROWTH_DESC: &'static str = "Stateful processing uses memory/disk. Without proper cleanup, state can grow unbounded and exhaust worker resources.";
pub const GROWTH_REC: &'static str = "Ensure state has explicit expiration logic:\n1. Set state TTL (e.g., 30 days)\n2. Implement timer-based cleanup\n3. Verify window expiration will clear state";
pub const LIFECYCLE_TITLE: &'static str = "State lifecycle validation required";
pub const LIFECYCLE_DESC: &'static str = "Verify that state cleanup aligns with window expiration and allowed lateness.";
pub const LIFECYCLE_REC: &'static str = "Review the state spec to confirm:\n- TimerSpec is used for cleanup\n- Window expiration (+ allowed lateness) > state TTL\n- Timers are actually fired (not dead code)";
pub const CARDINALITY_TITLE: &'static str = "High-cardinality state detected";
pub const CARDINALITY_DESC: &'static str = "State is keyed by a high-cardinality dimension (users, customers, etc.). This may not scale to millions of keys.";
pub const CARDINALITY_REC: &'static str = "For millions of unique keys, consider:\n1. Sampling approach (process subset of data)\n2. Approximate algorithms (HyperLogLog for cardinality)\n3. Tiered storage (hot keys in memory, cold in Persistent Disk)";
pub const SIZE_TITLE_A: &'static str = "Measured state size (";
pub const SIZE_TITLE_B: &'static str = "GB) is dangerously large for ";
pub const SIZE_TITLE_C: &'static str = " stateful operation(s)";
pub const SIZE_DESC_A: &'static str = "The supplied data profile reports ";
pub const SIZE_DESC_B: &'static str = "GB of state. At this size, missing TTL/cleanup logic or an unexpectedly long allowed-lateness window doesn't just add cost -- it risks checkpoint timeouts, slow restores, and worker disk pressure.";
pub const SIZE_REC: &'static str = "Audit every stateful operation for an explicit TTL/timer-based cleanup path, and confirm allowed lateness isn't retaining state far longer than the business logic requires. Consider partitioning state across more workers if a single key's state is the dominant contributor.";
pub const NONE_SUMMARY: &'static str = "No stateful operations detected";
pub const SUMMARY_A: &'static str = "Found ";
pub const SUMMARY_B: &'static str = " stateful operation(s); state management requires careful review";

/// Audits stateful processing against a size threshold.
pub struct StateAnalyzer {
    pub rules: StateRules,
}

/// The DoFn name of a ParDo (empty for other transforms).
pub open spec fn dofn_of(t: TransformType) -> Seq<char> {
    match t {
        TransformType::ParDo { dofn_name, .. } => dofn_name@,
        _ => Seq::empty(),
    }
}

pub open spec fn growth_finding(n: TransformNode) -> FindingView {
    FindingView {
        id: "STATE_UNBOUNDED_GROWTH"@,
        severity: RiskSeverity::High,
        finding_type: FindingType::ReliabilityRisk,
        title: GROWTH_TITLE_A@ + dofn_of(n.node_type) + GROWTH_TITLE_B@,
        description: GROWTH_DESC@,
        affected_nodes: seq![n.id@],
        recommendation: Some(GROWTH_REC@),
        estimated_impact: Some(impact(None, Some(1_000_000), Some(100_000))),
        confidence: 850,
    }
}

pub open spec fn lifecycle_finding(n: TransformNode) -> FindingView {
    FindingView {
        id: "STATE_LIFECYCLE_CHECK"@,
        severity: RiskSeverity::Medium,
        finding_type: FindingType::ReliabilityRisk,
        title: LIFECYCLE_TITLE@,
        description: LIFECYCLE_DESC@,
        affected_nodes: seq![n.id@],
        recommendation: Some(LIFECYCLE_REC@),
        estimated_impact: None,
        confidence: 750,
    }
}

pub open spec fn cardinality_finding(n: TransformNode) -> FindingView {
    FindingView {
        id: "STATE_HIGH_CARDINALITY"@,
        severity: RiskSeverity::High,
        finding_type: FindingType::ScalabilityRisk,
        title: CARDINALITY_TITLE@,
        description: CARDINALITY_DESC@,
        affected_nodes: seq![n.id@],
        recommendation: Some(CARDINALITY_REC@),
        estimated_impact: Some(impact(Some(2000), Some(2_000_000), None)),
        confidence: 700,
    }
}

/// Two findings (growth, lifecycle) for each stateful node, in order.
pub open spec fn per_op_findings(nodes: Seq<TransformNode>) -> Seq<FindingView>
    decreases nodes.len(),
{
    if nodes.len() == 0 {
        Seq::empty()
    } else {
        let r = per_op_findings(nodes.drop_last());
        let n = nodes.last();
        if is_stateful_pardo(n.node_type) {
            r.push(growth_finding(n)).push(lifecycle_finding(n))
        } else {
            r
        }
    }
}

/// The DoFn name of a stateful node mentions users, customers or sessions.
pub open spec fn high_cardinality_name(n: TransformNode) -> bool {
    is_stateful_pardo(n.node_type) && (lower_has(dofn_of(n.node_type), "user"@) || lower_has(
        dofn_of(n.node_type),
        "customer"@,
    ) || lower_has(dofn_of(n.node_type), "session"@))
}

/// A high-cardinality finding for each such stateful node, in order.
pub open spec fn cardinality_findings(nodes: Seq<TransformNode>) -> Seq<FindingView>
    decreases nodes.len(),
{
    if nodes.len() == 0 {
        Seq::empty()
    } else {
        let r = cardinality_findings(nodes.drop_last());
        if high_cardinality_name(nodes.last()) {
            r.push(cardinality_finding(nodes.last()))
        } else {
            r
        }
    }
}

pub open spec fn size_finding(gb: u64, ops: nat, ids: Seq<Seq<char>>) -> FindingView {
    FindingView {
        id: "STATE_SIZE_MEASURED_CRITICAL"@,
        severity: RiskSeverity::Critical,
        finding_type: FindingType::ScalabilityRisk,
        title: SIZE_TITLE_A@ + fixed(gb as nat, 0) + SIZE_TITLE_B@ + decimal(ops) + SIZE_TITLE_C@,
        description: SIZE_DESC_A@ + fixed(gb as nat, 0) + SIZE_DESC_B@,
        affected_nodes: ids,
        recommendation: Some(SIZE_REC@),
        estimated_impact: Some(impact(None, Some((gb * 4 / 100) as i64), None)),
        confidence: 800,
    }
}

/// What [`StateAnalyzer::analyze`] reports for a pipeline and profile.
pub open spec fn state_result(rules: StateRules, ir: PipelineIR, profile: Option<DataProfile>) -> AnalysisResultView {
    let nodes = ir.nodes@;
    let ops = select(nodes, Selector::Class(NodeClass::Stateful));
    let m0 = seq![("stateful_operation_count"@, count_milli(ops.len()))];
    if ops.len() == 0 {
        AnalysisResultView {
            analyzer_name: "StateAnalyzer"@,
            version: "0.1.0"@,
            findings: Seq::empty(),
            metrics: m0,
            summary: NONE_SUMMARY@,
            confidence: 950,
        }
    } else {
        let base = per_op_findings(nodes) + cardinality_findings(nodes);
        let size = match profile {
            Some(p) => p.estimated_state_size_milli_gb,
            None => None,
        };
        AnalysisResultView {
            analyzer_name: "StateAnalyzer"@,
            version: "0.1.0"@,
            findings: match size {
                Some(gb) => if gb >= rules.large_measured_state_size_milli_gb {
                    base.push(size_finding(gb, ops.len(), ids_at(nodes, ops)))
                } else {
                    base
                },
                None => base,
            },
            metrics: match size {
                Some(gb) => m0.push(("data_profile_state_size_gb"@, clamp_i64(gb as nat))),
                None => m0,
            },
            summary: counted(SUMMARY_A@, ops.len(), SUMMARY_B@),
            confidence: 800,
        }
    }
}

fn per_op_exec(nodes: &Vec<TransformNode>, out: &mut Vec<Finding>)
    ensures
        finding_views(final(out)@) == finding_views(old(out)@) + per_op_findings(nodes@),
{
    let ghost start = finding_views(out@);
    let mut i: usize = 0;
    proof {
        assert(per_op_findings(nodes@.take(0)) =~= Seq::<FindingView>::empty());
        assert(start + Seq::<FindingView>::empty() =~= start);
    }
    while i < nodes.len()
        invariant
            i <= nodes@.len(),
            finding_views(out@) == start + per_op_findings(nodes@.take(i as int)),
        decreases nodes@.len() - i,
    {
        proof {
            assert(nodes@.take(i + 1).drop_last() =~= nodes@.take(i as int));
            assert(nodes@.take(i + 1).last() == nodes@[i as int]);
        }
        let n = &nodes[i];
        if let TransformType::ParDo { dofn_name, is_stateful, .. } = &n.node_type {
            if *is_stateful {
                let mut t = String::from_str(GROWTH_TITLE_A);
                t.append(dofn_name.as_str());
                t.append(GROWTH_TITLE_B);
                push_finding(
                    out,
                    make_finding(
                        "STATE_UNBOUNDED_GROWTH",
                        RiskSeverity::High,
                        FindingType::ReliabilityRisk,
                        t,
                        String::from_str(GROWTH_DESC),
                        one_node(&n.id),
                        Some(GROWTH_REC),
                        Some(
                            Impact {
                                latency_multiplier: None,
                                cost_delta_monthly: Some(1_000_000),
                                affected_records_percent: Some(100_000),
                            },
                        ),
                        850,
                    ),
                );
                push_finding(
                    out,
                    fixed_finding(
                        "STATE_LIFECYCLE_CHECK",
                        RiskSeverity::Medium,
                        FindingType::ReliabilityRisk,
                        LIFECYCLE_TITLE,
                        LIFECYCLE_DESC,
                        one_node(&n.id),
                        Some(LIFECYCLE_REC),
                        None,
                        750,
                    ),
                );
            }
        }
        proof {
            let p = per_op_findings(nodes@.take(i as int));
            let q = per_op_findings(nodes@.take(i + 1));
            if is_stateful_pardo(nodes@[i as int].node_type) {
                assert(q == p.push(growth_finding(nodes@[i as int])).push(lifecycle_finding(nodes@[i as int])));
                assert(start + q =~= (start + p).push(growth_finding(nodes@[i as int])).push(
                    lifecycle_finding(nodes@[i as int]),
                ));
            }
        }
        i = i + 1;
    }
    proof {
        assert(nodes@.take(nodes@.len() as int) =~= nodes@);
    }
}

fn cardinality_exec(nodes: &Vec<TransformNode>, out: &mut Vec<Finding>)
    ensures
        finding_views(final(out)@) == finding_views(old(out)@) + cardinality_findings(nodes@),
{
    let ghost start = finding_views(out@);
    let mut i: usize = 0;
    proof {
        assert(cardinality_findings(nodes@.take(0)) =~= Seq::<FindingView>::empty());
        assert(start + Seq::<FindingView>::empty() =~= start);
    }
    while i < nodes.len()
        invariant
            i <= nodes@.len(),
            finding_views(out@) == start + cardinality_findings(nodes@.take(i as int)),
        decreases nodes@.len() - i,
    {
        proof {
            assert(nodes@.take(i + 1).drop_last() =~= nodes@.take(i as int));
            assert(nodes@.take(i + 1).last() == nodes@[i as int]);
        }
        let n = &nodes[i];
        if let TransformType::ParDo { dofn_name, is_stateful, .. } = &n.node_type {
            if *is_stateful && (lower_contains(dofn_name.as_str(), "user") || lower_contains(
                dofn_name.as_str(),
                "customer",
            ) || lower_contains(dofn_name.as_str(), "session")) {
                push_finding(
                    out,
                    fixed_finding(
                        "STATE_HIGH_CARDINALITY",
                        RiskSeverity::High,
                        FindingType::ScalabilityRisk,
                        CARDINALITY_TITLE,
                        CARDINALITY_DESC,
                        one_node(&n.id),
                        Some(CARDINALITY_REC),
                        Some(
                            Impact {
                                latency_multiplier: Some(2000),
                                cost_delta_monthly: Some(2_000_000),
                                affected_records_percent: None,
                            },
                        ),
                        700,
                    ),
                );
            }
        }
        proof {
            let p = cardinality_findings(nodes@.take(i as int));
            if high_cardinality_name(nodes@[i as int]) {
                assert(start + p.push(cardinality_finding(nodes@[i as int])) =~= (start + p).push(
                    cardinality_finding(nodes@[i as int]),
                ));
            }
        }
        i = i + 1;
    }
    proof {
        assert(nodes@.take(nodes@.len() as int) =~= nodes@);
    }
}

impl StateAnalyzer {
    /// An analyzer using the given state rules.
    pub fn new(rules: StateRules) -> (r: StateAnalyzer)
        ensures
            r.rules == rules,
    {
        StateAnalyzer { rules }
    }

    pub fn name(&self) -> (r: &'static str)
        ensures
            r@ == "StateAnalyzer"@,
    {
        "StateAnalyzer"
    }

    pub fn version(&self) -> (r: &'static str)
        ensures
            r@ == "0.1.0"@,
    {
        "0.1.0"
    }

    pub fn priority(&self) -> (r: u32)
        ensures
            r == 5,
    {
        5
    }

    /// Reports state-management risks of the pipeline.
    pub fn analyze(&self, ctx: &AnalysisContext) -> (r: AnalysisResult)
        ensures
            r@ == state_result(self.rules, ctx.pipeline_ir, ctx.data_profile),
    {
        let ir = &ctx.pipeline_ir;
        let ops = class_positions(&ir.nodes, NodeClass::Stateful);
        let op_count = ops.len();
        let mut metrics: Vec<Metric> = Vec::new();
        push_metric(&mut metrics, "stateful_operation_count", count_value(op_count));
        let mut findings: Vec<Finding> = Vec::new();
        proof {
            assert(finding_views(findings@) =~= Seq::<FindingView>::empty());
        }
        if op_count == 0 {
            proof {
                assert(metric_views(metrics@) =~= state_result(self.rules, *ir, ctx.data_profile).metrics);
            }
            return make_result(
                self.name(),
                self.version(),
                findings,
                metrics,
                String::from_str(NONE_SUMMARY),
                950,
            );
        }
        per_op_exec(&ir.nodes, &mut findings);
        cardinality_exec(&ir.nodes, &mut findings);
        proof {
            assert(Seq::<FindingView>::empty() + per_op_findings(ir.nodes@) + cardinality_findings(ir.nodes@)
                =~= per_op_findings(ir.nodes@) + cardinality_findings(ir.nodes@));
        }
        let size = match &ctx.data_profile {
            Some(p) => p.estimated_state_size_milli_gb,
            None => None,
        };
        if let Some(gb) = size {
            push_metric(&mut metrics, "data_profile_state_size_gb", clamp_value(gb));
            if gb >= self.rules.large_measured_state_size_milli_gb {
                let g = fixed_text(gb, 0);
                let mut t = String::from_str(SIZE_TITLE_A);
                t.append(g.as_str());
                t.append(SIZE_TITLE_B);
                let c = crate::text::decimal_text(op_count as u64);
                t.append(c.as_str());
                t.append(SIZE_TITLE_C);
                let mut d = String::from_str(SIZE_DESC_A);
                d.append(g.as_str());
                d.append(SIZE_DESC_B);
                let cost = (gb / 100 * 4 + (gb % 100) * 4 / 100) as i64;
                assert(cost == (gb * 4 / 100) as i64) by (nonlinear_arith)
                    requires
                        cost == (gb / 100 * 4 + (gb % 100) * 4 / 100) as i64,
                        gb <= u64::MAX,
                ;
                push_finding(
                    &mut findings,
                    make_finding(
                        "STATE_SIZE_MEASURED_CRITICAL",
                        RiskSeverity::Critical,
                        FindingType::ScalabilityRisk,
                        t,
                        d,
                        ids_of(&ir.nodes, &ops),
                        Some(SIZE_REC),
                        Some(
                            Impact {
                                latency_multiplier: None,
                                cost_delta_monthly: Some(cost),
                                affected_records_percent: None,
                            },
                        ),
                        800,
                    ),
                );
            }
        }
        proof {
            let spec = state_result(self.rules, *ir, ctx.data_profile);
            assert(finding_views(findings@) =~= spec.findings);
            assert(metric_views(metrics@) =~= spec.metrics);
        }
        let summary = counted_text(SUMMARY_A, op_count as u64, SUMMARY_B);
        make_result(self.name(), self.version(), findings, metrics, summary, 800)
    }
}

/// A measured state size at or above the rules' limit is reported as critical
/// exactly when the pipeline has stateful operations.
pub proof fn lemma_measured_size_is_critical(rules: StateRules, ir: PipelineIR, p: DataProfile)
    requires
        p.estimated_state_size_milli_gb matches Some(gb) && gb >= rules.large_measured_state_size_milli_gb,
    ensures
        (exists|k: int|
            0 <= k < state_result(rules, ir, Some(p)).findings.len() && (#[trigger] state_result(
                rules,
                ir,
                Some(p),
            ).findings[k]).id == "STATE_SIZE_MEASURED_CRITICAL"@ && state_result(rules, ir, Some(p)).findings[k].severity
                == RiskSeverity::Critical) <==> select(ir.nodes@, Selector::Class(NodeClass::Stateful)).len() > 0,
{
    let ops = select(ir.nodes@, Selector::Class(NodeClass::Stateful));
    let res = state_result(rules, ir, Some(p));
    if ops.len() > 0 {
        let k = res.findings.len() - 1;
        assert(res.findings[k].id == "STATE_SIZE_MEASURED_CRITICAL"@);
    }
}

proof fn lemma_size_id_distinct()
    ensures
        "STATE_SIZE_MEASURED_CRITICAL"@ != "STATE_UNBOUNDED_GROWTH"@,
        "STATE_SIZE_MEASURED_CRITICAL"@ != "STATE_LIFECYCLE_CHECK"@,
        "STATE_SIZE_MEASURED_CRITICAL"@ != "STATE_HIGH_CARDINALITY"@,
{
    reveal_strlit("STATE_SIZE_MEASURED_CRITICAL");
    reveal_strlit("STATE_UNBOUNDED_GROWTH");
    reveal_strlit("STATE_LIFECYCLE_CHECK");
    reveal_strlit("STATE_HIGH_CARDINALITY");
    assert("STATE_SIZE_MEASURED_CRITICAL"@[6] != "STATE_UNBOUNDED_GROWTH"@[6]);
    assert("STATE_SIZE_MEASURED_CRITICAL"@[6] != "STATE_LIFECYCLE_CHECK"@[6]);
    assert("STATE_SIZE_MEASURED_CRITICAL"@[6] != "STATE_HIGH_CARDINALITY"@[6]);
}

proof fn lemma_per_op_not_size(nodes: Seq<TransformNode>)
    ensures
        !has_id(per_op_findings(nodes), "STATE_SIZE_MEASURED_CRITICAL"@),
        !has_id(cardinality_findings(nodes), "STATE_SIZE_MEASURED_CRITICAL"@),
    decreases nodes.len(),
{
    broadcast use crate::analyzer::group_has_id;

    lemma_size_id_distinct();
    if nodes.len() > 0 {
        lemma_per_op_not_size(nodes.drop_last());
    }
}

/// A pipeline with stateful operations and a measured state size: the size
/// is recorded as a metric, and it is reported as critical, on every
/// stateful node, exactly when it is at or above the rules' limit.
pub proof fn lemma_measured_state_size(rules: StateRules, ir: PipelineIR, p: DataProfile, gb: u64)
    requires
        select(ir.nodes@, Selector::Class(NodeClass::Stateful)).len() > 0,
        p.estimated_state_size_milli_gb == Some(gb),
    ensures
        ({
            let ops = select(ir.nodes@, Selector::Class(NodeClass::Stateful));
            let r = state_result(rules, ir, Some(p));
            &&& r.metrics.len() == 2
            &&& r.metrics[1] == ("data_profile_state_size_gb"@, clamp_i64(gb as nat))
            &&& has_id(r.findings, "STATE_SIZE_MEASURED_CRITICAL"@) <==> gb >= rules.large_measured_state_size_milli_gb
            &&& gb >= rules.large_measured_state_size_milli_gb ==> r.findings.last() == size_finding(
                gb,
                ops.len(),
                ids_at(ir.nodes@, ops),
            ) && r.findings.last().severity == RiskSeverity::Critical
        }),
{
    broadcast use crate::analyzer::group_has_id;

    lemma_per_op_not_size(ir.nodes@);
}

} // verus!
