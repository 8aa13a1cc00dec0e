//! A directional monthly cost estimate: compute, shuffle and state storage.
//!
//! Amounts are thousandths of a dollar.  Each intermediate quantity is
//! capped at [`CAP`] (about 4.6e18), far above any real pipeline, so that the
//! estimate is total on every input.
use crate::analyzer::{
    clamp_i64, clamp_value, count_milli, counted, finding_views, make_finding, make_result,
    metric_views, no_nodes, push_finding, push_metric, AnalysisContext, AnalysisResult,
    AnalysisResultView, DataProfile, Finding, FindingType, FindingView, Impact, Metric,
    RiskSeverity, impact,
};
use crate::ir::{count_class, count_selected, NodeClass, PipelineIR, Selector};
use crate::rules::CostRules;
use crate::text::{decimal, fixed, fixed_text};
use vstd::prelude::*;

verus! {

/// The cap on every intermediate amount (2^62).
pub const CAP: u128 = 0x4000_0000_0000_0000;

/// Seconds in a 30-day month.
pub const SECONDS_PER_MONTH: u128 = 2_592_000;

/// Bytes in a GB (2^30).
pub const BYTES_PER_GB: u128 = 1_073_741_824;

pub const SHUFFLES_TITLE_A: &'static str = "Multiple shuffle operations (";
pub const SHUFFLES_TITLE_B: &'static str = ") detected";
pub const SHUFFLES_DESC: &'static str = "Each shuffle is expensive. Multiple shuffles multiply the cost.";
pub const SHUFFLES_REC: &'static str = "Reorganize the pipeline to minimize shuffles. Pre-aggregate before joins when possible.";
pub const STATE_TITLE_A: &'static str = "Stateful operations (";
pub const STATE_TITLE_B: &'static str = ") contribute to state storage cost";
pub const STATE_DESC_A: &'static str = "Estimated state storage cost: $";
pub const STATE_DESC_B: &'static str = "/month. This can grow significantly with long allowed lateness.";
pub const STATE_REC: &'static str = "Reduce allowed lateness and implement state cleanup strategies to minimize state storage.";
pub const SUMMARY_A: &'static str = "Estimated monthly cost: $";
pub const SUMMARY_B: &'static str = " (";
pub const SUMMARY_C: &'static str = ") | Compute: $";
pub const SUMMARY_D: &'static str = " | Shuffle: $";
pub const SUMMARY_E: &'static str = " | State: $";
pub const WITH_PROFILE: &'static str = " | informed by data profile";
pub const NO_PROFILE: &'static str = " | rough heuristic (no data profile supplied)";

/// Estimates the monthly cost of a pipeline from the cost rates.
pub struct CostAnalyzer {
    pub rules: CostRules,
}

/// `x`, at most [`CAP`] (amounts are never negative).
pub open spec fn sat(x: int) -> nat {
    if x <= 0 {
        0
    } else if x <= CAP {
        x as nat
    } else {
        CAP as nat
    }
}

/// Throughput (thousandths of elements per second) and element size in
/// bytes, when the profile gives both.
pub open spec fn profile_rate(p: Option<DataProfile>) -> Option<(u64, u64)> {
    match p {
        Some(p) => match (p.estimated_throughput_milli_per_sec, p.average_element_size_bytes) {
            (Some(t), Some(b)) => Some((t, b)),
            _ => None,
        },
        None => None,
    }
}

/// The measured state size (thousandths of a GB) of an optional profile.
pub open spec fn profile_state(p: Option<DataProfile>) -> Option<u64> {
    match p {
        Some(p) => p.estimated_state_size_milli_gb,
        None => None,
    }
}

/// Compute cost: 10 worker hours per node at the hourly rate.
pub open spec fn compute_cost(rules: CostRules, nodes: nat) -> nat {
    sat(sat(nodes * 10 as int) * rules.worker_machine_cost_per_hour)
}

/// Monthly shuffle volume in thousandths of a GB: the profile's byte rate
/// over a month per shuffle, or 50 GB per shuffle without one.
pub open spec fn shuffle_volume(p: Option<DataProfile>, shuffles: nat) -> nat {
    match profile_rate(p) {
        Some((t, b)) => sat(sat(sat(t * b) * SECONDS_PER_MONTH / (BYTES_PER_GB as int)) * shuffles as int),
        None => sat(shuffles * 50_000 as int),
    }
}

/// Shuffle cost: the volume at the per-GB rate.
pub open spec fn shuffle_cost(rules: CostRules, p: Option<DataProfile>, shuffles: nat) -> nat {
    sat(shuffle_volume(p, shuffles) * rules.dataflow_shuffle_cost_per_gb / 1000)
}

/// State cost: the profile's state size, or 10 GB per stateful
/// operation, at the per-GB-month rate.
pub open spec fn state_cost(rules: CostRules, p: Option<DataProfile>, stateful: nat) -> nat {
    match profile_state(p) {
        Some(s) => sat(s * rules.persistent_disk_cost_per_gb_month / 1000),
        None => sat(sat(stateful * 10 as int) * rules.persistent_disk_cost_per_gb_month),
    }
}

/// The cost tier of a monthly total.
pub open spec fn cost_tier(total: nat) -> Seq<char> {
    if total < 100_000 {
        "low"@
    } else if total < 500_000 {
        "moderate"@
    } else if total < 2_000_000 {
        "high"@
    } else {
        "very high"@
    }
}

/// What [`CostAnalyzer::analyze`] reports for a pipeline and profile.
pub open spec fn cost_result(rules: CostRules, ir: PipelineIR, p: Option<DataProfile>) -> AnalysisResultView {
    let nodes = ir.nodes@;
    let shuffles = count_selected(nodes, Selector::Class(NodeClass::Shuffle));
    let stateful = count_selected(nodes, Selector::Class(NodeClass::Stateful));
    let c = compute_cost(rules, nodes.len());
    let sh = shuffle_cost(rules, p, shuffles);
    let st = state_cost(rules, p, stateful);
    let total = c + sh + st;
    let f0 = if shuffles > 3 {
        seq![
            FindingView {
                id: "COST_MULTIPLE_SHUFFLES"@,
                severity: RiskSeverity::High,
                finding_type: FindingType::CostRisk,
                title: counted(SHUFFLES_TITLE_A@, shuffles, SHUFFLES_TITLE_B@),
                description: SHUFFLES_DESC@,
                affected_nodes: Seq::empty(),
                recommendation: Some(SHUFFLES_REC@),
                estimated_impact: Some(impact(None, Some((sh * 2 / 5) as i64), None)),
                confidence: 800,
            },
        ]
    } else {
        Seq::empty()
    };
    let findings = if stateful > 0 {
        f0.push(
            FindingView {
                id: "COST_STATE_STORAGE"@,
                severity: RiskSeverity::Medium,
                finding_type: FindingType::CostRisk,
                title: counted(STATE_TITLE_A@, stateful, STATE_TITLE_B@),
                description: STATE_DESC_A@ + fixed(st, 0) + STATE_DESC_B@,
                affected_nodes: Seq::empty(),
                recommendation: Some(STATE_REC@),
                estimated_impact: Some(impact(None, Some((st * 3 / 10) as i64), None)),
                confidence: 700,
            },
        )
    } else {
        f0
    };
    AnalysisResultView {
        analyzer_name: "CostAnalyzer"@,
        version: "0.1.0"@,
        findings,
        metrics: seq![
            ("estimated_compute_cost_per_month"@, clamp_i64(c)),
            ("estimated_shuffle_cost_per_month"@, clamp_i64(sh)),
            ("estimated_state_cost_per_month"@, clamp_i64(st)),
            ("estimated_total_cost_per_month"@, clamp_i64(total)),
        ],
        summary: SUMMARY_A@ + fixed(total, 0) + SUMMARY_B@ + cost_tier(total) + SUMMARY_C@ + fixed(
            c,
            0,
        ) + SUMMARY_D@ + fixed(sh, 0) + SUMMARY_E@ + fixed(st, 0) + if p is Some {
            WITH_PROFILE@
        } else {
            NO_PROFILE@
        },
        confidence: if p is Some {
            750
        } else {
            550
        },
    }
}

fn sat_of(x: u128) -> (r: u128)
    ensures
        r == sat(x as int),
{
    if x <= CAP {
        x
    } else {
        CAP
    }
}

fn sat_mul(a: u128, b: u64) -> (r: u128)
    requires
        a <= CAP,
    ensures
        r == sat(a * b),
{
    assert(a * (b as u128) <= CAP * 0xffff_ffff_ffff_ffffu128) by (nonlinear_arith)
        requires
            a <= CAP,
            b <= 0xffff_ffff_ffff_ffffu64,
    ;
    sat_of(a * (b as u128))
}

fn tier_text(total: u128) -> (r: &'static str)
    ensures
        r@ == cost_tier(total as nat),
{
    if total < 100_000 {
        "low"
    } else if total < 500_000 {
        "moderate"
    } else if total < 2_000_000 {
        "high"
    } else {
        "very high"
    }
}

impl CostAnalyzer {
    /// A cost analyzer using the given rates.
    pub fn new(rules: CostRules) -> (r: CostAnalyzer)
        ensures
            r.rules == rules,
    {
        CostAnalyzer { rules }
    }

    pub fn name(&self) -> (r: &'static str)
        ensures
            r@ == "CostAnalyzer"@,
    {
        "CostAnalyzer"
    }

    pub fn version(&self) -> (r: &'static str)
        ensures
            r@ == "0.1.0"@,
    {
        "0.1.0"
    }

    pub fn priority(&self) -> (r: u32)
        ensures
            r == 6,
    {
        6
    }

    /// The compute, shuffle and state cost of a pipeline, in thousandths of
    /// a dollar.
    pub fn estimate_costs(&self, ir: &PipelineIR, profile: Option<&DataProfile>) -> (r: (u64, u64, u64))
        ensures
            r.0 == compute_cost(self.rules, ir.nodes@.len()),
            r.1 == shuffle_cost(
                self.rules,
                match profile {
                    Some(p) => Some(*p),
                    None => None,
                },
                count_selected(ir.nodes@, Selector::Class(NodeClass::Shuffle)),
            ),
            r.2 == state_cost(
                self.rules,
                match profile {
                    Some(p) => Some(*p),
                    None => None,
                },
                count_selected(ir.nodes@, Selector::Class(NodeClass::Stateful)),
            ),
    {
        let ghost p = match profile {
            Some(p) => Some(*p),
            None => None,
        };
        let n = ir.nodes.len() as u128;
        let c = sat_mul(sat_of(n * 10), self.rules.worker_machine_cost_per_hour);
        let shuffles = count_class(&ir.nodes, NodeClass::Shuffle) as u128;
        let rate: Option<(u64, u64)> = match profile {
            Some(pr) => match (pr.estimated_throughput_milli_per_sec, pr.average_element_size_bytes) {
                (Some(t), Some(b)) => Some((t, b)),
                _ => None,
            },
            None => None,
        };
        let vol: u128 = match rate {
            Some((t, b)) => {
                assert((t as u128) * (b as u128) <= 0xffff_ffff_ffff_ffffu128 * 0xffff_ffff_ffff_ffffu128)
                    by (nonlinear_arith)
                    requires
                        t <= 0xffff_ffff_ffff_ffffu64,
                        b <= 0xffff_ffff_ffff_ffffu64,
                ;
                let bps = sat_of((t as u128) * (b as u128));
                let per = sat_of(bps * SECONDS_PER_MONTH / BYTES_PER_GB);
                assert(per * shuffles <= CAP * 0xffff_ffff_ffff_ffffu128) by (nonlinear_arith)
                    requires
                        per <= CAP,
                        shuffles <= 0xffff_ffff_ffff_ffffu128,
                ;
                sat_of(per * shuffles)
            },
            None => sat_of(shuffles * 50_000),
        };
        assert(vol * (self.rules.dataflow_shuffle_cost_per_gb as u128) <= CAP * 0xffff_ffff_ffff_ffffu128)
            by (nonlinear_arith)
            requires
                vol <= CAP,
                self.rules.dataflow_shuffle_cost_per_gb <= 0xffff_ffff_ffff_ffffu64,
        ;
        let sh = sat_of(vol * (self.rules.dataflow_shuffle_cost_per_gb as u128) / 1000);
        let stateful = count_class(&ir.nodes, NodeClass::Stateful) as u128;
        let size: Option<u64> = match profile {
            Some(pr) => pr.estimated_state_size_milli_gb,
            None => None,
        };
        let st: u128 = match size {
            Some(s) => {
                let d = self.rules.persistent_disk_cost_per_gb_month;
                assert((s as u128) * (d as u128) <= 0xffff_ffff_ffff_ffffu128 * 0xffff_ffff_ffff_ffffu128)
                    by (nonlinear_arith)
                    requires
                        s <= 0xffff_ffff_ffff_ffffu64,
                        d <= 0xffff_ffff_ffff_ffffu64,
                ;
                sat_of((s as u128) * (d as u128) / 1000)
            },
            None => sat_mul(sat_of(stateful * 10), self.rules.persistent_disk_cost_per_gb_month),
        };
        (c as u64, sh as u64, st as u64)
    }

    /// Reports the estimated monthly cost of a pipeline.
    pub fn analyze(&self, ctx: &AnalysisContext) -> (r: AnalysisResult)
        ensures
            r@ == cost_result(self.rules, ctx.pipeline_ir, ctx.data_profile),
    {
        let ir = &ctx.pipeline_ir;
        let profile: Option<&DataProfile> = match &ctx.data_profile {
            Some(p) => Some(p),
            None => None,
        };
        let has_profile = ctx.data_profile.is_some();
        let (c, sh, st) = self.estimate_costs(ir, profile);
        let total: u64 = c + sh + st;
        let shuffles = count_class(&ir.nodes, NodeClass::Shuffle);
        let stateful = count_class(&ir.nodes, NodeClass::Stateful);
        let mut metrics: Vec<Metric> = Vec::new();
        push_metric(&mut metrics, "estimated_compute_cost_per_month", clamp_value(c));
        push_metric(&mut metrics, "estimated_shuffle_cost_per_month", clamp_value(sh));
        push_metric(&mut metrics, "estimated_state_cost_per_month", clamp_value(st));
        push_metric(&mut metrics, "estimated_total_cost_per_month", clamp_value(total));
        let mut findings: Vec<Finding> = Vec::new();
        proof {
            assert(finding_views(findings@) =~= Seq::<FindingView>::empty());
        }
        if shuffles > 3 {
            push_finding(
                &mut findings,
                make_finding(
                    "COST_MULTIPLE_SHUFFLES",
                    RiskSeverity::High,
                    FindingType::CostRisk,
                    crate::analyzer::counted_text(SHUFFLES_TITLE_A, shuffles as u64, SHUFFLES_TITLE_B),
                    String::from_str(SHUFFLES_DESC),
                    no_nodes(),
                    Some(SHUFFLES_REC),
                    Some(
                        Impact {
                            latency_multiplier: None,
                            cost_delta_monthly: Some((sh * 2 / 5) as i64),
                            affected_records_percent: None,
                        },
                    ),
                    800,
                ),
            );
        }
        if stateful > 0 {
            let sts = fixed_text(st, 0);
            let desc = crate::text::concat3(STATE_DESC_A, sts.as_str(), STATE_DESC_B);
            push_finding(
                &mut findings,
                make_finding(
                    "COST_STATE_STORAGE",
                    RiskSeverity::Medium,
                    FindingType::CostRisk,
                    crate::analyzer::counted_text(STATE_TITLE_A, stateful as u64, STATE_TITLE_B),
                    desc,
                    no_nodes(),
                    Some(STATE_REC),
                    Some(
                        Impact {
                            latency_multiplier: None,
                            cost_delta_monthly: Some((st * 3 / 10) as i64),
                            affected_records_percent: None,
                        },
                    ),
                    700,
                ),
            );
        }
        let mut summary = String::from_str(SUMMARY_A);
        let t1 = fixed_text(total, 0);
        summary.append(t1.as_str());
        summary.append(SUMMARY_B);
        summary.append(tier_text(total as u128));
        summary.append(SUMMARY_C);
        let t2 = fixed_text(c, 0);
        summary.append(t2.as_str());
        summary.append(SUMMARY_D);
        let t3 = fixed_text(sh, 0);
        summary.append(t3.as_str());
        summary.append(SUMMARY_E);
        let t4 = fixed_text(st, 0);
        summary.append(t4.as_str());
        if has_profile {
            summary.append(WITH_PROFILE);
        } else {
            summary.append(NO_PROFILE);
        }
        proof {
            let spec = cost_result(self.rules, *ir, ctx.data_profile);
            assert(finding_views(findings@) =~= spec.findings);
            assert(metric_views(metrics@) =~= spec.metrics);
            assert(summary@ =~= spec.summary);
        }
        let conf: u32 = if has_profile {
            750
        } else {
            550
        };
        make_result(self.name(), self.version(), findings, metrics, summary, conf)
    }
}

/// Supplying a data profile raises the estimate's confidence.
pub proof fn lemma_profile_raises_confidence(rules: CostRules, ir: PipelineIR, p: DataProfile)
    ensures
        cost_result(rules, ir, Some(p)).confidence > cost_result(rules, ir, None).confidence,
{
}

/// The estimated total is the sum of the compute, shuffle and state
/// estimates, saturating at `i64::MAX`.
pub proof fn lemma_total_is_sum(rules: CostRules, ir: PipelineIR, p: Option<DataProfile>)
    ensures
        ({
            let m = cost_result(rules, ir, p).metrics;
            &&& m.len() == 4
            &&& m[0].0 == "estimated_compute_cost_per_month"@
            &&& m[1].0 == "estimated_shuffle_cost_per_month"@
            &&& m[2].0 == "estimated_state_cost_per_month"@
            &&& m[3].0 == "estimated_total_cost_per_month"@
            &&& m[3].1 == (if m[0].1 + m[1].1 + m[2].1 <= i64::MAX {
                m[0].1 + m[1].1 + m[2].1
            } else {
                i64::MAX as int
            })
        }),
{
}

} // verus!
