//! Deployment settings: worker sizing, autoscaling, region and Streaming
//! Engine.
use crate::analyzer::{
    counted, counted_text, finding_views, fixed_finding, flag, flag_value, impact, make_finding,
    make_result, metric_views, no_nodes, push_finding, push_metric, AnalysisContext,
    AnalysisResult, AnalysisResultView, Finding, FindingType, FindingView, Impact, Metric,
    RiskSeverity, finding_ids, id_if,
};
use crate::ir::{DeploymentConfig, PipelineIR};
use crate::text::{contains, decimal, str_contains};
use vstd::prelude::*;

verus! {

pub const SMALL_MACHINE_TITLE: &'static str = "Small machine type: ";
pub const SMALL_MACHINE_DESC: &'static str = "Small machine types (2-4 cores) may be under-provisioned for production. Consider n1-standard-8 or larger.";
pub const SMALL_MACHINE_REC: &'static str = "Test pipeline with n1-standard-8 (8 vCPU, 30GB memory) for better GC and parallelism.";
pub const MAX_WORKERS_TITLE: &'static str = "Max workers set very high: ";
pub const MAX_WORKERS_DESC: &'static str = "If autoscaling doesn't reach this limit, it's wasted provisioning budget. Set to expected peak + 10%.";
pub const MAX_WORKERS_REC: &'static str = "Right-size max_workers based on actual peak utilization. Monitor first month, then adjust.";
pub const MIN_WORKERS_TITLE: &'static str = "Minimum workers always running: ";
pub const MIN_WORKERS_DESC: &'static str = "Minimum workers are always charged even when idle. For batch jobs, consider min_workers=1-2.";
pub const MIN_WORKERS_REC: &'static str = "For batch: min_workers=2, max_workers=1000. For streaming: min_workers=3-5 (fault tolerance).";
pub const REGION_TITLE: &'static str = "Deployment in non-US region: ";
pub const REGION_DESC: &'static str = "Regional deployment increases latency for US-based data sources. Costs also vary by region.";
pub const REGION_REC: &'static str = "Ensure all inputs and outputs are in the same region to avoid cross-region network costs.";
pub const AUTOSCALING_TITLE: &'static str = "Autoscaling algorithm not specified";
pub const AUTOSCALING_DESC: &'static str = "Dataflow uses default PROPORTIONAL algorithm. For imbalanced topologies, consider THROUGHPUT_BASED.";
pub const AUTOSCALING_REC: &'static str = "For fan-in/fan-out topologies: use 'autoscaling_algorithm': 'THROUGHPUT_BASED'";
pub const STREAMING_TITLE: &'static str = "Streaming Engine disabled";
pub const STREAMING_DESC: &'static str = "Streaming Engine is highly recommended for streaming pipelines (2x performance, 30% cost reduction).";
pub const STREAMING_REC: &'static str = "Enable Streaming Engine in Dataflow job options: 'enable_streaming_engine': true";
pub const NO_CONFIG_TITLE: &'static str = "No deployment configuration provided";
pub const NO_CONFIG_DESC: &'static str = "Pipeline deployment settings (worker type, autoscaling, region) not specified. Will use Dataflow defaults.";
pub const NO_CONFIG_REC: &'static str = "Provide deployment config: worker_machine_type, min/max_workers, region, streaming_engine setting";
pub const GOOD_SUMMARY: &'static str = "Deployment configuration looks good";
pub const ISSUES_PREFIX: &'static str = "Found ";
pub const ISSUES_SUFFIX: &'static str = " deployment configuration issue(s)";

/// Inspects the deployment configuration of a pipeline.
pub struct DeploymentAnalyzer;

/// The worker machine type looks small.
pub open spec fn is_small_machine(mt: Seq<char>) -> bool {
    contains(mt, "small"@) || contains(mt, "micro"@)
}

/// The region lies outside the US.
pub open spec fn is_non_us_region(region: Seq<char>) -> bool {
    contains(region, "europe"@) || contains(region, "asia"@)
}

/// `s` with `f` appended when `c` holds.
pub open spec fn push_if(s: Seq<FindingView>, c: bool, f: FindingView) -> Seq<FindingView> {
    if c {
        s.push(f)
    } else {
        s
    }
}

pub open spec fn small_machine_finding(mt: Seq<char>) -> FindingView {
    FindingView {
        id: "DEPLOY_SMALL_MACHINE"@,
        severity: RiskSeverity::Medium,
        finding_type: FindingType::PerformanceRisk,
        title: SMALL_MACHINE_TITLE@ + mt,
        description: SMALL_MACHINE_DESC@,
        affected_nodes: seq![],
        recommendation: Some(SMALL_MACHINE_REC@),
        estimated_impact: Some(impact(Some(1500), Some(200_000), None)),
        confidence: 750,
    }
}

pub open spec fn max_workers_finding(n: u64) -> FindingView {
    FindingView {
        id: "DEPLOY_EXCESSIVE_MAX_WORKERS"@,
        severity: RiskSeverity::Medium,
        finding_type: FindingType::CostRisk,
        title: MAX_WORKERS_TITLE@ + decimal(n as nat),
        description: MAX_WORKERS_DESC@,
        affected_nodes: seq![],
        recommendation: Some(MAX_WORKERS_REC@),
        estimated_impact: Some(impact(None, Some(500_000), None)),
        confidence: 700,
    }
}

pub open spec fn min_workers_finding(n: u64) -> FindingView {
    FindingView {
        id: "DEPLOY_HIGH_MIN_WORKERS"@,
        severity: RiskSeverity::Medium,
        finding_type: FindingType::CostRisk,
        title: MIN_WORKERS_TITLE@ + decimal(n as nat),
        description: MIN_WORKERS_DESC@,
        affected_nodes: seq![],
        recommendation: Some(MIN_WORKERS_REC@),
        estimated_impact: Some(impact(None, Some(1_000_000), None)),
        confidence: 800,
    }
}

pub open spec fn region_finding(region: Seq<char>) -> FindingView {
    FindingView {
        id: "DEPLOY_NON_US_REGION"@,
        severity: RiskSeverity::Low,
        finding_type: FindingType::ConfigurationIssue,
        title: REGION_TITLE@ + region,
        description: REGION_DESC@,
        affected_nodes: seq![],
        recommendation: Some(REGION_REC@),
        estimated_impact: Some(impact(Some(1200), Some(100_000), None)),
        confidence: 650,
    }
}

pub open spec fn autoscaling_finding() -> FindingView {
    FindingView {
        id: "DEPLOY_NO_AUTOSCALING_ALG"@,
        severity: RiskSeverity::Low,
        finding_type: FindingType::ConfigurationIssue,
        title: AUTOSCALING_TITLE@,
        description: AUTOSCALING_DESC@,
        affected_nodes: seq![],
        recommendation: Some(AUTOSCALING_REC@),
        estimated_impact: None,
        confidence: 600,
    }
}

pub open spec fn streaming_disabled_finding() -> FindingView {
    FindingView {
        id: "DEPLOY_NO_STREAMING_ENGINE"@,
        severity: RiskSeverity::High,
        finding_type: FindingType::PerformanceRisk,
        title: STREAMING_TITLE@,
        description: STREAMING_DESC@,
        affected_nodes: seq![],
        recommendation: Some(STREAMING_REC@),
        estimated_impact: Some(impact(Some(500), Some(-500_000i64), None)),
        confidence: 950,
    }
}

pub open spec fn no_config_finding() -> FindingView {
    FindingView {
        id: "DEPLOY_NO_CONFIG"@,
        severity: RiskSeverity::Medium,
        finding_type: FindingType::ConfigurationIssue,
        title: NO_CONFIG_TITLE@,
        description: NO_CONFIG_DESC@,
        affected_nodes: seq![],
        recommendation: Some(NO_CONFIG_REC@),
        estimated_impact: None,
        confidence: 800,
    }
}

/// The findings for a deployment configuration, in the order they are
/// checked.
pub open spec fn config_findings(c: DeploymentConfig) -> Seq<FindingView> {
    let s0 = Seq::<FindingView>::empty();
    let s1 = match c.worker_machine_type {
        Some(mt) => push_if(s0, is_small_machine(mt@), small_machine_finding(mt@)),
        None => s0,
    };
    let s2 = match c.max_workers {
        Some(n) => push_if(s1, n > 500, max_workers_finding(n)),
        None => s1,
    };
    let s3 = match c.min_workers {
        Some(n) => push_if(s2, n > 50, min_workers_finding(n)),
        None => s2,
    };
    let s4 = match c.region {
        Some(r) => push_if(s3, is_non_us_region(r@), region_finding(r@)),
        None => s3,
    };
    let s5 = push_if(s4, c.autoscaling_algorithm is None, autoscaling_finding());
    push_if(s5, c.streaming_engine == Some(false), streaming_disabled_finding())
}

/// The metrics recorded for a deployment configuration.
pub open spec fn config_metrics(c: DeploymentConfig) -> Seq<(Seq<char>, i64)> {
    seq![
        ("has_machine_type"@, flag(c.worker_machine_type is Some)),
        ("has_autoscaling"@, flag(c.max_workers is Some)),
        ("has_streaming_engine"@, flag(c.streaming_engine == Some(true))),
    ]
}

/// What [`DeploymentAnalyzer::analyze`] reports for a pipeline.
pub open spec fn deployment_result(ir: PipelineIR) -> AnalysisResultView {
    let (findings, metrics) = match ir.metadata.deployment_config {
        Some(c) => (config_findings(c), config_metrics(c)),
        None => (seq![no_config_finding()], Seq::empty()),
    };
    AnalysisResultView {
        analyzer_name: "DeploymentAnalyzer"@,
        version: "0.1.0"@,
        findings,
        metrics,
        summary: if findings.len() == 0 {
            GOOD_SUMMARY@
        } else {
            counted(ISSUES_PREFIX@, findings.len(), ISSUES_SUFFIX@)
        },
        confidence: 800,
    }
}

fn config_findings_exec(c: &DeploymentConfig) -> (r: Vec<Finding>)
    ensures
        finding_views(r@) == config_findings(*c),
{
    let mut f: Vec<Finding> = Vec::new();
    proof {
        assert(finding_views(f@) =~= Seq::<FindingView>::empty());
    }
    if let Some(mt) = &c.worker_machine_type {
        if str_contains(mt.as_str(), "small") || str_contains(mt.as_str(), "micro") {
            let mut t = String::from_str(SMALL_MACHINE_TITLE);
            t.append(mt.as_str());
            push_finding(
                &mut f,
                make_finding(
                    "DEPLOY_SMALL_MACHINE",
                    RiskSeverity::Medium,
                    FindingType::PerformanceRisk,
                    t,
                    String::from_str(SMALL_MACHINE_DESC),
                    no_nodes(),
                    Some(SMALL_MACHINE_REC),
                    Some(
                        Impact {
                            latency_multiplier: Some(1500),
                            cost_delta_monthly: Some(200_000),
                            affected_records_percent: None,
                        },
                    ),
                    750,
                ),
            );
        }
    }
    if let Some(n) = c.max_workers {
        if n > 500 {
            let mut t = String::from_str(MAX_WORKERS_TITLE);
            let d = crate::text::decimal_text(n);
            t.append(d.as_str());
            push_finding(
                &mut f,
                make_finding(
                    "DEPLOY_EXCESSIVE_MAX_WORKERS",
                    RiskSeverity::Medium,
                    FindingType::CostRisk,
                    t,
                    String::from_str(MAX_WORKERS_DESC),
                    no_nodes(),
                    Some(MAX_WORKERS_REC),
                    Some(
                        Impact {
                            latency_multiplier: None,
                            cost_delta_monthly: Some(500_000),
                            affected_records_percent: None,
                        },
                    ),
                    700,
                ),
            );
        }
    }
    if let Some(n) = c.min_workers {
        if n > 50 {
            let mut t = String::from_str(MIN_WORKERS_TITLE);
            let d = crate::text::decimal_text(n);
            t.append(d.as_str());
            push_finding(
                &mut f,
                make_finding(
                    "DEPLOY_HIGH_MIN_WORKERS",
                    RiskSeverity::Medium,
                    FindingType::CostRisk,
                    t,
                    String::from_str(MIN_WORKERS_DESC),
                    no_nodes(),
                    Some(MIN_WORKERS_REC),
                    Some(
                        Impact {
                            latency_multiplier: None,
                            cost_delta_monthly: Some(1_000_000),
                            affected_records_percent: None,
                        },
                    ),
                    800,
                ),
            );
        }
    }
    if let Some(region) = &c.region {
        if str_contains(region.as_str(), "europe") || str_contains(region.as_str(), "asia") {
            let mut t = String::from_str(REGION_TITLE);
            t.append(region.as_str());
            push_finding(
                &mut f,
                make_finding(
                    "DEPLOY_NON_US_REGION",
                    RiskSeverity::Low,
                    FindingType::ConfigurationIssue,
                    t,
                    String::from_str(REGION_DESC),
                    no_nodes(),
                    Some(REGION_REC),
                    Some(
                        Impact {
                            latency_multiplier: Some(1200),
                            cost_delta_monthly: Some(100_000),
                            affected_records_percent: None,
                        },
                    ),
                    650,
                ),
            );
        }
    }
    if c.autoscaling_algorithm.is_none() {
        push_finding(
            &mut f,
            fixed_finding(
                "DEPLOY_NO_AUTOSCALING_ALG",
                RiskSeverity::Low,
                FindingType::ConfigurationIssue,
                AUTOSCALING_TITLE,
                AUTOSCALING_DESC,
                no_nodes(),
                Some(AUTOSCALING_REC),
                None,
                600,
            ),
        );
    }
    if c.streaming_engine == Some(false) {
        push_finding(
            &mut f,
            fixed_finding(
                "DEPLOY_NO_STREAMING_ENGINE",
                RiskSeverity::High,
                FindingType::PerformanceRisk,
                STREAMING_TITLE,
                STREAMING_DESC,
                no_nodes(),
                Some(STREAMING_REC),
                Some(
                    Impact {
                        latency_multiplier: Some(500),
                        cost_delta_monthly: Some(-500_000),
                        affected_records_percent: None,
                    },
                ),
                950,
            ),
        );
    }
    f
}

impl DeploymentAnalyzer {
    pub fn name(&self) -> (r: &'static str)
        ensures
            r@ == "DeploymentAnalyzer"@,
    {
        "DeploymentAnalyzer"
    }

    pub fn version(&self) -> (r: &'static str)
        ensures
            r@ == "0.1.0"@,
    {
        "0.1.0"
    }

    pub fn priority(&self) -> (r: u32)
        ensures
            r == 9,
    {
        9
    }

    /// Reports deployment-configuration issues of the pipeline.
    pub fn analyze(&self, ctx: &AnalysisContext) -> (r: AnalysisResult)
        ensures
            r@ == deployment_result(ctx.pipeline_ir),
    {
        let ir = &ctx.pipeline_ir;
        let mut metrics: Vec<Metric> = Vec::new();
        let findings = match &ir.metadata.deployment_config {
            Some(c) => {
                let f = config_findings_exec(c);
                push_metric(&mut metrics, "has_machine_type", flag_value(c.worker_machine_type.is_some()));
                push_metric(&mut metrics, "has_autoscaling", flag_value(c.max_workers.is_some()));
                push_metric(&mut metrics, "has_streaming_engine", flag_value(c.streaming_engine == Some(true)));
                proof {
                    assert(metric_views(metrics@) =~= config_metrics(*c));
                }
                f
            },
            None => {
                let mut f: Vec<Finding> = Vec::new();
                push_finding(
                    &mut f,
                    fixed_finding(
                        "DEPLOY_NO_CONFIG",
                        RiskSeverity::Medium,
                        FindingType::ConfigurationIssue,
                        NO_CONFIG_TITLE,
                        NO_CONFIG_DESC,
                        no_nodes(),
                        Some(NO_CONFIG_REC),
                        None,
                        800,
                    ),
                );
                proof {
                    assert(finding_views(f@) =~= seq![no_config_finding()]);
                    assert(metric_views(metrics@) =~= Seq::<(Seq<char>, i64)>::empty());
                }
                f
            },
        };
        let n = findings.len();
        let summary = if n == 0 {
            String::from_str(GOOD_SUMMARY)
        } else {
            counted_text(ISSUES_PREFIX, n as u64, ISSUES_SUFFIX)
        };
        make_result(self.name(), self.version(), findings, metrics, summary, 800)
    }
}

proof fn lemma_push_if_ids(s: Seq<FindingView>, c: bool, f: FindingView)
    ensures
        finding_ids(push_if(s, c, f)) == finding_ids(s) + id_if(c, f.id),
{
    assert(finding_ids(push_if(s, c, f)) =~= finding_ids(s) + id_if(c, f.id));
}

/// The deployment rules, in the order they are checked: a small machine
/// type, more than 500 max workers, more than 50 min workers, a region
/// outside the US, no autoscaling algorithm, the streaming engine switched
/// off. Without a deployment configuration the one finding says so.
pub proof fn lemma_deployment_rules(ir: PipelineIR)
    ensures
        finding_ids(deployment_result(ir).findings) == match ir.metadata.deployment_config {
            Some(c) => id_if(
                c.worker_machine_type matches Some(mt) && is_small_machine(mt@),
                "DEPLOY_SMALL_MACHINE"@,
            ) + id_if(c.max_workers matches Some(n) && n > 500, "DEPLOY_EXCESSIVE_MAX_WORKERS"@) + id_if(
                c.min_workers matches Some(n) && n > 50,
                "DEPLOY_HIGH_MIN_WORKERS"@,
            ) + id_if(c.region matches Some(r) && is_non_us_region(r@), "DEPLOY_NON_US_REGION"@) + id_if(
                c.autoscaling_algorithm is None,
                "DEPLOY_NO_AUTOSCALING_ALG"@,
            ) + id_if(c.streaming_engine == Some(false), "DEPLOY_NO_STREAMING_ENGINE"@),
            None => seq!["DEPLOY_NO_CONFIG"@],
        },
{
    match ir.metadata.deployment_config {
        Some(c) => {
            let s0 = Seq::<FindingView>::empty();
            assert(finding_ids(s0) =~= Seq::<Seq<char>>::empty());
            let s1 = match c.worker_machine_type {
                Some(mt) => push_if(s0, is_small_machine(mt@), small_machine_finding(mt@)),
                None => s0,
            };
            match c.worker_machine_type {
                Some(mt) => lemma_push_if_ids(s0, is_small_machine(mt@), small_machine_finding(mt@)),
                None => {},
            }
            let s2 = match c.max_workers {
                Some(n) => push_if(s1, n > 500, max_workers_finding(n)),
                None => s1,
            };
            match c.max_workers {
                Some(n) => lemma_push_if_ids(s1, n > 500, max_workers_finding(n)),
                None => {},
            }
            let s3 = match c.min_workers {
                Some(n) => push_if(s2, n > 50, min_workers_finding(n)),
                None => s2,
            };
            match c.min_workers {
                Some(n) => lemma_push_if_ids(s2, n > 50, min_workers_finding(n)),
                None => {},
            }
            let s4 = match c.region {
                Some(r) => push_if(s3, is_non_us_region(r@), region_finding(r@)),
                None => s3,
            };
            match c.region {
                Some(r) => lemma_push_if_ids(s3, is_non_us_region(r@), region_finding(r@)),
                None => {},
            }
            let s5 = push_if(s4, c.autoscaling_algorithm is None, autoscaling_finding());
            lemma_push_if_ids(s4, c.autoscaling_algorithm is None, autoscaling_finding());
            lemma_push_if_ids(s5, c.streaming_engine == Some(false), streaming_disabled_finding());
            assert(deployment_result(ir).findings == config_findings(c));
            let i0 = Seq::<Seq<char>>::empty();
            assert(i0 + id_if(c.worker_machine_type matches Some(mt) && is_small_machine(mt@), "DEPLOY_SMALL_MACHINE"@)
                =~= id_if(c.worker_machine_type matches Some(mt) && is_small_machine(mt@), "DEPLOY_SMALL_MACHINE"@));
        },
        None => {
            assert(finding_ids(deployment_result(ir).findings) =~= seq!["DEPLOY_NO_CONFIG"@]);
        },
    }
}

} // verus!
