//! Spark shuffle partitioning and wide transformations.
use crate::analyzer::{
    count_milli, count_value, counted, counted_text, finding_views, make_finding, make_result,
    metric_views, no_nodes, push_finding, push_metric, AnalysisContext, AnalysisResult,
    AnalysisResultView, Finding, FindingType, FindingView, Impact, Metric, RiskSeverity, impact,
    has_id,
};
use crate::analyzers::flink_checkpoint::count_value_u64;
use crate::ir::{
    config_lookup, custom_positions, first_custom, ids_at, ids_of, select, value_u64, PipelineIR,
    Selector,
};
use vstd::prelude::*;

verus! {

/// Spark's built-in default for `spark.sql.shuffle.partitions`.
pub const DEFAULT_SHUFFLE_PARTITIONS: u64 = 200;

/// Below this many partitions, post-shuffle partitions get too large.
pub const TOO_FEW_PARTITIONS: u64 = 10;

/// Above this many partitions, per-task overhead dominates.
pub const EXCESSIVE_PARTITIONS: u64 = 10_000;

/// Beyond this many wide transforms, repeated shuffles compound.
pub const MANY_WIDE_TRANSFORMS: usize = 3;

pub const LOW_TITLE_A: &'static str = "spark.sql.shuffle.partitions is very low (";
pub const LOW_DESC: &'static str = "With wide transformations (groupBy/join/...) present, this few shuffle partitions means each partition after the shuffle holds a large slice of data, risking executor spill/OOM and leaving most of the cluster's parallelism unused.";
pub const LOW_REC: &'static str = "Raise shuffle.partitions so post-shuffle partition size targets roughly 128-200MB each, or enable Adaptive Query Execution (`spark.sql.adaptive.enabled=true`) to let Spark coalesce partitions automatically.";
pub const HIGH_TITLE_A: &'static str = "spark.sql.shuffle.partitions is very high (";
pub const HIGH_DESC: &'static str = "An excessive partition count means many small tasks, each with fixed scheduling overhead, and can produce large numbers of small output files downstream.";
pub const HIGH_REC: &'static str = "Right-size shuffle.partitions to your data volume and cluster core count, or use AQE's coalescing instead of a large fixed value.";
pub const CLOSE: &'static str = ")";
pub const UNCONF_TITLE: &'static str = "spark.sql.shuffle.partitions left at the default (200)";
pub const UNCONF_DESC: &'static str = "Multiple wide transformations are present but `spark.sql.shuffle.partitions` is never set, so Spark uses its fixed default of 200 regardless of actual data volume or cluster size.";
pub const UNCONF_REC: &'static str = "Set spark.sql.shuffle.partitions explicitly based on data volume (target ~128-200MB per partition after shuffle), or enable Adaptive Query Execution to size partitions automatically.";
pub const MANY_TITLE_B: &'static str = " wide (shuffle-triggering) transformations detected";
pub const MANY_DESC: &'static str = "Each groupBy/join/distinct/repartition triggers a full shuffle. Several of them in one job compound cost and latency, especially if they operate on the same large DataFrame repeatedly.";
pub const MANY_REC: &'static str = "Look for opportunities to combine transformations (e.g. a single groupBy with multiple aggregations instead of several passes), or cache an intermediate DataFrame that's reused across shuffles.";
pub const NONE_SUMMARY: &'static str = "No shuffle-triggering transformations detected";
pub const OK_SUMMARY_B: &'static str = " wide transformation(s) detected; partitioning looks reasonable";
pub const ISSUES_A: &'static str = "Found ";
pub const ISSUES_B: &'static str = " shuffle configuration issue(s)";

/// Analyzes Spark shuffle partition configuration.
pub struct SparkShuffleAnalyzer;

/// The configured `spark.sql.shuffle.partitions`, if any.
pub open spec fn configured_partitions(ir: PipelineIR) -> Option<u64> {
    let sel = select(ir.nodes@, Selector::Custom("spark_shuffle_config"@));
    if sel.len() == 0 {
        None
    } else {
        value_u64(config_lookup(ir.nodes@[sel[0] as int].config.entries@, "shuffle_partitions"@))
    }
}

pub open spec fn simple_finding(
    id: Seq<char>,
    sev: RiskSeverity,
    ty: FindingType,
    title: Seq<char>,
    desc: Seq<char>,
    nodes: Seq<Seq<char>>,
    rec: Seq<char>,
    imp: Impact,
    conf: u32,
) -> FindingView {
    FindingView {
        id,
        severity: sev,
        finding_type: ty,
        title,
        description: desc,
        affected_nodes: nodes,
        recommendation: Some(rec),
        estimated_impact: Some(imp),
        confidence: conf,
    }
}

/// The findings for a pipeline with `wide` wide-transform ids.
pub open spec fn spark_shuffle_findings(partitions: Option<u64>, wide: Seq<Seq<char>>) -> Seq<FindingView> {
    let s1 = match partitions {
        Some(p) => if wide.len() > 0 && p < TOO_FEW_PARTITIONS {
            seq![
                simple_finding(
                    "SPARK_SHUFFLE_PARTITIONS_TOO_LOW"@,
                    RiskSeverity::High,
                    FindingType::PerformanceRisk,
                    counted(LOW_TITLE_A@, p as nat, CLOSE@),
                    LOW_DESC@,
                    wide,
                    LOW_REC@,
                    impact(Some(2000), None, None),
                    720,
                ),
            ]
        } else if p > EXCESSIVE_PARTITIONS {
            seq![
                simple_finding(
                    "SPARK_SHUFFLE_PARTITIONS_EXCESSIVE"@,
                    RiskSeverity::Medium,
                    FindingType::PerformanceRisk,
                    counted(HIGH_TITLE_A@, p as nat, CLOSE@),
                    HIGH_DESC@,
                    seq![],
                    HIGH_REC@,
                    impact(Some(1300), None, None),
                    650,
                ),
            ]
        } else {
            Seq::empty()
        },
        None => if wide.len() >= 2 {
            seq![
                simple_finding(
                    "SPARK_SHUFFLE_PARTITIONS_UNCONFIGURED"@,
                    RiskSeverity::Medium,
                    FindingType::ConfigurationIssue,
                    UNCONF_TITLE@,
                    UNCONF_DESC@,
                    wide,
                    UNCONF_REC@,
                    impact(Some(1400), None, None),
                    600,
                ),
            ]
        } else {
            Seq::empty()
        },
    };
    if wide.len() > MANY_WIDE_TRANSFORMS {
        s1.push(
            simple_finding(
                "SPARK_MULTIPLE_WIDE_TRANSFORMS"@,
                RiskSeverity::High,
                FindingType::CostRisk,
                counted(Seq::empty(), wide.len(), MANY_TITLE_B@),
                MANY_DESC@,
                wide,
                MANY_REC@,
                impact(Some(1800), Some(400_000), None),
                700,
            ),
        )
    } else {
        s1
    }
}

/// What [`SparkShuffleAnalyzer::analyze`] reports for a pipeline.
pub open spec fn spark_shuffle_result(ir: PipelineIR) -> AnalysisResultView {
    let wide_pos = select(ir.nodes@, Selector::Custom("spark_wide_transform"@));
    let wide = ids_at(ir.nodes@, wide_pos);
    let partitions = configured_partitions(ir);
    let findings = spark_shuffle_findings(partitions, wide);
    let m0 = seq![("wide_transform_count"@, count_milli(wide.len()))];
    AnalysisResultView {
        analyzer_name: "SparkShuffleAnalyzer"@,
        version: "0.1.0"@,
        findings,
        metrics: match partitions {
            Some(p) => m0.push(("shuffle_partitions"@, count_milli(p as nat))),
            None => m0,
        },
        summary: if wide.len() == 0 {
            NONE_SUMMARY@
        } else if findings.len() == 0 {
            counted(Seq::empty(), wide.len(), OK_SUMMARY_B@)
        } else {
            counted(ISSUES_A@, findings.len(), ISSUES_B@)
        },
        confidence: 750,
    }
}

impl SparkShuffleAnalyzer {
    pub fn name(&self) -> (r: &'static str)
        ensures
            r@ == "SparkShuffleAnalyzer"@,
    {
        "SparkShuffleAnalyzer"
    }

    pub fn version(&self) -> (r: &'static str)
        ensures
            r@ == "0.1.0"@,
    {
        "0.1.0"
    }

    pub fn priority(&self) -> (r: u32)
        ensures
            r == 30,
    {
        30
    }

    /// Reports shuffle-partitioning issues of a Spark pipeline.
    pub fn analyze(&self, ctx: &AnalysisContext) -> (r: AnalysisResult)
        ensures
            r@ == spark_shuffle_result(ctx.pipeline_ir),
    {
        let ir = &ctx.pipeline_ir;
        let wide_pos = custom_positions(&ir.nodes, "spark_wide_transform");
        let nwide = wide_pos.len();
        let mut metrics: Vec<Metric> = Vec::new();
        push_metric(&mut metrics, "wide_transform_count", count_value(nwide));
        let partitions = match first_custom(&ir.nodes, "spark_shuffle_config") {
            Some(p) => ir.nodes[p].config.get_u64("shuffle_partitions"),
            None => None,
        };
        let mut findings: Vec<Finding> = Vec::new();
        proof {
            assert(finding_views(findings@) =~= Seq::<FindingView>::empty());
        }
        match partitions {
            Some(p) => {
                push_metric(&mut metrics, "shuffle_partitions", count_value_u64(p));
                if nwide > 0 && p < TOO_FEW_PARTITIONS {
                    let t = counted_text(LOW_TITLE_A, p, CLOSE);
                    push_finding(
                        &mut findings,
                        make_finding(
                            "SPARK_SHUFFLE_PARTITIONS_TOO_LOW",
                            RiskSeverity::High,
                            FindingType::PerformanceRisk,
                            t,
                            String::from_str(LOW_DESC),
                            ids_of(&ir.nodes, &wide_pos),
                            Some(LOW_REC),
                            Some(
                                Impact {
                                    latency_multiplier: Some(2000),
                                    cost_delta_monthly: None,
                                    affected_records_percent: None,
                                },
                            ),
                            720,
                        ),
                    );
                } else if p > EXCESSIVE_PARTITIONS {
                    let t = counted_text(HIGH_TITLE_A, p, CLOSE);
                    push_finding(
                        &mut findings,
                        make_finding(
                            "SPARK_SHUFFLE_PARTITIONS_EXCESSIVE",
                            RiskSeverity::Medium,
                            FindingType::PerformanceRisk,
                            t,
                            String::from_str(HIGH_DESC),
                            no_nodes(),
                            Some(HIGH_REC),
                            Some(
                                Impact {
                                    latency_multiplier: Some(1300),
                                    cost_delta_monthly: None,
                                    affected_records_percent: None,
                                },
                            ),
                            650,
                        ),
                    );
                }
            },
            None => {
                if nwide >= 2 {
                    push_finding(
                        &mut findings,
                        make_finding(
                            "SPARK_SHUFFLE_PARTITIONS_UNCONFIGURED",
                            RiskSeverity::Medium,
                            FindingType::ConfigurationIssue,
                            String::from_str(UNCONF_TITLE),
                            String::from_str(UNCONF_DESC),
                            ids_of(&ir.nodes, &wide_pos),
                            Some(UNCONF_REC),
                            Some(
                                Impact {
                                    latency_multiplier: Some(1400),
                                    cost_delta_monthly: None,
                                    affected_records_percent: None,
                                },
                            ),
                            600,
                        ),
                    );
                }
            },
        }
        if nwide > MANY_WIDE_TRANSFORMS {
            let t = counted_text("", nwide as u64, MANY_TITLE_B);
            proof {
                assert(""@ =~= Seq::<char>::empty()) by {
                    reveal_strlit("");
                }
            }
            push_finding(
                &mut findings,
                make_finding(
                    "SPARK_MULTIPLE_WIDE_TRANSFORMS",
                    RiskSeverity::High,
                    FindingType::CostRisk,
                    t,
                    String::from_str(MANY_DESC),
                    ids_of(&ir.nodes, &wide_pos),
                    Some(MANY_REC),
                    Some(
                        Impact {
                            latency_multiplier: Some(1800),
                            cost_delta_monthly: Some(400_000),
                            affected_records_percent: None,
                        },
                    ),
                    700,
                ),
            );
        }
        proof {
            let spec = spark_shuffle_result(*ir);
            assert(finding_views(findings@) =~= spec.findings);
            assert(metric_views(metrics@) =~= spec.metrics);
        }
        let nf = findings.len();
        let summary = if nwide == 0 {
            String::from_str(NONE_SUMMARY)
        } else if nf == 0 {
            let s = counted_text("", nwide as u64, OK_SUMMARY_B);
            proof {
                assert(""@ =~= Seq::<char>::empty()) by {
                    reveal_strlit("");
                }
            }
            s
        } else {
            counted_text(ISSUES_A, nf as u64, ISSUES_B)
        };
        make_result(self.name(), self.version(), findings, metrics, summary, 750)
    }
}

/// The shuffle rules, one finding each: too few partitions when wide
/// transforms are present, too many partitions, the default left in place
/// under two or more wide transforms, and more than three wide transforms;
/// no other finding is reported.
pub proof fn lemma_spark_shuffle_rules(ir: PipelineIR, id: Seq<char>)
    ensures
        ({
            let f = spark_shuffle_result(ir).findings;
            let w = select(ir.nodes@, Selector::Custom("spark_wide_transform"@)).len();
            let p = configured_partitions(ir);
            has_id(f, "SPARK_SHUFFLE_PARTITIONS_TOO_LOW"@) <==> (p matches Some(x) && w > 0 && x < 10)
        }),
        ({
            let f = spark_shuffle_result(ir).findings;
            let p = configured_partitions(ir);
            has_id(f, "SPARK_SHUFFLE_PARTITIONS_EXCESSIVE"@) <==> (p matches Some(x) && x > 10_000)
        }),
        ({
            let f = spark_shuffle_result(ir).findings;
            let w = select(ir.nodes@, Selector::Custom("spark_wide_transform"@)).len();
            let p = configured_partitions(ir);
            has_id(f, "SPARK_SHUFFLE_PARTITIONS_UNCONFIGURED"@) <==> (p is None && w >= 2)
        }),
        ({
            let f = spark_shuffle_result(ir).findings;
            let w = select(ir.nodes@, Selector::Custom("spark_wide_transform"@)).len();
            has_id(f, "SPARK_MULTIPLE_WIDE_TRANSFORMS"@) <==> w > 3
        }),
        ({
            let f = spark_shuffle_result(ir).findings;
            has_id(f, id) ==> id == "SPARK_SHUFFLE_PARTITIONS_TOO_LOW"@ || id
                == "SPARK_SHUFFLE_PARTITIONS_EXCESSIVE"@ || id == "SPARK_SHUFFLE_PARTITIONS_UNCONFIGURED"@
                || id == "SPARK_MULTIPLE_WIDE_TRANSFORMS"@
        }),
{
    broadcast use crate::analyzer::group_has_id;

    reveal_strlit("SPARK_SHUFFLE_PARTITIONS_TOO_LOW");
    reveal_strlit("SPARK_SHUFFLE_PARTITIONS_EXCESSIVE");
    reveal_strlit("SPARK_SHUFFLE_PARTITIONS_UNCONFIGURED");
    reveal_strlit("SPARK_MULTIPLE_WIDE_TRANSFORMS");
    let wide = ids_at(ir.nodes@, select(ir.nodes@, Selector::Custom("spark_wide_transform"@)));
    assert(wide.len() == select(ir.nodes@, Selector::Custom("spark_wide_transform"@)).len());
    assert("SPARK_SHUFFLE_PARTITIONS_TOO_LOW"@[25] == 'T');
    assert("SPARK_SHUFFLE_PARTITIONS_EXCESSIVE"@[25] == 'E');
    assert("SPARK_SHUFFLE_PARTITIONS_UNCONFIGURED"@[25] == 'U');
    assert("SPARK_SHUFFLE_PARTITIONS_TOO_LOW"@ != "SPARK_SHUFFLE_PARTITIONS_EXCESSIVE"@);
    assert("SPARK_SHUFFLE_PARTITIONS_TOO_LOW"@ != "SPARK_SHUFFLE_PARTITIONS_UNCONFIGURED"@);
    assert("SPARK_SHUFFLE_PARTITIONS_TOO_LOW"@ != "SPARK_MULTIPLE_WIDE_TRANSFORMS"@);
    assert("SPARK_SHUFFLE_PARTITIONS_EXCESSIVE"@ != "SPARK_SHUFFLE_PARTITIONS_UNCONFIGURED"@);
    assert("SPARK_SHUFFLE_PARTITIONS_EXCESSIVE"@ != "SPARK_MULTIPLE_WIDE_TRANSFORMS"@);
    assert("SPARK_SHUFFLE_PARTITIONS_UNCONFIGURED"@ != "SPARK_MULTIPLE_WIDE_TRANSFORMS"@);
    let f = spark_shuffle_result(ir).findings;
    let p = configured_partitions(ir);
    assert(f == spark_shuffle_findings(p, wide));
}

} // verus!
