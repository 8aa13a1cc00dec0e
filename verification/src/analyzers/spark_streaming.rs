//! Spark Structured Streaming: checkpoint location, trigger, output mode,
//! and cached DataFrames that are never released.
use crate::analyzer::{
    count_milli, counted, counted_text, finding_views, fixed_finding, flag, flag_value, impact,
    make_finding, make_result, metric_views, one_node, push_finding, push_metric,
    AnalysisContext, AnalysisResult, AnalysisResultView, Finding, FindingType, FindingView,
    Impact, Metric, RiskSeverity, id_if,
};
use crate::analyzers::flink_checkpoint::count_value_u64;
use crate::ir::{config_lookup, first_custom, select, value_bool, value_str, value_u64, PipelineIR, Selector, TransformNode};
use crate::text::str_eq;
use vstd::prelude::*;

verus! {

pub const NO_CKPT_TITLE: &'static str = "Streaming query has no checkpointLocation";
pub const NO_CKPT_DESC: &'static str = "This writeStream query has no `.option(\"checkpointLocation\", ...)`. Without a checkpoint location, Spark cannot persist source offsets or state store data, so a restart re-reads from the source's default starting point and can duplicate or drop data.";
pub const NO_CKPT_REC: &'static str = "Add `.option(\"checkpointLocation\", \"<durable-path>\")` to every writeStream query -- this is required for exactly-once/at-least-once recovery guarantees.";
pub const NO_TRIGGER_TITLE: &'static str = "No explicit trigger configured";
pub const NO_TRIGGER_DESC: &'static str = "Without `.trigger(...)`, Spark uses the default micro-batch trigger, which starts a new batch as soon as the previous one finishes. For high-throughput sources this can starve cluster resources with back-to-back micro-batches and makes batch cadence unpredictable.";
pub const NO_TRIGGER_REC: &'static str = "Set an explicit trigger, e.g. `.trigger(processingTime=\"30 seconds\")`, sized to your latency/throughput tradeoff.";
pub const APPEND_TITLE: &'static str = "Streaming aggregation with append output mode and no watermark";
pub const APPEND_DESC: &'static str = "This query aggregates (groupBy) over a stream, uses (or defaults to) outputMode(\"append\"), and has no `.withWatermark(...)`. Spark Structured Streaming does not support append mode for aggregations unless a watermark bounds when a group is considered final -- this combination fails at query start with an AnalysisException.";
pub const APPEND_REC: &'static str = "Either add `.withWatermark(\"event_time\", \"<threshold>\")` before the aggregation and keep append mode, or switch to outputMode(\"update\")/outputMode(\"complete\") if you don't need append semantics.";
pub const NO_MODE_TITLE: &'static str = "No explicit output mode configured";
pub const NO_MODE_DESC: &'static str = "Without `.outputMode(...)`, Spark defaults to \"append\". Relying on the implicit default makes it easy to end up with the wrong semantics after the query is later changed to include an aggregation.";
pub const NO_MODE_REC: &'static str = "Set the output mode explicitly: append, update, or complete, based on the query's semantics.";
pub const CACHE_TITLE_B: &'static str = " cache()/persist() call(s) with no matching unpersist()";
pub const CACHE_DESC: &'static str = "Cached/persisted DataFrames stay in executor memory/disk until explicitly unpersisted or evicted by LRU. In a long-running or streaming job, repeatedly caching new DataFrames without releasing old ones accumulates storage pressure over time.";
pub const CACHE_REC: &'static str = "Call `.unpersist()` once a cached DataFrame is no longer needed, or use a `with`-style scope/context to tie its lifetime to the code that needs it.";
pub const GOOD_SUMMARY: &'static str = "Streaming/caching configuration looks reasonable";
pub const SUMMARY_A: &'static str = "Found ";
pub const SUMMARY_B: &'static str = " streaming/caching configuration issue(s)";

/// Analyzes Spark Structured Streaming queries and DataFrame caching.
pub struct SparkStreamingAnalyzer;

/// The boolean setting `key` of a node (false when absent).
pub open spec fn bool_setting(n: TransformNode, key: Seq<char>) -> bool {
    value_bool(config_lookup(n.config.entries@, key)) == Some(true)
}

pub open spec fn on_node(
    id: Seq<char>,
    sev: RiskSeverity,
    ty: FindingType,
    title: Seq<char>,
    desc: Seq<char>,
    node: Seq<char>,
    rec: Seq<char>,
    imp: Option<Impact>,
    conf: u32,
) -> FindingView {
    FindingView {
        id,
        severity: sev,
        finding_type: ty,
        title,
        description: desc,
        affected_nodes: seq![node],
        recommendation: Some(rec),
        estimated_impact: imp,
        confidence: conf,
    }
}

/// The findings about a streaming query node: no checkpoint location, no
/// trigger, then either an aggregation in append mode (explicit or
/// defaulted) without a watermark, or else no explicit output mode.
pub open spec fn query_findings(n: TransformNode) -> Seq<FindingView> {
    let mode = value_str(config_lookup(n.config.entries@, "output_mode"@));
    let s0 = if !bool_setting(n, "has_checkpoint_location"@) {
        seq![
            on_node(
                "SPARK_STREAMING_NO_CHECKPOINT_LOCATION"@,
                RiskSeverity::Critical,
                FindingType::ReliabilityRisk,
                NO_CKPT_TITLE@,
                NO_CKPT_DESC@,
                n.id@,
                NO_CKPT_REC@,
                Some(impact(None, None, Some(100_000))),
                850,
            ),
        ]
    } else {
        Seq::empty()
    };
    let s1 = if !bool_setting(n, "trigger_configured"@) {
        s0.push(
            on_node(
                "SPARK_STREAMING_NO_TRIGGER"@,
                RiskSeverity::Medium,
                FindingType::PerformanceRisk,
                NO_TRIGGER_TITLE@,
                NO_TRIGGER_DESC@,
                n.id@,
                NO_TRIGGER_REC@,
                None,
                550,
            ),
        )
    } else {
        s0
    };
    let append = match mode {
        Some(m) => m == "append"@,
        None => true,
    };
    if bool_setting(n, "has_aggregation"@) && append && !bool_setting(n, "has_watermark"@) {
        s1.push(
            on_node(
                "SPARK_AGGREGATION_APPEND_MODE_INCOMPATIBLE"@,
                RiskSeverity::High,
                FindingType::ReliabilityRisk,
                APPEND_TITLE@,
                APPEND_DESC@,
                n.id@,
                APPEND_REC@,
                Some(impact(None, None, Some(100_000))),
                800,
            ),
        )
    } else if mode is None {
        s1.push(
            on_node(
                "SPARK_STREAMING_NO_OUTPUT_MODE"@,
                RiskSeverity::Low,
                FindingType::ConfigurationIssue,
                NO_MODE_TITLE@,
                NO_MODE_DESC@,
                n.id@,
                NO_MODE_REC@,
                None,
                500,
            ),
        )
    } else {
        s1
    }
}

/// The number of cache calls recorded on a cache-usage node (0 when absent).
pub open spec fn cache_calls(n: TransformNode) -> u64 {
    match value_u64(config_lookup(n.config.entries@, "cache_call_count"@)) {
        Some(c) => c,
        None => 0,
    }
}

/// The finding about a cache-usage node: cached DataFrames never released.
pub open spec fn cache_findings(n: TransformNode) -> Seq<FindingView> {
    let c = cache_calls(n);
    if c > 0 && !bool_setting(n, "has_unpersist"@) {
        seq![
            on_node(
                "SPARK_CACHE_WITHOUT_UNPERSIST"@,
                RiskSeverity::Medium,
                FindingType::ReliabilityRisk,
                counted(Seq::empty(), c as nat, CACHE_TITLE_B@),
                CACHE_DESC@,
                n.id@,
                CACHE_REC@,
                Some(impact(None, Some(150_000), None)),
                550,
            ),
        ]
    } else {
        Seq::empty()
    }
}

/// What [`SparkStreamingAnalyzer::analyze`] reports for a pipeline.
pub open spec fn spark_streaming_result(ir: PipelineIR) -> AnalysisResultView {
    let q = select(ir.nodes@, Selector::Custom("spark_streaming_query"@));
    let c = select(ir.nodes@, Selector::Custom("spark_cache_usage"@));
    let qf = if q.len() > 0 {
        query_findings(ir.nodes@[q[0] as int])
    } else {
        Seq::empty()
    };
    let cf = if c.len() > 0 {
        cache_findings(ir.nodes@[c[0] as int])
    } else {
        Seq::empty()
    };
    let m0 = if q.len() > 0 {
        seq![
            ("is_streaming"@, 1000i64),
            (
                "checkpoint_location_configured"@,
                flag(bool_setting(ir.nodes@[q[0] as int], "has_checkpoint_location"@)),
            ),
        ]
    } else {
        seq![("is_streaming"@, 0i64)]
    };
    let findings = qf + cf;
    AnalysisResultView {
        analyzer_name: "SparkStreamingAnalyzer"@,
        version: "0.1.0"@,
        findings,
        metrics: if c.len() > 0 {
            m0.push(("cache_call_count"@, count_milli(cache_calls(ir.nodes@[c[0] as int]) as nat)))
        } else {
            m0
        },
        summary: if findings.len() == 0 {
            GOOD_SUMMARY@
        } else {
            counted(SUMMARY_A@, findings.len(), SUMMARY_B@)
        },
        confidence: 780,
    }
}

fn bool_setting_exec(n: &TransformNode, key: &str) -> (r: bool)
    ensures
        r == bool_setting(*n, key@),
{
    match n.config.get_bool(key) {
        Some(b) => b,
        None => false,
    }
}

impl SparkStreamingAnalyzer {
    pub fn name(&self) -> (r: &'static str)
        ensures
            r@ == "SparkStreamingAnalyzer"@,
    {
        "SparkStreamingAnalyzer"
    }

    pub fn version(&self) -> (r: &'static str)
        ensures
            r@ == "0.1.0"@,
    {
        "0.1.0"
    }

    pub fn priority(&self) -> (r: u32)
        ensures
            r == 32,
    {
        32
    }

    /// Appends the findings about streaming query node `node` and records
    /// its metrics.
    pub fn analyze_streaming_query(&self, node: &TransformNode, findings: &mut Vec<Finding>, metrics: &mut Vec<Metric>)
        ensures
            finding_views(final(findings)@) == finding_views(old(findings)@) + query_findings(*node),
            crate::analyzer::metric_views(final(metrics)@) == crate::analyzer::metric_views(old(metrics)@).push(
                ("is_streaming"@, 1000i64),
            ).push(
                ("checkpoint_location_configured"@, flag(bool_setting(*node, "has_checkpoint_location"@))),
            ),
    {
        let cp = bool_setting_exec(node, "has_checkpoint_location");
        let trig = bool_setting_exec(node, "trigger_configured");
        let agg = bool_setting_exec(node, "has_aggregation");
        let wm = bool_setting_exec(node, "has_watermark");
        let mode = node.config.get_str("output_mode");
        push_metric(metrics, "is_streaming", 1000);
        push_metric(metrics, "checkpoint_location_configured", flag_value(cp));
        let ghost f0 = finding_views(findings@);
        if !cp {
            push_finding(
                findings,
                fixed_finding(
                    "SPARK_STREAMING_NO_CHECKPOINT_LOCATION",
                    RiskSeverity::Critical,
                    FindingType::ReliabilityRisk,
                    NO_CKPT_TITLE,
                    NO_CKPT_DESC,
                    one_node(&node.id),
                    Some(NO_CKPT_REC),
                    Some(
                        Impact {
                            latency_multiplier: None,
                            cost_delta_monthly: None,
                            affected_records_percent: Some(100_000),
                        },
                    ),
                    850,
                ),
            );
        }
        if !trig {
            push_finding(
                findings,
                fixed_finding(
                    "SPARK_STREAMING_NO_TRIGGER",
                    RiskSeverity::Medium,
                    FindingType::PerformanceRisk,
                    NO_TRIGGER_TITLE,
                    NO_TRIGGER_DESC,
                    one_node(&node.id),
                    Some(NO_TRIGGER_REC),
                    None,
                    550,
                ),
            );
        }
        let append = match &mode {
            Some(m) => str_eq(m.as_str(), "append"),
            None => true,
        };
        if agg && append && !wm {
            push_finding(
                findings,
                fixed_finding(
                    "SPARK_AGGREGATION_APPEND_MODE_INCOMPATIBLE",
                    RiskSeverity::High,
                    FindingType::ReliabilityRisk,
                    APPEND_TITLE,
                    APPEND_DESC,
                    one_node(&node.id),
                    Some(APPEND_REC),
                    Some(
                        Impact {
                            latency_multiplier: None,
                            cost_delta_monthly: None,
                            affected_records_percent: Some(100_000),
                        },
                    ),
                    800,
                ),
            );
        } else if mode.is_none() {
            push_finding(
                findings,
                fixed_finding(
                    "SPARK_STREAMING_NO_OUTPUT_MODE",
                    RiskSeverity::Low,
                    FindingType::ConfigurationIssue,
                    NO_MODE_TITLE,
                    NO_MODE_DESC,
                    one_node(&node.id),
                    Some(NO_MODE_REC),
                    None,
                    500,
                ),
            );
        }
        proof {
            assert(finding_views(findings@) =~= f0 + query_findings(*node));
        }
    }

    /// Appends the finding about cache-usage node `node` and records its
    /// metric.
    pub fn analyze_cache_usage(&self, node: &TransformNode, findings: &mut Vec<Finding>, metrics: &mut Vec<Metric>)
        ensures
            finding_views(final(findings)@) == finding_views(old(findings)@) + cache_findings(*node),
            crate::analyzer::metric_views(final(metrics)@) == crate::analyzer::metric_views(old(metrics)@).push(
                ("cache_call_count"@, count_milli(cache_calls(*node) as nat)),
            ),
    {
        let c = match node.config.get_u64("cache_call_count") {
            Some(c) => c,
            None => 0,
        };
        let unpersist = bool_setting_exec(node, "has_unpersist");
        push_metric(metrics, "cache_call_count", count_value_u64(c));
        let ghost f0 = finding_views(findings@);
        if c > 0 && !unpersist {
            let t = counted_text("", c, CACHE_TITLE_B);
            proof {
                assert(""@ =~= Seq::<char>::empty()) by {
                    reveal_strlit("");
                }
            }
            push_finding(
                findings,
                make_finding(
                    "SPARK_CACHE_WITHOUT_UNPERSIST",
                    RiskSeverity::Medium,
                    FindingType::ReliabilityRisk,
                    t,
                    String::from_str(CACHE_DESC),
                    one_node(&node.id),
                    Some(CACHE_REC),
                    Some(
                        Impact {
                            latency_multiplier: None,
                            cost_delta_monthly: Some(150_000),
                            affected_records_percent: None,
                        },
                    ),
                    550,
                ),
            );
        }
        proof {
            assert(finding_views(findings@) =~= f0 + cache_findings(*node));
        }
    }

    /// Reports the streaming-query and caching issues of a Spark pipeline.
    pub fn analyze(&self, ctx: &AnalysisContext) -> (r: AnalysisResult)
        ensures
            r@ == spark_streaming_result(ctx.pipeline_ir),
    {
        let ir = &ctx.pipeline_ir;
        let mut findings: Vec<Finding> = Vec::new();
        let mut metrics: Vec<Metric> = Vec::new();
        proof {
            assert(finding_views(findings@) =~= Seq::<FindingView>::empty());
            assert(metric_views(metrics@) =~= Seq::<(Seq<char>, i64)>::empty());
        }
        match first_custom(&ir.nodes, "spark_streaming_query") {
            Some(p) => self.analyze_streaming_query(&ir.nodes[p], &mut findings, &mut metrics),
            None => push_metric(&mut metrics, "is_streaming", 0),
        }
        match first_custom(&ir.nodes, "spark_cache_usage") {
            Some(p) => self.analyze_cache_usage(&ir.nodes[p], &mut findings, &mut metrics),
            None => {},
        }
        proof {
            let spec = spark_streaming_result(*ir);
            assert(finding_views(findings@) =~= spec.findings);
            assert(metric_views(metrics@) =~= spec.metrics);
        }
        let nf = findings.len();
        let summary = if nf == 0 {
            String::from_str(GOOD_SUMMARY)
        } else {
            counted_text(SUMMARY_A, nf as u64, SUMMARY_B)
        };
        make_result(self.name(), self.version(), findings, metrics, summary, 780)
    }
}

/// The ids of the findings about a streaming query node, in order: no
/// checkpoint location, no trigger, then an aggregation appending without a
/// watermark or else no explicit output mode.
pub open spec fn query_finding_ids(n: TransformNode) -> Seq<Seq<char>> {
    let mode = value_str(config_lookup(n.config.entries@, "output_mode"@));
    let append_agg = bool_setting(n, "has_aggregation"@) && (mode is None || mode == Some("append"@))
        && !bool_setting(n, "has_watermark"@);
    id_if(!bool_setting(n, "has_checkpoint_location"@), "SPARK_STREAMING_NO_CHECKPOINT_LOCATION"@) + id_if(
        !bool_setting(n, "trigger_configured"@),
        "SPARK_STREAMING_NO_TRIGGER"@,
    ) + id_if(append_agg, "SPARK_AGGREGATION_APPEND_MODE_INCOMPATIBLE"@) + id_if(
        !append_agg && mode is None,
        "SPARK_STREAMING_NO_OUTPUT_MODE"@,
    )
}

/// The streaming rules: the first query node's findings, then the first
/// cache node's cached-without-unpersist finding; with neither node there
/// is nothing to report.
pub proof fn lemma_spark_streaming_rules(ir: PipelineIR)
    ensures
        ({
            let nodes = ir.nodes@;
            let q = select(nodes, Selector::Custom("spark_streaming_query"@));
            let c = select(nodes, Selector::Custom("spark_cache_usage"@));
            spark_streaming_result(ir).findings.map_values(|f: FindingView| f.id) == (if q.len() > 0 {
                query_finding_ids(nodes[q[0] as int])
            } else {
                Seq::empty()
            }) + (if c.len() > 0 {
                id_if(
                    cache_calls(nodes[c[0] as int]) > 0 && !bool_setting(nodes[c[0] as int], "has_unpersist"@),
                    "SPARK_CACHE_WITHOUT_UNPERSIST"@,
                )
            } else {
                Seq::empty()
            })
        }),
{
    let nodes = ir.nodes@;
    let q = select(nodes, Selector::Custom("spark_streaming_query"@));
    let c = select(nodes, Selector::Custom("spark_cache_usage"@));
    let qf = if q.len() > 0 {
        query_findings(nodes[q[0] as int])
    } else {
        Seq::empty()
    };
    let cf = if c.len() > 0 {
        cache_findings(nodes[c[0] as int])
    } else {
        Seq::empty()
    };
    assert(spark_streaming_result(ir).findings == qf + cf);
    if q.len() > 0 {
        let n = nodes[q[0] as int];
        let f = query_findings(n);
        let ids = query_finding_ids(n);
        assert(f.map_values(|x: FindingView| x.id) =~= ids);
    }
    assert((qf + cf).map_values(|x: FindingView| x.id) =~= qf.map_values(|x: FindingView| x.id) + cf.map_values(
        |x: FindingView| x.id,
    ));
}

} // verus!
