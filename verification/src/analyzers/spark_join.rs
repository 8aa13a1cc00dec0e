//! Spark joins: the broadcast threshold and skewed join keys.
use crate::analyzer::{
    count_milli, counted, counted_text, finding_views, fixed_finding, impact, make_finding,
    make_result, metric_views, one_node, push_finding, push_metric, AnalysisContext,
    AnalysisResult, AnalysisResultView, DataProfile, Finding, FindingType, FindingView, Impact,
    Metric, RiskSeverity,
};
use crate::analyzers::hotkey::{any_match, matches_any, measured_cardinality};
use crate::ir::{
    config_lookup, custom_positions, first_custom, select, value_bool, value_i64, value_str,
    PipelineIR, Selector, TransformNode,
};
use crate::rules::{pattern_texts, SparkJoinRules, SparkJoinRulesView};
use crate::text::{decimal, decimal_text};
use vstd::prelude::*;

verus! {

pub const DISABLED_TITLE: &'static str = "autoBroadcastJoinThreshold is disabled";
pub const DISABLED_DESC: &'static str = "Setting autoBroadcastJoinThreshold to -1 disables Spark's automatic broadcast-join optimization entirely. Every join falls back to a shuffle (sort-merge) join, even joins against a small dimension table that would otherwise avoid a shuffle.";
pub const DISABLED_REC: &'static str = "Re-enable automatic broadcast joins (remove the override, or set a sane threshold like the 10MB default) unless you've hit a specific broadcast-related failure. Use explicit broadcast() hints for the joins that need it instead of disabling the optimizer globally.";
pub const EXCESSIVE_TITLE_A: &'static str = "autoBroadcastJoinThreshold is very high (";
pub const EXCESSIVE_TITLE_B: &'static str = " MB)";
pub const EXCESSIVE_DESC: &'static str = "A high broadcast threshold means Spark will automatically collect and broadcast any table under that size to every executor. If a table grows past what executors can hold in memory, this causes driver/executor OOM instead of a slower-but-safe shuffle join.";
pub const EXCESSIVE_REC: &'static str = "Lower the threshold to a size you've verified is safe for your executor memory (typically tens to low hundreds of MB), and use explicit broadcast() hints for specific joins you've validated instead of a large blanket threshold.";
pub const BROADCAST_TITLE: &'static str = "Explicit broadcast join hint in use";
pub const BROADCAST_DESC: &'static str = "This join uses an explicit broadcast() or .hint(\"broadcast\") call. Confirm the broadcasted side is verifiably small (well under executor memory) -- an explicit hint bypasses Spark's size-based safety check.";
pub const BROADCAST_REC: &'static str = "Verify the broadcasted DataFrame's size with .count()/storage metrics before relying on this hint in production, and revisit if the upstream data source can grow unbounded.";
pub const LOWCARD_TITLE_A: &'static str = "Measured key cardinality (";
pub const LOWCARD_TITLE_B: &'static str = ") on join key '";
pub const LOWCARD_TITLE_C: &'static str = "' is dangerously low";
pub const LOWCARD_DESC_A: &'static str = "The supplied data profile reports only ";
pub const LOWCARD_DESC_B: &'static str = " distinct value(s) for the join key. A shuffle join partitions rows by this key, so this concentrates most of the join's data (and compute) onto a handful of tasks -- classic join skew.";
pub const LOWCARD_REC: &'static str = "Salt the skewed key (append a random suffix and explode the smaller side), or enable Adaptive Query Execution's skew join optimization (`spark.sql.adaptive.skewJoin.enabled=true`).";
pub const SKEW_TITLE_A: &'static str = "Join on '";
pub const SKEW_TITLE_B: &'static str = "' may be skewed";
pub const SKEW_DESC_A: &'static str = "Joining on '";
pub const SKEW_DESC_B: &'static str = "' matches a key domain that commonly has a long-tail distribution (a few values carry disproportionate row counts). A sort-merge/shuffle join on a skewed key produces straggler tasks that dominate the job's wall-clock time.";
pub const SKEW_REC: &'static str = "Enable AQE skew join handling (`spark.sql.adaptive.skewJoin.enabled=true`), or manually salt the join key if AQE isn't available.";
pub const NONE_SUMMARY: &'static str = "No join strategy or skew risks detected";
pub const SUMMARY_A: &'static str = "Found ";
pub const SUMMARY_B: &'static str = " join-related risk(s)";

/// Bytes in a MB.
pub const BYTES_PER_MB: i64 = 1_048_576;

/// Analyzes Spark join strategy against the join rules.
pub struct SparkJoinAnalyzer {
    pub rules: SparkJoinRules,
}

/// A signed amount in thousandths, saturating at the bounds of `i64`.
pub open spec fn signed_milli(x: i64) -> i64 {
    if x * 1000 > i64::MAX {
        i64::MAX
    } else if x * 1000 < i64::MIN {
        i64::MIN
    } else {
        (x * 1000) as i64
    }
}

pub open spec fn on_node(
    id: Seq<char>,
    sev: RiskSeverity,
    ty: FindingType,
    title: Seq<char>,
    desc: Seq<char>,
    node: Seq<char>,
    rec: Seq<char>,
    imp: Option<Impact>,
    conf: u32,
) -> FindingView {
    FindingView {
        id,
        severity: sev,
        finding_type: ty,
        title,
        description: desc,
        affected_nodes: seq![node],
        recommendation: Some(rec),
        estimated_impact: imp,
        confidence: conf,
    }
}

/// The risk of joining on `key` at node `node`: a measured cardinality
/// below the low threshold (and above 0) is critical; a high-risk key
/// pattern is high (medium when the measured cardinality reaches the
/// downgrade threshold); otherwise no risk.
pub open spec fn join_key_risk(rules: SparkJoinRulesView, key: Seq<char>, card: Option<u64>, node: Seq<char>) -> Option<FindingView> {
    if card is Some && 0 < card->0 && card->0 < rules.low_cardinality_threshold {
        let c = decimal(card->0 as nat);
        Some(
            on_node(
                "SPARK_JOIN_LOW_CARDINALITY_MEASURED"@,
                RiskSeverity::Critical,
                FindingType::PerformanceRisk,
                LOWCARD_TITLE_A@ + c + LOWCARD_TITLE_B@ + key + LOWCARD_TITLE_C@,
                LOWCARD_DESC_A@ + c + LOWCARD_DESC_B@,
                node,
                LOWCARD_REC@,
                Some(impact(Some(3500), None, Some(100_000))),
                850,
            ),
        )
    } else if any_match(key, rules.high_risk_patterns) {
        Some(
            on_node(
                "SPARK_JOIN_HIGH_RISK_KEY"@,
                if card is Some && card->0 >= rules.high_cardinality_downgrade_threshold {
                    RiskSeverity::Medium
                } else {
                    RiskSeverity::High
                },
                FindingType::PerformanceRisk,
                SKEW_TITLE_A@ + key + SKEW_TITLE_B@,
                SKEW_DESC_A@ + key + SKEW_DESC_B@,
                node,
                SKEW_REC@,
                Some(impact(Some(2500), None, Some(5_000))),
                if card is Some {
                    820
                } else {
                    720
                },
            ),
        )
    } else {
        None
    }
}

/// The join node carries an explicit broadcast hint.
pub open spec fn is_broadcast(n: TransformNode) -> bool {
    value_bool(config_lookup(n.config.entries@, "is_broadcast"@)) == Some(true)
}

pub open spec fn broadcast_finding(n: TransformNode) -> FindingView {
    on_node(
        "SPARK_EXPLICIT_BROADCAST_USED"@,
        RiskSeverity::Info,
        FindingType::ConfigurationIssue,
        BROADCAST_TITLE@,
        BROADCAST_DESC@,
        n.id@,
        BROADCAST_REC@,
        None,
        550,
    )
}

/// The findings for the join nodes at `joins`, in order: a broadcast hint,
/// or else the risk of the join key when one is set.
pub open spec fn join_findings(rules: SparkJoinRulesView, ir: PipelineIR, joins: Seq<usize>, card: Option<u64>) -> Seq<
    FindingView,
>
    decreases joins.len(),
{
    if joins.len() == 0 {
        Seq::empty()
    } else {
        let r = join_findings(rules, ir, joins.drop_last(), card);
        let n = ir.nodes@[joins.last() as int];
        if is_broadcast(n) {
            r.push(broadcast_finding(n))
        } else {
            match value_str(config_lookup(n.config.entries@, "key_expr"@)) {
                Some(k) => match join_key_risk(rules, k, card, n.id@) {
                    Some(f) => r.push(f),
                    None => r,
                },
                None => r,
            }
        }
    }
}

/// The configured broadcast threshold and the node that sets it, if any.
pub open spec fn broadcast_threshold(ir: PipelineIR) -> Option<(i64, Seq<char>)> {
    let pos = select(ir.nodes@, Selector::Custom("spark_broadcast_threshold_config"@));
    if pos.len() == 0 {
        None
    } else {
        let n = ir.nodes@[pos[0] as int];
        match value_i64(config_lookup(n.config.entries@, "threshold_bytes"@)) {
            Some(t) => Some((t, n.id@)),
            None => None,
        }
    }
}

/// The findings about the broadcast threshold: disabled (negative) or above
/// the high-risk size.
pub open spec fn threshold_findings(rules: SparkJoinRulesView, ir: PipelineIR) -> Seq<FindingView> {
    match broadcast_threshold(ir) {
        Some((t, id)) => if t < 0 {
            seq![
                on_node(
                    "SPARK_BROADCAST_THRESHOLD_DISABLED"@,
                    RiskSeverity::Medium,
                    FindingType::PerformanceRisk,
                    DISABLED_TITLE@,
                    DISABLED_DESC@,
                    id,
                    DISABLED_REC@,
                    Some(impact(Some(1500), None, None)),
                    650,
                ),
            ]
        } else if t > rules.broadcast_threshold_high_risk_bytes {
            seq![
                on_node(
                    "SPARK_BROADCAST_THRESHOLD_EXCESSIVE"@,
                    RiskSeverity::High,
                    FindingType::ReliabilityRisk,
                    EXCESSIVE_TITLE_A@ + decimal((t / BYTES_PER_MB) as nat) + EXCESSIVE_TITLE_B@,
                    EXCESSIVE_DESC@,
                    id,
                    EXCESSIVE_REC@,
                    Some(impact(None, None, None)),
                    680,
                ),
            ]
        } else {
            Seq::empty()
        },
        None => Seq::empty(),
    }
}

/// What [`SparkJoinAnalyzer::analyze`] reports for a pipeline and profile.
pub open spec fn spark_join_result(rules: SparkJoinRulesView, ir: PipelineIR, profile: Option<DataProfile>) -> AnalysisResultView {
    let joins = select(ir.nodes@, Selector::Custom("spark_join"@));
    let findings = threshold_findings(rules, ir) + join_findings(
        rules,
        ir,
        joins,
        measured_cardinality(profile),
    );
    let m0 = seq![("join_count"@, count_milli(joins.len()))];
    AnalysisResultView {
        analyzer_name: "SparkJoinAnalyzer"@,
        version: "0.1.0"@,
        findings,
        metrics: match broadcast_threshold(ir) {
            Some((t, _)) => m0.push(("broadcast_threshold_bytes"@, signed_milli(t))),
            None => m0,
        },
        summary: if findings.len() == 0 {
            NONE_SUMMARY@
        } else {
            counted(SUMMARY_A@, findings.len(), SUMMARY_B@)
        },
        confidence: 720,
    }
}

fn signed_milli_exec(x: i64) -> (r: i64)
    ensures
        r == signed_milli(x),
{
    let w = x as i128 * 1000;
    if w > i64::MAX as i128 {
        i64::MAX
    } else if w < i64::MIN as i128 {
        i64::MIN
    } else {
        w as i64
    }
}

impl SparkJoinAnalyzer {
    /// A join analyzer using the given rules.
    pub fn new(rules: SparkJoinRules) -> (r: SparkJoinAnalyzer)
        ensures
            r.rules@ == rules@,
    {
        SparkJoinAnalyzer { rules }
    }

    pub fn name(&self) -> (r: &'static str)
        ensures
            r@ == "SparkJoinAnalyzer"@,
    {
        "SparkJoinAnalyzer"
    }

    pub fn version(&self) -> (r: &'static str)
        ensures
            r@ == "0.1.0"@,
    {
        "0.1.0"
    }

    pub fn priority(&self) -> (r: u32)
        ensures
            r == 31,
    {
        31
    }

    /// The risk of joining on `key_expr` at `node` (see [`join_key_risk`]).
    pub fn assess_join_key_risk(&self, node: &TransformNode, key_expr: &str, profile: Option<&DataProfile>) -> (r: Option<Finding>)
        ensures
            match r {
                Some(f) => join_key_risk(
                    self.rules@,
                    key_expr@,
                    match profile {
                        Some(p) => p.key_cardinality,
                        None => None,
                    },
                    node.id@,
                ) == Some(f@),
                None => join_key_risk(
                    self.rules@,
                    key_expr@,
                    match profile {
                        Some(p) => p.key_cardinality,
                        None => None,
                    },
                    node.id@,
                ) is None,
            },
    {
        let card: Option<u64> = match profile {
            Some(p) => p.key_cardinality,
            None => None,
        };
        if let Some(c) = card {
            if c > 0 && c < self.rules.low_cardinality_threshold {
                let cs = decimal_text(c);
                let mut title = String::from_str(LOWCARD_TITLE_A);
                title.append(cs.as_str());
                title.append(LOWCARD_TITLE_B);
                title.append(key_expr);
                title.append(LOWCARD_TITLE_C);
                let desc = crate::text::concat3(LOWCARD_DESC_A, cs.as_str(), LOWCARD_DESC_B);
                return Some(
                    make_finding(
                        "SPARK_JOIN_LOW_CARDINALITY_MEASURED",
                        RiskSeverity::Critical,
                        FindingType::PerformanceRisk,
                        title,
                        desc,
                        one_node(&node.id),
                        Some(LOWCARD_REC),
                        Some(
                            Impact {
                                latency_multiplier: Some(3500),
                                cost_delta_monthly: None,
                                affected_records_percent: Some(100_000),
                            },
                        ),
                        850,
                    ),
                );
            }
        }
        if matches_any(key_expr, &self.rules.high_risk_patterns) {
            let down = match card {
                Some(c) => c >= self.rules.high_cardinality_downgrade_threshold,
                None => false,
            };
            return Some(
                make_finding(
                    "SPARK_JOIN_HIGH_RISK_KEY",
                    if down {
                        RiskSeverity::Medium
                    } else {
                        RiskSeverity::High
                    },
                    FindingType::PerformanceRisk,
                    crate::text::concat3(SKEW_TITLE_A, key_expr, SKEW_TITLE_B),
                    crate::text::concat3(SKEW_DESC_A, key_expr, SKEW_DESC_B),
                    one_node(&node.id),
                    Some(SKEW_REC),
                    Some(
                        Impact {
                            latency_multiplier: Some(2500),
                            cost_delta_monthly: None,
                            affected_records_percent: Some(5_000),
                        },
                    ),
                    if card.is_some() {
                        820
                    } else {
                        720
                    },
                ),
            );
        }
        None
    }

    /// Reports the join strategy and join-key skew risks of a Spark pipeline.
    pub fn analyze(&self, ctx: &AnalysisContext) -> (r: AnalysisResult)
        ensures
            r@ == spark_join_result(self.rules@, ctx.pipeline_ir, ctx.data_profile),
    {
        let ir = &ctx.pipeline_ir;
        let profile: Option<&DataProfile> = match &ctx.data_profile {
            Some(p) => Some(p),
            None => None,
        };
        let joins = custom_positions(&ir.nodes, "spark_join");
        let mut metrics: Vec<Metric> = Vec::new();
        push_metric(&mut metrics, "join_count", crate::analyzer::count_value(joins.len()));
        let mut findings: Vec<Finding> = Vec::new();
        proof {
            assert(finding_views(findings@) =~= Seq::<FindingView>::empty());
        }
        if let Some(p) = first_custom(&ir.nodes, "spark_broadcast_threshold_config") {
            let n = &ir.nodes[p];
            if let Some(t) = n.config.get_i64("threshold_bytes") {
                push_metric(&mut metrics, "broadcast_threshold_bytes", signed_milli_exec(t));
                if t < 0 {
                    push_finding(
                        &mut findings,
                        fixed_finding(
                            "SPARK_BROADCAST_THRESHOLD_DISABLED",
                            RiskSeverity::Medium,
                            FindingType::PerformanceRisk,
                            DISABLED_TITLE,
                            DISABLED_DESC,
                            one_node(&n.id),
                            Some(DISABLED_REC),
                            Some(
                                Impact {
                                    latency_multiplier: Some(1500),
                                    cost_delta_monthly: None,
                                    affected_records_percent: None,
                                },
                            ),
                            650,
                        ),
                    );
                } else if t > self.rules.broadcast_threshold_high_risk_bytes {
                    push_finding(
                        &mut findings,
                        make_finding(
                            "SPARK_BROADCAST_THRESHOLD_EXCESSIVE",
                            RiskSeverity::High,
                            FindingType::ReliabilityRisk,
                            counted_text(EXCESSIVE_TITLE_A, (t / BYTES_PER_MB) as u64, EXCESSIVE_TITLE_B),
                            String::from_str(EXCESSIVE_DESC),
                            one_node(&n.id),
                            Some(EXCESSIVE_REC),
                            Some(
                                Impact {
                                    latency_multiplier: None,
                                    cost_delta_monthly: None,
                                    affected_records_percent: None,
                                },
                            ),
                            680,
                        ),
                    );
                }
            }
        }
        let ghost card = measured_cardinality(ctx.data_profile);
        let ghost s0 = finding_views(findings@);
        proof {
            assert(s0 =~= threshold_findings(self.rules@, *ir));
            assert(metric_views(metrics@) =~= spark_join_result(self.rules@, *ir, ctx.data_profile).metrics);
            assert(join_findings(self.rules@, *ir, joins@.take(0), card) =~= Seq::<FindingView>::empty());
            assert(s0 + Seq::<FindingView>::empty() =~= s0);
        }
        let mut i: usize = 0;
        while i < joins.len()
            invariant
                i <= joins@.len(),
                forall|k: int| 0 <= k < joins@.len() ==> #[trigger] joins@[k] < ir.nodes@.len(),
                card == measured_cardinality(ctx.data_profile),
                profile == (match ctx.data_profile {
                    Some(p) => Some(&p),
                    None => None::<&DataProfile>,
                }),
                finding_views(findings@) == s0 + join_findings(self.rules@, *ir, joins@.take(i as int), card),
            decreases joins@.len() - i,
        {
            proof {
                assert(joins@.take(i + 1).drop_last() =~= joins@.take(i as int));
                assert(joins@.take(i + 1).last() == joins@[i as int]);
            }
            let n = &ir.nodes[joins[i]];
            let broadcast = match n.config.get_bool("is_broadcast") {
                Some(b) => b,
                None => false,
            };
            if broadcast {
                push_finding(
                    &mut findings,
                    fixed_finding(
                        "SPARK_EXPLICIT_BROADCAST_USED",
                        RiskSeverity::Info,
                        FindingType::ConfigurationIssue,
                        BROADCAST_TITLE,
                        BROADCAST_DESC,
                        one_node(&n.id),
                        Some(BROADCAST_REC),
                        None,
                        550,
                    ),
                );
            } else if let Some(k) = n.config.get_str("key_expr") {
                if let Some(f) = self.assess_join_key_risk(n, k.as_str(), profile) {
                    push_finding(&mut findings, f);
                }
            }
            proof {
                assert(finding_views(findings@) =~= s0 + join_findings(
                    self.rules@,
                    *ir,
                    joins@.take(i + 1),
                    card,
                ));
            }
            i = i + 1;
        }
        proof {
            assert(joins@.take(joins@.len() as int) =~= joins@);
        }
        let nf = findings.len();
        let summary = if nf == 0 {
            String::from_str(NONE_SUMMARY)
        } else {
            counted_text(SUMMARY_A, nf as u64, SUMMARY_B)
        };
        make_result(self.name(), self.version(), findings, metrics, summary, 720)
    }
}

/// A measured key cardinality below the low threshold makes a join critical,
/// whatever the key expression.
pub proof fn lemma_low_cardinality_is_critical(
    rules: SparkJoinRulesView,
    key: Seq<char>,
    c: u64,
    node: Seq<char>,
)
    requires
        0 < c < rules.low_cardinality_threshold,
    ensures
        join_key_risk(rules, key, Some(c), node) matches Some(f) && f.severity
            == RiskSeverity::Critical && f.id == "SPARK_JOIN_LOW_CARDINALITY_MEASURED"@,
{
}

/// Broadcast joins skip the key-skew heuristic: when every join is a
/// broadcast join, each join yields exactly its broadcast notice.
pub proof fn lemma_broadcast_joins_skip_key_risk(
    rules: SparkJoinRulesView,
    ir: PipelineIR,
    joins: Seq<usize>,
    card: Option<u64>,
)
    requires
        forall|k: int| 0 <= k < joins.len() ==> is_broadcast(#[trigger] ir.nodes@[joins[k] as int]),
    ensures
        join_findings(rules, ir, joins, card).len() == joins.len(),
        forall|k: int|
            0 <= k < joins.len() ==> #[trigger] join_findings(rules, ir, joins, card)[k] == broadcast_finding(
                ir.nodes@[joins[k] as int],
            ),
    decreases joins.len(),
{
    if joins.len() > 0 {
        let p = joins.drop_last();
        assert forall|k: int| 0 <= k < p.len() implies is_broadcast(#[trigger] ir.nodes@[p[k] as int]) by {
            assert(p[k] == joins[k]);
        }
        lemma_broadcast_joins_skip_key_risk(rules, ir, p, card);
        assert(is_broadcast(ir.nodes@[joins[joins.len() - 1] as int]));
        assert forall|k: int| 0 <= k < joins.len() implies #[trigger] join_findings(rules, ir, joins, card)[k]
            == broadcast_finding(ir.nodes@[joins[k] as int]) by {
            if k < p.len() {
                assert(p[k] == joins[k]);
            }
        }
    }
}

/// With no join in the pipeline, the broadcast threshold alone decides the
/// findings: a negative threshold is reported as disabled (medium), one above
/// the high-risk size as excessive (high), any other as nothing; the
/// threshold itself is recorded as a metric after the join count.
pub proof fn lemma_spark_join_threshold(rules: SparkJoinRulesView, ir: PipelineIR, profile: Option<DataProfile>)
    requires
        select(ir.nodes@, Selector::Custom("spark_join"@)).len() == 0,
    ensures
        ({
            let r = spark_join_result(rules, ir, profile);
            match broadcast_threshold(ir) {
                Some((t, _)) => {
                    &&& r.metrics.len() == 2
                    &&& r.metrics[1] == ("broadcast_threshold_bytes"@, signed_milli(t))
                    &&& t < 0 ==> r.findings.len() == 1 && r.findings[0].id
                        == "SPARK_BROADCAST_THRESHOLD_DISABLED"@ && r.findings[0].severity
                        == RiskSeverity::Medium
                    &&& 0 <= t && t > rules.broadcast_threshold_high_risk_bytes ==> r.findings.len() == 1
                        && r.findings[0].id == "SPARK_BROADCAST_THRESHOLD_EXCESSIVE"@
                        && r.findings[0].severity == RiskSeverity::High
                    &&& 0 <= t <= rules.broadcast_threshold_high_risk_bytes ==> r.findings.len() == 0
                },
                None => r.findings.len() == 0 && r.metrics.len() == 1,
            }
        }),
{
    let joins = select(ir.nodes@, Selector::Custom("spark_join"@));
    let r = spark_join_result(rules, ir, profile);
    assert(join_findings(rules, ir, joins, measured_cardinality(profile)) =~= Seq::empty());
    assert(r.findings =~= threshold_findings(rules, ir));
}

} // verus!
