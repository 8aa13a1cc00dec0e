//! Flink state: the state backend and hot keys in `key_by(...)` streams.
use crate::analyzer::{
    count_milli, counted, counted_text, finding_views, fixed_finding, flag, flag_value, impact,
    make_finding, make_result, metric_views, no_nodes, one_node, push_finding, push_metric,
    AnalysisContext, AnalysisResult, AnalysisResultView, DataProfile, Finding, FindingType,
    FindingView, Impact, Metric, RiskSeverity,
};
use crate::analyzers::hotkey::{any_match, matches_any, measured_cardinality};
use crate::ir::{
    config_lookup, custom_positions, first_custom, opt_str_view, select, value_bool, value_str,
    PipelineIR, Selector, TransformNode,
};
use crate::rules::{default_high_risk_patterns, pattern_texts, HotKeyRules};
use crate::text::{contains, decimal, decimal_text, str_contains, str_eq};
use vstd::prelude::*;

verus! {

/// A measured key cardinality below this is critical.
pub const LOW_CARDINALITY: u64 = 1_000;

/// A measured key cardinality at or above this downgrades a high-risk key.
pub const DOWNGRADE_CARDINALITY: u64 = 100_000;

pub const UNSPEC_TITLE: &'static str = "No explicit state backend configured";
pub const UNSPEC_DESC: &'static str = "This pipeline uses keyed state but no `set_state_backend(...)` call was found. The default varies by Flink version/cluster config, which makes state size and checkpoint behavior unpredictable across environments.";
pub const UNSPEC_REC: &'static str = "Explicitly configure a state backend: EmbeddedRocksDBStateBackend for state that may exceed heap, HashMapStateBackend for small, fast-access state.";
pub const HEAP_TITLE_A: &'static str = "Heap-bound state backend in use: ";
pub const HEAP_DESC_B: &'static str = " keeps all state as Java objects on the JVM heap. If keyed state grows beyond available heap (many distinct keys, large per-key state, or long windows), the TaskManager will hit OutOfMemoryError.";
pub const HEAP_REC: &'static str = "Switch to EmbeddedRocksDBStateBackend for state that can grow large or is hard to bound in advance -- it spills to local disk instead of requiring everything in heap.";
pub const FS_TITLE: &'static str = "FsStateBackend is deprecated";
pub const FS_DESC: &'static str = "FsStateBackend was deprecated in Flink 1.13+ in favor of the unified HashMapStateBackend (same semantics) plus a separate checkpoint storage configuration.";
pub const FS_REC: &'static str = "Migrate to HashMapStateBackend with `set_checkpoint_storage(...)` pointed at your durable filesystem.";
pub const ROCKS_TITLE: &'static str = "RocksDB state backend without incremental checkpoints";
pub const ROCKS_DESC: &'static str = "Without incremental checkpointing, RocksDB uploads the full state snapshot on every checkpoint instead of just the delta. As state grows, checkpoint duration and I/O grow with it.";
pub const ROCKS_REC: &'static str = "Enable incremental checkpoints, e.g. `EmbeddedRocksDBStateBackend(True)` / `env.get_checkpoint_config().enable_incremental_checkpointing(True)`.";
pub const LOWCARD_TITLE_A: &'static str = "Measured key cardinality (";
pub const LOWCARD_TITLE_B: &'static str = ") on key_by('";
pub const LOWCARD_TITLE_C: &'static str = "') is dangerously low";
pub const LOWCARD_DESC_A: &'static str = "The supplied data profile reports only ";
pub const LOWCARD_DESC_B: &'static str = " distinct key(s) for this keyed stream. Flink assigns each key to exactly one subtask's state, so this concentrates both processing and state on a handful of subtasks.";
pub const LOWCARD_REC: &'static str = "Add a synthetic sharding dimension to the key (e.g. hash(payload) % N) to spread keyed state across more subtasks.";
pub const HOT_TITLE_A: &'static str = "Keyed state on '";
pub const HOT_TITLE_B: &'static str = "' may concentrate load";
pub const HOT_DESC_A: &'static str = "`key_by(";
pub const HOT_DESC_B: &'static str = ")` partitions state by a domain that commonly has skewed cardinality (a few keys carry disproportionate traffic). Flink pins each key's state and processing to one subtask, so a hot key becomes a hot subtask.";
pub const HOT_REC: &'static str = "Consider a two-stage key: shard the hot key with a salted sub-key for local aggregation, then re-key on the original field for the final combine.";
pub const NONE_SUMMARY: &'static str = "No state backend or keyed-state risks detected";
pub const SUMMARY_A: &'static str = "Found ";
pub const SUMMARY_B: &'static str = " state-related risk(s)";

/// Analyzes the Flink state backend and keyed state.
pub struct FlinkStateAnalyzer;

/// The text `o` holds, or `d`.
pub open spec fn str_or(o: Option<Seq<char>>, d: Seq<char>) -> Seq<char> {
    match o {
        Some(s) => s,
        None => d,
    }
}

/// The string setting `key` of a node, or `unknown`.
pub open spec fn setting(n: TransformNode, key: Seq<char>) -> Seq<char> {
    str_or(value_str(config_lookup(n.config.entries@, key)), "unknown"@)
}

pub open spec fn on_node(
    id: Seq<char>,
    sev: RiskSeverity,
    ty: FindingType,
    title: Seq<char>,
    desc: Seq<char>,
    node: Seq<char>,
    rec: Seq<char>,
    imp: Option<Impact>,
    conf: u32,
) -> FindingView {
    FindingView {
        id,
        severity: sev,
        finding_type: ty,
        title,
        description: desc,
        affected_nodes: seq![node],
        recommendation: Some(rec),
        estimated_impact: imp,
        confidence: conf,
    }
}

/// The findings about the state backend: none configured while keyed state
/// is used; a heap-bound backend; the deprecated FsStateBackend; RocksDB
/// without incremental checkpoints.
pub open spec fn backend_findings(ir: PipelineIR, keyed: bool) -> Seq<FindingView> {
    let pos = select(ir.nodes@, Selector::Custom("flink_state_backend"@));
    backend_node_findings(
        if pos.len() == 0 {
            None
        } else {
            Some(ir.nodes@[pos[0] as int])
        },
        keyed,
    )
}

/// The findings about the state backend configured by `node`, if any:
/// without one, keyed state gets an unspecified-backend finding; with one, a
/// heap-bound backend, the deprecated filesystem backend, and RocksDB without
/// incremental checkpoints are reported, in that order.
pub open spec fn backend_node_findings(node: Option<TransformNode>, keyed: bool) -> Seq<FindingView> {
    if node is None {
        if keyed {
            seq![
                FindingView {
                    id: "FLINK_STATE_BACKEND_UNSPECIFIED"@,
                    severity: RiskSeverity::Medium,
                    finding_type: FindingType::ConfigurationIssue,
                    title: UNSPEC_TITLE@,
                    description: UNSPEC_DESC@,
                    affected_nodes: Seq::empty(),
                    recommendation: Some(UNSPEC_REC@),
                    estimated_impact: None,
                    confidence: 650,
                },
            ]
        } else {
            Seq::empty()
        }
    } else {
        let n = node->0;
        let b = setting(n, "backend"@);
        let inc = value_bool(config_lookup(n.config.entries@, "incremental"@));
        let s0 = if b == "HashMapStateBackend"@ || b == "MemoryStateBackend"@ {
            seq![
                on_node(
                    "FLINK_STATE_BACKEND_HEAP_RISK"@,
                    RiskSeverity::High,
                    FindingType::ScalabilityRisk,
                    HEAP_TITLE_A@ + b,
                    b + HEAP_DESC_B@,
                    n.id@,
                    HEAP_REC@,
                    Some(impact(None, None, Some(100_000))),
                    700,
                ),
            ]
        } else {
            Seq::empty()
        };
        let s1 = if b == "FsStateBackend"@ {
            s0.push(
                on_node(
                    "FLINK_STATE_BACKEND_DEPRECATED_FS"@,
                    RiskSeverity::Low,
                    FindingType::ConfigurationIssue,
                    FS_TITLE@,
                    FS_DESC@,
                    n.id@,
                    FS_REC@,
                    None,
                    600,
                ),
            )
        } else {
            s0
        };
        if contains(b, "RocksDB"@) && inc != Some(true) {
            s1.push(
                on_node(
                    "FLINK_STATE_BACKEND_ROCKSDB_NO_INCREMENTAL"@,
                    RiskSeverity::Medium,
                    FindingType::PerformanceRisk,
                    ROCKS_TITLE@,
                    ROCKS_DESC@,
                    n.id@,
                    ROCKS_REC@,
                    Some(impact(None, Some(200_000), None)),
                    650,
                ),
            )
        } else {
            s1
        }
    }
}

/// The risk of keying state by `key` on node `node`: a measured cardinality
/// in `1..1000` is critical; a high-risk key pattern is high (medium when
/// the measured cardinality is at least 100000); otherwise no risk.
pub open spec fn flink_key_risk(key: Seq<char>, card: Option<u64>, node: Seq<char>) -> Option<FindingView> {
    if card is Some && 0 < card->0 && card->0 < LOW_CARDINALITY {
        let c = decimal(card->0 as nat);
        Some(
            on_node(
                "FLINK_KEYED_STATE_LOW_CARDINALITY_MEASURED"@,
                RiskSeverity::Critical,
                FindingType::PerformanceRisk,
                LOWCARD_TITLE_A@ + c + LOWCARD_TITLE_B@ + key + LOWCARD_TITLE_C@,
                LOWCARD_DESC_A@ + c + LOWCARD_DESC_B@,
                node,
                LOWCARD_REC@,
                Some(impact(Some(4000), None, Some(100_000))),
                880,
            ),
        )
    } else if any_match(key, default_high_risk_patterns()) {
        Some(
            on_node(
                "FLINK_KEYED_STATE_HOT_KEY_RISK"@,
                if card is Some && card->0 >= DOWNGRADE_CARDINALITY {
                    RiskSeverity::Medium
                } else {
                    RiskSeverity::High
                },
                FindingType::PerformanceRisk,
                HOT_TITLE_A@ + key + HOT_TITLE_B@,
                HOT_DESC_A@ + key + HOT_DESC_B@,
                node,
                HOT_REC@,
                Some(impact(Some(2500), None, Some(5_000))),
                if card is Some {
                    850
                } else {
                    750
                },
            ),
        )
    } else {
        None
    }
}

/// The key risks of the keyed-state nodes at `keyed`, in order.
pub open spec fn keyed_findings(ir: PipelineIR, keyed: Seq<usize>, card: Option<u64>) -> Seq<FindingView>
    decreases keyed.len(),
{
    if keyed.len() == 0 {
        Seq::empty()
    } else {
        let r = keyed_findings(ir, keyed.drop_last(), card);
        let n = ir.nodes@[keyed.last() as int];
        match flink_key_risk(setting(n, "key_expr"@), card, n.id@) {
            Some(f) => r.push(f),
            None => r,
        }
    }
}

/// What [`FlinkStateAnalyzer::analyze`] reports for a pipeline and profile.
pub open spec fn flink_state_result(ir: PipelineIR, profile: Option<DataProfile>) -> AnalysisResultView {
    let keyed = select(ir.nodes@, Selector::Custom("flink_keyed_state"@));
    let backend = select(ir.nodes@, Selector::Custom("flink_state_backend"@));
    let findings = backend_findings(ir, keyed.len() > 0) + keyed_findings(
        ir,
        keyed,
        measured_cardinality(profile),
    );
    AnalysisResultView {
        analyzer_name: "FlinkStateAnalyzer"@,
        version: "0.1.0"@,
        findings,
        metrics: seq![
            ("keyed_state_count"@, count_milli(keyed.len())),
            ("state_backend_configured"@, flag(backend.len() > 0)),
        ],
        summary: if findings.len() == 0 {
            NONE_SUMMARY@
        } else {
            counted(SUMMARY_A@, findings.len(), SUMMARY_B@)
        },
        confidence: 780,
    }
}

/// The string setting `key` of a node, or `unknown`.
fn setting_text(n: &TransformNode, key: &str) -> (r: String)
    ensures
        r@ == setting(*n, key@),
{
    match n.config.get_str(key) {
        Some(s) => s,
        None => String::from_str("unknown"),
    }
}

impl FlinkStateAnalyzer {
    pub fn name(&self) -> (r: &'static str)
        ensures
            r@ == "FlinkStateAnalyzer"@,
    {
        "FlinkStateAnalyzer"
    }

    pub fn version(&self) -> (r: &'static str)
        ensures
            r@ == "0.1.0"@,
    {
        "0.1.0"
    }

    pub fn priority(&self) -> (r: u32)
        ensures
            r == 21,
    {
        21
    }

    /// The key risk of keyed-state node `node` keyed by `key_expr` (see
    /// [`flink_key_risk`]).
    pub fn assess_key_risk(&self, node: &TransformNode, key_expr: &str, profile: Option<&DataProfile>) -> (r: Option<Finding>)
        ensures
            match r {
                Some(f) => flink_key_risk(
                    key_expr@,
                    match profile {
                        Some(p) => p.key_cardinality,
                        None => None,
                    },
                    node.id@,
                ) == Some(f@),
                None => flink_key_risk(
                    key_expr@,
                    match profile {
                        Some(p) => p.key_cardinality,
                        None => None,
                    },
                    node.id@,
                ) is None,
            },
    {
        let card: Option<u64> = match profile {
            Some(p) => p.key_cardinality,
            None => None,
        };
        if let Some(c) = card {
            if c > 0 && c < LOW_CARDINALITY {
                let cs = decimal_text(c);
                let mut title = String::from_str(LOWCARD_TITLE_A);
                title.append(cs.as_str());
                title.append(LOWCARD_TITLE_B);
                title.append(key_expr);
                title.append(LOWCARD_TITLE_C);
                let desc = crate::text::concat3(LOWCARD_DESC_A, cs.as_str(), LOWCARD_DESC_B);
                return Some(
                    make_finding(
                        "FLINK_KEYED_STATE_LOW_CARDINALITY_MEASURED",
                        RiskSeverity::Critical,
                        FindingType::PerformanceRisk,
                        title,
                        desc,
                        one_node(&node.id),
                        Some(LOWCARD_REC),
                        Some(
                            Impact {
                                latency_multiplier: Some(4000),
                                cost_delta_monthly: None,
                                affected_records_percent: Some(100_000),
                            },
                        ),
                        880,
                    ),
                );
            }
        }
        let pats = HotKeyRules::default_rules().high_risk_patterns;
        if matches_any(key_expr, &pats) {
            let down = match card {
                Some(c) => c >= DOWNGRADE_CARDINALITY,
                None => false,
            };
            return Some(
                make_finding(
                    "FLINK_KEYED_STATE_HOT_KEY_RISK",
                    if down {
                        RiskSeverity::Medium
                    } else {
                        RiskSeverity::High
                    },
                    FindingType::PerformanceRisk,
                    crate::text::concat3(HOT_TITLE_A, key_expr, HOT_TITLE_B),
                    crate::text::concat3(HOT_DESC_A, key_expr, HOT_DESC_B),
                    one_node(&node.id),
                    Some(HOT_REC),
                    Some(
                        Impact {
                            latency_multiplier: Some(2500),
                            cost_delta_monthly: None,
                            affected_records_percent: Some(5_000),
                        },
                    ),
                    if card.is_some() {
                        850
                    } else {
                        750
                    },
                ),
            );
        }
        None
    }

    /// Records whether a state backend is configured and reports its risks
    /// (see [`backend_node_findings`]).
    pub fn analyze_state_backend(
        &self,
        backend_node: Option<&TransformNode>,
        has_keyed_state: bool,
        findings: &mut Vec<Finding>,
        metrics: &mut Vec<Metric>,
    )
        ensures
            finding_views(final(findings)@) == finding_views(old(findings)@) + backend_node_findings(
                match backend_node {
                    Some(n) => Some(*n),
                    None => None,
                },
                has_keyed_state,
            ),
            metric_views(final(metrics)@) == metric_views(old(metrics)@).push(
                ("state_backend_configured"@, flag(backend_node is Some)),
            ),
    {
        push_metric(metrics, "state_backend_configured", flag_value(backend_node.is_some()));
        let ghost start = finding_views(findings@);
        match backend_node {
            None => {
                if has_keyed_state {
                    push_finding(
                        findings,
                        fixed_finding(
                            "FLINK_STATE_BACKEND_UNSPECIFIED",
                            RiskSeverity::Medium,
                            FindingType::ConfigurationIssue,
                            UNSPEC_TITLE,
                            UNSPEC_DESC,
                            no_nodes(),
                            Some(UNSPEC_REC),
                            None,
                            650,
                        ),
                    );
                }
            },
            Some(n) => {
                let b = setting_text(n, "backend");
                let inc = n.config.get_bool("incremental");
                if str_eq(b.as_str(), "HashMapStateBackend") || str_eq(b.as_str(), "MemoryStateBackend") {
                    let mut title = String::from_str(HEAP_TITLE_A);
                    title.append(b.as_str());
                    let mut desc = b.clone();
                    desc.append(HEAP_DESC_B);
                    push_finding(
                        findings,
                        make_finding(
                            "FLINK_STATE_BACKEND_HEAP_RISK",
                            RiskSeverity::High,
                            FindingType::ScalabilityRisk,
                            title,
                            desc,
                            one_node(&n.id),
                            Some(HEAP_REC),
                            Some(
                                Impact {
                                    latency_multiplier: None,
                                    cost_delta_monthly: None,
                                    affected_records_percent: Some(100_000),
                                },
                            ),
                            700,
                        ),
                    );
                }
                if str_eq(b.as_str(), "FsStateBackend") {
                    push_finding(
                        findings,
                        fixed_finding(
                            "FLINK_STATE_BACKEND_DEPRECATED_FS",
                            RiskSeverity::Low,
                            FindingType::ConfigurationIssue,
                            FS_TITLE,
                            FS_DESC,
                            one_node(&n.id),
                            Some(FS_REC),
                            None,
                            600,
                        ),
                    );
                }
                let inc_on = match inc {
                    Some(v) => v,
                    None => false,
                };
                if str_contains(b.as_str(), "RocksDB") && !inc_on {
                    push_finding(
                        findings,
                        fixed_finding(
                            "FLINK_STATE_BACKEND_ROCKSDB_NO_INCREMENTAL",
                            RiskSeverity::Medium,
                            FindingType::PerformanceRisk,
                            ROCKS_TITLE,
                            ROCKS_DESC,
                            one_node(&n.id),
                            Some(ROCKS_REC),
                            Some(
                                Impact {
                                    latency_multiplier: None,
                                    cost_delta_monthly: Some(200_000),
                                    affected_records_percent: None,
                                },
                            ),
                            650,
                        ),
                    );
                }
            },
        }
        proof {
            assert(finding_views(findings@) =~= start + backend_node_findings(
                match backend_node {
                    Some(n) => Some(*n),
                    None => None,
                },
                has_keyed_state,
            ));
        }
    }

    /// Reports the state-backend and keyed-state risks of a pipeline.
    pub fn analyze(&self, ctx: &AnalysisContext) -> (r: AnalysisResult)
        ensures
            r@ == flink_state_result(ctx.pipeline_ir, ctx.data_profile),
    {
        let ir = &ctx.pipeline_ir;
        let profile: Option<&DataProfile> = match &ctx.data_profile {
            Some(p) => Some(p),
            None => None,
        };
        let keyed = custom_positions(&ir.nodes, "flink_keyed_state");
        let backend = first_custom(&ir.nodes, "flink_state_backend");
        let mut metrics: Vec<Metric> = Vec::new();
        push_metric(&mut metrics, "keyed_state_count", crate::analyzer::count_value(keyed.len()));
        let mut findings: Vec<Finding> = Vec::new();
        proof {
            assert(finding_views(findings@) =~= Seq::<FindingView>::empty());
        }
        let backend_node: Option<&TransformNode> = match backend {
            Some(p) => Some(&ir.nodes[p]),
            None => None,
        };
        self.analyze_state_backend(backend_node, keyed.len() > 0, &mut findings, &mut metrics);
        let ghost card = measured_cardinality(ctx.data_profile);
        let ghost s0 = finding_views(findings@);
        proof {
            assert(s0 =~= backend_findings(*ir, keyed@.len() > 0));
            assert(keyed_findings(*ir, keyed@.take(0), card) =~= Seq::<FindingView>::empty());
            assert(s0 + Seq::<FindingView>::empty() =~= s0);
        }
        let mut i: usize = 0;
        while i < keyed.len()
            invariant
                i <= keyed@.len(),
                forall|k: int| 0 <= k < keyed@.len() ==> #[trigger] keyed@[k] < ir.nodes@.len(),
                card == measured_cardinality(ctx.data_profile),
                profile == (match ctx.data_profile {
                    Some(p) => Some(&p),
                    None => None::<&DataProfile>,
                }),
                finding_views(findings@) == s0 + keyed_findings(*ir, keyed@.take(i as int), card),
            decreases keyed@.len() - i,
        {
            proof {
                assert(keyed@.take(i + 1).drop_last() =~= keyed@.take(i as int));
                assert(keyed@.take(i + 1).last() == keyed@[i as int]);
            }
            let n = &ir.nodes[keyed[i]];
            let key = setting_text(n, "key_expr");
            let ghost before = finding_views(findings@);
            if let Some(f) = self.assess_key_risk(n, key.as_str(), profile) {
                push_finding(&mut findings, f);
            }
            proof {
                assert(finding_views(findings@) =~= s0 + keyed_findings(*ir, keyed@.take(i + 1), card));
            }
            i = i + 1;
        }
        proof {
            assert(keyed@.take(keyed@.len() as int) =~= keyed@);
        }
        let nf = findings.len();
        let summary = if nf == 0 {
            String::from_str(NONE_SUMMARY)
        } else {
            counted_text(SUMMARY_A, nf as u64, SUMMARY_B)
        };
        proof {
            let spec = flink_state_result(*ir, ctx.data_profile);
            assert(metric_views(metrics@) =~= spec.metrics);
        }
        make_result(self.name(), self.version(), findings, metrics, summary, 780)
    }
}

/// A measured key cardinality below the low threshold makes keyed state
/// critical, whatever the key expression.
pub proof fn lemma_low_cardinality_is_critical(key: Seq<char>, c: u64, node: Seq<char>)
    requires
        0 < c < LOW_CARDINALITY,
    ensures
        flink_key_risk(key, Some(c), node) matches Some(f) && f.severity == RiskSeverity::Critical
            && f.id == "FLINK_KEYED_STATE_LOW_CARDINALITY_MEASURED"@,
{
}

} // verus!
