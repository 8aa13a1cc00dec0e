//! Flink checkpoint configuration: whether checkpointing is on for a
//! stateful job, and whether interval, mode and timeout are sound.
use crate::analyzer::{
    count_milli, count_value, counted, counted_text, finding_views, fixed_finding, flag,
    flag_value, impact, make_finding, make_result, metric_views, no_nodes, one_node, push_finding,
    push_metric, AnalysisContext, AnalysisResult, AnalysisResultView, Finding, FindingType,
    FindingView, Impact, Metric, RiskSeverity, id_if,
};
use crate::ir::{
    config_lookup, first_custom, hint_lookup, opt_str_view, select, value_str, value_u64,
    PipelineIR, Selector,
};
use crate::text::str_eq;
use vstd::prelude::*;

verus! {

/// Below this interval (ms), checkpoint barriers compete with processing.
pub const AGGRESSIVE_INTERVAL_MS: u64 = 1_000;

/// Above this interval (ms), a failure replays a large window of work.
pub const LONG_INTERVAL_MS: u64 = 600_000;

pub const DISABLED_TITLE: &'static str = "Stateful Flink pipeline without checkpointing enabled";
pub const DISABLED_DESC: &'static str = "This pipeline uses keyed/stateful operators (KeyedProcessFunction, ValueState, key_by, ...) but no `enable_checkpointing(...)` call was detected. Without checkpointing, a task failure loses all in-flight state and offsets -- there is no recovery point.";
pub const DISABLED_REC: &'static str = "Call `env.enable_checkpointing(<interval_ms>, CheckpointingMode.EXACTLY_ONCE)` before executing the job. A 30-120s interval is a reasonable starting point for most workloads.";
pub const AGGRESSIVE_TITLE_A: &'static str = "Checkpoint interval is very aggressive (";
pub const AGGRESSIVE_TITLE_B: &'static str = "ms)";
pub const AGGRESSIVE_DESC: &'static str = "Checkpointing more often than once per second forces frequent barrier alignment and state snapshotting, which competes with real processing for CPU/I/O and can increase backpressure under load.";
pub const AGGRESSIVE_REC: &'static str = "Increase the checkpoint interval to at least a few seconds (commonly 30-120s) unless you have measured that this workload tolerates frequent snapshots.";
pub const LONG_TITLE_A: &'static str = "Checkpoint interval is very long (";
pub const LONG_TITLE_B: &'static str = " minutes)";
pub const LONG_DESC: &'static str = "A long checkpoint interval means a failure can lose or force replay of a correspondingly large window of state and events, increasing recovery time and duplicate-processing risk.";
pub const LONG_REC: &'static str = "Reduce the interval so a worst-case restart replays a bounded, acceptable amount of data for your SLA -- 30-120s is typical for most streaming workloads.";
pub const ALO_TITLE: &'static str = "Checkpointing mode is AT_LEAST_ONCE";
pub const ALO_DESC: &'static str = "AT_LEAST_ONCE allows duplicate delivery of records on restore. This is only safe if every downstream sink is idempotent or deduplicates on a stable key.";
pub const ALO_REC: &'static str = "Switch to CheckpointingMode.EXACTLY_ONCE unless throughput is checkpoint-bound and all sinks are verified idempotent.";
pub const MODE_TITLE: &'static str = "Checkpointing mode not explicitly set";
pub const MODE_DESC: &'static str = "`enable_checkpointing(interval)` was called without an explicit CheckpointingMode. Flink defaults to EXACTLY_ONCE, but relying on the implicit default makes the guarantee easy to lose track of during refactors.";
pub const MODE_REC: &'static str = "Pass the mode explicitly: `env.enable_checkpointing(interval_ms, CheckpointingMode.EXACTLY_ONCE)`.";
pub const TIMEOUT_TITLE: &'static str = "No explicit checkpoint timeout configured";
pub const TIMEOUT_DESC: &'static str = "Without `set_checkpoint_timeout(...)`, Flink's default (10 minutes) applies. For pipelines with large state, checkpoints that run long under load can be silently aborted right when they're most needed.";
pub const TIMEOUT_REC: &'static str = "Set an explicit timeout via `env.get_checkpoint_config().set_checkpoint_timeout(<ms>)` sized to your largest expected state snapshot.";
pub const STATEFUL_NO_CKPT_SUMMARY: &'static str = "Stateful pipeline with no checkpointing configured";
pub const STATELESS_SUMMARY: &'static str = "No checkpointing configuration detected (stateless pipeline)";
pub const GOOD_SUMMARY: &'static str = "Checkpointing is configured and looks reasonable";
pub const ISSUES_A: &'static str = "Found ";
pub const ISSUES_B: &'static str = " checkpoint configuration issue(s)";

/// Analyzes Flink checkpoint configuration.
pub struct FlinkCheckpointAnalyzer;

pub open spec fn disabled_finding() -> FindingView {
    FindingView {
        id: "FLINK_CHECKPOINT_DISABLED"@,
        severity: RiskSeverity::Critical,
        finding_type: FindingType::ReliabilityRisk,
        title: DISABLED_TITLE@,
        description: DISABLED_DESC@,
        affected_nodes: seq![],
        recommendation: Some(DISABLED_REC@),
        estimated_impact: Some(impact(None, None, Some(100_000))),
        confidence: 850,
    }
}

pub open spec fn aggressive_finding(iv: u64, node: Seq<char>) -> FindingView {
    FindingView {
        id: "FLINK_CHECKPOINT_INTERVAL_TOO_AGGRESSIVE"@,
        severity: RiskSeverity::High,
        finding_type: FindingType::PerformanceRisk,
        title: counted(AGGRESSIVE_TITLE_A@, iv as nat, AGGRESSIVE_TITLE_B@),
        description: AGGRESSIVE_DESC@,
        affected_nodes: seq![node],
        recommendation: Some(AGGRESSIVE_REC@),
        estimated_impact: Some(impact(Some(1300), None, None)),
        confidence: 750,
    }
}

pub open spec fn long_finding(iv: u64, node: Seq<char>) -> FindingView {
    FindingView {
        id: "FLINK_CHECKPOINT_INTERVAL_TOO_LONG"@,
        severity: RiskSeverity::Medium,
        finding_type: FindingType::ReliabilityRisk,
        title: counted(LONG_TITLE_A@, (iv / 60_000) as nat, LONG_TITLE_B@),
        description: LONG_DESC@,
        affected_nodes: seq![node],
        recommendation: Some(LONG_REC@),
        estimated_impact: Some(impact(None, None, Some(5_000))),
        confidence: 700,
    }
}

pub open spec fn node_finding(id: Seq<char>, sev: RiskSeverity, ty: FindingType, title: Seq<char>, desc: Seq<char>, node: Seq<char>, rec: Seq<char>, conf: u32) -> FindingView {
    FindingView {
        id,
        severity: sev,
        finding_type: ty,
        title,
        description: desc,
        affected_nodes: seq![node],
        recommendation: Some(rec),
        estimated_impact: None,
        confidence: conf,
    }
}

/// The findings for a configured checkpoint node with id `node` and the
/// given interval, mode and timeout.
pub open spec fn configured_findings(
    node: Seq<char>,
    interval: Option<u64>,
    mode: Option<Seq<char>>,
    timeout: Option<u64>,
) -> Seq<FindingView> {
    let s1 = match interval {
        Some(iv) => if iv < AGGRESSIVE_INTERVAL_MS {
            seq![aggressive_finding(iv, node)]
        } else if iv > LONG_INTERVAL_MS {
            seq![long_finding(iv, node)]
        } else {
            Seq::empty()
        },
        None => Seq::empty(),
    };
    let s2 = match mode {
        Some(m) => if m == "AT_LEAST_ONCE"@ {
            s1.push(
                node_finding(
                    "FLINK_CHECKPOINT_AT_LEAST_ONCE"@,
                    RiskSeverity::Medium,
                    FindingType::ReliabilityRisk,
                    ALO_TITLE@,
                    ALO_DESC@,
                    node,
                    ALO_REC@,
                    650,
                ),
            )
        } else {
            s1
        },
        None => s1.push(
            node_finding(
                "FLINK_CHECKPOINT_MODE_UNSPECIFIED"@,
                RiskSeverity::Low,
                FindingType::ConfigurationIssue,
                MODE_TITLE@,
                MODE_DESC@,
                node,
                MODE_REC@,
                550,
            ),
        ),
    };
    if timeout is None {
        s2.push(
            node_finding(
                "FLINK_CHECKPOINT_NO_TIMEOUT_CONFIGURED"@,
                RiskSeverity::Low,
                FindingType::ConfigurationIssue,
                TIMEOUT_TITLE@,
                TIMEOUT_DESC@,
                node,
                TIMEOUT_REC@,
                550,
            ),
        )
    } else {
        s2
    }
}

/// What [`FlinkCheckpointAnalyzer::analyze`] reports for a pipeline.
pub open spec fn flink_checkpoint_result(ir: PipelineIR) -> AnalysisResultView {
    let stateful = hint_lookup(ir.metadata.runner_hints@, "has_state"@) == Some("true"@);
    let sel = select(ir.nodes@, Selector::Custom("flink_checkpoint_config"@));
    let configured = sel.len() > 0;
    let base = AnalysisResultView {
        analyzer_name: "FlinkCheckpointAnalyzer"@,
        version: "0.1.0"@,
        findings: Seq::empty(),
        metrics: seq![("checkpointing_configured"@, flag(configured))],
        summary: Seq::empty(),
        confidence: 800,
    };
    if !configured {
        AnalysisResultView {
            findings: if stateful {
                seq![disabled_finding()]
            } else {
                Seq::empty()
            },
            summary: if stateful {
                STATEFUL_NO_CKPT_SUMMARY@
            } else {
                STATELESS_SUMMARY@
            },
            ..base
        }
    } else {
        let node = ir.nodes@[sel[0] as int];
        let cfg = node.config.entries@;
        let interval = value_u64(config_lookup(cfg, "interval_ms"@));
        let findings = configured_findings(
            node.id@,
            interval,
            value_str(config_lookup(cfg, "mode"@)),
            value_u64(config_lookup(cfg, "timeout_ms"@)),
        );
        AnalysisResultView {
            findings,
            metrics: match interval {
                Some(iv) => base.metrics.push(("checkpoint_interval_ms"@, count_milli(iv as nat))),
                None => base.metrics,
            },
            summary: if findings.len() == 0 {
                GOOD_SUMMARY@
            } else {
                counted(ISSUES_A@, findings.len(), ISSUES_B@)
            },
            ..base
        }
    }
}

fn node_finding_exec(
    id: &str,
    sev: RiskSeverity,
    ty: FindingType,
    title: &str,
    desc: &str,
    node: &String,
    rec: &str,
    conf: u32,
) -> (f: Finding)
    ensures
        f@ == node_finding(id@, sev, ty, title@, desc@, node@, rec@, conf),
{
    fixed_finding(id, sev, ty, title, desc, one_node(node), Some(rec), None, conf)
}

impl FlinkCheckpointAnalyzer {
    pub fn name(&self) -> (r: &'static str)
        ensures
            r@ == "FlinkCheckpointAnalyzer"@,
    {
        "FlinkCheckpointAnalyzer"
    }

    pub fn version(&self) -> (r: &'static str)
        ensures
            r@ == "0.1.0"@,
    {
        "0.1.0"
    }

    pub fn priority(&self) -> (r: u32)
        ensures
            r == 20,
    {
        20
    }

    /// Reports checkpoint-configuration issues of a Flink pipeline.
    pub fn analyze(&self, ctx: &AnalysisContext) -> (r: AnalysisResult)
        ensures
            r@ == flink_checkpoint_result(ctx.pipeline_ir),
    {
        let ir = &ctx.pipeline_ir;
        let hint = ir.runner_hint("has_state");
        let is_stateful = match &hint {
            Some(v) => str_eq(v.as_str(), "true"),
            None => false,
        };
        let pos = first_custom(&ir.nodes, "flink_checkpoint_config");
        let mut metrics: Vec<Metric> = Vec::new();
        let mut findings: Vec<Finding> = Vec::new();
        push_metric(&mut metrics, "checkpointing_configured", flag_value(pos.is_some()));
        proof {
            assert(finding_views(findings@) =~= Seq::<FindingView>::empty());
        }
        match pos {
            None => {
                if is_stateful {
                    push_finding(
                        &mut findings,
                        fixed_finding(
                            "FLINK_CHECKPOINT_DISABLED",
                            RiskSeverity::Critical,
                            FindingType::ReliabilityRisk,
                            DISABLED_TITLE,
                            DISABLED_DESC,
                            no_nodes(),
                            Some(DISABLED_REC),
                            Some(
                                Impact {
                                    latency_multiplier: None,
                                    cost_delta_monthly: None,
                                    affected_records_percent: Some(100_000),
                                },
                            ),
                            850,
                        ),
                    );
                }
                let summary = if is_stateful {
                    String::from_str(STATEFUL_NO_CKPT_SUMMARY)
                } else {
                    String::from_str(STATELESS_SUMMARY)
                };
                proof {
                    assert(finding_views(findings@) =~= flink_checkpoint_result(*ir).findings);
                    assert(metric_views(metrics@) =~= flink_checkpoint_result(*ir).metrics);
                }
                make_result(self.name(), self.version(), findings, metrics, summary, 800)
            },
            Some(p) => {
                let node = &ir.nodes[p];
                let interval = node.config.get_u64("interval_ms");
                let mode = node.config.get_str("mode");
                let timeout = node.config.get_u64("timeout_ms");
                if let Some(iv) = interval {
                    push_metric(&mut metrics, "checkpoint_interval_ms", count_value_u64(iv));
                    if iv < AGGRESSIVE_INTERVAL_MS {
                        let t = counted_text(AGGRESSIVE_TITLE_A, iv, AGGRESSIVE_TITLE_B);
                        push_finding(
                            &mut findings,
                            make_finding(
                                "FLINK_CHECKPOINT_INTERVAL_TOO_AGGRESSIVE",
                                RiskSeverity::High,
                                FindingType::PerformanceRisk,
                                t,
                                String::from_str(AGGRESSIVE_DESC),
                                one_node(&node.id),
                                Some(AGGRESSIVE_REC),
                                Some(
                                    Impact {
                                        latency_multiplier: Some(1300),
                                        cost_delta_monthly: None,
                                        affected_records_percent: None,
                                    },
                                ),
                                750,
                            ),
                        );
                    } else if iv > LONG_INTERVAL_MS {
                        let t = counted_text(LONG_TITLE_A, iv / 60_000, LONG_TITLE_B);
                        push_finding(
                            &mut findings,
                            make_finding(
                                "FLINK_CHECKPOINT_INTERVAL_TOO_LONG",
                                RiskSeverity::Medium,
                                FindingType::ReliabilityRisk,
                                t,
                                String::from_str(LONG_DESC),
                                one_node(&node.id),
                                Some(LONG_REC),
                                Some(
                                    Impact {
                                        latency_multiplier: None,
                                        cost_delta_monthly: None,
                                        affected_records_percent: Some(5_000),
                                    },
                                ),
                                700,
                            ),
                        );
                    }
                }
                match &mode {
                    Some(m) => {
                        if str_eq(m.as_str(), "AT_LEAST_ONCE") {
                            push_finding(
                                &mut findings,
                                node_finding_exec(
                                    "FLINK_CHECKPOINT_AT_LEAST_ONCE",
                                    RiskSeverity::Medium,
                                    FindingType::ReliabilityRisk,
                                    ALO_TITLE,
                                    ALO_DESC,
                                    &node.id,
                                    ALO_REC,
                                    650,
                                ),
                            );
                        }
                    },
                    None => {
                        push_finding(
                            &mut findings,
                            node_finding_exec(
                                "FLINK_CHECKPOINT_MODE_UNSPECIFIED",
                                RiskSeverity::Low,
                                FindingType::ConfigurationIssue,
                                MODE_TITLE,
                                MODE_DESC,
                                &node.id,
                                MODE_REC,
                                550,
                            ),
                        );
                    },
                }
                if timeout.is_none() {
                    push_finding(
                        &mut findings,
                        node_finding_exec(
                            "FLINK_CHECKPOINT_NO_TIMEOUT_CONFIGURED",
                            RiskSeverity::Low,
                            FindingType::ConfigurationIssue,
                            TIMEOUT_TITLE,
                            TIMEOUT_DESC,
                            &node.id,
                            TIMEOUT_REC,
                            550,
                        ),
                    );
                }
                proof {
                    let spec = flink_checkpoint_result(*ir);
                    assert(finding_views(findings@) =~= spec.findings);
                    assert(metric_views(metrics@) =~= spec.metrics);
                }
                let n = findings.len();
                let summary = if n == 0 {
                    String::from_str(GOOD_SUMMARY)
                } else {
                    counted_text(ISSUES_A, n as u64, ISSUES_B)
                };
                make_result(self.name(), self.version(), findings, metrics, summary, 800)
            },
        }
    }
}

/// A `u64` count as a metric value in thousandths (saturating).
pub fn count_value_u64(n: u64) -> (r: i64)
    ensures
        r == count_milli(n as nat),
{
    if n as u128 * 1000 <= i64::MAX as u128 {
        (n as u128 * 1000) as i64
    } else {
        i64::MAX
    }
}

/// Without a checkpoint configuration, a stateful pipeline gets exactly one,
/// critical, finding and a stateless one gets none.
pub proof fn lemma_unconfigured_checkpointing(ir: PipelineIR)
    requires
        select(ir.nodes@, Selector::Custom("flink_checkpoint_config"@)).len() == 0,
    ensures
        hint_lookup(ir.metadata.runner_hints@, "has_state"@) == Some("true"@) ==> flink_checkpoint_result(
            ir,
        ).findings.len() == 1 && flink_checkpoint_result(ir).findings[0].id == "FLINK_CHECKPOINT_DISABLED"@
            && flink_checkpoint_result(ir).findings[0].severity == RiskSeverity::Critical,
        hint_lookup(ir.metadata.runner_hints@, "has_state"@) != Some("true"@) ==> flink_checkpoint_result(
            ir,
        ).findings.len() == 0,
{
}

/// With a checkpoint configuration, its first node alone decides the
/// findings, in this order: an interval under a second, an interval over ten
/// minutes, at-least-once mode, no mode, no timeout. Whether the job keeps
/// state no longer matters.
pub proof fn lemma_configured_checkpointing(ir: PipelineIR)
    requires
        select(ir.nodes@, Selector::Custom("flink_checkpoint_config"@)).len() > 0,
    ensures
        ({
            let n = ir.nodes@[select(ir.nodes@, Selector::Custom("flink_checkpoint_config"@))[0] as int];
            let cfg = n.config.entries@;
            let iv = value_u64(config_lookup(cfg, "interval_ms"@));
            let mode = value_str(config_lookup(cfg, "mode"@));
            let timeout = value_u64(config_lookup(cfg, "timeout_ms"@));
            flink_checkpoint_result(ir).findings.map_values(|f: FindingView| f.id) == id_if(
                iv matches Some(x) && x < 1_000,
                "FLINK_CHECKPOINT_INTERVAL_TOO_AGGRESSIVE"@,
            ) + id_if(iv matches Some(x) && x > 600_000, "FLINK_CHECKPOINT_INTERVAL_TOO_LONG"@) + id_if(
                mode == Some("AT_LEAST_ONCE"@),
                "FLINK_CHECKPOINT_AT_LEAST_ONCE"@,
            ) + id_if(mode is None, "FLINK_CHECKPOINT_MODE_UNSPECIFIED"@) + id_if(
                timeout is None,
                "FLINK_CHECKPOINT_NO_TIMEOUT_CONFIGURED"@,
            )
        }),
{
    let n = ir.nodes@[select(ir.nodes@, Selector::Custom("flink_checkpoint_config"@))[0] as int];
    let cfg = n.config.entries@;
    let iv = value_u64(config_lookup(cfg, "interval_ms"@));
    let mode = value_str(config_lookup(cfg, "mode"@));
    let timeout = value_u64(config_lookup(cfg, "timeout_ms"@));
    let f = configured_findings(n.id@, iv, mode, timeout);
    assert(flink_checkpoint_result(ir).findings == f);
    let s1 = match iv {
        Some(x) => if x < 1_000 {
            seq![aggressive_finding(x, n.id@)]
        } else if x > 600_000 {
            seq![long_finding(x, n.id@)]
        } else {
            Seq::empty()
        },
        None => Seq::empty(),
    };
    let i1 = id_if(iv matches Some(x) && x < 1_000, "FLINK_CHECKPOINT_INTERVAL_TOO_AGGRESSIVE"@) + id_if(
        iv matches Some(x) && x > 600_000,
        "FLINK_CHECKPOINT_INTERVAL_TOO_LONG"@,
    );
    assert(s1.map_values(|f: FindingView| f.id) =~= i1);
    let i2 = i1 + id_if(mode == Some("AT_LEAST_ONCE"@), "FLINK_CHECKPOINT_AT_LEAST_ONCE"@) + id_if(
        mode is None,
        "FLINK_CHECKPOINT_MODE_UNSPECIFIED"@,
    );
    assert(f.map_values(|f: FindingView| f.id) =~= i2 + id_if(
        timeout is None,
        "FLINK_CHECKPOINT_NO_TIMEOUT_CONFIGURED"@,
    ));
}

} // verus!
