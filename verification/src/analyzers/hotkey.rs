//! Hot keys: aggregations whose key concentrates traffic on few workers.
use crate::analyzer::{
    count_milli, counted, counted_text, finding_views, make_finding, make_result, metric_views,
    no_nodes, push_finding, push_metric, AnalysisContext, AnalysisResult, AnalysisResultView,
    DataProfile, Finding, FindingType, FindingView, Impact, Metric, RiskSeverity, impact,
};
use crate::analyzers::flink_checkpoint::count_value_u64;
use crate::ir::{count_class, count_selected, NodeClass, PipelineIR, Selector, TransformNode, TransformType};
use crate::rules::{pattern_texts, HotKeyRules, HotKeyRulesView};
use crate::text::{contains, decimal, decimal_text, lower_contains, lower_text};
use vstd::prelude::*;

verus! {

pub const LOWCARD_TITLE_A: &'static str = "Measured key cardinality (";
pub const LOWCARD_TITLE_B: &'static str = ") on '";
pub const LOWCARD_TITLE_C: &'static str = "' is dangerously low";
pub const LOWCARD_DESC_A: &'static str = "The supplied data profile reports only ";
pub const LOWCARD_DESC_B: &'static str = " distinct key(s) for '";
pub const LOWCARD_DESC_C: &'static str = "'. With this few partitions, traffic concentrates on a handful of workers regardless of what the key expression looks like.";
pub const LOWCARD_REC: &'static str = "Add a synthetic sharding dimension (e.g., hash(payload) % N) to fan this key out across more partitions before aggregating.";
pub const HIGH_TITLE_A: &'static str = "High hot-key probability on '";
pub const QUOTE: &'static str = "'";
pub const HIGH_DOWN_DESC_A: &'static str = "Aggregating by '";
pub const HIGH_DOWN_DESC_B: &'static str = "' matches a high-risk key pattern, but the supplied data profile measured a large key cardinality (";
pub const HIGH_DOWN_DESC_C: &'static str = "), which reduces the likelihood of a small number of keys dominating traffic.";
pub const HIGH_DESC_B: &'static str = "' likely creates key skew. This key domain has high cardinality variance (e.g., some customers generate 100x more data than others), creating worker imbalance.";
pub const HIGH_REC: &'static str = "Apply key sharding strategy: append a UUID or hash to distribute load. Example: sharded_key = (customer_id, hash(data) % num_shards)";
pub const MEDIUM_TITLE_A: &'static str = "Moderate hot-key risk on '";
pub const MEDIUM_DESC_B: &'static str = "' may create time-based skew, especially with time zones or peak hours.";
pub const MEDIUM_REC: &'static str = "Monitor key distribution at runtime. Consider combining with a dimension to spread load (e.g., customer_id + hour).";
pub const LOW_TITLE_A: &'static str = "Low hot-key risk on '";
pub const LOW_DESC: &'static str = "Key domain appears well-distributed";
pub const NONE_SUMMARY: &'static str = "No obvious hot key risks detected";
pub const SUMMARY_A: &'static str = "Found ";
pub const SUMMARY_B: &'static str = " potential hot key risk(s)";

/// Assesses the keys of GroupByKey/CoGroupByKey transforms.
pub struct HotKeyAnalyzer {
    pub rules: HotKeyRules,
}

/// The lowercased key contains one of the patterns.
pub open spec fn any_match(key: Seq<char>, pats: Seq<Seq<char>>) -> bool {
    exists|i: int| 0 <= i < pats.len() && contains(lower_text(key), #[trigger] pats[i])
}

/// The key text of an optional key expression (`unknown` when absent).
pub open spec fn key_text(k: Option<String>) -> Seq<char> {
    match k {
        Some(s) => s@,
        None => "unknown"@,
    }
}

/// The measured key cardinality of an optional profile.
pub open spec fn measured_cardinality(p: Option<DataProfile>) -> Option<u64> {
    match p {
        Some(p) => p.key_cardinality,
        None => None,
    }
}

pub open spec fn hk_finding(
    id: Seq<char>,
    sev: RiskSeverity,
    title: Seq<char>,
    desc: Seq<char>,
    rec: Option<Seq<char>>,
    imp: Option<Impact>,
    conf: u32,
) -> FindingView {
    FindingView {
        id,
        severity: sev,
        finding_type: FindingType::PerformanceRisk,
        title,
        description: desc,
        affected_nodes: Seq::empty(),
        recommendation: rec,
        estimated_impact: imp,
        confidence: conf,
    }
}

/// The hot-key risk of aggregating by `key`, given a measured cardinality:
/// a measured cardinality in `1..low_cardinality_threshold` is critical;
/// otherwise a high-risk pattern is high (medium when the measured
/// cardinality reaches the downgrade threshold); otherwise a medium-risk
/// pattern is medium; otherwise the risk is informational.
pub open spec fn key_risk(rules: HotKeyRulesView, key: Seq<char>, card: Option<u64>) -> FindingView {
    if card is Some && 0 < card->0 && card->0 < rules.low_cardinality_threshold {
        let c = decimal(card->0 as nat);
        hk_finding(
            "HOTKEY_LOW_CARDINALITY_MEASURED"@,
            RiskSeverity::Critical,
            LOWCARD_TITLE_A@ + c + LOWCARD_TITLE_B@ + key + LOWCARD_TITLE_C@,
            LOWCARD_DESC_A@ + c + LOWCARD_DESC_B@ + key + LOWCARD_DESC_C@,
            Some(LOWCARD_REC@),
            Some(impact(Some(4000), Some(800_000), Some(100_000))),
            900,
        )
    } else if any_match(key, rules.high_risk_patterns) {
        let down = card is Some && card->0 >= rules.high_cardinality_downgrade_threshold;
        hk_finding(
            "HOTKEY_HIGH_RISK"@,
            if down {
                RiskSeverity::Medium
            } else {
                RiskSeverity::High
            },
            HIGH_TITLE_A@ + key + QUOTE@,
            if down {
                HIGH_DOWN_DESC_A@ + key + HIGH_DOWN_DESC_B@ + decimal(card->0 as nat)
                    + HIGH_DOWN_DESC_C@
            } else {
                HIGH_DOWN_DESC_A@ + key + HIGH_DESC_B@
            },
            Some(HIGH_REC@),
            Some(impact(Some(3000), Some(500_000), Some(5_000))),
            if card is Some {
                880
            } else {
                820
            },
        )
    } else if any_match(key, rules.medium_risk_patterns) {
        hk_finding(
            "HOTKEY_MEDIUM_RISK"@,
            RiskSeverity::Medium,
            MEDIUM_TITLE_A@ + key + QUOTE@,
            HIGH_DOWN_DESC_A@ + key + MEDIUM_DESC_B@,
            Some(MEDIUM_REC@),
            Some(impact(Some(1500), Some(200_000), None)),
            650,
        )
    } else {
        hk_finding(
            "HOTKEY_LOW_RISK"@,
            RiskSeverity::Info,
            LOW_TITLE_A@ + key + QUOTE@,
            LOW_DESC@,
            None,
            None,
            600,
        )
    }
}

/// The key expression of a grouping transform.
pub open spec fn grouping_key(t: TransformType) -> Option<Option<String>> {
    match t {
        TransformType::GroupByKey { key_expr } => Some(key_expr),
        TransformType::CoGroupByKey { key_expr } => Some(key_expr),
        _ => None,
    }
}

/// The non-informational key risks of the grouping transforms, in order.
pub open spec fn hotkey_findings(rules: HotKeyRulesView, nodes: Seq<TransformNode>, card: Option<u64>) -> Seq<
    FindingView,
>
    decreases nodes.len(),
{
    if nodes.len() == 0 {
        Seq::empty()
    } else {
        let r = hotkey_findings(rules, nodes.drop_last(), card);
        match grouping_key(nodes.last().node_type) {
            Some(k) => {
                let f = key_risk(rules, key_text(k), card);
                if f.severity != RiskSeverity::Info {
                    r.push(f)
                } else {
                    r
                }
            },
            None => r,
        }
    }
}

/// What [`HotKeyAnalyzer::analyze`] reports for a pipeline and profile.
pub open spec fn hotkey_result(rules: HotKeyRulesView, ir: PipelineIR, profile: Option<DataProfile>) -> AnalysisResultView {
    let card = measured_cardinality(profile);
    let findings = hotkey_findings(rules, ir.nodes@, card);
    let m = seq![
        ("groupbykey_count"@, count_milli(count_selected(ir.nodes@, Selector::Class(NodeClass::GroupByKey)))),
        ("cogroupbykey_count"@, count_milli(count_selected(ir.nodes@, Selector::Class(NodeClass::CoGroupByKey)))),
    ];
    AnalysisResultView {
        analyzer_name: "HotKeyAnalyzer"@,
        version: "0.1.0"@,
        findings,
        metrics: match card {
            Some(c) => m.push(("data_profile_key_cardinality"@, count_milli(c as nat))),
            None => m,
        },
        summary: if findings.len() == 0 {
            NONE_SUMMARY@
        } else {
            counted(SUMMARY_A@, findings.len(), SUMMARY_B@)
        },
        confidence: if card is Some {
            850
        } else {
            750
        },
    }
}

/// Whether the lowercased key contains one of the patterns.
pub fn matches_any(key: &str, pats: &Vec<String>) -> (r: bool)
    ensures
        r == any_match(key@, pattern_texts(pats@)),
{
    let mut i: usize = 0;
    while i < pats.len()
        invariant
            i <= pats@.len(),
            forall|j: int| 0 <= j < i ==> !contains(lower_text(key@), #[trigger] pats@[j]@),
        decreases pats@.len() - i,
    {
        if lower_contains(key, pats[i].as_str()) {
            assert(pattern_texts(pats@)[i as int] == pats@[i as int]@);
            return true;
        }
        i = i + 1;
    }
    proof {
        assert forall|j: int| 0 <= j < pattern_texts(pats@).len() implies !contains(
            lower_text(key@),
            #[trigger] pattern_texts(pats@)[j],
        ) by {
            assert(pattern_texts(pats@)[j] == pats@[j]@);
        }
    }
    false
}

/// `a`, `b`, `c`, `d`, `e` joined.
fn join5(a: &str, b: &str, c: &str, d: &str, e: &str) -> (r: String)
    ensures
        r@ == a@ + b@ + c@ + d@ + e@,
{
    let mut s = String::from_str(a);
    s.append(b);
    s.append(c);
    s.append(d);
    s.append(e);
    s
}

impl HotKeyAnalyzer {
    /// A hot-key analyzer using the given rules.
    pub fn new(rules: HotKeyRules) -> (r: HotKeyAnalyzer)
        ensures
            r.rules@ == rules@,
    {
        HotKeyAnalyzer { rules }
    }

    pub fn name(&self) -> (r: &'static str)
        ensures
            r@ == "HotKeyAnalyzer"@,
    {
        "HotKeyAnalyzer"
    }

    pub fn version(&self) -> (r: &'static str)
        ensures
            r@ == "0.1.0"@,
    {
        "0.1.0"
    }

    pub fn priority(&self) -> (r: u32)
        ensures
            r == 2,
    {
        2
    }

    /// The hot-key risk of aggregating by `key_expr` (see [`key_risk`]).
    pub fn assess_key_risk(&self, key_expr: &Option<String>, profile: Option<&DataProfile>) -> (f: Finding)
        ensures
            f@ == key_risk(
                self.rules@,
                key_text(*key_expr),
                match profile {
                    Some(p) => p.key_cardinality,
                    None => None,
                },
            ),
    {
        let key: &str = match key_expr {
            Some(k) => k.as_str(),
            None => "unknown",
        };
        let card: Option<u64> = match profile {
            Some(p) => p.key_cardinality,
            None => None,
        };
        if let Some(c) = card {
            if c > 0 && c < self.rules.low_cardinality_threshold {
                let cs = decimal_text(c);
                let title = join5(LOWCARD_TITLE_A, cs.as_str(), LOWCARD_TITLE_B, key, LOWCARD_TITLE_C);
                let desc = join5(LOWCARD_DESC_A, cs.as_str(), LOWCARD_DESC_B, key, LOWCARD_DESC_C);
                return make_finding(
                    "HOTKEY_LOW_CARDINALITY_MEASURED",
                    RiskSeverity::Critical,
                    FindingType::PerformanceRisk,
                    title,
                    desc,
                    no_nodes(),
                    Some(LOWCARD_REC),
                    Some(
                        Impact {
                            latency_multiplier: Some(4000),
                            cost_delta_monthly: Some(800_000),
                            affected_records_percent: Some(100_000),
                        },
                    ),
                    900,
                );
            }
        }
        if matches_any(key, &self.rules.high_risk_patterns) {
            let down = match card {
                Some(c) => c >= self.rules.high_cardinality_downgrade_threshold,
                None => false,
            };
            let title = crate::text::concat3(HIGH_TITLE_A, key, QUOTE);
            let desc = if down {
                let cs = match card {
                    Some(c) => decimal_text(c),
                    None => decimal_text(0),
                };
                join5(HIGH_DOWN_DESC_A, key, HIGH_DOWN_DESC_B, cs.as_str(), HIGH_DOWN_DESC_C)
            } else {
                crate::text::concat3(HIGH_DOWN_DESC_A, key, HIGH_DESC_B)
            };
            return make_finding(
                "HOTKEY_HIGH_RISK",
                if down {
                    RiskSeverity::Medium
                } else {
                    RiskSeverity::High
                },
                FindingType::PerformanceRisk,
                title,
                desc,
                no_nodes(),
                Some(HIGH_REC),
                Some(
                    Impact {
                        latency_multiplier: Some(3000),
                        cost_delta_monthly: Some(500_000),
                        affected_records_percent: Some(5_000),
                    },
                ),
                if card.is_some() {
                    880
                } else {
                    820
                },
            );
        }
        if matches_any(key, &self.rules.medium_risk_patterns) {
            return make_finding(
                "HOTKEY_MEDIUM_RISK",
                RiskSeverity::Medium,
                FindingType::PerformanceRisk,
                crate::text::concat3(MEDIUM_TITLE_A, key, QUOTE),
                crate::text::concat3(HIGH_DOWN_DESC_A, key, MEDIUM_DESC_B),
                no_nodes(),
                Some(MEDIUM_REC),
                Some(
                    Impact {
                        latency_multiplier: Some(1500),
                        cost_delta_monthly: Some(200_000),
                        affected_records_percent: None,
                    },
                ),
                650,
            );
        }
        make_finding(
            "HOTKEY_LOW_RISK",
            RiskSeverity::Info,
            FindingType::PerformanceRisk,
            crate::text::concat3(LOW_TITLE_A, key, QUOTE),
            String::from_str(LOW_DESC),
            no_nodes(),
            None,
            None,
            600,
        )
    }

    /// Reports the hot-key risks of a pipeline.
    pub fn analyze(&self, ctx: &AnalysisContext) -> (r: AnalysisResult)
        ensures
            r@ == hotkey_result(self.rules@, ctx.pipeline_ir, ctx.data_profile),
    {
        let ir = &ctx.pipeline_ir;
        let profile: Option<&DataProfile> = match &ctx.data_profile {
            Some(p) => Some(p),
            None => None,
        };
        let card = measured_cardinality_of(&ctx.data_profile);
        let mut findings: Vec<Finding> = Vec::new();
        let mut i: usize = 0;
        proof {
            assert(finding_views(findings@) =~= Seq::<FindingView>::empty());
            assert(hotkey_findings(self.rules@, ir.nodes@.take(0), card) =~= Seq::<FindingView>::empty());
        }
        while i < ir.nodes.len()
            invariant
                i <= ir.nodes@.len(),
                card == measured_cardinality(ctx.data_profile),
                profile == (match ctx.data_profile {
                    Some(p) => Some(&p),
                    None => None::<&DataProfile>,
                }),
                finding_views(findings@) == hotkey_findings(self.rules@, ir.nodes@.take(i as int), card),
            decreases ir.nodes@.len() - i,
        {
            proof {
                assert(ir.nodes@.take(i + 1).drop_last() =~= ir.nodes@.take(i as int));
                assert(ir.nodes@.take(i + 1).last() == ir.nodes@[i as int]);
            }
            let key: Option<&Option<String>> = match &ir.nodes[i].node_type {
                TransformType::GroupByKey { key_expr } => Some(key_expr),
                TransformType::CoGroupByKey { key_expr } => Some(key_expr),
                _ => None,
            };
            if let Some(k) = key {
                let f = self.assess_key_risk(k, profile);
                if f.severity != RiskSeverity::Info {
                    push_finding(&mut findings, f);
                }
            }
            i = i + 1;
        }
        proof {
            assert(ir.nodes@.take(ir.nodes@.len() as int) =~= ir.nodes@);
        }
        let mut metrics: Vec<Metric> = Vec::new();
        push_metric(
            &mut metrics,
            "groupbykey_count",
            crate::analyzer::count_value(count_class(&ir.nodes, NodeClass::GroupByKey)),
        );
        push_metric(
            &mut metrics,
            "cogroupbykey_count",
            crate::analyzer::count_value(count_class(&ir.nodes, NodeClass::CoGroupByKey)),
        );
        if let Some(c) = card {
            push_metric(&mut metrics, "data_profile_key_cardinality", count_value_u64(c));
        }
        let nf = findings.len();
        let summary = if nf == 0 {
            String::from_str(NONE_SUMMARY)
        } else {
            counted_text(SUMMARY_A, nf as u64, SUMMARY_B)
        };
        proof {
            let spec = hotkey_result(self.rules@, *ir, ctx.data_profile);
            assert(metric_views(metrics@) =~= spec.metrics);
        }
        let conf: u32 = if card.is_some() {
            850
        } else {
            750
        };
        make_result(self.name(), self.version(), findings, metrics, summary, conf)
    }
}

/// The measured key cardinality of an optional profile.
fn measured_cardinality_of(p: &Option<DataProfile>) -> (r: Option<u64>)
    ensures
        r == measured_cardinality(*p),
{
    match p {
        Some(p) => p.key_cardinality,
        None => None,
    }
}

/// Measured cardinality decides before the key's name: below the low
/// threshold any key is critical; at or above the downgrade threshold a
/// high-risk key is only medium.
pub proof fn lemma_measured_cardinality_decides(rules: HotKeyRulesView, key: Seq<char>, c: u64)
    ensures
        0 < c < rules.low_cardinality_threshold ==> key_risk(rules, key, Some(c)).severity
            == RiskSeverity::Critical && key_risk(rules, key, Some(c)).id
            == "HOTKEY_LOW_CARDINALITY_MEASURED"@,
        !(0 < c < rules.low_cardinality_threshold) && any_match(key, rules.high_risk_patterns) && c
            >= rules.high_cardinality_downgrade_threshold ==> key_risk(rules, key, Some(c)).severity
            == RiskSeverity::Medium,
{
}

/// A key of a high-risk pattern is reported as a high risk, with severity
/// High, unless a measured cardinality decides otherwise: below the low
/// threshold it is critical, and only at or above the downgrade threshold
/// is it lowered to Medium. Without a measurement it stays High.
pub proof fn lemma_high_risk_severity(rules: HotKeyRulesView, key: Seq<char>, card: Option<u64>)
    requires
        any_match(key, rules.high_risk_patterns),
        match card {
            Some(c) => !(0 < c < rules.low_cardinality_threshold),
            None => true,
        },
    ensures
        key_risk(rules, key, card).id == "HOTKEY_HIGH_RISK"@,
        key_risk(rules, key, card).severity == (match card {
            Some(c) => if c >= rules.high_cardinality_downgrade_threshold {
                RiskSeverity::Medium
            } else {
                RiskSeverity::High
            },
            None => RiskSeverity::High,
        }),
{
}

/// Without a deciding measurement, a key of no high-risk pattern but of a
/// medium-risk one is a medium risk, and a key of neither is only
/// informational.
pub proof fn lemma_pattern_severity(rules: HotKeyRulesView, key: Seq<char>, card: Option<u64>)
    requires
        !any_match(key, rules.high_risk_patterns),
        match card {
            Some(c) => !(0 < c < rules.low_cardinality_threshold),
            None => true,
        },
    ensures
        any_match(key, rules.medium_risk_patterns) ==> key_risk(rules, key, card).id == "HOTKEY_MEDIUM_RISK"@
            && key_risk(rules, key, card).severity == RiskSeverity::Medium,
        !any_match(key, rules.medium_risk_patterns) ==> key_risk(rules, key, card).id == "HOTKEY_LOW_RISK"@
            && key_risk(rules, key, card).severity == RiskSeverity::Info,
{
}

} // verus!
