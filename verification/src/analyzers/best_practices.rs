//! Rule-based Beam best-practice checks.
use crate::analyzer::{
    count_milli, count_value, counted, counted_text, finding_views, make_finding, make_result,
    metric_views, no_nodes, push_finding, push_metric, texts, AnalysisContext, AnalysisResult,
    AnalysisResultView, Finding, FindingType, FindingView, Impact, Metric, RiskSeverity, impact,
    has_id,
};
use crate::ir::{
    class_positions, count_selected, ids_at, ids_of, lower_has, select, NodeClass,
    PipelineIR, Selector, TransformNode, TransformType,
};
use crate::text::{decimal, lower_contains, str_eq};
use vstd::prelude::*;

verus! {

pub const COMBINE_TITLE: &'static str = "Use CombinePerKey instead of GroupByKey";
pub const COMBINE_DESC_A: &'static str = "Found ";
pub const COMBINE_DESC_B: &'static str = " GroupByKey operations vs ";
pub const COMBINE_DESC_C: &'static str = " CombinePerKey. For associative, commutative operations (sum, count, max, min), CombinePerKey is 20-30% faster and parallelizable.";
pub const COMBINE_REC: &'static str = "Analyze GroupByKey operations. Replace with CombinePerKey where applicable: beam.CombinePerKey(SumFn()) instead of GroupByKey().CombineValues(sum)";
pub const REDUNDANT_TITLE_A: &'static str = "Found ";
pub const REDUNDANT_TITLE_B: &'static str = " redundant transform(s)";
pub const REDUNDANT_DESC: &'static str = "Some ParDo operations appear to be no-ops or redundant.";
pub const REDUNDANT_REC: &'static str = "Review and remove unnecessary transforms.";
pub const SIDE_TITLE_A: &'static str = "Found ";
pub const SIDE_TITLE_B: &'static str = " side input(s)";
pub const SIDE_DESC: &'static str = "Side inputs are broadcast to all workers. Large objects increase network overhead.";
pub const SIDE_REC: &'static str = "If side inputs >100MB, consider using BigTable, BigQuery, or external lookup instead of broadcasting.";
pub const RESHUFFLE_TITLE_A: &'static str = "Excessive reshuffling (";
pub const RESHUFFLE_TITLE_B: &'static str = " shuffle operations)";
pub const RESHUFFLE_DESC: &'static str = "Multiple shuffles dramatically increase cost. Each shuffle writes data to shuffle storage.";
pub const RESHUFFLE_REC: &'static str = "Reorganize pipeline to minimize shuffles. Group related aggregations together. Use pre-aggregation before joins.";
pub const ENGINE_TITLE: &'static str = "Streaming Engine not enabled";
pub const ENGINE_DESC: &'static str = "Streaming Engine offloads state/shuffle to managed backend, improving performance and reducing worker memory pressure.";
pub const ENGINE_REC: &'static str = "Enable Streaming Engine in Dataflow job options for all streaming pipelines.";
pub const SUMMARY_A: &'static str = "Found ";
pub const SUMMARY_B: &'static str = " best practice violation(s). Potential savings: $500-$2,000/month";

/// Checks a pipeline against encoded Beam best practices.
pub struct BestPracticesAnalyzer;

/// The DoFn name suggests an identity/no-op transform.
pub open spec fn is_noop_name(d: Seq<char>) -> bool {
    lower_has(d, "identity"@) || lower_has(d, "passthrough"@) || lower_has(d, "noop"@)
}

/// The DoFn name of a ParDo node.
pub open spec fn pardo_name(t: TransformType) -> Option<Seq<char>> {
    match t {
        TransformType::ParDo { dofn_name, .. } => Some(dofn_name@),
        _ => None,
    }
}

/// Ids of redundant ParDo nodes: identity-like names, and a ParDo that
/// repeats the DoFn of the node right before it (an id may occur twice).
pub open spec fn redundant_ids(nodes: Seq<TransformNode>) -> Seq<Seq<char>>
    decreases nodes.len(),
{
    if nodes.len() == 0 {
        Seq::empty()
    } else {
        let i = nodes.len() - 1;
        let r = redundant_ids(nodes.drop_last());
        let n = nodes[i];
        match pardo_name(n.node_type) {
            Some(d) => {
                let r1 = if is_noop_name(d) {
                    r.push(n.id@)
                } else {
                    r
                };
                if i > 0 && pardo_name(nodes[i - 1].node_type) == Some(d) {
                    r1.push(n.id@)
                } else {
                    r1
                }
            },
            None => r,
        }
    }
}

fn redundant_exec(nodes: &Vec<TransformNode>) -> (r: Vec<String>)
    ensures
        texts(r@) == redundant_ids(nodes@),
{
    let mut r: Vec<String> = Vec::new();
    let mut i: usize = 0;
    proof {
        assert(texts(r@) =~= Seq::<Seq<char>>::empty());
        assert(nodes@.take(0) =~= Seq::<TransformNode>::empty());
    }
    while i < nodes.len()
        invariant
            i <= nodes@.len(),
            texts(r@) == redundant_ids(nodes@.take(i as int)),
        decreases nodes@.len() - i,
    {
        let ghost pre = nodes@.take(i as int);
        let ghost cur = nodes@.take(i + 1);
        proof {
            assert(cur.drop_last() =~= pre);
            assert(cur[i as int] == nodes@[i as int]);
            if i > 0 {
                assert(cur[i - 1] == nodes@[i - 1]);
            }
        }
        if let TransformType::ParDo { dofn_name, .. } = &nodes[i].node_type {
            if lower_contains(dofn_name.as_str(), "identity") || lower_contains(
                dofn_name.as_str(),
                "passthrough",
            ) || lower_contains(dofn_name.as_str(), "noop") {
                let ghost old_r = r@;
                let id = nodes[i].id.clone();
                r.push(id);
                proof {
                    assert(texts(r@) =~= texts(old_r).push(id@));
                }
            }
            if i > 0 {
                if let TransformType::ParDo { dofn_name: prev, .. } = &nodes[i - 1].node_type {
                    if str_eq(dofn_name.as_str(), prev.as_str()) {
                        let ghost old_r = r@;
                        let id = nodes[i].id.clone();
                        r.push(id);
                        proof {
                            assert(texts(r@) =~= texts(old_r).push(id@));
                        }
                    }
                }
            }
        }
        i = i + 1;
    }
    proof {
        assert(nodes@.take(nodes@.len() as int) =~= nodes@);
    }
    r
}

pub open spec fn combine_finding(nodes: Seq<TransformNode>, gbk: nat, cpk: nat) -> FindingView {
    FindingView {
        id: "BESTPRAC_PREFER_COMBINEPERKEY"@,
        severity: RiskSeverity::Medium,
        finding_type: FindingType::PerformanceRisk,
        title: COMBINE_TITLE@,
        description: COMBINE_DESC_A@ + decimal(gbk) + COMBINE_DESC_B@ + decimal(cpk)
            + COMBINE_DESC_C@,
        affected_nodes: ids_at(nodes, select(nodes, Selector::Class(NodeClass::GroupByKey))),
        recommendation: Some(COMBINE_REC@),
        estimated_impact: Some(impact(Some(750), Some(-300_000i64), None)),
        confidence: 850,
    }
}

pub open spec fn redundant_finding(ids: Seq<Seq<char>>) -> FindingView {
    FindingView {
        id: "BESTPRAC_REDUNDANT_TRANSFORMS"@,
        severity: RiskSeverity::Low,
        finding_type: FindingType::PerformanceRisk,
        title: counted(REDUNDANT_TITLE_A@, ids.len(), REDUNDANT_TITLE_B@),
        description: REDUNDANT_DESC@,
        affected_nodes: ids,
        recommendation: Some(REDUNDANT_REC@),
        estimated_impact: Some(impact(Some(950), Some(-50_000i64), None)),
        confidence: 700,
    }
}

pub open spec fn side_input_finding(n: nat) -> FindingView {
    FindingView {
        id: "BESTPRAC_SIDE_INPUT_SIZE"@,
        severity: RiskSeverity::Low,
        finding_type: FindingType::PerformanceRisk,
        title: counted(SIDE_TITLE_A@, n, SIDE_TITLE_B@),
        description: SIDE_DESC@,
        affected_nodes: seq![],
        recommendation: Some(SIDE_REC@),
        estimated_impact: Some(impact(Some(1100), Some(100_000), None)),
        confidence: 650,
    }
}

pub open spec fn reshuffle_finding(nodes: Seq<TransformNode>) -> FindingView {
    let sh = select(nodes, Selector::Class(NodeClass::Shuffle));
    FindingView {
        id: "BESTPRAC_EXCESSIVE_RESHUFFLING"@,
        severity: RiskSeverity::High,
        finding_type: FindingType::CostRisk,
        title: counted(RESHUFFLE_TITLE_A@, sh.len(), RESHUFFLE_TITLE_B@),
        description: RESHUFFLE_DESC@,
        affected_nodes: ids_at(nodes, sh),
        recommendation: Some(RESHUFFLE_REC@),
        estimated_impact: Some(impact(Some(2500), Some(1_500_000), None)),
        confidence: 800,
    }
}

pub open spec fn engine_finding() -> FindingView {
    FindingView {
        id: "BESTPRAC_STREAMING_ENGINE"@,
        severity: RiskSeverity::Medium,
        finding_type: FindingType::PerformanceRisk,
        title: ENGINE_TITLE@,
        description: ENGINE_DESC@,
        affected_nodes: seq![],
        recommendation: Some(ENGINE_REC@),
        estimated_impact: Some(impact(Some(700), Some(-200_000i64), None)),
        confidence: 900,
    }
}

/// The five best-practice rules, each with whether it fires and its finding.
pub open spec fn best_practice_rules(ir: PipelineIR) -> Seq<(bool, FindingView)> {
    let nodes = ir.nodes@;
    let gbk = count_selected(nodes, Selector::Class(NodeClass::GroupByKey));
    let cpk = count_selected(nodes, Selector::Class(NodeClass::CombinePerKey));
    let red = redundant_ids(nodes);
    let side = count_selected(nodes, Selector::Class(NodeClass::SideInputs));
    let sh = count_selected(nodes, Selector::Class(NodeClass::Shuffle));
    seq![
        (gbk > cpk && gbk > 0, combine_finding(nodes, gbk, cpk)),
        (red.len() > 0, redundant_finding(red)),
        (side > 0, side_input_finding(side)),
        (sh > 2, reshuffle_finding(nodes)),
        (match ir.metadata.deployment_config {
            Some(c) => c.streaming_engine != Some(true),
            None => false,
        }, engine_finding()),
    ]
}

/// The findings of the rules that fire, in rule order.
pub open spec fn fired(rules: Seq<(bool, FindingView)>) -> Seq<FindingView>
    decreases rules.len(),
{
    if rules.len() == 0 {
        Seq::empty()
    } else if rules.last().0 {
        fired(rules.drop_last()).push(rules.last().1)
    } else {
        fired(rules.drop_last())
    }
}

/// What [`BestPracticesAnalyzer::analyze`] reports for a pipeline.
pub open spec fn best_practices_result(ir: PipelineIR) -> AnalysisResultView {
    let nodes = ir.nodes@;
    let findings = fired(best_practice_rules(ir));
    AnalysisResultView {
        analyzer_name: "BestPracticesAnalyzer"@,
        version: "0.1.0"@,
        findings,
        metrics: seq![
            ("groupbykey_count"@, count_milli(count_selected(nodes, Selector::Class(NodeClass::GroupByKey)))),
            ("combineperkey_count"@, count_milli(count_selected(nodes, Selector::Class(NodeClass::CombinePerKey)))),
            ("side_input_count"@, count_milli(count_selected(nodes, Selector::Class(NodeClass::SideInputs)))),
            ("shuffle_operation_count"@, count_milli(count_selected(nodes, Selector::Class(NodeClass::Shuffle)))),
            ("rule_violations"@, count_milli(findings.len())),
        ],
        summary: counted(SUMMARY_A@, findings.len(), SUMMARY_B@),
        confidence: 800,
    }
}

impl BestPracticesAnalyzer {
    pub fn name(&self) -> (r: &'static str)
        ensures
            r@ == "BestPracticesAnalyzer"@,
    {
        "BestPracticesAnalyzer"
    }

    pub fn version(&self) -> (r: &'static str)
        ensures
            r@ == "0.1.0"@,
    {
        "0.1.0"
    }

    pub fn priority(&self) -> (r: u32)
        ensures
            r == 8,
    {
        8
    }

    /// Reports violated best practices.
    pub fn analyze(&self, ctx: &AnalysisContext) -> (r: AnalysisResult)
        ensures
            r@ == best_practices_result(ctx.pipeline_ir),
    {
        let ir = &ctx.pipeline_ir;
        let nodes = &ir.nodes;
        let ghost rules = best_practice_rules(*ir);
        let mut findings: Vec<Finding> = Vec::new();
        let mut violations: usize = 0;
        proof {
            assert(finding_views(findings@) =~= Seq::<FindingView>::empty());
            assert(rules.take(0) =~= Seq::<(bool, FindingView)>::empty());
            assert(fired(rules.take(0)) =~= Seq::<FindingView>::empty());
        }

        let gbk_pos = class_positions(nodes, NodeClass::GroupByKey);
        let gbk = gbk_pos.len();
        let cpk = class_positions(nodes, NodeClass::CombinePerKey).len();
        proof {
            assert(rules.take(1).drop_last() =~= rules.take(0));
        }
        if gbk > cpk && gbk > 0 {
            let mut d = String::from_str(COMBINE_DESC_A);
            let a = crate::text::decimal_text(gbk as u64);
            d.append(a.as_str());
            d.append(COMBINE_DESC_B);
            let b = crate::text::decimal_text(cpk as u64);
            d.append(b.as_str());
            d.append(COMBINE_DESC_C);
            push_finding(
                &mut findings,
                make_finding(
                    "BESTPRAC_PREFER_COMBINEPERKEY",
                    RiskSeverity::Medium,
                    FindingType::PerformanceRisk,
                    String::from_str(COMBINE_TITLE),
                    d,
                    ids_of(nodes, &gbk_pos),
                    Some(COMBINE_REC),
                    Some(
                        Impact {
                            latency_multiplier: Some(750),
                            cost_delta_monthly: Some(-300_000),
                            affected_records_percent: None,
                        },
                    ),
                    850,
                ),
            );
            violations = violations + 1;
        }
        assert(finding_views(findings@) == fired(rules.take(1)));

        let redundant = redundant_exec(nodes);
        proof {
            assert(rules.take(2).drop_last() =~= rules.take(1));
        }
        if redundant.len() > 0 {
            let t = counted_text(REDUNDANT_TITLE_A, redundant.len() as u64, REDUNDANT_TITLE_B);
            push_finding(
                &mut findings,
                make_finding(
                    "BESTPRAC_REDUNDANT_TRANSFORMS",
                    RiskSeverity::Low,
                    FindingType::PerformanceRisk,
                    t,
                    String::from_str(REDUNDANT_DESC),
                    redundant,
                    Some(REDUNDANT_REC),
                    Some(
                        Impact {
                            latency_multiplier: Some(950),
                            cost_delta_monthly: Some(-50_000),
                            affected_records_percent: None,
                        },
                    ),
                    700,
                ),
            );
            violations = violations + 1;
        }
        assert(finding_views(findings@) == fired(rules.take(2)));

        let side = class_positions(nodes, NodeClass::SideInputs).len();
        proof {
            assert(rules.take(3).drop_last() =~= rules.take(2));
        }
        if side > 0 {
            let t = counted_text(SIDE_TITLE_A, side as u64, SIDE_TITLE_B);
            push_finding(
                &mut findings,
                make_finding(
                    "BESTPRAC_SIDE_INPUT_SIZE",
                    RiskSeverity::Low,
                    FindingType::PerformanceRisk,
                    t,
                    String::from_str(SIDE_DESC),
                    no_nodes(),
                    Some(SIDE_REC),
                    Some(
                        Impact {
                            latency_multiplier: Some(1100),
                            cost_delta_monthly: Some(100_000),
                            affected_records_percent: None,
                        },
                    ),
                    650,
                ),
            );
            violations = violations + 1;
        }
        assert(finding_views(findings@) == fired(rules.take(3)));

        let sh_pos = class_positions(nodes, NodeClass::Shuffle);
        let sh = sh_pos.len();
        proof {
            assert(rules.take(4).drop_last() =~= rules.take(3));
        }
        if sh > 2 {
            let t = counted_text(RESHUFFLE_TITLE_A, sh as u64, RESHUFFLE_TITLE_B);
            push_finding(
                &mut findings,
                make_finding(
                    "BESTPRAC_EXCESSIVE_RESHUFFLING",
                    RiskSeverity::High,
                    FindingType::CostRisk,
                    t,
                    String::from_str(RESHUFFLE_DESC),
                    ids_of(nodes, &sh_pos),
                    Some(RESHUFFLE_REC),
                    Some(
                        Impact {
                            latency_multiplier: Some(2500),
                            cost_delta_monthly: Some(1_500_000),
                            affected_records_percent: None,
                        },
                    ),
                    800,
                ),
            );
            violations = violations + 1;
        }
        assert(finding_views(findings@) == fired(rules.take(4)));

        proof {
            assert(rules.take(5).drop_last() =~= rules.take(4));
            assert(rules.take(5) =~= rules);
        }
        let engine_off = match &ir.metadata.deployment_config {
            Some(c) => c.streaming_engine != Some(true),
            None => false,
        };
        if engine_off {
            push_finding(
                &mut findings,
                make_finding(
                    "BESTPRAC_STREAMING_ENGINE",
                    RiskSeverity::Medium,
                    FindingType::PerformanceRisk,
                    String::from_str(ENGINE_TITLE),
                    String::from_str(ENGINE_DESC),
                    no_nodes(),
                    Some(ENGINE_REC),
                    Some(
                        Impact {
                            latency_multiplier: Some(700),
                            cost_delta_monthly: Some(-200_000),
                            affected_records_percent: None,
                        },
                    ),
                    900,
                ),
            );
            violations = violations + 1;
        }
        assert(finding_views(findings@) == fired(rules));
        assert(violations == findings@.len());

        let mut metrics: Vec<Metric> = Vec::new();
        push_metric(&mut metrics, "groupbykey_count", count_value(gbk));
        push_metric(&mut metrics, "combineperkey_count", count_value(cpk));
        push_metric(&mut metrics, "side_input_count", count_value(side));
        push_metric(&mut metrics, "shuffle_operation_count", count_value(sh));
        push_metric(&mut metrics, "rule_violations", count_value(violations));
        proof {
            assert(metric_views(metrics@) =~= best_practices_result(*ir).metrics);
        }
        let summary = counted_text(SUMMARY_A, violations as u64, SUMMARY_B);
        make_result(self.name(), self.version(), findings, metrics, summary, 800)
    }
}

/// The findings of the rules that fire carry exactly the ids of those rules.
pub proof fn lemma_fired_has_id(rules: Seq<(bool, FindingView)>, id: Seq<char>)
    ensures
        has_id(fired(rules), id) <==> exists|k: int|
            0 <= k < rules.len() && (#[trigger] rules[k]).0 && rules[k].1.id == id,
    decreases rules.len(),
{
    broadcast use crate::analyzer::group_has_id;

    if rules.len() > 0 {
        let d = rules.drop_last();
        lemma_fired_has_id(d, id);
        if exists|k: int| 0 <= k < d.len() && (#[trigger] d[k]).0 && d[k].1.id == id {
            let k = choose|k: int| 0 <= k < d.len() && (#[trigger] d[k]).0 && d[k].1.id == id;
            assert(rules[k] == d[k]);
        }
        if exists|k: int| 0 <= k < rules.len() && (#[trigger] rules[k]).0 && rules[k].1.id == id {
            let k = choose|k: int| 0 <= k < rules.len() && (#[trigger] rules[k]).0 && rules[k].1.id == id;
            if k < d.len() {
                assert(d[k] == rules[k]);
            }
        }
    }
}

/// Rules with pairwise distinct ids fire findings with pairwise distinct ids.
pub proof fn lemma_fired_distinct(rules: Seq<(bool, FindingView)>)
    requires
        forall|a: int, b: int|
            0 <= a < b < rules.len() ==> (#[trigger] rules[a]).1.id != (#[trigger] rules[b]).1.id,
    ensures
        forall|i: int, j: int|
            0 <= i < j < fired(rules).len() ==> (#[trigger] fired(rules)[i]).id != (
            #[trigger] fired(rules)[j]).id,
    decreases rules.len(),
{
    if rules.len() > 0 {
        let d = rules.drop_last();
        assert forall|a: int, b: int| 0 <= a < b < d.len() implies (#[trigger] d[a]).1.id != (
        #[trigger] d[b]).1.id by {
            assert(d[a] == rules[a] && d[b] == rules[b]);
        }
        lemma_fired_distinct(d);
        if rules.last().0 {
            let f = fired(d);
            let last = rules.last().1;
            lemma_fired_has_id(d, last.id);
            assert forall|i: int, j: int| 0 <= i < j < fired(rules).len() implies (
            #[trigger] fired(rules)[i]).id != (#[trigger] fired(rules)[j]).id by {
                if j == f.len() {
                    assert(fired(rules)[j] == last);
                    assert(fired(rules)[i] == f[i]);
                    if f[i].id == last.id {
                        assert(has_id(f, last.id));
                        let k = choose|k: int| 0 <= k < d.len() && (#[trigger] d[k]).0 && d[k].1.id == last.id;
                        assert(d[k] == rules[k]);
                        assert(rules.last() == rules[rules.len() - 1]);
                    }
                } else {
                    assert(fired(rules)[i] == f[i] && fired(rules)[j] == f[j]);
                }
            }
        }
    }
}

/// Each best-practice rule is reported, once, exactly when it applies:
/// more GroupByKeys than CombinePerKeys; a no-op transform; side inputs;
/// more than two shuffles; a deployment without the streaming engine.
/// The rule-violation metric counts the findings.
pub proof fn lemma_best_practices_rules(ir: PipelineIR)
    ensures
        ({
            let r = best_practices_result(ir);
            let nodes = ir.nodes@;
            &&& has_id(r.findings, "BESTPRAC_PREFER_COMBINEPERKEY"@) <==> count_selected(
                nodes,
                Selector::Class(NodeClass::GroupByKey),
            ) > count_selected(nodes, Selector::Class(NodeClass::CombinePerKey))
            &&& has_id(r.findings, "BESTPRAC_REDUNDANT_TRANSFORMS"@) <==> redundant_ids(nodes).len() > 0
            &&& has_id(r.findings, "BESTPRAC_SIDE_INPUT_SIZE"@) <==> count_selected(
                nodes,
                Selector::Class(NodeClass::SideInputs),
            ) > 0
            &&& has_id(r.findings, "BESTPRAC_EXCESSIVE_RESHUFFLING"@) <==> count_selected(
                nodes,
                Selector::Class(NodeClass::Shuffle),
            ) > 2
            &&& has_id(r.findings, "BESTPRAC_STREAMING_ENGINE"@) <==> match ir.metadata.deployment_config {
                Some(c) => c.streaming_engine != Some(true),
                None => false,
            }
            &&& forall|i: int, j: int|
                0 <= i < j < r.findings.len() ==> (#[trigger] r.findings[i]).id != (
                #[trigger] r.findings[j]).id
            &&& r.metrics[4] == ("rule_violations"@, count_milli(r.findings.len()))
        }),
{
    reveal_strlit("BESTPRAC_PREFER_COMBINEPERKEY");
    reveal_strlit("BESTPRAC_REDUNDANT_TRANSFORMS");
    reveal_strlit("BESTPRAC_SIDE_INPUT_SIZE");
    reveal_strlit("BESTPRAC_EXCESSIVE_RESHUFFLING");
    reveal_strlit("BESTPRAC_STREAMING_ENGINE");
    let rules = best_practice_rules(ir);
    let ids = seq![
        "BESTPRAC_PREFER_COMBINEPERKEY"@,
        "BESTPRAC_REDUNDANT_TRANSFORMS"@,
        "BESTPRAC_SIDE_INPUT_SIZE"@,
        "BESTPRAC_EXCESSIVE_RESHUFFLING"@,
        "BESTPRAC_STREAMING_ENGINE"@,
    ];
    assert(ids[0][9] == 'P' && ids[1][9] == 'R' && ids[2][9] == 'S' && ids[3][9] == 'E' && ids[4][9] == 'S');
    assert(ids[2][10] == 'I' && ids[4][10] == 'T');
    assert(rules.len() == 5);
    assert forall|k: int| 0 <= k < 5 implies (#[trigger] rules[k]).1.id == ids[k] by {}
    assert forall|a: int, b: int| 0 <= a < b < rules.len() implies (#[trigger] rules[a]).1.id != (
    #[trigger] rules[b]).1.id by {
        assert(rules[a].1.id == ids[a] && rules[b].1.id == ids[b]);
        if ids[a] == ids[b] {
            assert(ids[a][9] == ids[b][9] && ids[a][10] == ids[b][10]);
        }
    }
    lemma_fired_distinct(rules);
    assert forall|k: int| 0 <= k < 5 implies has_id(fired(rules), ids[k]) <==> (#[trigger] rules[k]).0 by {
        lemma_fired_has_id(rules, ids[k]);
        if has_id(fired(rules), ids[k]) {
            let m = choose|m: int| 0 <= m < rules.len() && (#[trigger] rules[m]).0 && rules[m].1.id == ids[k];
            if m != k {
                assert(rules[m].1.id != rules[k].1.id);
            }
        }
    }
    assert(has_id(fired(rules), ids[0]) <==> rules[0].0);
    assert(has_id(fired(rules), ids[1]) <==> rules[1].0);
    assert(has_id(fired(rules), ids[2]) <==> rules[2].0);
    assert(has_id(fired(rules), ids[3]) <==> rules[3].0);
    assert(has_id(fired(rules), ids[4]) <==> rules[4].0);
}

} // verus!
