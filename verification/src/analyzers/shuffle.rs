//! Shuffle operations: one finding per shuffle stage, and a finding for
//! shuffles that directly follow each other.
use crate::analyzer::{
    count_milli, count_value, counted, counted_text, finding_views, make_finding, make_result,
    metric_views, one_node, push_finding, push_metric, texts, AnalysisContext, AnalysisResult,
    AnalysisResultView, Finding, FindingType, FindingView, Impact, Metric, RiskSeverity, impact,
};
use crate::ir::{
    class_positions, degree, downstream, edge_degree, ids_at, ids_of, is_shuffle, lemma_linked,
    linked_positions, select, NodeClass, PipelineIR, Selector, TransformNode, TransformType,
};
use crate::text::decimal;
use vstd::prelude::*;

verus! {

pub const GBK_ID: &'static str = "SHUFFLE_GROUPBYKEY_";
pub const GBK_TITLE_B: &'static str = ": GroupByKey shuffle operation";
pub const GBK_DESC_B: &'static str = "' uses GroupByKey, which triggers a full shuffle. This is expensive and should be used carefully.";
pub const GBK_REC: &'static str = "Consider using CombinePerKey instead if you're computing an associative, commutative operation (sum, count, max, etc.)";
pub const COGBK_ID: &'static str = "SHUFFLE_COGROUPBYKEY_";
pub const COGBK_TITLE_B: &'static str = ": CoGroupByKey (join) shuffle operation";
pub const COGBK_DESC_B: &'static str = "' uses CoGroupByKey for a join operation. This requires full shuffle of both inputs.";
pub const COGBK_REC: &'static str = "Consider pre-aggregating the larger input before the join to reduce shuffle volume.";
pub const CPK_ID: &'static str = "SHUFFLE_COMBINEPERKEY_";
pub const CPK_TITLE_B: &'static str = ": CombinePerKey operation (optimized)";
pub const CPK_DESC_B: &'static str = "' uses CombinePerKey, which is more efficient than GroupByKey for associative operations.";
pub const STAGE: &'static str = "Stage ";
pub const TRANSFORM_A: &'static str = "Transform '";
pub const CONSEC_TITLE_A: &'static str = "Multiple consecutive shuffle operations detected (";
pub const CONSEC_TITLE_B: &'static str = " stages)";
pub const CONSEC_DESC: &'static str = "Multiple shuffles in sequence dramatically increase cost and latency.";
pub const CONSEC_REC: &'static str = "Consider reorganizing the pipeline to minimize reshuffles. If possible, push aggregations before joins.";
pub const NONE_SUMMARY: &'static str = "No shuffle operations detected";
pub const SUMMARY_A: &'static str = "Detected ";
pub const SUMMARY_B: &'static str = " shuffle operation(s) across ";
pub const SUMMARY_C: &'static str = " stage(s)";

/// Quantifies expensive shuffle operations.
pub struct ShuffleAnalyzer;

/// The finding for the shuffle node `n` at 1-based stage `stage`.
pub open spec fn stage_finding(n: TransformNode, stage: nat) -> FindingView {
    let (id, sev, title_b, desc_b, rec, imp, conf) = match n.node_type {
        TransformType::GroupByKey { .. } => (
            GBK_ID@,
            RiskSeverity::Medium,
            GBK_TITLE_B@,
            GBK_DESC_B@,
            Some(GBK_REC@),
            Some(impact(Some(1800), Some(300_000), None)),
            850u32,
        ),
        TransformType::CoGroupByKey { .. } => (
            COGBK_ID@,
            RiskSeverity::High,
            COGBK_TITLE_B@,
            COGBK_DESC_B@,
            Some(COGBK_REC@),
            Some(impact(Some(2500), Some(800_000), None)),
            880u32,
        ),
        _ => (CPK_ID@, RiskSeverity::Low, CPK_TITLE_B@, CPK_DESC_B@, None, None, 900u32),
    };
    FindingView {
        id: id + decimal(stage),
        severity: sev,
        finding_type: FindingType::PerformanceRisk,
        title: STAGE@ + decimal(stage) + title_b,
        description: TRANSFORM_A@ + n.name@ + desc_b,
        affected_nodes: seq![n.id@],
        recommendation: rec,
        estimated_impact: imp,
        confidence: conf,
    }
}

/// One finding per shuffle node, numbered from 1 in node order.
pub open spec fn stage_findings(nodes: Seq<TransformNode>, ops: Seq<usize>) -> Seq<FindingView>
    decreases ops.len(),
{
    if ops.len() == 0 {
        Seq::empty()
    } else {
        stage_findings(nodes, ops.drop_last()).push(
            stage_finding(nodes[ops.last() as int], ops.len()),
        )
    }
}

/// For shuffle node `op`: the pairs (op, d) for each downstream shuffle
/// node `d`, flattened, in the order of `downs`.
pub open spec fn pairs_for(nodes: Seq<TransformNode>, op: usize, downs: Seq<usize>) -> Seq<usize>
    decreases downs.len(),
{
    if downs.len() == 0 {
        Seq::empty()
    } else {
        let r = pairs_for(nodes, op, downs.drop_last());
        let d = downs.last();
        if is_shuffle(nodes[d as int].node_type) {
            r.push(op).push(d)
        } else {
            r
        }
    }
}

/// Shuffle nodes followed directly by another shuffle, as pairs, before
/// ordering.
pub open spec fn consecutive_pairs(ir: PipelineIR, ops: Seq<usize>) -> Seq<usize>
    decreases ops.len(),
{
    if ops.len() == 0 {
        Seq::empty()
    } else {
        let op = ops.last();
        consecutive_pairs(ir, ops.drop_last()) + pairs_for(
            ir.nodes@,
            op,
            downstream(ir, ir.nodes@[op as int].id@),
        )
    }
}

/// The number of edges into the node at position `p`.
pub open spec fn in_degree(ir: PipelineIR, p: usize) -> nat {
    degree(ir.edges@, ir.nodes@[p as int].id@, false)
}

/// Stable insertion of `x` into `s`, ordered by in-degree: `x` goes after
/// every element whose in-degree does not exceed its own.
pub open spec fn insert_by_in_degree(ir: PipelineIR, s: Seq<usize>, x: usize) -> Seq<usize>
    decreases s.len(),
{
    if s.len() == 0 {
        seq![x]
    } else if in_degree(ir, s.last()) > in_degree(ir, x) {
        insert_by_in_degree(ir, s.drop_last(), x).push(s.last())
    } else {
        s.push(x)
    }
}

/// `s` stably sorted by in-degree (`sort_by_key`).
pub open spec fn sort_by_in_degree(ir: PipelineIR, s: Seq<usize>) -> Seq<usize>
    decreases s.len(),
{
    if s.len() == 0 {
        Seq::empty()
    } else {
        insert_by_in_degree(ir, sort_by_in_degree(ir, s.drop_last()), s.last())
    }
}

/// The consecutive-shuffle positions, stably sorted by in-degree.
pub open spec fn consecutive_shuffles(ir: PipelineIR) -> Seq<usize> {
    sort_by_in_degree(ir, consecutive_pairs(ir, select(ir.nodes@, Selector::Class(NodeClass::Shuffle))))
}

pub open spec fn consecutive_finding(nodes: Seq<TransformNode>, c: Seq<usize>) -> FindingView {
    FindingView {
        id: "SHUFFLE_CONSECUTIVE"@,
        severity: RiskSeverity::High,
        finding_type: FindingType::CostRisk,
        title: counted(CONSEC_TITLE_A@, c.len(), CONSEC_TITLE_B@),
        description: CONSEC_DESC@,
        affected_nodes: ids_at(nodes, c),
        recommendation: Some(CONSEC_REC@),
        estimated_impact: Some(impact(Some(3500), Some(1_200_000), None)),
        confidence: 800,
    }
}

/// What [`ShuffleAnalyzer::analyze`] reports for a pipeline.
pub open spec fn shuffle_result(ir: PipelineIR) -> AnalysisResultView {
    let nodes = ir.nodes@;
    let ops = select(nodes, Selector::Class(NodeClass::Shuffle));
    let c = consecutive_shuffles(ir);
    let staged = stage_findings(nodes, ops);
    AnalysisResultView {
        analyzer_name: "ShuffleAnalyzer"@,
        version: "0.1.0"@,
        findings: if ops.len() == 0 {
            Seq::empty()
        } else if c.len() > 1 {
            staged.push(consecutive_finding(nodes, c))
        } else {
            staged
        },
        metrics: seq![("shuffle_operation_count"@, count_milli(ops.len()))],
        summary: if ops.len() == 0 {
            NONE_SUMMARY@
        } else {
            SUMMARY_A@ + decimal(ops.len()) + SUMMARY_B@ + decimal(ops.len()) + SUMMARY_C@
        },
        confidence: if ops.len() == 0 {
            950
        } else {
            850
        },
    }
}

fn stage_finding_exec(n: &TransformNode, stage: u64) -> (f: Finding)
    requires
        is_shuffle(n.node_type),
    ensures
        f@ == stage_finding(*n, stage as nat),
{
    let s = crate::text::decimal_text(stage);
    let (id, sev, title_b, desc_b, rec, imp, conf): (&str, RiskSeverity, &str, &str, Option<&str>, Option<Impact>, u32) = match &n.node_type {
        TransformType::GroupByKey { .. } => (
            GBK_ID,
            RiskSeverity::Medium,
            GBK_TITLE_B,
            GBK_DESC_B,
            Some(GBK_REC),
            Some(
                Impact {
                    latency_multiplier: Some(1800),
                    cost_delta_monthly: Some(300_000),
                    affected_records_percent: None,
                },
            ),
            850,
        ),
        TransformType::CoGroupByKey { .. } => (
            COGBK_ID,
            RiskSeverity::High,
            COGBK_TITLE_B,
            COGBK_DESC_B,
            Some(COGBK_REC),
            Some(
                Impact {
                    latency_multiplier: Some(2500),
                    cost_delta_monthly: Some(800_000),
                    affected_records_percent: None,
                },
            ),
            880,
        ),
        _ => (CPK_ID, RiskSeverity::Low, CPK_TITLE_B, CPK_DESC_B, None, None, 900),
    };
    let mut id_text = String::from_str(id);
    id_text.append(s.as_str());
    let mut t = String::from_str(STAGE);
    t.append(s.as_str());
    t.append(title_b);
    let mut d = String::from_str(TRANSFORM_A);
    d.append(n.name.as_str());
    d.append(desc_b);
    let rec_text = match rec {
        Some(r) => Some(String::from_str(r)),
        None => None,
    };
    let f = Finding {
        id: id_text,
        severity: sev,
        finding_type: FindingType::PerformanceRisk,
        title: t,
        description: d,
        affected_nodes: one_node(&n.id),
        recommendation: rec_text,
        estimated_impact: imp,
        confidence: conf,
    };
    f
}

/// Stable insertion of `x` by in-degree.
fn insert_exec(ir: &PipelineIR, v: Vec<usize>, x: usize) -> (r: Vec<usize>)
    requires
        x < ir.nodes@.len(),
        forall|k: int| 0 <= k < v@.len() ==> #[trigger] v@[k] < ir.nodes@.len(),
    ensures
        r@ == insert_by_in_degree(*ir, v@, x),
        forall|k: int| 0 <= k < r@.len() ==> #[trigger] r@[k] < ir.nodes@.len(),
        r@.len() == v@.len() + 1,
    decreases v@.len(),
{
    let mut v = v;
    if v.len() == 0 {
        v.push(x);
        proof {
            assert(v@ =~= seq![x]);
        }
        return v;
    }
    let ghost v0 = v@;
    let last = v.pop().unwrap();
    proof {
        assert(v@ =~= v0.drop_last());
    }
    let kl = edge_degree(&ir.edges, ir.nodes[last].id.as_str(), false);
    let kx = edge_degree(&ir.edges, ir.nodes[x].id.as_str(), false);
    if kl > kx {
        let mut r = insert_exec(ir, v, x);
        r.push(last);
        r
    } else {
        v.push(last);
        v.push(x);
        proof {
            assert(v@ =~= v0.push(x));
        }
        v
    }
}

/// The consecutive-shuffle positions, stably sorted by in-degree.
fn consecutive_exec(ir: &PipelineIR, ops: &Vec<usize>) -> (r: Vec<usize>)
    requires
        ops@ == select(ir.nodes@, Selector::Class(NodeClass::Shuffle)),
        forall|k: int| 0 <= k < ops@.len() ==> #[trigger] ops@[k] < ir.nodes@.len(),
    ensures
        r@ == consecutive_shuffles(*ir),
        forall|k: int| 0 <= k < r@.len() ==> #[trigger] r@[k] < ir.nodes@.len(),
{
    let mut pairs: Vec<usize> = Vec::new();
    let mut i: usize = 0;
    while i < ops.len()
        invariant
            i <= ops@.len(),
            forall|k: int| 0 <= k < ops@.len() ==> #[trigger] ops@[k] < ir.nodes@.len(),
            pairs@ == consecutive_pairs(*ir, ops@.take(i as int)),
            forall|k: int| 0 <= k < pairs@.len() ==> #[trigger] pairs@[k] < ir.nodes@.len(),
        decreases ops@.len() - i,
    {
        let op = ops[i];
        let downs = linked_positions(ir, ir.nodes[op].id.as_str(), true);
        let _n = ir.nodes.len();
        proof {
            lemma_linked(ir.nodes@, ir.edges@, ir.nodes@[op as int].id@, true);
            assert(ops@.take(i + 1).drop_last() =~= ops@.take(i as int));
            assert(ops@.take(i + 1).last() == op);
        }
        let ghost before = pairs@;
        let mut j: usize = 0;
        proof {
            assert(pairs_for(ir.nodes@, op, downs@.take(0)) =~= Seq::<usize>::empty());
            assert(before + Seq::<usize>::empty() =~= before);
        }
        while j < downs.len()
            invariant
                j <= downs@.len(),
                op < ir.nodes@.len(),
                forall|k: int| 0 <= k < downs@.len() ==> #[trigger] downs@[k] < ir.nodes@.len(),
                pairs@ == before + pairs_for(ir.nodes@, op, downs@.take(j as int)),
                forall|k: int| 0 <= k < before.len() ==> #[trigger] before[k] < ir.nodes@.len(),
                forall|k: int| 0 <= k < pairs@.len() ==> #[trigger] pairs@[k] < ir.nodes@.len(),
            decreases downs@.len() - j,
        {
            let d = downs[j];
            proof {
                assert(downs@.take(j + 1).drop_last() =~= downs@.take(j as int));
                assert(downs@.take(j + 1).last() == d);
            }
            if ir.nodes[d].node_type.is_shuffle_operation() {
                pairs.push(op);
                pairs.push(d);
                proof {
                    let p = pairs_for(ir.nodes@, op, downs@.take(j as int));
                    assert(before + p.push(op).push(d) =~= (before + p).push(op).push(d));
                }
            }
            j = j + 1;
        }
        proof {
            assert(downs@.take(downs@.len() as int) =~= downs@);
        }
        i = i + 1;
    }
    proof {
        assert(ops@.take(ops@.len() as int) =~= ops@);
    }
    let mut sorted: Vec<usize> = Vec::new();
    let mut k: usize = 0;
    while k < pairs.len()
        invariant
            k <= pairs@.len(),
            forall|q: int| 0 <= q < pairs@.len() ==> #[trigger] pairs@[q] < ir.nodes@.len(),
            sorted@ == sort_by_in_degree(*ir, pairs@.take(k as int)),
            forall|q: int| 0 <= q < sorted@.len() ==> #[trigger] sorted@[q] < ir.nodes@.len(),
        decreases pairs@.len() - k,
    {
        proof {
            assert(pairs@.take(k + 1).drop_last() =~= pairs@.take(k as int));
            assert(pairs@.take(k + 1).last() == pairs@[k as int]);
        }
        sorted = insert_exec(ir, sorted, pairs[k]);
        k = k + 1;
    }
    proof {
        assert(pairs@.take(pairs@.len() as int) =~= pairs@);
    }
    sorted
}

impl ShuffleAnalyzer {
    pub fn name(&self) -> (r: &'static str)
        ensures
            r@ == "ShuffleAnalyzer"@,
    {
        "ShuffleAnalyzer"
    }

    pub fn version(&self) -> (r: &'static str)
        ensures
            r@ == "0.1.0"@,
    {
        "0.1.0"
    }

    pub fn priority(&self) -> (r: u32)
        ensures
            r == 3,
    {
        3
    }

    /// Reports the shuffle stages of the pipeline.
    pub fn analyze(&self, ctx: &AnalysisContext) -> (r: AnalysisResult)
        ensures
            r@ == shuffle_result(ctx.pipeline_ir),
    {
        let ir = &ctx.pipeline_ir;
        let ops = class_positions(&ir.nodes, NodeClass::Shuffle);
        let mut metrics: Vec<Metric> = Vec::new();
        push_metric(&mut metrics, "shuffle_operation_count", count_value(ops.len()));
        proof {
            assert(metric_views(metrics@) =~= shuffle_result(*ir).metrics);
        }
        let mut findings: Vec<Finding> = Vec::new();
        proof {
            assert(finding_views(findings@) =~= Seq::<FindingView>::empty());
        }
        if ops.len() == 0 {
            return make_result(
                self.name(),
                self.version(),
                findings,
                metrics,
                String::from_str(NONE_SUMMARY),
                950,
            );
        }
        let mut i: usize = 0;
        proof {
            assert(stage_findings(ir.nodes@, ops@.take(0)) =~= Seq::<FindingView>::empty());
        }
        while i < ops.len()
            invariant
                i <= ops@.len(),
                ops@ == select(ir.nodes@, Selector::Class(NodeClass::Shuffle)),
                forall|k: int| 0 <= k < ops@.len() ==> #[trigger] ops@[k] < ir.nodes@.len(),
                forall|k: int| 0 <= k < ops@.len() ==> is_shuffle(ir.nodes@[#[trigger] ops@[k] as int].node_type),
                ops@.len() <= ir.nodes@.len(),
                finding_views(findings@) == stage_findings(ir.nodes@, ops@.take(i as int)),
            decreases ops@.len() - i,
        {
            proof {
                assert(ops@.take(i + 1).drop_last() =~= ops@.take(i as int));
                assert(ops@.take(i + 1).last() == ops@[i as int]);
            }
            let f = stage_finding_exec(&ir.nodes[ops[i]], (i + 1) as u64);
            push_finding(&mut findings, f);
            i = i + 1;
        }
        proof {
            assert(ops@.take(ops@.len() as int) =~= ops@);
        }
        let c = consecutive_exec(ir, &ops);
        if c.len() > 1 {
            let t = counted_text(CONSEC_TITLE_A, c.len() as u64, CONSEC_TITLE_B);
            push_finding(
                &mut findings,
                make_finding(
                    "SHUFFLE_CONSECUTIVE",
                    RiskSeverity::High,
                    FindingType::CostRisk,
                    t,
                    String::from_str(CONSEC_DESC),
                    ids_of(&ir.nodes, &c),
                    Some(CONSEC_REC),
                    Some(
                        Impact {
                            latency_multiplier: Some(3500),
                            cost_delta_monthly: Some(1_200_000),
                            affected_records_percent: None,
                        },
                    ),
                    800,
                ),
            );
        }
        let n = crate::text::decimal_text(ops.len() as u64);
        let mut summary = String::from_str(SUMMARY_A);
        summary.append(n.as_str());
        summary.append(SUMMARY_B);
        summary.append(n.as_str());
        summary.append(SUMMARY_C);
        make_result(self.name(), self.version(), findings, metrics, summary, 850)
    }
}

proof fn lemma_stage_findings(nodes: Seq<TransformNode>, ops: Seq<usize>)
    ensures
        stage_findings(nodes, ops).len() == ops.len(),
        forall|k: int|
            0 <= k < ops.len() ==> #[trigger] stage_findings(nodes, ops)[k] == stage_finding(
                nodes[ops[k] as int],
                (k + 1) as nat,
            ),
    decreases ops.len(),
{
    if ops.len() > 0 {
        lemma_stage_findings(nodes, ops.drop_last());
        assert forall|k: int| 0 <= k < ops.len() implies #[trigger] stage_findings(nodes, ops)[k]
            == stage_finding(nodes[ops[k] as int], (k + 1) as nat) by {
            if k < ops.len() - 1 {
                assert(ops.drop_last()[k] == ops[k]);
            }
        }
    }
}

/// Every shuffle node gets its own stage finding, numbered from 1 in node
/// order and naming that node alone; a single finding about consecutive
/// shuffles follows when more than one node takes part in them.
pub proof fn lemma_shuffle_stages(ir: PipelineIR)
    ensures
        ({
            let nodes = ir.nodes@;
            let ops = select(nodes, Selector::Class(NodeClass::Shuffle));
            let r = shuffle_result(ir);
            &&& r.findings.len() == ops.len() + (if ops.len() > 0 && consecutive_shuffles(ir).len() > 1 {
                1int
            } else {
                0int
            })
            &&& forall|k: int|
                0 <= k < ops.len() ==> #[trigger] r.findings[k] == stage_finding(nodes[ops[k] as int], (k + 1) as nat)
                    && r.findings[k].affected_nodes == seq![nodes[ops[k] as int].id@]
            &&& ops.len() > 0 && consecutive_shuffles(ir).len() > 1 ==> r.findings.last().id == "SHUFFLE_CONSECUTIVE"@
        }),
{
    let nodes = ir.nodes@;
    let ops = select(nodes, Selector::Class(NodeClass::Shuffle));
    lemma_stage_findings(nodes, ops);
    let r = shuffle_result(ir);
    let staged = stage_findings(nodes, ops);
    assert forall|k: int| 0 <= k < ops.len() implies #[trigger] r.findings[k] == stage_finding(
        nodes[ops[k] as int],
        (k + 1) as nat,
    ) && r.findings[k].affected_nodes == seq![nodes[ops[k] as int].id@] by {
        assert(r.findings[k] == staged[k]);
    }
}

/// The positions of `s` are in ascending order of in-degree.
pub open spec fn sorted_by_in_degree(ir: PipelineIR, s: Seq<usize>) -> bool {
    forall|i: int, j: int| 0 <= i < j < s.len() ==> in_degree(ir, #[trigger] s[i]) <= in_degree(ir, #[trigger] s[j])
}

proof fn lemma_insert_bounded(ir: PipelineIR, s: Seq<usize>, x: usize, v: nat)
    requires
        forall|i: int| 0 <= i < s.len() ==> in_degree(ir, #[trigger] s[i]) <= v,
        in_degree(ir, x) <= v,
    ensures
        forall|i: int|
            0 <= i < insert_by_in_degree(ir, s, x).len() ==> in_degree(ir, #[trigger] insert_by_in_degree(ir, s, x)[i])
                <= v,
    decreases s.len(),
{
    if s.len() > 0 && in_degree(ir, s.last()) > in_degree(ir, x) {
        let d = s.drop_last();
        assert forall|i: int| 0 <= i < d.len() implies in_degree(ir, #[trigger] d[i]) <= v by {
            assert(d[i] == s[i]);
        }
        lemma_insert_bounded(ir, d, x, v);
        let t = insert_by_in_degree(ir, d, x);
        assert forall|i: int| 0 <= i < t.push(s.last()).len() implies in_degree(ir, #[trigger] t.push(s.last())[i])
            <= v by {
            if i < t.len() {
                assert(t.push(s.last())[i] == t[i]);
            } else {
                assert(s[s.len() - 1] == s.last());
            }
        }
    } else if s.len() > 0 {
        assert forall|i: int| 0 <= i < s.push(x).len() implies in_degree(ir, #[trigger] s.push(x)[i]) <= v by {
            if i < s.len() {
                assert(s.push(x)[i] == s[i]);
            }
        }
    } else {
        assert(seq![x][0] == x);
    }
}

proof fn lemma_insert_sorted(ir: PipelineIR, s: Seq<usize>, x: usize)
    requires
        sorted_by_in_degree(ir, s),
    ensures
        sorted_by_in_degree(ir, insert_by_in_degree(ir, s, x)),
        insert_by_in_degree(ir, s, x).to_multiset() == s.to_multiset().insert(x),
    decreases s.len(),
{
    broadcast use vstd::seq_lib::group_to_multiset_ensures;

    if s.len() == 0 {
        assert(seq![x] =~= Seq::<usize>::empty().push(x));
    } else {
        let d = s.drop_last();
        let l = s.last();
        assert(s =~= d.push(l));
        if in_degree(ir, l) > in_degree(ir, x) {
            assert forall|i: int, j: int| 0 <= i < j < d.len() implies in_degree(ir, #[trigger] d[i])
                <= in_degree(ir, #[trigger] d[j]) by {
                assert(d[i] == s[i] && d[j] == s[j]);
            }
            lemma_insert_sorted(ir, d, x);
            assert forall|i: int| 0 <= i < d.len() implies in_degree(ir, #[trigger] d[i]) <= in_degree(ir, l) by {
                assert(d[i] == s[i]);
                assert(s[s.len() - 1] == l);
            }
            lemma_insert_bounded(ir, d, x, in_degree(ir, l));
            let t = insert_by_in_degree(ir, d, x);
            assert forall|i: int, j: int| 0 <= i < j < t.push(l).len() implies in_degree(
                ir,
                #[trigger] t.push(l)[i],
            ) <= in_degree(ir, #[trigger] t.push(l)[j]) by {
                assert(t.push(l)[i] == t[i]);
                if j < t.len() {
                    assert(t.push(l)[j] == t[j]);
                }
            }
        } else {
            assert forall|i: int, j: int| 0 <= i < j < s.push(x).len() implies in_degree(
                ir,
                #[trigger] s.push(x)[i],
            ) <= in_degree(ir, #[trigger] s.push(x)[j]) by {
                assert(s.push(x)[i] == s[i]);
                if j < s.len() {
                    assert(s.push(x)[j] == s[j]);
                } else {
                    assert(s[s.len() - 1] == l);
                }
            }
        }
    }
}

/// Sorting by in-degree orders the positions by in-degree and keeps each
/// of them as often as it occurs.
pub proof fn lemma_sort_by_in_degree(ir: PipelineIR, s: Seq<usize>)
    ensures
        sorted_by_in_degree(ir, sort_by_in_degree(ir, s)),
        sort_by_in_degree(ir, s).to_multiset() == s.to_multiset(),
    decreases s.len(),
{
    broadcast use vstd::seq_lib::group_to_multiset_ensures;

    if s.len() > 0 {
        lemma_sort_by_in_degree(ir, s.drop_last());
        lemma_insert_sorted(ir, sort_by_in_degree(ir, s.drop_last()), s.last());
        assert(s =~= s.drop_last().push(s.last()));
    }
}

} // verus!
