//! Summaries, filters and rankings computed from analysis results: severity
//! counts, risk and quality scores, deduplication, comparison of two runs,
//! prioritised findings and fix recommendations.
//!
//! Fractional figures are thousandths: confidences, averages and scores.
use crate::analyzer::{
    finding_views, metric_views, opt_text, severity_score, texts, total_severity_score,
    AnalysisResult, AnalysisResultView, Finding, FindingView, Metric, RiskSeverity,
};
use crate::analyzers::registry::result_views;
use crate::reporting::text_reporter::all_findings;
use crate::rules::{copy_strings, pattern_texts};
use crate::text::{contains, lower_contains, lower_text, str_eq, to_lowercase};
use vstd::prelude::*;

verus! {

// ---------------------------------------------------------------------------
// Stable ordering by a descending key
// ---------------------------------------------------------------------------

/// The first place in `order` whose key is below `v` (or the end).
pub open spec fn first_below(order: Seq<int>, keys: Seq<u128>, v: u128) -> int
    decreases order.len(),
{
    if order.len() == 0 {
        0
    } else if keys[order[0]] < v {
        0
    } else {
        1 + first_below(order.drop_first(), keys, v)
    }
}

/// The positions of `keys` ordered by descending key; equal keys keep their
/// relative order (each position is inserted after every earlier
/// one whose key is at least as large).
pub open spec fn desc_order(keys: Seq<u128>) -> Seq<int>
    decreases keys.len(),
{
    if keys.len() == 0 {
        Seq::empty()
    } else {
        let prev = desc_order(keys.drop_last());
        prev.insert(first_below(prev, keys, keys.last()), keys.len() - 1)
    }
}

proof fn lemma_first_below_is(order: Seq<int>, keys: Seq<u128>, v: u128, p: int)
    requires
        0 <= p <= order.len(),
        forall|q: int| 0 <= q < p ==> keys[#[trigger] order[q]] >= v,
        p == order.len() || keys[order[p]] < v,
    ensures
        first_below(order, keys, v) == p,
    decreases order.len(),
{
    if order.len() > 0 && p > 0 {
        assert(keys[order[0]] >= v);
        let t = order.drop_first();
        assert forall|q: int| 0 <= q < p - 1 implies keys[#[trigger] t[q]] >= v by {
            assert(t[q] == order[q + 1]);
        }
        if p < order.len() {
            assert(t[p - 1] == order[p]);
        }
        lemma_first_below_is(t, keys, v, p - 1);
    }
}

proof fn lemma_first_below_keys(order: Seq<int>, keys: Seq<u128>, more: Seq<u128>, v: u128)
    requires
        forall|q: int| 0 <= q < order.len() ==> 0 <= #[trigger] order[q] < keys.len(),
        keys.len() <= more.len(),
        forall|q: int| 0 <= q < keys.len() ==> more[q] == keys[q],
    ensures
        first_below(order, keys, v) == first_below(order, more, v),
    decreases order.len(),
{
    if order.len() > 0 {
        let t = order.drop_first();
        assert forall|q: int| 0 <= q < t.len() implies 0 <= #[trigger] t[q] < keys.len() by {
            assert(t[q] == order[q + 1]);
        }
        assert(0 <= order[0] < keys.len());
        lemma_first_below_keys(t, keys, more, v);
    }
}

proof fn lemma_first_below_char(order: Seq<int>, keys: Seq<u128>, v: u128)
    ensures
        0 <= first_below(order, keys, v) <= order.len(),
        forall|q: int| 0 <= q < first_below(order, keys, v) ==> keys[#[trigger] order[q]] >= v,
        first_below(order, keys, v) < order.len() ==> keys[order[first_below(order, keys, v)]] < v,
    decreases order.len(),
{
    if order.len() > 0 && keys[order[0]] >= v {
        let t = order.drop_first();
        lemma_first_below_char(t, keys, v);
        assert forall|q: int| 0 <= q < first_below(order, keys, v) implies keys[#[trigger] order[q]] >= v by {
            if q > 0 {
                assert(order[q] == t[q - 1]);
            }
        }
        if first_below(order, keys, v) < order.len() {
            assert(order[first_below(order, keys, v)] == t[first_below(t, keys, v)]);
        }
    }
}

/// Ordering by descending key is a permutation of the positions, sorted by
/// descending key, in which positions with equal keys keep their input
/// order.
pub proof fn lemma_desc_order_sorted(keys: Seq<u128>)
    ensures
        desc_order(keys).len() == keys.len(),
        forall|q: int| 0 <= q < keys.len() ==> 0 <= #[trigger] desc_order(keys)[q] < keys.len(),
        forall|q: int, p: int|
            0 <= q < p < keys.len() ==> #[trigger] desc_order(keys)[q] != #[trigger] desc_order(keys)[p],
        forall|q: int, p: int|
            0 <= q < p < keys.len() ==> keys[#[trigger] desc_order(keys)[q]] >= keys[#[trigger] desc_order(
                keys,
            )[p]],
        forall|q: int, p: int|
            0 <= q < p < keys.len() && keys[desc_order(keys)[q]] == keys[desc_order(keys)[p]]
                ==> #[trigger] desc_order(keys)[q] < #[trigger] desc_order(keys)[p],
    decreases keys.len(),
{
    if keys.len() > 0 {
        let ks = keys.drop_last();
        let prev = desc_order(ks);
        let x = keys.len() - 1;
        let v = keys.last();
        lemma_desc_order_sorted(ks);
        assert forall|q: int| 0 <= q < prev.len() implies 0 <= #[trigger] prev[q] < ks.len() by {}
        lemma_first_below_keys(prev, ks, keys, v);
        let p = first_below(prev, keys, v);
        lemma_first_below_char(prev, keys, v);
        let o = prev.insert(p, x);
        assert(o == desc_order(keys));
        assert forall|q: int| 0 <= q < prev.len() implies keys[#[trigger] prev[q]] == ks[prev[q]] by {}
        assert forall|q: int| 0 <= q < o.len() implies (q < p ==> #[trigger] o[q] == prev[q]) && (q == p ==> o[q]
            == x) && (q > p ==> o[q] == prev[q - 1]) by {}
        assert forall|q: int| 0 <= q < keys.len() implies 0 <= #[trigger] o[q] < keys.len() by {
            if q < p {
                assert(o[q] == prev[q]);
            } else if q > p {
                assert(o[q] == prev[q - 1]);
            }
        }
        assert forall|q: int, r: int| 0 <= q < r < keys.len() implies #[trigger] o[q] != #[trigger] o[r] by {
            if q < p && r < p {
            } else if q < p && r == p {
                assert(prev[q] < x);
            } else if q == p {
                assert(prev[r - 1] < x);
            } else if q < p {
            } else {
            }
        }
        assert forall|q: int, r: int| 0 <= q < r < keys.len() implies keys[#[trigger] o[q]] >= keys[#[trigger] o[r]]
            && (keys[o[q]] == keys[o[r]] ==> o[q] < o[r]) by {
            if q < p && r < p {
                assert(o[q] == prev[q] && o[r] == prev[r]);
            } else if q < p && r == p {
                assert(keys[prev[q]] >= v);
                assert(prev[q] < x);
            } else if q < p {
                assert(o[q] == prev[q] && o[r] == prev[r - 1]);
            } else if q == p {
                assert(o[r] == prev[r - 1]);
                assert(keys[prev[p]] < v);
                if r - 1 > p {
                    assert(ks[prev[p]] >= ks[prev[r - 1]]);
                }
                assert(keys[prev[r - 1]] < v);
            } else {
                assert(o[q] == prev[q - 1] && o[r] == prev[r - 1]);
            }
        }
    }
}

/// The positions of `keys` in descending key order, stable (see
/// [`desc_order`]).
pub fn stable_desc_order(keys: &Vec<u128>) -> (r: Vec<usize>)
    ensures
        r@.len() == keys@.len(),
        forall|q: int| 0 <= q < r@.len() ==> #[trigger] r@[q] < keys@.len(),
        forall|q: int| 0 <= q < r@.len() ==> r@[q] as int == #[trigger] desc_order(keys@)[q],
        desc_order(keys@).len() == keys@.len(),
{
    let mut order: Vec<usize> = Vec::new();
    let mut i: usize = 0;
    while i < keys.len()
        invariant
            i <= keys@.len(),
            order@.len() == i,
            desc_order(keys@.take(i as int)).len() == i,
            forall|q: int| 0 <= q < i ==> #[trigger] order@[q] < i,
            forall|q: int|
                0 <= q < i ==> order@[q] as int == #[trigger] desc_order(keys@.take(i as int))[q],
        decreases keys@.len() - i,
    {
        let ghost ks = keys@.take(i + 1);
        let ghost prev = desc_order(keys@.take(i as int));
        proof {
            assert(ks.drop_last() =~= keys@.take(i as int));
            assert(ks.last() == keys@[i as int]);
        }
        let v = keys[i];
        let mut p: usize = 0;
        while p < order.len() && keys[order[p]] >= v
            invariant
                p <= order@.len(),
                order@.len() == i,
                i < keys@.len(),
                v == keys@[i as int],
                forall|q: int| 0 <= q < i ==> #[trigger] order@[q] < i,
                forall|q: int| 0 <= q < p ==> keys@[#[trigger] order@[q] as int] >= v,
            decreases order@.len() - p,
        {
            p = p + 1;
        }
        proof {
            assert forall|q: int| 0 <= q < prev.len() implies 0 <= #[trigger] prev[q] < keys@.take(
                i as int,
            ).len() by {
                assert(prev[q] == order@[q] as int);
            }
            assert forall|q: int| 0 <= q < p implies keys@.take(i as int)[#[trigger] prev[q]] >= v by {
                assert(prev[q] == order@[q] as int);
            }
            if p < i {
                assert(prev[p as int] == order@[p as int] as int);
            }
            lemma_first_below_is(prev, keys@.take(i as int), v, p as int);
            lemma_first_below_keys(prev, keys@.take(i as int), ks, v);
        }
        let ghost before = order@;
        order.insert(p, i);
        proof {
            let d = desc_order(ks);
            assert(d == prev.insert(p as int, i as int));
            assert forall|q: int| 0 <= q < i + 1 implies order@[q] as int == #[trigger] d[q] by {
                if q < p {
                    assert(order@[q] == before[q]);
                } else if q > p {
                    assert(order@[q] == before[q - 1]);
                }
            }
            assert forall|q: int| 0 <= q < i + 1 implies #[trigger] order@[q] < i + 1 by {
                if q < p {
                    assert(order@[q] == before[q]);
                } else if q > p {
                    assert(order@[q] == before[q - 1]);
                }
            }
        }
        i = i + 1;
    }
    proof {
        assert(keys@.take(keys@.len() as int) =~= keys@);
    }
    order
}

// ---------------------------------------------------------------------------
// Copies and the flat list of findings
// ---------------------------------------------------------------------------

fn copy_opt_string(o: &Option<String>) -> (r: Option<String>)
    ensures
        opt_text(r) == opt_text(*o),
{
    match o {
        Some(s) => Some(s.clone()),
        None => None,
    }
}

/// A copy of a finding.
fn copy_finding(f: &Finding) -> (r: Finding)
    ensures
        r@ == f@,
{
    let nodes = copy_strings(&f.affected_nodes);
    proof {
        assert(texts(nodes@) =~= texts(f.affected_nodes@)) by {
            assert(pattern_texts(nodes@) == pattern_texts(f.affected_nodes@));
            assert forall|k: int| 0 <= k < nodes@.len() implies texts(nodes@)[k] == texts(
                f.affected_nodes@,
            )[k] by {
                assert(pattern_texts(nodes@)[k] == pattern_texts(f.affected_nodes@)[k]);
            }
        }
    }
    Finding {
        id: f.id.clone(),
        severity: f.severity,
        finding_type: f.finding_type,
        title: f.title.clone(),
        description: f.description.clone(),
        affected_nodes: nodes,
        recommendation: copy_opt_string(&f.recommendation),
        estimated_impact: f.estimated_impact,
        confidence: f.confidence,
    }
}

/// A copy of a list of metrics.
fn copy_metrics(v: &Vec<Metric>) -> (r: Vec<Metric>)
    ensures
        metric_views(r@) == metric_views(v@),
{
    let mut r: Vec<Metric> = Vec::new();
    let mut i: usize = 0;
    while i < v.len()
        invariant
            i <= v@.len(),
            metric_views(r@) =~= metric_views(v@).take(i as int),
        decreases v@.len() - i,
    {
        let ghost r0 = r@;
        r.push(Metric { name: v[i].name.clone(), value: v[i].value });
        proof {
            assert(metric_views(r@) =~= metric_views(r0).push(metric_views(v@)[i as int]));
        }
        i = i + 1;
    }
    proof {
        assert(metric_views(v@).take(v@.len() as int) =~= metric_views(v@));
    }
    r
}

/// The findings of results `0..i` followed by the first `j` findings of
/// result `i`.
pub open spec fn findings_upto(rs: Seq<AnalysisResultView>, i: int, j: int) -> Seq<FindingView> {
    all_findings(rs.take(i)) + rs[i].findings.take(j)
}

proof fn lemma_findings_step(rs: Seq<AnalysisResultView>, i: int)
    requires
        0 <= i < rs.len(),
    ensures
        all_findings(rs.take(i + 1)) == all_findings(rs.take(i)) + rs[i].findings,
{
    assert(rs.take(i + 1).drop_last() =~= rs.take(i));
}

/// Every finding of the results, in order.
fn flatten_findings(results: &Vec<AnalysisResult>) -> (r: Vec<&Finding>)
    ensures
        r@.len() == all_findings(result_views(results@)).len(),
        forall|k: int| 0 <= k < r@.len() ==> #[trigger] r@[k]@ == all_findings(result_views(results@))[k],
{
    let ghost rs = result_views(results@);
    let mut out: Vec<&Finding> = Vec::new();
    let mut i: usize = 0;
    while i < results.len()
        invariant
            i <= results@.len(),
            rs == result_views(results@),
            out@.len() == all_findings(rs.take(i as int)).len(),
            forall|k: int| 0 <= k < out@.len() ==> #[trigger] out@[k]@ == all_findings(rs.take(i as int))[k],
        decreases results@.len() - i,
    {
        let fs = &results[i].findings;
        let mut j: usize = 0;
        while j < fs.len()
            invariant
                i < results@.len(),
                j <= fs@.len(),
                fs == results@[i as int].findings,
                rs == result_views(results@),
                out@.len() == findings_upto(rs, i as int, j as int).len(),
                forall|k: int| 0 <= k < out@.len() ==> #[trigger] out@[k]@ == findings_upto(rs, i as int, j as int)[k],
            decreases fs@.len() - j,
        {
            proof {
                assert(rs[i as int].findings == finding_views(fs@));
                assert(findings_upto(rs, i as int, j + 1) =~= findings_upto(rs, i as int, j as int).push(
                    fs@[j as int]@,
                ));
            }
            out.push(&fs[j]);
            j = j + 1;
        }
        proof {
            lemma_findings_step(rs, i as int);
            assert(rs[i as int].findings.take(fs@.len() as int) =~= rs[i as int].findings);
        }
        i = i + 1;
    }
    proof {
        assert(rs.take(results@.len() as int) =~= rs);
    }
    out
}

// ---------------------------------------------------------------------------
// Counts and scores over all findings
// ---------------------------------------------------------------------------

/// How many findings have severity `s`.
pub open spec fn severity_count(fs: Seq<FindingView>, s: RiskSeverity) -> nat
    decreases fs.len(),
{
    if fs.len() == 0 {
        0
    } else {
        severity_count(fs.drop_last(), s) + if fs.last().severity == s {
            1nat
        } else {
            0nat
        }
    }
}

/// The summed confidences of findings, in thousandths.
pub open spec fn confidence_total(fs: Seq<FindingView>) -> nat
    decreases fs.len(),
{
    if fs.len() == 0 {
        0
    } else {
        confidence_total(fs.drop_last()) + fs.last().confidence as nat
    }
}

proof fn lemma_counts_bounded(fs: Seq<FindingView>, s: RiskSeverity)
    ensures
        severity_count(fs, s) <= fs.len(),
        0 <= total_severity_score(fs) <= 5 * fs.len(),
        confidence_total(fs) <= u32::MAX * fs.len(),
    decreases fs.len(),
{
    if fs.len() > 0 {
        lemma_counts_bounded(fs.drop_last(), s);
    }
}

/// Findings per severity.
pub struct PySeveritySummary {
    pub critical_count: usize,
    pub high_count: usize,
    pub medium_count: usize,
    pub low_count: usize,
    pub info_count: usize,
}

/// Counts the findings of all results per severity.
pub fn get_severity_summary(results: Vec<AnalysisResult>) -> (r: PySeveritySummary)
    ensures
        r.critical_count == severity_count(all_findings(result_views(results@)), RiskSeverity::Critical),
        r.high_count == severity_count(all_findings(result_views(results@)), RiskSeverity::High),
        r.medium_count == severity_count(all_findings(result_views(results@)), RiskSeverity::Medium),
        r.low_count == severity_count(all_findings(result_views(results@)), RiskSeverity::Low),
        r.info_count == severity_count(all_findings(result_views(results@)), RiskSeverity::Info),
{
    severity_summary_of(&results)
}

fn severity_summary_of(results: &Vec<AnalysisResult>) -> (r: PySeveritySummary)
    ensures
        r.critical_count == severity_count(all_findings(result_views(results@)), RiskSeverity::Critical),
        r.high_count == severity_count(all_findings(result_views(results@)), RiskSeverity::High),
        r.medium_count == severity_count(all_findings(result_views(results@)), RiskSeverity::Medium),
        r.low_count == severity_count(all_findings(result_views(results@)), RiskSeverity::Low),
        r.info_count == severity_count(all_findings(result_views(results@)), RiskSeverity::Info),
{
    let ghost all = all_findings(result_views(results@));
    let fs = flatten_findings(results);
    let mut r = PySeveritySummary { critical_count: 0, high_count: 0, medium_count: 0, low_count: 0, info_count: 0 };
    let mut k: usize = 0;
    while k < fs.len()
        invariant
            k <= fs@.len(),
            fs@.len() == all.len(),
            forall|q: int| 0 <= q < fs@.len() ==> #[trigger] fs@[q]@ == all[q],
            r.critical_count == severity_count(all.take(k as int), RiskSeverity::Critical),
            r.high_count == severity_count(all.take(k as int), RiskSeverity::High),
            r.medium_count == severity_count(all.take(k as int), RiskSeverity::Medium),
            r.low_count == severity_count(all.take(k as int), RiskSeverity::Low),
            r.info_count == severity_count(all.take(k as int), RiskSeverity::Info),
        decreases fs@.len() - k,
    {
        proof {
            assert(all.take(k + 1).drop_last() =~= all.take(k as int));
            assert(all.take(k + 1).last() == fs@[k as int]@);
            lemma_counts_bounded(all.take(k as int), RiskSeverity::Critical);
            lemma_counts_bounded(all.take(k as int), RiskSeverity::High);
            lemma_counts_bounded(all.take(k as int), RiskSeverity::Medium);
            lemma_counts_bounded(all.take(k as int), RiskSeverity::Low);
            lemma_counts_bounded(all.take(k as int), RiskSeverity::Info);
        }
        match fs[k].severity {
            RiskSeverity::Critical => r.critical_count = r.critical_count + 1,
            RiskSeverity::High => r.high_count = r.high_count + 1,
            RiskSeverity::Medium => r.medium_count = r.medium_count + 1,
            RiskSeverity::Low => r.low_count = r.low_count + 1,
            RiskSeverity::Info => r.info_count = r.info_count + 1,
        }
        k = k + 1;
    }
    proof {
        assert(all.take(all.len() as int) =~= all);
    }
    r
}

/// The average severity score of findings as a share of the highest (5),
/// in thousandths of a percent; 0 without findings.
pub open spec fn risk_milli(fs: Seq<FindingView>) -> nat {
    if fs.len() == 0 {
        0
    } else {
        (total_severity_score(fs) * 20_000 / fs.len() as int) as nat
    }
}

/// The risk score is on a 0 to 100 scale: at most 100 (in thousandths), and
/// 100 exactly when every finding is critical.
pub proof fn lemma_risk_bounded(fs: Seq<FindingView>)
    ensures
        risk_milli(fs) <= 100_000,
        fs.len() > 0 && (forall|k: int| 0 <= k < fs.len() ==> (#[trigger] fs[k]).severity == RiskSeverity::Critical)
            ==> risk_milli(fs) == 100_000,
{
    lemma_counts_bounded(fs, RiskSeverity::Info);
    if fs.len() > 0 {
        let t = total_severity_score(fs);
        let n = fs.len() as int;
        assert(t * 20_000 / n <= 100_000) by (nonlinear_arith)
            requires
                0 <= t <= 5 * n,
                n > 0,
        ;
        if forall|k: int| 0 <= k < fs.len() ==> (#[trigger] fs[k]).severity == RiskSeverity::Critical {
            lemma_all_critical_total(fs);
            assert(5 * n * 20_000 / n == 100_000) by (nonlinear_arith)
                requires
                    n > 0,
            ;
        }
    }
}

proof fn lemma_all_critical_total(fs: Seq<FindingView>)
    requires
        forall|k: int| 0 <= k < fs.len() ==> (#[trigger] fs[k]).severity == RiskSeverity::Critical,
    ensures
        total_severity_score(fs) == 5 * fs.len(),
    decreases fs.len(),
{
    if fs.len() > 0 {
        assert forall|k: int| 0 <= k < fs.drop_last().len() implies (#[trigger] fs.drop_last()[k]).severity
            == RiskSeverity::Critical by {
            assert(fs.drop_last()[k] == fs[k]);
        }
        lemma_all_critical_total(fs.drop_last());
    }
}

/// Sums the severity scores and the confidences of findings.
fn totals(fs: &Vec<&Finding>) -> (r: (u128, u128))
    ensures
        r.0 == total_severity_score(fs@.map_values(|f: &Finding| f@)),
        r.1 == confidence_total(fs@.map_values(|f: &Finding| f@)),
{
    let ghost all = fs@.map_values(|f: &Finding| f@);
    let mut sev: u128 = 0;
    let mut conf: u128 = 0;
    let mut k: usize = 0;
    while k < fs.len()
        invariant
            k <= fs@.len(),
            all == fs@.map_values(|f: &Finding| f@),
            sev == total_severity_score(all.take(k as int)),
            conf == confidence_total(all.take(k as int)),
        decreases fs@.len() - k,
    {
        proof {
            assert(all.take(k + 1).drop_last() =~= all.take(k as int));
            assert(all.take(k + 1).last() == fs@[k as int]@);
            lemma_counts_bounded(all.take(k as int), RiskSeverity::Info);
            assert(k < 0x1_0000_0000_0000_0000u128);
        }
        sev = sev + fs[k].severity.score() as u128;
        conf = conf + fs[k].confidence as u128;
        k = k + 1;
    }
    proof {
        assert(all.take(all.len() as int) =~= all);
    }
    (sev, conf)
}

proof fn lemma_flat_views(fs: Seq<&Finding>, all: Seq<FindingView>)
    requires
        fs.len() == all.len(),
        forall|k: int| 0 <= k < fs.len() ==> #[trigger] fs[k]@ == all[k],
    ensures
        fs.map_values(|f: &Finding| f@) == all,
{
    assert(fs.map_values(|f: &Finding| f@) =~= all);
}

/// The overall risk of the results: the average severity score of all
/// findings as a share of the highest, in thousandths of a percent (0
/// without findings).
pub fn calculate_risk_score(results: Vec<AnalysisResult>) -> (r: u64)
    ensures
        r == risk_milli(all_findings(result_views(results@))),
{
    risk_of(&results)
}

fn risk_of(results: &Vec<AnalysisResult>) -> (r: u64)
    ensures
        r == risk_milli(all_findings(result_views(results@))),
{
    let ghost all = all_findings(result_views(results@));
    let fs = flatten_findings(results);
    proof {
        lemma_flat_views(fs@, all);
        lemma_counts_bounded(all, RiskSeverity::Info);
    }
    let n = fs.len();
    if n == 0 {
        return 0;
    }
    let (sev, _conf) = totals(&fs);
    assert(sev * 20_000 <= 100_000 * (n as u128)) by (nonlinear_arith)
        requires
            sev <= 5 * n,
    ;
    assert((sev * 20_000) as int / (n as int) <= 100_000) by (nonlinear_arith)
        requires
            sev * 20_000 <= 100_000 * (n as int),
            n > 0,
    ;
    (sev * 20_000 / (n as u128)) as u64
}

/// The quality of the results: the average confidence of all findings as
/// a percentage, in thousandths; 100 (percent) when nothing was found and 0
/// for no results at all.
pub open spec fn quality_milli(rs: Seq<AnalysisResultView>) -> nat {
    let fs = all_findings(rs);
    if rs.len() == 0 {
        0
    } else if fs.len() == 0 {
        100_000
    } else {
        confidence_total(fs) * 100 / fs.len()
    }
}

/// The quality score of the results (see [`quality_milli`]).
pub fn calculate_quality_score(results: Vec<AnalysisResult>) -> (r: u64)
    ensures
        r == quality_milli(result_views(results@)),
{
    let ghost all = all_findings(result_views(results@));
    if results.len() == 0 {
        return 0;
    }
    let fs = flatten_findings(&results);
    proof {
        lemma_flat_views(fs@, all);
        lemma_counts_bounded(all, RiskSeverity::Info);
    }
    let n = fs.len();
    if n == 0 {
        return 100_000;
    }
    let (_sev, conf) = totals(&fs);
    assert(conf * 100 <= 0xffff_ffffu128 * 100 * (n as u128)) by (nonlinear_arith)
        requires
            conf <= 0xffff_ffffu128 * (n as u128),
    ;
    assert((conf * 100) as int / (n as int) <= 0xffff_ffff * 100) by (nonlinear_arith)
        requires
            conf * 100 <= 0xffff_ffffu128 * 100 * (n as u128),
            n > 0,
    ;
    assert(n < 0x1_0000_0000_0000_0000u128);
    (conf * 100 / (n as u128)) as u64
}

/// A point-in-time summary of results.
pub struct PyResultSnapshot {
    pub timestamp_unix: i64,
    pub total_findings: usize,
    pub critical_count: usize,
    pub analyzer_count: usize,
    /// As [`calculate_risk_score`], in thousandths of a percent.
    pub overall_risk_score: u64,
}

/// A snapshot of the results taken at `timestamp_unix` (seconds since the
/// Unix epoch, read by the caller).
pub fn create_result_snapshot(results: Vec<AnalysisResult>, timestamp_unix: i64) -> (r: PyResultSnapshot)
    ensures
        r.timestamp_unix == timestamp_unix,
        r.total_findings == all_findings(result_views(results@)).len(),
        r.critical_count == severity_count(all_findings(result_views(results@)), RiskSeverity::Critical),
        r.analyzer_count == results@.len(),
        r.overall_risk_score == risk_milli(all_findings(result_views(results@))),
{
    let ghost all = all_findings(result_views(results@));
    let n = results.len();
    let total = flatten_findings(&results).len();
    let summary = severity_summary_of(&results);
    let risk = risk_of(&results);
    PyResultSnapshot {
        timestamp_unix,
        total_findings: total,
        critical_count: summary.critical_count,
        analyzer_count: n,
        overall_risk_score: risk,
    }
}

/// A copy of a result.
fn copy_result(r: &AnalysisResult) -> (c: AnalysisResult)
    ensures
        c@ == r@,
{
    let mut fs: Vec<Finding> = Vec::new();
    let mut k: usize = 0;
    while k < r.findings.len()
        invariant
            k <= r.findings@.len(),
            finding_views(fs@) =~= finding_views(r.findings@).take(k as int),
        decreases r.findings@.len() - k,
    {
        let ghost f0 = fs@;
        fs.push(copy_finding(&r.findings[k]));
        proof {
            assert(finding_views(fs@) =~= finding_views(f0).push(r.findings@[k as int]@));
        }
        k = k + 1;
    }
    proof {
        assert(finding_views(r.findings@).take(r.findings@.len() as int) =~= finding_views(r.findings@));
    }
    AnalysisResult {
        analyzer_name: r.analyzer_name.clone(),
        version: r.version.clone(),
        findings: fs,
        metrics: copy_metrics(&r.metrics),
        summary: r.summary.clone(),
        confidence: r.confidence,
    }
}

// ---------------------------------------------------------------------------
// Filtering, searching and deduplicating findings
// ---------------------------------------------------------------------------

/// The findings whose severity scores at least `min`, in order.
pub open spec fn at_least(fs: Seq<FindingView>, min: u32) -> Seq<FindingView>
    decreases fs.len(),
{
    if fs.len() == 0 {
        Seq::empty()
    } else if severity_score(fs.last().severity) >= min {
        at_least(fs.drop_last(), min).push(fs.last())
    } else {
        at_least(fs.drop_last(), min)
    }
}

/// Every finding kept by the filter scores at least the minimum, and a
/// minimum of 1 (info) keeps everything.
pub proof fn lemma_at_least(fs: Seq<FindingView>, min: u32)
    ensures
        forall|k: int| 0 <= k < at_least(fs, min).len() ==> severity_score((#[trigger] at_least(fs, min)[k]).severity) >= min,
        min <= 1 ==> at_least(fs, min) == fs,
    decreases fs.len(),
{
    if fs.len() > 0 {
        lemma_at_least(fs.drop_last(), min);
        let p = at_least(fs.drop_last(), min);
        if severity_score(fs.last().severity) >= min {
            assert forall|k: int| 0 <= k < at_least(fs, min).len() implies severity_score(
                (#[trigger] at_least(fs, min)[k]).severity,
            ) >= min by {
                if k < p.len() {
                    assert(at_least(fs, min)[k] == p[k]);
                }
            }
        }
        if min <= 1 {
            assert(fs.drop_last().push(fs.last()) =~= fs);
        }
    }
}

/// A result keeping only the findings that score at least `min`.
pub open spec fn result_at_least(r: AnalysisResultView, min: u32) -> AnalysisResultView {
    AnalysisResultView { findings: at_least(r.findings, min), ..r }
}

/// The findings of `v` that score at least `min`, copied.
fn findings_at_least(v: &Vec<Finding>, min: u32) -> (r: Vec<Finding>)
    ensures
        finding_views(r@) == at_least(finding_views(v@), min),
{
    let ghost fv = finding_views(v@);
    let mut r: Vec<Finding> = Vec::new();
    let mut k: usize = 0;
    while k < v.len()
        invariant
            k <= v@.len(),
            fv == finding_views(v@),
            finding_views(r@) == at_least(fv.take(k as int), min),
        decreases v@.len() - k,
    {
        proof {
            assert(fv.take(k + 1).drop_last() =~= fv.take(k as int));
            assert(fv.take(k + 1).last() == v@[k as int]@);
        }
        if v[k].severity.score() >= min {
            let ghost r0 = r@;
            r.push(copy_finding(&v[k]));
            proof {
                assert(finding_views(r@) =~= finding_views(r0).push(v@[k as int]@));
            }
        }
        k = k + 1;
    }
    proof {
        assert(fv.take(v@.len() as int) =~= fv);
    }
    r
}

/// The results with only the findings whose severity scores at least
/// `min_severity` (1 for info up to 5 for critical).
pub fn filter_findings_by_severity(results: Vec<AnalysisResult>, min_severity: u32) -> (r: Vec<AnalysisResult>)
    ensures
        r@.len() == results@.len(),
        forall|i: int| 0 <= i < r@.len() ==> #[trigger] r@[i]@ == result_at_least(results@[i]@, min_severity),
{
    let mut out: Vec<AnalysisResult> = Vec::new();
    let mut i: usize = 0;
    while i < results.len()
        invariant
            i <= results@.len(),
            out@.len() == i,
            forall|q: int| 0 <= q < i ==> #[trigger] out@[q]@ == result_at_least(results@[q]@, min_severity),
        decreases results@.len() - i,
    {
        let r = &results[i];
        out.push(
            AnalysisResult {
                analyzer_name: r.analyzer_name.clone(),
                version: r.version.clone(),
                findings: findings_at_least(&r.findings, min_severity),
                metrics: copy_metrics(&r.metrics),
                summary: r.summary.clone(),
                confidence: r.confidence,
            },
        );
        i = i + 1;
    }
    out
}

/// The finding's title or description contains `q`, ignoring case.
pub open spec fn mentions(f: FindingView, q: Seq<char>) -> bool {
    contains(lower_text(f.title), lower_text(q)) || contains(lower_text(f.description), lower_text(q))
}

/// The findings that mention `q`, in order.
pub open spec fn mentioning(fs: Seq<FindingView>, q: Seq<char>) -> Seq<FindingView>
    decreases fs.len(),
{
    if fs.len() == 0 {
        Seq::empty()
    } else if mentions(fs.last(), q) {
        mentioning(fs.drop_last(), q).push(fs.last())
    } else {
        mentioning(fs.drop_last(), q)
    }
}

/// The findings of all results whose title or description contains
/// `query`, ignoring case, in order.
pub fn search_findings(results: Vec<AnalysisResult>, query: &str) -> (r: Vec<Finding>)
    ensures
        finding_views(r@) == mentioning(all_findings(result_views(results@)), query@),
{
    let ghost all = all_findings(result_views(results@));
    let q = to_lowercase(query);
    let fs = flatten_findings(&results);
    let mut out: Vec<Finding> = Vec::new();
    let mut k: usize = 0;
    while k < fs.len()
        invariant
            k <= fs@.len(),
            fs@.len() == all.len(),
            forall|p: int| 0 <= p < fs@.len() ==> #[trigger] fs@[p]@ == all[p],
            q@ == lower_text(query@),
            finding_views(out@) == mentioning(all.take(k as int), query@),
        decreases fs@.len() - k,
    {
        proof {
            assert(all.take(k + 1).drop_last() =~= all.take(k as int));
            assert(all.take(k + 1).last() == fs@[k as int]@);
        }
        let f = fs[k];
        if lower_contains(f.title.as_str(), q.as_str()) || lower_contains(f.description.as_str(), q.as_str()) {
            let ghost o0 = out@;
            out.push(copy_finding(f));
            proof {
                assert(finding_views(out@) =~= finding_views(o0).push(f@));
            }
        }
        k = k + 1;
    }
    proof {
        assert(all.take(all.len() as int) =~= all);
    }
    out
}

/// Some finding of `seen` has the id `id`.
pub open spec fn id_seen(seen: Seq<FindingView>, id: Seq<char>) -> bool {
    exists|k: int| 0 <= k < seen.len() && (#[trigger] seen[k]).id == id
}

/// The findings of `fs` whose id occurs neither in `seen` nor earlier in
/// `fs`, in order.
pub open spec fn first_occurrences(seen: Seq<FindingView>, fs: Seq<FindingView>) -> Seq<FindingView>
    decreases fs.len(),
{
    if fs.len() == 0 {
        Seq::empty()
    } else if id_seen(seen + fs.drop_last(), fs.last().id) {
        first_occurrences(seen, fs.drop_last())
    } else {
        first_occurrences(seen, fs.drop_last()).push(fs.last())
    }
}

/// The results with each finding id kept only where it first occurs, over
/// all results in order.
pub open spec fn deduplicated(rs: Seq<AnalysisResultView>) -> Seq<AnalysisResultView> {
    Seq::new(
        rs.len(),
        |i: int| AnalysisResultView { findings: first_occurrences(all_findings(rs.take(i)), rs[i].findings), ..rs[i] },
    )
}

proof fn lemma_first_occurrences_concat(seen: Seq<FindingView>, a: Seq<FindingView>, b: Seq<FindingView>)
    ensures
        first_occurrences(seen, a + b) == first_occurrences(seen, a) + first_occurrences(seen + a, b),
    decreases b.len(),
{
    if b.len() == 0 {
        assert(a + b =~= a);
        assert(first_occurrences(seen, a) + first_occurrences(seen + a, b) =~= first_occurrences(seen, a));
    } else {
        let b2 = b.drop_last();
        lemma_first_occurrences_concat(seen, a, b2);
        assert((a + b).drop_last() =~= a + b2);
        assert((a + b).last() == b.last());
        assert(seen + (a + b2) =~= (seen + a) + b2);
        if id_seen(seen + (a + b2), b.last().id) {
        } else {
            assert(first_occurrences(seen, a + b) =~= first_occurrences(seen, a) + first_occurrences(seen + a, b));
        }
    }
}

proof fn lemma_first_occurrences_props(seen: Seq<FindingView>, fs: Seq<FindingView>)
    ensures
        forall|i: int, j: int|
            0 <= i < j < first_occurrences(seen, fs).len() ==> (#[trigger] first_occurrences(seen, fs)[i]).id
                != (#[trigger] first_occurrences(seen, fs)[j]).id,
        forall|i: int|
            0 <= i < first_occurrences(seen, fs).len() ==> !id_seen(seen, (#[trigger] first_occurrences(seen, fs)[i]).id),
        forall|id: Seq<char>|
            #[trigger] id_seen(seen + fs, id) <==> (id_seen(seen, id) || id_seen(first_occurrences(seen, fs), id)),
    decreases fs.len(),
{
    let r = first_occurrences(seen, fs);
    if fs.len() == 0 {
        assert(seen + fs =~= seen);
        assert forall|id: Seq<char>| #[trigger] id_seen(seen + fs, id) <==> (id_seen(seen, id) || id_seen(r, id)) by {}
    } else {
        let p = fs.drop_last();
        let y = fs.last();
        let r0 = first_occurrences(seen, p);
        lemma_first_occurrences_props(seen, p);
        assert(seen + fs =~= (seen + p).push(y));
        assert forall|id: Seq<char>| id_seen((seen + p).push(y), id) == (id_seen(seen + p, id) || y.id == id) by {
            let t = (seen + p).push(y);
            if id_seen(t, id) {
                let k = choose|k: int| 0 <= k < t.len() && (#[trigger] t[k]).id == id;
                if k < (seen + p).len() {
                    assert(t[k] == (seen + p)[k]);
                }
            }
            if id_seen(seen + p, id) {
                let k = choose|k: int| 0 <= k < (seen + p).len() && (#[trigger] (seen + p)[k]).id == id;
                assert(t[k] == (seen + p)[k]);
            }
            if y.id == id {
                assert(t[t.len() - 1] == y);
            }
        }
        if id_seen(seen + p, y.id) {
            assert(r == r0);
            assert forall|id: Seq<char>| #[trigger] id_seen(seen + fs, id) <==> (id_seen(seen, id) || id_seen(r, id)) by {
                assert(id_seen(seen + fs, id) == (id_seen(seen + p, id) || y.id == id));
            }
        } else {
            assert(r == r0.push(y));
            assert(!id_seen(seen, y.id)) by {
                if id_seen(seen, y.id) {
                    let k = choose|k: int| 0 <= k < seen.len() && (#[trigger] seen[k]).id == y.id;
                    assert((seen + p)[k] == seen[k]);
                }
            }
            assert(!id_seen(r0, y.id));
            assert forall|i: int, j: int| 0 <= i < j < r.len() implies (#[trigger] r[i]).id != (#[trigger] r[j]).id by {
                if j == r.len() - 1 {
                    assert(r[i] == r0[i]);
                    assert(r[j] == y);
                    if r0[i].id == y.id {
                        assert(id_seen(r0, y.id));
                    }
                } else {
                    assert(r[i] == r0[i] && r[j] == r0[j]);
                }
            }
            assert forall|i: int| 0 <= i < r.len() implies !id_seen(seen, (#[trigger] r[i]).id) by {
                if i < r0.len() {
                    assert(r[i] == r0[i]);
                }
            }
            assert forall|id: Seq<char>| #[trigger] id_seen(seen + fs, id) <==> (id_seen(seen, id) || id_seen(r, id)) by {
                assert(id_seen(seen + fs, id) == (id_seen(seen + p, id) || y.id == id));
                if id_seen(r, id) {
                    let k = choose|k: int| 0 <= k < r.len() && (#[trigger] r[k]).id == id;
                    if k < r0.len() {
                        assert(r[k] == r0[k]);
                    }
                }
                if id_seen(r0, id) {
                    let k = choose|k: int| 0 <= k < r0.len() && (#[trigger] r0[k]).id == id;
                    assert(r[k] == r0[k]);
                }
                if y.id == id {
                    assert(r[r.len() - 1] == y);
                }
            }
        }
    }
}

proof fn lemma_deduplicated_flat(rs: Seq<AnalysisResultView>)
    ensures
        all_findings(deduplicated(rs)) == first_occurrences(Seq::empty(), all_findings(rs)),
    decreases rs.len(),
{
    if rs.len() == 0 {
        assert(all_findings(deduplicated(rs)) =~= Seq::<FindingView>::empty());
    } else {
        let p = rs.drop_last();
        lemma_deduplicated_flat(p);
        let d = deduplicated(rs);
        assert(d.drop_last() =~= deduplicated(p)) by {
            assert forall|i: int| 0 <= i < p.len() implies d.drop_last()[i] == deduplicated(p)[i] by {
                assert(rs.take(i) =~= p.take(i));
            }
        }
        assert(rs.take(rs.len() - 1) =~= p);
        lemma_first_occurrences_concat(Seq::empty(), all_findings(p), rs.last().findings);
        assert(Seq::<FindingView>::empty() + all_findings(p) =~= all_findings(p));
    }
}

/// After deduplication no two findings, over all results, share an id, and
/// every id of the input still occurs.
pub proof fn lemma_deduplicated_ids(rs: Seq<AnalysisResultView>)
    ensures
        forall|i: int, j: int|
            0 <= i < j < all_findings(deduplicated(rs)).len() ==> (#[trigger] all_findings(deduplicated(rs))[i]).id
                != (#[trigger] all_findings(deduplicated(rs))[j]).id,
        forall|id: Seq<char>| #[trigger] id_seen(all_findings(rs), id) <==> id_seen(all_findings(deduplicated(rs)), id),
{
    lemma_deduplicated_flat(rs);
    let e = Seq::<FindingView>::empty();
    lemma_first_occurrences_props(e, all_findings(rs));
    assert(e + all_findings(rs) =~= all_findings(rs));
    assert forall|id: Seq<char>| !id_seen(e, id) by {}
}

/// Whether some string of `v` equals `s`.
fn has_text(v: &Vec<String>, s: &str) -> (r: bool)
    ensures
        r == exists|k: int| 0 <= k < v@.len() && (#[trigger] v@[k])@ == s@,
{
    let mut k: usize = 0;
    while k < v.len()
        invariant
            k <= v@.len(),
            forall|p: int| 0 <= p < k ==> (#[trigger] v@[p])@ != s@,
        decreases v@.len() - k,
    {
        if str_eq(v[k].as_str(), s) {
            return true;
        }
        k = k + 1;
    }
    false
}

/// Keeps each finding id only where it first occurs, across all results in
/// order; everything else is kept as it was.
pub fn deduplicate_findings(results: Vec<AnalysisResult>) -> (r: Vec<AnalysisResult>)
    ensures
        result_views(r@) == deduplicated(result_views(results@)),
{
    let ghost rs = result_views(results@);
    let mut seen: Vec<String> = Vec::new();
    let mut out: Vec<AnalysisResult> = Vec::new();
    let mut i: usize = 0;
    while i < results.len()
        invariant
            i <= results@.len(),
            rs == result_views(results@),
            out@.len() == i,
            forall|q: int| 0 <= q < i ==> #[trigger] out@[q]@ == deduplicated(rs)[q],
            seen@.len() == all_findings(rs.take(i as int)).len(),
            forall|p: int| 0 <= p < seen@.len() ==> (#[trigger] seen@[p])@ == all_findings(rs.take(i as int))[p].id,
        decreases results@.len() - i,
    {
        let r = &results[i];
        let ghost base = all_findings(rs.take(i as int));
        let ghost fv = rs[i as int].findings;
        let mut kept: Vec<Finding> = Vec::new();
        let mut j: usize = 0;
        while j < r.findings.len()
            invariant
                i < results@.len(),
                j <= r.findings@.len(),
                rs == result_views(results@),
                r == results@[i as int],
                fv == rs[i as int].findings,
                fv == finding_views(r.findings@),
                base == all_findings(rs.take(i as int)),
                seen@.len() == (base + fv.take(j as int)).len(),
                forall|p: int| 0 <= p < seen@.len() ==> (#[trigger] seen@[p])@ == (base + fv.take(j as int))[p].id,
                finding_views(kept@) == first_occurrences(base, fv.take(j as int)),
            decreases r.findings@.len() - j,
        {
            let f = &r.findings[j];
            let ghost prefix = base + fv.take(j as int);
            proof {
                assert(fv.take(j + 1).drop_last() =~= fv.take(j as int));
                assert(fv.take(j + 1).last() == f@);
            }
            let dup = has_text(&seen, f.id.as_str());
            proof {
                if dup {
                    let k = choose|k: int| 0 <= k < seen@.len() && (#[trigger] seen@[k])@ == f.id@;
                    assert(prefix[k].id == f.id@);
                    assert(id_seen(prefix, f.id@));
                } else {
                    if id_seen(prefix, f.id@) {
                        let k = choose|k: int| 0 <= k < prefix.len() && (#[trigger] prefix[k]).id == f.id@;
                        assert(seen@[k]@ == f.id@);
                    }
                }
            }
            if !dup {
                let ghost k0 = kept@;
                kept.push(copy_finding(f));
                proof {
                    assert(finding_views(kept@) =~= finding_views(k0).push(f@));
                }
            }
            let ghost s0 = seen@;
            seen.push(f.id.clone());
            proof {
                assert(base + fv.take(j + 1) =~= prefix.push(f@));
                assert forall|p: int| 0 <= p < seen@.len() implies (#[trigger] seen@[p])@ == (base + fv.take(
                    j + 1,
                ))[p].id by {
                    if p < s0.len() {
                        assert(seen@[p] == s0[p]);
                    }
                }
            }
            j = j + 1;
        }
        proof {
            assert(fv.take(r.findings@.len() as int) =~= fv);
            lemma_findings_step(rs, i as int);
        }
        out.push(
            AnalysisResult {
                analyzer_name: r.analyzer_name.clone(),
                version: r.version.clone(),
                findings: kept,
                metrics: copy_metrics(&r.metrics),
                summary: r.summary.clone(),
                confidence: r.confidence,
            },
        );
        i = i + 1;
    }
    proof {
        assert(result_views(out@) =~= deduplicated(rs));
    }
    out
}

// ---------------------------------------------------------------------------
// Comparing two runs
// ---------------------------------------------------------------------------

/// The ids of findings, in order.
pub open spec fn ids(fs: Seq<FindingView>) -> Seq<Seq<char>> {
    fs.map_values(|f: FindingView| f.id)
}

/// The set of finding ids over all results.
pub open spec fn finding_ids(rs: Seq<AnalysisResultView>) -> Set<Seq<char>> {
    ids(all_findings(rs)).to_set()
}

/// How many finding ids changed between two runs: added, removed and kept.
/// Severity changes are not tracked and always count 0.
pub struct PyResultComparison {
    pub findings_added: usize,
    pub findings_removed: usize,
    pub findings_unchanged: usize,
    pub severity_changed: usize,
}

/// How many elements of `d` lie in `t`.
pub open spec fn count_in(d: Seq<Seq<char>>, t: Set<Seq<char>>) -> nat
    decreases d.len(),
{
    if d.len() == 0 {
        0
    } else {
        count_in(d.drop_last(), t) + if t.contains(d.last()) {
            1nat
        } else {
            0nat
        }
    }
}

proof fn lemma_count_in(d: Seq<Seq<char>>, t: Set<Seq<char>>)
    requires
        d.no_duplicates(),
    ensures
        d.to_set().intersect(t).len() == count_in(d, t),
        d.to_set().intersect(t).finite(),
    decreases d.len(),
{
    broadcast use vstd::set::group_set_axioms, vstd::seq_lib::seq_to_set_is_finite;

    if d.len() == 0 {
        assert(d.to_set().intersect(t) =~= Set::empty());
    } else {
        let p = d.drop_last();
        let x = d.last();
        assert(p.no_duplicates());
        lemma_count_in(p, t);
        assert(d == p.push(x));
        p.lemma_push_to_set_commute(x);
        assert(!p.to_set().contains(x)) by {
            if p.contains(x) {
                let k = choose|k: int| 0 <= k < p.len() && p[k] == x;
                assert(d[k] == d[d.len() - 1]);
            }
        }
        if t.contains(x) {
            assert(d.to_set().intersect(t) =~= p.to_set().intersect(t).insert(x));
        } else {
            assert(d.to_set().intersect(t) =~= p.to_set().intersect(t));
        }
    }
}

/// The distinct ids of findings, in order of first occurrence.
fn distinct_ids(fs: &Vec<&Finding>) -> (r: Vec<String>)
    ensures
        texts(r@).no_duplicates(),
        texts(r@).to_set() == ids(fs@.map_values(|f: &Finding| f@)).to_set(),
{
    let ghost all = fs@.map_values(|f: &Finding| f@);
    let mut out: Vec<String> = Vec::new();
    let mut k: usize = 0;
    while k < fs.len()
        invariant
            k <= fs@.len(),
            all == fs@.map_values(|f: &Finding| f@),
            texts(out@).no_duplicates(),
            texts(out@).to_set() =~= ids(all.take(k as int)).to_set(),
        decreases fs@.len() - k,
    {
        let f = fs[k];
        proof {
            assert(ids(all.take(k + 1)) =~= ids(all.take(k as int)).push(f.id@));
            ids(all.take(k as int)).lemma_push_to_set_commute(f.id@);
        }
        let seen = has_text(&out, f.id.as_str());
        if seen {
            proof {
                let j = choose|j: int| 0 <= j < out@.len() && (#[trigger] out@[j])@ == f.id@;
                assert(texts(out@)[j] == f.id@);
                assert(texts(out@).to_set().contains(f.id@));
                assert(ids(all.take(k as int)).to_set().insert(f.id@) =~= ids(all.take(k as int)).to_set());
            }
        } else {
            let ghost o0 = texts(out@);
            out.push(f.id.clone());
            proof {
                assert(texts(out@) =~= o0.push(f.id@));
                o0.lemma_push_to_set_commute(f.id@);
                assert(!o0.contains(f.id@)) by {
                    if o0.contains(f.id@) {
                        let j = choose|j: int| 0 <= j < o0.len() && o0[j] == f.id@;
                        assert(out@[j]@ == f.id@);
                    }
                }
            }
        }
        k = k + 1;
    }
    proof {
        assert(all.take(all.len() as int) =~= all);
    }
    out
}

/// How many strings of `d` occur (or, with `present` false, do not occur)
/// in `other`.
fn count_present(d: &Vec<String>, other: &Vec<String>, present: bool) -> (r: usize)
    ensures
        present ==> r == count_in(texts(d@), texts(other@).to_set()),
        !present ==> r == count_in(texts(d@), texts(other@).to_set().complement()),
{
    let ghost t = if present {
        texts(other@).to_set()
    } else {
        texts(other@).to_set().complement()
    };
    let mut n: usize = 0;
    let mut k: usize = 0;
    while k < d.len()
        invariant
            k <= d@.len(),
            n <= k,
            t == (if present {
                texts(other@).to_set()
            } else {
                texts(other@).to_set().complement()
            }),
            n == count_in(texts(d@).take(k as int), t),
        decreases d@.len() - k,
    {
        proof {
            assert(texts(d@).take(k + 1).drop_last() =~= texts(d@).take(k as int));
            assert(texts(d@).take(k + 1).last() == d@[k as int]@);
        }
        let found = has_text(other, d[k].as_str());
        proof {
            if found {
                let j = choose|j: int| 0 <= j < other@.len() && (#[trigger] other@[j])@ == d@[k as int]@;
                assert(texts(other@)[j] == d@[k as int]@);
            } else {
                if texts(other@).contains(d@[k as int]@) {
                    let j = choose|j: int| 0 <= j < texts(other@).len() && texts(other@)[j] == d@[k as int]@;
                    assert(other@[j]@ == d@[k as int]@);
                }
            }
        }
        if found == present {
            n = n + 1;
        }
        k = k + 1;
    }
    proof {
        assert(texts(d@).take(d@.len() as int) =~= texts(d@));
    }
    n
}

/// Comparing two runs accounts for every id once: the added and the kept
/// ids are those of the new run, the removed and the kept those of the old.
pub proof fn lemma_comparison_accounts(old_rs: Seq<AnalysisResultView>, new_rs: Seq<AnalysisResultView>)
    ensures
        finding_ids(new_rs).difference(finding_ids(old_rs)).len() + finding_ids(new_rs).intersect(
            finding_ids(old_rs),
        ).len() == finding_ids(new_rs).len(),
        finding_ids(old_rs).difference(finding_ids(new_rs)).len() + finding_ids(new_rs).intersect(
            finding_ids(old_rs),
        ).len() == finding_ids(old_rs).len(),
{
    broadcast use vstd::seq_lib::seq_to_set_is_finite;

    let n = finding_ids(new_rs);
    let o = finding_ids(old_rs);
    vstd::set_lib::lemma_set_difference_len(n, o);
    vstd::set_lib::lemma_set_difference_len(o, n);
    assert(o.intersect(n) =~= n.intersect(o));
    vstd::set_lib::lemma_set_intersect_union_lens(n, o);
}

/// Compares the finding ids of two runs: how many ids are new, gone and
/// kept (each id counted once).
pub fn compare_results(old_results: Vec<AnalysisResult>, new_results: Vec<AnalysisResult>) -> (r: PyResultComparison)
    ensures
        r.findings_added == finding_ids(result_views(new_results@)).difference(
            finding_ids(result_views(old_results@)),
        ).len(),
        r.findings_removed == finding_ids(result_views(old_results@)).difference(
            finding_ids(result_views(new_results@)),
        ).len(),
        r.findings_unchanged == finding_ids(result_views(new_results@)).intersect(
            finding_ids(result_views(old_results@)),
        ).len(),
        r.severity_changed == 0,
{
    let ghost old_all = all_findings(result_views(old_results@));
    let ghost new_all = all_findings(result_views(new_results@));
    let old_fs = flatten_findings(&old_results);
    let new_fs = flatten_findings(&new_results);
    proof {
        lemma_flat_views(old_fs@, old_all);
        lemma_flat_views(new_fs@, new_all);
    }
    let old_ids = distinct_ids(&old_fs);
    let new_ids = distinct_ids(&new_fs);
    let added = count_present(&new_ids, &old_ids, false);
    let removed = count_present(&old_ids, &new_ids, false);
    let unchanged = count_present(&new_ids, &old_ids, true);
    proof {
        let os = finding_ids(result_views(old_results@));
        let ns = finding_ids(result_views(new_results@));
        assert(texts(old_ids@).to_set() == os);
        assert(texts(new_ids@).to_set() == ns);
        lemma_count_in(texts(new_ids@), os.complement());
        lemma_count_in(texts(old_ids@), ns.complement());
        lemma_count_in(texts(new_ids@), os);
        assert(ns.difference(os) =~= ns.intersect(os.complement()));
        assert(os.difference(ns) =~= os.intersect(ns.complement()));
    }
    PyResultComparison {
        findings_added: added,
        findings_removed: removed,
        findings_unchanged: unchanged,
        severity_changed: 0,
    }
}

// ---------------------------------------------------------------------------
// Ranking analyzers
// ---------------------------------------------------------------------------

/// The average confidence of findings (0 for none), in thousandths.
pub open spec fn avg_confidence(fs: Seq<FindingView>) -> nat {
    if fs.len() == 0 {
        0
    } else {
        confidence_total(fs) / fs.len()
    }
}

/// For each result with findings, in order: its analyzer's name, how many
/// findings it has, their average confidence and their summed severity
/// scores.
pub open spec fn analyzer_stats(rs: Seq<AnalysisResultView>) -> Seq<(Seq<char>, nat, nat, nat)>
    decreases rs.len(),
{
    if rs.len() == 0 {
        Seq::empty()
    } else if rs.last().findings.len() == 0 {
        analyzer_stats(rs.drop_last())
    } else {
        let r = rs.last();
        analyzer_stats(rs.drop_last()).push(
            (
                r.analyzer_name,
                r.findings.len(),
                avg_confidence(r.findings),
                total_severity_score(r.findings) as nat,
            ),
        )
    }
}

/// The finding counts of analyzer statistics.
pub open spec fn count_keys(st: Seq<(Seq<char>, nat, nat, nat)>) -> Seq<u128> {
    st.map_values(|e: (Seq<char>, nat, nat, nat)| e.1 as u128)
}

/// The summed severity scores of analyzer statistics.
pub open spec fn score_keys(st: Seq<(Seq<char>, nat, nat, nat)>) -> Seq<u128> {
    st.map_values(|e: (Seq<char>, nat, nat, nat)| e.3 as u128)
}

/// Sums the severity scores and the confidences of a result's findings.
fn finding_totals(v: &Vec<Finding>) -> (r: (u128, u128))
    ensures
        r.0 == total_severity_score(finding_views(v@)),
        r.1 == confidence_total(finding_views(v@)),
        r.0 <= 5 * v@.len(),
        r.1 <= u32::MAX * v@.len(),
{
    let ghost all = finding_views(v@);
    let mut sev: u128 = 0;
    let mut conf: u128 = 0;
    let mut k: usize = 0;
    while k < v.len()
        invariant
            k <= v@.len(),
            all == finding_views(v@),
            sev == total_severity_score(all.take(k as int)),
            conf == confidence_total(all.take(k as int)),
            sev <= 5 * k,
            conf <= u32::MAX * k,
        decreases v@.len() - k,
    {
        proof {
            assert(all.take(k + 1).drop_last() =~= all.take(k as int));
            assert(all.take(k + 1).last() == v@[k as int]@);
            assert(k < 0x1_0000_0000_0000_0000u128);
        }
        sev = sev + v[k].severity.score() as u128;
        conf = conf + v[k].confidence as u128;
        k = k + 1;
    }
    proof {
        assert(all.take(all.len() as int) =~= all);
    }
    (sev, conf)
}

/// Per-result statistics of the results that have findings (see
/// [`analyzer_stats`]), as parallel lists: names, counts, average
/// confidences and summed scores.
fn stats_of(results: &Vec<AnalysisResult>) -> (r: (Vec<String>, Vec<usize>, Vec<u128>, Vec<u128>))
    ensures
        r.0@.len() == analyzer_stats(result_views(results@)).len(),
        r.1@.len() == r.0@.len(),
        r.2@.len() == r.0@.len(),
        r.3@.len() == r.0@.len(),
        forall|k: int|
            0 <= k < r.0@.len() ==> {
                let e = #[trigger] analyzer_stats(result_views(results@))[k];
                &&& r.0@[k]@ == e.0
                &&& r.1@[k] == e.1
                &&& r.2@[k] == e.2
                &&& r.3@[k] == e.3
            },
{
    let ghost rs = result_views(results@);
    let mut names: Vec<String> = Vec::new();
    let mut counts: Vec<usize> = Vec::new();
    let mut avgs: Vec<u128> = Vec::new();
    let mut scores: Vec<u128> = Vec::new();
    let mut i: usize = 0;
    while i < results.len()
        invariant
            i <= results@.len(),
            rs == result_views(results@),
            names@.len() == analyzer_stats(rs.take(i as int)).len(),
            counts@.len() == names@.len(),
            avgs@.len() == names@.len(),
            scores@.len() == names@.len(),
            forall|k: int|
                0 <= k < names@.len() ==> {
                    let e = #[trigger] analyzer_stats(rs.take(i as int))[k];
                    &&& names@[k]@ == e.0
                    &&& counts@[k] == e.1
                    &&& avgs@[k] == e.2
                    &&& scores@[k] == e.3
                },
        decreases results@.len() - i,
    {
        proof {
            assert(rs.take(i + 1).drop_last() =~= rs.take(i as int));
            assert(rs.take(i + 1).last() == results@[i as int]@);
        }
        let r = &results[i];
        let n = r.findings.len();
        if n > 0 {
            let (sev, conf) = finding_totals(&r.findings);
            assert(conf / (n as u128) <= u32::MAX) by (nonlinear_arith)
                requires
                    conf <= u32::MAX * n,
                    n > 0,
            ;
            names.push(r.analyzer_name.clone());
            counts.push(n);
            avgs.push(conf / (n as u128));
            scores.push(sev);
        }
        i = i + 1;
    }
    proof {
        assert(rs.take(results@.len() as int) =~= rs);
    }
    (names, counts, avgs, scores)
}

/// An analyzer with findings, by how many it reported.
pub struct PyAnalyzerRanking {
    pub analyzer_name: String,
    pub finding_count: usize,
    /// Average confidence, in thousandths.
    pub avg_confidence: u128,
}

/// The analyzers that reported findings, most findings first; analyzers
/// with as many findings keep their order.
pub fn rank_analyzers_by_impact(results: Vec<AnalysisResult>) -> (r: Vec<PyAnalyzerRanking>)
    ensures
        r@.len() == analyzer_stats(result_views(results@)).len(),
        forall|q: int|
            0 <= q < r@.len() ==> {
                let e = analyzer_stats(result_views(results@))[desc_order(
                    count_keys(analyzer_stats(result_views(results@))),
                )[q]];
                &&& (#[trigger] r@[q]).analyzer_name@ == e.0
                &&& r@[q].finding_count == e.1
                &&& r@[q].avg_confidence == e.2
            },
{
    let ghost st = analyzer_stats(result_views(results@));
    let (names, counts, avgs, _scores) = stats_of(&results);
    let mut keys: Vec<u128> = Vec::new();
    let mut k: usize = 0;
    while k < counts.len()
        invariant
            k <= counts@.len(),
            counts@.len() == st.len(),
            forall|p: int| 0 <= p < counts@.len() ==> counts@[p] == (#[trigger] st[p]).1,
            keys@ =~= count_keys(st).take(k as int),
        decreases counts@.len() - k,
    {
        keys.push(counts[k] as u128);
        k = k + 1;
    }
    proof {
        assert(count_keys(st).take(st.len() as int) =~= count_keys(st));
    }
    let order = stable_desc_order(&keys);
    let mut out: Vec<PyAnalyzerRanking> = Vec::new();
    let mut q: usize = 0;
    while q < order.len()
        invariant
            q <= order@.len(),
            order@.len() == st.len(),
            keys@ == count_keys(st),
            names@.len() == st.len(),
            counts@.len() == st.len(),
            avgs@.len() == st.len(),
            forall|p: int| 0 <= p < order@.len() ==> #[trigger] order@[p] < keys@.len(),
            forall|p: int| 0 <= p < order@.len() ==> order@[p] as int == #[trigger] desc_order(keys@)[p],
            forall|p: int|
                0 <= p < names@.len() ==> {
                    let e = #[trigger] st[p];
                    &&& names@[p]@ == e.0
                    &&& counts@[p] == e.1
                    &&& avgs@[p] == e.2
                },
            out@.len() == q,
            forall|p: int|
                0 <= p < q ==> {
                    let e = st[desc_order(count_keys(st))[p]];
                    &&& (#[trigger] out@[p]).analyzer_name@ == e.0
                    &&& out@[p].finding_count == e.1
                    &&& out@[p].avg_confidence == e.2
                },
        decreases order@.len() - q,
    {
        let x = order[q];
        proof {
            assert(desc_order(keys@)[q as int] == x as int);
            assert(st[x as int].0 == names@[x as int]@);
        }
        out.push(
            PyAnalyzerRanking {
                analyzer_name: names[x].clone(),
                finding_count: counts[x],
                avg_confidence: avgs[x],
            },
        );
        q = q + 1;
    }
    out
}

/// An analyzer with findings: how many, how confident and how severe.
pub struct PyAnalyzerPerformance {
    pub analyzer_name: String,
    pub finding_count: usize,
    /// Average confidence, in thousandths.
    pub avg_confidence: u128,
    /// Summed severity scores of its findings.
    pub total_impact_score: u128,
}

/// The analyzers that reported findings, highest summed severity first;
/// analyzers with equal sums keep their order.
pub fn get_analyzer_performance(results: Vec<AnalysisResult>) -> (r: Vec<PyAnalyzerPerformance>)
    ensures
        r@.len() == analyzer_stats(result_views(results@)).len(),
        forall|q: int|
            0 <= q < r@.len() ==> {
                let e = analyzer_stats(result_views(results@))[desc_order(
                    score_keys(analyzer_stats(result_views(results@))),
                )[q]];
                &&& (#[trigger] r@[q]).analyzer_name@ == e.0
                &&& r@[q].finding_count == e.1
                &&& r@[q].avg_confidence == e.2
                &&& r@[q].total_impact_score == e.3
            },
{
    let ghost st = analyzer_stats(result_views(results@));
    let (names, counts, avgs, scores) = stats_of(&results);
    let mut keys: Vec<u128> = Vec::new();
    let mut k: usize = 0;
    while k < scores.len()
        invariant
            k <= scores@.len(),
            scores@.len() == st.len(),
            forall|p: int| 0 <= p < scores@.len() ==> scores@[p] == (#[trigger] st[p]).3,
            keys@ =~= score_keys(st).take(k as int),
        decreases scores@.len() - k,
    {
        keys.push(scores[k]);
        k = k + 1;
    }
    proof {
        assert(score_keys(st).take(st.len() as int) =~= score_keys(st));
    }
    let order = stable_desc_order(&keys);
    let mut out: Vec<PyAnalyzerPerformance> = Vec::new();
    let mut q: usize = 0;
    while q < order.len()
        invariant
            q <= order@.len(),
            order@.len() == st.len(),
            keys@ == score_keys(st),
            names@.len() == st.len(),
            counts@.len() == st.len(),
            avgs@.len() == st.len(),
            scores@.len() == st.len(),
            forall|p: int| 0 <= p < order@.len() ==> #[trigger] order@[p] < keys@.len(),
            forall|p: int| 0 <= p < order@.len() ==> order@[p] as int == #[trigger] desc_order(keys@)[p],
            forall|p: int|
                0 <= p < names@.len() ==> {
                    let e = #[trigger] st[p];
                    &&& names@[p]@ == e.0
                    &&& counts@[p] == e.1
                    &&& avgs@[p] == e.2
                    &&& scores@[p] == e.3
                },
            out@.len() == q,
            forall|p: int|
                0 <= p < q ==> {
                    let e = st[desc_order(score_keys(st))[p]];
                    &&& (#[trigger] out@[p]).analyzer_name@ == e.0
                    &&& out@[p].finding_count == e.1
                    &&& out@[p].avg_confidence == e.2
                    &&& out@[p].total_impact_score == e.3
                },
        decreases order@.len() - q,
    {
        let x = order[q];
        proof {
            assert(desc_order(keys@)[q as int] == x as int);
            assert(st[x as int].0 == names@[x as int]@);
        }
        out.push(
            PyAnalyzerPerformance {
                analyzer_name: names[x].clone(),
                finding_count: counts[x],
                avg_confidence: avgs[x],
                total_impact_score: scores[x],
            },
        );
        q = q + 1;
    }
    out
}

// ---------------------------------------------------------------------------
// Prioritising findings
// ---------------------------------------------------------------------------

/// Every finding of the results with its analyzer's name, in order.
pub open spec fn named_findings(rs: Seq<AnalysisResultView>) -> Seq<(Seq<char>, FindingView)>
    decreases rs.len(),
{
    if rs.len() == 0 {
        Seq::empty()
    } else {
        named_findings(rs.drop_last()) + rs.last().findings.map_values(
            |f: FindingView| (rs.last().analyzer_name, f),
        )
    }
}

/// Every finding of the results with its analyzer's name, in order.
fn flatten_named(results: &Vec<AnalysisResult>) -> (r: Vec<(&String, &Finding)>)
    ensures
        r@.len() == named_findings(result_views(results@)).len(),
        forall|k: int|
            0 <= k < r@.len() ==> (#[trigger] r@[k]).0@ == named_findings(result_views(results@))[k].0
                && r@[k].1@ == named_findings(result_views(results@))[k].1,
{
    let ghost rs = result_views(results@);
    let mut out: Vec<(&String, &Finding)> = Vec::new();
    let mut i: usize = 0;
    while i < results.len()
        invariant
            i <= results@.len(),
            rs == result_views(results@),
            out@.len() == named_findings(rs.take(i as int)).len(),
            forall|k: int|
                0 <= k < out@.len() ==> (#[trigger] out@[k]).0@ == named_findings(rs.take(i as int))[k].0
                    && out@[k].1@ == named_findings(rs.take(i as int))[k].1,
        decreases results@.len() - i,
    {
        let r = &results[i];
        let ghost base = named_findings(rs.take(i as int));
        let ghost tail = rs[i as int].findings.map_values(|f: FindingView| (rs[i as int].analyzer_name, f));
        let mut j: usize = 0;
        while j < r.findings.len()
            invariant
                i < results@.len(),
                j <= r.findings@.len(),
                rs == result_views(results@),
                r == results@[i as int],
                tail == rs[i as int].findings.map_values(|f: FindingView| (rs[i as int].analyzer_name, f)),
                out@.len() == base.len() + j,
                forall|k: int|
                    0 <= k < out@.len() ==> (#[trigger] out@[k]).0@ == (base + tail)[k].0 && out@[k].1@ == (
                    base + tail)[k].1,
            decreases r.findings@.len() - j,
        {
            out.push((&r.analyzer_name, &r.findings[j]));
            j = j + 1;
        }
        proof {
            assert(rs.take(i + 1).drop_last() =~= rs.take(i as int));
            assert(named_findings(rs.take(i + 1)) == base + tail);
        }
        i = i + 1;
    }
    proof {
        assert(rs.take(results@.len() as int) =~= rs);
    }
    out
}

/// Hours to fix a finding of a given severity score, in thousandths.
pub open spec fn effort_milli(priority: nat) -> nat {
    if priority == 5 {
        4000
    } else if priority == 4 {
        3000
    } else if priority == 3 {
        2000
    } else if priority == 2 {
        1000
    } else {
        500
    }
}

/// The finding's own recommendation, or one naming its analyzer and title.
pub open spec fn fix_text(analyzer: Seq<char>, f: FindingView) -> Seq<char> {
    match f.recommendation {
        Some(r) => r,
        None => "Address "@ + analyzer + " issue: "@ + f.title,
    }
}

/// A fix for a finding, with its priority (the severity score) and effort.
pub struct PyFindingRecommendation {
    pub finding_id: String,
    pub recommendation: String,
    pub priority: u32,
    /// Hours, in thousandths.
    pub estimated_effort_hours: u32,
}

/// The severity scores of named findings.
pub open spec fn priority_keys(nf: Seq<(Seq<char>, FindingView)>) -> Seq<u128> {
    nf.map_values(|e: (Seq<char>, FindingView)| severity_score(e.1.severity) as u128)
}

/// The fixes come one per finding, each finding once, by descending
/// severity; findings of equal severity keep their input order.
pub proof fn lemma_fix_order(rs: Seq<AnalysisResultView>)
    ensures
        ({
            let nf = named_findings(rs);
            let o = desc_order(priority_keys(nf));
            &&& o.len() == nf.len()
            &&& forall|q: int| 0 <= q < o.len() ==> 0 <= #[trigger] o[q] < nf.len()
            &&& forall|q: int, p: int| 0 <= q < p < o.len() ==> #[trigger] o[q] != #[trigger] o[p]
            &&& forall|q: int, p: int|
                0 <= q < p < o.len() ==> severity_score(nf[#[trigger] o[q]].1.severity) >= severity_score(
                    nf[#[trigger] o[p]].1.severity,
                ) && (severity_score(nf[o[q]].1.severity) == severity_score(nf[o[p]].1.severity) ==> o[q] < o[p])
        }),
{
    let nf = named_findings(rs);
    let keys = priority_keys(nf);
    lemma_desc_order_sorted(keys);
    let o = desc_order(keys);
    assert forall|q: int, p: int| 0 <= q < p < o.len() implies severity_score(nf[#[trigger] o[q]].1.severity)
        >= severity_score(nf[#[trigger] o[p]].1.severity) && (severity_score(nf[o[q]].1.severity)
        == severity_score(nf[o[p]].1.severity) ==> o[q] < o[p]) by {
        assert(keys[o[q]] == severity_score(nf[o[q]].1.severity) as u128);
        assert(keys[o[p]] == severity_score(nf[o[p]].1.severity) as u128);
    }
}

/// A fix for every finding, highest severity first; findings of equal
/// severity (hence equal effort) keep their order.
pub fn get_fix_recommendations(results: Vec<AnalysisResult>) -> (r: Vec<PyFindingRecommendation>)
    ensures
        r@.len() == named_findings(result_views(results@)).len(),
        forall|q: int|
            0 <= q < r@.len() ==> {
                let nf = named_findings(result_views(results@));
                let e = nf[desc_order(priority_keys(nf))[q]];
                &&& (#[trigger] r@[q]).finding_id@ == e.1.id
                &&& r@[q].recommendation@ == fix_text(e.0, e.1)
                &&& r@[q].priority == severity_score(e.1.severity)
                &&& r@[q].estimated_effort_hours == effort_milli(severity_score(e.1.severity) as nat)
            },
{
    let ghost nf = named_findings(result_views(results@));
    let flat = flatten_named(&results);
    let mut keys: Vec<u128> = Vec::new();
    let mut k: usize = 0;
    while k < flat.len()
        invariant
            k <= flat@.len(),
            flat@.len() == nf.len(),
            forall|p: int| 0 <= p < flat@.len() ==> (#[trigger] flat@[p]).1@ == nf[p].1,
            keys@ =~= priority_keys(nf).take(k as int),
        decreases flat@.len() - k,
    {
        keys.push(flat[k].1.severity.score() as u128);
        k = k + 1;
    }
    proof {
        assert(priority_keys(nf).take(nf.len() as int) =~= priority_keys(nf));
    }
    let order = stable_desc_order(&keys);
    let mut out: Vec<PyFindingRecommendation> = Vec::new();
    let mut q: usize = 0;
    while q < order.len()
        invariant
            q <= order@.len(),
            order@.len() == nf.len(),
            flat@.len() == nf.len(),
            keys@ == priority_keys(nf),
            forall|p: int| 0 <= p < flat@.len() ==> (#[trigger] flat@[p]).0@ == nf[p].0 && flat@[p].1@ == nf[p].1,
            forall|p: int| 0 <= p < order@.len() ==> #[trigger] order@[p] < keys@.len(),
            forall|p: int| 0 <= p < order@.len() ==> order@[p] as int == #[trigger] desc_order(keys@)[p],
            out@.len() == q,
            forall|p: int|
                0 <= p < q ==> {
                    let e = nf[desc_order(priority_keys(nf))[p]];
                    &&& (#[trigger] out@[p]).finding_id@ == e.1.id
                    &&& out@[p].recommendation@ == fix_text(e.0, e.1)
                    &&& out@[p].priority == severity_score(e.1.severity)
                    &&& out@[p].estimated_effort_hours == effort_milli(severity_score(e.1.severity) as nat)
                },
        decreases order@.len() - q,
    {
        let x = order[q];
        let (name, f) = flat[x];
        proof {
            assert(desc_order(keys@)[q as int] == x as int);
            assert(flat@[x as int].0@ == nf[x as int].0);
        }
        let priority = f.severity.score();
        let effort: u32 = if priority == 5 {
            4000
        } else if priority == 4 {
            3000
        } else if priority == 3 {
            2000
        } else if priority == 2 {
            1000
        } else {
            500
        };
        let text = match &f.recommendation {
            Some(r) => r.clone(),
            None => {
                let mut t = crate::text::concat3("Address ", name.as_str(), " issue: ");
                t.append(f.title.as_str());
                t
            },
        };
        out.push(
            PyFindingRecommendation {
                finding_id: f.id.clone(),
                recommendation: text,
                priority,
                estimated_effort_hours: effort,
            },
        );
        q = q + 1;
    }
    out
}

/// A finding's priority score: 60% severity (as a share of the highest)
/// and 40% confidence, out of 100, in thousandths.
pub open spec fn priority_milli(f: FindingView) -> nat {
    severity_score(f.severity) as nat * 12_000 + f.confidence as nat * 40
}

/// A finding with its priority score.
pub struct PyPrioritizedFinding {
    pub finding_id: String,
    /// Out of 100, in thousandths (see [`priority_milli`]).
    pub priority_score: u64,
    /// The finding's recommendation, or its title.
    pub recommendation: String,
}

/// The priority scores of findings.
pub open spec fn score_of_findings(fs: Seq<FindingView>) -> Seq<u128> {
    fs.map_values(|f: FindingView| priority_milli(f) as u128)
}

/// Every finding with its priority score, highest first; findings with
/// equal scores keep their order.
pub fn prioritize_findings(results: Vec<AnalysisResult>) -> (r: Vec<PyPrioritizedFinding>)
    ensures
        r@.len() == all_findings(result_views(results@)).len(),
        forall|q: int|
            0 <= q < r@.len() ==> {
                let fs = all_findings(result_views(results@));
                let f = fs[desc_order(score_of_findings(fs))[q]];
                &&& (#[trigger] r@[q]).finding_id@ == f.id
                &&& r@[q].priority_score == priority_milli(f)
                &&& r@[q].recommendation@ == match f.recommendation {
                    Some(t) => t,
                    None => f.title,
                }
            },
{
    let ghost all = all_findings(result_views(results@));
    let flat = flatten_findings(&results);
    let mut keys: Vec<u128> = Vec::new();
    let mut k: usize = 0;
    while k < flat.len()
        invariant
            k <= flat@.len(),
            flat@.len() == all.len(),
            forall|p: int| 0 <= p < flat@.len() ==> #[trigger] flat@[p]@ == all[p],
            keys@ =~= score_of_findings(all).take(k as int),
        decreases flat@.len() - k,
    {
        let f = flat[k];
        let key = f.severity.score() as u128 * 12_000 + f.confidence as u128 * 40;
        proof {
            assert(f@ == all[k as int]);
            assert(key == priority_milli(all[k as int]) as u128);
            assert(score_of_findings(all).take(k + 1) =~= score_of_findings(all).take(k as int).push(key));
        }
        keys.push(key);
        k = k + 1;
    }
    proof {
        assert(score_of_findings(all).take(all.len() as int) =~= score_of_findings(all));
    }
    let order = stable_desc_order(&keys);
    let mut out: Vec<PyPrioritizedFinding> = Vec::new();
    let mut q: usize = 0;
    while q < order.len()
        invariant
            q <= order@.len(),
            order@.len() == all.len(),
            flat@.len() == all.len(),
            keys@ == score_of_findings(all),
            forall|p: int| 0 <= p < flat@.len() ==> #[trigger] flat@[p]@ == all[p],
            forall|p: int| 0 <= p < order@.len() ==> #[trigger] order@[p] < keys@.len(),
            forall|p: int| 0 <= p < order@.len() ==> order@[p] as int == #[trigger] desc_order(keys@)[p],
            out@.len() == q,
            forall|p: int|
                0 <= p < q ==> {
                    let f = all[desc_order(score_of_findings(all))[p]];
                    &&& (#[trigger] out@[p]).finding_id@ == f.id
                    &&& out@[p].priority_score == priority_milli(f)
                    &&& out@[p].recommendation@ == match f.recommendation {
                        Some(t) => t,
                        None => f.title,
                    }
                },
        decreases order@.len() - q,
    {
        let x = order[q];
        let f = flat[x];
        proof {
            assert(desc_order(keys@)[q as int] == x as int);
            assert(flat@[x as int]@ == all[x as int]);
        }
        let text = match &f.recommendation {
            Some(r) => r.clone(),
            None => f.title.clone(),
        };
        out.push(
            PyPrioritizedFinding {
                finding_id: f.id.clone(),
                priority_score: f.severity.score() as u64 * 12_000 + f.confidence as u64 * 40,
                recommendation: text,
            },
        );
        q = q + 1;
    }
    out
}

// ---------------------------------------------------------------------------
// Merging result sets
// ---------------------------------------------------------------------------

/// `a` sorts before `b`: character by character, a proper prefix first.
pub open spec fn text_less(a: Seq<char>, b: Seq<char>) -> bool
    decreases a.len(),
{
    if a.len() == 0 {
        b.len() > 0
    } else if b.len() == 0 {
        false
    } else if a[0] != b[0] {
        (a[0] as int) < (b[0] as int)
    } else {
        text_less(a.drop_first(), b.drop_first())
    }
}

proof fn lemma_text_less_total(a: Seq<char>, b: Seq<char>)
    requires
        a != b,
    ensures
        text_less(a, b) || text_less(b, a),
    decreases a.len(),
{
    if a.len() > 0 && b.len() > 0 && a[0] == b[0] {
        if a.drop_first() == b.drop_first() {
            assert(a =~= seq![a[0]] + a.drop_first());
            assert(b =~= seq![b[0]] + b.drop_first());
        }
        lemma_text_less_total(a.drop_first(), b.drop_first());
    } else if a.len() > 0 && b.len() > 0 {
        assert((a[0] as int) != (b[0] as int));
    } else if a.len() == 0 && b.len() == 0 {
        assert(a =~= b);
    }
}

proof fn lemma_text_less_transitive(a: Seq<char>, b: Seq<char>, c: Seq<char>)
    requires
        text_less(a, b),
        text_less(b, c),
    ensures
        text_less(a, c),
    decreases a.len(),
{
    if a.len() > 0 && b.len() > 0 && c.len() > 0 && a[0] == b[0] && b[0] == c[0] {
        lemma_text_less_transitive(a.drop_first(), b.drop_first(), c.drop_first());
    }
}

/// Whether `a` sorts before `b` (see [`text_less`]).
fn text_before(a: &str, b: &str) -> (r: bool)
    ensures
        r == text_less(a@, b@),
{
    let x = crate::text::chars_of(a);
    let y = crate::text::chars_of(b);
    let mut i: usize = 0;
    proof {
        assert(a@.skip(0) =~= a@);
        assert(b@.skip(0) =~= b@);
    }
    while i < x.len() && i < y.len() && x[i] == y[i]
        invariant
            i <= x@.len(),
            i <= y@.len(),
            x@ == a@,
            y@ == b@,
            text_less(a@, b@) == text_less(a@.skip(i as int), b@.skip(i as int)),
        decreases x@.len() - i,
    {
        proof {
            assert(a@.skip(i as int).drop_first() =~= a@.skip(i + 1));
            assert(b@.skip(i as int).drop_first() =~= b@.skip(i + 1));
        }
        i = i + 1;
    }
    if i == x.len() {
        i < y.len()
    } else if i == y.len() {
        false
    } else {
        proof {
            assert(a@.skip(i as int)[0] == x@[i as int]);
            assert(b@.skip(i as int)[0] == y@[i as int]);
        }
        x[i] < y[i]
    }
}

/// The results of all sets, in order.
pub open spec fn all_results(sets: Seq<Vec<AnalysisResult>>) -> Seq<AnalysisResultView>
    decreases sets.len(),
{
    if sets.len() == 0 {
        Seq::empty()
    } else {
        all_results(sets.drop_last()) + result_views(sets.last()@)
    }
}

/// Some result comes from the analyzer called `n`.
pub open spec fn has_name(rs: Seq<AnalysisResultView>, n: Seq<char>) -> bool {
    exists|k: int| 0 <= k < rs.len() && (#[trigger] rs[k]).analyzer_name == n
}

/// The analyzer names of the results, each once, in order of first
/// appearance.
pub open spec fn group_names(rs: Seq<AnalysisResultView>) -> Seq<Seq<char>>
    decreases rs.len(),
{
    if rs.len() == 0 {
        Seq::empty()
    } else if has_name(rs.drop_last(), rs.last().analyzer_name) {
        group_names(rs.drop_last())
    } else {
        group_names(rs.drop_last()).push(rs.last().analyzer_name)
    }
}

/// The first result from the analyzer called `n`.
pub open spec fn first_named(rs: Seq<AnalysisResultView>, n: Seq<char>) -> AnalysisResultView
    decreases rs.len(),
{
    if rs.len() == 0 {
        AnalysisResultView {
            analyzer_name: Seq::empty(),
            version: Seq::empty(),
            findings: Seq::empty(),
            metrics: Seq::empty(),
            summary: Seq::empty(),
            confidence: 0,
        }
    } else if has_name(rs.drop_last(), n) {
        first_named(rs.drop_last(), n)
    } else {
        rs.last()
    }
}

/// The findings of every result from the analyzer called `n`, in order.
pub open spec fn findings_named(rs: Seq<AnalysisResultView>, n: Seq<char>) -> Seq<FindingView>
    decreases rs.len(),
{
    if rs.len() == 0 {
        Seq::empty()
    } else {
        findings_named(rs.drop_last(), n) + if rs.last().analyzer_name == n {
            rs.last().findings
        } else {
            Seq::empty()
        }
    }
}

/// The merged result of the analyzer called `n`: its first result, with the
/// findings of every result of that analyzer, in order, each taken once.
pub open spec fn merged(rs: Seq<AnalysisResultView>, n: Seq<char>) -> AnalysisResultView {
    let f = first_named(rs, n);
    AnalysisResultView { findings: findings_named(rs, n), ..f }
}

proof fn lemma_has_name_push(rs: Seq<AnalysisResultView>, x: AnalysisResultView, n: Seq<char>)
    ensures
        has_name(rs.push(x), n) == (has_name(rs, n) || x.analyzer_name == n),
{
    let t = rs.push(x);
    if has_name(rs, n) {
        let k = choose|k: int| 0 <= k < rs.len() && (#[trigger] rs[k]).analyzer_name == n;
        assert(t[k] == rs[k]);
    }
    if x.analyzer_name == n {
        assert(t[rs.len() as int] == x);
    }
    if has_name(t, n) {
        let k = choose|k: int| 0 <= k < t.len() && (#[trigger] t[k]).analyzer_name == n;
        if k < rs.len() {
            assert(t[k] == rs[k]);
        }
    }
}

proof fn lemma_group_names(rs: Seq<AnalysisResultView>)
    ensures
        group_names(rs).no_duplicates(),
        forall|n: Seq<char>| #[trigger] group_names(rs).contains(n) <==> has_name(rs, n),
        forall|n: Seq<char>| !has_name(rs, n) ==> #[trigger] findings_named(rs, n) == Seq::<FindingView>::empty(),
    decreases rs.len(),
{
    if rs.len() == 0 {
        assert forall|n: Seq<char>| #[trigger] group_names(rs).contains(n) <==> has_name(rs, n) by {}
    } else {
        let p = rs.drop_last();
        let x = rs.last();
        lemma_group_names(p);
        assert(rs == p.push(x));
        assert forall|n: Seq<char>| has_name(rs, n) == (has_name(p, n) || x.analyzer_name == n) by {
            lemma_has_name_push(p, x, n);
        }
        if has_name(p, x.analyzer_name) {
        } else {
            let g = group_names(p);
            assert(!g.contains(x.analyzer_name));
            assert forall|n: Seq<char>| #[trigger] g.push(x.analyzer_name).contains(n) <==> (g.contains(n)
                || n == x.analyzer_name) by {
                if g.push(x.analyzer_name).contains(n) {
                    let k = choose|k: int| 0 <= k < g.len() + 1 && g.push(x.analyzer_name)[k] == n;
                    if k < g.len() {
                        assert(g.push(x.analyzer_name)[k] == g[k]);
                    }
                }
                if g.contains(n) {
                    let k = choose|k: int| 0 <= k < g.len() && g[k] == n;
                    assert(g.push(x.analyzer_name)[k] == g[k]);
                }
                if n == x.analyzer_name {
                    assert(g.push(x.analyzer_name)[g.len() as int] == n);
                }
            }
            assert forall|a: int, b: int|
                0 <= a < b < g.len() + 1 implies g.push(x.analyzer_name)[a] != g.push(x.analyzer_name)[b] by {
                if b == g.len() {
                    assert(g.push(x.analyzer_name)[a] == g[a]);
                    assert(g.contains(g[a]));
                }
            }
        }
        assert forall|n: Seq<char>| !has_name(rs, n) implies #[trigger] findings_named(rs, n) == Seq::<
            FindingView,
        >::empty() by {
            assert(findings_named(p, n) == Seq::<FindingView>::empty());
            assert(findings_named(rs, n) =~= Seq::<FindingView>::empty());
        }
    }
}

/// Every result of the sets, in order.
fn flatten_sets(sets: &Vec<Vec<AnalysisResult>>) -> (r: Vec<&AnalysisResult>)
    ensures
        r@.len() == all_results(sets@).len(),
        forall|k: int| 0 <= k < r@.len() ==> #[trigger] r@[k]@ == all_results(sets@)[k],
{
    let mut out: Vec<&AnalysisResult> = Vec::new();
    let mut i: usize = 0;
    while i < sets.len()
        invariant
            i <= sets@.len(),
            out@.len() == all_results(sets@.take(i as int)).len(),
            forall|k: int| 0 <= k < out@.len() ==> #[trigger] out@[k]@ == all_results(sets@.take(i as int))[k],
        decreases sets@.len() - i,
    {
        let set = &sets[i];
        let ghost base = all_results(sets@.take(i as int));
        let mut j: usize = 0;
        while j < set.len()
            invariant
                i < sets@.len(),
                j <= set@.len(),
                set == sets@[i as int],
                out@.len() == base.len() + j,
                forall|k: int| 0 <= k < out@.len() ==> #[trigger] out@[k]@ == (base + result_views(set@))[k],
            decreases set@.len() - j,
        {
            out.push(&set[j]);
            j = j + 1;
        }
        proof {
            assert(sets@.take(i + 1).drop_last() =~= sets@.take(i as int));
            assert(all_results(sets@.take(i + 1)) == base + result_views(set@));
        }
        i = i + 1;
    }
    proof {
        assert(sets@.take(sets@.len() as int) =~= sets@);
    }
    out
}

/// Copies of `v`'s findings appended to `fs`.
fn append_findings(fs: &mut Vec<Finding>, v: &Vec<Finding>)
    ensures
        finding_views(final(fs)@) == finding_views(old(fs)@) + finding_views(v@),
{
    let ghost start = finding_views(fs@);
    let mut k: usize = 0;
    while k < v.len()
        invariant
            k <= v@.len(),
            finding_views(fs@) =~= start + finding_views(v@).take(k as int),
        decreases v@.len() - k,
    {
        let ghost f0 = fs@;
        fs.push(copy_finding(&v[k]));
        proof {
            assert(finding_views(fs@) =~= finding_views(f0).push(v@[k as int]@));
            assert(finding_views(v@).take(k + 1) =~= finding_views(v@).take(k as int).push(v@[k as int]@));
        }
        k = k + 1;
    }
    proof {
        assert(finding_views(v@).take(v@.len() as int) =~= finding_views(v@));
    }
}

/// The merged results (see [`merged`]), one per analyzer name in order of
/// first appearance.
fn group_results(flat: &Vec<&AnalysisResult>) -> (r: Vec<AnalysisResult>)
    ensures
        r@.len() == group_names(flat@.map_values(|x: &AnalysisResult| x@)).len(),
        forall|g: int|
            0 <= g < r@.len() ==> (#[trigger] r@[g]).analyzer_name@ == group_names(
                flat@.map_values(|x: &AnalysisResult| x@),
            )[g] && r@[g]@ == merged(
                flat@.map_values(|x: &AnalysisResult| x@),
                group_names(flat@.map_values(|x: &AnalysisResult| x@))[g],
            ),
{
    let ghost all = flat@.map_values(|x: &AnalysisResult| x@);
    let mut groups: Vec<AnalysisResult> = Vec::new();
    let mut k: usize = 0;
    while k < flat.len()
        invariant
            k <= flat@.len(),
            all == flat@.map_values(|x: &AnalysisResult| x@),
            groups@.len() == group_names(all.take(k as int)).len(),
            forall|g: int|
                0 <= g < groups@.len() ==> (#[trigger] groups@[g]).analyzer_name@ == group_names(
                    all.take(k as int),
                )[g] && groups@[g]@ == merged(all.take(k as int), group_names(all.take(k as int))[g]),
        decreases flat@.len() - k,
    {
        let x = flat[k];
        let ghost p = all.take(k as int);
        let ghost p2 = all.take(k + 1);
        let ghost names = group_names(p);
        proof {
            assert(p2 =~= p.push(x@));
            assert(p2.drop_last() == p);
            lemma_group_names(p);
        }
        let mut g: usize = 0;
        while g < groups.len() && !str_eq(groups[g].analyzer_name.as_str(), x.analyzer_name.as_str())
            invariant
                g <= groups@.len(),
                groups@.len() == names.len(),
                forall|q: int| 0 <= q < groups@.len() ==> (#[trigger] groups@[q]).analyzer_name@ == names[q],
                forall|q: int| 0 <= q < g ==> names[q] != x.analyzer_name@,
            decreases groups@.len() - g,
        {
            g = g + 1;
        }
        proof {
            assert forall|n: Seq<char>| has_name(p2, n) == (has_name(p, n) || x.analyzer_name@ == n) by {
                lemma_has_name_push(p, x@, n);
            }
            assert forall|n: Seq<char>| #[trigger] findings_named(p2, n) == findings_named(p, n) + if x.analyzer_name@ == n {
                x@.findings
            } else {
                Seq::<FindingView>::empty()
            } by {}
        }
        if g < groups.len() {
            let ghost n = x.analyzer_name@;
            proof {
                assert(names[g as int] == n);
                assert(names.contains(n));
                assert(has_name(p, n));
                assert(group_names(p2) == names);
            }
            let mut gr = copy_result(&groups[g]);
            append_findings(&mut gr.findings, &x.findings);
            proof {
                assert(groups@[g as int]@ == merged(p, n));
                assert(findings_named(p2, n) == findings_named(p, n) + x@.findings);
                assert(first_named(p2, n) == first_named(p, n));
                assert(merged(p2, n).findings =~= merged(p, n).findings + x@.findings);
                assert(gr@ =~= merged(p2, n));
            }
            let ghost before = groups@;
            groups.set(g, gr);
            proof {
                assert forall|q: int| 0 <= q < groups@.len() implies (#[trigger] groups@[q]).analyzer_name@
                    == group_names(p2)[q] && groups@[q]@ == merged(p2, group_names(p2)[q]) by {
                    if q != g {
                        assert(groups@[q] == before[q]);
                        assert(names[q] != n) by {
                            assert(names.no_duplicates());
                        }
                        assert(first_named(p2, names[q]) == first_named(p, names[q])) by {
                            assert(has_name(p, names[q]));
                        }
                        assert(findings_named(p2, names[q]) =~= findings_named(p, names[q]));
                    } else {
                        assert(first_named(p2, n) == first_named(p, n));
                        assert(groups@[q]@.findings =~= merged(p, n).findings + x@.findings);
                    }
                }
            }
        } else {
            let ghost n = x.analyzer_name@;
            proof {
                assert(!names.contains(n)) by {
                    if names.contains(n) {
                        let q = choose|q: int| 0 <= q < names.len() && names[q] == n;
                        assert(groups@[q].analyzer_name@ == names[q]);
                    }
                }
                assert(!has_name(p, n));
                assert(group_names(p2) == names.push(n));
                assert(findings_named(p, n) == Seq::<FindingView>::empty());
                assert(first_named(p2, n) == x@);
            }
            let gr = copy_result(x);
            proof {
                assert(findings_named(p2, n) == findings_named(p, n) + x@.findings);
                assert(findings_named(p2, n) =~= x@.findings);
                assert(gr@ =~= merged(p2, n));
                assert(group_names(p2)[names.len() as int] == n);
            }
            let ghost before = groups@;
            groups.push(gr);
            proof {
                assert forall|q: int| 0 <= q < groups@.len() implies (#[trigger] groups@[q]).analyzer_name@
                    == group_names(p2)[q] && groups@[q]@ == merged(p2, group_names(p2)[q]) by {
                    if q < before.len() {
                        assert(groups@[q] == before[q]);
                        assert(names[q] != n);
                        assert(first_named(p2, names[q]) == first_named(p, names[q])) by {
                            assert(has_name(p, names[q]));
                        }
                        assert(findings_named(p2, names[q]) =~= findings_named(p, names[q]));
                    } else {
                        assert(findings_named(p2, n) =~= x@.findings);
                    }
                }
            }
        }
        k = k + 1;
    }
    proof {
        assert(all.take(all.len() as int) =~= all);
    }
    groups
}

/// Position `g` occurs in `order`.
pub open spec fn placed(order: Seq<usize>, g: int) -> bool {
    exists|q: int| 0 <= q < order.len() && order[q] == g
}

/// The positions of `names` (all different) in ascending order of name.
fn ascending_by_name(names: &Vec<String>) -> (r: Vec<usize>)
    requires
        texts(names@).no_duplicates(),
    ensures
        r@.len() == names@.len(),
        forall|q: int| 0 <= q < r@.len() ==> #[trigger] r@[q] < names@.len(),
        forall|q: int, p: int|
            0 <= q < p < r@.len() ==> text_less(names@[r@[q] as int]@, names@[r@[p] as int]@),
        forall|g: int| 0 <= g < names@.len() ==> #[trigger] placed(r@, g),
{
    let ghost nm = texts(names@);
    let mut order: Vec<usize> = Vec::new();
    let mut i: usize = 0;
    while i < names.len()
        invariant
            i <= names@.len(),
            nm == texts(names@),
            nm.no_duplicates(),
            order@.len() == i,
            forall|q: int| 0 <= q < order@.len() ==> #[trigger] order@[q] < i,
            forall|q: int, p: int|
                0 <= q < p < order@.len() ==> text_less(nm[order@[q] as int], nm[order@[p] as int]),
            forall|g: int| 0 <= g < i ==> #[trigger] placed(order@, g),
        decreases names@.len() - i,
    {
        let mut p: usize = 0;
        while p < order.len() && !text_before(names[i].as_str(), names[order[p]].as_str())
            invariant
                p <= order@.len(),
                i < names@.len(),
                nm == texts(names@),
                forall|q: int| 0 <= q < order@.len() ==> #[trigger] order@[q] < i,
                forall|q: int| 0 <= q < p ==> !text_less(nm[i as int], nm[#[trigger] order@[q] as int]),
            decreases order@.len() - p,
        {
            p = p + 1;
        }
        let ghost before = order@;
        order.insert(p, i);
        proof {
            assert forall|q: int| 0 <= q < order@.len() implies #[trigger] order@[q] < i + 1 by {
                if q < p {
                    assert(order@[q] == before[q]);
                } else if q > p {
                    assert(order@[q] == before[q - 1]);
                }
            }
            assert forall|a: int, b: int|
                0 <= a < b < order@.len() implies text_less(nm[order@[a] as int], nm[order@[b] as int]) by {
                let x = nm[i as int];
                if a < p && b < p {
                    assert(order@[a] == before[a] && order@[b] == before[b]);
                } else if a > p && b > p {
                    assert(order@[a] == before[a - 1] && order@[b] == before[b - 1]);
                } else if a < p && b > p {
                    assert(order@[a] == before[a] && order@[b] == before[b - 1]);
                } else if a < p {
                    assert(b == p);
                    assert(order@[a] == before[a]);
                    assert(before[a] < i);
                    assert(nm[before[a] as int] != x);
                    assert(!text_less(x, nm[before[a] as int]));
                    lemma_text_less_total(x, nm[before[a] as int]);
                } else {
                    assert(a == p);
                    assert(order@[b] == before[b - 1]);
                    assert(p < before.len());
                    assert(text_less(x, nm[before[p as int] as int]));
                    if b - 1 > p {
                        lemma_text_less_transitive(x, nm[before[p as int] as int], nm[before[b - 1] as int]);
                    }
                }
            }
            assert forall|g: int| 0 <= g < i + 1 implies #[trigger] placed(order@, g) by {
                if g == i {
                    assert(order@[p as int] == i);
                } else {
                    assert(placed(before, g));
                    let q = choose|q: int| 0 <= q < before.len() && before[q] == g;
                    if q < p {
                        assert(order@[q] == g);
                    } else {
                        assert(order@[q + 1] == g);
                    }
                }
            }
        }
        i = i + 1;
    }
    proof {
        assert forall|q: int, p: int| 0 <= q < p < order@.len() implies text_less(
            names@[order@[q] as int]@,
            names@[order@[p] as int]@,
        ) by {
            assert(nm[order@[q] as int] == names@[order@[q] as int]@);
            assert(nm[order@[p] as int] == names@[order@[p] as int]@);
        }
    }
    order
}

/// Merges result sets by analyzer: one result per analyzer name, taken from
/// its first result, holding the findings of all of that analyzer's results
/// in input order, each once (see [`merged`]), ordered by name.
pub fn merge_results(result_sets: Vec<Vec<AnalysisResult>>) -> (r: Vec<AnalysisResult>)
    ensures
        forall|q: int, p: int|
            0 <= q < p < r@.len() ==> text_less(r@[q].analyzer_name@, r@[p].analyzer_name@),
        forall|q: int|
            0 <= q < r@.len() ==> has_name(all_results(result_sets@), (#[trigger] r@[q]).analyzer_name@)
                && r@[q]@ == merged(all_results(result_sets@), r@[q].analyzer_name@),
        forall|n: Seq<char>|
            has_name(all_results(result_sets@), n) ==> exists|q: int|
                0 <= q < r@.len() && (#[trigger] r@[q]).analyzer_name@ == n,
{
    let ghost all = all_results(result_sets@);
    let flat = flatten_sets(&result_sets);
    proof {
        assert(flat@.map_values(|x: &AnalysisResult| x@) =~= all);
        lemma_group_names(all);
    }
    let groups = group_results(&flat);
    let ghost gn = group_names(all);
    let mut names: Vec<String> = Vec::new();
    let mut k: usize = 0;
    while k < groups.len()
        invariant
            k <= groups@.len(),
            groups@.len() == gn.len(),
            forall|g: int| 0 <= g < groups@.len() ==> (#[trigger] groups@[g]).analyzer_name@ == gn[g],
            texts(names@) =~= gn.take(k as int),
        decreases groups@.len() - k,
    {
        let ghost n0 = names@;
        names.push(groups[k].analyzer_name.clone());
        proof {
            assert(texts(names@) =~= texts(n0).push(gn[k as int]));
        }
        k = k + 1;
    }
    proof {
        assert(gn.take(gn.len() as int) =~= gn);
        assert(texts(names@) == gn);
    }
    let order = ascending_by_name(&names);
    let mut out: Vec<AnalysisResult> = Vec::new();
    let mut q: usize = 0;
    while q < order.len()
        invariant
            q <= order@.len(),
            order@.len() == names@.len(),
            names@.len() == groups@.len(),
            groups@.len() == gn.len(),
            texts(names@) == gn,
            forall|p: int| 0 <= p < order@.len() ==> #[trigger] order@[p] < names@.len(),
            forall|g: int|
                0 <= g < groups@.len() ==> (#[trigger] groups@[g]).analyzer_name@ == gn[g] && groups@[g]@
                    == merged(all, gn[g]),
            out@.len() == q,
            forall|p: int| 0 <= p < q ==> #[trigger] out@[p]@ == groups@[order@[p] as int]@,
        decreases order@.len() - q,
    {
        out.push(copy_result(&groups[order[q]]));
        q = q + 1;
    }
    proof {
        assert forall|a: int, b: int| 0 <= a < b < out@.len() implies text_less(
            out@[a].analyzer_name@,
            out@[b].analyzer_name@,
        ) by {
            assert(out@[a]@ == groups@[order@[a] as int]@);
            assert(out@[b]@ == groups@[order@[b] as int]@);
            assert(names@[order@[a] as int]@ == gn[order@[a] as int]);
            assert(names@[order@[b] as int]@ == gn[order@[b] as int]);
        }
        assert forall|p: int| 0 <= p < out@.len() implies has_name(all, (#[trigger] out@[p]).analyzer_name@)
            && out@[p]@ == merged(all, out@[p].analyzer_name@) by {
            let g = order@[p] as int;
            assert(out@[p]@ == groups@[g]@);
            assert(gn.contains(gn[g]));
        }
        assert forall|n: Seq<char>| has_name(all, n) implies exists|p: int|
            0 <= p < out@.len() && (#[trigger] out@[p]).analyzer_name@ == n by {
            assert(gn.contains(n));
            let g = choose|g: int| 0 <= g < gn.len() && gn[g] == n;
            assert(placed(order@, g));
            let p = choose|p: int| 0 <= p < order@.len() && order@[p] == g;
            assert(out@[p]@ == groups@[g]@);
        }
    }
    out
}

} // verus!
