//! The plain-text report: an overall score, findings grouped by severity,
//! and each analyzer's summary and metrics.
use crate::analyzer::{
    finding_views, total_severity_score, AnalysisResult, AnalysisResultView, Finding, FindingView,
    RiskSeverity,
};
use crate::analyzers::registry::result_views;
use crate::text::{contains, decimal, decimal_text, fixed, fixed_text, occurs_at};
use vstd::prelude::*;

verus! {

pub const HEADER: &'static str = "=== PyBeamGuard Analysis Report ===\n\n";
pub const SCORE_A: &'static str = "Overall Risk Score: ";
pub const SCORE_B: &'static str = "/100\n";
pub const TOTAL_A: &'static str = "Total Findings: ";
pub const TOTAL_B: &'static str = "\n\n";
pub const BULLET: &'static str = "  • ";
pub const NEWLINE: &'static str = "\n";
pub const INDENT: &'static str = "    ";
pub const ARROW: &'static str = "    → ";
pub const CONFIDENCE_A: &'static str = "    Confidence: ";
pub const CONFIDENCE_B: &'static str = "%\n\n";
pub const CRITICAL_HEAD: &'static str = "🔴 CRITICAL ISSUES\n";
pub const CRITICAL_A: &'static str = "Found ";
pub const CRITICAL_B: &'static str = " critical issue(s):\n\n";
pub const HIGH_HEAD: &'static str = "🟠 HIGH PRIORITY ISSUES\n";
pub const HIGH_B: &'static str = " high-priority issue(s):\n\n";
pub const MEDIUM_HEAD: &'static str = "🟡 MEDIUM PRIORITY ISSUES\n";
pub const MEDIUM_B: &'static str = " medium-priority issue(s). Review when convenient.\n\n";
pub const LOW_HEAD: &'static str = "🟢 LOW PRIORITY ISSUES\n";
pub const LOW_B: &'static str = " low-priority issue(s).\n\n";
pub const METRICS_HEAD: &'static str = "=== Analysis Metrics ===\n\n";
pub const COLON: &'static str = ": ";
pub const METRIC_INDENT: &'static str = "  ";

/// Formats analysis results as a plain-text report.
pub struct TextReporter;

/// The findings of all results, in order.
pub open spec fn all_findings(rs: Seq<AnalysisResultView>) -> Seq<FindingView>
    decreases rs.len(),
{
    if rs.len() == 0 {
        Seq::empty()
    } else {
        all_findings(rs.drop_last()) + rs.last().findings
    }
}

/// The summed severity scores of all results.
pub open spec fn score_sum(rs: Seq<AnalysisResultView>) -> nat
    decreases rs.len(),
{
    if rs.len() == 0 {
        0
    } else {
        score_sum(rs.drop_last()) + total_severity_score(rs.last().findings) as nat
    }
}

/// The overall score: the summed severity scores over 50, at most 100.
pub open spec fn overall_score(rs: Seq<AnalysisResultView>) -> nat {
    if score_sum(rs) / 50 > 100 {
        100
    } else {
        score_sum(rs) / 50
    }
}

/// The recommendation line of a finding, if it has one.
pub open spec fn rec_line(o: Option<Seq<char>>) -> Seq<char> {
    match o {
        Some(r) => ARROW@ + r + NEWLINE@,
        None => Seq::empty(),
    }
}

/// A critical finding: title, description, recommendation, confidence in
/// percent.
pub open spec fn critical_entry(f: FindingView) -> Seq<char> {
    BULLET@ + f.title + NEWLINE@ + INDENT@ + f.description + NEWLINE@ + rec_line(f.recommendation)
        + CONFIDENCE_A@ + fixed((f.confidence * 100) as nat, 0) + CONFIDENCE_B@
}

/// A high-severity finding: title and recommendation.
pub open spec fn high_entry(f: FindingView) -> Seq<char> {
    BULLET@ + f.title + NEWLINE@ + rec_line(f.recommendation)
}

/// The entries of the findings of severity `s`, in order.
pub open spec fn entries(fs: Seq<FindingView>, s: RiskSeverity) -> Seq<char>
    decreases fs.len(),
{
    if fs.len() == 0 {
        Seq::empty()
    } else {
        entries(fs.drop_last(), s) + if fs.last().severity == s {
            if s == RiskSeverity::Critical {
                critical_entry(fs.last())
            } else {
                high_entry(fs.last())
            }
        } else {
            Seq::empty()
        }
    }
}

/// Number of findings of severity `s`.
pub open spec fn count_of(fs: Seq<FindingView>, s: RiskSeverity) -> nat
    decreases fs.len(),
{
    if fs.len() == 0 {
        0
    } else {
        count_of(fs.drop_last(), s) + if fs.last().severity == s {
            1nat
        } else {
            0nat
        }
    }
}

/// The severity sections, each present only when it has findings.
pub open spec fn severity_sections(fs: Seq<FindingView>) -> Seq<char> {
    let c = count_of(fs, RiskSeverity::Critical);
    let h = count_of(fs, RiskSeverity::High);
    let m = count_of(fs, RiskSeverity::Medium);
    let l = count_of(fs, RiskSeverity::Low);
    (if c > 0 {
        CRITICAL_HEAD@ + CRITICAL_A@ + decimal(c) + CRITICAL_B@ + entries(fs, RiskSeverity::Critical)
    } else {
        Seq::empty()
    }) + (if h > 0 {
        HIGH_HEAD@ + CRITICAL_A@ + decimal(h) + HIGH_B@ + entries(fs, RiskSeverity::High) + NEWLINE@
    } else {
        Seq::empty()
    }) + (if m > 0 {
        MEDIUM_HEAD@ + CRITICAL_A@ + decimal(m) + MEDIUM_B@
    } else {
        Seq::empty()
    }) + (if l > 0 {
        LOW_HEAD@ + CRITICAL_A@ + decimal(l) + LOW_B@
    } else {
        Seq::empty()
    })
}

/// A metric value in thousandths, rendered with two decimals.
pub open spec fn signed_fixed(v: i64) -> Seq<char> {
    if v < 0 {
        seq!['-'] + fixed((0 - v) as nat, 2)
    } else {
        fixed(v as nat, 2)
    }
}

/// The metric lines of one result.
pub open spec fn metric_lines(m: Seq<(Seq<char>, i64)>) -> Seq<char>
    decreases m.len(),
{
    if m.len() == 0 {
        Seq::empty()
    } else {
        metric_lines(m.drop_last()) + METRIC_INDENT@ + m.last().0 + COLON@ + signed_fixed(m.last().1)
            + NEWLINE@
    }
}

/// The metrics block of all results: each analyzer's summary and metrics.
pub open spec fn metric_blocks(rs: Seq<AnalysisResultView>) -> Seq<char>
    decreases rs.len(),
{
    if rs.len() == 0 {
        Seq::empty()
    } else {
        let r = rs.last();
        metric_blocks(rs.drop_last()) + r.analyzer_name + COLON@ + r.summary + NEWLINE@ + metric_lines(
            r.metrics,
        ) + NEWLINE@
    }
}

/// The text report of a sequence of results.
pub open spec fn text_report(rs: Seq<AnalysisResultView>) -> Seq<char> {
    let fs = all_findings(rs);
    HEADER@ + SCORE_A@ + decimal(overall_score(rs)) + SCORE_B@ + TOTAL_A@ + decimal(fs.len())
        + TOTAL_B@ + severity_sections(fs) + METRICS_HEAD@ + metric_blocks(rs)
}

fn signed_fixed_text(v: i64) -> (r: String)
    ensures
        r@ == signed_fixed(v),
{
    if v < 0 {
        let mag: u64 = (0 - (v as i128)) as u64;
        let t = fixed_text(mag, 2);
        let mut s = String::from_str("-");
        s.append(t.as_str());
        proof {
            reveal_strlit("-");
        }
        s
    } else {
        fixed_text(v as u64, 2)
    }
}

fn rec_text(o: &Option<String>) -> (r: String)
    ensures
        r@ == rec_line(crate::analyzer::opt_text(*o)),
{
    match o {
        Some(rec) => {
            let mut s = String::from_str(ARROW);
            s.append(rec.as_str());
            s.append(NEWLINE);
            s
        },
        None => {
            let s = String::new();
            proof {
                assert(s@ =~= Seq::<char>::empty());
            }
            s
        },
    }
}

/// Appends `t` to `s`.
fn append(s: &mut String, t: &str)
    ensures
        final(s)@ == old(s)@ + t@,
{
    s.append(t);
}

/// All findings of the results, in order, and their summed severity scores.
fn flatten(results: &Vec<AnalysisResult>) -> (r: (Vec<&Finding>, u128))
    ensures
        r.0@.len() == all_findings(result_views(results@)).len(),
        forall|k: int| 0 <= k < r.0@.len() ==> #[trigger] r.0@[k]@ == all_findings(result_views(results@))[k],
        r.1 == score_sum(result_views(results@)),
{
    let ghost rs = result_views(results@);
    let mut flat: Vec<&Finding> = Vec::new();
    let mut sum: u128 = 0;
    let mut i: usize = 0;
    proof {
        assert(rs.take(0) =~= Seq::<AnalysisResultView>::empty());
    }
    while i < results.len()
        invariant
            i <= results@.len(),
            rs == result_views(results@),
            flat@.len() == all_findings(rs.take(i as int)).len(),
            forall|k: int| 0 <= k < flat@.len() ==> #[trigger] flat@[k]@ == all_findings(rs.take(i as int))[k],
            sum == score_sum(rs.take(i as int)),
            sum <= 5 * flat@.len(),
        decreases results@.len() - i,
    {
        let ghost before = all_findings(rs.take(i as int));
        let fs = &results[i].findings;
        let part = collect_findings(fs, &mut flat);
        let _n = flat.len();
        proof {
            assert(rs.take(i + 1).drop_last() =~= rs.take(i as int));
            assert(rs.take(i + 1).last() == rs[i as int]);
            let after = all_findings(rs.take(i + 1));
            assert(after =~= before + finding_views(fs@));
            assert forall|k: int| 0 <= k < flat@.len() implies #[trigger] flat@[k]@ == after[k] by {
                if k >= before.len() {
                    assert(flat@[before.len() + (k - before.len())]@ == fs@[k - before.len()]@);
                }
            }
        }
        sum = sum + part;
        i = i + 1;
    }
    proof {
        assert(rs.take(results@.len() as int) =~= rs);
    }
    (flat, sum)
}

/// Appends references to `fs` to `flat`; returns their summed scores.
fn collect_findings<'a>(fs: &'a Vec<Finding>, flat: &mut Vec<&'a Finding>) -> (part: u128)
    ensures
        final(flat)@.len() == old(flat)@.len() + fs@.len(),
        forall|k: int| 0 <= k < old(flat)@.len() ==> #[trigger] final(flat)@[k] == old(flat)@[k],
        forall|k: int| 0 <= k < fs@.len() ==> #[trigger] final(flat)@[old(flat)@.len() + k]@ == fs@[k]@,
        part == total_severity_score(finding_views(fs@)),
        part <= 5 * fs@.len(),
{
    let ghost start = flat@;
    let mut j: usize = 0;
    let mut part: u128 = 0;
    proof {
        assert(finding_views(fs@).take(0) =~= Seq::<FindingView>::empty());
    }
    while j < fs.len()
        invariant
            j <= fs@.len(),
            flat@.len() == start.len() + j,
            forall|k: int| 0 <= k < start.len() ==> #[trigger] flat@[k] == start[k],
            forall|k: int| 0 <= k < j ==> #[trigger] flat@[start.len() + k]@ == fs@[k]@,
            part == total_severity_score(finding_views(fs@).take(j as int)),
            part <= 5 * j,
        decreases fs@.len() - j,
    {
        proof {
            assert(finding_views(fs@).take(j + 1).drop_last() =~= finding_views(fs@).take(j as int));
            assert(finding_views(fs@).take(j + 1).last() == fs@[j as int]@);
        }
        let ghost f0 = flat@;
        flat.push(&fs[j]);
        proof {
            assert(flat@[start.len() + j as int]@ == fs@[j as int]@);
            assert forall|k: int| 0 <= k < start.len() implies #[trigger] flat@[k] == start[k] by {
                assert(flat@[k] == f0[k]);
            }
            assert forall|k: int| 0 <= k < j + 1 implies #[trigger] flat@[start.len() + k]@ == fs@[k]@ by {
                if k < j {
                    assert(flat@[start.len() + k] == f0[start.len() + k]);
                }
            }
        }
        part = part + fs[j].severity.score() as u128;
        j = j + 1;
    }
    proof {
        assert(finding_views(fs@).take(fs@.len() as int) =~= finding_views(fs@));
    }
    part
}

/// The critical and high entries and the four severity counts.
fn group(flat: &Vec<&Finding>, Ghost(fs): Ghost<Seq<FindingView>>) -> (r: (String, String, usize, usize, usize, usize))
    requires
        flat@.len() == fs.len(),
        forall|x: int| 0 <= x < flat@.len() ==> #[trigger] flat@[x]@ == fs[x],
    ensures
        r.0@ == entries(fs, RiskSeverity::Critical),
        r.1@ == entries(fs, RiskSeverity::High),
        r.2 == count_of(fs, RiskSeverity::Critical),
        r.3 == count_of(fs, RiskSeverity::High),
        r.4 == count_of(fs, RiskSeverity::Medium),
        r.5 == count_of(fs, RiskSeverity::Low),
{
    let mut crit = String::new();
    let mut high = String::new();
    let mut nc: usize = 0;
    let mut nh: usize = 0;
    let mut nm: usize = 0;
    let mut nl: usize = 0;
    let mut k: usize = 0;
    proof {
        assert(crit@ =~= Seq::<char>::empty());
        assert(high@ =~= Seq::<char>::empty());
        assert(fs.take(0) =~= Seq::<FindingView>::empty());
    }
    while k < flat.len()
        invariant
            k <= flat@.len(),
            flat@.len() == fs.len(),
            forall|x: int| 0 <= x < flat@.len() ==> #[trigger] flat@[x]@ == fs[x],
            crit@ == entries(fs.take(k as int), RiskSeverity::Critical),
            high@ == entries(fs.take(k as int), RiskSeverity::High),
            nc == count_of(fs.take(k as int), RiskSeverity::Critical),
            nh == count_of(fs.take(k as int), RiskSeverity::High),
            nm == count_of(fs.take(k as int), RiskSeverity::Medium),
            nl == count_of(fs.take(k as int), RiskSeverity::Low),
            nc <= k,
            nh <= k,
            nm <= k,
            nl <= k,
        decreases flat@.len() - k,
    {
        proof {
            assert(fs.take(k + 1).drop_last() =~= fs.take(k as int));
            assert(fs.take(k + 1).last() == fs[k as int]);
        }
        let f: &Finding = flat[k];
        let ghost c0 = crit@;
        let ghost h0 = high@;
        proof {
            assert(f@ == fs[k as int]);
        }
        match f.severity {
            RiskSeverity::Critical => {
                let e = critical_text(f);
                append(&mut crit, e.as_str());
                nc = nc + 1;
            },
            RiskSeverity::High => {
                let e = high_text(f);
                append(&mut high, e.as_str());
                nh = nh + 1;
            },
            RiskSeverity::Medium => {
                nm = nm + 1;
            },
            RiskSeverity::Low => {
                nl = nl + 1;
            },
            RiskSeverity::Info => {},
        }
        proof {
            if f.severity != RiskSeverity::Critical {
                assert(c0 + Seq::<char>::empty() =~= c0);
            }
            if f.severity != RiskSeverity::High {
                assert(h0 + Seq::<char>::empty() =~= h0);
            }
            assert(crit@ =~= entries(fs.take(k + 1), RiskSeverity::Critical));
            assert(high@ =~= entries(fs.take(k + 1), RiskSeverity::High));
        }
        k = k + 1;
    }
    proof {
        assert(fs.take(flat@.len() as int) =~= fs);
    }
    (crit, high, nc, nh, nm, nl)
}

fn critical_text(f: &Finding) -> (r: String)
    ensures
        r@ == critical_entry(f@),
{
    let mut s = String::from_str(BULLET);
    append(&mut s, f.title.as_str());
    append(&mut s, NEWLINE);
    append(&mut s, INDENT);
    append(&mut s, f.description.as_str());
    append(&mut s, NEWLINE);
    let rt = rec_text(&f.recommendation);
    append(&mut s, rt.as_str());
    append(&mut s, CONFIDENCE_A);
    let pct = fixed_text(f.confidence as u64 * 100, 0);
    append(&mut s, pct.as_str());
    append(&mut s, CONFIDENCE_B);
    s
}

fn high_text(f: &Finding) -> (r: String)
    ensures
        r@ == high_entry(f@),
{
    let mut s = String::from_str(BULLET);
    append(&mut s, f.title.as_str());
    append(&mut s, NEWLINE);
    let rt = rec_text(&f.recommendation);
    append(&mut s, rt.as_str());
    s
}

/// One severity section: a heading, the count between two texts, and the
/// entries (empty when the count is 0).
fn section(head: &str, mid: &str, n: usize, body: &str) -> (r: String)
    ensures
        r@ == if n > 0 {
            head@ + CRITICAL_A@ + decimal(n as nat) + mid@ + body@
        } else {
            Seq::<char>::empty()
        },
{
    let mut out = String::new();
    proof {
        assert(out@ =~= Seq::<char>::empty());
    }
    if n > 0 {
        append(&mut out, head);
        append(&mut out, CRITICAL_A);
        let c = decimal_text(n as u64);
        append(&mut out, c.as_str());
        append(&mut out, mid);
        append(&mut out, body);
    }
    out
}

/// The severity sections (see [`severity_sections`]).
fn sections(crit: &String, high: &String, nc: usize, nh: usize, nm: usize, nl: usize, Ghost(fs): Ghost<Seq<FindingView>>) -> (r: String)
    requires
        crit@ == entries(fs, RiskSeverity::Critical),
        high@ == entries(fs, RiskSeverity::High),
        nc == count_of(fs, RiskSeverity::Critical),
        nh == count_of(fs, RiskSeverity::High),
        nm == count_of(fs, RiskSeverity::Medium),
        nl == count_of(fs, RiskSeverity::Low),
    ensures
        r@ == severity_sections(fs),
{
    let mut hb = high.clone();
    append(&mut hb, NEWLINE);
    let a = section(CRITICAL_HEAD, CRITICAL_B, nc, crit.as_str());
    let b = section(HIGH_HEAD, HIGH_B, nh, hb.as_str());
    let c = section(MEDIUM_HEAD, MEDIUM_B, nm, "");
    let d = section(LOW_HEAD, LOW_B, nl, "");
    proof {
        reveal_strlit("");
    }
    let mut out = a;
    append(&mut out, b.as_str());
    append(&mut out, c.as_str());
    append(&mut out, d.as_str());
    proof {
        let x = HIGH_HEAD@ + CRITICAL_A@ + decimal(nh as nat) + HIGH_B@ + (high@ + NEWLINE@);
        assert(x =~= HIGH_HEAD@ + CRITICAL_A@ + decimal(nh as nat) + HIGH_B@ + high@ + NEWLINE@);
        let y = MEDIUM_HEAD@ + CRITICAL_A@ + decimal(nm as nat) + MEDIUM_B@ + ""@;
        assert(y =~= MEDIUM_HEAD@ + CRITICAL_A@ + decimal(nm as nat) + MEDIUM_B@);
        let z = LOW_HEAD@ + CRITICAL_A@ + decimal(nl as nat) + LOW_B@ + ""@;
        assert(z =~= LOW_HEAD@ + CRITICAL_A@ + decimal(nl as nat) + LOW_B@);
        assert(out@ =~= severity_sections(fs));
    }
    out
}

/// Appends the metrics blocks of all results to `out`.
fn append_metric_blocks(out: &mut String, results: &Vec<AnalysisResult>)
    ensures
        final(out)@ == old(out)@ + metric_blocks(result_views(results@)),
{
    let ghost rs = result_views(results@);
    let ghost head = out@;
    let mut b: usize = 0;
    proof {
        assert(head + metric_blocks(rs.take(0)) =~= head);
    }
    while b < results.len()
        invariant
            b <= results@.len(),
            rs == result_views(results@),
            out@ == head + metric_blocks(rs.take(b as int)),
        decreases results@.len() - b,
    {
        proof {
            assert(rs.take(b + 1).drop_last() =~= rs.take(b as int));
            assert(rs.take(b + 1).last() == rs[b as int]);
        }
        let res = &results[b];
        append(out, res.analyzer_name.as_str());
        append(out, COLON);
        append(out, res.summary.as_str());
        append(out, NEWLINE);
        let ghost mhead = out@;
        let ghost mv = rs[b as int].metrics;
        let mut m: usize = 0;
        proof {
            assert(mhead + metric_lines(mv.take(0)) =~= mhead);
        }
        while m < res.metrics.len()
            invariant
                m <= res.metrics@.len(),
                mv == crate::analyzer::metric_views(res.metrics@),
                out@ == mhead + metric_lines(mv.take(m as int)),
            decreases res.metrics@.len() - m,
        {
            proof {
                assert(mv.take(m + 1).drop_last() =~= mv.take(m as int));
                assert(mv.take(m + 1).last() == mv[m as int]);
            }
            append(out, METRIC_INDENT);
            append(out, res.metrics[m].name.as_str());
            append(out, COLON);
            let v = signed_fixed_text(res.metrics[m].value);
            append(out, v.as_str());
            append(out, NEWLINE);
            m = m + 1;
        }
        append(out, NEWLINE);
        proof {
            assert(mv.take(res.metrics@.len() as int) =~= mv);
            assert(out@ =~= head + metric_blocks(rs.take(b + 1)));
        }
        b = b + 1;
    }
    proof {
        assert(rs.take(results@.len() as int) =~= rs);
    }
}

impl TextReporter {
    /// The text report of `results` (see [`text_report`]).
    pub fn format(&self, results: &Vec<AnalysisResult>) -> (r: String)
        ensures
            r@ == text_report(result_views(results@)),
    {
        let ghost rs = result_views(results@);
        let ghost fs = all_findings(rs);
        let (flat, sum) = flatten(results);
        let (crit, high, nc, nh, nm, nl) = group(&flat, Ghost(fs));
        let overall: u128 = if sum / 50 > 100 {
            100
        } else {
            sum / 50
        };
        let mut out = String::from_str(HEADER);
        append(&mut out, SCORE_A);
        let os = crate::text::decimal_text_wide(overall);
        append(&mut out, os.as_str());
        append(&mut out, SCORE_B);
        append(&mut out, TOTAL_A);
        let ts = decimal_text(flat.len() as u64);
        append(&mut out, ts.as_str());
        append(&mut out, TOTAL_B);
        let sec = sections(&crit, &high, nc, nh, nm, nl, Ghost(fs));
        append(&mut out, sec.as_str());
        append(&mut out, METRICS_HEAD);
        append_metric_blocks(&mut out, results);
        proof {
            assert(out@ =~= text_report(rs));
        }
        out
    }
}

/// The summary line of a result in the metrics part of the report.
pub open spec fn summary_line(r: AnalysisResultView) -> Seq<char> {
    r.analyzer_name + COLON@ + r.summary + NEWLINE@
}

proof fn lemma_occurs_in_concat(a: Seq<char>, b: Seq<char>, t: Seq<char>, i: int)
    ensures
        occurs_at(a, t, i) ==> occurs_at(a + b, t, i),
        occurs_at(b, t, i) ==> occurs_at(a + b, t, a.len() + i),
{
    if occurs_at(a, t, i) {
        assert((a + b).subrange(i, i + t.len()) =~= a.subrange(i, i + t.len()));
    }
    if occurs_at(b, t, i) {
        assert((a + b).subrange(a.len() + i, a.len() + i + t.len()) =~= b.subrange(i, i + t.len()));
    }
}

proof fn lemma_blocks_have_summaries(rs: Seq<AnalysisResultView>, k: int)
    requires
        0 <= k < rs.len(),
    ensures
        contains(metric_blocks(rs), summary_line(rs[k])),
    decreases rs.len(),
{
    let d = rs.drop_last();
    let r = rs.last();
    let line = summary_line(rs[k]);
    if k < d.len() {
        lemma_blocks_have_summaries(d, k);
        assert(d[k] == rs[k]);
        let i = choose|i: int| occurs_at(metric_blocks(d), line, i);
        let tail = r.analyzer_name + COLON@ + r.summary + NEWLINE@ + metric_lines(r.metrics) + NEWLINE@;
        lemma_occurs_in_concat(metric_blocks(d), tail, line, i);
        assert(metric_blocks(rs) =~= metric_blocks(d) + tail);
    } else {
        assert(rs[k] == r);
        let rest = metric_lines(r.metrics) + NEWLINE@;
        let head = metric_blocks(d) + line;
        assert(occurs_at(line, line, 0)) by {
            assert(line.subrange(0, line.len() as int) =~= line);
        }
        lemma_occurs_in_concat(metric_blocks(d), line, line, 0);
        lemma_occurs_in_concat(head, rest, line, metric_blocks(d).len() as int);
        assert(metric_blocks(rs) =~= head + rest);
    }
}

/// A severity has a count, and so a section, exactly when some finding has
/// that severity.
pub proof fn lemma_count_of(fs: Seq<FindingView>, s: RiskSeverity)
    ensures
        count_of(fs, s) > 0 <==> exists|k: int| 0 <= k < fs.len() && (#[trigger] fs[k]).severity == s,
    decreases fs.len(),
{
    if fs.len() > 0 {
        let d = fs.drop_last();
        lemma_count_of(d, s);
        if exists|k: int| 0 <= k < d.len() && (#[trigger] d[k]).severity == s {
            let k = choose|k: int| 0 <= k < d.len() && (#[trigger] d[k]).severity == s;
            assert(fs[k] == d[k]);
        }
        if exists|k: int| 0 <= k < fs.len() && (#[trigger] fs[k]).severity == s {
            let k = choose|k: int| 0 <= k < fs.len() && (#[trigger] fs[k]).severity == s;
            if k < d.len() {
                assert(d[k] == fs[k]);
            }
        }
    }
}

/// The report opens with its header, the overall score and the number of
/// findings; a severity section follows for exactly the severities that
/// some finding has, informational ones never listed; and every result's
/// analyzer name and summary appear on a line of their own.
pub proof fn lemma_text_report(rs: Seq<AnalysisResultView>)
    ensures
        ({
            let fs = all_findings(rs);
            let prefix = HEADER@ + SCORE_A@ + decimal(overall_score(rs)) + SCORE_B@ + TOTAL_A@ + decimal(fs.len())
                + TOTAL_B@;
            &&& prefix.len() <= text_report(rs).len()
            &&& text_report(rs).subrange(0, prefix.len() as int) == prefix
            &&& text_report(rs) == prefix + severity_sections(fs) + METRICS_HEAD@ + metric_blocks(rs)
        }),
        forall|s: RiskSeverity|
            count_of(all_findings(rs), s) > 0 <==> exists|k: int|
                0 <= k < all_findings(rs).len() && (#[trigger] all_findings(rs)[k]).severity == s,
        forall|k: int| 0 <= k < rs.len() ==> contains(text_report(rs), summary_line(#[trigger] rs[k])),
{
    let fs = all_findings(rs);
    let prefix = HEADER@ + SCORE_A@ + decimal(overall_score(rs)) + SCORE_B@ + TOTAL_A@ + decimal(fs.len())
        + TOTAL_B@;
    let body = severity_sections(fs) + METRICS_HEAD@ + metric_blocks(rs);
    assert(text_report(rs) =~= prefix + body);
    assert((prefix + body).subrange(0, prefix.len() as int) =~= prefix);
    assert forall|s: RiskSeverity| count_of(all_findings(rs), s) > 0 <==> exists|k: int|
        0 <= k < all_findings(rs).len() && (#[trigger] all_findings(rs)[k]).severity == s by {
        lemma_count_of(all_findings(rs), s);
    }
    assert forall|k: int| 0 <= k < rs.len() implies contains(text_report(rs), summary_line(#[trigger] rs[k])) by {
        lemma_blocks_have_summaries(rs, k);
        let line = summary_line(rs[k]);
        let i = choose|i: int| occurs_at(metric_blocks(rs), line, i);
        let front = prefix + severity_sections(fs) + METRICS_HEAD@;
        lemma_occurs_in_concat(front, metric_blocks(rs), line, i);
        assert(text_report(rs) =~= front + metric_blocks(rs));
    }
}

} // verus!
