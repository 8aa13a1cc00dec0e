//! Findings, analysis results and the data an analyzer runs against.
//!
//! Fractional quantities are fixed-point integers in thousandths ("milli"):
//! a confidence of `850` is 0.85, a latency multiplier of `1500` is 1.5x, a
//! cost of `300_000` is $300.00 and an affected-records share of `100_000`
//! is 100%.
use crate::ir::PipelineIR;
use vstd::prelude::*;

verus! {

/// How serious a finding is, from informational to critical.
#[derive(Debug, Clone, Copy, PartialEq, Eq, Structural)]
pub enum RiskSeverity {
    Info,
    Low,
    Medium,
    High,
    Critical,
}

/// The numeric weight of a severity: 1 (info) up to 5 (critical).
pub open spec fn severity_score(s: RiskSeverity) -> u32 {
    match s {
        RiskSeverity::Info => 1,
        RiskSeverity::Low => 2,
        RiskSeverity::Medium => 3,
        RiskSeverity::High => 4,
        RiskSeverity::Critical => 5,
    }
}

impl RiskSeverity {
    /// The numeric weight of this severity: 1 (info) up to 5 (critical).
    pub fn score(&self) -> (r: u32)
        ensures
            r == severity_score(*self),
    {
        match self {
            RiskSeverity::Info => 1,
            RiskSeverity::Low => 2,
            RiskSeverity::Medium => 3,
            RiskSeverity::High => 4,
            RiskSeverity::Critical => 5,
        }
    }
}

/// The kind of risk a finding describes.
#[derive(Debug, Clone, Copy, PartialEq, Eq, Structural)]
pub enum FindingType {
    PerformanceRisk,
    ReliabilityRisk,
    CostRisk,
    AntiPattern,
    ConfigurationIssue,
    SecurityRisk,
    ScalabilityRisk,
}

/// Estimated consequences of a finding, all in thousandths.
#[derive(Debug, Clone, Copy, PartialEq, Eq, Structural)]
pub struct Impact {
    /// Latency factor in thousandths (1500 is 1.5x).
    pub latency_multiplier: Option<u32>,
    /// Monthly cost change in thousandths of a dollar.
    pub cost_delta_monthly: Option<i64>,
    /// Share of records affected, in thousandths of a percent.
    pub affected_records_percent: Option<u32>,
}

/// One issue an analyzer reports.
pub struct Finding {
    pub id: String,
    pub severity: RiskSeverity,
    pub finding_type: FindingType,
    pub title: String,
    pub description: String,
    pub affected_nodes: Vec<String>,
    pub recommendation: Option<String>,
    pub estimated_impact: Option<Impact>,
    /// Confidence in thousandths (850 is 0.85).
    pub confidence: u32,
}

/// The mathematical content of a [`Finding`].
pub struct FindingView {
    pub id: Seq<char>,
    pub severity: RiskSeverity,
    pub finding_type: FindingType,
    pub title: Seq<char>,
    pub description: Seq<char>,
    pub affected_nodes: Seq<Seq<char>>,
    pub recommendation: Option<Seq<char>>,
    pub estimated_impact: Option<Impact>,
    pub confidence: u32,
}

/// The texts of a sequence of strings.
pub open spec fn texts(v: Seq<String>) -> Seq<Seq<char>> {
    v.map_values(|s: String| s@)
}

/// The text of an optional string.
pub open spec fn opt_text(o: Option<String>) -> Option<Seq<char>> {
    match o {
        Some(s) => Some(s@),
        None => None,
    }
}

impl View for Finding {
    type V = FindingView;

    open spec fn view(&self) -> FindingView {
        FindingView {
            id: self.id@,
            severity: self.severity,
            finding_type: self.finding_type,
            title: self.title@,
            description: self.description@,
            affected_nodes: texts(self.affected_nodes@),
            recommendation: opt_text(self.recommendation),
            estimated_impact: self.estimated_impact,
            confidence: self.confidence,
        }
    }
}

/// The views of a sequence of findings.
pub open spec fn finding_views(v: Seq<Finding>) -> Seq<FindingView> {
    v.map_values(|f: Finding| f@)
}

/// A named measurement, in thousandths.
pub struct Metric {
    pub name: String,
    pub value: i64,
}

/// Everything one analyzer reports about a pipeline.
pub struct AnalysisResult {
    pub analyzer_name: String,
    pub version: String,
    pub findings: Vec<Finding>,
    pub metrics: Vec<Metric>,
    pub summary: String,
    /// Confidence in thousandths.
    pub confidence: u32,
}

/// The mathematical content of an [`AnalysisResult`].
pub struct AnalysisResultView {
    pub analyzer_name: Seq<char>,
    pub version: Seq<char>,
    pub findings: Seq<FindingView>,
    pub metrics: Seq<(Seq<char>, i64)>,
    pub summary: Seq<char>,
    pub confidence: u32,
}

/// The (name, value) pairs of a sequence of metrics.
pub open spec fn metric_views(v: Seq<Metric>) -> Seq<(Seq<char>, i64)> {
    v.map_values(|m: Metric| (m.name@, m.value))
}

impl View for AnalysisResult {
    type V = AnalysisResultView;

    open spec fn view(&self) -> AnalysisResultView {
        AnalysisResultView {
            analyzer_name: self.analyzer_name@,
            version: self.version@,
            findings: finding_views(self.findings@),
            metrics: metric_views(self.metrics@),
            summary: self.summary@,
            confidence: self.confidence,
        }
    }
}

/// Sum of the severity scores of a sequence of findings.
pub open spec fn total_severity_score(f: Seq<FindingView>) -> int
    decreases f.len(),
{
    if f.len() == 0 {
        0
    } else {
        total_severity_score(f.drop_last()) + severity_score(f.last().severity)
    }
}

/// The ids of findings, in order.
pub open spec fn finding_ids(f: Seq<FindingView>) -> Seq<Seq<char>> {
    f.map_values(|x: FindingView| x.id)
}

/// `id` alone when `c` holds, nothing otherwise.
pub open spec fn id_if(c: bool, id: Seq<char>) -> Seq<Seq<char>> {
    if c {
        seq![id]
    } else {
        Seq::empty()
    }
}

/// Some finding in `f` carries the id `id`.
pub open spec fn has_id(f: Seq<FindingView>, id: Seq<char>) -> bool {
    exists|i: int| 0 <= i < f.len() && (#[trigger] f[i]).id == id
}

/// No finding carries an id.
pub broadcast proof fn lemma_has_id_empty(id: Seq<char>)
    ensures
        !#[trigger] has_id(Seq::<FindingView>::empty(), id),
{
}

/// A pushed finding adds its own id and keeps the others.
pub broadcast proof fn lemma_has_id_push(s: Seq<FindingView>, f: FindingView, id: Seq<char>)
    ensures
        #[trigger] has_id(s.push(f), id) <==> (has_id(s, id) || f.id == id),
{
    if has_id(s, id) {
        let i = choose|i: int| 0 <= i < s.len() && (#[trigger] s[i]).id == id;
        assert(s.push(f)[i] == s[i]);
    }
    if f.id == id {
        assert(s.push(f)[s.len() as int] == f);
    }
    if has_id(s.push(f), id) {
        let i = choose|i: int| 0 <= i < s.push(f).len() && (#[trigger] s.push(f)[i]).id == id;
        if i < s.len() {
            assert(s.push(f)[i] == s[i]);
        }
    }
}

/// The ids of a concatenation are those of its parts.
pub broadcast proof fn lemma_has_id_concat(a: Seq<FindingView>, b: Seq<FindingView>, id: Seq<char>)
    ensures
        #[trigger] has_id(a + b, id) <==> (has_id(a, id) || has_id(b, id)),
{
    if has_id(a, id) {
        let i = choose|i: int| 0 <= i < a.len() && (#[trigger] a[i]).id == id;
        assert((a + b)[i] == a[i]);
    }
    if has_id(b, id) {
        let i = choose|i: int| 0 <= i < b.len() && (#[trigger] b[i]).id == id;
        assert((a + b)[a.len() + i] == b[i]);
    }
    if has_id(a + b, id) {
        let i = choose|i: int| 0 <= i < (a + b).len() && (#[trigger] (a + b)[i]).id == id;
        if i < a.len() {
            assert((a + b)[i] == a[i]);
        } else {
            assert((a + b)[i] == b[i - a.len()]);
        }
    }
}

/// A single finding carries exactly its own id.
pub broadcast proof fn lemma_has_id_one(f: FindingView, id: Seq<char>)
    ensures
        #[trigger] has_id(seq![f], id) <==> f.id == id,
{
    if f.id == id {
        assert(seq![f][0] == f);
    }
}

pub broadcast group group_has_id {
    lemma_has_id_empty,
    lemma_has_id_push,
    lemma_has_id_concat,
    lemma_has_id_one,
}

/// The findings of a given severity, in order.
pub open spec fn with_severity(f: Seq<FindingView>, s: RiskSeverity) -> Seq<FindingView> {
    f.filter(|x: FindingView| x.severity == s)
}

/// The value recorded under `name` (first occurrence), if any.
pub open spec fn metric_lookup(m: Seq<(Seq<char>, i64)>, name: Seq<char>) -> Option<i64>
    decreases m.len(),
{
    if m.len() == 0 {
        None
    } else if m[0].0 == name {
        Some(m[0].1)
    } else {
        metric_lookup(m.drop_first(), name)
    }
}

impl AnalysisResult {
    /// The findings whose severity is `s`, in order.
    pub fn findings_with(&self, s: RiskSeverity) -> (r: Vec<&Finding>)
        ensures
            r@.len() == with_severity(self@.findings, s).len(),
            forall|i: int| 0 <= i < r@.len() ==> #[trigger] r@[i]@ == with_severity(self@.findings, s)[i],
    {
        let mut r: Vec<&Finding> = Vec::new();
        let mut i: usize = 0;
        while i < self.findings.len()
            invariant
                i <= self.findings@.len(),
                r@.len() == with_severity(finding_views(self.findings@).take(i as int), s).len(),
                forall|k: int|
                    0 <= k < r@.len() ==> #[trigger] r@[k]@ == with_severity(
                        finding_views(self.findings@).take(i as int),
                        s,
                    )[k],
            decreases self.findings@.len() - i,
        {
            let ghost all = finding_views(self.findings@);
            proof {
                assert(all.take(i + 1).drop_last() =~= all.take(i as int));
                assert(all.take(i + 1).last() == self.findings@[i as int]@);
                reveal_with_fuel(Seq::filter, 1);
            }
            if self.findings[i].severity == s {
                r.push(&self.findings[i]);
            }
            i = i + 1;
        }
        proof {
            assert(finding_views(self.findings@).take(self.findings@.len() as int) =~= finding_views(
                self.findings@,
            ));
        }
        r
    }

    /// The critical findings, in order.
    pub fn critical_findings(&self) -> (r: Vec<&Finding>)
        ensures
            r@.len() == with_severity(self@.findings, RiskSeverity::Critical).len(),
            forall|i: int|
                0 <= i < r@.len() ==> #[trigger] r@[i]@ == with_severity(
                    self@.findings,
                    RiskSeverity::Critical,
                )[i],
    {
        self.findings_with(RiskSeverity::Critical)
    }

    /// The high-severity findings, in order.
    pub fn high_findings(&self) -> (r: Vec<&Finding>)
        ensures
            r@.len() == with_severity(self@.findings, RiskSeverity::High).len(),
            forall|i: int|
                0 <= i < r@.len() ==> #[trigger] r@[i]@ == with_severity(
                    self@.findings,
                    RiskSeverity::High,
                )[i],
    {
        self.findings_with(RiskSeverity::High)
    }

    /// Sum of the severity scores of all findings.
    pub fn total_score(&self) -> (r: u32)
        requires
            total_severity_score(self@.findings) <= u32::MAX,
        ensures
            r == total_severity_score(self@.findings),
    {
        let mut sum: u32 = 0;
        let mut i: usize = 0;
        proof {
            lemma_total_score_prefix_monotone(self@.findings, 0);
        }
        while i < self.findings.len()
            invariant
                i <= self.findings@.len(),
                sum == total_severity_score(self@.findings.take(i as int)),
                total_severity_score(self@.findings) <= u32::MAX,
            decreases self.findings@.len() - i,
        {
            let ghost all = self@.findings;
            proof {
                assert(all.take(i + 1).drop_last() =~= all.take(i as int));
                assert(all.take(i + 1).last() == self.findings@[i as int]@);
                lemma_total_score_prefix_monotone(all, i + 1);
            }
            sum = sum + self.findings[i].severity.score();
            i = i + 1;
        }
        proof {
            assert(self@.findings.take(self.findings@.len() as int) =~= self@.findings);
        }
        sum
    }

    /// The value of the metric called `name`, in thousandths, if recorded.
    pub fn metric(&self, name: &str) -> (r: Option<i64>)
        ensures
            r == metric_lookup(self@.metrics, name@),
    {
        let mut i: usize = 0;
        proof {
            assert(self@.metrics.skip(0) =~= self@.metrics);
        }
        while i < self.metrics.len()
            invariant
                i <= self.metrics@.len(),
                metric_lookup(self@.metrics, name@) == metric_lookup(
                    self@.metrics.skip(i as int),
                    name@,
                ),
            decreases self.metrics@.len() - i,
        {
            let ghost rest = self@.metrics.skip(i as int);
            proof {
                assert(rest.drop_first() =~= self@.metrics.skip(i + 1));
                assert(rest[0] == (self.metrics@[i as int].name@, self.metrics@[i as int].value));
            }
            if crate::text::str_eq(self.metrics[i].name.as_str(), name) {
                return Some(self.metrics[i].value);
            }
            i = i + 1;
        }
        None
    }
}

/// A prefix's score never exceeds the whole sequence's score.
pub proof fn lemma_total_score_prefix_monotone(f: Seq<FindingView>, k: int)
    requires
        0 <= k <= f.len(),
    ensures
        0 <= total_severity_score(f.take(k)) <= total_severity_score(f),
    decreases f.len(),
{
    if k == f.len() {
        assert(f.take(k) =~= f);
        lemma_total_score_nonneg(f);
    } else {
        lemma_total_score_prefix_monotone(f.drop_last(), k);
        assert(f.drop_last().take(k) =~= f.take(k));
    }
}

proof fn lemma_total_score_nonneg(f: Seq<FindingView>)
    ensures
        total_severity_score(f) >= 0,
    decreases f.len(),
{
    if f.len() > 0 {
        lemma_total_score_nonneg(f.drop_last());
    }
}

/// Optional, caller-supplied runtime statistics about a pipeline.  Each
/// absent field means "fall back to the built-in heuristic".
#[derive(Debug, Clone, Copy, PartialEq, Eq, Structural)]
pub struct DataProfile {
    /// Elements per second, in thousandths.
    pub estimated_throughput_milli_per_sec: Option<u64>,
    pub average_element_size_bytes: Option<u64>,
    pub key_cardinality: Option<u64>,
    /// State size in thousandths of a GB.
    pub estimated_state_size_milli_gb: Option<u64>,
}

/// Everything an analyzer inspects: the pipeline and an optional profile.
pub struct AnalysisContext {
    pub pipeline_ir: PipelineIR,
    pub data_profile: Option<DataProfile>,
}

/// Builds a finding from its parts.
pub fn make_finding(
    id: &str,
    severity: RiskSeverity,
    finding_type: FindingType,
    title: String,
    description: String,
    affected_nodes: Vec<String>,
    recommendation: Option<&str>,
    estimated_impact: Option<Impact>,
    confidence: u32,
) -> (f: Finding)
    ensures
        f@ == (FindingView {
            id: id@,
            severity,
            finding_type,
            title: title@,
            description: description@,
            affected_nodes: texts(affected_nodes@),
            recommendation: match recommendation {
                Some(r) => Some(r@),
                None => None,
            },
            estimated_impact,
            confidence,
        }),
{
    let rec = match recommendation {
        Some(r) => Some(String::from_str(r)),
        None => None,
    };
    Finding {
        id: String::from_str(id),
        severity,
        finding_type,
        title,
        description,
        affected_nodes,
        recommendation: rec,
        estimated_impact,
        confidence,
    }
}

/// Builds a finding whose texts are all fixed.
pub fn fixed_finding(
    id: &str,
    severity: RiskSeverity,
    finding_type: FindingType,
    title: &str,
    description: &str,
    affected_nodes: Vec<String>,
    recommendation: Option<&str>,
    estimated_impact: Option<Impact>,
    confidence: u32,
) -> (f: Finding)
    ensures
        f@ == (FindingView {
            id: id@,
            severity,
            finding_type,
            title: title@,
            description: description@,
            affected_nodes: texts(affected_nodes@),
            recommendation: match recommendation {
                Some(r) => Some(r@),
                None => None,
            },
            estimated_impact,
            confidence,
        }),
{
    make_finding(
        id,
        severity,
        finding_type,
        String::from_str(title),
        String::from_str(description),
        affected_nodes,
        recommendation,
        estimated_impact,
        confidence,
    )
}

/// An impact with only some parts estimated.
pub open spec fn impact(lat: Option<u32>, cost: Option<i64>, recs: Option<u32>) -> Impact {
    Impact { latency_multiplier: lat, cost_delta_monthly: cost, affected_records_percent: recs }
}

/// Builds a metric.
pub fn metric(name: &str, value: i64) -> (m: Metric)
    ensures
        m.name@ == name@,
        m.value == value,
{
    Metric { name: String::from_str(name), value }
}

/// Builds an analysis result.
pub fn make_result(
    analyzer_name: &str,
    version: &str,
    findings: Vec<Finding>,
    metrics: Vec<Metric>,
    summary: String,
    confidence: u32,
) -> (r: AnalysisResult)
    ensures
        r@ == (AnalysisResultView {
            analyzer_name: analyzer_name@,
            version: version@,
            findings: finding_views(findings@),
            metrics: metric_views(metrics@),
            summary: summary@,
            confidence,
        }),
{
    AnalysisResult {
        analyzer_name: String::from_str(analyzer_name),
        version: String::from_str(version),
        findings,
        metrics,
        summary,
        confidence,
    }
}

/// Appends a finding.
pub fn push_finding(v: &mut Vec<Finding>, f: Finding)
    ensures
        finding_views(final(v)@) == finding_views(old(v)@).push(f@),
{
    let ghost f_view = f@;
    v.push(f);
    proof {
        assert(finding_views(v@) =~= finding_views(old(v)@).push(f_view));
    }
}

/// Appends a metric.
pub fn push_metric(v: &mut Vec<Metric>, name: &str, value: i64)
    ensures
        metric_views(final(v)@) == metric_views(old(v)@).push((name@, value)),
{
    let m = metric(name, value);
    v.push(m);
    proof {
        assert(metric_views(v@) =~= metric_views(old(v)@).push((name@, value)));
    }
}

/// An empty list of affected nodes.
pub fn no_nodes() -> (v: Vec<String>)
    ensures
        texts(v@) == Seq::<Seq<char>>::empty(),
{
    let v: Vec<String> = Vec::new();
    proof {
        assert(texts(v@) =~= Seq::<Seq<char>>::empty());
    }
    v
}

/// A list holding one affected node.
pub fn one_node(id: &String) -> (v: Vec<String>)
    ensures
        texts(v@) == seq![id@],
{
    let mut v: Vec<String> = Vec::new();
    v.push(id.clone());
    proof {
        assert(texts(v@) =~= seq![id@]);
    }
    v
}

/// `1.0` or `0.0` in thousandths.
pub open spec fn flag(b: bool) -> i64 {
    if b {
        1000
    } else {
        0
    }
}

/// `1.0` or `0.0` in thousandths.
pub fn flag_value(b: bool) -> (r: i64)
    ensures
        r == flag(b),
{
    if b {
        1000
    } else {
        0
    }
}

/// A count as a metric value in thousandths (saturating at `i64::MAX`).
pub open spec fn count_milli(n: nat) -> i64 {
    if n * 1000 <= i64::MAX {
        (n * 1000) as i64
    } else {
        i64::MAX
    }
}

/// A count as a metric value in thousandths (saturating at `i64::MAX`).
pub fn count_value(n: usize) -> (r: i64)
    ensures
        r == count_milli(n as nat),
{
    if n as u128 * 1000 <= i64::MAX as u128 {
        (n as u128 * 1000) as i64
    } else {
        i64::MAX
    }
}

/// An amount as an `i64`, saturating at `i64::MAX`.
pub open spec fn clamp_i64(n: nat) -> i64 {
    if n <= i64::MAX {
        n as i64
    } else {
        i64::MAX
    }
}

/// An amount as an `i64`, saturating at `i64::MAX`.
pub fn clamp_value(n: u64) -> (r: i64)
    ensures
        r == clamp_i64(n as nat),
{
    if n <= i64::MAX as u64 {
        n as i64
    } else {
        i64::MAX
    }
}

/// "Found N <what>" style summaries: `prefix`, the count, `suffix`.
pub open spec fn counted(prefix: Seq<char>, n: nat, suffix: Seq<char>) -> Seq<char> {
    prefix + crate::text::decimal(n) + suffix
}

/// Renders `prefix`, the decimal `n`, then `suffix`.
pub fn counted_text(prefix: &str, n: u64, suffix: &str) -> (r: String)
    ensures
        r@ == counted(prefix@, n as nat, suffix@),
{
    let d = crate::text::decimal_text(n);
    let mut s = String::from_str(prefix);
    s.append(d.as_str());
    s.append(suffix);
    s
}

} // verus!
