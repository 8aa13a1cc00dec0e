//! Inspecting a Beam pipeline without (or with selected) analysis: its size,
//! shape and the analyzers available to run on it.
//!
//! Fractional figures are thousandths.
use crate::analyzer::{AnalysisContext, AnalysisResult, DataProfile};
use crate::analyzers::registry::{
    beam_suite, create_analyzers, create_analyzers_by_names, kind_name, kind_priority, kinds, named,
    result_views, run_analyzers, AnalyzerKind,
};
use crate::ir::{count_class, count_selected, NodeClass, PipelineIR, Selector, TransformNode};
use crate::parser::{beam_pipeline, BeamPipelineParser, ParseError, BEAM_IMPORT_RE};
use crate::pattern::regex_is_match;
use crate::reporting::text_reporter::{text_report, TextReporter};
use crate::rules::RulesConfig;
use crate::{default_beam_suite, reports_of};
use vstd::prelude::*;

verus! {

/// The name, version and running priority of an analyzer.
pub struct PyAnalyzerInfo {
    pub name: String,
    pub version: String,
    pub priority: u32,
}

/// The Beam analyzers, in running order, with their versions and
/// priorities.
pub fn get_available_analyzers() -> (r: Vec<PyAnalyzerInfo>)
    ensures
        r@.len() == default_beam_suite().len(),
        forall|k: int|
            0 <= k < r@.len() ==> (#[trigger] r@[k]).name@ == kind_name(default_beam_suite()[k])
                && r@[k].version@ == "0.1.0"@ && r@[k].priority == kind_priority(default_beam_suite()[k]),
{
    let rules = RulesConfig::default_rules();
    proof {
        crate::lemma_default_suites(rules);
    }
    let analyzers = create_analyzers(&rules);
    let mut out: Vec<PyAnalyzerInfo> = Vec::new();
    let mut k: usize = 0;
    while k < analyzers.len()
        invariant
            k <= analyzers@.len(),
            kinds(analyzers@) == default_beam_suite(),
            out@.len() == k,
            forall|q: int|
                0 <= q < k ==> (#[trigger] out@[q]).name@ == kind_name(default_beam_suite()[q])
                    && out@[q].version@ == "0.1.0"@ && out@[q].priority == kind_priority(
                    default_beam_suite()[q],
                ),
        decreases analyzers@.len() - k,
    {
        let a = &analyzers[k];
        proof {
            assert(kinds(analyzers@)[k as int] == analyzers@[k as int]@);
        }
        out.push(
            PyAnalyzerInfo {
                name: String::from_str(a.name()),
                version: String::from_str(a.version()),
                priority: a.priority(),
            },
        );
        k = k + 1;
    }
    out
}

/// `format!("{:?}", v)` for a list of strings: the strings quoted, escaped
/// and comma-separated inside brackets.
pub uninterp spec fn debug_strings(v: Seq<Seq<char>>) -> Seq<char>;

/// The `Debug` form of a list of strings, as `format!("{:?}", ..)` writes it
/// (the text is named by [`debug_strings`], not restated).
#[verifier::external_body]
fn debug_list(v: &Vec<String>) -> (r: String)
    ensures
        r@ == debug_strings(crate::rules::pattern_texts(v@)),
{
    format!("{:?}", v)
}

/// Why a selective analysis could not run.
pub enum SelectionError {
    /// The source is not a Beam pipeline.
    Parse(ParseError),
    /// No analyzer has one of these names.
    NoAnalyzersMatched(Vec<String>),
}

pub const NO_MATCH_A: &'static str = "No analyzers matched: ";
pub const NO_MATCH_B: &'static str = ". Available: GraphAnalyzer, HotKeyAnalyzer, ShuffleAnalyzer, WindowingAnalyzer, StateAnalyzer, CostAnalyzer, ReliabilityAnalyzer, BestPracticesAnalyzer, DeploymentAnalyzer, SynthesisEngine";

impl SelectionError {
    /// The error's message.
    pub fn message(&self) -> (r: String)
        ensures
            match self {
                SelectionError::Parse(e) => r@ == match e {
                    ParseError::NoBeamImports => "No Apache Beam imports detected in code"@,
                    ParseError::NoFlinkConstructs => "No Flink DataStream/Table API constructs (pyflink import or StreamExecutionEnvironment) detected in code"@,
                    ParseError::NoSparkConstructs => "No PySpark constructs (pyspark import, SparkSession, or SparkContext) detected in code"@,
                },
                SelectionError::NoAnalyzersMatched(ns) => r@ == NO_MATCH_A@ + debug_strings(
                    crate::rules::pattern_texts(ns@),
                ) + NO_MATCH_B@,
            },
    {
        match self {
            SelectionError::Parse(e) => String::from_str(e.message()),
            SelectionError::NoAnalyzersMatched(ns) => {
                let d = debug_list(ns);
                crate::text::concat3(NO_MATCH_A, d.as_str(), NO_MATCH_B)
            },
        }
    }
}

/// The texts of a list of names.
pub open spec fn name_texts(v: Seq<String>) -> Seq<Seq<char>> {
    v.map_values(|s: String| s@)
}

/// Parses a Beam pipeline and runs only the analyzers named in
/// `analyzer_names` (in running order), with the built-in rules.  Fails as
/// the parser does, or when no analyzer has one of the names.
pub fn analyze_with_analyzers(
    code: String,
    analyzer_names: Vec<String>,
    data_profile: Option<DataProfile>,
) -> (r: Result<Vec<AnalysisResult>, SelectionError>)
    ensures
        match r {
            Ok(v) => regex_is_match(BEAM_IMPORT_RE@, code@) && named(
                default_beam_suite(),
                name_texts(analyzer_names@),
            ).len() > 0 && exists|ir: PipelineIR|
                #[trigger] beam_pipeline(ir, code@) && reports_of(
                    result_views(v@),
                    named(default_beam_suite(), name_texts(analyzer_names@)),
                    ir,
                    data_profile,
                ),
            Err(SelectionError::Parse(e)) => !regex_is_match(BEAM_IMPORT_RE@, code@) && e
                == ParseError::NoBeamImports,
            Err(SelectionError::NoAnalyzersMatched(ns)) => regex_is_match(BEAM_IMPORT_RE@, code@)
                && named(default_beam_suite(), name_texts(analyzer_names@)).len() == 0 && name_texts(ns@)
                == name_texts(analyzer_names@),
        },
{
    let parser = BeamPipelineParser::new();
    let ir = match parser.parse(code.as_str()) {
        Ok(ir) => ir,
        Err(e) => return Err(SelectionError::Parse(e)),
    };
    let rules = RulesConfig::default_rules();
    proof {
        crate::lemma_default_suites(rules);
    }
    let mut names: Vec<&str> = Vec::new();
    let mut k: usize = 0;
    while k < analyzer_names.len()
        invariant
            k <= analyzer_names@.len(),
            names@.map_values(|s: &str| s@) =~= name_texts(analyzer_names@).take(k as int),
        decreases analyzer_names@.len() - k,
    {
        let ghost n0 = names@;
        let t = analyzer_names[k].as_str();
        names.push(t);
        proof {
            assert(names@ == n0.push(t));
            assert(names@.map_values(|s: &str| s@) =~= n0.map_values(|s: &str| s@).push(t@));
            assert(name_texts(analyzer_names@).take(k + 1) =~= name_texts(analyzer_names@).take(k as int).push(
                analyzer_names@[k as int]@,
            ));
        }
        k = k + 1;
    }
    proof {
        assert(name_texts(analyzer_names@).take(analyzer_names@.len() as int) =~= name_texts(
            analyzer_names@,
        ));
    }
    let analyzers = create_analyzers_by_names(names.as_slice(), &rules);
    if analyzers.len() == 0 {
        let mut copy: Vec<String> = Vec::new();
        let mut j: usize = 0;
        while j < analyzer_names.len()
            invariant
                j <= analyzer_names@.len(),
                name_texts(copy@) =~= name_texts(analyzer_names@).take(j as int),
            decreases analyzer_names@.len() - j,
        {
            let ghost c0 = copy@;
            copy.push(analyzer_names[j].clone());
            proof {
                assert(name_texts(copy@) =~= name_texts(c0).push(analyzer_names@[j as int]@));
                assert(name_texts(analyzer_names@).take(j + 1) =~= name_texts(analyzer_names@).take(j as int).push(
                    analyzer_names@[j as int]@,
                ));
            }
            j = j + 1;
        }
        proof {
            assert(name_texts(analyzer_names@).take(analyzer_names@.len() as int) =~= name_texts(
                analyzer_names@,
            ));
        }
        return Err(SelectionError::NoAnalyzersMatched(copy));
    }
    let ctx = AnalysisContext { pipeline_ir: ir, data_profile };
    let v = run_analyzers(&ctx, &analyzers);
    proof {
        assert(beam_pipeline(ctx.pipeline_ir, code@));
    }
    Ok(v)
}

/// Parses Beam Python source into its pipeline graph (see
/// [`BeamPipelineParser::parse`]).
pub fn parse_pipeline(code: String) -> (r: Result<PipelineIR, ParseError>)
    ensures
        match r {
            Ok(ir) => regex_is_match(BEAM_IMPORT_RE@, code@) && beam_pipeline(ir, code@),
            Err(e) => !regex_is_match(BEAM_IMPORT_RE@, code@) && e == ParseError::NoBeamImports,
        },
{
    BeamPipelineParser::new().parse(code.as_str())
}

/// Analyzes Beam Python source with every analyzer and the built-in rules,
/// returning the results themselves (see [`crate::analyze_pipeline`]).
pub fn analyze_structured(code: String, data_profile: Option<DataProfile>) -> (r: Result<
    Vec<AnalysisResult>,
    ParseError,
>)
    ensures
        match r {
            Ok(v) => regex_is_match(BEAM_IMPORT_RE@, code@) && exists|ir: PipelineIR|
                #[trigger] beam_pipeline(ir, code@) && reports_of(
                    result_views(v@),
                    default_beam_suite(),
                    ir,
                    data_profile,
                ),
            Err(e) => !regex_is_match(BEAM_IMPORT_RE@, code@) && e == ParseError::NoBeamImports,
        },
{
    crate::analyze_pipeline(code.as_str(), data_profile)
}

/// Parses a Beam pipeline, runs every analyzer with the built-in rules and
/// formats the results as the text report.  Fails as the parser does.
pub fn get_text_report(code: String, data_profile: Option<DataProfile>) -> (r: Result<String, ParseError>)
    ensures
        match r {
            Ok(s) => regex_is_match(BEAM_IMPORT_RE@, code@) && exists|ir: PipelineIR|
                #[trigger] beam_pipeline(ir, code@) && s@ == text_report(
                    crate::analyzers::registry::suite_results(
                        default_beam_suite(),
                        AnalysisContext { pipeline_ir: ir, data_profile },
                    ),
                ),
            Err(e) => !regex_is_match(BEAM_IMPORT_RE@, code@) && e == ParseError::NoBeamImports,
        },
{
    match crate::analyze_pipeline(code.as_str(), data_profile) {
        Ok(results) => Ok(TextReporter.format(&results)),
        Err(e) => Err(e),
    }
}

/// Whether the source is a Beam pipeline the parser accepts.
pub fn validate_pipeline_syntax(code: String) -> (r: bool)
    ensures
        r == regex_is_match(BEAM_IMPORT_RE@, code@),
{
    let parser = BeamPipelineParser::new();
    match parser.parse(code.as_str()) {
        Ok(_) => true,
        Err(_) => false,
    }
}

/// The size of a pipeline: one per node and a half per edge, in thousandths.
pub open spec fn size_milli(ir: PipelineIR) -> nat {
    ir.nodes@.len() * 1000 + ir.edges@.len() * 500
}

/// The size score of a Beam pipeline (see [`size_milli`]).  Fails as the
/// parser does.
pub fn get_pipeline_complexity_score(code: String) -> (r: Result<u128, ParseError>)
    ensures
        match r {
            Ok(c) => regex_is_match(BEAM_IMPORT_RE@, code@) && exists|ir: PipelineIR|
                #[trigger] beam_pipeline(ir, code@) && c == size_milli(ir),
            Err(e) => !regex_is_match(BEAM_IMPORT_RE@, code@) && e == ParseError::NoBeamImports,
        },
{
    let parser = BeamPipelineParser::new();
    match parser.parse(code.as_str()) {
        Ok(ir) => Ok(ir.nodes.len() as u128 * 1000 + ir.edges.len() as u128 * 500),
        Err(e) => Err(e),
    }
}

/// Counts and size of a pipeline.
pub struct PyPipelineSummary {
    pub name: String,
    pub node_count: usize,
    pub edge_count: usize,
    pub source_count: usize,
    pub sink_count: usize,
    /// See [`size_milli`].
    pub complexity: u128,
}

/// `s` summarises `ir`.
pub open spec fn summarises(s: PyPipelineSummary, ir: PipelineIR) -> bool {
    &&& s.name@ == ir.name@
    &&& s.node_count == ir.nodes@.len()
    &&& s.edge_count == ir.edges@.len()
    &&& s.source_count == count_selected(ir.nodes@, Selector::Class(NodeClass::Source))
    &&& s.sink_count == count_selected(ir.nodes@, Selector::Class(NodeClass::Sink))
    &&& s.complexity == size_milli(ir)
}

/// Parses a Beam pipeline and summarises it.  Fails as the parser does.
pub fn get_pipeline_summary(code: String) -> (r: Result<PyPipelineSummary, ParseError>)
    ensures
        match r {
            Ok(s) => regex_is_match(BEAM_IMPORT_RE@, code@) && exists|ir: PipelineIR|
                #[trigger] beam_pipeline(ir, code@) && summarises(s, ir),
            Err(e) => !regex_is_match(BEAM_IMPORT_RE@, code@) && e == ParseError::NoBeamImports,
        },
{
    let parser = BeamPipelineParser::new();
    let ir = match parser.parse(code.as_str()) {
        Ok(ir) => ir,
        Err(e) => return Err(e),
    };
    let s = PyPipelineSummary {
        name: ir.name.clone(),
        node_count: ir.nodes.len(),
        edge_count: ir.edges.len(),
        source_count: count_class(&ir.nodes, NodeClass::Source),
        sink_count: count_class(&ir.nodes, NodeClass::Sink),
        complexity: ir.nodes.len() as u128 * 1000 + ir.edges.len() as u128 * 500,
    };
    proof {
        assert(beam_pipeline(ir, code@));
    }
    Ok(s)
}

/// Summed input counts of nodes.
pub open spec fn inputs_total(nodes: Seq<TransformNode>) -> nat
    decreases nodes.len(),
{
    if nodes.len() == 0 {
        0
    } else {
        inputs_total(nodes.drop_last()) + nodes.last().inputs@.len()
    }
}

/// Summed output counts of nodes.
pub open spec fn outputs_total(nodes: Seq<TransformNode>) -> nat
    decreases nodes.len(),
{
    if nodes.len() == 0 {
        0
    } else {
        outputs_total(nodes.drop_last()) + nodes.last().outputs@.len()
    }
}

/// Shape statistics of a pipeline.
pub struct PyPipelineStats {
    pub total_nodes: usize,
    pub total_edges: usize,
    pub source_count: usize,
    pub sink_count: usize,
    /// Inputs per node, in thousandths (0 without nodes).
    pub avg_node_inputs: u128,
    /// Outputs per node, in thousandths (0 without nodes).
    pub avg_node_outputs: u128,
    /// The edge count, or 1 without edges.
    pub max_depth: usize,
}

/// `s` gives the statistics of `ir`.
pub open spec fn stats_of_pipeline(s: PyPipelineStats, ir: PipelineIR) -> bool {
    let n = ir.nodes@.len();
    &&& s.total_nodes == n
    &&& s.total_edges == ir.edges@.len()
    &&& s.source_count == count_selected(ir.nodes@, Selector::Class(NodeClass::Source))
    &&& s.sink_count == count_selected(ir.nodes@, Selector::Class(NodeClass::Sink))
    &&& s.avg_node_inputs == (if n == 0 {
        0
    } else {
        (inputs_total(ir.nodes@) * 1000) as int / n as int
    })
    &&& s.avg_node_outputs == (if n == 0 {
        0
    } else {
        (outputs_total(ir.nodes@) * 1000) as int / n as int
    })
    &&& s.max_depth == (if ir.edges@.len() == 0 {
        1
    } else {
        ir.edges@.len()
    })
}

/// Summed input and output counts of nodes.
fn port_totals(nodes: &Vec<TransformNode>) -> (r: (u128, u128))
    ensures
        r.0 == inputs_total(nodes@),
        r.1 == outputs_total(nodes@),
        r.0 <= nodes@.len() * 0x1_0000_0000_0000_0000u128,
        r.1 <= nodes@.len() * 0x1_0000_0000_0000_0000u128,
{
    let mut ins: u128 = 0;
    let mut outs: u128 = 0;
    let mut k: usize = 0;
    while k < nodes.len()
        invariant
            k <= nodes@.len(),
            ins == inputs_total(nodes@.take(k as int)),
            outs == outputs_total(nodes@.take(k as int)),
            ins <= k * 0x1_0000_0000_0000_0000u128,
            outs <= k * 0x1_0000_0000_0000_0000u128,
        decreases nodes@.len() - k,
    {
        proof {
            assert(nodes@.take(k + 1).drop_last() =~= nodes@.take(k as int));
            assert(k < 0x1_0000_0000_0000_0000u128);
        }
        ins = ins + nodes[k].inputs.len() as u128;
        outs = outs + nodes[k].outputs.len() as u128;
        k = k + 1;
    }
    proof {
        assert(nodes@.take(nodes@.len() as int) =~= nodes@);
    }
    (ins, outs)
}

/// `total * 1000 / n`, computed without overflow.
fn per_thousand(total: u128, n: u128) -> (r: u128)
    requires
        n > 0,
        n < 0x1_0000_0000_0000_0000u128,
        total <= n * 0x1_0000_0000_0000_0000u128,
    ensures
        r == total * 1000 / (n as int),
{
    let q = total / n;
    let m = total % n;
    proof {
        assert(q * n + m == total && 0 <= m < n) by (nonlinear_arith)
            requires
                q == total / n,
                m == total % n,
                n > 0,
        ;
        assert(q <= 0x1_0000_0000_0000_0000u128) by (nonlinear_arith)
            requires
                q * n + m == total,
                n > 0,
                m >= 0,
                total <= n * 0x1_0000_0000_0000_0000u128,
        ;
        assert((total * 1000) / (n as int) == q * 1000 + (m * 1000) / (n as int)) by (nonlinear_arith)
            requires
                q * n + m == total,
                0 <= m < n,
                n > 0,
        ;
    }
    q * 1000 + m * 1000 / n
}

/// Parses a Beam pipeline and computes its shape statistics.  Fails as the
/// parser does.
pub fn get_pipeline_stats(code: String) -> (r: Result<PyPipelineStats, ParseError>)
    ensures
        match r {
            Ok(s) => regex_is_match(BEAM_IMPORT_RE@, code@) && exists|ir: PipelineIR|
                #[trigger] beam_pipeline(ir, code@) && stats_of_pipeline(s, ir),
            Err(e) => !regex_is_match(BEAM_IMPORT_RE@, code@) && e == ParseError::NoBeamImports,
        },
{
    let parser = BeamPipelineParser::new();
    let ir = match parser.parse(code.as_str()) {
        Ok(ir) => ir,
        Err(e) => return Err(e),
    };
    let n = ir.nodes.len();
    let (ins, outs) = port_totals(&ir.nodes);
    let (avg_in, avg_out) = if n == 0 {
        (0u128, 0u128)
    } else {
        (per_thousand(ins, n as u128), per_thousand(outs, n as u128))
    };
    let e = ir.edges.len();
    let s = PyPipelineStats {
        total_nodes: n,
        total_edges: e,
        source_count: count_class(&ir.nodes, NodeClass::Source),
        sink_count: count_class(&ir.nodes, NodeClass::Sink),
        avg_node_inputs: avg_in,
        avg_node_outputs: avg_out,
        max_depth: if e == 0 {
            1
        } else {
            e
        },
    };
    proof {
        assert(beam_pipeline(ir, code@));
    }
    Ok(s)
}

} // verus!
