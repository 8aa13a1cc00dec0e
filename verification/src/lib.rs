//! Static analysis of Apache Beam, Flink and Spark pipeline sources.
use vstd::prelude::*;

pub mod analyzer;
pub mod analyzers;
pub mod cli;
pub mod commercial;
pub mod ecosystem;
pub mod frameworks;
pub mod insights;
pub mod inspect;
pub mod ir;
pub mod parser;
pub mod pattern;
pub mod reporting;
pub mod rules;
pub mod text;

use crate::analyzer::{AnalysisContext, AnalysisResult, DataProfile};
use crate::analyzers::registry::{
    beam_suite, create_analyzers, create_flink_analyzers, create_spark_analyzers, flink_suite,
    result_views, run_analyzers, spark_suite, suite_results, AnalyzerKind,
};
use crate::frameworks::flink::{flink_pipeline, FlinkFrameworkParser, FLINK_IMPORT_RE};
use crate::frameworks::spark::{spark_pipeline, SparkFrameworkParser, SPARK_IMPORT_RE};
use crate::ir::PipelineIR;
use crate::parser::{beam_pipeline, BeamPipelineParser, ParseError, BEAM_IMPORT_RE};
use crate::pattern::regex_is_match;
use crate::rules::{
    default_hotkey_view, default_spark_join_view, is_default_rules, CostRules, RulesConfig,
    StateRules,
};

verus! {

/// The Beam suite with the built-in rules.
pub open spec fn default_beam_suite() -> Seq<AnalyzerKind> {
    seq![
        AnalyzerKind::Graph,
        AnalyzerKind::HotKey(default_hotkey_view()),
        AnalyzerKind::Shuffle,
        AnalyzerKind::Windowing,
        AnalyzerKind::State(StateRules { large_measured_state_size_milli_gb: 500_000 }),
        AnalyzerKind::Cost(
            CostRules {
                dataflow_shuffle_cost_per_gb: 300,
                worker_machine_cost_per_hour: 350,
                persistent_disk_cost_per_gb_month: 40,
            },
        ),
        AnalyzerKind::Reliability,
        AnalyzerKind::BestPractices,
        AnalyzerKind::Deployment,
        AnalyzerKind::Synthesis,
    ]
}

/// The Spark suite with the built-in rules.
pub open spec fn default_spark_suite() -> Seq<AnalyzerKind> {
    seq![
        AnalyzerKind::SparkShuffle,
        AnalyzerKind::SparkJoin(default_spark_join_view()),
        AnalyzerKind::SparkStreaming,
    ]
}

/// `v` is what the analyzers `ks` report, in order, for the pipeline `ir`
/// and the data profile `profile`.
pub open spec fn reports_of(
    v: Seq<crate::analyzer::AnalysisResultView>,
    ks: Seq<AnalyzerKind>,
    ir: PipelineIR,
    profile: Option<DataProfile>,
) -> bool {
    v == suite_results(ks, AnalysisContext { pipeline_ir: ir, data_profile: profile })
}

proof fn lemma_default_suites(r: RulesConfig)
    requires
        is_default_rules(r),
    ensures
        beam_suite(r) == default_beam_suite(),
        spark_suite(r) == default_spark_suite(),
{
    assert(r.hotkey@ == default_hotkey_view());
    assert(r.spark_join@ == default_spark_join_view());
    assert(beam_suite(r) =~= default_beam_suite());
    assert(spark_suite(r) =~= default_spark_suite());
}

/// Parses Beam Python source and runs the Beam analyzers built with
/// `rules`: fails as the parser does; otherwise the results of the suite,
/// in order, against the parsed pipeline and the profile.
pub fn analyze_pipeline_with_rules(
    python_code: &str,
    data_profile: Option<DataProfile>,
    rules: &RulesConfig,
) -> (r: Result<Vec<AnalysisResult>, ParseError>)
    ensures
        match r {
            Ok(v) => regex_is_match(BEAM_IMPORT_RE@, python_code@) && exists|ir: PipelineIR|
                #[trigger] beam_pipeline(ir, python_code@) && reports_of(
                    result_views(v@),
                    beam_suite(*rules),
                    ir,
                    data_profile,
                ),
            Err(e) => !regex_is_match(BEAM_IMPORT_RE@, python_code@) && e
                == ParseError::NoBeamImports,
        },
{
    let parser = BeamPipelineParser::new();
    let ir = match parser.parse(python_code) {
        Ok(ir) => ir,
        Err(e) => return Err(e),
    };
    let ctx = AnalysisContext { pipeline_ir: ir, data_profile };
    let analyzers = create_analyzers(rules);
    let v = run_analyzers(&ctx, &analyzers);
    proof {
        assert(beam_pipeline(ctx.pipeline_ir, python_code@));
    }
    Ok(v)
}

/// [`analyze_pipeline_with_rules`] with the built-in rules.
pub fn analyze_pipeline(python_code: &str, data_profile: Option<DataProfile>) -> (r: Result<
    Vec<AnalysisResult>,
    ParseError,
>)
    ensures
        match r {
            Ok(v) => regex_is_match(BEAM_IMPORT_RE@, python_code@) && exists|ir: PipelineIR|
                #[trigger] beam_pipeline(ir, python_code@) && reports_of(
                    result_views(v@),
                    default_beam_suite(),
                    ir,
                    data_profile,
                ),
            Err(e) => !regex_is_match(BEAM_IMPORT_RE@, python_code@) && e
                == ParseError::NoBeamImports,
        },
{
    let rules = RulesConfig::default_rules();
    proof {
        lemma_default_suites(rules);
    }
    analyze_pipeline_with_rules(python_code, data_profile, &rules)
}

/// Parses PyFlink source and runs the Flink analyzers: fails as the parser
/// does; otherwise the results of the suite, in order, against the parsed
/// pipeline and the profile.
pub fn analyze_flink_pipeline(code: &str, data_profile: Option<DataProfile>) -> (r: Result<
    Vec<AnalysisResult>,
    ParseError,
>)
    ensures
        match r {
            Ok(v) => regex_is_match(FLINK_IMPORT_RE@, code@) && exists|ir: PipelineIR|
                #[trigger] flink_pipeline(ir, code@) && reports_of(
                    result_views(v@),
                    flink_suite(),
                    ir,
                    data_profile,
                ),
            Err(e) => !regex_is_match(FLINK_IMPORT_RE@, code@) && e
                == ParseError::NoFlinkConstructs,
        },
{
    let parser = FlinkFrameworkParser::new();
    let ir = match parser.parse(code) {
        Ok(ir) => ir,
        Err(e) => return Err(e),
    };
    let ctx = AnalysisContext { pipeline_ir: ir, data_profile };
    let analyzers = create_flink_analyzers();
    let v = run_analyzers(&ctx, &analyzers);
    proof {
        assert(flink_pipeline(ctx.pipeline_ir, code@));
    }
    Ok(v)
}

/// Parses PySpark source and runs the Spark analyzers built with `rules`:
/// fails as the parser does; otherwise the results of the suite, in order,
/// against the parsed pipeline and the profile.
pub fn analyze_spark_pipeline_with_rules(
    code: &str,
    data_profile: Option<DataProfile>,
    rules: &RulesConfig,
) -> (r: Result<Vec<AnalysisResult>, ParseError>)
    ensures
        match r {
            Ok(v) => regex_is_match(SPARK_IMPORT_RE@, code@) && exists|ir: PipelineIR|
                #[trigger] spark_pipeline(ir, code@) && reports_of(
                    result_views(v@),
                    spark_suite(*rules),
                    ir,
                    data_profile,
                ),
            Err(e) => !regex_is_match(SPARK_IMPORT_RE@, code@) && e
                == ParseError::NoSparkConstructs,
        },
{
    let parser = SparkFrameworkParser::new();
    let ir = match parser.parse(code) {
        Ok(ir) => ir,
        Err(e) => return Err(e),
    };
    let ctx = AnalysisContext { pipeline_ir: ir, data_profile };
    let analyzers = create_spark_analyzers(rules);
    let v = run_analyzers(&ctx, &analyzers);
    proof {
        assert(spark_pipeline(ctx.pipeline_ir, code@));
    }
    Ok(v)
}

/// [`analyze_spark_pipeline_with_rules`] with the built-in rules.
pub fn analyze_spark_pipeline(code: &str, data_profile: Option<DataProfile>) -> (r: Result<
    Vec<AnalysisResult>,
    ParseError,
>)
    ensures
        match r {
            Ok(v) => regex_is_match(SPARK_IMPORT_RE@, code@) && exists|ir: PipelineIR|
                #[trigger] spark_pipeline(ir, code@) && reports_of(
                    result_views(v@),
                    default_spark_suite(),
                    ir,
                    data_profile,
                ),
            Err(e) => !regex_is_match(SPARK_IMPORT_RE@, code@) && e
                == ParseError::NoSparkConstructs,
        },
{
    let rules = RulesConfig::default_rules();
    proof {
        lemma_default_suites(rules);
    }
    analyze_spark_pipeline_with_rules(code, data_profile, &rules)
}

} // verus!
