//! The analyzer suites for each framework, and running them.
use crate::analyzer::{AnalysisContext, AnalysisResult, AnalysisResultView};
use crate::analyzers::best_practices::{best_practices_result, BestPracticesAnalyzer};
use crate::analyzers::cost::{cost_result, CostAnalyzer};
use crate::analyzers::deployment::{deployment_result, DeploymentAnalyzer};
use crate::analyzers::flink_checkpoint::{flink_checkpoint_result, FlinkCheckpointAnalyzer};
use crate::analyzers::flink_state::{flink_state_result, FlinkStateAnalyzer};
use crate::analyzers::flink_watermark::{flink_watermark_result, FlinkWatermarkAnalyzer};
use crate::analyzers::graph::{graph_result, GraphAnalyzer};
use crate::analyzers::hotkey::{hotkey_result, HotKeyAnalyzer};
use crate::analyzers::reliability::{reliability_result, ReliabilityAnalyzer};
use crate::analyzers::shuffle::{shuffle_result, ShuffleAnalyzer};
use crate::analyzers::spark_join::{spark_join_result, SparkJoinAnalyzer};
use crate::analyzers::spark_shuffle::{spark_shuffle_result, SparkShuffleAnalyzer};
use crate::analyzers::spark_streaming::{spark_streaming_result, SparkStreamingAnalyzer};
use crate::analyzers::state::{state_result, StateAnalyzer};
use crate::analyzers::synthesis::{synthesis_result, SynthesisEngine};
use crate::analyzers::windowing::{windowing_result, WindowingAnalyzer};
use crate::rules::{CostRules, HotKeyRulesView, RulesConfig, SparkJoinRulesView, StateRules};
use vstd::prelude::*;

verus! {

/// One analyzer of any kind.
pub enum AnyAnalyzer {
    Graph(GraphAnalyzer),
    HotKey(HotKeyAnalyzer),
    Shuffle(ShuffleAnalyzer),
    Windowing(WindowingAnalyzer),
    State(StateAnalyzer),
    Cost(CostAnalyzer),
    Reliability(ReliabilityAnalyzer),
    BestPractices(BestPracticesAnalyzer),
    Deployment(DeploymentAnalyzer),
    Synthesis(SynthesisEngine),
    FlinkCheckpoint(FlinkCheckpointAnalyzer),
    FlinkState(FlinkStateAnalyzer),
    FlinkWatermark(FlinkWatermarkAnalyzer),
    SparkShuffle(SparkShuffleAnalyzer),
    SparkJoin(SparkJoinAnalyzer),
    SparkStreaming(SparkStreamingAnalyzer),
}

/// Which analyzer, with the rules it was built with.
pub enum AnalyzerKind {
    Graph,
    HotKey(HotKeyRulesView),
    Shuffle,
    Windowing,
    State(StateRules),
    Cost(CostRules),
    Reliability,
    BestPractices,
    Deployment,
    Synthesis,
    FlinkCheckpoint,
    FlinkState,
    FlinkWatermark,
    SparkShuffle,
    SparkJoin(SparkJoinRulesView),
    SparkStreaming,
}

impl View for AnyAnalyzer {
    type V = AnalyzerKind;

    open spec fn view(&self) -> AnalyzerKind {
        match self {
            AnyAnalyzer::Graph(_) => AnalyzerKind::Graph,
            AnyAnalyzer::HotKey(a) => AnalyzerKind::HotKey(a.rules@),
            AnyAnalyzer::Shuffle(_) => AnalyzerKind::Shuffle,
            AnyAnalyzer::Windowing(_) => AnalyzerKind::Windowing,
            AnyAnalyzer::State(a) => AnalyzerKind::State(a.rules),
            AnyAnalyzer::Cost(a) => AnalyzerKind::Cost(a.rules),
            AnyAnalyzer::Reliability(_) => AnalyzerKind::Reliability,
            AnyAnalyzer::BestPractices(_) => AnalyzerKind::BestPractices,
            AnyAnalyzer::Deployment(_) => AnalyzerKind::Deployment,
            AnyAnalyzer::Synthesis(_) => AnalyzerKind::Synthesis,
            AnyAnalyzer::FlinkCheckpoint(_) => AnalyzerKind::FlinkCheckpoint,
            AnyAnalyzer::FlinkState(_) => AnalyzerKind::FlinkState,
            AnyAnalyzer::FlinkWatermark(_) => AnalyzerKind::FlinkWatermark,
            AnyAnalyzer::SparkShuffle(_) => AnalyzerKind::SparkShuffle,
            AnyAnalyzer::SparkJoin(a) => AnalyzerKind::SparkJoin(a.rules@),
            AnyAnalyzer::SparkStreaming(_) => AnalyzerKind::SparkStreaming,
        }
    }
}

/// The name of an analyzer kind.
pub open spec fn kind_name(k: AnalyzerKind) -> Seq<char> {
    match k {
        AnalyzerKind::Graph => "GraphAnalyzer"@,
        AnalyzerKind::HotKey(_) => "HotKeyAnalyzer"@,
        AnalyzerKind::Shuffle => "ShuffleAnalyzer"@,
        AnalyzerKind::Windowing => "WindowingAnalyzer"@,
        AnalyzerKind::State(_) => "StateAnalyzer"@,
        AnalyzerKind::Cost(_) => "CostAnalyzer"@,
        AnalyzerKind::Reliability => "ReliabilityAnalyzer"@,
        AnalyzerKind::BestPractices => "BestPracticesAnalyzer"@,
        AnalyzerKind::Deployment => "DeploymentAnalyzer"@,
        AnalyzerKind::Synthesis => "SynthesisEngine"@,
        AnalyzerKind::FlinkCheckpoint => "FlinkCheckpointAnalyzer"@,
        AnalyzerKind::FlinkState => "FlinkStateAnalyzer"@,
        AnalyzerKind::FlinkWatermark => "FlinkWatermarkAnalyzer"@,
        AnalyzerKind::SparkShuffle => "SparkShuffleAnalyzer"@,
        AnalyzerKind::SparkJoin(_) => "SparkJoinAnalyzer"@,
        AnalyzerKind::SparkStreaming => "SparkStreamingAnalyzer"@,
    }
}

/// The running priority of an analyzer of kind `k`.
pub open spec fn kind_priority(k: AnalyzerKind) -> u32 {
    match k {
        AnalyzerKind::Graph => 1,
        AnalyzerKind::HotKey(_) => 2,
        AnalyzerKind::Shuffle => 3,
        AnalyzerKind::Windowing => 4,
        AnalyzerKind::State(_) => 5,
        AnalyzerKind::Cost(_) => 6,
        AnalyzerKind::Reliability => 7,
        AnalyzerKind::BestPractices => 8,
        AnalyzerKind::Deployment => 9,
        AnalyzerKind::Synthesis => 10,
        AnalyzerKind::FlinkCheckpoint => 20,
        AnalyzerKind::FlinkState => 21,
        AnalyzerKind::FlinkWatermark => 22,
        AnalyzerKind::SparkShuffle => 30,
        AnalyzerKind::SparkJoin(_) => 31,
        AnalyzerKind::SparkStreaming => 32,
    }
}

/// What an analyzer of kind `k` reports for a context.
pub open spec fn kind_result(k: AnalyzerKind, ctx: AnalysisContext) -> AnalysisResultView {
    let ir = ctx.pipeline_ir;
    let p = ctx.data_profile;
    match k {
        AnalyzerKind::Graph => graph_result(ir),
        AnalyzerKind::HotKey(r) => hotkey_result(r, ir, p),
        AnalyzerKind::Shuffle => shuffle_result(ir),
        AnalyzerKind::Windowing => windowing_result(ir),
        AnalyzerKind::State(r) => state_result(r, ir, p),
        AnalyzerKind::Cost(r) => cost_result(r, ir, p),
        AnalyzerKind::Reliability => reliability_result(ir),
        AnalyzerKind::BestPractices => best_practices_result(ir),
        AnalyzerKind::Deployment => deployment_result(ir),
        AnalyzerKind::Synthesis => synthesis_result(ir),
        AnalyzerKind::FlinkCheckpoint => flink_checkpoint_result(ir),
        AnalyzerKind::FlinkState => flink_state_result(ir, p),
        AnalyzerKind::FlinkWatermark => flink_watermark_result(ir),
        AnalyzerKind::SparkShuffle => spark_shuffle_result(ir),
        AnalyzerKind::SparkJoin(r) => spark_join_result(r, ir, p),
        AnalyzerKind::SparkStreaming => spark_streaming_result(ir),
    }
}

/// The kinds of a sequence of analyzers.
pub open spec fn kinds(v: Seq<AnyAnalyzer>) -> Seq<AnalyzerKind> {
    v.map_values(|a: AnyAnalyzer| a@)
}

/// The views of a sequence of results.
pub open spec fn result_views(v: Seq<AnalysisResult>) -> Seq<AnalysisResultView> {
    v.map_values(|r: AnalysisResult| r@)
}

/// What each analyzer of a suite reports for a context, in order.
pub open spec fn suite_results(ks: Seq<AnalyzerKind>, ctx: AnalysisContext) -> Seq<AnalysisResultView> {
    ks.map_values(|k: AnalyzerKind| kind_result(k, ctx))
}

/// The Beam suite, built with the given rules.
pub open spec fn beam_suite(rules: RulesConfig) -> Seq<AnalyzerKind> {
    seq![
        AnalyzerKind::Graph,
        AnalyzerKind::HotKey(rules.hotkey@),
        AnalyzerKind::Shuffle,
        AnalyzerKind::Windowing,
        AnalyzerKind::State(rules.state),
        AnalyzerKind::Cost(rules.cost),
        AnalyzerKind::Reliability,
        AnalyzerKind::BestPractices,
        AnalyzerKind::Deployment,
        AnalyzerKind::Synthesis,
    ]
}

/// The Flink suite.
pub open spec fn flink_suite() -> Seq<AnalyzerKind> {
    seq![AnalyzerKind::FlinkCheckpoint, AnalyzerKind::FlinkState, AnalyzerKind::FlinkWatermark]
}

/// The Spark suite, built with the given rules.
pub open spec fn spark_suite(rules: RulesConfig) -> Seq<AnalyzerKind> {
    seq![
        AnalyzerKind::SparkShuffle,
        AnalyzerKind::SparkJoin(rules.spark_join@),
        AnalyzerKind::SparkStreaming,
    ]
}

/// The analyzers of `ks` whose names are among `names`, in order.
pub open spec fn named(ks: Seq<AnalyzerKind>, names: Seq<Seq<char>>) -> Seq<AnalyzerKind> {
    ks.filter(|k: AnalyzerKind| names.contains(kind_name(k)))
}

impl AnyAnalyzer {
    /// The analyzer's name.
    pub fn name(&self) -> (r: &'static str)
        ensures
            r@ == kind_name(self@),
    {
        match self {
            AnyAnalyzer::Graph(a) => a.name(),
            AnyAnalyzer::HotKey(a) => a.name(),
            AnyAnalyzer::Shuffle(a) => a.name(),
            AnyAnalyzer::Windowing(a) => a.name(),
            AnyAnalyzer::State(a) => a.name(),
            AnyAnalyzer::Cost(a) => a.name(),
            AnyAnalyzer::Reliability(a) => a.name(),
            AnyAnalyzer::BestPractices(a) => a.name(),
            AnyAnalyzer::Deployment(a) => a.name(),
            AnyAnalyzer::Synthesis(a) => a.name(),
            AnyAnalyzer::FlinkCheckpoint(a) => a.name(),
            AnyAnalyzer::FlinkState(a) => a.name(),
            AnyAnalyzer::FlinkWatermark(a) => a.name(),
            AnyAnalyzer::SparkShuffle(a) => a.name(),
            AnyAnalyzer::SparkJoin(a) => a.name(),
            AnyAnalyzer::SparkStreaming(a) => a.name(),
        }
    }

    /// The analyzer's version.
    pub fn version(&self) -> (r: &'static str)
        ensures
            r@ == "0.1.0"@,
    {
        match self {
            AnyAnalyzer::Graph(a) => a.version(),
            AnyAnalyzer::HotKey(a) => a.version(),
            AnyAnalyzer::Shuffle(a) => a.version(),
            AnyAnalyzer::Windowing(a) => a.version(),
            AnyAnalyzer::State(a) => a.version(),
            AnyAnalyzer::Cost(a) => a.version(),
            AnyAnalyzer::Reliability(a) => a.version(),
            AnyAnalyzer::BestPractices(a) => a.version(),
            AnyAnalyzer::Deployment(a) => a.version(),
            AnyAnalyzer::Synthesis(a) => a.version(),
            AnyAnalyzer::FlinkCheckpoint(a) => a.version(),
            AnyAnalyzer::FlinkState(a) => a.version(),
            AnyAnalyzer::FlinkWatermark(a) => a.version(),
            AnyAnalyzer::SparkShuffle(a) => a.version(),
            AnyAnalyzer::SparkJoin(a) => a.version(),
            AnyAnalyzer::SparkStreaming(a) => a.version(),
        }
    }

    /// The analyzer's running priority (lower runs earlier).
    pub fn priority(&self) -> (r: u32)
        ensures
            r == kind_priority(self@),
    {
        match self {
            AnyAnalyzer::Graph(a) => a.priority(),
            AnyAnalyzer::HotKey(a) => a.priority(),
            AnyAnalyzer::Shuffle(a) => a.priority(),
            AnyAnalyzer::Windowing(a) => a.priority(),
            AnyAnalyzer::State(a) => a.priority(),
            AnyAnalyzer::Cost(a) => a.priority(),
            AnyAnalyzer::Reliability(a) => a.priority(),
            AnyAnalyzer::BestPractices(a) => a.priority(),
            AnyAnalyzer::Deployment(a) => a.priority(),
            AnyAnalyzer::Synthesis(a) => a.priority(),
            AnyAnalyzer::FlinkCheckpoint(a) => a.priority(),
            AnyAnalyzer::FlinkState(a) => a.priority(),
            AnyAnalyzer::FlinkWatermark(a) => a.priority(),
            AnyAnalyzer::SparkShuffle(a) => a.priority(),
            AnyAnalyzer::SparkJoin(a) => a.priority(),
            AnyAnalyzer::SparkStreaming(a) => a.priority(),
        }
    }

    /// Runs the analyzer.
    pub fn analyze(&self, ctx: &AnalysisContext) -> (r: AnalysisResult)
        ensures
            r@ == kind_result(self@, *ctx),
    {
        match self {
            AnyAnalyzer::Graph(a) => a.analyze(ctx),
            AnyAnalyzer::HotKey(a) => a.analyze(ctx),
            AnyAnalyzer::Shuffle(a) => a.analyze(ctx),
            AnyAnalyzer::Windowing(a) => a.analyze(ctx),
            AnyAnalyzer::State(a) => a.analyze(ctx),
            AnyAnalyzer::Cost(a) => a.analyze(ctx),
            AnyAnalyzer::Reliability(a) => a.analyze(ctx),
            AnyAnalyzer::BestPractices(a) => a.analyze(ctx),
            AnyAnalyzer::Deployment(a) => a.analyze(ctx),
            AnyAnalyzer::Synthesis(a) => a.analyze(ctx),
            AnyAnalyzer::FlinkCheckpoint(a) => a.analyze(ctx),
            AnyAnalyzer::FlinkState(a) => a.analyze(ctx),
            AnyAnalyzer::FlinkWatermark(a) => a.analyze(ctx),
            AnyAnalyzer::SparkShuffle(a) => a.analyze(ctx),
            AnyAnalyzer::SparkJoin(a) => a.analyze(ctx),
            AnyAnalyzer::SparkStreaming(a) => a.analyze(ctx),
        }
    }
}

/// The `i`-th analyzer of the Beam suite, built with `rules`.
fn beam_analyzer(i: usize, rules: &RulesConfig) -> (r: AnyAnalyzer)
    requires
        i < 10,
    ensures
        r@ == beam_suite(*rules)[i as int],
{
    if i == 0 {
        AnyAnalyzer::Graph(GraphAnalyzer)
    } else if i == 1 {
        AnyAnalyzer::HotKey(HotKeyAnalyzer::new(rules.hotkey.copy()))
    } else if i == 2 {
        AnyAnalyzer::Shuffle(ShuffleAnalyzer)
    } else if i == 3 {
        AnyAnalyzer::Windowing(WindowingAnalyzer)
    } else if i == 4 {
        AnyAnalyzer::State(StateAnalyzer::new(rules.state))
    } else if i == 5 {
        AnyAnalyzer::Cost(CostAnalyzer::new(rules.cost))
    } else if i == 6 {
        AnyAnalyzer::Reliability(ReliabilityAnalyzer)
    } else if i == 7 {
        AnyAnalyzer::BestPractices(BestPracticesAnalyzer)
    } else if i == 8 {
        AnyAnalyzer::Deployment(DeploymentAnalyzer)
    } else {
        AnyAnalyzer::Synthesis(SynthesisEngine)
    }
}

/// The Beam analyzers, in running order, built with `rules`.
pub fn create_analyzers(rules: &RulesConfig) -> (r: Vec<AnyAnalyzer>)
    ensures
        kinds(r@) == beam_suite(*rules),
{
    let mut v: Vec<AnyAnalyzer> = Vec::new();
    let mut i: usize = 0;
    while i < 10
        invariant
            i <= 10,
            kinds(v@) == beam_suite(*rules).take(i as int),
        decreases 10 - i,
    {
        let a = beam_analyzer(i, rules);
        let ghost k0 = kinds(v@);
        v.push(a);
        proof {
            assert(kinds(v@) =~= k0.push(beam_suite(*rules)[i as int]));
            assert(beam_suite(*rules).take(i + 1) =~= beam_suite(*rules).take(i as int).push(
                beam_suite(*rules)[i as int],
            ));
        }
        i = i + 1;
    }
    proof {
        assert(beam_suite(*rules).take(10) =~= beam_suite(*rules));
    }
    v
}

/// Whether `n` is one of `names`.
fn name_among(names: &[&str], n: &str) -> (r: bool)
    ensures
        r == names@.map_values(|s: &str| s@).contains(n@),
{
    let ghost ns = names@.map_values(|s: &str| s@);
    let mut i: usize = 0;
    while i < names.len()
        invariant
            i <= names@.len(),
            ns == names@.map_values(|s: &str| s@),
            forall|k: int| 0 <= k < i ==> ns[k] != n@,
        decreases names@.len() - i,
    {
        if crate::text::str_eq(names[i], n) {
            assert(ns[i as int] == n@);
            return true;
        }
        i = i + 1;
    }
    false
}

/// The Beam analyzers whose names are among `names`, in running order.
pub fn create_analyzers_by_names(names: &[&str], rules: &RulesConfig) -> (r: Vec<AnyAnalyzer>)
    ensures
        kinds(r@) == named(beam_suite(*rules), names@.map_values(|s: &str| s@)),
{
    let ghost ns = names@.map_values(|s: &str| s@);
    let ghost ks = beam_suite(*rules);
    let mut v: Vec<AnyAnalyzer> = Vec::new();
    let mut i: usize = 0;
    proof {
        assert(ks.take(0) =~= Seq::<AnalyzerKind>::empty());
        assert(kinds(v@) =~= named(ks.take(0), ns));
    }
    while i < 10
        invariant
            i <= 10,
            ks == beam_suite(*rules),
            ns == names@.map_values(|s: &str| s@),
            kinds(v@) == named(ks.take(i as int), ns),
        decreases 10 - i,
    {
        let a = beam_analyzer(i, rules);
        let ghost k0 = kinds(v@);
        proof {
            assert(ks.take(i + 1).drop_last() =~= ks.take(i as int));
            assert(ks.take(i + 1).last() == ks[i as int]);
            reveal_with_fuel(Seq::filter, 1);
        }
        if name_among(names, a.name()) {
            v.push(a);
            proof {
                assert(kinds(v@) =~= k0.push(ks[i as int]));
            }
        }
        i = i + 1;
    }
    proof {
        assert(ks.take(10) =~= ks);
    }
    v
}

/// The Flink analyzers, in running order.
pub fn create_flink_analyzers() -> (r: Vec<AnyAnalyzer>)
    ensures
        kinds(r@) == flink_suite(),
{
    let mut v: Vec<AnyAnalyzer> = Vec::new();
    v.push(AnyAnalyzer::FlinkCheckpoint(FlinkCheckpointAnalyzer));
    v.push(AnyAnalyzer::FlinkState(FlinkStateAnalyzer));
    v.push(AnyAnalyzer::FlinkWatermark(FlinkWatermarkAnalyzer));
    proof {
        assert(kinds(v@) =~= flink_suite());
    }
    v
}

/// The Spark analyzers, in running order, built with `rules`.
pub fn create_spark_analyzers(rules: &RulesConfig) -> (r: Vec<AnyAnalyzer>)
    ensures
        kinds(r@) == spark_suite(*rules),
{
    let mut v: Vec<AnyAnalyzer> = Vec::new();
    v.push(AnyAnalyzer::SparkShuffle(SparkShuffleAnalyzer));
    v.push(AnyAnalyzer::SparkJoin(SparkJoinAnalyzer::new(rules.spark_join.copy())));
    v.push(AnyAnalyzer::SparkStreaming(SparkStreamingAnalyzer));
    proof {
        assert(kinds(v@) =~= spark_suite(*rules));
    }
    v
}

/// Runs each analyzer against the context, in order.
pub fn run_analyzers(ctx: &AnalysisContext, analyzers: &Vec<AnyAnalyzer>) -> (r: Vec<AnalysisResult>)
    ensures
        result_views(r@) == suite_results(kinds(analyzers@), *ctx),
{
    let mut out: Vec<AnalysisResult> = Vec::new();
    let mut i: usize = 0;
    while i < analyzers.len()
        invariant
            i <= analyzers@.len(),
            result_views(out@) == suite_results(kinds(analyzers@), *ctx).take(i as int),
        decreases analyzers@.len() - i,
    {
        let res = analyzers[i].analyze(ctx);
        let ghost o0 = result_views(out@);
        out.push(res);
        proof {
            assert(result_views(out@) =~= o0.push(kind_result(analyzers@[i as int]@, *ctx)));
            assert(suite_results(kinds(analyzers@), *ctx).take(i + 1) =~= suite_results(
                kinds(analyzers@),
                *ctx,
            ).take(i as int).push(kind_result(analyzers@[i as int]@, *ctx)));
        }
        i = i + 1;
    }
    proof {
        assert(suite_results(kinds(analyzers@), *ctx).take(analyzers@.len() as int) =~= suite_results(
            kinds(analyzers@),
            *ctx,
        ));
    }
    out
}

/// Each analyzer reports under its own name.
proof fn lemma_kind_result_name(k: AnalyzerKind, ctx: AnalysisContext)
    ensures
        kind_result(k, ctx).analyzer_name == kind_name(k),
{
}

/// Running a suite gives one result per analyzer, in the suite's order,
/// each named after the analyzer that produced it.
pub proof fn lemma_suite_result_names(ks: Seq<AnalyzerKind>, ctx: AnalysisContext)
    ensures
        suite_results(ks, ctx).len() == ks.len(),
        forall|i: int|
            0 <= i < ks.len() ==> (#[trigger] suite_results(ks, ctx)[i]).analyzer_name == kind_name(
                ks[i],
            ),
{
    assert forall|i: int| 0 <= i < ks.len() implies (#[trigger] suite_results(ks, ctx)[i]).analyzer_name
        == kind_name(ks[i]) by {
        lemma_kind_result_name(ks[i], ctx);
    }
}

/// No metric name occurs twice in a result.
pub open spec fn distinct_metric_names(r: AnalysisResultView) -> bool {
    forall|i: int, j: int|
        0 <= i < j < r.metrics.len() ==> (#[trigger] r.metrics[i]).0 != (#[trigger] r.metrics[j]).0
}

/// A result whose metric names are, in order, pairwise distinct names.
proof fn lemma_metrics_named(r: AnalysisResultView, names: Seq<Seq<char>>)
    requires
        r.metrics.len() == names.len(),
        forall|i: int| 0 <= i < names.len() ==> (#[trigger] r.metrics[i]).0 == names[i],
        forall|i: int, j: int| 0 <= i < j < names.len() ==> #[trigger] names[i] != #[trigger] names[j],
    ensures
        distinct_metric_names(r),
{
    assert forall|i: int, j: int| 0 <= i < j < r.metrics.len() implies (#[trigger] r.metrics[i]).0 != (
    #[trigger] r.metrics[j]).0 by {
        assert(names[i] != names[j]);
    }
}

proof fn lemma_graph_metric_names(ir: crate::ir::PipelineIR)
    ensures
        distinct_metric_names(graph_result(ir)),
{
    reveal_strlit("pipeline_depth");
    reveal_strlit("max_fan_in");
    reveal_strlit("max_fan_out");
    reveal_strlit("complexity_score");
    reveal_strlit("node_count");
    reveal_strlit("edge_count");
            let m = graph_result(ir).metrics;
    let names = seq![
        "pipeline_depth"@,
        "max_fan_in"@,
        "max_fan_out"@,
        "complexity_score"@,
        "node_count"@,
        "edge_count"@,
    ];
    assert(m.len() == 6);
    assert forall|i: int| 0 <= i < 6 implies m[i].0 == names[i] by {}
    assert(names[0][0] == 'p' && names[1][0] == 'm' && names[2][0] == 'm' && names[3][0] == 'c');
    assert(names[4][0] == 'n' && names[5][0] == 'e' && names[1].len() == 10 && names[2].len() == 11);
    assert forall|i: int, j: int| 0 <= i < j < 6 implies names[i] != names[j] by {
        if names[i] == names[j] {
            assert(names[i][0] == names[j][0]);
            assert(names[i].len() == names[j].len());
        }
    }
    assert forall|i: int, j: int| 0 <= i < j < m.len() implies (#[trigger] m[i]).0 != (
    #[trigger] m[j]).0 by {
        assert(m[i].0 == names[i] && m[j].0 == names[j]);
    }
}

/// Every analyzer records each metric under its own name, once: the
/// metrics of a result form a map from names to values.
pub proof fn lemma_metric_names_distinct(k: AnalyzerKind, ctx: AnalysisContext)
    ensures
        distinct_metric_names(kind_result(k, ctx)),
{
    reveal_strlit("combineperkey_count");
    reveal_strlit("groupbykey_count");
    reveal_strlit("rule_violations");
    reveal_strlit("shuffle_operation_count");
    reveal_strlit("side_input_count");
    reveal_strlit("estimated_compute_cost_per_month");
    reveal_strlit("estimated_shuffle_cost_per_month");
    reveal_strlit("estimated_state_cost_per_month");
    reveal_strlit("estimated_total_cost_per_month");
    reveal_strlit("has_autoscaling");
    reveal_strlit("has_machine_type");
    reveal_strlit("has_streaming_engine");
    reveal_strlit("checkpoint_interval_ms");
    reveal_strlit("checkpointing_configured");
    reveal_strlit("keyed_state_count");
    reveal_strlit("state_backend_configured");
    reveal_strlit("watermark_configured");
    reveal_strlit("window_count");
    reveal_strlit("complexity_score");
    reveal_strlit("edge_count");
    reveal_strlit("max_fan_in");
    reveal_strlit("max_fan_out");
    reveal_strlit("node_count");
    reveal_strlit("pipeline_depth");
    reveal_strlit("cogroupbykey_count");
    reveal_strlit("data_profile_key_cardinality");
    reveal_strlit("has_dead_letter_queue");
    reveal_strlit("has_error_handling");
    reveal_strlit("has_side_outputs");
    reveal_strlit("reliability_score");
    reveal_strlit("broadcast_threshold_bytes");
    reveal_strlit("join_count");
    reveal_strlit("shuffle_partitions");
    reveal_strlit("wide_transform_count");
    reveal_strlit("cache_call_count");
    reveal_strlit("checkpoint_location_configured");
    reveal_strlit("is_streaming");
    reveal_strlit("data_profile_state_size_gb");
    reveal_strlit("stateful_operation_count");
    reveal_strlit("cost_efficiency_score");
    reveal_strlit("overall_risk_score");
    reveal_strlit("performance_score");
    reveal_strlit("windowing_operation_count");
    match k {
        AnalyzerKind::Graph => {
            lemma_graph_metric_names(ctx.pipeline_ir);
        },
        AnalyzerKind::HotKey(_) => {
            let r = kind_result(k, ctx);
            if kind_result(k, ctx).metrics.len() == 2 {
                let names = seq!["groupbykey_count"@, "cogroupbykey_count"@];
                assert(r.metrics.len() == 2);
                assert forall|i: int| 0 <= i < 2 implies (#[trigger] r.metrics[i]).0 == names[i] by {}
                assert(names[0].len() == 16 && names[0][0] == 'g' && names[0][10] == '_');
                assert(names[1].len() == 18 && names[1][0] == 'c' && names[1][10] == 'e');
                assert forall|i: int, j: int| 0 <= i < j < 2 implies #[trigger] names[i] != #[trigger] names[j] by {
                    if names[i] == names[j] {
                        assert(names[i].len() == names[j].len() && names[i][0] == names[j][0] && names[i][10] == names[j][10]);
                    }
                }
                lemma_metrics_named(r, names);
            } else {
                let names = seq!["groupbykey_count"@, "cogroupbykey_count"@, "data_profile_key_cardinality"@];
                assert(r.metrics.len() == 3);
                assert forall|i: int| 0 <= i < 3 implies (#[trigger] r.metrics[i]).0 == names[i] by {}
                assert(names[0].len() == 16 && names[0][0] == 'g' && names[0][10] == '_');
                assert(names[1].len() == 18 && names[1][0] == 'c' && names[1][10] == 'e');
                assert(names[2].len() == 28 && names[2][0] == 'd' && names[2][10] == 'l');
                assert forall|i: int, j: int| 0 <= i < j < 3 implies #[trigger] names[i] != #[trigger] names[j] by {
                    if names[i] == names[j] {
                        assert(names[i].len() == names[j].len() && names[i][0] == names[j][0] && names[i][10] == names[j][10]);
                    }
                }
                lemma_metrics_named(r, names);
            }
        },
        AnalyzerKind::Shuffle => {
            let r = kind_result(k, ctx);
            let names = seq!["shuffle_operation_count"@];
            assert(r.metrics.len() == 1);
            assert forall|i: int| 0 <= i < 1 implies (#[trigger] r.metrics[i]).0 == names[i] by {}
            assert(names[0].len() == 23 && names[0][0] == 's' && names[0][10] == 'e');
            assert forall|i: int, j: int| 0 <= i < j < 1 implies #[trigger] names[i] != #[trigger] names[j] by {
                if names[i] == names[j] {
                    assert(names[i].len() == names[j].len() && names[i][0] == names[j][0] && names[i][10] == names[j][10]);
                }
            }
            lemma_metrics_named(r, names);
        },
        AnalyzerKind::Windowing => {
            let r = kind_result(k, ctx);
            let names = seq!["windowing_operation_count"@];
            assert(r.metrics.len() == 1);
            assert forall|i: int| 0 <= i < 1 implies (#[trigger] r.metrics[i]).0 == names[i] by {}
            assert(names[0].len() == 25 && names[0][0] == 'w' && names[0][10] == 'o');
            assert forall|i: int, j: int| 0 <= i < j < 1 implies #[trigger] names[i] != #[trigger] names[j] by {
                if names[i] == names[j] {
                    assert(names[i].len() == names[j].len() && names[i][0] == names[j][0] && names[i][10] == names[j][10]);
                }
            }
            lemma_metrics_named(r, names);
        },
        AnalyzerKind::State(_) => {
            let r = kind_result(k, ctx);
            if kind_result(k, ctx).metrics.len() == 1 {
                let names = seq!["stateful_operation_count"@];
                assert(r.metrics.len() == 1);
                assert forall|i: int| 0 <= i < 1 implies (#[trigger] r.metrics[i]).0 == names[i] by {}
                assert(names[0].len() == 24 && names[0][0] == 's' && names[0][10] == 'p');
                assert forall|i: int, j: int| 0 <= i < j < 1 implies #[trigger] names[i] != #[trigger] names[j] by {
                    if names[i] == names[j] {
                        assert(names[i].len() == names[j].len() && names[i][0] == names[j][0] && names[i][10] == names[j][10]);
                    }
                }
                lemma_metrics_named(r, names);
            } else {
                let names = seq!["stateful_operation_count"@, "data_profile_state_size_gb"@];
                assert(r.metrics.len() == 2);
                assert forall|i: int| 0 <= i < 2 implies (#[trigger] r.metrics[i]).0 == names[i] by {}
                assert(names[0].len() == 24 && names[0][0] == 's' && names[0][10] == 'p');
                assert(names[1].len() == 26 && names[1][0] == 'd' && names[1][10] == 'l');
                assert forall|i: int, j: int| 0 <= i < j < 2 implies #[trigger] names[i] != #[trigger] names[j] by {
                    if names[i] == names[j] {
                        assert(names[i].len() == names[j].len() && names[i][0] == names[j][0] && names[i][10] == names[j][10]);
                    }
                }
                lemma_metrics_named(r, names);
            }
        },
        AnalyzerKind::Cost(_) => {
            let r = kind_result(k, ctx);
            let names = seq!["estimated_compute_cost_per_month"@, "estimated_shuffle_cost_per_month"@, "estimated_state_cost_per_month"@, "estimated_total_cost_per_month"@];
            assert(r.metrics.len() == 4);
            assert forall|i: int| 0 <= i < 4 implies (#[trigger] r.metrics[i]).0 == names[i] by {}
            assert(names[0].len() == 32 && names[0][0] == 'e' && names[0][10] == 'c');
            assert(names[1].len() == 32 && names[1][0] == 'e' && names[1][10] == 's');
            assert(names[2].len() == 30 && names[2][0] == 'e' && names[2][10] == 's');
            assert(names[3].len() == 30 && names[3][0] == 'e' && names[3][10] == 't');
            assert forall|i: int, j: int| 0 <= i < j < 4 implies #[trigger] names[i] != #[trigger] names[j] by {
                if names[i] == names[j] {
                    assert(names[i].len() == names[j].len() && names[i][0] == names[j][0] && names[i][10] == names[j][10]);
                }
            }
            lemma_metrics_named(r, names);
        },
        AnalyzerKind::Reliability => {
            let r = kind_result(k, ctx);
            let names = seq!["has_error_handling"@, "has_dead_letter_queue"@, "has_side_outputs"@, "reliability_score"@];
            assert(r.metrics.len() == 4);
            assert forall|i: int| 0 <= i < 4 implies (#[trigger] r.metrics[i]).0 == names[i] by {}
            assert(names[0].len() == 18 && names[0][0] == 'h' && names[0][10] == 'h');
            assert(names[1].len() == 21 && names[1][0] == 'h' && names[1][10] == 'e');
            assert(names[2].len() == 16 && names[2][0] == 'h' && names[2][10] == 'u');
            assert(names[3].len() == 17 && names[3][0] == 'r' && names[3][10] == 'y');
            assert forall|i: int, j: int| 0 <= i < j < 4 implies #[trigger] names[i] != #[trigger] names[j] by {
                if names[i] == names[j] {
                    assert(names[i].len() == names[j].len() && names[i][0] == names[j][0] && names[i][10] == names[j][10]);
                }
            }
            lemma_metrics_named(r, names);
        },
        AnalyzerKind::BestPractices => {
            let r = kind_result(k, ctx);
            let names = seq!["groupbykey_count"@, "combineperkey_count"@, "side_input_count"@, "shuffle_operation_count"@, "rule_violations"@];
            assert(r.metrics.len() == 5);
            assert forall|i: int| 0 <= i < 5 implies (#[trigger] r.metrics[i]).0 == names[i] by {}
            assert(names[0].len() == 16 && names[0][0] == 'g' && names[0][10] == '_');
            assert(names[1].len() == 19 && names[1][0] == 'c' && names[1][10] == 'k');
            assert(names[2].len() == 16 && names[2][0] == 's' && names[2][10] == '_');
            assert(names[3].len() == 23 && names[3][0] == 's' && names[3][10] == 'e');
            assert(names[4].len() == 15 && names[4][0] == 'r' && names[4][10] == 't');
            assert forall|i: int, j: int| 0 <= i < j < 5 implies #[trigger] names[i] != #[trigger] names[j] by {
                if names[i] == names[j] {
                    assert(names[i].len() == names[j].len() && names[i][0] == names[j][0] && names[i][10] == names[j][10]);
                }
            }
            lemma_metrics_named(r, names);
        },
        AnalyzerKind::Deployment => {
            let r = kind_result(k, ctx);
            if kind_result(k, ctx).metrics.len() == 0 {
                let names: Seq<Seq<char>> = Seq::empty();
                assert(r.metrics.len() == 0);
                assert forall|i: int, j: int| 0 <= i < j < 0 implies #[trigger] names[i] != #[trigger] names[j] by {
                    if names[i] == names[j] {
                        assert(names[i].len() == names[j].len() && names[i][0] == names[j][0] && names[i][10] == names[j][10]);
                    }
                }
                lemma_metrics_named(r, names);
            } else {
                let names = seq!["has_machine_type"@, "has_autoscaling"@, "has_streaming_engine"@];
                assert(r.metrics.len() == 3);
                assert forall|i: int| 0 <= i < 3 implies (#[trigger] r.metrics[i]).0 == names[i] by {}
                assert(names[0].len() == 16 && names[0][0] == 'h' && names[0][10] == 'e');
                assert(names[1].len() == 15 && names[1][0] == 'h' && names[1][10] == 'a');
                assert(names[2].len() == 20 && names[2][0] == 'h' && names[2][10] == 'i');
                assert forall|i: int, j: int| 0 <= i < j < 3 implies #[trigger] names[i] != #[trigger] names[j] by {
                    if names[i] == names[j] {
                        assert(names[i].len() == names[j].len() && names[i][0] == names[j][0] && names[i][10] == names[j][10]);
                    }
                }
                lemma_metrics_named(r, names);
            }
        },
        AnalyzerKind::Synthesis => {
            let r = kind_result(k, ctx);
            let names = seq!["overall_risk_score"@, "performance_score"@, "reliability_score"@, "cost_efficiency_score"@];
            assert(r.metrics.len() == 4);
            assert forall|i: int| 0 <= i < 4 implies (#[trigger] r.metrics[i]).0 == names[i] by {}
            assert(names[0].len() == 18 && names[0][0] == 'o' && names[0][10] == 's');
            assert(names[1].len() == 17 && names[1][0] == 'p' && names[1][10] == 'e');
            assert(names[2].len() == 17 && names[2][0] == 'r' && names[2][10] == 'y');
            assert(names[3].len() == 21 && names[3][0] == 'c' && names[3][10] == 'i');
            assert forall|i: int, j: int| 0 <= i < j < 4 implies #[trigger] names[i] != #[trigger] names[j] by {
                if names[i] == names[j] {
                    assert(names[i].len() == names[j].len() && names[i][0] == names[j][0] && names[i][10] == names[j][10]);
                }
            }
            lemma_metrics_named(r, names);
        },
        AnalyzerKind::FlinkCheckpoint => {
            let r = kind_result(k, ctx);
            if kind_result(k, ctx).metrics.len() == 1 {
                let names = seq!["checkpointing_configured"@];
                assert(r.metrics.len() == 1);
                assert forall|i: int| 0 <= i < 1 implies (#[trigger] r.metrics[i]).0 == names[i] by {}
                assert(names[0].len() == 24 && names[0][0] == 'c' && names[0][10] == 'i');
                assert forall|i: int, j: int| 0 <= i < j < 1 implies #[trigger] names[i] != #[trigger] names[j] by {
                    if names[i] == names[j] {
                        assert(names[i].len() == names[j].len() && names[i][0] == names[j][0] && names[i][10] == names[j][10]);
                    }
                }
                lemma_metrics_named(r, names);
            } else {
                let names = seq!["checkpointing_configured"@, "checkpoint_interval_ms"@];
                assert(r.metrics.len() == 2);
                assert forall|i: int| 0 <= i < 2 implies (#[trigger] r.metrics[i]).0 == names[i] by {}
                assert(names[0].len() == 24 && names[0][0] == 'c' && names[0][10] == 'i');
                assert(names[1].len() == 22 && names[1][0] == 'c' && names[1][10] == '_');
                assert forall|i: int, j: int| 0 <= i < j < 2 implies #[trigger] names[i] != #[trigger] names[j] by {
                    if names[i] == names[j] {
                        assert(names[i].len() == names[j].len() && names[i][0] == names[j][0] && names[i][10] == names[j][10]);
                    }
                }
                lemma_metrics_named(r, names);
            }
        },
        AnalyzerKind::FlinkState => {
            let r = kind_result(k, ctx);
            let names = seq!["keyed_state_count"@, "state_backend_configured"@];
            assert(r.metrics.len() == 2);
            assert forall|i: int| 0 <= i < 2 implies (#[trigger] r.metrics[i]).0 == names[i] by {}
            assert(names[0].len() == 17 && names[0][0] == 'k' && names[0][10] == 'e');
            assert(names[1].len() == 24 && names[1][0] == 's' && names[1][10] == 'e');
            assert forall|i: int, j: int| 0 <= i < j < 2 implies #[trigger] names[i] != #[trigger] names[j] by {
                if names[i] == names[j] {
                    assert(names[i].len() == names[j].len() && names[i][0] == names[j][0] && names[i][10] == names[j][10]);
                }
            }
            lemma_metrics_named(r, names);
        },
        AnalyzerKind::FlinkWatermark => {
            let r = kind_result(k, ctx);
            let names = seq!["window_count"@, "watermark_configured"@];
            assert(r.metrics.len() == 2);
            assert forall|i: int| 0 <= i < 2 implies (#[trigger] r.metrics[i]).0 == names[i] by {}
            assert(names[0].len() == 12 && names[0][0] == 'w' && names[0][10] == 'n');
            assert(names[1].len() == 20 && names[1][0] == 'w' && names[1][10] == 'c');
            assert forall|i: int, j: int| 0 <= i < j < 2 implies #[trigger] names[i] != #[trigger] names[j] by {
                if names[i] == names[j] {
                    assert(names[i].len() == names[j].len() && names[i][0] == names[j][0] && names[i][10] == names[j][10]);
                }
            }
            lemma_metrics_named(r, names);
        },
        AnalyzerKind::SparkShuffle => {
            let r = kind_result(k, ctx);
            if kind_result(k, ctx).metrics.len() == 1 {
                let names = seq!["wide_transform_count"@];
                assert(r.metrics.len() == 1);
                assert forall|i: int| 0 <= i < 1 implies (#[trigger] r.metrics[i]).0 == names[i] by {}
                assert(names[0].len() == 20 && names[0][0] == 'w' && names[0][10] == 'f');
                assert forall|i: int, j: int| 0 <= i < j < 1 implies #[trigger] names[i] != #[trigger] names[j] by {
                    if names[i] == names[j] {
                        assert(names[i].len() == names[j].len() && names[i][0] == names[j][0] && names[i][10] == names[j][10]);
                    }
                }
                lemma_metrics_named(r, names);
            } else {
                let names = seq!["wide_transform_count"@, "shuffle_partitions"@];
                assert(r.metrics.len() == 2);
                assert forall|i: int| 0 <= i < 2 implies (#[trigger] r.metrics[i]).0 == names[i] by {}
                assert(names[0].len() == 20 && names[0][0] == 'w' && names[0][10] == 'f');
                assert(names[1].len() == 18 && names[1][0] == 's' && names[1][10] == 'r');
                assert forall|i: int, j: int| 0 <= i < j < 2 implies #[trigger] names[i] != #[trigger] names[j] by {
                    if names[i] == names[j] {
                        assert(names[i].len() == names[j].len() && names[i][0] == names[j][0] && names[i][10] == names[j][10]);
                    }
                }
                lemma_metrics_named(r, names);
            }
        },
        AnalyzerKind::SparkJoin(_) => {
            let r = kind_result(k, ctx);
            if kind_result(k, ctx).metrics.len() == 1 {
                let names = seq!["join_count"@];
                assert(r.metrics.len() == 1);
                assert forall|i: int| 0 <= i < 1 implies (#[trigger] r.metrics[i]).0 == names[i] by {}
                assert(names[0].len() == 10 && names[0][0] == 'j');
                assert forall|i: int, j: int| 0 <= i < j < 1 implies #[trigger] names[i] != #[trigger] names[j] by {
                    if names[i] == names[j] {
                        assert(names[i].len() == names[j].len() && names[i][0] == names[j][0] && names[i][10] == names[j][10]);
                    }
                }
                lemma_metrics_named(r, names);
            } else {
                let names = seq!["join_count"@, "broadcast_threshold_bytes"@];
                assert(r.metrics.len() == 2);
                assert forall|i: int| 0 <= i < 2 implies (#[trigger] r.metrics[i]).0 == names[i] by {}
                assert(names[0].len() == 10 && names[0][0] == 'j');
                assert(names[1].len() == 25 && names[1][0] == 'b' && names[1][10] == 't');
                assert forall|i: int, j: int| 0 <= i < j < 2 implies #[trigger] names[i] != #[trigger] names[j] by {
                    if names[i] == names[j] {
                        assert(names[i].len() == names[j].len() && names[i][0] == names[j][0] && names[i][10] == names[j][10]);
                    }
                }
                lemma_metrics_named(r, names);
            }
        },
        AnalyzerKind::SparkStreaming => {
            let r = kind_result(k, ctx);
            if kind_result(k, ctx).metrics.len() == 1 {
                let names = seq!["is_streaming"@];
                assert(r.metrics.len() == 1);
                assert forall|i: int| 0 <= i < 1 implies (#[trigger] r.metrics[i]).0 == names[i] by {}
                assert(names[0].len() == 12 && names[0][0] == 'i' && names[0][10] == 'n');
                assert forall|i: int, j: int| 0 <= i < j < 1 implies #[trigger] names[i] != #[trigger] names[j] by {
                    if names[i] == names[j] {
                        assert(names[i].len() == names[j].len() && names[i][0] == names[j][0] && names[i][10] == names[j][10]);
                    }
                }
                lemma_metrics_named(r, names);
            } else if kind_result(k, ctx).metrics.len() == 2 && kind_result(k, ctx).metrics[1].0 == "cache_call_count"@ {
                let names = seq!["is_streaming"@, "cache_call_count"@];
                assert(r.metrics.len() == 2);
                assert forall|i: int| 0 <= i < 2 implies (#[trigger] r.metrics[i]).0 == names[i] by {}
                assert(names[0].len() == 12 && names[0][0] == 'i' && names[0][10] == 'n');
                assert(names[1].len() == 16 && names[1][0] == 'c' && names[1][10] == '_');
                assert forall|i: int, j: int| 0 <= i < j < 2 implies #[trigger] names[i] != #[trigger] names[j] by {
                    if names[i] == names[j] {
                        assert(names[i].len() == names[j].len() && names[i][0] == names[j][0] && names[i][10] == names[j][10]);
                    }
                }
                lemma_metrics_named(r, names);
            } else if kind_result(k, ctx).metrics.len() == 2 {
                let names = seq!["is_streaming"@, "checkpoint_location_configured"@];
                assert(r.metrics.len() == 2);
                assert forall|i: int| 0 <= i < 2 implies (#[trigger] r.metrics[i]).0 == names[i] by {}
                assert(names[0].len() == 12 && names[0][0] == 'i' && names[0][10] == 'n');
                assert(names[1].len() == 30 && names[1][0] == 'c' && names[1][10] == '_');
                assert forall|i: int, j: int| 0 <= i < j < 2 implies #[trigger] names[i] != #[trigger] names[j] by {
                    if names[i] == names[j] {
                        assert(names[i].len() == names[j].len() && names[i][0] == names[j][0] && names[i][10] == names[j][10]);
                    }
                }
                lemma_metrics_named(r, names);
            } else {
                let names = seq!["is_streaming"@, "checkpoint_location_configured"@, "cache_call_count"@];
                assert(r.metrics.len() == 3);
                assert forall|i: int| 0 <= i < 3 implies (#[trigger] r.metrics[i]).0 == names[i] by {}
                assert(names[0].len() == 12 && names[0][0] == 'i' && names[0][10] == 'n');
                assert(names[1].len() == 30 && names[1][0] == 'c' && names[1][10] == '_');
                assert(names[2].len() == 16 && names[2][0] == 'c' && names[2][10] == '_');
                assert forall|i: int, j: int| 0 <= i < j < 3 implies #[trigger] names[i] != #[trigger] names[j] by {
                    if names[i] == names[j] {
                        assert(names[i].len() == names[j].len() && names[i][0] == names[j][0] && names[i][10] == names[j][10]);
                    }
                }
                lemma_metrics_named(r, names);
            }
        },
    }
}

} // verus!
