use pybeamguard::analyzer::{AnalysisResult, DataProfile};
use pybeamguard::parser::ParseError;
use pybeamguard::{analyze_flink_pipeline, analyze_pipeline, analyze_spark_pipeline};

const REALISTIC_STREAMING_PIPELINE: &str = r#"
import apache_beam as beam
from apache_beam.options.pipeline_options import PipelineOptions
from apache_beam.transforms.window import FixedWindows

def run():
    options = PipelineOptions()

    with beam.Pipeline(options=options) as p:
        events = (
            p
            | 'ReadFromPubSub' >> beam.io.ReadFromPubSub(topic='projects/x/topics/events')
            | 'ParseEvent' >> beam.ParDo(ParseEventFn())
            | 'Window' >> beam.WindowInto(FixedWindows(60))
            | 'KeyByCustomer' >> beam.GroupByKey()
            | 'CountPerCustomer' >> beam.CombinePerKey(sum)
            | 'WriteToBigQuery' >> beam.io.WriteToBigQuery('dataset.table')
        )

class ParseEventFn(beam.DoFn):
    def process(self, element):
        try:
            yield parse(element)
        except Exception:
            pass

if __name__ == '__main__':
    run()
"#;

const REALISTIC_FLINK_PIPELINE_WITH_RISKS: &str = r#"
from pyflink.datastream import StreamExecutionEnvironment
from pyflink.datastream.state_backend import HashMapStateBackend

env = StreamExecutionEnvironment.get_execution_environment()
env.enable_checkpointing(200)
env.set_state_backend(HashMapStateBackend())

ds = env.from_source(source, watermark, "source")
keyed = ds.key_by(lambda x: x.customer_id)
windowed = keyed.window(TumblingEventTimeWindows.of(Time.seconds(60)))
result = windowed.process(MyProcessWindowFunction())
result.add_sink(SinkFn())
"#;

const REALISTIC_SPARK_PIPELINE_WITH_RISKS: &str = r#"
from pyspark.sql import SparkSession

spark = SparkSession.builder.appName("orders").getOrCreate()
spark.conf.set("spark.sql.autoBroadcastJoinThreshold", -1)

orders = spark.readStream.format("kafka").option("subscribe", "orders").load()
customers = spark.read.format("jdbc").option("dbtable", "customers").load()

joined = orders.join(customers, on="customer_id")
grouped = joined.groupBy("customer_id").count()

query = (
    grouped.writeStream
    .format("console")
    .outputMode("append")
    .start()
)
"#;

fn expect_ok(r: Result<Vec<AnalysisResult>, ParseError>, msg: &str) -> Vec<AnalysisResult> {
    match r {
        Ok(v) => v,
        Err(e) => panic!("{}: {}", msg, e.message()),
    }
}

fn find<'a>(results: &'a [AnalysisResult], name: &str) -> &'a AnalysisResult {
    results.iter().find(|r| r.analyzer_name == name).unwrap()
}

fn all_finding_ids(results: &[AnalysisResult]) -> Vec<String> {
    results.iter().flat_map(|r| r.findings.iter().map(|f| f.id.clone())).collect()
}

#[test]
fn analyze_pipeline_realistic_streaming_source_end_to_end() {
    let results = expect_ok(
        analyze_pipeline(REALISTIC_STREAMING_PIPELINE, None),
        "realistic pipeline should parse and analyze without error",
    );
    assert_eq!(results.len(), 10, "expected all 10 analyzers to run");

    let names: Vec<&str> = results.iter().map(|r| r.analyzer_name.as_str()).collect();
    for expected in [
        "GraphAnalyzer",
        "HotKeyAnalyzer",
        "ShuffleAnalyzer",
        "WindowingAnalyzer",
        "StateAnalyzer",
        "CostAnalyzer",
        "ReliabilityAnalyzer",
        "BestPracticesAnalyzer",
        "DeploymentAnalyzer",
        "SynthesisEngine",
    ] {
        assert!(names.contains(&expected), "missing analyzer result: {expected}");
    }

    let graph = find(&results, "GraphAnalyzer");
    assert!(graph.metric("node_count").unwrap_or(0) >= 5_000);

    let synthesis = find(&results, "SynthesisEngine");
    assert!(synthesis.findings.iter().any(|f| f.id == "SYNTHESIS_EXECUTIVE_SUMMARY"));
}

#[test]
fn analyze_pipeline_with_data_profile_end_to_end() {
    let profile = DataProfile {
        estimated_throughput_milli_per_sec: Some(5_000_000),
        average_element_size_bytes: Some(256),
        key_cardinality: Some(20),
        estimated_state_size_milli_gb: Some(3_000),
    };
    let results = expect_ok(
        analyze_pipeline(REALISTIC_STREAMING_PIPELINE, Some(profile)),
        "pipeline with a data profile should analyze without error",
    );

    let hotkey = find(&results, "HotKeyAnalyzer");
    assert!(hotkey.findings.iter().any(|f| f.id == "HOTKEY_LOW_CARDINALITY_MEASURED"));

    let cost = find(&results, "CostAnalyzer");
    assert!(cost.confidence > 600);
}

#[test]
fn analyze_pipeline_empty_source_does_not_panic() {
    let result = analyze_pipeline("", None);
    assert!(
        result.is_err(),
        "empty input has no Beam import and should be a clean error, not a panic"
    );
}

#[test]
fn analyze_pipeline_non_beam_source_does_not_panic() {
    let result = analyze_pipeline("print('hello world')\nx = 1 + 1\n", None);
    assert!(result.is_err());
}

#[test]
fn analyze_pipeline_handles_unicode_and_pathological_content_without_panicking() {
    let pathological = r#"
import apache_beam as beam

with beam.Pipeline() as p:
    data = (
        p
        | 'Read' >> beam.io.ReadFromText('input_😀.txt')
        | 'Parse😀Data' >> beam.ParDo(Pärse😀Fn())
        | 'GroupBy' >> beam.GroupByKey()
        | 'Write' >> beam.io.WriteToText('output_日本語.txt')
    )
"#;
    let result = analyze_pipeline(pathological, None);
    assert!(result.is_ok(), "unicode-heavy pipeline source should not panic the parser");
}

#[test]
fn analyze_pipeline_extremely_long_single_line_does_not_panic() {
    let mut src = String::from("import apache_beam as beam\n# ");
    src.push_str(&"x".repeat(200_000));
    src.push('\n');
    let result = analyze_pipeline(&src, None);
    let _ = result;
}

#[test]
fn analyze_flink_pipeline_realistic_source_end_to_end() {
    let results = expect_ok(
        analyze_flink_pipeline(REALISTIC_FLINK_PIPELINE_WITH_RISKS, None),
        "realistic Flink pipeline should parse and analyze without error",
    );
    assert_eq!(results.len(), 3, "expected all 3 Flink analyzers to run");
    let names: Vec<&str> = results.iter().map(|r| r.analyzer_name.as_str()).collect();
    for expected in ["FlinkCheckpointAnalyzer", "FlinkStateAnalyzer", "FlinkWatermarkAnalyzer"] {
        assert!(names.contains(&expected), "missing Flink analyzer result: {expected}");
    }
    let all = all_finding_ids(&results);
    assert!(all.contains(&"FLINK_CHECKPOINT_INTERVAL_TOO_AGGRESSIVE".to_string()));
    assert!(all.contains(&"FLINK_STATE_BACKEND_HEAP_RISK".to_string()));
    assert!(all.contains(&"FLINK_KEYED_STATE_HOT_KEY_RISK".to_string()));
    assert!(all.contains(&"FLINK_WATERMARK_MISSING".to_string()));
}

#[test]
fn analyze_flink_pipeline_rejects_non_flink_source() {
    let result = analyze_flink_pipeline("print('not flink')", None);
    assert!(result.is_err());
}

#[test]
fn analyze_spark_pipeline_realistic_source_end_to_end() {
    let results = expect_ok(
        analyze_spark_pipeline(REALISTIC_SPARK_PIPELINE_WITH_RISKS, None),
        "realistic Spark pipeline should parse and analyze without error",
    );
    assert_eq!(results.len(), 3, "expected all 3 Spark analyzers to run");
    let names: Vec<&str> = results.iter().map(|r| r.analyzer_name.as_str()).collect();
    for expected in ["SparkShuffleAnalyzer", "SparkJoinAnalyzer", "SparkStreamingAnalyzer"] {
        assert!(names.contains(&expected), "missing Spark analyzer result: {expected}");
    }
    let all = all_finding_ids(&results);
    assert!(all.contains(&"SPARK_BROADCAST_THRESHOLD_DISABLED".to_string()));
    assert!(all.contains(&"SPARK_JOIN_HIGH_RISK_KEY".to_string()));
    assert!(all.contains(&"SPARK_STREAMING_NO_CHECKPOINT_LOCATION".to_string()));
    assert!(all.contains(&"SPARK_AGGREGATION_APPEND_MODE_INCOMPATIBLE".to_string()));
}

#[test]
fn analyze_spark_pipeline_rejects_non_spark_source() {
    let result = analyze_spark_pipeline("print('not spark')", None);
    assert!(result.is_err());
}
