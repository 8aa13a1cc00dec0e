use pybeamguard::frameworks::flink::FlinkFrameworkParser;
use pybeamguard::frameworks::spark::SparkFrameworkParser;
use pybeamguard::ir::{PipelineIR, TransformNode, TransformType};
use pybeamguard::parser::BeamPipelineParser;

const REALISTIC_FLINK_PIPELINE: &str = r#"
from pyflink.datastream import StreamExecutionEnvironment
from pyflink.datastream.state_backend import EmbeddedRocksDBStateBackend
from pyflink.common import Duration, WatermarkStrategy
from pyflink.datastream.checkpoint_config import CheckpointingMode

env = StreamExecutionEnvironment.get_execution_environment()
env.enable_checkpointing(60000, CheckpointingMode.EXACTLY_ONCE)
env.get_checkpoint_config().set_checkpoint_timeout(120000)
env.set_state_backend(EmbeddedRocksDBStateBackend(True))

ds = env.from_source(source, WatermarkStrategy.for_bounded_out_of_orderness(Duration.of_seconds(30)), "source")
keyed = ds.key_by(lambda x: x.customer_id)
windowed = keyed.window(TumblingEventTimeWindows.of(Time.seconds(60)))
result = windowed.process(MyProcessWindowFunction())
result.add_sink(SinkFn())
"#;

const REALISTIC_SPARK_PIPELINE: &str = r#"
from pyspark.sql import SparkSession

spark = SparkSession.builder.appName("orders").getOrCreate()
spark.conf.set("spark.sql.shuffle.partitions", 4)
spark.conf.set("spark.sql.autoBroadcastJoinThreshold", -1)

orders = spark.readStream.format("kafka").option("subscribe", "orders").load()
customers = spark.read.format("jdbc").option("dbtable", "customers").load()

joined = orders.join(customers, on="customer_id")
grouped = joined.groupBy("customer_id").count()

query = (
    grouped.writeStream
    .format("console")
    .outputMode("append")
    .start()
)
"#;

fn custom<'a>(ir: &'a PipelineIR, kind: &str) -> Option<&'a TransformNode> {
    ir.nodes
        .iter()
        .find(|n| matches!(&n.node_type, TransformType::Custom(t) if t == kind))
}

fn flink_ir() -> PipelineIR {
    match FlinkFrameworkParser.parse(REALISTIC_FLINK_PIPELINE) {
        Ok(ir) => ir,
        Err(e) => panic!("{}", e.message()),
    }
}

fn spark_ir() -> PipelineIR {
    match SparkFrameworkParser.parse(REALISTIC_SPARK_PIPELINE) {
        Ok(ir) => ir,
        Err(e) => panic!("{}", e.message()),
    }
}

#[test]
fn test_flink_parser_rejects_non_flink_code() {
    let result = FlinkFrameworkParser.parse("print('hello world')");
    assert!(result.is_err());
}

#[test]
fn test_flink_parser_extracts_checkpoint_config() {
    let ir = flink_ir();
    let node = custom(&ir, "flink_checkpoint_config").expect("checkpoint config node");
    assert_eq!(node.config.get_u64("interval_ms"), Some(60000));
    assert_eq!(node.config.get_str("mode"), Some("EXACTLY_ONCE".to_string()));
    assert_eq!(node.config.get_u64("timeout_ms"), Some(120000));
}

#[test]
fn test_flink_parser_extracts_state_backend_and_incremental_flag() {
    let ir = flink_ir();
    let node = custom(&ir, "flink_state_backend").expect("state backend node");
    assert_eq!(node.config.get_str("backend"), Some("EmbeddedRocksDBStateBackend".to_string()));
    assert_eq!(node.config.get_bool("incremental"), Some(true));
}

#[test]
fn test_flink_parser_extracts_keyed_state_and_watermark_and_window() {
    let ir = flink_ir();
    let keyed = custom(&ir, "flink_keyed_state").expect("keyed state node");
    assert!(keyed.config.get_str("key_expr").unwrap().contains("customer_id"));

    let watermark = custom(&ir, "flink_watermark").expect("watermark node");
    assert_eq!(watermark.config.get_str("strategy"), Some("bounded_out_of_orderness".to_string()));
    assert_eq!(watermark.config.get_u64("out_of_orderness_sec"), Some(30));

    let window = ir
        .nodes
        .iter()
        .find(|n| matches!(&n.node_type, TransformType::Windowing { .. }))
        .expect("window node");
    match &window.node_type {
        TransformType::Windowing { window_type, duration_sec, .. } => {
            assert_eq!(window_type, "tumbling");
            assert_eq!(*duration_sec, Some(60));
        }
        _ => unreachable!(),
    }
}

#[test]
fn test_flink_parser_no_checkpoint_config_when_absent() {
    let code = r#"
from pyflink.datastream import StreamExecutionEnvironment
env = StreamExecutionEnvironment.get_execution_environment()
ds = env.from_source(source, watermark, "source")
ds.key_by(lambda x: x[0]).process(ProcessFn()).add_sink(SinkFn())
"#;
    let ir = match FlinkFrameworkParser.parse(code) {
        Ok(ir) => ir,
        Err(e) => panic!("{}", e.message()),
    };
    assert!(custom(&ir, "flink_checkpoint_config").is_none());
}

#[test]
fn test_spark_parser_rejects_non_spark_code() {
    let result = SparkFrameworkParser.parse("print('hello world')");
    assert!(result.is_err());
}

#[test]
fn test_spark_parser_extracts_shuffle_partitions() {
    let ir = spark_ir();
    let node = custom(&ir, "spark_shuffle_config").expect("shuffle config node");
    assert_eq!(node.config.get_u64("shuffle_partitions"), Some(4));
}

#[test]
fn test_spark_parser_extracts_broadcast_threshold() {
    let ir = spark_ir();
    let node = custom(&ir, "spark_broadcast_threshold_config").expect("broadcast threshold node");
    assert_eq!(node.config.get_i64("threshold_bytes"), Some(-1));
}

#[test]
fn test_spark_parser_extracts_join_key() {
    let ir = spark_ir();
    let node = custom(&ir, "spark_join").expect("join node");
    assert_eq!(node.config.get_str("key_expr"), Some("customer_id".to_string()));
}

#[test]
fn test_spark_parser_extracts_streaming_query_without_checkpoint() {
    let ir = spark_ir();
    let node = custom(&ir, "spark_streaming_query").expect("streaming query node");
    assert_eq!(node.config.get_bool("has_checkpoint_location"), Some(false));
    assert_eq!(node.config.get_str("output_mode"), Some("append".to_string()));
    assert_eq!(node.config.get_bool("has_aggregation"), Some(true));
}

#[test]
fn test_spark_parser_extracts_wide_transforms() {
    let ir = spark_ir();
    let ops: Vec<String> = ir
        .nodes
        .iter()
        .filter_map(|n| match &n.node_type {
            TransformType::Custom(t) if t == "spark_wide_transform" => n.config.get_str("op"),
            _ => None,
        })
        .collect();
    assert!(ops.contains(&"join".to_string()));
    assert!(ops.contains(&"groupby".to_string()));
}

#[test]
fn test_parse_simple_pipeline() {
    let code = r#"
import apache_beam as beam

with beam.Pipeline() as p:
    result = (
        p
        | 'Read' >> beam.io.ReadFromText('input.txt')
        | 'ParseData' >> beam.ParDo(ParseFn())
        | 'WriteOutput' >> beam.io.WriteToText('output.txt')
    )
"#;
    let parser = BeamPipelineParser::new();
    let ir = match parser.parse(code) {
        Ok(ir) => ir,
        Err(e) => panic!("{}", e.message()),
    };
    assert!(!ir.nodes.is_empty());
}
