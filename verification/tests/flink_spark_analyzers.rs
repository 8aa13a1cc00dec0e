use pybeamguard::analyzer::{AnalysisContext, AnalysisResult, DataProfile, RiskSeverity};
use pybeamguard::analyzers::flink_checkpoint::FlinkCheckpointAnalyzer;
use pybeamguard::analyzers::flink_state::FlinkStateAnalyzer;
use pybeamguard::analyzers::flink_watermark::FlinkWatermarkAnalyzer;
use pybeamguard::analyzers::spark_join::SparkJoinAnalyzer;
use pybeamguard::analyzers::spark_shuffle::SparkShuffleAnalyzer;
use pybeamguard::analyzers::spark_streaming::SparkStreamingAnalyzer;
use pybeamguard::ir::{ConfigValue, NodeConfig, PipelineIR, TransformNode, TransformType};
use pybeamguard::rules::SparkJoinRules;

fn custom(id: &str, name: &str, kind: &str, config: NodeConfig, line: Option<usize>) -> TransformNode {
    TransformNode {
        id: id.to_string(),
        name: name.to_string(),
        node_type: TransformType::Custom(kind.to_string()),
        inputs: vec![],
        outputs: vec![],
        config,
        annotations: vec![],
        line_number: line,
    }
}

fn s(v: &str) -> ConfigValue {
    ConfigValue::Str(v.to_string())
}

fn opt_u64(v: Option<u64>) -> ConfigValue {
    match v {
        Some(n) => ConfigValue::UInt(n),
        None => ConfigValue::Null,
    }
}

fn opt_bool(v: Option<bool>) -> ConfigValue {
    match v {
        Some(b) => ConfigValue::Bool(b),
        None => ConfigValue::Null,
    }
}

fn int_value(v: i64) -> ConfigValue {
    if v >= 0 {
        ConfigValue::UInt(v as u64)
    } else {
        ConfigValue::NegInt(v)
    }
}

fn ctx(ir: PipelineIR, data_profile: Option<DataProfile>) -> AnalysisContext {
    AnalysisContext { pipeline_ir: ir, data_profile }
}

fn cardinality_profile(k: u64) -> DataProfile {
    DataProfile {
        estimated_throughput_milli_per_sec: None,
        average_element_size_bytes: None,
        key_cardinality: Some(k),
        estimated_state_size_milli_gb: None,
    }
}

fn has(result: &AnalysisResult, id: &str) -> bool {
    result.findings.iter().any(|f| f.id == id)
}

fn has_with(result: &AnalysisResult, id: &str, severity: RiskSeverity) -> bool {
    result.findings.iter().any(|f| f.id == id && f.severity == severity)
}

// ---- Flink checkpointing ----

fn checkpoint_node(interval_ms: u64, mode: &str, timeout_ms: u64) -> TransformNode {
    custom(
        "node_flink_checkpoint_config_0",
        "CheckpointConfig",
        "flink_checkpoint_config",
        NodeConfig::new()
            .with("interval_ms", ConfigValue::UInt(interval_ms))
            .with("mode", s(mode))
            .with("timeout_ms", ConfigValue::UInt(timeout_ms)),
        Some(0),
    )
}

fn checkpoint_result(n: TransformNode) -> AnalysisResult {
    let mut ir = PipelineIR::new("flink_pipeline".to_string());
    ir.nodes.push(n);
    FlinkCheckpointAnalyzer.analyze(&ctx(ir, None))
}

#[test]
fn test_stateful_pipeline_without_checkpointing_is_critical() {
    let mut ir = PipelineIR::new("flink_pipeline".to_string());
    ir.set_runner_hint("has_state", "true".to_string());
    let result = FlinkCheckpointAnalyzer.analyze(&ctx(ir, None));
    assert!(has_with(&result, "FLINK_CHECKPOINT_DISABLED", RiskSeverity::Critical));
}

#[test]
fn test_aggressive_interval_flagged_high() {
    let result = checkpoint_result(checkpoint_node(200, "EXACTLY_ONCE", 60000));
    assert!(has_with(&result, "FLINK_CHECKPOINT_INTERVAL_TOO_AGGRESSIVE", RiskSeverity::High));
}

#[test]
fn test_long_interval_flagged_medium() {
    let result = checkpoint_result(checkpoint_node(900_000, "EXACTLY_ONCE", 60000));
    assert!(has(&result, "FLINK_CHECKPOINT_INTERVAL_TOO_LONG"));
}

#[test]
fn test_at_least_once_mode_flagged() {
    let result = checkpoint_result(checkpoint_node(60000, "AT_LEAST_ONCE", 60000));
    assert!(has(&result, "FLINK_CHECKPOINT_AT_LEAST_ONCE"));
}

#[test]
fn test_well_configured_checkpointing_has_no_findings() {
    let result = checkpoint_result(checkpoint_node(60000, "EXACTLY_ONCE", 120000));
    assert!(result.findings.is_empty());
}

// ---- Flink state ----

fn keyed_node(key_expr: &str) -> TransformNode {
    custom(
        "node_flink_keyed_state_1",
        "KeyBy",
        "flink_keyed_state",
        NodeConfig::new().with("key_expr", s(key_expr)),
        Some(1),
    )
}

fn backend_node(backend: &str, incremental: Option<bool>) -> TransformNode {
    custom(
        "node_flink_state_backend_0",
        "StateBackend",
        "flink_state_backend",
        NodeConfig::new().with("backend", s(backend)).with("incremental", opt_bool(incremental)),
        Some(0),
    )
}

fn state_result(nodes: Vec<TransformNode>, profile: Option<DataProfile>) -> AnalysisResult {
    let mut ir = PipelineIR::new("flink_pipeline".to_string());
    for n in nodes {
        ir.nodes.push(n);
    }
    FlinkStateAnalyzer.analyze(&ctx(ir, profile))
}

#[test]
fn test_no_backend_configured_with_keyed_state_flagged_medium() {
    let result = state_result(vec![keyed_node("region")], None);
    assert!(has(&result, "FLINK_STATE_BACKEND_UNSPECIFIED"));
}

#[test]
fn test_heap_backend_flagged_high() {
    let result = state_result(vec![backend_node("HashMapStateBackend", None)], None);
    assert!(has_with(&result, "FLINK_STATE_BACKEND_HEAP_RISK", RiskSeverity::High));
}

#[test]
fn test_rocksdb_without_incremental_flagged() {
    let result = state_result(vec![backend_node("EmbeddedRocksDBStateBackend", Some(false))], None);
    assert!(has(&result, "FLINK_STATE_BACKEND_ROCKSDB_NO_INCREMENTAL"));
}

#[test]
fn test_rocksdb_with_incremental_clean() {
    let result = state_result(vec![backend_node("EmbeddedRocksDBStateBackend", Some(true))], None);
    assert!(result.findings.is_empty());
}

#[test]
fn test_high_risk_key_by_customer_flagged() {
    let result = state_result(
        vec![backend_node("EmbeddedRocksDBStateBackend", Some(true)), keyed_node("x.customer_id")],
        None,
    );
    assert!(has_with(&result, "FLINK_KEYED_STATE_HOT_KEY_RISK", RiskSeverity::High));
}

#[test]
fn flink_state_test_data_profile_low_cardinality_escalates_to_critical() {
    let result = state_result(
        vec![backend_node("EmbeddedRocksDBStateBackend", Some(true)), keyed_node("region")],
        Some(cardinality_profile(8)),
    );
    assert!(has_with(&result, "FLINK_KEYED_STATE_LOW_CARDINALITY_MEASURED", RiskSeverity::Critical));
}

// ---- Flink watermarks ----

fn window_node_with_domain(window_type: &str, duration_sec: Option<u64>, time_domain: &str) -> TransformNode {
    TransformNode {
        id: "node_flink_window_1".to_string(),
        name: "Window".to_string(),
        node_type: TransformType::Windowing {
            window_type: window_type.to_string(),
            duration_sec,
            trigger: None,
            allowed_lateness_sec: None,
            accumulation_mode: None,
        },
        inputs: vec![],
        outputs: vec![],
        config: NodeConfig::new().with("time_domain", s(time_domain)),
        annotations: vec![],
        line_number: Some(1),
    }
}

fn window_node(window_type: &str, duration_sec: Option<u64>) -> TransformNode {
    window_node_with_domain(window_type, duration_sec, "event")
}

fn watermark_node(strategy: &str, out_of_orderness_sec: Option<u64>) -> TransformNode {
    custom(
        "node_flink_watermark_0",
        "WatermarkStrategy",
        "flink_watermark",
        NodeConfig::new()
            .with("strategy", s(strategy))
            .with("out_of_orderness_sec", opt_u64(out_of_orderness_sec)),
        Some(0),
    )
}

fn watermark_result(nodes: Vec<TransformNode>) -> AnalysisResult {
    let mut ir = PipelineIR::new("flink_pipeline".to_string());
    for n in nodes {
        ir.nodes.push(n);
    }
    FlinkWatermarkAnalyzer.analyze(&ctx(ir, None))
}

#[test]
fn test_event_time_window_without_watermark_flagged_high() {
    let result = watermark_result(vec![window_node("tumbling", Some(60))]);
    assert!(has_with(&result, "FLINK_WATERMARK_MISSING", RiskSeverity::High));
}

#[test]
fn test_window_with_watermark_no_missing_finding() {
    let result = watermark_result(vec![
        window_node("tumbling", Some(60)),
        watermark_node("bounded_out_of_orderness", Some(30)),
    ]);
    assert!(!has(&result, "FLINK_WATERMARK_MISSING"));
}

#[test]
fn test_excessive_out_of_orderness_flagged() {
    let result = watermark_result(vec![
        window_node("tumbling", Some(60)),
        watermark_node("bounded_out_of_orderness", Some(7_200)),
    ]);
    assert!(has(&result, "FLINK_WATERMARK_EXCESSIVE_OUT_OF_ORDERNESS"));
}

#[test]
fn test_processing_time_window_does_not_require_watermark() {
    let result = watermark_result(vec![window_node_with_domain("tumbling", Some(60), "processing")]);
    assert!(!has(&result, "FLINK_WATERMARK_MISSING"));
}

#[test]
fn test_keyed_stream_without_window_flagged() {
    let n = custom(
        "node_flink_keyed_state_1",
        "KeyBy",
        "flink_keyed_state",
        NodeConfig::new().with("key_expr", s("id")),
        Some(1),
    );
    let result = watermark_result(vec![n]);
    assert!(has(&result, "FLINK_KEYED_STREAM_NO_WINDOW"));
}

// ---- Spark joins ----

fn join_node(key_expr: Option<&str>, is_broadcast: bool) -> TransformNode {
    let k = match key_expr {
        Some(k) => s(k),
        None => ConfigValue::Null,
    };
    custom(
        "node_spark_join_1",
        "Join",
        "spark_join",
        NodeConfig::new().with("key_expr", k).with("is_broadcast", ConfigValue::Bool(is_broadcast)),
        Some(1),
    )
}

fn threshold_node(threshold_bytes: i64) -> TransformNode {
    custom(
        "node_spark_broadcast_threshold_0",
        "BroadcastThresholdConfig",
        "spark_broadcast_threshold_config",
        NodeConfig::new().with("threshold_bytes", int_value(threshold_bytes)),
        None,
    )
}

fn join_result(n: TransformNode, profile: Option<DataProfile>) -> AnalysisResult {
    let mut ir = PipelineIR::new("spark_streaming_pipeline".to_string());
    ir.nodes.push(n);
    SparkJoinAnalyzer::new(SparkJoinRules::default_rules()).analyze(&ctx(ir, profile))
}

#[test]
fn test_disabled_threshold_flagged() {
    let result = join_result(threshold_node(-1), None);
    assert!(has(&result, "SPARK_BROADCAST_THRESHOLD_DISABLED"));
}

#[test]
fn test_excessive_threshold_flagged_high() {
    let result = join_result(threshold_node(5_368_709_120), None);
    assert!(has_with(&result, "SPARK_BROADCAST_THRESHOLD_EXCESSIVE", RiskSeverity::High));
}

#[test]
fn test_high_risk_join_key_flagged() {
    let result = join_result(join_node(Some("customer_id"), false), None);
    assert!(has_with(&result, "SPARK_JOIN_HIGH_RISK_KEY", RiskSeverity::High));
}

#[test]
fn test_broadcast_join_flagged_info() {
    let result = join_result(join_node(Some("customer_id"), true), None);
    assert!(has_with(&result, "SPARK_EXPLICIT_BROADCAST_USED", RiskSeverity::Info));
    assert!(!has(&result, "SPARK_JOIN_HIGH_RISK_KEY"));
}

#[test]
fn spark_join_test_data_profile_low_cardinality_escalates_to_critical() {
    let result = join_result(join_node(Some("region"), false), Some(cardinality_profile(5)));
    assert!(has_with(&result, "SPARK_JOIN_LOW_CARDINALITY_MEASURED", RiskSeverity::Critical));
}

// ---- Spark shuffles ----

fn wide_node(op: &str, seq: usize) -> TransformNode {
    custom(
        &format!("node_spark_wide_transform_{}", seq),
        &format!("WideTransform_{}", op),
        "spark_wide_transform",
        NodeConfig::new().with("op", s(op)),
        Some(seq),
    )
}

fn shuffle_config_node(partitions: Option<u64>) -> TransformNode {
    custom(
        "node_spark_shuffle_config_0",
        "ShuffleConfig",
        "spark_shuffle_config",
        NodeConfig::new().with("shuffle_partitions", opt_u64(partitions)),
        None,
    )
}

fn shuffle_result(nodes: Vec<TransformNode>) -> AnalysisResult {
    let mut ir = PipelineIR::new("spark_streaming_pipeline".to_string());
    for n in nodes {
        ir.nodes.push(n);
    }
    SparkShuffleAnalyzer.analyze(&ctx(ir, None))
}

#[test]
fn test_too_few_partitions_with_wide_transforms_flagged_high() {
    let result = shuffle_result(vec![shuffle_config_node(Some(2)), wide_node("groupby", 1)]);
    assert!(has_with(&result, "SPARK_SHUFFLE_PARTITIONS_TOO_LOW", RiskSeverity::High));
}

#[test]
fn test_excessive_partitions_flagged_medium() {
    let result = shuffle_result(vec![shuffle_config_node(Some(50_000))]);
    assert!(has(&result, "SPARK_SHUFFLE_PARTITIONS_EXCESSIVE"));
}

#[test]
fn test_unconfigured_partitions_with_multiple_wide_transforms_flagged() {
    let result = shuffle_result(vec![wide_node("groupby", 1), wide_node("join", 2)]);
    assert!(has(&result, "SPARK_SHUFFLE_PARTITIONS_UNCONFIGURED"));
}

#[test]
fn test_many_wide_transforms_flagged() {
    let mut nodes = vec![shuffle_config_node(Some(200))];
    for i in 0..5 {
        nodes.push(wide_node("join", i));
    }
    let result = shuffle_result(nodes);
    assert!(has(&result, "SPARK_MULTIPLE_WIDE_TRANSFORMS"));
}

#[test]
fn test_reasonable_config_has_no_findings() {
    let result = shuffle_result(vec![shuffle_config_node(Some(200)), wide_node("groupby", 1)]);
    assert!(result.findings.is_empty());
}

// ---- Spark streaming ----

fn streaming_node(cp: bool, trigger: bool, mode: &str, agg: bool, wm: bool) -> TransformNode {
    custom(
        "node_spark_streaming_query_0",
        "StreamingQuery",
        "spark_streaming_query",
        NodeConfig::new()
            .with("has_checkpoint_location", ConfigValue::Bool(cp))
            .with("trigger_configured", ConfigValue::Bool(trigger))
            .with("output_mode", s(mode))
            .with("has_aggregation", ConfigValue::Bool(agg))
            .with("has_watermark", ConfigValue::Bool(wm)),
        None,
    )
}

fn cache_node(count: u64, has_unpersist: bool) -> TransformNode {
    custom(
        "node_spark_cache_usage_0",
        "CacheUsage",
        "spark_cache_usage",
        NodeConfig::new()
            .with("cache_call_count", ConfigValue::UInt(count))
            .with("has_unpersist", ConfigValue::Bool(has_unpersist)),
        None,
    )
}

fn streaming_result(nodes: Vec<TransformNode>) -> AnalysisResult {
    let mut ir = PipelineIR::new("spark_streaming_pipeline".to_string());
    for n in nodes {
        ir.nodes.push(n);
    }
    SparkStreamingAnalyzer.analyze(&ctx(ir, None))
}

#[test]
fn test_missing_checkpoint_location_is_critical() {
    let result = streaming_result(vec![streaming_node(false, true, "update", false, false)]);
    assert!(has_with(&result, "SPARK_STREAMING_NO_CHECKPOINT_LOCATION", RiskSeverity::Critical));
}

#[test]
fn test_aggregation_append_mode_without_watermark_flagged_high() {
    let result = streaming_result(vec![streaming_node(true, true, "append", true, false)]);
    assert!(has_with(&result, "SPARK_AGGREGATION_APPEND_MODE_INCOMPATIBLE", RiskSeverity::High));
}

#[test]
fn test_aggregation_with_watermark_is_clean() {
    let result = streaming_result(vec![streaming_node(true, true, "append", true, true)]);
    assert!(!has(&result, "SPARK_AGGREGATION_APPEND_MODE_INCOMPATIBLE"));
}

#[test]
fn test_no_trigger_flagged_medium() {
    let result = streaming_result(vec![streaming_node(true, false, "update", false, false)]);
    assert!(has(&result, "SPARK_STREAMING_NO_TRIGGER"));
}

#[test]
fn test_cache_without_unpersist_flagged() {
    let result = streaming_result(vec![cache_node(2, false)]);
    assert!(has(&result, "SPARK_CACHE_WITHOUT_UNPERSIST"));
}

#[test]
fn test_cache_with_unpersist_is_clean() {
    let result = streaming_result(vec![cache_node(2, true)]);
    assert!(!has(&result, "SPARK_CACHE_WITHOUT_UNPERSIST"));
}

#[test]
fn test_batch_pipeline_without_streaming_query_has_no_findings() {
    let result = streaming_result(vec![]);
    assert!(result.findings.is_empty());
}

fn ids(result: &AnalysisResult) -> Vec<&str> {
    result.findings.iter().map(|f| f.id.as_str()).collect()
}

#[test]
fn checkpoint_findings_follow_rule_order() {
    let n = custom(
        "node_flink_checkpoint_config_0",
        "CheckpointConfig",
        "flink_checkpoint_config",
        NodeConfig::new().with("interval_ms", ConfigValue::UInt(500)),
        Some(0),
    );
    let result = checkpoint_result(n);
    assert_eq!(
        ids(&result),
        vec![
            "FLINK_CHECKPOINT_INTERVAL_TOO_AGGRESSIVE",
            "FLINK_CHECKPOINT_MODE_UNSPECIFIED",
            "FLINK_CHECKPOINT_NO_TIMEOUT_CONFIGURED"
        ]
    );
    let result = checkpoint_result(checkpoint_node(900_000, "EXACTLY_ONCE", 60_000));
    assert_eq!(ids(&result), vec!["FLINK_CHECKPOINT_INTERVAL_TOO_LONG"]);
}

#[test]
fn keyed_state_alone_reports_only_missing_window() {
    let result = watermark_result(vec![keyed_node("user_id")]);
    assert_eq!(ids(&result), vec!["FLINK_KEYED_STREAM_NO_WINDOW"]);
}

#[test]
fn threshold_at_the_limit_is_not_reported() {
    let result = join_result(threshold_node(1_073_741_824), None);
    assert!(result.findings.is_empty());
    assert_eq!(result.metric("broadcast_threshold_bytes"), Some(1_073_741_824_000));
    let result = join_result(threshold_node(0), None);
    assert!(result.findings.is_empty());
}

#[test]
fn shuffle_rules_combine() {
    let mut nodes = vec![];
    for i in 0..4 {
        nodes.push(wide_node("join", i));
    }
    let result = shuffle_result(nodes);
    assert_eq!(
        ids(&result),
        vec!["SPARK_SHUFFLE_PARTITIONS_UNCONFIGURED", "SPARK_MULTIPLE_WIDE_TRANSFORMS"]
    );
    let result = shuffle_result(vec![shuffle_config_node(Some(5))]);
    assert!(result.findings.is_empty());
}

#[test]
fn append_aggregation_replaces_missing_output_mode() {
    let n = custom(
        "node_spark_streaming_query_0",
        "StreamingQuery",
        "spark_streaming_query",
        NodeConfig::new()
            .with("has_checkpoint_location", ConfigValue::Bool(true))
            .with("trigger_configured", ConfigValue::Bool(true))
            .with("has_aggregation", ConfigValue::Bool(true))
            .with("has_watermark", ConfigValue::Bool(false)),
        None,
    );
    let result = streaming_result(vec![n, cache_node(2, false)]);
    assert_eq!(
        ids(&result),
        vec!["SPARK_AGGREGATION_APPEND_MODE_INCOMPATIBLE", "SPARK_CACHE_WITHOUT_UNPERSIST"]
    );
}

#[test]
fn state_backend_method_records_metric_and_findings() {
    let analyzer = FlinkStateAnalyzer;
    let mut findings = vec![];
    let mut metrics = vec![];
    analyzer.analyze_state_backend(None, true, &mut findings, &mut metrics);
    assert_eq!(findings.len(), 1);
    assert_eq!(findings[0].id, "FLINK_STATE_BACKEND_UNSPECIFIED");
    assert_eq!(metrics.len(), 1);
    assert_eq!(metrics[0].name, "state_backend_configured");
    assert_eq!(metrics[0].value, 0);
    let n = backend_node("HashMapStateBackend", None);
    let mut findings = vec![];
    let mut metrics = vec![];
    analyzer.analyze_state_backend(Some(&n), false, &mut findings, &mut metrics);
    let ids: Vec<&str> = findings.iter().map(|f| f.id.as_str()).collect();
    assert_eq!(ids, vec!["FLINK_STATE_BACKEND_HEAP_RISK"]);
    assert_eq!(metrics[0].value, 1_000);
}
