use pybeamguard::analyzer::{AnalysisContext, AnalysisResult, DataProfile, RiskSeverity};
use pybeamguard::analyzers::best_practices::BestPracticesAnalyzer;
use pybeamguard::analyzers::cost::CostAnalyzer;
use pybeamguard::analyzers::deployment::DeploymentAnalyzer;
use pybeamguard::analyzers::graph::GraphAnalyzer;
use pybeamguard::analyzers::hotkey::HotKeyAnalyzer;
use pybeamguard::analyzers::reliability::ReliabilityAnalyzer;
use pybeamguard::analyzers::shuffle::ShuffleAnalyzer;
use pybeamguard::analyzers::state::StateAnalyzer;
use pybeamguard::analyzers::synthesis::SynthesisEngine;
use pybeamguard::analyzers::windowing::WindowingAnalyzer;
use pybeamguard::ir::{DeploymentConfig, NodeConfig, PipelineIR, TransformNode, TransformType};
use pybeamguard::rules::{CostRules, HotKeyRules, StateRules};

fn node(id: &str, name: &str, node_type: TransformType, outputs: &[&str]) -> TransformNode {
    TransformNode {
        id: id.to_string(),
        name: name.to_string(),
        node_type,
        inputs: vec![],
        outputs: outputs.iter().map(|s| s.to_string()).collect(),
        config: NodeConfig::new(),
        annotations: vec![],
        line_number: None,
    }
}

fn ctx(ir: PipelineIR, data_profile: Option<DataProfile>) -> AnalysisContext {
    AnalysisContext { pipeline_ir: ir, data_profile }
}

fn cardinality_profile(k: u64) -> DataProfile {
    DataProfile {
        estimated_throughput_milli_per_sec: None,
        average_element_size_bytes: None,
        key_cardinality: Some(k),
        estimated_state_size_milli_gb: None,
    }
}

fn state_profile(milli_gb: u64) -> DataProfile {
    DataProfile {
        estimated_throughput_milli_per_sec: None,
        average_element_size_bytes: None,
        key_cardinality: None,
        estimated_state_size_milli_gb: Some(milli_gb),
    }
}

fn has(result: &AnalysisResult, id: &str) -> bool {
    result.findings.iter().any(|f| f.id == id)
}

fn has_with(result: &AnalysisResult, id: &str, severity: RiskSeverity) -> bool {
    result.findings.iter().any(|f| f.id == id && f.severity == severity)
}

fn hotkey() -> HotKeyAnalyzer {
    HotKeyAnalyzer::new(HotKeyRules::default_rules())
}

fn stateful_pardo_node(dofn_name: &str) -> TransformNode {
    node(
        "node_1",
        "StatefulParDo",
        TransformType::ParDo {
            dofn_name: dofn_name.to_string(),
            is_stateful: true,
            has_side_inputs: false,
            has_side_outputs: false,
        },
        &["counted"],
    )
}

#[test]
fn test_combineperkey_recommendation() {
    let mut ir = PipelineIR::new("test".to_string());
    ir.nodes.push(node("node_1", "GroupByKey", TransformType::GroupByKey { key_expr: None }, &[]));
    let result = BestPracticesAnalyzer.analyze(&ctx(ir, None));
    assert!(has(&result, "BESTPRAC_PREFER_COMBINEPERKEY"));
}

#[test]
fn test_simple_cost_estimation() {
    let ir = PipelineIR::new("test".to_string());
    let analyzer = CostAnalyzer::new(CostRules::default_rules());
    let result = analyzer.analyze(&ctx(ir, None));
    assert!(result.metric("estimated_total_cost_per_month").is_some());
    assert!(result.confidence < 700);
}

#[test]
fn test_data_profile_increases_confidence_and_changes_estimate() {
    let mut ir = PipelineIR::new("test".to_string());
    ir.nodes.push(node("node_1", "GroupByKey", TransformType::GroupByKey { key_expr: None }, &["grouped"]));
    let ir2 = {
        let mut i = PipelineIR::new("test".to_string());
        i.nodes.push(node("node_1", "GroupByKey", TransformType::GroupByKey { key_expr: None }, &["grouped"]));
        i
    };
    let analyzer = CostAnalyzer::new(CostRules::default_rules());
    let profile = DataProfile {
        estimated_throughput_milli_per_sec: Some(1_000_000),
        average_element_size_bytes: Some(1024),
        key_cardinality: None,
        estimated_state_size_milli_gb: Some(2_500),
    };
    let result_no_profile = analyzer.analyze(&ctx(ir, None));
    let result_with_profile = analyzer.analyze(&ctx(ir2, Some(profile)));
    assert!(result_with_profile.confidence > result_no_profile.confidence);
    let state_cost = result_with_profile.metric("estimated_state_cost_per_month").unwrap();
    assert!(state_cost > 0);
}

#[test]
fn test_no_deployment_config() {
    let ir = PipelineIR::new("test".to_string());
    let result = DeploymentAnalyzer.analyze(&ctx(ir, None));
    assert!(!result.findings.is_empty() || result.findings.is_empty());
}

#[test]
fn test_simple_pipeline_analysis() {
    let mut ir = PipelineIR::new("test".to_string());
    ir.nodes.push(node(
        "node_1",
        "Source",
        TransformType::Source { source_type: "text".to_string() },
        &["data"],
    ));
    let result = GraphAnalyzer.analyze(&ctx(ir, None));
    assert_eq!(result.findings.len(), 0);
}

#[test]
fn test_high_risk_customer_key() {
    let risk = hotkey().assess_key_risk(&Some("customer_id".to_string()), None);
    assert_eq!(risk.severity, RiskSeverity::High);
}

#[test]
fn test_medium_risk_timestamp_key() {
    let risk = hotkey().assess_key_risk(&Some("hour".to_string()), None);
    assert_eq!(risk.severity, RiskSeverity::Medium);
}

#[test]
fn hotkey_test_data_profile_low_cardinality_escalates_to_critical() {
    let profile = cardinality_profile(12);
    let risk = hotkey().assess_key_risk(&Some("region".to_string()), Some(&profile));
    assert_eq!(risk.severity, RiskSeverity::Critical);
    assert_eq!(risk.id, "HOTKEY_LOW_CARDINALITY_MEASURED");
}

#[test]
fn test_data_profile_high_cardinality_downgrades_high_risk_pattern() {
    let profile = cardinality_profile(500_000);
    let risk = hotkey().assess_key_risk(&Some("customer_id".to_string()), Some(&profile));
    assert_eq!(risk.severity, RiskSeverity::Medium);
}

#[test]
fn test_analyze_uses_context_data_profile() {
    let mut ir = PipelineIR::new("test".to_string());
    ir.nodes.push(node(
        "node_1",
        "GroupByKey",
        TransformType::GroupByKey { key_expr: Some("shard_id".to_string()) },
        &["grouped"],
    ));
    let result = hotkey().analyze(&ctx(ir, Some(cardinality_profile(5))));
    assert!(has(&result, "HOTKEY_LOW_CARDINALITY_MEASURED"));
    assert_eq!(result.metric("data_profile_key_cardinality"), Some(5_000));
}

#[test]
fn test_reliability_no_sink() {
    let ir = PipelineIR::new("test".to_string());
    let result = ReliabilityAnalyzer.analyze(&ctx(ir, None));
    assert!(has(&result, "RELIABILITY_NO_SINK"));
}

#[test]
fn test_shuffle_detection() {
    let mut ir = PipelineIR::new("test".to_string());
    ir.nodes.push(node("node_1", "GroupByKey", TransformType::GroupByKey { key_expr: None }, &["grouped"]));
    let result = ShuffleAnalyzer.analyze(&ctx(ir, None));
    assert!(!result.findings.is_empty());
}

#[test]
fn test_stateful_operation_detection() {
    let mut ir = PipelineIR::new("test".to_string());
    ir.nodes.push(stateful_pardo_node("CountByUser"));
    let result = StateAnalyzer::new(StateRules::default_rules()).analyze(&ctx(ir, None));
    assert!(!result.findings.is_empty());
}

#[test]
fn test_large_measured_state_size_escalates_to_critical() {
    let mut ir = PipelineIR::new("test".to_string());
    ir.nodes.push(stateful_pardo_node("Aggregate"));
    let result =
        StateAnalyzer::new(StateRules::default_rules()).analyze(&ctx(ir, Some(state_profile(800_000))));
    assert!(has_with(&result, "STATE_SIZE_MEASURED_CRITICAL", RiskSeverity::Critical));
    assert_eq!(result.metric("data_profile_state_size_gb"), Some(800_000));
}

#[test]
fn test_small_measured_state_size_does_not_escalate() {
    let mut ir = PipelineIR::new("test".to_string());
    ir.nodes.push(stateful_pardo_node("Aggregate"));
    let result =
        StateAnalyzer::new(StateRules::default_rules()).analyze(&ctx(ir, Some(state_profile(5_000))));
    assert!(!has(&result, "STATE_SIZE_MEASURED_CRITICAL"));
}

#[test]
fn measured_state_size_at_threshold_is_critical() {
    let mut ir = PipelineIR::new("test".to_string());
    ir.nodes.push(stateful_pardo_node("Aggregate"));
    let result =
        StateAnalyzer::new(StateRules::default_rules()).analyze(&ctx(ir, Some(state_profile(500_000))));
    assert!(has_with(&result, "STATE_SIZE_MEASURED_CRITICAL", RiskSeverity::Critical));
}

#[test]
fn measured_state_size_just_below_threshold_is_not_critical() {
    let mut ir = PipelineIR::new("test".to_string());
    ir.nodes.push(stateful_pardo_node("Aggregate"));
    let result =
        StateAnalyzer::new(StateRules::default_rules()).analyze(&ctx(ir, Some(state_profile(499_999))));
    assert!(!has(&result, "STATE_SIZE_MEASURED_CRITICAL"));
}

#[test]
fn test_synthesis_scoring() {
    let ir = PipelineIR::new("test".to_string());
    let result = SynthesisEngine.analyze(&ctx(ir, None));
    assert!(result.metric("overall_risk_score").unwrap() >= 0);
    assert!(result.metric("overall_risk_score").unwrap() <= 100_000);
}

#[test]
fn test_windowing_detection() {
    let mut ir = PipelineIR::new("test".to_string());
    ir.nodes.push(node(
        "node_1",
        "Windowing",
        TransformType::Windowing {
            window_type: "fixed".to_string(),
            duration_sec: Some(60),
            trigger: None,
            allowed_lateness_sec: None,
            accumulation_mode: None,
        },
        &["windowed"],
    ));
    let result = WindowingAnalyzer.analyze(&ctx(ir, None));
    assert!(!result.findings.is_empty() || result.findings.is_empty());
}

#[test]
fn best_practice_rules_fire_once_each() {
    let mut ir = PipelineIR::new("test".to_string());
    for i in 0..3 {
        ir.nodes.push(node(&format!("g{}", i), "GroupByKey", TransformType::GroupByKey { key_expr: None }, &[]));
    }
    let result = BestPracticesAnalyzer.analyze(&ctx(ir, None));
    let ids: Vec<&str> = result.findings.iter().map(|f| f.id.as_str()).collect();
    assert_eq!(ids, vec!["BESTPRAC_PREFER_COMBINEPERKEY", "BESTPRAC_EXCESSIVE_RESHUFFLING"]);
    assert_eq!(result.metric("rule_violations"), Some(2_000));
}

#[test]
fn global_window_with_long_lateness_reports_both_rules_on_it() {
    let mut ir = PipelineIR::new("test".to_string());
    ir.nodes.push(node("src", "Read", TransformType::Source { source_type: "pubsub".to_string() }, &["in"]));
    ir.nodes.push(node(
        "w1",
        "Window",
        TransformType::Windowing {
            window_type: "global".to_string(),
            duration_sec: None,
            trigger: None,
            allowed_lateness_sec: Some(100_000),
            accumulation_mode: None,
        },
        &["windowed"],
    ));
    let result = WindowingAnalyzer.analyze(&ctx(ir, None));
    let ids: Vec<&str> = result.findings.iter().map(|f| f.id.as_str()).collect();
    assert_eq!(ids, vec!["WINDOWING_LONG_LATENESS", "WINDOWING_GLOBAL_NO_TRIGGER"]);
    for f in &result.findings {
        assert_eq!(f.affected_nodes, vec!["w1".to_string()]);
    }
}

#[test]
fn batch_pipeline_without_windows_has_no_windowing_findings() {
    let mut ir = PipelineIR::new("test".to_string());
    ir.nodes.push(node("src", "Read", TransformType::Source { source_type: "text".to_string() }, &["in"]));
    let result = WindowingAnalyzer.analyze(&ctx(ir, None));
    assert!(result.findings.is_empty());
}

#[test]
fn deployment_rules_report_in_order() {
    let mut ir = PipelineIR::new("test".to_string());
    ir.metadata.deployment_config = Some(DeploymentConfig {
        worker_machine_type: Some("e2-small".to_string()),
        min_workers: Some(100),
        max_workers: Some(1_000),
        streaming_engine: Some(false),
        region: Some("europe-west1".to_string()),
        autoscaling_algorithm: None,
    });
    let result = DeploymentAnalyzer.analyze(&ctx(ir, None));
    let ids: Vec<&str> = result.findings.iter().map(|f| f.id.as_str()).collect();
    assert_eq!(
        ids,
        vec![
            "DEPLOY_SMALL_MACHINE",
            "DEPLOY_EXCESSIVE_MAX_WORKERS",
            "DEPLOY_HIGH_MIN_WORKERS",
            "DEPLOY_NON_US_REGION",
            "DEPLOY_NO_AUTOSCALING_ALG",
            "DEPLOY_NO_STREAMING_ENGINE"
        ]
    );
    let ir = PipelineIR::new("test".to_string());
    let result = DeploymentAnalyzer.analyze(&ctx(ir, None));
    let ids: Vec<&str> = result.findings.iter().map(|f| f.id.as_str()).collect();
    assert_eq!(ids, vec!["DEPLOY_NO_CONFIG"]);
}

#[test]
fn reliability_score_loses_fifteen_per_issue() {
    let ir = PipelineIR::new("test".to_string());
    let result = ReliabilityAnalyzer.analyze(&ctx(ir, None));
    // no sink, no error handling, no dead-letter queue: three issues
    assert_eq!(result.findings.len(), 1);
    assert_eq!(result.metric("reliability_score"), Some(55_000));
}

#[test]
fn shuffle_stages_are_numbered_in_node_order() {
    let mut ir = PipelineIR::new("test".to_string());
    ir.nodes.push(node("a", "GroupByKey", TransformType::GroupByKey { key_expr: None }, &[]));
    ir.nodes.push(node("b", "Combine", TransformType::CombinePerKey { combine_fn: "sum".to_string() }, &[]));
    let result = ShuffleAnalyzer.analyze(&ctx(ir, None));
    assert_eq!(result.findings.len(), 2);
    assert!(result.findings[0].id.ends_with('1'));
    assert!(result.findings[1].id.ends_with('2'));
    assert_eq!(result.findings[0].affected_nodes, vec!["a".to_string()]);
    assert_eq!(result.findings[1].affected_nodes, vec!["b".to_string()]);
}
