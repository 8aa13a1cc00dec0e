use pybeamguard::commercial::OrganizationConfig;
use pybeamguard::ecosystem::{
    ColumnDefinition, DataContract, DatasetDescription, FinOpsDashboard, SchemaDefinition,
    ServiceLevelAgreement,
};
use pybeamguard::rules::RulesConfig;

fn org(budget: Option<i64>, slo: Option<i64>, enforce: bool) -> OrganizationConfig {
    OrganizationConfig {
        org_id: "org_123".to_string(),
        org_name: "Test Org".to_string(),
        cost_budget_per_month: budget,
        reliability_slo_score: slo,
        performance_slo_score: None,
        enforce_dlq_requirement: false,
        enforce_error_handling: false,
        enforce_cost_limits: enforce,
        enforce_reliability_gates: enforce,
        teams: vec![],
        audit_log_enabled: enforce,
    }
}

#[test]
fn test_all_features_free() {
    let mut o = org(None, None, false);
    o.org_id = "org_1".to_string();
    assert!(o.can_use_feature("analyze"));
    assert!(o.can_use_feature("export_json"));
    assert!(o.can_use_feature("export_html"));
    assert!(o.can_use_feature("cost_forecasting"));
    assert!(o.can_use_feature("ci_cd_integration"));
    assert!(o.can_use_feature("api_access"));
    assert!(o.can_use_feature("anything_else"));
}

#[test]
fn test_cost_enforcement() {
    let o = org(Some(5_000_000), Some(70_000), true);
    assert!(!o.should_block_deployment(4_000_000, 85_000));
    assert!(o.should_block_deployment(6_000_000, 85_000));
    assert!(o.should_block_deployment(4_000_000, 50_000));
}

#[test]
fn test_data_contract_creation() {
    let contract = DataContract {
        id: "contract_1".to_string(),
        name: "Customer Events".to_string(),
        owner: "data_team".to_string(),
        dataset: DatasetDescription {
            name: "events".to_string(),
            description: "Customer activity events".to_string(),
            owner_team: "data".to_string(),
            freshness_sla: Some("hourly".to_string()),
            availability_sla: Some(99_900),
        },
        schema: SchemaDefinition {
            columns: vec![ColumnDefinition {
                name: "customer_id".to_string(),
                data_type: "string".to_string(),
                required: true,
                description: Some("Unique customer ID".to_string()),
                valid_values: None,
                null_percentage_warning: None,
            }],
            primary_key: Some(vec!["customer_id".to_string()]),
            partition_by: Some(vec!["date".to_string()]),
        },
        sla: Some(ServiceLevelAgreement {
            freshness_sla_minutes: Some(60),
            availability_target_percent: Some(99_900),
            max_acceptable_latency_seconds: Some(300),
            max_acceptable_error_rate_percent: Some(100),
        }),
    };
    assert_eq!(contract.id, "contract_1");
    assert!(contract.sla.is_some());
}

#[test]
fn test_finops_dashboard() {
    let dashboard = FinOpsDashboard {
        organization_id: "org_1".to_string(),
        period: "month".to_string(),
        total_cost: 50_000_000,
        cost_by_team: vec![
            ("data_eng".to_string(), 25_000_000),
            ("analytics".to_string(), 25_000_000),
        ],
        cost_by_pipeline: vec![],
        cost_by_framework: vec![("Beam".to_string(), 30_000_000), ("Spark".to_string(), 20_000_000)],
        cost_trends: vec![],
        optimization_opportunities: vec![],
    };
    assert_eq!(dashboard.total_cost, 50_000_000);
    assert_eq!(dashboard.cost_by_framework.len(), 2);
}

#[test]
fn test_default_matches_previously_hardcoded_values() {
    let rules = RulesConfig::default_rules();
    assert!(rules.hotkey.high_risk_patterns.contains(&"customer".to_string()));
    assert_eq!(rules.hotkey.low_cardinality_threshold, 1_000);
    assert_eq!(rules.cost.dataflow_shuffle_cost_per_gb, 300);
    assert_eq!(rules.spark_join.broadcast_threshold_high_risk_bytes, 1_073_741_824);
    assert_eq!(rules.state.large_measured_state_size_milli_gb, 500_000);
}

#[test]
fn budget_and_reliability_checks_without_limits_always_pass() {
    let o = org(None, None, true);
    assert!(o.is_cost_within_budget(i64::MAX));
    assert!(o.is_reliability_acceptable(i64::MIN));
    assert!(!o.should_block_deployment(i64::MAX, 0));
}

#[test]
fn limits_that_are_not_enforced_never_block() {
    let o = org(Some(1_000), Some(90_000), false);
    assert!(!o.is_cost_within_budget(2_000));
    assert!(!o.is_reliability_acceptable(10_000));
    assert!(!o.should_block_deployment(2_000, 10_000));
}

#[test]
fn budget_boundary_is_inclusive() {
    let o = org(Some(5_000_000), Some(70_000), true);
    assert!(o.is_cost_within_budget(5_000_000));
    assert!(!o.is_cost_within_budget(5_000_001));
    assert!(o.is_reliability_acceptable(70_000));
    assert!(!o.is_reliability_acceptable(69_999));
}
