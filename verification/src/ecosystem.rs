//! Data exchanged with neighbouring tools: Airflow, dbt, data contracts,
//! anomaly detection, FinOps dashboards and the community library.
//!
//! Fractional amounts are thousandths (costs in thousandths of a dollar,
//! percentages and scores in thousandths of a point).  Maps are lists of
//! key and value pairs.
use vstd::prelude::*;

verus! {

/// An Airflow task that launches a Beam pipeline.
pub struct AirflowPipelineContext {
    pub dag_id: String,
    pub task_id: String,
    /// `BashOperator`, `DataflowTemplateOperator`, ...
    pub operator_type: String,
    pub dataflow_job_config: Option<DataflowJobConfig>,
    pub beam_pipeline_path: Option<String>,
}

/// A Dataflow job's settings.
pub struct DataflowJobConfig {
    pub project_id: String,
    pub region: String,
    pub worker_machine_type: String,
    pub max_workers: u32,
    pub network: Option<String>,
    pub subnetwork: Option<String>,
    pub enable_streaming_engine: bool,
}

/// A dbt manifest: nodes by id, and metadata.
pub struct DbtManifest {
    pub nodes: Vec<(String, DbtNode)>,
    pub metadata: DbtMetadata,
}

/// A dbt node (model, test, macro, ...).
pub struct DbtNode {
    pub name: String,
    pub resource_type: String,
    pub database: String,
    pub schema: String,
    /// `table`, `view`, `ephemeral`, `incremental`.
    pub materialization: Option<String>,
    pub depends_on: Vec<String>,
    pub tags: Vec<String>,
    pub meta: Vec<(String, String)>,
}

/// A dbt manifest's metadata.
pub struct DbtMetadata {
    pub dbt_version: String,
    pub generated_at: String,
    pub invocation_id: String,
}

/// The cost of a dbt project's transformations.
pub struct DbtCostAnalysis {
    /// Total cost, in thousandths of a dollar.
    pub total_transformation_cost: i64,
    /// Cost per model, in thousandths of a dollar.
    pub cost_per_model: Vec<(String, i64)>,
    pub materialization_recommendations: Vec<MaterializationRecommendation>,
    pub incremental_optimization_opportunities: Vec<String>,
}

/// A suggested change of materialization for a model.
pub struct MaterializationRecommendation {
    pub model_name: String,
    pub current_materialization: String,
    pub recommended_materialization: String,
    /// Savings, in thousandths of a dollar.
    pub estimated_cost_savings: i64,
    pub reasoning: String,
}

/// A data contract: the dataset, its schema and its service levels.
pub struct DataContract {
    pub id: String,
    pub name: String,
    pub owner: String,
    pub dataset: DatasetDescription,
    pub schema: SchemaDefinition,
    pub sla: Option<ServiceLevelAgreement>,
}

/// What a dataset is and who owns it.
pub struct DatasetDescription {
    pub name: String,
    pub description: String,
    pub owner_team: String,
    /// `daily`, `hourly`, `real-time`.
    pub freshness_sla: Option<String>,
    /// Availability in thousandths of a percent (99.9% is 99_900).
    pub availability_sla: Option<i64>,
}

/// A dataset's columns and keys.
pub struct SchemaDefinition {
    pub columns: Vec<ColumnDefinition>,
    pub primary_key: Option<Vec<String>>,
    pub partition_by: Option<Vec<String>>,
}

/// One column of a schema.
pub struct ColumnDefinition {
    pub name: String,
    pub data_type: String,
    pub required: bool,
    pub description: Option<String>,
    pub valid_values: Option<Vec<String>>,
    /// Null share that triggers a warning, in thousandths of a percent.
    pub null_percentage_warning: Option<i64>,
}

/// Service levels of a dataset.
pub struct ServiceLevelAgreement {
    pub freshness_sla_minutes: Option<u32>,
    /// Availability target, in thousandths of a percent.
    pub availability_target_percent: Option<i64>,
    pub max_acceptable_latency_seconds: Option<u32>,
    /// Error-rate limit, in thousandths of a percent.
    pub max_acceptable_error_rate_percent: Option<i64>,
}

/// Settings of cost and latency anomaly detection.
pub struct AnomalyDetectionConfig {
    pub enabled: bool,
    /// Sensitivity in thousandths (0.1 is 100, 1.0 is 1000).
    pub sensitivity: i64,
    pub lookback_days: u32,
    /// `cost`, `latency`, `error_rate`, ...
    pub metrics_to_monitor: Vec<String>,
}

/// An anomaly found in a metric.
pub struct DetectedAnomaly {
    pub id: String,
    pub metric: String,
    /// `low`, `medium`, `high`.
    pub severity: String,
    pub timestamp: String,
    /// Baseline, in thousandths.
    pub baseline_value: i64,
    /// Observed value, in thousandths.
    pub observed_value: i64,
    /// Deviation, in thousandths of a percent.
    pub deviation_percent: i64,
    pub possible_causes: Vec<String>,
}

/// An organisation's cost dashboard for a period.
pub struct FinOpsDashboard {
    pub organization_id: String,
    /// `month`, `quarter`, `year`.
    pub period: String,
    /// Total cost, in thousandths of a dollar.
    pub total_cost: i64,
    pub cost_by_team: Vec<(String, i64)>,
    pub cost_by_pipeline: Vec<(String, i64)>,
    pub cost_by_framework: Vec<(String, i64)>,
    pub cost_trends: Vec<CostTrend>,
    pub optimization_opportunities: Vec<OptimizationOpportunity>,
}

/// The cost on one date and where it is heading.
pub struct CostTrend {
    pub date: String,
    /// Cost, in thousandths of a dollar.
    pub cost: i64,
    /// `up`, `down`, `flat`.
    pub trend_direction: String,
    /// Change, in thousandths of a percent.
    pub month_over_month_percent_change: Option<i64>,
}

/// A way to save money on a pipeline.
pub struct OptimizationOpportunity {
    pub pipeline_id: String,
    /// `hot_key_sharding`, `reduce_shuffle`, ...
    pub opportunity_type: String,
    /// Savings per month, in thousandths of a dollar.
    pub potential_savings_monthly: i64,
    pub implementation_effort_hours: u32,
    /// Return on investment, in thousandths.
    pub roi_multiplier: i64,
}

/// The community's collection of Beam practices.
pub struct BeamBestPracticeLibrary {
    pub practices: Vec<BeamBestPractice>,
}

/// One Beam practice, with an example and the anti-pattern it replaces.
pub struct BeamBestPractice {
    pub id: String,
    pub title: String,
    pub description: String,
    /// `performance`, `reliability`, `cost`, `scalability`.
    pub category: String,
    pub code_example: String,
    pub anti_pattern: String,
    pub estimated_impact: String,
    /// `easy`, `medium`, `hard`.
    pub difficulty_level: String,
    pub tags: Vec<String>,
    pub contributed_by: Option<String>,
    pub community_votes: u32,
}

/// An engineer certified on Beam.
pub struct CertifiedBeamEngineer {
    pub user_id: String,
    pub name: String,
    pub certification_date: String,
    /// `streaming`, `batch`, `cost_optimization`, ...
    pub expertise_areas: Vec<String>,
    pub pipelines_reviewed: u32,
    pub community_contributions: u32,
}

/// The community forum: posts and discussions.
pub struct CommunityForum {
    pub posts: Vec<CommunityPost>,
    pub discussions: Vec<CommunityDiscussion>,
}

/// A forum post.
pub struct CommunityPost {
    pub id: String,
    pub title: String,
    pub author: String,
    pub content: String,
    pub tags: Vec<String>,
    pub created_at: String,
    pub upvotes: u32,
    pub solved: bool,
}

/// A forum discussion.
pub struct CommunityDiscussion {
    pub id: String,
    pub topic: String,
    pub initiated_by: String,
    pub participants: Vec<String>,
    pub messages: Vec<String>,
    pub resolution: Option<String>,
}

} // verus!
