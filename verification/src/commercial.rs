//! Organisation governance: budgets, reliability gates, teams, policies and
//! audit records.  Every feature is available to every organisation.
//!
//! Amounts are thousandths: costs in thousandths of a dollar, scores and
//! percentages in thousandths of a point.
use vstd::prelude::*;

verus! {

/// An organisation's governance settings.
pub struct OrganizationConfig {
    pub org_id: String,
    pub org_name: String,
    /// Monthly budget, in thousandths of a dollar.
    pub cost_budget_per_month: Option<i64>,
    /// Minimum acceptable reliability score (0-100), in thousandths.
    pub reliability_slo_score: Option<i64>,
    /// Minimum acceptable performance score, in thousandths.
    pub performance_slo_score: Option<i64>,
    pub enforce_dlq_requirement: bool,
    pub enforce_error_handling: bool,
    pub enforce_cost_limits: bool,
    pub enforce_reliability_gates: bool,
    pub teams: Vec<TeamConfig>,
    pub audit_log_enabled: bool,
}

/// A team, its budget and what it owns.
pub struct TeamConfig {
    pub team_id: String,
    pub team_name: String,
    /// Budget, in thousandths of a dollar.
    pub cost_budget: Option<i64>,
    pub members: Vec<String>,
    pub pipelines: Vec<String>,
}

/// A named set of policy rules.
pub struct GovernancePolicy {
    pub id: String,
    pub name: String,
    pub description: String,
    pub rules: Vec<PolicyRule>,
}

/// A policy rule: a kind (`cost_limit`, `reliability_gate`,
/// `deployment_standard`), a threshold and what to do when it is crossed.
pub struct PolicyRule {
    pub rule_type: String,
    /// Threshold, in thousandths.
    pub threshold: i64,
    pub action: PolicyAction,
}

/// What a crossed policy rule does.
#[derive(Debug, Clone, Copy, PartialEq, Eq, Structural)]
pub enum PolicyAction {
    Warn,
    Block,
    RequireApproval,
}

/// One audited action.
pub struct AuditLog {
    pub id: String,
    pub timestamp: String,
    pub org_id: String,
    pub action: String,
    pub resource: String,
    pub user_id: String,
    /// Detail keys and values.
    pub details: Vec<(String, String)>,
}

/// A pipeline's cost charged to a team.
pub struct CostAttribution {
    pub pipeline_id: String,
    pub team_id: String,
    /// Monthly cost, in thousandths of a dollar.
    pub estimated_monthly_cost: i64,
    /// Cost per category, in thousandths of a dollar.
    pub cost_breakdown: Vec<(String, i64)>,
    /// Remaining budget, in thousandths of a dollar.
    pub budget_remaining: Option<i64>,
    /// Budget used, in thousandths of a percent.
    pub budget_utilization_percent: Option<i64>,
}

/// The cost is within the monthly budget (always, without a budget).
pub open spec fn within_budget(c: OrganizationConfig, cost: i64) -> bool {
    match c.cost_budget_per_month {
        Some(b) => cost <= b,
        None => true,
    }
}

/// The score meets the reliability objective (always, without one).
pub open spec fn reliability_ok(c: OrganizationConfig, score: i64) -> bool {
    match c.reliability_slo_score {
        Some(m) => score >= m,
        None => true,
    }
}

/// A deployment is blocked when an enforced cost limit or an enforced
/// reliability gate fails.
pub open spec fn blocks(c: OrganizationConfig, cost: i64, score: i64) -> bool {
    (c.enforce_cost_limits && !within_budget(c, cost)) || (c.enforce_reliability_gates
        && !reliability_ok(c, score))
}

impl OrganizationConfig {
    /// Whether a feature is available: every feature is, to everyone.
    pub fn can_use_feature(&self, feature: &str) -> (r: bool)
        ensures
            r,
    {
        true
    }

    /// Whether a monthly cost (thousandths of a dollar) is within budget.
    pub fn is_cost_within_budget(&self, estimated_cost: i64) -> (r: bool)
        ensures
            r == within_budget(*self, estimated_cost),
    {
        match self.cost_budget_per_month {
            Some(budget) => estimated_cost <= budget,
            None => true,
        }
    }

    /// Whether a reliability score (thousandths) meets the objective.
    pub fn is_reliability_acceptable(&self, score: i64) -> (r: bool)
        ensures
            r == reliability_ok(*self, score),
    {
        match self.reliability_slo_score {
            Some(min_score) => score >= min_score,
            None => true,
        }
    }

    /// Whether a deployment with this cost and reliability score must be
    /// blocked (see [`blocks`]).
    pub fn should_block_deployment(&self, estimated_cost: i64, reliability_score: i64) -> (r: bool)
        ensures
            r == blocks(*self, estimated_cost, reliability_score),
    {
        if self.enforce_cost_limits && !self.is_cost_within_budget(estimated_cost) {
            return true;
        }
        if self.enforce_reliability_gates && !self.is_reliability_acceptable(reliability_score) {
            return true;
        }
        false
    }
}

} // verus!
