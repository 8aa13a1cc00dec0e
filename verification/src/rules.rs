//! Rule data of the analyzers (risk-pattern keyword lists, cost rates,
//! cardinality and size thresholds), with built-in defaults that any rules
//! document may override field by field.
use vstd::prelude::*;

verus! {

/// The keywords that suggest a high-cardinality-variance key domain.
pub open spec fn default_high_risk_patterns() -> Seq<Seq<char>> {
    seq![
        "customer"@,
        "tenant"@,
        "org"@,
        "account"@,
        "user"@,
        "organization"@,
        "client"@,
        "partner"@,
        "company"@,
    ]
}

/// The keywords that suggest a time-based key domain.
pub open spec fn default_medium_risk_patterns() -> Seq<Seq<char>> {
    seq!["hour"@, "day"@, "date"@, "month"@, "timestamp"@]
}

/// The texts of a list of strings.
pub open spec fn pattern_texts(v: Seq<String>) -> Seq<Seq<char>> {
    v.map_values(|s: String| s@)
}

/// Builds a list of strings from literals.
fn strings(lits: &[&str]) -> (v: Vec<String>)
    ensures
        pattern_texts(v@) == lits@.map_values(|s: &str| s@),
{
    let mut v: Vec<String> = Vec::new();
    let mut i: usize = 0;
    while i < lits.len()
        invariant
            i <= lits@.len(),
            pattern_texts(v@) =~= lits@.take(i as int).map_values(|s: &str| s@),
        decreases lits@.len() - i,
    {
        let ghost old_v = v@;
        let s = String::from_str(lits[i]);
        v.push(s);
        proof {
            assert(lits@.take(i + 1) =~= lits@.take(i as int).push(lits@[i as int]));
            assert(pattern_texts(v@) =~= pattern_texts(old_v).push(s@));
        }
        i = i + 1;
    }
    proof {
        assert(lits@.take(lits@.len() as int) =~= lits@);
    }
    v
}

fn high_risk_list() -> (v: Vec<String>)
    ensures
        pattern_texts(v@) == default_high_risk_patterns(),
{
    let lits: [&str; 9] = [
        "customer",
        "tenant",
        "org",
        "account",
        "user",
        "organization",
        "client",
        "partner",
        "company",
    ];
    let v = strings(&lits);
    proof {
        assert(pattern_texts(v@) =~= default_high_risk_patterns());
    }
    v
}

fn medium_risk_list() -> (v: Vec<String>)
    ensures
        pattern_texts(v@) == default_medium_risk_patterns(),
{
    let lits: [&str; 5] = ["hour", "day", "date", "month", "timestamp"];
    let v = strings(&lits);
    proof {
        assert(pattern_texts(v@) =~= default_medium_risk_patterns());
    }
    v
}

/// Hot-key rule data.
pub struct HotKeyRules {
    /// Key-expression substrings that suggest a high-cardinality-variance
    /// key domain (checked as a case-insensitive substring match).
    pub high_risk_patterns: Vec<String>,
    /// Key-expression substrings that suggest a time-based key domain.
    pub medium_risk_patterns: Vec<String>,
    /// A measured key cardinality strictly below this is critical.
    pub low_cardinality_threshold: u64,
    /// A measured key cardinality at or above this downgrades a high-risk
    /// pattern match from High to Medium.
    pub high_cardinality_downgrade_threshold: u64,
}

/// The mathematical content of [`HotKeyRules`].
pub struct HotKeyRulesView {
    pub high_risk_patterns: Seq<Seq<char>>,
    pub medium_risk_patterns: Seq<Seq<char>>,
    pub low_cardinality_threshold: u64,
    pub high_cardinality_downgrade_threshold: u64,
}

impl View for HotKeyRules {
    type V = HotKeyRulesView;

    open spec fn view(&self) -> HotKeyRulesView {
        HotKeyRulesView {
            high_risk_patterns: pattern_texts(self.high_risk_patterns@),
            medium_risk_patterns: pattern_texts(self.medium_risk_patterns@),
            low_cardinality_threshold: self.low_cardinality_threshold,
            high_cardinality_downgrade_threshold: self.high_cardinality_downgrade_threshold,
        }
    }
}

/// A copy of a list of strings.
pub fn copy_strings(v: &Vec<String>) -> (r: Vec<String>)
    ensures
        pattern_texts(r@) == pattern_texts(v@),
{
    let mut r: Vec<String> = Vec::new();
    let mut i: usize = 0;
    while i < v.len()
        invariant
            i <= v@.len(),
            pattern_texts(r@) =~= pattern_texts(v@).take(i as int),
        decreases v@.len() - i,
    {
        let ghost old_r = r@;
        let s = v[i].clone();
        r.push(s);
        proof {
            assert(pattern_texts(r@) =~= pattern_texts(old_r).push(v@[i as int]@));
        }
        i = i + 1;
    }
    proof {
        assert(pattern_texts(v@).take(v@.len() as int) =~= pattern_texts(v@));
    }
    r
}

impl HotKeyRules {
    /// A copy of these rules.
    pub fn copy(&self) -> (r: HotKeyRules)
        ensures
            r@ == self@,
    {
        HotKeyRules {
            high_risk_patterns: copy_strings(&self.high_risk_patterns),
            medium_risk_patterns: copy_strings(&self.medium_risk_patterns),
            low_cardinality_threshold: self.low_cardinality_threshold,
            high_cardinality_downgrade_threshold: self.high_cardinality_downgrade_threshold,
        }
    }

    /// The built-in hot-key rules.
    pub fn default_rules() -> (r: HotKeyRules)
        ensures
            pattern_texts(r.high_risk_patterns@) == default_high_risk_patterns(),
            pattern_texts(r.medium_risk_patterns@) == default_medium_risk_patterns(),
            r.low_cardinality_threshold == 1_000,
            r.high_cardinality_downgrade_threshold == 100_000,
    {
        HotKeyRules {
            high_risk_patterns: high_risk_list(),
            medium_risk_patterns: medium_risk_list(),
            low_cardinality_threshold: 1_000,
            high_cardinality_downgrade_threshold: 100_000,
        }
    }
}

/// Cost rates, in thousandths of a dollar.
#[derive(Debug, Clone, Copy, PartialEq, Eq, Structural)]
pub struct CostRules {
    /// Shuffle cost per GB (0.30 dollars is 300).
    pub dataflow_shuffle_cost_per_gb: u64,
    /// Worker cost per hour (0.35 dollars is 350).
    pub worker_machine_cost_per_hour: u64,
    /// Persistent-disk cost per GB-month (0.04 dollars is 40).
    pub persistent_disk_cost_per_gb_month: u64,
}

impl CostRules {
    /// The built-in cost rates.
    pub fn default_rules() -> (r: CostRules)
        ensures
            r == (CostRules {
                dataflow_shuffle_cost_per_gb: 300,
                worker_machine_cost_per_hour: 350,
                persistent_disk_cost_per_gb_month: 40,
            }),
    {
        CostRules {
            dataflow_shuffle_cost_per_gb: 300,
            worker_machine_cost_per_hour: 350,
            persistent_disk_cost_per_gb_month: 40,
        }
    }
}

/// Spark join rule data.
pub struct SparkJoinRules {
    /// Column-name substrings that suggest a high-cardinality join key.
    pub high_risk_patterns: Vec<String>,
    /// An `autoBroadcastJoinThreshold` above this (bytes) is excessive.
    pub broadcast_threshold_high_risk_bytes: i64,
    /// A measured join-key cardinality strictly below this is critical.
    pub low_cardinality_threshold: u64,
    /// A measured join-key cardinality at or above this downgrades a
    /// high-risk pattern match from High to Medium.
    pub high_cardinality_downgrade_threshold: u64,
}

/// The mathematical content of [`SparkJoinRules`].
pub struct SparkJoinRulesView {
    pub high_risk_patterns: Seq<Seq<char>>,
    pub broadcast_threshold_high_risk_bytes: i64,
    pub low_cardinality_threshold: u64,
    pub high_cardinality_downgrade_threshold: u64,
}

impl View for SparkJoinRules {
    type V = SparkJoinRulesView;

    open spec fn view(&self) -> SparkJoinRulesView {
        SparkJoinRulesView {
            high_risk_patterns: pattern_texts(self.high_risk_patterns@),
            broadcast_threshold_high_risk_bytes: self.broadcast_threshold_high_risk_bytes,
            low_cardinality_threshold: self.low_cardinality_threshold,
            high_cardinality_downgrade_threshold: self.high_cardinality_downgrade_threshold,
        }
    }
}

impl SparkJoinRules {
    /// A copy of these rules.
    pub fn copy(&self) -> (r: SparkJoinRules)
        ensures
            r@ == self@,
    {
        SparkJoinRules {
            high_risk_patterns: copy_strings(&self.high_risk_patterns),
            broadcast_threshold_high_risk_bytes: self.broadcast_threshold_high_risk_bytes,
            low_cardinality_threshold: self.low_cardinality_threshold,
            high_cardinality_downgrade_threshold: self.high_cardinality_downgrade_threshold,
        }
    }

    /// The built-in Spark join rules.
    pub fn default_rules() -> (r: SparkJoinRules)
        ensures
            pattern_texts(r.high_risk_patterns@) == default_high_risk_patterns(),
            r.broadcast_threshold_high_risk_bytes == 1_073_741_824,
            r.low_cardinality_threshold == 1_000,
            r.high_cardinality_downgrade_threshold == 100_000,
    {
        SparkJoinRules {
            high_risk_patterns: high_risk_list(),
            broadcast_threshold_high_risk_bytes: 1_073_741_824,
            low_cardinality_threshold: 1_000,
            high_cardinality_downgrade_threshold: 100_000,
        }
    }
}

/// State rule data.
#[derive(Debug, Clone, Copy, PartialEq, Eq, Structural)]
pub struct StateRules {
    /// A measured state size at or above this (thousandths of a GB) is
    /// flagged as large.
    pub large_measured_state_size_milli_gb: u64,
}

impl StateRules {
    /// The built-in state rules (500 GB).
    pub fn default_rules() -> (r: StateRules)
        ensures
            r.large_measured_state_size_milli_gb == 500_000,
    {
        StateRules { large_measured_state_size_milli_gb: 500_000 }
    }
}

/// The rule data of all analyzers.
pub struct RulesConfig {
    pub hotkey: HotKeyRules,
    pub cost: CostRules,
    pub spark_join: SparkJoinRules,
    pub state: StateRules,
}

/// The built-in hot-key rules, as values.
pub open spec fn default_hotkey_view() -> HotKeyRulesView {
    HotKeyRulesView {
        high_risk_patterns: default_high_risk_patterns(),
        medium_risk_patterns: default_medium_risk_patterns(),
        low_cardinality_threshold: 1_000,
        high_cardinality_downgrade_threshold: 100_000,
    }
}

/// The built-in Spark join rules, as values.
pub open spec fn default_spark_join_view() -> SparkJoinRulesView {
    SparkJoinRulesView {
        high_risk_patterns: default_high_risk_patterns(),
        broadcast_threshold_high_risk_bytes: 1_073_741_824,
        low_cardinality_threshold: 1_000,
        high_cardinality_downgrade_threshold: 100_000,
    }
}

/// All rules are the built-in ones.
pub open spec fn is_default_rules(r: RulesConfig) -> bool {
    &&& pattern_texts(r.hotkey.high_risk_patterns@) == default_high_risk_patterns()
    &&& pattern_texts(r.hotkey.medium_risk_patterns@) == default_medium_risk_patterns()
    &&& r.hotkey.low_cardinality_threshold == 1_000
    &&& r.hotkey.high_cardinality_downgrade_threshold == 100_000
    &&& r.cost == (CostRules {
        dataflow_shuffle_cost_per_gb: 300,
        worker_machine_cost_per_hour: 350,
        persistent_disk_cost_per_gb_month: 40,
    })
    &&& pattern_texts(r.spark_join.high_risk_patterns@) == default_high_risk_patterns()
    &&& r.spark_join.broadcast_threshold_high_risk_bytes == 1_073_741_824
    &&& r.spark_join.low_cardinality_threshold == 1_000
    &&& r.spark_join.high_cardinality_downgrade_threshold == 100_000
    &&& r.state.large_measured_state_size_milli_gb == 500_000
}

impl RulesConfig {
    /// The built-in rules of every analyzer.
    pub fn default_rules() -> (r: RulesConfig)
        ensures
            is_default_rules(r),
    {
        RulesConfig {
            hotkey: HotKeyRules::default_rules(),
            cost: CostRules::default_rules(),
            spark_join: SparkJoinRules::default_rules(),
            state: StateRules::default_rules(),
        }
    }
}

} // verus!
