//! The pipeline intermediate representation: transform nodes, the edges
//! between them, and deployment metadata.
use crate::text::{str_eq, contains};
use vstd::prelude::*;

verus! {

/// A configuration value attached to a node (the JSON shapes the parsers
/// record: null, booleans, integers and strings).
pub enum ConfigValue {
    Null,
    Bool(bool),
    /// A non-negative integer.
    UInt(u64),
    /// A negative integer.
    NegInt(i64),
    Str(String),
}

/// One key of a node's configuration.
pub struct ConfigEntry {
    pub key: String,
    pub value: ConfigValue,
}

/// A node's configuration: keys with values, looked up by key.
pub struct NodeConfig {
    pub entries: Vec<ConfigEntry>,
}

/// The value stored under `key` (first entry with that key), if any.
pub open spec fn config_lookup(e: Seq<ConfigEntry>, key: Seq<char>) -> Option<ConfigValue>
    decreases e.len(),
{
    if e.len() == 0 {
        None
    } else if e[0].key@ == key {
        Some(e[0].value)
    } else {
        config_lookup(e.drop_first(), key)
    }
}

/// `Value::as_u64`: a non-negative integer.
pub open spec fn value_u64(v: Option<ConfigValue>) -> Option<u64> {
    match v {
        Some(ConfigValue::UInt(n)) => Some(n),
        _ => None,
    }
}

/// `Value::as_i64`: an integer that fits in an `i64`.
pub open spec fn value_i64(v: Option<ConfigValue>) -> Option<i64> {
    match v {
        Some(ConfigValue::UInt(n)) => if n <= i64::MAX {
            Some(n as i64)
        } else {
            None
        },
        Some(ConfigValue::NegInt(n)) => Some(n),
        _ => None,
    }
}

/// `Value::as_bool`.
pub open spec fn value_bool(v: Option<ConfigValue>) -> Option<bool> {
    match v {
        Some(ConfigValue::Bool(b)) => Some(b),
        _ => None,
    }
}

/// `Value::as_str`.
pub open spec fn value_str(v: Option<ConfigValue>) -> Option<Seq<char>> {
    match v {
        Some(ConfigValue::Str(s)) => Some(s@),
        _ => None,
    }
}

impl NodeConfig {
    /// An empty configuration.
    pub fn new() -> (c: NodeConfig)
        ensures
            c.entries@.len() == 0,
    {
        NodeConfig { entries: Vec::new() }
    }

    /// Appends `key` with `value`.
    pub fn with(self, key: &str, value: ConfigValue) -> (c: NodeConfig)
        ensures
            c.entries@ == self.entries@.push(ConfigEntry { key: c.entries@.last().key, value }),
            c.entries@.last().key@ == key@,
    {
        let mut entries = self.entries;
        entries.push(ConfigEntry { key: String::from_str(key), value });
        NodeConfig { entries }
    }

    /// Position of the first entry with key `key`.
    fn position(&self, key: &str) -> (r: Option<usize>)
        ensures
            r matches Some(i) ==> i < self.entries@.len() && config_lookup(self.entries@, key@)
                == Some(self.entries@[i as int].value),
            r is None ==> config_lookup(self.entries@, key@) is None,
    {
        let mut i: usize = 0;
        proof {
            assert(self.entries@.skip(0) =~= self.entries@);
        }
        while i < self.entries.len()
            invariant
                i <= self.entries@.len(),
                config_lookup(self.entries@, key@) == config_lookup(
                    self.entries@.skip(i as int),
                    key@,
                ),
            decreases self.entries@.len() - i,
        {
            let ghost rest = self.entries@.skip(i as int);
            proof {
                assert(rest.drop_first() =~= self.entries@.skip(i + 1));
                assert(rest[0] == self.entries@[i as int]);
            }
            if str_eq(self.entries[i].key.as_str(), key) {
                return Some(i);
            }
            i = i + 1;
        }
        None
    }

    /// The non-negative integer under `key` (`get(key).and_then(as_u64)`).
    pub fn get_u64(&self, key: &str) -> (r: Option<u64>)
        ensures
            r == value_u64(config_lookup(self.entries@, key@)),
    {
        match self.position(key) {
            Some(i) => match &self.entries[i].value {
                ConfigValue::UInt(n) => Some(*n),
                _ => None,
            },
            None => None,
        }
    }

    /// The integer under `key` (`get(key).and_then(as_i64)`).
    pub fn get_i64(&self, key: &str) -> (r: Option<i64>)
        ensures
            r == value_i64(config_lookup(self.entries@, key@)),
    {
        match self.position(key) {
            Some(i) => match &self.entries[i].value {
                ConfigValue::UInt(n) => if *n <= i64::MAX as u64 {
                    Some(*n as i64)
                } else {
                    None
                },
                ConfigValue::NegInt(n) => Some(*n),
                _ => None,
            },
            None => None,
        }
    }

    /// The boolean under `key` (`get(key).and_then(as_bool)`).
    pub fn get_bool(&self, key: &str) -> (r: Option<bool>)
        ensures
            r == value_bool(config_lookup(self.entries@, key@)),
    {
        match self.position(key) {
            Some(i) => match &self.entries[i].value {
                ConfigValue::Bool(b) => Some(*b),
                _ => None,
            },
            None => None,
        }
    }

    /// The string under `key` (`get(key).and_then(as_str)`).
    pub fn get_str(&self, key: &str) -> (r: Option<String>)
        ensures
            opt_str_view(r) == value_str(config_lookup(self.entries@, key@)),
    {
        match self.position(key) {
            Some(i) => match &self.entries[i].value {
                ConfigValue::Str(s) => Some(s.clone()),
                _ => None,
            },
            None => None,
        }
    }
}

/// The text of an optional string.
pub open spec fn opt_str_view(o: Option<String>) -> Option<Seq<char>> {
    match o {
        Some(s) => Some(s@),
        None => None,
    }
}

/// The execution engine a pipeline targets.
#[derive(Debug, Clone, Copy, PartialEq, Eq, Structural)]
pub enum Runner {
    Direct,
    Dataflow,
    Spark,
    Flink,
    Unknown,
}

/// Worker and autoscaling settings of a deployment.
pub struct DeploymentConfig {
    pub worker_machine_type: Option<String>,
    pub min_workers: Option<u64>,
    pub max_workers: Option<u64>,
    pub streaming_engine: Option<bool>,
    pub region: Option<String>,
    pub autoscaling_algorithm: Option<String>,
}

/// A hint about the runtime, stored as a key and a value.
pub struct RunnerHint {
    pub key: String,
    pub value: String,
}

/// Pipeline-level metadata.
pub struct PipelineMetadata {
    pub runner: Option<Runner>,
    pub deployment_config: Option<DeploymentConfig>,
    /// Runner hints; a key occurs at most once when set through
    /// [`PipelineIR::set_runner_hint`].
    pub runner_hints: Vec<RunnerHint>,
}

/// The value of runner hint `key` (first occurrence), if any.
pub open spec fn hint_lookup(h: Seq<RunnerHint>, key: Seq<char>) -> Option<Seq<char>>
    decreases h.len(),
{
    if h.len() == 0 {
        None
    } else if h[0].key@ == key {
        Some(h[0].value@)
    } else {
        hint_lookup(h.drop_first(), key)
    }
}

/// A directed edge carrying a collection from one node to another.
pub struct Edge {
    pub from: String,
    pub to: String,
    pub pcollection_name: String,
}

/// What a transform does.
pub enum TransformType {
    Source { source_type: String },
    ParDo { dofn_name: String, is_stateful: bool, has_side_inputs: bool, has_side_outputs: bool },
    GroupByKey { key_expr: Option<String> },
    CoGroupByKey { key_expr: Option<String> },
    Flatten,
    Partition,
    Windowing {
        window_type: String,
        duration_sec: Option<u64>,
        trigger: Option<String>,
        allowed_lateness_sec: Option<u64>,
        accumulation_mode: Option<String>,
    },
    CombinePerKey { combine_fn: String },
    Sink { sink_type: String },
    Custom(String),
}

/// The transform shuffles data between workers.
pub open spec fn is_shuffle(t: TransformType) -> bool {
    t is GroupByKey || t is CoGroupByKey || t is CombinePerKey
}

/// The transform is a stateful `ParDo`.
pub open spec fn is_stateful_pardo(t: TransformType) -> bool {
    match t {
        TransformType::ParDo { is_stateful, .. } => is_stateful,
        _ => false,
    }
}

impl TransformType {
    /// Whether this transform triggers a shuffle (GroupByKey, CoGroupByKey,
    /// CombinePerKey).
    pub fn is_shuffle_operation(&self) -> (r: bool)
        ensures
            r == is_shuffle(*self),
    {
        match self {
            TransformType::GroupByKey { .. } => true,
            TransformType::CoGroupByKey { .. } => true,
            TransformType::CombinePerKey { .. } => true,
            _ => false,
        }
    }

    /// Whether this transform is a stateful ParDo.
    pub fn is_stateful(&self) -> (r: bool)
        ensures
            r == is_stateful_pardo(*self),
    {
        match self {
            TransformType::ParDo { is_stateful, .. } => *is_stateful,
            _ => false,
        }
    }
}

/// One transform of a pipeline.
pub struct TransformNode {
    pub id: String,
    pub name: String,
    pub node_type: TransformType,
    pub inputs: Vec<String>,
    pub outputs: Vec<String>,
    pub config: NodeConfig,
    pub annotations: Vec<String>,
    pub line_number: Option<usize>,
}

/// A pipeline: its nodes, the edges between them, and metadata.
pub struct PipelineIR {
    pub id: String,
    pub name: String,
    pub nodes: Vec<TransformNode>,
    pub edges: Vec<Edge>,
    pub metadata: PipelineMetadata,
}

/// The mathematical content of a [`ConfigValue`].
pub enum ConfigValueView {
    Null,
    Bool(bool),
    UInt(u64),
    NegInt(i64),
    Str(Seq<char>),
}

impl View for ConfigValue {
    type V = ConfigValueView;

    open spec fn view(&self) -> ConfigValueView {
        match self {
            ConfigValue::Null => ConfigValueView::Null,
            ConfigValue::Bool(b) => ConfigValueView::Bool(*b),
            ConfigValue::UInt(n) => ConfigValueView::UInt(*n),
            ConfigValue::NegInt(n) => ConfigValueView::NegInt(*n),
            ConfigValue::Str(s) => ConfigValueView::Str(s@),
        }
    }
}

/// The (key, value) contents of configuration entries.
pub open spec fn config_view(e: Seq<ConfigEntry>) -> Seq<(Seq<char>, ConfigValueView)> {
    e.map_values(|x: ConfigEntry| (x.key@, x.value@))
}

/// The mathematical content of a [`TransformType`].
pub enum TransformTypeView {
    Source { source_type: Seq<char> },
    ParDo { dofn_name: Seq<char>, is_stateful: bool, has_side_inputs: bool, has_side_outputs: bool },
    GroupByKey { key_expr: Option<Seq<char>> },
    CoGroupByKey { key_expr: Option<Seq<char>> },
    Flatten,
    Partition,
    Windowing {
        window_type: Seq<char>,
        duration_sec: Option<u64>,
        trigger: Option<Seq<char>>,
        allowed_lateness_sec: Option<u64>,
        accumulation_mode: Option<Seq<char>>,
    },
    CombinePerKey { combine_fn: Seq<char> },
    Sink { sink_type: Seq<char> },
    Custom(Seq<char>),
}

impl View for TransformType {
    type V = TransformTypeView;

    open spec fn view(&self) -> TransformTypeView {
        match self {
            TransformType::Source { source_type } => TransformTypeView::Source {
                source_type: source_type@,
            },
            TransformType::ParDo { dofn_name, is_stateful, has_side_inputs, has_side_outputs } =>
                TransformTypeView::ParDo {
                dofn_name: dofn_name@,
                is_stateful: *is_stateful,
                has_side_inputs: *has_side_inputs,
                has_side_outputs: *has_side_outputs,
            },
            TransformType::GroupByKey { key_expr } => TransformTypeView::GroupByKey {
                key_expr: opt_str_view(*key_expr),
            },
            TransformType::CoGroupByKey { key_expr } => TransformTypeView::CoGroupByKey {
                key_expr: opt_str_view(*key_expr),
            },
            TransformType::Flatten => TransformTypeView::Flatten,
            TransformType::Partition => TransformTypeView::Partition,
            TransformType::Windowing {
                window_type,
                duration_sec,
                trigger,
                allowed_lateness_sec,
                accumulation_mode,
            } => TransformTypeView::Windowing {
                window_type: window_type@,
                duration_sec: *duration_sec,
                trigger: opt_str_view(*trigger),
                allowed_lateness_sec: *allowed_lateness_sec,
                accumulation_mode: opt_str_view(*accumulation_mode),
            },
            TransformType::CombinePerKey { combine_fn } => TransformTypeView::CombinePerKey {
                combine_fn: combine_fn@,
            },
            TransformType::Sink { sink_type } => TransformTypeView::Sink { sink_type: sink_type@ },
            TransformType::Custom(k) => TransformTypeView::Custom(k@),
        }
    }
}

/// The mathematical content of a [`TransformNode`].
pub struct TransformNodeView {
    pub id: Seq<char>,
    pub name: Seq<char>,
    pub node_type: TransformTypeView,
    pub inputs: Seq<Seq<char>>,
    pub outputs: Seq<Seq<char>>,
    pub config: Seq<(Seq<char>, ConfigValueView)>,
    pub annotations: Seq<Seq<char>>,
    pub line_number: Option<usize>,
}

impl View for TransformNode {
    type V = TransformNodeView;

    open spec fn view(&self) -> TransformNodeView {
        TransformNodeView {
            id: self.id@,
            name: self.name@,
            node_type: self.node_type@,
            inputs: crate::analyzer::texts(self.inputs@),
            outputs: crate::analyzer::texts(self.outputs@),
            config: config_view(self.config.entries@),
            annotations: crate::analyzer::texts(self.annotations@),
            line_number: self.line_number,
        }
    }
}

/// The views of a sequence of nodes.
pub open spec fn node_views(v: Seq<TransformNode>) -> Seq<TransformNodeView> {
    v.map_values(|n: TransformNode| n@)
}

/// The (from, to, collection) texts of a sequence of edges.
pub open spec fn edge_views(v: Seq<Edge>) -> Seq<(Seq<char>, Seq<char>, Seq<char>)> {
    v.map_values(|e: Edge| (e.from@, e.to@, e.pcollection_name@))
}

/// A lowercase hexadecimal digit.
pub open spec fn is_lower_hex(c: char) -> bool {
    ('0' <= c && c <= '9') || ('a' <= c && c <= 'f')
}

/// The hyphenated lowercase text of a version-4 UUID: 36 characters, hyphens
/// at 8, 13, 18 and 23, lowercase hex digits elsewhere, the version digit
/// `4` at 14 and a variant digit of `8`, `9`, `a` or `b` at 19.
pub open spec fn is_uuid_v4_text(s: Seq<char>) -> bool {
    &&& s.len() == 36
    &&& s[8] == '-' && s[13] == '-' && s[18] == '-' && s[23] == '-'
    &&& forall|i: int|
        0 <= i < 36 && i != 8 && i != 13 && i != 18 && i != 23 ==> is_lower_hex(#[trigger] s[i])
    &&& s[14] == '4'
    &&& s[19] == '8' || s[19] == '9' || s[19] == 'a' || s[19] == 'b'
}

/// `uuid::Uuid::new_v4().to_string()`: a random UUID with the version and
/// variant bits set, written in the lowercase hyphenated form.  Which UUID
/// comes back depends on chance and is left unsaid.
#[verifier::external_body]
fn new_uuid() -> (r: String)
    ensures
        is_uuid_v4_text(r@),
{
    uuid::Uuid::new_v4().to_string()
}

impl PipelineIR {
    /// An empty pipeline called `name`, with a fresh random id.
    pub fn new(name: String) -> (r: PipelineIR)
        ensures
            is_uuid_v4_text(r.id@),
            r.name@ == name@,
            r.nodes@.len() == 0,
            r.edges@.len() == 0,
            r.metadata.runner is None,
            r.metadata.deployment_config is None,
            r.metadata.runner_hints@.len() == 0,
    {
        PipelineIR {
            id: new_uuid(),
            name,
            nodes: Vec::new(),
            edges: Vec::new(),
            metadata: PipelineMetadata {
                runner: None,
                deployment_config: None,
                runner_hints: Vec::new(),
            },
        }
    }
}

/// Classes of transforms that analyzers count and select.
#[derive(Debug, Clone, Copy, PartialEq, Eq, Structural)]
pub enum NodeClass {
    Shuffle,
    Stateful,
    GroupByKey,
    CoGroupByKey,
    CombinePerKey,
    Windowing,
    Source,
    Sink,
    ParDo,
    SideInputs,
    SideOutputs,
}

/// The transform belongs to class `k`.
pub open spec fn in_class(t: TransformType, k: NodeClass) -> bool {
    match k {
        NodeClass::Shuffle => is_shuffle(t),
        NodeClass::Stateful => is_stateful_pardo(t),
        NodeClass::GroupByKey => t is GroupByKey,
        NodeClass::CoGroupByKey => t is CoGroupByKey,
        NodeClass::CombinePerKey => t is CombinePerKey,
        NodeClass::Windowing => t is Windowing,
        NodeClass::Source => t is Source,
        NodeClass::Sink => t is Sink,
        NodeClass::ParDo => t is ParDo,
        NodeClass::SideInputs => match t {
            TransformType::ParDo { has_side_inputs, .. } => has_side_inputs,
            _ => false,
        },
        NodeClass::SideOutputs => match t {
            TransformType::ParDo { has_side_outputs, .. } => has_side_outputs,
            _ => false,
        },
    }
}

/// The transform is a custom node of kind `kind`.
pub open spec fn is_custom(t: TransformType, kind: Seq<char>) -> bool {
    match t {
        TransformType::Custom(k) => k@ == kind,
        _ => false,
    }
}

/// Which nodes a selection picks: a class, or custom nodes of a kind.
pub enum Selector {
    Class(NodeClass),
    Custom(Seq<char>),
}

/// The node belongs to the selection.
pub open spec fn selected(n: TransformNode, s: Selector) -> bool {
    match s {
        Selector::Class(k) => in_class(n.node_type, k),
        Selector::Custom(kind) => is_custom(n.node_type, kind),
    }
}

/// Positions of the selected nodes, in order.
pub open spec fn select(nodes: Seq<TransformNode>, s: Selector) -> Seq<usize>
    decreases nodes.len(),
{
    if nodes.len() == 0 {
        Seq::empty()
    } else {
        let r = select(nodes.drop_last(), s);
        if selected(nodes.last(), s) {
            r.push((nodes.len() - 1) as usize)
        } else {
            r
        }
    }
}

/// Positions in `select` are ascending positions of selected nodes.
pub proof fn lemma_select(nodes: Seq<TransformNode>, s: Selector)
    requires
        nodes.len() <= usize::MAX,
    ensures
        forall|k: int|
            0 <= k < select(nodes, s).len() ==> 0 <= #[trigger] select(nodes, s)[k] < nodes.len()
                && selected(nodes[select(nodes, s)[k] as int], s),
        forall|k: int, j: int|
            0 <= k < j < select(nodes, s).len() ==> #[trigger] select(nodes, s)[k] < #[trigger] select(
                nodes,
                s,
            )[j],
        select(nodes, s).len() <= nodes.len(),
        select(nodes, s).len() == 0 <==> forall|i: int|
            0 <= i < nodes.len() ==> !selected(#[trigger] nodes[i], s),
    decreases nodes.len(),
{
    if nodes.len() > 0 {
        let p = nodes.drop_last();
        let sp = select(p, s);
        let sn = select(nodes, s);
        lemma_select(p, s);
        assert forall|i: int| 0 <= i < p.len() implies p[i] == nodes[i] by {}
        if selected(nodes.last(), s) {
            assert(sn == sp.push((nodes.len() - 1) as usize));
        } else {
            assert(sn == sp);
        }
        assert forall|k: int| 0 <= k < sn.len() implies 0 <= #[trigger] sn[k] < nodes.len()
            && selected(nodes[sn[k] as int], s) by {
            if k < sp.len() {
                assert(sn[k] == sp[k]);
                assert(p[sp[k] as int] == nodes[sp[k] as int]);
            }
        }
        assert forall|k: int, j: int| 0 <= k < j < sn.len() implies #[trigger] sn[k] < #[trigger] sn[j] by {
            if j < sp.len() {
                assert(sn[k] == sp[k]);
                assert(sn[j] == sp[j]);
            } else {
                assert(sn[k] == sp[k]);
                assert(sp[k] < p.len());
            }
        }
        if sn.len() == 0 {
            assert forall|i: int| 0 <= i < nodes.len() implies !selected(#[trigger] nodes[i], s) by {
                if i < p.len() {
                    assert(p[i] == nodes[i]);
                }
            }
        }
        if forall|i: int| 0 <= i < nodes.len() ==> !selected(#[trigger] nodes[i], s) {
            assert forall|i: int| 0 <= i < p.len() implies !selected(#[trigger] p[i], s) by {
                assert(p[i] == nodes[i]);
            }
            assert(!selected(nodes[nodes.len() - 1], s));
        }
    }
}

/// Number of selected nodes.
pub open spec fn count_selected(nodes: Seq<TransformNode>, s: Selector) -> nat {
    select(nodes, s).len()
}

/// The ids of the nodes at the given positions.
pub open spec fn ids_at(nodes: Seq<TransformNode>, idx: Seq<usize>) -> Seq<Seq<char>> {
    idx.map_values(|i: usize| nodes[i as int].id@)
}

/// Whether node `n` is selected by `class` (or custom kind `kind` when
/// `class` is `None`).
fn node_selected(n: &TransformNode, class: Option<NodeClass>, kind: &str) -> (r: bool)
    ensures
        r == selected(
            *n,
            match class {
                Some(k) => Selector::Class(k),
                None => Selector::Custom(kind@),
            },
        ),
{
    match class {
        Some(k) => match k {
            NodeClass::Shuffle => n.node_type.is_shuffle_operation(),
            NodeClass::Stateful => n.node_type.is_stateful(),
            NodeClass::GroupByKey => match &n.node_type {
                TransformType::GroupByKey { .. } => true,
                _ => false,
            },
            NodeClass::CoGroupByKey => match &n.node_type {
                TransformType::CoGroupByKey { .. } => true,
                _ => false,
            },
            NodeClass::CombinePerKey => match &n.node_type {
                TransformType::CombinePerKey { .. } => true,
                _ => false,
            },
            NodeClass::Windowing => match &n.node_type {
                TransformType::Windowing { .. } => true,
                _ => false,
            },
            NodeClass::Source => match &n.node_type {
                TransformType::Source { .. } => true,
                _ => false,
            },
            NodeClass::Sink => match &n.node_type {
                TransformType::Sink { .. } => true,
                _ => false,
            },
            NodeClass::ParDo => match &n.node_type {
                TransformType::ParDo { .. } => true,
                _ => false,
            },
            NodeClass::SideInputs => match &n.node_type {
                TransformType::ParDo { has_side_inputs, .. } => *has_side_inputs,
                _ => false,
            },
            NodeClass::SideOutputs => match &n.node_type {
                TransformType::ParDo { has_side_outputs, .. } => *has_side_outputs,
                _ => false,
            },
        },
        None => match &n.node_type {
            TransformType::Custom(k) => str_eq(k.as_str(), kind),
            _ => false,
        },
    }
}

fn select_nodes(nodes: &Vec<TransformNode>, class: Option<NodeClass>, kind: &str) -> (r: Vec<usize>)
    ensures
        r@ == select(
            nodes@,
            match class {
                Some(k) => Selector::Class(k),
                None => Selector::Custom(kind@),
            },
        ),
{
    let ghost s = match class {
        Some(k) => Selector::Class(k),
        None => Selector::Custom(kind@),
    };
    let mut r: Vec<usize> = Vec::new();
    let mut i: usize = 0;
    while i < nodes.len()
        invariant
            i <= nodes@.len(),
            s == (match class {
                Some(k) => Selector::Class(k),
                None => Selector::Custom(kind@),
            }),
            r@ == select(nodes@.take(i as int), s),
        decreases nodes@.len() - i,
    {
        proof {
            assert(nodes@.take(i + 1).drop_last() =~= nodes@.take(i as int));
            assert(nodes@.take(i + 1).last() == nodes@[i as int]);
        }
        if node_selected(&nodes[i], class, kind) {
            r.push(i);
        }
        i = i + 1;
    }
    proof {
        assert(nodes@.take(nodes@.len() as int) =~= nodes@);
    }
    r
}

/// Positions of the nodes of class `k`, in order.
pub fn class_positions(nodes: &Vec<TransformNode>, k: NodeClass) -> (r: Vec<usize>)
    ensures
        r@ == select(nodes@, Selector::Class(k)),
        forall|i: int| 0 <= i < r@.len() ==> #[trigger] r@[i] < nodes@.len(),
        forall|i: int| 0 <= i < r@.len() ==> in_class(nodes@[#[trigger] r@[i] as int].node_type, k),
        r@.len() <= nodes@.len(),
{
    let _n = nodes.len();
    proof {
        lemma_select(nodes@, Selector::Class(k));
    }
    select_nodes(nodes, Some(k), "")
}

/// Positions of the custom nodes of kind `kind`, in order.
pub fn custom_positions(nodes: &Vec<TransformNode>, kind: &str) -> (r: Vec<usize>)
    ensures
        r@ == select(nodes@, Selector::Custom(kind@)),
        forall|i: int| 0 <= i < r@.len() ==> #[trigger] r@[i] < nodes@.len(),
        forall|i: int| 0 <= i < r@.len() ==> is_custom(nodes@[#[trigger] r@[i] as int].node_type, kind@),
        r@.len() <= nodes@.len(),
{
    let _n = nodes.len();
    proof {
        lemma_select(nodes@, Selector::Custom(kind@));
    }
    select_nodes(nodes, None, kind)
}

/// Number of nodes of class `k`.
pub fn count_class(nodes: &Vec<TransformNode>, k: NodeClass) -> (r: usize)
    ensures
        r == count_selected(nodes@, Selector::Class(k)),
{
    class_positions(nodes, k).len()
}

/// Position of the first custom node of kind `kind`, if any.
pub fn first_custom(nodes: &Vec<TransformNode>, kind: &str) -> (r: Option<usize>)
    ensures
        r matches Some(i) ==> select(nodes@, Selector::Custom(kind@)).len() > 0 && i == select(
            nodes@,
            Selector::Custom(kind@),
        )[0] && i < nodes@.len(),
        r is None ==> select(nodes@, Selector::Custom(kind@)).len() == 0,
{
    let p = custom_positions(nodes, kind);
    if p.len() > 0 {
        Some(p[0])
    } else {
        None
    }
}

/// The ids of the nodes at positions `idx`.
pub fn ids_of(nodes: &Vec<TransformNode>, idx: &Vec<usize>) -> (r: Vec<String>)
    requires
        forall|k: int| 0 <= k < idx@.len() ==> #[trigger] idx@[k] < nodes@.len(),
    ensures
        crate::analyzer::texts(r@) == ids_at(nodes@, idx@),
{
    let mut r: Vec<String> = Vec::new();
    let mut i: usize = 0;
    while i < idx.len()
        invariant
            i <= idx@.len(),
            forall|k: int| 0 <= k < idx@.len() ==> #[trigger] idx@[k] < nodes@.len(),
            crate::analyzer::texts(r@) =~= ids_at(nodes@, idx@.take(i as int)),
        decreases idx@.len() - i,
    {
        let ghost old_r = r@;
        let id = nodes[idx[i]].id.clone();
        r.push(id);
        proof {
            assert(idx@.take(i + 1) =~= idx@.take(i as int).push(idx@[i as int]));
            assert(r@ =~= old_r.push(id));
            assert(crate::analyzer::texts(r@) =~= crate::analyzer::texts(old_r).push(id@));
        }
        i = i + 1;
    }
    proof {
        assert(idx@.take(idx@.len() as int) =~= idx@);
    }
    r
}

/// Positions of the nodes that an edge leads to from node id `id`.
pub open spec fn downstream(ir: PipelineIR, id: Seq<char>) -> Seq<usize> {
    linked(ir.nodes@, ir.edges@, id, true)
}

/// Positions of the nodes that an edge leads from into node id `id`.
pub open spec fn upstream(ir: PipelineIR, id: Seq<char>) -> Seq<usize> {
    linked(ir.nodes@, ir.edges@, id, false)
}

/// An edge from `a` to `b` exists (as ids).
pub open spec fn has_edge(edges: Seq<Edge>, a: Seq<char>, b: Seq<char>) -> bool {
    exists|e: int| 0 <= e < edges.len() && (#[trigger] edges[e]).from@ == a && edges[e].to@ == b
}

/// Positions of nodes joined to `id` by an edge: leaving `id` when
/// `forward`, entering it otherwise.
pub open spec fn linked(nodes: Seq<TransformNode>, edges: Seq<Edge>, id: Seq<char>, forward: bool) -> Seq<
    usize,
>
    decreases nodes.len(),
{
    if nodes.len() == 0 {
        Seq::empty()
    } else {
        let r = linked(nodes.drop_last(), edges, id, forward);
        let n = nodes.last().id@;
        if (forward && has_edge(edges, id, n)) || (!forward && has_edge(edges, n, id)) {
            r.push((nodes.len() - 1) as usize)
        } else {
            r
        }
    }
}

/// Positions in `linked` are ascending node positions.
pub proof fn lemma_linked(nodes: Seq<TransformNode>, edges: Seq<Edge>, id: Seq<char>, forward: bool)
    requires
        nodes.len() <= usize::MAX,
    ensures
        forall|k: int|
            0 <= k < linked(nodes, edges, id, forward).len() ==> 0 <= #[trigger] linked(
                nodes,
                edges,
                id,
                forward,
            )[k] < nodes.len(),
        linked(nodes, edges, id, forward).len() <= nodes.len(),
    decreases nodes.len(),
{
    if nodes.len() > 0 {
        lemma_linked(nodes.drop_last(), edges, id, forward);
    }
}

/// Number of edges leaving (`forward`) or entering node id `id`.
pub open spec fn degree(edges: Seq<Edge>, id: Seq<char>, forward: bool) -> nat
    decreases edges.len(),
{
    if edges.len() == 0 {
        0
    } else {
        let e = edges.last();
        degree(edges.drop_last(), id, forward) + if (forward && e.from@ == id) || (!forward
            && e.to@ == id) {
            1nat
        } else {
            0nat
        }
    }
}

/// Number of edges leaving (`forward`) or entering node id `id`.
pub fn edge_degree(edges: &Vec<Edge>, id: &str, forward: bool) -> (r: usize)
    ensures
        r == degree(edges@, id@, forward),
        r <= edges@.len(),
{
    let mut c: usize = 0;
    let mut i: usize = 0;
    while i < edges.len()
        invariant
            i <= edges@.len(),
            c == degree(edges@.take(i as int), id@, forward),
            c <= i,
        decreases edges@.len() - i,
    {
        proof {
            assert(edges@.take(i + 1).drop_last() =~= edges@.take(i as int));
            assert(edges@.take(i + 1).last() == edges@[i as int]);
        }
        let end = if forward {
            &edges[i].from
        } else {
            &edges[i].to
        };
        if str_eq(end.as_str(), id) {
            c = c + 1;
        }
        i = i + 1;
    }
    proof {
        assert(edges@.take(edges@.len() as int) =~= edges@);
    }
    c
}

/// Whether an edge from `a` to `b` exists.
pub fn edge_exists(edges: &Vec<Edge>, a: &str, b: &str) -> (r: bool)
    ensures
        r == has_edge(edges@, a@, b@),
{
    let mut i: usize = 0;
    while i < edges.len()
        invariant
            i <= edges@.len(),
            forall|e: int| 0 <= e < i ==> !((#[trigger] edges@[e]).from@ == a@ && edges@[e].to@ == b@),
        decreases edges@.len() - i,
    {
        if str_eq(edges[i].from.as_str(), a) && str_eq(edges[i].to.as_str(), b) {
            return true;
        }
        i = i + 1;
    }
    false
}

/// Positions of the nodes joined to node id `id` by an edge.
pub fn linked_positions(ir: &PipelineIR, id: &str, forward: bool) -> (r: Vec<usize>)
    ensures
        r@ == linked(ir.nodes@, ir.edges@, id@, forward),
{
    let mut r: Vec<usize> = Vec::new();
    let mut i: usize = 0;
    while i < ir.nodes.len()
        invariant
            i <= ir.nodes@.len(),
            r@ == linked(ir.nodes@.take(i as int), ir.edges@, id@, forward),
        decreases ir.nodes@.len() - i,
    {
        proof {
            assert(ir.nodes@.take(i + 1).drop_last() =~= ir.nodes@.take(i as int));
            assert(ir.nodes@.take(i + 1).last() == ir.nodes@[i as int]);
        }
        let n = ir.nodes[i].id.as_str();
        let hit = if forward {
            edge_exists(&ir.edges, id, n)
        } else {
            edge_exists(&ir.edges, n, id)
        };
        if hit {
            r.push(i);
        }
        i = i + 1;
    }
    proof {
        assert(ir.nodes@.take(ir.nodes@.len() as int) =~= ir.nodes@);
    }
    r
}

/// The nodes at the given positions.
fn nodes_at<'a>(nodes: &'a Vec<TransformNode>, idx: &Vec<usize>) -> (r: Vec<&'a TransformNode>)
    requires
        forall|k: int| 0 <= k < idx@.len() ==> #[trigger] idx@[k] < nodes@.len(),
    ensures
        r@.len() == idx@.len(),
        forall|k: int| 0 <= k < r@.len() ==> *#[trigger] r@[k] == nodes@[idx@[k] as int],
{
    let mut r: Vec<&TransformNode> = Vec::new();
    let mut i: usize = 0;
    while i < idx.len()
        invariant
            i <= idx@.len(),
            forall|k: int| 0 <= k < idx@.len() ==> #[trigger] idx@[k] < nodes@.len(),
            r@.len() == i,
            forall|k: int| 0 <= k < i ==> *#[trigger] r@[k] == nodes@[idx@[k] as int],
        decreases idx@.len() - i,
    {
        r.push(&nodes[idx[i]]);
        i = i + 1;
    }
    r
}

impl PipelineIR {
    /// The first node with id `id`, if any.
    pub fn get_node(&self, id: &str) -> (r: Option<&TransformNode>)
        ensures
            r matches Some(n) ==> exists|i: int|
                0 <= i < self.nodes@.len() && *n == self.nodes@[i] && n.id@ == id@ && forall|j: int|
                    0 <= j < i ==> self.nodes@[j].id@ != id@,
            r is None ==> forall|j: int| 0 <= j < self.nodes@.len() ==> self.nodes@[j].id@ != id@,
    {
        let mut i: usize = 0;
        while i < self.nodes.len()
            invariant
                i <= self.nodes@.len(),
                forall|j: int| 0 <= j < i ==> self.nodes@[j].id@ != id@,
            decreases self.nodes@.len() - i,
        {
            if str_eq(self.nodes[i].id.as_str(), id) {
                return Some(&self.nodes[i]);
            }
            i = i + 1;
        }
        None
    }

    /// The nodes with an edge into node id `node_id`, in node order.
    pub fn get_upstream_nodes(&self, node_id: &str) -> (r: Vec<&TransformNode>)
        ensures
            r@.len() == upstream(*self, node_id@).len(),
            forall|k: int|
                0 <= k < r@.len() ==> *#[trigger] r@[k] == self.nodes@[upstream(
                    *self,
                    node_id@,
                )[k] as int],
    {
        let p = linked_positions(self, node_id, false);
        let _len = self.nodes.len();
        proof {
            lemma_linked(self.nodes@, self.edges@, node_id@, false);
        }
        nodes_at(&self.nodes, &p)
    }

    /// The nodes with an edge from node id `node_id`, in node order.
    pub fn get_downstream_nodes(&self, node_id: &str) -> (r: Vec<&TransformNode>)
        ensures
            r@.len() == downstream(*self, node_id@).len(),
            forall|k: int|
                0 <= k < r@.len() ==> *#[trigger] r@[k] == self.nodes@[downstream(
                    *self,
                    node_id@,
                )[k] as int],
    {
        let p = linked_positions(self, node_id, true);
        let _len = self.nodes.len();
        proof {
            lemma_linked(self.nodes@, self.edges@, node_id@, true);
        }
        nodes_at(&self.nodes, &p)
    }

    /// The source nodes, in order.
    pub fn get_source_nodes(&self) -> (r: Vec<&TransformNode>)
        ensures
            r@.len() == select(self.nodes@, Selector::Class(NodeClass::Source)).len(),
            forall|k: int|
                0 <= k < r@.len() ==> *#[trigger] r@[k] == self.nodes@[select(
                    self.nodes@,
                    Selector::Class(NodeClass::Source),
                )[k] as int],
    {
        let p = class_positions(&self.nodes, NodeClass::Source);
        let _len = self.nodes.len();
        proof {
            lemma_select(self.nodes@, Selector::Class(NodeClass::Source));
        }
        nodes_at(&self.nodes, &p)
    }

    /// The sink nodes, in order.
    pub fn get_sink_nodes(&self) -> (r: Vec<&TransformNode>)
        ensures
            r@.len() == select(self.nodes@, Selector::Class(NodeClass::Sink)).len(),
            forall|k: int|
                0 <= k < r@.len() ==> *#[trigger] r@[k] == self.nodes@[select(
                    self.nodes@,
                    Selector::Class(NodeClass::Sink),
                )[k] as int],
    {
        let p = class_positions(&self.nodes, NodeClass::Sink);
        let _len = self.nodes.len();
        proof {
            lemma_select(self.nodes@, Selector::Class(NodeClass::Sink));
        }
        nodes_at(&self.nodes, &p)
    }

    /// The value of runner hint `key`, if set.
    pub fn runner_hint(&self, key: &str) -> (r: Option<String>)
        ensures
            opt_str_view(r) == hint_lookup(self.metadata.runner_hints@, key@),
    {
        let n = self.metadata.runner_hints.len();
        let mut i: usize = 0;
        proof {
            assert(self.metadata.runner_hints@.skip(0) =~= self.metadata.runner_hints@);
        }
        while i < n
            invariant
                n == self.metadata.runner_hints@.len(),
                i <= n,
                hint_lookup(self.metadata.runner_hints@, key@) == hint_lookup(
                    self.metadata.runner_hints@.skip(i as int),
                    key@,
                ),
            decreases n - i,
        {
            let ghost rest = self.metadata.runner_hints@.skip(i as int);
            proof {
                assert(rest.drop_first() =~= self.metadata.runner_hints@.skip(i + 1));
                assert(rest[0] == self.metadata.runner_hints@[i as int]);
            }
            if str_eq(self.metadata.runner_hints[i].key.as_str(), key) {
                let v = self.metadata.runner_hints[i].value.clone();
                proof {
                    assert(hint_lookup(rest, key@) == Some(rest[0].value@));
                }
                return Some(v);
            }
            i = i + 1;
        }
        None
    }
}

/// Runner hints after setting `key` to `value`: the first entry with that key
/// gets the new value, or the pair is appended.
pub open spec fn hint_set(h: Seq<RunnerHint>, key: Seq<char>, value: Seq<char>) -> Seq<(Seq<char>, Seq<char>)> {
    let v = hint_pairs(h);
    match first_key(v, key) {
        Some(i) => v.update(i, (key, value)),
        None => v.push((key, value)),
    }
}

/// Position of the first pair with key `key`.
pub open spec fn first_key(v: Seq<(Seq<char>, Seq<char>)>, key: Seq<char>) -> Option<int>
    decreases v.len(),
{
    if v.len() == 0 {
        None
    } else {
        match first_key(v.drop_last(), key) {
            Some(i) => Some(i),
            None => if v.last().0 == key {
                Some(v.len() - 1)
            } else {
                None
            },
        }
    }
}

/// The (key, value) texts of runner hints.
pub open spec fn hint_pairs(h: Seq<RunnerHint>) -> Seq<(Seq<char>, Seq<char>)> {
    h.map_values(|x: RunnerHint| (x.key@, x.value@))
}

impl PipelineIR {
    fn hint_position(&self, key: &str) -> (r: Option<usize>)
        ensures
            r matches Some(i) ==> i < self.metadata.runner_hints@.len() && first_key(
                hint_pairs(self.metadata.runner_hints@),
                key@,
            ) == Some(i as int),
            r is None ==> first_key(hint_pairs(self.metadata.runner_hints@), key@) is None,
    {
        let ghost v0 = hint_pairs(self.metadata.runner_hints@);
        let mut i: usize = 0;
        let n = self.metadata.runner_hints.len();
        while i < n
            invariant
                n == self.metadata.runner_hints@.len(),
                i <= n,
                v0 == hint_pairs(self.metadata.runner_hints@),
                first_key(v0.take(i as int), key@) is None,
            decreases n - i,
        {
            proof {
                assert(v0.take(i + 1).drop_last() =~= v0.take(i as int));
            }
            if str_eq(self.metadata.runner_hints[i].key.as_str(), key) {
                proof {
                    lemma_first_key_prefix(v0, i as int, key@);
                }
                return Some(i);
            }
            i = i + 1;
        }
        proof {
            assert(v0.take(n as int) =~= v0);
        }
        None
    }

    /// Sets runner hint `key` to `value` (`HashMap::insert`).
    pub fn set_runner_hint(&mut self, key: &str, value: String)
        ensures
            hint_pairs(final(self).metadata.runner_hints@) == hint_set(
                old(self).metadata.runner_hints@,
                key@,
                value@,
            ),
            final(self).id == old(self).id,
            final(self).name == old(self).name,
            final(self).nodes == old(self).nodes,
            final(self).edges == old(self).edges,
            final(self).metadata.runner == old(self).metadata.runner,
            final(self).metadata.deployment_config == old(self).metadata.deployment_config,
    {
        let ghost v0 = hint_pairs(self.metadata.runner_hints@);
        let k = String::from_str(key);
        match self.hint_position(key) {
            Some(i) => {
                self.metadata.runner_hints.set(i, RunnerHint { key: k, value });
                proof {
                    assert(hint_pairs(self.metadata.runner_hints@) =~= v0.update(
                        i as int,
                        (key@, value@),
                    ));
                }
            },
            None => {
                self.metadata.runner_hints.push(RunnerHint { key: k, value });
                proof {
                    assert(hint_pairs(self.metadata.runner_hints@) =~= v0.push((key@, value@)));
                }
            },
        }
    }
}

proof fn lemma_first_key_prefix(v: Seq<(Seq<char>, Seq<char>)>, i: int, key: Seq<char>)
    requires
        0 <= i < v.len(),
        first_key(v.take(i), key) is None,
        v[i].0 == key,
    ensures
        first_key(v, key) == Some(i),
    decreases v.len(),
{
    if i == v.len() - 1 {
        assert(v.drop_last() =~= v.take(i));
    } else {
        assert(v.drop_last().take(i) =~= v.take(i));
        lemma_first_key_prefix(v.drop_last(), i, key);
    }
}

/// `first_key` finds the first pair with the key, or reports that none has
/// it.
proof fn lemma_first_key_char(v: Seq<(Seq<char>, Seq<char>)>, key: Seq<char>)
    ensures
        match first_key(v, key) {
            Some(i) => 0 <= i < v.len() && v[i].0 == key && forall|j: int|
                0 <= j < i ==> (#[trigger] v[j]).0 != key,
            None => forall|j: int| 0 <= j < v.len() ==> (#[trigger] v[j]).0 != key,
        },
    decreases v.len(),
{
    if v.len() > 0 {
        lemma_first_key_char(v.drop_last(), key);
        assert forall|j: int| 0 <= j < v.len() - 1 implies v.drop_last()[j] == #[trigger] v[j] by {}
    }
}

/// The first position holding `key` is what `first_key` returns.
proof fn lemma_first_key_is(v: Seq<(Seq<char>, Seq<char>)>, key: Seq<char>, i: int)
    requires
        0 <= i < v.len(),
        v[i].0 == key,
        forall|j: int| 0 <= j < i ==> (#[trigger] v[j]).0 != key,
    ensures
        first_key(v, key) == Some(i),
{
    lemma_first_key_char(v, key);
    match first_key(v, key) {
        Some(m) => {
            if m < i {
                assert(v[m].0 != key);
            } else if m > i {
                assert(v[i].0 != key);
            }
        },
        None => {
            assert(v[i].0 != key);
        },
    }
}

/// Looking a runner hint up reads the first pair with the key.
proof fn lemma_hint_lookup_first(h: Seq<RunnerHint>, key: Seq<char>)
    ensures
        hint_lookup(h, key) == match first_key(hint_pairs(h), key) {
            Some(i) => Some(hint_pairs(h)[i].1),
            None => None,
        },
    decreases h.len(),
{
    let v = hint_pairs(h);
    lemma_first_key_char(v, key);
    if h.len() > 0 {
        if h[0].key@ == key {
            lemma_first_key_is(v, key, 0);
        } else {
            let t = h.drop_first();
            lemma_hint_lookup_first(t, key);
            let w = hint_pairs(t);
            assert(w =~= v.drop_first());
            lemma_first_key_char(w, key);
            match first_key(w, key) {
                Some(m) => {
                    assert forall|j: int| 0 <= j < m + 1 implies (#[trigger] v[j]).0 != key by {
                        if j > 0 {
                            assert(v[j] == w[j - 1]);
                        }
                    }
                    lemma_first_key_is(v, key, m + 1);
                },
                None => {
                    assert forall|j: int| 0 <= j < v.len() implies (#[trigger] v[j]).0 != key by {
                        if j > 0 {
                            assert(v[j] == w[j - 1]);
                        }
                    }
                    match first_key(v, key) {
                        Some(i) => {
                            assert(v[i].0 != key);
                        },
                        None => {},
                    }
                },
            }
        }
    }
}

/// Runner hints read back what was written: after setting `key` to
/// `value`, `key` reads `value` and every other key reads as before.
pub proof fn lemma_hint_read_after_write(
    before: Seq<RunnerHint>,
    after: Seq<RunnerHint>,
    key: Seq<char>,
    value: Seq<char>,
    other: Seq<char>,
)
    requires
        hint_pairs(after) == hint_set(before, key, value),
    ensures
        hint_lookup(after, key) == Some(value),
        other != key ==> hint_lookup(after, other) == hint_lookup(before, other),
{
    let v = hint_pairs(before);
    let v2 = hint_pairs(after);
    lemma_hint_lookup_first(before, key);
    lemma_hint_lookup_first(after, key);
    lemma_hint_lookup_first(before, other);
    lemma_hint_lookup_first(after, other);
    lemma_first_key_char(v, key);
    lemma_first_key_char(v, other);
    match first_key(v, key) {
        Some(i) => {
            assert(v2 == v.update(i, (key, value)));
            assert forall|j: int| 0 <= j < i implies (#[trigger] v2[j]).0 != key by {
                assert(v2[j] == v[j]);
            }
            lemma_first_key_is(v2, key, i);
            if other != key {
                assert forall|j: int| 0 <= j < v2.len() implies (#[trigger] v2[j]).0 == v[j].0 by {}
                match first_key(v, other) {
                    Some(m) => {
                        assert forall|j: int| 0 <= j < m implies (#[trigger] v2[j]).0 != other by {
                            assert(v2[j].0 == v[j].0);
                        }
                        lemma_first_key_is(v2, other, m);
                        assert(m != i);
                    },
                    None => {
                        lemma_first_key_char(v2, other);
                        match first_key(v2, other) {
                            Some(m) => {
                                assert(v2[m].0 == v[m].0);
                            },
                            None => {},
                        }
                    },
                }
            }
        },
        None => {
            assert(v2 == v.push((key, value)));
            assert forall|j: int| 0 <= j < v.len() implies (#[trigger] v2[j]).0 != key by {
                assert(v2[j] == v[j]);
            }
            lemma_first_key_is(v2, key, v.len() as int);
            if other != key {
                match first_key(v, other) {
                    Some(m) => {
                        assert forall|j: int| 0 <= j < m implies (#[trigger] v2[j]).0 != other by {
                            assert(v2[j] == v[j]);
                        }
                        assert(v2[m] == v[m]);
                        lemma_first_key_is(v2, other, m);
                    },
                    None => {
                        lemma_first_key_char(v2, other);
                        match first_key(v2, other) {
                            Some(m) => {
                                if m < v.len() {
                                    assert(v2[m] == v[m]);
                                }
                            },
                            None => {},
                        }
                    },
                }
            }
        },
    }
}

/// Whether `key` occurs in the lowercase text of `s` (spec helper).
pub open spec fn lower_has(s: Seq<char>, needle: Seq<char>) -> bool {
    contains(crate::text::lower_text(s), needle)
}

} // verus!
