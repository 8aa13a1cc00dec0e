//! The Beam pipeline parser: a line-by-line scan of Python source that
//! records the transforms it recognises, chained in source order.
//!
//! Also the pieces the framework parsers share: parse errors, node ids,
//! node construction and the sequential edges.
use crate::analyzer::texts;
use crate::ir::{
    config_view, edge_views, node_views, ConfigEntry, ConfigValueView, Edge, NodeConfig,
    PipelineIR, TransformNode, TransformNodeView, TransformType, TransformTypeView,
};
use crate::pattern::{is_match, regex_is_match};
use crate::text::{
    chars_of, contains, contains_text, decimal, decimal_text, find, find_slice, lemma_find, lines,
    lower_text, parse_u64, parse_u64_spec, slice_range, split_lines, starts_with_char, string_of,
    to_lowercase, trim, trim_chars,
};
use vstd::prelude::*;

verus! {

/// Why a source could not be parsed.
#[derive(Debug, Clone, Copy, PartialEq, Eq, Structural)]
pub enum ParseError {
    /// No `apache_beam` import.
    NoBeamImports,
    /// No PyFlink import or `StreamExecutionEnvironment`.
    NoFlinkConstructs,
    /// No PySpark import, `SparkSession` or `SparkContext`.
    NoSparkConstructs,
}

impl ParseError {
    /// The error's message.
    pub fn message(&self) -> (r: &'static str)
        ensures
            r@ == match self {
                ParseError::NoBeamImports => "No Apache Beam imports detected in code"@,
                ParseError::NoFlinkConstructs => "No Flink DataStream/Table API constructs (pyflink import or StreamExecutionEnvironment) detected in code"@,
                ParseError::NoSparkConstructs => "No PySpark constructs (pyspark import, SparkSession, or SparkContext) detected in code"@,
            },
    {
        match self {
            ParseError::NoBeamImports => "No Apache Beam imports detected in code",
            ParseError::NoFlinkConstructs => "No Flink DataStream/Table API constructs (pyflink import or StreamExecutionEnvironment) detected in code",
            ParseError::NoSparkConstructs => "No PySpark constructs (pyspark import, SparkSession, or SparkContext) detected in code",
        }
    }
}

// ---------------------------------------------------------------------------
// Shared pieces
// ---------------------------------------------------------------------------

/// `s` with each space replaced by an underscore.
pub open spec fn underscored(s: Seq<char>) -> Seq<char> {
    s.map_values(|c: char| if c == ' ' {
        '_'
    } else {
        c
    })
}

/// The node id for a name: `node_` and the lowercased name, spaces as
/// underscores.
pub open spec fn id_of(name: Seq<char>) -> Seq<char> {
    "node_"@ + underscored(lower_text(name))
}

/// The node id for a name and a sequence number: `id_of(name)`, `_`, the
/// number.
pub open spec fn seq_id_of(name: Seq<char>, k: nat) -> Seq<char> {
    id_of(name) + "_"@ + decimal(k)
}

/// A node with no inputs and no annotations.
pub open spec fn node_view(
    id: Seq<char>,
    name: Seq<char>,
    t: TransformTypeView,
    outputs: Seq<Seq<char>>,
    config: Seq<(Seq<char>, ConfigValueView)>,
    line: Option<usize>,
) -> TransformNodeView {
    TransformNodeView {
        id,
        name,
        node_type: t,
        inputs: Seq::empty(),
        outputs,
        config,
        annotations: Seq::empty(),
        line_number: line,
    }
}

/// Edges joining each node to the next, in order, the `i`-th carrying
/// collection `pcol_i`.
pub open spec fn chain_edges(nodes: Seq<TransformNodeView>) -> Seq<(Seq<char>, Seq<char>, Seq<char>)> {
    Seq::new(
        if nodes.len() == 0 {
            0
        } else {
            (nodes.len() - 1) as nat
        },
        |i: int| (nodes[i].id, nodes[i + 1].id, "pcol_"@ + decimal(i as nat)),
    )
}

/// The node id for `name`.
pub fn generate_id(name: &str) -> (r: String)
    ensures
        r@ == id_of(name@),
{
    let lower = to_lowercase(name);
    let cs = chars_of(lower.as_str());
    let mut out: Vec<char> = Vec::new();
    out.push('n');
    out.push('o');
    out.push('d');
    out.push('e');
    out.push('_');
    let ghost prefix = out@;
    let mut i: usize = 0;
    while i < cs.len()
        invariant
            i <= cs@.len(),
            out@ == prefix + underscored(cs@.take(i as int)),
        decreases cs@.len() - i,
    {
        let c = cs[i];
        out.push(
            if c == ' ' {
                '_'
            } else {
                c
            },
        );
        proof {
            assert(underscored(cs@.take(i + 1)) =~= underscored(cs@.take(i as int)).push(
                if c == ' ' {
                    '_'
                } else {
                    c
                },
            ));
        }
        i = i + 1;
    }
    proof {
        assert(cs@.take(cs@.len() as int) =~= cs@);
        reveal_strlit("node_");
        assert(prefix =~= "node_"@);
    }
    string_of(out.as_slice())
}

/// The node id for `name` and sequence number `k`.
pub fn generate_seq_id(name: &str, k: usize) -> (r: String)
    ensures
        r@ == seq_id_of(name@, k as nat),
{
    let mut s = generate_id(name);
    s.append("_");
    let d = decimal_text(k as u64);
    s.append(d.as_str());
    s
}

/// Builds a node with no inputs and no annotations.
pub fn make_node(
    id: String,
    name: String,
    node_type: TransformType,
    outputs: Vec<String>,
    config: NodeConfig,
    line: Option<usize>,
) -> (n: TransformNode)
    ensures
        n@ == node_view(id@, name@, node_type@, texts(outputs@), config_view(config.entries@), line),
{
    let n = TransformNode {
        id,
        name,
        node_type,
        inputs: Vec::new(),
        outputs,
        config,
        annotations: Vec::new(),
        line_number: line,
    };
    proof {
        assert(texts(n.inputs@) =~= Seq::<Seq<char>>::empty());
        assert(texts(n.annotations@) =~= Seq::<Seq<char>>::empty());
    }
    n
}

/// A list of one string.
pub fn one_string(s: &str) -> (v: Vec<String>)
    ensures
        texts(v@) == seq![s@],
{
    let mut v: Vec<String> = Vec::new();
    v.push(String::from_str(s));
    proof {
        assert(texts(v@) =~= seq![s@]);
    }
    v
}

/// An empty list of strings.
pub fn no_strings() -> (v: Vec<String>)
    ensures
        texts(v@) == Seq::<Seq<char>>::empty(),
{
    let v: Vec<String> = Vec::new();
    proof {
        assert(texts(v@) =~= Seq::<Seq<char>>::empty());
    }
    v
}

/// Appends a node.
pub fn push_node(ir: &mut PipelineIR, n: TransformNode)
    ensures
        node_views(final(ir).nodes@) == node_views(old(ir).nodes@).push(n@),
        final(ir).id == old(ir).id,
        final(ir).name == old(ir).name,
        final(ir).edges == old(ir).edges,
        final(ir).metadata == old(ir).metadata,
{
    let ghost v = n@;
    ir.nodes.push(n);
    proof {
        assert(node_views(ir.nodes@) =~= node_views(old(ir).nodes@).push(v));
    }
}

/// Joins each node to the next with an edge (see [`chain_edges`]).
pub fn build_edges(ir: &mut PipelineIR)
    ensures
        edge_views(final(ir).edges@) == edge_views(old(ir).edges@) + chain_edges(node_views(old(ir).nodes@)),
        final(ir).id == old(ir).id,
        final(ir).name == old(ir).name,
        final(ir).nodes == old(ir).nodes,
        final(ir).metadata == old(ir).metadata,
{
    let n = ir.nodes.len();
    let ghost nv = node_views(ir.nodes@);
    let ghost e0 = edge_views(ir.edges@);
    let mut i: usize = 0;
    proof {
        assert(edge_views(ir.edges@) =~= e0 + chain_edges(nv).take(0));
    }
    while i + 1 < n
        invariant
            n == ir.nodes@.len(),
            nv == node_views(ir.nodes@),
            i <= n,
            n > 0 ==> i <= n - 1,
            ir.id == old(ir).id,
            ir.name == old(ir).name,
            ir.nodes == old(ir).nodes,
            ir.metadata == old(ir).metadata,
            edge_views(ir.edges@) == e0 + chain_edges(nv).take(i as int),
        decreases n - i,
    {
        let from = ir.nodes[i].id.clone();
        let to = ir.nodes[i + 1].id.clone();
        let mut label = String::from_str("pcol_");
        let d = decimal_text(i as u64);
        label.append(d.as_str());
        let ghost before = edge_views(ir.edges@);
        ir.edges.push(Edge { from, to, pcollection_name: label });
        proof {
            reveal_strlit("pcol_");
            assert(edge_views(ir.edges@) =~= before.push(
                (nv[i as int].id, nv[i + 1].id, "pcol_"@ + decimal(i as nat)),
            ));
            assert(chain_edges(nv).take(i + 1) =~= chain_edges(nv).take(i as int).push(
                (nv[i as int].id, nv[i + 1].id, "pcol_"@ + decimal(i as nat)),
            ));
            assert(e0 + chain_edges(nv).take(i + 1) =~= (e0 + chain_edges(nv).take(i as int)).push(
                (nv[i as int].id, nv[i + 1].id, "pcol_"@ + decimal(i as nat)),
            ));
        }
        i = i + 1;
    }
    proof {
        assert(chain_edges(nv).take(i as int) =~= chain_edges(nv));
        assert(e0 + chain_edges(nv) =~= edge_views(ir.edges@));
    }
}

// ---------------------------------------------------------------------------
// Text extraction
// ---------------------------------------------------------------------------

/// The variable a line assigns: the text before the first `=` (or the
/// whole line), trimmed.
pub open spec fn var_name(t: Seq<char>) -> Seq<char> {
    match find(t, seq!['=']) {
        Some(k) => trim(t.take(k)),
        None => trim(t),
    }
}

/// The trimmed text between the first `(` and the next `)`, if both occur.
pub open spec fn paren_content(t: Seq<char>) -> Option<Seq<char>> {
    match find(t, seq!['(']) {
        Some(s) => {
            let rest = t.skip(s + 1);
            match find(rest, seq![')']) {
                Some(e) => Some(trim(rest.take(e))),
                None => None,
            }
        },
        None => None,
    }
}

/// The number in the text from `skip` characters past the first
/// occurrence of `marker` up to the next `)`, trimmed, if it parses.
pub open spec fn number_after(t: Seq<char>, marker: Seq<char>, skip: int) -> Option<u64> {
    match find(t, marker) {
        Some(s) => {
            let rest = t.skip(s + skip);
            match find(rest, seq![')']) {
                Some(e) => parse_u64_spec(trim(rest.take(e))),
                None => None,
            }
        },
        None => None,
    }
}

/// The variable a line assigns (see [`var_name`]).
pub fn extract_var_name(t: &[char]) -> (r: Vec<char>)
    ensures
        r@ == var_name(t@),
{
    let eq: [char; 1] = ['='];
    proof {
        assert(eq@ =~= seq!['=']);
        lemma_find(t@, seq!['=']);
    }
    match find_slice(t, &eq) {
        Some(k) => {
            let head = slice_range(t, 0, k);
            proof {
                assert(t@.subrange(0, k as int) =~= t@.take(k as int));
            }
            trim_chars(&head)
        },
        None => trim_chars(t),
    }
}

/// The text between the first `(` and the next `)` (see
/// [`paren_content`]).
pub fn extract_paren_content(t: &[char]) -> (r: Option<Vec<char>>)
    ensures
        match r {
            Some(v) => paren_content(t@) == Some(v@),
            None => paren_content(t@) is None,
        },
{
    let open: [char; 1] = ['('];
    let close: [char; 1] = [')'];
    proof {
        assert(open@ =~= seq!['(']);
        assert(close@ =~= seq![')']);
        lemma_find(t@, seq!['(']);
    }
    match find_slice(t, &open) {
        Some(s) => {
            let tl = t.len();
            assert(crate::text::occurs_at(t@, seq!['('], s as int));
            let rest = slice_range(t, s + 1, tl);
            proof {
                assert(rest@ =~= t@.skip(s + 1));
                lemma_find(rest@, seq![')']);
            }
            match find_slice(&rest, &close) {
                Some(e) => {
                    let inner = slice_range(&rest, 0, e);
                    proof {
                        assert(inner@ =~= rest@.take(e as int));
                    }
                    Some(trim_chars(&inner))
                },
                None => None,
            }
        },
        None => None,
    }
}

/// The number after `marker` (see [`number_after`]).
pub fn extract_number_after(t: &[char], marker: &str, skip: usize) -> (r: Option<u64>)
    requires
        skip <= marker@.len(),
    ensures
        r == number_after(t@, marker@, skip as int),
{
    let m = chars_of(marker);
    proof {
        lemma_find(t@, marker@);
    }
    match find_slice(t, &m) {
        Some(s) => {
            let tl = t.len();
            assert(crate::text::occurs_at(t@, marker@, s as int));
            let rest = slice_range(t, s + skip, tl);
            proof {
                assert(rest@ =~= t@.skip(s + skip));
                lemma_find(rest@, seq![')']);
            }
            let close: [char; 1] = [')'];
            proof {
                assert(close@ =~= seq![')']);
            }
            match find_slice(&rest, &close) {
                Some(e) => {
                    let inner = slice_range(&rest, 0, e);
                    proof {
                        assert(inner@ =~= rest@.take(e as int));
                    }
                    let tr = trim_chars(&inner);
                    parse_u64(&tr)
                },
                None => None,
            }
        },
        None => None,
    }
}

/// A configuration with no entries.
pub fn empty_config() -> (c: NodeConfig)
    ensures
        config_view(c.entries@) == Seq::<(Seq<char>, ConfigValueView)>::empty(),
{
    let c = NodeConfig::new();
    proof {
        assert(config_view(c.entries@) =~= Seq::<(Seq<char>, ConfigValueView)>::empty());
    }
    c
}

// ---------------------------------------------------------------------------
// The Beam parser
// ---------------------------------------------------------------------------

/// An `apache_beam` import.
pub const BEAM_IMPORT_RE: &'static str = "import apache_beam|from apache_beam";
/// A ParDo.
pub const PARDO_RE: &'static str = "ParDo|beam\\.ParDo";
/// A GroupByKey.
pub const GROUPBY_RE: &'static str = "GroupByKey|beam\\.GroupByKey";
/// A windowing transform.
pub const WINDOWING_RE: &'static str = "Windowing|FixedWindows|SlidingWindows|SessionWindows";
/// A write (sink) transform.
pub const SINK_RE: &'static str = "WriteToText|WriteToBigQuery|WriteToPubSub|beam\\.io";

/// Parses Apache Beam Python source into a pipeline.
pub struct BeamPipelineParser;

pub open spec fn source_type_of(t: Seq<char>) -> Seq<char> {
    if contains(t, "ReadFromText"@) {
        "text_file"@
    } else if contains(t, "ReadFromBigQuery"@) {
        "bigquery"@
    } else if contains(t, "ReadFromPubSub"@) {
        "pubsub"@
    } else {
        "unknown"@
    }
}

pub open spec fn source_node(t: Seq<char>, i: usize) -> TransformNodeView {
    let name = var_name(t);
    node_view(
        id_of(name),
        name,
        TransformTypeView::Source { source_type: source_type_of(t) },
        seq![name],
        Seq::empty(),
        Some(i),
    )
}

/// The DoFn named in a line (`DoFn` when none).
pub open spec fn dofn_of(t: Seq<char>) -> Seq<char> {
    match paren_content(t) {
        Some(c) => c,
        None => "DoFn"@,
    }
}

pub open spec fn pardo_node(t: Seq<char>, i: usize) -> TransformNodeView {
    let d = dofn_of(t);
    let name = "ParDo_"@ + d;
    node_view(
        id_of(name),
        name,
        TransformTypeView::ParDo {
            dofn_name: d,
            is_stateful: contains(t, "@beam.utils.timestamp_utils"@) || contains(t, "StateSpec"@)
                || contains(t, "TimerSpec"@),
            has_side_inputs: contains(t, "beam.pvalue.AsSingleton"@) || contains(
                t,
                "beam.pvalue.AsIter"@,
            ),
            has_side_outputs: contains(t, "beam.pvalue.TaggedOutput"@),
        },
        seq![name],
        Seq::empty(),
        Some(i),
    )
}

pub open spec fn gbk_node(t: Seq<char>, i: usize) -> TransformNodeView {
    node_view(
        id_of("GroupByKey"@),
        "GroupByKey"@,
        TransformTypeView::GroupByKey { key_expr: paren_content(t) },
        seq!["grouped_data"@],
        Seq::empty(),
        Some(i),
    )
}

pub open spec fn combine_node(t: Seq<char>, i: usize) -> TransformNodeView {
    node_view(
        id_of("CombinePerKey"@),
        "CombinePerKey"@,
        TransformTypeView::CombinePerKey {
            combine_fn: match paren_content(t) {
                Some(c) => c,
                None => "CombineFn"@,
            },
        },
        seq!["combined_data"@],
        Seq::empty(),
        Some(i),
    )
}

pub open spec fn cogbk_node(i: usize) -> TransformNodeView {
    node_view(
        id_of("CoGroupByKey"@),
        "CoGroupByKey"@,
        TransformTypeView::CoGroupByKey { key_expr: None },
        seq!["cogrouped_data"@],
        Seq::empty(),
        Some(i),
    )
}

pub open spec fn window_type_of(t: Seq<char>) -> Seq<char> {
    if contains(t, "FixedWindows"@) {
        "fixed"@
    } else if contains(t, "SlidingWindows"@) {
        "sliding"@
    } else if contains(t, "SessionWindows"@) {
        "session"@
    } else {
        "global"@
    }
}

/// A windowing node.  The duration is the number after `seconds(`; the
/// allowed lateness is read from one character before the end of
/// `allowed_lateness(`, so its text starts with the `(` and never parses.
pub open spec fn window_node(t: Seq<char>, i: usize) -> TransformNodeView {
    node_view(
        id_of("Windowing"@),
        "Windowing"@,
        TransformTypeView::Windowing {
            window_type: window_type_of(t),
            duration_sec: number_after(t, "seconds("@, 8),
            trigger: None,
            allowed_lateness_sec: number_after(t, "allowed_lateness("@, 16),
            accumulation_mode: None,
        },
        seq!["windowed_data"@],
        Seq::empty(),
        Some(i),
    )
}

pub open spec fn sink_type_of(t: Seq<char>) -> Seq<char> {
    if contains(t, "WriteToBigQuery"@) {
        "bigquery"@
    } else if contains(t, "WriteToPubSub"@) {
        "pubsub"@
    } else if contains(t, "WriteToText"@) {
        "text"@
    } else {
        "unknown"@
    }
}

pub open spec fn sink_node(t: Seq<char>, i: usize) -> TransformNodeView {
    node_view(
        id_of("Sink"@),
        "Sink"@,
        TransformTypeView::Sink { sink_type: sink_type_of(t) },
        Seq::empty(),
        Seq::empty(),
        Some(i),
    )
}

pub open spec fn plain_node(name: Seq<char>, t: TransformTypeView, out: Seq<char>, i: usize) -> TransformNodeView {
    node_view(id_of(name), name, t, seq![out], Seq::empty(), Some(i))
}

/// The nodes a trimmed line `t` (line `i`) yields, in this order: a source
/// read, a ParDo (on a line without `|`), a GroupByKey, a CombinePerKey, a
/// CoGroupByKey, a windowing transform, a sink, a Flatten and a Partition.
/// Empty and comment lines yield nothing.
pub open spec fn beam_line_nodes(t: Seq<char>, i: usize) -> Seq<TransformNodeView> {
    if t.len() == 0 || starts_with_char(t, '#') {
        Seq::empty()
    } else {
        let a = if contains(t, "ReadFromText"@) || contains(t, "ReadFromBigQuery"@) || contains(
            t,
            "ReadFromPubSub"@,
        ) {
            seq![source_node(t, i)]
        } else {
            Seq::empty()
        };
        let b = if regex_is_match(PARDO_RE@, t) && !contains(t, "|"@) {
            a.push(pardo_node(t, i))
        } else {
            a
        };
        let c = if regex_is_match(GROUPBY_RE@, t) {
            b.push(gbk_node(t, i))
        } else {
            b
        };
        let d = if contains(t, "CombinePerKey"@) {
            c.push(combine_node(t, i))
        } else {
            c
        };
        let e = if contains(t, "CoGroupByKey"@) {
            d.push(cogbk_node(i))
        } else {
            d
        };
        let f = if regex_is_match(WINDOWING_RE@, t) {
            e.push(window_node(t, i))
        } else {
            e
        };
        let g = if regex_is_match(SINK_RE@, t) {
            f.push(sink_node(t, i))
        } else {
            f
        };
        let h = if contains(t, "Flatten"@) {
            g.push(plain_node("Flatten"@, TransformTypeView::Flatten, "flattened_data"@, i))
        } else {
            g
        };
        if contains(t, "Partition"@) {
            h.push(plain_node("Partition"@, TransformTypeView::Partition, "partitioned_data"@, i))
        } else {
            h
        }
    }
}

/// The nodes of all lines, in order.
pub open spec fn beam_nodes(ls: Seq<Seq<char>>) -> Seq<TransformNodeView>
    decreases ls.len(),
{
    if ls.len() == 0 {
        Seq::empty()
    } else {
        beam_nodes(ls.drop_last()) + beam_line_nodes(trim(ls.last()), (ls.len() - 1) as usize)
    }
}

/// What [`BeamPipelineParser::parse`] yields for a source that imports
/// Beam: its nodes, chained in order.
pub open spec fn beam_pipeline(ir: PipelineIR, code: Seq<char>) -> bool {
    let nodes = beam_nodes(lines(code));
    &&& ir.id@.len() == 36
    &&& ir.name@ == "beam_pipeline"@
    &&& node_views(ir.nodes@) == nodes
    &&& edge_views(ir.edges@) == chain_edges(nodes)
    &&& ir.metadata.runner is None
    &&& ir.metadata.deployment_config is None
    &&& ir.metadata.runner_hints@.len() == 0
}

impl BeamPipelineParser {
    /// A Beam parser.
    pub fn new() -> (r: BeamPipelineParser) {
        BeamPipelineParser
    }

    fn add_source(ir: &mut PipelineIR, t: &[char], i: usize)
        ensures
            node_views(final(ir).nodes@) == node_views(old(ir).nodes@).push(source_node(t@, i)),
            final(ir).id == old(ir).id,
            final(ir).name == old(ir).name,
            final(ir).edges == old(ir).edges,
            final(ir).metadata == old(ir).metadata,
    {
        let st = if contains_text(t, "ReadFromText") {
            "text_file"
        } else if contains_text(t, "ReadFromBigQuery") {
            "bigquery"
        } else if contains_text(t, "ReadFromPubSub") {
            "pubsub"
        } else {
            "unknown"
        };
        let nm = extract_var_name(t);
        let name = string_of(&nm);
        let n = make_node(
            generate_id(name.as_str()),
            name.clone(),
            TransformType::Source { source_type: String::from_str(st) },
            one_string(name.as_str()),
            empty_config(),
            Some(i),
        );
        push_node(ir, n);
    }

    fn add_pardo(ir: &mut PipelineIR, t: &[char], i: usize)
        ensures
            node_views(final(ir).nodes@) == node_views(old(ir).nodes@).push(pardo_node(t@, i)),
            final(ir).id == old(ir).id,
            final(ir).name == old(ir).name,
            final(ir).edges == old(ir).edges,
            final(ir).metadata == old(ir).metadata,
    {
        let d = match extract_paren_content(t) {
            Some(c) => string_of(&c),
            None => String::from_str("DoFn"),
        };
        let mut name = String::from_str("ParDo_");
        name.append(d.as_str());
        let stateful = contains_text(t, "@beam.utils.timestamp_utils") || contains_text(
            t,
            "StateSpec",
        ) || contains_text(t, "TimerSpec");
        let side_in = contains_text(t, "beam.pvalue.AsSingleton") || contains_text(
            t,
            "beam.pvalue.AsIter",
        );
        let side_out = contains_text(t, "beam.pvalue.TaggedOutput");
        proof {
            reveal_strlit("ParDo_");
        }
        let n = make_node(
            generate_id(name.as_str()),
            name.clone(),
            TransformType::ParDo {
                dofn_name: d,
                is_stateful: stateful,
                has_side_inputs: side_in,
                has_side_outputs: side_out,
            },
            one_string(name.as_str()),
            empty_config(),
            Some(i),
        );
        push_node(ir, n);
    }

    fn add_gbk(ir: &mut PipelineIR, t: &[char], i: usize)
        ensures
            node_views(final(ir).nodes@) == node_views(old(ir).nodes@).push(gbk_node(t@, i)),
            final(ir).id == old(ir).id,
            final(ir).name == old(ir).name,
            final(ir).edges == old(ir).edges,
            final(ir).metadata == old(ir).metadata,
    {
        let k = match extract_paren_content(t) {
            Some(c) => Some(string_of(&c)),
            None => None,
        };
        let n = make_node(
            generate_id("GroupByKey"),
            String::from_str("GroupByKey"),
            TransformType::GroupByKey { key_expr: k },
            one_string("grouped_data"),
            empty_config(),
            Some(i),
        );
        push_node(ir, n);
    }

    fn add_combine(ir: &mut PipelineIR, t: &[char], i: usize)
        ensures
            node_views(final(ir).nodes@) == node_views(old(ir).nodes@).push(combine_node(t@, i)),
            final(ir).id == old(ir).id,
            final(ir).name == old(ir).name,
            final(ir).edges == old(ir).edges,
            final(ir).metadata == old(ir).metadata,
    {
        let f = match extract_paren_content(t) {
            Some(c) => string_of(&c),
            None => String::from_str("CombineFn"),
        };
        let n = make_node(
            generate_id("CombinePerKey"),
            String::from_str("CombinePerKey"),
            TransformType::CombinePerKey { combine_fn: f },
            one_string("combined_data"),
            empty_config(),
            Some(i),
        );
        push_node(ir, n);
    }

    fn add_window(ir: &mut PipelineIR, t: &[char], i: usize)
        ensures
            node_views(final(ir).nodes@) == node_views(old(ir).nodes@).push(window_node(t@, i)),
            final(ir).id == old(ir).id,
            final(ir).name == old(ir).name,
            final(ir).edges == old(ir).edges,
            final(ir).metadata == old(ir).metadata,
    {
        let wt = if contains_text(t, "FixedWindows") {
            "fixed"
        } else if contains_text(t, "SlidingWindows") {
            "sliding"
        } else if contains_text(t, "SessionWindows") {
            "session"
        } else {
            "global"
        };
        proof {
            reveal_strlit("seconds(");
            reveal_strlit("allowed_lateness(");
        }
        let duration = extract_number_after(t, "seconds(", 8);
        let lateness = extract_number_after(t, "allowed_lateness(", 16);
        let n = make_node(
            generate_id("Windowing"),
            String::from_str("Windowing"),
            TransformType::Windowing {
                window_type: String::from_str(wt),
                duration_sec: duration,
                trigger: None,
                allowed_lateness_sec: lateness,
                accumulation_mode: None,
            },
            one_string("windowed_data"),
            empty_config(),
            Some(i),
        );
        push_node(ir, n);
    }

    fn add_sink(ir: &mut PipelineIR, t: &[char], i: usize)
        ensures
            node_views(final(ir).nodes@) == node_views(old(ir).nodes@).push(sink_node(t@, i)),
            final(ir).id == old(ir).id,
            final(ir).name == old(ir).name,
            final(ir).edges == old(ir).edges,
            final(ir).metadata == old(ir).metadata,
    {
        let st = if contains_text(t, "WriteToBigQuery") {
            "bigquery"
        } else if contains_text(t, "WriteToPubSub") {
            "pubsub"
        } else if contains_text(t, "WriteToText") {
            "text"
        } else {
            "unknown"
        };
        let n = make_node(
            generate_id("Sink"),
            String::from_str("Sink"),
            TransformType::Sink { sink_type: String::from_str(st) },
            no_strings(),
            empty_config(),
            Some(i),
        );
        push_node(ir, n);
    }

    fn add_plain(ir: &mut PipelineIR, name: &str, t: TransformType, out: &str, i: usize)
        ensures
            node_views(final(ir).nodes@) == node_views(old(ir).nodes@).push(
                plain_node(name@, t@, out@, i),
            ),
            final(ir).id == old(ir).id,
            final(ir).name == old(ir).name,
            final(ir).edges == old(ir).edges,
            final(ir).metadata == old(ir).metadata,
    {
        let n = make_node(
            generate_id(name),
            String::from_str(name),
            t,
            one_string(out),
            empty_config(),
            Some(i),
        );
        push_node(ir, n);
    }

    #[verifier::rlimit(40)]
    fn add_line_nodes(&self, ir: &mut PipelineIR, t: &[char], i: usize)
        ensures
            node_views(final(ir).nodes@) == node_views(old(ir).nodes@) + beam_line_nodes(t@, i),
            final(ir).id == old(ir).id,
            final(ir).name == old(ir).name,
            final(ir).edges == old(ir).edges,
            final(ir).metadata == old(ir).metadata,
    {
        let ghost v0 = node_views(ir.nodes@);
        if t.len() == 0 || t[0] == '#' {
            proof {
                assert(v0 + beam_line_nodes(t@, i) =~= v0);
            }
            return;
        }
        let ts = string_of(t);
        let line: &str = ts.as_str();
        let ghost mut acc: Seq<TransformNodeView> = Seq::empty();
        proof {
            assert(v0 + acc =~= v0);
        }
        if contains_text(t, "ReadFromText") || contains_text(t, "ReadFromBigQuery") || contains_text(
            t,
            "ReadFromPubSub",
        ) {
            Self::add_source(ir, t, i);
            proof {
                assert(v0.push(source_node(t@, i)) =~= v0 + seq![source_node(t@, i)]);
                acc = seq![source_node(t@, i)];
            }
        }
        proof {
            assert(node_views(ir.nodes@) == v0 + acc);
        }
        if is_match(PARDO_RE, line) && !contains_text(t, "|") {
            Self::add_pardo(ir, t, i);
            proof {
                assert((v0 + acc).push(pardo_node(t@, i)) =~= v0 + acc.push(pardo_node(t@, i)));
                acc = acc.push(pardo_node(t@, i));
            }
        }
        if is_match(GROUPBY_RE, line) {
            Self::add_gbk(ir, t, i);
            proof {
                assert((v0 + acc).push(gbk_node(t@, i)) =~= v0 + acc.push(gbk_node(t@, i)));
                acc = acc.push(gbk_node(t@, i));
            }
        }
        if contains_text(t, "CombinePerKey") {
            Self::add_combine(ir, t, i);
            proof {
                assert((v0 + acc).push(combine_node(t@, i)) =~= v0 + acc.push(combine_node(t@, i)));
                acc = acc.push(combine_node(t@, i));
            }
        }
        if contains_text(t, "CoGroupByKey") {
            Self::add_plain(
                ir,
                "CoGroupByKey",
                TransformType::CoGroupByKey { key_expr: None },
                "cogrouped_data",
                i,
            );
            proof {
                assert(plain_node(
                    "CoGroupByKey"@,
                    TransformTypeView::CoGroupByKey { key_expr: None },
                    "cogrouped_data"@,
                    i,
                ) == cogbk_node(i));
                assert((v0 + acc).push(cogbk_node(i)) =~= v0 + acc.push(cogbk_node(i)));
                acc = acc.push(cogbk_node(i));
            }
        }
        if is_match(WINDOWING_RE, line) {
            Self::add_window(ir, t, i);
            proof {
                assert((v0 + acc).push(window_node(t@, i)) =~= v0 + acc.push(window_node(t@, i)));
                acc = acc.push(window_node(t@, i));
            }
        }
        if is_match(SINK_RE, line) {
            Self::add_sink(ir, t, i);
            proof {
                assert((v0 + acc).push(sink_node(t@, i)) =~= v0 + acc.push(sink_node(t@, i)));
                acc = acc.push(sink_node(t@, i));
            }
        }
        if contains_text(t, "Flatten") {
            Self::add_plain(ir, "Flatten", TransformType::Flatten, "flattened_data", i);
            proof {
                let x = plain_node("Flatten"@, TransformTypeView::Flatten, "flattened_data"@, i);
                assert((v0 + acc).push(x) =~= v0 + acc.push(x));
                acc = acc.push(x);
            }
        }
        if contains_text(t, "Partition") {
            Self::add_plain(ir, "Partition", TransformType::Partition, "partitioned_data", i);
            proof {
                let x = plain_node("Partition"@, TransformTypeView::Partition, "partitioned_data"@, i);
                assert((v0 + acc).push(x) =~= v0 + acc.push(x));
                acc = acc.push(x);
            }
        }
        proof {
            assert(acc == beam_line_nodes(t@, i));
        }
    }

    /// Parses Beam Python source: fails without an `apache_beam` import;
    /// otherwise records the transforms of each line (see
    /// [`beam_line_nodes`]) and chains them in order.
    pub fn parse(&self, python_code: &str) -> (r: Result<PipelineIR, ParseError>)
        ensures
            match r {
                Ok(ir) => regex_is_match(BEAM_IMPORT_RE@, python_code@) && beam_pipeline(
                    ir,
                    python_code@,
                ),
                Err(e) => !regex_is_match(BEAM_IMPORT_RE@, python_code@) && e
                    == ParseError::NoBeamImports,
            },
    {
        if !is_match(BEAM_IMPORT_RE, python_code) {
            return Err(ParseError::NoBeamImports);
        }
        let mut ir = PipelineIR::new(String::from_str("beam_pipeline"));
        let cs = chars_of(python_code);
        let ls = split_lines(&cs);
        let ghost all = lines(python_code@);
        let mut i: usize = 0;
        proof {
            assert(node_views(ir.nodes@) =~= beam_nodes(all.take(0)));
        }
        while i < ls.len()
            invariant
                i <= ls@.len(),
                ls@.len() == all.len(),
                all == lines(python_code@),
                forall|k: int| 0 <= k < ls@.len() ==> #[trigger] ls@[k]@ == all[k],
                node_views(ir.nodes@) == beam_nodes(all.take(i as int)),
                ir.id@.len() == 36,
                ir.name@ == "beam_pipeline"@,
                ir.edges@.len() == 0,
                ir.metadata.runner is None,
                ir.metadata.deployment_config is None,
                ir.metadata.runner_hints@.len() == 0,
            decreases ls@.len() - i,
        {
            let t = trim_chars(&ls[i]);
            proof {
                assert(all.take(i + 1).drop_last() =~= all.take(i as int));
                assert(all.take(i + 1).last() == all[i as int]);
            }
            self.add_line_nodes(&mut ir, &t, i);
            i = i + 1;
        }
        proof {
            assert(all.take(ls@.len() as int) =~= all);
        }
        build_edges(&mut ir);
        Ok(ir)
    }
}

/// The kind of a source node (none for other nodes).
pub open spec fn source_kind(v: TransformNodeView) -> Option<Seq<char>> {
    match v.node_type {
        TransformTypeView::Source { source_type } => Some(source_type),
        _ => None,
    }
}

/// A source line's node is a source named by the reader it calls:
/// `ReadFromText` gives a text file, else `ReadFromBigQuery` BigQuery, else
/// `ReadFromPubSub` Pub/Sub (a streaming source), and any other reader an
/// unknown source.
pub proof fn lemma_source_kind(t: Seq<char>, i: usize)
    ensures
        contains(t, "ReadFromText"@) ==> source_kind(source_node(t, i)) == Some("text_file"@),
        !contains(t, "ReadFromText"@) && contains(t, "ReadFromBigQuery"@) ==> source_kind(source_node(t, i))
            == Some("bigquery"@),
        !contains(t, "ReadFromText"@) && !contains(t, "ReadFromBigQuery"@) && contains(t, "ReadFromPubSub"@)
            ==> source_kind(source_node(t, i)) == Some("pubsub"@),
        !contains(t, "ReadFromText"@) && !contains(t, "ReadFromBigQuery"@) && !contains(t, "ReadFromPubSub"@)
            ==> source_kind(source_node(t, i)) == Some("unknown"@),
        source_node(t, i).line_number == Some(i),
{
}

proof fn lemma_beam_nodes_hold_lines(ls: Seq<Seq<char>>, j: usize, m: int)
    requires
        j < ls.len(),
        0 <= m < beam_line_nodes(trim(ls[j as int]), j).len(),
    ensures
        exists|k: int| 0 <= k < beam_nodes(ls).len() && beam_nodes(ls)[k] == beam_line_nodes(trim(ls[j as int]), j)[m],
    decreases ls.len(),
{
    let d = ls.drop_last();
    let here = beam_line_nodes(trim(ls.last()), (ls.len() - 1) as usize);
    assert(beam_nodes(ls) == beam_nodes(d) + here);
    if j < d.len() {
        assert(d[j as int] == ls[j as int]);
        lemma_beam_nodes_hold_lines(d, j, m);
        let k = choose|k: int| 0 <= k < beam_nodes(d).len() && beam_nodes(d)[k] == beam_line_nodes(trim(d[j as int]), j)[m];
        assert(beam_nodes(ls)[k] == beam_nodes(d)[k]);
    } else {
        assert(j as int == ls.len() - 1);
        assert(ls.last() == ls[j as int]);
        assert(beam_nodes(ls)[beam_nodes(d).len() + m] == here[m]);
    }
}

/// A parsed Beam pipeline has, for each source line reading from Pub/Sub
/// (and not from a text file or BigQuery), a Pub/Sub source node for that
/// line.
pub proof fn lemma_pubsub_sources(ir: PipelineIR, code: Seq<char>, j: usize)
    requires
        beam_pipeline(ir, code),
        j < lines(code).len(),
        trim(lines(code)[j as int]).len() > 0,
        !starts_with_char(trim(lines(code)[j as int]), '#'),
        contains(trim(lines(code)[j as int]), "ReadFromPubSub"@),
        !contains(trim(lines(code)[j as int]), "ReadFromText"@),
        !contains(trim(lines(code)[j as int]), "ReadFromBigQuery"@),
    ensures
        exists|k: int|
            0 <= k < ir.nodes@.len() && source_kind(#[trigger] ir.nodes@[k]@) == Some("pubsub"@)
                && ir.nodes@[k]@.line_number == Some(j),
{
    let ls = lines(code);
    let t = trim(ls[j as int]);
    lemma_source_kind(t, j);
    assert(beam_line_nodes(t, j)[0] == source_node(t, j));
    lemma_beam_nodes_hold_lines(ls, j, 0);
    let k = choose|k: int| 0 <= k < beam_nodes(ls).len() && beam_nodes(ls)[k] == beam_line_nodes(t, j)[0];
    assert(node_views(ir.nodes@)[k] == ir.nodes@[k]@);
}

} // verus!
