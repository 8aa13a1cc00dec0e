//! The PySpark parser: whole-file and line-by-line pattern scans that
//! record shuffle partitioning, wide transformations, joins, the broadcast
//! threshold, the streaming query and caching as structured nodes.
use super::{
    bool_value, cfg_push, i64_or_null, i64_value, str_or_null, str_value, u64_or_null, u64_value,
    Framework,
};
use crate::ir::{
    config_view, edge_views, first_key, hint_pairs, node_views, ConfigValue, ConfigValueView,
    PipelineIR, TransformNodeView, TransformType, TransformTypeView,
};
use crate::parser::{
    build_edges, chain_edges, empty_config, generate_seq_id, make_node, no_strings, node_view,
    push_node, seq_id_of, ParseError,
};
use crate::pattern::{
    count_matches, find_first, group1, is_match, regex_count, regex_find, regex_group1,
    regex_is_match,
};
use crate::text::{
    chars_of, contains, decimal, decimal_text, lines, parse_i64, parse_i64_spec, parse_u64,
    parse_u64_spec, split_lines, starts_with_char, str_contains, string_of, trim_start,
    trim_start_chars,
};
use vstd::prelude::*;

verus! {

pub const SPARK_IMPORT_RE: &'static str = "pyspark|SparkSession|SparkContext";
pub const SHUFFLE_PARTITIONS_RE: &'static str = "shuffle\\.partitions[\"']?\\s*,\\s*[\"']?(\\d+)";
pub const WIDE_TRANSFORM_RE: &'static str = "\\.groupBy\\(|\\.join\\(|\\.distinct\\(|\\.repartition\\(|\\.coalesce\\(|\\.orderBy\\(|\\.sort\\(";
pub const BROADCAST_CALL_RE: &'static str = "broadcast\\(|\\.hint\\(\\s*[\"']broadcast[\"']";
pub const BROADCAST_THRESHOLD_RE: &'static str = "autoBroadcastJoinThreshold[\"']?\\s*,\\s*[\"']?(-?\\d+)";
pub const JOIN_RE: &'static str = "\\.join\\(";
pub const JOIN_ON_KW_RE: &'static str = "on\\s*=\\s*[\"']([^\"']+)[\"']";
pub const WRITE_STREAM_RE: &'static str = "\\.writeStream";
pub const CHECKPOINT_LOCATION_RE: &'static str = "checkpointLocation";
pub const CACHE_RE: &'static str = "\\.cache\\(\\)|\\.persist\\(";
pub const UNPERSIST_RE: &'static str = "\\.unpersist\\(";
pub const TRIGGER_RE: &'static str = "\\.trigger\\(";
pub const OUTPUT_MODE_RE: &'static str = "outputMode\\(\\s*[\"'](append|update|complete)[\"']";
pub const GROUPBY_RE: &'static str = "\\.groupBy\\(";
pub const WATERMARK_RE: &'static str = "\\.withWatermark\\(";
pub const SOURCES_RE: &'static str = "readStream|kafka|socket|rate";

/// Parses PySpark (Structured Streaming and batch DataFrame) source.
pub struct SparkFrameworkParser;

/// The number a capture holds, if it parses as a `u64`.
pub open spec fn parsed_u64(o: Option<Seq<char>>) -> Option<u64> {
    match o {
        Some(s) => parse_u64_spec(s),
        None => None,
    }
}

/// The number a capture holds, if it parses as an `i64`.
pub open spec fn parsed_i64(o: Option<Seq<char>>) -> Option<i64> {
    match o {
        Some(s) => parse_i64_spec(s),
        None => None,
    }
}

/// The shuffle configuration node (always present).
pub open spec fn shuffle_node(code: Seq<char>) -> TransformNodeView {
    node_view(
        seq_id_of("spark_shuffle_config"@, 0),
        "ShuffleConfig"@,
        TransformTypeView::Custom("spark_shuffle_config"@),
        Seq::empty(),
        seq![("shuffle_partitions"@, u64_or_null(parsed_u64(regex_group1(SHUFFLE_PARTITIONS_RE@, code))))],
        None,
    )
}

/// The operation a wide-transformation match names.
pub open spec fn wide_op(m: Seq<char>) -> Seq<char> {
    if contains(m, "groupBy"@) {
        "groupby"@
    } else if contains(m, "join"@) {
        "join"@
    } else if contains(m, "distinct"@) {
        "distinct"@
    } else if contains(m, "repartition"@) {
        "repartition"@
    } else if contains(m, "coalesce"@) {
        "coalesce"@
    } else if contains(m, "orderBy"@) {
        "orderby"@
    } else if contains(m, "sort"@) {
        "sort"@
    } else {
        "unknown"@
    }
}

/// The wide-transformation node of line `l` (number `i`), if it holds one
/// outside a comment.
pub open spec fn wide_line(l: Seq<char>, i: usize) -> Seq<TransformNodeView> {
    if starts_with_char(trim_start(l), '#') {
        Seq::empty()
    } else {
        match regex_find(WIDE_TRANSFORM_RE@, l) {
            Some(m) => seq![
                node_view(
                    seq_id_of("spark_wide_transform"@, i as nat),
                    "WideTransform_"@ + wide_op(m),
                    TransformTypeView::Custom("spark_wide_transform"@),
                    Seq::empty(),
                    seq![("op"@, ConfigValueView::Str(wide_op(m)))],
                    Some(i),
                ),
            ],
            None => Seq::empty(),
        }
    }
}

/// The wide-transformation nodes of all lines, in order.
pub open spec fn wide_nodes(ls: Seq<Seq<char>>) -> Seq<TransformNodeView>
    decreases ls.len(),
{
    if ls.len() == 0 {
        Seq::empty()
    } else {
        wide_nodes(ls.drop_last()) + wide_line(ls.last(), (ls.len() - 1) as usize)
    }
}

/// The join node of line `l` (number `i`), if it calls `.join(`.
pub open spec fn join_line(l: Seq<char>, i: usize) -> Seq<TransformNodeView> {
    if regex_is_match(JOIN_RE@, l) {
        seq![
            node_view(
                seq_id_of("spark_join"@, i as nat),
                "Join"@,
                TransformTypeView::Custom("spark_join"@),
                Seq::empty(),
                seq![
                    ("key_expr"@, str_or_null(regex_group1(JOIN_ON_KW_RE@, l))),
                    ("is_broadcast"@, ConfigValueView::Bool(regex_is_match(BROADCAST_CALL_RE@, l))),
                ],
                Some(i),
            ),
        ]
    } else {
        Seq::empty()
    }
}

/// The join nodes of all lines, in order.
pub open spec fn join_nodes(ls: Seq<Seq<char>>) -> Seq<TransformNodeView>
    decreases ls.len(),
{
    if ls.len() == 0 {
        Seq::empty()
    } else {
        join_nodes(ls.drop_last()) + join_line(ls.last(), (ls.len() - 1) as usize)
    }
}

/// The broadcast-threshold node, when the threshold is set.
pub open spec fn threshold_nodes(code: Seq<char>) -> Seq<TransformNodeView> {
    if regex_is_match(BROADCAST_THRESHOLD_RE@, code) {
        seq![
            node_view(
                seq_id_of("spark_broadcast_threshold"@, 0),
                "BroadcastThresholdConfig"@,
                TransformTypeView::Custom("spark_broadcast_threshold_config"@),
                Seq::empty(),
                seq![("threshold_bytes"@, i64_or_null(parsed_i64(regex_group1(BROADCAST_THRESHOLD_RE@, code))))],
                None,
            ),
        ]
    } else {
        Seq::empty()
    }
}

/// The streaming-query node, when the source writes a stream.
pub open spec fn query_nodes(code: Seq<char>) -> Seq<TransformNodeView> {
    if regex_is_match(WRITE_STREAM_RE@, code) {
        seq![
            node_view(
                seq_id_of("spark_streaming_query"@, 0),
                "StreamingQuery"@,
                TransformTypeView::Custom("spark_streaming_query"@),
                Seq::empty(),
                seq![
                    ("has_checkpoint_location"@, ConfigValueView::Bool(regex_is_match(CHECKPOINT_LOCATION_RE@, code))),
                    ("trigger_configured"@, ConfigValueView::Bool(regex_is_match(TRIGGER_RE@, code))),
                    ("output_mode"@, str_or_null(regex_group1(OUTPUT_MODE_RE@, code))),
                    ("has_aggregation"@, ConfigValueView::Bool(regex_is_match(GROUPBY_RE@, code))),
                    ("has_watermark"@, ConfigValueView::Bool(regex_is_match(WATERMARK_RE@, code))),
                ],
                None,
            ),
        ]
    } else {
        Seq::empty()
    }
}

/// The cache-usage node, when DataFrames are cached.
pub open spec fn cache_nodes(code: Seq<char>) -> Seq<TransformNodeView> {
    let c = regex_count(CACHE_RE@, code);
    if c > 0 {
        seq![
            node_view(
                seq_id_of("spark_cache_usage"@, 0),
                "CacheUsage"@,
                TransformTypeView::Custom("spark_cache_usage"@),
                Seq::empty(),
                seq![
                    ("cache_call_count"@, ConfigValueView::UInt(c as u64)),
                    ("has_unpersist"@, ConfigValueView::Bool(regex_is_match(UNPERSIST_RE@, code))),
                ],
                None,
            ),
        ]
    } else {
        Seq::empty()
    }
}

/// All nodes of a Spark source, in order: shuffle configuration, wide
/// transformations, joins, broadcast threshold, streaming query, caching.
pub open spec fn spark_nodes(code: Seq<char>) -> Seq<TransformNodeView> {
    seq![shuffle_node(code)] + wide_nodes(lines(code)) + join_nodes(lines(code)) + threshold_nodes(
        code,
    ) + query_nodes(code) + cache_nodes(code)
}

/// `true` or `false` as text.
pub open spec fn bool_text(b: bool) -> Seq<char> {
    if b {
        "true"@
    } else {
        "false"@
    }
}

/// What [`SparkFrameworkParser::parse`] yields for a Spark source.
pub open spec fn spark_pipeline(ir: PipelineIR, code: Seq<char>) -> bool {
    let nodes = spark_nodes(code);
    &&& ir.id@.len() == 36
    &&& ir.name@ == "spark_streaming_pipeline"@
    &&& node_views(ir.nodes@) == nodes
    &&& edge_views(ir.edges@) == chain_edges(nodes)
    &&& ir.metadata.runner is None
    &&& ir.metadata.deployment_config is None
    &&& hint_pairs(ir.metadata.runner_hints@) == seq![
        ("framework"@, "spark"@),
        ("sources"@, decimal(regex_count(SOURCES_RE@, code))),
        ("is_streaming"@, bool_text(regex_is_match(WRITE_STREAM_RE@, code))),
    ]
}

fn capture_u64(pattern: &str, text: &str) -> (r: Option<u64>)
    ensures
        r == parsed_u64(regex_group1(pattern@, text@)),
{
    match group1(pattern, text) {
        Some(g) => {
            let cs = chars_of(g.as_str());
            parse_u64(&cs)
        },
        None => None,
    }
}

fn capture_i64(pattern: &str, text: &str) -> (r: Option<i64>)
    ensures
        r == parsed_i64(regex_group1(pattern@, text@)),
{
    match group1(pattern, text) {
        Some(g) => {
            let cs = chars_of(g.as_str());
            parse_i64(&cs)
        },
        None => None,
    }
}

fn bool_str(b: bool) -> (r: &'static str)
    ensures
        r@ == bool_text(b),
{
    if b {
        "true"
    } else {
        "false"
    }
}

fn wide_op_text(m: &str) -> (r: &'static str)
    ensures
        r@ == wide_op(m@),
{
    if str_contains(m, "groupBy") {
        "groupby"
    } else if str_contains(m, "join") {
        "join"
    } else if str_contains(m, "distinct") {
        "distinct"
    } else if str_contains(m, "repartition") {
        "repartition"
    } else if str_contains(m, "coalesce") {
        "coalesce"
    } else if str_contains(m, "orderBy") {
        "orderby"
    } else if str_contains(m, "sort") {
        "sort"
    } else {
        "unknown"
    }
}

impl SparkFrameworkParser {
    /// A Spark parser.
    pub fn new() -> (r: SparkFrameworkParser) {
        SparkFrameworkParser
    }

    /// The node id for `name` and sequence number `seq`.
    pub fn generate_id(&self, name: &str, seq: usize) -> (r: String)
        ensures
            r@ == seq_id_of(name@, seq as nat),
    {
        generate_seq_id(name, seq)
    }

    fn extract_shuffle_config(&self, code: &str, ir: &mut PipelineIR)
        ensures
            node_views(final(ir).nodes@) == node_views(old(ir).nodes@).push(shuffle_node(code@)),
            final(ir).id == old(ir).id,
            final(ir).name == old(ir).name,
            final(ir).edges == old(ir).edges,
            final(ir).metadata == old(ir).metadata,
    {
        let p = capture_u64(SHUFFLE_PARTITIONS_RE, code);
        let c = cfg_push(empty_config(), "shuffle_partitions", u64_value(p));
        proof {
            assert(config_view(c.entries@) =~= shuffle_node(code@).config);
        }
        let n = make_node(
            self.generate_id("spark_shuffle_config", 0),
            String::from_str("ShuffleConfig"),
            TransformType::Custom(String::from_str("spark_shuffle_config")),
            no_strings(),
            c,
            None,
        );
        push_node(ir, n);
    }

    fn add_wide_line(&self, l: &Vec<char>, i: usize, ir: &mut PipelineIR)
        ensures
            node_views(final(ir).nodes@) == node_views(old(ir).nodes@) + wide_line(l@, i),
            final(ir).id == old(ir).id,
            final(ir).name == old(ir).name,
            final(ir).edges == old(ir).edges,
            final(ir).metadata == old(ir).metadata,
    {
        let ts = trim_start_chars(l);
        if ts.len() > 0 && ts[0] == '#' {
            proof {
                assert(node_views(old(ir).nodes@) + wide_line(l@, i) =~= node_views(old(ir).nodes@));
            }
            return;
        }
        let s = string_of(l.as_slice());
        let m = match find_first(WIDE_TRANSFORM_RE, s.as_str()) {
            Some(m) => m,
            None => {
                proof {
                    assert(node_views(old(ir).nodes@) + wide_line(l@, i) =~= node_views(old(ir).nodes@));
                }
                return;
            },
        };
        let op = wide_op_text(m.as_str());
        let mut name = String::from_str("WideTransform_");
        name.append(op);
        let c = cfg_push(empty_config(), "op", ConfigValue::Str(String::from_str(op)));
        proof {
            reveal_strlit("WideTransform_");
            assert(config_view(c.entries@) =~= wide_line(l@, i)[0].config);
        }
        let n = make_node(
            self.generate_id("spark_wide_transform", i),
            name,
            TransformType::Custom(String::from_str("spark_wide_transform")),
            no_strings(),
            c,
            Some(i),
        );
        push_node(ir, n);
        proof {
            assert(node_views(ir.nodes@) =~= node_views(old(ir).nodes@) + wide_line(l@, i));
        }
    }

    fn add_join_line(&self, l: &Vec<char>, i: usize, ir: &mut PipelineIR)
        ensures
            node_views(final(ir).nodes@) == node_views(old(ir).nodes@) + join_line(l@, i),
            final(ir).id == old(ir).id,
            final(ir).name == old(ir).name,
            final(ir).edges == old(ir).edges,
            final(ir).metadata == old(ir).metadata,
    {
        let s = string_of(l.as_slice());
        if !is_match(JOIN_RE, s.as_str()) {
            proof {
                assert(node_views(old(ir).nodes@) + join_line(l@, i) =~= node_views(old(ir).nodes@));
            }
            return;
        }
        let k = group1(JOIN_ON_KW_RE, s.as_str());
        let b = is_match(BROADCAST_CALL_RE, s.as_str());
        let c = cfg_push(empty_config(), "key_expr", str_value(k));
        let c = cfg_push(c, "is_broadcast", ConfigValue::Bool(b));
        proof {
            assert(config_view(c.entries@) =~= join_line(l@, i)[0].config);
        }
        let n = make_node(
            self.generate_id("spark_join", i),
            String::from_str("Join"),
            TransformType::Custom(String::from_str("spark_join")),
            no_strings(),
            c,
            Some(i),
        );
        push_node(ir, n);
        proof {
            assert(node_views(ir.nodes@) =~= node_views(old(ir).nodes@) + join_line(l@, i));
        }
    }

    fn extract_wide_transforms(&self, ls: &Vec<Vec<char>>, ir: &mut PipelineIR)
        ensures
            node_views(final(ir).nodes@) == node_views(old(ir).nodes@) + wide_nodes(
                Seq::new(ls@.len(), |k: int| ls@[k]@),
            ),
            final(ir).id == old(ir).id,
            final(ir).name == old(ir).name,
            final(ir).edges == old(ir).edges,
            final(ir).metadata == old(ir).metadata,
    {
        let ghost all = Seq::new(ls@.len(), |k: int| ls@[k]@);
        let ghost v0 = node_views(ir.nodes@);
        let mut i: usize = 0;
        proof {
            assert(v0 + wide_nodes(all.take(0)) =~= v0);
        }
        while i < ls.len()
            invariant
                i <= ls@.len(),
                all == Seq::new(ls@.len(), |k: int| ls@[k]@),
                node_views(ir.nodes@) == v0 + wide_nodes(all.take(i as int)),
                ir.id == old(ir).id,
                ir.name == old(ir).name,
                ir.edges == old(ir).edges,
                ir.metadata == old(ir).metadata,
            decreases ls@.len() - i,
        {
            proof {
                assert(all.take(i + 1).drop_last() =~= all.take(i as int));
                assert(all.take(i + 1).last() == ls@[i as int]@);
            }
            self.add_wide_line(&ls[i], i, ir);
            proof {
                assert(v0 + wide_nodes(all.take(i as int)) + wide_line(ls@[i as int]@, i) =~= v0
                    + wide_nodes(all.take(i + 1)));
            }
            i = i + 1;
        }
        proof {
            assert(all.take(ls@.len() as int) =~= all);
        }
    }

    fn extract_joins(&self, ls: &Vec<Vec<char>>, ir: &mut PipelineIR)
        ensures
            node_views(final(ir).nodes@) == node_views(old(ir).nodes@) + join_nodes(
                Seq::new(ls@.len(), |k: int| ls@[k]@),
            ),
            final(ir).id == old(ir).id,
            final(ir).name == old(ir).name,
            final(ir).edges == old(ir).edges,
            final(ir).metadata == old(ir).metadata,
    {
        let ghost all = Seq::new(ls@.len(), |k: int| ls@[k]@);
        let ghost v0 = node_views(ir.nodes@);
        let mut i: usize = 0;
        proof {
            assert(v0 + join_nodes(all.take(0)) =~= v0);
        }
        while i < ls.len()
            invariant
                i <= ls@.len(),
                all == Seq::new(ls@.len(), |k: int| ls@[k]@),
                node_views(ir.nodes@) == v0 + join_nodes(all.take(i as int)),
                ir.id == old(ir).id,
                ir.name == old(ir).name,
                ir.edges == old(ir).edges,
                ir.metadata == old(ir).metadata,
            decreases ls@.len() - i,
        {
            proof {
                assert(all.take(i + 1).drop_last() =~= all.take(i as int));
                assert(all.take(i + 1).last() == ls@[i as int]@);
            }
            self.add_join_line(&ls[i], i, ir);
            proof {
                assert(v0 + join_nodes(all.take(i as int)) + join_line(ls@[i as int]@, i) =~= v0
                    + join_nodes(all.take(i + 1)));
            }
            i = i + 1;
        }
        proof {
            assert(all.take(ls@.len() as int) =~= all);
        }
    }

    fn extract_broadcast_threshold(&self, code: &str, ir: &mut PipelineIR)
        ensures
            node_views(final(ir).nodes@) == node_views(old(ir).nodes@) + threshold_nodes(code@),
            final(ir).id == old(ir).id,
            final(ir).name == old(ir).name,
            final(ir).edges == old(ir).edges,
            final(ir).metadata == old(ir).metadata,
    {
        if !is_match(BROADCAST_THRESHOLD_RE, code) {
            proof {
                assert(node_views(old(ir).nodes@) + threshold_nodes(code@) =~= node_views(old(ir).nodes@));
            }
            return;
        }
        let t = capture_i64(BROADCAST_THRESHOLD_RE, code);
        let c = cfg_push(empty_config(), "threshold_bytes", i64_value(t));
        proof {
            assert(config_view(c.entries@) =~= threshold_nodes(code@)[0].config);
        }
        let n = make_node(
            self.generate_id("spark_broadcast_threshold", 0),
            String::from_str("BroadcastThresholdConfig"),
            TransformType::Custom(String::from_str("spark_broadcast_threshold_config")),
            no_strings(),
            c,
            None,
        );
        push_node(ir, n);
        proof {
            assert(node_views(ir.nodes@) =~= node_views(old(ir).nodes@) + threshold_nodes(code@));
        }
    }

    fn extract_streaming_query(&self, code: &str, ir: &mut PipelineIR)
        ensures
            node_views(final(ir).nodes@) == node_views(old(ir).nodes@) + query_nodes(code@),
            final(ir).id == old(ir).id,
            final(ir).name == old(ir).name,
            final(ir).edges == old(ir).edges,
            final(ir).metadata == old(ir).metadata,
    {
        if !is_match(WRITE_STREAM_RE, code) {
            proof {
                assert(node_views(old(ir).nodes@) + query_nodes(code@) =~= node_views(old(ir).nodes@));
            }
            return;
        }
        let ckpt = is_match(CHECKPOINT_LOCATION_RE, code);
        let trig = is_match(TRIGGER_RE, code);
        let mode = group1(OUTPUT_MODE_RE, code);
        let agg = is_match(GROUPBY_RE, code);
        let wm = is_match(WATERMARK_RE, code);
        let c = cfg_push(empty_config(), "has_checkpoint_location", ConfigValue::Bool(ckpt));
        let c = cfg_push(c, "trigger_configured", ConfigValue::Bool(trig));
        let c = cfg_push(c, "output_mode", str_value(mode));
        let c = cfg_push(c, "has_aggregation", ConfigValue::Bool(agg));
        let c = cfg_push(c, "has_watermark", ConfigValue::Bool(wm));
        proof {
            assert(config_view(c.entries@) =~= query_nodes(code@)[0].config);
        }
        let n = make_node(
            self.generate_id("spark_streaming_query", 0),
            String::from_str("StreamingQuery"),
            TransformType::Custom(String::from_str("spark_streaming_query")),
            no_strings(),
            c,
            None,
        );
        push_node(ir, n);
        proof {
            assert(node_views(ir.nodes@) =~= node_views(old(ir).nodes@) + query_nodes(code@));
        }
    }

    fn extract_cache_calls(&self, code: &str, ir: &mut PipelineIR)
        ensures
            node_views(final(ir).nodes@) == node_views(old(ir).nodes@) + cache_nodes(code@),
            final(ir).id == old(ir).id,
            final(ir).name == old(ir).name,
            final(ir).edges == old(ir).edges,
            final(ir).metadata == old(ir).metadata,
    {
        let count = count_matches(CACHE_RE, code);
        if count == 0 {
            proof {
                assert(node_views(old(ir).nodes@) + cache_nodes(code@) =~= node_views(old(ir).nodes@));
            }
            return;
        }
        let unpersist = is_match(UNPERSIST_RE, code);
        let c = cfg_push(empty_config(), "cache_call_count", ConfigValue::UInt(count as u64));
        let c = cfg_push(c, "has_unpersist", ConfigValue::Bool(unpersist));
        proof {
            assert(config_view(c.entries@) =~= cache_nodes(code@)[0].config);
        }
        let n = make_node(
            self.generate_id("spark_cache_usage", 0),
            String::from_str("CacheUsage"),
            TransformType::Custom(String::from_str("spark_cache_usage")),
            no_strings(),
            c,
            None,
        );
        push_node(ir, n);
        proof {
            assert(node_views(ir.nodes@) =~= node_views(old(ir).nodes@) + cache_nodes(code@));
        }
    }

    /// Parses PySpark source: fails without a PySpark import,
    /// `SparkSession` or `SparkContext`; otherwise records the nodes of
    /// [`spark_nodes`], chains them, and sets the `framework`, `sources` and
    /// `is_streaming` runner hints.
    pub fn parse(&self, code: &str) -> (r: Result<PipelineIR, ParseError>)
        ensures
            match r {
                Ok(ir) => regex_is_match(SPARK_IMPORT_RE@, code@) && spark_pipeline(ir, code@),
                Err(e) => !regex_is_match(SPARK_IMPORT_RE@, code@) && e
                    == ParseError::NoSparkConstructs,
            },
    {
        if !is_match(SPARK_IMPORT_RE, code) {
            return Err(ParseError::NoSparkConstructs);
        }
        let mut ir = PipelineIR::new(String::from_str("spark_streaming_pipeline"));
        let cs = chars_of(code);
        let ls = split_lines(&cs);
        proof {
            assert(Seq::new(ls@.len(), |k: int| ls@[k]@) =~= lines(code@));
            assert(node_views(ir.nodes@) =~= Seq::<TransformNodeView>::empty());
        }
        self.extract_shuffle_config(code, &mut ir);
        self.extract_wide_transforms(&ls, &mut ir);
        self.extract_joins(&ls, &mut ir);
        self.extract_broadcast_threshold(code, &mut ir);
        self.extract_streaming_query(code, &mut ir);
        self.extract_cache_calls(code, &mut ir);
        proof {
            assert(node_views(ir.nodes@) =~= spark_nodes(code@));
        }
        build_edges(&mut ir);
        let sources = count_matches(SOURCES_RE, code);
        let streaming = is_match(WRITE_STREAM_RE, code);
        let src_text = decimal_text(sources as u64);
        let stream_text = String::from_str(bool_str(streaming));
        proof {
            reveal_strlit("framework");
            reveal_strlit("sources");
            reveal_strlit("is_streaming");
            assert(hint_pairs(ir.metadata.runner_hints@) =~= Seq::<(Seq<char>, Seq<char>)>::empty());
        }
        ir.set_runner_hint("framework", String::from_str("spark"));
        proof {
            assert(hint_pairs(ir.metadata.runner_hints@) =~= seq![("framework"@, "spark"@)]);
        }
        let ghost h1 = hint_pairs(ir.metadata.runner_hints@);
        let ghost st = src_text@;
        ir.set_runner_hint("sources", src_text);
        proof {
            assert("framework"@.len() != "sources"@.len());
            assert(first_key(Seq::<(Seq<char>, Seq<char>)>::empty(), "sources"@) is None);
            assert(h1.drop_last() =~= Seq::<(Seq<char>, Seq<char>)>::empty());
            assert(first_key(h1, "sources"@) is None);
            assert(hint_pairs(ir.metadata.runner_hints@) =~= h1.push(("sources"@, st)));
        }
        let ghost h2 = hint_pairs(ir.metadata.runner_hints@);
        let ghost tt = stream_text@;
        ir.set_runner_hint("is_streaming", stream_text);
        proof {
            assert("framework"@.len() != "is_streaming"@.len());
            assert("sources"@.len() != "is_streaming"@.len());
            assert(first_key(Seq::<(Seq<char>, Seq<char>)>::empty(), "is_streaming"@) is None);
            assert(h1.drop_last() =~= Seq::<(Seq<char>, Seq<char>)>::empty());
            assert(first_key(h1, "is_streaming"@) is None);
            assert(h2.drop_last() =~= h1);
            assert(first_key(h2, "is_streaming"@) is None);
            assert(hint_pairs(ir.metadata.runner_hints@) =~= h2.push(("is_streaming"@, tt)));
            assert(hint_pairs(ir.metadata.runner_hints@) =~= seq![
                ("framework"@, "spark"@),
                ("sources"@, decimal(regex_count(SOURCES_RE@, code@))),
                ("is_streaming"@, bool_text(regex_is_match(WRITE_STREAM_RE@, code@))),
            ]);
        }
        Ok(ir)
    }

    /// The framework this parser reads.
    pub fn framework(&self) -> (r: Framework)
        ensures
            r == Framework::ApacheSpark,
    {
        Framework::ApacheSpark
    }
}

/// The node is of the custom kind `kind`.
pub open spec fn is_kind(v: TransformNodeView, kind: Seq<char>) -> bool {
    v.node_type == TransformTypeView::Custom(kind)
}

proof fn lemma_line_node_kinds(ls: Seq<Seq<char>>)
    ensures
        forall|k: int| 0 <= k < wide_nodes(ls).len() ==> is_kind(#[trigger] wide_nodes(ls)[k], "spark_wide_transform"@),
        forall|k: int| 0 <= k < join_nodes(ls).len() ==> is_kind(#[trigger] join_nodes(ls)[k], "spark_join"@),
    decreases ls.len(),
{
    if ls.len() > 0 {
        let d = ls.drop_last();
        lemma_line_node_kinds(d);
        let wl = wide_line(ls.last(), (ls.len() - 1) as usize);
        let jl = join_line(ls.last(), (ls.len() - 1) as usize);
        assert forall|k: int| 0 <= k < wide_nodes(ls).len() implies is_kind(
            #[trigger] wide_nodes(ls)[k],
            "spark_wide_transform"@,
        ) by {
            if k >= wide_nodes(d).len() {
                assert(wide_nodes(ls)[k] == wl[k - wide_nodes(d).len()]);
            } else {
                assert(wide_nodes(ls)[k] == wide_nodes(d)[k]);
            }
        }
        assert forall|k: int| 0 <= k < join_nodes(ls).len() implies is_kind(#[trigger] join_nodes(ls)[k], "spark_join"@) by {
            if k >= join_nodes(d).len() {
                assert(join_nodes(ls)[k] == jl[k - join_nodes(d).len()]);
            } else {
                assert(join_nodes(ls)[k] == join_nodes(d)[k]);
            }
        }
    }
}

/// A parsed Spark pipeline is named `spark_streaming_pipeline`; its first
/// node, and no other, configures shuffle partitions; its edges join each
/// node to the next, the `i`-th carrying `pcol_i`; its hints say `spark`
/// and whether the source writes a stream; and it has a streaming-query node
/// exactly when the source writes a stream.
pub proof fn lemma_spark_pipeline_shape(ir: PipelineIR, code: Seq<char>)
    requires
        spark_pipeline(ir, code),
    ensures
        ir.name@ == "spark_streaming_pipeline"@,
        ir.nodes@.len() > 0 && is_kind(ir.nodes@[0]@, "spark_shuffle_config"@),
        forall|k: int| 0 < k < ir.nodes@.len() ==> !is_kind(#[trigger] ir.nodes@[k]@, "spark_shuffle_config"@),
        ir.edges@.len() == ir.nodes@.len() - 1,
        forall|i: int|
            0 <= i < ir.edges@.len() ==> (#[trigger] ir.edges@[i]).from@ == ir.nodes@[i].id@ && ir.edges@[i].to@
                == ir.nodes@[i + 1].id@ && ir.edges@[i].pcollection_name@ == "pcol_"@ + decimal(i as nat),
        crate::ir::hint_lookup(ir.metadata.runner_hints@, "framework"@) == Some("spark"@),
        crate::ir::hint_lookup(ir.metadata.runner_hints@, "is_streaming"@) == Some(
            bool_text(regex_is_match(WRITE_STREAM_RE@, code)),
        ),
        (exists|k: int| 0 <= k < ir.nodes@.len() && is_kind(#[trigger] ir.nodes@[k]@, "spark_streaming_query"@))
            <==> regex_is_match(WRITE_STREAM_RE@, code),
{
    let nodes = spark_nodes(code);
    let ls = lines(code);
    lemma_line_node_kinds(ls);
    reveal_strlit("spark_shuffle_config");
    reveal_strlit("spark_wide_transform");
    reveal_strlit("spark_join");
    reveal_strlit("spark_broadcast_threshold_config");
    reveal_strlit("spark_streaming_query");
    reveal_strlit("spark_cache_usage");
    reveal_strlit("framework");
    reveal_strlit("sources");
    reveal_strlit("is_streaming");
    let names = seq![
        "spark_shuffle_config"@,
        "spark_wide_transform"@,
        "spark_join"@,
        "spark_broadcast_threshold_config"@,
        "spark_streaming_query"@,
        "spark_cache_usage"@,
    ];
    assert(names[0][6] == 's' && names[1][6] == 'w' && names[2][6] == 'j' && names[3][6] == 'b' && names[4][6]
        == 's' && names[5][6] == 'c');
    assert(names[0][7] == 'h' && names[4][7] == 't');
    assert forall|a: int, b: int| 0 <= a < b < 6 implies names[a] != names[b] by {
        if names[a] == names[b] {
            assert(names[a][6] == names[b][6] && names[a][7] == names[b][7]);
        }
    }
    let w = wide_nodes(ls);
    let j = join_nodes(ls);
    let t = threshold_nodes(code);
    let q = query_nodes(code);
    let c = cache_nodes(code);
    assert(nodes =~= seq![shuffle_node(code)] + w + j + t + q + c);
    assert(node_views(ir.nodes@).len() == ir.nodes@.len());
    assert forall|k: int| 0 <= k < nodes.len() implies #[trigger] ir.nodes@[k]@ == nodes[k] by {
        assert(node_views(ir.nodes@)[k] == ir.nodes@[k]@);
    }
    assert forall|k: int| 0 <= k < nodes.len() implies (k == 0 && #[trigger] nodes[k] == shuffle_node(code)) || (0
        < k <= w.len() && is_kind(nodes[k], names[1])) || (w.len() < k <= w.len() + j.len() && is_kind(
        nodes[k],
        names[2],
    )) || (w.len() + j.len() < k <= w.len() + j.len() + t.len() && is_kind(nodes[k], names[3])) || (w.len()
        + j.len() + t.len() < k <= w.len() + j.len() + t.len() + q.len() && is_kind(nodes[k], names[4])) || (
    w.len() + j.len() + t.len() + q.len() < k && is_kind(nodes[k], names[5])) by {
        if k == 0 {
        } else if k <= w.len() {
            assert(nodes[k] == w[k - 1]);
        } else if k <= w.len() + j.len() {
            assert(nodes[k] == j[k - 1 - w.len()]);
        } else if k <= w.len() + j.len() + t.len() {
            assert(nodes[k] == t[k - 1 - w.len() - j.len()]);
        } else if k <= w.len() + j.len() + t.len() + q.len() {
            assert(nodes[k] == q[k - 1 - w.len() - j.len() - t.len()]);
        } else {
            assert(nodes[k] == c[k - 1 - w.len() - j.len() - t.len() - q.len()]);
        }
    }
    assert(is_kind(ir.nodes@[0]@, "spark_shuffle_config"@));
    assert forall|k: int| 0 < k < ir.nodes@.len() implies !is_kind(#[trigger] ir.nodes@[k]@, "spark_shuffle_config"@) by {
        assert(ir.nodes@[k]@ == nodes[k]);
    }
    let ev = edge_views(ir.edges@);
    assert(ev.len() == ir.edges@.len());
    assert(nodes.len() == ir.nodes@.len());
    assert forall|i: int| 0 <= i < ir.edges@.len() implies (#[trigger] ir.edges@[i]).from@ == ir.nodes@[i].id@
        && ir.edges@[i].to@ == ir.nodes@[i + 1].id@ && ir.edges@[i].pcollection_name@ == "pcol_"@ + decimal(
        i as nat,
    ) by {
        assert(ev[i] == chain_edges(nodes)[i]);
        assert(ir.nodes@[i]@ == nodes[i]);
        assert(ir.nodes@[i + 1]@ == nodes[i + 1]);
    }
    let h = ir.metadata.runner_hints@;
    let hp = seq![
        ("framework"@, "spark"@),
        ("sources"@, decimal(regex_count(SOURCES_RE@, code))),
        ("is_streaming"@, bool_text(regex_is_match(WRITE_STREAM_RE@, code))),
    ];
    assert(hint_pairs(h) == hp);
    assert(hint_pairs(h).len() == 3);
    assert(h.len() == 3);
    assert(hint_pairs(h)[0] == (h[0].key@, h[0].value@));
    assert(hint_pairs(h)[1] == (h[1].key@, h[1].value@));
    assert(hint_pairs(h)[2] == (h[2].key@, h[2].value@));
    assert("is_streaming"@ != "framework"@) by {
        assert("is_streaming"@[0] != "framework"@[0]);
    }
    assert("is_streaming"@ != "sources"@) by {
        assert("is_streaming"@[0] != "sources"@[0]);
    }
    assert(h.drop_first()[0] == h[1]);
    assert(h.drop_first().drop_first()[0] == h[2]);
    assert(crate::ir::hint_lookup(h.drop_first().drop_first(), "is_streaming"@) == Some(h[2].value@));
    assert(crate::ir::hint_lookup(h.drop_first(), "is_streaming"@) == Some(h[2].value@));
    let base = w.len() + j.len() + t.len();
    if regex_is_match(WRITE_STREAM_RE@, code) {
        assert(q.len() == 1);
        assert(nodes[base as int + 1] == q[0]);
        assert(is_kind(ir.nodes@[base as int + 1]@, "spark_streaming_query"@));
    }
    if exists|k: int| 0 <= k < ir.nodes@.len() && is_kind(#[trigger] ir.nodes@[k]@, "spark_streaming_query"@) {
        let k = choose|k: int| 0 <= k < ir.nodes@.len() && is_kind(#[trigger] ir.nodes@[k]@, "spark_streaming_query"@);
        assert(ir.nodes@[k]@ == nodes[k]);
        if !regex_is_match(WRITE_STREAM_RE@, code) {
            assert(q.len() == 0);
        }
    }
}

} // verus!
