//! The PyFlink parser: whole-file and line-by-line pattern scans that
//! record checkpointing, the state backend, keyed streams, the watermark
//! strategy and windows as structured nodes.
use super::{
    bool_or_null, bool_value, cfg_push, first_matching_line, first_matching_line_exec, str_or_null,
    str_value, u64_or_null, u64_value, Framework,
};
use crate::analyzer::texts;
use crate::ir::{
    config_view, edge_views, first_key, hint_pairs, node_views, ConfigValue, ConfigValueView, PipelineIR,
    TransformNodeView, TransformType, TransformTypeView,
};
use crate::parser::{
    build_edges, chain_edges, empty_config, generate_seq_id, make_node, no_strings, node_view,
    one_string, push_node, seq_id_of, ParseError,
};
use crate::pattern::{
    count_matches, find_first, group1, is_match, regex_count, regex_find, regex_group1,
    regex_is_match,
};
use crate::text::{
    chars_of, contains, contains_text, decimal, decimal_text, lines, lower_text, parse_u64,
    parse_u64_spec, split_lines, starts_with_char, str_contains, str_eq, string_of, to_lowercase,
    trim, trim_chars, trim_start, trim_start_chars,
};
use vstd::prelude::*;

verus! {

pub const FLINK_IMPORT_RE: &'static str = "pyflink|StreamExecutionEnvironment";
pub const STATEFUL_RE: &'static str = "KeyedProcessFunction|ProcessWindowFunction|ValueState|ListState|MapState|ReducingState|AggregatingState|TimerService|Timer\\b";
pub const KEYBY_RE: &'static str = "\\.key_by\\(([^)]*)\\)";
pub const CHECKPOINT_ENABLE_RE: &'static str = "enable_checkpointing\\(\\s*(\\d+)";
pub const CHECKPOINT_MODE_RE: &'static str = "CheckpointingMode\\.(EXACTLY_ONCE|AT_LEAST_ONCE)";
pub const CHECKPOINT_TIMEOUT_RE: &'static str = "set_checkpoint_timeout\\(\\s*(\\d+)";
pub const CHECKPOINT_MIN_PAUSE_RE: &'static str = "set_min_pause_between_checkpoints\\(\\s*(\\d+)";
pub const STATE_BACKEND_RE: &'static str = "EmbeddedRocksDBStateBackend|RocksDBStateBackend|HashMapStateBackend|MemoryStateBackend|FsStateBackend";
pub const INCREMENTAL_SINGLE_ARG_RE: &'static str = "RocksDBStateBackend\\(\\s*(True|False|true|false)\\s*\\)";
pub const INCREMENTAL_TWO_ARG_RE: &'static str = "RocksDBStateBackend\\([^,)]*,\\s*(True|False|true|false)\\s*\\)";
pub const WATERMARK_BOUNDED_SNAKE_RE: &'static str = "for_bounded_out_of_orderness\\(\\s*Duration\\.of_seconds\\(\\s*(\\d+)";
pub const WATERMARK_BOUNDED_CAMEL_RE: &'static str = "forBoundedOutOfOrderness\\(\\s*Duration\\.ofSeconds\\(\\s*(\\d+)";
pub const WATERMARK_MONOTONIC_RE: &'static str = "for_monotonous_timestamps\\(|forMonotonousTimestamps\\(";
pub const WINDOW_TYPE_RE: &'static str = "TumblingEventTimeWindows|SlidingEventTimeWindows|EventTimeSessionWindows|TumblingProcessingTimeWindows|SlidingProcessingTimeWindows|ProcessingTimeSessionWindows|SessionWindows";
pub const WINDOW_SECONDS_RE: &'static str = "Time\\.seconds\\(\\s*(\\d+)";
pub const WINDOW_MINUTES_RE: &'static str = "Time\\.minutes\\(\\s*(\\d+)";

/// Parses PyFlink DataStream/Table API source.
pub struct FlinkFrameworkParser;

/// The number a capture holds, if it parses.
pub open spec fn parsed(o: Option<Seq<char>>) -> Option<u64> {
    match o {
        Some(s) => parse_u64_spec(s),
        None => None,
    }
}

/// The checkpoint configuration node, when checkpointing is enabled.
pub open spec fn checkpoint_nodes(code: Seq<char>) -> Seq<TransformNodeView> {
    if !regex_is_match(CHECKPOINT_ENABLE_RE@, code) {
        Seq::empty()
    } else {
        seq![
            node_view(
                seq_id_of("flink_checkpoint_config"@, 0),
                "CheckpointConfig"@,
                TransformTypeView::Custom("flink_checkpoint_config"@),
                Seq::empty(),
                seq![
                    ("interval_ms"@, u64_or_null(parsed(regex_group1(CHECKPOINT_ENABLE_RE@, code)))),
                    ("mode"@, str_or_null(regex_group1(CHECKPOINT_MODE_RE@, code))),
                    ("timeout_ms"@, u64_or_null(parsed(regex_group1(CHECKPOINT_TIMEOUT_RE@, code)))),
                    ("min_pause_ms"@, u64_or_null(parsed(regex_group1(CHECKPOINT_MIN_PAUSE_RE@, code)))),
                ],
                first_matching_line(CHECKPOINT_ENABLE_RE@, lines(code)),
            ),
        ]
    }
}

/// Whether a RocksDB backend enables incremental checkpoints: the boolean
/// argument of its constructor (single-argument form first), if any.
pub open spec fn incremental_flag(code: Seq<char>) -> Option<bool> {
    let g = if regex_is_match(INCREMENTAL_SINGLE_ARG_RE@, code) {
        regex_group1(INCREMENTAL_SINGLE_ARG_RE@, code)
    } else {
        regex_group1(INCREMENTAL_TWO_ARG_RE@, code)
    };
    match g {
        Some(s) => Some(lower_text(s) == "true"@),
        None => None,
    }
}

/// The state backend node, when a backend is named.
pub open spec fn backend_nodes(code: Seq<char>) -> Seq<TransformNodeView> {
    match regex_find(STATE_BACKEND_RE@, code) {
        Some(b) => seq![
            node_view(
                seq_id_of("flink_state_backend"@, 0),
                "StateBackend"@,
                TransformTypeView::Custom("flink_state_backend"@),
                Seq::empty(),
                seq![
                    ("backend"@, ConfigValueView::Str(b)),
                    (
                        "incremental"@,
                        bool_or_null(
                            if contains(b, "RocksDB"@) {
                                incremental_flag(code)
                            } else {
                                None
                            },
                        ),
                    ),
                ],
                first_matching_line(STATE_BACKEND_RE@, lines(code)),
            ),
        ],
        None => Seq::empty(),
    }
}

/// The keyed-stream node of line `l` (number `i`), if it calls `key_by`
/// outside a comment.
pub open spec fn keyed_line(l: Seq<char>, i: usize) -> Seq<TransformNodeView> {
    if starts_with_char(trim_start(l), '#') || !regex_is_match(KEYBY_RE@, l) {
        Seq::empty()
    } else {
        let k = match regex_group1(KEYBY_RE@, l) {
            Some(g) => if trim(g).len() > 0 {
                Some(trim(g))
            } else {
                None
            },
            None => None,
        };
        seq![
            node_view(
                seq_id_of("flink_keyed_state"@, i as nat),
                "KeyBy"@,
                TransformTypeView::Custom("flink_keyed_state"@),
                seq!["keyed_stream"@],
                seq![("key_expr"@, str_or_null(k))],
                Some(i),
            ),
        ]
    }
}

/// The keyed-stream nodes of all lines, in order.
pub open spec fn keyed_nodes(ls: Seq<Seq<char>>) -> Seq<TransformNodeView>
    decreases ls.len(),
{
    if ls.len() == 0 {
        Seq::empty()
    } else {
        keyed_nodes(ls.drop_last()) + keyed_line(ls.last(), (ls.len() - 1) as usize)
    }
}

/// The watermark strategy node: a bounded out-of-orderness strategy
/// (snake case first, then camel case) with its bound, else a monotonous
/// one, else none.
pub open spec fn watermark_nodes(code: Seq<char>) -> Seq<TransformNodeView> {
    let w = if regex_is_match(WATERMARK_BOUNDED_SNAKE_RE@, code) {
        Some(("bounded_out_of_orderness"@, parsed(regex_group1(WATERMARK_BOUNDED_SNAKE_RE@, code))))
    } else if regex_is_match(WATERMARK_BOUNDED_CAMEL_RE@, code) {
        Some(("bounded_out_of_orderness"@, parsed(regex_group1(WATERMARK_BOUNDED_CAMEL_RE@, code))))
    } else if regex_is_match(WATERMARK_MONOTONIC_RE@, code) {
        Some(("monotonous"@, None))
    } else {
        None
    };
    match w {
        Some((strategy, bound)) => seq![
            node_view(
                seq_id_of("flink_watermark"@, 0),
                "WatermarkStrategy"@,
                TransformTypeView::Custom("flink_watermark"@),
                Seq::empty(),
                seq![
                    ("strategy"@, ConfigValueView::Str(strategy)),
                    ("out_of_orderness_sec"@, u64_or_null(bound)),
                ],
                None,
            ),
        ],
        None => Seq::empty(),
    }
}

/// A window's duration in seconds: `Time.seconds(n)`, else
/// `Time.minutes(n)` times 60 (when that fits in a `u64`).
pub open spec fn window_duration(l: Seq<char>) -> Option<u64> {
    match parsed(regex_group1(WINDOW_SECONDS_RE@, l)) {
        Some(s) => Some(s),
        None => match parsed(regex_group1(WINDOW_MINUTES_RE@, l)) {
            Some(m) => if m * 60 <= u64::MAX {
                Some((m * 60) as u64)
            } else {
                None
            },
            None => None,
        },
    }
}

/// The window node of line `l` (number `i`), if it names a window
/// assigner.
pub open spec fn window_line(l: Seq<char>, i: usize) -> Seq<TransformNodeView> {
    match regex_find(WINDOW_TYPE_RE@, l) {
        Some(m) => seq![
            node_view(
                seq_id_of("flink_window"@, i as nat),
                "Window"@,
                TransformTypeView::Windowing {
                    window_type: if contains(m, "Sliding"@) {
                        "sliding"@
                    } else if contains(m, "Session"@) {
                        "session"@
                    } else {
                        "tumbling"@
                    },
                    duration_sec: window_duration(l),
                    trigger: None,
                    allowed_lateness_sec: None,
                    accumulation_mode: None,
                },
                seq!["windowed_stream"@],
                seq![
                    (
                        "time_domain"@,
                        ConfigValueView::Str(
                            if contains(m, "ProcessingTime"@) {
                                "processing"@
                            } else {
                                "event"@
                            },
                        ),
                    ),
                ],
                Some(i),
            ),
        ],
        None => Seq::empty(),
    }
}

/// The window nodes of all lines, in order.
pub open spec fn window_nodes(ls: Seq<Seq<char>>) -> Seq<TransformNodeView>
    decreases ls.len(),
{
    if ls.len() == 0 {
        Seq::empty()
    } else {
        window_nodes(ls.drop_last()) + window_line(ls.last(), (ls.len() - 1) as usize)
    }
}

/// All nodes of a Flink source, in order: checkpointing, state backend,
/// keyed streams, watermark strategy, windows.
pub open spec fn flink_nodes(code: Seq<char>) -> Seq<TransformNodeView> {
    checkpoint_nodes(code) + backend_nodes(code) + keyed_nodes(lines(code)) + watermark_nodes(code)
        + window_nodes(lines(code))
}

/// Number of keyed-stream nodes among `nodes`.
pub open spec fn keyed_count(nodes: Seq<TransformNodeView>) -> nat
    decreases nodes.len(),
{
    if nodes.len() == 0 {
        0
    } else {
        keyed_count(nodes.drop_last()) + if nodes.last().node_type == TransformTypeView::Custom(
            "flink_keyed_state"@,
        ) {
            1nat
        } else {
            0nat
        }
    }
}

/// `true` or `false` as text.
pub open spec fn bool_text(b: bool) -> Seq<char> {
    if b {
        "true"@
    } else {
        "false"@
    }
}

/// What [`FlinkFrameworkParser::parse`] yields for a Flink source.
pub open spec fn flink_pipeline(ir: PipelineIR, code: Seq<char>) -> bool {
    let nodes = flink_nodes(code);
    let stateful = regex_count(STATEFUL_RE@, code);
    &&& ir.id@.len() == 36
    &&& ir.name@ == "flink_pipeline"@
    &&& node_views(ir.nodes@) == nodes
    &&& edge_views(ir.edges@) == chain_edges(nodes)
    &&& ir.metadata.runner is None
    &&& ir.metadata.deployment_config is None
    &&& hint_pairs(ir.metadata.runner_hints@) == seq![
        ("framework"@, "flink"@),
        ("has_state"@, bool_text(stateful > 0 || keyed_count(nodes) > 0)),
        ("stateful_operator_count"@, decimal(stateful)),
    ]
}

fn capture_number(pattern: &str, text: &str) -> (r: Option<u64>)
    ensures
        r == parsed(regex_group1(pattern@, text@)),
{
    match group1(pattern, text) {
        Some(g) => {
            let cs = chars_of(g.as_str());
            parse_u64(&cs)
        },
        None => None,
    }
}

fn bool_str(b: bool) -> (r: &'static str)
    ensures
        r@ == bool_text(b),
{
    if b {
        "true"
    } else {
        "false"
    }
}

/// The lines of `code`, as characters.
fn code_lines(code: &str) -> (r: Vec<Vec<char>>)
    ensures
        Seq::new(r@.len(), |k: int| r@[k]@) == lines(code@),
{
    let cs = chars_of(code);
    let ls = split_lines(&cs);
    proof {
        assert(Seq::new(ls@.len(), |k: int| ls@[k]@) =~= lines(code@));
    }
    ls
}

impl FlinkFrameworkParser {
    /// A Flink parser.
    pub fn new() -> (r: FlinkFrameworkParser) {
        FlinkFrameworkParser
    }

    /// The node id for `name` and sequence number `seq`.
    pub fn generate_id(&self, name: &str, seq: usize) -> (r: String)
        ensures
            r@ == seq_id_of(name@, seq as nat),
    {
        generate_seq_id(name, seq)
    }

    fn extract_checkpoint_config(&self, code: &str, ls: &Vec<Vec<char>>, ir: &mut PipelineIR)
        requires
            Seq::new(ls@.len(), |k: int| ls@[k]@) == lines(code@),
        ensures
            node_views(final(ir).nodes@) == node_views(old(ir).nodes@) + checkpoint_nodes(code@),
            final(ir).id == old(ir).id,
            final(ir).name == old(ir).name,
            final(ir).edges == old(ir).edges,
            final(ir).metadata == old(ir).metadata,
    {
        if !is_match(CHECKPOINT_ENABLE_RE, code) {
            proof {
                assert(node_views(old(ir).nodes@) + checkpoint_nodes(code@) =~= node_views(old(ir).nodes@));
            }
            return;
        }
        let interval = capture_number(CHECKPOINT_ENABLE_RE, code);
        let mode = group1(CHECKPOINT_MODE_RE, code);
        let timeout = capture_number(CHECKPOINT_TIMEOUT_RE, code);
        let pause = capture_number(CHECKPOINT_MIN_PAUSE_RE, code);
        let line = first_matching_line_exec(CHECKPOINT_ENABLE_RE, ls);
        let c = cfg_push(empty_config(), "interval_ms", u64_value(interval));
        let c = cfg_push(c, "mode", str_value(mode));
        let c = cfg_push(c, "timeout_ms", u64_value(timeout));
        let c = cfg_push(c, "min_pause_ms", u64_value(pause));
        proof {
            assert(config_view(c.entries@) =~= checkpoint_nodes(code@)[0].config);
        }
        let n = make_node(
            self.generate_id("flink_checkpoint_config", 0),
            String::from_str("CheckpointConfig"),
            TransformType::Custom(String::from_str("flink_checkpoint_config")),
            no_strings(),
            c,
            line,
        );
        push_node(ir, n);
        proof {
            assert(node_views(ir.nodes@) =~= node_views(old(ir).nodes@) + checkpoint_nodes(code@));
        }
    }

    fn extract_state_backend(&self, code: &str, ls: &Vec<Vec<char>>, ir: &mut PipelineIR)
        requires
            Seq::new(ls@.len(), |k: int| ls@[k]@) == lines(code@),
        ensures
            node_views(final(ir).nodes@) == node_views(old(ir).nodes@) + backend_nodes(code@),
            final(ir).id == old(ir).id,
            final(ir).name == old(ir).name,
            final(ir).edges == old(ir).edges,
            final(ir).metadata == old(ir).metadata,
    {
        let backend = match find_first(STATE_BACKEND_RE, code) {
            Some(b) => b,
            None => {
                proof {
                    assert(node_views(old(ir).nodes@) + backend_nodes(code@) =~= node_views(old(ir).nodes@));
                }
                return;
            },
        };
        let incremental: Option<bool> = if str_contains(backend.as_str(), "RocksDB") {
            let g = if is_match(INCREMENTAL_SINGLE_ARG_RE, code) {
                group1(INCREMENTAL_SINGLE_ARG_RE, code)
            } else {
                group1(INCREMENTAL_TWO_ARG_RE, code)
            };
            match g {
                Some(s) => {
                    let l = to_lowercase(s.as_str());
                    Some(str_eq(l.as_str(), "true"))
                },
                None => None,
            }
        } else {
            None
        };
        let line = first_matching_line_exec(STATE_BACKEND_RE, ls);
        let c = cfg_push(empty_config(), "backend", ConfigValue::Str(backend));
        let c = cfg_push(c, "incremental", bool_value(incremental));
        proof {
            assert(config_view(c.entries@) =~= backend_nodes(code@)[0].config);
        }
        let n = make_node(
            self.generate_id("flink_state_backend", 0),
            String::from_str("StateBackend"),
            TransformType::Custom(String::from_str("flink_state_backend")),
            no_strings(),
            c,
            line,
        );
        push_node(ir, n);
        proof {
            assert(node_views(ir.nodes@) =~= node_views(old(ir).nodes@) + backend_nodes(code@));
        }
    }

    fn add_keyed_line(&self, l: &Vec<char>, i: usize, ir: &mut PipelineIR)
        ensures
            node_views(final(ir).nodes@) == node_views(old(ir).nodes@) + keyed_line(l@, i),
            final(ir).id == old(ir).id,
            final(ir).name == old(ir).name,
            final(ir).edges == old(ir).edges,
            final(ir).metadata == old(ir).metadata,
    {
        let ts = trim_start_chars(l);
        let s = string_of(l.as_slice());
        if (ts.len() > 0 && ts[0] == '#') || !is_match(KEYBY_RE, s.as_str()) {
            proof {
                assert(node_views(old(ir).nodes@) + keyed_line(l@, i) =~= node_views(old(ir).nodes@));
            }
            return;
        }
        let k: Option<String> = match group1(KEYBY_RE, s.as_str()) {
            Some(g) => {
                let gc = chars_of(g.as_str());
                let t = trim_chars(&gc);
                if t.len() > 0 {
                    Some(string_of(&t))
                } else {
                    None
                }
            },
            None => None,
        };
        let c = cfg_push(empty_config(), "key_expr", str_value(k));
        let n = make_node(
            self.generate_id("flink_keyed_state", i),
            String::from_str("KeyBy"),
            TransformType::Custom(String::from_str("flink_keyed_state")),
            one_string("keyed_stream"),
            c,
            Some(i),
        );
        push_node(ir, n);
        proof {
            assert(node_views(ir.nodes@) =~= node_views(old(ir).nodes@) + keyed_line(l@, i));
        }
    }

    fn extract_keyed_state(&self, ls: &Vec<Vec<char>>, ir: &mut PipelineIR)
        ensures
            node_views(final(ir).nodes@) == node_views(old(ir).nodes@) + keyed_nodes(
                Seq::new(ls@.len(), |k: int| ls@[k]@),
            ),
            final(ir).id == old(ir).id,
            final(ir).name == old(ir).name,
            final(ir).edges == old(ir).edges,
            final(ir).metadata == old(ir).metadata,
    {
        let ghost all = Seq::new(ls@.len(), |k: int| ls@[k]@);
        let ghost v0 = node_views(ir.nodes@);
        let mut i: usize = 0;
        proof {
            assert(v0 + keyed_nodes(all.take(0)) =~= v0);
        }
        while i < ls.len()
            invariant
                i <= ls@.len(),
                all == Seq::new(ls@.len(), |k: int| ls@[k]@),
                node_views(ir.nodes@) == v0 + keyed_nodes(all.take(i as int)),
                ir.id == old(ir).id,
                ir.name == old(ir).name,
                ir.edges == old(ir).edges,
                ir.metadata == old(ir).metadata,
            decreases ls@.len() - i,
        {
            proof {
                assert(all.take(i + 1).drop_last() =~= all.take(i as int));
                assert(all.take(i + 1).last() == ls@[i as int]@);
            }
            self.add_keyed_line(&ls[i], i, ir);
            proof {
                assert(v0 + keyed_nodes(all.take(i as int)) + keyed_line(ls@[i as int]@, i) =~= v0
                    + keyed_nodes(all.take(i + 1)));
            }
            i = i + 1;
        }
        proof {
            assert(all.take(ls@.len() as int) =~= all);
        }
    }

    fn extract_watermark_strategy(&self, code: &str, ir: &mut PipelineIR)
        ensures
            node_views(final(ir).nodes@) == node_views(old(ir).nodes@) + watermark_nodes(code@),
            final(ir).id == old(ir).id,
            final(ir).name == old(ir).name,
            final(ir).edges == old(ir).edges,
            final(ir).metadata == old(ir).metadata,
    {
        let (strategy, bound): (&str, Option<u64>) = if is_match(WATERMARK_BOUNDED_SNAKE_RE, code) {
            ("bounded_out_of_orderness", capture_number(WATERMARK_BOUNDED_SNAKE_RE, code))
        } else if is_match(WATERMARK_BOUNDED_CAMEL_RE, code) {
            ("bounded_out_of_orderness", capture_number(WATERMARK_BOUNDED_CAMEL_RE, code))
        } else if is_match(WATERMARK_MONOTONIC_RE, code) {
            ("monotonous", None)
        } else {
            proof {
                assert(node_views(old(ir).nodes@) + watermark_nodes(code@) =~= node_views(old(ir).nodes@));
            }
            return;
        };
        let c = cfg_push(empty_config(), "strategy", ConfigValue::Str(String::from_str(strategy)));
        let c = cfg_push(c, "out_of_orderness_sec", u64_value(bound));
        proof {
            assert(config_view(c.entries@) =~= watermark_nodes(code@)[0].config);
        }
        let n = make_node(
            self.generate_id("flink_watermark", 0),
            String::from_str("WatermarkStrategy"),
            TransformType::Custom(String::from_str("flink_watermark")),
            no_strings(),
            c,
            None,
        );
        push_node(ir, n);
        proof {
            assert(node_views(ir.nodes@) =~= node_views(old(ir).nodes@) + watermark_nodes(code@));
        }
    }

    fn add_window_line(&self, l: &Vec<char>, i: usize, ir: &mut PipelineIR)
        ensures
            node_views(final(ir).nodes@) == node_views(old(ir).nodes@) + window_line(l@, i),
            final(ir).id == old(ir).id,
            final(ir).name == old(ir).name,
            final(ir).edges == old(ir).edges,
            final(ir).metadata == old(ir).metadata,
    {
        let s = string_of(l.as_slice());
        let m = match find_first(WINDOW_TYPE_RE, s.as_str()) {
            Some(m) => m,
            None => {
                proof {
                    assert(node_views(old(ir).nodes@) + window_line(l@, i) =~= node_views(old(ir).nodes@));
                }
                return;
            },
        };
        let wt = if str_contains(m.as_str(), "Sliding") {
            "sliding"
        } else if str_contains(m.as_str(), "Session") {
            "session"
        } else {
            "tumbling"
        };
        let td = if str_contains(m.as_str(), "ProcessingTime") {
            "processing"
        } else {
            "event"
        };
        let duration = match capture_number(WINDOW_SECONDS_RE, s.as_str()) {
            Some(x) => Some(x),
            None => match capture_number(WINDOW_MINUTES_RE, s.as_str()) {
                Some(mins) => mins.checked_mul(60),
                None => None,
            },
        };
        let c = cfg_push(empty_config(), "time_domain", ConfigValue::Str(String::from_str(td)));
        let n = make_node(
            self.generate_id("flink_window", i),
            String::from_str("Window"),
            TransformType::Windowing {
                window_type: String::from_str(wt),
                duration_sec: duration,
                trigger: None,
                allowed_lateness_sec: None,
                accumulation_mode: None,
            },
            one_string("windowed_stream"),
            c,
            Some(i),
        );
        push_node(ir, n);
        proof {
            assert(node_views(ir.nodes@) =~= node_views(old(ir).nodes@) + window_line(l@, i));
        }
    }

    fn extract_windowing(&self, ls: &Vec<Vec<char>>, ir: &mut PipelineIR)
        ensures
            node_views(final(ir).nodes@) == node_views(old(ir).nodes@) + window_nodes(
                Seq::new(ls@.len(), |k: int| ls@[k]@),
            ),
            final(ir).id == old(ir).id,
            final(ir).name == old(ir).name,
            final(ir).edges == old(ir).edges,
            final(ir).metadata == old(ir).metadata,
    {
        let ghost all = Seq::new(ls@.len(), |k: int| ls@[k]@);
        let ghost v0 = node_views(ir.nodes@);
        let mut i: usize = 0;
        proof {
            assert(v0 + window_nodes(all.take(0)) =~= v0);
        }
        while i < ls.len()
            invariant
                i <= ls@.len(),
                all == Seq::new(ls@.len(), |k: int| ls@[k]@),
                node_views(ir.nodes@) == v0 + window_nodes(all.take(i as int)),
                ir.id == old(ir).id,
                ir.name == old(ir).name,
                ir.edges == old(ir).edges,
                ir.metadata == old(ir).metadata,
            decreases ls@.len() - i,
        {
            proof {
                assert(all.take(i + 1).drop_last() =~= all.take(i as int));
                assert(all.take(i + 1).last() == ls@[i as int]@);
            }
            self.add_window_line(&ls[i], i, ir);
            proof {
                assert(v0 + window_nodes(all.take(i as int)) + window_line(ls@[i as int]@, i) =~= v0
                    + window_nodes(all.take(i + 1)));
            }
            i = i + 1;
        }
        proof {
            assert(all.take(ls@.len() as int) =~= all);
        }
    }

    /// Parses PyFlink source: fails without a PyFlink import or
    /// `StreamExecutionEnvironment`; otherwise records the nodes of
    /// [`flink_nodes`], chains them, and sets the `framework`, `has_state`
    /// and `stateful_operator_count` runner hints.
    pub fn parse(&self, code: &str) -> (r: Result<PipelineIR, ParseError>)
        ensures
            match r {
                Ok(ir) => regex_is_match(FLINK_IMPORT_RE@, code@) && flink_pipeline(ir, code@),
                Err(e) => !regex_is_match(FLINK_IMPORT_RE@, code@) && e
                    == ParseError::NoFlinkConstructs,
            },
    {
        if !is_match(FLINK_IMPORT_RE, code) {
            return Err(ParseError::NoFlinkConstructs);
        }
        let mut ir = PipelineIR::new(String::from_str("flink_pipeline"));
        let ls = code_lines(code);
        proof {
            assert(node_views(ir.nodes@) =~= Seq::<TransformNodeView>::empty());
        }
        self.extract_checkpoint_config(code, &ls, &mut ir);
        self.extract_state_backend(code, &ls, &mut ir);
        self.extract_keyed_state(&ls, &mut ir);
        self.extract_watermark_strategy(code, &mut ir);
        self.extract_windowing(&ls, &mut ir);
        proof {
            assert(node_views(ir.nodes@) =~= flink_nodes(code@));
        }
        build_edges(&mut ir);
        let stateful = count_matches(STATEFUL_RE, code);
        let mut keyed: usize = 0;
        let mut i: usize = 0;
        let ghost nv = node_views(ir.nodes@);
        proof {
            assert(nv.take(0) =~= Seq::<TransformNodeView>::empty());
        }
        while i < ir.nodes.len()
            invariant
                i <= ir.nodes@.len(),
                nv == node_views(ir.nodes@),
                keyed <= i,
                keyed == keyed_count(nv.take(i as int)),
            decreases ir.nodes@.len() - i,
        {
            proof {
                assert(nv.take(i + 1).drop_last() =~= nv.take(i as int));
                assert(nv.take(i + 1).last() == ir.nodes@[i as int]@);
            }
            let is_keyed = match &ir.nodes[i].node_type {
                TransformType::Custom(t) => str_eq(t.as_str(), "flink_keyed_state"),
                _ => false,
            };
            if is_keyed {
                keyed = keyed + 1;
            }
            i = i + 1;
        }
        proof {
            assert(nv.take(ir.nodes@.len() as int) =~= nv);
        }
        let count_text = decimal_text(stateful as u64);
        let state_text = String::from_str(bool_str(stateful > 0 || keyed > 0));
        proof {
            assert(nv == flink_nodes(code@));
            assert(keyed == keyed_count(flink_nodes(code@)));
            assert(count_text@ == decimal(regex_count(STATEFUL_RE@, code@)));
            assert(state_text@ == bool_text(regex_count(STATEFUL_RE@, code@) > 0 || keyed_count(flink_nodes(code@)) > 0));
        }
        proof {
            reveal_strlit("framework");
            reveal_strlit("has_state");
            reveal_strlit("stateful_operator_count");
            assert(hint_pairs(ir.metadata.runner_hints@) =~= Seq::<(Seq<char>, Seq<char>)>::empty());
        }
        ir.set_runner_hint("framework", String::from_str("flink"));
        proof {
            assert(hint_pairs(ir.metadata.runner_hints@) =~= seq![("framework"@, "flink"@)]);
        }
        ir.set_runner_hint("has_state", state_text);
        proof {
            let p1 = seq![("framework"@, "flink"@)];
            assert(p1.drop_last() =~= Seq::<(Seq<char>, Seq<char>)>::empty());
            assert("framework"@[0] != "has_state"@[0]);
            assert(first_key(Seq::<(Seq<char>, Seq<char>)>::empty(), "has_state"@) is None);
            assert(first_key(p1, "has_state"@) is None);
            assert(hint_pairs(ir.metadata.runner_hints@) =~= p1.push(("has_state"@, state_text@)));
        }
        let ghost h2 = hint_pairs(ir.metadata.runner_hints@);
        let ghost ct = count_text@;
        ir.set_runner_hint("stateful_operator_count", count_text);
        proof {
            let p2 = seq![("framework"@, "flink"@), ("has_state"@, state_text@)];
            assert(h2 =~= p2);
            assert(p2.drop_last() =~= seq![("framework"@, "flink"@)]);
            assert(p2.drop_last().drop_last() =~= Seq::<(Seq<char>, Seq<char>)>::empty());
            assert("framework"@.len() != "stateful_operator_count"@.len());
            assert("has_state"@.len() != "stateful_operator_count"@.len());
            assert(first_key(Seq::<(Seq<char>, Seq<char>)>::empty(), "stateful_operator_count"@) is None);
            assert(first_key(seq![("framework"@, "flink"@)], "stateful_operator_count"@) is None);
            assert(first_key(p2, "stateful_operator_count"@) is None);
            assert(first_key(h2, "stateful_operator_count"@) is None);
            assert(hint_pairs(ir.metadata.runner_hints@) =~= h2.push(("stateful_operator_count"@, ct)));
            assert(hint_pairs(ir.metadata.runner_hints@) =~= seq![
                ("framework"@, "flink"@),
                ("has_state"@, bool_text(regex_count(STATEFUL_RE@, code@) > 0 || keyed_count(flink_nodes(code@)) > 0)),
                ("stateful_operator_count"@, decimal(regex_count(STATEFUL_RE@, code@))),
            ]);
        }
        Ok(ir)
    }

    /// The framework this parser reads.
    pub fn framework(&self) -> (r: Framework)
        ensures
            r == Framework::ApacheFlink,
    {
        Framework::ApacheFlink
    }
}

/// The node configures checkpointing.
pub open spec fn is_checkpoint_node(v: TransformNodeView) -> bool {
    v.node_type == TransformTypeView::Custom("flink_checkpoint_config"@)
}

proof fn lemma_line_nodes_not_checkpoint(ls: Seq<Seq<char>>)
    ensures
        forall|k: int| 0 <= k < keyed_nodes(ls).len() ==> !is_checkpoint_node(#[trigger] keyed_nodes(ls)[k]),
        forall|k: int| 0 <= k < window_nodes(ls).len() ==> !is_checkpoint_node(#[trigger] window_nodes(ls)[k]),
    decreases ls.len(),
{
    reveal_strlit("flink_checkpoint_config");
    reveal_strlit("flink_keyed_state");
    assert("flink_checkpoint_config"@ != "flink_keyed_state"@) by {
        assert("flink_checkpoint_config"@[6] != "flink_keyed_state"@[6]);
    }
    if ls.len() > 0 {
        let d = ls.drop_last();
        lemma_line_nodes_not_checkpoint(d);
        let kl = keyed_line(ls.last(), (ls.len() - 1) as usize);
        let wl = window_line(ls.last(), (ls.len() - 1) as usize);
        assert forall|k: int| 0 <= k < keyed_nodes(ls).len() implies !is_checkpoint_node(
            #[trigger] keyed_nodes(ls)[k],
        ) by {
            if k >= keyed_nodes(d).len() {
                assert(keyed_nodes(ls)[k] == kl[k - keyed_nodes(d).len()]);
            } else {
                assert(keyed_nodes(ls)[k] == keyed_nodes(d)[k]);
            }
        }
        assert forall|k: int| 0 <= k < window_nodes(ls).len() implies !is_checkpoint_node(
            #[trigger] window_nodes(ls)[k],
        ) by {
            if k >= window_nodes(d).len() {
                assert(window_nodes(ls)[k] == wl[k - window_nodes(d).len()]);
            } else {
                assert(window_nodes(ls)[k] == window_nodes(d)[k]);
            }
        }
    }
}

/// A parsed Flink pipeline is named `flink_pipeline`; its edges join each
/// node to the next, the `i`-th carrying `pcol_i`; its `framework` hint is
/// `flink`; and it has a checkpoint node exactly when the source enables
/// checkpointing.
pub proof fn lemma_flink_pipeline_shape(ir: PipelineIR, code: Seq<char>)
    requires
        flink_pipeline(ir, code),
    ensures
        ir.name@ == "flink_pipeline"@,
        ir.edges@.len() == (if ir.nodes@.len() == 0 {
            0
        } else {
            ir.nodes@.len() - 1
        }),
        forall|i: int|
            0 <= i < ir.edges@.len() ==> (#[trigger] ir.edges@[i]).from@ == ir.nodes@[i].id@ && ir.edges@[i].to@
                == ir.nodes@[i + 1].id@ && ir.edges@[i].pcollection_name@ == "pcol_"@ + decimal(i as nat),
        crate::ir::hint_lookup(ir.metadata.runner_hints@, "framework"@) == Some("flink"@),
        (exists|k: int| 0 <= k < ir.nodes@.len() && is_checkpoint_node(#[trigger] ir.nodes@[k]@))
            <==> regex_is_match(CHECKPOINT_ENABLE_RE@, code),
{
    let nodes = flink_nodes(code);
    let ev = edge_views(ir.edges@);
    assert(ev.len() == ir.edges@.len());
    assert forall|i: int| 0 <= i < ir.edges@.len() implies (#[trigger] ir.edges@[i]).from@ == ir.nodes@[i].id@
        && ir.edges@[i].to@ == ir.nodes@[i + 1].id@ && ir.edges@[i].pcollection_name@ == "pcol_"@ + decimal(
        i as nat,
    ) by {
        assert(ev[i] == chain_edges(nodes)[i]);
        assert(node_views(ir.nodes@)[i] == nodes[i]);
        assert(node_views(ir.nodes@)[i + 1] == nodes[i + 1]);
    }
    let h = ir.metadata.runner_hints@;
    let hp = seq![
        ("framework"@, "flink"@),
        ("has_state"@, bool_text(regex_count(STATEFUL_RE@, code) > 0 || keyed_count(nodes) > 0)),
        ("stateful_operator_count"@, decimal(regex_count(STATEFUL_RE@, code))),
    ];
    assert(hint_pairs(h) == hp);
    assert(hint_pairs(h).len() == 3);
    assert(h.len() == 3);
    assert(hint_pairs(h)[0] == (h[0].key@, h[0].value@));
    assert(hp[0] == ("framework"@, "flink"@));
    assert(h[0].key@ == "framework"@ && h[0].value@ == "flink"@);
    lemma_line_nodes_not_checkpoint(lines(code));
    reveal_strlit("flink_checkpoint_config");
    reveal_strlit("flink_state_backend");
    reveal_strlit("flink_watermark");
    assert("flink_checkpoint_config"@ != "flink_state_backend"@) by {
        assert("flink_checkpoint_config"@[6] != "flink_state_backend"@[6]);
    }
    assert("flink_checkpoint_config"@ != "flink_watermark"@) by {
        assert("flink_checkpoint_config"@[6] != "flink_watermark"@[6]);
    }
    let c = checkpoint_nodes(code);
    let rest = backend_nodes(code) + keyed_nodes(lines(code)) + watermark_nodes(code) + window_nodes(lines(code));
    assert(nodes =~= c + rest);
    assert forall|k: int| 0 <= k < rest.len() implies !is_checkpoint_node(#[trigger] rest[k]) by {
        let b = backend_nodes(code);
        let kn = keyed_nodes(lines(code));
        let w = watermark_nodes(code);
        let wn = window_nodes(lines(code));
        if k < b.len() {
            assert(rest[k] == b[k]);
        } else if k < b.len() + kn.len() {
            assert(rest[k] == kn[k - b.len()]);
        } else if k < b.len() + kn.len() + w.len() {
            assert(rest[k] == w[k - b.len() - kn.len()]);
        } else {
            assert(rest[k] == wn[k - b.len() - kn.len() - w.len()]);
        }
    }
    if regex_is_match(CHECKPOINT_ENABLE_RE@, code) {
        assert(node_views(ir.nodes@)[0] == nodes[0]);
        assert(is_checkpoint_node(ir.nodes@[0]@));
    }
    if exists|k: int| 0 <= k < ir.nodes@.len() && is_checkpoint_node(#[trigger] ir.nodes@[k]@) {
        let k = choose|k: int| 0 <= k < ir.nodes@.len() && is_checkpoint_node(#[trigger] ir.nodes@[k]@);
        assert(node_views(ir.nodes@)[k] == nodes[k]);
        if !regex_is_match(CHECKPOINT_ENABLE_RE@, code) {
            assert(c.len() == 0);
            assert(nodes[k] == rest[k]);
        }
    }
}

} // verus!
