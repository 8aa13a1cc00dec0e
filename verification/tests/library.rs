use pybeamguard::analyzer::{
    AnalysisContext, AnalysisResult, DataProfile, Finding, FindingType, Metric, RiskSeverity,
};
use pybeamguard::analyzers::cost::CostAnalyzer;
use pybeamguard::analyzers::graph::{calc_depth, detect_cycle, GraphAnalyzer};
use pybeamguard::analyzers::registry::{
    create_analyzers, create_analyzers_by_names, create_flink_analyzers, create_spark_analyzers,
    run_analyzers,
};
use pybeamguard::cli::{
    args_fail_on_display, exit_status, fail_on_breached, parse_analyze_args, parse_severity, ArgsError,
};
use pybeamguard::frameworks::Framework;
use pybeamguard::ir::{Edge, NodeConfig, PipelineIR, TransformNode, TransformType};
use pybeamguard::parser::{BeamPipelineParser, ParseError};
use pybeamguard::reporting::text_reporter::TextReporter;
use pybeamguard::reporting::{output_format, parse_report_format, ReportFormat};
use pybeamguard::text::trim_chars;
use pybeamguard::rules::{CostRules, RulesConfig};
use pybeamguard::{analyze_flink_pipeline, analyze_pipeline, analyze_spark_pipeline};

fn node(id: &str, node_type: TransformType) -> TransformNode {
    TransformNode {
        id: id.to_string(),
        name: id.to_string(),
        node_type,
        inputs: vec![],
        outputs: vec![],
        config: NodeConfig::new(),
        annotations: vec![],
        line_number: None,
    }
}

fn source(id: &str) -> TransformNode {
    node(id, TransformType::Source { source_type: "text".to_string() })
}

fn flatten(id: &str) -> TransformNode {
    node(id, TransformType::Flatten)
}

fn edge(from: &str, to: &str) -> Edge {
    Edge { from: from.to_string(), to: to.to_string(), pcollection_name: "pc".to_string() }
}

fn finding(id: &str, severity: RiskSeverity, confidence: u32) -> Finding {
    Finding {
        id: id.to_string(),
        severity,
        finding_type: FindingType::ReliabilityRisk,
        title: "Title".to_string(),
        description: "Description".to_string(),
        affected_nodes: vec![],
        recommendation: Some("Fix it".to_string()),
        estimated_impact: None,
        confidence,
    }
}

fn result(name: &str, findings: Vec<Finding>, metrics: Vec<Metric>) -> AnalysisResult {
    AnalysisResult {
        analyzer_name: name.to_string(),
        version: "0.1.0".to_string(),
        findings,
        metrics,
        summary: "Summary".to_string(),
        confidence: 800,
    }
}

// ---- command line ----

#[test]
fn analyze_args_defaults() {
    match parse_analyze_args(&["p.py"]) {
        Ok(o) => {
            assert_eq!(o.pipeline_file, "p.py");
            assert_eq!(o.format, "text");
            assert_eq!(o.framework, "beam");
            assert!(o.data_profile_file.is_none());
            assert!(o.fail_on.is_none());
        }
        Err(e) => panic!("{}", e.message()),
    }
}

#[test]
fn analyze_args_all_options() {
    let args = ["p.py", "--format", "json", "--framework", "spark", "--data-profile", "d.json", "--fail-on", "HIGH", "--verbose"];
    match parse_analyze_args(&args) {
        Ok(o) => {
            assert_eq!(o.format, "json");
            assert_eq!(o.framework, "spark");
            assert_eq!(o.data_profile_file, Some("d.json".to_string()));
            assert_eq!(o.fail_on, Some(RiskSeverity::High));
        }
        Err(e) => panic!("{}", e.message()),
    }
}

#[test]
fn analyze_args_errors() {
    assert!(matches!(parse_analyze_args(&[]), Err(ArgsError::MissingPipeline)));
    assert!(matches!(parse_analyze_args(&["p.py", "--format"]), Err(ArgsError::FormatNeedsValue)));
    assert!(matches!(parse_analyze_args(&["p.py", "--framework"]), Err(ArgsError::FrameworkNeedsValue)));
    assert!(matches!(parse_analyze_args(&["p.py", "--data-profile"]), Err(ArgsError::ProfileNeedsValue)));
    assert!(matches!(parse_analyze_args(&["p.py", "--fail-on"]), Err(ArgsError::FailOnNeedsValue)));
    match parse_analyze_args(&["p.py", "--framework", "storm"]) {
        Err(e @ ArgsError::InvalidFramework(_)) => assert_eq!(
            e.message(),
            "Invalid --framework value 'storm'. Expected one of: beam, flink, spark"
        ),
        _ => panic!("expected an invalid framework"),
    }
    match parse_analyze_args(&["p.py", "--fail-on", "severe"]) {
        Err(e @ ArgsError::InvalidFailOn(_)) => assert_eq!(
            e.message(),
            "Invalid --fail-on value 'severe'. Expected one of: info, low, medium, high, critical"
        ),
        _ => panic!("expected an invalid severity"),
    }
}

#[test]
fn severity_names_round_trip() {
    for s in [RiskSeverity::Info, RiskSeverity::Low, RiskSeverity::Medium, RiskSeverity::High, RiskSeverity::Critical] {
        assert_eq!(parse_severity(args_fail_on_display(s)), Some(s));
    }
    assert_eq!(parse_severity("CrItIcAl"), Some(RiskSeverity::Critical));
    assert_eq!(parse_severity("urgent"), None);
}

#[test]
fn severity_scores() {
    assert_eq!(RiskSeverity::Info.score(), 1);
    assert_eq!(RiskSeverity::Low.score(), 2);
    assert_eq!(RiskSeverity::Medium.score(), 3);
    assert_eq!(RiskSeverity::High.score(), 4);
    assert_eq!(RiskSeverity::Critical.score(), 5);
}

#[test]
fn fail_on_threshold() {
    let rs = vec![
        result("A", vec![finding("X", RiskSeverity::Medium, 500)], vec![]),
        result("B", vec![finding("Y", RiskSeverity::Low, 500)], vec![]),
    ];
    assert!(fail_on_breached(&rs, RiskSeverity::Medium));
    assert!(fail_on_breached(&rs, RiskSeverity::Info));
    assert!(!fail_on_breached(&rs, RiskSeverity::High));
    assert!(!fail_on_breached(&vec![], RiskSeverity::Info));
}

// ---- frameworks and errors ----

#[test]
fn framework_names() {
    assert_eq!(Framework::from_string("FLINK"), Some(Framework::ApacheFlink));
    assert_eq!(Framework::from_string("apache_beam"), Some(Framework::ApacheBeam));
    assert_eq!(Framework::from_string("Ray_Data"), Some(Framework::RayData));
    assert_eq!(Framework::from_string("storm"), None);
    assert_eq!(Framework::ApacheSpark.to_string(), "Apache Spark Structured Streaming");
}

#[test]
fn parse_errors_name_the_framework() {
    assert_eq!(analyze_pipeline("x = 1", None).err(), Some(ParseError::NoBeamImports));
    assert_eq!(analyze_flink_pipeline("x = 1", None).err(), Some(ParseError::NoFlinkConstructs));
    assert_eq!(analyze_spark_pipeline("x = 1", None).err(), Some(ParseError::NoSparkConstructs));
    assert_eq!(ParseError::NoBeamImports.message(), "No Apache Beam imports detected in code");
}

#[test]
fn new_pipeline_has_uuid_id() {
    let a = PipelineIR::new("p".to_string());
    let b = PipelineIR::new("p".to_string());
    assert_eq!(a.id.len(), 36);
    assert_eq!(a.name, "p");
    assert!(a.nodes.is_empty() && a.edges.is_empty());
    assert_ne!(a.id, b.id);
}

#[test]
fn runner_hints_behave_as_a_map() {
    let mut ir = PipelineIR::new("p".to_string());
    assert_eq!(ir.runner_hint("k"), None);
    ir.set_runner_hint("k", "1".to_string());
    ir.set_runner_hint("j", "2".to_string());
    ir.set_runner_hint("k", "3".to_string());
    assert_eq!(ir.runner_hint("k"), Some("3".to_string()));
    assert_eq!(ir.runner_hint("j"), Some("2".to_string()));
    assert_eq!(ir.metadata.runner_hints.len(), 2);
}

#[test]
fn beam_parser_builds_nodes_and_edges() {
    let code = "import apache_beam as beam\np | 'Read' >> beam.io.ReadFromText('a')\np | 'Group' >> beam.GroupByKey()\np | 'Write' >> beam.io.WriteToText('b')\n";
    let ir = BeamPipelineParser::new().parse(code).unwrap();
    // `beam.io` also marks the read line as a sink.
    assert_eq!(ir.nodes.len(), 4);
    assert!(matches!(ir.nodes[0].node_type, TransformType::Source { .. }));
    assert!(matches!(ir.nodes[1].node_type, TransformType::Sink { .. }));
    assert!(matches!(ir.nodes[2].node_type, TransformType::GroupByKey { .. }));
    assert!(matches!(ir.nodes[3].node_type, TransformType::Sink { .. }));
    assert_eq!(ir.edges.len(), 3);
    assert_eq!(ir.edges[0].from, ir.nodes[0].id);
    assert_eq!(ir.edges[0].to, ir.nodes[1].id);
}

// ---- graph ----

#[test]
fn cycle_detection() {
    let mut ir = PipelineIR::new("g".to_string());
    ir.nodes.push(source("a"));
    ir.nodes.push(flatten("b"));
    ir.nodes.push(flatten("c"));
    ir.edges.push(edge("a", "b"));
    ir.edges.push(edge("b", "c"));
    assert!(!detect_cycle(&ir));
    assert!(!GraphAnalyzer.has_cycle(&ir));
    ir.edges.push(edge("c", "b"));
    assert!(detect_cycle(&ir));
    let r = GraphAnalyzer.analyze(&AnalysisContext { pipeline_ir: ir, data_profile: None });
    assert!(r.findings.iter().any(|f| f.severity == RiskSeverity::Critical));
}

#[test]
fn self_loop_is_a_cycle() {
    let mut ir = PipelineIR::new("g".to_string());
    ir.nodes.push(flatten("a"));
    ir.edges.push(edge("a", "a"));
    assert!(detect_cycle(&ir));
}

#[test]
fn depth_of_chain_and_of_no_source() {
    let mut ir = PipelineIR::new("g".to_string());
    ir.nodes.push(source("a"));
    ir.nodes.push(flatten("b"));
    ir.nodes.push(flatten("c"));
    ir.nodes.push(flatten("d"));
    ir.edges.push(edge("a", "b"));
    ir.edges.push(edge("b", "c"));
    ir.edges.push(edge("a", "d"));
    assert_eq!(calc_depth(&ir), 3);

    let mut no_source = PipelineIR::new("g".to_string());
    no_source.nodes.push(flatten("x"));
    no_source.nodes.push(flatten("y"));
    assert_eq!(calc_depth(&no_source), 2);
}

// ---- cost ----

#[test]
fn cost_estimates_exact() {
    let mut ir = PipelineIR::new("c".to_string());
    ir.nodes.push(node("g", TransformType::GroupByKey { key_expr: None }));
    let a = CostAnalyzer::new(CostRules::default_rules());
    assert_eq!(a.estimate_costs(&ir, None), (3_500, 15_000, 0));
    let p = DataProfile {
        estimated_throughput_milli_per_sec: Some(1_000_000),
        average_element_size_bytes: Some(1024),
        key_cardinality: None,
        estimated_state_size_milli_gb: Some(2_500),
    };
    assert_eq!(a.estimate_costs(&ir, Some(&p)), (3_500, 741_576, 100));
}

// ---- registry ----

#[test]
fn registry_suites() {
    let rules = RulesConfig::default_rules();
    let names = |v: &Vec<pybeamguard::analyzers::registry::AnyAnalyzer>| -> Vec<String> {
        v.iter().map(|a| a.name().to_string()).collect()
    };
    assert_eq!(create_analyzers(&rules).len(), 10);
    assert_eq!(names(&create_flink_analyzers()), vec!["FlinkCheckpointAnalyzer", "FlinkStateAnalyzer", "FlinkWatermarkAnalyzer"]);
    assert_eq!(names(&create_spark_analyzers(&rules)), vec!["SparkShuffleAnalyzer", "SparkJoinAnalyzer", "SparkStreamingAnalyzer"]);
    assert_eq!(names(&create_analyzers_by_names(&["CostAnalyzer", "GraphAnalyzer", "nope"], &rules)), vec!["GraphAnalyzer", "CostAnalyzer"]);
    let ctx = AnalysisContext { pipeline_ir: PipelineIR::new("e".to_string()), data_profile: None };
    let rs = run_analyzers(&ctx, &create_analyzers(&rules));
    assert_eq!(rs.len(), 10);
    assert_eq!(rs[0].analyzer_name, "GraphAnalyzer");
    assert_eq!(rs[9].analyzer_name, "SynthesisEngine");
}

// ---- text report ----

#[test]
fn text_report_of_nothing() {
    let s = TextReporter.format(&vec![]);
    assert_eq!(
        s,
        "=== PyBeamGuard Analysis Report ===\n\nOverall Risk Score: 0/100\nTotal Findings: 0\n\n=== Analysis Metrics ===\n\n"
    );
}

#[test]
fn text_report_sections() {
    let rs = vec![result(
        "A",
        vec![finding("X", RiskSeverity::Critical, 850), finding("Y", RiskSeverity::Medium, 500)],
        vec![Metric { name: "m".to_string(), value: 2_500 }],
    )];
    let s = TextReporter.format(&rs);
    let expected = "=== PyBeamGuard Analysis Report ===\n\nOverall Risk Score: 0/100\nTotal Findings: 2\n\n\
🔴 CRITICAL ISSUES\nFound 1 critical issue(s):\n\n  • Title\n    Description\n    → Fix it\n    Confidence: 85%\n\n\
🟡 MEDIUM PRIORITY ISSUES\nFound 1 medium-priority issue(s). Review when convenient.\n\n\
=== Analysis Metrics ===\n\nA: Summary\n  m: 2.50\n\n";
    assert_eq!(s, expected);
}

#[test]
fn result_helpers() {
    let r = result(
        "A",
        vec![
            finding("X", RiskSeverity::Critical, 1),
            finding("Y", RiskSeverity::High, 1),
            finding("Z", RiskSeverity::High, 1),
        ],
        vec![Metric { name: "m".to_string(), value: 7 }],
    );
    assert_eq!(r.critical_findings().len(), 1);
    assert_eq!(r.high_findings().len(), 2);
    assert_eq!(r.total_score(), 13);
    assert_eq!(r.metric("m"), Some(7));
    assert_eq!(r.metric("n"), None);
}

#[test]
fn pipeline_graph_queries() {
    let mut ir = PipelineIR::new("g".to_string());
    ir.nodes.push(source("a"));
    ir.nodes.push(flatten("b"));
    ir.nodes.push(node("c", TransformType::Sink { sink_type: "text".to_string() }));
    ir.edges.push(edge("a", "b"));
    ir.edges.push(edge("b", "c"));
    ir.edges.push(edge("a", "c"));
    assert_eq!(ir.get_node("b").map(|n| n.id.clone()), Some("b".to_string()));
    assert!(ir.get_node("z").is_none());
    let down: Vec<&str> = ir.get_downstream_nodes("a").iter().map(|n| n.id.as_str()).collect();
    assert_eq!(down, vec!["b", "c"]);
    let up: Vec<&str> = ir.get_upstream_nodes("c").iter().map(|n| n.id.as_str()).collect();
    assert_eq!(up, vec!["a", "b"]);
    assert_eq!(ir.get_source_nodes().len(), 1);
    assert_eq!(ir.get_sink_nodes()[0].id, "c");
}

#[test]
fn structured_analysis_and_parsing() {
    let code = "import apache_beam as beam\np | 'Read' >> beam.io.ReadFromText('a')\n";
    let ir = pybeamguard::inspect::parse_pipeline(code.to_string()).unwrap();
    assert_eq!(ir.name, "beam_pipeline");
    let rs = match pybeamguard::inspect::analyze_structured(code.to_string(), None) {
        Ok(rs) => rs,
        Err(e) => panic!("{}", e.message()),
    };
    assert_eq!(rs.len(), 10);
    assert!(pybeamguard::inspect::parse_pipeline("x".to_string()).is_err());
}

#[test]
fn report_format_names() {
    assert_eq!(parse_report_format("json"), Some(ReportFormat::Json));
    assert_eq!(parse_report_format("text"), Some(ReportFormat::Text));
    assert_eq!(parse_report_format("xml"), None);
    assert_eq!(parse_report_format("JSON"), None);
    assert_eq!(output_format("json"), ReportFormat::Json);
    assert_eq!(output_format("text"), ReportFormat::Text);
    assert_eq!(output_format("yaml"), ReportFormat::Text);
}

#[test]
fn trimming_follows_unicode_whitespace() {
    let s: Vec<char> = "\u{3000}\t beam \u{a0}\n".chars().collect();
    let t: String = trim_chars(&s).into_iter().collect();
    assert_eq!(t, "beam");
    let s: Vec<char> = "\u{200b}x".chars().collect();
    assert_eq!(trim_chars(&s).len(), 2);
}

#[test]
fn every_result_names_each_metric_once() {
    let mut ir = PipelineIR::new("p".to_string());
    ir.nodes.push(node("read", TransformType::Source { source_type: "kafka".to_string() }));
    ir.nodes.push(node("gbk", TransformType::GroupByKey { key_expr: None }));
    ir.nodes.push(node("combine", TransformType::CombinePerKey { combine_fn: "sum".to_string() }));
    ir.nodes.push(node(
        "win",
        TransformType::Windowing {
            window_type: "fixed".to_string(),
            duration_sec: Some(60),
            trigger: None,
            allowed_lateness_sec: None,
            accumulation_mode: None,
        },
    ));
    let ctx = AnalysisContext { pipeline_ir: ir, data_profile: None };
    let rules = RulesConfig::default_rules();
    let mut analyzers = create_analyzers(&rules);
    analyzers.append(&mut create_flink_analyzers());
    analyzers.append(&mut create_spark_analyzers(&rules));
    for r in run_analyzers(&ctx, &analyzers) {
        for (i, a) in r.metrics.iter().enumerate() {
            for b in r.metrics.iter().skip(i + 1) {
                assert_ne!(a.name, b.name);
            }
        }
    }
}

#[test]
fn exit_status_follows_fail_on() {
    let mut ir = PipelineIR::new("p".to_string());
    ir.nodes.push(node("gbk", TransformType::GroupByKey { key_expr: None }));
    let ctx = AnalysisContext { pipeline_ir: ir, data_profile: None };
    let results = run_analyzers(&ctx, &create_analyzers(&RulesConfig::default_rules()));
    assert_eq!(exit_status(None, &results), 0);
    assert_eq!(exit_status(Some(RiskSeverity::Info), &results), 1);
    let empty: Vec<AnalysisResult> = vec![];
    assert_eq!(exit_status(Some(RiskSeverity::Info), &empty), 0);
    match parse_analyze_args(&["p.py", "--fail-on", "HIGH"]) {
        Ok(o) => assert_eq!(o.fail_on, Some(RiskSeverity::High)),
        Err(_) => panic!("expected a threshold"),
    }
}

#[test]
fn pipeline_ids_are_v4_uuids() {
    let ir = PipelineIR::new("p".to_string());
    let id: Vec<char> = ir.id.chars().collect();
    assert_eq!(id.len(), 36);
    for (i, c) in id.iter().enumerate() {
        if i == 8 || i == 13 || i == 18 || i == 23 {
            assert_eq!(*c, '-');
        } else {
            assert!(c.is_ascii_digit() || ('a'..='f').contains(c));
        }
    }
    assert_eq!(id[14], '4');
    assert!(['8', '9', 'a', 'b'].contains(&id[19]));
}

#[test]
fn text_report_lists_each_summary() {
    let mut ir = PipelineIR::new("p".to_string());
    ir.nodes.push(node("gbk", TransformType::GroupByKey { key_expr: None }));
    let ctx = AnalysisContext { pipeline_ir: ir, data_profile: None };
    let results = run_analyzers(&ctx, &create_analyzers(&RulesConfig::default_rules()));
    let out = TextReporter.format(&results);
    assert!(out.starts_with("=== PyBeamGuard Analysis Report ===\n\nOverall Risk Score: "));
    for r in &results {
        assert!(out.contains(&format!("{}: {}\n", r.analyzer_name, r.summary)));
    }
}
