use pybeamguard::analyzer::{AnalysisResult, Finding, FindingType, Metric, RiskSeverity};
use pybeamguard::insights::{
    calculate_quality_score, calculate_risk_score, compare_results, create_result_snapshot,
    deduplicate_findings, filter_findings_by_severity, get_analyzer_performance,
    get_fix_recommendations, get_severity_summary, merge_results, prioritize_findings,
    rank_analyzers_by_impact, search_findings, stable_desc_order,
};
use pybeamguard::inspect::{
    analyze_with_analyzers, get_available_analyzers, get_pipeline_complexity_score,
    get_pipeline_stats, get_pipeline_summary, get_text_report, validate_pipeline_syntax,
    SelectionError,
};
use pybeamguard::parser::ParseError;

fn finding(id: &str, severity: RiskSeverity, confidence: u32, rec: Option<&str>) -> Finding {
    Finding {
        id: id.to_string(),
        severity,
        finding_type: FindingType::PerformanceRisk,
        title: format!("Title {}", id),
        description: format!("About {}", id),
        affected_nodes: vec![],
        recommendation: rec.map(|s| s.to_string()),
        estimated_impact: None,
        confidence,
    }
}

fn result(name: &str, findings: Vec<Finding>) -> AnalysisResult {
    AnalysisResult {
        analyzer_name: name.to_string(),
        version: "0.1.0".to_string(),
        findings,
        metrics: vec![Metric { name: "m".to_string(), value: 1 }],
        summary: "s".to_string(),
        confidence: 800,
    }
}

fn sample() -> Vec<AnalysisResult> {
    vec![
        result(
            "A",
            vec![
                finding("X", RiskSeverity::Critical, 900, Some("Fix X")),
                finding("Y", RiskSeverity::Low, 500, None),
            ],
        ),
        result("B", vec![]),
        result(
            "C",
            vec![
                finding("X", RiskSeverity::High, 700, None),
                finding("Z", RiskSeverity::Medium, 600, Some("Fix Z")),
                finding("W", RiskSeverity::Info, 400, None),
            ],
        ),
    ]
}

const PIPELINE: &str = "import apache_beam as beam\np | 'Read' >> beam.io.ReadFromText('a')\np | 'Group' >> beam.GroupByKey()\np | 'Write' >> beam.io.WriteToText('b')\n";

#[test]
fn stable_order_keeps_ties_in_place() {
    assert_eq!(stable_desc_order(&vec![1, 3, 2, 3, 1]), vec![1, 3, 2, 0, 4]);
    assert_eq!(stable_desc_order(&vec![]), Vec::<usize>::new());
}

#[test]
fn severity_summary_counts() {
    let s = get_severity_summary(sample());
    assert_eq!(
        (s.critical_count, s.high_count, s.medium_count, s.low_count, s.info_count),
        (1, 1, 1, 1, 1)
    );
}

#[test]
fn risk_and_quality_scores() {
    // Scores 5 + 2 + 4 + 3 + 1 = 15 over 5 findings: 3/5 of the maximum.
    assert_eq!(calculate_risk_score(sample()), 60_000);
    assert_eq!(calculate_risk_score(vec![]), 0);
    // Confidences sum to 3100 (thousandths) over 5 findings: 62%.
    assert_eq!(calculate_quality_score(sample()), 62_000);
    assert_eq!(calculate_quality_score(vec![]), 0);
    assert_eq!(calculate_quality_score(vec![result("B", vec![])]), 100_000);
}

#[test]
fn snapshot_uses_given_time() {
    let s = create_result_snapshot(sample(), 1_700_000_000);
    assert_eq!(s.timestamp_unix, 1_700_000_000);
    assert_eq!(s.total_findings, 5);
    assert_eq!(s.critical_count, 1);
    assert_eq!(s.analyzer_count, 3);
    assert_eq!(s.overall_risk_score, 60_000);
}

#[test]
fn filter_by_minimum_severity() {
    let r = filter_findings_by_severity(sample(), 4);
    assert_eq!(r.len(), 3);
    let ids: Vec<Vec<&str>> = r.iter().map(|x| x.findings.iter().map(|f| f.id.as_str()).collect()).collect();
    assert_eq!(ids, vec![vec!["X"], vec![], vec!["X"]]);
    assert_eq!(r[2].metrics.len(), 1);
}

#[test]
fn search_ignores_case() {
    let found = search_findings(sample(), "ABOUT z");
    assert_eq!(found.len(), 1);
    assert_eq!(found[0].id, "Z");
    assert_eq!(search_findings(sample(), "title").len(), 5);
    assert!(search_findings(sample(), "nothing").is_empty());
}

#[test]
fn deduplication_keeps_first_occurrence() {
    let r = deduplicate_findings(sample());
    let ids: Vec<Vec<&str>> = r.iter().map(|x| x.findings.iter().map(|f| f.id.as_str()).collect()).collect();
    assert_eq!(ids, vec![vec!["X", "Y"], vec![], vec!["Z", "W"]]);
    assert_eq!(r[2].analyzer_name, "C");
}

#[test]
fn comparing_runs() {
    let old = vec![result(
        "A",
        vec![
            finding("X", RiskSeverity::High, 1, None),
            finding("Y", RiskSeverity::High, 1, None),
            finding("Y", RiskSeverity::Low, 1, None),
        ],
    )];
    let new = vec![result(
        "A",
        vec![
            finding("Y", RiskSeverity::High, 1, None),
            finding("Z", RiskSeverity::High, 1, None),
            finding("V", RiskSeverity::High, 1, None),
        ],
    )];
    let c = compare_results(old, new);
    assert_eq!((c.findings_added, c.findings_removed, c.findings_unchanged, c.severity_changed), (2, 1, 1, 0));
}

#[test]
fn ranking_by_finding_count() {
    let r = rank_analyzers_by_impact(sample());
    let names: Vec<&str> = r.iter().map(|x| x.analyzer_name.as_str()).collect();
    assert_eq!(names, vec!["C", "A"]);
    assert_eq!(r[0].finding_count, 3);
    assert_eq!(r[0].avg_confidence, 566);
    assert_eq!(r[1].avg_confidence, 700);
}

#[test]
fn performance_by_total_severity() {
    let r = get_analyzer_performance(sample());
    let names: Vec<&str> = r.iter().map(|x| x.analyzer_name.as_str()).collect();
    // A: 5 + 2 = 7, C: 4 + 3 + 1 = 8.
    assert_eq!(names, vec!["C", "A"]);
    assert_eq!(r[0].total_impact_score, 8);
    assert_eq!(r[1].total_impact_score, 7);
}

#[test]
fn fix_recommendations_by_priority() {
    let r = get_fix_recommendations(sample());
    let ids: Vec<&str> = r.iter().map(|x| x.finding_id.as_str()).collect();
    assert_eq!(ids, vec!["X", "X", "Z", "Y", "W"]);
    assert_eq!(r[0].recommendation, "Fix X");
    assert_eq!(r[0].estimated_effort_hours, 4_000);
    assert_eq!(r[1].recommendation, "Address C issue: Title X");
    assert_eq!(r[1].priority, 4);
    assert_eq!(r[4].estimated_effort_hours, 500);
}

#[test]
fn prioritised_findings() {
    let r = prioritize_findings(sample());
    let ids: Vec<&str> = r.iter().map(|x| x.finding_id.as_str()).collect();
    assert_eq!(ids, vec!["X", "X", "Z", "Y", "W"]);
    // Critical at 0.9 confidence: (1.0 * 0.6 + 0.9 * 0.4) * 100 = 96.
    assert_eq!(r[0].priority_score, 96_000);
    assert_eq!(r[0].recommendation, "Fix X");
    assert_eq!(r[3].recommendation, "Title Y");
}

#[test]
fn merging_result_sets() {
    let sets = vec![
        vec![result("b", vec![finding("1", RiskSeverity::Low, 1, None)]), result("a", vec![])],
        vec![result("b", vec![finding("2", RiskSeverity::Low, 1, None)])],
    ];
    let r = merge_results(sets);
    let names: Vec<&str> = r.iter().map(|x| x.analyzer_name.as_str()).collect();
    assert_eq!(names, vec!["a", "b"]);
    let ids: Vec<&str> = r[1].findings.iter().map(|f| f.id.as_str()).collect();
    // Each occurrence's findings, in input order, each once.
    assert_eq!(ids, vec!["1", "2"]);
}

#[test]
fn available_analyzers_in_order() {
    let a = get_available_analyzers();
    assert_eq!(a.len(), 10);
    assert_eq!(a[0].name, "GraphAnalyzer");
    assert_eq!(a[0].priority, 1);
    assert_eq!(a[9].name, "SynthesisEngine");
    assert_eq!(a[9].priority, 10);
    assert!(a.iter().all(|x| x.version == "0.1.0"));
}

#[test]
fn selective_analysis() {
    match analyze_with_analyzers(PIPELINE.to_string(), vec!["CostAnalyzer".to_string(), "GraphAnalyzer".to_string()], None) {
        Ok(r) => {
            let names: Vec<&str> = r.iter().map(|x| x.analyzer_name.as_str()).collect();
            assert_eq!(names, vec!["GraphAnalyzer", "CostAnalyzer"]);
        }
        Err(e) => panic!("{}", e.message()),
    }
    match analyze_with_analyzers(PIPELINE.to_string(), vec!["Nope".to_string()], None) {
        Err(e @ SelectionError::NoAnalyzersMatched(_)) => {
            assert!(e.message().starts_with("No analyzers matched: [\"Nope\"]. Available: GraphAnalyzer"))
        }
        _ => panic!("expected no match"),
    }
    assert!(matches!(
        analyze_with_analyzers("x = 1".to_string(), vec![], None),
        Err(SelectionError::Parse(ParseError::NoBeamImports))
    ));
}

#[test]
fn pipeline_inspection() {
    assert!(validate_pipeline_syntax(PIPELINE.to_string()));
    assert!(!validate_pipeline_syntax("x = 1".to_string()));
    // Four nodes (the read line is also a sink) and three edges.
    assert_eq!(get_pipeline_complexity_score(PIPELINE.to_string()), Ok(5_500));
    let s = get_pipeline_summary(PIPELINE.to_string()).unwrap();
    assert_eq!((s.node_count, s.edge_count, s.source_count, s.sink_count, s.complexity), (4, 3, 1, 2, 5_500));
    assert_eq!(s.name, "beam_pipeline");
    let st = get_pipeline_stats(PIPELINE.to_string()).unwrap();
    assert_eq!((st.total_nodes, st.total_edges, st.max_depth), (4, 3, 3));
    assert_eq!(get_pipeline_stats("x = 1".to_string()).err(), Some(ParseError::NoBeamImports));
    let report = get_text_report(PIPELINE.to_string(), None).unwrap();
    assert!(report.starts_with("=== PyBeamGuard Analysis Report ===\n\n"));
}

#[test]
fn risk_of_all_critical_is_full_scale() {
    let rs = vec![result(
        "A",
        vec![finding("X", RiskSeverity::Critical, 1, None), finding("Y", RiskSeverity::Critical, 1, None)],
    )];
    assert_eq!(calculate_risk_score(rs), 100_000);
}

#[test]
fn filter_with_minimum_one_keeps_everything() {
    let r = filter_findings_by_severity(sample(), 1);
    let counts: Vec<usize> = r.iter().map(|x| x.findings.len()).collect();
    assert_eq!(counts, vec![2, 0, 3]);
}
