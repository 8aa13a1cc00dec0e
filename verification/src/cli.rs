//! The decisions of the command-line tool: reading the options of
//! `analyze`, naming severities, and deciding whether a `--fail-on`
//! threshold is breached.
use crate::analyzer::{severity_score, AnalysisResult, Finding, FindingView, RiskSeverity};
use crate::analyzers::registry::result_views;
use crate::reporting::text_reporter::all_findings;
use crate::text::{ascii_lower, is_ascii_text, lower_text, str_eq, to_lowercase};
use vstd::prelude::*;

verus! {

/// The severity a (lowercased) `--fail-on` value names, if any.
pub open spec fn severity_named(l: Seq<char>) -> Option<RiskSeverity> {
    if l == "info"@ {
        Some(RiskSeverity::Info)
    } else if l == "low"@ {
        Some(RiskSeverity::Low)
    } else if l == "medium"@ {
        Some(RiskSeverity::Medium)
    } else if l == "high"@ {
        Some(RiskSeverity::High)
    } else if l == "critical"@ {
        Some(RiskSeverity::Critical)
    } else {
        None
    }
}

/// The lowercase name of a severity, as `--fail-on` takes it.
pub open spec fn severity_display(s: RiskSeverity) -> Seq<char> {
    match s {
        RiskSeverity::Info => "info"@,
        RiskSeverity::Low => "low"@,
        RiskSeverity::Medium => "medium"@,
        RiskSeverity::High => "high"@,
        RiskSeverity::Critical => "critical"@,
    }
}

/// Parses a `--fail-on` severity, ignoring case; `None` for an unknown
/// value.
pub fn parse_severity(s: &str) -> (r: Option<RiskSeverity>)
    ensures
        r == severity_named(lower_text(s@)),
        is_ascii_text(s@) ==> r == severity_named(ascii_lower(s@)),
{
    let l = to_lowercase(s);
    let t = l.as_str();
    if str_eq(t, "info") {
        Some(RiskSeverity::Info)
    } else if str_eq(t, "low") {
        Some(RiskSeverity::Low)
    } else if str_eq(t, "medium") {
        Some(RiskSeverity::Medium)
    } else if str_eq(t, "high") {
        Some(RiskSeverity::High)
    } else if str_eq(t, "critical") {
        Some(RiskSeverity::Critical)
    } else {
        None
    }
}

/// The lowercase name of a severity.
pub fn args_fail_on_display(sev: RiskSeverity) -> (r: &'static str)
    ensures
        r@ == severity_display(sev),
{
    match sev {
        RiskSeverity::Info => "info",
        RiskSeverity::Low => "low",
        RiskSeverity::Medium => "medium",
        RiskSeverity::High => "high",
        RiskSeverity::Critical => "critical",
    }
}

/// Each severity's name reads back as that severity: the names the tool
/// prints are exactly the names `--fail-on` accepts.
pub proof fn lemma_severity_names_round_trip(s: RiskSeverity)
    ensures
        severity_named(severity_display(s)) == Some(s),
{
    reveal_strlit("info");
    reveal_strlit("low");
    reveal_strlit("medium");
    reveal_strlit("high");
    reveal_strlit("critical");
    assert("high"@[0] != "info"@[0]);
    assert("high"@ != "info"@);
    assert("low"@.len() != "info"@.len());
    assert("medium"@.len() != "info"@.len() && "medium"@.len() != "low"@.len());
    assert("critical"@.len() != "info"@.len() && "critical"@.len() != "low"@.len());
    assert("critical"@.len() != "medium"@.len() && "critical"@.len() != "high"@.len());
    assert("high"@.len() != "low"@.len() && "high"@.len() != "medium"@.len());
}

/// Options of the `analyze` command.
pub struct AnalyzeOptions {
    pub pipeline_file: String,
    /// `json` or anything else for text.
    pub format: String,
    pub data_profile_file: Option<String>,
    pub fail_on: Option<RiskSeverity>,
    /// `beam`, `flink` or `spark`.
    pub framework: String,
}

/// The mathematical content of [`AnalyzeOptions`].
pub struct OptionsView {
    pub pipeline_file: Seq<char>,
    pub format: Seq<char>,
    pub data_profile_file: Option<Seq<char>>,
    pub fail_on: Option<RiskSeverity>,
    pub framework: Seq<char>,
}

impl View for AnalyzeOptions {
    type V = OptionsView;

    open spec fn view(&self) -> OptionsView {
        OptionsView {
            pipeline_file: self.pipeline_file@,
            format: self.format@,
            data_profile_file: crate::ir::opt_str_view(self.data_profile_file),
            fail_on: self.fail_on,
            framework: self.framework@,
        }
    }
}

/// Why the options of `analyze` are refused.
pub enum ArgsError {
    /// No pipeline file.
    MissingPipeline,
    /// `--format` at the end.
    FormatNeedsValue,
    /// `--framework` with a value other than beam, flink or spark.
    InvalidFramework(String),
    /// `--framework` at the end.
    FrameworkNeedsValue,
    /// `--data-profile` at the end.
    ProfileNeedsValue,
    /// `--fail-on` with a value that names no severity.
    InvalidFailOn(String),
    /// `--fail-on` at the end.
    FailOnNeedsValue,
}

/// The mathematical content of an [`ArgsError`].
pub enum ArgsErrorView {
    MissingPipeline,
    FormatNeedsValue,
    InvalidFramework(Seq<char>),
    FrameworkNeedsValue,
    ProfileNeedsValue,
    InvalidFailOn(Seq<char>),
    FailOnNeedsValue,
}

impl View for ArgsError {
    type V = ArgsErrorView;

    open spec fn view(&self) -> ArgsErrorView {
        match self {
            ArgsError::MissingPipeline => ArgsErrorView::MissingPipeline,
            ArgsError::FormatNeedsValue => ArgsErrorView::FormatNeedsValue,
            ArgsError::InvalidFramework(s) => ArgsErrorView::InvalidFramework(s@),
            ArgsError::FrameworkNeedsValue => ArgsErrorView::FrameworkNeedsValue,
            ArgsError::ProfileNeedsValue => ArgsErrorView::ProfileNeedsValue,
            ArgsError::InvalidFailOn(s) => ArgsErrorView::InvalidFailOn(s@),
            ArgsError::FailOnNeedsValue => ArgsErrorView::FailOnNeedsValue,
        }
    }
}

pub const USAGE: &'static str = "Usage: pybeamguard analyze <pipeline.py> [--framework beam|flink|spark] [--data-profile <profile.json>] [--format json|text] [--fail-on <severity>]";
pub const FORMAT_NEEDS_VALUE: &'static str = "--format requires a value";
pub const FRAMEWORK_INVALID_A: &'static str = "Invalid --framework value '";
pub const FRAMEWORK_INVALID_B: &'static str = "'. Expected one of: beam, flink, spark";
pub const FRAMEWORK_NEEDS_VALUE: &'static str = "--framework requires a value (beam|flink|spark)";
pub const PROFILE_NEEDS_VALUE: &'static str = "--data-profile requires a file path";
pub const FAIL_ON_INVALID_A: &'static str = "Invalid --fail-on value '";
pub const FAIL_ON_INVALID_B: &'static str = "'. Expected one of: info, low, medium, high, critical";
pub const FAIL_ON_NEEDS_VALUE: &'static str = "--fail-on requires a severity value (info|low|medium|high|critical)";

/// The message printed for an error.
pub open spec fn error_message(e: ArgsErrorView) -> Seq<char> {
    match e {
        ArgsErrorView::MissingPipeline => USAGE@,
        ArgsErrorView::FormatNeedsValue => FORMAT_NEEDS_VALUE@,
        ArgsErrorView::InvalidFramework(f) => FRAMEWORK_INVALID_A@ + f + FRAMEWORK_INVALID_B@,
        ArgsErrorView::FrameworkNeedsValue => FRAMEWORK_NEEDS_VALUE@,
        ArgsErrorView::ProfileNeedsValue => PROFILE_NEEDS_VALUE@,
        ArgsErrorView::InvalidFailOn(v) => FAIL_ON_INVALID_A@ + v + FAIL_ON_INVALID_B@,
        ArgsErrorView::FailOnNeedsValue => FAIL_ON_NEEDS_VALUE@,
    }
}

impl ArgsError {
    /// The message printed for this error.
    pub fn message(&self) -> (r: String)
        ensures
            r@ == error_message(self@),
    {
        match self {
            ArgsError::MissingPipeline => String::from_str(USAGE),
            ArgsError::FormatNeedsValue => String::from_str(FORMAT_NEEDS_VALUE),
            ArgsError::InvalidFramework(f) => crate::text::concat3(
                FRAMEWORK_INVALID_A,
                f.as_str(),
                FRAMEWORK_INVALID_B,
            ),
            ArgsError::FrameworkNeedsValue => String::from_str(FRAMEWORK_NEEDS_VALUE),
            ArgsError::ProfileNeedsValue => String::from_str(PROFILE_NEEDS_VALUE),
            ArgsError::InvalidFailOn(v) => crate::text::concat3(FAIL_ON_INVALID_A, v.as_str(), FAIL_ON_INVALID_B),
            ArgsError::FailOnNeedsValue => String::from_str(FAIL_ON_NEEDS_VALUE),
        }
    }
}

/// A framework name `--framework` accepts.
pub open spec fn known_framework(f: Seq<char>) -> bool {
    f == "beam"@ || f == "flink"@ || f == "spark"@
}

/// Reads the options from position `i` on, starting from `st`: each option
/// takes the next argument as its value; unknown arguments are skipped.
pub open spec fn options_from(args: Seq<Seq<char>>, i: int, st: OptionsView) -> Result<OptionsView, ArgsErrorView>
    decreases args.len() - i,
{
    if i < 0 || i >= args.len() {
        Ok(st)
    } else {
        let a = args[i];
        let has_value = i + 1 < args.len();
        if a == "--format"@ {
            if has_value {
                options_from(args, i + 2, OptionsView { format: args[i + 1], ..st })
            } else {
                Err(ArgsErrorView::FormatNeedsValue)
            }
        } else if a == "--framework"@ {
            if has_value {
                if known_framework(args[i + 1]) {
                    options_from(args, i + 2, OptionsView { framework: args[i + 1], ..st })
                } else {
                    Err(ArgsErrorView::InvalidFramework(args[i + 1]))
                }
            } else {
                Err(ArgsErrorView::FrameworkNeedsValue)
            }
        } else if a == "--data-profile"@ {
            if has_value {
                options_from(args, i + 2, OptionsView { data_profile_file: Some(args[i + 1]), ..st })
            } else {
                Err(ArgsErrorView::ProfileNeedsValue)
            }
        } else if a == "--fail-on"@ {
            if has_value {
                match severity_named(lower_text(args[i + 1])) {
                    Some(s) => options_from(args, i + 2, OptionsView { fail_on: Some(s), ..st }),
                    None => Err(ArgsErrorView::InvalidFailOn(args[i + 1])),
                }
            } else {
                Err(ArgsErrorView::FailOnNeedsValue)
            }
        } else {
            options_from(args, i + 1, st)
        }
    }
}

/// The options of `analyze`: the pipeline file first, then text output,
/// no profile, no threshold and Beam unless the options say otherwise.
pub open spec fn analyze_options(args: Seq<Seq<char>>) -> Result<OptionsView, ArgsErrorView> {
    if args.len() == 0 {
        Err(ArgsErrorView::MissingPipeline)
    } else {
        options_from(
            args,
            1,
            OptionsView {
                pipeline_file: args[0],
                format: "text"@,
                data_profile_file: None,
                fail_on: None,
                framework: "beam"@,
            },
        )
    }
}

/// Reads the arguments of `analyze` (see [`analyze_options`]).
pub fn parse_analyze_args(args: &[&str]) -> (r: Result<AnalyzeOptions, ArgsError>)
    ensures
        match r {
            Ok(o) => analyze_options(args@.map_values(|s: &str| s@)) == Ok::<OptionsView, ArgsErrorView>(o@),
            Err(e) => analyze_options(args@.map_values(|s: &str| s@)) == Err::<OptionsView, ArgsErrorView>(e@),
        },
{
    let ghost av = args@.map_values(|s: &str| s@);
    if args.len() == 0 {
        return Err(ArgsError::MissingPipeline);
    }
    let mut st = AnalyzeOptions {
        pipeline_file: String::from_str(args[0]),
        format: String::from_str("text"),
        data_profile_file: None,
        fail_on: None,
        framework: String::from_str("beam"),
    };
    let mut i: usize = 1;
    while i < args.len()
        invariant
            1 <= i <= args@.len(),
            av == args@.map_values(|s: &str| s@),
            options_from(av, i as int, st@) == analyze_options(av),
        decreases args@.len() - i,
    {
        let a = args[i];
        let has_value = i + 1 < args.len();
        if str_eq(a, "--format") {
            if !has_value {
                return Err(ArgsError::FormatNeedsValue);
            }
            st.format = String::from_str(args[i + 1]);
            i = i + 2;
        } else if str_eq(a, "--framework") {
            if !has_value {
                return Err(ArgsError::FrameworkNeedsValue);
            }
            let f = args[i + 1];
            if !(str_eq(f, "beam") || str_eq(f, "flink") || str_eq(f, "spark")) {
                return Err(ArgsError::InvalidFramework(String::from_str(f)));
            }
            st.framework = String::from_str(f);
            i = i + 2;
        } else if str_eq(a, "--data-profile") {
            if !has_value {
                return Err(ArgsError::ProfileNeedsValue);
            }
            st.data_profile_file = Some(String::from_str(args[i + 1]));
            i = i + 2;
        } else if str_eq(a, "--fail-on") {
            if !has_value {
                return Err(ArgsError::FailOnNeedsValue);
            }
            match parse_severity(args[i + 1]) {
                Some(s) => st.fail_on = Some(s),
                None => return Err(ArgsError::InvalidFailOn(String::from_str(args[i + 1]))),
            }
            i = i + 2;
        } else {
            i = i + 1;
        }
    }
    Ok(st)
}

/// Some finding is at least as severe as the threshold.
pub open spec fn breached(fs: Seq<FindingView>, threshold: RiskSeverity) -> bool {
    exists|k: int| 0 <= k < fs.len() && severity_score((#[trigger] fs[k]).severity) >= severity_score(threshold)
}

/// Whether some finding of the results is at least as severe as the
/// `--fail-on` threshold.
pub fn fail_on_breached(results: &Vec<AnalysisResult>, threshold: RiskSeverity) -> (r: bool)
    ensures
        r == breached(all_findings(result_views(results@)), threshold),
{
    let ghost rs = result_views(results@);
    let t = threshold.score();
    let mut i: usize = 0;
    proof {
        assert(rs.take(0) =~= Seq::<crate::analyzer::AnalysisResultView>::empty());
    }
    while i < results.len()
        invariant
            i <= results@.len(),
            rs == result_views(results@),
            t == severity_score(threshold),
            !breached(all_findings(rs.take(i as int)), threshold),
        decreases results@.len() - i,
    {
        let ghost before = all_findings(rs.take(i as int));
        proof {
            assert(rs.take(i + 1).drop_last() =~= rs.take(i as int));
            assert(rs.take(i + 1).last() == rs[i as int]);
        }
        let fs = &results[i].findings;
        let ghost after = all_findings(rs.take(i + 1));
        proof {
            assert(after =~= before + crate::analyzer::finding_views(fs@));
        }
        let mut j: usize = 0;
        while j < fs.len()
            invariant
                j <= fs@.len(),
                i < results@.len(),
                rs == result_views(results@),
                fs == results@[i as int].findings,
                after == all_findings(rs.take(i + 1)),
                t == severity_score(threshold),
                after == before + crate::analyzer::finding_views(fs@),
                !breached(before, threshold),
                forall|k: int| 0 <= k < j ==> severity_score((#[trigger] fs@[k]).severity) < t,
            decreases fs@.len() - j,
        {
            if fs[j].severity.score() >= t {
                proof {
                    assert(after[before.len() + j] == fs@[j as int]@);
                    assert(rs.take(i + 1) =~= rs.take(i + 1));
                    lemma_breach_in_prefix(rs, i + 1, before.len() + j, threshold);
                }
                return true;
            }
            j = j + 1;
        }
        proof {
            assert forall|k: int| 0 <= k < after.len() implies severity_score((#[trigger] after[k]).severity) < t by {
                if k >= before.len() {
                    assert(after[k] == fs@[k - before.len()]@);
                } else {
                    assert(after[k] == before[k]);
                }
            }
        }
        i = i + 1;
    }
    proof {
        assert(rs.take(results@.len() as int) =~= rs);
    }
    false
}

/// A breach among the findings of the first `n` results is a breach among
/// the findings of all of them.
proof fn lemma_breach_in_prefix(rs: Seq<crate::analyzer::AnalysisResultView>, n: int, k: int, threshold: RiskSeverity)
    requires
        0 <= n <= rs.len(),
        0 <= k < all_findings(rs.take(n)).len(),
        severity_score(all_findings(rs.take(n))[k].severity) >= severity_score(threshold),
    ensures
        breached(all_findings(rs), threshold),
    decreases rs.len() - n,
{
    if n == rs.len() {
        assert(rs.take(n) =~= rs);
    } else {
        assert(rs.take(n + 1).drop_last() =~= rs.take(n));
        assert(all_findings(rs.take(n + 1)) =~= all_findings(rs.take(n)) + rs[n].findings);
        assert(all_findings(rs.take(n + 1))[k] == all_findings(rs.take(n))[k]);
        lemma_breach_in_prefix(rs, n + 1, k, threshold);
    }
}

/// Lowering the `--fail-on` threshold never lets a failing run pass.
pub proof fn lemma_fail_on_monotone(fs: Seq<FindingView>, strict: RiskSeverity, lenient: RiskSeverity)
    requires
        severity_score(lenient) <= severity_score(strict),
        breached(fs, strict),
    ensures
        breached(fs, lenient),
{
    let k = choose|k: int| 0 <= k < fs.len() && severity_score((#[trigger] fs[k]).severity) >= severity_score(strict);
    assert(severity_score(fs[k].severity) >= severity_score(lenient));
}

/// The names the tool prints are ASCII and already lowercase, so
/// `--fail-on` reads each back as its severity: with the ASCII case of
/// [`parse_severity`], `parse_severity(args_fail_on_display(s)) == Some(s)`.
pub proof fn lemma_parse_severity_round_trip(s: RiskSeverity)
    ensures
        is_ascii_text(severity_display(s)),
        ascii_lower(severity_display(s)) == severity_display(s),
        severity_named(ascii_lower(severity_display(s))) == Some(s),
{
    reveal_strlit("info");
    reveal_strlit("low");
    reveal_strlit("medium");
    reveal_strlit("high");
    reveal_strlit("critical");
    let d = severity_display(s);
    assert(ascii_lower(d) =~= d);
    lemma_severity_names_round_trip(s);
}

/// The exit status of an `analyze` run whose analysis produced `results`:
/// 1 when a `--fail-on` threshold is set and some finding meets it, else 0.
pub fn exit_status(fail_on: Option<RiskSeverity>, results: &Vec<AnalysisResult>) -> (code: u8)
    ensures
        code == match fail_on {
            Some(t) => if breached(all_findings(result_views(results@)), t) {
                1u8
            } else {
                0u8
            },
            None => 0u8,
        },
{
    match fail_on {
        Some(t) => if fail_on_breached(results, t) {
            1
        } else {
            0
        },
        None => 0,
    }
}

/// `--fail-on` right after the pipeline file: a severity name (in any case)
/// sets the threshold, anything else is refused before any file is read.
pub proof fn lemma_fail_on_option(path: Seq<char>, s: Seq<char>)
    ensures
        ({
            let args = seq![path, "--fail-on"@, s];
            match severity_named(lower_text(s)) {
                Some(t) => analyze_options(args) matches Ok(o) && o.fail_on == Some(t) && o.pipeline_file == path,
                None => analyze_options(args) == Err::<OptionsView, ArgsErrorView>(ArgsErrorView::InvalidFailOn(s)),
            }
        }),
{
    reveal_strlit("--fail-on");
    reveal_strlit("--format");
    reveal_strlit("--framework");
    reveal_strlit("--data-profile");
    let args = seq![path, "--fail-on"@, s];
    assert(args[1] == "--fail-on"@);
    assert("--fail-on"@ != "--format"@) by {
        assert("--fail-on"@[3] != "--format"@[3]);
    }
    assert("--fail-on"@ != "--framework"@) by {
        assert("--fail-on"@[3] != "--framework"@[3]);
    }
    assert("--fail-on"@ != "--data-profile"@) by {
        assert("--fail-on"@[2] != "--data-profile"@[2]);
    }
    let st = OptionsView {
        pipeline_file: path,
        format: "text"@,
        data_profile_file: None,
        fail_on: None,
        framework: "beam"@,
    };
    match severity_named(lower_text(s)) {
        Some(t) => {
            assert(options_from(args, 3, OptionsView { fail_on: Some(t), ..st }) == Ok::<
                OptionsView,
                ArgsErrorView,
            >(OptionsView { fail_on: Some(t), ..st }));
        },
        None => {},
    }
}

} // verus!
