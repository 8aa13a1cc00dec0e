//! Reports of analysis results.
pub mod json_reporter;
pub mod text_reporter;

pub use json_reporter::JsonReporter;
pub use text_reporter::TextReporter;

use crate::text::str_eq;
use vstd::prelude::*;

verus! {

/// The forms a report can take.
#[derive(Debug, Clone, Copy, PartialEq, Eq, Structural)]
pub enum ReportFormat {
    Json,
    Text,
}

/// The report format a name asks for: `json` or `text`, nothing else.
pub fn parse_report_format(name: &str) -> (r: Option<ReportFormat>)
    ensures
        r == (if name@ == "json"@ {
            Some(ReportFormat::Json)
        } else if name@ == "text"@ {
            Some(ReportFormat::Text)
        } else {
            None
        }),
{
    if str_eq(name, "json") {
        Some(ReportFormat::Json)
    } else if str_eq(name, "text") {
        Some(ReportFormat::Text)
    } else {
        None
    }
}

/// The command line's `--format`: JSON for `json`, text for anything else.
pub fn output_format(name: &str) -> (r: ReportFormat)
    ensures
        r == (if name@ == "json"@ {
            ReportFormat::Json
        } else {
            ReportFormat::Text
        }),
{
    if str_eq(name, "json") {
        ReportFormat::Json
    } else {
        ReportFormat::Text
    }
}

} // verus!
