//! The JSON report.
use vstd::prelude::*;

verus! {

/// Formats analysis results as pretty-printed JSON.  The serialisation
/// itself is done where the results' serialisable form lives, outside this
/// library.
pub struct JsonReporter;

} // verus!
