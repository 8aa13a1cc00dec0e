//! The Beam framework parser.
use super::Framework;
use crate::ir::PipelineIR;
use crate::parser::{beam_pipeline, BeamPipelineParser, ParseError, BEAM_IMPORT_RE};
use crate::pattern::regex_is_match;
use vstd::prelude::*;

verus! {

/// Parses Apache Beam sources with [`BeamPipelineParser`].
pub struct BeamFrameworkParser;

impl BeamFrameworkParser {
    /// Parses Beam Python source (see [`BeamPipelineParser::parse`]).
    pub fn parse(&self, code: &str) -> (r: Result<PipelineIR, ParseError>)
        ensures
            match r {
                Ok(ir) => regex_is_match(BEAM_IMPORT_RE@, code@) && beam_pipeline(ir, code@),
                Err(e) => !regex_is_match(BEAM_IMPORT_RE@, code@) && e == ParseError::NoBeamImports,
            },
    {
        let parser = BeamPipelineParser::new();
        parser.parse(code)
    }

    /// The framework this parser reads.
    pub fn framework(&self) -> (r: Framework)
        ensures
            r == Framework::ApacheBeam,
    {
        Framework::ApacheBeam
    }
}

} // verus!
