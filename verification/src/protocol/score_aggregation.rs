//! How the parts of a score definition are aggregated.

use crate::error::SCError;
use crate::text::str_eq;
use vstd::prelude::*;

verus! {

/// How a score's parts are combined over the games played.
#[derive(Debug, Clone, Copy, PartialEq, Eq, Structural, Hash)]
pub enum ScoreAggregation {
    Sum,
    Average,
}

/// What parsing an aggregation token yields: the aggregation of that exact
/// name, an unknown-variant error for any other text.
pub open spec fn spec_parse_aggregation(s: Seq<char>) -> Result<ScoreAggregation, SCError> {
    if s == "SUM"@ {
        Ok(ScoreAggregation::Sum)
    } else if s == "AVERAGE"@ {
        Ok(ScoreAggregation::Average)
    } else {
        Err(SCError::UnknownVariant)
    }
}

impl ScoreAggregation {
    /// Parses the aggregation's text token.
    pub fn from_name(s: &str) -> (r: Result<ScoreAggregation, SCError>)
        ensures
            r == spec_parse_aggregation(s@),
    {
        if str_eq(s, "SUM") {
            Ok(ScoreAggregation::Sum)
        } else if str_eq(s, "AVERAGE") {
            Ok(ScoreAggregation::Average)
        } else {
            Err(SCError::UnknownVariant)
        }
    }

    /// The aggregation's text token.
    pub fn name(self) -> (r: &'static str)
        ensures
            r@ == (match self {
                ScoreAggregation::Sum => "SUM"@,
                ScoreAggregation::Average => "AVERAGE"@,
            }),
    {
        match self {
            ScoreAggregation::Sum => "SUM",
            ScoreAggregation::Average => "AVERAGE",
        }
    }
}

} // verus!
