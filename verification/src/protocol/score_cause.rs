//! The cause of a game score.

use crate::error::SCError;
use crate::text::str_eq;
use vstd::prelude::*;

verus! {

/// Determines the cause of a game score.
#[derive(Debug, Clone, Copy, PartialEq, Eq, Structural)]
pub enum ScoreCause {
    Regular,
    Left,
    RuleViolation,
    SoftTimeout,
    HardTimeout,
    Unknown,
}

/// What parsing a score-cause token yields: the cause of that exact name, an
/// unknown-variant error for any other text.
pub open spec fn spec_parse_cause(s: Seq<char>) -> Result<ScoreCause, SCError> {
    if s == "REGULAR"@ {
        Ok(ScoreCause::Regular)
    } else if s == "LEFT"@ {
        Ok(ScoreCause::Left)
    } else if s == "RULE_VIOLATION"@ {
        Ok(ScoreCause::RuleViolation)
    } else if s == "SOFT_TIMEOUT"@ {
        Ok(ScoreCause::SoftTimeout)
    } else if s == "HARD_TIMEOUT"@ {
        Ok(ScoreCause::HardTimeout)
    } else if s == "UNKNOWN"@ {
        Ok(ScoreCause::Unknown)
    } else {
        Err(SCError::UnknownVariant)
    }
}

impl ScoreCause {
    /// Parses the cause's text token.
    pub fn from_name(s: &str) -> (r: Result<ScoreCause, SCError>)
        ensures
            r == spec_parse_cause(s@),
    {
        if str_eq(s, "REGULAR") {
            Ok(ScoreCause::Regular)
        } else if str_eq(s, "LEFT") {
            Ok(ScoreCause::Left)
        } else if str_eq(s, "RULE_VIOLATION") {
            Ok(ScoreCause::RuleViolation)
        } else if str_eq(s, "SOFT_TIMEOUT") {
            Ok(ScoreCause::SoftTimeout)
        } else if str_eq(s, "HARD_TIMEOUT") {
            Ok(ScoreCause::HardTimeout)
        } else if str_eq(s, "UNKNOWN") {
            Ok(ScoreCause::Unknown)
        } else {
            Err(SCError::UnknownVariant)
        }
    }
}

} // verus!
