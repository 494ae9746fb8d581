//! The two playing parties.

use crate::error::SCError;
use crate::text::str_eq;
use vstd::prelude::*;

verus! {

/// What parsing a team token yields: the team of that exact name, an
/// unknown-variant error for any other text.
pub open spec fn spec_parse_team(s: Seq<char>) -> Result<Team, SCError> {
    if s == "ONE"@ {
        Ok(Team::One)
    } else if s == "TWO"@ {
        Ok(Team::Two)
    } else {
        Err(SCError::UnknownVariant)
    }
}

/// A playing party in the game.
#[derive(Debug, Clone, Copy, PartialEq, Eq, Structural, Hash)]
pub enum Team {
    One,
    Two,
}

impl Team {
    /// The team's index: 0 for the first team, 1 for the second.
    pub fn index(self) -> (r: usize)
        ensures
            r == self.spec_index(),
    {
        match self {
            Team::One => 0,
            Team::Two => 1,
        }
    }

    /// The team's index, as a spec-level value.
    pub open spec fn spec_index(self) -> int {
        match self {
            Team::One => 0,
            Team::Two => 1,
        }
    }

    /// The opponent of the given team.
    pub fn opponent(self) -> (r: Team)
        ensures
            r == self.spec_opponent(),
    {
        match self {
            Team::One => Team::Two,
            Team::Two => Team::One,
        }
    }

    /// The opponent, as a spec-level value.
    pub open spec fn spec_opponent(self) -> Team {
        match self {
            Team::One => Team::Two,
            Team::Two => Team::One,
        }
    }

    /// The x-direction of the team on the board.
    pub fn direction(self) -> (r: i32)
        ensures
            self == Team::One ==> r == 1,
            self == Team::Two ==> r == -1,
    {
        match self {
            Team::One => 1,
            Team::Two => -1,
        }
    }

    /// Parses the team's text token.
    pub fn from_name(s: &str) -> (r: Result<Team, SCError>)
        ensures
            r == spec_parse_team(s@),
    {
        if str_eq(s, "ONE") {
            Ok(Team::One)
        } else if str_eq(s, "TWO") {
            Ok(Team::Two)
        } else {
            Err(SCError::UnknownVariant)
        }
    }

    /// The team's text token.
    pub fn name(self) -> (r: &'static str)
        ensures
            r@ == (match self {
                Team::One => "ONE"@,
                Team::Two => "TWO"@,
            }),
    {
        match self {
            Team::One => "ONE",
            Team::Two => "TWO",
        }
    }
}

} // verus!
