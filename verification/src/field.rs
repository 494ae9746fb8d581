//! Per-cell state: a fish count and, possibly, an occupying penguin.

use crate::element::Element;
use crate::team::{spec_parse_team, Team};
use crate::text::{parse_usize, spec_parse_usize};
use vstd::prelude::*;

verus! {

/// What decoding a field from an element's text yields: integer text is a
/// fish count, a team token a penguin, anything else an empty field.
pub open spec fn spec_decode_field(e: Element) -> Field {
    Field {
        fish: match spec_parse_usize(e.content@) {
            Ok(n) => n,
            Err(_) => 0,
        },
        penguin: match spec_parse_team(e.content@) {
            Ok(t) => Some(t),
            Err(_) => None,
        },
    }
}

/// A field on the board. A field occupied by a penguin carries fish count 0.
#[derive(Debug, Copy, Clone, PartialEq, Eq)]
pub struct Field {
    pub fish: usize,
    pub penguin: Option<Team>,
}

impl Default for Field {
    /// The empty field: no fish, no penguin.
    fn default() -> (r: Self)
        ensures
            r == (Field { fish: 0, penguin: None }),
    {
        Field { fish: 0, penguin: None }
    }
}

impl Field {
    /// Creates a new field with the given fish.
    pub fn with_fish(fish: usize) -> (r: Self)
        ensures
            r == (Field { fish, penguin: None }),
    {
        Field { fish, penguin: None }
    }

    /// Creates a new field with the given penguin.
    pub fn with_penguin(team: Team) -> (r: Self)
        ensures
            r == (Field { fish: 0, penguin: Some(team) }),
    {
        Field { fish: 0, penguin: Some(team) }
    }

    /// Whether the field is empty.
    pub fn is_empty(self) -> (r: bool)
        ensures
            r == (self.fish == 0 && self.penguin is None),
    {
        self.fish == 0 && self.penguin.is_none()
    }

    /// Whether the field is occupied by a penguin.
    pub fn is_occupied(self) -> (r: bool)
        ensures
            r == (self.penguin is Some),
    {
        self.penguin.is_some()
    }

    /// The number of fish on this field.
    pub fn fish(self) -> (r: usize)
        ensures
            r == self.fish,
    {
        self.fish
    }

    /// The penguin on this field.
    pub fn penguin(self) -> (r: Option<Team>)
        ensures
            r == self.penguin,
    {
        self.penguin
    }

    /// Decodes a field from an element's text content.
    pub fn from_element(elem: &Element) -> (r: Field)
        ensures
            r == spec_decode_field(*elem),
    {
        let fish = match parse_usize(elem.content.as_str()) {
            Ok(n) => n,
            Err(_) => 0,
        };
        let penguin = match Team::from_name(elem.content.as_str()) {
            Ok(t) => Some(t),
            Err(_) => None,
        };
        Field { fish, penguin }
    }

    /// Puts the given team's penguin on the field, discarding the fish, and
    /// returns the fish count the field held before.
    pub fn place(&mut self, team: Team) -> (r: usize)
        ensures
            *final(self) == (Field { fish: 0, penguin: Some(team) }),
            r == old(self).fish,
    {
        let fish = self.fish;
        self.fish = 0;
        self.penguin = Some(team);
        fish
    }
}

} // verus!
