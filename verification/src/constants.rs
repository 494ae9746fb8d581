//! Board dimensions and per-team piece quota.

use vstd::prelude::*;

verus! {

/// The side length of the board.
pub const BOARD_SIZE: usize = 8;

/// The number of fields on the board.
pub const BOARD_FIELDS: usize = 64;

/// Number of penguins per player.
pub const PENGUINS: usize = 4;

/// The number of teams.
pub const TEAMS: usize = 2;

} // verus!
