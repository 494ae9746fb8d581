//! Rules engine for a two-player hex-grid board game: penguins are placed on
//! fish-bearing ice floes and then slide along straight hex lines, scoring the
//! fish of the field they land on, until no team can move.

pub mod board;
pub mod buffer;
pub mod constants;
pub mod element;
pub mod error;
pub mod field;
pub mod moves;
pub mod protocol;
pub mod state;
pub mod team;
pub mod text;
pub mod vec2;

pub use board::Board;
pub use constants::{BOARD_FIELDS, BOARD_SIZE, PENGUINS, TEAMS};
pub use element::Element;
pub use error::SCError;
pub use field::Field;
pub use moves::Move;
pub use protocol::event::Event;
pub use protocol::score::Score;
pub use protocol::score_aggregation::ScoreAggregation;
pub use protocol::score_cause::ScoreCause;
pub use state::State;
pub use team::Team;
pub use vec2::{Direct, Doubled, Vec2};
