//! Message-level types of the game server protocol.

pub mod event;
pub mod score;
pub mod score_aggregation;
pub mod score_cause;
