//! Decoding failures: distinct, inspectable error kinds.

use vstd::prelude::*;

verus! {

/// An error while decoding a structured element into a game value. Every
/// kind is recoverable by the caller; none is fatal.
#[derive(Debug, Clone, Copy, PartialEq, Eq, Structural)]
pub enum SCError {
    /// A required attribute is missing.
    MissingAttribute,
    /// A required child element is missing.
    MissingChild,
    /// Text did not parse as an integer where one is required.
    ParseInt,
    /// A board element does not hold exactly one field per cell.
    WrongFieldCount,
    /// A fishes element does not hold exactly one count per team.
    WrongTeamCount,
    /// A token names no known variant.
    UnknownVariant,
    /// An element's name fits no expected message.
    UnknownElement,
}

} // verus!
