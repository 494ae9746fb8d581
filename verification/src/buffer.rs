//! A fixed-capacity buffer from the arrayvec crate, used to collect the
//! penguins of a board without heap allocation: a board holds at most 64.

use crate::team::Team;
use crate::vec2::{Doubled, Vec2};
use arrayvec::ArrayVec;
use vstd::prelude::*;

verus! {

#[verifier::external_type_specification]
#[verifier::external_body]
#[verifier::reject_recursive_types(T)]
pub struct ExArrayVec<T, const CAP: usize>(ArrayVec<T, CAP>);

/// The entries a penguin buffer holds, in insertion order.
pub uninterp spec fn penguin_buffer(v: ArrayVec<(Vec2<Doubled>, Team), 64>) -> Seq<
    (Vec2<Doubled>, Team),
>;

/// Relies on arrayvec's ArrayVec::new: creates an empty vector. It panics
/// only when the capacity exceeds the backing length type, which 64 does not.
#[verifier::external_body]
pub(crate) fn penguin_buffer_new() -> (r: ArrayVec<(Vec2<Doubled>, Team), 64>)
    ensures
        penguin_buffer(r) == Seq::<(Vec2<Doubled>, Team)>::empty(),
{
    ArrayVec::new()
}

/// Relies on arrayvec's ArrayVec::push: appends an element to the end; it
/// panics only on a full vector.
#[verifier::external_body]
pub(crate) fn penguin_buffer_push(
    v: &mut ArrayVec<(Vec2<Doubled>, Team), 64>,
    e: (Vec2<Doubled>, Team),
)
    requires
        penguin_buffer(*old(v)).len() < 64,
    ensures
        penguin_buffer(*final(v)) == penguin_buffer(*old(v)).push(e),
{
    v.push(e)
}

/// Relies on arrayvec's ArrayVec::len: the number of elements held.
#[verifier::external_body]
pub(crate) fn penguin_buffer_len(v: &ArrayVec<(Vec2<Doubled>, Team), 64>) -> (r: usize)
    ensures
        r == penguin_buffer(*v).len(),
{
    v.len()
}

/// Relies on arrayvec's Index implementation (through its slice form): the
/// element at the given position; it panics only out of bounds.
#[verifier::external_body]
pub(crate) fn penguin_buffer_get(v: &ArrayVec<(Vec2<Doubled>, Team), 64>, i: usize) -> (r: (
    Vec2<Doubled>,
    Team,
))
    requires
        i < penguin_buffer(*v).len(),
    ensures
        r == penguin_buffer(*v)[i as int],
{
    v[i]
}

} // verus!
