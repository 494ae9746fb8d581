//! The dual coordinate system: direct (array/storage) coordinates address the
//! physical 8x8 grid, doubled hex coordinates carry the hexagonal move
//! geometry. The two are kept apart by a phantom marker type and converted
//! only through named functions.

use crate::element::{attr_lookup, Element};
use crate::error::SCError;
use crate::text::{int_text, int_to_string, parse_i32, spec_parse_i32};
use core::marker::PhantomData;
use vstd::string::StringExecFns;
use vstd::math::abs;
use vstd::prelude::*;

verus! {

/// What decoding coordinates from an element yields: its x and y attributes
/// as integers, or the first failure among a missing attribute and text that
/// is no integer, x before y.
pub open spec fn spec_decode_coords(e: Element) -> Result<(int, int), SCError> {
    match attr_lookup(e.attributes@, "x"@, 0) {
        None => Err(SCError::MissingAttribute),
        Some(xs) => match spec_parse_i32(xs) {
            Err(er) => Err(er),
            Ok(x) => match attr_lookup(e.attributes@, "y"@, 0) {
                None => Err(SCError::MissingAttribute),
                Some(ys) => match spec_parse_i32(ys) {
                    Err(er) => Err(er),
                    Ok(y) => Ok((x as int, y as int)),
                },
            },
        },
    }
}

/// Marker type for direct coordinates.
#[derive(Debug, Clone, Copy, PartialEq, Eq, Hash)]
pub struct Direct;

/// Marker type for doubled coordinates.
#[derive(Debug, Clone, Copy, PartialEq, Eq, Hash)]
pub struct Doubled;

/// A position on the board or 2D integer vector.
/// Either uses direct or doubled hex coordinates.
#[derive(Debug, Copy, PartialEq, Eq, Hash)]
pub struct Vec2<C = Direct> where C: Copy {
    pub x: i32,
    pub y: i32,
    pub phantom: PhantomData<C>,
}

impl<C: Copy> Default for Vec2<C> {
    /// The coordinate origin.
    fn default() -> (r: Self)
        ensures
            r@ == (0int, 0int),
    {
        Vec2 { x: 0, y: 0, phantom: PhantomData }
    }
}

impl<C: Copy> Clone for Vec2<C> {
    fn clone(&self) -> (r: Self)
        ensures
            r == *self,
    {
        *self
    }
}

impl<C: Copy> View for Vec2<C> {
    type V = (int, int);

    open spec fn view(&self) -> (int, int) {
        (self.x as int, self.y as int)
    }
}

/// Division by two that truncates toward zero, as the `/` of the
/// implementation language does on machine integers.
pub open spec fn div2_trunc(x: int) -> int {
    if x >= 0 {
        x / 2
    } else {
        -((-x) / 2)
    }
}

/// Remainder modulo two with the sign of the dividend, as the `%` of the
/// implementation language does on machine integers.
pub open spec fn mod2_trunc(x: int) -> int {
    if x >= 0 {
        x % 2
    } else {
        -((-x) % 2)
    }
}

/// Conversion from doubled hex coordinates to direct coordinates:
/// the hex x component is halved, the row is kept.
pub open spec fn hex_to_arr(p: (int, int)) -> (int, int) {
    (div2_trunc(p.0), p.1)
}

/// Conversion from direct coordinates to doubled hex coordinates:
/// the array x component is doubled and offset by the row's parity.
pub open spec fn arr_to_hex(p: (int, int)) -> (int, int) {
    (2 * p.0 + mod2_trunc(p.1), p.1)
}

/// A displacement in doubled hex coordinates is parallel to a hex axis iff
/// it is diagonal (equal absolute components) or horizontal (even x, zero y).
pub open spec fn spec_straight(d: (int, int)) -> bool {
    abs(d.0) == abs(d.1) || (d.0 % 2 == 0 && d.1 == 0)
}

/// The six unit direction vectors of the hex grid, in doubled coordinates,
/// in the fixed order used by move enumeration.
pub open spec fn hex_dir(i: int) -> (int, int) {
    if i == 0 {
        (2, 0)
    } else if i == 1 {
        (-1, -1)
    } else if i == 2 {
        (1, -1)
    } else if i == 3 {
        (-2, 0)
    } else if i == 4 {
        (1, 1)
    } else {
        (-1, 1)
    }
}

/// The text of a vector: its two components in parentheses.
pub open spec fn vec2_text(v: (int, int)) -> Seq<char> {
    seq!['('] + int_text(v.0) + seq![',', ' '] + int_text(v.1) + seq![')']
}

/// The point reached from `o` by `n` unit steps along direction `d`.
pub open spec fn translate(o: (int, int), d: (int, int), n: int) -> (int, int) {
    (o.0 + n * d.0, o.1 + n * d.1)
}

impl<C: Copy> Vec2<C> {
    /// Creates a new vector from the given x- and y-components.
    pub fn new(x: i32, y: i32) -> (r: Self)
        ensures
            r@ == (x as int, y as int),
    {
        Vec2 { x, y, phantom: PhantomData }
    }

    /// The area of the rectangle spanned by this vector.
    pub fn area(self) -> (r: i32)
        requires
            -0x7fff_ffff <= self@.0 * self@.1 <= 0x7fff_ffff,
        ensures
            r == abs(self@.0 * self@.1),
    {
        let p = self.x * self.y;
        if p < 0 {
            -p
        } else {
            p
        }
    }

    /// The squared length of this vector.
    pub fn squared_length(self) -> (r: i32)
        requires
            self@.0 * self@.0 + self@.1 * self@.1 <= 0x7fff_ffff,
        ensures
            r == self@.0 * self@.0 + self@.1 * self@.1,
    {
        proof {
            lemma_square_nonneg(self@.0);
            lemma_square_nonneg(self@.1);
        }
        self.x * self.x + self.y * self.y
    }

    /// Componentwise vector addition.
    pub fn plus(self, rhs: Self) -> (r: Self)
        requires
            i32::MIN <= self@.0 + rhs@.0 <= i32::MAX,
            i32::MIN <= self@.1 + rhs@.1 <= i32::MAX,
        ensures
            r@ == (self@.0 + rhs@.0, self@.1 + rhs@.1),
    {
        Vec2 { x: self.x + rhs.x, y: self.y + rhs.y, phantom: PhantomData }
    }

    /// Componentwise vector subtraction.
    pub fn minus(self, rhs: Self) -> (r: Self)
        requires
            i32::MIN <= self@.0 - rhs@.0 <= i32::MAX,
            i32::MIN <= self@.1 - rhs@.1 <= i32::MAX,
        ensures
            r@ == (self@.0 - rhs@.0, self@.1 - rhs@.1),
    {
        Vec2 { x: self.x - rhs.x, y: self.y - rhs.y, phantom: PhantomData }
    }

    /// Decodes a vector from an element's x and y attributes.
    pub fn from_element(elem: &Element) -> (r: Result<Vec2<C>, SCError>)
        ensures
            match r {
                Ok(v) => spec_decode_coords(*elem) == Ok::<(int, int), SCError>(v@),
                Err(e) => spec_decode_coords(*elem) == Err::<(int, int), SCError>(e),
            },
    {
        let x = match elem.attribute("x") {
            None => {
                return Err(SCError::MissingAttribute);
            },
            Some(xs) => match parse_i32(xs.as_str()) {
                Ok(x) => x,
                Err(er) => {
                    return Err(er);
                },
            },
        };
        let y = match elem.attribute("y") {
            None => {
                return Err(SCError::MissingAttribute);
            },
            Some(ys) => match parse_i32(ys.as_str()) {
                Ok(y) => y,
                Err(er) => {
                    return Err(er);
                },
            },
        };
        Ok(Vec2::new(x, y))
    }

    /// Formats the vector as text.
    pub fn to_text(&self) -> (r: String)
        ensures
            r@ == vec2_text(self@),
    {
        let mut s = String::new();
        s.append("(");
        let xs = int_to_string(self.x);
        s.append(xs.as_str());
        s.append(", ");
        let ys = int_to_string(self.y);
        s.append(ys.as_str());
        s.append(")");
        proof {
            reveal_strlit("(");
            reveal_strlit(", ");
            reveal_strlit(")");
            assert(s@ =~= vec2_text(self@));
        }
        s
    }

    /// The vector scaled by an integer factor.
    pub fn scaled(self, n: i32) -> (r: Self)
        requires
            i32::MIN <= self@.0 * n <= i32::MAX,
            i32::MIN <= self@.1 * n <= i32::MAX,
        ensures
            r@ == (self@.0 * n, self@.1 * n),
    {
        Vec2 { x: self.x * n, y: self.y * n, phantom: PhantomData }
    }
}

/// The square of an integer is never negative.
proof fn lemma_square_nonneg(x: int)
    ensures
        x * x >= 0,
{
    assert(x * x >= 0) by (nonlinear_arith);
}

impl Vec2<Doubled> {
    /// The hex direction with the given index, in enumeration order.
    pub fn direction(i: usize) -> (r: Self)
        requires
            i < 6,
        ensures
            r@ == hex_dir(i as int),
    {
        match i {
            0 => Vec2 { x: 2, y: 0, phantom: PhantomData },
            1 => Vec2 { x: -1, y: -1, phantom: PhantomData },
            2 => Vec2 { x: 1, y: -1, phantom: PhantomData },
            3 => Vec2 { x: -2, y: 0, phantom: PhantomData },
            4 => Vec2 { x: 1, y: 1, phantom: PhantomData },
            _ => Vec2 { x: -1, y: 1, phantom: PhantomData },
        }
    }

    /// Whether the vector is parallel to a hex axis.
    pub fn straight(&self) -> (r: bool)
        requires
            self@.0 > i32::MIN,
            self@.1 > i32::MIN,
        ensures
            r == spec_straight(self@),
    {
        let ax = if self.x >= 0 { self.x } else { -self.x };
        let ay = if self.y >= 0 { self.y } else { -self.y };
        ax == ay || (ax % 2 == 0 && self.y == 0)
    }

    /// Converts this vector to direct coordinates.
    pub fn to_direct(self) -> (r: Vec2<Direct>)
        requires
            self@.0 > i32::MIN,
        ensures
            r@ == hex_to_arr(self@),
    {
        let x = if self.x >= 0 { self.x / 2 } else { -((-self.x) / 2) };
        Vec2 { x, y: self.y, phantom: PhantomData }
    }
}

impl Vec2<Direct> {
    /// Converts this vector to doubled hex coordinates.
    pub fn to_doubled(self) -> (r: Vec2<Doubled>)
        requires
            -0x2000_0000 <= self@.0 <= 0x2000_0000,
            self@.1 > i32::MIN,
        ensures
            r@ == arr_to_hex(self@),
    {
        let par = if self.y >= 0 { self.y % 2 } else { -((-self.y) % 2) };
        Vec2 { x: 2 * self.x + par, y: self.y, phantom: PhantomData }
    }
}

/// Any positive number of unit steps along one hex direction is a straight
/// displacement.
pub proof fn lemma_steps_straight(j: int, n: int)
    requires
        1 <= n,
    ensures
        spec_straight((n * hex_dir(j).0, n * hex_dir(j).1)),
{
    if j == 0 || j == 3 {
        assert(n * hex_dir(j).0 == 2 * n || n * hex_dir(j).0 == -(2 * n)) by (nonlinear_arith)
            requires
                hex_dir(j).0 == 2 || hex_dir(j).0 == -2,
        ;
        assert((2 * n) % 2 == 0);
        assert((-(2 * n)) % 2 == 0);
        assert(n * hex_dir(j).1 == 0);
    } else {
        assert(n * hex_dir(j).0 == n || n * hex_dir(j).0 == -n) by (nonlinear_arith)
            requires
                hex_dir(j).0 == 1 || hex_dir(j).0 == -1,
        ;
        assert(n * hex_dir(j).1 == n || n * hex_dir(j).1 == -n) by (nonlinear_arith)
            requires
                hex_dir(j).1 == 1 || hex_dir(j).1 == -1,
        ;
        assert(abs(n * hex_dir(j).0) == n);
        assert(abs(n * hex_dir(j).1) == n);
    }
}

/// The two coordinate conversions are mutual inverses on the board's lattice:
/// converting an in-bounds direct coordinate to doubled hex coordinates and
/// back recovers it, and every hex coordinate reached this way round-trips
/// through direct coordinates as well.
pub proof fn lemma_coord_bijection(p: (int, int))
    requires
        0 <= p.0,
        0 <= p.1,
    ensures
        hex_to_arr(arr_to_hex(p)) == p,
        arr_to_hex(hex_to_arr(arr_to_hex(p))) == arr_to_hex(p),
{
    assert((2 * p.0 + mod2_trunc(p.1)) / 2 == p.0);
}

} // verus!
