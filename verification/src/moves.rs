//! A move: the placement of a new penguin, or the slide of a placed one.

use crate::element::{attr_lookup, child_lookup, Element};
use crate::error::SCError;
use crate::text::{int_text, int_to_string, lemma_parse_int_text};
use crate::vec2::{spec_decode_coords, vec2_text, Doubled, Vec2};
use vstd::prelude::*;
use vstd::string::StringExecFns;

verus! {

/// What decoding a move from an element yields: an optional from child and a
/// required to child, each carrying integer coordinates.
pub open spec fn spec_decode_move(e: Element) -> Result<MoveView, SCError> {
    let from = match child_lookup(e.children@, "from"@, 0) {
        None => Ok(None),
        Some(c) => match spec_decode_coords(c) {
            Err(er) => Err(er),
            Ok(v) => Ok(Some(v)),
        },
    };
    match from {
        Err(er) => Err(er),
        Ok(f) => match child_lookup(e.children@, "to"@, 0) {
            None => Err(SCError::MissingChild),
            Some(c) => match spec_decode_coords(c) {
                Err(er) => Err(er),
                Ok(v) => Ok(MoveView { from: f, to: v }),
            },
        },
    }
}

/// The shape of an encoded position child: exactly an x and a y attribute
/// carrying the coordinates in decimal.
pub open spec fn is_coord_element(e: Element, name: Seq<char>, v: (int, int)) -> bool {
    &&& e.name@ == name
    &&& e.attributes@.len() == 2
    &&& e.attributes@[0].0@ == "x"@
    &&& e.attributes@[0].1@ == int_text(v.0)
    &&& e.attributes@[1].0@ == "y"@
    &&& e.attributes@[1].1@ == int_text(v.1)
    &&& e.content@.len() == 0
    &&& e.children@.len() == 0
}

/// The shape of an encoded move: a data element of class move whose children
/// are the optional from position and the to position; a placement carries no
/// from child at all.
pub open spec fn is_move_element(e: Element, m: MoveView) -> bool {
    &&& e.name@ == "data"@
    &&& e.attributes@.len() == 1
    &&& e.attributes@[0].0@ == "class"@
    &&& e.attributes@[0].1@ == "move"@
    &&& e.content@.len() == 0
    &&& match m.from {
        Some(f) => e.children@.len() == 2 && is_coord_element(e.children@[0], "from"@, f)
            && is_coord_element(e.children@[1], "to"@, m.to),
        None => e.children@.len() == 1 && is_coord_element(e.children@[0], "to"@, m.to),
    }
}

/// Decoding an element that encodes a position yields that position back.
proof fn lemma_coord_element_round_trip(e: Element, name: Seq<char>, v: (int, int))
    requires
        is_coord_element(e, name, v),
        i32::MIN <= v.0 <= i32::MAX,
        i32::MIN <= v.1 <= i32::MAX,
    ensures
        spec_decode_coords(e) == Ok::<(int, int), SCError>(v),
{
    reveal_strlit("x");
    reveal_strlit("y");
    assert("x"@ != "y"@) by {
        assert("x"@[0] == 'x' && "y"@[0] == 'y');
    }
    lemma_parse_int_text(v.0);
    lemma_parse_int_text(v.1);
    assert(attr_lookup(e.attributes@, "x"@, 0) == Some(int_text(v.0)));
    assert(attr_lookup(e.attributes@, "y"@, 0) == attr_lookup(e.attributes@, "y"@, 1));
    assert(attr_lookup(e.attributes@, "y"@, 1) == Some(int_text(v.1)));
}

/// Decoding an element that encodes a move yields exactly that move back.
pub proof fn lemma_move_element_round_trip(e: Element, m: MoveView)
    requires
        is_move_element(e, m),
        match m.from {
            Some(f) => i32::MIN <= f.0 <= i32::MAX && i32::MIN <= f.1 <= i32::MAX,
            None => true,
        },
        i32::MIN <= m.to.0 <= i32::MAX,
        i32::MIN <= m.to.1 <= i32::MAX,
    ensures
        spec_decode_move(e) == Ok::<MoveView, SCError>(m),
{
    reveal_strlit("from");
    reveal_strlit("to");
    assert("from"@ != "to"@) by {
        assert("from"@.len() == 4 && "to"@.len() == 2);
    }
    match m.from {
        Some(f) => {
            assert(child_lookup(e.children@, "from"@, 0) == Some(e.children@[0]));
            lemma_coord_element_round_trip(e.children@[0], "from"@, f);
            assert(child_lookup(e.children@, "to"@, 0) == child_lookup(e.children@, "to"@, 1));
            assert(child_lookup(e.children@, "to"@, 1) == Some(e.children@[1]));
            lemma_coord_element_round_trip(e.children@[1], "to"@, m.to);
        },
        None => {
            assert(child_lookup(e.children@, "from"@, 0) == child_lookup(
                e.children@,
                "from"@,
                1,
            ));
            assert(child_lookup(e.children@, "from"@, 0) is None);
            assert(child_lookup(e.children@, "to"@, 0) == Some(e.children@[0]));
            lemma_coord_element_round_trip(e.children@[0], "to"@, m.to);
        },
    }
}

/// The text of a move: its source position, when it has one, an arrow, and
/// its destination position.
pub open spec fn move_text(m: MoveView) -> Seq<char> {
    match m.from {
        Some(f) => vec2_text(f) + seq![' ', '-', '>', ' '] + vec2_text(m.to),
        None => seq!['-', '>', ' '] + vec2_text(m.to),
    }
}

/// Builds the element of one encoded position.
fn coord_element(name: &str, v: Vec2<Doubled>) -> (r: Element)
    ensures
        is_coord_element(r, name@, v@),
{
    let xs = int_to_string(v.x);
    let ys = int_to_string(v.y);
    Element::new(name).with_attribute("x", xs.as_str()).with_attribute("y", ys.as_str())
}

/// The mathematical content of a move: an optional source and a destination,
/// both in doubled hex coordinates.
pub ghost struct MoveView {
    pub from: Option<(int, int)>,
    pub to: (int, int),
}

/// A game move. A move without a source places a new penguin on the
/// destination; one with a source slides a penguin between the two fields.
#[derive(Debug, Copy, Clone, PartialEq, Eq, Hash)]
pub struct Move {
    from: Option<Vec2<Doubled>>,
    to: Vec2<Doubled>,
}

impl View for Move {
    type V = MoveView;

    closed spec fn view(&self) -> MoveView {
        MoveView {
            from: match self.from {
                Some(v) => Some(v@),
                None => None,
            },
            to: self.to@,
        }
    }
}

/// The views of a sequence of moves.
pub open spec fn moves_view(s: Seq<Move>) -> Seq<MoveView> {
    s.map_values(|m: Move| m@)
}

/// Taking views commutes with appending one move.
pub proof fn lemma_moves_view_push(s: Seq<Move>, m: Move)
    ensures
        moves_view(s.push(m)) == moves_view(s).push(m@),
{
    assert(moves_view(s.push(m)) =~= moves_view(s).push(m@));
}

/// Taking views commutes with concatenation.
pub proof fn lemma_moves_view_concat(s1: Seq<Move>, s2: Seq<Move>)
    ensures
        moves_view(s1 + s2) == moves_view(s1) + moves_view(s2),
{
    assert(moves_view(s1 + s2) =~= moves_view(s1) + moves_view(s2));
}

impl Move {
    /// Creates a new move from the given field to the given field.
    pub fn new(from: Option<Vec2<Doubled>>, to: Vec2<Doubled>) -> (r: Self)
        ensures
            r@ == (MoveView {
                from: match from {
                    Some(v) => Some(v@),
                    None => None,
                },
                to: to@,
            }),
    {
        Move { from, to }
    }

    /// Convenience constructor for creating a move of a penguin between two fields.
    pub fn between(from: Vec2<Doubled>, to: Vec2<Doubled>) -> (r: Self)
        ensures
            r@ == (MoveView { from: Some(from@), to: to@ }),
    {
        Move::new(Some(from), to)
    }

    /// Convenience constructor for creating a move of a penguin into a certain direction.
    pub fn sliding(from: Vec2<Doubled>, by: Vec2<Doubled>) -> (r: Self)
        requires
            i32::MIN <= from@.0 + by@.0 <= i32::MAX,
            i32::MIN <= from@.1 + by@.1 <= i32::MAX,
        ensures
            r@ == (MoveView { from: Some(from@), to: (from@.0 + by@.0, from@.1 + by@.1) }),
    {
        Move::between(from, from.plus(by))
    }

    /// Convenience constructor for creating a move placing a penguin.
    pub fn placing(pos: Vec2<Doubled>) -> (r: Self)
        ensures
            r@ == (MoveView { from: None, to: pos@ }),
    {
        Move::new(None, pos)
    }

    /// The source position if this is a move of an existing penguin, otherwise None.
    pub fn from(self) -> (r: Option<Vec2<Doubled>>)
        ensures
            match r {
                Some(v) => self@.from == Some(v@),
                None => self@.from is None,
            },
    {
        self.from
    }

    /// The target position of the penguin.
    pub fn to(self) -> (r: Vec2<Doubled>)
        ensures
            r@ == self@.to,
    {
        self.to
    }

    /// Decodes a move from an element: an optional from child and a required
    /// to child.
    pub fn from_element(elem: &Element) -> (r: Result<Move, SCError>)
        ensures
            match r {
                Ok(m) => spec_decode_move(*elem) == Ok::<MoveView, SCError>(m@),
                Err(e) => spec_decode_move(*elem) == Err::<MoveView, SCError>(e),
            },
    {
        let from = match elem.child_by_name("from") {
            None => None,
            Some(c) => match Vec2::<Doubled>::from_element(c) {
                Ok(v) => Some(v),
                Err(er) => {
                    return Err(er);
                },
            },
        };
        let to = match elem.child_by_name("to") {
            None => {
                return Err(SCError::MissingChild);
            },
            Some(c) => match Vec2::<Doubled>::from_element(c) {
                Ok(v) => v,
                Err(er) => {
                    return Err(er);
                },
            },
        };
        Ok(Move::new(from, to))
    }

    /// Formats the move as text.
    pub fn to_text(&self) -> (r: String)
        ensures
            r@ == move_text(self@),
    {
        let mut s = String::new();
        match self.from {
            Some(f) => {
                let fs = f.to_text();
                s.append(fs.as_str());
                s.append(" -> ");
            },
            None => {
                s.append("-> ");
            },
        }
        let ts = self.to.to_text();
        s.append(ts.as_str());
        proof {
            reveal_strlit(" -> ");
            reveal_strlit("-> ");
            assert(s@ =~= move_text(self@));
        }
        s
    }

    /// Encodes the move as a data element of class move, leaving out the from
    /// child entirely for a placement.
    pub fn to_element(&self) -> (r: Element)
        ensures
            is_move_element(r, self@),
    {
        let base = Element::new("data").with_attribute("class", "move");
        match self.from {
            Some(f) => base.with_child(coord_element("from", f)).with_child(
                coord_element("to", self.to),
            ),
            None => base.with_child(coord_element("to", self.to)),
        }
    }
}

} // verus!
