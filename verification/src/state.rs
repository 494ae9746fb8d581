//! The state of the game at a point in time: board, turn counter, per-team
//! score, most recent move and starting team, with the turn/phase logic.

use crate::board::{
    arr_index, fish_at, in_bounds_arr, index_to_arr, lemma_possible_moves_from_valid, penguin_at,
    spec_decode_board, spec_moves_from, Board,
};
use crate::buffer::{
    penguin_buffer, penguin_buffer_get, penguin_buffer_len, penguin_buffer_new,
    penguin_buffer_push,
};
use crate::constants::PENGUINS;
use crate::element::{attr_lookup, child_lookup, Element};
use crate::error::SCError;
use crate::field::Field;
use crate::moves::{
    lemma_moves_view_concat, lemma_moves_view_push, moves_view, spec_decode_move, Move, MoveView,
};
use crate::team::{spec_parse_team, Team};
use crate::text::{parse_usize, spec_parse_usize, str_eq};
use crate::vec2::{
    arr_to_hex, hex_dir, hex_to_arr, lemma_coord_bijection, lemma_steps_straight, spec_straight,
    translate, Direct, Doubled, Vec2,
};
use arrayvec::ArrayVec;
use vstd::prelude::*;

verus! {

/// The mathematical content of a state.
pub ghost struct StateView {
    pub board: Seq<Field>,
    pub turn: int,
    pub fish_one: int,
    pub fish_two: int,
    pub last_move: Option<MoveView>,
    pub start_team: Team,
}

/// The given team's score in a state.
pub open spec fn fish_of(v: StateView, team: Team) -> int {
    match team {
        Team::One => v.fish_one,
        Team::Two => v.fish_two,
    }
}

/// Whether a field's penguin matches the filter: any penguin when no team is
/// given, exactly the given team's penguin otherwise.
pub open spec fn penguin_matches(f: Field, team: Option<Team>) -> bool {
    match f.penguin {
        Some(p) => team is None || team == Some(p),
        None => false,
    }
}

/// The number of penguins matching the filter on cells with index `i` or
/// higher.
pub open spec fn penguin_count(b: Seq<Field>, team: Option<Team>, i: int) -> int
    decreases 64 - i,
{
    if i < 0 || i >= 64 {
        0
    } else {
        (if penguin_matches(b[i], team) {
            1int
        } else {
            0int
        }) + penguin_count(b, team, i + 1)
    }
}

/// Whether all six hex neighbors of `c` bear no fish.
pub open spec fn neighbors_fishless(b: Seq<Field>, c: (int, int)) -> bool {
    forall|j: int| 0 <= j < 6 ==> #[trigger] fish_at(b, translate(c, hex_dir(j), 1)) == 0
}

/// The full complement the filter asks for: one team's quota of penguins, or
/// both teams' together.
pub open spec fn expected_penguins(team: Option<Team>) -> int {
    if team is Some {
        4
    } else {
        8
    }
}

/// The filter's penguins cannot move: exactly the full complement of them is
/// placed, and every one of them has all six hex neighbors at fish count 0.
/// Any other placed count is movable by this definition.
pub open spec fn spec_immovable(b: Seq<Field>, team: Option<Team>) -> bool {
    &&& penguin_count(b, team, 0) == expected_penguins(team)
    &&& forall|i: int|
        0 <= i < 64 && penguin_matches(#[trigger] b[i], team) ==> neighbors_fishless(
            b,
            arr_to_hex(index_to_arr(i)),
        )
}

/// The team whose turn the counter alone says it is: the starting team on
/// even turns, its opponent on odd ones.
pub open spec fn team_from_turn(start: Team, turn: int) -> Team {
    if turn % 2 == 0 {
        start
    } else {
        start.spec_opponent()
    }
}

/// The team to move: the turn counter's team, or its opponent when that team
/// is immovable.
pub open spec fn spec_current_team(v: StateView) -> Team {
    let t = team_from_turn(v.start_team, v.turn);
    if spec_immovable(v.board, Some(t)) {
        t.spec_opponent()
    } else {
        t
    }
}

/// The views of a sequence of coordinate/field pairs.
pub open spec fn pieces_view(s: Seq<(Vec2<Doubled>, Field)>) -> Seq<((int, int), Field)> {
    s.map_values(|p: (Vec2<Doubled>, Field)| (p.0@, p.1))
}

/// Taking views commutes with appending one piece.
proof fn lemma_pieces_view_push(s: Seq<(Vec2<Doubled>, Field)>, e: (Vec2<Doubled>, Field))
    ensures
        pieces_view(s.push(e)) == pieces_view(s).push((e.0@, e.1)),
{
    assert(pieces_view(s.push(e)) =~= pieces_view(s).push((e.0@, e.1)));
}

/// The fields holding the given team's penguins on cells `i` and higher, each
/// with its hex coordinate, in storage order.
pub open spec fn team_pieces(b: Seq<Field>, t: Team, i: int) -> Seq<((int, int), Field)>
    decreases 64 - i,
{
    if i < 0 || i >= 64 {
        Seq::empty()
    } else {
        let rest = team_pieces(b, t, i + 1);
        if b[i].penguin == Some(t) {
            seq![(arr_to_hex(index_to_arr(i)), b[i])] + rest
        } else {
            rest
        }
    }
}

/// One placement move per field bearing exactly one fish, on cells `i` and
/// higher, in storage order.
pub open spec fn placement_moves(b: Seq<Field>, i: int) -> Seq<MoveView>
    decreases 64 - i,
{
    if i < 0 || i >= 64 {
        Seq::empty()
    } else {
        let rest = placement_moves(b, i + 1);
        if b[i].fish == 1 {
            seq![MoveView { from: None, to: arr_to_hex(index_to_arr(i)) }] + rest
        } else {
            rest
        }
    }
}

/// The sliding moves of the given team from cells `i` and higher: the moves
/// from each of its penguins, in storage order.
pub open spec fn sliding_moves(b: Seq<Field>, t: Team, i: int) -> Seq<MoveView>
    decreases 64 - i,
{
    if i < 0 || i >= 64 {
        Seq::empty()
    } else {
        let rest = sliding_moves(b, t, i + 1);
        if b[i].penguin == Some(t) {
            spec_moves_from(b, arr_to_hex(index_to_arr(i))) + rest
        } else {
            rest
        }
    }
}

/// All legal moves of a state: placements while the current team is below
/// its quota, slides of its own penguins afterwards.
pub open spec fn spec_possible_moves(v: StateView) -> Seq<MoveView> {
    let t = spec_current_team(v);
    if penguin_count(v.board, Some(t), 0) == 4 {
        sliding_moves(v.board, t, 0)
    } else {
        placement_moves(v.board, 0)
    }
}

/// Every placement move among the cells `i0` and higher stems from a field
/// bearing exactly one fish.
proof fn lemma_placement_moves_member(b: Seq<Field>, i0: int, m: MoveView)
    requires
        placement_moves(b, i0).contains(m),
    ensures
        exists|i: int|
            i0 <= i < 64 && (#[trigger] b[i]).fish == 1 && m == (MoveView {
                from: None,
                to: arr_to_hex(index_to_arr(i)),
            }),
    decreases 64 - i0,
{
    if i0 < 0 || i0 >= 64 {
        assert(false);
    } else if b[i0].fish == 1 {
        let first = MoveView { from: None, to: arr_to_hex(index_to_arr(i0)) };
        let s1 = seq![first];
        let s2 = placement_moves(b, i0 + 1);
        let k = choose|k: int| 0 <= k < (s1 + s2).len() && (s1 + s2)[k] == m;
        if k < 1 {
            assert(m == first);
            assert(b[i0].fish == 1 && m == (MoveView {
                from: None,
                to: arr_to_hex(index_to_arr(i0)),
            }));
        } else {
            assert(s2.contains(m));
            lemma_placement_moves_member(b, i0 + 1, m);
        }
    } else {
        lemma_placement_moves_member(b, i0 + 1, m);
    }
}

/// Every sliding move among the cells `i0` and higher stems from a field
/// holding the acting team's penguin.
proof fn lemma_sliding_moves_member(b: Seq<Field>, t: Team, i0: int, m: MoveView)
    requires
        sliding_moves(b, t, i0).contains(m),
    ensures
        exists|i: int|
            i0 <= i < 64 && (#[trigger] b[i]).penguin == Some(t) && spec_moves_from(
                b,
                arr_to_hex(index_to_arr(i)),
            ).contains(m),
    decreases 64 - i0,
{
    if i0 < 0 || i0 >= 64 {
        assert(false);
    } else if b[i0].penguin == Some(t) {
        let s1 = spec_moves_from(b, arr_to_hex(index_to_arr(i0)));
        let s2 = sliding_moves(b, t, i0 + 1);
        let k = choose|k: int| 0 <= k < (s1 + s2).len() && (s1 + s2)[k] == m;
        if k < s1.len() {
            assert(s1.contains(m));
            assert(b[i0].penguin == Some(t) && spec_moves_from(
                b,
                arr_to_hex(index_to_arr(i0)),
            ).contains(m));
        } else {
            assert(s2.contains(m));
            lemma_sliding_moves_member(b, t, i0 + 1, m);
        }
    } else {
        lemma_sliding_moves_member(b, t, i0 + 1, m);
    }
}

/// Whether a move may be fed to `perform`: what legal-move enumeration
/// guarantees of its output. A slide starts on a field holding the acting
/// team's penguin, runs straight, and comes only after the team has placed
/// its full quota; a placement lands on a field with exactly one fish before
/// the quota is reached; either way the destination is on the grid.
pub open spec fn move_allowed(v: StateView, m: MoveView) -> bool {
    let t = spec_current_team(v);
    &&& in_bounds_arr(hex_to_arr(m.to))
    &&& match m.from {
        Some(f) => {
            &&& in_bounds_arr(hex_to_arr(f))
            &&& penguin_at(v.board, f) == Some(t)
            &&& spec_straight((m.to.0 - f.0, m.to.1 - f.1))
            &&& penguin_count(v.board, Some(t), 0) >= 4
        },
        None => {
            &&& fish_at(v.board, m.to) == 1
            &&& penguin_count(v.board, Some(t), 0) < 4
        },
    }
}

/// The board after a slide's source field is cleared; a placement clears
/// nothing.
pub open spec fn board_after_clear(v: StateView, m: MoveView) -> Seq<Field> {
    match m.from {
        Some(f) => v.board.update(arr_index(hex_to_arr(f)), Field { fish: 0, penguin: None }),
        None => v.board,
    }
}

/// The fish the acting team gains: the destination field's count at the
/// moment the penguin lands, after the source field (if any) was lifted.
pub open spec fn gained_fish(v: StateView, m: MoveView) -> int {
    fish_at(board_after_clear(v, m), m.to)
}

/// The successor state of a move: the source field of a slide is cleared,
/// the destination field's fish are added to the acting team's score and its
/// penguin put there, the move is recorded, and the turn advances by one.
pub open spec fn spec_perform(v: StateView, m: MoveView) -> StateView {
    let t = spec_current_team(v);
    StateView {
        board: board_after_clear(v, m).update(
            arr_index(hex_to_arr(m.to)),
            Field { fish: 0, penguin: Some(t) },
        ),
        turn: v.turn + 1,
        fish_one: if t == Team::One {
            v.fish_one + gained_fish(v, m)
        } else {
            v.fish_one
        },
        fish_two: if t == Team::Two {
            v.fish_two + gained_fish(v, m)
        } else {
            v.fish_two
        },
        last_move: Some(m),
        start_team: v.start_team,
    }
}

/// Legal-move enumeration is the only sanctioned source of moves fed to
/// `perform`, and it is a sound one: on a state whose current team holds at
/// most its quota of penguins, every enumerated move meets `perform`'s
/// conditions.
pub proof fn lemma_possible_moves_allowed(v: StateView, m: MoveView)
    requires
        v.board.len() == 64,
        penguin_count(v.board, Some(spec_current_team(v)), 0) <= 4,
        spec_possible_moves(v).contains(m),
    ensures
        move_allowed(v, m),
{
    let t = spec_current_team(v);
    if penguin_count(v.board, Some(t), 0) == 4 {
        lemma_sliding_moves_member(v.board, t, 0, m);
        let i = choose|i: int|
            0 <= i < 64 && (#[trigger] v.board[i]).penguin == Some(t) && spec_moves_from(
                v.board,
                arr_to_hex(index_to_arr(i)),
            ).contains(m);
        let o = arr_to_hex(index_to_arr(i));
        lemma_possible_moves_from_valid(v.board, o, m);
        lemma_coord_bijection(index_to_arr(i));
        assert(hex_to_arr(o) == index_to_arr(i));
        assert(in_bounds_arr(index_to_arr(i)));
        assert(arr_index(index_to_arr(i)) == i);
        assert(penguin_at(v.board, o) == Some(t));
        let (j, n) = choose|j: int, n: int|
            0 <= j < 6 && 1 <= n < 8 && m.to == #[trigger] translate(o, hex_dir(j), n);
        lemma_steps_straight(j, n);
        assert((m.to.0 - o.0, m.to.1 - o.1) == (n * hex_dir(j).0, n * hex_dir(j).1));
    } else {
        lemma_placement_moves_member(v.board, 0, m);
        let i = choose|i: int|
            0 <= i < 64 && (#[trigger] v.board[i]).fish == 1 && m == (MoveView {
                from: None,
                to: arr_to_hex(index_to_arr(i)),
            });
        lemma_coord_bijection(index_to_arr(i));
        assert(hex_to_arr(m.to) == index_to_arr(i));
        assert(in_bounds_arr(index_to_arr(i)));
        assert(arr_index(index_to_arr(i)) == i);
        assert(fish_at(v.board, m.to) == 1);
    }
}

/// A filter whose placed penguin count is anything but its full complement is
/// never immovable, whatever the penguins' surroundings.
pub proof fn lemma_immovable_needs_full_count(b: Seq<Field>, team: Option<Team>)
    requires
        penguin_count(b, team, 0) != expected_penguins(team),
    ensures
        !spec_immovable(b, team),
{
}

/// When the move is a placement, or its source stands on another grid cell
/// than its destination, the fish gained are exactly the destination field's
/// fish count immediately before the move.
pub proof fn lemma_gained_fish_is_prior_fish(v: StateView, m: MoveView)
    requires
        v.board.len() == 64,
        match m.from {
            Some(f) => in_bounds_arr(hex_to_arr(f)) && arr_index(hex_to_arr(f)) != arr_index(
                hex_to_arr(m.to),
            ),
            None => true,
        },
    ensures
        gained_fish(v, m) == fish_at(v.board, m.to),
{
    match m.from {
        Some(f) => {
            let fi = arr_index(hex_to_arr(f));
            let ti = arr_index(hex_to_arr(m.to));
            assert(0 <= fi < 64);
            if in_bounds_arr(hex_to_arr(m.to)) {
                assert(0 <= ti < 64);
                assert(board_after_clear(v, m)[ti] == v.board[ti]);
            }
        },
        None => {},
    }
}

/// The views of a sequence of machine counts.
pub open spec fn counts_view(s: Seq<usize>) -> Seq<int> {
    s.map_values(|u: usize| u as int)
}

/// Taking views commutes with appending one count.
proof fn lemma_counts_view_push(s: Seq<usize>, u: usize)
    ensures
        counts_view(s.push(u)) == counts_view(s).push(u as int),
{
    assert(counts_view(s.push(u)) =~= counts_view(s).push(u as int));
}

/// The per-team fish counts among the children `i` and higher: the parsed
/// content of each int child in order, or the first parse failure.
pub open spec fn fish_counts(children: Seq<Element>, i: int) -> Result<Seq<int>, SCError>
    decreases children.len() - i,
{
    if i < 0 || i >= children.len() {
        Ok(Seq::empty())
    } else if children[i].name@ == "int"@ {
        match spec_parse_usize(children[i].content@) {
            Err(er) => Err(er),
            Ok(v) => match fish_counts(children, i + 1) {
                Err(er) => Err(er),
                Ok(rest) => Ok(seq![v as int] + rest),
            },
        }
    } else {
        fish_counts(children, i + 1)
    }
}

/// What decoding a state yields: its board child, turn attribute, the two
/// per-team fish counts, the optional last move (silently absent when it does
/// not decode), and the starting team, or the first failure among them in
/// that order.
pub open spec fn spec_decode_state(e: Element) -> Result<StateView, SCError> {
    match child_lookup(e.children@, "board"@, 0) {
        None => Err(SCError::MissingChild),
        Some(bc) => match spec_decode_board(bc) {
            Err(er) => Err(er),
            Ok(cells) => match attr_lookup(e.attributes@, "turn"@, 0) {
                None => Err(SCError::MissingAttribute),
                Some(ts) => match spec_parse_usize(ts) {
                    Err(er) => Err(er),
                    Ok(turn) => match child_lookup(e.children@, "fishes"@, 0) {
                        None => Err(SCError::MissingChild),
                        Some(fc) => match fish_counts(fc.children@, 0) {
                            Err(er) => Err(er),
                            Ok(counts) => {
                                if counts.len() != 2 {
                                    Err(SCError::WrongTeamCount)
                                } else {
                                    let last_move = match child_lookup(
                                        e.children@,
                                        "lastMove"@,
                                        0,
                                    ) {
                                        None => None,
                                        Some(mc) => match spec_decode_move(mc) {
                                            Ok(m) => Some(m),
                                            Err(_) => None,
                                        },
                                    };
                                    match child_lookup(e.children@, "startTeam"@, 0) {
                                        None => Err(SCError::MissingChild),
                                        Some(sc) => match spec_parse_team(sc.content@) {
                                            Err(er) => Err(er),
                                            Ok(st) => Ok(StateView {
                                                board: cells,
                                                turn: turn as int,
                                                fish_one: counts[0],
                                                fish_two: counts[1],
                                                last_move,
                                                start_team: st,
                                            }),
                                        },
                                    }
                                }
                            },
                        },
                    },
                },
            },
        },
    }
}

/// A buffer entry stands for a matching penguin somewhere on the board.
spec fn matching_pos(b: Seq<Field>, team: Option<Team>, e: (Vec2<Doubled>, Team)) -> bool {
    exists|idx: int|
        0 <= idx < 64 && penguin_matches(#[trigger] b[idx], team) && e.0@ == arr_to_hex(
            index_to_arr(idx),
        )
}

/// The state of the game at a point in time.
#[derive(Debug, PartialEq, Eq)]
pub struct State {
    /// The game board.
    board: Board,
    /// The turn of the game.
    turn: usize,
    /// The fish of the first team.
    fish_one: usize,
    /// The fish of the second team.
    fish_two: usize,
    /// The most recent move.
    last_move: Option<Move>,
    /// The starting team.
    start_team: Team,
}

impl View for State {
    type V = StateView;

    closed spec fn view(&self) -> StateView {
        StateView {
            board: self.board@,
            turn: self.turn as int,
            fish_one: self.fish_one as int,
            fish_two: self.fish_two as int,
            last_move: match self.last_move {
                Some(m) => Some(m@),
                None => None,
            },
            start_team: self.start_team,
        }
    }
}

impl State {
    /// A state's board always holds exactly one field per cell.
    pub open spec fn wf(&self) -> bool {
        self@.board.len() == 64
    }

    /// Creates a state from its parts.
    pub fn new(
        board: Board,
        turn: usize,
        fish_one: usize,
        fish_two: usize,
        last_move: Option<Move>,
        start_team: Team,
    ) -> (r: State)
        requires
            board.wf(),
        ensures
            r@ == (StateView {
                board: board@,
                turn: turn as int,
                fish_one: fish_one as int,
                fish_two: fish_two as int,
                last_move: match last_move {
                    Some(m) => Some(m@),
                    None => None,
                },
                start_team,
            }),
            r.wf(),
    {
        State { board, turn, fish_one, fish_two, last_move, start_team }
    }

    /// Fetches the board.
    pub fn board(&self) -> (r: &Board)
        ensures
            r@ == self@.board,
    {
        &self.board
    }

    /// Fetches the turn of the game.
    pub fn turn(&self) -> (r: usize)
        ensures
            r == self@.turn,
    {
        self.turn
    }

    /// Fetches the fish for the given team.
    pub fn fish(&self, team: Team) -> (r: usize)
        ensures
            r == fish_of(self@, team),
    {
        match team {
            Team::One => self.fish_one,
            Team::Two => self.fish_two,
        }
    }

    /// Fetches the most recent move.
    pub fn last_move(&self) -> (r: Option<Move>)
        ensures
            match r {
                Some(m) => self@.last_move == Some(m@),
                None => self@.last_move is None,
            },
    {
        self.last_move
    }

    /// Fetches the starting team.
    pub fn start_team(&self) -> (r: Team)
        ensures
            r == self@.start_team,
    {
        self.start_team
    }

    /// The current team, computed from the starting team and the turn alone.
    pub fn current_team_from_turn(&self) -> (r: Team)
        ensures
            r == team_from_turn(self@.start_team, self@.turn),
    {
        if self.turn % 2 == 0 {
            self.start_team
        } else {
            self.start_team.opponent()
        }
    }

    /// Whether the given team (or, with no filter, both teams together)
    /// cannot move: the full complement of matching penguins is placed and
    /// each of them has only fishless neighbors.
    pub fn immovable(&self, team: Option<Team>) -> (r: bool)
        requires
            self.wf(),
        ensures
            r == spec_immovable(self@.board, team),
    {
        let ghost b = self@.board;
        let mut buf: ArrayVec<(Vec2<Doubled>, Team), 64> = penguin_buffer_new();
        let mut i: usize = 0;
        while i < 64
            invariant
                self.wf(),
                i <= 64,
                b == self@.board,
                penguin_buffer(buf).len() + penguin_count(b, team, i as int) == penguin_count(
                    b,
                    team,
                    0,
                ),
                penguin_buffer(buf).len() <= i,
                forall|k: int|
                    0 <= k < penguin_buffer(buf).len() ==> matching_pos(
                        b,
                        team,
                        #[trigger] penguin_buffer(buf)[k],
                    ),
                forall|idx: int|
                    0 <= idx < i && penguin_matches(#[trigger] b[idx], team) ==> exists|k: int|
                        0 <= k < penguin_buffer(buf).len() && (#[trigger] penguin_buffer(
                            buf,
                        )[k]).0@ == arr_to_hex(index_to_arr(idx)),
            decreases 64 - i,
        {
            let f = self.board.get_field(i);
            match f.penguin {
                Some(p) => {
                    let take = match team {
                        None => true,
                        Some(tt) => p == tt,
                    };
                    if take {
                        let x = (i % 8) as i32;
                        let y = (i / 8) as i32;
                        let c = Vec2::<Direct>::new(x, y).to_doubled();
                        let ghost old_buf = penguin_buffer(buf);
                        penguin_buffer_push(&mut buf, (c, p));
                        proof {
                            assert(penguin_buffer(buf) == old_buf.push((c, p)));
                            assert(c@ == arr_to_hex(index_to_arr(i as int)));
                            assert(penguin_matches(b[i as int], team));
                            assert forall|k: int|
                                0 <= k < penguin_buffer(buf).len() implies matching_pos(
                                b,
                                team,
                                #[trigger] penguin_buffer(buf)[k],
                            ) by {
                                if k < old_buf.len() {
                                    assert(penguin_buffer(buf)[k] == old_buf[k]);
                                } else {
                                    assert(penguin_buffer(buf)[k] == (c, p));
                                    assert(penguin_matches(b[i as int], team) && (c, p).0@
                                        == arr_to_hex(index_to_arr(i as int)));
                                }
                            }
                            assert forall|idx: int|
                                0 <= idx < i + 1 && penguin_matches(
                                    #[trigger] b[idx],
                                    team,
                                ) implies exists|k: int|
                                0 <= k < penguin_buffer(buf).len() && (#[trigger] penguin_buffer(
                                    buf,
                                )[k]).0@ == arr_to_hex(index_to_arr(idx)) by {
                                if idx == i as int {
                                    let kn = old_buf.len() as int;
                                    assert(penguin_buffer(buf)[kn] == (c, p));
                                    assert(0 <= kn < penguin_buffer(buf).len()
                                        && (penguin_buffer(buf)[kn]).0@ == arr_to_hex(
                                        index_to_arr(idx),
                                    ));
                                } else {
                                    assert(exists|k0: int|
                                        0 <= k0 < old_buf.len() && (#[trigger] old_buf[k0]).0@
                                            == arr_to_hex(index_to_arr(idx)));
                                    let k0 = choose|k0: int|
                                        0 <= k0 < old_buf.len() && (#[trigger] old_buf[k0]).0@
                                            == arr_to_hex(index_to_arr(idx));
                                    assert(penguin_buffer(buf)[k0] == old_buf[k0]);
                                    assert(0 <= k0 < penguin_buffer(buf).len()
                                        && (penguin_buffer(buf)[k0]).0@ == arr_to_hex(
                                        index_to_arr(idx),
                                    ));
                                }
                            }
                        }
                    }
                },
                None => {},
            }
            i += 1;
        }
        let expected: usize = match team {
            Some(_) => PENGUINS,
            None => 2 * PENGUINS,
        };
        let total = penguin_buffer_len(&buf);
        if total != expected {
            return false;
        }
        let mut all_ok = true;
        let mut k: usize = 0;
        while k < total
            invariant
                self.wf(),
                b == self@.board,
                k <= total,
                total == penguin_buffer(buf).len(),
                forall|k2: int|
                    0 <= k2 < penguin_buffer(buf).len() ==> matching_pos(
                        b,
                        team,
                        #[trigger] penguin_buffer(buf)[k2],
                    ),
                all_ok <==> (forall|k2: int|
                    0 <= k2 < k ==> neighbors_fishless(
                        b,
                        (#[trigger] penguin_buffer(buf)[k2]).0@,
                    )),
            decreases total - k,
        {
            let e = penguin_buffer_get(&buf, k);
            let c = e.0;
            proof {
                assert(matching_pos(b, team, penguin_buffer(buf)[k as int]));
                let idx = choose|idx: int|
                    0 <= idx < 64 && penguin_matches(#[trigger] b[idx], team) && penguin_buffer(
                        buf,
                    )[k as int].0@ == arr_to_hex(index_to_arr(idx));
                assert(c@ == arr_to_hex(index_to_arr(idx)));
                assert(0 <= c@.0 <= 15 && 0 <= c@.1 <= 7);
            }
            let mut ok = true;
            let mut j: usize = 0;
            while j < 6
                invariant
                    self.wf(),
                    b == self@.board,
                    j <= 6,
                    0 <= c@.0 <= 15,
                    0 <= c@.1 <= 7,
                    ok <==> (forall|j2: int|
                        0 <= j2 < j ==> #[trigger] fish_at(b, translate(c@, hex_dir(j2), 1))
                            == 0),
                decreases 6 - j,
            {
                let nb = c.plus(Vec2::<Doubled>::direction(j));
                proof {
                    assert(nb@ == translate(c@, hex_dir(j as int), 1));
                }
                let fish = match self.board.get(nb) {
                    Some(f) => f.fish,
                    None => 0,
                };
                proof {
                    assert(fish == fish_at(b, translate(c@, hex_dir(j as int), 1)));
                }
                if fish > 0 {
                    ok = false;
                }
                j += 1;
            }
            proof {
                assert(ok == neighbors_fishless(b, c@));
            }
            if !ok {
                all_ok = false;
            }
            k += 1;
        }
        proof {
            if all_ok {
                assert forall|idx: int|
                    0 <= idx < 64 && penguin_matches(#[trigger] b[idx], team) implies
                    neighbors_fishless(b, arr_to_hex(index_to_arr(idx))) by {
                    let kw = choose|kw: int|
                        0 <= kw < penguin_buffer(buf).len() && (#[trigger] penguin_buffer(
                            buf,
                        )[kw]).0@ == arr_to_hex(index_to_arr(idx));
                    assert(neighbors_fishless(b, penguin_buffer(buf)[kw].0@));
                }
                assert(spec_immovable(b, team));
            } else {
                let kw = choose|kw: int|
                    0 <= kw < penguin_buffer(buf).len() && !neighbors_fishless(
                        b,
                        (#[trigger] penguin_buffer(buf)[kw]).0@,
                    );
                assert(matching_pos(b, team, penguin_buffer(buf)[kw]));
                let idx = choose|idx: int|
                    0 <= idx < 64 && penguin_matches(#[trigger] b[idx], team) && penguin_buffer(
                        buf,
                    )[kw].0@ == arr_to_hex(index_to_arr(idx));
                assert(!spec_immovable(b, team));
            }
        }
        all_ok
    }

    /// The current team: the turn counter's team, swapped to its opponent
    /// when that team is immovable. Recomputed from the live board on every
    /// call, never cached.
    pub fn current_team(&self) -> (r: Team)
        requires
            self.wf(),
        ensures
            r == spec_current_team(self@),
            !spec_immovable(self@.board, Some(team_from_turn(self@.start_team, self@.turn)))
                ==> r == team_from_turn(self@.start_team, self@.turn),
            spec_immovable(self@.board, Some(team_from_turn(self@.start_team, self@.turn)))
                ==> r == team_from_turn(self@.start_team, self@.turn).spec_opponent(),
    {
        let t = self.current_team_from_turn();
        if self.immovable(Some(t)) {
            t.opponent()
        } else {
            t
        }
    }

    /// The current team's fields, each with its hex coordinate, in storage
    /// order.
    pub fn current_pieces(&self) -> (r: Vec<(Vec2<Doubled>, Field)>)
        requires
            self.wf(),
        ensures
            pieces_view(r@) == team_pieces(self@.board, spec_current_team(self@), 0),
    {
        let team = self.current_team();
        let ghost b = self@.board;
        let mut r: Vec<(Vec2<Doubled>, Field)> = Vec::new();
        proof {
            assert(pieces_view(r@) + team_pieces(b, team, 0) =~= team_pieces(b, team, 0));
        }
        let mut i: usize = 0;
        while i < 64
            invariant
                self.wf(),
                b == self@.board,
                i <= 64,
                pieces_view(r@) + team_pieces(b, team, i as int) == team_pieces(b, team, 0),
            decreases 64 - i,
        {
            let f = self.board.get_field(i);
            let take = match f.penguin {
                Some(p) => p == team,
                None => false,
            };
            if take {
                let x = (i % 8) as i32;
                let y = (i / 8) as i32;
                let c = Vec2::<Direct>::new(x, y).to_doubled();
                proof {
                    lemma_pieces_view_push(r@, (c, f));
                    assert(pieces_view(r@).push((c@, f)) + team_pieces(b, team, i + 1)
                        =~= pieces_view(r@) + team_pieces(b, team, i as int));
                }
                r.push((c, f));
            }
            i += 1;
        }
        proof {
            assert(pieces_view(r@) + team_pieces(b, team, 64) =~= pieces_view(r@));
        }
        r
    }

    /// Whether the current team has placed all of its penguins.
    pub fn penguins_placed(&self) -> (r: bool)
        requires
            self.wf(),
        ensures
            r == (penguin_count(self@.board, Some(spec_current_team(self@)), 0) == 4),
    {
        let team = self.current_team();
        let ghost b = self@.board;
        let mut count: usize = 0;
        let mut i: usize = 0;
        while i < 64
            invariant
                self.wf(),
                b == self@.board,
                i <= 64,
                count <= i,
                count + penguin_count(b, Some(team), i as int) == penguin_count(b, Some(team), 0),
            decreases 64 - i,
        {
            let f = self.board.get_field(i);
            let matched = match f.penguin {
                Some(p) => p == team,
                None => false,
            };
            if matched {
                count += 1;
            }
            i += 1;
        }
        count == PENGUINS
    }

    /// Fetches the possible moves: in the placing phase one placement per
    /// field bearing exactly one fish, in the sliding phase every slide of
    /// the current team's penguins, in storage order.
    pub fn possible_moves(&self) -> (r: Vec<Move>)
        requires
            self.wf(),
        ensures
            moves_view(r@) == spec_possible_moves(self@),
    {
        let team = self.current_team();
        let ghost b = self@.board;
        let mut r: Vec<Move> = Vec::new();
        if self.penguins_placed() {
            proof {
                assert(moves_view(r@) + sliding_moves(b, team, 0) =~= sliding_moves(b, team, 0));
            }
            let mut i: usize = 0;
            while i < 64
                invariant
                    self.wf(),
                    b == self@.board,
                    i <= 64,
                    moves_view(r@) + sliding_moves(b, team, i as int) == sliding_moves(b, team, 0),
                decreases 64 - i,
            {
                let f = self.board.get_field(i);
                let matched = match f.penguin {
                    Some(p) => p == team,
                    None => false,
                };
                if matched {
                    let x = (i % 8) as i32;
                    let y = (i / 8) as i32;
                    let c = Vec2::<Direct>::new(x, y).to_doubled();
                    let mut ms = self.board.possible_moves_from(c);
                    proof {
                        lemma_moves_view_concat(r@, ms@);
                        assert((moves_view(r@) + moves_view(ms@)) + sliding_moves(b, team, i + 1)
                            =~= moves_view(r@) + sliding_moves(b, team, i as int));
                    }
                    r.append(&mut ms);
                }
                i += 1;
            }
            proof {
                assert(moves_view(r@) + sliding_moves(b, team, 64) =~= moves_view(r@));
            }
        } else {
            proof {
                assert(moves_view(r@) + placement_moves(b, 0) =~= placement_moves(b, 0));
            }
            let mut i: usize = 0;
            while i < 64
                invariant
                    self.wf(),
                    b == self@.board,
                    i <= 64,
                    moves_view(r@) + placement_moves(b, i as int) == placement_moves(b, 0),
                decreases 64 - i,
            {
                let f = self.board.get_field(i);
                if f.fish == 1 {
                    let x = (i % 8) as i32;
                    let y = (i / 8) as i32;
                    let c = Vec2::<Direct>::new(x, y).to_doubled();
                    let m = Move::placing(c);
                    proof {
                        lemma_moves_view_push(r@, m);
                        assert(moves_view(r@).push(m@) + placement_moves(b, i + 1)
                            =~= moves_view(r@) + placement_moves(b, i as int));
                    }
                    r.push(m);
                }
                i += 1;
            }
            proof {
                assert(moves_view(r@) + placement_moves(b, 64) =~= moves_view(r@));
            }
        }
        r
    }

    /// Performs the given move: clears a slide's source field, adds the
    /// destination field's fish to the acting team's score, puts the team's
    /// penguin on the destination, records the move and advances the turn by
    /// exactly one. Feeding it a move that legal-move enumeration could not
    /// have produced is a caller error, excluded by precondition.
    pub fn perform(&mut self, m: Move)
        requires
            old(self).wf(),
            move_allowed(old(self)@, m@),
            old(self)@.turn < usize::MAX,
            fish_of(old(self)@, spec_current_team(old(self)@)) + gained_fish(old(self)@, m@)
                <= usize::MAX,
        ensures
            final(self).wf(),
            final(self)@ == spec_perform(old(self)@, m@),
            final(self)@.turn == old(self)@.turn + 1,
            fish_of(final(self)@, spec_current_team(old(self)@)) == fish_of(
                old(self)@,
                spec_current_team(old(self)@),
            ) + gained_fish(old(self)@, m@),
    {
        let to = m.to();
        let team = self.current_team();
        match m.from() {
            Some(from) => {
                self.board.set(from, Field { fish: 0, penguin: None });
            },
            None => {},
        }
        let dest = match self.board.get(to) {
            Some(f) => f,
            None => Field { fish: 0, penguin: None },
        };
        let gained = dest.fish;
        self.board.set(to, Field { fish: 0, penguin: Some(team) });
        match team {
            Team::One => {
                self.fish_one = self.fish_one + gained;
            },
            Team::Two => {
                self.fish_two = self.fish_two + gained;
            },
        }
        self.last_move = Some(m);
        self.turn = self.turn + 1;
    }

    /// Decodes a state from an element.
    #[verifier::loop_isolation(false)]
    pub fn from_element(elem: &Element) -> (r: Result<State, SCError>)
        ensures
            match r {
                Ok(s) => spec_decode_state(*elem) == Ok::<StateView, SCError>(s@) && s.wf(),
                Err(e) => spec_decode_state(*elem) == Err::<StateView, SCError>(e),
            },
    {
        let board = match elem.child_by_name("board") {
            None => {
                return Err(SCError::MissingChild);
            },
            Some(bc) => match Board::from_element(bc) {
                Ok(b) => b,
                Err(er) => {
                    return Err(er);
                },
            },
        };
        let turn = match elem.attribute("turn") {
            None => {
                return Err(SCError::MissingAttribute);
            },
            Some(ts) => match parse_usize(ts.as_str()) {
                Ok(t) => t,
                Err(er) => {
                    return Err(er);
                },
            },
        };
        let fishes = match elem.child_by_name("fishes") {
            None => {
                return Err(SCError::MissingChild);
            },
            Some(fc) => fc,
        };
        let mut counts: Vec<usize> = Vec::new();
        proof {
            assert(counts_view(counts@) + Seq::<int>::empty() =~= Seq::<int>::empty());
        }
        let mut i: usize = 0;
        let n = fishes.children.len();
        while i < n
            invariant
                i <= n,
                n == fishes.children@.len(),
                fish_counts(fishes.children@, 0) == (match fish_counts(
                    fishes.children@,
                    i as int,
                ) {
                    Ok(rest) => Ok::<Seq<int>, SCError>(counts_view(counts@) + rest),
                    Err(er) => Err::<Seq<int>, SCError>(er),
                }),
            decreases n - i,
        {
            if str_eq(fishes.children[i].name.as_str(), "int") {
                match parse_usize(fishes.children[i].content.as_str()) {
                    Ok(v) => {
                        proof {
                            lemma_counts_view_push(counts@, v);
                            assert(counts_view(counts@).push(v as int) + (match fish_counts(
                                fishes.children@,
                                i + 1,
                            ) {
                                Ok(rest) => rest,
                                Err(_) => Seq::<int>::empty(),
                            }) =~= counts_view(counts@) + (seq![v as int] + (match fish_counts(
                                fishes.children@,
                                i + 1,
                            ) {
                                Ok(rest) => rest,
                                Err(_) => Seq::<int>::empty(),
                            })));
                        }
                        counts.push(v);
                    },
                    Err(er) => {
                        return Err(er);
                    },
                }
            }
            i += 1;
        }
        proof {
            assert(counts_view(counts@) + Seq::<int>::empty() =~= counts_view(counts@));
        }
        if counts.len() != 2 {
            return Err(SCError::WrongTeamCount);
        }
        let last_move = match elem.child_by_name("lastMove") {
            None => None,
            Some(mc) => match Move::from_element(mc) {
                Ok(m) => Some(m),
                Err(_) => None,
            },
        };
        let start_team = match elem.child_by_name("startTeam") {
            None => {
                return Err(SCError::MissingChild);
            },
            Some(sc) => match Team::from_name(sc.content.as_str()) {
                Ok(t) => t,
                Err(er) => {
                    return Err(er);
                },
            },
        };
        let fish_one = counts[0];
        let fish_two = counts[1];
        Ok(State { board, turn, fish_one, fish_two, last_move, start_team })
    }

    /// Fetches the state after the given move; the receiver is left
    /// unmodified.
    pub fn child(&self, m: Move) -> (r: State)
        requires
            self.wf(),
            move_allowed(self@, m@),
            self@.turn < usize::MAX,
            fish_of(self@, spec_current_team(self@)) + gained_fish(self@, m@) <= usize::MAX,
        ensures
            r.wf(),
            r@ == spec_perform(self@, m@),
    {
        let mut next = State {
            board: self.board.duplicate(),
            turn: self.turn,
            fish_one: self.fish_one,
            fish_two: self.fish_two,
            last_move: self.last_move,
            start_team: self.start_team,
        };
        proof {
            assert(next@ == self@);
        }
        next.perform(m);
        next
    }
}

} // verus!
