//! The 8x8 game board, a two-dimensional grid of ice floes.

use crate::element::Element;
use crate::error::SCError;
use crate::field::{spec_decode_field, Field};
use crate::moves::{lemma_moves_view_push, moves_view, Move, MoveView};
use crate::team::Team;
use crate::text::str_eq;
use crate::vec2::{arr_to_hex, hex_dir, hex_to_arr, translate, Direct, Doubled, Vec2};
use vstd::prelude::*;

verus! {

/// The decoded fields of one row element: its field children, children `j`
/// and higher, in order.
pub open spec fn row_cells(children: Seq<Element>, j: int) -> Seq<Field>
    decreases children.len() - j,
{
    if j < 0 || j >= children.len() {
        Seq::empty()
    } else {
        let rest = row_cells(children, j + 1);
        if children[j].name@ == "field"@ {
            seq![spec_decode_field(children[j])] + rest
        } else {
            rest
        }
    }
}

/// The decoded fields of a board element's rows: the field children of each
/// list child, flattened in order, children `i` and higher.
pub open spec fn board_cells(children: Seq<Element>, i: int) -> Seq<Field>
    decreases children.len() - i,
{
    if i < 0 || i >= children.len() {
        Seq::empty()
    } else {
        let rest = board_cells(children, i + 1);
        if children[i].name@ == "list"@ {
            row_cells(children[i].children@, 0) + rest
        } else {
            rest
        }
    }
}

/// What decoding a board yields: its decoded cells when they number exactly
/// one per cell of the grid, a count error otherwise.
pub open spec fn spec_decode_board(e: Element) -> Result<Seq<Field>, SCError> {
    let cells = board_cells(e.children@, 0);
    if cells.len() == 64 {
        Ok(cells)
    } else {
        Err(SCError::WrongFieldCount)
    }
}

/// Whether an array coordinate addresses a cell of the 8x8 grid.
pub open spec fn in_bounds_arr(p: (int, int)) -> bool {
    0 <= p.0 < 8 && 0 <= p.1 < 8
}

/// Row-major storage index of an array coordinate.
pub open spec fn arr_index(p: (int, int)) -> int {
    p.1 * 8 + p.0
}

/// The array coordinate stored at an index.
pub open spec fn index_to_arr(i: int) -> (int, int) {
    (i % 8, i / 8)
}

/// Fish count the board shows at a hex coordinate: the stored count on the
/// grid, 0 beyond its edge.
pub open spec fn fish_at(b: Seq<Field>, hex: (int, int)) -> int {
    let a = hex_to_arr(hex);
    if in_bounds_arr(a) {
        b[arr_index(a)].fish as int
    } else {
        0
    }
}

/// Penguin the board shows at a hex coordinate: the stored penguin on the
/// grid, none beyond its edge.
pub open spec fn penguin_at(b: Seq<Field>, hex: (int, int)) -> Option<Team> {
    let a = hex_to_arr(hex);
    if in_bounds_arr(a) {
        b[arr_index(a)].penguin
    } else {
        None
    }
}

/// The sliding moves from `o` along direction `j`, taking `n` or more unit
/// steps: one move per step while the stepped-to field bears fish, stopping
/// at the first field without (the board's edge bears none).
pub open spec fn ray(b: Seq<Field>, o: (int, int), j: int, n: int) -> Seq<MoveView>
    decreases 8 - n,
{
    if n < 1 || n >= 8 {
        Seq::empty()
    } else if fish_at(b, translate(o, hex_dir(j), n)) > 0 {
        seq![MoveView { from: Some(o), to: translate(o, hex_dir(j), n) }] + ray(b, o, j, n + 1)
    } else {
        Seq::empty()
    }
}

/// The sliding moves from `o` along all directions with index `j` or higher.
pub open spec fn rays_from(b: Seq<Field>, o: (int, int), j: int) -> Seq<MoveView>
    decreases 6 - j,
{
    if j < 0 || j >= 6 {
        Seq::empty()
    } else {
        ray(b, o, j, 1) + rays_from(b, o, j + 1)
    }
}

/// All sliding moves from `o`, direction by direction.
pub open spec fn spec_moves_from(b: Seq<Field>, o: (int, int)) -> Seq<MoveView> {
    rays_from(b, o, 0)
}

/// The penguins on the cells with index `i` or higher, each with its hex
/// coordinate, in storage order.
pub open spec fn penguin_entries(b: Seq<Field>, i: int) -> Seq<((int, int), Team)>
    decreases 64 - i,
{
    if i < 0 || i >= 64 {
        Seq::empty()
    } else {
        let rest = penguin_entries(b, i + 1);
        match b[i].penguin {
            Some(t) => seq![(arr_to_hex(index_to_arr(i)), t)] + rest,
            None => rest,
        }
    }
}

/// The views of a sequence of coordinate/team pairs.
pub open spec fn penguins_view(s: Seq<(Vec2<Doubled>, Team)>) -> Seq<((int, int), Team)> {
    s.map_values(|p: (Vec2<Doubled>, Team)| (p.0@, p.1))
}

/// Taking views commutes with appending one entry.
proof fn lemma_penguins_view_push(s: Seq<(Vec2<Doubled>, Team)>, e: (Vec2<Doubled>, Team))
    ensures
        penguins_view(s.push(e)) == penguins_view(s).push((e.0@, e.1)),
{
    assert(penguins_view(s.push(e)) =~= penguins_view(s).push((e.0@, e.1)));
}

/// Bounds of the components of the six unit hex directions.
proof fn lemma_dir_bounds(j: int)
    ensures
        -2 <= hex_dir(j).0 <= 2,
        -1 <= hex_dir(j).1 <= 1,
{
}

/// A product of a direction component and a step count stays small.
proof fn lemma_small_product(a: int, b: int)
    requires
        -2 <= a <= 2,
        0 <= b <= 8,
    ensures
        -16 <= a * b <= 16,
{
    assert(-16 <= a * b <= 16) by (nonlinear_arith)
        requires
            -2 <= a <= 2,
            0 <= b <= 8,
    ;
}

/// The 8x8 game board, a two-dimensional grid of ice floes.
#[derive(Debug, PartialEq, Eq)]
pub struct Board {
    fields: Vec<Field>,
}

impl View for Board {
    type V = Seq<Field>;

    closed spec fn view(&self) -> Seq<Field> {
        self.fields@
    }
}

impl Default for Board {
    /// The empty board.
    fn default() -> (r: Board)
        ensures
            r.wf(),
            forall|i: int| 0 <= i < 64 ==> r@[i] == (Field { fish: 0, penguin: None }),
    {
        Board::empty()
    }
}

impl Board {
    /// A board always holds exactly one field per cell of the 8x8 grid.
    pub open spec fn wf(&self) -> bool {
        self@.len() == 64
    }

    /// Creates a new board with the given fields, in row-major order.
    pub fn new(fields: Vec<Field>) -> (r: Board)
        requires
            fields@.len() == 64,
        ensures
            r@ == fields@,
            r.wf(),
    {
        Board { fields }
    }

    /// The empty board.
    pub fn empty() -> (r: Board)
        ensures
            r.wf(),
            forall|i: int| 0 <= i < 64 ==> r@[i] == (Field { fish: 0, penguin: None }),
    {
        let mut fields: Vec<Field> = Vec::new();
        let mut i: usize = 0;
        while i < 64
            invariant
                i <= 64,
                fields@.len() == i,
                forall|k: int| 0 <= k < i ==> fields@[k] == (Field { fish: 0, penguin: None }),
            decreases 64 - i,
        {
            fields.push(Field { fish: 0, penguin: None });
            i += 1;
        }
        Board { fields }
    }

    /// An independent copy of the board.
    pub fn duplicate(&self) -> (r: Board)
        requires
            self.wf(),
        ensures
            r@ == self@,
            r.wf(),
    {
        let mut fields: Vec<Field> = Vec::new();
        let mut i: usize = 0;
        while i < 64
            invariant
                self.wf(),
                i <= 64,
                fields@.len() == i,
                forall|k: int| 0 <= k < i ==> fields@[k] == self@[k],
            decreases 64 - i,
        {
            fields.push(self.fields[i]);
            i += 1;
        }
        proof {
            assert(fields@ =~= self@);
        }
        Board { fields }
    }

    /// Decodes a board from an element: the field children of its list
    /// children must number exactly one per cell of the grid.
    pub fn from_element(elem: &Element) -> (r: Result<Board, SCError>)
        ensures
            match r {
                Ok(b) => spec_decode_board(*elem) == Ok::<Seq<Field>, SCError>(b@) && b.wf(),
                Err(e) => spec_decode_board(*elem) == Err::<Seq<Field>, SCError>(e),
            },
    {
        let mut fields: Vec<Field> = Vec::new();
        proof {
            assert(fields@ + board_cells(elem.children@, 0) =~= board_cells(elem.children@, 0));
        }
        let mut i: usize = 0;
        let n = elem.children.len();
        while i < n
            invariant
                i <= n,
                n == elem.children@.len(),
                fields@ + board_cells(elem.children@, i as int) == board_cells(elem.children@, 0),
            decreases n - i,
        {
            if str_eq(elem.children[i].name.as_str(), "list") {
                proof {
                    assert((fields@ + row_cells(elem.children@[i as int].children@, 0))
                        + board_cells(elem.children@, i + 1) =~= fields@ + board_cells(
                        elem.children@,
                        i as int,
                    ));
                }
                let mut j: usize = 0;
                let m = elem.children[i].children.len();
                while j < m
                    invariant
                        i < n,
                        n == elem.children@.len(),
                        j <= m,
                        m == elem.children@[i as int].children@.len(),
                        (fields@ + row_cells(elem.children@[i as int].children@, j as int))
                            + board_cells(elem.children@, i + 1) == board_cells(
                            elem.children@,
                            0,
                        ),
                    decreases m - j,
                {
                    if str_eq(elem.children[i].children[j].name.as_str(), "field") {
                        let f = Field::from_element(&elem.children[i].children[j]);
                        proof {
                            assert((fields@.push(f) + row_cells(
                                elem.children@[i as int].children@,
                                j + 1,
                            )) + board_cells(elem.children@, i + 1) =~= (fields@ + row_cells(
                                elem.children@[i as int].children@,
                                j as int,
                            )) + board_cells(elem.children@, i + 1));
                        }
                        fields.push(f);
                    }
                    j += 1;
                }
                proof {
                    assert((fields@ + row_cells(elem.children@[i as int].children@, m as int))
                        + board_cells(elem.children@, i + 1) =~= fields@ + board_cells(
                        elem.children@,
                        i + 1,
                    ));
                }
            }
            i += 1;
        }
        proof {
            assert(fields@ + board_cells(elem.children@, n as int) =~= fields@);
        }
        if fields.len() == 64 {
            Ok(Board { fields })
        } else {
            Err(SCError::WrongFieldCount)
        }
    }

    /// Checks whether the given direct coordinates are in bounds.
    pub fn in_bounds(coords: Vec2<Direct>) -> (r: bool)
        ensures
            r == in_bounds_arr(coords@),
    {
        coords.x >= 0 && coords.x < 8 && coords.y >= 0 && coords.y < 8
    }

    /// Optionally fetches the field at the given position: the stored field
    /// for a cell of the grid, nothing beyond its edge.
    pub fn get(&self, coords: Vec2<Doubled>) -> (r: Option<Field>)
        requires
            self.wf(),
            coords@.0 > i32::MIN,
        ensures
            r == (if in_bounds_arr(hex_to_arr(coords@)) {
                Some(self@[arr_index(hex_to_arr(coords@))])
            } else {
                None::<Field>
            }),
    {
        let direct = coords.to_direct();
        if direct.x >= 0 && direct.x < 8 && direct.y >= 0 && direct.y < 8 {
            let idx = (direct.y as usize) * 8 + (direct.x as usize);
            Some(self.fields[idx])
        } else {
            None
        }
    }

    /// Overwrites the field at the given in-bounds position.
    pub fn set(&mut self, coords: Vec2<Doubled>, field: Field)
        requires
            old(self).wf(),
            coords@.0 > i32::MIN,
            in_bounds_arr(hex_to_arr(coords@)),
        ensures
            final(self)@ == old(self)@.update(arr_index(hex_to_arr(coords@)), field),
            final(self).wf(),
    {
        let direct = coords.to_direct();
        let idx = (direct.y as usize) * 8 + (direct.x as usize);
        self.fields.set(idx, field);
    }

    /// The field at a storage index.
    pub(crate) fn get_field(&self, i: usize) -> (r: Field)
        requires
            self.wf(),
            i < 64,
        ensures
            r == self@[i as int],
    {
        self.fields[i]
    }

    /// All fields with their hex coordinates, in storage order.
    pub fn fields(&self) -> (r: Vec<(Vec2<Doubled>, Field)>)
        requires
            self.wf(),
        ensures
            r@.len() == 64,
            forall|i: int|
                0 <= i < 64 ==> (#[trigger] r@[i]).1 == self@[i] && r@[i].0@ == arr_to_hex(
                    index_to_arr(i),
                ),
    {
        let mut r: Vec<(Vec2<Doubled>, Field)> = Vec::new();
        let mut i: usize = 0;
        while i < 64
            invariant
                self.wf(),
                i <= 64,
                r@.len() == i,
                forall|k: int|
                    0 <= k < i ==> (#[trigger] r@[k]).1 == self@[k] && r@[k].0@ == arr_to_hex(
                        index_to_arr(k),
                    ),
            decreases 64 - i,
        {
            let x = (i % 8) as i32;
            let y = (i / 8) as i32;
            let c = Vec2::<Direct>::new(x, y).to_doubled();
            r.push((c, self.fields[i]));
            i += 1;
        }
        r
    }

    /// The penguins on the board, each with its hex coordinate, in storage order.
    pub fn penguins(&self) -> (r: Vec<(Vec2<Doubled>, Team)>)
        requires
            self.wf(),
        ensures
            penguins_view(r@) == penguin_entries(self@, 0),
    {
        let mut r: Vec<(Vec2<Doubled>, Team)> = Vec::new();
        proof {
            assert(penguins_view(r@) + penguin_entries(self@, 0) =~= penguin_entries(self@, 0));
        }
        let mut i: usize = 0;
        while i < 64
            invariant
                self.wf(),
                i <= 64,
                penguins_view(r@) + penguin_entries(self@, i as int) == penguin_entries(self@, 0),
            decreases 64 - i,
        {
            let x = (i % 8) as i32;
            let y = (i / 8) as i32;
            match self.fields[i].penguin {
                Some(t) => {
                    let c = Vec2::<Direct>::new(x, y).to_doubled();
                    proof {
                        lemma_penguins_view_push(r@, (c, t));
                        assert(penguins_view(r@).push((c@, t)) + penguin_entries(self@, i + 1)
                            =~= penguins_view(r@) + penguin_entries(self@, i as int));
                    }
                    r.push((c, t));
                },
                None => {},
            }
            i += 1;
        }
        proof {
            assert(penguins_view(r@) + penguin_entries(self@, 64) =~= penguins_view(r@));
        }
        r
    }

    /// Fetches the possible moves from a given position: for each of the six
    /// hex directions, one slide per unit step outward until the first field
    /// without fish.
    pub fn possible_moves_from(&self, coords: Vec2<Doubled>) -> (r: Vec<Move>)
        requires
            self.wf(),
            -1000000 <= coords@.0 <= 1000000,
            -1000000 <= coords@.1 <= 1000000,
        ensures
            moves_view(r@) == spec_moves_from(self@, coords@),
    {
        let mut r: Vec<Move> = Vec::new();
        proof {
            assert(moves_view(r@) + rays_from(self@, coords@, 0) =~= rays_from(self@, coords@, 0));
        }
        let mut j: usize = 0;
        while j < 6
            invariant
                self.wf(),
                j <= 6,
                -1000000 <= coords@.0 <= 1000000,
                -1000000 <= coords@.1 <= 1000000,
                moves_view(r@) + rays_from(self@, coords@, j as int) == spec_moves_from(
                    self@,
                    coords@,
                ),
            decreases 6 - j,
        {
            let d = Vec2::<Doubled>::direction(j);
            let mut n: usize = 1;
            loop
                invariant_except_break
                    self.wf(),
                    j < 6,
                    1 <= n <= 8,
                    -1000000 <= coords@.0 <= 1000000,
                    -1000000 <= coords@.1 <= 1000000,
                    d@ == hex_dir(j as int),
                    moves_view(r@) + ray(self@, coords@, j as int, n as int) + rays_from(
                        self@,
                        coords@,
                        j as int + 1,
                    ) == spec_moves_from(self@, coords@),
                ensures
                    moves_view(r@) + rays_from(self@, coords@, j as int + 1) == spec_moves_from(
                        self@,
                        coords@,
                    ),
                decreases 8 - n,
            {
                if n >= 8 {
                    proof {
                        assert(moves_view(r@) + ray(self@, coords@, j as int, n as int)
                            =~= moves_view(r@));
                    }
                    break ;
                }
                proof {
                    lemma_dir_bounds(j as int);
                    lemma_small_product(hex_dir(j as int).0, n as int);
                    lemma_small_product(hex_dir(j as int).1, n as int);
                }
                let to = coords.plus(d.scaled(n as i32));
                proof {
                    assert(to@ == translate(coords@, hex_dir(j as int), n as int));
                }
                let fish = match self.get(to) {
                    Some(f) => f.fish,
                    None => 0,
                };
                if fish == 0 {
                    proof {
                        assert(moves_view(r@) + ray(self@, coords@, j as int, n as int)
                            =~= moves_view(r@));
                    }
                    break ;
                }
                let m = Move::between(coords, to);
                proof {
                    lemma_moves_view_push(r@, m);
                    assert(moves_view(r@).push(m@) + ray(self@, coords@, j as int, n as int + 1)
                        =~= moves_view(r@) + ray(self@, coords@, j as int, n as int));
                }
                r.push(m);
                n += 1;
            }
            j += 1;
        }
        proof {
            assert(moves_view(r@) + rays_from(self@, coords@, 6) =~= moves_view(r@));
        }
        r
    }
}

/// Every move that `possible_moves_from` may yield starts at the queried
/// position, lands inside the board on a field whose fish count is strictly
/// positive, and reaches it by whole unit steps along one hex direction.
pub proof fn lemma_possible_moves_from_valid(b: Seq<Field>, o: (int, int), m: MoveView)
    requires
        spec_moves_from(b, o).contains(m),
    ensures
        m.from == Some(o),
        in_bounds_arr(hex_to_arr(m.to)),
        fish_at(b, m.to) > 0,
        exists|j: int, n: int|
            0 <= j < 6 && 1 <= n < 8 && m.to == #[trigger] translate(o, hex_dir(j), n),
{
    lemma_rays_valid(b, o, 0, m);
}

/// Every move of a suffix of the direction enumeration is valid.
proof fn lemma_rays_valid(b: Seq<Field>, o: (int, int), j: int, m: MoveView)
    requires
        rays_from(b, o, j).contains(m),
    ensures
        m.from == Some(o),
        in_bounds_arr(hex_to_arr(m.to)),
        fish_at(b, m.to) > 0,
        exists|j2: int, n: int|
            j <= j2 < 6 && 1 <= n < 8 && m.to == #[trigger] translate(o, hex_dir(j2), n),
    decreases 6 - j,
{
    if j < 0 || j >= 6 {
        assert(false);
    } else {
        let s1 = ray(b, o, j, 1);
        let s2 = rays_from(b, o, j + 1);
        let i = choose|i: int| 0 <= i < (s1 + s2).len() && (s1 + s2)[i] == m;
        if i < s1.len() {
            assert(s1.contains(m));
            lemma_ray_valid(b, o, j, 1, m);
            let n = choose|n: int|
                1 <= n < 8 && m.to == #[trigger] translate(o, hex_dir(j), n);
            assert(j <= j < 6 && 1 <= n < 8 && m.to == translate(o, hex_dir(j), n));
        } else {
            assert(s2.contains(m));
            lemma_rays_valid(b, o, j + 1, m);
        }
    }
}

/// Every move of a single direction's ray is valid.
proof fn lemma_ray_valid(b: Seq<Field>, o: (int, int), j: int, n: int, m: MoveView)
    requires
        ray(b, o, j, n).contains(m),
    ensures
        m.from == Some(o),
        in_bounds_arr(hex_to_arr(m.to)),
        fish_at(b, m.to) > 0,
        exists|n2: int| n <= n2 < 8 && m.to == #[trigger] translate(o, hex_dir(j), n2),
    decreases 8 - n,
{
    if n < 1 || n >= 8 {
        assert(false);
    } else if fish_at(b, translate(o, hex_dir(j), n)) > 0 {
        let first = MoveView { from: Some(o), to: translate(o, hex_dir(j), n) };
        let s1 = seq![first];
        let s2 = ray(b, o, j, n + 1);
        let i = choose|i: int| 0 <= i < (s1 + s2).len() && (s1 + s2)[i] == m;
        if i < 1 {
            assert(m == first);
            assert(n <= n < 8 && m.to == translate(o, hex_dir(j), n));
        } else {
            assert(s2.contains(m));
            lemma_ray_valid(b, o, j, n + 1, m);
        }
    } else {
        assert(false);
    }
}

} // verus!
