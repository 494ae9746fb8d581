//! Behavior tests of the rules engine: coordinates, move enumeration, turn
//! logic and move application.

use penguins::{Board, Field, Move, State, Team, Vec2, PENGUINS};

/// An all-empty board.
fn empty_fields() -> Vec<Field> {
    let mut fields = Vec::new();
    for _ in 0..64 {
        fields.push(Field::with_fish(0));
    }
    fields
}

#[test]
fn coordinate_round_trip() {
    for y in 0..8 {
        for x in 0..8 {
            let direct = Vec2::new(x, y);
            let doubled = direct.to_doubled();
            assert_eq!(doubled, Vec2::new(2 * x + y % 2, y));
            assert_eq!(doubled.to_direct(), direct);
            assert_eq!(doubled.to_direct().to_doubled(), doubled);
        }
    }
}

#[test]
fn vector_arithmetic() {
    let v = Vec2::<penguins::Doubled>::new(-3, 4);
    assert_eq!(v.area(), 12);
    assert_eq!(v.squared_length(), 25);
    assert_eq!(v.plus(Vec2::new(1, 1)), Vec2::new(-2, 5));
    assert_eq!(v.minus(Vec2::new(1, 1)), Vec2::new(-4, 3));
    assert_eq!(v.scaled(2), Vec2::new(-6, 8));
}

#[test]
fn straight_lines() {
    assert!(Vec2::<penguins::Doubled>::new(4, 0).straight());
    assert!(Vec2::<penguins::Doubled>::new(-3, 3).straight());
    assert!(Vec2::<penguins::Doubled>::new(2, -2).straight());
    assert!(!Vec2::<penguins::Doubled>::new(3, 0).straight());
    assert!(!Vec2::<penguins::Doubled>::new(2, 1).straight());
}

#[test]
fn team_basics() {
    assert_eq!(Team::One.index(), 0);
    assert_eq!(Team::Two.index(), 1);
    assert_eq!(Team::One.opponent(), Team::Two);
    assert_eq!(Team::Two.opponent(), Team::One);
    assert_eq!(Team::One.direction(), 1);
    assert_eq!(Team::Two.direction(), -1);
    assert_eq!(Team::from_name("ONE").unwrap(), Team::One);
    assert_eq!(Team::One.name(), "ONE");
}

#[test]
fn field_basics() {
    let empty = Field::with_fish(0);
    assert!(empty.is_empty());
    assert!(!empty.is_occupied());
    let fishy = Field::with_fish(3);
    assert_eq!(fishy.fish(), 3);
    assert_eq!(fishy.penguin(), None);
    let mut occupied = Field::with_penguin(Team::Two);
    assert!(occupied.is_occupied());
    assert_eq!(occupied.fish(), 0);
    assert_eq!(occupied.penguin(), Some(Team::Two));
    let gained = occupied.place(Team::One);
    assert_eq!(gained, 0);
    assert_eq!(occupied.penguin(), Some(Team::One));
}

#[test]
fn board_get_and_edge() {
    let mut fields = empty_fields();
    fields[1] = Field::with_fish(2);
    let board = Board::new(fields);
    // array (1, 0) is doubled hex (2, 0)
    assert_eq!(board.get(Vec2::new(2, 0)).unwrap().fish(), 2);
    assert_eq!(board.get(Vec2::new(0, -1)), None);
    assert_eq!(board.get(Vec2::new(-2, 0)), None);
    assert_eq!(board.get(Vec2::new(16, 0)), None);
}

#[test]
fn sliding_moves_stop_at_fishless_field() {
    let mut fields = empty_fields();
    // fish on array (1,0), (2,0), (3,0); origin on array (0,0)
    fields[1] = Field::with_fish(1);
    fields[2] = Field::with_fish(1);
    fields[3] = Field::with_fish(1);
    let board = Board::new(fields);
    let origin = Vec2::new(0, 0);
    let moves = board.possible_moves_from(origin);
    assert_eq!(
        moves,
        vec![
            Move::between(origin, Vec2::new(2, 0)),
            Move::between(origin, Vec2::new(4, 0)),
            Move::between(origin, Vec2::new(6, 0)),
        ]
    );
}

#[test]
fn possible_moves_places_on_single_fish() {
    let mut fields = empty_fields();
    fields[0] = Field::with_fish(1);
    let state = State::new(Board::new(fields), 0, 0, 0, None, Team::One);
    let moves = state.possible_moves();
    assert_eq!(moves, vec![Move::placing(Vec2::new(0, 0))]);
}

#[test]
fn possible_moves_slides_after_placement() {
    let mut fields = empty_fields();
    // team one's full quota on row 0, one fish between the first two penguins
    fields[0] = Field::with_penguin(Team::One);
    fields[2] = Field::with_penguin(Team::One);
    fields[4] = Field::with_penguin(Team::One);
    fields[6] = Field::with_penguin(Team::One);
    fields[1] = Field::with_fish(1);
    let state = State::new(Board::new(fields), 0, 0, 0, None, Team::One);
    assert!(state.penguins_placed());
    let moves = state.possible_moves();
    assert_eq!(
        moves,
        vec![
            Move::between(Vec2::new(0, 0), Vec2::new(2, 0)),
            Move::between(Vec2::new(4, 0), Vec2::new(2, 0)),
        ]
    );
}

#[test]
fn immovable_needs_full_quota() {
    let mut fields = empty_fields();
    // three penguins only: not immovable, whatever their surroundings
    for i in 0..3 {
        fields[i] = Field::with_penguin(Team::One);
    }
    let state = State::new(Board::new(fields), 0, 0, 0, None, Team::One);
    assert!(!state.immovable(Some(Team::One)));
}

#[test]
fn immovable_when_blocked() {
    let mut fields = empty_fields();
    for i in 0..PENGUINS {
        fields[i] = Field::with_penguin(Team::One);
    }
    let state = State::new(Board::new(fields), 0, 0, 0, None, Team::One);
    // all neighbors bear no fish on an otherwise empty board
    assert!(state.immovable(Some(Team::One)));
    assert!(!state.immovable(Some(Team::Two)));
    // both teams together need both full quotas
    assert!(!state.immovable(None));
}

#[test]
fn immovable_sees_neighboring_fish() {
    let mut fields = empty_fields();
    for i in 0..PENGUINS {
        fields[i] = Field::with_penguin(Team::One);
    }
    // array (4, 0) is the right neighbor (doubled (8, 0)) of the last penguin
    fields[4] = Field::with_fish(1);
    let state = State::new(Board::new(fields), 0, 0, 0, None, Team::One);
    assert!(!state.immovable(Some(Team::One)));
}

#[test]
fn current_team_skips_immovable_team() {
    let mut fields = empty_fields();
    for i in 0..PENGUINS {
        fields[i] = Field::with_penguin(Team::One);
    }
    let state = State::new(Board::new(fields), 0, 0, 0, None, Team::One);
    assert_eq!(state.current_team_from_turn(), Team::One);
    assert_eq!(state.current_team(), Team::Two);
    let plain = State::new(Board::new(empty_fields()), 0, 0, 0, None, Team::One);
    assert_eq!(plain.current_team(), Team::One);
    let odd = State::new(Board::new(empty_fields()), 1, 0, 0, None, Team::One);
    assert_eq!(odd.current_team(), Team::Two);
}

#[test]
fn perform_placement_scores_and_advances() {
    let mut fields = empty_fields();
    fields[0] = Field::with_fish(1);
    let mut state = State::new(Board::new(fields), 0, 0, 0, None, Team::One);
    let m = Move::placing(Vec2::new(0, 0));
    state.perform(m);
    assert_eq!(state.turn(), 1);
    assert_eq!(state.fish(Team::One), 1);
    assert_eq!(state.fish(Team::Two), 0);
    assert_eq!(state.last_move(), Some(m));
    assert_eq!(
        state.board().get(Vec2::new(0, 0)).unwrap().penguin(),
        Some(Team::One)
    );
}

#[test]
fn perform_slide_clears_source() {
    let mut fields = empty_fields();
    // team one's full quota, one of them with fish ahead
    fields[0] = Field::with_penguin(Team::One);
    fields[1] = Field::with_penguin(Team::One);
    fields[2] = Field::with_penguin(Team::One);
    fields[8] = Field::with_penguin(Team::One);
    fields[3] = Field::with_fish(3);
    let mut state = State::new(Board::new(fields), 0, 0, 0, None, Team::One);
    // slide from array (2,0) = doubled (4,0) to array (3,0) = doubled (6,0)
    let m = Move::between(Vec2::new(4, 0), Vec2::new(6, 0));
    state.perform(m);
    assert_eq!(state.turn(), 1);
    assert_eq!(state.fish(Team::One), 3);
    assert!(state.board().get(Vec2::new(4, 0)).unwrap().is_empty());
    assert_eq!(
        state.board().get(Vec2::new(6, 0)).unwrap().penguin(),
        Some(Team::One)
    );
}

#[test]
fn child_leaves_parent_untouched() {
    let mut fields = empty_fields();
    fields[0] = Field::with_fish(1);
    let state = State::new(Board::new(fields), 0, 0, 0, None, Team::One);
    let next = state.child(Move::placing(Vec2::new(0, 0)));
    assert_eq!(state.turn(), 0);
    assert_eq!(state.fish(Team::One), 0);
    assert_eq!(next.turn(), 1);
    assert_eq!(next.fish(Team::One), 1);
    assert_eq!(next.start_team(), state.start_team());
}

#[test]
fn board_iteration() {
    let mut fields = empty_fields();
    fields[9] = Field::with_penguin(Team::Two);
    let board = Board::new(fields);
    let all = board.fields();
    assert_eq!(all.len(), 64);
    // array (1, 1) is doubled (3, 1)
    assert_eq!(all[9].0, Vec2::new(3, 1));
    assert_eq!(all[9].1.penguin(), Some(Team::Two));
    let penguins = board.penguins();
    assert_eq!(penguins, vec![(Vec2::new(3, 1), Team::Two)]);
}

#[test]
fn current_pieces_and_quota() {
    let mut fields = empty_fields();
    fields[0] = Field::with_penguin(Team::One);
    fields[7] = Field::with_penguin(Team::Two);
    let state = State::new(Board::new(fields), 0, 0, 0, None, Team::One);
    let pieces = state.current_pieces();
    assert_eq!(pieces.len(), 1);
    assert_eq!(pieces[0].0, Vec2::new(0, 0));
    assert!(!state.penguins_placed());
}
