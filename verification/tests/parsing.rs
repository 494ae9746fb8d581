//! Decoding and encoding tests on whole elements.

use penguins::{Board, Direct, Element, Field, Move, Score, ScoreCause, State, Team, Vec2};

/// A field element with the given text content.
fn field_elem(text: &str) -> Element {
    Element::new("field").with_content(text)
}

/// A row element holding eight field children.
fn row_elem(texts: [&str; 8]) -> Element {
    let mut row = Element::new("list");
    for t in texts {
        row = row.with_child(field_elem(t));
    }
    row
}

#[test]
fn test_parsing_board() {
    let board_elem = Element::new("board")
        .with_child(row_elem(["3", "2", "1", "1", "4", "3", "2", "3"]))
        .with_child(row_elem(["3", "2", "2", "3", "1", "1", "2", "1"]))
        .with_child(row_elem(["1", "2", "2", "1", "1", "2", "1", "1"]))
        .with_child(row_elem(["2", "1", "1", "1", "1", "1", "1", "1"]))
        .with_child(row_elem(["1", "1", "1", "1", "2", "1", "1", "1"]))
        .with_child(row_elem(["1", "1", "1", "1", "1", "1", "ONE", "1"]))
        .with_child(row_elem(["1", "1", "1", "1", "1", "1", "1", "1"]))
        .with_child(row_elem(["1", "1", "1", "1", "1", "1", "1", "1"]));
    let counts: [usize; 64] = [
        3, 2, 1, 1, 4, 3, 2, 3,
        3, 2, 2, 3, 1, 1, 2, 1,
        1, 2, 2, 1, 1, 2, 1, 1,
        2, 1, 1, 1, 1, 1, 1, 1,
        1, 1, 1, 1, 2, 1, 1, 1,
        1, 1, 1, 1, 1, 1, 0, 1,
        1, 1, 1, 1, 1, 1, 1, 1,
        1, 1, 1, 1, 1, 1, 1, 1,
    ];
    let mut fields = Vec::new();
    for (i, c) in counts.iter().enumerate() {
        if i == 5 * 8 + 6 {
            fields.push(Field::with_penguin(Team::One));
        } else {
            fields.push(Field::with_fish(*c));
        }
    }
    assert_eq!(Board::from_element(&board_elem).unwrap(), Board::new(fields));
}

#[test]
fn test_parsing_placing_move() {
    let elem = Element::new("data")
        .with_attribute("class", "move")
        .with_child(Element::new("to").with_attribute("x", "13").with_attribute("y", "11"));
    assert_eq!(
        Move::from_element(&elem).unwrap(),
        Move::placing(Vec2::new(13, 11))
    );
}

#[test]
fn test_parsing_move() {
    let elem = Element::new("data")
        .with_attribute("class", "move")
        .with_child(Element::new("from").with_attribute("x", "3").with_attribute("y", "5"))
        .with_child(Element::new("to").with_attribute("x", "7").with_attribute("y", "5"));
    assert_eq!(
        Move::from_element(&elem).unwrap(),
        Move::between(Vec2::new(3, 5), Vec2::new(7, 5))
    );
}

#[test]
fn test_formatting_move() {
    assert_eq!(
        Move::between(Vec2::new(2, 3), Vec2::new(4, 1)).to_element(),
        Element::new("data")
            .with_attribute("class", "move")
            .with_child(Element::new("from").with_attribute("x", "2").with_attribute("y", "3"))
            .with_child(Element::new("to").with_attribute("x", "4").with_attribute("y", "1"))
    );
}

#[test]
fn test_parsing_state() {
    let mut board_elem = Element::new("board");
    for _ in 0..8 {
        board_elem = board_elem.with_child(row_elem(["0", "0", "0", "0", "0", "0", "0", "0"]));
    }
    let elem = Element::new("state")
        .with_attribute("class", "state")
        .with_attribute("turn", "1")
        .with_child(Element::new("startTeam").with_content("ONE"))
        .with_child(board_elem)
        .with_child(
            Element::new("lastMove").with_child(
                Element::new("to").with_attribute("x", "13").with_attribute("y", "5"),
            ),
        )
        .with_child(
            Element::new("fishes")
                .with_child(Element::new("int").with_content("1"))
                .with_child(Element::new("int").with_content("0")),
        );
    let mut fields = Vec::new();
    for _ in 0..64 {
        fields.push(Field::with_fish(0));
    }
    assert_eq!(
        State::from_element(&elem).unwrap(),
        State::new(
            Board::new(fields),
            1,
            1,
            0,
            Some(Move::placing(Vec2::new(13, 5))),
            Team::One
        )
    );
}

#[test]
fn vec2_test_parsing() {
    let elem = Element::new("coords").with_attribute("x", "23").with_attribute("y", "0");
    let parsed: Vec2<Direct> = Vec2::from_element(&elem).unwrap();
    assert_eq!(parsed, Vec2::new(23, 0));
}

#[test]
fn score_test_parsing() {
    let elem = Element::new("score")
        .with_attribute("cause", "LEFT")
        .with_attribute("reason", "Player left")
        .with_child(Element::new("part").with_content("0"))
        .with_child(Element::new("part").with_content("15"));
    assert_eq!(
        Score::from_element(&elem).unwrap(),
        Score::new(ScoreCause::Left, "Player left", vec![0, 15])
    );
}
