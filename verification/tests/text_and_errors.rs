//! Tests of integer text handling and of each decode-error kind.

use penguins::text::{int_to_string, parse_i32, parse_usize, str_eq};
use penguins::{
    Board, Element, Event, Move, SCError, Score, ScoreAggregation, ScoreCause, State, Team, Vec2,
};

#[test]
fn parses_unsigned_integers() {
    assert_eq!(parse_usize("0").unwrap(), 0);
    assert_eq!(parse_usize("42").unwrap(), 42);
    assert_eq!(parse_usize("+42").unwrap(), 42);
    assert_eq!(parse_usize(""), Err(SCError::ParseInt));
    assert_eq!(parse_usize("-1"), Err(SCError::ParseInt));
    assert_eq!(parse_usize("4x2"), Err(SCError::ParseInt));
}

#[test]
fn parses_signed_integers() {
    assert_eq!(parse_i32("-17").unwrap(), -17);
    assert_eq!(parse_i32("2147483647").unwrap(), 2147483647);
    assert_eq!(parse_i32("-2147483648").unwrap(), -2147483648);
    assert_eq!(parse_i32("2147483648"), Err(SCError::ParseInt));
    assert_eq!(parse_i32("-2147483649"), Err(SCError::ParseInt));
    assert_eq!(parse_i32("99999999999999999999"), Err(SCError::ParseInt));
    assert_eq!(parse_i32("-"), Err(SCError::ParseInt));
}

#[test]
fn formats_integers() {
    assert_eq!(int_to_string(0), "0");
    assert_eq!(int_to_string(7), "7");
    assert_eq!(int_to_string(170), "170");
    assert_eq!(int_to_string(-170), "-170");
    assert_eq!(int_to_string(i32::MIN), "-2147483648");
    assert_eq!(int_to_string(i32::MAX), "2147483647");
}

#[test]
fn format_parse_round_trip() {
    for n in [0, 1, -1, 99, -100, 123456789, i32::MIN, i32::MAX] {
        assert_eq!(parse_i32(&int_to_string(n)).unwrap(), n);
    }
}

#[test]
fn compares_strings() {
    assert!(str_eq("", ""));
    assert!(str_eq("abc", "abc"));
    assert!(!str_eq("abc", "abd"));
    assert!(!str_eq("abc", "abcd"));
}

#[test]
fn missing_attribute_error() {
    let elem = Element::new("coords").with_attribute("x", "1");
    assert_eq!(
        Vec2::<penguins::Doubled>::from_element(&elem),
        Err(SCError::MissingAttribute)
    );
}

#[test]
fn parse_int_error() {
    let elem = Element::new("coords").with_attribute("x", "abc").with_attribute("y", "1");
    assert_eq!(
        Vec2::<penguins::Doubled>::from_element(&elem),
        Err(SCError::ParseInt)
    );
}

#[test]
fn missing_child_error() {
    let elem = Element::new("data").with_attribute("class", "move");
    assert_eq!(Move::from_element(&elem), Err(SCError::MissingChild));
}

#[test]
fn wrong_field_count_error() {
    let mut row = Element::new("list");
    for _ in 0..8 {
        row = row.with_child(Element::new("field").with_content("1"));
    }
    let board_elem = Element::new("board").with_child(row);
    assert_eq!(Board::from_element(&board_elem), Err(SCError::WrongFieldCount));
}

#[test]
fn wrong_team_count_error() {
    let mut board_elem = Element::new("board");
    for _ in 0..8 {
        let mut row = Element::new("list");
        for _ in 0..8 {
            row = row.with_child(Element::new("field").with_content("0"));
        }
        board_elem = board_elem.with_child(row);
    }
    let elem = Element::new("state")
        .with_attribute("turn", "0")
        .with_child(board_elem)
        .with_child(Element::new("fishes").with_child(Element::new("int").with_content("1")))
        .with_child(Element::new("startTeam").with_content("ONE"));
    assert_eq!(State::from_element(&elem), Err(SCError::WrongTeamCount));
}

#[test]
fn unknown_variant_error() {
    assert_eq!(Team::from_name("THREE"), Err(SCError::UnknownVariant));
}

#[test]
fn unknown_element_error() {
    assert_eq!(
        Event::from_element(Element::new("mystery")),
        Err(SCError::UnknownElement)
    );
}

#[test]
fn decodes_events() {
    let joined = Element::new("joined").with_attribute("roomId", "r1");
    assert_eq!(
        Event::from_element(joined),
        Ok(Event::Joined { room_id: "r1".to_owned() })
    );
    let left = Element::new("left").with_attribute("roomId", "r2");
    assert_eq!(
        Event::from_element(left),
        Ok(Event::Left { room_id: "r2".to_owned() })
    );
    let payload = Element::new("data").with_attribute("class", "moveRequest");
    let room = Element::new("room")
        .with_attribute("roomId", "r3")
        .with_child(Element::new("data").with_attribute("class", "moveRequest"));
    assert_eq!(
        Event::from_element(room),
        Ok(Event::Room { room_id: "r3".to_owned(), payload })
    );
    let room_without_data = Element::new("room").with_attribute("roomId", "r4");
    assert_eq!(
        Event::from_element(room_without_data),
        Err(SCError::MissingChild)
    );
}

#[test]
fn move_round_trip_through_element() {
    let m = Move::placing(Vec2::new(13, 11));
    let encoded = m.to_element();
    assert_eq!(Move::from_element(&encoded).unwrap(), m);
    let slide = Move::between(Vec2::new(3, 5), Vec2::new(7, 5));
    assert_eq!(Move::from_element(&slide.to_element()).unwrap(), slide);
}

#[test]
fn formats_moves_as_text() {
    assert_eq!(
        Move::between(Vec2::new(3, 5), Vec2::new(7, 5)).to_text(),
        "(3, 5) -> (7, 5)"
    );
    assert_eq!(Move::placing(Vec2::new(13, 11)).to_text(), "-> (13, 11)");
    assert_eq!(Vec2::<penguins::Doubled>::new(-2, 0).to_text(), "(-2, 0)");
}

#[test]
fn aggregation_tokens() {
    assert_eq!(
        ScoreAggregation::from_name("SUM").unwrap(),
        ScoreAggregation::Sum
    );
    assert_eq!(
        ScoreAggregation::from_name("AVERAGE").unwrap(),
        ScoreAggregation::Average
    );
    assert_eq!(ScoreAggregation::Sum.name(), "SUM");
    assert_eq!(
        ScoreAggregation::from_name("MEDIAN"),
        Err(SCError::UnknownVariant)
    );
}

#[test]
fn score_accessors() {
    let score = Score::new(ScoreCause::Regular, "all well", vec![2, 3]);
    assert_eq!(score.cause(), ScoreCause::Regular);
    assert_eq!(score.reason(), "all well");
    assert_eq!(score.parts(), &vec![2, 3]);
    assert_eq!(
        ScoreCause::from_name("HARD_TIMEOUT").unwrap(),
        ScoreCause::HardTimeout
    );
}
