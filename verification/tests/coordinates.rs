use reversi::coordinates::{Coordinates, CoordinatesError, CoordinatesWalker, Coords, RowNumber};
use reversi::walker::{Walkable, Walker};
use reversi::Dir;

#[test]
fn test_row_identifier_parse() {
    assert_eq!(RowNumber::from_str("A").unwrap(), RowNumber(0));
    assert_eq!(RowNumber::from_str("B").unwrap(), RowNumber(1));
    assert_eq!(RowNumber::from_str("Z").unwrap(), RowNumber(25));
    assert_eq!(RowNumber::from_str("AA").unwrap(), RowNumber(26));
}

#[test]
fn test_row_identifier_to_str() {
    assert_eq!(RowNumber(0).to_string(), "A");
    assert_eq!(RowNumber(1).to_string(), "B");
    assert_eq!(RowNumber(25).to_string(), "Z");
    assert_eq!(RowNumber(26).to_string(), "AA");
}

#[test]
fn test_invalid_row_identifier_parse() {
    assert_eq!(
        RowNumber::from_str("1").unwrap_err(),
        CoordinatesError::ParseError("1".to_string())
    );

    assert_eq!(
        RowNumber::from_str(" / ").unwrap_err(),
        CoordinatesError::ParseError(" / ".to_string())
    );
}

#[test]
fn test_coordinates_to_string() {
    assert_eq!(Coords::new(0, 0).to_string(), "A:1");
    assert_eq!(Coords::new(1, 50).to_string(), "B:51");
}

#[test]
fn test_invalid_coordinates_from_str() {
    assert_eq!(
        Coords::from_str("B").unwrap_err(),
        CoordinatesError::ParseError("B".to_string())
    );

    assert_eq!(
        Coords::from_str("B1").unwrap_err(),
        CoordinatesError::ParseError("B1".to_string())
    );

    assert_eq!(
        Coords::from_str("B 1").unwrap_err(),
        CoordinatesError::ParseError("B 1".to_string())
    );
}

#[test]
fn test_coordinates_from_str() {
    assert_eq!(Coords::from_str("A:1").unwrap(), Coords { row: 0, col: 0 });
    assert_eq!(Coords::from_str("B:1").unwrap(), Coords { row: 1, col: 0 });
    assert_eq!(
        Coords::from_str("AA:26").unwrap(),
        Coords { row: 26, col: 25 }
    );
}

#[test]
fn test_coordinates_iterator() {
    let c = Coords::from_str("A:1").unwrap();
    let mut up = c.walker(Dir::Up).into_iter();
    let mut up_right = c.walker(Dir::UpRight).into_iter();
    let mut right = c.walker(Dir::Right).into_iter();
    let mut down_right = c.walker(Dir::DownRight).into_iter();
    let mut down = c.walker(Dir::Down).into_iter();
    let mut down_left = c.walker(Dir::DownLeft).into_iter();
    let mut left = c.walker(Dir::Left).into_iter();
    let mut up_left = c.walker(Dir::UpLeft).into_iter();

    assert_eq!(up.next(), None);
    assert_eq!(up.next(), None);

    assert_eq!(up_right.next(), None);
    assert_eq!(up_right.next(), None);

    assert_eq!(right.next(), Some(Coords::from_str("A:2").unwrap()));
    assert_eq!(right.next(), Some(Coords::from_str("A:3").unwrap()));
    assert_eq!(right.next(), Some(Coords::from_str("A:4").unwrap()));

    assert_eq!(down_right.next(), Some(Coords::from_str("B:2").unwrap()));
    assert_eq!(down_right.next(), Some(Coords::from_str("C:3").unwrap()));

    assert_eq!(down.next(), Some(Coords::from_str("B:1").unwrap()));
    assert_eq!(down.next(), Some(Coords::from_str("C:1").unwrap()));

    assert_eq!(down_left.next(), None);
    assert_eq!(down_left.next(), None);

    assert_eq!(left.next(), None);
    assert_eq!(left.next(), None);

    assert_eq!(up_left.next(), None);
    assert_eq!(up_left.next(), None);

    let c = Coords::from_str("D:4").unwrap();
    let mut up = c.walker(Dir::Up).into_iter();
    let mut up_right = c.walker(Dir::UpRight).into_iter();
    let mut right = c.walker(Dir::Right).into_iter();
    let mut down_right = c.walker(Dir::DownRight).into_iter();
    let mut down = c.walker(Dir::Down).into_iter();
    let mut down_left = c.walker(Dir::DownLeft).into_iter();
    let mut left = c.walker(Dir::Left).into_iter();
    let mut up_left = c.walker(Dir::UpLeft).into_iter();

    assert_eq!(up.next(), Some(Coords::from_str("C:4").unwrap()));
    assert_eq!(up.next(), Some(Coords::from_str("B:4").unwrap()));

    assert_eq!(up_right.next(), Some(Coords::from_str("C:5").unwrap()));
    assert_eq!(up_right.next(), Some(Coords::from_str("B:6").unwrap()));

    assert_eq!(right.next(), Some(Coords::from_str("D:5").unwrap()));
    assert_eq!(right.next(), Some(Coords::from_str("D:6").unwrap()));
    assert_eq!(right.next(), Some(Coords::from_str("D:7").unwrap()));

    assert_eq!(down_right.next(), Some(Coords::from_str("E:5").unwrap()));
    assert_eq!(down_right.next(), Some(Coords::from_str("F:6").unwrap()));

    assert_eq!(down.next(), Some(Coords::from_str("E:4").unwrap()));
    assert_eq!(down.next(), Some(Coords::from_str("F:4").unwrap()));

    assert_eq!(down_left.next(), Some(Coords::from_str("E:3").unwrap()));
    assert_eq!(down_left.next(), Some(Coords::from_str("F:2").unwrap()));

    assert_eq!(left.next(), Some(Coords::from_str("D:3").unwrap()));
    assert_eq!(left.next(), Some(Coords::from_str("D:2").unwrap()));

    assert_eq!(up_left.next(), Some(Coords::from_str("C:3").unwrap()));
    assert_eq!(up_left.next(), Some(Coords::from_str("B:2").unwrap()));
}

#[test]
fn coordinates_examples_of_the_text_format() {
    assert_eq!(Coords::from_str("A:1").unwrap(), Coords::new(0, 0));
    assert_eq!(Coords::from_str("B:51").unwrap(), Coords::new(1, 50));
    assert_eq!(Coords::from_str("AA:26").unwrap(), Coords::new(26, 25));
    assert_eq!(Coords::new(26, 25).to_string(), "AA:26");
}

#[test]
fn row_letters_literal_cases() {
    assert_eq!(RowNumber::new(0).to_string(), "A");
    assert_eq!(RowNumber::new(25).to_string(), "Z");
    assert_eq!(RowNumber::new(26).to_string(), "AA");
    assert_eq!(RowNumber::new(27).to_string(), "AB");
    assert_eq!(RowNumber::new(51).to_string(), "AZ");
    assert_eq!(RowNumber::new(52).to_string(), "BA");
    assert_eq!(RowNumber::new(701).to_string(), "ZZ");
    assert_eq!(RowNumber::new(702).to_string(), "AAA");
    assert_eq!(RowNumber::from_str("AA").unwrap(), RowNumber::new(26));
    assert_eq!(RowNumber::from_str("ZZ").unwrap(), RowNumber::new(701));
    assert_eq!(RowNumber::from_str("AAA").unwrap(), RowNumber::new(702));
}

#[test]
fn row_number_round_trip() {
    for n in 0..3000usize {
        let text = RowNumber::new(n).to_string();
        assert_eq!(RowNumber::from_str(&text).unwrap(), RowNumber::new(n));
    }
    for n in [usize::MAX, usize::MAX - 1, usize::MAX / 26, 1usize << 40] {
        let text = RowNumber::new(n).to_string();
        assert_eq!(RowNumber::from_str(&text).unwrap(), RowNumber::new(n));
    }
}

#[test]
fn row_number_into_usize() {
    let n: usize = RowNumber::new(41).into();
    assert_eq!(n, 41);
    assert_eq!(usize::from(RowNumber::new(0)), 0);
}

#[test]
fn row_letters_are_read_in_either_case() {
    assert_eq!(RowNumber::from_str("a").unwrap(), RowNumber::new(0));
    assert_eq!(RowNumber::from_str("aA").unwrap(), RowNumber::new(26));
    assert_eq!(RowNumber::from_str("zZ").unwrap(), RowNumber::new(701));
    assert_eq!(Coords::from_str("d:3").unwrap(), Coords::new(3, 2));
    assert_eq!(Coords::from_str("aa:26").unwrap(), Coords::new(26, 25));
}

#[test]
fn coordinates_round_trip() {
    for row in 0..60usize {
        for col in 0..60usize {
            let c = Coords::new(row, col);
            assert_eq!(Coords::from_str(&c.to_string()).unwrap(), c);
        }
    }
    for c in [
        Coords::new(usize::MAX, usize::MAX),
        Coords::new(0, usize::MAX),
        Coords::new(usize::MAX, 0),
        Coords::new(usize::MAX - 1, 9),
        Coords::new(12345, 99999),
    ] {
        assert_eq!(Coords::from_str(&c.to_string()).unwrap(), c);
    }
}

#[test]
fn coordinates_that_are_refused() {
    for text in [
        "", ":", "A:", ":1", "A1", "A:1 ", " A:1", "A:1:1", "A::1", "1:A", "A:-1", "A:+1", "A:1a",
        "A1:1", "Ä:1", "A:١", "A:0", "A:00", "a:b", "A:1\n",
    ] {
        assert_eq!(
            Coords::from_str(text).unwrap_err(),
            CoordinatesError::ParseError(text.to_string()),
            "{:?}",
            text
        );
    }
}

#[test]
fn coordinates_with_leading_zeros_in_the_column() {
    assert_eq!(Coords::from_str("A:01").unwrap(), Coords::new(0, 0));
    assert_eq!(Coords::from_str("C:0012").unwrap(), Coords::new(2, 11));
}

#[test]
fn coordinates_beyond_the_largest_index_are_refused() {
    let max = Coords::new(usize::MAX, usize::MAX).to_string();
    assert!(Coords::from_str(&max).is_ok());
    let letters = RowNumber::new(usize::MAX).to_string();
    let too_far_right = format!("A:{}", (usize::MAX as u128) + 2);
    assert_eq!(
        Coords::from_str(&too_far_right).unwrap_err(),
        CoordinatesError::ParseError(too_far_right.clone())
    );
    let too_far_down = format!("{}A:1", letters);
    assert_eq!(
        Coords::from_str(&too_far_down).unwrap_err(),
        CoordinatesError::ParseError(too_far_down.clone())
    );
    assert!(RowNumber::from_str(&format!("{}A", letters)).is_err());
    assert!(Coords::from_str("A:99999999999999999999999999999999999999999999999999").is_err());
    assert!(RowNumber::from_str("ZZZZZZZZZZZZZZZZZZZZZZZZZZZZZZZZZZZZZZZZZZZZZZ").is_err());
}

#[test]
fn row_numbers_that_are_refused() {
    for text in ["", "A1", "A:1", "A B", "É", "-"] {
        assert_eq!(
            RowNumber::from_str(text).unwrap_err(),
            CoordinatesError::ParseError(text.to_string())
        );
    }
}

#[test]
fn coordinates_error_message() {
    let e = Coords::from_str("B1").unwrap_err();
    assert_eq!(e.to_string(), "Invalid coordinates format: 'B1'");
    let e = CoordinatesError::ParseError(String::new());
    assert_eq!(e.to_string(), "Invalid coordinates format: ''");
}

#[test]
fn walk_follows_the_table_of_directions() {
    let c = Coords::new(5, 7);
    assert_eq!(c.walker(Dir::Up).walk(3), Some(Coords::new(2, 7)));
    assert_eq!(c.walker(Dir::UpRight).walk(3), Some(Coords::new(2, 10)));
    assert_eq!(c.walker(Dir::Right).walk(3), Some(Coords::new(5, 10)));
    assert_eq!(c.walker(Dir::DownRight).walk(3), Some(Coords::new(8, 10)));
    assert_eq!(c.walker(Dir::Down).walk(3), Some(Coords::new(8, 7)));
    assert_eq!(c.walker(Dir::DownLeft).walk(3), Some(Coords::new(8, 4)));
    assert_eq!(c.walker(Dir::Left).walk(3), Some(Coords::new(5, 4)));
    assert_eq!(c.walker(Dir::UpLeft).walk(3), Some(Coords::new(2, 4)));
}

#[test]
fn walk_is_absent_past_the_first_row_or_column() {
    let c = Coords::new(5, 7);
    assert_eq!(c.walker(Dir::Up).walk(5), Some(Coords::new(0, 7)));
    assert_eq!(c.walker(Dir::Up).walk(6), None);
    assert_eq!(c.walker(Dir::UpRight).walk(5), Some(Coords::new(0, 12)));
    assert_eq!(c.walker(Dir::UpRight).walk(6), None);
    assert_eq!(c.walker(Dir::DownLeft).walk(7), Some(Coords::new(12, 0)));
    assert_eq!(c.walker(Dir::DownLeft).walk(8), None);
    assert_eq!(c.walker(Dir::Left).walk(7), Some(Coords::new(5, 0)));
    assert_eq!(c.walker(Dir::Left).walk(8), None);
    assert_eq!(c.walker(Dir::UpLeft).walk(5), Some(Coords::new(0, 2)));
    assert_eq!(c.walker(Dir::UpLeft).walk(6), None);
    let d = Coords::new(7, 5);
    assert_eq!(d.walker(Dir::UpLeft).walk(5), Some(Coords::new(2, 0)));
    assert_eq!(d.walker(Dir::UpLeft).walk(6), None);
}

#[test]
fn walk_of_no_step_stays() {
    let c = Coords::new(5, 7);
    for dir in reversi::Direction::all() {
        assert_eq!(c.walker(dir).walk(0), Some(c));
    }
}

#[test]
fn walk_is_absent_beyond_what_can_be_held() {
    let c = Coords::new(usize::MAX - 1, 3);
    assert_eq!(c.walker(Dir::Down).walk(1), Some(Coords::new(usize::MAX, 3)));
    assert_eq!(c.walker(Dir::Down).walk(2), None);
    assert_eq!(c.walker(Dir::DownRight).walk(2), None);
    assert_eq!(c.walker(Dir::DownLeft).walk(2), None);
    let d = Coords::new(3, usize::MAX);
    assert_eq!(d.walker(Dir::Right).walk(1), None);
    assert_eq!(d.walker(Dir::UpRight).walk(1), None);
    assert_eq!(d.walker(Dir::Left).walk(usize::MAX), Some(Coords::new(3, 0)));
}

#[test]
fn walking_back_returns_to_the_start() {
    let c = Coords::new(9, 9);
    for dir in reversi::Direction::all() {
        let there = c.walker(dir).walk(4).unwrap();
        assert_eq!(there.walker(!dir).walk(4), Some(c));
    }
}

#[test]
fn coordinates_walker_walk_one() {
    let w = CoordinatesWalker(Coordinates::new(2, 2), Dir::UpLeft);
    assert_eq!(w.walk_one(), Some(Coordinates::new(1, 1)));
    assert_eq!(CoordinatesWalker(Coordinates::new(0, 2), Dir::Up).walk_one(), None);
}

#[test]
fn coordinates_iterator_ends_at_the_edge() {
    let mut up = Coords::new(2, 0).walker(Dir::Up).into_iter();
    assert_eq!(up.next(), Some(Coords::new(1, 0)));
    assert_eq!(up.next(), Some(Coords::new(0, 0)));
    assert_eq!(up.next(), None);
    assert_eq!(up.next(), None);
}

#[test]
fn coordinates_parse_through_the_standard_trait() {
    assert_eq!("A:1".parse::<Coords>().unwrap(), Coords::new(0, 0));
    assert_eq!("AA:26".parse::<Coords>().unwrap(), Coords::new(26, 25));
    assert_eq!(
        "B1".parse::<Coords>().unwrap_err(),
        CoordinatesError::ParseError("B1".to_string())
    );
    assert_eq!("Z".parse::<RowNumber>().unwrap(), RowNumber::new(25));
    assert_eq!(
        "1".parse::<RowNumber>().unwrap_err(),
        CoordinatesError::ParseError("1".to_string())
    );
    let row: RowNumber = std::str::FromStr::from_str("AB").unwrap();
    assert_eq!(row, RowNumber::new(27));
}
