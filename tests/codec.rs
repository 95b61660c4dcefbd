use gyges_ugi::board::{DrawableBoard, STARTING_BOARD};
use gyges_ugi::info::{parse_info, SearchInfo, SearchSettings};
use gyges_ugi::moves::{flip_move, parse_move, ParseError};
use gyges_ugi::number::Decimal;

fn dec(m: u64) -> Option<Decimal> {
    Some(Decimal { negative: false, mantissa: m, scale: 0 })
}

#[test]
fn flip_move_twice_gives_the_move_back() {
    for m in [vec![4, 22, 10], vec![36, 5], vec![0, 37, 35], vec![17, 18]] {
        assert_eq!(flip_move(flip_move(m.clone())), m);
    }
}

#[test]
fn flip_move_mirrors_grid_and_swaps_goals() {
    assert_eq!(flip_move(vec![4, 10]), vec![31, 25]);
    assert_eq!(flip_move(vec![0, 36, 37]), vec![35, 37, 36]);
}

#[test]
fn parse_move_reads_three_cells() {
    assert_eq!(parse_move("4|22|10"), Ok(vec![4, 22, 10]));
    assert_eq!(parse_move("4|10"), Ok(vec![4, 10]));
    assert_eq!(parse_move("0|37"), Ok(vec![0, 37]));
}

#[test]
fn parse_move_rejects_bad_tokens() {
    assert_eq!(parse_move("4"), Err(ParseError::MalformedMove));
    assert_eq!(parse_move(""), Err(ParseError::MalformedMove));
    assert_eq!(parse_move("4|38"), Err(ParseError::MalformedMove));
    assert_eq!(parse_move("a|3"), Err(ParseError::MalformedMove));
    assert_eq!(parse_move("1|2|3|4"), Err(ParseError::MalformedMove));
    assert_eq!(parse_move("1||3"), Err(ParseError::MalformedMove));
    assert_eq!(parse_move("-1|3"), Err(ParseError::MalformedMove));
}

#[test]
fn serialize_starting_board() {
    let b = DrawableBoard::new(STARTING_BOARD);
    let expected = format!("321123{}32112300", "0".repeat(24));
    assert_eq!(b.boardstate_str(), expected);
    assert_eq!(b.serialize(1), expected);
    assert_eq!(b.boardstate_str().len(), 38);
    assert!(b.boardstate_str().chars().all(|c| c.is_ascii_digit()));
}

#[test]
fn serialize_flipped_mirrors_grid_keeps_goals() {
    let mut cells = [0usize; 38];
    cells[0] = 1;
    cells[7] = 3;
    cells[36] = 2;
    let b = DrawableBoard::new(cells);
    let plain: Vec<char> = b.boardstate_str().chars().collect();
    let flipped: Vec<char> = b.flipped_boardstate_str().chars().collect();
    assert_eq!(flipped.len(), 38);
    for i in 0..36 {
        assert_eq!(flipped[i], plain[35 - i]);
    }
    assert_eq!(flipped[36], '2');
    assert_eq!(flipped[37], '0');
    assert_eq!(flipped[35], '1');
    assert_eq!(flipped[28], '3');
    assert_eq!(b.serialize(-1), b.flipped_boardstate_str());
}

#[test]
fn game_over_only_on_goal_cells() {
    let b = DrawableBoard::new(STARTING_BOARD);
    assert!(!b.game_over());
    let mut cells = STARTING_BOARD;
    cells[36] = 1;
    assert!(DrawableBoard::new(cells).game_over());
    let mut cells = STARTING_BOARD;
    cells[37] = 3;
    assert!(DrawableBoard::new(cells).game_over());
    let mut cells = STARTING_BOARD;
    cells[35] = 0;
    assert!(!DrawableBoard::new(cells).game_over());
}

#[test]
fn parse_info_reads_listed_fields() {
    let si = parse_info("info ply 3 score 12 bestmove 4|10", 1).unwrap();
    assert_eq!(si.ply, dec(3));
    assert_eq!(si.score, dec(12));
    assert_eq!(si.best_move, Some(vec![4, 10]));
    assert_eq!(si.nodes, None);
    assert_eq!(si.nps, None);
    assert_eq!(si.abf, None);
    assert_eq!(si.beta_cuts, None);
    assert_eq!(si.time, None);
}

#[test]
fn parse_info_flips_move_for_second_side() {
    let si = parse_info("info bestmove 4|10 nodes 1000 abf 3.25 time 0.5", -1).unwrap();
    assert_eq!(si.best_move, Some(vec![31, 25]));
    assert_eq!(si.nodes, dec(1000));
    assert_eq!(si.abf, Some(Decimal { negative: false, mantissa: 325, scale: 2 }));
    assert_eq!(si.time, Some(Decimal { negative: false, mantissa: 5, scale: 1 }));
}

#[test]
fn parse_info_errors() {
    assert_eq!(parse_info("info ply", 1).err(), Some(ParseError::MissingValue));
    assert_eq!(parse_info("info ply x", 1).err(), Some(ParseError::MalformedNumber));
    assert_eq!(parse_info("info bestmove 4", 1).err(), Some(ParseError::MalformedMove));
    let si = parse_info("info depth 3 score -7", 1).unwrap();
    assert_eq!(si.score, Some(Decimal { negative: true, mantissa: 7, scale: 0 }));
    assert_eq!(si.ply, None);
}

#[test]
fn parse_info_other_lines_report_nothing() {
    let si = parse_info("bestmove 4|10", 1).unwrap();
    assert!(si.best_move.is_none() && si.ply.is_none());
    let empty = SearchInfo::new();
    assert!(empty.best_move.is_none() && empty.score.is_none() && empty.time.is_none());
}

#[test]
fn decimal_parse_and_text() {
    let p = |s: &str| Decimal::parse(&s.chars().collect());
    assert_eq!(p("12"), dec(12));
    assert_eq!(p("0.25"), Some(Decimal { negative: false, mantissa: 25, scale: 2 }));
    assert_eq!(p("-3"), Some(Decimal { negative: true, mantissa: 3, scale: 0 }));
    assert_eq!(p("1."), None);
    assert_eq!(p(".5"), None);
    assert_eq!(p(""), None);
    assert_eq!(p("1.2.3"), None);
    assert_eq!(p("18446744073709551615"), dec(u64::MAX));
    assert_eq!(p("18446744073709551616"), None);
    assert_eq!(Decimal { negative: false, mantissa: 5, scale: 2 }.text(), "0.05");
    assert_eq!(Decimal { negative: true, mantissa: 1250, scale: 2 }.text(), "-12.50");
    assert_eq!(Decimal::from_int(3600).text(), "3600");
    assert_eq!(Decimal::from_int(0).text(), "0");
}

#[test]
fn default_settings() {
    let s = SearchSettings::new();
    assert_eq!(s.max_ply.text(), "99");
    assert_eq!(s.max_time.text(), "3600");
}
