use gyges_ugi::board::{DrawableBoard, STARTING_BOARD};
use gyges_ugi::moves::ParseError;
use gyges_ugi::number::Decimal;
use gyges_ugi::transport::LineSplitter;
use gyges_ugi::ugi_engine::{Mode, UgiEngine};

fn start_commands() -> Vec<String> {
    vec![
        format!("setpos data 321123{}32112300", "0".repeat(24)),
        "setoption max_time 3600".to_string(),
        "setoption max_ply 99".to_string(),
        "go".to_string(),
    ]
}

#[test]
fn new_search_sends_position_limits_and_go() {
    let mut e = UgiEngine::new();
    let b = DrawableBoard::new(STARTING_BOARD);
    e.send("ugi");
    e.new_search(Mode::Analysis, &b);
    let mut expected = vec!["ugi".to_string()];
    expected.extend(start_commands());
    assert_eq!(e.take_outgoing(), expected);
    assert_eq!(e.mode, Mode::Analysis);
    assert!(e.searching);
    assert!(e.take_outgoing().is_empty());
}

#[test]
fn single_move_side_one() {
    let mut e = UgiEngine::new();
    let mut b = DrawableBoard::new(STARTING_BOARD);
    e.new_search(Mode::Single, &b);
    e.deliver("bestmove 4|10".to_string());
    assert_eq!(e.update(&mut b), Ok(false));
    assert_eq!(e.mode, Mode::Disabled);
    assert!(!e.searching);
    assert_eq!(b.prev_move(), Some(vec![4, 10]));
    assert_eq!(b.boardstate()[10], 2);
    assert_eq!(b.boardstate()[4], 0);
}

#[test]
fn single_move_side_two_is_flipped() {
    let mut e = UgiEngine::new();
    let mut b = DrawableBoard::new(STARTING_BOARD);
    e.set_side(-1);
    e.new_search(Mode::Single, &b);
    let sent = e.take_outgoing();
    assert_eq!(sent[0], format!("setpos data 321123{}32112300", "0".repeat(24)));
    e.deliver("bestmove 4|10".to_string());
    e.update(&mut b).unwrap();
    assert_eq!(e.mode, Mode::Disabled);
    assert_eq!(b.prev_move(), Some(vec![31, 25]));
    assert_eq!(b.boardstate()[25], 2);
    assert_eq!(b.boardstate()[31], 0);
}

#[test]
fn auto_play_alternates_until_goal() {
    let mut e = UgiEngine::new();
    let mut b = DrawableBoard::new(STARTING_BOARD);
    e.new_search(Mode::Auto, &b);
    e.take_outgoing();
    e.deliver("bestmove 4|10".to_string());
    assert_eq!(e.update(&mut b), Ok(true));
    assert_eq!(e.side, -1);
    assert_eq!(e.mode, Mode::Auto);
    assert!(e.searching);
    let sent = e.take_outgoing();
    assert_eq!(sent.len(), 4);
    assert_eq!(sent[3], "go");
    assert!(sent[0].starts_with("setpos data "));
    // the engine plays for side -1 in its own frame: 25|37 is 10|36 on the board
    e.deliver("bestmove 25|37".to_string());
    assert_eq!(e.update(&mut b), Ok(false));
    assert_eq!(b.boardstate()[36], 2);
    assert!(b.game_over());
    assert_eq!(e.mode, Mode::Disabled);
    assert!(!e.searching);
    assert_eq!(e.take_outgoing(), vec!["stop".to_string()]);
    e.deliver("bestmove 1|2".to_string());
    e.update(&mut b).unwrap();
    assert!(e.take_outgoing().is_empty());
}

#[test]
fn analysis_info_replaces_report() {
    let mut e = UgiEngine::new();
    let mut b = DrawableBoard::new(STARTING_BOARD);
    e.new_search(Mode::Analysis, &b);
    e.deliver("info ply 3 score 12 bestmove 4|10".to_string());
    e.deliver("info ply x".to_string());
    e.deliver("bestmove 4|10".to_string());
    assert_eq!(e.update(&mut b), Ok(false));
    assert_eq!(e.best_search.ply, Some(Decimal::from_int(3)));
    assert_eq!(e.update(&mut b), Err(ParseError::MalformedNumber));
    assert_eq!(e.best_search.ply, Some(Decimal::from_int(3)));
    assert_eq!(e.update(&mut b), Ok(false));
    assert!(!e.searching);
    assert_eq!(e.mode, Mode::Analysis);
    assert_eq!(b.boardstate(), STARTING_BOARD);
}

#[test]
fn malformed_bestmove_stops_single_search() {
    let mut e = UgiEngine::new();
    let mut b = DrawableBoard::new(STARTING_BOARD);
    e.new_search(Mode::Single, &b);
    e.deliver("bestmove 4".to_string());
    assert_eq!(e.update(&mut b), Err(ParseError::MalformedMove));
    assert_eq!(e.mode, Mode::Disabled);
    assert_eq!(b.boardstate(), STARTING_BOARD);
}

#[test]
fn new_search_while_searching_waits_for_stopped_search() {
    let mut e = UgiEngine::new();
    let mut b = DrawableBoard::new(STARTING_BOARD);
    e.new_search(Mode::Analysis, &b);
    e.take_outgoing();
    e.new_search(Mode::Single, &b);
    assert_eq!(e.take_outgoing(), vec!["stop".to_string()]);
    assert!(e.holding());
    assert_eq!(e.mode, Mode::Single);
    e.deliver("info ply 9".to_string());
    e.deliver("bestmove 1|2".to_string());
    e.update(&mut b).unwrap();
    assert!(e.best_search.ply.is_none());
    e.update(&mut b).unwrap();
    assert!(!e.holding());
    assert_eq!(b.boardstate(), STARTING_BOARD);
    assert_eq!(e.take_outgoing(), start_commands());
    e.deliver("bestmove 4|10".to_string());
    e.update(&mut b).unwrap();
    assert_eq!(b.boardstate()[10], 2);
    assert_eq!(e.mode, Mode::Disabled);
}

#[test]
fn late_answer_after_stop_is_ignored() {
    let mut e = UgiEngine::new();
    let mut b = DrawableBoard::new(STARTING_BOARD);
    e.new_search(Mode::Single, &b);
    e.stop();
    e.new_search(Mode::Single, &b);
    e.deliver("bestmove 4|10".to_string());
    e.update(&mut b).unwrap();
    assert_eq!(b.boardstate(), STARTING_BOARD);
    assert_eq!(e.mode, Mode::Single);
    e.deliver("bestmove 5|11".to_string());
    e.update(&mut b).unwrap();
    assert_eq!(b.boardstate()[11], 3);
}

#[test]
fn game_over_board_disables_session() {
    let mut e = UgiEngine::new();
    let mut cells = STARTING_BOARD;
    cells[37] = 1;
    let mut b = DrawableBoard::new(cells);
    e.new_search(Mode::Analysis, &b);
    e.take_outgoing();
    e.deliver("info ply 2".to_string());
    e.update(&mut b).unwrap();
    assert_eq!(e.mode, Mode::Disabled);
    assert_eq!(e.take_outgoing(), vec!["stop".to_string()]);
    e.update(&mut b).unwrap();
    assert!(e.best_search.ply.is_none());
}

#[test]
fn quit_stops_then_quits() {
    let mut e = UgiEngine::new();
    let b = DrawableBoard::new(STARTING_BOARD);
    e.new_search(Mode::Analysis, &b);
    e.take_outgoing();
    e.quit();
    assert_eq!(e.take_outgoing(), vec!["stop".to_string(), "quit".to_string()]);
}

#[test]
fn recive_is_oldest_first() {
    let mut e = UgiEngine::new();
    assert_eq!(e.recive(), None);
    e.deliver("a".to_string());
    e.deliver("b".to_string());
    assert_eq!(e.recive(), Some("a".to_string()));
    assert_eq!(e.recive(), Some("b".to_string()));
    e.flip_side();
    assert_eq!(e.side, -1);
    assert_eq!(e.parse_bestmove_str("4|10"), Ok(vec![31, 25]));
    assert_eq!(e.parse_info_str("info ply 1").unwrap().ply, Some(Decimal::from_int(1)));
}

#[test]
fn settings_per_side() {
    let mut e = UgiEngine::new();
    let b = DrawableBoard::new(STARTING_BOARD);
    let mut s = gyges_ugi::info::SearchSettings::new();
    s.max_time = Decimal { negative: false, mantissa: 5, scale: 1 };
    s.max_ply = Decimal::from_int(7);
    e.set_settings(-1, s);
    e.set_side(-1);
    e.new_search(Mode::Analysis, &b);
    let sent = e.take_outgoing();
    assert_eq!(sent[1], "setoption max_time 0.5");
    assert_eq!(sent[2], "setoption max_ply 7");
}

#[test]
fn line_splitter_joins_pieces() {
    let mut s = LineSplitter::new();
    assert_eq!(s.feed(b"info ply 1\r\nbest"), vec![b"info ply 1".to_vec()]);
    assert_eq!(s.feed(b"move 4|10\n\n"), vec![b"bestmove 4|10".to_vec(), Vec::new()]);
    assert_eq!(s.finish(), None);
    assert!(s.feed(b"tail").is_empty());
    assert_eq!(s.finish(), Some(b"tail".to_vec()));
}
