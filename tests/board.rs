use gyges_ugi::board::{DrawableBoard, STARTING_BOARD};

#[test]
fn make_move_two_cells() {
    let mut b = DrawableBoard::new(STARTING_BOARD);
    b.make_move(vec![4, 10]);
    let c = b.boardstate();
    assert_eq!(c[4], 0);
    assert_eq!(c[10], 2);
    assert_eq!(b.prev_move(), Some(vec![4, 10]));
}

#[test]
fn make_move_three_cells_bounces() {
    let mut cells = STARTING_BOARD;
    cells[10] = 1;
    let mut b = DrawableBoard::new(cells);
    b.make_move(vec![4, 10, 16]);
    let c = b.boardstate();
    assert_eq!(c[4], 0);
    assert_eq!(c[10], 2);
    assert_eq!(c[16], 1);
}

#[test]
fn make_empty_move_changes_nothing() {
    let mut b = DrawableBoard::new(STARTING_BOARD);
    b.make_move(vec![]);
    assert_eq!(b.boardstate(), STARTING_BOARD);
    assert_eq!(b.prev_move(), None);
}

#[test]
fn flip_board_turns_and_swaps_goals() {
    let mut cells = [0usize; 38];
    cells[0] = 1;
    cells[36] = 2;
    let mut b = DrawableBoard::new(cells);
    b.flip();
    let c = b.boardstate();
    assert_eq!(c[35], 1);
    assert_eq!(c[0], 0);
    assert_eq!(c[37], 2);
    assert_eq!(c[36], 0);
    assert!(b.flipped());
    b.flip();
    assert_eq!(b.boardstate(), cells);
    assert!(!b.flipped());
}

#[test]
fn history_records_and_loads() {
    let mut b = DrawableBoard::new(STARTING_BOARD);
    assert!(!b.record_change());
    b.make_move(vec![4, 10]);
    assert!(b.record_change());
    assert_eq!(b.history_len(), 2);
    assert_eq!(b.history_idx(), 1);
    assert_eq!(b.history_move(1), Some(vec![4, 10]));
    assert!(!b.record_change());
    b.load_history(0);
    assert_eq!(b.boardstate(), STARTING_BOARD);
    assert_eq!(b.history_idx(), 0);
    b.load_history(5);
    assert_eq!(b.history_idx(), 0);
    b.reset();
    assert_eq!(b.history_len(), 1);
    assert_eq!(b.boardstate(), STARTING_BOARD);
}

#[test]
fn set_cell_and_prev_move() {
    let mut b = DrawableBoard::new(STARTING_BOARD);
    b.set_cell(0, 0);
    b.set_cell(6, 3);
    b.set_prev_move(vec![0, 6]);
    assert!(b.record_change());
    assert_eq!(b.history_move(1), Some(vec![0, 6]));
    assert_eq!(b.boardstate()[6], 3);
}
