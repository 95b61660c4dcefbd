use vstd::prelude::*;

use crate::moves::{indices_in_board, Move, BOARD_CELLS, GOAL_P1, GOAL_P2};
use crate::text::{digit_char, digit_value, is_digit, lemma_digit_char, make_digit_char, push_char};

verus! {

/// The cells of a board: 0..36 the 6x6 grid row by row, then the two goal cells.
/// Each cell holds the size of the piece on it, or 0 when it is empty.
pub type BoardState = [usize; 38];

/// The largest piece size.
pub const MAX_PIECE: usize = 3;

/// The position at the start of a game.
pub const STARTING_BOARD: BoardState = [
    3, 2, 1, 1, 2, 3,
    0, 0, 0, 0, 0, 0,
    0, 0, 0, 0, 0, 0,
    0, 0, 0, 0, 0, 0,
    0, 0, 0, 0, 0, 0,
    3, 2, 1, 1, 2, 3,
    0, 0,
];

/// A board: 38 cells, each empty or holding a piece of size 1 to 3.
pub open spec fn valid_board(cells: Seq<usize>) -> bool {
    &&& cells.len() == BOARD_CELLS
    &&& forall|i: int| 0 <= i < cells.len() ==> #[trigger] cells[i] <= MAX_PIECE
}

/// The game is over once a piece stands on either goal cell.
pub open spec fn is_game_over(cells: Seq<usize>) -> bool {
    cells[GOAL_P1 as int] != 0 || cells[GOAL_P2 as int] != 0
}

/// The wire form of a board seen from the first player: one digit per cell, in order.
pub open spec fn board_text(cells: Seq<usize>) -> Seq<char> {
    cells.map_values(|v: usize| digit_char(v as int))
}

/// The wire form of a board seen from the second player: the grid cells from
/// the last to the first, then the two goal cells in their own order.
pub open spec fn flipped_board_text(cells: Seq<usize>) -> Seq<char> {
    Seq::new(
        BOARD_CELLS as nat,
        |i: int|
            if i < 36 {
                digit_char(cells[35 - i] as int)
            } else {
                digit_char(cells[i] as int)
            },
    )
}

/// The wire form of a board as the engine sees it when it plays `side`.
pub open spec fn side_text(cells: Seq<usize>, side: int) -> Seq<char> {
    if side == 1 {
        board_text(cells)
    } else {
        flipped_board_text(cells)
    }
}

/// The board after a move: a two-cell move carries the piece from the first
/// cell to the second; a three-cell move also carries the piece that stood on
/// the second cell on to the third. A move of another length changes nothing.
pub open spec fn apply_move(cells: Seq<usize>, m: Seq<usize>) -> Seq<usize> {
    if m.len() == 2 {
        cells.update(m[0] as int, 0).update(m[1] as int, cells[m[0] as int])
    } else if m.len() == 3 {
        cells.update(m[0] as int, 0).update(m[1] as int, cells[m[0] as int]).update(
            m[2] as int,
            cells[m[1] as int],
        )
    } else {
        cells
    }
}

/// The board turned half a turn: grid cells mirrored through the centre, the
/// goal cells swapped.
pub open spec fn flipped_cells(cells: Seq<usize>) -> Seq<usize> {
    Seq::new(
        BOARD_CELLS as nat,
        |i: int|
            if i < 36 {
                cells[35 - i]
            } else if i == GOAL_P1 {
                cells[GOAL_P2 as int]
            } else {
                cells[GOAL_P1 as int]
            },
    )
}

/// What a board holds, as plain values.
pub ghost struct BoardModel {
    pub cells: Seq<usize>,
    pub prev_cells: Option<Seq<usize>>,
    pub prev_move: Option<Seq<usize>>,
    /// The positions played so far, each with the move that led to it.
    pub history: Seq<(Seq<usize>, Seq<usize>)>,
    pub history_idx: int,
    pub flipped: bool,
}

/// A game board with its move history: what the player sees and edits, and
/// what is sent to the engine.
pub struct DrawableBoard {
    boardstate: BoardState,
    prev_boardstate: Option<BoardState>,
    prev_move: Option<Move>,
    history: Vec<(BoardState, Move)>,
    history_idx: usize,
    flipped: bool,
}

pub open spec fn history_entry_view(e: (BoardState, Move)) -> (Seq<usize>, Seq<usize>) {
    (e.0@, e.1@)
}

impl View for DrawableBoard {
    type V = BoardModel;

    closed spec fn view(&self) -> BoardModel {
        BoardModel {
            cells: self.boardstate@,
            prev_cells: match self.prev_boardstate {
                Some(b) => Some(b@),
                None => None,
            },
            prev_move: match self.prev_move {
                Some(m) => Some(m@),
                None => None,
            },
            history: self.history@.map_values(|e: (BoardState, Move)| history_entry_view(e)),
            history_idx: self.history_idx as int,
            flipped: self.flipped,
        }
    }
}

/// Cell-by-cell equality of two boards.
fn same_cells(a: &BoardState, b: &BoardState) -> (r: bool)
    ensures
        r == (a@ == b@),
{
    let mut i: usize = 0;
    while i < BOARD_CELLS
        invariant
            i <= BOARD_CELLS,
            a@.len() == BOARD_CELLS,
            b@.len() == BOARD_CELLS,
            forall|k: int| 0 <= k < i ==> a@[k] == b@[k],
        decreases BOARD_CELLS - i,
    {
        if a[i] != b[i] {
            return false;
        }
        i = i + 1;
    }
    proof {
        assert(a@ =~= b@);
    }
    true
}

impl DrawableBoard {
    /// The board's invariant: every position it holds is a valid board, and
    /// the history is never empty and its cursor points into it.
    pub open spec fn wf(&self) -> bool {
        let m = self@;
        &&& valid_board(m.cells)
        &&& (m.prev_cells matches Some(p) ==> valid_board(p))
        &&& m.history.len() >= 1
        &&& 0 <= m.history_idx < m.history.len()
        &&& forall|i: int| 0 <= i < m.history.len() ==> valid_board(#[trigger] m.history[i].0)
    }

    /// A board showing `boardstate`, whose history holds that one position.
    pub fn new(boardstate: BoardState) -> (r: DrawableBoard)
        requires
            valid_board(boardstate@),
        ensures
            r.wf(),
            r@.cells == boardstate@,
            r@.prev_cells == Some(boardstate@),
            r@.prev_move is None,
            r@.history == seq![(boardstate@, Seq::<usize>::empty())],
            r@.history_idx == 0,
            !r@.flipped,
    {
        let mut history: Vec<(BoardState, Move)> = Vec::new();
        history.push((boardstate, Vec::new()));
        let r = DrawableBoard {
            boardstate,
            prev_boardstate: Some(boardstate),
            prev_move: None,
            history,
            history_idx: 0,
            flipped: false,
        };
        proof {
            assert(r@.history =~= seq![(boardstate@, Seq::<usize>::empty())]);
        }
        r
    }

    /// The cells of the current position.
    pub fn boardstate(&self) -> (r: BoardState)
        ensures
            r@ == self@.cells,
    {
        self.boardstate
    }

    /// The board in the first player's wire form.
    pub fn boardstate_str(&self) -> (r: String)
        requires
            self.wf(),
        ensures
            r@ == board_text(self@.cells),
    {
        let mut s = String::new();
        let mut i: usize = 0;
        while i < BOARD_CELLS
            invariant
                i <= BOARD_CELLS,
                valid_board(self.boardstate@),
                s@ == board_text(self.boardstate@.subrange(0, i as int)),
            decreases BOARD_CELLS - i,
        {
            let c = make_digit_char(self.boardstate[i]);
            push_char(&mut s, c);
            proof {
                assert(self.boardstate@.subrange(0, i + 1) == self.boardstate@.subrange(
                    0,
                    i as int,
                ).push(self.boardstate@[i as int]));
                assert(board_text(self.boardstate@.subrange(0, i + 1)) =~= board_text(
                    self.boardstate@.subrange(0, i as int),
                ).push(c));
            }
            i = i + 1;
        }
        proof {
            assert(self.boardstate@.subrange(0, 38) == self.boardstate@);
        }
        s
    }

    /// The board in the second player's wire form.
    pub fn flipped_boardstate_str(&self) -> (r: String)
        requires
            self.wf(),
        ensures
            r@ == flipped_board_text(self@.cells),
    {
        let ghost cells = self.boardstate@;
        let mut s = String::new();
        let mut i: usize = 0;
        while i < BOARD_CELLS
            invariant
                i <= BOARD_CELLS,
                cells == self.boardstate@,
                valid_board(cells),
                s@ =~= flipped_board_text(cells).subrange(0, i as int),
            decreases BOARD_CELLS - i,
        {
            let v = if i < 36 {
                self.boardstate[35 - i]
            } else {
                self.boardstate[i]
            };
            let c = make_digit_char(v);
            push_char(&mut s, c);
            i = i + 1;
        }
        s
    }

    /// The board in the wire form of the engine playing `side` (+1 or -1).
    pub fn serialize(&self, side: i8) -> (r: String)
        requires
            self.wf(),
        ensures
            r@ == side_text(self@.cells, side as int),
    {
        if side == 1 {
            self.boardstate_str()
        } else {
            self.flipped_boardstate_str()
        }
    }

    /// Whether a piece stands on a goal cell.
    pub fn game_over(&self) -> (r: bool)
        requires
            self.wf(),
        ensures
            r == is_game_over(self@.cells),
    {
        self.boardstate[GOAL_P1] != 0 || self.boardstate[GOAL_P2] != 0
    }
    /// Plays `mv` on the board. The position before it and the move are kept
    /// as the previous position and the last move; an empty move does nothing.
    pub fn make_move(&mut self, mv: Move)
        requires
            old(self).wf(),
            indices_in_board(mv@),
        ensures
            final(self).wf(),
            mv@.len() == 0 ==> final(self)@ == old(self)@,
            mv@.len() != 0 ==> final(self)@ == (BoardModel {
                cells: apply_move(old(self)@.cells, mv@),
                prev_cells: Some(old(self)@.cells),
                prev_move: Some(mv@),
                ..old(self)@
            }),
    {
        if mv.len() == 0 {
            return;
        }
        let old_state = self.boardstate;
        let mut new_state = self.boardstate;
        if mv.len() == 2 {
            let piece = new_state[mv[0]];
            new_state[mv[0]] = 0;
            new_state[mv[1]] = piece;
        } else if mv.len() == 3 {
            let piece1 = new_state[mv[0]];
            let piece2 = new_state[mv[1]];
            new_state[mv[0]] = 0;
            new_state[mv[1]] = piece1;
            new_state[mv[2]] = piece2;
        }
        proof {
            assert(new_state@ =~= apply_move(old_state@, mv@));
        }
        self.prev_boardstate = Some(old_state);
        self.boardstate = new_state;
        self.prev_move = Some(mv);
    }

    /// Shows the position at `i` in the history, if there is one.
    pub fn load_history(&mut self, i: usize)
        requires
            old(self).wf(),
        ensures
            final(self).wf(),
            i >= old(self)@.history.len() ==> final(self)@ == old(self)@,
            i < old(self)@.history.len() ==> final(self)@ == (BoardModel {
                cells: old(self)@.history[i as int].0,
                prev_cells: Some(old(self)@.history[i as int].0),
                prev_move: Some(old(self)@.history[i as int].1),
                history_idx: i as int,
                ..old(self)@
            }),
    {
        if i < self.history.len() {
            let ghost entry = self@.history[i as int];
            self.history_idx = i;
            let cells = self.history[i].0;
            let mv = clone_move(&self.history[i].1);
            self.boardstate = cells;
            self.prev_boardstate = Some(cells);
            self.prev_move = Some(mv);
            proof {
                assert(entry == history_entry_view(self.history@[i as int]));
            }
        }
    }

    /// Starts a new game: the starting position with a fresh history.
    pub fn reset(&mut self)
        requires
            old(self).wf(),
        ensures
            final(self).wf(),
            final(self)@ == (BoardModel {
                cells: STARTING_BOARD@,
                prev_cells: Some(STARTING_BOARD@),
                history: seq![(STARTING_BOARD@, Seq::<usize>::empty())],
                history_idx: 0,
                ..old(self)@
            }),
    {
        let start = STARTING_BOARD;
        self.boardstate = start;
        self.prev_boardstate = Some(start);
        let mut history: Vec<(BoardState, Move)> = Vec::new();
        history.push((start, Vec::new()));
        self.history = history;
        self.history_idx = 0;
        proof {
            assert(self@.history =~= seq![(STARTING_BOARD@, Seq::<usize>::empty())]);
            assert(valid_board(STARTING_BOARD@));
        }
    }

    /// Turns the board half a turn, goal cells included.
    pub fn flip(&mut self)
        requires
            old(self).wf(),
        ensures
            final(self).wf(),
            final(self)@ == (BoardModel {
                cells: flipped_cells(old(self)@.cells),
                flipped: !old(self)@.flipped,
                ..old(self)@
            }),
    {
        let ghost cells = self.boardstate@;
        let mut flipped_boardstate: BoardState = [0; 38];
        let mut i: usize = 0;
        while i < 36
            invariant
                i <= 36,
                cells == self.boardstate@,
                valid_board(cells),
                flipped_boardstate@.len() == BOARD_CELLS,
                forall|k: int| 0 <= k < 35 - i ==> flipped_boardstate@[k] == 0,
                forall|k: int| 35 - i < k < 36 ==> flipped_boardstate@[k] == cells[35 - k],
            decreases 36 - i,
        {
            flipped_boardstate[35 - i] = self.boardstate[i];
            i = i + 1;
        }
        flipped_boardstate[GOAL_P1] = self.boardstate[GOAL_P2];
        flipped_boardstate[GOAL_P2] = self.boardstate[GOAL_P1];
        proof {
            assert(flipped_boardstate@ =~= flipped_cells(cells));
        }
        self.boardstate = flipped_boardstate;
        self.flipped = !self.flipped;
    }

    /// Notes a change made on the board since the last call: the new position
    /// becomes the previous one and, when the history cursor is at its end,
    /// is appended to the history with the last move. Returns whether the
    /// position had changed.
    pub fn record_change(&mut self) -> (changed: bool)
        requires
            old(self).wf(),
        ensures
            final(self).wf(),
            changed == (old(self)@.prev_cells != Some(old(self)@.cells)),
            !changed ==> final(self)@ == old(self)@,
            changed && old(self)@.history_idx == old(self)@.history.len() - 1 ==> final(self)@
                == (BoardModel {
                prev_cells: Some(old(self)@.cells),
                history: old(self)@.history.push(
                    (
                        old(self)@.cells,
                        match old(self)@.prev_move {
                            Some(m) => m,
                            None => Seq::<usize>::empty(),
                        },
                    ),
                ),
                history_idx: old(self)@.history_idx + 1,
                ..old(self)@
            }),
            changed && old(self)@.history_idx != old(self)@.history.len() - 1 ==> final(self)@
                == (BoardModel { prev_cells: Some(old(self)@.cells), ..old(self)@ }),
    {
        let unchanged = match &self.prev_boardstate {
            Some(p) => same_cells(p, &self.boardstate),
            None => false,
        };
        if unchanged {
            return false;
        }
        let ghost before = self@;
        let cells = self.boardstate;
        self.prev_boardstate = Some(cells);
        if self.history_idx == self.history.len() - 1 {
            let mv = match &self.prev_move {
                Some(m) => clone_move(m),
                None => Vec::new(),
            };
            let ghost entry = (cells@, mv@);
            self.history.push((cells, mv));
            self.history_idx = self.history_idx + 1;
            proof {
                assert(self@.history =~= before.history.push(entry));
                assert(self@.history[self@.history.len() - 1] == entry);
            }
        }
        true
    }

    /// Puts a piece of size `piece` on cell `i` (0 empties it).
    pub fn set_cell(&mut self, i: usize, piece: usize)
        requires
            old(self).wf(),
            i < BOARD_CELLS,
            piece <= MAX_PIECE,
        ensures
            final(self).wf(),
            final(self)@ == (BoardModel {
                cells: old(self)@.cells.update(i as int, piece),
                ..old(self)@
            }),
    {
        self.boardstate[i] = piece;
    }

    /// Records `mv` as the last move, as when the player makes it by hand.
    pub fn set_prev_move(&mut self, mv: Move)
        requires
            old(self).wf(),
        ensures
            final(self).wf(),
            final(self)@ == (BoardModel { prev_move: Some(mv@), ..old(self)@ }),
    {
        self.prev_move = Some(mv);
    }

    /// The last move played, if any.
    pub fn prev_move(&self) -> (r: Option<Move>)
        ensures
            r matches Some(m) ==> self@.prev_move == Some(m@),
            r is None ==> self@.prev_move is None,
    {
        match &self.prev_move {
            Some(m) => Some(clone_move(m)),
            None => None,
        }
    }

    /// How many positions the history holds.
    pub fn history_len(&self) -> (r: usize)
        ensures
            r == self@.history.len(),
    {
        self.history.len()
    }

    /// Which position of the history is shown.
    pub fn history_idx(&self) -> (r: usize)
        ensures
            r == self@.history_idx,
    {
        self.history_idx
    }

    /// The move that led to the position at `i` in the history, if there is one.
    pub fn history_move(&self, i: usize) -> (r: Option<Move>)
        ensures
            i < self@.history.len() ==> r is Some && r->Some_0@ == self@.history[i as int].1,
            i >= self@.history.len() ==> r is None,
    {
        if i < self.history.len() {
            let mv = clone_move(&self.history[i].1);
            proof {
                assert(self@.history[i as int] == history_entry_view(self.history@[i as int]));
            }
            Some(mv)
        } else {
            None
        }
    }

    /// Whether the board is shown turned half a turn.
    pub fn flipped(&self) -> (r: bool)
        ensures
            r == self@.flipped,
    {
        self.flipped
    }
}

/// A copy of a move.
pub fn clone_move(m: &Move) -> (r: Move)
    ensures
        r@ == m@,
{
    let mut r: Move = Vec::new();
    let mut i: usize = 0;
    while i < m.len()
        invariant
            i <= m@.len(),
            r@ == m@.subrange(0, i as int),
        decreases m@.len() - i,
    {
        r.push(m[i]);
        proof {
            assert(m@.subrange(0, i + 1) == m@.subrange(0, i as int).push(m@[i as int]));
        }
        i = i + 1;
    }
    proof {
        assert(m@.subrange(0, m@.len() as int) == m@);
    }
    r
}

/// The game-over test looks at the goal cells alone, and the starting
/// position is not over.
pub proof fn lemma_game_over(cells: Seq<usize>)
    requires
        valid_board(cells),
    ensures
        is_game_over(cells) <==> (cells[36] != 0 || cells[37] != 0),
        !is_game_over(STARTING_BOARD@),
{
}

/// Both wire forms are 38 decimal digits; the second player's form holds the
/// grid mirrored and the goal cells where the first player's form has them.
pub proof fn lemma_board_text(cells: Seq<usize>)
    requires
        valid_board(cells),
    ensures
        board_text(cells).len() == 38,
        flipped_board_text(cells).len() == 38,
        forall|i: int| 0 <= i < 38 ==> is_digit(#[trigger] board_text(cells)[i]),
        forall|i: int| 0 <= i < 38 ==> is_digit(#[trigger] flipped_board_text(cells)[i]),
        forall|i: int| 0 <= i < 38 ==> digit_value(#[trigger] board_text(cells)[i]) == cells[i],
        forall|i: int|
            0 <= i < 36 ==> #[trigger] flipped_board_text(cells)[i] == board_text(cells)[35 - i],
        flipped_board_text(cells)[36] == board_text(cells)[36],
        flipped_board_text(cells)[37] == board_text(cells)[37],
{
    assert forall|i: int| 0 <= i < 38 implies is_digit(#[trigger] board_text(cells)[i])
        && digit_value(board_text(cells)[i]) == cells[i] by {
        lemma_digit_char(cells[i] as int);
    }
    assert forall|i: int| 0 <= i < 38 implies is_digit(#[trigger] flipped_board_text(cells)[i]) by {
        if i < 36 {
            lemma_digit_char(cells[35 - i] as int);
        } else {
            lemma_digit_char(cells[i] as int);
        }
    }
}

} // verus!
