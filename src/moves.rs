use vstd::prelude::*;

use crate::text::{
    all_digits, char_digit, char_is_digit, digit_value, digits_value, is_digit, lemma_split_nonempty,
    split_on, to_chars,
};

verus! {

/// A move: the board cells it touches, in order (source, landing[, final]).
pub type Move = Vec<usize>;

/// Number of cells on a board: a 6x6 grid and two goal cells.
pub const BOARD_CELLS: usize = 38;

/// The goal cell of the first player.
pub const GOAL_P1: usize = 36;

/// The goal cell of the second player.
pub const GOAL_P2: usize = 37;

/// A cell index that names a cell of the board.
pub open spec fn valid_index(i: int) -> bool {
    0 <= i < BOARD_CELLS
}

/// Every index of `m` names a cell of the board.
pub open spec fn indices_in_board(m: Seq<usize>) -> bool {
    forall|k: int| 0 <= k < m.len() ==> valid_index(#[trigger] m[k] as int)
}

/// A well-formed move: two or three cell indices.
pub open spec fn valid_move(m: Seq<usize>) -> bool {
    &&& (m.len() == 2 || m.len() == 3)
    &&& indices_in_board(m)
}

/// The cell that `i` becomes when the board is turned half a turn: grid cells
/// are mirrored through the centre and the two goal cells change places.
pub open spec fn flip_index(i: int) -> int {
    if i == GOAL_P2 {
        GOAL_P1 as int
    } else if i == GOAL_P1 {
        GOAL_P2 as int
    } else {
        35 - i
    }
}

/// A move seen from the other player's side of the board.
pub open spec fn flip_seq(m: Seq<usize>) -> Seq<usize> {
    m.map_values(|i: usize| flip_index(i as int) as usize)
}

/// Turns a move into the other player's frame: every index is flipped.
pub fn flip_move(mv: Move) -> (r: Move)
    requires
        indices_in_board(mv@),
    ensures
        r@ == flip_seq(mv@),
        indices_in_board(r@),
{
    let mut flipped_mv: Vec<usize> = Vec::new();
    let mut i: usize = 0;
    while i < mv.len()
        invariant
            i <= mv@.len(),
            indices_in_board(mv@),
            flipped_mv@ == flip_seq(mv@.subrange(0, i as int)),
        decreases mv@.len() - i,
    {
        let c = mv[i];
        let f: usize = if c == GOAL_P2 {
            GOAL_P1
        } else if c == GOAL_P1 {
            GOAL_P2
        } else {
            35 - c
        };
        flipped_mv.push(f);
        proof {
            assert(mv@.subrange(0, i + 1) == mv@.subrange(0, i as int).push(c));
        }
        i = i + 1;
    }
    proof {
        assert(mv@.subrange(0, mv@.len() as int) == mv@);
    }
    flipped_mv
}

/// Flipping is an involution: flipping a move twice gives the move back.
pub proof fn lemma_flip_involution(m: Seq<usize>)
    requires
        indices_in_board(m),
    ensures
        flip_seq(flip_seq(m)) == m,
        indices_in_board(flip_seq(m)),
{
    assert(flip_seq(flip_seq(m)) =~= m);
}

/// What can go wrong when reading a line from the engine.
#[derive(Clone, Copy, Debug, PartialEq, Eq, Structural)]
pub enum ParseError {
    /// A move token is not two or three `|`-separated cell indices.
    MalformedMove,
    /// A value that should be a number is not one.
    MalformedNumber,
    /// A key of an `info` line has no value after it.
    MissingValue,
}

/// The separator between the indices of a move token.
pub const MOVE_SEPARATOR: char = '|';

/// Text that names a cell: one or more decimal digits whose value is a cell index.
pub open spec fn is_index_text(f: Seq<char>) -> bool {
    &&& f.len() > 0
    &&& all_digits(f)
    &&& valid_index(digits_value(f))
}

/// The move that a token spells, if it spells one: the token is cut at each
/// `|`, and there must be two or three pieces, each a cell index.
pub open spec fn move_of_text(t: Seq<char>) -> Option<Seq<usize>> {
    let parts = split_on(t, MOVE_SEPARATOR);
    if (parts.len() == 2 || parts.len() == 3) && (forall|k: int|
        0 <= k < parts.len() ==> is_index_text(#[trigger] parts[k])) {
        Some(parts.map_values(|f: Seq<char>| digits_value(f) as usize))
    } else {
        None
    }
}

/// Reads a move token such as `4|22|10`.
pub fn parse_move(token: &str) -> (r: Result<Move, ParseError>)
    ensures
        match move_of_text(token@) {
            Some(m) => r is Ok && r->Ok_0@ == m,
            None => r == Err::<Move, ParseError>(ParseError::MalformedMove),
        },
        r is Ok ==> valid_move(r->Ok_0@),
{
    let chars = to_chars(token);
    parse_move_chars(&chars)
}

pub(crate) fn parse_move_chars(chars: &Vec<char>) -> (r: Result<Move, ParseError>)
    ensures
        match move_of_text(chars@) {
            Some(m) => r is Ok && r->Ok_0@ == m,
            None => r == Err::<Move, ParseError>(ParseError::MalformedMove),
        },
        r is Ok ==> valid_move(r->Ok_0@),
{
    let ghost t = chars@;
    let ghost mut done: Seq<Seq<char>> = Seq::empty();
    let mut values: Vec<usize> = Vec::new();
    let mut done_ok = true;
    let mut cur_start: usize = 0;
    let mut cur_ok = true;
    let mut cur_val: usize = 0;
    let mut i: usize = 0;
    proof {
        assert(t.subrange(0, 0) =~= Seq::<char>::empty());
        assert(split_on(t.subrange(0, 0), MOVE_SEPARATOR) =~= done.push(t.subrange(0, 0)));
    }
    while i < chars.len()
        invariant
            t == chars@,
            cur_start <= i <= t.len(),
            split_on(t.subrange(0, i as int), MOVE_SEPARATOR) == done.push(
                t.subrange(cur_start as int, i as int),
            ),
            values@.len() == done.len(),
            done_ok == (forall|k: int| 0 <= k < done.len() ==> is_index_text(#[trigger] done[k])),
            done_ok ==> forall|k: int|
                0 <= k < done.len() ==> values@[k] as int == digits_value(#[trigger] done[k]),
            cur_ok == (all_digits(t.subrange(cur_start as int, i as int)) && digits_value(
                t.subrange(cur_start as int, i as int),
            ) < 38),
            cur_ok ==> cur_val as int == digits_value(t.subrange(cur_start as int, i as int)),
            all_digits(t.subrange(cur_start as int, i as int)) ==> digits_value(
                t.subrange(cur_start as int, i as int),
            ) >= 0,
        decreases t.len() - i,
    {
        let c = chars[i];
        let ghost cur = t.subrange(cur_start as int, i as int);
        proof {
            assert(t.subrange(0, i + 1).drop_last() == t.subrange(0, i as int));
            assert(t.subrange(0, i + 1).last() == c);
        }
        if c == MOVE_SEPARATOR {
            proof {
                lemma_split_nonempty(t.subrange(0, i as int), MOVE_SEPARATOR);
                assert(is_index_text(cur) == (cur_ok && cur_start < i));
                let ghost old_done = done;
                done = done.push(cur);
                assert(forall|k: int| 0 <= k < old_done.len() ==> done[k] == old_done[k]);
                assert(done[old_done.len() as int] == cur);
                assert(t.subrange(i + 1, i + 1) == Seq::<char>::empty());
            }
            done_ok = done_ok && cur_ok && cur_start < i;
            values.push(cur_val);
            cur_start = i + 1;
            cur_ok = true;
            cur_val = 0;
        } else {
            let ghost next = t.subrange(cur_start as int, i + 1);
            proof {
                lemma_split_nonempty(t.subrange(0, i as int), MOVE_SEPARATOR);
                assert(next == cur.push(c));
                assert(next.drop_last() == cur);
                assert(split_on(t.subrange(0, i + 1), MOVE_SEPARATOR) =~= done.push(next));
            }
            if char_is_digit(c) {
                let d = char_digit(c);
                proof {
                    assert(all_digits(next) == all_digits(cur));
                    assert(digits_value(next) == digits_value(cur) * 10 + digit_value(c));
                }
                if cur_ok {
                    let nv = cur_val * 10 + d;
                    cur_ok = nv < 38;
                    cur_val = nv;
                }
            } else {
                proof {
                    assert(!is_digit(next[next.len() - 1]));
                }
                cur_ok = false;
            }
        }
        i = i + 1;
    }
    let ghost cur = t.subrange(cur_start as int, t.len() as int);
    proof {
        assert(t.subrange(0, t.len() as int) == t);
    }
    let ghost parts = done.push(cur);
    if done_ok && cur_ok && cur_start < chars.len() && (values.len() == 1 || values.len() == 2) {
        values.push(cur_val);
        proof {
            assert(forall|k: int| 0 <= k < parts.len() ==> is_index_text(#[trigger] parts[k]));
            assert(values@ =~= parts.map_values(|f: Seq<char>| digits_value(f) as usize));
        }
        Ok(values)
    } else {
        proof {
            if (parts.len() == 2 || parts.len() == 3) && (forall|k: int|
                0 <= k < parts.len() ==> is_index_text(#[trigger] parts[k])) {
                assert(is_index_text(parts[parts.len() - 1]));
                assert(parts[parts.len() - 1] == cur);
                assert forall|k: int| 0 <= k < done.len() implies is_index_text(#[trigger] done[k]) by {
                    assert(parts[k] == done[k]);
                }
            }
        }
        Err(ParseError::MalformedMove)
    }
}

} // verus!
