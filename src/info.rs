use vstd::prelude::*;

use crate::moves::{flip_move, flip_seq, move_of_text, parse_move_chars, valid_move, Move, ParseError};
use crate::number::{decimal_of_text, Decimal};
use crate::text::{same_text, split_words, texts_view, to_chars, words};

verus! {

/// The engine's search limits for one side.
#[derive(Clone, Copy)]
pub struct SearchSettings {
    /// The deepest search, in plies.
    pub max_ply: Decimal,
    /// The longest search, in seconds.
    pub max_time: Decimal,
}

/// The default depth limit, in plies.
pub const MAX_PLY: u64 = 99;

/// The default (and largest) time limit, in seconds.
pub const MAX_TIME: u64 = 3600;

impl SearchSettings {
    /// The default limits: 99 plies and 3600 seconds.
    pub fn new() -> (r: SearchSettings)
        ensures
            r.max_ply == Decimal::from_int_spec(MAX_PLY),
            r.max_time == Decimal::from_int_spec(MAX_TIME),
    {
        SearchSettings { max_ply: Decimal::from_int(MAX_PLY), max_time: Decimal::from_int(MAX_TIME) }
    }
}

/// What the engine last reported about its search; every field is optional.
pub struct SearchInfo {
    pub ply: Option<Decimal>,
    pub best_move: Option<Move>,
    pub score: Option<Decimal>,
    pub nodes: Option<Decimal>,
    pub nps: Option<Decimal>,
    pub abf: Option<Decimal>,
    pub beta_cuts: Option<Decimal>,
    pub time: Option<Decimal>,
}

/// A search report as plain values.
pub ghost struct SearchInfoView {
    pub ply: Option<Decimal>,
    pub best_move: Option<Seq<usize>>,
    pub score: Option<Decimal>,
    pub nodes: Option<Decimal>,
    pub nps: Option<Decimal>,
    pub abf: Option<Decimal>,
    pub beta_cuts: Option<Decimal>,
    pub time: Option<Decimal>,
}

impl View for SearchInfo {
    type V = SearchInfoView;

    open spec fn view(&self) -> SearchInfoView {
        SearchInfoView {
            ply: self.ply,
            best_move: match self.best_move {
                Some(m) => Some(m@),
                None => None,
            },
            score: self.score,
            nodes: self.nodes,
            nps: self.nps,
            abf: self.abf,
            beta_cuts: self.beta_cuts,
            time: self.time,
        }
    }
}

/// The report with nothing in it.
pub open spec fn empty_info() -> SearchInfoView {
    SearchInfoView {
        ply: None,
        best_move: None,
        score: None,
        nodes: None,
        nps: None,
        abf: None,
        beta_cuts: None,
        time: None,
    }
}

impl SearchInfo {
    /// A report with every field unset.
    pub fn new() -> (r: SearchInfo)
        ensures
            r@ == empty_info(),
    {
        SearchInfo {
            ply: None,
            best_move: None,
            score: None,
            nodes: None,
            nps: None,
            abf: None,
            beta_cuts: None,
            time: None,
        }
    }
}

/// The move a token spells, in the first player's frame when the engine
/// played `side` (a move the engine gives for side -1 is flipped).
pub open spec fn move_for_side(t: Seq<char>, side: int) -> Option<Seq<usize>> {
    match move_of_text(t) {
        Some(m) => Some(
            if side == -1 {
                flip_seq(m)
            } else {
                m
            },
        ),
        None => None,
    }
}

/// A number for a field, or the error that a bad number gives.
pub open spec fn number_field(value: Seq<char>) -> Result<Decimal, ParseError> {
    match decimal_of_text(value) {
        Some(d) => Ok(d),
        None => Err(ParseError::MalformedNumber),
    }
}

/// The report after one `key value` pair: a known key sets its field, an
/// unknown key changes nothing.
pub open spec fn apply_pair(
    si: SearchInfoView,
    key: Seq<char>,
    value: Seq<char>,
    side: int,
) -> Result<SearchInfoView, ParseError> {
    if key == "bestmove"@ {
        match move_for_side(value, side) {
            Some(m) => Ok(SearchInfoView { best_move: Some(m), ..si }),
            None => Err(ParseError::MalformedMove),
        }
    } else if key == "ply"@ {
        match number_field(value) {
            Ok(d) => Ok(SearchInfoView { ply: Some(d), ..si }),
            Err(e) => Err(e),
        }
    } else if key == "score"@ {
        match number_field(value) {
            Ok(d) => Ok(SearchInfoView { score: Some(d), ..si }),
            Err(e) => Err(e),
        }
    } else if key == "nodes"@ {
        match number_field(value) {
            Ok(d) => Ok(SearchInfoView { nodes: Some(d), ..si }),
            Err(e) => Err(e),
        }
    } else if key == "nps"@ {
        match number_field(value) {
            Ok(d) => Ok(SearchInfoView { nps: Some(d), ..si }),
            Err(e) => Err(e),
        }
    } else if key == "abf"@ {
        match number_field(value) {
            Ok(d) => Ok(SearchInfoView { abf: Some(d), ..si }),
            Err(e) => Err(e),
        }
    } else if key == "beta_cuts"@ {
        match number_field(value) {
            Ok(d) => Ok(SearchInfoView { beta_cuts: Some(d), ..si }),
            Err(e) => Err(e),
        }
    } else if key == "time"@ {
        match number_field(value) {
            Ok(d) => Ok(SearchInfoView { time: Some(d), ..si }),
            Err(e) => Err(e),
        }
    } else {
        Ok(si)
    }
}

/// The report built from the first `n` pairs after the leading word.
pub open spec fn info_pairs(words: Seq<Seq<char>>, n: nat, side: int) -> Result<
    SearchInfoView,
    ParseError,
>
    decreases n,
{
    if n == 0 {
        Ok(empty_info())
    } else {
        match info_pairs(words, (n - 1) as nat, side) {
            Ok(si) => apply_pair(si, words[2 * n - 1], words[2 * n as int], side),
            Err(e) => Err(e),
        }
    }
}

/// What an `info` line reports, read by the engine playing `side`. A line
/// whose first word is not `info` reports nothing; a key without a value, a
/// bad number or a bad move makes the whole line an error.
pub open spec fn info_of_line(line: Seq<char>, side: int) -> Result<SearchInfoView, ParseError> {
    let ws = words(line);
    if ws.len() == 0 || ws[0] != "info"@ {
        Ok(empty_info())
    } else if (ws.len() - 1) % 2 != 0 {
        Err(ParseError::MissingValue)
    } else {
        info_pairs(ws, ((ws.len() - 1) / 2) as nat, side)
    }
}

/// Once a pair is bad, the whole line is bad with that error.
proof fn lemma_error_sticks(words: Seq<Seq<char>>, j: nat, n: nat, side: int)
    requires
        j <= n,
        info_pairs(words, j, side) is Err,
    ensures
        info_pairs(words, n, side) == info_pairs(words, j, side),
    decreases n - j,
{
    if j < n {
        lemma_error_sticks(words, j, (n - 1) as nat, side);
    }
}

/// Reads a move token given by the engine playing `side`.
pub fn parse_move_for_side(token: &Vec<char>, side: i8) -> (r: Result<Move, ParseError>)
    ensures
        match move_for_side(token@, side as int) {
            Some(m) => r is Ok && r->Ok_0@ == m,
            None => r == Err::<Move, ParseError>(ParseError::MalformedMove),
        },
        r is Ok ==> valid_move(r->Ok_0@),
{
    match parse_move_chars(token) {
        Ok(mv) => {
            if side == -1 {
                let f = flip_move(mv);
                proof {
                    crate::moves::lemma_flip_involution(mv@);
                    assert(flip_seq(mv@).len() == mv@.len());
                }
                Ok(f)
            } else {
                Ok(mv)
            }
        },
        Err(e) => Err(e),
    }
}

fn parse_number(value: &Vec<char>) -> (r: Result<Decimal, ParseError>)
    ensures
        r == number_field(value@),
{
    match Decimal::parse(value) {
        Some(d) => Ok(d),
        None => Err(ParseError::MalformedNumber),
    }
}

/// Reads an `info` line as `info_of_line` describes it.
pub fn parse_info(line: &str, side: i8) -> (r: Result<SearchInfo, ParseError>)
    ensures
        match info_of_line(line@, side as int) {
            Ok(v) => r is Ok && r->Ok_0@ == v,
            Err(e) => r == Err::<SearchInfo, ParseError>(e),
        },
{
    let chars = to_chars(line);
    let ws = split_words(&chars);
    let ghost sw = texts_view(ws@);
    proof {
        assert(sw.len() == ws@.len());
        assert(forall|k: int| 0 <= k < ws@.len() ==> #[trigger] sw[k] == ws@[k]@);
    }
    if ws.len() == 0 || !same_text(&ws[0], "info") {
        return Ok(SearchInfo::new());
    }
    if (ws.len() - 1) % 2 != 0 {
        return Err(ParseError::MissingValue);
    }
    let n: usize = (ws.len() - 1) / 2;
    proof {
        assert(sw[0] == "info"@);
    }
    let mut si = SearchInfo::new();
    let mut j: usize = 0;
    while j < n
        invariant
            j <= n,
            n == (sw.len() - 1) / 2,
            2 * n + 1 == ws@.len(),
            ws@.len() <= usize::MAX,
            info_of_line(line@, side as int) == info_pairs(sw, n as nat, side as int),
            sw.len() == ws@.len(),
            (sw.len() - 1) % 2 == 0,
            forall|k: int| 0 <= k < ws@.len() ==> #[trigger] sw[k] == ws@[k]@,
            info_pairs(sw, j as nat, side as int) == Ok::<SearchInfoView, ParseError>(si@),
        decreases n - j,
    {
        assert(2 * j + 2 < ws@.len());
        let at: usize = j + j + 1;
        let key = &ws[at];
        let value = &ws[at + 1];
        proof {
            assert(sw[2 * j + 1] == key@);
            assert(sw[2 * j + 2] == value@);
            assert(info_pairs(sw, (j + 1) as nat, side as int) == apply_pair(
                si@,
                key@,
                value@,
                side as int,
            ));
            if info_pairs(sw, (j + 1) as nat, side as int) is Err {
                lemma_error_sticks(sw, (j + 1) as nat, n as nat, side as int);
            }
        }
        if same_text(key, "bestmove") {
            match parse_move_for_side(value, side) {
                Ok(m) => {
                    si.best_move = Some(m);
                },
                Err(e) => {
                    return Err(e);
                },
            }
        } else if same_text(key, "ply") {
            match parse_number(value) {
                Ok(d) => {
                    si.ply = Some(d);
                },
                Err(e) => {
                    return Err(e);
                },
            }
        } else if same_text(key, "score") {
            match parse_number(value) {
                Ok(d) => {
                    si.score = Some(d);
                },
                Err(e) => {
                    return Err(e);
                },
            }
        } else if same_text(key, "nodes") {
            match parse_number(value) {
                Ok(d) => {
                    si.nodes = Some(d);
                },
                Err(e) => {
                    return Err(e);
                },
            }
        } else if same_text(key, "nps") {
            match parse_number(value) {
                Ok(d) => {
                    si.nps = Some(d);
                },
                Err(e) => {
                    return Err(e);
                },
            }
        } else if same_text(key, "abf") {
            match parse_number(value) {
                Ok(d) => {
                    si.abf = Some(d);
                },
                Err(e) => {
                    return Err(e);
                },
            }
        } else if same_text(key, "beta_cuts") {
            match parse_number(value) {
                Ok(d) => {
                    si.beta_cuts = Some(d);
                },
                Err(e) => {
                    return Err(e);
                },
            }
        } else if same_text(key, "time") {
            match parse_number(value) {
                Ok(d) => {
                    si.time = Some(d);
                },
                Err(e) => {
                    return Err(e);
                },
            }
        }
        j = j + 1;
    }
    Ok(si)
}

} // verus!
