use vstd::prelude::*;
use vstd::string::*;

use crate::board::{apply_move, is_game_over, side_text, valid_board, BoardModel, DrawableBoard};
use crate::info::{
    empty_info, info_of_line, move_for_side, parse_info, parse_move_for_side, SearchInfo,
    SearchInfoView, SearchSettings, MAX_PLY, MAX_TIME,
};
use crate::moves::{Move, ParseError};
use crate::number::{decimal_text, Decimal};
use crate::text::{same_text, split_words, texts_view, to_chars, words};

verus! {

/// What the session is searching for.
#[derive(Clone, Copy, Debug, PartialEq, Eq, Structural)]
pub enum Mode {
    /// No search is wanted.
    Disabled,
    /// Searches the shown position and reports its progress.
    Analysis,
    /// Plays moves for both sides until the game is over.
    Auto,
    /// Plays one move for the side to move.
    Single,
}

/// The session's state as plain values.
pub ghost struct EngineState {
    pub mode: Mode,
    pub searching: bool,
    pub side: int,
    pub best: SearchInfoView,
    pub p1: SearchSettings,
    pub p2: SearchSettings,
    /// Commands to be written to the engine, oldest first.
    pub outbox: Seq<Seq<char>>,
    /// Commands of a search that waits until the engine has answered the
    /// searches it was told to stop.
    pub held: Seq<Seq<char>>,
    /// Lines read from the engine and not yet handled, oldest first.
    pub inbox: Seq<Seq<char>>,
    /// How many `bestmove` answers of stopped searches are still to come.
    pub superseded: nat,
    /// Whether the session has been closed.
    pub closed: bool,
}

/// A session with a search engine: which search is running, for which side,
/// with which limits, and what the engine last reported. It writes the
/// commands the engine is to receive into an outbox and reads the engine's
/// lines from an inbox; moving them to and from the engine is the caller's.
pub struct UgiEngine {
    pub mode: Mode,
    pub searching: bool,
    /// The side the engine plays: +1 or -1.
    pub side: i8,
    pub best_search: SearchInfo,
    pub p1_settings: SearchSettings,
    pub p2_settings: SearchSettings,
    outbox: Vec<String>,
    held: Vec<String>,
    inbox: Vec<String>,
    superseded: u64,
    closed: bool,
}

/// The views of a list of strings.
pub open spec fn strings_view(v: Seq<String>) -> Seq<Seq<char>> {
    v.map_values(|s: String| s@)
}

impl View for UgiEngine {
    type V = EngineState;

    closed spec fn view(&self) -> EngineState {
        EngineState {
            mode: self.mode,
            searching: self.searching,
            side: self.side as int,
            best: self.best_search@,
            p1: self.p1_settings,
            p2: self.p2_settings,
            outbox: strings_view(self.outbox@),
            held: strings_view(self.held@),
            inbox: strings_view(self.inbox@),
            superseded: self.superseded as nat,
            closed: self.closed,
        }
    }
}

/// The session's invariant: the side is +1 or -1, the limits can be written
/// out, held commands belong to a search that waits for stopped ones, and
/// the session is open.
pub open spec fn engine_wf(st: EngineState) -> bool {
    &&& (st.side == 1 || st.side == -1)
    &&& st.p1.max_ply.scale < usize::MAX
    &&& st.p1.max_time.scale < usize::MAX
    &&& st.p2.max_ply.scale < usize::MAX
    &&& st.p2.max_time.scale < usize::MAX
    &&& st.superseded <= u64::MAX
    &&& (st.held.len() > 0 ==> st.searching && st.superseded > 0)
    &&& !st.closed
}

/// `n + 1`, held at the largest `u64`.
pub open spec fn inc_sat(n: nat) -> nat {
    if n < u64::MAX {
        n + 1
    } else {
        n
    }
}

/// The limits for the side the engine plays.
pub open spec fn active_settings(st: EngineState) -> SearchSettings {
    if st.side == 1 {
        st.p1
    } else {
        st.p2
    }
}

/// The commands that start a search of `cells`: the position as the engine
/// sees it, the time and depth limits of its side, and `go`.
pub open spec fn search_commands(st: EngineState, cells: Seq<usize>) -> Seq<Seq<char>> {
    let s = active_settings(st);
    seq![
        "setpos data "@ + side_text(cells, st.side),
        "setoption max_time "@ + decimal_text(s.max_time),
        "setoption max_ply "@ + decimal_text(s.max_ply),
        "go"@,
    ]
}

/// Stopping: the engine is told to stop, a search whose `go` was sent is
/// counted as stopped, a search that was still held back is dropped, and
/// the session is disabled.
pub open spec fn stop_state(st: EngineState) -> EngineState {
    EngineState {
        outbox: st.outbox.push("stop"@),
        held: Seq::empty(),
        superseded: if st.searching && st.held.len() == 0 {
            inc_sat(st.superseded)
        } else {
            st.superseded
        },
        mode: Mode::Disabled,
        searching: false,
        ..st
    }
}

/// Starting a search of `cells` for `purpose`. A running search is stopped
/// first. While the engine still owes answers to stopped searches, the new
/// search's commands are held back; otherwise they go out at once.
pub open spec fn new_search_state(st: EngineState, purpose: Mode, cells: Seq<usize>) -> EngineState {
    let st1 = if st.searching && st.held.len() == 0 {
        EngineState {
            outbox: st.outbox.push("stop"@),
            superseded: inc_sat(st.superseded),
            ..st
        }
    } else {
        EngineState { held: Seq::empty(), ..st }
    };
    let cmds = search_commands(st1, cells);
    if st1.superseded > 0 {
        EngineState { held: cmds, mode: purpose, searching: true, ..st1 }
    } else {
        EngineState { outbox: st1.outbox + cmds, mode: purpose, searching: true, ..st1 }
    }
}

/// What handling one line does: the new state, the move played on the
/// board if any, and whether an automatic move was played (or why the line
/// was dropped).
pub ghost struct Step {
    pub state: EngineState,
    pub played: Option<Seq<usize>>,
    pub outcome: Result<bool, ParseError>,
}

/// Handling a `bestmove` answer of the search that is running.
pub open spec fn finish_search(st: EngineState, cells: Seq<usize>, ws: Seq<Seq<char>>) -> Step {
    let st1 = EngineState { searching: false, ..st };
    if st1.mode == Mode::Single || st1.mode == Mode::Auto {
        let mv = if ws.len() >= 2 {
            move_for_side(ws[1], st.side)
        } else {
            None
        };
        match mv {
            None => Step {
                state: stop_state(st1),
                played: None,
                outcome: Err(ParseError::MalformedMove),
            },
            Some(m) => {
                let after = apply_move(cells, m);
                if st1.mode == Mode::Single || is_game_over(after) {
                    Step { state: stop_state(st1), played: Some(m), outcome: Ok(false) }
                } else {
                    Step {
                        state: new_search_state(
                            EngineState { side: -st1.side, ..st1 },
                            Mode::Auto,
                            after,
                        ),
                        played: Some(m),
                        outcome: Ok(true),
                    }
                }
            },
        }
    } else {
        Step { state: st1, played: None, outcome: Ok(false) }
    }
}

/// Handling one line from the engine.
pub open spec fn dispatch(st: EngineState, cells: Seq<usize>, line: Seq<char>) -> Step {
    let ws = words(line);
    let idle = Step { state: st, played: None, outcome: Ok(false) };
    if ws.len() > 0 && ws[0] == "bestmove"@ {
        if st.superseded > 0 {
            // the answer of a stopped search
            let n = (st.superseded - 1) as nat;
            if n == 0 {
                Step {
                    state: EngineState {
                        superseded: 0,
                        outbox: st.outbox + st.held,
                        held: Seq::empty(),
                        ..st
                    },
                    played: None,
                    outcome: Ok(false),
                }
            } else {
                Step { state: EngineState { superseded: n, ..st }, played: None, outcome: Ok(false) }
            }
        } else if !st.searching {
            idle
        } else {
            finish_search(st, cells, ws)
        }
    } else if ws.len() > 0 && ws[0] == "info"@ {
        if st.superseded > 0 {
            idle
        } else {
            match info_of_line(line, st.side) {
                Ok(si) => Step { state: EngineState { best: si, ..st }, played: None, outcome: Ok(false) },
                Err(e) => Step { state: st, played: None, outcome: Err(e) },
            }
        }
    } else {
        idle
    }
}

/// One tick of the session. A disabled session forgets its last report. If
/// the game is over while a search is wanted, the session stops. Otherwise
/// the oldest line from the engine, if any, is handled.
pub open spec fn update_step(st: EngineState, cells: Seq<usize>) -> Step {
    let st0 = if st.mode == Mode::Disabled {
        EngineState { best: empty_info(), ..st }
    } else {
        st
    };
    if is_game_over(cells) && (st0.searching || st0.mode != Mode::Disabled) {
        Step { state: stop_state(st0), played: None, outcome: Ok(false) }
    } else if st0.inbox.len() == 0 {
        Step { state: st0, played: None, outcome: Ok(false) }
    } else {
        dispatch(EngineState { inbox: st0.inbox.drop_first(), ..st0 }, cells, st0.inbox[0])
    }
}

/// The board after the engine's move `m` has been played on it.
pub open spec fn board_after(b: BoardModel, m: Seq<usize>) -> BoardModel {
    BoardModel {
        cells: apply_move(b.cells, m),
        prev_cells: Some(b.cells),
        prev_move: Some(m),
        ..b
    }
}

/// The state of a fresh session.
pub open spec fn initial_state() -> EngineState {
    EngineState {
        mode: Mode::Disabled,
        searching: false,
        side: 1,
        best: empty_info(),
        p1: default_settings(),
        p2: default_settings(),
        outbox: Seq::empty(),
        held: Seq::empty(),
        inbox: Seq::empty(),
        superseded: 0,
        closed: false,
    }
}

/// The default limits: 99 plies, 3600 seconds.
pub open spec fn default_settings() -> SearchSettings {
    SearchSettings {
        max_ply: Decimal::from_int_spec(MAX_PLY),
        max_time: Decimal::from_int_spec(MAX_TIME),
    }
}

impl UgiEngine {
    /// The session's invariant.
    pub open spec fn wf(&self) -> bool {
        engine_wf(self@)
    }

    /// A session that is disabled, searches for side +1 with the default
    /// limits, and has nothing to send or to read.
    pub fn new() -> (r: UgiEngine)
        ensures
            r.wf(),
            r@ == initial_state(),
    {
        let r = UgiEngine {
            mode: Mode::Disabled,
            searching: false,
            side: 1,
            best_search: SearchInfo::new(),
            p1_settings: SearchSettings::new(),
            p2_settings: SearchSettings::new(),
            outbox: Vec::new(),
            held: Vec::new(),
            inbox: Vec::new(),
            superseded: 0,
            closed: false,
        };
        proof {
            assert(r@.outbox =~= Seq::<Seq<char>>::empty());
            assert(r@.held =~= Seq::<Seq<char>>::empty());
            assert(r@.inbox =~= Seq::<Seq<char>>::empty());
        }
        r
    }

    /// Queues `cmd` to be written to the engine.
    pub fn send(&mut self, cmd: &str)
        requires
            old(self).wf(),
        ensures
            final(self).wf(),
            final(self)@ == (EngineState { outbox: old(self)@.outbox.push(cmd@), ..old(self)@ }),
    {
        self.send_string(String::from_str(cmd));
    }

    fn send_string(&mut self, cmd: String)
        requires
            old(self).wf(),
        ensures
            final(self).wf(),
            final(self)@ == (EngineState { outbox: old(self)@.outbox.push(cmd@), ..old(self)@ }),
    {
        let ghost before = self@;
        self.outbox.push(cmd);
        proof {
            assert(self@.outbox =~= before.outbox.push(cmd@));
        }
    }

    /// Hands over the commands queued for the engine, oldest first.
    pub fn take_outgoing(&mut self) -> (r: Vec<String>)
        ensures
            old(self).wf() ==> final(self).wf(),
            strings_view(r@) == old(self)@.outbox,
            final(self)@ == (EngineState { outbox: Seq::empty(), ..old(self)@ }),
    {
        let mut r: Vec<String> = Vec::new();
        r.append(&mut self.outbox);
        proof {
            assert(self@.outbox =~= Seq::<Seq<char>>::empty());
        }
        r
    }

    /// Hands the session a line read from the engine.
    pub fn deliver(&mut self, line: String)
        requires
            old(self).wf(),
        ensures
            final(self).wf(),
            final(self)@ == (EngineState { inbox: old(self)@.inbox.push(line@), ..old(self)@ }),
    {
        let ghost before = self@;
        self.inbox.push(line);
        proof {
            assert(self@.inbox =~= before.inbox.push(line@));
        }
    }

    /// Takes the oldest line read from the engine, if there is one.
    pub fn recive(&mut self) -> (r: Option<String>)
        requires
            old(self).wf(),
        ensures
            final(self).wf(),
            old(self)@.inbox.len() == 0 ==> r is None && final(self)@ == old(self)@,
            old(self)@.inbox.len() > 0 ==> r is Some && r->Some_0@ == old(self)@.inbox[0]
                && final(self)@ == (EngineState {
                inbox: old(self)@.inbox.drop_first(),
                ..old(self)@
            }),
    {
        if self.inbox.len() == 0 {
            return None;
        }
        let ghost before = self@;
        let line = self.inbox.remove(0);
        proof {
            assert(self@.inbox =~= before.inbox.drop_first());
        }
        Some(line)
    }

    /// Whether commands wait for the engine to answer stopped searches.
    pub fn holding(&self) -> (r: bool)
        ensures
            r == (self@.held.len() > 0),
    {
        self.held.len() > 0
    }

    /// Switches the engine to the other side.
    pub fn flip_side(&mut self)
        requires
            old(self).wf(),
        ensures
            final(self).wf(),
            final(self)@ == (EngineState { side: -old(self)@.side, ..old(self)@ }),
    {
        self.side = if self.side == 1 {
            -1
        } else {
            1
        };
    }

    /// Makes the engine play `side` (+1 or -1).
    pub fn set_side(&mut self, side: i8)
        requires
            old(self).wf(),
            side == 1 || side == -1,
        ensures
            final(self).wf(),
            final(self)@ == (EngineState { side: side as int, ..old(self)@ }),
    {
        self.side = side;
    }

    /// Sets the limits the engine uses when it plays `side`.
    pub fn set_settings(&mut self, side: i8, settings: SearchSettings)
        requires
            old(self).wf(),
            settings.max_ply.scale < usize::MAX,
            settings.max_time.scale < usize::MAX,
        ensures
            final(self).wf(),
            side == 1 ==> final(self)@ == (EngineState { p1: settings, ..old(self)@ }),
            side != 1 ==> final(self)@ == (EngineState { p2: settings, ..old(self)@ }),
    {
        if side == 1 {
            self.p1_settings = settings;
        } else {
            self.p2_settings = settings;
        }
    }

    /// Tells the engine to stop and disables the session.
    pub fn stop(&mut self)
        requires
            old(self).wf(),
        ensures
            final(self).wf(),
            final(self)@ == stop_state(old(self)@),
    {
        if self.searching && self.held.len() == 0 && self.superseded < u64::MAX {
            self.superseded = self.superseded + 1;
        }
        self.held = Vec::new();
        self.send_string(String::from_str("stop"));
        self.mode = Mode::Disabled;
        self.searching = false;
        proof {
            assert(self@.held =~= Seq::<Seq<char>>::empty());
        }
    }

    /// Stops the engine, tells it to quit and closes the session; nothing
    /// may be asked of the session after this.
    pub fn quit(&mut self)
        requires
            old(self).wf(),
        ensures
            final(self)@ == (EngineState {
                outbox: stop_state(old(self)@).outbox.push("quit"@),
                closed: true,
                ..stop_state(old(self)@)
            }),
            !final(self).wf(),
    {
        self.stop();
        self.send_string(String::from_str("quit"));
        self.closed = true;
    }

    /// The commands that start a search of `board` for the side the engine plays.
    fn search_commands(&self, board: &DrawableBoard) -> (r: Vec<String>)
        requires
            self.wf(),
            board.wf(),
        ensures
            strings_view(r@) == search_commands(self@, board@.cells),
    {
        let settings = if self.side == 1 {
            self.p1_settings
        } else {
            self.p2_settings
        };
        let mut setpos = String::from_str("setpos data ");
        let data = board.serialize(self.side);
        setpos.append(data.as_str());
        let mut max_time = String::from_str("setoption max_time ");
        let t = settings.max_time.text();
        max_time.append(t.as_str());
        let mut max_ply = String::from_str("setoption max_ply ");
        let p = settings.max_ply.text();
        max_ply.append(p.as_str());
        let go = String::from_str("go");
        let mut v: Vec<String> = Vec::new();
        v.push(setpos);
        v.push(max_time);
        v.push(max_ply);
        v.push(go);
        proof {
            assert(strings_view(v@) =~= search_commands(self@, board@.cells));
        }
        v
    }

    /// Starts a search of `board` for `search_purpose`, as `new_search_state` describes.
    pub fn new_search(&mut self, search_purpose: Mode, board: &DrawableBoard)
        requires
            old(self).wf(),
            board.wf(),
        ensures
            final(self).wf(),
            final(self)@ == new_search_state(old(self)@, search_purpose, board@.cells),
    {
        if self.searching && self.held.len() == 0 {
            self.send_string(String::from_str("stop"));
            if self.superseded < u64::MAX {
                self.superseded = self.superseded + 1;
            }
        } else {
            self.held = Vec::new();
            proof {
                assert(self@.held =~= Seq::<Seq<char>>::empty());
            }
        }
        let ghost st1 = self@;
        let mut cmds = self.search_commands(board);
        if self.superseded > 0 {
            self.held = cmds;
        } else {
            self.outbox.append(&mut cmds);
            proof {
                assert(self@.outbox =~= st1.outbox + search_commands(st1, board@.cells));
            }
        }
        self.mode = search_purpose;
        self.searching = true;
    }

    /// Sends the held commands: the engine has answered every stopped search.
    fn release_held(&mut self)
        requires
            engine_wf(EngineState { held: Seq::empty(), ..old(self)@ }),
            old(self)@.superseded == 0,
        ensures
            final(self).wf(),
            final(self)@ == (EngineState {
                outbox: old(self)@.outbox + old(self)@.held,
                held: Seq::empty(),
                ..old(self)@
            }),
    {
        let ghost before = self@;
        self.outbox.append(&mut self.held);
        proof {
            assert(self@.outbox =~= before.outbox + before.held);
            assert(self@.held =~= Seq::<Seq<char>>::empty());
        }
    }

    /// One tick of the session, as `update_step` describes it. A move the
    /// engine plays is made on `board`. Returns `Ok(true)` when an automatic
    /// move was played and the next search started (the caller may pause
    /// before the next tick), and the error when a line could not be read
    /// and was dropped.
    pub fn update(&mut self, board: &mut DrawableBoard) -> (r: Result<bool, ParseError>)
        requires
            old(self).wf(),
            old(board).wf(),
        ensures
            final(self).wf(),
            final(board).wf(),
            final(self)@ == update_step(old(self)@, old(board)@.cells).state,
            r == update_step(old(self)@, old(board)@.cells).outcome,
            match update_step(old(self)@, old(board)@.cells).played {
                Some(m) => final(board)@ == board_after(old(board)@, m),
                None => final(board)@ == old(board)@,
            },
    {
        if self.mode == Mode::Disabled {
            self.best_search = SearchInfo::new();
        }
        if board.game_over() && (self.searching || self.mode != Mode::Disabled) {
            self.stop();
            return Ok(false);
        }
        match self.recive() {
            None => Ok(false),
            Some(data) => self.dispatch_line(&data, board),
        }
    }

    /// Handles one line from the engine, as `dispatch` describes it.
    fn dispatch_line(&mut self, line: &String, board: &mut DrawableBoard) -> (r: Result<
        bool,
        ParseError,
    >)
        requires
            old(self).wf(),
            old(board).wf(),
        ensures
            final(self).wf(),
            final(board).wf(),
            final(self)@ == dispatch(old(self)@, old(board)@.cells, line@).state,
            r == dispatch(old(self)@, old(board)@.cells, line@).outcome,
            match dispatch(old(self)@, old(board)@.cells, line@).played {
                Some(m) => final(board)@ == board_after(old(board)@, m),
                None => final(board)@ == old(board)@,
            },
    {
        let chars = to_chars(line.as_str());
        let ws = split_words(&chars);
        let ghost sw = texts_view(ws@);
        proof {
            assert(sw.len() == ws@.len());
            assert(forall|k: int| 0 <= k < ws@.len() ==> #[trigger] sw[k] == ws@[k]@);
        }
        if ws.len() > 0 && same_text(&ws[0], "bestmove") {
            if self.superseded > 0 {
                self.superseded = self.superseded - 1;
                if self.superseded == 0 {
                    self.release_held();
                }
                return Ok(false);
            }
            if !self.searching {
                return Ok(false);
            }
            self.searching = false;
            if self.mode == Mode::Single || self.mode == Mode::Auto {
                let parsed = if ws.len() >= 2 {
                    parse_move_for_side(&ws[1], self.side)
                } else {
                    Err(ParseError::MalformedMove)
                };
                match parsed {
                    Err(_) => {
                        self.stop();
                        Err(ParseError::MalformedMove)
                    },
                    Ok(mv) => {
                        board.make_move(mv);
                        if self.mode == Mode::Single || board.game_over() {
                            self.stop();
                            Ok(false)
                        } else {
                            self.flip_side();
                            self.new_search(Mode::Auto, board);
                            Ok(true)
                        }
                    },
                }
            } else {
                Ok(false)
            }
        } else if ws.len() > 0 && same_text(&ws[0], "info") {
            if self.superseded > 0 {
                return Ok(false);
            }
            match parse_info(line.as_str(), self.side) {
                Ok(si) => {
                    self.best_search = si;
                    Ok(false)
                },
                Err(e) => Err(e),
            }
        } else {
            Ok(false)
        }
    }

    /// Reads a move token from the engine; moves given for side -1 are flipped.
    pub fn parse_bestmove_str(&self, raw_move: &str) -> (r: Result<Move, ParseError>)
        ensures
            match move_for_side(raw_move@, self@.side) {
                Some(m) => r is Ok && r->Ok_0@ == m,
                None => r == Err::<Move, ParseError>(ParseError::MalformedMove),
            },
    {
        let chars = to_chars(raw_move);
        parse_move_for_side(&chars, self.side)
    }

    /// Reads an `info` line from the engine, as `info_of_line` describes it.
    pub fn parse_info_str(&self, info_str: &str) -> (r: Result<SearchInfo, ParseError>)
        ensures
            match info_of_line(info_str@, self@.side) {
                Ok(v) => r is Ok && r->Ok_0@ == v,
                Err(e) => r == Err::<SearchInfo, ParseError>(e),
            },
    {
        parse_info(info_str, self.side)
    }
}

/// Starting automatic play on an idle session sends the search commands,
/// ending in `go`, and leaves the session searching in `Auto` mode.
pub proof fn lemma_auto_start(st: EngineState, cells: Seq<usize>)
    requires
        engine_wf(st),
        !st.searching,
        st.superseded == 0,
    ensures
        new_search_state(st, Mode::Auto, cells).mode == Mode::Auto,
        new_search_state(st, Mode::Auto, cells).searching,
        new_search_state(st, Mode::Auto, cells).side == st.side,
        new_search_state(st, Mode::Auto, cells).outbox == st.outbox + search_commands(st, cells),
        search_commands(st, cells).last() == "go"@,
{
}

/// In automatic play, the engine's answer to the running search is played
/// on the board. If the game goes on, the other side is to move and its
/// search is started at once, ending in `go`; if the game is over, the
/// session is disabled and only `stop` is sent.
pub proof fn lemma_auto_step(st: EngineState, cells: Seq<usize>, line: Seq<char>)
    requires
        engine_wf(st),
        valid_board(cells),
        !is_game_over(cells),
        st.mode == Mode::Auto,
        st.searching,
        st.superseded == 0,
        st.inbox.len() > 0,
        st.inbox[0] == line,
        words(line).len() >= 2,
        words(line)[0] == "bestmove"@,
        move_for_side(words(line)[1], st.side) is Some,
    ensures
        ({
            let m = move_for_side(words(line)[1], st.side)->Some_0;
            let after = apply_move(cells, m);
            let step = update_step(st, cells);
            let next = EngineState {
                side: -st.side,
                searching: false,
                inbox: st.inbox.drop_first(),
                ..st
            };
            &&& step.played == Some(m)
            &&& !is_game_over(after) ==> {
                &&& step.outcome == Ok::<bool, ParseError>(true)
                &&& step.state.mode == Mode::Auto
                &&& step.state.searching
                &&& step.state.side == -st.side
                &&& step.state.outbox == st.outbox + search_commands(next, after)
                &&& search_commands(next, after).last() == "go"@
            }
            &&& is_game_over(after) ==> {
                &&& step.outcome == Ok::<bool, ParseError>(false)
                &&& step.state.mode == Mode::Disabled
                &&& !step.state.searching
                &&& step.state.outbox == st.outbox.push("stop"@)
            }
        }),
{
}

/// A disabled session that is not searching sends nothing more, whatever
/// the engine says and whatever the board holds.
pub proof fn lemma_disabled_is_quiet(st: EngineState, cells: Seq<usize>)
    requires
        engine_wf(st),
        st.mode == Mode::Disabled,
        !st.searching,
    ensures
        update_step(st, cells).state.outbox == st.outbox,
        update_step(st, cells).state.mode == Mode::Disabled,
        !update_step(st, cells).state.searching,
        update_step(st, cells).played is None,
{
    assert(st.outbox + st.held =~= st.outbox);
}

} // verus!
