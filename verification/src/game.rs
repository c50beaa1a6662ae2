//! The state of a game in progress and the labels of the game screens.
use vstd::prelude::*;
use crate::engine::{Board, Color, Castle, Piece, Status, start_board, inb, start_sq};
use crate::config::TimeControl;
use crate::num::{push_dec, push_dec2, dec_spec};
use crate::text::push_str;

verus! {

/// The screens of the terminal interface.
#[derive(Clone, Copy, PartialEq, Eq, Debug, Structural)]
pub enum Screen {
    Menu,
    ColorPick,
    Settings,
    Game,
    Promo,
    DrawOffer,
    Replay,
    PngPreview,
    /// Start from a FEN string.
    FenInput,
    /// Lichess daily puzzle.
    Puzzle,
    /// Load a PGN file.
    PgnImport,
    /// PGN save confirmation popup.
    PgnSaved,
    /// Enter server address and create or join a room.
    OnlineSetup,
    /// Waiting for the opponent to connect.
    OnlineWaiting,
    /// Pre-game rule configuration (creator only).
    OnlineLobby,
    /// The opponent requested an undo.
    UndoOffer,
    /// Connection info, chat and status overlay.
    ServerPanel,
    /// Server password entry.
    OnlineAuth,
    /// Choose puzzle theme and rating.
    PuzzlePicker,
}

/// Who plays: two players at one keyboard, against the computer, or over the network.
#[derive(Clone, Copy, PartialEq, Eq, Debug, Structural)]
pub enum Mode {
    PvP,
    CPU,
    Online,
}

#[derive(Clone, Copy, PartialEq, Eq, Debug, Structural)]
pub enum ClockState {
    Running,
    Paused,
    Flagged,
}

/// One position of a finished game, for replay.
#[derive(Clone)]
pub struct ReplaySnap {
    pub board: Board,
    pub turn: Color,
    pub notation: String,
    pub mv_num: u32,
}

/// One move of the game's history.
pub struct HistEntry {
    pub notation: String,
    pub san: String,
    pub color: Color,
    pub from: (usize, usize),
    pub to: (usize, usize),
    /// Time taken for this move in milliseconds.
    pub move_time_ms: u64,
}

impl Clone for HistEntry {
    fn clone(&self) -> (r: HistEntry)
        ensures r == *self,
    {
        HistEntry {
            notation: self.notation.clone(),
            san: self.san.clone(),
            color: self.color,
            from: self.from,
            to: self.to,
            move_time_ms: self.move_time_ms,
        }
    }
}

/// How good a move was, by the evaluation it lost.
#[derive(Clone, Copy, Debug, PartialEq, Eq, Structural)]
pub enum MoveLabel {
    Book,
    Good,
    Inaccuracy,
    Mistake,
    Blunder,
}

/// The label of a move that changed the mover's evaluation by `delta`, with the
/// thresholds `inaccuracy <= mistake <= blunder` (positive centipawns): a loss below
/// `inaccuracy` is good, one up to `mistake` an inaccuracy, one up to and including `blunder`
/// a mistake, and only a larger loss a blunder.
pub open spec fn label_spec(delta: int, inaccuracy: int, mistake: int, blunder: int) -> MoveLabel {
    if delta > -inaccuracy { MoveLabel::Good }
    else if delta > -mistake { MoveLabel::Inaccuracy }
    else if delta >= -blunder { MoveLabel::Mistake }
    else { MoveLabel::Blunder }
}

impl MoveLabel {
    /// The label with the default thresholds 50, 100 and 300. `delta_cp` is what the mover
    /// gained (negative: lost), in centipawns.
    pub fn from_delta_cp(delta_cp: i32) -> (r: MoveLabel)
        ensures r == label_spec(delta_cp as int, 50, 100, 300),
    {
        Self::from_delta_cp_thresholds(delta_cp, 50, 100, 300)
    }

    pub fn from_delta_cp_thresholds(delta_cp: i32, inaccuracy: i32, mistake: i32, blunder: i32) -> (r: MoveLabel)
        requires inaccuracy > i32::MIN, mistake > i32::MIN, blunder > i32::MIN,
        ensures r == label_spec(delta_cp as int, inaccuracy as int, mistake as int, blunder as int),
    {
        if delta_cp > -inaccuracy {
            MoveLabel::Good
        } else if delta_cp > -mistake {
            MoveLabel::Inaccuracy
        } else if delta_cp >= -blunder {
            MoveLabel::Mistake
        } else {
            MoveLabel::Blunder
        }
    }

    pub fn icon(self) -> (r: &'static str)
        ensures
            r@ == (match self {
                MoveLabel::Book => "B"@,
                MoveLabel::Good => "+"@,
                MoveLabel::Inaccuracy => "?!"@,
                MoveLabel::Mistake => "?"@,
                MoveLabel::Blunder => "??"@,
            }),
    {
        match self {
            MoveLabel::Book => "B",
            MoveLabel::Good => "+",
            MoveLabel::Inaccuracy => "?!",
            MoveLabel::Mistake => "?",
            MoveLabel::Blunder => "??",
        }
    }

    pub fn name(self) -> (r: &'static str)
        ensures
            r@ == (match self {
                MoveLabel::Book => "Book"@,
                MoveLabel::Good => "Good"@,
                MoveLabel::Inaccuracy => "Inaccuracy"@,
                MoveLabel::Mistake => "Mistake"@,
                MoveLabel::Blunder => "Blunder"@,
            }),
    {
        match self {
            MoveLabel::Book => "Book",
            MoveLabel::Good => "Good",
            MoveLabel::Inaccuracy => "Inaccuracy",
            MoveLabel::Mistake => "Mistake",
            MoveLabel::Blunder => "Blunder",
        }
    }
}

/// The state of a game: position, history, captures and clocks.
pub struct Gs {
    pub board: Board,
    pub turn: Color,
    pub ep: Option<(usize, usize)>,
    pub cast: Castle,
    pub status: Status,
    pub history: Vec<HistEntry>,
    pub cap_w: Vec<Piece>,
    pub cap_b: Vec<Piece>,
    pub fullmove: u32,
    pub white_ms: Option<u64>,
    pub black_ms: Option<u64>,
    pub clock_state: ClockState,
}

/// A history entry as plain values: coordinate notation, SAN, mover, from, to, time taken.
pub type HistView = (Seq<char>, Seq<char>, Color, (usize, usize), (usize, usize), u64);

pub open spec fn hist_view(h: HistEntry) -> HistView {
    (h.notation@, h.san@, h.color, h.from, h.to, h.move_time_ms)
}

/// A game as plain values.
#[verifier::ext_equal]
pub struct GsView {
    pub board: Board,
    pub turn: Color,
    pub ep: Option<(usize, usize)>,
    pub cast: Castle,
    pub status: Status,
    pub history: Seq<HistView>,
    pub cap_w: Seq<Piece>,
    pub cap_b: Seq<Piece>,
    pub fullmove: u32,
    pub white_ms: Option<u64>,
    pub black_ms: Option<u64>,
    pub clock_state: ClockState,
}

pub open spec fn gs_view(g: Gs) -> GsView {
    GsView {
        board: g.board, turn: g.turn, ep: g.ep, cast: g.cast, status: g.status,
        history: g.history@.map_values(|h: HistEntry| hist_view(h)),
        cap_w: g.cap_w@, cap_b: g.cap_b@, fullmove: g.fullmove, white_ms: g.white_ms, black_ms: g.black_ms,
        clock_state: g.clock_state,
    }
}

impl Clone for Gs {
    fn clone(&self) -> (r: Gs)
        ensures r.board == self.board && r.turn == self.turn && r.ep == self.ep && r.cast == self.cast
            && r.status == self.status && r.history@ == self.history@ && r.cap_w@ == self.cap_w@
            && r.cap_b@ == self.cap_b@ && r.fullmove == self.fullmove && r.white_ms == self.white_ms
            && r.black_ms == self.black_ms && r.clock_state == self.clock_state,
            gs_view(r) == gs_view(*self),
    {
        let history = self.history.clone();
        assert(history@ =~= self.history@);
        let cap_w = self.cap_w.clone();
        assert(cap_w@ =~= self.cap_w@);
        let cap_b = self.cap_b.clone();
        assert(cap_b@ =~= self.cap_b@);
        let r = Gs {
            board: self.board,
            turn: self.turn,
            ep: self.ep,
            cast: self.cast,
            status: self.status,
            history,
            cap_w,
            cap_b,
            fullmove: self.fullmove,
            white_ms: self.white_ms,
            black_ms: self.black_ms,
            clock_state: self.clock_state,
        };
        assert(gs_view(r) =~= gs_view(*self));
        r
    }
}

/// `n` with at least two digits.
pub open spec fn dec2_spec(n: nat) -> Seq<char> {
    (if n < 10 { seq!['0'] } else { Seq::empty() }) + dec_spec(n)
}

/// A clock's display: `∞` without a clock, `m:ss` from ten seconds on, and `0:ss.t`
/// (tenths) below that.
pub open spec fn clock_text(ms_opt: Option<u64>) -> Seq<char> {
    match ms_opt {
        None => "   \u{221e}  "@,
        Some(ms) => if ms == 0 {
            " 0:00 "@
        } else if ms < 10_000 {
            " 0:"@ + dec2_spec(((ms / 1000) % 60) as nat) + "."@ + dec_spec(((ms % 1000) / 100) as nat) + " "@
        } else {
            dec_spec((ms / 1000 / 60) as nat) + ":"@ + dec2_spec(((ms / 1000) % 60) as nat) + "  "@
        },
    }
}

impl Gs {
    /// A new game from the starting position, White to move, with both clocks at the
    /// control's starting time, paused.
    pub fn new(tc: TimeControl) -> (g: Gs)
        ensures
            forall|r: int, c: int| inb(r, c) ==> g.board[r][c] == start_sq(r, c),
            g.turn == Color::White, g.ep is None,
            g.cast == (Castle { wk: true, wq: true, bk: true, bq: true }),
            g.status == Status::Active,
            g.history@.len() == 0, g.cap_w@.len() == 0, g.cap_b@.len() == 0,
            g.fullmove == 1,
            g.white_ms == tc.initial_ms(), g.black_ms == tc.initial_ms(),
            g.clock_state == ClockState::Paused,
    {
        let t = tc.initial_ms();
        Gs {
            board: start_board(),
            turn: Color::White,
            ep: None,
            cast: Castle::all(),
            status: Status::Active,
            history: Vec::new(),
            cap_w: Vec::new(),
            cap_b: Vec::new(),
            fullmove: 1,
            white_ms: t,
            black_ms: t,
            clock_state: ClockState::Paused,
        }
    }

    /// The text of a clock holding `ms_opt` milliseconds.
    pub fn fmt_time(ms_opt: Option<u64>) -> (s: String)
        ensures s@ == clock_text(ms_opt),
    {
        let mut s = String::new();
        match ms_opt {
            None => push_str(&mut s, "   \u{221e}  "),
            Some(ms) => {
                if ms == 0 {
                    push_str(&mut s, " 0:00 ");
                } else {
                    let secs = ms / 1000;
                    let m = secs / 60;
                    let sec = secs % 60;
                    if ms < 10_000 {
                        push_str(&mut s, " 0:");
                        push_dec2(&mut s, sec);
                        push_str(&mut s, ".");
                        push_dec(&mut s, (ms % 1000) / 100);
                        push_str(&mut s, " ");
                    } else {
                        push_dec(&mut s, m);
                        push_str(&mut s, ":");
                        push_dec2(&mut s, sec);
                        push_str(&mut s, "  ");
                    }
                }
            },
        }
        s
    }
}

/// How a game ended.
#[derive(Clone, Copy, PartialEq, Eq, Debug, Structural)]
pub enum GameEnd {
    Normal,
    Draw,
    Flag,
}

/// Action queued to fire after the server accepts the password.
#[derive(Clone, Debug)]
pub enum PendingNetAction {
    Create,
    /// Room code.
    Join(String),
    /// Room code, color, token.
    Rejoin(String, String, String),
}

/// Sub-steps on the online setup screen.
#[derive(Clone, Copy, PartialEq, Eq, Debug, Structural)]
pub enum OnlineStep {
    /// Typing the server address.
    EnterAddr,
    /// Create, join or rejoin.
    ChooseAction,
    /// Typing the room code (join path).
    EnterRoom,
    /// Waiting for the server's answer.
    Connecting,
}

} // verus!
