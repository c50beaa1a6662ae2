//! The client's game screen as a state machine: playing moves with their undo snapshots and
//! replay positions, undo, piece selection, promotion choice, typed moves, the replay viewer
//! and draw offers. The terminal front end turns key presses into `Key`s and carries out the
//! `GameAction` it gets back (the computer's reply, saving, exporting, the network).
use vstd::prelude::*;
use crate::engine::{Board, Color, Kind, Mv, Status, legal, legal_spec};
use crate::game::{Gs, GsView, gs_view, GameEnd, ClockState, Mode, Screen, ReplaySnap};
use crate::config::{AiDepth, UiMode};
use crate::play::play_view;
use crate::notation::{parse_notation, notation_spec};
use crate::network::{NetMsg, NetMsgView, msg_view};
use crate::text::{chars_of, eq_lit, slice, string_of};

verus! {

/// A key press, as the game screen sees it.
#[derive(Clone, Copy, PartialEq, Eq, Debug, Structural)]
pub enum Key {
    Up,
    Down,
    Left,
    Right,
    Enter,
    Esc,
    Backspace,
    Home,
    End,
    Char(char),
    Other,
}

/// What the front end has to do after a key.
#[derive(Clone, Copy, Debug)]
pub enum GameAction {
    Nothing,
    /// Start a new game with the current settings.
    NewGame,
    /// Open the PNG preview of the board.
    ExportPng,
    /// Save the game as PGN.
    SavePgn,
    /// The move was played: let the computer answer, queue its analysis, check for the end.
    Moved(Mv),
    /// Both players agreed a draw: finish the game.
    DrawAgreed,
    /// Send a draw offer to the online opponent.
    SendDrawOffer,
    /// Send a resignation to the online opponent.
    Resign,
    /// A move tried on a puzzle, to check against its solution.
    PuzzleMove(Mv),
}

/// The game screen's state.
pub struct ClientGame {
    pub gs: Gs,
    /// Snapshots to undo to, with the cursor: at most 200.
    pub undo_stack: Vec<(Gs, usize, usize)>,
    /// The positions after each move, for the replay viewer.
    pub replay_snaps: Vec<ReplaySnap>,
    pub replay_idx: usize,
    pub mode: Mode,
    pub ai_depth: AiDepth,
    pub ui_mode: UiMode,
    pub screen: Screen,
    pub player_color: Color,
    /// Our colour in an online game.
    pub online_color: Option<Color>,
    pub flip_board: bool,
    pub auto_flip: bool,
    /// The cursor, in screen rows and columns.
    pub cursor: (usize, usize),
    /// The selected square and its legal moves.
    pub selected: Option<(usize, usize)>,
    pub targets: Vec<Mv>,
    /// A move being typed, and why the last one was refused.
    pub input: Vec<char>,
    pub input_err: Option<String>,
    /// Who offered a draw.
    pub draw_offer: Option<Color>,
    pub game_end: GameEnd,
    /// The computer is thinking.
    pub thinking: bool,
    /// The promotion being chosen: from, to, and the highlighted piece (queen, rook, bishop, knight).
    pub promo_from: (usize, usize),
    pub promo_to: (usize, usize),
    pub promo_cur: usize,
}

/// A replay position as plain values: board, side to move, the move's SAN, move number.
pub type SnapView = (Board, Color, Seq<char>, u32);

pub open spec fn snap_view(s: ReplaySnap) -> SnapView {
    (s.board, s.turn, s.notation@, s.mv_num)
}

/// The game screen as plain values.
#[verifier::ext_equal]
pub struct ClientView {
    pub gs: GsView,
    pub stack: Seq<(GsView, usize, usize)>,
    pub replay: Seq<SnapView>,
    pub replay_idx: usize,
    pub mode: Mode,
    pub ai_depth: AiDepth,
    pub ui_mode: UiMode,
    pub screen: Screen,
    pub player_color: Color,
    pub online_color: Option<Color>,
    pub flip_board: bool,
    pub auto_flip: bool,
    pub cursor: (usize, usize),
    pub selected: Option<(usize, usize)>,
    pub targets: Seq<Mv>,
    pub input: Seq<char>,
    pub input_err: Option<Seq<char>>,
    pub draw_offer: Option<Color>,
    pub game_end: GameEnd,
    pub thinking: bool,
    pub promo_from: (usize, usize),
    pub promo_to: (usize, usize),
    pub promo_cur: usize,
}

pub open spec fn opt_text(o: Option<String>) -> Option<Seq<char>> {
    match o { Some(s) => Some(s@), None => None }
}

impl ClientGame {
    pub open spec fn view(&self) -> ClientView {
        ClientView {
            gs: gs_view(self.gs),
            stack: self.undo_stack@.map_values(|e: (Gs, usize, usize)| (gs_view(e.0), e.1, e.2)),
            replay: self.replay_snaps@.map_values(|s: ReplaySnap| snap_view(s)),
            replay_idx: self.replay_idx,
            mode: self.mode,
            ai_depth: self.ai_depth,
            ui_mode: self.ui_mode,
            screen: self.screen,
            player_color: self.player_color,
            online_color: self.online_color,
            flip_board: self.flip_board,
            auto_flip: self.auto_flip,
            cursor: self.cursor,
            selected: self.selected,
            targets: self.targets@,
            input: self.input@,
            input_err: opt_text(self.input_err),
            draw_offer: self.draw_offer,
            game_end: self.game_end,
            thinking: self.thinking,
            promo_from: self.promo_from,
            promo_to: self.promo_to,
            promo_cur: self.promo_cur,
        }
    }
}

/// The game is over: mate, stalemate or a flag fall.
pub open spec fn over(v: ClientView) -> bool {
    v.gs.status == Status::Checkmate || v.gs.status == Status::Stalemate || v.gs.clock_state == ClockState::Flagged
}

/// The side to move is played from this keyboard.
pub open spec fn human(v: ClientView) -> bool {
    match v.mode {
        Mode::PvP => true,
        Mode::CPU => v.gs.turn == v.player_color,
        Mode::Online => v.online_color == Some(v.gs.turn),
    }
}

/// The board is drawn from Black's side.
pub open spec fn flipped(v: ClientView) -> bool {
    v.flip_board || (v.mode == Mode::CPU && v.player_color == Color::Black)
        || (v.mode == Mode::PvP && v.auto_flip && v.gs.turn == Color::Black)
}

/// The board square under screen square `s`.
pub open spec fn to_board(v: ClientView, s: (usize, usize)) -> (usize, usize) {
    if flipped(v) { ((7 - s.0) as usize, (7 - s.1) as usize) } else { s }
}

/// Room for one more move in the game's counters (a machine limit, never reached in play).
pub open spec fn can_play(v: ClientView) -> bool {
    &&& v.gs.history.len() < usize::MAX
    &&& v.gs.cap_w.len() < usize::MAX && v.gs.cap_b.len() < usize::MAX
    &&& (v.gs.turn == Color::Black ==> v.gs.fullmove < u32::MAX)
    &&& v.replay.len() < usize::MAX
    &&& v.stack.len() <= 200
}

/// The undo snapshots after pushing `e`: the oldest goes when there are more than 200.
pub open spec fn capped(s: Seq<(GsView, usize, usize)>) -> Seq<(GsView, usize, usize)> {
    if s.len() > 200 { s.drop_first() } else { s }
}

/// Playing the legal move `mv`, which took `ms`: the snapshot before it is kept for undo, the
/// position after it for the replay, and with the board turning between players the cursor
/// goes to the side to move's king file.
pub open spec fn execute_view(v: ClientView, mv: Mv, ms: u64) -> ClientView {
    let g = play_view(v.gs, mv, ms);
    ClientView {
        gs: g,
        stack: capped(v.stack.push((v.gs, v.cursor.0, v.cursor.1))),
        replay: v.replay.push((g.board, g.turn, g.history.last().1, g.fullmove)),
        cursor: if v.auto_flip && v.mode == Mode::PvP {
            if g.turn == Color::Black { (6usize, 3usize) } else { (6usize, 4usize) }
        } else { v.cursor },
        ..v
    }
}

/// How many snapshots `u` takes back: one move between two players, none online, against the
/// computer the reply too (but one move on the easiest level).
pub open spec fn undo_pops(v: ClientView) -> nat {
    match v.mode {
        Mode::PvP => 1,
        Mode::Online => 0,
        Mode::CPU => if v.ai_depth == AiDepth::Easy { 1 } else { 2 },
    }
}

/// Undo: back to the snapshot that many moves ago (as far as there are snapshots), with the
/// selection, typed move and thinking cleared and the replay cut to the restored game.
#[verifier::opaque]
pub open spec fn undo_view(v: ClientView) -> ClientView {
    let take = if undo_pops(v) < v.stack.len() { undo_pops(v) } else { v.stack.len() };
    if take == 0 {
        v
    } else {
        let e = v.stack[v.stack.len() - take];
        let keep = e.0.history.len() + 1;
        ClientView {
            gs: e.0,
            cursor: (e.1, e.2),
            stack: v.stack.take(v.stack.len() - take),
            selected: None,
            targets: Seq::empty(),
            input: Seq::empty(),
            input_err: None,
            thinking: false,
            replay: if v.replay.len() > keep { v.replay.take(keep as int) } else { v.replay },
            ..v
        }
    }
}

pub open spec fn next_ui_mode(m: UiMode) -> UiMode {
    match m { UiMode::Minimal => UiMode::Standard, UiMode::Standard => UiMode::Analysis, UiMode::Analysis => UiMode::Minimal }
}

impl ClientGame {
    /// A new game screen for `gs`.
    pub fn new(gs: Gs, mode: Mode, ai_depth: AiDepth, ui_mode: UiMode, player_color: Color, flip_board: bool,
        auto_flip: bool) -> (c: ClientGame)
        ensures
            c.gs == gs, c.undo_stack@.len() == 0, c.replay_snaps@.len() == 0, c.replay_idx == 0,
            c.mode == mode, c.ai_depth == ai_depth, c.ui_mode == ui_mode, c.screen == Screen::Game,
            c.player_color == player_color, c.online_color is None, c.flip_board == flip_board,
            c.auto_flip == auto_flip, c.cursor == (6usize, 4usize), c.selected is None, c.targets@.len() == 0,
            c.input@.len() == 0, c.input_err is None, c.draw_offer is None, c.game_end == GameEnd::Normal,
            !c.thinking, c.promo_cur == 0,
    {
        ClientGame {
            gs, undo_stack: Vec::new(), replay_snaps: Vec::new(), replay_idx: 0, mode, ai_depth, ui_mode,
            screen: Screen::Game, player_color, online_color: None, flip_board, auto_flip, cursor: (6, 4),
            selected: None, targets: Vec::new(), input: Vec::new(), input_err: None, draw_offer: None,
            game_end: GameEnd::Normal, thinking: false, promo_from: (0, 0), promo_to: (0, 0), promo_cur: 0,
        }
    }

    /// Plays the legal move `mv`, which took `move_time_ms` (see `execute_view`).
    pub fn execute(&mut self, mv: Mv, move_time_ms: u64)
        requires
            legal_spec(old(self).gs.board, old(self).gs.turn, old(self).gs.ep, old(self).gs.cast).contains(mv),
            can_play(old(self).view()),
        ensures final(self).view() == execute_view(old(self).view(), mv, move_time_ms),
    {
        let ghost v0 = self.view();
        let snap = self.gs.clone();
        self.undo_stack.push((snap, self.cursor.0, self.cursor.1));
        if self.undo_stack.len() > 200 {
            self.undo_stack.remove(0);
        }
        assert(self.view().stack =~= capped(v0.stack.push((v0.gs, v0.cursor.0, v0.cursor.1))));
        self.gs.play(mv, move_time_ms);
        let notation = self.gs.history[self.gs.history.len() - 1].san.clone();
        let ghost r0 = self.replay_snaps@;
        self.replay_snaps.push(ReplaySnap { board: self.gs.board, turn: self.gs.turn, notation, mv_num: self.gs.fullmove });
        let pvp = match self.mode { Mode::PvP => true, _ => false };
        if self.auto_flip && pvp {
            self.cursor = match self.gs.turn { Color::Black => (6, 3), Color::White => (6, 4) };
        }
        assert(self.view().replay =~= v0.replay.push(snap_view(self.replay_snaps@.last())));
        assert(self.view() =~= execute_view(v0, mv, move_time_ms));
    }

    /// Takes moves back (see `undo_view`).
    #[verifier::rlimit(30)]
    pub fn undo(&mut self)
        ensures final(self).view() == undo_view(old(self).view()),
    {
        reveal(undo_view);
        let ghost v0 = self.view();
        let pops: usize = match self.mode {
            Mode::PvP => 1,
            Mode::Online => 0,
            Mode::CPU => match self.ai_depth { AiDepth::Easy => 1, _ => 2 },
        };
        let take = if pops < self.undo_stack.len() { pops } else { self.undo_stack.len() };
        if take == 0 {
            return;
        }
        let idx = self.undo_stack.len() - take;
        let ghost full = self.undo_stack@;
        self.undo_stack.truncate(idx + 1);
        let snap = self.undo_stack.pop();
        proof {
            assert(self.undo_stack@ =~= full.take(idx as int));
            assert(self.undo_stack@.map_values(|e: (Gs, usize, usize)| (gs_view(e.0), e.1, e.2))
                =~= v0.stack.take(idx as int));
            assert(full.map_values(|e: (Gs, usize, usize)| (gs_view(e.0), e.1, e.2))[idx as int] == v0.stack[idx as int]);
        }
        match snap {
            Some((g, r, c)) => {
                self.gs = g;
                self.cursor = (r, c);
            },
            None => {},
        }
        self.selected = None;
        self.targets = Vec::new();
        self.input = Vec::new();
        self.input_err = None;
        self.thinking = false;
        let hl = self.gs.history.len();
        if self.replay_snaps.len() > hl && self.replay_snaps.len() - hl > 1 {
            self.replay_snaps.truncate(hl + 1);
        }
        assert(self.view().replay =~= undo_view(v0).replay);
        assert(self.view() =~= undo_view(v0));
    }

    /// `T`: the next interface mode.
    pub fn cycle_ui_mode(&mut self)
        ensures final(self).view() == (ClientView { ui_mode: next_ui_mode(old(self).ui_mode), ..old(self).view() }),
    {
        self.ui_mode = match self.ui_mode {
            UiMode::Minimal => UiMode::Standard,
            UiMode::Standard => UiMode::Analysis,
            UiMode::Analysis => UiMode::Minimal,
        };
        assert(self.view() =~= (ClientView { ui_mode: next_ui_mode(old(self).ui_mode), ..old(self).view() }));
    }
}

/// The moves of `s` that start on `sq`, in their order.
pub open spec fn moves_from(s: Seq<Mv>, sq: (usize, usize)) -> Seq<Mv>
    decreases s.len(),
{
    if s.len() == 0 {
        Seq::empty()
    } else {
        let r = moves_from(s.drop_last(), sq);
        if s.last().fr == sq { r.push(s.last()) } else { r }
    }
}

/// Some move of `t` goes from `sel` to `bc`.
pub open spec fn has_target(t: Seq<Mv>, sel: (usize, usize), bc: (usize, usize)) -> bool {
    exists|i: int| 0 <= i < t.len() && (#[trigger] t[i]).fr == sel && t[i].to == bc
}

/// Some promotion of `t` goes from `sel` to `bc`.
pub open spec fn has_promo_target(t: Seq<Mv>, sel: (usize, usize), bc: (usize, usize)) -> bool {
    exists|i: int| 0 <= i < t.len() && (#[trigger] t[i]).fr == sel && t[i].to == bc && t[i].promo is Some
}

/// The first move of `t` from `fr` to `to` with promotion `promo`.
pub open spec fn first_move(t: Seq<Mv>, fr: (usize, usize), to: (usize, usize), promo: Option<Kind>) -> Option<Mv>
    decreases t.len(),
{
    if t.len() == 0 {
        None
    } else if t[0].fr == fr && t[0].to == to && t[0].promo == promo {
        Some(t[0])
    } else {
        first_move(t.drop_first(), fr, to, promo)
    }
}

pub open spec fn legal_now(v: ClientView) -> Seq<Mv> {
    legal_spec(v.gs.board, v.gs.turn, v.gs.ep, v.gs.cast)
}

/// Plays `mv` when it is legal and the counters have room; the action says whether it was.
pub open spec fn play_if(v: ClientView, mv: Mv, ms: u64) -> (ClientView, GameAction) {
    if legal_now(v).contains(mv) && can_play(v) { (execute_view(v, mv, ms), GameAction::Moved(mv)) } else { (v, GameAction::Nothing) }
}

/// Clicking or pressing Enter on board square `bc`: with a piece selected and a move of it to
/// `bc`, that move (a promotion first asks for the piece; on a puzzle it is handed over to be
/// checked); on a piece of the side to move, select it and its legal moves; else drop the
/// selection.
pub open spec fn select_view(v: ClientView, bc: (usize, usize), ms: u64) -> (ClientView, GameAction) {
    let own = match v.gs.board[bc.0 as int][bc.1 as int] { Some(p) => p.c == v.gs.turn, None => false };
    let pick = ClientView { selected: Some(bc), targets: moves_from(legal_now(v), bc), ..v };
    match v.selected {
        Some(sel) => if has_target(v.targets, sel, bc) {
            if has_promo_target(v.targets, sel, bc) {
                (ClientView { promo_from: sel, promo_to: bc, promo_cur: 0, screen: Screen::Promo, ..v }, GameAction::Nothing)
            } else {
                match first_move(v.targets, sel, bc, None) {
                    Some(mv) => {
                        let v1 = ClientView { selected: None, targets: Seq::empty(), ..v };
                        if v.screen == Screen::Puzzle { (v1, GameAction::PuzzleMove(mv)) } else { play_if(v1, mv, ms) }
                    },
                    None => (v, GameAction::Nothing),
                }
            }
        } else if own {
            (pick, GameAction::Nothing)
        } else {
            (ClientView { selected: None, targets: Seq::empty(), ..v }, GameAction::Nothing)
        },
        None => if own { (pick, GameAction::Nothing) } else { (v, GameAction::Nothing) },
    }
}

pub open spec fn promo_kind(i: usize) -> Kind {
    if i == 0 { Kind::Q } else if i == 1 { Kind::R } else if i == 2 { Kind::B } else { Kind::N }
}

/// The promotion picker: left and right choose among queen, rook, bishop and knight, Enter
/// plays the promotion, Esc goes back to the game.
pub open spec fn promo_key_view(v: ClientView, key: Key, ms: u64) -> (ClientView, GameAction) {
    match key {
        Key::Left | Key::Char('h') => (ClientView { promo_cur: if v.promo_cur > 0 { (v.promo_cur - 1) as usize } else { v.promo_cur }, ..v }, GameAction::Nothing),
        Key::Right | Key::Char('l') => (ClientView { promo_cur: if v.promo_cur < 3 { (v.promo_cur + 1) as usize } else { v.promo_cur }, ..v }, GameAction::Nothing),
        Key::Enter | Key::Char(' ') => match first_move(legal_now(v), v.promo_from, v.promo_to, Some(promo_kind(v.promo_cur))) {
            Some(mv) => play_if(ClientView { screen: Screen::Game, selected: None, targets: Seq::empty(), ..v }, mv, ms),
            None => (v, GameAction::Nothing),
        },
        Key::Esc => (ClientView { screen: Screen::Game, selected: None, targets: Seq::empty(), ..v }, GameAction::Nothing),
        _ => (v, GameAction::Nothing),
    }
}

/// The replay viewer: step back and forward, jump to the start or the end, export, save, or
/// go back to the game.
pub open spec fn replay_key_view(v: ClientView, key: Key) -> (ClientView, GameAction) {
    match key {
        Key::Left | Key::Char('h') => (ClientView { replay_idx: if v.replay_idx > 0 { (v.replay_idx - 1) as usize } else { v.replay_idx }, ..v }, GameAction::Nothing),
        Key::Right | Key::Char('l') => (ClientView { replay_idx: if v.replay_idx + 1 < v.replay.len() { (v.replay_idx + 1) as usize } else { v.replay_idx }, ..v }, GameAction::Nothing),
        Key::Char('0') | Key::Home => (ClientView { replay_idx: 0, ..v }, GameAction::Nothing),
        Key::Char('$') | Key::End => (ClientView { replay_idx: if v.replay.len() > 0 { (v.replay.len() - 1) as usize } else { 0 }, ..v }, GameAction::Nothing),
        Key::Char('E') => (v, GameAction::ExportPng),
        Key::Char('G') => (v, GameAction::SavePgn),
        Key::Char('q') | Key::Esc => (ClientView { screen: Screen::Game, ..v }, GameAction::Nothing),
        _ => (v, GameAction::Nothing),
    }
}

/// A draw offer on the screen: yes ends the game drawn, no goes back to it.
pub open spec fn draw_key_view(v: ClientView, key: Key) -> (ClientView, GameAction) {
    match key {
        Key::Char('y') | Key::Char('Y') | Key::Enter => (ClientView {
            gs: GsView { status: Status::Stalemate, ..v.gs }, game_end: GameEnd::Draw, draw_offer: None, screen: Screen::Game, ..v
        }, GameAction::DrawAgreed),
        Key::Char('n') | Key::Char('N') | Key::Esc => (ClientView { draw_offer: None, screen: Screen::Game, ..v }, GameAction::Nothing),
        _ => (v, GameAction::Nothing),
    }
}

pub(crate) fn has_target_in(t: &Vec<Mv>, sel: (usize, usize), bc: (usize, usize), promo_only: bool) -> (r: bool)
    ensures r == (if promo_only { has_promo_target(t@, sel, bc) } else { has_target(t@, sel, bc) }),
{
    let mut i: usize = 0;
    while i < t.len()
        invariant
            i <= t@.len(),
            forall|k: int| 0 <= k < i ==> !((#[trigger] t@[k]).fr == sel && t@[k].to == bc && (promo_only ==> t@[k].promo is Some)),
        decreases t@.len() - i,
    {
        let m = t[i];
        if m.fr.0 == sel.0 && m.fr.1 == sel.1 && m.to.0 == bc.0 && m.to.1 == bc.1 && (!promo_only || m.promo.is_some()) {
            assert(t@[i as int].fr == sel && t@[i as int].to == bc);
            return true;
        }
        i += 1;
    }
    false
}

fn find_move(t: &Vec<Mv>, fr: (usize, usize), to: (usize, usize), promo: Option<Kind>) -> (r: Option<Mv>)
    ensures r == first_move(t@, fr, to, promo),
{
    let mut i: usize = 0;
    assert(t@.skip(0) =~= t@);
    while i < t.len()
        invariant i <= t@.len(), first_move(t@, fr, to, promo) == first_move(t@.skip(i as int), fr, to, promo),
        decreases t@.len() - i,
    {
        let m = t[i];
        assert(t@.skip(i as int)[0] == m);
        assert(t@.skip(i as int).drop_first() =~= t@.skip(i + 1));
        if m.fr.0 == fr.0 && m.fr.1 == fr.1 && m.to.0 == to.0 && m.to.1 == to.1 && m.promo == promo {
            return Some(m);
        }
        i += 1;
    }
    None
}

fn moves_from_sq(s: &Vec<Mv>, sq: (usize, usize)) -> (r: Vec<Mv>)
    ensures r@ == moves_from(s@, sq),
{
    let mut r: Vec<Mv> = Vec::new();
    let mut i: usize = 0;
    while i < s.len()
        invariant i <= s@.len(), r@ == moves_from(s@.take(i as int), sq),
        decreases s@.len() - i,
    {
        let m = s[i];
        assert(s@.take(i + 1).drop_last() =~= s@.take(i as int));
        assert(s@.take(i + 1).last() == m);
        if m.fr.0 == sq.0 && m.fr.1 == sq.1 {
            r.push(m);
        }
        i += 1;
    }
    assert(s@.take(s@.len() as int) =~= s@);
    r
}

fn contains_mv(s: &Vec<Mv>, mv: Mv) -> (r: bool)
    ensures r == s@.contains(mv),
{
    let mut i: usize = 0;
    while i < s.len()
        invariant i <= s@.len(), forall|k: int| 0 <= k < i ==> s@[k] != mv,
        decreases s@.len() - i,
    {
        if s[i] == mv {
            return true;
        }
        i += 1;
    }
    false
}

impl ClientGame {
    fn room_to_play(&self) -> (r: bool)
        ensures r == can_play(self.view()),
    {
        let black = match self.gs.turn { Color::Black => true, Color::White => false };
        self.gs.history.len() < usize::MAX && self.gs.cap_w.len() < usize::MAX && self.gs.cap_b.len() < usize::MAX
            && (!black || self.gs.fullmove < u32::MAX) && self.replay_snaps.len() < usize::MAX
            && self.undo_stack.len() <= 200
    }

    /// Plays `mv` when it is legal and there is room (see `play_if`).
    pub fn play_if_legal(&mut self, mv: Mv, ms: u64) -> (a: GameAction)
        ensures (final(self).view(), a) == play_if(old(self).view(), mv, ms),
    {
        let all = legal(&self.gs.board, self.gs.turn, self.gs.ep, &self.gs.cast);
        if contains_mv(&all, mv) && self.room_to_play() {
            self.execute(mv, ms);
            GameAction::Moved(mv)
        } else {
            GameAction::Nothing
        }
    }

    pub(crate) fn pick(&mut self, bc: (usize, usize))
        ensures final(self).view() == (ClientView { selected: Some(bc), targets: moves_from(legal_now(old(self).view()), bc), ..old(self).view() }),
    {
        let ghost v0 = self.view();
        let all = legal(&self.gs.board, self.gs.turn, self.gs.ep, &self.gs.cast);
        self.targets = moves_from_sq(&all, bc);
        self.selected = Some(bc);
        assert(self.view() =~= (ClientView { selected: Some(bc), targets: moves_from(legal_now(v0), bc), ..v0 }));
    }

    pub(crate) fn clear_selection(&mut self)
        ensures final(self).view() == (ClientView { selected: None, targets: Seq::empty(), ..old(self).view() }),
    {
        let ghost v0 = self.view();
        self.selected = None;
        self.targets = Vec::new();
        assert(self.view() =~= (ClientView { selected: None, targets: Seq::empty(), ..v0 }));
    }

    fn open_promo(&mut self, sel: (usize, usize), bc: (usize, usize))
        ensures final(self).view() == (ClientView { promo_from: sel, promo_to: bc, promo_cur: 0, screen: Screen::Promo, ..old(self).view() }),
    {
        let ghost v0 = self.view();
        self.promo_from = sel;
        self.promo_to = bc;
        self.promo_cur = 0;
        self.screen = Screen::Promo;
        assert(self.view() =~= (ClientView { promo_from: sel, promo_to: bc, promo_cur: 0, screen: Screen::Promo, ..v0 }));
    }

    /// Selects on board square `bc` (see `select_view`).
    #[verifier::rlimit(40)]
    pub fn select(&mut self, bc: (usize, usize), ms: u64) -> (a: GameAction)
        requires bc.0 < 8, bc.1 < 8,
        ensures (final(self).view(), a) == select_view(old(self).view(), bc, ms),
    {
        let own = match self.gs.board[bc.0][bc.1] {
            Some(p) => match (p.c, self.gs.turn) { (Color::White, Color::White) | (Color::Black, Color::Black) => true, _ => false },
            None => false,
        };
        match self.selected {
            Some(sel) => {
                if has_target_in(&self.targets, sel, bc, false) {
                    if has_target_in(&self.targets, sel, bc, true) {
                        self.open_promo(sel, bc);
                        return GameAction::Nothing;
                    }
                    match find_move(&self.targets, sel, bc, None) {
                        Some(mv) => {
                            let puzzle = match self.screen { Screen::Puzzle => true, _ => false };
                            self.clear_selection();
                            if puzzle {
                                return GameAction::PuzzleMove(mv);
                            }
                            self.play_if_legal(mv, ms)
                        },
                        None => GameAction::Nothing,
                    }
                } else if own {
                    self.pick(bc);
                    GameAction::Nothing
                } else {
                    self.clear_selection();
                    GameAction::Nothing
                }
            },
            None => {
                if own {
                    self.pick(bc);
                }
                GameAction::Nothing
            },
        }
    }

    /// A key on the promotion picker (see `promo_key_view`).
    #[verifier::rlimit(40)]
    pub fn promo_key(&mut self, key: Key, ms: u64) -> (a: GameAction)
        ensures (final(self).view(), a) == promo_key_view(old(self).view(), key, ms),
    {
        let ghost v0 = self.view();
        match key {
            Key::Left | Key::Char('h') => {
                if self.promo_cur > 0 { self.promo_cur = self.promo_cur - 1; }
                assert(self.view() =~= promo_key_view(v0, key, ms).0);
                GameAction::Nothing
            },
            Key::Right | Key::Char('l') => {
                if self.promo_cur < 3 { self.promo_cur = self.promo_cur + 1; }
                assert(self.view() =~= promo_key_view(v0, key, ms).0);
                GameAction::Nothing
            },
            Key::Enter | Key::Char(' ') => {
                let kind = if self.promo_cur == 0 { Kind::Q } else if self.promo_cur == 1 { Kind::R }
                    else if self.promo_cur == 2 { Kind::B } else { Kind::N };
                let all = legal(&self.gs.board, self.gs.turn, self.gs.ep, &self.gs.cast);
                match find_move(&all, self.promo_from, self.promo_to, Some(kind)) {
                    Some(mv) => {
                        self.screen = Screen::Game;
                        self.clear_selection();
                        assert(self.view() =~= (ClientView { screen: Screen::Game, selected: None, targets: Seq::empty(), ..v0 }));
                        self.play_if_legal(mv, ms)
                    },
                    None => GameAction::Nothing,
                }
            },
            Key::Esc => {
                self.screen = Screen::Game;
                self.clear_selection();
                assert(self.view() =~= promo_key_view(v0, key, ms).0);
                GameAction::Nothing
            },
            _ => GameAction::Nothing,
        }
    }

    fn set_replay_idx(&mut self, i: usize)
        ensures final(self).view() == (ClientView { replay_idx: i, ..old(self).view() }),
    {
        let ghost v0 = self.view();
        self.replay_idx = i;
        assert(self.view() =~= (ClientView { replay_idx: i, ..v0 }));
    }

    fn set_screen(&mut self, sc: Screen)
        ensures final(self).view() == (ClientView { screen: sc, ..old(self).view() }),
    {
        let ghost v0 = self.view();
        self.screen = sc;
        assert(self.view() =~= (ClientView { screen: sc, ..v0 }));
    }

    /// A key on the replay viewer (see `replay_key_view`).
    pub fn replay_key(&mut self, key: Key) -> (a: GameAction)
        ensures (final(self).view(), a) == replay_key_view(old(self).view(), key),
    {
        let n = self.replay_snaps.len();
        let i = self.replay_idx;
        match key {
            Key::Left | Key::Char('h') => { self.set_replay_idx(if i > 0 { i - 1 } else { i }); },
            Key::Right | Key::Char('l') => { self.set_replay_idx(if i < n && n - i > 1 { i + 1 } else { i }); },
            Key::Char('0') | Key::Home => { self.set_replay_idx(0); },
            Key::Char('$') | Key::End => { self.set_replay_idx(if n > 0 { n - 1 } else { 0 }); },
            Key::Char('E') => { return GameAction::ExportPng; },
            Key::Char('G') => { return GameAction::SavePgn; },
            Key::Char('q') | Key::Esc => { self.set_screen(Screen::Game); },
            _ => {},
        }
        GameAction::Nothing
    }

    /// A key on a draw offer (see `draw_key_view`).
    pub fn draw_key(&mut self, key: Key) -> (a: GameAction)
        ensures (final(self).view(), a) == draw_key_view(old(self).view(), key),
    {
        let ghost v0 = self.view();
        match key {
            Key::Char('y') | Key::Char('Y') | Key::Enter => {
                self.gs.status = Status::Stalemate;
                self.game_end = GameEnd::Draw;
                self.draw_offer = None;
                self.screen = Screen::Game;
                assert(self.view() =~= draw_key_view(v0, key).0);
                GameAction::DrawAgreed
            },
            Key::Char('n') | Key::Char('N') | Key::Esc => {
                self.draw_offer = None;
                self.screen = Screen::Game;
                assert(self.view() =~= draw_key_view(v0, key).0);
                GameAction::Nothing
            },
            _ => GameAction::Nothing,
        }
    }
}

/// The cursor after an arrow key: one square that way, staying on the board.
pub open spec fn cursor_after(c: (usize, usize), key: Key) -> (usize, usize) {
    match key {
        Key::Up => if c.0 > 0 { ((c.0 - 1) as usize, c.1) } else { c },
        Key::Down => if c.0 < 7 { ((c.0 + 1) as usize, c.1) } else { c },
        Key::Left => if c.1 > 0 { (c.0, (c.1 - 1) as usize) } else { c },
        Key::Right => if c.1 < 7 { (c.0, (c.1 + 1) as usize) } else { c },
        _ => c,
    }
}

pub open spec fn is_arrow(key: Key) -> bool {
    key == Key::Up || key == Key::Down || key == Key::Left || key == Key::Right
}

/// `hjkl` as arrows.
pub open spec fn vi_arrow(key: Key) -> Key {
    if key == Key::Char('k') { Key::Up } else if key == Key::Char('j') { Key::Down }
    else if key == Key::Char('h') { Key::Left } else if key == Key::Char('l') { Key::Right } else { key }
}

/// A key while a move is being typed: Enter plays it (or says why not), Backspace and Esc
/// edit, the arrows move the cursor, other characters are typed.
pub open spec fn typing_key_view(v: ClientView, key: Key, ms: u64) -> (ClientView, GameAction) {
    if key == Key::Enter {
        if human(v) && !over(v) && !v.thinking {
            match notation_spec(v.gs.board, v.gs.turn, v.gs.ep, v.gs.cast, v.input) {
                Ok(mv) => play_if(ClientView { input: Seq::empty(), input_err: None, selected: None, targets: Seq::empty(), ..v }, mv, ms),
                Err(e) => (ClientView { input_err: Some(e), ..v }, GameAction::Nothing),
            }
        } else {
            (v, GameAction::Nothing)
        }
    } else if key == Key::Backspace {
        let i = v.input.drop_last();
        (ClientView { input: i, input_err: if i.len() == 0 { None } else { v.input_err }, ..v }, GameAction::Nothing)
    } else if key == Key::Esc {
        (ClientView { input: Seq::empty(), input_err: None, ..v }, GameAction::Nothing)
    } else if is_arrow(key) {
        (ClientView { cursor: cursor_after(v.cursor, key), ..v }, GameAction::Nothing)
    } else {
        match key {
            Key::Char(c) => (ClientView { input: v.input.push(c), input_err: None, ..v }, GameAction::Nothing),
            _ => (v, GameAction::Nothing),
        }
    }
}

/// The command keys of the game screen: `q` menu, `n` new game, `s` settings, `u` undo, `E`
/// PNG, `G` PGN, `r` replay, `T` next interface mode, `d` draw offer (between two players at
/// the board when it is their turn in a game that goes on; online it is sent), and online `P`
/// the server panel and `R` resignation. None for any other key.
pub open spec fn command_view(v: ClientView, key: Key) -> Option<(ClientView, GameAction)> {
    let act = human(v) && !over(v) && !v.thinking;
    if key == Key::Char('q') {
        Some((ClientView { screen: Screen::Menu, selected: None, targets: Seq::empty(), ..v }, GameAction::Nothing))
    } else if key == Key::Char('n') {
        Some((v, GameAction::NewGame))
    } else if key == Key::Char('s') {
        Some((ClientView { screen: Screen::Settings, ..v }, GameAction::Nothing))
    } else if key == Key::Char('u') {
        Some((undo_view(v), GameAction::Nothing))
    } else if key == Key::Char('E') {
        Some((v, GameAction::ExportPng))
    } else if key == Key::Char('G') {
        Some((v, GameAction::SavePgn))
    } else if key == Key::Char('r') {
        if v.replay.len() > 0 {
            Some((ClientView { replay_idx: (v.replay.len() - 1) as usize, screen: Screen::Replay, ..v }, GameAction::Nothing))
        } else {
            Some((v, GameAction::Nothing))
        }
    } else if key == Key::Char('T') {
        Some((ClientView { ui_mode: next_ui_mode(v.ui_mode), ..v }, GameAction::Nothing))
    } else if key == Key::Char('d') && v.mode == Mode::PvP && act {
        Some((ClientView { draw_offer: Some(v.gs.turn), screen: Screen::DrawOffer, ..v }, GameAction::Nothing))
    } else if key == Key::Char('d') && v.mode == Mode::Online && human(v) && !over(v) {
        Some((v, GameAction::SendDrawOffer))
    } else if key == Key::Char('P') && v.mode == Mode::Online {
        Some((ClientView { screen: Screen::ServerPanel, ..v }, GameAction::Nothing))
    } else if key == Key::Char('R') && v.mode == Mode::Online && !over(v) {
        Some((ClientView { gs: GsView { status: Status::Checkmate, ..v.gs }, ..v }, GameAction::Resign))
    } else {
        None
    }
}

/// The other keys of the game screen: arrows or `hjkl` move the cursor, Enter or space select
/// the square under it, Esc drops the selection, and any other character starts typing a
/// move, when it is this keyboard's turn in a game that goes on.
pub open spec fn other_key_view(v: ClientView, key: Key, ms: u64) -> (ClientView, GameAction) {
    let act = human(v) && !over(v) && !v.thinking;
    if is_arrow(vi_arrow(key)) {
        (ClientView { cursor: cursor_after(v.cursor, vi_arrow(key)), ..v }, GameAction::Nothing)
    } else if key == Key::Enter || key == Key::Char(' ') {
        if act { select_view(v, to_board(v, v.cursor), ms) } else { (v, GameAction::Nothing) }
    } else if key == Key::Esc {
        (ClientView { selected: None, targets: Seq::empty(), ..v }, GameAction::Nothing)
    } else {
        match key {
            Key::Char(c) => if act { (ClientView { input: v.input.push(c), input_err: None, ..v }, GameAction::Nothing) }
                else { (v, GameAction::Nothing) },
            _ => (v, GameAction::Nothing),
        }
    }
}

/// A key on the game screen: while a move is being typed see `typing_key_view`, else a
/// command (`command_view`) or one of the other keys (`other_key_view`).
pub open spec fn game_key_view(v: ClientView, key: Key, ms: u64) -> (ClientView, GameAction) {
    if v.input.len() > 0 {
        typing_key_view(v, key, ms)
    } else {
        match command_view(v, key) {
            Some(r) => r,
            None => other_key_view(v, key, ms),
        }
    }
}

impl ClientGame {
    fn is_over(&self) -> (r: bool)
        ensures r == over(self.view()),
    {
        let mate = match self.gs.status { Status::Checkmate | Status::Stalemate => true, _ => false };
        let flag = match self.gs.clock_state { ClockState::Flagged => true, _ => false };
        mate || flag
    }

    fn is_human(&self) -> (r: bool)
        ensures r == human(self.view()),
    {
        match self.mode {
            Mode::PvP => true,
            Mode::CPU => match (self.gs.turn, self.player_color) {
                (Color::White, Color::White) | (Color::Black, Color::Black) => true,
                _ => false,
            },
            Mode::Online => match (self.online_color, self.gs.turn) {
                (Some(Color::White), Color::White) | (Some(Color::Black), Color::Black) => true,
                _ => false,
            },
        }
    }

    pub(crate) fn board_square(&self) -> (bc: (usize, usize))
        requires self.cursor.0 < 8, self.cursor.1 < 8,
        ensures bc == to_board(self.view(), self.cursor), bc.0 < 8, bc.1 < 8,
    {
        let black = match self.gs.turn { Color::Black => true, Color::White => false };
        let cpu = match self.mode { Mode::CPU => true, _ => false };
        let pvp = match self.mode { Mode::PvP => true, _ => false };
        let pb = match self.player_color { Color::Black => true, Color::White => false };
        if self.flip_board || (cpu && pb) || (pvp && self.auto_flip && black) {
            (7 - self.cursor.0, 7 - self.cursor.1)
        } else {
            self.cursor
        }
    }

    fn set_cursor(&mut self, c: (usize, usize))
        ensures final(self).view() == (ClientView { cursor: c, ..old(self).view() }),
    {
        let ghost v0 = self.view();
        self.cursor = c;
        assert(self.view() =~= (ClientView { cursor: c, ..v0 }));
    }

    fn set_input(&mut self, i: Vec<char>, e: Option<String>)
        ensures final(self).view() == (ClientView { input: i@, input_err: opt_text(e), ..old(self).view() }),
    {
        let ghost v0 = self.view();
        self.input = i;
        self.input_err = e;
        assert(self.view() =~= (ClientView { input: i@, input_err: opt_text(e), ..v0 }));
    }

    fn moved_cursor(&self, key: Key) -> (c: (usize, usize))
        ensures c == cursor_after(self.cursor, key),
    {
        let c = self.cursor;
        match key {
            Key::Up => if c.0 > 0 { (c.0 - 1, c.1) } else { c },
            Key::Down => if c.0 < 7 { (c.0 + 1, c.1) } else { c },
            Key::Left => if c.1 > 0 { (c.0, c.1 - 1) } else { c },
            Key::Right => if c.1 < 7 { (c.0, c.1 + 1) } else { c },
            _ => c,
        }
    }

    /// A key while a move is being typed (see `typing_key_view`).
    #[verifier::rlimit(40)]
    fn typing_key(&mut self, key: Key, ms: u64) -> (a: GameAction)
        requires old(self).input@.len() > 0,
        ensures (final(self).view(), a) == typing_key_view(old(self).view(), key, ms),
    {
        let ghost v0 = self.view();
        match key {
            Key::Enter => {
                if self.is_human() && !self.is_over() && !self.thinking {
                    let text: String = crate::text::string_of(&self.input);
                    match parse_notation(&self.gs.board, self.gs.turn, self.gs.ep, &self.gs.cast, text.as_str()) {
                        Ok(mv) => {
                            self.set_input(Vec::new(), None);
                            self.clear_selection();
                            assert(self.view() =~= (ClientView { input: Seq::empty(), input_err: None, selected: None, targets: Seq::empty(), ..v0 }));
                            self.play_if_legal(mv, ms)
                        },
                        Err(e) => {
                            let i = self.input.clone();
                            assert(i@ =~= v0.input);
                            self.set_input(i, Some(e));
                            GameAction::Nothing
                        },
                    }
                } else {
                    GameAction::Nothing
                }
            },
            Key::Backspace => {
                let mut i = self.input.clone();
                assert(i@ =~= v0.input);
                i.pop();
                assert(i@ =~= v0.input.drop_last());
                let e = if i.len() == 0 { None } else { self.input_err.clone() };
                assert(opt_text(e) == (if i@.len() == 0 { None } else { v0.input_err }));
                self.set_input(i, e);
                GameAction::Nothing
            },
            Key::Esc => {
                self.set_input(Vec::new(), None);
                GameAction::Nothing
            },
            Key::Up | Key::Down | Key::Left | Key::Right => {
                let c = self.moved_cursor(key);
                self.set_cursor(c);
                GameAction::Nothing
            },
            Key::Char(c) => {
                let mut i = self.input.clone();
                assert(i@ =~= v0.input);
                i.push(c);
                assert(i@ =~= v0.input.push(c));
                self.set_input(i, None);
                GameAction::Nothing
            },
            _ => GameAction::Nothing,
        }
    }

    /// A command key (see `command_view`); false, with nothing changed, for another key.
    #[verifier::rlimit(80)]
    fn command_key(&mut self, key: Key) -> (r: (bool, GameAction))
        ensures
            match command_view(old(self).view(), key) {
                Some((nv, na)) => r.0 && final(self).view() == nv && r.1 == na,
                None => !r.0 && final(self).view() == old(self).view(),
            },
    {
        let ghost v0 = self.view();
        let act = self.is_human() && !self.is_over() && !self.thinking;
        let online = match self.mode { Mode::Online => true, _ => false };
        let pvp = match self.mode { Mode::PvP => true, _ => false };
        match key {
            Key::Char('q') => { self.set_screen(Screen::Menu); self.clear_selection(); (true, GameAction::Nothing) },
            Key::Char('n') => (true, GameAction::NewGame),
            Key::Char('s') => { self.set_screen(Screen::Settings); (true, GameAction::Nothing) },
            Key::Char('u') => { self.undo(); (true, GameAction::Nothing) },
            Key::Char('E') => (true, GameAction::ExportPng),
            Key::Char('G') => (true, GameAction::SavePgn),
            Key::Char('r') => {
                if self.replay_snaps.len() > 0 {
                    let n = self.replay_snaps.len();
                    self.set_replay_idx(n - 1);
                    self.set_screen(Screen::Replay);
                }
                (true, GameAction::Nothing)
            },
            Key::Char('T') => { self.cycle_ui_mode(); (true, GameAction::Nothing) },
            Key::Char('d') => {
                if pvp && act {
                    let t = self.gs.turn;
                    self.draw_offer = Some(t);
                    self.screen = Screen::DrawOffer;
                    assert(self.view() =~= (ClientView { draw_offer: Some(v0.gs.turn), screen: Screen::DrawOffer, ..v0 }));
                    (true, GameAction::Nothing)
                } else if online && self.is_human() && !self.is_over() {
                    (true, GameAction::SendDrawOffer)
                } else {
                    (false, GameAction::Nothing)
                }
            },
            Key::Char('P') => {
                if online { self.set_screen(Screen::ServerPanel); (true, GameAction::Nothing) } else { (false, GameAction::Nothing) }
            },
            Key::Char('R') => {
                if online && !self.is_over() {
                    self.gs.status = Status::Checkmate;
                    assert(self.view() =~= (ClientView { gs: GsView { status: Status::Checkmate, ..v0.gs }, ..v0 }));
                    (true, GameAction::Resign)
                } else {
                    (false, GameAction::Nothing)
                }
            },
            _ => (false, GameAction::Nothing),
        }
    }

    /// One of the other keys (see `other_key_view`).
    #[verifier::rlimit(40)]
    fn other_key(&mut self, key: Key, ms: u64) -> (a: GameAction)
        requires old(self).cursor.0 < 8, old(self).cursor.1 < 8,
        ensures (final(self).view(), a) == other_key_view(old(self).view(), key, ms),
    {
        let ghost v0 = self.view();
        let act = self.is_human() && !self.is_over() && !self.thinking;
        match key {
            Key::Up | Key::Char('k') => { let c = self.moved_cursor(Key::Up); self.set_cursor(c); GameAction::Nothing },
            Key::Down | Key::Char('j') => { let c = self.moved_cursor(Key::Down); self.set_cursor(c); GameAction::Nothing },
            Key::Left | Key::Char('h') => { let c = self.moved_cursor(Key::Left); self.set_cursor(c); GameAction::Nothing },
            Key::Right | Key::Char('l') => { let c = self.moved_cursor(Key::Right); self.set_cursor(c); GameAction::Nothing },
            Key::Enter | Key::Char(' ') => {
                if act {
                    let bc = self.board_square();
                    self.select(bc, ms)
                } else {
                    GameAction::Nothing
                }
            },
            Key::Esc => { self.clear_selection(); GameAction::Nothing },
            Key::Char(c) => {
                if act {
                    let mut i = self.input.clone();
                    assert(i@ =~= v0.input);
                    i.push(c);
                    assert(i@ =~= v0.input.push(c));
                    self.set_input(i, None);
                }
                GameAction::Nothing
            },
            _ => GameAction::Nothing,
        }
    }

    /// A key on the game screen (see `game_key_view`); `ms` is the time the side to move has
    /// taken, for a move the key plays.
    pub fn game_key(&mut self, key: Key, ms: u64) -> (a: GameAction)
        requires old(self).cursor.0 < 8, old(self).cursor.1 < 8,
        ensures (final(self).view(), a) == game_key_view(old(self).view(), key, ms),
    {
        if self.input.len() > 0 {
            return self.typing_key(key, ms);
        }
        let (handled, a) = self.command_key(key);
        if handled {
            return a;
        }
        self.other_key(key, ms)
    }
}

/// What the front end has to do after a message from the server.
#[derive(Clone, Debug)]
pub enum NetAction {
    Nothing,
    /// The opponent's move was played.
    Moved(Mv),
    /// Our new room has this code: show it and keep the session for a rejoin.
    ShowRoom(String),
    /// Both players are here: start the game with the room's time control.
    StartGame,
    /// Keep the session (room, colour, token) for a rejoin.
    SaveSession,
    /// The game is over: forget the session.
    ClearSession,
    /// The connection is gone.
    ConnectionLost,
    /// Show the server's error.
    ShowError(String),
    /// A keep-alive answer came back.
    PongReceived,
}

pub enum NetActionView {
    Nothing,
    Moved(Mv),
    ShowRoom(Seq<char>),
    StartGame,
    SaveSession,
    ClearSession,
    ConnectionLost,
    ShowError(Seq<char>),
    PongReceived,
}

pub open spec fn net_action_view(a: NetAction) -> NetActionView {
    match a {
        NetAction::Nothing => NetActionView::Nothing,
        NetAction::Moved(m) => NetActionView::Moved(m),
        NetAction::ShowRoom(c) => NetActionView::ShowRoom(c@),
        NetAction::StartGame => NetActionView::StartGame,
        NetAction::SaveSession => NetActionView::SaveSession,
        NetAction::ClearSession => NetActionView::ClearSession,
        NetAction::ConnectionLost => NetActionView::ConnectionLost,
        NetAction::ShowError(e) => NetActionView::ShowError(e@),
        NetAction::PongReceived => NetActionView::PongReceived,
    }
}

/// A move text without its trailing check and mate marks.
pub open spec fn strip_marks(s: Seq<char>) -> Seq<char>
    decreases s.len(),
{
    if s.len() > 0 && (s.last() == '+' || s.last() == '#') { strip_marks(s.drop_last()) } else { s }
}

/// A message from the server in an online game: our room's code, our colour, the start, the
/// opponent's moves (played when the game screen is up and the move reads as a legal one),
/// draw offers and answers, resignation, and the connection's state.
pub open spec fn net_msg_view(v: ClientView, m: NetMsgView, ms: u64) -> (ClientView, NetActionView) {
    match m {
        NetMsgView::RoomCreated(code) => (ClientView { screen: Screen::OnlineWaiting, ..v }, NetActionView::ShowRoom(code)),
        NetMsgView::Joined(color) => {
            let c = if color == "white"@ { Color::White } else { Color::Black };
            (ClientView { online_color: Some(c), player_color: c, ..v }, NetActionView::SaveSession)
        },
        NetMsgView::Start => (v, NetActionView::StartGame),
        NetMsgView::OpponentMove(uci) => if v.screen == Screen::Game {
            match notation_spec(v.gs.board, v.gs.turn, v.gs.ep, v.gs.cast, strip_marks(uci)) {
                Ok(mv) => {
                    let (v1, a) = play_if(v, mv, ms);
                    (v1, match a { GameAction::Moved(m) => NetActionView::Moved(m), _ => NetActionView::Nothing })
                },
                Err(_) => (v, NetActionView::Nothing),
            }
        } else {
            (v, NetActionView::Nothing)
        },
        NetMsgView::DrawOffer => (ClientView { draw_offer: Some(v.gs.turn), screen: Screen::DrawOffer, ..v }, NetActionView::Nothing),
        NetMsgView::DrawAccepted => (ClientView { gs: GsView { status: Status::Stalemate, ..v.gs }, game_end: GameEnd::Draw, ..v },
            NetActionView::ClearSession),
        NetMsgView::DrawDeclined => (ClientView { draw_offer: None, screen: Screen::Game, ..v }, NetActionView::Nothing),
        NetMsgView::OpponentResigned => (ClientView { gs: GsView { status: Status::Checkmate, ..v.gs }, ..v }, NetActionView::ClearSession),
        NetMsgView::Disconnected => (v, NetActionView::ConnectionLost),
        NetMsgView::Error(e) => (v, NetActionView::ShowError(e)),
        NetMsgView::Pong => (v, NetActionView::PongReceived),
    }
}

fn strip_marks_of(s: &str) -> (r: Vec<char>)
    ensures r@ == strip_marks(s@),
{
    let cs = chars_of(s);
    let mut n: usize = cs.len();
    assert(cs@.take(n as int) =~= cs@);
    while n > 0 && (cs[n - 1] == '+' || cs[n - 1] == '#')
        invariant n <= cs@.len(), strip_marks(cs@) == strip_marks(cs@.take(n as int)),
        decreases n,
    {
        assert(cs@.take(n as int).drop_last() =~= cs@.take(n - 1));
        n = n - 1;
    }
    slice(&cs, 0, n)
}

impl ClientGame {
    fn set_status(&mut self, st: Status)
        ensures final(self).view() == (ClientView { gs: GsView { status: st, ..old(self).view().gs }, ..old(self).view() }),
    {
        let ghost v0 = self.view();
        self.gs.status = st;
        assert(self.view() =~= (ClientView { gs: GsView { status: st, ..v0.gs }, ..v0 }));
    }

    /// A message from the server (see `net_msg_view`); `ms` is the time the opponent took,
    /// for a move.
    #[verifier::rlimit(40)]
    pub fn on_net_msg(&mut self, msg: NetMsg, ms: u64) -> (a: NetAction)
        ensures (final(self).view(), net_action_view(a)) == net_msg_view(old(self).view(), msg_view(msg), ms),
    {
        let ghost v0 = self.view();
        match msg {
            NetMsg::RoomCreated(code) => {
                self.set_screen(Screen::OnlineWaiting);
                NetAction::ShowRoom(code)
            },
            NetMsg::Joined { color } => {
                let c = if eq_lit(&chars_of(color.as_str()), "white") { Color::White } else { Color::Black };
                self.online_color = Some(c);
                self.player_color = c;
                assert(self.view() =~= net_msg_view(v0, msg_view(NetMsg::Joined { color }), ms).0);
                NetAction::SaveSession
            },
            NetMsg::Start => NetAction::StartGame,
            NetMsg::OpponentMove(uci) => {
                let game = match self.screen { Screen::Game => true, _ => false };
                if !game {
                    return NetAction::Nothing;
                }
                let clean = string_of(&strip_marks_of(uci.as_str()));
                match parse_notation(&self.gs.board, self.gs.turn, self.gs.ep, &self.gs.cast, clean.as_str()) {
                    Ok(mv) => match self.play_if_legal(mv, ms) {
                        GameAction::Moved(m) => NetAction::Moved(m),
                        _ => NetAction::Nothing,
                    },
                    Err(_) => NetAction::Nothing,
                }
            },
            NetMsg::DrawOffer => {
                let t = self.gs.turn;
                self.draw_offer = Some(t);
                self.set_screen(Screen::DrawOffer);
                assert(self.view() =~= net_msg_view(v0, NetMsgView::DrawOffer, ms).0);
                NetAction::Nothing
            },
            NetMsg::DrawAccepted => {
                self.set_status(Status::Stalemate);
                self.game_end = GameEnd::Draw;
                assert(self.view() =~= net_msg_view(v0, NetMsgView::DrawAccepted, ms).0);
                NetAction::ClearSession
            },
            NetMsg::DrawDeclined => {
                self.draw_offer = None;
                self.set_screen(Screen::Game);
                assert(self.view() =~= net_msg_view(v0, NetMsgView::DrawDeclined, ms).0);
                NetAction::Nothing
            },
            NetMsg::OpponentResigned => {
                self.set_status(Status::Checkmate);
                NetAction::ClearSession
            },
            NetMsg::Disconnected => NetAction::ConnectionLost,
            NetMsg::Error(e) => NetAction::ShowError(e),
            NetMsg::Pong => NetAction::PongReceived,
        }
    }
}

} // verus!
