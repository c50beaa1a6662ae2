//! The game in progress: its clocks, how it ended, the moves handed to the analysis engine,
//! and which moves came from the opening book.
use vstd::prelude::*;
use crate::engine::{Board, Castle, Color, Kind, Mv, Piece, Status, legal_spec, apply, apply_board, apply_ep, apply_castle,
    game_status, status_spec, mv_to_san, san_spec, file_char, rank_char, ep_cap_row, moved_piece};
use crate::game::{Gs, GsView, gs_view, hist_view, GameEnd, ClockState, HistEntry};
use crate::book::{book_move, book_move_spec, played};
use crate::num::{push_dec, dec_spec};
use crate::network::starts_with_lit;
use crate::text::{chars_of, push_char, push_str, owned, string_of, slice};

verus! {

// ── Clocks ───────────────────────────────────────────────────────────────────

/// A clock after `elapsed` milliseconds: it stops at zero; no clock stays none.
pub open spec fn clock_after(ms: Option<u64>, elapsed: u64) -> Option<u64> {
    match ms { Some(m) => Some(if m > elapsed { (m - elapsed) as u64 } else { 0 }), None => None }
}

/// Whether the clock of the side to move runs: the game's clocks run and it is not over.
pub open spec fn clock_runs(g: Gs) -> bool {
    g.clock_state == ClockState::Running && g.status != Status::Checkmate && g.status != Status::Stalemate
}

/// The mark a move's notation ends with: `#` for mate, `+` for check.
pub open spec fn status_mark(st: Status) -> Seq<char> {
    match st { Status::Checkmate => "#"@, Status::Check => "+"@, _ => Seq::empty() }
}

/// The coordinate notation of a move in the history: from and to squares, the promotion
/// letter in capitals, and the check or mate mark.
pub open spec fn coord_note(mv: Mv, st: Status) -> Seq<char> {
    seq![file_char(mv.fr.1 as int), rank_char(mv.fr.0 as int), file_char(mv.to.1 as int), rank_char(mv.to.0 as int)]
        + match mv.promo {
            Some(k) => seq![if k == Kind::Q { 'Q' } else if k == Kind::R { 'R' } else if k == Kind::B { 'B' } else { 'N' }],
            None => Seq::empty(),
        }
        + status_mark(st)
}

/// The piece a move takes: the one on its target square, else for en passant the pawn
/// behind it.
pub open spec fn taken_piece(b: Board, mv: Mv) -> Option<Piece> {
    match b[mv.to.0 as int][mv.to.1 as int] {
        Some(t) => Some(t),
        None => if mv.ep { b[ep_cap_row(moved_piece(b, mv), mv)][mv.to.1 as int] } else { None },
    }
}

/// The game after the legal move `mv`.
pub open spec fn played_spec(g: Gs, mv: Mv) -> (Board, Color, Option<(usize, usize)>, Castle, Status) {
    let nb = apply_board(g.board, mv);
    let ne = apply_ep(g.board, mv);
    let nc = apply_castle(g.board, mv, g.cast);
    let next = g.turn.opp();
    (nb, next, ne, nc, status_spec(nb, next, ne, nc))
}

/// What playing the legal move `mv`, which took `ms` milliseconds, makes of the game `o`:
/// the position, side to move, en passant square, castling rights and status move on; a taken
/// piece goes to the mover's captures (`cap_w` for White); the history gets the move's
/// coordinate notation and its SAN, both with the check or mate mark; the move number grows
/// after Black's move; and paused clocks start unless the move ended the game.
pub open spec fn play_view(o: GsView, mv: Mv, ms: u64) -> GsView {
    let nb = apply_board(o.board, mv);
    let ne = apply_ep(o.board, mv);
    let nc = apply_castle(o.board, mv, o.cast);
    let next = o.turn.opp();
    let st = status_spec(nb, next, ne, nc);
    let taken = taken_piece(o.board, mv);
    GsView {
        board: nb, turn: next, ep: ne, cast: nc, status: st,
        history: o.history.push((coord_note(mv, st), san_spec(o.board, mv, o.ep, o.cast) + status_mark(st), o.turn,
            mv.fr, mv.to, ms)),
        cap_w: match taken { Some(t) => if o.turn == Color::White { o.cap_w.push(t) } else { o.cap_w }, None => o.cap_w },
        cap_b: match taken { Some(t) => if o.turn == Color::Black { o.cap_b.push(t) } else { o.cap_b }, None => o.cap_b },
        fullmove: if next == Color::White { (o.fullmove + 1) as u32 } else { o.fullmove },
        white_ms: o.white_ms,
        black_ms: o.black_ms,
        clock_state: if o.clock_state == ClockState::Paused && st != Status::Checkmate && st != Status::Stalemate
            && o.white_ms.is_some() { ClockState::Running } else { o.clock_state },
    }
}


fn mark_str(st: Status) -> (s: &'static str)
    ensures s@ == status_mark(st),
{
    proof { reveal_strlit("#"); reveal_strlit("+"); reveal_strlit(""); }
    match st { Status::Checkmate => "#", Status::Check => "+", _ => "" }
}

impl Gs {
    /// Plays the legal move `mv`, which took `move_time_ms`: the position, side to move, en
    /// passant square, castling rights and status move on; a taken piece goes to the mover's
    /// captures (`cap_w` for White); the history gets the move's coordinate notation and its
    /// SAN, both with the check or mate mark; the move number grows after Black's move; and
    /// paused clocks start unless the move ended the game.
    pub fn play(&mut self, mv: Mv, move_time_ms: u64)
        requires
            legal_spec(old(self).board, old(self).turn, old(self).ep, old(self).cast).contains(mv),
            old(self).history@.len() < usize::MAX,
            old(self).cap_w@.len() < usize::MAX, old(self).cap_b@.len() < usize::MAX,
            old(self).turn == Color::Black ==> old(self).fullmove < u32::MAX,
        ensures gs_view(*final(self)) == play_view(gs_view(*old(self)), mv, move_time_ms),
    {
        proof { crate::ai::lemma_legal_props(self.board, self.turn, self.ep, self.cast, mv); }
        let piece = match self.board[mv.fr.0][mv.fr.1] { Some(p) => p, None => return };
        let cap = match self.board[mv.to.0][mv.to.1] {
            Some(t) => Some(t),
            None => if mv.ep {
                let cr = if piece.c == Color::White { mv.to.0 + 1 } else { mv.to.0 - 1 };
                self.board[cr][mv.to.1]
            } else { None },
        };
        let san = mv_to_san(&self.board, &mv, self.ep, &self.cast);
        let (nb, ne, nc) = apply(&self.board, &mv, self.ep, &self.cast);
        let next = piece.c.opp();
        let new_s = game_status(&nb, next, ne, &nc);
        match cap {
            Some(c) => { if piece.c == Color::White { self.cap_w.push(c); } else { self.cap_b.push(c); } },
            None => {},
        }
        let mark = mark_str(new_s);
        let mut note = String::new();
        push_char(&mut note, (97u8 + mv.fr.1 as u8) as char);
        push_char(&mut note, (48u8 + (8 - mv.fr.0) as u8) as char);
        push_char(&mut note, (97u8 + mv.to.1 as u8) as char);
        push_char(&mut note, (48u8 + (8 - mv.to.0) as u8) as char);
        match mv.promo {
            Some(k) => push_char(&mut note, match k { Kind::Q => 'Q', Kind::R => 'R', Kind::B => 'B', _ => 'N' }),
            None => {},
        }
        push_str(&mut note, mark);
        let mut san_full = san;
        push_str(&mut san_full, mark);
        assert(note@ =~= coord_note(mv, new_s));
        let ghost h0 = self.history@;
        self.history.push(HistEntry { notation: note, san: san_full, color: piece.c, from: mv.fr, to: mv.to, move_time_ms });
        assert(self.history@ =~= h0.push(self.history@.last()));
        self.board = nb;
        self.turn = next;
        self.ep = ne;
        self.cast = nc;
        self.status = new_s;
        if next == Color::White {
            self.fullmove = self.fullmove + 1;
        }
        let paused = match self.clock_state { ClockState::Paused => true, _ => false };
        let over = match new_s { Status::Checkmate | Status::Stalemate => true, _ => false };
        if paused && !over && self.white_ms.is_some() {
            self.clock_state = ClockState::Running;
        }
        assert(gs_view(*self).history =~= gs_view(*old(self)).history.push(hist_view(self.history@.last())));
        assert(gs_view(*self) =~= play_view(gs_view(*old(self)), mv, move_time_ms));
    }

    /// Takes `elapsed_ms` off the clock of the side to move, while the clocks run; true
    /// when that clock reached zero, and the clocks then count as flagged.
    pub fn tick_clock(&mut self, elapsed_ms: u64) -> (flagged: bool)
        ensures
            flagged == (clock_runs(*old(self)) && clock_after(if old(self).turn == Color::White { old(self).white_ms }
                else { old(self).black_ms }, elapsed_ms) == Some(0u64)),
            final(self).white_ms == (if clock_runs(*old(self)) && old(self).turn == Color::White {
                clock_after(old(self).white_ms, elapsed_ms) } else { old(self).white_ms }),
            final(self).black_ms == (if clock_runs(*old(self)) && old(self).turn == Color::Black {
                clock_after(old(self).black_ms, elapsed_ms) } else { old(self).black_ms }),
            final(self).clock_state == (if flagged { ClockState::Flagged } else { old(self).clock_state }),
            final(self).board == old(self).board, final(self).turn == old(self).turn, final(self).ep == old(self).ep,
            final(self).cast == old(self).cast, final(self).status == old(self).status,
            final(self).history@ == old(self).history@, final(self).fullmove == old(self).fullmove,
            final(self).cap_w@ == old(self).cap_w@, final(self).cap_b@ == old(self).cap_b@,
    {
        let running = match self.clock_state { ClockState::Running => true, _ => false };
        if !running {
            return false;
        }
        let over = match self.status { Status::Checkmate | Status::Stalemate => true, _ => false };
        if over {
            return false;
        }
        let white = match self.turn { Color::White => true, Color::Black => false };
        let cur = if white { self.white_ms } else { self.black_ms };
        let flagged = match cur {
            Some(m) => {
                let left = if m > elapsed_ms { m - elapsed_ms } else { 0 };
                if white { self.white_ms = Some(left); } else { self.black_ms = Some(left); }
                left == 0
            },
            None => false,
        };
        if flagged {
            self.clock_state = ClockState::Flagged;
        }
        flagged
    }
}

// ── The end of a game ────────────────────────────────────────────────────────

pub open spec fn colour_name(c: Color) -> Seq<char> {
    if c == Color::White { "WHITE"@ } else { "BLACK"@ }
}

/// What a finished game's replay says of its end: who won on time or by mate, a draw or a
/// stalemate, else nothing.
pub open spec fn result_text_spec(end: GameEnd, status: Status, turn: Color) -> Seq<char> {
    let winner = if turn == Color::White { Color::Black } else { Color::White };
    match end {
        GameEnd::Flag => colour_name(winner) + " wins on time"@,
        GameEnd::Draw => "\u{bd}-\u{bd} Draw"@,
        GameEnd::Normal => match status {
            Status::Checkmate => colour_name(winner) + " wins"@,
            Status::Stalemate => "\u{bd}-\u{bd} Stalemate"@,
            _ => Seq::empty(),
        },
    }
}

pub fn result_text(end: GameEnd, status: Status, turn: Color) -> (s: String)
    ensures s@ == result_text_spec(end, status, turn),
{
    let winner = turn.opp();
    match end {
        GameEnd::Flag => {
            let mut s = owned(winner.name());
            push_str(&mut s, " wins on time");
            s
        },
        GameEnd::Draw => owned("\u{bd}-\u{bd} Draw"),
        GameEnd::Normal => match status {
            Status::Checkmate => {
                let mut s = owned(winner.name());
                push_str(&mut s, " wins");
                s
            },
            Status::Stalemate => owned("\u{bd}-\u{bd} Stalemate"),
            _ => {
                proof { reveal_strlit(""); }
                owned("")
            },
        },
    }
}

// ── Moves for the analysis engine ────────────────────────────────────────────

/// A move's notation without trailing check and mate marks: its UCI text.
pub open spec fn marks_stripped(s: Seq<char>) -> Seq<char>
    decreases s.len(),
{
    if s.len() > 0 && (s.last() == '+' || s.last() == '#') { marks_stripped(s.drop_last()) } else { s }
}

/// Texts joined with single spaces.
pub open spec fn join_spaced(m: Seq<Seq<char>>) -> Seq<char>
    decreases m.len(),
{
    if m.len() == 0 { Seq::empty() } else if m.len() == 1 { m[0] } else { join_spaced(m.drop_last()) + seq![' '] + m.last() }
}

pub open spec fn history_ucis(h: Seq<HistEntry>) -> Seq<Seq<char>> {
    h.map_values(|e: HistEntry| marks_stripped(e.notation@))
}

fn strip_check_marks(s: &str) -> (r: Vec<char>)
    ensures r@ == marks_stripped(s@),
{
    let c = chars_of(s);
    let mut n: usize = c.len();
    assert(c@.take(n as int) =~= c@);
    while n > 0 && (c[n - 1] == '+' || c[n - 1] == '#')
        invariant n <= c@.len(), c@ == s@, marks_stripped(s@) == marks_stripped(c@.take(n as int)),
        decreases n,
    {
        assert(c@.take(n as int).drop_last() =~= c@.take(n - 1));
        n -= 1;
    }
    let r = slice(&c, 0, n);
    assert(r@ =~= c@.take(n as int));
    r
}

/// The UCI moves of the first `n` history entries, separated by spaces: what the analysis
/// engine replays.
pub fn history_uci(h: &Vec<HistEntry>, n: usize) -> (s: String)
    requires n <= h@.len(),
    ensures s@ == join_spaced(history_ucis(h@.take(n as int))),
{
    let ghost all = history_ucis(h@);
    let mut s = String::new();
    let mut i: usize = 0;
    while i < n
        invariant i <= n, n <= h@.len(), all == history_ucis(h@), s@ == join_spaced(history_ucis(h@.take(i as int))),
        decreases n - i,
    {
        let ghost before = s@;
        if i > 0 {
            push_char(&mut s, ' ');
        }
        let u = strip_check_marks(h[i].notation.as_str());
        crate::text::push_chars(&mut s, &u);
        proof {
            let m1 = history_ucis(h@.take(i + 1));
            assert(m1.drop_last() =~= history_ucis(h@.take(i as int)));
            assert(m1.last() == u@);
            if i == 0 { assert(m1 =~= seq![u@]); }
        }
        assert(s@ =~= join_spaced(history_ucis(h@.take(i + 1))));
        i += 1;
    }
    s
}

// ── Book moves ───────────────────────────────────────────────────────────────

/// A square as file letter and rank digit.
pub open spec fn sq_text(sq: (usize, usize)) -> Seq<char> {
    seq![((97 + (sq.1 as u8)) as u8) as char] + dec_spec((8 - sq.0) as nat)
}

/// Whether history entry `i` is the move the opening book gives after the entries before
/// it, from the position `board`/`ep`/`cast` with the side of that entry to move.
pub open spec fn is_book_move_spec(h: Seq<HistEntry>, i: int, board: Board, ep: Option<(usize, usize)>, cast: Castle) -> bool {
    if i < 0 || i >= h.len() {
        false
    } else {
        match book_move_spec(h.take(i), board, if i % 2 == 0 { Color::White } else { Color::Black }, ep, cast) {
            Some(bm) => starts_with_lit(marks_stripped(h[i].notation@), sq_text(bm.fr) + sq_text(bm.to)),
            None => false,
        }
    }
}

fn history_prefix(h: &Vec<HistEntry>, n: usize) -> (r: Vec<HistEntry>)
    requires n <= h@.len(),
    ensures played(r@) == played(h@.take(n as int)),
{
    let mut r: Vec<HistEntry> = Vec::new();
    let mut i: usize = 0;
    while i < n
        invariant
            i <= n, n <= h@.len(), r@.len() == i,
            forall|j: int| 0 <= j < i ==> (#[trigger] r@[j]).notation@ == h@[j].notation@,
        decreases n - i,
    {
        let e = &h[i];
        r.push(HistEntry {
            notation: owned(e.notation.as_str()),
            san: owned(e.san.as_str()),
            color: e.color,
            from: e.from,
            to: e.to,
            move_time_ms: e.move_time_ms,
        });
        i += 1;
    }
    assert(played(r@) =~= played(h@.take(n as int)));
    r
}

fn push_sq(s: &mut String, sq: (usize, usize))
    requires sq.0 < 8, sq.1 < 8,
    ensures final(s)@ == old(s)@ + sq_text(sq),
{
    let ghost s0 = s@;
    push_char(s, (97u8 + sq.1 as u8) as char);
    push_dec(s, (8 - sq.0) as u64);
    assert(s@ =~= s0 + sq_text(sq));
}

/// Whether history entry `move_idx` came from the opening book, judged from the position
/// `board`/`ep`/`cast` (see `is_book_move_spec`).
pub fn check_is_book_move(h: &Vec<HistEntry>, move_idx: usize, board: &Board, ep: Option<(usize, usize)>, cast: &Castle)
    -> (r: bool)
    ensures r == is_book_move_spec(h@, move_idx as int, *board, ep, *cast),
{
    if move_idx >= h.len() {
        return false;
    }
    let before = history_prefix(h, move_idx);
    let turn = if move_idx % 2 == 0 { Color::White } else { Color::Black };
    let bm = book_move(&before, board, turn, ep, cast);
    assert(book_move_spec(before@, *board, turn, ep, *cast) == book_move_spec(h@.take(move_idx as int), *board, turn, ep, *cast));
    match bm {
        Some(m) => {
            proof {
                let hb = played(before@);
                let c = crate::book::book_candidates(hb);
                crate::pgn::lemma_notation_legal(*board, turn, ep, *cast, c[(hb.len() % c.len()) as int]);
                crate::ai::lemma_legal_props(*board, turn, ep, *cast, m);
            }
            let uci = strip_check_marks(h[move_idx].notation.as_str());
            let mut want = String::new();
            push_sq(&mut want, m.fr);
            push_sq(&mut want, m.to);
            crate::network::has_prefix(&uci, want.as_str())
        },
        None => false,
    }
}

} // verus!
