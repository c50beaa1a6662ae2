//! Writing a game down: the FEN of the current position and the PGN of the whole game.
use vstd::prelude::*;
use crate::engine::{Board, Castle, Color, Kind, Piece, Status};
use crate::game::{Gs, GameEnd, Mode, HistEntry};
use crate::config::{AiDepth, TimeControl, ascii_upper, to_ascii_upper};
use crate::num::{push_dec, dec_spec};
use crate::text::{push_char, push_str, owned};

verus! {

// ── FEN ──────────────────────────────────────────────────────────────────────

/// The FEN letter of a piece: lowercase for Black, uppercase for White.
pub open spec fn fen_letter(p: Piece) -> char {
    let l = match p.k { Kind::K => 'k', Kind::Q => 'q', Kind::R => 'r', Kind::B => 'b', Kind::N => 'n', Kind::P => 'p' };
    if p.c == Color::White { ascii_upper(l) } else { l }
}

pub open spec fn digit_char(n: nat) -> char {
    (48 + n) as char
}

/// Row `r` read up to column `n`: the text so far and the run of empty squares not yet written.
pub open spec fn rank_fold(b: Board, r: int, n: int) -> (Seq<char>, nat)
    decreases n,
{
    if n <= 0 {
        (Seq::empty(), 0)
    } else {
        let (t, e) = rank_fold(b, r, n - 1);
        match b[r][n - 1] {
            None => (t, e + 1),
            Some(p) => ((if e > 0 { t.push(digit_char(e)) } else { t }).push(fen_letter(p)), 0),
        }
    }
}

/// The FEN text of row `r`: pieces by letter, each run of empty squares by its length.
pub open spec fn rank_text(b: Board, r: int) -> Seq<char> {
    let (t, e) = rank_fold(b, r, 8);
    if e > 0 { t.push(digit_char(e)) } else { t }
}

/// The first `n` rows, separated by `/`.
pub open spec fn board_text_upto(b: Board, n: int) -> Seq<char>
    decreases n,
{
    if n <= 0 { Seq::empty() } else { board_text_upto(b, n - 1) + rank_text(b, n - 1) + (if n < 8 { seq!['/'] } else { Seq::empty() }) }
}

pub open spec fn castle_text(c: Castle) -> Seq<char> {
    let t = (if c.wk { seq!['K'] } else { Seq::empty() }) + (if c.wq { seq!['Q'] } else { Seq::empty() })
        + (if c.bk { seq!['k'] } else { Seq::empty() }) + (if c.bq { seq!['q'] } else { Seq::empty() });
    if t.len() == 0 { seq!['-'] } else { t }
}

/// The en-passant field: file letter and rank number, or `-`.
pub open spec fn ep_text(ep: Option<(usize, usize)>) -> Seq<char> {
    match ep {
        Some((r, c)) => seq![((97 + (c as u8)) as u8) as char] + dec_spec((8 - r) as nat),
        None => seq!['-'],
    }
}

/// Whether the en-passant square can be written: its rank at most 8 and its file letter a byte.
pub open spec fn ep_writable(ep: Option<(usize, usize)>) -> bool {
    ep matches Some((r, c)) ==> r <= 8 && (c as u8) < 159
}

/// The FEN of a game's position: board, side to move, castling rights, en-passant square,
/// a half-move clock of 0 and the full-move number.
pub open spec fn fen_text(g: Gs) -> Seq<char> {
    board_text_upto(g.board, 8) + seq![' ', if g.turn == Color::White { 'w' } else { 'b' }, ' '] + castle_text(g.cast)
        + seq![' '] + ep_text(g.ep) + " 0 "@ + dec_spec(g.fullmove as nat)
}

fn letter_of(p: Piece) -> (c: char)
    ensures c == fen_letter(p),
{
    let l = match p.k { Kind::K => 'k', Kind::Q => 'q', Kind::R => 'r', Kind::B => 'b', Kind::N => 'n', Kind::P => 'p' };
    if p.c == Color::White { to_ascii_upper(l) } else { l }
}

fn push_rank(s: &mut String, b: &Board, r: usize)
    requires r < 8,
    ensures final(s)@ == old(s)@ + rank_text(*b, r as int),
{
    let ghost s0 = s@;
    let mut empty: u8 = 0;
    let mut c: usize = 0;
    while c < 8
        invariant
            c <= 8, r < 8, empty <= c,
            s@ == s0 + rank_fold(*b, r as int, c as int).0,
            empty == rank_fold(*b, r as int, c as int).1,
        decreases 8 - c,
    {
        match b[r][c] {
            None => {
                empty += 1;
            },
            Some(p) => {
                if empty > 0 {
                    push_char(s, (48u8 + empty) as char);
                    empty = 0;
                }
                push_char(s, letter_of(p));
            },
        }
        c += 1;
    }
    if empty > 0 {
        push_char(s, (48u8 + empty) as char);
    }
}

fn push_board(s: &mut String, b: &Board)
    ensures final(s)@ == old(s)@ + board_text_upto(*b, 8),
{
    let ghost s0 = s@;
    let mut r: usize = 0;
    while r < 8
        invariant r <= 8, s@ == s0 + board_text_upto(*b, r as int),
        decreases 8 - r,
    {
        let ghost before = s@;
        push_rank(s, b, r);
        if r < 7 {
            push_char(s, '/');
        }
        r += 1;
        assert(s@ =~= s0 + board_text_upto(*b, r as int));
    }
}

fn push_castle(s: &mut String, c: Castle)
    ensures final(s)@ == old(s)@ + castle_text(c),
{
    let ghost s0 = s@;
    if c.wk { push_char(s, 'K'); }
    if c.wq { push_char(s, 'Q'); }
    if c.bk { push_char(s, 'k'); }
    if c.bq { push_char(s, 'q'); }
    if !(c.wk || c.wq || c.bk || c.bq) {
        push_char(s, '-');
    }
    assert(s@ =~= s0 + castle_text(c));
}

fn push_ep(s: &mut String, ep: Option<(usize, usize)>)
    requires ep_writable(ep),
    ensures final(s)@ == old(s)@ + ep_text(ep),
{
    let ghost s0 = s@;
    match ep {
        Some((r, c)) => {
            push_char(s, (97u8 + c as u8) as char);
            push_dec(s, (8 - r) as u64);
        },
        None => push_char(s, '-'),
    }
    assert(s@ =~= s0 + ep_text(ep));
}

/// The FEN of the game's position (see `fen_text`).
pub fn current_fen(g: &Gs) -> (s: String)
    requires ep_writable(g.ep),
    ensures s@ == fen_text(*g),
{
    let mut s = String::new();
    push_board(&mut s, &g.board);
    push_char(&mut s, ' ');
    push_char(&mut s, if g.turn == Color::White { 'w' } else { 'b' });
    push_char(&mut s, ' ');
    push_castle(&mut s, g.cast);
    push_char(&mut s, ' ');
    push_ep(&mut s, g.ep);
    push_str(&mut s, " 0 ");
    push_dec(&mut s, g.fullmove as u64);
    assert(s@ =~= fen_text(*g));
    s
}

// ── PGN ──────────────────────────────────────────────────────────────────────

/// The result tag: the side that did not run out of time or was not mated wins; a draw or a
/// stalemate is a draw; an unfinished game is `*`.
pub open spec fn result_tag_spec(end: GameEnd, status: Status, turn: Color) -> Seq<char> {
    let winner_white = turn == Color::Black;
    match end {
        GameEnd::Flag => if winner_white { "1-0"@ } else { "0-1"@ },
        GameEnd::Draw => "1/2-1/2"@,
        GameEnd::Normal => match status {
            Status::Checkmate => if winner_white { "1-0"@ } else { "0-1"@ },
            Status::Stalemate => "1/2-1/2"@,
            _ => "*"@,
        },
    }
}

pub fn result_tag(end: GameEnd, status: Status, turn: Color) -> (r: &'static str)
    ensures r@ == result_tag_spec(end, status, turn),
{
    let winner_white = match turn { Color::Black => true, Color::White => false };
    match end {
        GameEnd::Flag => if winner_white { "1-0" } else { "0-1" },
        GameEnd::Draw => "1/2-1/2",
        GameEnd::Normal => match status {
            Status::Checkmate => if winner_white { "1-0" } else { "0-1" },
            Status::Stalemate => "1/2-1/2",
            _ => "*",
        },
    }
}

/// The computer's name in a game record: the first word of its level's label.
pub open spec fn cpu_name(d: AiDepth) -> Seq<char> {
    "CPU ("@ + match d { AiDepth::Easy => "Easy"@, AiDepth::Medium => "Medium"@, AiDepth::Hard => "Hard"@, AiDepth::Expert => "Expert"@ } + ")"@
}

/// The name a game record gives the player of `side`.
pub open spec fn player_name_spec(side: Color, mode: Mode, online_color: Option<Color>, player_color: Color, d: AiDepth) -> Seq<char> {
    match mode {
        Mode::PvP => if side == Color::White { "Player 1"@ } else { "Player 2"@ },
        Mode::Online => if online_color == Some(side) { "You"@ } else { "Opponent"@ },
        Mode::CPU => if player_color == side { "Player"@ } else { cpu_name(d) },
    }
}

pub fn player_name(side: Color, mode: Mode, online_color: Option<Color>, player_color: Color, d: AiDepth) -> (s: String)
    ensures s@ == player_name_spec(side, mode, online_color, player_color, d),
{
    let white = match side { Color::White => true, Color::Black => false };
    match mode {
        Mode::PvP => owned(if white { "Player 1" } else { "Player 2" }),
        Mode::Online => {
            let mine = match online_color {
                Some(c) => match (c, side) { (Color::White, Color::White) | (Color::Black, Color::Black) => true, _ => false },
                None => false,
            };
            owned(if mine { "You" } else { "Opponent" })
        },
        Mode::CPU => {
            let mine = match (player_color, side) { (Color::White, Color::White) | (Color::Black, Color::Black) => true, _ => false };
            if mine {
                owned("Player")
            } else {
                let mut s = owned("CPU (");
                push_str(&mut s, match d { AiDepth::Easy => "Easy", AiDepth::Medium => "Medium", AiDepth::Hard => "Hard", AiDepth::Expert => "Expert" });
                push_str(&mut s, ")");
                s
            }
        },
    }
}

/// The time control tag: the starting time in seconds, or `-` without a clock.
pub open spec fn tc_tag_spec(tc: TimeControl) -> Seq<char> {
    match tc {
        TimeControl::Infinite => "-"@,
        TimeControl::Bullet => "60"@,
        TimeControl::Blitz => "180"@,
        TimeControl::Rapid => "600"@,
        TimeControl::Classical => "1800"@,
    }
}

pub fn tc_tag(tc: TimeControl) -> (r: &'static str)
    ensures r@ == tc_tag_spec(tc),
{
    match tc {
        TimeControl::Infinite => "-",
        TimeControl::Bullet => "60",
        TimeControl::Blitz => "180",
        TimeControl::Rapid => "600",
        TimeControl::Classical => "1800",
    }
}

pub open spec fn sans(h: Seq<HistEntry>) -> Seq<Seq<char>> {
    h.map_values(|e: HistEntry| e.san@)
}

/// Move pair `k` (from 1): the move number, a dot, White's move and Black's (when made),
/// each followed by a space, and a line break before every fifth number.
pub open spec fn pair_text(m: Seq<Seq<char>>, k: nat) -> Seq<char> {
    let i = 2 * (k - 1);
    dec_spec(k) + ". "@ + m[i] + seq![' ']
        + (if i + 1 < m.len() { m[i + 1] + seq![' '] } else { Seq::empty() })
        + (if (k + 1) % 5 == 0 { seq!['\n'] } else { Seq::empty() })
}

/// The first `k` move pairs.
pub open spec fn move_pairs(m: Seq<Seq<char>>, k: nat) -> Seq<char>
    decreases k,
{
    if k == 0 { Seq::empty() } else { move_pairs(m, (k - 1) as nat) + pair_text(m, k) }
}

/// The movetext of a game: all its move pairs, then the result.
pub open spec fn move_text_spec(m: Seq<Seq<char>>, result: Seq<char>) -> Seq<char> {
    move_pairs(m, ((m.len() + 1) / 2) as nat) + result
}

fn push_move_text(s: &mut String, h: &Vec<HistEntry>, result: &str)
    requires h@.len() < u32::MAX,
    ensures final(s)@ == old(s)@ + move_text_spec(sans(h@), result@),
{
    let ghost s0 = s@;
    let ghost m = sans(h@);
    let mut i: usize = 0;
    let mut n: u32 = 1;
    while i < h.len()
        invariant
            m == sans(h@), h@.len() < u32::MAX, m.len() == h@.len(),
            i == 2 * (n - 1), 1 <= n, i <= h@.len() + 1, n <= h@.len() + 1,
            s@ == s0 + move_pairs(m, (n - 1) as nat),
        decreases h@.len() + 2 - i,
    {
        let ghost before = s@;
        let ghost k: nat = n as nat;
        push_dec(s, n as u64);
        push_str(s, ". ");
        push_str(s, h[i].san.as_str());
        push_char(s, ' ');
        if i + 1 < h.len() {
            push_str(s, h[i + 1].san.as_str());
            push_char(s, ' ');
        }
        i += 2;
        n += 1;
        if n % 5 == 0 {
            push_char(s, '\n');
        }
        assert(s@ =~= before + pair_text(m, k));
        assert(move_pairs(m, k) == move_pairs(m, (k - 1) as nat) + pair_text(m, k));
    }
    assert((n - 1) as nat == ((m.len() + 1) / 2) as nat);
    push_str(s, result);
}

/// The year a clock reading falls in, counted in 365-day years from 1970.
pub open spec fn year_of(secs: u64) -> nat {
    (1970 + secs / 86400 / 365) as nat
}

/// A game record: the seven tags (date by year only) and the movetext.
pub open spec fn pgn_spec(date_year: nat, white: Seq<char>, black: Seq<char>, result: Seq<char>, tc: Seq<char>,
    moves: Seq<char>) -> Seq<char>
{
    "[Event \"RChess TUI\"]\n[Site \"Terminal\"]\n[Date \""@ + dec_spec(date_year) + ".??.??\"]\n[White \""@ + white
        + "\"]\n[Black \""@ + black + "\"]\n[Result \""@ + result + "\"]\n[TimeControl \""@ + tc
        + "\"]\n[Generator \"RChess TUI v0.7.3\"]\n\n"@ + moves + "\n"@
}

/// The record of the game in `g`, ended as `end`, in `mode`, written at `now_secs` seconds
/// after 1970.
pub fn pgn_text(g: &Gs, end: GameEnd, mode: Mode, online_color: Option<Color>, player_color: Color, d: AiDepth,
    tc: TimeControl, now_secs: u64) -> (s: String)
    requires g.history@.len() < u32::MAX,
    ensures
        s@ == pgn_spec(year_of(now_secs), player_name_spec(Color::White, mode, online_color, player_color, d),
            player_name_spec(Color::Black, mode, online_color, player_color, d), result_tag_spec(end, g.status, g.turn),
            tc_tag_spec(tc), move_text_spec(sans(g.history@), result_tag_spec(end, g.status, g.turn))),
{
    let result = result_tag(end, g.status, g.turn);
    let white = player_name(Color::White, mode, online_color, player_color, d);
    let black = player_name(Color::Black, mode, online_color, player_color, d);
    let mut s = owned("[Event \"RChess TUI\"]\n[Site \"Terminal\"]\n[Date \"");
    push_dec(&mut s, 1970 + now_secs / 86400 / 365);
    push_str(&mut s, ".??.??\"]\n[White \"");
    push_str(&mut s, white.as_str());
    push_str(&mut s, "\"]\n[Black \"");
    push_str(&mut s, black.as_str());
    push_str(&mut s, "\"]\n[Result \"");
    push_str(&mut s, result);
    push_str(&mut s, "\"]\n[TimeControl \"");
    push_str(&mut s, tc_tag(tc));
    push_str(&mut s, "\"]\n[Generator \"RChess TUI v0.7.3\"]\n\n");
    push_move_text(&mut s, &g.history, result);
    push_str(&mut s, "\n");
    assert(s@ =~= pgn_spec(year_of(now_secs), white@, black@, result@, tc_tag_spec(tc), move_text_spec(sans(g.history@), result@)));
    s
}

} // verus!
