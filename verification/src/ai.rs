//! Position evaluation and alpha-beta search.
use vstd::prelude::*;
use crate::engine::{
    Board, Castle, Color, Kind, Piece, Mv, ZobristTable, apply, apply_board, apply_castle, apply_ep, apply_ok, ep_file_ok, in_check, init_zobrist,
    inb, king_sq, king_sq_spec, legal, legal_facts, legal_shape, legal_spec, lemma_capture_shrinks, lemma_legal_facts,
    lemma_legal_shaped, lemma_piece_moves_len, material_measure, piece_index, piece_moves_spec, pseudo, zobrist_hash_with,
};
use crate::sort::{sort_by_score, sorted_by_score};
use crate::tt::{TranspositionTable, TTFlag};
use crate::game::HistEntry;
use crate::book::{book_move, book_move_spec};

verus! {

/// Piece values in centipawns.
#[verifier::allow_in_spec]
pub fn pv(k: Kind) -> i32
    returns (match k { Kind::P => 100i32, Kind::N => 320, Kind::B => 330, Kind::R => 500, Kind::Q => 900, Kind::K => 20000 }),
{
    match k { Kind::P => 100, Kind::N => 320, Kind::B => 330, Kind::R => 500, Kind::Q => 900, Kind::K => 20000 }
}

/// Contribution of a piece to the game phase (24 = full middlegame).
#[verifier::allow_in_spec]
pub fn ph(k: Kind) -> i32
    returns (match k { Kind::P => 0i32, Kind::N => 1, Kind::B => 1, Kind::R => 2, Kind::Q => 4, Kind::K => 0 }),
{
    match k { Kind::P => 0, Kind::N => 1, Kind::B => 1, Kind::R => 2, Kind::Q => 4, Kind::K => 0 }
}

/// Middlegame piece-square tables, row-major; row 0 is the rank farthest from the mover.
pub open spec fn pst_mg_tab(k: Kind) -> Seq<i32> {
    match k {
        Kind::P => seq![0i32, 0i32, 0i32, 0i32, 0i32, 0i32, 0i32, 0i32, 50i32, 50i32, 50i32, 50i32, 50i32, 50i32, 50i32, 50i32, 10i32, 10i32, 20i32, 30i32, 30i32, 20i32, 10i32, 10i32, 5i32, 5i32, 10i32, 25i32, 25i32, 10i32, 5i32, 5i32, 0i32, 0i32, 0i32, 20i32, 20i32, 0i32, 0i32, 0i32, 5i32, -5i32, -10i32, 0i32, 0i32, -10i32, -5i32, 5i32, 5i32, 10i32, 10i32, -20i32, -20i32, 10i32, 10i32, 5i32, 0i32, 0i32, 0i32, 0i32, 0i32, 0i32, 0i32, 0i32],
        Kind::N => seq![-50i32, -40i32, -30i32, -30i32, -30i32, -30i32, -40i32, -50i32, -40i32, -20i32, 0i32, 0i32, 0i32, 0i32, -20i32, -40i32, -30i32, 0i32, 10i32, 15i32, 15i32, 10i32, 0i32, -30i32, -30i32, 5i32, 15i32, 20i32, 20i32, 15i32, 5i32, -30i32, -30i32, 0i32, 15i32, 20i32, 20i32, 15i32, 0i32, -30i32, -30i32, 5i32, 10i32, 15i32, 15i32, 10i32, 5i32, -30i32, -40i32, -20i32, 0i32, 5i32, 5i32, 0i32, -20i32, -40i32, -50i32, -40i32, -30i32, -30i32, -30i32, -30i32, -40i32, -50i32],
        Kind::B => seq![-20i32, -10i32, -10i32, -10i32, -10i32, -10i32, -10i32, -20i32, -10i32, 0i32, 0i32, 0i32, 0i32, 0i32, 0i32, -10i32, -10i32, 0i32, 5i32, 10i32, 10i32, 5i32, 0i32, -10i32, -10i32, 5i32, 5i32, 10i32, 10i32, 5i32, 5i32, -10i32, -10i32, 0i32, 10i32, 10i32, 10i32, 10i32, 0i32, -10i32, -10i32, 10i32, 10i32, 10i32, 10i32, 10i32, 10i32, -10i32, -10i32, 5i32, 0i32, 0i32, 0i32, 0i32, 5i32, -10i32, -20i32, -10i32, -10i32, -10i32, -10i32, -10i32, -10i32, -20i32],
        Kind::R => seq![0i32, 0i32, 0i32, 0i32, 0i32, 0i32, 0i32, 0i32, 5i32, 10i32, 10i32, 10i32, 10i32, 10i32, 10i32, 5i32, -5i32, 0i32, 0i32, 0i32, 0i32, 0i32, 0i32, -5i32, -5i32, 0i32, 0i32, 0i32, 0i32, 0i32, 0i32, -5i32, -5i32, 0i32, 0i32, 0i32, 0i32, 0i32, 0i32, -5i32, -5i32, 0i32, 0i32, 0i32, 0i32, 0i32, 0i32, -5i32, -5i32, 0i32, 0i32, 0i32, 0i32, 0i32, 0i32, -5i32, 0i32, 0i32, 0i32, 5i32, 5i32, 0i32, 0i32, 0i32],
        Kind::Q => seq![-20i32, -10i32, -10i32, -5i32, -5i32, -10i32, -10i32, -20i32, -10i32, 0i32, 0i32, 0i32, 0i32, 0i32, 0i32, -10i32, -10i32, 0i32, 5i32, 5i32, 5i32, 5i32, 0i32, -10i32, -5i32, 0i32, 5i32, 5i32, 5i32, 5i32, 0i32, -5i32, 0i32, 0i32, 5i32, 5i32, 5i32, 5i32, 0i32, -5i32, -10i32, 5i32, 5i32, 5i32, 5i32, 5i32, 0i32, -10i32, -10i32, 0i32, 5i32, 0i32, 0i32, 0i32, 0i32, -10i32, -20i32, -10i32, -10i32, -5i32, -5i32, -10i32, -10i32, -20i32],
        Kind::K => seq![-30i32, -40i32, -40i32, -50i32, -50i32, -40i32, -40i32, -30i32, -30i32, -40i32, -40i32, -50i32, -50i32, -40i32, -40i32, -30i32, -30i32, -40i32, -40i32, -50i32, -50i32, -40i32, -40i32, -30i32, -30i32, -40i32, -40i32, -50i32, -50i32, -40i32, -40i32, -30i32, -20i32, -30i32, -30i32, -40i32, -40i32, -30i32, -30i32, -20i32, -10i32, -20i32, -20i32, -20i32, -20i32, -20i32, -20i32, -10i32, 20i32, 20i32, 0i32, 0i32, 0i32, 0i32, 20i32, 20i32, 20i32, 30i32, 10i32, 0i32, 0i32, 10i32, 30i32, 20i32],
    }
}

fn pst_mg(k: Kind, r: usize, c: usize) -> (v: i32)
    requires r < 8, c < 8,
    ensures v == pst_mg_tab(k)[r * 8 + c],
{
    let t: [i32; 64] = match k {
        Kind::P => [0, 0, 0, 0, 0, 0, 0, 0, 50, 50, 50, 50, 50, 50, 50, 50, 10, 10, 20, 30, 30, 20, 10, 10, 5, 5, 10, 25, 25, 10, 5, 5, 0, 0, 0, 20, 20, 0, 0, 0, 5, -5, -10, 0, 0, -10, -5, 5, 5, 10, 10, -20, -20, 10, 10, 5, 0, 0, 0, 0, 0, 0, 0, 0],
        Kind::N => [-50, -40, -30, -30, -30, -30, -40, -50, -40, -20, 0, 0, 0, 0, -20, -40, -30, 0, 10, 15, 15, 10, 0, -30, -30, 5, 15, 20, 20, 15, 5, -30, -30, 0, 15, 20, 20, 15, 0, -30, -30, 5, 10, 15, 15, 10, 5, -30, -40, -20, 0, 5, 5, 0, -20, -40, -50, -40, -30, -30, -30, -30, -40, -50],
        Kind::B => [-20, -10, -10, -10, -10, -10, -10, -20, -10, 0, 0, 0, 0, 0, 0, -10, -10, 0, 5, 10, 10, 5, 0, -10, -10, 5, 5, 10, 10, 5, 5, -10, -10, 0, 10, 10, 10, 10, 0, -10, -10, 10, 10, 10, 10, 10, 10, -10, -10, 5, 0, 0, 0, 0, 5, -10, -20, -10, -10, -10, -10, -10, -10, -20],
        Kind::R => [0, 0, 0, 0, 0, 0, 0, 0, 5, 10, 10, 10, 10, 10, 10, 5, -5, 0, 0, 0, 0, 0, 0, -5, -5, 0, 0, 0, 0, 0, 0, -5, -5, 0, 0, 0, 0, 0, 0, -5, -5, 0, 0, 0, 0, 0, 0, -5, -5, 0, 0, 0, 0, 0, 0, -5, 0, 0, 0, 5, 5, 0, 0, 0],
        Kind::Q => [-20, -10, -10, -5, -5, -10, -10, -20, -10, 0, 0, 0, 0, 0, 0, -10, -10, 0, 5, 5, 5, 5, 0, -10, -5, 0, 5, 5, 5, 5, 0, -5, 0, 0, 5, 5, 5, 5, 0, -5, -10, 5, 5, 5, 5, 5, 0, -10, -10, 0, 5, 0, 0, 0, 0, -10, -20, -10, -10, -5, -5, -10, -10, -20],
        Kind::K => [-30, -40, -40, -50, -50, -40, -40, -30, -30, -40, -40, -50, -50, -40, -40, -30, -30, -40, -40, -50, -50, -40, -40, -30, -30, -40, -40, -50, -50, -40, -40, -30, -20, -30, -30, -40, -40, -30, -30, -20, -10, -20, -20, -20, -20, -20, -20, -10, 20, 20, 0, 0, 0, 0, 20, 20, 20, 30, 10, 0, 0, 10, 30, 20],
    };
    assert(t@ =~= pst_mg_tab(k));
    t[r * 8 + c]
}

/// Endgame piece-square tables, row-major; row 0 is the rank farthest from the mover.
pub open spec fn pst_eg_tab(k: Kind) -> Seq<i32> {
    match k {
        Kind::P => seq![0i32, 0i32, 0i32, 0i32, 0i32, 0i32, 0i32, 0i32, 80i32, 80i32, 80i32, 80i32, 80i32, 80i32, 80i32, 80i32, 60i32, 60i32, 60i32, 60i32, 60i32, 60i32, 60i32, 60i32, 40i32, 40i32, 40i32, 40i32, 40i32, 40i32, 40i32, 40i32, 20i32, 20i32, 20i32, 20i32, 20i32, 20i32, 20i32, 20i32, 10i32, 10i32, 10i32, 10i32, 10i32, 10i32, 10i32, 10i32, 10i32, 10i32, 10i32, 10i32, 10i32, 10i32, 10i32, 10i32, 0i32, 0i32, 0i32, 0i32, 0i32, 0i32, 0i32, 0i32],
        Kind::N => seq![-40i32, -30i32, -20i32, -20i32, -20i32, -20i32, -30i32, -40i32, -30i32, -10i32, 5i32, 5i32, 5i32, 5i32, -10i32, -30i32, -20i32, 5i32, 15i32, 20i32, 20i32, 15i32, 5i32, -20i32, -20i32, 5i32, 15i32, 20i32, 20i32, 15i32, 5i32, -20i32, -20i32, 5i32, 15i32, 20i32, 20i32, 15i32, 5i32, -20i32, -20i32, 5i32, 15i32, 20i32, 20i32, 15i32, 5i32, -20i32, -30i32, -10i32, 5i32, 5i32, 5i32, 5i32, -10i32, -30i32, -40i32, -30i32, -20i32, -20i32, -20i32, -20i32, -30i32, -40i32],
        Kind::B => seq![-20i32, -10i32, -10i32, -10i32, -10i32, -10i32, -10i32, -20i32, -10i32, 0i32, 5i32, 5i32, 5i32, 5i32, 0i32, -10i32, -10i32, 5i32, 10i32, 10i32, 10i32, 10i32, 5i32, -10i32, -10i32, 5i32, 10i32, 10i32, 10i32, 10i32, 5i32, -10i32, -10i32, 5i32, 10i32, 10i32, 10i32, 10i32, 5i32, -10i32, -10i32, 5i32, 10i32, 10i32, 10i32, 10i32, 5i32, -10i32, -10i32, 0i32, 5i32, 5i32, 5i32, 5i32, 0i32, -10i32, -20i32, -10i32, -10i32, -10i32, -10i32, -10i32, -10i32, -20i32],
        Kind::R => seq![5i32, 5i32, 5i32, 5i32, 5i32, 5i32, 5i32, 5i32, 10i32, 10i32, 10i32, 10i32, 10i32, 10i32, 10i32, 10i32, 5i32, 5i32, 5i32, 5i32, 5i32, 5i32, 5i32, 5i32, 0i32, 0i32, 0i32, 0i32, 0i32, 0i32, 0i32, 0i32, 0i32, 0i32, 0i32, 0i32, 0i32, 0i32, 0i32, 0i32, 0i32, 0i32, 0i32, 0i32, 0i32, 0i32, 0i32, 0i32, 0i32, 0i32, 0i32, 0i32, 0i32, 0i32, 0i32, 0i32, -5i32, -5i32, -5i32, -5i32, -5i32, -5i32, -5i32, -5i32],
        Kind::Q => seq![-10i32, -5i32, -5i32, -5i32, -5i32, -5i32, -5i32, -10i32, -5i32, 0i32, 0i32, 0i32, 0i32, 0i32, 0i32, -5i32, -5i32, 0i32, 5i32, 5i32, 5i32, 5i32, 0i32, -5i32, -5i32, 0i32, 5i32, 5i32, 5i32, 5i32, 0i32, -5i32, -5i32, 0i32, 5i32, 5i32, 5i32, 5i32, 0i32, -5i32, -5i32, 0i32, 5i32, 5i32, 5i32, 5i32, 0i32, -5i32, -5i32, 0i32, 0i32, 0i32, 0i32, 0i32, 0i32, -5i32, -10i32, -5i32, -5i32, -5i32, -5i32, -5i32, -5i32, -10i32],
        Kind::K => seq![-20i32, -10i32, -10i32, -10i32, -10i32, -10i32, -10i32, -20i32, -10i32, 5i32, 5i32, 10i32, 10i32, 5i32, 5i32, -10i32, -10i32, 5i32, 10i32, 15i32, 15i32, 10i32, 5i32, -10i32, -10i32, 10i32, 15i32, 20i32, 20i32, 15i32, 10i32, -10i32, -10i32, 10i32, 15i32, 20i32, 20i32, 15i32, 10i32, -10i32, -10i32, 5i32, 10i32, 15i32, 15i32, 10i32, 5i32, -10i32, -10i32, 5i32, 5i32, 10i32, 10i32, 5i32, 5i32, -10i32, -20i32, -10i32, -10i32, -10i32, -10i32, -10i32, -10i32, -20i32],
    }
}

fn pst_eg(k: Kind, r: usize, c: usize) -> (v: i32)
    requires r < 8, c < 8,
    ensures v == pst_eg_tab(k)[r * 8 + c],
{
    let t: [i32; 64] = match k {
        Kind::P => [0, 0, 0, 0, 0, 0, 0, 0, 80, 80, 80, 80, 80, 80, 80, 80, 60, 60, 60, 60, 60, 60, 60, 60, 40, 40, 40, 40, 40, 40, 40, 40, 20, 20, 20, 20, 20, 20, 20, 20, 10, 10, 10, 10, 10, 10, 10, 10, 10, 10, 10, 10, 10, 10, 10, 10, 0, 0, 0, 0, 0, 0, 0, 0],
        Kind::N => [-40, -30, -20, -20, -20, -20, -30, -40, -30, -10, 5, 5, 5, 5, -10, -30, -20, 5, 15, 20, 20, 15, 5, -20, -20, 5, 15, 20, 20, 15, 5, -20, -20, 5, 15, 20, 20, 15, 5, -20, -20, 5, 15, 20, 20, 15, 5, -20, -30, -10, 5, 5, 5, 5, -10, -30, -40, -30, -20, -20, -20, -20, -30, -40],
        Kind::B => [-20, -10, -10, -10, -10, -10, -10, -20, -10, 0, 5, 5, 5, 5, 0, -10, -10, 5, 10, 10, 10, 10, 5, -10, -10, 5, 10, 10, 10, 10, 5, -10, -10, 5, 10, 10, 10, 10, 5, -10, -10, 5, 10, 10, 10, 10, 5, -10, -10, 0, 5, 5, 5, 5, 0, -10, -20, -10, -10, -10, -10, -10, -10, -20],
        Kind::R => [5, 5, 5, 5, 5, 5, 5, 5, 10, 10, 10, 10, 10, 10, 10, 10, 5, 5, 5, 5, 5, 5, 5, 5, 0, 0, 0, 0, 0, 0, 0, 0, 0, 0, 0, 0, 0, 0, 0, 0, 0, 0, 0, 0, 0, 0, 0, 0, 0, 0, 0, 0, 0, 0, 0, 0, -5, -5, -5, -5, -5, -5, -5, -5],
        Kind::Q => [-10, -5, -5, -5, -5, -5, -5, -10, -5, 0, 0, 0, 0, 0, 0, -5, -5, 0, 5, 5, 5, 5, 0, -5, -5, 0, 5, 5, 5, 5, 0, -5, -5, 0, 5, 5, 5, 5, 0, -5, -5, 0, 5, 5, 5, 5, 0, -5, -5, 0, 0, 0, 0, 0, 0, -5, -10, -5, -5, -5, -5, -5, -5, -10],
        Kind::K => [-20, -10, -10, -10, -10, -10, -10, -20, -10, 5, 5, 10, 10, 5, 5, -10, -10, 5, 10, 15, 15, 10, 5, -10, -10, 10, 15, 20, 20, 15, 10, -10, -10, 10, 15, 20, 20, 15, 10, -10, -10, 5, 10, 15, 15, 10, 5, -10, -10, 5, 5, 10, 10, 5, 5, -10, -20, -10, -10, -10, -10, -10, -10, -20],
    };
    assert(t@ =~= pst_eg_tab(k));
    t[r * 8 + c]
}

/// Row as seen from `col`'s side (White's rows unchanged, Black's mirrored).
pub open spec fn rel_row(col: Color, r: int) -> int { if col == Color::White { r } else { 7 - r } }

pub open spec fn mg_term(p: Piece, r: int, c: int) -> int {
    pv(p.k) + pst_mg_tab(p.k)[rel_row(p.c, r) * 8 + c]
}

pub open spec fn eg_term(p: Piece, r: int, c: int) -> int {
    pv(p.k) + pst_eg_tab(p.k)[rel_row(p.c, r) * 8 + c]
}

/// White-positive material + middlegame table score of the first `n` squares.
pub open spec fn mg_upto(b: Board, n: nat) -> int
    decreases n,
{
    if n == 0 { 0 } else {
        let m = (n - 1) as int;
        mg_upto(b, (n - 1) as nat) + match b[m / 8][m % 8] {
            Some(p) => if p.c == Color::White { mg_term(p, m / 8, m % 8) } else { -mg_term(p, m / 8, m % 8) },
            None => 0,
        }
    }
}

pub open spec fn eg_upto(b: Board, n: nat) -> int
    decreases n,
{
    if n == 0 { 0 } else {
        let m = (n - 1) as int;
        eg_upto(b, (n - 1) as nat) + match b[m / 8][m % 8] {
            Some(p) => if p.c == Color::White { eg_term(p, m / 8, m % 8) } else { -eg_term(p, m / 8, m % 8) },
            None => 0,
        }
    }
}

pub open spec fn phase_upto(b: Board, n: nat) -> int
    decreases n,
{
    if n == 0 { 0 } else {
        let m = (n - 1) as int;
        phase_upto(b, (n - 1) as nat) + match b[m / 8][m % 8] { Some(p) => ph(p.k) as int, None => 0 }
    }
}

proof fn lemma_pst_bounds(k: Kind, i: int)
    requires 0 <= i < 64,
    ensures -50 <= pst_mg_tab(k)[i] <= 50, -50 <= pst_eg_tab(k)[i] <= 80,
{
}

proof fn lemma_material_bounds(b: Board, n: nat)
    requires n <= 64,
    ensures
        -20100 * n <= mg_upto(b, n) <= 20100 * n,
        -20100 * n <= eg_upto(b, n) <= 20100 * n,
        0 <= phase_upto(b, n) <= 4 * n,
    decreases n,
{
    if n > 0 {
        lemma_material_bounds(b, (n - 1) as nat);
        let m = (n - 1) as int;
        if let Some(p) = b[m / 8][m % 8] {
            lemma_pst_bounds(p.k, rel_row(p.c, m / 8) * 8 + m % 8);
        }
    }
}

/// Signed division rounding toward zero, as Rust's `/` does.
pub open spec fn tdiv(a: int, d: int) -> int { if a >= 0 { a / d } else { -((-a) / d) } }

/// An own pawn of `col` on (r, c).
pub open spec fn own_pawn(b: Board, col: Color, r: int, c: int) -> bool {
    match b[r][c] { Some(p) => p.c == col && p.k == Kind::P, None => false }
}

/// Number of pawns of `col` in column `c` among the first `n` rows.
pub open spec fn col_count(b: Board, col: Color, c: int, n: nat) -> int
    decreases n,
{
    if n == 0 { 0 } else { col_count(b, col, c, (n - 1) as nat) + if own_pawn(b, col, n - 1, c) { 1int } else { 0 } }
}

pub open spec fn file_pawns(b: Board, col: Color, c: int) -> int { col_count(b, col, c, 8) }

pub open spec fn doubled_upto(b: Board, col: Color, n: nat) -> int
    decreases n,
{
    if n == 0 { 0 } else {
        let c = n - 1;
        doubled_upto(b, col, (n - 1) as nat) + if file_pawns(b, col, c) > 1 { file_pawns(b, col, c) - 1 } else { 0 }
    }
}

pub open spec fn isolated_file(b: Board, col: Color, c: int) -> bool {
    file_pawns(b, col, c) > 0 && !(c > 0 && file_pawns(b, col, c - 1) > 0) && !(c < 7 && file_pawns(b, col, c + 1) > 0)
}

pub open spec fn isolated_upto(b: Board, col: Color, n: nat) -> int
    decreases n,
{
    if n == 0 { 0 } else {
        let c = n - 1;
        isolated_upto(b, col, (n - 1) as nat) + if isolated_file(b, col, c) { file_pawns(b, col, c) } else { 0 }
    }
}

/// Squares that an enemy pawn must avoid for the pawn of `col` on (r, c) to count as passed:
/// neighbouring files, rows 0..=r for White and rows r+1..=7 for Black.
pub open spec fn in_pass_window(col: Color, r: int, c: int, rr: int, cc: int) -> bool {
    &&& (if col == Color::White { 0 <= rr <= r } else { r + 1 <= rr <= 7 })
    &&& (if c >= 1 { c - 1 } else { 0 }) <= cc <= (if c + 1 <= 7 { c + 1 } else { 7 })
}

pub open spec fn is_passed(b: Board, col: Color, r: int, c: int) -> bool {
    forall|rr: int, cc: int| in_pass_window(col, r, c, rr, cc) ==> !#[trigger] own_pawn(b, col.opp(), rr, cc)
}

pub open spec fn passed_upto(b: Board, col: Color, n: nat) -> int
    decreases n,
{
    if n == 0 { 0 } else {
        let m = (n - 1) as int;
        passed_upto(b, col, (n - 1) as nat) + if own_pawn(b, col, m / 8, m % 8) && is_passed(b, col, m / 8, m % 8) { 1int } else { 0 }
    }
}

/// (doubled, isolated, passed) pawn counts of `col`.
pub open spec fn pawn_analysis_spec(b: Board, col: Color) -> (int, int, int) {
    (doubled_upto(b, col, 8), isolated_upto(b, col, 8), passed_upto(b, col, 64))
}

proof fn lemma_col_count_bound(b: Board, col: Color, c: int, n: nat)
    ensures 0 <= col_count(b, col, c, n) <= n,
    decreases n,
{
    if n > 0 { lemma_col_count_bound(b, col, c, (n - 1) as nat); }
}

proof fn lemma_pawn_counts_bound(b: Board, col: Color, n: nat)
    requires n <= 8,
    ensures
        0 <= doubled_upto(b, col, n) <= 8 * n,
        0 <= isolated_upto(b, col, n) <= 8 * n,
    decreases n,
{
    if n > 0 {
        lemma_pawn_counts_bound(b, col, (n - 1) as nat);
        lemma_col_count_bound(b, col, n - 1, 8);
    }
}

proof fn lemma_passed_bound(b: Board, col: Color, n: nat)
    ensures 0 <= passed_upto(b, col, n) <= n,
    decreases n,
{
    if n > 0 { lemma_passed_bound(b, col, (n - 1) as nat); }
}

fn pawn_analysis(b: &Board, color: Color) -> (res: (i32, i32, i32))
    ensures
        res.0 == pawn_analysis_spec(*b, color).0,
        res.1 == pawn_analysis_spec(*b, color).1,
        res.2 == pawn_analysis_spec(*b, color).2,
{
    let mut files: [i32; 8] = [0; 8];
    let opp = color.opp();
    let mut r: usize = 0;
    while r < 8
        invariant
            r <= 8,
            forall|j: int| 0 <= j < 8 ==> files[j] == col_count(*b, color, j, r as nat),
        decreases 8 - r,
    {
        let mut c: usize = 0;
        while c < 8
            invariant
                c <= 8, r < 8,
                forall|j: int| 0 <= j < 8 ==> files[j] == col_count(*b, color, j, r as nat) + (if j < c && own_pawn(*b, color, r as int, j) { 1int } else { 0 }),
            decreases 8 - c,
        {
            proof { lemma_col_count_bound(*b, color, c as int, r as nat); }
            if let Some(p) = b[r][c] {
                if p.c == color && p.k == Kind::P {
                    files[c] = files[c] + 1;
                }
            }
            c += 1;
        }
        r += 1;
    }
    let mut double: i32 = 0;
    let mut iso: i32 = 0;
    let mut c: usize = 0;
    while c < 8
        invariant
            c <= 8,
            forall|j: int| 0 <= j < 8 ==> files[j] == file_pawns(*b, color, j),
            double == doubled_upto(*b, color, c as nat),
            iso == isolated_upto(*b, color, c as nat),
        decreases 8 - c,
    {
        proof {
            lemma_pawn_counts_bound(*b, color, c as nat);
            lemma_col_count_bound(*b, color, c as int, 8);
        }
        if files[c] > 1 { double += files[c] - 1; }
        let l = c > 0 && files[c - 1] > 0;
        let rr = c < 7 && files[c + 1] > 0;
        if files[c] > 0 && !l && !rr { iso += files[c]; }
        c += 1;
    }
    let mut passed: i32 = 0;
    let mut r: usize = 0;
    while r < 8
        invariant
            r <= 8, opp == color.opp(),
            passed == passed_upto(*b, color, (r * 8) as nat),
        decreases 8 - r,
    {
        let mut c: usize = 0;
        while c < 8
            invariant
                c <= 8, r < 8, opp == color.opp(),
                passed == passed_upto(*b, color, (r * 8 + c) as nat),
            decreases 8 - c,
        {
            let ghost n = (r * 8 + c) as int;
            assert(n / 8 == r && n % 8 == c);
            proof { lemma_passed_bound(*b, color, n as nat); }
            if let Some(p) = b[r][c] {
                if p.c == color && p.k == Kind::P {
                    let pass = pawn_is_passed(b, color, r, c);
                    if pass { passed += 1; }
                }
            }
            c += 1;
        }
        r += 1;
    }
    (double, iso, passed)
}

fn pawn_is_passed(b: &Board, color: Color, r: usize, c: usize) -> (res: bool)
    requires r < 8, c < 8,
    ensures res == is_passed(*b, color, r as int, c as int),
{
    let opp = color.opp();
    let mut passed = true;
    let (min_r, max_r): (usize, usize) = if color == Color::White { (0, r) } else { (r + 1, 7) };
    let lo: usize = if c >= 1 { c - 1 } else { 0 };
    let hi: usize = if c + 1 <= 7 { c + 1 } else { 7 };
    let mut rr: usize = min_r;
    while rr <= max_r
        invariant
            min_r <= rr <= max_r + 1, max_r <= 7, r < 8, c < 8, opp == color.opp(),
            min_r == (if color == Color::White { 0 } else { r + 1 }),
            max_r == (if color == Color::White { r } else { 7 }),
            lo == (if c >= 1 { c - 1 } else { 0 }), hi == (if c + 1 <= 7 { c + 1 } else { 7 }),
            passed == forall|i: int, j: int| min_r <= i < rr && lo <= j <= hi ==> !#[trigger] own_pawn(*b, opp, i, j),
        decreases max_r + 1 - rr,
    {
        let mut cc: usize = lo;
        let ghost before = passed;
        while cc <= hi
            invariant
                lo <= cc <= hi + 1, hi <= 7, min_r <= rr <= max_r, max_r <= 7, opp == color.opp(),
                passed == (before && forall|j: int| lo <= j < cc ==> !#[trigger] own_pawn(*b, opp, rr as int, j)),
            decreases hi + 1 - cc,
        {
            if let Some(e) = b[rr][cc] {
                if e.c == opp && e.k == Kind::P { passed = false; }
            }
            proof {
                if own_pawn(*b, opp, rr as int, cc as int) {
                    assert(!passed);
                } else {
                    assert forall|j: int| lo <= j < cc + 1 && (forall|j2: int| lo <= j2 < cc ==> !#[trigger] own_pawn(*b, opp, rr as int, j2))
                        implies !#[trigger] own_pawn(*b, opp, rr as int, j) by {
                        if j < cc {}
                    }
                }
            }
            cc += 1;
        }
        rr += 1;
    }
    assert(passed == is_passed(*b, color, r as int, c as int)) by {
        if !passed {
            let (i, j) = choose|i: int, j: int| min_r <= i < rr && lo <= j <= hi && #[trigger] own_pawn(*b, opp, i, j);
            assert(in_pass_window(color, r as int, c as int, i, j));
        }
    }
    passed
}

/// Pawn-shield bonus for an own pawn on (r, c) weighted `w`.
pub open spec fn shield_at(b: Board, col: Color, r: int, c: int, w: int) -> int {
    if inb(r, c) && own_pawn(b, col, r, c) { w } else { 0 }
}

/// Pawns on the three files around the king, one rank ahead (10 each) and two ranks ahead (6 each).
pub open spec fn shield(b: Board, col: Color, kr: int, kc: int) -> int {
    let d = if col == Color::White { -1int } else { 1int };
    shield_at(b, col, kr + d, kc - 1, 10) + shield_at(b, col, kr + d, kc, 10) + shield_at(b, col, kr + d, kc + 1, 10)
        + shield_at(b, col, kr + 2 * d, kc - 1, 6) + shield_at(b, col, kr + 2 * d, kc, 6) + shield_at(b, col, kr + 2 * d, kc + 1, 6)
}

pub open spec fn file_has_pawn(b: Board, col: Color, f: int) -> bool {
    exists|r: int| 0 <= r < 8 && #[trigger] own_pawn(b, col, r, f)
}

/// Penalty `w` for a file on the board without an own pawn.
pub open spec fn open_pen(b: Board, col: Color, f: int, w: int) -> int {
    if 0 <= f < 8 && !file_has_pawn(b, col, f) { w } else { 0 }
}

/// Files within two of the king: 8 for its own file, 6 next to it, 4 two away.
pub open spec fn open_files(b: Board, col: Color, kc: int) -> int {
    open_pen(b, col, kc - 2, 4) + open_pen(b, col, kc - 1, 6) + open_pen(b, col, kc, 8)
        + open_pen(b, col, kc + 1, 6) + open_pen(b, col, kc + 2, 4)
}

pub open spec fn king_safety_spec(b: Board, col: Color) -> int {
    match king_sq_spec(b, col) {
        Some((r, c)) => shield(b, col, r as int, c as int) - open_files(b, col, c as int),
        None => 0,
    }
}

fn shield_sq(b: &Board, col: Color, r: i32, c: i32, w: i32) -> (v: i32)
    ensures v == shield_at(*b, col, r as int, c as int, w as int),
{
    if r >= 0 && r < 8 && c >= 0 && c < 8 {
        let own = match b[r as usize][c as usize] { Some(p) => p.c == col && p.k == Kind::P, None => false };
        if own { w } else { 0 }
    } else {
        0
    }
}

fn open_file_pen(b: &Board, col: Color, f: i32, w: i32) -> (v: i32)
    ensures v == open_pen(*b, col, f as int, w as int),
{
    if f >= 0 && f < 8 {
        let mut has_pawn = false;
        let mut r: usize = 0;
        while r < 8
            invariant
                r <= 8, 0 <= f < 8,
                has_pawn == exists|i: int| 0 <= i < r && #[trigger] own_pawn(*b, col, i, f as int),
            decreases 8 - r,
        {
            if let Some(p) = b[r][f as usize] {
                if p.c == col && p.k == Kind::P { has_pawn = true; }
            }
            proof {
                if own_pawn(*b, col, r as int, f as int) {
                    assert(own_pawn(*b, col, r as int, f as int));
                }
            }
            r += 1;
        }
        if !has_pawn { w } else { 0 }
    } else {
        0
    }
}

fn king_safety(b: &Board, color: Color) -> (sc: i32)
    ensures sc == king_safety_spec(*b, color),
{
    let ksq = match king_sq(b, color) { Some(s) => s, None => return 0 };
    proof {
        let (r2, c2) = choose|r2: int, c2: int| #[trigger] crate::engine::first_king(*b, color, r2, c2);
    }
    assert(ksq.0 < 8 && ksq.1 < 8);
    let dir: i32 = if color == Color::White { -1 } else { 1 };
    let kr = ksq.0 as i32;
    let kc = ksq.1 as i32;
    let mut sc: i32 = 0;
    sc += shield_sq(b, color, kr + dir, kc - 1, 10);
    sc += shield_sq(b, color, kr + dir, kc, 10);
    sc += shield_sq(b, color, kr + dir, kc + 1, 10);
    sc += shield_sq(b, color, kr + 2 * dir, kc - 1, 6);
    sc += shield_sq(b, color, kr + 2 * dir, kc, 6);
    sc += shield_sq(b, color, kr + 2 * dir, kc + 1, 6);
    sc -= open_file_pen(b, color, kc - 2, 4);
    sc -= open_file_pen(b, color, kc - 1, 6);
    sc -= open_file_pen(b, color, kc, 8);
    sc -= open_file_pen(b, color, kc + 1, 6);
    sc -= open_file_pen(b, color, kc + 2, 4);
    sc
}

/// Number of moves (castling aside) of the pieces of `col` on the first `n` squares.
pub open spec fn mobility_upto(b: Board, col: Color, n: nat) -> int
    decreases n,
{
    if n == 0 { 0 } else {
        let m = (n - 1) as int;
        mobility_upto(b, col, (n - 1) as nat) + match b[m / 8][m % 8] {
            Some(p) => if p.c == col { piece_moves_spec(b, m / 8, m % 8, p, None).len() as int } else { 0 },
            None => 0,
        }
    }
}

proof fn lemma_mobility_bound(b: Board, col: Color, n: nat)
    ensures 0 <= mobility_upto(b, col, n) <= 64 * n,
    decreases n,
{
    if n > 0 {
        lemma_mobility_bound(b, col, (n - 1) as nat);
        let m = (n - 1) as int;
        if let Some(p) = b[m / 8][m % 8] {
            lemma_piece_moves_len(b, m / 8, m % 8, p, None);
        }
    }
}

fn mobility(b: &Board, color: Color) -> (n: usize)
    ensures n == mobility_upto(*b, color, 64), n <= 4096,
{
    let nc = Castle { wk: false, wq: false, bk: false, bq: false };
    let mut n: usize = 0;
    let mut r: usize = 0;
    while r < 8
        invariant
            r <= 8,
            n == mobility_upto(*b, color, (r * 8) as nat),
        decreases 8 - r,
    {
        let mut c: usize = 0;
        while c < 8
            invariant
                c <= 8, r < 8,
                n == mobility_upto(*b, color, (r * 8 + c) as nat),
            decreases 8 - c,
        {
            let ghost m = (r * 8 + c) as int;
            assert(m / 8 == r && m % 8 == c);
            proof { lemma_mobility_bound(*b, color, m as nat); }
            if let Some(p) = b[r][c] {
                if p.c == color {
                    let ms = pseudo(b, r, c, None, &nc, false);
                    proof { lemma_piece_moves_len(*b, r as int, c as int, p, None); }
                    n += ms.len();
                }
            }
            c += 1;
        }
        r += 1;
    }
    proof { lemma_mobility_bound(*b, color, 64); }
    n
}

/// The static evaluation, White-positive, in centipawns: a middlegame score
/// (material, piece-square tables, pawn structure, king safety, mobility) and an
/// endgame score (material, endgame tables), blended by game phase.
pub open spec fn evaluate_spec(b: Board) -> int {
    let mg0 = mg_upto(b, 64);
    let eg = eg_upto(b, 64);
    let ph0 = phase_upto(b, 64);
    let phase = if ph0 > 24 { 24 } else { ph0 };
    let w = pawn_analysis_spec(b, Color::White);
    let k = pawn_analysis_spec(b, Color::Black);
    let mg1 = mg0 + (k.0 - w.0) * 10 + (k.1 - w.1) * 15 + (w.2 - k.2) * 25;
    let mg2 = mg1 + king_safety_spec(b, Color::White) - king_safety_spec(b, Color::Black);
    let mg3 = mg2 + (mobility_upto(b, Color::White, 64) - mobility_upto(b, Color::Black, 64)) * 2;
    tdiv(mg3 * phase + eg * (24 - phase), 24)
}

proof fn lemma_safety_bound(b: Board, col: Color)
    ensures -28 <= king_safety_spec(b, col) <= 48,
{
}

pub fn evaluate(b: &Board) -> (score: i32)
    ensures score == evaluate_spec(*b),
{
    let mut mg: i32 = 0;
    let mut eg: i32 = 0;
    let mut phase: i32 = 0;
    let mut r: usize = 0;
    while r < 8
        invariant
            r <= 8,
            mg == mg_upto(*b, (r * 8) as nat),
            eg == eg_upto(*b, (r * 8) as nat),
            phase == phase_upto(*b, (r * 8) as nat),
        decreases 8 - r,
    {
        let mut c: usize = 0;
        while c < 8
            invariant
                c <= 8, r < 8,
                mg == mg_upto(*b, (r * 8 + c) as nat),
                eg == eg_upto(*b, (r * 8 + c) as nat),
                phase == phase_upto(*b, (r * 8 + c) as nat),
            decreases 8 - c,
        {
            let ghost m = (r * 8 + c) as int;
            assert(m / 8 == r && m % 8 == c);
            proof { lemma_material_bounds(*b, m as nat); }
            if let Some(p) = b[r][c] {
                let pr: usize = if p.c == Color::White { r } else { 7 - r };
                let pc = pv(p.k);
                let a = pst_mg(p.k, pr, c);
                let e = pst_eg(p.k, pr, c);
                proof { lemma_pst_bounds(p.k, pr * 8 + c); }
                if p.c == Color::White {
                    mg += pc + a;
                    eg += pc + e;
                } else {
                    mg -= pc + a;
                    eg -= pc + e;
                }
                phase += ph(p.k);
            }
            c += 1;
        }
        r += 1;
    }
    proof { lemma_material_bounds(*b, 64); }
    if phase > 24 { phase = 24; }
    let (wd, wi, wp) = pawn_analysis(b, Color::White);
    let (bd, bi, bp) = pawn_analysis(b, Color::Black);
    proof {
        lemma_pawn_counts_bound(*b, Color::White, 8);
        lemma_pawn_counts_bound(*b, Color::Black, 8);
        lemma_passed_bound(*b, Color::White, 64);
        lemma_passed_bound(*b, Color::Black, 64);
    }
    mg += (bd - wd) * 10 + (bi - wi) * 15 + (wp - bp) * 25;
    let ksw = king_safety(b, Color::White);
    let ksb = king_safety(b, Color::Black);
    proof {
        lemma_safety_bound(*b, Color::White);
        lemma_safety_bound(*b, Color::Black);
    }
    mg += ksw - ksb;
    let mw = mobility(b, Color::White);
    let mb = mobility(b, Color::Black);
    mg += (mw as i32 - mb as i32) * 2;
    assert(-1400000 <= mg <= 1400000);
    assert(0 <= phase <= 24);
    assert(-33600000 <= mg * phase <= 33600000) by (nonlinear_arith)
        requires -1400000 <= mg <= 1400000, 0 <= phase <= 24;
    assert(-33600000 <= eg * (24 - phase) <= 33600000) by (nonlinear_arith)
        requires -1286400 <= eg <= 1286400, 0 <= phase <= 24;
    (mg * phase + eg * (24 - phase)) / 24
}

// ── Search ───────────────────────────────────────────────────────────────────

/// Per-search state: killer moves per ply, history scores, Zobrist keys.
struct SearchCtx {
    killers: Vec<[Option<Mv>; 2]>,
    history: [[i32; 64]; 12],
    z: ZobristTable,
}

impl SearchCtx {
    spec fn wf(&self) -> bool {
        self.killers@.len() == 64 && self.z.wf()
    }

    fn new() -> (s: Self)
        ensures s.wf(),
    {
        let mut killers: Vec<[Option<Mv>; 2]> = Vec::new();
        let mut i: usize = 0;
        while i < 64
            invariant i <= 64, killers@.len() == i,
            decreases 64 - i,
        {
            killers.push([None, None]);
            i += 1;
        }
        SearchCtx { killers, history: [[0i32; 64]; 12], z: init_zobrist() }
    }
}

/// The scored list holds moves of `s` only.
pub open spec fn scored_from(sc: Seq<(Mv, i32)>, s: Seq<Mv>) -> bool {
    forall|i: int| 0 <= i < sc.len() ==> s.contains(#[trigger] sc[i].0)
}

pub proof fn lemma_legal_props(b: Board, color: Color, ep: Option<(usize, usize)>, cast: Castle, mv: Mv)
    requires legal_spec(b, color, ep, cast).contains(mv),
    ensures legal_shape(b, color, mv), legal_facts(b, ep, mv), apply_ok(b, mv),
{
    lemma_legal_shaped(b, color, ep, cast, 64);
    lemma_legal_facts(b, color, ep, cast, 64);
    let i = choose|i: int| 0 <= i < legal_spec(b, color, ep, cast).len() && legal_spec(b, color, ep, cast)[i] == mv;
    assert(legal_shape(b, color, legal_spec(b, color, ep, cast)[i]));
    assert(legal_facts(b, ep, legal_spec(b, color, ep, cast)[i]));
}

proof fn lemma_sorted_from(before: Seq<(Mv, i32)>, after: Seq<(Mv, i32)>, s: Seq<Mv>)
    requires scored_from(before, s), after.to_multiset() == before.to_multiset(),
    ensures scored_from(after, s),
{
    broadcast use vstd::seq_lib::group_to_multiset_ensures;
    assert forall|i: int| 0 <= i < after.len() implies s.contains(#[trigger] after[i].0) by {
        assert(after.to_multiset().count(after[i]) > 0);
        assert(before.contains(after[i]));
        let j = choose|j: int| 0 <= j < before.len() && before[j] == after[i];
        assert(s.contains(before[j].0));
    }
}

/// Move ordering: TT move, captures (MVV-LVA), killers, history; stable, best first.
fn order_moves(b: &Board, moves: &Vec<Mv>, color: Color, ply: usize, tt_move: Option<Mv>, ctx: &SearchCtx) -> (sc: Vec<(Mv, i32)>)
    requires
        ctx.wf(),
        forall|i: int| 0 <= i < moves@.len() ==> legal_shape(*b, color, #[trigger] moves@[i]),
    ensures
        sc@.len() == moves@.len(),
        scored_from(sc@, moves@),
        sorted_by_score(sc@, true),
{
    let mut sc: Vec<(Mv, i32)> = Vec::new();
    let mut i: usize = 0;
    while i < moves.len()
        invariant
            i <= moves@.len(), sc@.len() == i, ctx.wf(),
            forall|k: int| 0 <= k < moves@.len() ==> legal_shape(*b, color, #[trigger] moves@[k]),
            forall|k: int| 0 <= k < i ==> (#[trigger] sc@[k]).0 == moves@[k],
        decreases moves@.len() - i,
    {
        let mv = moves[i];
        assert(legal_shape(*b, color, moves@[i as int]));
        let mut s: i32 = 0;
        if tt_move == Some(mv) { s += 10_000_000; }
        if mv.ep {
            s += 1_000_000 + 100;
        } else if let Some(t) = b[mv.to.0][mv.to.1] {
            let a = match b[mv.fr.0][mv.fr.1] { Some(a) => a, None => t };
            s += pv(t.k) * 10 - pv(a.k) + 1_000_000;
        }
        let k = ctx.killers[if ply > 63 { 63 } else { ply }];
        if k[0] == Some(mv) { s += 500_000; } else if k[1] == Some(mv) { s += 250_000; }
        let fk = match b[mv.fr.0][mv.fr.1] { Some(a) => a.k, None => Kind::P };
        let pi = piece_index(color, fk);
        s = s.wrapping_add(ctx.history[pi][mv.to.0 * 8 + mv.to.1]);
        sc.push((mv, s));
        i += 1;
    }
    assert(scored_from(sc@, moves@)) by {
        assert forall|k: int| 0 <= k < sc@.len() implies moves@.contains(#[trigger] sc@[k].0) by {
            assert(moves@[k] == sc@[k].0);
        }
    }
    let ghost before = sc@;
    sort_by_score(&mut sc, true);
    proof { lemma_sorted_from(before, sc@, moves@); }
    sc
}

/// Whether a move captures, takes en passant or promotes.
pub open spec fn is_noisy(b: Board, mv: Mv) -> bool {
    mv.ep || b[mv.to.0 as int][mv.to.1 as int].is_some() || mv.promo.is_some()
}

/// The MVV-LVA score of a noisy move: 100 for en passant, ten times the victim's value less
/// the attacker's for a capture, 0 for a quiet promotion.
pub open spec fn noisy_score(b: Board, mv: Mv) -> i32 {
    if mv.ep {
        100
    } else {
        match b[mv.to.0 as int][mv.to.1 as int] {
            Some(t) => {
                let a = match b[mv.fr.0 as int][mv.fr.1 as int] { Some(a) => a, None => t };
                (pv(t.k) * 10 - pv(a.k)) as i32
            },
            None => 0,
        }
    }
}

/// The noisy moves of `s`, in their order, each with its MVV-LVA score.
pub open spec fn noisy_list(b: Board, s: Seq<Mv>) -> Seq<(Mv, i32)>
    decreases s.len(),
{
    if s.len() == 0 {
        Seq::empty()
    } else {
        let r = noisy_list(b, s.drop_last());
        if is_noisy(b, s.last()) { r.push((s.last(), noisy_score(b, s.last()))) } else { r }
    }
}

/// Captures, en-passant moves and promotions of `moves`, scored MVV-LVA, best first.
fn noisy_moves(b: &Board, moves: &Vec<Mv>, color: Color) -> (caps: Vec<(Mv, i32)>)
    requires forall|i: int| 0 <= i < moves@.len() ==> legal_shape(*b, color, #[trigger] moves@[i]),
    ensures
        caps@.to_multiset() == noisy_list(*b, moves@).to_multiset(),
        sorted_by_score(caps@, true),
        scored_from(caps@, moves@),
        forall|i: int| 0 <= i < caps@.len() ==> (#[trigger] caps@[i]).0.ep || b[caps@[i].0.to.0 as int][caps@[i].0.to.1 as int].is_some() || caps@[i].0.promo.is_some(),
{
    let mut caps: Vec<(Mv, i32)> = Vec::new();
    let mut i: usize = 0;
    while i < moves.len()
        invariant
            i <= moves@.len(),
            forall|k: int| 0 <= k < moves@.len() ==> legal_shape(*b, color, #[trigger] moves@[k]),
            forall|k: int| 0 <= k < caps@.len() ==> moves@.contains(#[trigger] caps@[k].0),
            forall|k: int| 0 <= k < caps@.len() ==> (#[trigger] caps@[k]).0.ep || b[caps@[k].0.to.0 as int][caps@[k].0.to.1 as int].is_some() || caps@[k].0.promo.is_some(),
            caps@ == noisy_list(*b, moves@.take(i as int)),
        decreases moves@.len() - i,
    {
        let mv = moves[i];
        assert(legal_shape(*b, color, moves@[i as int]));
        assert(moves@.take(i + 1).drop_last() =~= moves@.take(i as int));
        assert(moves@.take(i + 1).last() == mv);
        if mv.ep || b[mv.to.0][mv.to.1].is_some() || mv.promo.is_some() {
            let s: i32 = if mv.ep {
                100
            } else if let Some(t) = b[mv.to.0][mv.to.1] {
                let a = match b[mv.fr.0][mv.fr.1] { Some(a) => a, None => t };
                pv(t.k) * 10 - pv(a.k)
            } else {
                0
            };
            assert(moves@[i as int] == mv);
            assert(s == noisy_score(*b, mv));
            caps.push((mv, s));
        }
        i += 1;
    }
    assert(moves@.take(moves@.len() as int) =~= moves@);
    let ghost before = caps@;
    sort_by_score(&mut caps, true);
    proof {
        broadcast use vstd::seq_lib::group_to_multiset_ensures;
        lemma_sorted_from(before, caps@, moves@);
        assert forall|k: int| 0 <= k < caps@.len() implies (#[trigger] caps@[k]).0.ep || b[caps@[k].0.to.0 as int][caps@[k].0.to.1 as int].is_some() || caps@[k].0.promo.is_some() by {
            assert(caps@.to_multiset().count(caps@[k]) > 0);
            assert(before.contains(caps@[k]));
        }
    }
    caps
}

/// `v` brought into the window `lo..=hi`.
pub open spec fn clamp(v: int, lo: int, hi: int) -> int {
    if v <= lo { lo } else if v >= hi { hi } else { v }
}

/// The better of two scores for the side to move: the larger for White, the smaller for Black.
pub open spec fn better(is_max: bool, x: int, y: int) -> int {
    if is_max { if x >= y { x } else { y } } else { if x <= y { x } else { y } }
}

/// Whether `x` is at least as good as `v` for the side to move.
pub open spec fn at_least(is_max: bool, x: int, v: int) -> bool {
    if is_max { v <= x } else { x <= v }
}

/// The quiescence value of a position with White to move when `is_max`: the better of
/// standing pat (the static evaluation) and the values of the positions after each capture,
/// en-passant move or promotion, with the other side to move.
pub open spec fn q_value(b: Board, is_max: bool, ep: Option<(usize, usize)>, cast: Castle) -> int
    decreases material_measure(b, ep), 1int, 0int,
{
    let color = if is_max { Color::White } else { Color::Black };
    q_fold(b, is_max, ep, cast, legal_spec(b, color, ep, cast), evaluate_spec(b))
}

/// The value of the position after the noisy move `mv`, or none for a quiet move.
pub open spec fn child_val(b: Board, is_max: bool, ep: Option<(usize, usize)>, cast: Castle, mv: Mv) -> Option<int>
    decreases material_measure(b, ep), 0int, 0int,
{
    let nb = apply_board(b, mv);
    let ne = apply_ep(b, mv);
    if is_noisy(b, mv) && 0 <= material_measure(nb, ne) < material_measure(b, ep) {
        Some(q_value(nb, !is_max, ne, apply_castle(b, mv, cast)))
    } else {
        None
    }
}

/// `acc` bettered by the values after each noisy move of `ms`.
pub open spec fn q_fold(b: Board, is_max: bool, ep: Option<(usize, usize)>, cast: Castle, ms: Seq<Mv>, acc: int) -> int
    decreases material_measure(b, ep), 0int, ms.len(),
{
    if ms.len() == 0 {
        acc
    } else {
        let r = q_fold(b, is_max, ep, cast, ms.drop_last(), acc);
        match child_val(b, is_max, ep, cast, ms.last()) {
            Some(v) => better(is_max, r, v),
            None => r,
        }
    }
}

proof fn lemma_q_fold_lower(b: Board, is_max: bool, ep: Option<(usize, usize)>, cast: Castle, ms: Seq<Mv>, acc: int)
    ensures
        at_least(is_max, q_fold(b, is_max, ep, cast, ms, acc), acc),
        forall|mv: Mv| #![trigger ms.contains(mv)] ms.contains(mv) ==> match child_val(b, is_max, ep, cast, mv) {
            Some(v) => at_least(is_max, q_fold(b, is_max, ep, cast, ms, acc), v),
            None => true,
        },
    decreases ms.len(),
{
    if ms.len() > 0 {
        lemma_q_fold_lower(b, is_max, ep, cast, ms.drop_last(), acc);
        assert forall|mv: Mv| #![trigger ms.contains(mv)] ms.contains(mv) implies match child_val(b, is_max, ep, cast, mv) {
            Some(v) => at_least(is_max, q_fold(b, is_max, ep, cast, ms, acc), v),
            None => true,
        } by {
            let k = choose|k: int| 0 <= k < ms.len() && ms[k] == mv;
            if k < ms.len() - 1 {
                assert(ms.drop_last()[k] == mv);
                assert(ms.drop_last().contains(mv));
            }
        }
    }
}

proof fn lemma_q_fold_upper(b: Board, is_max: bool, ep: Option<(usize, usize)>, cast: Castle, ms: Seq<Mv>, acc: int, x: int)
    requires
        at_least(is_max, x, acc),
        forall|k: int| 0 <= k < ms.len() ==> match child_val(b, is_max, ep, cast, #[trigger] ms[k]) {
            Some(v) => at_least(is_max, x, v),
            None => true,
        },
    ensures at_least(is_max, x, q_fold(b, is_max, ep, cast, ms, acc)),
    decreases ms.len(),
{
    if ms.len() > 0 {
        assert forall|k: int| 0 <= k < ms.drop_last().len() implies match child_val(b, is_max, ep, cast, #[trigger] ms.drop_last()[k]) {
            Some(v) => at_least(is_max, x, v),
            None => true,
        } by {
            assert(ms.drop_last()[k] == ms[k]);
        }
        lemma_q_fold_upper(b, is_max, ep, cast, ms.drop_last(), acc, x);
        assert(ms.last() == ms[ms.len() - 1]);
    }
}

proof fn lemma_noisy_listed(b: Board, s: Seq<Mv>, mv: Mv)
    requires s.contains(mv), is_noisy(b, mv),
    ensures noisy_list(b, s).contains((mv, noisy_score(b, mv))),
    decreases s.len(),
{
    if s.last() == mv {
        assert(noisy_list(b, s).last() == (mv, noisy_score(b, mv)));
    } else {
        let k = choose|k: int| 0 <= k < s.len() && s[k] == mv;
        assert(s.drop_last()[k] == mv);
        lemma_noisy_listed(b, s.drop_last(), mv);
        let r = noisy_list(b, s.drop_last());
        let j = choose|j: int| 0 <= j < r.len() && r[j] == (mv, noisy_score(b, mv));
        if is_noisy(b, s.last()) {
            assert(noisy_list(b, s)[j] == r[j]);
        }
    }
}

/// The value after a legal noisy move is defined: such a move lowers the material measure.
proof fn lemma_child_defined(b: Board, color: Color, is_max: bool, ep: Option<(usize, usize)>, cast: Castle, mv: Mv)
    requires legal_spec(b, color, ep, cast).contains(mv), is_noisy(b, mv),
    ensures
        child_val(b, is_max, ep, cast, mv) == Some(q_value(apply_board(b, mv), !is_max, apply_ep(b, mv), apply_castle(b, mv, cast))),
{
    lemma_legal_props(b, color, ep, cast, mv);
    lemma_capture_shrinks(b, ep, mv);
}

/// Every noisy legal move is among `caps`, so the values after `caps` bound the quiescence value.
proof fn lemma_caps_cover(b: Board, is_max: bool, ep: Option<(usize, usize)>, cast: Castle, caps: Seq<(Mv, i32)>, x: int)
    requires
        caps.to_multiset() == noisy_list(b, legal_spec(b, if is_max { Color::White } else { Color::Black }, ep, cast)).to_multiset(),
        at_least(is_max, x, evaluate_spec(b)),
        forall|k: int| 0 <= k < caps.len() ==> match child_val(b, is_max, ep, cast, (#[trigger] caps[k]).0) {
            Some(v) => at_least(is_max, x, v),
            None => true,
        },
    ensures at_least(is_max, x, q_value(b, is_max, ep, cast)),
{
    broadcast use vstd::seq_lib::group_to_multiset_ensures;
    let color = if is_max { Color::White } else { Color::Black };
    let ms = legal_spec(b, color, ep, cast);
    assert forall|k: int| 0 <= k < ms.len() implies match child_val(b, is_max, ep, cast, #[trigger] ms[k]) {
        Some(v) => at_least(is_max, x, v),
        None => true,
    } by {
        let mv = ms[k];
        if child_val(b, is_max, ep, cast, mv) is Some {
            assert(ms.contains(mv));
            lemma_noisy_listed(b, ms, mv);
            let e = (mv, noisy_score(b, mv));
            assert(noisy_list(b, ms).to_multiset().count(e) > 0);
            assert(caps.to_multiset().count(e) > 0);
            assert(caps.contains(e));
            let j = choose|j: int| 0 <= j < caps.len() && caps[j] == e;
            assert(caps[j].0 == mv);
        }
    }
    lemma_q_fold_upper(b, is_max, ep, cast, ms, evaluate_spec(b), x);
}

/// Quiescence search: stand pat, then only captures, promotions and en-passant moves
/// (fail-hard): within a window, the quiescence value brought into the window.
#[verifier::rlimit(60)]
fn quiesce(b: &Board, alpha: i32, beta: i32, is_max: bool, ep: Option<(usize, usize)>, cast: &Castle, ctx: &mut SearchCtx) -> (score: i32)
    ensures
        *final(ctx) == *old(ctx),
        alpha < beta ==> score == clamp(q_value(*b, is_max, ep, *cast), alpha as int, beta as int),
    decreases material_measure(*b, ep),
{
    let ghost a0 = alpha as int;
    let ghost b0 = beta as int;
    let color = if is_max { Color::White } else { Color::Black };
    let ghost q = q_value(*b, is_max, ep, *cast);
    let ghost bound = if is_max { a0 } else { b0 };
    let mut lo = alpha;
    let mut hi = beta;
    let sp = evaluate(b);
    proof { lemma_q_fold_lower(*b, is_max, ep, *cast, legal_spec(*b, color, ep, *cast), sp as int); }
    if is_max {
        if sp >= hi { return hi; }
        if sp > lo { lo = sp; }
    } else {
        if sp <= lo { return lo; }
        if sp < hi { hi = sp; }
    }
    let moves = legal(b, color, ep, cast);
    proof {
        assert forall|k: int| 0 <= k < moves@.len() implies legal_shape(*b, color, #[trigger] moves@[k]) by {
            lemma_legal_props(*b, color, ep, *cast, moves@[k]);
        }
    }
    let caps = noisy_moves(b, &moves, color);
    let mut i: usize = 0;
    while i < caps.len()
        invariant
            i <= caps@.len(),
            color == (if is_max { Color::White } else { Color::Black }),
            moves@ == legal_spec(*b, color, ep, *cast),
            scored_from(caps@, moves@),
            caps@.to_multiset() == noisy_list(*b, moves@).to_multiset(),
            *ctx == *old(ctx),
            forall|k: int| 0 <= k < caps@.len() ==> (#[trigger] caps@[k]).0.ep || b[caps@[k].0.to.0 as int][caps@[k].0.to.1 as int].is_some() || caps@[k].0.promo.is_some(),
            q == q_value(*b, is_max, ep, *cast),
            a0 == alpha as int, b0 == beta as int,
            bound == (if is_max { a0 } else { b0 }),
            at_least(is_max, q, sp as int),
            forall|mv: Mv| #![trigger moves@.contains(mv)] moves@.contains(mv) ==> match child_val(*b, is_max, ep, *cast, mv) {
                Some(v) => at_least(is_max, q, v),
                None => true,
            },
            a0 < b0 ==> {
                let cur = if is_max { lo as int } else { hi as int };
                &&& a0 <= lo < hi <= b0
                &&& (if is_max { hi == b0 } else { lo == a0 })
                &&& at_least(is_max, cur, sp as int)
                &&& at_least(is_max, cur, bound)
                &&& at_least(is_max, better(is_max, bound, q), cur)
                &&& forall|k: int| 0 <= k < i ==> match child_val(*b, is_max, ep, *cast, (#[trigger] caps@[k]).0) {
                    Some(v) => at_least(is_max, cur, v),
                    None => true,
                }
            },
        decreases caps@.len() - i,
    {
        let mv = caps[i].0;
        assert(moves@.contains(caps@[i as int].0));
        proof { lemma_legal_props(*b, color, ep, *cast, mv); }
        let (nb, ne, nc) = apply(b, &mv, ep, cast);
        assert(caps@[i as int].0.ep || b[caps@[i as int].0.to.0 as int][caps@[i as int].0.to.1 as int].is_some() || caps@[i as int].0.promo.is_some());
        proof {
            lemma_capture_shrinks(*b, ep, mv);
            lemma_child_defined(*b, color, is_max, ep, *cast, mv);
        }
        let ghost v = q_value(nb, !is_max, ne, nc);
        assert(child_val(*b, is_max, ep, *cast, mv) == Some(v));
        assert(at_least(is_max, q, v));
        let sc = quiesce(&nb, lo, hi, !is_max, ne, &nc, ctx);
        if is_max {
            if sc > lo { lo = sc; }
            if lo >= hi {
                assert(a0 < b0 ==> v >= b0 && q >= b0 && clamp(q, a0, b0) == b0);
                return hi;
            }
        } else {
            if sc < hi { hi = sc; }
            if hi <= lo {
                assert(a0 < b0 ==> v <= a0 && q <= a0 && clamp(q, a0, b0) == a0);
                return lo;
            }
        }
        proof {
            if a0 < b0 {
                let cur = if is_max { lo as int } else { hi as int };
                assert(at_least(is_max, cur, v));
                assert forall|k: int| 0 <= k < i + 1 implies match child_val(*b, is_max, ep, *cast, (#[trigger] caps@[k]).0) {
                    Some(w) => at_least(is_max, cur, w),
                    None => true,
                } by {
                    if k == i { assert(caps@[k].0 == mv); }
                }
            }
        }
        i += 1;
    }
    proof {
        if a0 < b0 {
            let cur = if is_max { lo as int } else { hi as int };
            lemma_caps_cover(*b, is_max, ep, *cast, caps@, cur);
        }
    }
    if is_max { lo } else { hi }
}

/// The score a table entry settles without a search: an exact score of at least the wanted
/// depth, an upper bound at or below `alpha` or a lower bound at or above `beta`.
pub open spec fn tt_cut(e: Option<(TTFlag, u8, i32, Option<Mv>)>, depth: u8, alpha: i32, beta: i32) -> Option<i32> {
    match e {
        Some((fl, td, ts, _)) => if td >= depth && (fl == TTFlag::Exact || (fl == TTFlag::Alpha && ts <= alpha)
            || (fl == TTFlag::Beta && ts >= beta)) { Some(ts) } else { None },
        None => None,
    }
}

/// The flag a searched score is stored with: for White, a lower bound when it reached `beta`,
/// exact when it raised `alpha`, an upper bound otherwise; for Black, `Beta` when it fell to
/// `alpha`, else exact.
pub open spec fn stored_flag(is_max: bool, score: i32, alpha: i32, beta: i32) -> TTFlag {
    if is_max {
        if score >= beta { TTFlag::Beta } else if score > alpha { TTFlag::Exact } else { TTFlag::Alpha }
    } else {
        if score <= alpha { TTFlag::Beta } else { TTFlag::Exact }
    }
}

/// Alpha-beta with a transposition table, killer moves and history heuristic. A table entry
/// for the position that settles the score answers at once; at depth 0 the answer is the
/// quiescence search's; with no legal move it is a mate score (worse the nearer the root for
/// the side mated) or 0 for stalemate; otherwise the moves are searched and the score is
/// stored under the position's hash with the depth, its flag and the best move found.
fn alpha_beta(b: &Board, depth: u8, alpha: i32, beta: i32, is_max: bool, ep: Option<(usize, usize)>, cast: &Castle,
    ply: u8, ctx: &mut SearchCtx, lock: &mut TranspositionTable) -> (score: i32)
    requires
        old(ctx).wf(), old(lock).wf(), ep_file_ok(ep),
        ply + depth <= 64,
    ensures
        final(ctx).wf(), final(lock).wf(),
        ({
            let color = if is_max { Color::White } else { Color::Black };
            let h = crate::engine::zhash_spec(*b, color, ep, *cast);
            match tt_cut(old(lock).lookup(h), depth, alpha, beta) {
                Some(ts) => score == ts && *final(lock) == *old(lock),
                None => if depth == 0 {
                    &&& *final(lock) == *old(lock)
                    &&& alpha < beta ==> score == clamp(q_value(*b, is_max, ep, *cast), alpha as int, beta as int)
                } else if legal_spec(*b, color, ep, *cast).len() == 0 {
                    &&& *final(lock) == *old(lock)
                    &&& score == (if crate::engine::in_check_spec(*b, color) {
                        if is_max { -99000 + ply } else { 99000 - ply }
                    } else { 0 })
                } else {
                    final(lock).lookup(h) matches Some((fl, d, sc, mv)) && d == depth && sc == score
                        && (mv matches Some(m) ==> legal_spec(*b, color, ep, *cast).contains(m))
                        && (alpha < beta ==> fl == stored_flag(is_max, score, alpha, beta))
                },
            }
        }),
    decreases depth,
{
    let ghost a0 = alpha;
    let ghost b0 = beta;
    let mut alpha = alpha;
    let mut beta = beta;
    let hash = zobrist_hash_with(&ctx.z, b, if is_max { Color::White } else { Color::Black }, ep, cast);
    if let Some((fl, td, ts, _bm)) = lock.probe(hash) {
        if td >= depth {
            match fl {
                TTFlag::Exact => { return ts; },
                TTFlag::Alpha => { if ts <= alpha { return ts; } },
                TTFlag::Beta => { if ts >= beta { return ts; } },
            }
        }
    }
    if depth == 0 {
        return quiesce(b, alpha, beta, is_max, ep, cast, ctx);
    }
    let color = if is_max { Color::White } else { Color::Black };
    let moves = legal(b, color, ep, cast);
    if moves.len() == 0 {
        return if in_check(b, color) { if is_max { -99000 + ply as i32 } else { 99000 - ply as i32 } } else { 0 };
    }
    let tt_move = match lock.probe(hash) { Some((_, _, _, bm)) => bm, None => None };
    proof {
        assert forall|k: int| 0 <= k < moves@.len() implies legal_shape(*b, color, #[trigger] moves@[k]) by {
            lemma_legal_props(*b, color, ep, *cast, moves@[k]);
        }
    }
    let ordered = order_moves(b, &moves, color, ply as usize, tt_move, ctx);
    let old_a = alpha;
    let mut best: i32 = if is_max { i32::MIN } else { i32::MAX };
    let mut best_mv: Option<Mv> = None;
    let mut i: usize = 0;
    while i < ordered.len()
        invariant
            i <= ordered@.len(), 1 <= depth, ply + depth <= 64,
            ctx.wf(), lock.wf(),
            moves@ == legal_spec(*b, color, ep, *cast),
            scored_from(ordered@, moves@),
            best_mv matches Some(m) ==> moves@.contains(m),
            old_a == a0,
            is_max ==> beta == b0 && alpha == (if a0 >= best { a0 } else { best }),
            !is_max ==> alpha == a0 && beta == (if b0 <= best { b0 } else { best }),
        decreases ordered@.len() - i,
    {
        let mv = ordered[i].0;
        assert(moves@.contains(ordered@[i as int].0));
        proof { lemma_legal_props(*b, color, ep, *cast, mv); }
        let (nb, ne, nc) = apply(b, &mv, ep, cast);
        let sc = alpha_beta(&nb, depth - 1, alpha, beta, !is_max, ne, &nc, ply + 1, ctx, lock);
        if is_max {
            if sc > best { best = sc; best_mv = Some(mv); }
            if best > alpha { alpha = best; }
        } else {
            if sc < best { best = sc; best_mv = Some(mv); }
            if best < beta { beta = best; }
        }
        if alpha >= beta {
            if b[mv.to.0][mv.to.1].is_none() && !mv.ep {
                let p = ply as usize;
                let mut k = ctx.killers[p];
                k[1] = k[0];
                k[0] = Some(mv);
                ctx.killers.set(p, k);
                let fk = match b[mv.fr.0][mv.fr.1] { Some(a) => a.k, None => Kind::P };
                let pi = piece_index(color, fk);
                let sq = mv.to.0 * 8 + mv.to.1;
                let d = depth as i32;
                assert(d * d <= 4096) by (nonlinear_arith) requires 0 <= d <= 64;
                ctx.history[pi][sq] = ctx.history[pi][sq].wrapping_add(d * d);
            }
            break;
        }
        i += 1;
    }
    let flag = if alpha >= beta { TTFlag::Beta } else if best > old_a { TTFlag::Exact } else { TTFlag::Alpha };
    lock.store(hash, depth, best, flag, best_mv);
    best
}

/// Iterative deepening at the root: depths 1..=max_depth, stopping early on a found mate.
fn search_root(b: &Board, color: Color, ep: Option<(usize, usize)>, cast: &Castle, max_depth: u8,
    ctx: &mut SearchCtx, lock: &mut TranspositionTable) -> (res: (i32, Option<Mv>))
    requires old(ctx).wf(), old(lock).wf(), ep_file_ok(ep), max_depth <= 64,
    ensures
        final(ctx).wf(), final(lock).wf(),
        res.1.is_none() <==> legal_spec(*b, color, ep, *cast).len() == 0,
        res.1.is_none() ==> res.0 == evaluate_spec(*b),
        res.1 matches Some(mv) ==> legal_spec(*b, color, ep, *cast).contains(mv),
{
    let moves = legal(b, color, ep, cast);
    if moves.len() == 0 {
        return (evaluate(b), None);
    }
    let is_max = color == Color::White;
    let mut best_mv = moves[0];
    assert(moves@.contains(moves@[0]));
    let mut best_sc: i32 = if is_max { i32::MIN } else { i32::MAX };
    let mut d: u8 = 1;
    while d <= max_depth
        invariant
            1 <= d, max_depth <= 64, d <= max_depth + 1,
            ctx.wf(), lock.wf(),
            moves@ == legal_spec(*b, color, ep, *cast),
            moves@.contains(best_mv),
        decreases max_depth + 1 - d,
    {
        best_sc = if is_max { i32::MIN } else { i32::MAX };
        let mut alpha: i32 = i32::MIN + 1;
        let mut beta: i32 = i32::MAX - 1;
        let mut i: usize = 0;
        while i < moves.len()
            invariant
                i <= moves@.len(), 1 <= d <= max_depth, max_depth <= 64,
                ctx.wf(), lock.wf(),
                moves@ == legal_spec(*b, color, ep, *cast),
                moves@.contains(best_mv),
            decreases moves@.len() - i,
        {
            let mv = moves[i];
            assert(moves@.contains(moves@[i as int]));
            proof { lemma_legal_props(*b, color, ep, *cast, mv); }
            let (nb, ne, nc) = apply(b, &mv, ep, cast);
            let sc = alpha_beta(&nb, d - 1, alpha, beta, !is_max, ne, &nc, 1, ctx, lock);
            if is_max {
                if sc > best_sc { best_sc = sc; best_mv = mv; }
                if sc > alpha { alpha = sc; }
            } else {
                if sc < best_sc { best_sc = sc; best_mv = mv; }
                if sc < beta { beta = sc; }
            }
            if alpha >= beta { break; }
            i += 1;
        }
        if (is_max && best_sc > 98000) || (!is_max && best_sc < -98000) { break; }
        if d == max_depth { break; }
        d += 1;
    }
    (best_sc, Some(best_mv))
}

/// The computer's move: the opening book's move while the game is in book, else the move of
/// a fresh search of `depth` plies; `None` when there is no legal move.
pub fn best_mv(b: &Board, color: Color, ep: Option<(usize, usize)>, cast: &Castle, depth: u8,
    history: &Vec<HistEntry>) -> (r: Option<Mv>)
    requires ep_file_ok(ep), depth <= 64,
    ensures
        book_move_spec(history@, *b, color, ep, *cast) is Some ==> r == book_move_spec(history@, *b, color, ep, *cast),
        book_move_spec(history@, *b, color, ep, *cast) is None ==> {
            &&& (r is None <==> legal_spec(*b, color, ep, *cast).len() == 0)
            &&& (r matches Some(mv) ==> legal_spec(*b, color, ep, *cast).contains(mv))
        },
{
    match book_move(history, b, color, ep, cast) {
        Some(mv) => {
            return Some(mv);
        },
        None => {},
    }
    let moves = legal(b, color, ep, cast);
    if moves.len() == 0 {
        return None;
    }
    let mut ctx = SearchCtx::new();
    let mut tt = TranspositionTable::new();
    let (_, mv) = search_root(b, color, ep, cast, depth, &mut ctx, &mut tt);
    mv
}

/// Best move with its score from a fresh search of `depth` plies; with no legal move,
/// no move and the static evaluation.
pub fn best_mv_with_score(b: &Board, color: Color, ep: Option<(usize, usize)>, cast: &Castle, depth: u8) -> (res: (Option<Mv>, i32))
    requires ep_file_ok(ep), depth <= 64,
    ensures
        res.0.is_none() <==> legal_spec(*b, color, ep, *cast).len() == 0,
        res.0.is_none() ==> res.1 == evaluate_spec(*b),
        res.0 matches Some(mv) ==> legal_spec(*b, color, ep, *cast).contains(mv),
{
    let moves = legal(b, color, ep, cast);
    if moves.len() == 0 {
        return (None, evaluate(b));
    }
    let mut ctx = SearchCtx::new();
    let mut lock = TranspositionTable::new();
    let (sc, mv) = search_root(b, color, ep, cast, depth, &mut ctx, &mut lock);
    (mv, sc)
}

/// The moves of a scored list, in order.
pub open spec fn firsts(s: Seq<(Mv, i32)>) -> Seq<Mv> {
    s.map_values(|e: (Mv, i32)| e.0)
}

proof fn lemma_firsts_perm(a: Seq<(Mv, i32)>, b: Seq<(Mv, i32)>)
    requires a.to_multiset() == b.to_multiset(),
    ensures firsts(a).to_multiset() == firsts(b).to_multiset(),
    decreases a.len(),
{
    broadcast use vstd::seq_lib::group_to_multiset_ensures;
    broadcast use vstd::multiset::group_multiset_axioms;
    if a.len() == 0 {
        assert(b.to_multiset().len() == 0);
        assert(b.len() == 0);
        assert(firsts(a) =~= firsts(b));
    } else {
        let x = a.last();
        let a1 = a.drop_last();
        assert(a =~= a1.push(x));
        assert(b.to_multiset().count(x) > 0);
        assert(b.contains(x));
        let j = choose|j: int| 0 <= j < b.len() && b[j] == x;
        let b1 = b.remove(j);
        assert(a1.to_multiset() =~= a.to_multiset().remove(x));
        assert(b1.to_multiset() =~= b.to_multiset().remove(x));
        lemma_firsts_perm(a1, b1);
        assert(firsts(a) =~= firsts(a1).push(x.0));
        assert(firsts(b1) =~= firsts(b).remove(j));
        assert(firsts(b)[j] == x.0);
        assert(firsts(b1).to_multiset() =~= firsts(b).to_multiset().remove(x.0));
        assert(firsts(b).to_multiset().count(x.0) > 0) by { assert(firsts(b).contains(x.0)); }
        assert(firsts(a).to_multiset() =~= firsts(b).to_multiset());
    }
}

proof fn lemma_take_sub(s: Seq<Mv>, n: int)
    requires 0 <= n <= s.len(),
    ensures s.take(n).to_multiset().subset_of(s.to_multiset()),
    decreases s.len(),
{
    broadcast use vstd::seq_lib::group_to_multiset_ensures;
    broadcast use vstd::multiset::group_multiset_axioms;
    if n == s.len() {
        assert(s.take(n) =~= s);
    } else {
        lemma_take_sub(s.drop_last(), n);
        assert(s.take(n) =~= s.drop_last().take(n));
        assert(s =~= s.drop_last().push(s.last()));
    }
}

/// Every legal move scored by an alpha-beta search of `depth` plies, best first for the
/// side to move (highest first for White, lowest first for Black), cut to `n` entries.
pub fn top_n_moves(b: &Board, color: Color, ep: Option<(usize, usize)>, cast: &Castle, depth: u8, n: usize) -> (res: Vec<(Mv, i32)>)
    requires ep_file_ok(ep), depth <= 63,
    ensures
        res@.len() == (if n < legal_spec(*b, color, ep, *cast).len() { n as int } else { legal_spec(*b, color, ep, *cast).len() as int }),
        scored_from(res@, legal_spec(*b, color, ep, *cast)),
        firsts(res@).to_multiset().subset_of(legal_spec(*b, color, ep, *cast).to_multiset()),
        sorted_by_score(res@, color == Color::White),
{
    let moves = legal(b, color, ep, cast);
    if moves.len() == 0 {
        let r: Vec<(Mv, i32)> = Vec::new();
        proof {
            lemma_take_sub(moves@, 0);
            assert(firsts(r@) =~= moves@.take(0));
        }
        return r;
    }
    let mut ctx = SearchCtx::new();
    let mut lock = TranspositionTable::new();
    let is_max = color == Color::White;
    let mut scored: Vec<(Mv, i32)> = Vec::new();
    let mut i: usize = 0;
    while i < moves.len()
        invariant
            i <= moves@.len(), depth <= 63, scored@.len() == i,
            ctx.wf(), lock.wf(),
            moves@ == legal_spec(*b, color, ep, *cast),
            forall|k: int| 0 <= k < i ==> (#[trigger] scored@[k]).0 == moves@[k],
        decreases moves@.len() - i,
    {
        let mv = moves[i];
        assert(moves@.contains(moves@[i as int]));
        proof { lemma_legal_props(*b, color, ep, *cast, mv); }
        let (nb, ne, nc) = apply(b, &mv, ep, cast);
        let sc = alpha_beta(&nb, depth, i32::MIN + 1, i32::MAX - 1, !is_max, ne, &nc, 1, &mut ctx, &mut lock);
        scored.push((mv, sc));
        i += 1;
    }
    assert(scored_from(scored@, moves@)) by {
        assert forall|k: int| 0 <= k < scored@.len() implies moves@.contains(#[trigger] scored@[k].0) by {
            assert(moves@[k] == scored@[k].0);
        }
    }
    let ghost before = scored@;
    sort_by_score(&mut scored, is_max);
    proof { lemma_sorted_from(before, scored@, moves@); }
    let ghost full = scored@;
    scored.truncate(n);
    assert(scored@ =~= full.take(scored@.len() as int));
    proof {
        assert(firsts(before) =~= moves@);
        lemma_firsts_perm(full, before);
        assert(firsts(scored@) =~= firsts(full).take(scored@.len() as int));
        lemma_take_sub(firsts(full), scored@.len() as int);
    }
    scored
}

} // verus!
