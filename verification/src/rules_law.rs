//! Laws of the chess rules as the library plays and writes them: castling needs the squares
//! between king and rook empty; castling moves the rook over the king; SAN names enough of
//! the origin square to tell a move from every other of its kind; and the castling rights a
//! FEN gives are the ones its castling field names.
use vstd::prelude::*;
use crate::engine::{Board, Castle, Color, Kind, Mv, inb, legal_spec, apply_board, apply_ok, san_spec, rival,
    file_char, rank_char, lemma_legal_facts, attacked_spec};
use crate::puzzle::fen_spec;
use crate::export::castle_text;
use crate::text::words_spec;

verus! {

/// A castling move is legal only from the king's home file, to the g-file (kingside) or the
/// c-file (queenside) of the same rank, and only when every square strictly between king
/// and rook is empty: f and g kingside, b, c and d queenside.
pub proof fn lemma_castling_path_clear(b: Board, color: Color, ep: Option<(usize, usize)>, cast: Castle, mv: Mv)
    requires
        legal_spec(b, color, ep, cast).contains(mv),
        mv.castle == 1 || mv.castle == 2,
    ensures
        mv.fr.1 == 4,
        mv.castle == 1 ==> mv.to == (mv.fr.0, 6usize)
            && b[mv.fr.0 as int][5] is None && b[mv.fr.0 as int][6] is None,
        mv.castle == 2 ==> mv.to == (mv.fr.0, 2usize)
            && b[mv.fr.0 as int][1] is None && b[mv.fr.0 as int][2] is None && b[mv.fr.0 as int][3] is None,
{
    let l = legal_spec(b, color, ep, cast);
    lemma_legal_facts(b, color, ep, cast, 64);
    let i = choose|i: int| 0 <= i < l.len() && l[i] == mv;
    assert(crate::engine::legal_facts(b, ep, l[i]));
}

/// Castling is a move of the king of the side to move from its home square (e1 for White,
/// e8 for Black), and the king is not in check, does not cross an attacked square and does
/// not land on one: e, f and g kingside; e, d and c queenside.
pub proof fn lemma_castling_not_through_check(b: Board, color: Color, ep: Option<(usize, usize)>, cast: Castle, mv: Mv)
    requires
        legal_spec(b, color, ep, cast).contains(mv),
        mv.castle == 1 || mv.castle == 2,
    ensures
        b[mv.fr.0 as int][mv.fr.1 as int] == Some(crate::engine::Piece { c: color, k: Kind::K }),
        mv.fr == ((if color == Color::White { 7usize } else { 0usize }), 4usize),
        mv.castle == 1 ==> !attacked_spec(b, mv.fr.0 as int, 4, color.opp()) && !attacked_spec(b, mv.fr.0 as int, 5, color.opp())
            && !attacked_spec(b, mv.fr.0 as int, 6, color.opp()),
        mv.castle == 2 ==> !attacked_spec(b, mv.fr.0 as int, 4, color.opp()) && !attacked_spec(b, mv.fr.0 as int, 3, color.opp())
            && !attacked_spec(b, mv.fr.0 as int, 2, color.opp()),
{
    let l = legal_spec(b, color, ep, cast);
    lemma_legal_facts(b, color, ep, cast, 64);
    crate::ai::lemma_legal_props(b, color, ep, cast, mv);
    let i = choose|i: int| 0 <= i < l.len() && l[i] == mv;
    assert(crate::engine::legal_facts(b, ep, l[i]));
}

/// Castling needs its right: a legal kingside castling move exists only while the side to
/// move keeps its kingside right, a queenside one only while it keeps its queenside right.
pub proof fn lemma_castling_needs_right(b: Board, color: Color, ep: Option<(usize, usize)>, cast: Castle, mv: Mv)
    requires legal_spec(b, color, ep, cast).contains(mv),
    ensures
        mv.castle == 1 ==> (if color == Color::White { cast.wk } else { cast.bk }),
        mv.castle == 2 ==> (if color == Color::White { cast.wq } else { cast.bq }),
{
    let l = legal_spec(b, color, ep, cast);
    crate::engine::lemma_legal_castle_rights(b, color, ep, cast, 64);
    let i = choose|i: int| 0 <= i < l.len() && l[i] == mv;
    assert(crate::engine::castle_right_ok(cast, color, l[i]));
}

/// Kingside castling puts the king on the g-file and the rook of the h-file corner next to
/// it on the f-file, empties the king's square and the corner, and leaves every other
/// square as it was.
pub proof fn lemma_kingside_rook_hop(b: Board, mv: Mv)
    requires
        apply_ok(b, mv), !mv.ep, mv.promo is None,
        mv.castle == 1, mv.fr.1 == 4, mv.to == (mv.fr.0, 6usize),
    ensures
        apply_board(b, mv)[mv.fr.0 as int][6] == b[mv.fr.0 as int][4],
        apply_board(b, mv)[mv.fr.0 as int][5] == b[mv.fr.0 as int][7],
        apply_board(b, mv)[mv.fr.0 as int][4] is None,
        apply_board(b, mv)[mv.fr.0 as int][7] is None,
        forall|i: int, j: int| inb(i, j) && !(i == mv.fr.0 && 4 <= j <= 7) ==> apply_board(b, mv)[i][j] == b[i][j],
{
    broadcast use vstd::array::group_array_axioms;
}

/// Queenside castling puts the king on the c-file and the rook of the a-file corner next to
/// it on the d-file, empties the king's square and the corner, and leaves every other
/// square (the b-file square among them) as it was.
pub proof fn lemma_queenside_rook_hop(b: Board, mv: Mv)
    requires
        apply_ok(b, mv), !mv.ep, mv.promo is None,
        mv.castle == 2, mv.fr.1 == 4, mv.to == (mv.fr.0, 2usize),
    ensures
        apply_board(b, mv)[mv.fr.0 as int][2] == b[mv.fr.0 as int][4],
        apply_board(b, mv)[mv.fr.0 as int][3] == b[mv.fr.0 as int][0],
        apply_board(b, mv)[mv.fr.0 as int][4] is None,
        apply_board(b, mv)[mv.fr.0 as int][0] is None,
        forall|i: int, j: int| inb(i, j) && !(i == mv.fr.0 && (j == 0 || j == 2 || j == 3 || j == 4))
            ==> apply_board(b, mv)[i][j] == b[i][j],
{
    broadcast use vstd::array::group_array_axioms;
}

/// When another legal move of a piece of the same kind goes to the same square, the SAN of a
/// piece move (not a pawn's or the king's) names right after the piece letter enough of the
/// origin square to tell the two apart: its file when their files differ, else its rank
/// when their ranks differ, else both.
pub proof fn lemma_san_tells_rivals_apart(b: Board, mv: Mv, ep: Option<(usize, usize)>, cast: Castle, other: Mv)
    requires
        mv.castle != 1 && mv.castle != 2,
        inb(mv.fr.0 as int, mv.fr.1 as int), inb(mv.to.0 as int, mv.to.1 as int),
        b[mv.fr.0 as int][mv.fr.1 as int] is Some,
        b[mv.fr.0 as int][mv.fr.1 as int].unwrap().k != Kind::P,
        b[mv.fr.0 as int][mv.fr.1 as int].unwrap().k != Kind::K,
        legal_spec(b, b[mv.fr.0 as int][mv.fr.1 as int].unwrap().c, ep, cast).contains(other),
        other.to == mv.to, other.fr != mv.fr,
        b[other.fr.0 as int][other.fr.1 as int] matches Some(q) && q.k == b[mv.fr.0 as int][mv.fr.1 as int].unwrap().k,
    ensures
        san_spec(b, mv, ep, cast).len() > 2,
        (san_spec(b, mv, ep, cast)[1] == file_char(mv.fr.1 as int) && other.fr.1 != mv.fr.1)
        || (san_spec(b, mv, ep, cast)[1] == rank_char(mv.fr.0 as int) && other.fr.0 != mv.fr.0)
        || (san_spec(b, mv, ep, cast)[1] == file_char(mv.fr.1 as int) && san_spec(b, mv, ep, cast)[2] == rank_char(mv.fr.0 as int)),
{
    let p = b[mv.fr.0 as int][mv.fr.1 as int].unwrap();
    let l = legal_spec(b, p.c, ep, cast);
    let pred = rival(b, mv, p.k);
    assert(pred(other));
    l.lemma_filter_contains_rev(pred, other);
    let amb = l.filter(pred);
    assert(amb.contains(other));
    let k = choose|k: int| 0 <= k < amb.len() && amb[k] == other;
    assert(amb[k] == other);
    let d = crate::engine::san_disambig(b, mv, ep, cast, p);
    let is_cap = b[mv.to.0 as int][mv.to.1 as int].is_some() || mv.ep;
    let rest = (if p.k == Kind::P && is_cap { seq![file_char(mv.fr.1 as int)] } else { Seq::empty() })
        + (if is_cap { seq!['x'] } else { Seq::empty() })
        + seq![file_char(mv.to.1 as int), rank_char(mv.to.0 as int)]
        + crate::engine::promo_suffix(mv.promo);
    let letter = crate::engine::piece_letter(p.k);
    assert(letter.len() == 1);
    assert(rest.len() >= 2);
    let sn = san_spec(b, mv, ep, cast);
    assert(sn == letter + d + rest);
    assert(d.len() >= 1);
    assert(sn[1] == d[0]);
    if !crate::engine::any_same_col(amb, mv.fr.1) {
        assert(other.fr.1 != mv.fr.1);
    } else if !crate::engine::any_same_row(amb, mv.fr.0) {
        assert(other.fr.0 != mv.fr.0);
    } else {
        assert(sn[2] == d[1]);
    }
}

/// The castling rights a FEN gives are named by letters of its third field: White's kingside
/// by `K`, White's queenside by `Q`, Black's kingside by `k`, Black's queenside by `q`; with
/// no third field there are none.
pub proof fn lemma_fen_castling_letters(fen: Seq<char>)
    requires fen_spec(fen) is Ok,
    ensures
        fen_spec(fen)->Ok_0.3.wk == (words_spec(fen).len() > 2 && words_spec(fen)[2].contains('K')),
        fen_spec(fen)->Ok_0.3.wq == (words_spec(fen).len() > 2 && words_spec(fen)[2].contains('Q')),
        fen_spec(fen)->Ok_0.3.bk == (words_spec(fen).len() > 2 && words_spec(fen)[2].contains('k')),
        fen_spec(fen)->Ok_0.3.bq == (words_spec(fen).len() > 2 && words_spec(fen)[2].contains('q')),
{
    let dash = "-"@;
    assert(dash.len() == 1 && dash[0] == '-') by { reveal_strlit("-"); }
    assert(!dash.contains('K') && !dash.contains('Q') && !dash.contains('k') && !dash.contains('q'));
}

/// The castling rights written into a FEN's castling field are read back: a FEN whose
/// castling field is the text of rights `c` gives the rights `c`.
pub proof fn lemma_fen_castling_field(fen: Seq<char>, c: Castle)
    requires
        fen_spec(fen) is Ok,
        words_spec(fen).len() > 2,
        words_spec(fen)[2] == castle_text(c),
    ensures
        fen_spec(fen)->Ok_0.3 == c,
{
    let t = castle_text(c);
    let kk = if c.wk { seq!['K'] } else { Seq::<char>::empty() };
    let qq = if c.wq { seq!['Q'] } else { Seq::<char>::empty() };
    let k2 = if c.bk { seq!['k'] } else { Seq::<char>::empty() };
    let q2 = if c.bq { seq!['q'] } else { Seq::<char>::empty() };
    let u = kk + qq + k2 + q2;
    assert forall|i: int| 0 <= i < u.len() implies
        (u[i] == 'K' ==> c.wk) && (u[i] == 'Q' ==> c.wq) && (u[i] == 'k' ==> c.bk) && (u[i] == 'q' ==> c.bq) by {
        if i < kk.len() { assert(u[i] == kk[i]); }
        else if i < kk.len() + qq.len() { assert(u[i] == qq[i - kk.len()]); }
        else if i < kk.len() + qq.len() + k2.len() { assert(u[i] == k2[i - kk.len() - qq.len()]); }
        else { assert(u[i] == q2[i - kk.len() - qq.len() - k2.len()]); }
    }
    if c.wk { assert(u[0] == 'K'); }
    if c.wq { assert(u[kk.len() as int] == 'Q'); }
    if c.bk { assert(u[(kk.len() + qq.len()) as int] == 'k'); }
    if c.bq { assert(u[(kk.len() + qq.len() + k2.len()) as int] == 'q'); }
    if u.len() == 0 {
        assert(t =~= seq!['-']);
        assert(!t.contains('K') && !t.contains('Q') && !t.contains('k') && !t.contains('q')) by {
            assert forall|i: int| 0 <= i < t.len() implies t[i] == '-' by {}
        }
    } else {
        assert(t == u);
    }
}

/// A move that neither castles nor takes en passant puts the moving piece (or, for a
/// promotion, a piece of the promoted kind and the mover's colour) on the target square,
/// empties the origin and leaves every other square as it was.
pub proof fn lemma_plain_move_board(b: Board, mv: Mv)
    requires
        apply_ok(b, mv), !mv.ep, mv.castle != 1, mv.castle != 2, mv.fr != mv.to,
    ensures
        apply_board(b, mv)[mv.to.0 as int][mv.to.1 as int] == (match mv.promo {
            Some(k) => Some(crate::engine::Piece { c: b[mv.fr.0 as int][mv.fr.1 as int].unwrap().c, k: k }),
            None => b[mv.fr.0 as int][mv.fr.1 as int],
        }),
        apply_board(b, mv)[mv.fr.0 as int][mv.fr.1 as int] is None,
        forall|i: int, j: int| inb(i, j) && (i, j) != (mv.fr.0 as int, mv.fr.1 as int) && (i, j) != (mv.to.0 as int, mv.to.1 as int)
            ==> apply_board(b, mv)[i][j] == b[i][j],
{
    broadcast use vstd::array::group_array_axioms;
}

/// An en-passant capture moves the pawn diagonally onto the empty en-passant square and
/// removes the pawn it passes: the one beside the origin, on the target's file.
pub proof fn lemma_en_passant_board(b: Board, mv: Mv)
    requires
        apply_ok(b, mv), mv.ep, mv.castle != 1, mv.castle != 2, mv.promo is None, mv.fr.0 != mv.to.0,
        mv.to.0 == mv.fr.0 + (if b[mv.fr.0 as int][mv.fr.1 as int].unwrap().c == Color::White { -1int } else { 1int }),
    ensures
        apply_board(b, mv)[mv.to.0 as int][mv.to.1 as int] == b[mv.fr.0 as int][mv.fr.1 as int],
        apply_board(b, mv)[mv.fr.0 as int][mv.fr.1 as int] is None,
        apply_board(b, mv)[mv.fr.0 as int][mv.to.1 as int] is None,
        forall|i: int, j: int| inb(i, j) && (i, j) != (mv.fr.0 as int, mv.fr.1 as int) && (i, j) != (mv.to.0 as int, mv.to.1 as int)
            && (i, j) != (mv.fr.0 as int, mv.to.1 as int)
            ==> apply_board(b, mv)[i][j] == b[i][j],
{
    broadcast use vstd::array::group_array_axioms;
}

/// The SAN of a move that does not castle ends with its target square, then `=` and the
/// promoted piece's letter for a promotion; an `x` stands just before the target square
/// exactly when the move captures (a piece on the target square, or en passant).
pub proof fn lemma_san_target(b: Board, mv: Mv, ep: Option<(usize, usize)>, cast: Castle)
    requires
        mv.castle != 1 && mv.castle != 2,
        inb(mv.fr.0 as int, mv.fr.1 as int), inb(mv.to.0 as int, mv.to.1 as int),
        b[mv.fr.0 as int][mv.fr.1 as int] is Some,
    ensures ({
        let s = san_spec(b, mv, ep, cast);
        let k: int = if mv.promo is Some { 2 } else { 0 };
        &&& s.len() >= k + 2
        &&& s[s.len() - k - 2] == file_char(mv.to.1 as int)
        &&& s[s.len() - k - 1] == rank_char(mv.to.0 as int)
        &&& (s.len() >= k + 3 && s[s.len() - k - 3] == 'x') == (b[mv.to.0 as int][mv.to.1 as int] is Some || mv.ep)
        &&& mv.promo is Some ==> s[s.len() - 2] == '=' && s[s.len() - 1] == (match mv.promo {
                Some(Kind::Q) => 'Q', Some(Kind::R) => 'R', Some(Kind::B) => 'B', _ => 'N' })
    }),
{
    let p = b[mv.fr.0 as int][mv.fr.1 as int].unwrap();
    let is_cap = b[mv.to.0 as int][mv.to.1 as int].is_some() || mv.ep;
    let head = crate::engine::piece_letter(p.k) + crate::engine::san_disambig(b, mv, ep, cast, p)
        + (if p.k == Kind::P && is_cap { seq![file_char(mv.fr.1 as int)] } else { Seq::empty() });
    let cap = if is_cap { seq!['x'] } else { Seq::<char>::empty() };
    let dest = seq![file_char(mv.to.1 as int), rank_char(mv.to.0 as int)];
    let suf = crate::engine::promo_suffix(mv.promo);
    let s = san_spec(b, mv, ep, cast);
    assert(s == head + cap + dest + suf);
    let k: int = if mv.promo is Some { 2 } else { 0 };
    assert(suf.len() == k);
    assert(s[s.len() - k - 2] == dest[0]);
    assert(s[s.len() - k - 1] == dest[1]);
    if is_cap {
        assert(s[s.len() - k - 3] == 'x');
    } else {
        assert(crate::engine::piece_letter(p.k).len() >= 1 || p.k == Kind::P);
        if head.len() > 0 {
            assert(s[s.len() - k - 3] == head.last());
            let d = crate::engine::san_disambig(b, mv, ep, cast, p);
            let lt = crate::engine::piece_letter(p.k);
            if d.len() > 0 {
                assert(head.last() == d.last());
                assert(file_char(mv.fr.1 as int) != 'x');
                assert(rank_char(mv.fr.0 as int) != 'x');
                assert(d.last() != 'x');
            } else {
                assert(head.last() == lt.last());
            }
        } else {
            assert(s.len() == k + 2);
        }
    }
}

/// The side to move a FEN gives is White exactly when its second field is `w`.
pub proof fn lemma_fen_side_to_move(fen: Seq<char>)
    requires fen_spec(fen) is Ok,
    ensures (fen_spec(fen)->Ok_0.1 == Color::White) == (words_spec(fen)[1] == "w"@),
{
}

} // verus!
