//! Reading a move typed by the player: castling words, coordinates (`e2e4`, `e7e8q`)
//! or standard algebraic notation (`Nf3`, `exd5`, `e8=Q`).
use vstd::prelude::*;
use crate::engine::{Board, Color, Kind, Mv, Castle, legal, legal_spec};
use crate::text::{chars_of, trim, strip_end, push_char, push_str, string_of, find_char, slice,
    trim_spec, strip_end_spec, find_char_spec};
use crate::config::{ascii_lower, to_ascii_lower};

verus! {

/// `str::to_lowercase`: the lowercase form of a string under Unicode's case mapping.
pub uninterp spec fn str_lowercase(s: Seq<char>) -> Seq<char>;

/// `char::is_alphanumeric`: whether a character is alphabetic or numeric in Unicode's tables.
pub uninterp spec fn char_alnum(c: char) -> bool;

/// Calls `str::to_lowercase`; its result depends on the string alone.
#[verifier::external_body]
pub(crate) fn lowercase(s: &Vec<char>) -> (r: Vec<char>)
    ensures r@ == str_lowercase(s@),
{
    let t: String = s.iter().collect();
    t.to_lowercase().chars().collect()
}

/// Calls `char::is_alphanumeric`; its result depends on the character alone.
#[verifier::external_body]
pub(crate) fn is_alnum(c: char) -> (r: bool)
    ensures r == char_alnum(c),
{
    c.is_alphanumeric()
}

/// The first element of `s` that `p` holds of.
pub open spec fn first_where<A>(s: Seq<A>, p: spec_fn(A) -> bool) -> Option<A>
    decreases s.len(),
{
    if s.len() == 0 { None } else if p(s[0]) { Some(s[0]) } else { first_where(s.drop_first(), p) }
}

proof fn lemma_first_where_hit<A>(s: Seq<A>, p: spec_fn(A) -> bool, i: int)
    requires 0 <= i < s.len(), p(s[i]),
    ensures first_where(s.skip(i), p) == Some(s[i]),
{
    assert(s.skip(i)[0] == s[i]);
    assert(s.skip(i).len() > 0);
}

proof fn lemma_first_where_skip<A>(s: Seq<A>, p: spec_fn(A) -> bool, i: int)
    requires 0 <= i < s.len(), !p(s[i]),
    ensures first_where(s.skip(i), p) == first_where(s.skip(i + 1), p),
{
    assert(s.skip(i).drop_first() =~= s.skip(i + 1));
}

/// The characters of `s` that `p` holds of, in order.
pub open spec fn keep(s: Seq<char>, p: spec_fn(char) -> bool) -> Seq<char> {
    s.filter(p)
}

pub open spec fn is_file(c: char) -> bool { 'a' <= c <= 'h' }

pub open spec fn is_rank(c: char) -> bool { '1' <= c <= '8' }

/// The square named by a file letter and a rank digit, as (row, column) with row 0 the eighth rank.
pub open spec fn sq_of(f: char, r: char) -> (usize, usize) {
    ((8 - (r as int - 48)) as usize, (f as int - 97) as usize)
}

/// The piece a promotion letter names.
pub open spec fn promo_letter(c: char) -> Option<Kind> {
    if c == 'q' { Some(Kind::Q) } else if c == 'r' { Some(Kind::R) } else if c == 'b' { Some(Kind::B) }
    else if c == 'n' { Some(Kind::N) } else { None }
}

fn promo_letter_of(c: char) -> (r: Option<Kind>)
    ensures r == promo_letter(c),
{
    if c == 'q' { Some(Kind::Q) } else if c == 'r' { Some(Kind::R) } else if c == 'b' { Some(Kind::B) }
    else if c == 'n' { Some(Kind::N) } else { None }
}

// ── Castling ─────────────────────────────────────────────────────────────────

pub open spec fn castle_pred(k: u8) -> spec_fn(Mv) -> bool {
    |m: Mv| m.castle == k
}

/// The castling move that a lowercased word asks for: `o-o-o`/`0-0-0` queenside,
/// `o-o`/`0-0` kingside; `None` for any other word.
pub open spec fn castle_choice_spec(moves: Seq<Mv>, low: Seq<char>) -> Option<Result<Mv, Seq<char>>> {
    if low == "o-o-o"@ || low == "0-0-0"@ {
        Some(match first_where(moves, castle_pred(2)) {
            Some(m) => Ok(m),
            None => Err("Queenside castling not available"@),
        })
    } else if low == "o-o"@ || low == "0-0"@ {
        Some(match first_where(moves, castle_pred(1)) {
            Some(m) => Ok(m),
            None => Err("Kingside castling not available"@),
        })
    } else {
        None
    }
}

fn find_castle(moves: &Vec<Mv>, k: u8) -> (r: Option<Mv>)
    ensures r == first_where(moves@, castle_pred(k)),
{
    let mut i: usize = 0;
    assert(moves@.skip(0) =~= moves@);
    while i < moves.len()
        invariant
            i <= moves@.len(),
            first_where(moves@, castle_pred(k)) == first_where(moves@.skip(i as int), castle_pred(k)),
        decreases moves@.len() - i,
    {
        if moves[i].castle == k {
            proof { lemma_first_where_hit(moves@, castle_pred(k), i as int); }
            return Some(moves[i]);
        }
        proof { lemma_first_where_skip(moves@, castle_pred(k), i as int); }
        i += 1;
    }
    None
}

/// Castling, when the lowercased input `low` is a castling word.
pub fn castle_choice(moves: &Vec<Mv>, low: &Vec<char>) -> (r: Option<Result<Mv, String>>)
    ensures
        match (r, castle_choice_spec(moves@, low@)) {
            (Some(Ok(m)), Some(Ok(n))) => m == n,
            (Some(Err(e)), Some(Err(f))) => e@ == f,
            (None, None) => true,
            _ => false,
        },
{
    if crate::text::eq_lit(low, "o-o-o") || crate::text::eq_lit(low, "0-0-0") {
        match find_castle(moves, 2) {
            Some(m) => Some(Ok(m)),
            None => Some(Err(crate::text::owned("Queenside castling not available"))),
        }
    } else if crate::text::eq_lit(low, "o-o") || crate::text::eq_lit(low, "0-0") {
        match find_castle(moves, 1) {
            Some(m) => Some(Ok(m)),
            None => Some(Err(crate::text::owned("Kingside castling not available"))),
        }
    } else {
        None
    }
}

// ── Coordinates ──────────────────────────────────────────────────────────────

/// Whether the alphanumeric characters `c` start with two squares, such as `e2e4`.
pub open spec fn coord_form(c: Seq<char>) -> bool {
    c.len() >= 4 && is_file(c[0]) && is_rank(c[1]) && is_file(c[2]) && is_rank(c[3])
}

/// The promotion piece that a fifth character names, in either case.
pub open spec fn coord_promo(c: Seq<char>) -> Option<Kind> {
    if c.len() > 4 { promo_letter(ascii_lower(c[4])) } else { None }
}

pub open spec fn coord_pred(from: (usize, usize), to: (usize, usize), promo: Option<Kind>) -> spec_fn(Mv) -> bool {
    |m: Mv| m.fr == from && m.to == to && match promo {
        Some(p) => m.promo == Some(p),
        None => m.promo is None || m.promo == Some(Kind::Q),
    }
}

/// Why a coordinate move was refused: the squares, and what stands on the first.
pub open spec fn coord_error(board: Board, color: Color, c: Seq<char>) -> Seq<char> {
    let from = sq_of(c[0], c[1]);
    seq![c[0], c[1]] + " \u{2192} "@ + seq![c[2], c[3]] + " not legal"@
        + (match board[from.0 as int][from.1 as int] {
            None => " (empty square)"@,
            Some(p) => if p.c != color { " (opponent piece)"@ } else { Seq::empty() },
        })
}

/// A move in coordinates: the first legal move between the two squares, with the named
/// promotion, or, where none is named, without one or promoting to a queen.
pub open spec fn coord_move_spec(board: Board, color: Color, moves: Seq<Mv>, c: Seq<char>) -> Result<Mv, Seq<char>> {
    match first_where(moves, coord_pred(sq_of(c[0], c[1]), sq_of(c[2], c[3]), coord_promo(c))) {
        Some(m) => Ok(m),
        None => Err(coord_error(board, color, c)),
    }
}

fn coord_matches(m: &Mv, from: (usize, usize), to: (usize, usize), promo: Option<Kind>) -> (r: bool)
    ensures r == (coord_pred(from, to, promo))(*m),
{
    m.fr.0 == from.0 && m.fr.1 == from.1 && m.to.0 == to.0 && m.to.1 == to.1 && match promo {
        Some(p) => match m.promo { Some(q) => q == p, None => false },
        None => match m.promo { None => true, Some(q) => q == Kind::Q },
    }
}

/// The move that coordinates `c` (alphanumeric characters in coordinate form) name.
pub fn coord_move(board: &Board, color: Color, moves: &Vec<Mv>, c: &Vec<char>) -> (r: Result<Mv, String>)
    requires coord_form(c@),
    ensures
        match (r, coord_move_spec(*board, color, moves@, c@)) {
            (Ok(m), Ok(n)) => m == n,
            (Err(e), Err(f)) => e@ == f,
            _ => false,
        },
{
    let from: (usize, usize) = ((56 - c[1] as u32) as usize, (c[0] as u32 - 97) as usize);
    let to: (usize, usize) = ((56 - c[3] as u32) as usize, (c[2] as u32 - 97) as usize);
    let promo = if c.len() > 4 { promo_letter_of(to_ascii_lower(c[4])) } else { None };
    assert(from == sq_of(c@[0], c@[1]) && to == sq_of(c@[2], c@[3]));
    assert(promo == coord_promo(c@));
    let ghost pred = coord_pred(from, to, promo);
    let mut i: usize = 0;
    assert(moves@.skip(0) =~= moves@);
    while i < moves.len()
        invariant
            i <= moves@.len(), pred == coord_pred(from, to, promo),
            from == sq_of(c@[0], c@[1]), to == sq_of(c@[2], c@[3]), promo == coord_promo(c@),
            first_where(moves@, pred) == first_where(moves@.skip(i as int), pred),
        decreases moves@.len() - i,
    {
        if coord_matches(&moves[i], from, to, promo) {
            proof { lemma_first_where_hit(moves@, pred, i as int); }
            return Ok(moves[i]);
        }
        proof { lemma_first_where_skip(moves@, pred, i as int); }
        i += 1;
    }
    let mut e = String::new();
    push_char(&mut e, c[0]);
    push_char(&mut e, c[1]);
    push_str(&mut e, " \u{2192} ");
    push_char(&mut e, c[2]);
    push_char(&mut e, c[3]);
    push_str(&mut e, " not legal");
    match board[from.0][from.1] {
        None => push_str(&mut e, " (empty square)"),
        Some(p) => {
            if p.c != color {
                push_str(&mut e, " (opponent piece)");
            }
        },
    }
    proof {
        assert(e@ =~= coord_error(*board, color, c@));
    }
    Err(e)
}

// ── Standard algebraic notation ──────────────────────────────────────────────

/// The piece that a SAN string starts with, and how many characters name it: `N`, `B`, `R`,
/// `Q`, `K` (and `n`, `r`, `q`, `k`); a lowercase `b` is a bishop unless a rank follows it;
/// anything else is a pawn move.
pub open spec fn san_piece(s: Seq<char>) -> (Kind, int) {
    let c = s[0];
    if c == 'N' || c == 'n' { (Kind::N, 1) }
    else if c == 'B' { (Kind::B, 1) }
    else if c == 'R' || c == 'r' { (Kind::R, 1) }
    else if c == 'Q' || c == 'q' { (Kind::Q, 1) }
    else if c == 'K' || c == 'k' { (Kind::K, 1) }
    else if c == 'b' { if s.len() > 1 && is_rank(s[1]) { (Kind::P, 0) } else { (Kind::B, 1) } }
    else { (Kind::P, 0) }
}

/// Characters that SAN parsing drops: capture and check marks.
pub open spec fn san_keep() -> spec_fn(char) -> bool {
    |c: char| c != 'x' && c != 'X' && c != '+' && c != '#'
}

pub open spec fn first_char_where(s: Seq<char>, p: spec_fn(char) -> bool) -> Option<char>
    decreases s.len(),
{
    if s.len() == 0 { None } else if p(s[0]) { Some(s[0]) } else { first_char_where(s.drop_first(), p) }
}

/// Characters from `lo` to `hi`.
pub open spec fn char_range(lo: char, hi: char) -> spec_fn(char) -> bool {
    |c: char| lo <= c <= hi
}

/// The row a disambiguating digit names: `8 - d` in `u8` arithmetic, which wraps for `9`.
pub open spec fn dis_row(d: char) -> int {
    let v = d as int - 48;
    if v <= 8 { 8 - v } else { 256 + 8 - v }
}

pub open spec fn san_pred(board: Board, color: Color, kind: Kind, to: (usize, usize), dis_f: Option<char>,
    dis_r: Option<char>, promo: Option<Kind>) -> spec_fn(Mv) -> bool
{
    |m: Mv| (match board[m.fr.0 as int][m.fr.1 as int] { Some(p) => p.c == color && p.k == kind, None => false })
        && m.to == to
        && (match dis_f { Some(f) => m.fr.1 == f as int - 97, None => true })
        && (match dis_r { Some(d) => m.fr.0 == dis_row(d), None => true })
        && (match promo { Some(p) => m.promo == Some(p), None => m.promo is None })
}

/// The move that the lowercased rest `rest` of a SAN string names, for a piece of `kind`: the
/// destination is the last two characters before any `=`, a promotion piece may follow the
/// `=`, and a file or rank before the destination picks among several candidates. A pawn that
/// reaches the last rank with no piece named promotes to a queen.
pub open spec fn san_target_spec(board: Board, color: Color, moves: Seq<Mv>, kind: Kind, rest: Seq<char>) -> Option<Mv> {
    let eq = find_char_spec(rest, '=');
    let dest = if eq < rest.len() { rest.take(eq) } else { rest };
    let promo = if eq + 1 < rest.len() { promo_letter(rest[eq + 1]) } else { None };
    if dest.len() < 2 || !is_file(dest[dest.len() - 2]) || !is_rank(dest[dest.len() - 1]) {
        None
    } else {
        let to = sq_of(dest[dest.len() - 2], dest[dest.len() - 1]);
        let dis = dest.take(dest.len() - 2);
        let tgt = match promo {
            Some(p) => Some(p),
            None => if kind == Kind::P && (to.0 == 0 || to.0 == 7) { Some(Kind::Q) } else { None },
        };
        first_where(moves, san_pred(board, color, kind, to,
            first_char_where(dis, char_range('a', 'h')), first_char_where(dis, char_range('0', '9')), tgt))
    }
}

fn first_char_in(s: &Vec<char>, lo: char, hi: char) -> (r: Option<char>)
    ensures
        r == first_char_where(s@, char_range(lo, hi)),
        r matches Some(c) ==> lo <= c <= hi,
{
    let ghost p = char_range(lo, hi);
    let mut i: usize = 0;
    assert(s@.skip(0) =~= s@);
    while i < s.len()
        invariant
            i <= s@.len(), p == char_range(lo, hi),
            first_char_where(s@, p) == first_char_where(s@.skip(i as int), p),
        decreases s@.len() - i,
    {
        assert(s@.skip(i as int)[0] == s@[i as int]);
        assert(s@.skip(i as int).len() > 0);
        if lo <= s[i] && s[i] <= hi {
            assert(p(s@[i as int]));
            return Some(s[i]);
        }
        assert(!p(s@[i as int]));
        assert(s@.skip(i as int).drop_first() =~= s@.skip(i + 1));
        i += 1;
    }
    None
}

fn san_matches(board: &Board, color: Color, kind: Kind, to: (usize, usize), dis_f: Option<char>,
    dis_r: Option<char>, promo: Option<Kind>, m: &Mv) -> (r: bool)
    requires m.fr.0 < 8, m.fr.1 < 8, dis_r matches Some(d) ==> '0' <= d <= '9',
    ensures r == (san_pred(*board, color, kind, to, dis_f, dis_r, promo))(*m),
{
    let piece_ok = match board[m.fr.0][m.fr.1] { Some(p) => p.c == color && p.k == kind, None => false };
    let f_ok = match dis_f { Some(f) => (97u8 + m.fr.1 as u8) as char == f, None => true };
    let r_ok = match dis_r {
        Some(d) => {
            let v = d as u32 - 48;
            let row: u32 = if v <= 8 { 8 - v } else { 256 + 8 - v };
            m.fr.0 as u32 == row
        },
        None => true,
    };
    let p_ok = match promo {
        Some(p) => match m.promo { Some(q) => q == p, None => false },
        None => m.promo.is_none(),
    };
    let ghost pr = san_pred(*board, color, kind, to, dis_f, dis_r, promo);
    piece_ok && m.to.0 == to.0 && m.to.1 == to.1 && f_ok && r_ok && p_ok
}

/// The legal move that a lowercased SAN rest names.
pub fn san_target(board: &Board, color: Color, moves: &Vec<Mv>, kind: Kind, rest: &Vec<char>) -> (r: Option<Mv>)
    requires forall|i: int| 0 <= i < moves@.len() ==> moves@[i].fr.0 < 8 && moves@[i].fr.1 < 8,
    ensures r == san_target_spec(*board, color, moves@, kind, rest@),
{
    let eq = find_char(rest, '=');
    let dest = if eq < rest.len() { slice(rest, 0, eq) } else { slice(rest, 0, rest.len()) };
    assert(rest@.subrange(0, rest@.len() as int) =~= rest@);
    let promo = if eq < rest.len() && eq + 1 < rest.len() { promo_letter_of(rest[eq + 1]) } else { None };
    let n = dest.len();
    if n < 2 || !('a' <= dest[n - 2] && dest[n - 2] <= 'h') || !('1' <= dest[n - 1] && dest[n - 1] <= '8') {
        return None;
    }
    let to: (usize, usize) = ((56 - dest[n - 1] as u32) as usize, (dest[n - 2] as u32 - 97) as usize);
    assert(to == sq_of(dest@[n - 2], dest@[n - 1]));
    let dis = slice(&dest, 0, n - 2);
    let dis_f = first_char_in(&dis, 'a', 'h');
    let dis_r = first_char_in(&dis, '0', '9');
    proof {
        assert(dis@ =~= dest@.take(n - 2));
    }
    let tgt = match promo {
        Some(p) => Some(p),
        None => if kind == Kind::P && (to.0 == 0 || to.0 == 7) { Some(Kind::Q) } else { None },
    };
    let ghost pred = san_pred(*board, color, kind, to, dis_f, dis_r, tgt);
    assert(san_target_spec(*board, color, moves@, kind, rest@) == first_where(moves@, pred));
    let mut i: usize = 0;
    assert(moves@.skip(0) =~= moves@);
    while i < moves.len()
        invariant
            i <= moves@.len(),
            forall|j: int| 0 <= j < moves@.len() ==> moves@[j].fr.0 < 8 && moves@[j].fr.1 < 8,
            pred == san_pred(*board, color, kind, to, dis_f, dis_r, tgt),
            san_target_spec(*board, color, moves@, kind, rest@) == first_where(moves@, pred),
            dis_r matches Some(d) ==> '0' <= d <= '9',
            first_where(moves@, pred) == first_where(moves@.skip(i as int), pred),
        decreases moves@.len() - i,
    {
        if san_matches(board, color, kind, to, dis_f, dis_r, tgt, &moves[i]) {
            proof { lemma_first_where_hit(moves@, pred, i as int); }
            return Some(moves[i]);
        }
        proof { lemma_first_where_skip(moves@, pred, i as int); }
        i += 1;
    }
    None
}

/// The characters of `s` that `char::is_alphanumeric` accepts.
pub open spec fn alnum_pred() -> spec_fn(char) -> bool {
    |c: char| char_alnum(c)
}

fn keep_alnum(s: &Vec<char>) -> (r: Vec<char>)
    ensures r@ == s@.filter(alnum_pred()),
{
    let mut r: Vec<char> = Vec::new();
    let mut i: usize = 0;
    assert(s@.take(0) =~= Seq::<char>::empty());
    while i < s.len()
        invariant
            i <= s@.len(),
            r@ == s@.take(i as int).filter(alnum_pred()),
        decreases s@.len() - i,
    {
        assert(s@.take(i + 1).drop_last() =~= s@.take(i as int));
        proof { reveal(Seq::filter); }
        if is_alnum(s[i]) {
            r.push(s[i]);
        }
        i += 1;
    }
    assert(s@.take(s@.len() as int) =~= s@);
    r
}

/// The characters of `s` from `from` on, without capture and check marks.
fn keep_san(s: &Vec<char>, from: usize) -> (r: Vec<char>)
    requires from <= s@.len(),
    ensures r@ == s@.skip(from as int).filter(san_keep()),
{
    let ghost t = s@.skip(from as int);
    let mut r: Vec<char> = Vec::new();
    let mut i: usize = from;
    assert(t.take(0) =~= Seq::<char>::empty());
    while i < s.len()
        invariant
            from <= i <= s@.len(), t == s@.skip(from as int),
            r@ == t.take(i - from).filter(san_keep()),
        decreases s@.len() - i,
    {
        assert(t.take(i - from + 1).drop_last() =~= t.take(i - from));
        assert(t[i - from] == s@[i as int]);
        proof { reveal(Seq::filter); }
        let c = s[i];
        if c != 'x' && c != 'X' && c != '+' && c != '#' {
            r.push(c);
        }
        i += 1;
    }
    assert(t.take(s@.len() - from) =~= t);
    r
}

/// The move that a SAN string `s` names among `moves`: the piece letter is read, capture
/// and check marks are dropped, the rest is lowercased and read by `san_target_spec`.
pub open spec fn san_parse_spec(board: Board, color: Color, moves: Seq<Mv>, s: Seq<char>) -> Option<Mv> {
    if s.len() == 0 {
        None
    } else {
        let (kind, skip) = san_piece(s);
        san_target_spec(board, color, moves, kind, str_lowercase(s.skip(skip).filter(san_keep())))
    }
}

fn san_piece_of(s: &Vec<char>) -> (r: (Kind, usize))
    requires s@.len() > 0,
    ensures r.0 == san_piece(s@).0, r.1 == san_piece(s@).1,
{
    let c = s[0];
    if c == 'N' || c == 'n' { (Kind::N, 1) }
    else if c == 'B' { (Kind::B, 1) }
    else if c == 'R' || c == 'r' { (Kind::R, 1) }
    else if c == 'Q' || c == 'q' { (Kind::Q, 1) }
    else if c == 'K' || c == 'k' { (Kind::K, 1) }
    else if c == 'b' { if s.len() > 1 && '1' <= s[1] && s[1] <= '8' { (Kind::P, 0) } else { (Kind::B, 1) } }
    else { (Kind::P, 0) }
}

fn san_parse(board: &Board, color: Color, moves: &Vec<Mv>, s: &Vec<char>) -> (r: Option<Mv>)
    requires forall|i: int| 0 <= i < moves@.len() ==> moves@[i].fr.0 < 8 && moves@[i].fr.1 < 8,
    ensures r == san_parse_spec(*board, color, moves@, s@),
{
    if s.len() == 0 {
        return None;
    }
    let (kind, skip) = san_piece_of(s);
    let kept = keep_san(s, skip);
    let rest = lowercase(&kept);
    san_target(board, color, moves, kind, &rest)
}

/// The input with surrounding whitespace, then trailing `+` and `#` marks, removed.
pub open spec fn cleaned(input: Seq<char>) -> Seq<char> {
    trim_spec(strip_end_spec(strip_end_spec(trim_spec(input), '+'), '#'))
}

/// What `parse_notation` answers for `input`, given the legal moves: castling words first,
/// then coordinates, then SAN; each refusal comes with a message for the player.
pub open spec fn notation_spec(board: Board, color: Color, ep: Option<(usize, usize)>, cast: Castle, input: Seq<char>)
    -> Result<Mv, Seq<char>>
{
    let moves = legal_spec(board, color, ep, cast);
    let raw = trim_spec(input);
    let s = cleaned(input);
    let coord = s.filter(alnum_pred());
    if moves.len() == 0 {
        Err("No legal moves"@)
    } else if castle_choice_spec(moves, str_lowercase(s)) is Some {
        castle_choice_spec(moves, str_lowercase(s))->0
    } else if coord_form(coord) {
        coord_move_spec(board, color, moves, coord)
    } else {
        match san_parse_spec(board, color, moves, s) {
            Some(m) => Ok(m),
            None => Err(seq!['\''] + raw + "' \u{2014} try: e2e4  Nf3  Qg4  O-O  O-O-O"@),
        }
    }
}

/// Reads a move typed by the player for `color` to move: `O-O`/`O-O-O` (or with zeros),
/// coordinates such as `e2e4` or `e7e8q`, or SAN such as `Nf3`, `exd5`, `e8=Q`.
pub fn parse_notation(board: &Board, color: Color, ep: Option<(usize, usize)>, cast: &Castle, input: &str)
    -> (r: Result<Mv, String>)
    ensures
        match (r, notation_spec(*board, color, ep, *cast, input@)) {
            (Ok(m), Ok(n)) => m == n,
            (Err(e), Err(f)) => e@ == f,
            _ => false,
        },
{
    let moves = legal(board, color, ep, cast);
    if moves.len() == 0 {
        return Err(crate::text::owned("No legal moves"));
    }
    proof {
        crate::engine::lemma_legal_shaped(*board, color, ep, *cast, 64);
    }
    let chars = chars_of(input);
    let raw = trim(&chars);
    let s = trim(&strip_end(&strip_end(&raw, '+'), '#'));
    let low = lowercase(&s);
    match castle_choice(&moves, &low) {
        Some(res) => {
            return res;
        },
        None => {},
    }
    let coord = keep_alnum(&s);
    if coord.len() >= 4 && 'a' <= coord[0] && coord[0] <= 'h' && '1' <= coord[1] && coord[1] <= '8'
        && 'a' <= coord[2] && coord[2] <= 'h' && '1' <= coord[3] && coord[3] <= '8'
    {
        return coord_move(board, color, &moves, &coord);
    }
    match san_parse(board, color, &moves, &s) {
        Some(m) => Ok(m),
        None => {
            let mut e = String::new();
            push_char(&mut e, '\'');
            crate::text::push_chars(&mut e, &raw);
            push_str(&mut e, "' \u{2014} try: e2e4  Nf3  Qg4  O-O  O-O-O");
            Err(e)
        },
    }
}

} // verus!
