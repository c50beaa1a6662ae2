//! Lichess puzzles: the puzzle record, its solving states, reading the fetcher's output, and
//! reading positions in FEN.
use vstd::prelude::*;
use vstd::utf8::encode_utf8;
use vstd::string::StrSliceExecFns;
use crate::engine::{Board, Castle, Color, Kind, Piece, inb};
use crate::config::ascii_lower;
use crate::text::{chars_of, eq_lit, words, words_spec, split, split_spec, push_char, push_str, owned, string_of,
    lines, lines_spec, trim, trim_spec, slice};
use crate::num::{parse_unsigned, parse_unsigned_spec};

verus! {

#[derive(Debug, Clone)]
pub struct Puzzle {
    pub id: String,
    pub fen: String,
    pub moves: Vec<String>,
    pub rating: u32,
    pub themes: Vec<String>,
    pub solution_start: usize,
}

#[derive(Debug, Clone)]
pub enum PuzzleState {
    Loading,
    Failed(String),
    Setup,
    WaitingInput,
    CorrectMove,
    WrongMove(String),
    Solved,
}

/// A board as rows of squares.
pub type Grid = Seq<Seq<Option<Piece>>>;

pub open spec fn empty_grid() -> Grid {
    Seq::new(8, |r: int| Seq::new(8, |c: int| None::<Piece>))
}

/// The piece kind a FEN letter names, in either case.
pub open spec fn fen_kind(ch: char) -> Option<Kind> {
    let l = ascii_lower(ch);
    if l == 'k' { Some(Kind::K) } else if l == 'q' { Some(Kind::Q) } else if l == 'r' { Some(Kind::R) }
    else if l == 'b' { Some(Kind::B) } else if l == 'n' { Some(Kind::N) } else if l == 'p' { Some(Kind::P) } else { None }
}

/// Placing the rank text `s` from index `i` on row `r`, with the next column `c`: a digit
/// skips that many columns, a letter places a piece (uppercase White); an unknown letter or a
/// piece past the eighth column is an error.
pub open spec fn rank_from(g: Grid, r: int, s: Seq<char>, i: int, c: nat) -> Result<Grid, Seq<char>>
    decreases s.len() - i,
{
    if i >= s.len() {
        Ok(g)
    } else {
        let ch = s[i];
        if '0' <= ch <= '9' {
            rank_from(g, r, s, i + 1, (c + (ch as int - 48)) as nat)
        } else {
            match fen_kind(ch) {
                None => Err("Unknown piece '"@ + seq![ascii_lower(ch)] + "'"@),
                Some(k) => if c >= 8 {
                    Err("FEN rank overflow"@)
                } else {
                    let p = Piece { c: if 'A' <= ch <= 'Z' { Color::White } else { Color::Black }, k };
                    rank_from(g.update(r, g[r].update(c as int, Some(p))), r, s, i + 1, c + 1)
                },
            }
        }
    }
}

/// The first `n` ranks placed in order, stopping at the first error.
pub open spec fn ranks_upto(ranks: Seq<Seq<char>>, n: nat) -> Result<Grid, Seq<char>>
    decreases n,
{
    if n == 0 {
        Ok(empty_grid())
    } else {
        match ranks_upto(ranks, (n - 1) as nat) {
            Ok(g) => rank_from(g, n - 1, ranks[n - 1], 0, 0),
            Err(e) => Err(e),
        }
    }
}

/// The en-passant square of a FEN field, read from its first two bytes as file and rank;
/// the rank digit is taken as `u8` arithmetic that wraps below `'0'`.
pub open spec fn fen_ep(s: Seq<char>) -> Option<(usize, usize)> {
    let b = encode_utf8(s);
    if s == "-"@ || b.len() < 2 {
        None
    } else {
        let col = vstd::wrapping::u8_specs::wrapping_sub(b[0], 97u8) as int;
        let d = vstd::wrapping::u8_specs::wrapping_sub(b[1], 48u8) as int;
        if d > 8 { None } else if col < 8 && 8 - d < 8 { Some(((8 - d) as usize, col as usize)) } else { None }
    }
}

proof fn lemma_ranks_err(ranks: Seq<Seq<char>>, m: nat, n: nat)
    requires m <= n, ranks_upto(ranks, m) is Err,
    ensures ranks_upto(ranks, n) == ranks_upto(ranks, m),
    decreases n - m,
{
    if m < n {
        lemma_ranks_err(ranks, m, (n - 1) as nat);
    }
}

/// What a FEN text gives: board, side to move, en-passant square, castling rights and the
/// full-move number (1 when missing or unreadable).
pub open spec fn fen_spec(fen: Seq<char>) -> Result<(Grid, Color, Option<(usize, usize)>, Castle, u32), Seq<char>> {
    let parts = words_spec(fen);
    if parts.len() < 2 {
        Err("FEN too short"@)
    } else if split_spec(parts[0], '/').len() != 8 {
        Err("FEN must have 8 ranks"@)
    } else {
        match ranks_upto(split_spec(parts[0], '/'), 8) {
            Err(e) => Err(e),
            Ok(g) => {
                let cs = if parts.len() > 2 { parts[2] } else { "-"@ };
                Ok((
                    g,
                    if parts[1] == "w"@ { Color::White } else { Color::Black },
                    if parts.len() > 3 { fen_ep(parts[3]) } else { None },
                    Castle { wk: cs.contains('K'), wq: cs.contains('Q'), bk: cs.contains('k'), bq: cs.contains('q') },
                    if parts.len() > 5 {
                        match parse_unsigned_spec(parts[5], u32::MAX as nat) { Some(n) => n as u32, None => 1u32 }
                    } else {
                        1u32
                    },
                ))
            },
        }
    }
}

/// Whether an exec board holds the rows of `g`.
pub open spec fn board_is(b: Board, g: Grid) -> bool {
    forall|r: int, c: int| inb(r, c) ==> b[r][c] == g[r][c]
}

pub open spec fn grid_ok(g: Grid) -> bool {
    g.len() == 8 && forall|r: int| 0 <= r < 8 ==> #[trigger] g[r].len() == 8
}

fn fen_kind_of(ch: char) -> (r: Option<Kind>)
    ensures r == fen_kind(ch),
{
    let l = crate::config::to_ascii_lower(ch);
    if l == 'k' { Some(Kind::K) } else if l == 'q' { Some(Kind::Q) } else if l == 'r' { Some(Kind::R) }
    else if l == 'b' { Some(Kind::B) } else if l == 'n' { Some(Kind::N) } else if l == 'p' { Some(Kind::P) } else { None }
}

fn place_rank(b: &mut Board, r: usize, s: &Vec<char>, Ghost(g): Ghost<Grid>) -> (res: Result<(), String>)
    requires r < 8, board_is(*old(b), g), grid_ok(g),
    ensures
        match (res, rank_from(g, r as int, s@, 0, 0)) {
            (Ok(()), Ok(g2)) => board_is(*final(b), g2) && grid_ok(g2),
            (Err(e), Err(f)) => e@ == f,
            _ => false,
        },
{
    let mut c: usize = 0;
    let ghost mut cs: nat = 0;
    let ghost mut gg = g;
    let mut i: usize = 0;
    while i < s.len()
        invariant
            r < 8, i <= s@.len(), board_is(*b, gg), grid_ok(gg),
            (c >= 8) == (cs >= 8), cs < 8 ==> c == cs,
            rank_from(g, r as int, s@, 0, 0) == rank_from(gg, r as int, s@, i as int, cs),
        decreases s@.len() - i,
    {
        let ch = s[i];
        if '0' <= ch && ch <= '9' {
            let d = (ch as u32 - 48) as usize;
            proof { cs = (cs + d) as nat; }
            if c < 8 { c = c + d; }
        } else {
            match fen_kind_of(ch) {
                None => {
                    let mut e = owned("Unknown piece '");
                    push_char(&mut e, crate::config::to_ascii_lower(ch));
                    push_str(&mut e, "'");
                    return Err(e);
                },
                Some(k) => {
                    if c >= 8 {
                        return Err(owned("FEN rank overflow"));
                    }
                    let p = Piece { c: if 'A' <= ch && ch <= 'Z' { Color::White } else { Color::Black }, k };
                    b[r][c] = Some(p);
                    proof {
                        gg = gg.update(r as int, gg[r as int].update(c as int, Some(p)));
                        cs = cs + 1;
                    }
                    c = c + 1;
                },
            }
        }
        i += 1;
    }
    Ok(())
}

/// Reads a position in FEN.
pub fn parse_fen(fen: &str) -> (res: Result<(Board, Color, Option<(usize, usize)>, Castle, u32), String>)
    ensures
        match (res, fen_spec(fen@)) {
            (Ok((b, t, ep, c, n)), Ok((g, t2, ep2, c2, n2))) => board_is(b, g) && t == t2 && ep == ep2 && c == c2 && n == n2,
            (Err(e), Err(f)) => e@ == f,
            _ => false,
        },
{
    let parts = words(&chars_of(fen));
    if parts.len() < 2 {
        return Err(owned("FEN too short"));
    }
    assert(parts@[0]@ == parts.deep_view()[0]) by { assert(parts@[0].deep_view() =~= parts@[0]@); }
    let ranks = split(&parts[0], '/');
    assert(parts.deep_view() == words_spec(fen@));
    if ranks.len() != 8 {
        return Err(owned("FEN must have 8 ranks"));
    }
    let mut board: Board = [[None; 8]; 8];
    let ghost mut g = empty_grid();
    assert(board_is(board, g));
    let mut r: usize = 0;
    while r < 8
        invariant
            r <= 8, ranks@.len() == 8, board_is(board, g), grid_ok(g),
            ranks_upto(ranks.deep_view(), r as nat) == Ok::<Grid, Seq<char>>(g),
            ranks.deep_view() == split_spec(words_spec(fen@)[0], '/'), words_spec(fen@).len() >= 2,
        decreases 8 - r,
    {
        assert(ranks@[r as int].deep_view() =~= ranks@[r as int]@);
        match place_rank(&mut board, r, &ranks[r], Ghost(g)) {
            Ok(()) => {
                proof {
                    let g2 = rank_from(g, r as int, ranks.deep_view()[r as int], 0, 0)->Ok_0;
                    g = g2;
                }
            },
            Err(e) => {
                proof { lemma_ranks_err(ranks.deep_view(), (r + 1) as nat, 8); }
                return Err(e);
            },
        }
        r += 1;
    }
    let turn = if eq_lit(&parts[1], "w") { Color::White } else { Color::Black };
    let dash: Vec<char> = chars_of("-");
    let cs: &Vec<char> = if parts.len() > 2 { &parts[2] } else { &dash };
    let cast = Castle { wk: has_char(cs, 'K'), wq: has_char(cs, 'Q'), bk: has_char(cs, 'k'), bq: has_char(cs, 'q') };
    let ep = if parts.len() > 3 { ep_square(&parts[3]) } else { None };
    let fullmove: u32 = if parts.len() > 5 {
        match parse_unsigned(&parts[5], 4294967295) { Some(n) => n as u32, None => 1 }
    } else {
        1
    };
    proof {
        assert forall|k: int| 0 <= k < parts@.len() implies #[trigger] parts.deep_view()[k] == parts@[k]@ by {
            assert(parts@[k].deep_view() =~= parts@[k]@);
        }
    }
    Ok((board, turn, ep, cast, fullmove))
}

fn has_char(s: &Vec<char>, c: char) -> (r: bool)
    ensures r == s@.contains(c),
{
    let mut i: usize = 0;
    while i < s.len()
        invariant i <= s@.len(), forall|j: int| 0 <= j < i ==> s@[j] != c,
        decreases s@.len() - i,
    {
        if s[i] == c {
            assert(s@.contains(s@[i as int]));
            return true;
        }
        i += 1;
    }
    false
}

fn ep_square(s: &Vec<char>) -> (r: Option<(usize, usize)>)
    ensures r == fen_ep(s@),
{
    if eq_lit(s, "-") {
        return None;
    }
    let st = string_of(s);
    let b = st.as_str().as_bytes_vec();
    if b.len() < 2 {
        return None;
    }
    let col = b[0].wrapping_sub(97) as usize;
    let d = b[1].wrapping_sub(48) as usize;
    if d > 8 {
        return None;
    }
    let row = 8 - d;
    if col < 8 && row < 8 { Some((row, col)) } else { None }
}

// ── The fetcher's output ─────────────────────────────────────────────────────

pub open spec fn has_prefix_spec(s: Seq<char>, p: Seq<char>) -> bool {
    s.len() >= p.len() && s.take(p.len() as int) == p
}

/// The rest after prefix `p` of the last line that starts with it.
pub open spec fn last_with(ls: Seq<Seq<char>>, p: Seq<char>) -> Option<Seq<char>>
    decreases ls.len(),
{
    if ls.len() == 0 {
        None
    } else if has_prefix_spec(ls.last(), p) {
        Some(ls.last().skip(p.len() as int))
    } else {
        last_with(ls.drop_last(), p)
    }
}

/// The trimmed rest of the first line that starts with `ERROR:`.
pub open spec fn first_error(ls: Seq<Seq<char>>) -> Option<Seq<char>>
    decreases ls.len(),
{
    if ls.len() == 0 {
        None
    } else if has_prefix_spec(ls[0], "ERROR:"@) {
        Some(trim_spec(ls[0].skip(6)))
    } else {
        first_error(ls.drop_first())
    }
}

/// Whether `t` occurs in `s`.
pub open spec fn occurs(s: Seq<char>, t: Seq<char>) -> bool {
    exists|i: int| 0 <= i && i + t.len() <= s.len() && #[trigger] s.subrange(i, i + t.len()) == t
}

/// A puzzle as plain values: id, FEN, moves, rating, themes, first solution move.
pub type PuzzleView = (Seq<char>, Seq<char>, Seq<Seq<char>>, u32, Seq<Seq<char>>, usize);

/// What the fetcher's output gives: its first `ERROR:` line as the error; without an `OK`
/// the output itself (its first 120 characters); else the fields of the last `id=`, `fen=`,
/// `rating=`, `moves=` and `themes=` lines, with a FEN and at least one move required.
pub open spec fn fetch_output_spec(out: Seq<char>) -> Result<PuzzleView, Seq<char>> {
    let ls = lines_spec(out);
    let id = match last_with(ls, "id="@) { Some(v) => trim_spec(v), None => "?"@ };
    let fen = match last_with(ls, "fen="@) { Some(v) => trim_spec(v), None => Seq::empty() };
    let rating = match last_with(ls, "rating="@) {
        Some(v) => match parse_unsigned_spec(trim_spec(v), u32::MAX as nat) { Some(n) => n as u32, None => 1500u32 },
        None => 1500u32,
    };
    let moves = match last_with(ls, "moves="@) { Some(v) => words_spec(v), None => Seq::empty() };
    let themes = match last_with(ls, "themes="@) { Some(v) => words_spec(v), None => Seq::empty() };
    if first_error(ls) is Some {
        Err(first_error(ls)->0)
    } else if !occurs(out, "OK"@) {
        Err("Unexpected output: "@ + (if out.len() > 120 { out.take(120) } else { out }))
    } else if fen.len() == 0 {
        Err("FEN missing from response"@)
    } else if moves.len() == 0 {
        Err("Moves missing from response"@)
    } else {
        Ok((id, fen, moves, rating, themes, 1usize))
    }
}

pub open spec fn strings(v: Seq<String>) -> Seq<Seq<char>> {
    v.map_values(|s: String| s@)
}

pub open spec fn puzzle_view(p: Puzzle) -> PuzzleView {
    (p.id@, p.fen@, strings(p.moves@), p.rating, strings(p.themes@), p.solution_start)
}

fn strings_of(w: &Vec<Vec<char>>) -> (r: Vec<String>)
    ensures strings(r@) == w.deep_view(),
{
    let mut r: Vec<String> = Vec::new();
    let mut i: usize = 0;
    while i < w.len()
        invariant i <= w@.len(), strings(r@) == w.deep_view().take(i as int),
        decreases w@.len() - i,
    {
        let ghost before = strings(r@);
        r.push(string_of(&w[i]));
        assert(w@[i as int].deep_view() =~= w@[i as int]@);
        assert(strings(r@) =~= before.push(w.deep_view()[i as int]));
        assert(w.deep_view().take(i + 1) =~= w.deep_view().take(i as int).push(w.deep_view()[i as int]));
        i += 1;
    }
    assert(w.deep_view().take(w@.len() as int) =~= w.deep_view());
    r
}

pub fn rest_after(s: &Vec<char>, n: usize) -> (r: Vec<char>)
    requires n <= s@.len(),
    ensures r@ == s@.skip(n as int),
{
    let r = slice(s, n, s.len());
    assert(r@ =~= s@.skip(n as int));
    r
}

fn occurs_ok(s: &Vec<char>) -> (r: bool)
    ensures r == occurs(s@, "OK"@),
{
    proof { reveal_strlit("OK"); }
    let mut i: usize = 0;
    while i < s.len() && s.len() - i >= 2
        invariant
            i <= s@.len(),
            forall|j: int| 0 <= j < i && j + 2 <= s@.len() ==> #[trigger] s@.subrange(j, j + 2) != "OK"@,
        decreases s@.len() - i,
    {
        proof { reveal_strlit("OK"); }
        if s[i] == 'O' && s[i + 1] == 'K' {
            assert(s@.subrange(i as int, i + 2) =~= "OK"@);
            return true;
        }
        assert(s@.subrange(i as int, i + 2)[0] == s@[i as int] && s@.subrange(i as int, i + 2)[1] == s@[i + 1]);
        i += 1;
    }
    assert forall|j: int| 0 <= j && j + 2 <= s@.len() implies #[trigger] s@.subrange(j, j + 2) != "OK"@ by {
        assert(j < i);
    }
    false
}

/// Reads the fetcher's output into a puzzle.
pub fn parse_fetch_output(stdout: &str) -> (r: Result<Puzzle, String>)
    ensures
        match (r, fetch_output_spec(stdout@)) {
            (Ok(p), Ok(v)) => puzzle_view(p) == v,
            (Err(e), Err(f)) => e@ == f,
            _ => false,
        },
{
    proof {
        reveal_strlit("ERROR:");
        reveal_strlit("id=");
        reveal_strlit("fen=");
        reveal_strlit("rating=");
        reveal_strlit("moves=");
        reveal_strlit("themes=");
    }
    let out = chars_of(stdout);
    let ls = lines(&out);
    let ghost all = ls.deep_view();
    proof {
        assert forall|k: int| 0 <= k < ls@.len() implies #[trigger] all[k] == ls@[k]@ by {
            assert(ls@[k].deep_view() =~= ls@[k]@);
        }
    }
    // the first ERROR: line
    let mut k: usize = 0;
    assert(all.skip(0) =~= all);
    while k < ls.len()
        invariant
            k <= ls@.len(), all == ls.deep_view(), all.len() == ls@.len(), all == lines_spec(stdout@),
            forall|j: int| 0 <= j < ls@.len() ==> #[trigger] all[j] == ls@[j]@,
            first_error(all) == first_error(all.skip(k as int)),
        decreases ls@.len() - k,
    {
        assert(all.skip(k as int)[0] == all[k as int]);
        proof { reveal_strlit("ERROR:"); }
        if crate::network::has_prefix(&ls[k], "ERROR:") {
            let rest = rest_after(&ls[k], 6);
            return Err(string_of(&trim(&rest)));
        }
        assert(all.skip(k as int).drop_first() =~= all.skip(k + 1));
        k += 1;
    }
    if !occurs_ok(&out) {
        let mut e = owned("Unexpected output: ");
        let n = if out.len() > 120 { 120 } else { out.len() };
        let head = slice(&out, 0, n);
        assert(head@ =~= (if out@.len() > 120 { out@.take(120) } else { out@ }));
        crate::text::push_chars(&mut e, &head);
        return Err(e);
    }
    let mut id: Option<Vec<char>> = None;
    let mut fen: Option<Vec<char>> = None;
    let mut rating: Option<Vec<char>> = None;
    let mut moves: Option<Vec<char>> = None;
    let mut themes: Option<Vec<char>> = None;
    let mut i: usize = 0;
    assert(all.take(0) =~= Seq::<Seq<char>>::empty());
    while i < ls.len()
        invariant
            i <= ls@.len(), all == ls.deep_view(), all.len() == ls@.len(), all == lines_spec(stdout@),
            forall|j: int| 0 <= j < ls@.len() ==> #[trigger] all[j] == ls@[j]@,
            opt_chars(id) == last_with(all.take(i as int), "id="@),
            opt_chars(fen) == last_with(all.take(i as int), "fen="@),
            opt_chars(rating) == last_with(all.take(i as int), "rating="@),
            opt_chars(moves) == last_with(all.take(i as int), "moves="@),
            opt_chars(themes) == last_with(all.take(i as int), "themes="@),
        decreases ls@.len() - i,
    {
        let l = &ls[i];
        assert(all.take(i + 1).drop_last() =~= all.take(i as int));
        assert(all.take(i + 1).last() == l@);
        proof {
            reveal_strlit("id=");
            reveal_strlit("fen=");
            reveal_strlit("rating=");
            reveal_strlit("moves=");
            reveal_strlit("themes=");
        }
        if crate::network::has_prefix(l, "id=") { id = Some(rest_after(l, 3)); }
        if crate::network::has_prefix(l, "fen=") { fen = Some(rest_after(l, 4)); }
        if crate::network::has_prefix(l, "rating=") { rating = Some(rest_after(l, 7)); }
        if crate::network::has_prefix(l, "moves=") { moves = Some(rest_after(l, 6)); }
        if crate::network::has_prefix(l, "themes=") { themes = Some(rest_after(l, 7)); }
        i += 1;
    }
    assert(all.take(ls@.len() as int) =~= all);
    let id_s = match id { Some(v) => string_of(&trim(&v)), None => owned("?") };
    let fen_c = match fen { Some(v) => trim(&v), None => Vec::new() };
    let rating_n: u32 = match rating {
        Some(v) => match parse_unsigned(&trim(&v), 4294967295) { Some(n) => n as u32, None => 1500 },
        None => 1500,
    };
    let moves_w = match moves { Some(v) => words(&v), None => {
        let e: Vec<Vec<char>> = Vec::new();
        assert(e.deep_view() =~= Seq::<Seq<char>>::empty());
        e
    } };
    let themes_w = match themes { Some(v) => words(&v), None => {
        let e: Vec<Vec<char>> = Vec::new();
        assert(e.deep_view() =~= Seq::<Seq<char>>::empty());
        e
    } };
    assert(moves_w.deep_view().len() == moves_w@.len());
    if fen_c.len() == 0 {
        return Err(owned("FEN missing from response"));
    }
    if moves_w.len() == 0 {
        return Err(owned("Moves missing from response"));
    }
    let p = Puzzle {
        id: id_s,
        fen: string_of(&fen_c),
        moves: strings_of(&moves_w),
        rating: rating_n,
        themes: strings_of(&themes_w),
        solution_start: 1,
    };
    Ok(p)
}

pub open spec fn opt_chars(o: Option<Vec<char>>) -> Option<Seq<char>> {
    match o { Some(v) => Some(v@), None => None }
}

} // verus!
