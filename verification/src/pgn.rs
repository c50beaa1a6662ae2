//! Reading games in PGN: the tag pairs, and the moves replayed into UCI.
use vstd::prelude::*;
use crate::engine::{Board, Castle, Color, Mv, apply, apply_board, apply_ep, apply_castle, legal_spec, start_board};
use crate::notation::{parse_notation, notation_spec, castle_choice_spec, coord_move_spec, san_parse_spec,
    san_target_spec, first_where, castle_pred, coord_pred, san_pred, sq_of, coord_promo, coord_form, alnum_pred, cleaned};
use crate::analysis::{uci_text, mv_to_uci, start_position, lemma_start_position, lemma_first_where_in};
use crate::ai::lemma_legal_props;
use crate::text::{chars_of, eq_lit, lines, lines_spec, trim, trim_spec, find_char, find_char_spec, slice, strip_both,
    strip_both_spec, words, words_spec, string_of, owned};

verus! {

#[derive(Debug)]
pub struct PgnGame {
    pub white: String,
    pub black: String,
    pub result: String,
    pub date: String,
    pub event: String,
    /// Moves in UCI coordinate notation (e2e4, g1f3, ...).
    pub uci_moves: Vec<String>,
}

/// White, Black, Result, Date and Event tags.
pub type Tags = (Seq<char>, Seq<char>, Seq<char>, Seq<char>, Seq<char>);

/// One line of a PGN file read as a tag pair: `[Key "value"]`, with the value's quotes removed.
pub open spec fn tag_step(h: Tags, line: Seq<char>) -> Tags {
    let t = trim_spec(line);
    if t.len() > 0 && t[0] == '[' && t.last() == ']' {
        let inner = t.subrange(1, t.len() - 1);
        let sp = find_char_spec(inner, ' ');
        if sp < inner.len() {
            let key = inner.take(sp);
            let val = strip_both_spec(inner.skip(sp + 1), '"');
            if key == "White"@ { (val, h.1, h.2, h.3, h.4) }
            else if key == "Black"@ { (h.0, val, h.2, h.3, h.4) }
            else if key == "Result"@ { (h.0, h.1, val, h.3, h.4) }
            else if key == "Date"@ { (h.0, h.1, h.2, val, h.4) }
            else if key == "Event"@ { (h.0, h.1, h.2, h.3, val) }
            else { h }
        } else {
            h
        }
    } else {
        h
    }
}

pub open spec fn tags_fold(h: Tags, ls: Seq<Seq<char>>) -> Tags
    decreases ls.len(),
{
    if ls.len() == 0 { h } else { tag_step(tags_fold(h, ls.drop_last()), ls.last()) }
}

/// A line of the tag section: a tag or blank.
pub open spec fn header_line(l: Seq<char>) -> bool {
    let t = trim_spec(l);
    t.len() == 0 || t[0] == '['
}

/// Index of the first line from `i` that is not a header line.
pub open spec fn first_body_line(ls: Seq<Seq<char>>, i: int) -> int
    decreases ls.len() - i,
{
    if i >= ls.len() { ls.len() as int } else if !header_line(ls[i]) { i } else { first_body_line(ls, i + 1) }
}

/// The lines joined with single spaces.
pub open spec fn join_spaces(ls: Seq<Seq<char>>) -> Seq<char>
    decreases ls.len(),
{
    if ls.len() == 0 { Seq::empty() } else if ls.len() == 1 { ls[0] } else { join_spaces(ls.drop_last()) + seq![' '] + ls.last() }
}

/// A word of the move text that can be a move: not a move number (`12.`), comment or
/// result.
pub open spec fn move_token(t: Seq<char>) -> bool {
    !(t.len() > 0 && t.last() == '.') && !(t.len() > 0 && t[0] == '{') && !(t.len() > 0 && t[0] == ';')
        && t != "1-0"@ && t != "0-1"@ && t != "1/2-1/2"@ && t != "*"@
}

pub open spec fn move_token_pred() -> spec_fn(Seq<char>) -> bool {
    |t: Seq<char>| move_token(t)
}

/// Annotation marks dropped from the end of a move: `!`, `?`, `+`, `#`, space.
pub open spec fn strip_marks(s: Seq<char>) -> Seq<char>
    decreases s.len(),
{
    if s.len() > 0 && (s.last() == '!' || s.last() == '?' || s.last() == '+' || s.last() == '#' || s.last() == ' ') {
        strip_marks(s.drop_last())
    } else {
        s
    }
}

/// The replay state: position and the UCI moves so far.
pub type Replay = (Board, Color, Option<(usize, usize)>, Castle, Seq<Seq<char>>);

/// One token replayed: one starting with a digit is skipped; otherwise, without its marks,
/// it is read as typed notation and, when legal, played and recorded in UCI.
pub open spec fn pgn_step(st: Replay, tok: Seq<char>) -> Replay {
    let (b, c, ep, cast, ucis) = st;
    if tok.len() > 0 && '0' <= tok[0] <= '9' {
        st
    } else {
        match notation_spec(b, c, ep, cast, strip_marks(tok)) {
            Ok(mv) => (apply_board(b, mv), c.opp(), apply_ep(b, mv), apply_castle(b, mv, cast), ucis.push(uci_text(mv))),
            Err(_) => st,
        }
    }
}

pub open spec fn pgn_fold(st: Replay, toks: Seq<Seq<char>>) -> Replay
    decreases toks.len(),
{
    if toks.len() == 0 { st } else { pgn_step(pgn_fold(st, toks.drop_last()), toks.last()) }
}

/// The move tokens of a PGN text.
pub open spec fn pgn_tokens(content: Seq<char>) -> Seq<Seq<char>> {
    let ls = lines_spec(content);
    words_spec(join_spaces(ls.skip(first_body_line(ls, 0)))).filter(move_token_pred())
}

/// What a PGN text gives: its tags (`?` or `*` when missing) and its moves in UCI, replayed
/// from the starting position; an error when no move could be read.
pub open spec fn pgn_spec(content: Seq<char>) -> Result<(Tags, Seq<Seq<char>>), Seq<char>> {
    let tags = tags_fold(("?"@, "?"@, "*"@, "?"@, "?"@), lines_spec(content));
    let r = pgn_fold((start_position(), Color::White, None, Castle { wk: true, wq: true, bk: true, bq: true }, Seq::empty()),
        pgn_tokens(content));
    if r.4.len() == 0 { Err("No moves found in PGN"@) } else { Ok((tags, r.4)) }
}

/// A move that notation reading gives is legal.
pub proof fn lemma_notation_legal(b: Board, c: Color, ep: Option<(usize, usize)>, cast: Castle, input: Seq<char>)
    ensures notation_spec(b, c, ep, cast, input) matches Ok(m) ==> legal_spec(b, c, ep, cast).contains(m),
{
    let moves = legal_spec(b, c, ep, cast);
    let s = cleaned(input);
    let low = crate::notation::str_lowercase(s);
    lemma_first_where_in(moves, castle_pred(2));
    lemma_first_where_in(moves, castle_pred(1));
    let coord = s.filter(alnum_pred());
    if coord_form(coord) {
        lemma_first_where_in(moves, coord_pred(sq_of(coord[0], coord[1]), sq_of(coord[2], coord[3]), coord_promo(coord)));
    }
    if s.len() > 0 {
        let (kind, skip) = crate::notation::san_piece(s);
        let rest = crate::notation::str_lowercase(s.skip(skip).filter(crate::notation::san_keep()));
        let eq = find_char_spec(rest, '=');
        let dest = if eq < rest.len() { rest.take(eq) } else { rest };
        let promo = if eq + 1 < rest.len() { crate::notation::promo_letter(rest[eq + 1]) } else { None };
        if dest.len() >= 2 {
            let to = sq_of(dest[dest.len() - 2], dest[dest.len() - 1]);
            let dis = dest.take(dest.len() - 2);
            let tgt = match promo {
                Some(p) => Some(p),
                None => if kind == crate::engine::Kind::P && (to.0 == 0 || to.0 == 7) { Some(crate::engine::Kind::Q) } else { None },
            };
            lemma_first_where_in(moves, san_pred(b, c, kind, to,
                crate::notation::first_char_where(dis, crate::notation::char_range('a', 'h')),
                crate::notation::first_char_where(dis, crate::notation::char_range('0', '9')), tgt));
        }
    }
}

pub open spec fn game_view(g: PgnGame) -> (Tags, Seq<Seq<char>>) {
    ((g.white@, g.black@, g.result@, g.date@, g.event@), g.uci_moves@.map_values(|u: String| u@))
}

fn tag_line(w: &mut String, b: &mut String, r: &mut String, d: &mut String, e: &mut String, line: &Vec<char>)
    ensures
        (final(w)@, final(b)@, final(r)@, final(d)@, final(e)@) == tag_step((old(w)@, old(b)@, old(r)@, old(d)@, old(e)@), line@),
{
    let t = trim(line);
    if t.len() > 0 && t[0] == '[' && t[t.len() - 1] == ']' {
        let inner = slice(&t, 1, t.len() - 1);
        let sp = find_char(&inner, ' ');
        if sp < inner.len() {
            let key = slice(&inner, 0, sp);
            assert(key@ =~= inner@.take(sp as int));
            let rest = slice(&inner, sp + 1, inner.len());
            assert(rest@ =~= inner@.skip(sp + 1));
            let val = string_of(&strip_both(&rest, '"'));
            if eq_lit(&key, "White") { *w = val; }
            else if eq_lit(&key, "Black") { *b = val; }
            else if eq_lit(&key, "Result") { *r = val; }
            else if eq_lit(&key, "Date") { *d = val; }
            else if eq_lit(&key, "Event") { *e = val; }
        }
    }
}

fn strip_marks_of(s: &Vec<char>) -> (r: Vec<char>)
    ensures r@ == strip_marks(s@),
{
    let mut n: usize = s.len();
    assert(s@.take(n as int) =~= s@);
    while n > 0 && (s[n - 1] == '!' || s[n - 1] == '?' || s[n - 1] == '+' || s[n - 1] == '#' || s[n - 1] == ' ')
        invariant n <= s@.len(), strip_marks(s@) == strip_marks(s@.take(n as int)),
        decreases n,
    {
        assert(s@.take(n as int).drop_last() =~= s@.take(n - 1));
        n -= 1;
    }
    let r = slice(s, 0, n);
    assert(r@ =~= s@.take(n as int));
    r
}

fn is_move_token(t: &Vec<char>) -> (r: bool)
    ensures r == move_token(t@),
{
    let n = t.len();
    !(n > 0 && t[n - 1] == '.') && !(n > 0 && t[0] == '{') && !(n > 0 && t[0] == ';')
        && !eq_lit(t, "1-0") && !eq_lit(t, "0-1") && !eq_lit(t, "1/2-1/2") && !eq_lit(t, "*")
}

/// Reads a PGN text: its tags, and its moves as UCI.
pub fn parse_pgn(content: &str) -> (res: Result<PgnGame, String>)
    ensures
        match (res, pgn_spec(content@)) {
            (Ok(g), Ok(v)) => game_view(g) == v,
            (Err(e), Err(f)) => e@ == f,
            _ => false,
        },
{
    let chars = chars_of(content);
    let ls = lines(&chars);
    let ghost all = ls.deep_view();
    proof {
        assert forall|j: int| 0 <= j < ls@.len() implies #[trigger] all[j] == ls@[j]@ by {
            assert(ls@[j].deep_view() =~= ls@[j]@);
        }
    }
    // tags
    let mut white = owned("?");
    let mut black = owned("?");
    let mut result = owned("*");
    let mut date = owned("?");
    let mut event = owned("?");
    let ghost init: Tags = ("?"@, "?"@, "*"@, "?"@, "?"@);
    let mut i: usize = 0;
    assert(all.take(0) =~= Seq::<Seq<char>>::empty());
    while i < ls.len()
        invariant
            i <= ls@.len(), all == ls.deep_view(), all.len() == ls@.len(), init == ("?"@, "?"@, "*"@, "?"@, "?"@),
            forall|j: int| 0 <= j < ls@.len() ==> #[trigger] all[j] == ls@[j]@,
            (white@, black@, result@, date@, event@) == tags_fold(init, all.take(i as int)),
        decreases ls@.len() - i,
    {
        assert(all.take(i + 1).drop_last() =~= all.take(i as int));
        tag_line(&mut white, &mut black, &mut result, &mut date, &mut event, &ls[i]);
        i += 1;
    }
    assert(all.take(ls@.len() as int) =~= all);
    // first line of the move text
    let mut k: usize = 0;
    while k < ls.len() && is_header_line(&ls[k])
        invariant
            k <= ls@.len(), all == ls.deep_view(), all.len() == ls@.len(),
            forall|j: int| 0 <= j < ls@.len() ==> #[trigger] all[j] == ls@[j]@,
            first_body_line(all, 0) == first_body_line(all, k as int),
        decreases ls@.len() - k,
    {
        k += 1;
    }
    // the move text: the remaining lines joined with spaces
    let ghost body = all.skip(k as int);
    let mut text: Vec<char> = Vec::new();
    let mut j: usize = k;
    assert(body.take(0) =~= Seq::<Seq<char>>::empty());
    while j < ls.len()
        invariant
            k <= j <= ls@.len(), all == ls.deep_view(), all.len() == ls@.len(), body == all.skip(k as int),
            forall|q: int| 0 <= q < ls@.len() ==> #[trigger] all[q] == ls@[q]@,
            text@ == join_spaces(body.take(j - k)),
        decreases ls@.len() - j,
    {
        let ghost before = text@;
        assert(body.take(j - k + 1).drop_last() =~= body.take(j - k));
        assert(body[j - k] == all[j as int]);
        if j > k {
            text.push(' ');
        }
        let l = &ls[j];
        let mut q: usize = 0;
        let ghost mid = text@;
        while q < l.len()
            invariant q <= l@.len(), text@ == mid + l@.take(q as int),
            decreases l@.len() - q,
        {
            text.push(l[q]);
            assert(l@.take(q + 1) =~= l@.take(q as int).push(l@[q as int]));
            q += 1;
        }
        assert(l@.take(l@.len() as int) =~= l@);
        proof {
            if j == k {
                assert(body.take(1) =~= seq![l@]);
                assert(text@ =~= l@);
            } else {
                assert(text@ =~= before + seq![' '] + l@);
            }
        }
        j += 1;
    }
    assert(body.take(ls@.len() - k) =~= body);
    // the move tokens
    let ws = words(&text);
    let ghost wv = ws.deep_view();
    let mut toks: Vec<Vec<char>> = Vec::new();
    let mut q: usize = 0;
    assert(wv.take(0) =~= Seq::<Seq<char>>::empty());
    while q < ws.len()
        invariant
            q <= ws@.len(), wv == ws.deep_view(), wv.len() == ws@.len(),
            toks.deep_view() == wv.take(q as int).filter(move_token_pred()),
        decreases ws@.len() - q,
    {
        assert(wv.take(q + 1).drop_last() =~= wv.take(q as int));
        assert(ws@[q as int].deep_view() =~= ws@[q as int]@);
        proof { reveal(Seq::filter); }
        if is_move_token(&ws[q]) {
            let ghost before = toks.deep_view();
            let t = slice(&ws[q], 0, ws[q].len());
            assert(t@ =~= ws@[q as int]@);
            assert(t.deep_view() =~= t@);
            toks.push(t);
            assert(toks.deep_view() =~= before.push(wv[q as int]));
        }
        q += 1;
    }
    assert(wv.take(ws@.len() as int) =~= wv);
    let ghost tv = toks.deep_view();
    assert(tv == pgn_tokens(content@));
    // replay
    let mut board = start_board();
    proof { lemma_start_position(board); }
    let mut color = Color::White;
    let mut ep: Option<(usize, usize)> = None;
    let mut cast = Castle::all();
    let mut ucis: Vec<String> = Vec::new();
    let ghost st0: Replay = (start_position(), Color::White, None, Castle { wk: true, wq: true, bk: true, bq: true }, Seq::empty());
    let mut m: usize = 0;
    assert(tv.take(0) =~= Seq::<Seq<char>>::empty());
    assert(ucis@.map_values(|u: String| u@) =~= Seq::<Seq<char>>::empty());
    while m < toks.len()
        invariant
            m <= toks@.len(), tv == toks.deep_view(), tv.len() == toks@.len(),
            st0 == (start_position(), Color::White, None::<(usize, usize)>, Castle { wk: true, wq: true, bk: true, bq: true }, Seq::<Seq<char>>::empty()),
            (board, color, ep, cast, ucis@.map_values(|u: String| u@)) == pgn_fold(st0, tv.take(m as int)),
        decreases toks@.len() - m,
    {
        assert(tv.take(m + 1).drop_last() =~= tv.take(m as int));
        let t = &toks[m];
        assert(t.deep_view() =~= t@);
        assert(tv[m as int] == t@);
        if !(t.len() > 0 && '0' <= t[0] && t[0] <= '9') {
            let san = string_of(&strip_marks_of(t));
            match parse_notation(&board, color, ep, &cast, san.as_str()) {
                Ok(mv) => {
                    proof {
                        lemma_notation_legal(board, color, ep, cast, san@);
                        lemma_legal_props(board, color, ep, cast, mv);
                    }
                    let ghost before = ucis@.map_values(|u: String| u@);
                    ucis.push(mv_to_uci(&mv));
                    assert(ucis@.map_values(|u: String| u@) =~= before.push(uci_text(mv)));
                    let (nb, ne, nc) = apply(&board, &mv, ep, &cast);
                    board = nb;
                    ep = ne;
                    cast = nc;
                    color = color.opp();
                },
                Err(_) => {},
            }
        }
        m += 1;
    }
    assert(tv.take(toks@.len() as int) =~= tv);
    if ucis.len() == 0 {
        return Err(owned("No moves found in PGN"));
    }
    Ok(PgnGame { white, black, result, date, event, uci_moves: ucis })
}

fn is_header_line(l: &Vec<char>) -> (r: bool)
    ensures r == header_line(l@),
{
    let t = trim(l);
    t.len() == 0 || t[0] == '['
}

} // verus!
