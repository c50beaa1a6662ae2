//! Move analysis: replaying games given in UCI, reading engine scores, and the built-in
//! engine's verdict on one move.
use vstd::prelude::*;
use crate::engine::{Board, Castle, Color, Kind, Mv, apply, apply_board, apply_ep, apply_castle, apply_ok, legal,
    legal_spec, start_board, start_sq, inb, ep_file_ok, file_char, rank_char};
use crate::ai::{evaluate, evaluate_spec, top_n_moves, lemma_legal_props, scored_from};
use crate::sort::sorted_by_score;
use crate::notation::{first_where, coord_pred, coord_form, coord_promo, sq_of, promo_letter};
use crate::config::{ascii_lower, to_ascii_lower};
use crate::text::{chars_of, eq_lit, words, words_spec, push_char, string_of};
use crate::num::{parse_signed, parse_signed_spec, parse_unsigned, parse_unsigned_spec};
use crate::text::{trim, trim_spec};
use crate::network::starts_with_lit;

verus! {

/// The built-in engine's verdict on one move. Scores are centipawns, positive when White
/// is better.
#[derive(Debug, Clone)]
pub struct AnalysisResult {
    /// Which history index this belongs to.
    pub move_idx: usize,
    /// Evaluation before the move.
    pub eval_before_cp: i32,
    /// Evaluation after the move.
    pub eval_after_cp: i32,
    /// Best move from the position before, in UCI.
    pub best_move_uci: Option<String>,
    /// Up to three candidate moves with their scores.
    pub top_moves: Vec<(String, i32)>,
    /// Which colour made the move.
    pub color_moved: Color,
}

/// The UCI text of a move: from-square, to-square, and a promotion letter (`q`, `r`, `b`,
/// else `n`).
pub open spec fn uci_text(mv: Mv) -> Seq<char> {
    seq![file_char(mv.fr.1 as int), rank_char(mv.fr.0 as int), file_char(mv.to.1 as int), rank_char(mv.to.0 as int)]
        + match mv.promo {
            Some(k) => seq![if k == Kind::Q { 'q' } else if k == Kind::R { 'r' } else if k == Kind::B { 'b' } else { 'n' }],
            None => Seq::empty(),
        }
}

pub fn mv_to_uci(mv: &Mv) -> (s: String)
    requires mv.fr.0 < 8, mv.fr.1 < 8, mv.to.0 < 8, mv.to.1 < 8,
    ensures s@ == uci_text(*mv),
{
    let mut s = String::new();
    push_char(&mut s, (97u8 + mv.fr.1 as u8) as char);
    push_char(&mut s, (48u8 + (8 - mv.fr.0) as u8) as char);
    push_char(&mut s, (97u8 + mv.to.1 as u8) as char);
    push_char(&mut s, (48u8 + (8 - mv.to.0) as u8) as char);
    match mv.promo {
        Some(k) => push_char(&mut s, match k { Kind::Q => 'q', Kind::R => 'r', Kind::B => 'b', _ => 'n' }),
        None => {},
    }
    assert(s@ =~= uci_text(*mv));
    s
}

/// Whether `b` holds the pieces of the starting position.
pub open spec fn is_start(b: Board) -> bool {
    forall|r: int, c: int| inb(r, c) ==> #[trigger] b[r][c] == start_sq(r, c)
}

/// The starting position.
pub open spec fn start_position() -> Board {
    choose|b: Board| is_start(b)
}

/// A board with the starting squares is the starting position.
pub proof fn lemma_start_position(b: Board)
    requires is_start(b),
    ensures b == start_position(),
{
    broadcast use vstd::array::group_array_axioms;
    let s = start_position();
    assert(is_start(s));
    assert forall|r: int| 0 <= r < 8 implies b[r] == s[r] by {
        assert(b[r] =~= s[r]);
    }
    assert(b =~= s);
}

/// A position as the replay keeps it: board, side to move, en-passant square, castling.
pub type Position = (Board, Color, Option<(usize, usize)>, Castle);

/// One UCI token replayed: a token in coordinate form plays the first legal move between its
/// squares (with its promotion, or none or a queen), and passes the turn even when there is
/// no such move; any other token is skipped.
pub open spec fn replay_step(p: Position, tok: Seq<char>) -> Position {
    let (b, c, ep, cast) = p;
    if coord_form(tok) {
        match first_where(legal_spec(b, c, ep, cast), coord_pred(sq_of(tok[0], tok[1]), sq_of(tok[2], tok[3]), coord_promo(tok))) {
            Some(mv) => (apply_board(b, mv), c.opp(), apply_ep(b, mv), apply_castle(b, mv, cast)),
            None => (b, c.opp(), ep, cast),
        }
    } else {
        p
    }
}

pub open spec fn replay_fold(p: Position, toks: Seq<Seq<char>>) -> Position
    decreases toks.len(),
{
    if toks.len() == 0 { p } else { replay_step(replay_fold(p, toks.drop_last()), toks.last()) }
}

/// The position after the whitespace-separated UCI moves `s`, from the start.
pub open spec fn replay_spec(s: Seq<char>) -> Position {
    replay_fold((start_position(), Color::White, None, Castle { wk: true, wq: true, bk: true, bq: true }), words_spec(s))
}

pub proof fn lemma_first_where_in<A>(s: Seq<A>, p: spec_fn(A) -> bool)
    ensures first_where(s, p) matches Some(x) ==> s.contains(x) && p(x),
    decreases s.len(),
{
    if s.len() > 0 && !p(s[0]) {
        lemma_first_where_in(s.drop_first(), p);
        if first_where(s.drop_first(), p) is Some {
            let x = first_where(s.drop_first(), p)->0;
            let i = choose|i: int| 0 <= i < s.drop_first().len() && s.drop_first()[i] == x;
            assert(s[i + 1] == x);
        }
    } else if s.len() > 0 {
        assert(s[0] == s[0]);
        assert(s.contains(s[0]));
    }
}

/// Replays whitespace-separated UCI moves from the starting position.
pub fn replay_uci(moves_str: &str) -> (p: Position)
    ensures p == replay_spec(moves_str@), ep_file_ok(p.2),
{
    let mut board = start_board();
    proof { lemma_start_position(board); }
    let mut color = Color::White;
    let mut ep: Option<(usize, usize)> = None;
    let mut cast = Castle::all();
    let toks = words(&chars_of(moves_str));
    let ghost all = toks.deep_view();
    let mut i: usize = 0;
    assert(all.take(0) =~= Seq::<Seq<char>>::empty());
    while i < toks.len()
        invariant
            i <= toks@.len(), all == toks.deep_view(), all.len() == toks@.len(), all == words_spec(moves_str@),
            ep_file_ok(ep),
            (board, color, ep, cast) == replay_fold(
                (start_position(), Color::White, None, Castle { wk: true, wq: true, bk: true, bq: true }), all.take(i as int)),
        decreases toks@.len() - i,
    {
        assert(all.take(i + 1).drop_last() =~= all.take(i as int));
        let t = &toks[i];
        assert(t.deep_view() =~= t@);
        assert(all[i as int] == t@);
        if t.len() >= 4 && 'a' <= t[0] && t[0] <= 'h' && '1' <= t[1] && t[1] <= '8'
            && 'a' <= t[2] && t[2] <= 'h' && '1' <= t[3] && t[3] <= '8'
        {
            let moves = legal(&board, color, ep, &cast);
            match crate::notation::coord_move(&board, color, &moves, t) {
                Ok(mv) => {
                    proof {
                        lemma_first_where_in(moves@, coord_pred(sq_of(t@[0], t@[1]), sq_of(t@[2], t@[3]), coord_promo(t@)));
                        lemma_legal_props(board, color, ep, cast, mv);
                    }
                    let (nb, ne, nc) = apply(&board, &mv, ep, &cast);
                    board = nb;
                    ep = ne;
                    cast = nc;
                },
                Err(_) => {},
            }
            color = color.opp();
        }
        i += 1;
    }
    assert(all.take(toks@.len() as int) =~= all);
    (board, color, ep, cast)
}

/// Index of the first word `w` in `t` from `i` on, or -1.
pub open spec fn word_index(t: Seq<Seq<char>>, w: Seq<char>, i: int) -> int
    decreases t.len() - i,
{
    if i >= t.len() { -1 } else if t[i] == w { i } else { word_index(t, w, i + 1) }
}

proof fn lemma_word_index(t: Seq<Seq<char>>, w: Seq<char>, i: int)
    requires 0 <= i,
    ensures word_index(t, w, i) == -1 || (i <= word_index(t, w, i) < t.len()),
    decreases t.len() - i,
{
    if i < t.len() && t[i] != w { lemma_word_index(t, w, i + 1); }
}

/// `N` read as an `i32`.
pub open spec fn i32_of(s: Seq<char>) -> Option<i32> {
    match parse_signed_spec(s, i32::MIN as int, i32::MAX as nat) { Some(n) => Some(n as i32), None => None }
}

/// The score in an engine's `info` line: after the first `score` word, `cp N` gives `N`,
/// `mate M` gives 30000 for a mate for the side to move (`M > 0`) and -30000 otherwise.
pub open spec fn score_spec(line: Seq<char>) -> Option<i32> {
    let t = words_spec(line);
    let k = word_index(t, "score"@, 0);
    if k < 0 || k + 2 >= t.len() {
        None
    } else if t[k + 1] == "cp"@ {
        i32_of(t[k + 2])
    } else if t[k + 1] == "mate"@ {
        match i32_of(t[k + 2]) { Some(m) => Some(if m > 0 { 30000i32 } else { -30000i32 }), None => None }
    } else {
        None
    }
}

fn i32_from(s: &Vec<char>) -> (r: Option<i32>)
    ensures r == i32_of(s@),
{
    match parse_signed(s, 2147483648, 2147483647) { Some(n) => Some(n as i32), None => None }
}

pub fn parse_score(line: &str) -> (r: Option<i32>)
    ensures r == score_spec(line@),
{
    let t = words(&chars_of(line));
    let ghost tv = t.deep_view();
    proof {
        assert forall|j: int| 0 <= j < t@.len() implies #[trigger] tv[j] == t@[j]@ by {
            assert(t@[j].deep_view() =~= t@[j]@);
        }
    }
    let mut k: usize = 0;
    while k < t.len() && !eq_lit(&t[k], "score")
        invariant
            k <= t@.len(), tv == t.deep_view(), tv.len() == t@.len(),
            forall|j: int| 0 <= j < t@.len() ==> #[trigger] tv[j] == t@[j]@,
            word_index(tv, "score"@, 0) == word_index(tv, "score"@, k as int),
        decreases t@.len() - k,
    {
        k += 1;
    }
    if k >= t.len() || t.len() - k <= 2 {
        return None;
    }
    if eq_lit(&t[k + 1], "cp") {
        i32_from(&t[k + 2])
    } else if eq_lit(&t[k + 1], "mate") {
        match i32_from(&t[k + 2]) {
            Some(m) => Some(if m > 0 { 30000 } else { -30000 }),
            None => None,
        }
    } else {
        None
    }
}

/// The built-in engine's verdict on one move: the position before it (replayed from
/// `uci_before`) searched to `depth` plies (at least one) for its three best moves, the best
/// one's score as the evaluation before (the static evaluation when there is no legal move),
/// and the static evaluation of the position after (replayed from `uci_after`).
pub fn analyse_builtin(move_idx: usize, uci_before: &str, uci_after: &str, color_moved: Color, depth: u8)
    -> (r: AnalysisResult)
    requires depth <= 63,
    ensures ({
        let (b, t, ep, c) = replay_spec(uci_before@);
        let legal_before = legal_spec(b, t, ep, c);
        &&& r.move_idx == move_idx && r.color_moved == color_moved
        &&& r.top_moves@.len() == (if legal_before.len() < 3 { legal_before.len() as int } else { 3 })
        &&& (forall|i: int| 0 <= i < r.top_moves@.len() ==>
                exists|m: Mv| legal_before.contains(m) && (#[trigger] r.top_moves@[i]).0@ == uci_text(m))
        &&& (forall|i: int, j: int| 0 <= i < j < r.top_moves@.len() ==>
                crate::sort::in_order((#[trigger] r.top_moves@[i]).1, (#[trigger] r.top_moves@[j]).1, t == Color::White))
        &&& (r.best_move_uci is None <==> legal_before.len() == 0)
        &&& (r.best_move_uci matches Some(u) ==> u@ == r.top_moves@[0].0@ && r.eval_before_cp == r.top_moves@[0].1)
        &&& (legal_before.len() == 0 ==> r.eval_before_cp == evaluate_spec(b))
        &&& r.eval_after_cp == evaluate_spec(replay_spec(uci_after@).0)
    }),
{
    let d: u8 = if depth < 1 { 1 } else { depth };
    let (board_before, turn_before, ep_before, cast_before) = replay_uci(uci_before);
    let top = top_n_moves(&board_before, turn_before, ep_before, &cast_before, d, 3);
    let ghost legal_before = legal_spec(board_before, turn_before, ep_before, cast_before);
    let mut top_moves: Vec<(String, i32)> = Vec::new();
    let mut i: usize = 0;
    while i < top.len()
        invariant
            i <= top@.len(), top_moves@.len() == i,
            scored_from(top@, legal_before),
            legal_before == legal_spec(board_before, turn_before, ep_before, cast_before),
            forall|j: int| 0 <= j < i ==> (#[trigger] top_moves@[j]).0@ == uci_text(top@[j].0) && top_moves@[j].1 == top@[j].1,
        decreases top@.len() - i,
    {
        let (mv, sc) = top[i];
        proof {
            assert(legal_before.contains(top@[i as int].0));
            lemma_legal_props(board_before, turn_before, ep_before, cast_before, mv);
        }
        top_moves.push((mv_to_uci(&mv), sc));
        i += 1;
    }
    proof {
        assert forall|j: int| 0 <= j < top_moves@.len() implies
            exists|m: Mv| legal_before.contains(m) && (#[trigger] top_moves@[j]).0@ == uci_text(m) by {
            let m = top@[j].0;
            assert(legal_before.contains(m));
            assert(top_moves@[j].0@ == uci_text(m));
        }
    }
    let best_move_uci = if top_moves.len() > 0 { Some(string_of(&chars_of(top_moves[0].0.as_str()))) } else { None };
    let eval_before_cp = if top.len() > 0 { top[0].1 } else { evaluate(&board_before) };
    let (board_after, _, _, _) = replay_uci(uci_after);
    let eval_after_cp = evaluate(&board_after);
    AnalysisResult { move_idx, eval_before_cp, eval_after_cp, best_move_uci, top_moves, color_moved }
}

// ── An external engine's answers ─────────────────────────────────────────────

/// One candidate line of an engine's answer: its score and its first move.
pub open spec fn pv_view(o: Option<(i32, String)>) -> Option<(i32, Seq<char>)> {
    match o { Some(p) => Some((p.0, p.1@)), None => None }
}

pub open spec fn opt_chars_of(o: Option<String>) -> Option<Seq<char>> {
    match o { Some(s) => Some(s@), None => None }
}

/// What an engine has said so far in its answer to one search: the latest score and first
/// move of each of its three best lines, and the move it settled on.
pub struct EngineReply {
    pub pv1: Option<(i32, String)>,
    pub pv2: Option<(i32, String)>,
    pub pv3: Option<(i32, String)>,
    pub best_move: Option<String>,
}

pub type ReplyView = (Option<(i32, Seq<char>)>, Option<(i32, Seq<char>)>, Option<(i32, Seq<char>)>, Option<Seq<char>>);

/// Which line an `info` line is about: the number after `multipv` as a `u8`, else the first.
pub open spec fn pv_index(t: Seq<Seq<char>>) -> nat {
    let k = word_index(t, "multipv"@, 0);
    if k >= 0 && k + 1 < t.len() {
        match parse_unsigned_spec(t[k + 1], 255) { Some(n) => n, None => 1 }
    } else {
        1
    }
}

/// The first move of an `info` line: the word after `pv`.
pub open spec fn pv_first_move(t: Seq<Seq<char>>) -> Option<Seq<char>> {
    let k = word_index(t, "pv"@, 0);
    if k >= 0 && k + 1 < t.len() { Some(t[k + 1]) } else { None }
}

/// The move of a `bestmove` line: its second word, unless that is `(none)`.
pub open spec fn best_word(l: Seq<char>) -> Option<Seq<char>> {
    let t = words_spec(l);
    if t.len() > 1 && t[1] != "(none)"@ { Some(t[1]) } else { None }
}

/// An engine's answer after one more line: an `info` line with a score and a move sets its
/// line's entry, a `bestmove` line the move the engine settled on; other lines change nothing.
pub open spec fn reply_step(v: ReplyView, line: Seq<char>) -> ReplyView {
    let l = trim_spec(line);
    if starts_with_lit(l, "info"@) {
        let t = words_spec(l);
        match (score_spec(l), pv_first_move(t)) {
            (Some(cp), Some(mv)) => {
                let n = pv_index(t);
                if n == 1 {
                    (Some((cp, mv)), v.1, v.2, v.3)
                } else if n == 2 {
                    (v.0, Some((cp, mv)), v.2, v.3)
                } else if n == 3 {
                    (v.0, v.1, Some((cp, mv)), v.3)
                } else {
                    v
                }
            },
            _ => v,
        }
    } else if starts_with_lit(l, "bestmove"@) {
        (v.0, v.1, v.2, best_word(l))
    } else {
        v
    }
}

/// Whether a line ends the engine's answer.
pub open spec fn reply_ends(line: Seq<char>) -> bool {
    let l = trim_spec(line);
    !starts_with_lit(l, "info"@) && starts_with_lit(l, "bestmove"@)
}

pub open spec fn pv_entry(o: Option<(i32, Seq<char>)>) -> Seq<(Seq<char>, i32)> {
    match o { Some(p) => seq![(p.1, p.0)], None => Seq::empty() }
}

/// What an answer comes to: the first line's score (0 without one), the move settled on,
/// and the candidate moves with their scores in line order; without any line, the move
/// settled on with that score.
pub open spec fn reply_result(v: ReplyView) -> (i32, Option<Seq<char>>, Seq<(Seq<char>, i32)>) {
    let best = match v.0 { Some(p) => p.0, None => 0 };
    let top = pv_entry(v.0) + pv_entry(v.1) + pv_entry(v.2);
    (best, v.3, if top.len() == 0 {
        match v.3 { Some(m) => seq![(m, best)], None => Seq::empty() }
    } else {
        top
    })
}

pub open spec fn moves_view(v: Seq<(String, i32)>) -> Seq<(Seq<char>, i32)> {
    v.map_values(|e: (String, i32)| (e.0@, e.1))
}

fn word_at(t: &Vec<Vec<char>>, w: &str) -> (r: usize)
    ensures
        r <= t@.len(),
        r < t@.len() <==> word_index(t.deep_view(), w@, 0) >= 0,
        r < t@.len() ==> r == word_index(t.deep_view(), w@, 0),
{
    let ghost tv = t.deep_view();
    proof {
        assert forall|j: int| 0 <= j < t@.len() implies #[trigger] tv[j] == t@[j]@ by {
            assert(t@[j].deep_view() =~= t@[j]@);
        }
    }
    let mut k: usize = 0;
    while k < t.len() && !eq_lit(&t[k], w)
        invariant
            k <= t@.len(), tv == t.deep_view(), tv.len() == t@.len(),
            forall|j: int| 0 <= j < t@.len() ==> #[trigger] tv[j] == t@[j]@,
            word_index(tv, w@, 0) == word_index(tv, w@, k as int),
        decreases t@.len() - k,
    {
        k += 1;
    }
    proof { lemma_word_index(tv, w@, k as int); }
    k
}

impl EngineReply {
    pub open spec fn view(&self) -> ReplyView {
        (pv_view(self.pv1), pv_view(self.pv2), pv_view(self.pv3), opt_chars_of(self.best_move))
    }

    /// Nothing said yet.
    pub fn new() -> (r: EngineReply)
        ensures r.view() == (None::<(i32, Seq<char>)>, None::<(i32, Seq<char>)>, None::<(i32, Seq<char>)>, None::<Seq<char>>),
    {
        EngineReply { pv1: None, pv2: None, pv3: None, best_move: None }
    }

    /// Takes one line of the engine's output; true when it ends the answer.
    pub fn feed(&mut self, line: &str) -> (done: bool)
        ensures
            final(self).view() == reply_step(old(self).view(), line@),
            done == reply_ends(line@),
    {
        let l = trim(&chars_of(line));
        let ls = string_of(&l);
        if crate::network::has_prefix(&l, "info") {
            let t = words(&l);
            proof {
                assert forall|j: int| 0 <= j < t@.len() implies #[trigger] t.deep_view()[j] == t@[j]@ by {
                    assert(t@[j].deep_view() =~= t@[j]@);
                }
            }
            let k = word_at(&t, "multipv");
            let n: u64 = if k < t.len() && t.len() - k > 1 {
                match parse_unsigned(&t[k + 1], 255) { Some(n) => n, None => 1 }
            } else {
                1
            };
            assert(n == pv_index(t.deep_view()));
            match parse_score(ls.as_str()) {
                Some(cp) => {
                    let p = word_at(&t, "pv");
                    if p < t.len() && t.len() - p > 1 {
                        let mv = string_of(&t[p + 1]);
                        if n == 1 {
                            self.pv1 = Some((cp, mv));
                        } else if n == 2 {
                            self.pv2 = Some((cp, mv));
                        } else if n == 3 {
                            self.pv3 = Some((cp, mv));
                        }
                    }
                },
                None => {},
            }
            false
        } else if crate::network::has_prefix(&l, "bestmove") {
            let t = words(&l);
            proof {
                assert forall|j: int| 0 <= j < t@.len() implies #[trigger] t.deep_view()[j] == t@[j]@ by {
                    assert(t@[j].deep_view() =~= t@[j]@);
                }
            }
            self.best_move = if t.len() > 1 && !eq_lit(&t[1], "(none)") { Some(string_of(&t[1])) } else { None };
            true
        } else {
            false
        }
    }

    /// What the answer comes to (see `reply_result`).
    pub fn result(&self) -> (r: (i32, Option<String>, Vec<(String, i32)>))
        ensures (r.0, opt_chars_of(r.1), moves_view(r.2@)) == reply_result(self.view()),
    {
        let best: i32 = match &self.pv1 { Some(p) => p.0, None => 0 };
        let mut top: Vec<(String, i32)> = Vec::new();
        match &self.pv1 { Some(p) => top.push((string_of(&chars_of(p.1.as_str())), p.0)), None => {} }
        match &self.pv2 { Some(p) => top.push((string_of(&chars_of(p.1.as_str())), p.0)), None => {} }
        match &self.pv3 { Some(p) => top.push((string_of(&chars_of(p.1.as_str())), p.0)), None => {} }
        if top.len() == 0 {
            match &self.best_move { Some(m) => top.push((string_of(&chars_of(m.as_str())), best)), None => {} }
        }
        let bm = match &self.best_move { Some(m) => Some(string_of(&chars_of(m.as_str()))), None => None };
        assert(moves_view(top@) =~= reply_result(self.view()).2);
        (best, bm, top)
    }
}

/// The command that sets up the position before a move: the start position, followed by the
/// moves when there are any.
pub fn position_before(uci: &str) -> (s: String)
    ensures s@ == (if trim_spec(uci@).len() == 0 { "position startpos"@ } else { "position startpos moves "@ + trim_spec(uci@) }),
{
    let t = trim(&chars_of(uci));
    if t.len() == 0 {
        string_of(&chars_of("position startpos"))
    } else {
        let mut s = string_of(&chars_of("position startpos moves "));
        crate::text::push_chars(&mut s, &t);
        s
    }
}

/// The command that sets up the position after a move.
pub fn position_after(uci: &str) -> (s: String)
    ensures s@ == "position startpos moves "@ + trim_spec(uci@),
{
    let t = trim(&chars_of(uci));
    let mut s = string_of(&chars_of("position startpos moves "));
    crate::text::push_chars(&mut s, &t);
    s
}

pub open spec fn white_view(c: Color, stm: i32) -> int {
    if c == Color::White { stm as int } else { -stm }
}

/// An engine's verdict on a move by `color_moved`, from its answers for the position before
/// the move and after it, scores turned to White's view: the side that moved is to move
/// before, the other side after.
pub fn engine_verdict(move_idx: usize, color_moved: Color, before: (i32, Option<String>, Vec<(String, i32)>), after_stm: i32)
    -> (r: AnalysisResult)
    requires
        before.0 > i32::MIN, after_stm > i32::MIN,
        forall|i: int| 0 <= i < before.2@.len() ==> (#[trigger] before.2@[i]).1 > i32::MIN,
    ensures
        r.move_idx == move_idx && r.color_moved == color_moved,
        r.eval_before_cp == white_view(color_moved, before.0),
        r.eval_after_cp == -white_view(color_moved, after_stm),
        opt_chars_of(r.best_move_uci) == opt_chars_of(before.1),
        r.top_moves@.len() == before.2@.len(),
        forall|i: int| 0 <= i < r.top_moves@.len() ==>
            (#[trigger] r.top_moves@[i]).0@ == before.2@[i].0@ && r.top_moves@[i].1 == white_view(color_moved, before.2@[i].1),
{
    let white = match color_moved { Color::White => true, Color::Black => false };
    let eval_before_cp = if white { before.0 } else { -before.0 };
    let eval_after_cp = if white { -after_stm } else { after_stm };
    let mut top_moves: Vec<(String, i32)> = Vec::new();
    let mut i: usize = 0;
    while i < before.2.len()
        invariant
            i <= before.2@.len(), top_moves@.len() == i, white == (color_moved == Color::White),
            forall|j: int| 0 <= j < before.2@.len() ==> (#[trigger] before.2@[j]).1 > i32::MIN,
            forall|j: int| 0 <= j < i ==>
                (#[trigger] top_moves@[j]).0@ == before.2@[j].0@ && top_moves@[j].1 == white_view(color_moved, before.2@[j].1),
        decreases before.2@.len() - i,
    {
        let sc = before.2[i].1;
        top_moves.push((string_of(&chars_of(before.2[i].0.as_str())), if white { sc } else { -sc }));
        i += 1;
    }
    let best_move_uci = match &before.1 { Some(m) => Some(string_of(&chars_of(m.as_str()))), None => None };
    AnalysisResult { move_idx, eval_before_cp, eval_after_cp, best_move_uci, top_moves, color_moved }
}

// ── The engine as an opponent ───────────────────────────────────────────────

/// The option line that sets the engine's skill, at most 20.
pub open spec fn skill_option_spec(skill: u8) -> Seq<char> {
    "setoption name Skill Level value "@ + crate::num::dec_spec((if skill < 20 { skill } else { 20 }) as nat)
}

pub fn skill_option(skill: u8) -> (s: String)
    ensures s@ == skill_option_spec(skill),
{
    let mut s = string_of(&chars_of("setoption name Skill Level value "));
    crate::num::push_dec(&mut s, if skill < 20 { skill as u64 } else { 20 });
    s
}

pub open spec fn lower_byte(b: u8) -> u8 {
    if 65 <= b <= 90 { (b + 32) as u8 } else { b }
}

pub open spec fn promo_byte(b: u8) -> Option<Kind> {
    let l = lower_byte(b);
    if l == 113 { Some(Kind::Q) } else if l == 114 { Some(Kind::R) } else if l == 98 { Some(Kind::B) }
    else if l == 110 { Some(Kind::N) } else { None }
}

/// Whether the engine's move text can be read without a byte running out of range: when it
/// has four bytes and a file letter first, both rank bytes are at most `8` and the second
/// file byte is at least `a`.
pub open spec fn uci_readable(b: Seq<u8>) -> bool {
    (b.len() >= 4 && 97 <= b[0] <= 104) ==> (b[1] <= 56 && b[3] <= 56 && b[2] >= 97)
}

/// The move an engine names: from-square and to-square as file letter and rank digit
/// (rows counted from the eighth rank), then an optional promotion letter; `None` for a text
/// shorter than four bytes or not starting with a file letter.
pub open spec fn uci_move_spec(b: Seq<u8>) -> Option<Mv> {
    if b.len() < 4 || !(97 <= b[0] <= 104) {
        None
    } else {
        Some(Mv {
            fr: ((56 - b[1]) as usize, (b[0] - 97) as usize),
            to: ((56 - b[3]) as usize, (b[2] - 97) as usize),
            promo: if b.len() > 4 { promo_byte(b[4]) } else { None },
            ep: false,
            castle: 0,
        })
    }
}

/// Whether `uci_to_mv` can take `uci`.
pub fn uci_move_total(uci: &str) -> (r: bool)
    ensures r == uci_readable(vstd::string::StringSliceAdditionalSpecFns::spec_bytes(uci)),
{
    let b = uci.as_bytes();
    !(b.len() >= 4 && 97 <= b[0] && b[0] <= 104) || (b[1] <= 56 && b[3] <= 56 && b[2] >= 97)
}

/// The move an engine names (see `uci_move_spec`).
pub fn uci_to_mv(uci: &str) -> (r: Option<Mv>)
    requires uci_readable(vstd::string::StringSliceAdditionalSpecFns::spec_bytes(uci)),
    ensures r == uci_move_spec(vstd::string::StringSliceAdditionalSpecFns::spec_bytes(uci)),
{
    let b = uci.as_bytes();
    if b.len() < 4 {
        return None;
    }
    if !(b[0] >= 97 && b[0] <= 104) {
        return None;
    }
    let from = ((56 - b[1]) as usize, (b[0] - 97) as usize);
    let to = ((56 - b[3]) as usize, (b[2] - 97) as usize);
    let promo = if b.len() > 4 {
        let p = b[4];
        let l = if 65 <= p && p <= 90 { p + 32 } else { p };
        if l == 113 { Some(Kind::Q) } else if l == 114 { Some(Kind::R) } else if l == 98 { Some(Kind::B) }
        else if l == 110 { Some(Kind::N) } else { None }
    } else {
        None
    };
    Some(Mv { fr: from, to, promo, ep: false, castle: 0 })
}

} // verus!
