//! A room written to its file and read back is the same room, as far as the file keeps it.
use vstd::prelude::*;
use crate::text::{lines_spec, trim_spec, trim_start_spec, trim_end_spec, find_char_spec, is_ws_spec, words_from, words_spec,
    join_lines, plain_line, lemma_lines_join, lemma_join_push, lemma_find_after, lemma_find_char_bounds, lemma_trim_noop};
use crate::num::{dec_spec, lemma_dec_digits, lemma_parse_dec, is_digit};
use crate::relay::{RoomOptions, RoomView, join_moves};
use crate::config::bool_word;
use crate::persist::{room_text_spec, field_line, name_or_empty, chat_lines, kept_chat, file_key, file_val, chat_entry,
    load_step, load_fold, load_spec, fresh_room, some_if_nonempty};

verus! {

/// Text that a room file line can carry as a value: no line breaks, and no whitespace at
/// its ends.
pub open spec fn text_ok(v: Seq<char>) -> bool {
    &&& !v.contains('\n') && !v.contains('\r')
    &&& (v.len() == 0 || (!is_ws_spec(v[0]) && !is_ws_spec(v.last())))
}

/// A key of the room file: not empty, no whitespace and no `=` in it.
pub open spec fn file_key_ok(k: Seq<char>) -> bool {
    k.len() > 0 && forall|i: int| 0 <= i < k.len() ==> !is_ws_spec(#[trigger] k[i]) && k[i] != '='
}

pub open spec fn eq_line(k: Seq<char>, v: Seq<char>) -> Seq<char> {
    k + seq!['='] + v
}

proof fn lemma_eq_line(k: Seq<char>, v: Seq<char>)
    requires file_key_ok(k), text_ok(v),
    ensures
        file_key(eq_line(k, v)) == k,
        file_val(eq_line(k, v)) == v,
        plain_line(eq_line(k, v)),
        field_line(k, v) == eq_line(k, v) + seq!['\n'],
{
    let l = eq_line(k, v);
    assert(!is_ws_spec(k[0]));
    assert(l[0] == k[0]);
    assert(trim_start_spec(l) == l);
    if v.len() > 0 {
        assert(l.last() == v.last());
    } else {
        assert(l.last() == '=');
        assert(!is_ws_spec('='));
    }
    assert(trim_end_spec(l) == l);
    assert(trim_spec(l) == l);
    assert(!k.contains('=')) by {
        if k.contains('=') { let i = choose|i: int| 0 <= i < k.len() && k[i] == '='; }
    }
    lemma_find_after(k, v, '=');
    assert(l.take(k.len() as int) =~= k);
    assert(l.skip(k.len() as int + 1) =~= v);
    assert(!is_ws_spec(k.last())) by { assert(k.last() == k[k.len() - 1]); }
    lemma_trim_noop(k);
    lemma_trim_noop(v);
    assert(!l.contains('\n')) by {
        if l.contains('\n') {
            let i = choose|i: int| 0 <= i < l.len() && l[i] == '\n';
            if i < k.len() { assert(l[i] == k[i]); assert(is_ws_spec('\n')); }
            else if i > k.len() { assert(l[i] == v[i - k.len() - 1]); assert(v.contains('\n')); }
        }
    }
    if v.len() > 0 && l.last() == '\r' { assert(v.contains(v[v.len() - 1])); }
    assert(field_line(k, v) =~= eq_line(k, v) + seq!['\n']);
}

/// Moves joined with single spaces, built from the front.
pub open spec fn front_join(m: Seq<Seq<char>>) -> Seq<char>
    decreases m.len(),
{
    if m.len() == 0 { Seq::empty() } else if m.len() == 1 { m[0] } else { m[0] + seq![' '] + front_join(m.drop_first()) }
}

proof fn lemma_front_join_push(m: Seq<Seq<char>>, x: Seq<char>)
    requires m.len() > 0,
    ensures front_join(m.push(x)) == front_join(m) + seq![' '] + x,
    decreases m.len(),
{
    if m.len() == 1 {
        assert(m.push(x).drop_first() =~= seq![x]);
        assert(front_join(seq![x]) == x);
        assert(front_join(m.push(x)) =~= front_join(m) + seq![' '] + x);
    } else {
        assert(m.push(x).drop_first() =~= m.drop_first().push(x));
        lemma_front_join_push(m.drop_first(), x);
        assert(front_join(m.push(x)) =~= front_join(m) + seq![' '] + x);
    }
}

proof fn lemma_join_moves_front(m: Seq<Seq<char>>)
    ensures join_moves(m) == front_join(m),
    decreases m.len(),
{
    if m.len() > 1 {
        lemma_join_moves_front(m.drop_last());
        lemma_front_join_push(m.drop_last(), m.last());
        assert(m.drop_last().push(m.last()) =~= m);
    }
}

/// A move word: not empty and without whitespace.
pub open spec fn word_ok(w: Seq<char>) -> bool {
    w.len() > 0 && forall|i: int| 0 <= i < w.len() ==> !is_ws_spec(#[trigger] w[i])
}

proof fn lemma_words_run(s: Seq<char>, i: int, cur: Seq<char>, acc: Seq<Seq<char>>, t: Seq<char>)
    requires
        0 <= i, i + t.len() <= s.len(), s.subrange(i, i + t.len()) == t,
        forall|k: int| 0 <= k < t.len() ==> !is_ws_spec(#[trigger] t[k]),
    ensures words_from(s, i, cur, acc) == words_from(s, i + t.len(), cur + t, acc),
    decreases t.len(),
{
    if t.len() == 0 {
        assert(cur + t =~= cur);
    } else {
        assert(s[i] == s.subrange(i, i + t.len())[0]);
        assert(!is_ws_spec(t[0]));
        let t2 = t.drop_first();
        assert(s.subrange(i + 1, i + 1 + t2.len()) =~= t2) by {
            assert forall|k: int| 0 <= k < t2.len() implies s.subrange(i + 1, i + 1 + t2.len())[k] == t2[k] by {
                assert(s.subrange(i, i + t.len())[k + 1] == t[k + 1]);
            }
        }
        assert forall|k: int| 0 <= k < t2.len() implies !is_ws_spec(#[trigger] t2[k]) by { assert(t2[k] == t[k + 1]); }
        lemma_words_run(s, i + 1, cur.push(s[i]), acc, t2);
        assert(cur.push(s[i]) + t2 =~= cur + t);
    }
}

proof fn lemma_words_join(s: Seq<char>, i: int, acc: Seq<Seq<char>>, m: Seq<Seq<char>>)
    requires
        0 <= i <= s.len(), s.skip(i) == front_join(m), m.len() > 0,
        forall|k: int| 0 <= k < m.len() ==> word_ok(#[trigger] m[k]),
    ensures words_from(s, i, Seq::empty(), acc) == acc + m,
    decreases m.len(),
{
    let t = m[0];
    assert(word_ok(t));
    let rest = front_join(m.drop_first());
    if m.len() == 1 {
        assert(s.skip(i) == t);
        assert(s.subrange(i, i + t.len()) =~= t) by {
            assert forall|k: int| 0 <= k < t.len() implies s.subrange(i, i + t.len())[k] == t[k] by { assert(s.skip(i)[k] == t[k]); }
        }
        lemma_words_run(s, i, Seq::empty(), acc, t);
        assert(Seq::<char>::empty() + t =~= t);
        assert(i + t.len() == s.len());
        assert(acc.push(t) =~= acc + m);
    } else {
        assert(s.skip(i) == t + seq![' '] + rest);
        assert(s.subrange(i, i + t.len()) =~= t) by {
            assert forall|k: int| 0 <= k < t.len() implies s.subrange(i, i + t.len())[k] == t[k] by {
                assert(s.skip(i)[k] == (t + seq![' '] + rest)[k]);
            }
        }
        lemma_words_run(s, i, Seq::empty(), acc, t);
        assert(Seq::<char>::empty() + t =~= t);
        assert(s[i + t.len()] == ' ') by { assert(s.skip(i)[t.len() as int] == (t + seq![' '] + rest)[t.len() as int]); }
        assert(is_ws_spec(' '));
        assert(s.skip(i + t.len() + 1) =~= rest) by {
            assert forall|k: int| 0 <= k < rest.len() implies s.skip(i + t.len() + 1)[k] == rest[k] by {
                assert(s.skip(i)[t.len() + 1 + k] == (t + seq![' '] + rest)[t.len() + 1 + k]);
            }
        }
        assert forall|k: int| 0 <= k < m.drop_first().len() implies word_ok(#[trigger] m.drop_first()[k]) by {
            assert(m.drop_first()[k] == m[k + 1]);
        }
        lemma_words_join(s, i + t.len() + 1, acc.push(t), m.drop_first());
        assert(acc.push(t) + m.drop_first() =~= acc + m);
    }
}

/// Moves joined with spaces read back as the same moves.
proof fn lemma_moves_words(m: Seq<Seq<char>>)
    requires m.len() > 0, forall|k: int| 0 <= k < m.len() ==> word_ok(#[trigger] m[k]),
    ensures words_spec(join_moves(m)) == m,
{
    lemma_join_moves_front(m);
    let s = join_moves(m);
    assert(s.skip(0) =~= s);
    lemma_words_join(s, 0, Seq::empty(), m);
    assert(Seq::<Seq<char>>::empty() + m =~= m);
}

// ── Values ───────────────────────────────────────────────────────────────────

proof fn lemma_dec_text(n: nat)
    ensures text_ok(dec_spec(n)), crate::num::parse_unsigned_spec(dec_spec(n), u32::MAX as nat) == (if n <= u32::MAX { Some(n) } else { None }),
{
    lemma_dec_digits(n);
    let d = dec_spec(n);
    assert(is_digit(d[0]));
    assert(is_digit(d[d.len() - 1]));
    if d.contains('\n') { let i = choose|i: int| 0 <= i < d.len() && d[i] == '\n'; assert(is_digit(d[i])); }
    if d.contains('\r') { let i = choose|i: int| 0 <= i < d.len() && d[i] == '\r'; assert(is_digit(d[i])); }
    if n <= u32::MAX { lemma_parse_dec(n, u32::MAX as nat); } else { assert(is_digit(d[0])); }
}

proof fn lemma_bool_text(b: bool)
    ensures text_ok(bool_word(b)), (bool_word(b) == "true"@) == b,
{
    reveal_strlit("true");
    reveal_strlit("false");
    let w = bool_word(b);
    if w.contains('\n') { let i = choose|i: int| 0 <= i < w.len() && w[i] == '\n'; }
    if w.contains('\r') { let i = choose|i: int| 0 <= i < w.len() && w[i] == '\r'; }
}

proof fn lemma_moves_text(m: Seq<Seq<char>>)
    requires forall|k: int| 0 <= k < m.len() ==> word_ok(#[trigger] m[k]),
    ensures text_ok(join_moves(m)),
    decreases m.len(),
{
    assert(is_ws_spec('\n') && is_ws_spec('\r'));
    if m.len() == 1 {
        let w = m[0];
        assert(word_ok(w));
        assert(!is_ws_spec(w.last())) by { assert(w.last() == w[w.len() - 1]); }
        if w.contains('\n') { let i = choose|i: int| 0 <= i < w.len() && w[i] == '\n'; }
        if w.contains('\r') { let i = choose|i: int| 0 <= i < w.len() && w[i] == '\r'; }
    } else if m.len() > 1 {
        assert forall|k: int| 0 <= k < m.drop_last().len() implies word_ok(#[trigger] m.drop_last()[k]) by {
            assert(m.drop_last()[k] == m[k]);
        }
        lemma_moves_text(m.drop_last());
        let a = join_moves(m.drop_last());
        let w = m.last();
        assert(word_ok(w)) by { assert(w == m[m.len() - 1]); }
        let s = a + seq![' '] + w;
        assert(join_moves(m) == s);
        assert(a.len() > 0) by {
            if a.len() == 0 {
                if m.drop_last().len() == 1 { assert(a == m[0]); assert(word_ok(m[0])); }
                else { assert(a == join_moves(m.drop_last().drop_last()) + seq![' '] + m.drop_last().last()); }
            }
        }
        assert(s[0] == a[0]);
        assert(s.last() == w[w.len() - 1]);
        if s.contains('\n') {
            let i = choose|i: int| 0 <= i < s.len() && s[i] == '\n';
            if i < a.len() { assert(a[i] == s[i]); assert(a.contains('\n')); }
            else if i > a.len() { assert(s[i] == w[i - a.len() - 1]); }
        }
        if s.contains('\r') {
            let i = choose|i: int| 0 <= i < s.len() && s[i] == '\r';
            if i < a.len() { assert(a[i] == s[i]); assert(a.contains('\r')); }
            else if i > a.len() { assert(s[i] == w[i - a.len() - 1]); }
        }
    }
}

/// What a room file needs of a room to keep it: a code, tokens, names and chat texts
/// without line breaks or surrounding whitespace, tokens and names not empty, moves single
/// words, and chat colours without `:`.
pub open spec fn chat_ok(e: (Seq<char>, Seq<char>)) -> bool {
    e.0.len() > 0 && !e.0.contains(':') && text_ok(e.0 + seq![':'] + e.1)
}

pub open spec fn some_ok(o: Option<Seq<char>>) -> bool {
    o matches Some(t) ==> t.len() > 0 && text_ok(t)
}

pub open spec fn room_savable(code: Seq<char>, r: RoomView) -> bool {
    &&& text_ok(code)
    &&& some_ok(r.white_token) && some_ok(r.black_token) && some_ok(r.white_name) && some_ok(r.black_name)
    &&& forall|k: int| 0 <= k < r.moves.len() ==> word_ok(#[trigger] r.moves[k])
    &&& forall|k: int| 0 <= k < r.chat_history.len() ==> chat_ok(#[trigger] r.chat_history[k])
}

/// The room that reading a room's file gives: the same room with nobody connected, a fresh
/// chat counter and limiter, and the last 100 chat messages.
pub open spec fn reloaded(r: RoomView) -> RoomView {
    RoomView {
        white_conn: false,
        black_conn: false,
        chat_buckets: Seq::empty(),
        chat_max: 30,
        chat_count: 0,
        chat_history: kept_chat(r.chat_history),
        ..r
    }
}

// ── Lines ────────────────────────────────────────────────────────────────────

pub open spec fn chat_line(e: (Seq<char>, Seq<char>)) -> Seq<char> {
    eq_line("chat"@, e.0 + seq![':'] + e.1)
}

pub open spec fn chat_seq(h: Seq<(Seq<char>, Seq<char>)>) -> Seq<Seq<char>> {
    h.map_values(|e: (Seq<char>, Seq<char>)| chat_line(e))
}

pub open spec fn token_lines(key: Seq<char>, o: Option<Seq<char>>) -> Seq<Seq<char>> {
    match o { Some(t) => seq![eq_line(key, t)], None => Seq::empty() }
}

pub open spec fn base_lines(code: Seq<char>, r: RoomView) -> Seq<Seq<char>> {
    seq![eq_line("code"@, code), eq_line("time"@, dec_spec(r.opts.time_secs as nat)),
        eq_line("inc"@, dec_spec(r.opts.increment_secs as nat)), eq_line("undo"@, bool_word(r.opts.undo_allowed)),
        eq_line("engine"@, bool_word(r.opts.engine_during)), eq_line("started"@, bool_word(r.started))]
        + token_lines("white_token"@, r.white_token) + token_lines("black_token"@, r.black_token)
        + seq![eq_line("white_name"@, name_or_empty(r.white_name)), eq_line("black_name"@, name_or_empty(r.black_name)),
            eq_line("moves"@, join_moves(r.moves))]
}

pub open spec fn room_lines(code: Seq<char>, r: RoomView) -> Seq<Seq<char>> {
    base_lines(code, r) + chat_seq(kept_chat(r.chat_history))
}

proof fn lemma_join_concat(a: Seq<Seq<char>>, b: Seq<Seq<char>>)
    ensures join_lines(a + b) == join_lines(a) + join_lines(b),
    decreases a.len(),
{
    if a.len() == 0 {
        assert(a + b =~= b);
        assert(join_lines(a) + join_lines(b) =~= join_lines(b));
    } else {
        assert((a + b).drop_first() =~= a.drop_first() + b);
        lemma_join_concat(a.drop_first(), b);
        assert((a + b)[0] == a[0]);
        assert(join_lines(a + b) =~= join_lines(a) + join_lines(b));
    }
}

proof fn lemma_chat_lines(h: Seq<(Seq<char>, Seq<char>)>)
    ensures chat_lines(h) == join_lines(chat_seq(h)),
    decreases h.len(),
{
    reveal_strlit("chat=");
    reveal_strlit("chat");
    if h.len() == 0 {
        assert(chat_seq(h) =~= Seq::<Seq<char>>::empty());
    } else {
        lemma_chat_lines(h.drop_last());
        assert(chat_seq(h) =~= chat_seq(h.drop_last()).push(chat_line(h.last())));
        lemma_join_push(chat_seq(h.drop_last()), chat_line(h.last()));
        assert("chat="@ =~= "chat"@ + seq!['=']);
        assert(chat_lines(h) =~= join_lines(chat_seq(h)));
    }
}

proof fn lemma_keys_ok()
    ensures
        file_key_ok("code"@), file_key_ok("time"@), file_key_ok("inc"@), file_key_ok("undo"@), file_key_ok("engine"@),
        file_key_ok("started"@), file_key_ok("white_token"@), file_key_ok("black_token"@), file_key_ok("white_name"@),
        file_key_ok("black_name"@), file_key_ok("moves"@), file_key_ok("chat"@),
        "code"@ != "time"@, "code"@ != "inc"@, "code"@ != "undo"@, "code"@ != "engine"@, "code"@ != "started"@,
        "code"@ != "white_token"@, "code"@ != "black_token"@, "code"@ != "white_name"@, "code"@ != "black_name"@,
        "code"@ != "moves"@, "code"@ != "chat"@,
        "inc"@ != "time"@, "undo"@ != "time"@, "undo"@ != "inc"@, "engine"@ != "time"@, "engine"@ != "inc"@, "engine"@ != "undo"@, "started"@ != "time"@, "started"@ != "inc"@, "started"@ != "undo"@, "started"@ != "engine"@, "white_token"@ != "time"@, "white_token"@ != "inc"@, "white_token"@ != "undo"@, "white_token"@ != "engine"@, "white_token"@ != "started"@, "black_token"@ != "time"@, "black_token"@ != "inc"@, "black_token"@ != "undo"@, "black_token"@ != "engine"@, "black_token"@ != "started"@, "black_token"@ != "white_token"@, "white_name"@ != "time"@, "white_name"@ != "inc"@, "white_name"@ != "undo"@, "white_name"@ != "engine"@, "white_name"@ != "started"@, "white_name"@ != "white_token"@, "white_name"@ != "black_token"@, "black_name"@ != "time"@, "black_name"@ != "inc"@, "black_name"@ != "undo"@, "black_name"@ != "engine"@, "black_name"@ != "started"@, "black_name"@ != "white_token"@, "black_name"@ != "black_token"@, "black_name"@ != "white_name"@, "moves"@ != "time"@, "moves"@ != "inc"@, "moves"@ != "undo"@, "moves"@ != "engine"@, "moves"@ != "started"@, "moves"@ != "white_token"@, "moves"@ != "black_token"@, "moves"@ != "white_name"@, "moves"@ != "black_name"@, "chat"@ != "time"@, "chat"@ != "inc"@, "chat"@ != "undo"@, "chat"@ != "engine"@, "chat"@ != "started"@, "chat"@ != "white_token"@, "chat"@ != "black_token"@, "chat"@ != "white_name"@, "chat"@ != "black_name"@, "chat"@ != "moves"@,
{
    reveal_strlit("code");
    reveal_strlit("time");
    reveal_strlit("inc");
    reveal_strlit("undo");
    reveal_strlit("engine");
    reveal_strlit("started");
    reveal_strlit("white_token");
    reveal_strlit("black_token");
    reveal_strlit("white_name");
    reveal_strlit("black_name");
    reveal_strlit("moves");
    reveal_strlit("chat");
    assert("time"@[0] != "code"@[0]);
    assert("undo"@[0] != "code"@[0]);
    assert("undo"@[0] != "time"@[0]);
    assert("black_token"@[0] != "white_token"@[0]);
    assert("black_name"@[0] != "white_name"@[0]);
    assert("chat"@[1] != "code"@[1]);
    assert("chat"@[0] != "time"@[0]);
    assert("chat"@[0] != "undo"@[0]);
}

proof fn lemma_values_ok(code: Seq<char>, r: RoomView)
    requires room_savable(code, r),
    ensures
        text_ok(dec_spec(r.opts.time_secs as nat)), text_ok(dec_spec(r.opts.increment_secs as nat)),
        text_ok(bool_word(r.opts.undo_allowed)), text_ok(bool_word(r.opts.engine_during)), text_ok(bool_word(r.started)),
        text_ok(name_or_empty(r.white_name)), text_ok(name_or_empty(r.black_name)), text_ok(join_moves(r.moves)),
{
    lemma_dec_text(r.opts.time_secs as nat);
    lemma_dec_text(r.opts.increment_secs as nat);
    lemma_bool_text(r.opts.undo_allowed);
    lemma_bool_text(r.opts.engine_during);
    lemma_bool_text(r.started);
    lemma_moves_text(r.moves);
    assert(text_ok(Seq::<char>::empty()));
}

proof fn lemma_kept_ok(h: Seq<(Seq<char>, Seq<char>)>)
    requires forall|k: int| 0 <= k < h.len() ==> chat_ok(#[trigger] h[k]),
    ensures forall|k: int| 0 <= k < kept_chat(h).len() ==> chat_ok(#[trigger] kept_chat(h)[k]),
{
    assert forall|k: int| 0 <= k < kept_chat(h).len() implies chat_ok(#[trigger] kept_chat(h)[k]) by {
        if h.len() > 100 { assert(kept_chat(h)[k] == h[k + h.len() - 100]); }
    }
}

proof fn lemma_push_field(y: Seq<Seq<char>>, t: Seq<char>, k: Seq<char>, v: Seq<char>)
    requires join_lines(y) == t, file_key_ok(k), text_ok(v),
    ensures join_lines(y.push(eq_line(k, v))) == t + field_line(k, v),
{
    lemma_eq_line(k, v);
    lemma_join_push(y, eq_line(k, v));
    assert(join_lines(y.push(eq_line(k, v))) =~= t + field_line(k, v));
}

proof fn lemma_push_token(y: Seq<Seq<char>>, t: Seq<char>, k: Seq<char>, o: Option<Seq<char>>)
    requires join_lines(y) == t, file_key_ok(k), some_ok(o),
    ensures
        join_lines(y + token_lines(k, o)) == t + (match o { Some(x) => field_line(k, x), None => Seq::<char>::empty() }),
{
    match o {
        Some(x) => {
            assert(y + token_lines(k, o) =~= y.push(eq_line(k, x)));
            lemma_push_field(y, t, k, x);
        },
        None => {
            assert(y + token_lines(k, o) =~= y);
            assert(t + Seq::<char>::empty() =~= t);
        },
    }
}

/// The file's text is its lines, each with a line break.
proof fn lemma_room_text_lines(code: Seq<char>, r: RoomView)
    requires room_savable(code, r),
    ensures room_text_spec(code, r) == join_lines(room_lines(code, r)),
{
    lemma_keys_ok();
    lemma_values_ok(code, r);
    let y0 = Seq::<Seq<char>>::empty();
    let t0 = Seq::<char>::empty();
    lemma_push_field(y0, t0, "code"@, code);
    let y1 = y0.push(eq_line("code"@, code));
    let t1 = t0 + field_line("code"@, code);
    lemma_push_field(y1, t1, "time"@, dec_spec(r.opts.time_secs as nat));
    let y2 = y1.push(eq_line("time"@, dec_spec(r.opts.time_secs as nat)));
    let t2 = t1 + field_line("time"@, dec_spec(r.opts.time_secs as nat));
    lemma_push_field(y2, t2, "inc"@, dec_spec(r.opts.increment_secs as nat));
    let y3 = y2.push(eq_line("inc"@, dec_spec(r.opts.increment_secs as nat)));
    let t3 = t2 + field_line("inc"@, dec_spec(r.opts.increment_secs as nat));
    lemma_push_field(y3, t3, "undo"@, bool_word(r.opts.undo_allowed));
    let y4 = y3.push(eq_line("undo"@, bool_word(r.opts.undo_allowed)));
    let t4 = t3 + field_line("undo"@, bool_word(r.opts.undo_allowed));
    lemma_push_field(y4, t4, "engine"@, bool_word(r.opts.engine_during));
    let y5 = y4.push(eq_line("engine"@, bool_word(r.opts.engine_during)));
    let t5 = t4 + field_line("engine"@, bool_word(r.opts.engine_during));
    lemma_push_field(y5, t5, "started"@, bool_word(r.started));
    let y6 = y5.push(eq_line("started"@, bool_word(r.started)));
    let t6 = t5 + field_line("started"@, bool_word(r.started));
    lemma_push_token(y6, t6, "white_token"@, r.white_token);
    let y7 = y6 + token_lines("white_token"@, r.white_token);
    let t7 = t6 + (match r.white_token { Some(x) => field_line("white_token"@, x), None => Seq::<char>::empty() });
    lemma_push_token(y7, t7, "black_token"@, r.black_token);
    let y8 = y7 + token_lines("black_token"@, r.black_token);
    let t8 = t7 + (match r.black_token { Some(x) => field_line("black_token"@, x), None => Seq::<char>::empty() });
    lemma_push_field(y8, t8, "white_name"@, name_or_empty(r.white_name));
    let y9 = y8.push(eq_line("white_name"@, name_or_empty(r.white_name)));
    let t9 = t8 + field_line("white_name"@, name_or_empty(r.white_name));
    lemma_push_field(y9, t9, "black_name"@, name_or_empty(r.black_name));
    let y10 = y9.push(eq_line("black_name"@, name_or_empty(r.black_name)));
    let t10 = t9 + field_line("black_name"@, name_or_empty(r.black_name));
    lemma_push_field(y10, t10, "moves"@, join_moves(r.moves));
    let y11 = y10.push(eq_line("moves"@, join_moves(r.moves)));
    let t11 = t10 + field_line("moves"@, join_moves(r.moves));
    let h = chat_seq(kept_chat(r.chat_history));
    lemma_chat_lines(kept_chat(r.chat_history));
    lemma_join_concat(y11, h);
    assert(y11 =~= base_lines(code, r));
    assert(t0 + field_line("code"@, code) =~= field_line("code"@, code));
    assert(room_text_spec(code, r) == t11 + chat_lines(kept_chat(r.chat_history)));
}

proof fn lemma_room_lines_plain(code: Seq<char>, r: RoomView)
    requires room_savable(code, r),
    ensures forall|k: int| 0 <= k < room_lines(code, r).len() ==> plain_line(#[trigger] room_lines(code, r)[k]),
{
    lemma_keys_ok();
    lemma_values_ok(code, r);
    lemma_eq_line("code"@, code);
    lemma_eq_line("time"@, dec_spec(r.opts.time_secs as nat));
    lemma_eq_line("inc"@, dec_spec(r.opts.increment_secs as nat));
    lemma_eq_line("undo"@, bool_word(r.opts.undo_allowed));
    lemma_eq_line("engine"@, bool_word(r.opts.engine_during));
    lemma_eq_line("started"@, bool_word(r.started));
    lemma_eq_line("white_name"@, name_or_empty(r.white_name));
    lemma_eq_line("black_name"@, name_or_empty(r.black_name));
    lemma_eq_line("moves"@, join_moves(r.moves));
    match r.white_token { Some(t) => { lemma_eq_line("white_token"@, t); }, None => {} }
    match r.black_token { Some(t) => { lemma_eq_line("black_token"@, t); }, None => {} }
    let kept = kept_chat(r.chat_history);
    lemma_kept_ok(r.chat_history);
    let ls = room_lines(code, r);
    let base = base_lines(code, r);
    assert forall|k: int| 0 <= k < ls.len() implies plain_line(#[trigger] ls[k]) by {
        if k < base.len() {
            assert(ls[k] == base[k]);
        } else {
            let e = kept[k - base.len()];
            assert(chat_ok(e));
            lemma_eq_line("chat"@, e.0 + seq![':'] + e.1);
            assert(ls[k] == chat_line(e));
        }
    }
}

// ── Reading the lines back ───────────────────────────────────────────────────

proof fn lemma_fold_push(r: RoomView, x: Seq<Seq<char>>, l: Seq<char>)
    ensures load_fold(r, x.push(l)) == load_step(load_fold(r, x), l),
{
    assert(x.push(l).drop_last() =~= x);
}

proof fn lemma_fold_concat(r: RoomView, a: Seq<Seq<char>>, b: Seq<Seq<char>>)
    ensures load_fold(r, a + b) == load_fold(load_fold(r, a), b),
    decreases b.len(),
{
    if b.len() == 0 {
        assert(a + b =~= a);
    } else {
        assert((a + b).drop_last() =~= a + b.drop_last());
        assert((a + b).last() == b.last());
        lemma_fold_concat(r, a, b.drop_last());
    }
}

/// What the lines before the chat give: the room without its chat messages.
pub open spec fn base_state(r: RoomView) -> RoomView {
    RoomView { chat_history: Seq::empty(), ..reloaded(r) }
}

proof fn lemma_token_fold(st: RoomView, k: Seq<char>, o: Option<Seq<char>>)
    requires file_key_ok(k), some_ok(o),
    ensures
        load_fold(st, token_lines(k, o)) == (match o { Some(t) => load_step(st, eq_line(k, t)), None => st }),
{
    match o {
        Some(t) => {
            assert(token_lines(k, o) =~= Seq::<Seq<char>>::empty().push(eq_line(k, t)));
            lemma_fold_push(st, Seq::<Seq<char>>::empty(), eq_line(k, t));
        },
        None => {},
    }
}

#[verifier::rlimit(60)]
proof fn lemma_base_fold(code: Seq<char>, r: RoomView)
    requires room_savable(code, r),
    ensures load_fold(fresh_room(), base_lines(code, r)) == base_state(r),
{
    lemma_keys_ok();
    lemma_values_ok(code, r);
    reveal_strlit("true");
    lemma_bool_text(r.opts.undo_allowed);
    lemma_bool_text(r.opts.engine_during);
    lemma_bool_text(r.started);
    lemma_dec_text(r.opts.time_secs as nat);
    lemma_dec_text(r.opts.increment_secs as nat);
    let f = fresh_room();
    let l1 = eq_line("code"@, code);
    let l2 = eq_line("time"@, dec_spec(r.opts.time_secs as nat));
    let l3 = eq_line("inc"@, dec_spec(r.opts.increment_secs as nat));
    let l4 = eq_line("undo"@, bool_word(r.opts.undo_allowed));
    let l5 = eq_line("engine"@, bool_word(r.opts.engine_during));
    let l6 = eq_line("started"@, bool_word(r.started));
    let n1 = eq_line("white_name"@, name_or_empty(r.white_name));
    let n2 = eq_line("black_name"@, name_or_empty(r.black_name));
    let mv = eq_line("moves"@, join_moves(r.moves));
    lemma_eq_line("code"@, code);
    lemma_eq_line("time"@, dec_spec(r.opts.time_secs as nat));
    lemma_eq_line("inc"@, dec_spec(r.opts.increment_secs as nat));
    lemma_eq_line("undo"@, bool_word(r.opts.undo_allowed));
    lemma_eq_line("engine"@, bool_word(r.opts.engine_during));
    lemma_eq_line("started"@, bool_word(r.started));
    lemma_eq_line("white_name"@, name_or_empty(r.white_name));
    lemma_eq_line("black_name"@, name_or_empty(r.black_name));
    lemma_eq_line("moves"@, join_moves(r.moves));
    let p0 = Seq::<Seq<char>>::empty();
    let p1 = p0.push(l1);
    let p2 = p1.push(l2);
    let p3 = p2.push(l3);
    let p4 = p3.push(l4);
    let p5 = p4.push(l5);
    let a = p5.push(l6);
    let s1 = f;
    let s2 = RoomView { opts: RoomOptions { time_secs: r.opts.time_secs, ..s1.opts }, ..s1 };
    let s3 = RoomView { opts: RoomOptions { increment_secs: r.opts.increment_secs, ..s2.opts }, ..s2 };
    let s4 = RoomView { opts: RoomOptions { undo_allowed: r.opts.undo_allowed, ..s3.opts }, ..s3 };
    let s5 = RoomView { opts: RoomOptions { engine_during: r.opts.engine_during, ..s4.opts }, ..s4 };
    let s6 = RoomView { started: r.started, ..s5 };
    lemma_fold_push(f, p5, l6);
    lemma_fold_push(f, p4, l5);
    lemma_fold_push(f, p3, l4);
    lemma_fold_push(f, p2, l3);
    lemma_fold_push(f, p1, l2);
    lemma_fold_push(f, p0, l1);
    assert(load_fold(f, p1) == s1);
    assert(file_key(l2) == "time"@);
    assert(file_val(l2) == dec_spec(r.opts.time_secs as nat));
    assert(crate::num::parse_unsigned_spec(file_val(l2), u32::MAX as nat) == Some(r.opts.time_secs as nat));
    assert(load_step(s1, l2) == s2);
    assert(load_fold(f, p2) == s2);
    assert(load_fold(f, p3) == s3);
    assert(load_fold(f, p4) == s4);
    assert(load_fold(f, p5) == s5);
    assert(load_fold(f, a) == s6);
    let w = token_lines("white_token"@, r.white_token);
    let b = token_lines("black_token"@, r.black_token);
    lemma_fold_concat(f, a, w);
    lemma_token_fold(s6, "white_token"@, r.white_token);
    match r.white_token { Some(t) => { lemma_eq_line("white_token"@, t); }, None => {} }
    let s7 = RoomView { white_token: r.white_token, ..s6 };
    assert(load_fold(f, a + w) == s7);
    lemma_fold_concat(f, a + w, b);
    lemma_token_fold(s7, "black_token"@, r.black_token);
    match r.black_token { Some(t) => { lemma_eq_line("black_token"@, t); }, None => {} }
    let s8 = RoomView { black_token: r.black_token, ..s7 };
    assert(load_fold(f, a + w + b) == s8);
    let c1 = p0.push(n1);
    let c2 = c1.push(n2);
    let c = c2.push(mv);
    lemma_fold_concat(f, a + w + b, c);
    lemma_fold_push(s8, c2, mv);
    lemma_fold_push(s8, c1, n2);
    lemma_fold_push(s8, p0, n1);
    let s9 = RoomView { white_name: r.white_name, ..s8 };
    let s10 = RoomView { black_name: r.black_name, ..s9 };
    let s11 = RoomView { moves: r.moves, ..s10 };
    assert(load_fold(s8, c1) == s9);
    assert(load_fold(s8, c2) == s10);
    if r.moves.len() > 0 {
        lemma_moves_words(r.moves);
        assert(join_moves(r.moves).len() > 0) by {
            if join_moves(r.moves).len() == 0 { assert(words_spec(join_moves(r.moves)) =~= Seq::<Seq<char>>::empty()); }
        }
    } else {
        assert(r.moves =~= Seq::<Seq<char>>::empty());
    }
    assert(load_fold(s8, c) =~~= s11);
    assert(base_lines(code, r) =~= a + w + b + c);
    assert(s11 =~~= base_state(r));
}

/// A room with the chat messages `h` added.
pub open spec fn with_chat(st: RoomView, h: Seq<(Seq<char>, Seq<char>)>) -> RoomView {
    RoomView { chat_history: st.chat_history + h, ..st }
}

proof fn lemma_chat_fold(st: RoomView, h: Seq<(Seq<char>, Seq<char>)>)
    requires forall|k: int| 0 <= k < h.len() ==> chat_ok(#[trigger] h[k]),
    ensures load_fold(st, chat_seq(h)) == with_chat(st, h),
    decreases h.len(),
{
    if h.len() == 0 {
        assert(chat_seq(h) =~= Seq::<Seq<char>>::empty());
        assert(st.chat_history + h =~= st.chat_history);
        assert(RoomView { chat_history: st.chat_history + h, ..st } =~~= st);
    } else {
        let e = h.last();
        assert(chat_ok(e)) by { assert(e == h[h.len() - 1]); }
        assert forall|k: int| 0 <= k < h.drop_last().len() implies chat_ok(#[trigger] h.drop_last()[k]) by {
            assert(h.drop_last()[k] == h[k]);
        }
        lemma_chat_fold(st, h.drop_last());
        assert(chat_seq(h) =~= chat_seq(h.drop_last()).push(chat_line(e)));
        lemma_fold_push(st, chat_seq(h.drop_last()), chat_line(e));
        lemma_keys_ok();
        let v = e.0 + seq![':'] + e.1;
        lemma_eq_line("chat"@, v);
        lemma_find_after(e.0, e.1, ':');
        assert(v.take(e.0.len() as int) =~= e.0);
        assert(v.skip(e.0.len() as int + 1) =~= e.1);
        assert(chat_entry(v) == e);
        let mid = RoomView { chat_history: st.chat_history + h.drop_last(), ..st };
        assert(load_step(mid, chat_line(e)) =~~= RoomView { chat_history: st.chat_history + h, ..st }) by {
            assert((st.chat_history + h.drop_last()).push(e) =~= st.chat_history + h);
        }
    }
}

/// Writing a room to its file and reading the file back gives the same room, with nobody
/// connected, a fresh chat counter and limiter and its last 100 chat messages, for a room
/// whose code, tokens, names and chat texts hold no line breaks or surrounding whitespace,
/// whose tokens and names are not empty, whose moves are single words and whose chat
/// colours hold no `:`.
pub proof fn lemma_room_file_roundtrip(code: Seq<char>, r: RoomView)
    requires room_savable(code, r),
    ensures load_spec(room_text_spec(code, r)) == reloaded(r),
{
    lemma_room_text_lines(code, r);
    lemma_room_lines_plain(code, r);
    lemma_lines_join(room_lines(code, r));
    lemma_base_fold(code, r);
    lemma_kept_ok(r.chat_history);
    lemma_fold_concat(fresh_room(), base_lines(code, r), chat_seq(kept_chat(r.chat_history)));
    lemma_chat_fold(base_state(r), kept_chat(r.chat_history));
    assert(Seq::<(Seq<char>, Seq<char>)>::empty() + kept_chat(r.chat_history) =~= kept_chat(r.chat_history));
    assert(RoomView { chat_history: base_state(r).chat_history + kept_chat(r.chat_history), ..base_state(r) } =~~= reloaded(r));
}

} // verus!
