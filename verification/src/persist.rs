//! The relay's room files: one `key=value` line per field, so that rooms outlive a restart.
use vstd::prelude::*;
use crate::relay::{RoomOptions, RoomState, RoomView, room_view, opt_str, join_moves, join_moves_of};
use crate::room_chat::RoomChat;
use crate::text::{chars_of, eq_lit, trim, trim_spec, find_char, find_char_spec, slice, push_str, push_char,
    string_of, owned, lines, lines_spec, words, words_spec, lemma_trim_noop};
use crate::num::{parse_unsigned, parse_unsigned_spec, push_dec, dec_spec};
use crate::config::bool_word;

verus! {

// ── Writing ──────────────────────────────────────────────────────────────────

/// The chat entries a room file keeps: the last 100.
pub open spec fn kept_chat(h: Seq<(Seq<char>, Seq<char>)>) -> Seq<(Seq<char>, Seq<char>)> {
    if h.len() > 100 { h.skip(h.len() - 100) } else { h }
}

pub open spec fn chat_lines(h: Seq<(Seq<char>, Seq<char>)>) -> Seq<char>
    decreases h.len(),
{
    if h.len() == 0 { Seq::empty() } else { chat_lines(h.drop_last()) + "chat="@ + h.last().0 + seq![':'] + h.last().1 + seq!['\n'] }
}

pub open spec fn field_line(key: Seq<char>, val: Seq<char>) -> Seq<char> {
    key + seq!['='] + val + seq!['\n']
}

pub open spec fn name_or_empty(o: Option<Seq<char>>) -> Seq<char> {
    match o { Some(n) => n, None => Seq::empty() }
}

/// The text of the file for room `code`: its code, options, whether it started, the tokens
/// it has, both names (empty when unknown), its moves separated by spaces and its last 100
/// chat messages.
pub open spec fn room_text_spec(code: Seq<char>, r: RoomView) -> Seq<char> {
    field_line("code"@, code)
        + field_line("time"@, dec_spec(r.opts.time_secs as nat))
        + field_line("inc"@, dec_spec(r.opts.increment_secs as nat))
        + field_line("undo"@, bool_word(r.opts.undo_allowed))
        + field_line("engine"@, bool_word(r.opts.engine_during))
        + field_line("started"@, bool_word(r.started))
        + (match r.white_token { Some(t) => field_line("white_token"@, t), None => Seq::empty() })
        + (match r.black_token { Some(t) => field_line("black_token"@, t), None => Seq::empty() })
        + field_line("white_name"@, name_or_empty(r.white_name))
        + field_line("black_name"@, name_or_empty(r.black_name))
        + field_line("moves"@, join_moves(r.moves))
        + chat_lines(kept_chat(r.chat_history))
}

fn push_field(s: &mut String, key: &str, val: &str)
    ensures final(s)@ == old(s)@ + field_line(key@, val@),
{
    let ghost s0 = s@;
    push_str(s, key);
    push_char(s, '=');
    push_str(s, val);
    push_char(s, '\n');
    assert(s@ =~= s0 + field_line(key@, val@));
}

fn bool_str(b: bool) -> (r: &'static str)
    ensures r@ == bool_word(b),
{
    if b { "true" } else { "false" }
}

fn dec_string(n: u32) -> (s: String)
    ensures s@ == dec_spec(n as nat),
{
    let mut s = String::new();
    push_dec(&mut s, n as u64);
    s
}

/// The text of the file for room `code` (see `room_text_spec`).
pub fn room_text(code: &str, room: &RoomState) -> (s: String)
    ensures s@ == room_text_spec(code@, room_view(*room)),
{
    let ghost r = room_view(*room);
    let mut s = String::new();
    push_field(&mut s, "code", code);
    push_field(&mut s, "time", dec_string(room.opts.time_secs).as_str());
    push_field(&mut s, "inc", dec_string(room.opts.increment_secs).as_str());
    push_field(&mut s, "undo", bool_str(room.opts.undo_allowed));
    push_field(&mut s, "engine", bool_str(room.opts.engine_during));
    push_field(&mut s, "started", bool_str(room.started));
    let ghost a = s@;
    match &room.white_token { Some(t) => push_field(&mut s, "white_token", t.as_str()), None => {} }
    match &room.black_token { Some(t) => push_field(&mut s, "black_token", t.as_str()), None => {} }
    proof { reveal_strlit(""); }
    assert(room.moves@.map_values(|x: String| x@) =~= r.moves);
    push_field(&mut s, "white_name", match &room.white_name { Some(n) => n.as_str(), None => "" });
    push_field(&mut s, "black_name", match &room.black_name { Some(n) => n.as_str(), None => "" });
    push_field(&mut s, "moves", join_moves_of(&room.moves).as_str());
    let ghost b = s@;
    let h = &room.chat_history;
    let ghost hv = r.chat_history;
    let start: usize = if h.len() > 100 { h.len() - 100 } else { 0 };
    let ghost kept = kept_chat(hv);
    assert(kept =~= hv.skip(start as int));
    let mut i: usize = start;
    assert(kept.take(0) =~= Seq::<(Seq<char>, Seq<char>)>::empty());
    while i < h.len()
        invariant
            start <= i <= h@.len(), hv == r.chat_history, r == room_view(*room), h == &room.chat_history,
            kept == hv.skip(start as int),
            s@ == b + chat_lines(kept.take(i - start)),
        decreases h@.len() - i,
    {
        let ghost before = s@;
        push_str(&mut s, "chat=");
        push_str(&mut s, h[i].0.as_str());
        push_char(&mut s, ':');
        push_str(&mut s, h[i].1.as_str());
        push_char(&mut s, '\n');
        proof {
            assert(kept.take(i + 1 - start).drop_last() =~= kept.take(i - start));
            assert(kept.take(i + 1 - start).last() == hv[i as int]);
        }
        assert(s@ =~= b + chat_lines(kept.take(i + 1 - start)));
        i += 1;
    }
    assert(kept.take(h@.len() - start) =~= kept);
    assert(s@ =~= room_text_spec(code@, r));
    s
}

// ── Reading ──────────────────────────────────────────────────────────────────

/// The key of a file line: the trimmed text before its first `=`, or the whole trimmed line.
pub open spec fn file_key(l: Seq<char>) -> Seq<char> {
    let t = trim_spec(l);
    let i = find_char_spec(t, '=');
    if i < t.len() { trim_spec(t.take(i)) } else { t }
}

/// The value of a file line: the trimmed text after its first `=`, or nothing.
pub open spec fn file_val(l: Seq<char>) -> Seq<char> {
    let t = trim_spec(l);
    let i = find_char_spec(t, '=');
    if i < t.len() { trim_spec(t.skip(i + 1)) } else { Seq::empty() }
}

pub open spec fn some_if_nonempty(v: Seq<char>) -> Option<Seq<char>> {
    if v.len() == 0 { None } else { Some(v) }
}

/// A chat line's value: the colour before its first `:`, the message after it.
pub open spec fn chat_entry(v: Seq<char>) -> (Seq<char>, Seq<char>) {
    let i = find_char_spec(v, ':');
    if i < v.len() { (v.take(i), v.skip(i + 1)) } else { (v, Seq::empty()) }
}

/// A room after one more line of its file: the options, `started`, the tokens and names (an
/// empty value clearing them), the moves (unless empty) and chat messages (with a colour)
/// are read; unreadable numbers and other keys change nothing.
pub open spec fn load_step(r: RoomView, l: Seq<char>) -> RoomView {
    let k = file_key(l);
    let v = file_val(l);
    if k == "time"@ {
        match parse_unsigned_spec(v, u32::MAX as nat) {
            Some(n) => RoomView { opts: RoomOptions { time_secs: n as u32, ..r.opts }, ..r },
            None => r,
        }
    } else if k == "inc"@ {
        match parse_unsigned_spec(v, u32::MAX as nat) {
            Some(n) => RoomView { opts: RoomOptions { increment_secs: n as u32, ..r.opts }, ..r },
            None => r,
        }
    } else if k == "undo"@ {
        RoomView { opts: RoomOptions { undo_allowed: v == "true"@, ..r.opts }, ..r }
    } else if k == "engine"@ {
        RoomView { opts: RoomOptions { engine_during: v == "true"@, ..r.opts }, ..r }
    } else if k == "started"@ {
        RoomView { started: v == "true"@, ..r }
    } else if k == "white_token"@ {
        RoomView { white_token: some_if_nonempty(v), ..r }
    } else if k == "black_token"@ {
        RoomView { black_token: some_if_nonempty(v), ..r }
    } else if k == "white_name"@ {
        RoomView { white_name: some_if_nonempty(v), ..r }
    } else if k == "black_name"@ {
        RoomView { black_name: some_if_nonempty(v), ..r }
    } else if k == "moves"@ {
        if v.len() > 0 { RoomView { moves: words_spec(v), ..r } } else { r }
    } else if k == "chat"@ {
        let e = chat_entry(v);
        if e.0.len() > 0 { RoomView { chat_history: r.chat_history.push(e), ..r } } else { r }
    } else {
        r
    }
}

pub open spec fn load_fold(r: RoomView, ls: Seq<Seq<char>>) -> RoomView
    decreases ls.len(),
{
    if ls.len() == 0 { r } else { load_step(load_fold(r, ls.drop_last()), ls.last()) }
}

/// A room as a new room with default options starts: nobody connected, no tokens, names,
/// moves or messages.
pub open spec fn fresh_room() -> RoomView {
    RoomView {
        opts: RoomOptions { time_secs: 0, increment_secs: 0, undo_allowed: false, engine_during: false },
        moves: Seq::empty(),
        white_conn: false,
        black_conn: false,
        white_token: None,
        black_token: None,
        white_name: None,
        black_name: None,
        started: false,
        chat_buckets: Seq::empty(),
        chat_max: 30,
        chat_count: 0,
        chat_history: Seq::empty(),
    }
}

/// The room a file's text describes.
pub open spec fn load_spec(text: Seq<char>) -> RoomView {
    load_fold(fresh_room(), lines_spec(text))
}

fn opt_string(v: &Vec<char>) -> (r: Option<String>)
    ensures opt_str(r) == some_if_nonempty(v@),
{
    if v.len() == 0 { None } else { Some(string_of(v)) }
}

fn strings_of_words(w: &Vec<Vec<char>>) -> (r: Vec<String>)
    ensures r@.map_values(|x: String| x@) == w.deep_view(),
{
    let mut r: Vec<String> = Vec::new();
    let mut i: usize = 0;
    while i < w.len()
        invariant i <= w@.len(), r@.len() == i, forall|j: int| 0 <= j < i ==> (#[trigger] r@[j])@ == w@[j]@,
        decreases w@.len() - i,
    {
        r.push(string_of(&w[i]));
        i += 1;
    }
    assert forall|j: int| 0 <= j < w@.len() implies #[trigger] w.deep_view()[j] == w@[j]@ by {
        assert(w@[j].deep_view() =~= w@[j]@);
    }
    assert(r@.map_values(|x: String| x@) =~= w.deep_view());
    r
}

fn load_line(room: &mut RoomState, l: &Vec<char>)
    ensures room_view(*final(room)) == load_step(room_view(*old(room)), l@),
{
    let ghost r0 = room_view(*room);
    let t = trim(l);
    let i = find_char(&t, '=');
    let k = if i < t.len() { trim(&slice(&t, 0, i)) } else { slice(&t, 0, t.len()) };
    let v = if i < t.len() { trim(&slice(&t, i + 1, t.len())) } else { Vec::new() };
    proof {
        assert(t@.subrange(0, i as int) =~= t@.take(i as int));
        if i < t@.len() { assert(t@.subrange(i + 1, t@.len() as int) =~= t@.skip(i + 1)); }
        assert(t@.subrange(0, t@.len() as int) =~= t@);
    }
    assert(k@ == file_key(l@));
    assert(v@ == file_val(l@));
    if eq_lit(&k, "time") {
        match parse_unsigned(&v, 4294967295) { Some(n) => { room.opts.time_secs = n as u32; }, None => {} }
    } else if eq_lit(&k, "inc") {
        match parse_unsigned(&v, 4294967295) { Some(n) => { room.opts.increment_secs = n as u32; }, None => {} }
    } else if eq_lit(&k, "undo") {
        room.opts.undo_allowed = eq_lit(&v, "true");
    } else if eq_lit(&k, "engine") {
        room.opts.engine_during = eq_lit(&v, "true");
    } else if eq_lit(&k, "started") {
        room.started = eq_lit(&v, "true");
    } else if eq_lit(&k, "white_token") {
        room.white_token = opt_string(&v);
    } else if eq_lit(&k, "black_token") {
        room.black_token = opt_string(&v);
    } else if eq_lit(&k, "white_name") {
        room.white_name = opt_string(&v);
    } else if eq_lit(&k, "black_name") {
        room.black_name = opt_string(&v);
    } else if eq_lit(&k, "moves") {
        if v.len() > 0 {
            room.moves = strings_of_words(&words(&v));
        }
    } else if eq_lit(&k, "chat") {
        let j = find_char(&v, ':');
        let color = slice(&v, 0, j);
        let msg = if j < v.len() { slice(&v, j + 1, v.len()) } else { Vec::new() };
        proof {
            assert(v@.subrange(0, j as int) =~= chat_entry(v@).0);
            if j < v@.len() { assert(v@.subrange(j + 1, v@.len() as int) =~= chat_entry(v@).1); }
            else { assert(msg@ =~= chat_entry(v@).1); }
        }
        if color.len() > 0 {
            let ghost h0 = r0.chat_history;
            room.chat_history.push((string_of(&color), string_of(&msg)));
            assert(room_view(*room).chat_history =~= h0.push(chat_entry(v@)));
        }
    }
    assert(room_view(*room) =~~= load_step(r0, l@));
}

/// The room a file's text describes (see `load_spec`).
pub fn load_room(text: &str) -> (room: RoomState)
    ensures room_view(room) == load_spec(text@),
{
    let mut room = RoomState {
        opts: RoomOptions { time_secs: 0, increment_secs: 0, undo_allowed: false, engine_during: false },
        moves: Vec::new(),
        white_conn: false,
        black_conn: false,
        white_token: None,
        black_token: None,
        white_name: None,
        black_name: None,
        started: false,
        chat: RoomChat::new(),
        chat_history: Vec::new(),
    };
    assert(room_view(room) =~~= fresh_room());
    let ls = lines(&chars_of(text));
    let ghost lv = ls.deep_view();
    let mut i: usize = 0;
    assert(lv.take(0) =~= Seq::<Seq<char>>::empty());
    while i < ls.len()
        invariant
            i <= ls@.len(), lv == ls.deep_view(), lv == lines_spec(text@),
            room_view(room) == load_fold(fresh_room(), lv.take(i as int)),
        decreases ls@.len() - i,
    {
        assert(ls@[i as int].deep_view() =~= ls@[i as int]@);
        load_line(&mut room, &ls[i]);
        assert(lv.take(i + 1).drop_last() =~= lv.take(i as int));
        i += 1;
    }
    assert(lv.take(ls@.len() as int) =~= lv);
    room
}

} // verus!
