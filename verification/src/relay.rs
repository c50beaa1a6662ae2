//! The relay server's rooms: the rules a room is created with, and how they travel on the wire.
use vstd::prelude::*;
use crate::text::{chars_of, eq_lit, split, trim, find_char, slice, push_str, split_spec, trim_spec,
    find_char_spec, is_ws_spec, lemma_split_cons, lemma_split_single, lemma_find_after, lemma_trim_noop};
use crate::num::{parse_unsigned, parse_unsigned_spec, push_dec, dec_spec, lemma_dec_digits, lemma_parse_dec, is_digit};
use crate::config::bool_word;
use vstd::utf8::{encode_utf8, decode_utf8};
use crate::room_chat::{RoomChat, sanitise_spec, refused};
use crate::buckets::{BucketView, hit_spec};
use crate::auth::{check_password, encode_invite, invite_text, generate_token, generate_room_code, room_code_text, token_text};
use crate::notation::{char_alnum, str_lowercase, lowercase};
use crate::text::{string_of, owned, push_char, push_chars, str_uppercase, uppercase, strip_both};

verus! {

/// The rules a room is created with.
#[derive(Clone, Copy, Debug, PartialEq, Eq, Structural)]
pub struct RoomOptions {
    pub time_secs: u32,
    pub increment_secs: u32,
    pub undo_allowed: bool,
    pub engine_during: bool,
}

impl Default for RoomOptions {
    fn default() -> (r: RoomOptions)
        ensures r == (RoomOptions { time_secs: 0, increment_secs: 0, undo_allowed: false, engine_during: false }),
    {
        RoomOptions { time_secs: 0, increment_secs: 0, undo_allowed: false, engine_during: false }
    }
}

/// One `key=value` piece of the wire form: `time` and `inc` take a number that parses as a
/// `u32` (else they stay), `undo` and `engine` are set exactly when the value is `true`.
pub open spec fn wire_part_spec(o: RoomOptions, part: Seq<char>) -> RoomOptions {
    let e = find_char_spec(part, '=');
    let k = trim_spec(part.take(e));
    let v = if e < part.len() { trim_spec(part.skip(e + 1)) } else { Seq::empty() };
    if k == "time"@ {
        match parse_unsigned_spec(v, u32::MAX as nat) { Some(n) => RoomOptions { time_secs: n as u32, ..o }, None => o }
    } else if k == "inc"@ {
        match parse_unsigned_spec(v, u32::MAX as nat) { Some(n) => RoomOptions { increment_secs: n as u32, ..o }, None => o }
    } else if k == "undo"@ {
        RoomOptions { undo_allowed: v == "true"@, ..o }
    } else if k == "engine"@ {
        RoomOptions { engine_during: v == "true"@, ..o }
    } else {
        o
    }
}

pub open spec fn wire_fold(o: RoomOptions, parts: Seq<Seq<char>>) -> RoomOptions
    decreases parts.len(),
{
    if parts.len() == 0 { o } else { wire_part_spec(wire_fold(o, parts.drop_last()), parts.last()) }
}

/// The options that a wire text gives: its comma-separated pieces applied in order to the
/// default options.
pub open spec fn from_wire_spec(s: Seq<char>) -> RoomOptions {
    wire_fold(RoomOptions { time_secs: 0, increment_secs: 0, undo_allowed: false, engine_during: false }, split_spec(s, ','))
}

/// The wire form: `time=<secs>,inc=<secs>,undo=<bool>,engine=<bool>`.
pub open spec fn to_wire_spec(o: RoomOptions) -> Seq<char> {
    "time="@ + dec_spec(o.time_secs as nat) + ",inc="@ + dec_spec(o.increment_secs as nat)
        + ",undo="@ + bool_word(o.undo_allowed) + ",engine="@ + bool_word(o.engine_during)
}

impl RoomOptions {
    /// Reads the wire form; unknown or malformed pieces are ignored.
    pub fn from_wire(s: &str) -> (o: RoomOptions)
        ensures o == from_wire_spec(s@),
    {
        let chars = chars_of(s);
        let parts = split(&chars, ',');
        let ghost all = parts.deep_view();
        let mut o = RoomOptions { time_secs: 0, increment_secs: 0, undo_allowed: false, engine_during: false };
        let ghost o0 = o;
        let mut i: usize = 0;
        assert(all.take(0) =~= Seq::<Seq<char>>::empty());
        while i < parts.len()
            invariant
                i <= parts@.len(), all == parts.deep_view(), all.len() == parts@.len(),
                o0 == (RoomOptions { time_secs: 0, increment_secs: 0, undo_allowed: false, engine_during: false }),
                o == wire_fold(o0, all.take(i as int)),
            decreases parts@.len() - i,
        {
            assert(all.take(i + 1).drop_last() =~= all.take(i as int));
            assert(parts@[i as int]@ == all[i as int]);
            let part = &parts[i];
            let e = find_char(part, '=');
            let k = trim(&slice(part, 0, e));
            let v = if e < part.len() { trim(&slice(part, e + 1, part.len())) } else { Vec::new() };
            assert(part@.subrange(0, e as int) =~= part@.take(e as int));
            if e < part.len() {
                assert(part@.subrange(e + 1, part@.len() as int) =~= part@.skip(e + 1));
            } else {
                assert(v@ =~= Seq::<char>::empty());
            }
            if eq_lit(&k, "time") {
                match parse_unsigned(&v, 4294967295) { Some(n) => { o.time_secs = n as u32; }, None => {} }
            } else if eq_lit(&k, "inc") {
                match parse_unsigned(&v, 4294967295) { Some(n) => { o.increment_secs = n as u32; }, None => {} }
            } else if eq_lit(&k, "undo") {
                o.undo_allowed = eq_lit(&v, "true");
            } else if eq_lit(&k, "engine") {
                o.engine_during = eq_lit(&v, "true");
            }
            i += 1;
        }
        assert(all.take(parts@.len() as int) =~= all);
        o
    }

    /// The wire form of these options.
    pub fn to_wire(&self) -> (s: String)
        ensures s@ == to_wire_spec(*self),
    {
        let mut s = String::new();
        push_str(&mut s, "time=");
        push_dec(&mut s, self.time_secs as u64);
        push_str(&mut s, ",inc=");
        push_dec(&mut s, self.increment_secs as u64);
        push_str(&mut s, ",undo=");
        push_str(&mut s, if self.undo_allowed { "true" } else { "false" });
        push_str(&mut s, ",engine=");
        push_str(&mut s, if self.engine_during { "true" } else { "false" });
        s
    }
}

proof fn lemma_dec_plain(n: nat)
    ensures
        !dec_spec(n).contains(','), !dec_spec(n).contains('='),
        dec_spec(n).len() > 0, !is_ws_spec(dec_spec(n)[0]), !is_ws_spec(dec_spec(n).last()),
{
    lemma_dec_digits(n);
    let d = dec_spec(n);
    assert(is_digit(d[0]) && is_digit(d[d.len() - 1]));
    if d.contains(',') { let i = choose|i: int| 0 <= i < d.len() && d[i] == ','; assert(is_digit(d[i])); }
    if d.contains('=') { let i = choose|i: int| 0 <= i < d.len() && d[i] == '='; assert(is_digit(d[i])); }
}

proof fn lemma_bool_plain(b: bool)
    ensures
        !bool_word(b).contains(','), !bool_word(b).contains('='),
        bool_word(b).len() > 0, !is_ws_spec(bool_word(b)[0]), !is_ws_spec(bool_word(b).last()),
{
    reveal_strlit("true");
    reveal_strlit("false");
    let w = bool_word(b);
    if w.contains(',') { let i = choose|i: int| 0 <= i < w.len() && w[i] == ','; }
    if w.contains('=') { let i = choose|i: int| 0 <= i < w.len() && w[i] == '='; }
}

/// A piece `key=value` with a plain key and value reads as that key and value.
proof fn lemma_part(key: Seq<char>, val: Seq<char>)
    requires
        !key.contains('='), key.len() > 0, !is_ws_spec(key[0]), !is_ws_spec(key.last()),
        val.len() > 0, !is_ws_spec(val[0]), !is_ws_spec(val.last()),
    ensures ({
        let part = key + seq!['='] + val;
        let e = find_char_spec(part, '=');
        &&& e < part.len()
        &&& trim_spec(part.take(e)) == key
        &&& trim_spec(part.skip(e + 1)) == val
    }),
{
    let part = key + seq!['='] + val;
    lemma_find_after(key, val, '=');
    assert(part.take(key.len() as int) =~= key);
    assert(part.skip(key.len() as int + 1) =~= val);
    lemma_trim_noop(key);
    lemma_trim_noop(val);
}

/// Reading the wire form of some options gives those options back.
pub proof fn lemma_wire_roundtrip(o: RoomOptions)
    ensures from_wire_spec(to_wire_spec(o)) == o,
{
    reveal_strlit("time=");
    reveal_strlit(",inc=");
    reveal_strlit(",undo=");
    reveal_strlit(",engine=");
    reveal_strlit("time");
    reveal_strlit("inc");
    reveal_strlit("undo");
    reveal_strlit("engine");
    reveal_strlit("true");
    let dt = dec_spec(o.time_secs as nat);
    let di = dec_spec(o.increment_secs as nat);
    let bu = bool_word(o.undo_allowed);
    let be = bool_word(o.engine_during);
    lemma_dec_plain(o.time_secs as nat);
    lemma_dec_plain(o.increment_secs as nat);
    lemma_bool_plain(o.undo_allowed);
    lemma_bool_plain(o.engine_during);
    let a = "time"@ + seq!['='] + dt;
    let b = "inc"@ + seq!['='] + di;
    let c = "undo"@ + seq!['='] + bu;
    let d = "engine"@ + seq!['='] + be;
    assert(to_wire_spec(o) =~= a + seq![','] + (b + seq![','] + (c + seq![','] + d)));
    assert(!a.contains(',')) by { if a.contains(',') { let i = choose|i: int| 0 <= i < a.len() && a[i] == ','; if i >= 5 { assert(dt[i - 5] == ','); assert(dt.contains(',')); } } }
    assert(!b.contains(',')) by { if b.contains(',') { let i = choose|i: int| 0 <= i < b.len() && b[i] == ','; if i >= 4 { assert(di[i - 4] == ','); assert(di.contains(',')); } } }
    assert(!c.contains(',')) by { if c.contains(',') { let i = choose|i: int| 0 <= i < c.len() && c[i] == ','; if i >= 5 { assert(bu[i - 5] == ','); assert(bu.contains(',')); } } }
    assert(!d.contains(',')) by { if d.contains(',') { let i = choose|i: int| 0 <= i < d.len() && d[i] == ','; if i >= 7 { assert(be[i - 7] == ','); assert(be.contains(',')); } } }
    lemma_split_cons(a, b + seq![','] + (c + seq![','] + d), ',');
    lemma_split_cons(b, c + seq![','] + d, ',');
    lemma_split_cons(c, d, ',');
    lemma_split_single(d, ',');
    let parts = seq![a, b, c, d];
    assert(split_spec(to_wire_spec(o), ',') =~= parts);
    assert(!"time"@.contains('=')) by { if "time"@.contains('=') { let i = choose|i: int| 0 <= i < 4 && "time"@[i] == '='; } }
    assert(!"inc"@.contains('=')) by { if "inc"@.contains('=') { let i = choose|i: int| 0 <= i < 3 && "inc"@[i] == '='; } }
    assert(!"undo"@.contains('=')) by { if "undo"@.contains('=') { let i = choose|i: int| 0 <= i < 4 && "undo"@[i] == '='; } }
    assert(!"engine"@.contains('=')) by { if "engine"@.contains('=') { let i = choose|i: int| 0 <= i < 6 && "engine"@[i] == '='; } }
    lemma_part("time"@, dt);
    lemma_part("inc"@, di);
    lemma_part("undo"@, bu);
    lemma_part("engine"@, be);
    lemma_parse_dec(o.time_secs as nat, u32::MAX as nat);
    lemma_parse_dec(o.increment_secs as nat, u32::MAX as nat);
    let o0 = RoomOptions { time_secs: 0, increment_secs: 0, undo_allowed: false, engine_during: false };
    assert(parts.drop_last() =~= seq![a, b, c]);
    assert(seq![a, b, c].drop_last() =~= seq![a, b]);
    assert(seq![a, b].drop_last() =~= seq![a]);
    assert(seq![a].drop_last() =~= Seq::<Seq<char>>::empty());
    let o1 = wire_part_spec(o0, a);
    let o2 = wire_part_spec(o1, b);
    let o3 = wire_part_spec(o2, c);
    assert(o1 == RoomOptions { time_secs: o.time_secs, ..o0 });
    assert(o2 == RoomOptions { increment_secs: o.increment_secs, ..o1 });
    assert(o3 == RoomOptions { undo_allowed: o.undo_allowed, ..o2 }) by {
        if o.undo_allowed { } else { assert(bu != "true"@) by { reveal_strlit("false"); } }
    }
    assert(wire_part_spec(o3, d) == o) by {
        if o.engine_during { } else { assert(be != "true"@) by { reveal_strlit("false"); } }
    }
    assert(wire_fold(o0, Seq::<Seq<char>>::empty()) == o0);
    assert(wire_fold(o0, seq![a]) == o1);
    assert(wire_fold(o0, seq![a, b]) == o2);
    assert(wire_fold(o0, seq![a, b, c]) == o3);
    assert(wire_fold(o0, parts) == o);
}

// ── The relay's rooms and sessions ───────────────────────────────────────────

/// A room as the relay keeps it. Whether a side is connected stands for whether the relay
/// holds a line to that side's client.
pub struct RoomState {
    pub opts: RoomOptions,
    pub moves: Vec<String>,
    pub white_conn: bool,
    pub black_conn: bool,
    pub white_token: Option<String>,
    pub black_token: Option<String>,
    pub white_name: Option<String>,
    pub black_name: Option<String>,
    pub started: bool,
    pub chat: RoomChat,
    /// Chat log: colour and cleaned message.
    pub chat_history: Vec<(String, String)>,
}

/// A room as plain values.
#[verifier::ext_equal]
pub struct RoomView {
    pub opts: RoomOptions,
    pub moves: Seq<Seq<char>>,
    pub white_conn: bool,
    pub black_conn: bool,
    pub white_token: Option<Seq<char>>,
    pub black_token: Option<Seq<char>>,
    pub white_name: Option<Seq<char>>,
    pub black_name: Option<Seq<char>>,
    pub started: bool,
    pub chat_buckets: Seq<BucketView>,
    pub chat_max: u32,
    pub chat_count: u64,
    pub chat_history: Seq<(Seq<char>, Seq<char>)>,
}

pub open spec fn opt_str(o: Option<String>) -> Option<Seq<char>> {
    match o { Some(s) => Some(s@), None => None }
}

pub open spec fn room_view(r: RoomState) -> RoomView {
    RoomView {
        opts: r.opts,
        moves: r.moves@.map_values(|m: String| m@),
        white_conn: r.white_conn,
        black_conn: r.black_conn,
        white_token: opt_str(r.white_token),
        black_token: opt_str(r.black_token),
        white_name: opt_str(r.white_name),
        black_name: opt_str(r.black_name),
        started: r.started,
        chat_buckets: r.chat.rate_limiter.buckets.view(),
        chat_max: r.chat.rate_limiter.max,
        chat_count: r.chat.message_count,
        chat_history: r.chat_history@.map_values(|e: (String, String)| (e.0@, e.1@)),
    }
}

/// All rooms, by code; no code occurs twice.
pub struct Rooms {
    pub entries: Vec<(String, RoomState)>,
}

pub open spec fn rooms_view(rs: Seq<(String, RoomState)>) -> Seq<(Seq<char>, RoomView)> {
    rs.map_values(|e: (String, RoomState)| (e.0@, room_view(e.1)))
}

/// Index of the room with `code`, or -1.
pub open spec fn room_index(rs: Seq<(Seq<char>, RoomView)>, code: Seq<char>) -> int
    decreases rs.len(),
{
    if rs.len() == 0 { -1 } else if rs.last().0 == code { rs.len() - 1 } else { room_index(rs.drop_last(), code) }
}

pub proof fn lemma_room_index(rs: Seq<(Seq<char>, RoomView)>, code: Seq<char>)
    ensures
        -1 <= room_index(rs, code) < rs.len(),
        room_index(rs, code) >= 0 ==> rs[room_index(rs, code)].0 == code,
        room_index(rs, code) == -1 ==> forall|i: int| 0 <= i < rs.len() ==> rs[i].0 != code,
    decreases rs.len(),
{
    if rs.len() > 0 && rs.last().0 != code {
        lemma_room_index(rs.drop_last(), code);
        assert forall|i: int| room_index(rs, code) == -1 && 0 <= i < rs.len() implies rs[i].0 != code by {
            if i < rs.len() - 1 { assert(rs[i] == rs.drop_last()[i]); }
        }
    }
}

impl Rooms {
    pub open spec fn view(&self) -> Seq<(Seq<char>, RoomView)> {
        rooms_view(self.entries@)
    }

    pub fn new() -> (r: Rooms)
        ensures r.view().len() == 0,
    {
        Rooms { entries: Vec::new() }
    }

    /// The index of the room with `code`.
    pub fn find(&self, code: &Vec<char>) -> (r: Option<usize>)
        ensures
            match r { Some(i) => room_index(self.view(), code@) == i, None => room_index(self.view(), code@) == -1 },
    {
        let ghost v = self.view();
        let mut n: usize = self.entries.len();
        assert(v.take(n as int) =~= v);
        while n > 0
            invariant
                n <= self.entries@.len(), v == self.view(),
                room_index(v, code@) == room_index(v.take(n as int), code@),
            decreases n,
        {
            assert(v.take(n as int).last() == v[n - 1]);
            if crate::text::eq_lit(code, self.entries[n - 1].0.as_str()) {
                return Some(n - 1);
            }
            assert(v.take(n as int).drop_last() =~= v.take(n - 1));
            n -= 1;
        }
        None
    }

    pub fn len(&self) -> (n: usize)
        ensures n == self.view().len(),
    {
        self.entries.len()
    }

    /// Removes the room with `code`, if any.
    pub fn remove_code(&mut self, code: &Vec<char>)
        ensures
            final(self).view() == (if room_index(old(self).view(), code@) >= 0 {
                old(self).view().remove(room_index(old(self).view(), code@))
            } else {
                old(self).view()
            }),
    {
        match self.find(code) {
            Some(i) => {
                let ghost v = self.view();
                proof { lemma_room_index(v, code@); }
                self.entries.remove(i);
                assert(self.view() =~= v.remove(i as int));
            },
            None => {},
        }
    }
}

/// A client's session: its room, colour, whether it has given the password, and its name.
pub struct Session {
    pub room_code: String,
    pub my_color: String,
    pub authed: bool,
    pub my_name: String,
}

pub type SessionView = (Seq<char>, Seq<char>, bool, Seq<char>);

pub open spec fn session_view(s: Session) -> SessionView {
    (s.room_code@, s.my_color@, s.authed, s.my_name@)
}

/// What the connection handler does after a line.
#[derive(Debug)]
pub enum RelayAction {
    /// Send this line to the client.
    Reply(String),
    /// Send this line to the client's opponent (whose line is open).
    ToOpponent(String),
    /// Write the session's room to disk.
    Save,
    /// The session created its room (as White).
    Created,
    /// The session joined its room (as Black).
    Joined,
    /// The session took its seat in its room again.
    Rejoined,
    /// A move was relayed.
    Moved,
    /// The session's room is over: remove it.
    Cleanup,
    /// Close the connection, with the usual disconnect handling.
    Close,
    /// Close the connection at once, without any.
    Abort,
}

pub enum ActionView {
    Reply(Seq<char>),
    ToOpponent(Seq<char>),
    Save,
    Created,
    Joined,
    Rejoined,
    Moved,
    Cleanup,
    Close,
    Abort,
}

pub open spec fn action_view(a: RelayAction) -> ActionView {
    match a {
        RelayAction::Reply(s) => ActionView::Reply(s@),
        RelayAction::ToOpponent(s) => ActionView::ToOpponent(s@),
        RelayAction::Save => ActionView::Save,
        RelayAction::Created => ActionView::Created,
        RelayAction::Joined => ActionView::Joined,
        RelayAction::Rejoined => ActionView::Rejoined,
        RelayAction::Moved => ActionView::Moved,
        RelayAction::Cleanup => ActionView::Cleanup,
        RelayAction::Close => ActionView::Close,
        RelayAction::Abort => ActionView::Abort,
    }
}

pub open spec fn actions_view(v: Seq<RelayAction>) -> Seq<ActionView> {
    v.map_values(|a: RelayAction| action_view(a))
}

fn act(v: &mut Vec<RelayAction>, a: RelayAction)
    ensures actions_view(final(v)@) == actions_view(old(v)@).push(action_view(a)),
{
    let ghost before = actions_view(v@);
    v.push(a);
    assert(actions_view(v@) =~= before.push(action_view(a)));
}

// ── The relay's answer to one line ───────────────────────────────────────────

pub open spec fn is_white(color: Seq<char>) -> bool {
    color == "white"@
}

/// Whether the other side of `color` is connected.
pub open spec fn opp_conn(r: RoomView, color: Seq<char>) -> bool {
    if is_white(color) { r.black_conn } else { r.white_conn }
}

pub open spec fn to_opp_if(r: RoomView, color: Seq<char>, msg: Seq<char>) -> Seq<ActionView> {
    if opp_conn(r, color) { seq![ActionView::ToOpponent(msg)] } else { Seq::empty() }
}

/// The chat history replayed to a client that (re)joins.
pub open spec fn history_replies(h: Seq<(Seq<char>, Seq<char>)>) -> Seq<ActionView>
    decreases h.len(),
{
    if h.len() == 0 {
        Seq::empty()
    } else {
        history_replies(h.drop_last()) + seq![ActionView::Reply("CHAT_HISTORY:"@ + h.last().0 + seq![':'] + h.last().1)]
    }
}

/// Characters a player name keeps.
pub open spec fn name_pred() -> spec_fn(char) -> bool {
    |c: char| char_alnum(c) || c == '_' || c == '-' || c == ' '
}

/// A player name as the relay keeps it: trimmed, letters, digits, `_`, `-` and spaces only,
/// at most 20 characters.
pub open spec fn safe_name(name: Seq<char>) -> Seq<char> {
    let f = trim_spec(name).filter(name_pred());
    if f.len() > 20 { f.take(20) } else { f }
}

pub type Step = (SessionView, Seq<(Seq<char>, RoomView)>, Seq<ActionView>);

pub open spec fn name_spec(s: SessionView, rs: Seq<(Seq<char>, RoomView)>, name: Seq<char>) -> Step {
    let safe = safe_name(name);
    let s2 = (s.0, s.1, s.2, safe);
    let i = room_index(rs, s.0);
    if s.0.len() > 0 && i >= 0 {
        let r = rs[i].1;
        let r2 = if is_white(s.1) { RoomView { white_name: Some(safe), ..r } } else { RoomView { black_name: Some(safe), ..r } };
        (s2, rs.update(i, (s.0, r2)),
            seq![ActionView::Save] + to_opp_if(r2, s.1, "OPP_NAME:"@ + safe) + seq![ActionView::Reply("NAME_ACK:"@ + safe)])
    } else {
        (s2, rs, seq![ActionView::Reply("NAME_ACK:"@ + safe)])
    }
}

pub open spec fn new_room(opts: RoomOptions, token: Seq<char>, name: Seq<char>) -> RoomView {
    RoomView {
        opts,
        moves: Seq::empty(),
        white_conn: true,
        black_conn: false,
        white_token: Some(token),
        black_token: None,
        white_name: if name.len() > 0 { Some(name) } else { None },
        black_name: None,
        started: false,
        chat_buckets: Seq::empty(),
        chat_max: 30,
        chat_count: 0,
        chat_history: Seq::empty(),
    }
}

pub open spec fn create_spec(s: SessionView, rs: Seq<(Seq<char>, RoomView)>, max_rooms: usize, port: u16, rest: Seq<char>,
    token: Seq<char>, code: Seq<char>, host: Seq<char>) -> Step
{
    if rs.len() >= max_rooms {
        (s, rs, seq![ActionView::Reply("ERROR:Server full. Try again later."@)])
    } else {
        let r = new_room(from_wire_spec(trim_spec(rest)), token, s.3);
        ((code, "white"@, s.2, s.3), rs.push((code, r)),
            seq![ActionView::Save, ActionView::Reply("ROOM:"@ + code), ActionView::Reply("TOKEN:"@ + token),
                ActionView::Reply("INVITE:"@ + invite_text(host, port, code)), ActionView::Created])
    }
}

pub open spec fn join_spec(s: SessionView, rs: Seq<(Seq<char>, RoomView)>, rest: Seq<char>, token: Seq<char>) -> Step {
    let code = str_uppercase(trim_spec(rest));
    let i = room_index(rs, code);
    if i < 0 {
        (s, rs, seq![ActionView::Reply("ERROR:Room not found"@)])
    } else if rs[i].1.white_conn && rs[i].1.black_conn && rs[i].1.started {
        (s, rs, seq![ActionView::Reply("ERROR:Room is full \u{2014} use REJOIN if you disconnected"@)])
    } else if rs[i].1.white_conn && rs[i].1.black_conn {
        (s, rs, seq![ActionView::Reply("ERROR:Room is full"@)])
    } else {
        let r = rs[i].1;
        let r1 = RoomView {
            black_conn: true,
            black_token: Some(token),
            black_name: if s.3.len() > 0 { Some(s.3) } else { r.black_name },
            ..r
        };
        let r2 = RoomView { started: true, ..r1 };
        ((code, "black"@, s.2, s.3), rs.update(i, (code, r2)),
            seq![ActionView::Save, ActionView::Reply("JOINED:black"@), ActionView::Reply("TOKEN:"@ + token),
                ActionView::Reply("LOBBY:"@ + to_wire_spec(r.opts))]
            + history_replies(r.chat_history)
            + (if r.white_conn {
                seq![ActionView::ToOpponent("JOINED:white"@)]
                    + (if s.3.len() > 0 { seq![ActionView::ToOpponent("OPP_NAME:"@ + s.3)] } else { Seq::empty() })
                    + seq![ActionView::ToOpponent("START"@)]
            } else {
                Seq::empty()
            })
            + seq![ActionView::Reply("START"@), ActionView::Joined])
    }
}

fn safe_name_of(name: &Vec<char>) -> (r: Vec<char>)
    ensures r@ == safe_name(name@),
{
    let t = trim(name);
    let mut r: Vec<char> = Vec::new();
    let mut i: usize = 0;
    assert(t@.take(0) =~= Seq::<char>::empty());
    while i < t.len()
        invariant
            i <= t@.len(), r@.len() <= 20,
            r@ == (if t@.take(i as int).filter(name_pred()).len() > 20 {
                t@.take(i as int).filter(name_pred()).take(20)
            } else {
                t@.take(i as int).filter(name_pred())
            }),
        decreases t@.len() - i,
    {
        let ghost f0 = t@.take(i as int).filter(name_pred());
        assert(t@.take(i + 1).drop_last() =~= t@.take(i as int));
        proof { reveal(Seq::filter); }
        let c = t[i];
        if crate::notation::is_alnum(c) || c == '_' || c == '-' || c == ' ' {
            if r.len() < 20 {
                r.push(c);
            }
            proof {
                let f1 = f0.push(c);
                if f0.len() >= 20 { assert(f1.take(20) =~= f0.take(20)); }
            }
        }
        i += 1;
    }
    assert(t@.take(t@.len() as int) =~= t@);
    r
}

fn clone_str(s: &String) -> (r: String)
    ensures r@ == s@,
{
    owned(s.as_str())
}

/// Takes room `i` out, to be put back with `put_room`.
fn take_room(rooms: &mut Rooms, i: usize) -> (e: (String, RoomState))
    requires i < old(rooms).view().len(),
    ensures
        final(rooms).view() == old(rooms).view().remove(i as int),
        (e.0@, room_view(e.1)) == old(rooms).view()[i as int],
{
    let ghost v = rooms.view();
    let e = rooms.entries.remove(i);
    assert(rooms.view() =~= v.remove(i as int));
    e
}

fn put_room(rooms: &mut Rooms, i: usize, e: (String, RoomState))
    requires i <= old(rooms).view().len(),
    ensures final(rooms).view() == old(rooms).view().insert(i as int, (e.0@, room_view(e.1))),
{
    let ghost v = rooms.view();
    rooms.entries.insert(i, e);
    assert(rooms.view() =~= v.insert(i as int, (e.0@, room_view(e.1))));
}

proof fn lemma_take_put(v: Seq<(Seq<char>, RoomView)>, i: int, x: (Seq<char>, RoomView))
    requires 0 <= i < v.len(),
    ensures v.remove(i).insert(i, x) == v.update(i, x),
{
    assert(v.remove(i).insert(i, x) =~= v.update(i, x));
}

/// `NAME:<name>`: the session's name, also given to its room and its opponent.
fn cmd_name(sess: &mut Session, rooms: &mut Rooms, name: &Vec<char>) -> (acts: Vec<RelayAction>)
    ensures
        (session_view(*final(sess)), final(rooms).view(), actions_view(acts@))
            == name_spec(session_view(*old(sess)), old(rooms).view(), name@),
{
    let safe = safe_name_of(name);
    sess.my_name = string_of(&safe);
    let mut acts: Vec<RelayAction> = Vec::new();
    let code = chars_of(sess.room_code.as_str());
    if code.len() > 0 {
        match rooms.find(&code) {
            Some(i) => {
                proof { lemma_room_index(rooms.view(), code@); }
                let ghost v = rooms.view();
                let (c, mut r) = take_room(rooms, i);
                if crate::text::eq_lit(&chars_of(sess.my_color.as_str()), "white") {
                    r.white_name = Some(string_of(&safe));
                } else {
                    r.black_name = Some(string_of(&safe));
                }
                let opp = if crate::text::eq_lit(&chars_of(sess.my_color.as_str()), "white") { r.black_conn } else { r.white_conn };
                put_room(rooms, i, (c, r));
                proof { lemma_take_put(v, i as int, (c@, room_view(r))); }
                act(&mut acts, RelayAction::Save);
                if opp {
                    let mut m = owned("OPP_NAME:");
                    push_chars(&mut m, &safe);
                    act(&mut acts, RelayAction::ToOpponent(m));
                }
                let mut m = owned("NAME_ACK:");
                push_chars(&mut m, &safe);
                act(&mut acts, RelayAction::Reply(m));
                proof {
                    let r2 = room_view(r);
                    assert(actions_view(acts@) =~= seq![ActionView::Save] + to_opp_if(r2, sess.my_color@, "OPP_NAME:"@ + safe@)
                        + seq![ActionView::Reply("NAME_ACK:"@ + safe@)]);
                }
                return acts;
            },
            None => {},
        }
    }
    let mut m = owned("NAME_ACK:");
    push_chars(&mut m, &safe);
    act(&mut acts, RelayAction::Reply(m));
    assert(actions_view(acts@) =~= seq![ActionView::Reply("NAME_ACK:"@ + safe@)]);
    acts
}

fn push_history_replies(acts: &mut Vec<RelayAction>, h: &Vec<(String, String)>)
    ensures
        actions_view(final(acts)@) == actions_view(old(acts)@)
            + history_replies(h@.map_values(|e: (String, String)| (e.0@, e.1@))),
{
    let ghost hv = h@.map_values(|e: (String, String)| (e.0@, e.1@));
    let ghost a0 = actions_view(acts@);
    let mut i: usize = 0;
    assert(hv.take(0) =~= Seq::<(Seq<char>, Seq<char>)>::empty());
    assert(a0 + Seq::<ActionView>::empty() =~= a0);
    while i < h.len()
        invariant
            i <= h@.len(), hv == h@.map_values(|e: (String, String)| (e.0@, e.1@)),
            actions_view(acts@) == a0 + history_replies(hv.take(i as int)),
        decreases h@.len() - i,
    {
        let mut m = owned("CHAT_HISTORY:");
        push_str(&mut m, h[i].0.as_str());
        crate::text::push_char(&mut m, ':');
        push_str(&mut m, h[i].1.as_str());
        assert(m@ =~= "CHAT_HISTORY:"@ + hv[i as int].0 + seq![':'] + hv[i as int].1);
        act(acts, RelayAction::Reply(m));
        assert(hv.take(i + 1).drop_last() =~= hv.take(i as int));
        assert(hv.take(i + 1).last() == hv[i as int]);
        assert(actions_view(acts@) =~= a0 + history_replies(hv.take(i + 1)));
        i += 1;
    }
    assert(hv.take(h@.len() as int) =~= hv);
}

/// `CREATE:<options>`: a new room with the session as White, unless the server is full.
fn cmd_create(sess: &mut Session, rooms: &mut Rooms, max_rooms: usize, port: u16, rest: &Vec<char>, token: &str,
    code: &str, host: &str) -> (acts: Vec<RelayAction>)
    requires old(rooms).view().len() < max_rooms ==> room_index(old(rooms).view(), code@) == -1,
    ensures
        (session_view(*final(sess)), final(rooms).view(), actions_view(acts@))
            == create_spec(session_view(*old(sess)), old(rooms).view(), max_rooms, port, rest@, token@, code@, host@),
{
    let mut acts: Vec<RelayAction> = Vec::new();
    if rooms.len() >= max_rooms {
        act(&mut acts, RelayAction::Reply(owned("ERROR:Server full. Try again later.")));
        assert(actions_view(acts@) =~= seq![ActionView::Reply("ERROR:Server full. Try again later."@)]);
        return acts;
    }
    let t = trim(rest);
    let opts = RoomOptions::from_wire(string_of(&t).as_str());
    let name_c = chars_of(sess.my_name.as_str());
    let room = RoomState {
        opts,
        moves: Vec::new(),
        white_conn: true,
        black_conn: false,
        white_token: Some(owned(token)),
        black_token: None,
        white_name: if name_c.len() > 0 { Some(string_of(&name_c)) } else { None },
        black_name: None,
        started: false,
        chat: RoomChat::new(),
        chat_history: Vec::new(),
    };
    assert(room_view(room).moves =~= Seq::<Seq<char>>::empty());
    assert(room_view(room).chat_history =~= Seq::<(Seq<char>, Seq<char>)>::empty());
    assert(room_view(room).chat_buckets =~= Seq::<BucketView>::empty());
    assert(room_view(room) =~= new_room(from_wire_spec(trim_spec(rest@)), token@, sess.my_name@));
    let ghost v = rooms.view();
    rooms.entries.push((owned(code), room));
    assert(rooms.view() =~= v.push((code@, new_room(from_wire_spec(trim_spec(rest@)), token@, sess.my_name@))));
    sess.room_code = owned(code);
    sess.my_color = owned("white");
    act(&mut acts, RelayAction::Save);
    let mut m = owned("ROOM:");
    push_str(&mut m, code);
    act(&mut acts, RelayAction::Reply(m));
    let mut m = owned("TOKEN:");
    push_str(&mut m, token);
    act(&mut acts, RelayAction::Reply(m));
    let mut m = owned("INVITE:");
    let link = encode_invite(host, port, code);
    push_str(&mut m, link.as_str());
    act(&mut acts, RelayAction::Reply(m));
    act(&mut acts, RelayAction::Created);
    assert(actions_view(acts@) =~= seq![ActionView::Save, ActionView::Reply("ROOM:"@ + code@), ActionView::Reply("TOKEN:"@ + token@),
        ActionView::Reply("INVITE:"@ + invite_text(host@, port, code@)), ActionView::Created]);
    acts
}

/// `JOIN:<code>`: the session takes Black in the room, and the game starts.
fn cmd_join(sess: &mut Session, rooms: &mut Rooms, rest: &Vec<char>, token: &str) -> (acts: Vec<RelayAction>)
    ensures
        (session_view(*final(sess)), final(rooms).view(), actions_view(acts@))
            == join_spec(session_view(*old(sess)), old(rooms).view(), rest@, token@),
{
    let mut acts: Vec<RelayAction> = Vec::new();
    let code = uppercase(&trim(rest));
    let i = match rooms.find(&code) {
        Some(i) => i,
        None => {
            act(&mut acts, RelayAction::Reply(owned("ERROR:Room not found")));
            assert(actions_view(acts@) =~= seq![ActionView::Reply("ERROR:Room not found"@)]);
            return acts;
        },
    };
    proof { lemma_room_index(rooms.view(), code@); }
    let ghost v = rooms.view();
    let full = rooms.entries[i].1.white_conn && rooms.entries[i].1.black_conn;
    if full && rooms.entries[i].1.started {
        act(&mut acts, RelayAction::Reply(owned("ERROR:Room is full \u{2014} use REJOIN if you disconnected")));
        assert(actions_view(acts@) =~= seq![ActionView::Reply("ERROR:Room is full \u{2014} use REJOIN if you disconnected"@)]);
        return acts;
    }
    if full {
        act(&mut acts, RelayAction::Reply(owned("ERROR:Room is full")));
        assert(actions_view(acts@) =~= seq![ActionView::Reply("ERROR:Room is full"@)]);
        return acts;
    }
    let (c, mut r) = take_room(rooms, i);
    let ghost r0 = room_view(r);
    let name_c = chars_of(sess.my_name.as_str());
    r.black_conn = true;
    r.black_token = Some(owned(token));
    if name_c.len() > 0 {
        r.black_name = Some(string_of(&name_c));
    }
    let opp = r.white_conn;
    let wire = r.opts.to_wire();
    let ghost hist = room_view(r).chat_history;
    act(&mut acts, RelayAction::Save);
    let mut m = owned("JOINED:black");
    act(&mut acts, RelayAction::Reply(m));
    let mut m = owned("TOKEN:");
    push_str(&mut m, token);
    act(&mut acts, RelayAction::Reply(m));
    let mut m = owned("LOBBY:");
    push_str(&mut m, wire.as_str());
    act(&mut acts, RelayAction::Reply(m));
    push_history_replies(&mut acts, &r.chat_history);
    let ghost a1 = actions_view(acts@);
    if opp {
        act(&mut acts, RelayAction::ToOpponent(owned("JOINED:white")));
        if name_c.len() > 0 {
            let mut m = owned("OPP_NAME:");
            push_chars(&mut m, &name_c);
            act(&mut acts, RelayAction::ToOpponent(m));
        }
        act(&mut acts, RelayAction::ToOpponent(owned("START")));
    }
    act(&mut acts, RelayAction::Reply(owned("START")));
    act(&mut acts, RelayAction::Joined);
    r.started = true;
    sess.room_code = string_of(&code);
    sess.my_color = owned("black");
    put_room(rooms, i, (c, r));
    proof {
        lemma_take_put(v, i as int, (c@, room_view(r)));
        assert(room_view(r) =~~= RoomView { started: true, ..RoomView {
            black_conn: true,
            black_token: Some(token@),
            black_name: if sess.my_name@.len() > 0 { Some(sess.my_name@) } else { r0.black_name },
            ..r0
        } });
        assert(actions_view(acts@) =~= seq![ActionView::Save, ActionView::Reply("JOINED:black"@), ActionView::Reply("TOKEN:"@ + token@),
                ActionView::Reply("LOBBY:"@ + to_wire_spec(r0.opts))]
            + history_replies(r0.chat_history)
            + (if r0.white_conn {
                seq![ActionView::ToOpponent("JOINED:white"@)]
                    + (if sess.my_name@.len() > 0 { seq![ActionView::ToOpponent("OPP_NAME:"@ + sess.my_name@)] } else { Seq::empty() })
                    + seq![ActionView::ToOpponent("START"@)]
            } else {
                Seq::empty()
            })
            + seq![ActionView::Reply("START"@), ActionView::Joined]);
    }
    acts
}

/// `str::splitn(3, ':')`: up to three pieces, the last one keeping any further colons.
pub open spec fn split3(t: Seq<char>) -> Seq<Seq<char>> {
    let e1 = find_char_spec(t, ':');
    if e1 >= t.len() {
        seq![t]
    } else {
        let r1 = t.skip(e1 + 1);
        let e2 = find_char_spec(r1, ':');
        if e2 >= r1.len() { seq![t.take(e1), r1] } else { seq![t.take(e1), r1.take(e2), r1.skip(e2 + 1)] }
    }
}

/// The moves joined with single spaces.
pub open spec fn join_moves(m: Seq<Seq<char>>) -> Seq<char>
    decreases m.len(),
{
    if m.len() == 0 { Seq::empty() } else if m.len() == 1 { m[0] } else { join_moves(m.drop_last()) + seq![' '] + m.last() }
}

pub open spec fn rejoin_spec(s: SessionView, rs: Seq<(Seq<char>, RoomView)>, rest: Seq<char>, new_token: Seq<char>) -> Step {
    let parts = split3(trim_spec(rest));
    let code = str_uppercase(trim_spec(parts[0]));
    let color = if parts.len() > 1 { str_lowercase(trim_spec(parts[1])) } else { Seq::empty() };
    let tok = if parts.len() > 2 { trim_spec(parts[2]) } else { Seq::empty() };
    let i = room_index(rs, code);
    if code.len() == 0 || (color != "white"@ && color != "black"@) {
        (s, rs, seq![ActionView::Reply("ERROR:REJOIN format: REJOIN:<code>:<white|black>:<token>"@)])
    } else if i < 0 {
        (s, rs, seq![ActionView::Reply("ERROR:Room not found or expired"@)])
    } else {
        let r = rs[i].1;
        let stored = if is_white(color) { r.white_token } else { r.black_token };
        if stored is Some && tok.len() > 0 && tok != stored->0 {
            (s, rs, seq![ActionView::Abort])
        } else {
            let r2 = if is_white(color) {
                RoomView { white_conn: true, white_token: Some(new_token),
                    white_name: if s.3.len() > 0 { Some(s.3) } else { r.white_name }, ..r }
            } else {
                RoomView { black_conn: true, black_token: Some(new_token),
                    black_name: if s.3.len() > 0 { Some(s.3) } else { r.black_name }, ..r }
            };
            let opp = if is_white(color) { r.black_conn } else { r.white_conn };
            ((code, color, s.2, s.3), rs.update(i, (code, r2)),
                seq![ActionView::Save, ActionView::Reply("RECONNECTED:"@ + color + seq![':'] + join_moves(r.moves)),
                    ActionView::Reply("LOBBY:"@ + to_wire_spec(r.opts))]
                + history_replies(r.chat_history)
                + (if opp {
                    seq![ActionView::ToOpponent("OPPONENT_RECONNECTED"@)]
                        + (if s.3.len() > 0 { seq![ActionView::ToOpponent("OPP_NAME:"@ + s.3)] } else { Seq::empty() })
                } else {
                    Seq::empty()
                })
                + seq![ActionView::Rejoined])
        }
    }
}

fn split3_of(t: &Vec<char>) -> (r: Vec<Vec<char>>)
    ensures r.deep_view() == split3(t@), r@.len() >= 1,
{
    let mut r: Vec<Vec<char>> = Vec::new();
    let e1 = find_char(t, ':');
    if e1 >= t.len() {
        let a = slice(t, 0, t.len());
        assert(a@ =~= t@);
        assert(a.deep_view() =~= a@);
        r.push(a);
        assert(r.deep_view() =~= seq![t@]);
        return r;
    }
    let a = slice(t, 0, e1);
    let r1 = slice(t, e1 + 1, t.len());
    assert(r1@ =~= t@.skip(e1 + 1));
    assert(a@ =~= t@.take(e1 as int));
    let e2 = find_char(&r1, ':');
    assert(a.deep_view() =~= a@);
    r.push(a);
    if e2 >= r1.len() {
        assert(r1.deep_view() =~= r1@);
        r.push(r1);
        assert(r.deep_view() =~= seq![t@.take(e1 as int), t@.skip(e1 + 1)]);
        return r;
    }
    let b = slice(&r1, 0, e2);
    let c = slice(&r1, e2 + 1, r1.len());
    assert(b@ =~= r1@.take(e2 as int));
    assert(c@ =~= r1@.skip(e2 + 1));
    assert(b.deep_view() =~= b@);
    assert(c.deep_view() =~= c@);
    r.push(b);
    r.push(c);
    assert(r.deep_view() =~= seq![t@.take(e1 as int), r1@.take(e2 as int), r1@.skip(e2 + 1)]);
    r
}

pub(crate) fn join_moves_of(m: &Vec<String>) -> (s: String)
    ensures s@ == join_moves(m@.map_values(|x: String| x@)),
{
    let ghost mv = m@.map_values(|x: String| x@);
    let mut s = String::new();
    let mut i: usize = 0;
    assert(mv.take(0) =~= Seq::<Seq<char>>::empty());
    while i < m.len()
        invariant i <= m@.len(), mv == m@.map_values(|x: String| x@), s@ == join_moves(mv.take(i as int)),
        decreases m@.len() - i,
    {
        let ghost before = s@;
        if i > 0 {
            crate::text::push_char(&mut s, ' ');
        }
        push_str(&mut s, m[i].as_str());
        proof {
            assert(mv.take(i + 1).drop_last() =~= mv.take(i as int));
            if i == 0 { assert(mv.take(1) =~= seq![mv[0]]); assert(s@ =~= mv[0]); }
            else { assert(s@ =~= before + seq![' '] + mv[i as int]); }
        }
        i += 1;
    }
    assert(mv.take(m@.len() as int) =~= mv);
    s
}

/// `REJOIN:<code>:<color>:<token>`: the session takes its seat again; a wrong token closes
/// the connection at once.
#[verifier::rlimit(60)]
#[verifier::spinoff_prover]
fn cmd_rejoin(sess: &mut Session, rooms: &mut Rooms, rest: &Vec<char>, new_token: &str) -> (acts: Vec<RelayAction>)
    ensures
        (session_view(*final(sess)), final(rooms).view(), actions_view(acts@))
            == rejoin_spec(session_view(*old(sess)), old(rooms).view(), rest@, new_token@),
{
    let mut acts: Vec<RelayAction> = Vec::new();
    let parts = split3_of(&trim(rest));
    assert(parts@[0].deep_view() =~= parts@[0]@);
    let code = uppercase(&trim(&parts[0]));
    let color: Vec<char> = if parts.len() > 1 {
        assert(parts@[1].deep_view() =~= parts@[1]@);
        lowercase(&trim(&parts[1]))
    } else { Vec::new() };
    let tok: Vec<char> = if parts.len() > 2 {
        assert(parts@[2].deep_view() =~= parts@[2]@);
        trim(&parts[2])
    } else { Vec::new() };
    let white = crate::text::eq_lit(&color, "white");
    if code.len() == 0 || (!white && !crate::text::eq_lit(&color, "black")) {
        act(&mut acts, RelayAction::Reply(owned("ERROR:REJOIN format: REJOIN:<code>:<white|black>:<token>")));
        assert(actions_view(acts@) =~= seq![ActionView::Reply("ERROR:REJOIN format: REJOIN:<code>:<white|black>:<token>"@)]);
        return acts;
    }
    let i = match rooms.find(&code) {
        Some(i) => i,
        None => {
            act(&mut acts, RelayAction::Reply(owned("ERROR:Room not found or expired")));
            assert(actions_view(acts@) =~= seq![ActionView::Reply("ERROR:Room not found or expired"@)]);
            return acts;
        },
    };
    proof { lemma_room_index(rooms.view(), code@); }
    let ghost v = rooms.view();
    let mismatch = {
        let stored = if white { &rooms.entries[i].1.white_token } else { &rooms.entries[i].1.black_token };
        match stored {
            Some(st) => tok.len() > 0 && !check_password(string_of(&tok).as_str(), st.as_str()),
            None => false,
        }
    };
    if mismatch {
        act(&mut acts, RelayAction::Abort);
        assert(actions_view(acts@) =~= seq![ActionView::Abort]);
        return acts;
    }
    let (c, mut r) = take_room(rooms, i);
    let ghost r0 = room_view(r);
    let name_c = chars_of(sess.my_name.as_str());
    let opp = if white {
        r.white_conn = true;
        r.white_token = Some(owned(new_token));
        if name_c.len() > 0 { r.white_name = Some(string_of(&name_c)); }
        r.black_conn
    } else {
        r.black_conn = true;
        r.black_token = Some(owned(new_token));
        if name_c.len() > 0 { r.black_name = Some(string_of(&name_c)); }
        r.white_conn
    };
    let wire = r.opts.to_wire();
    let moves = join_moves_of(&r.moves);
    let ghost a_start = actions_view(acts@);
    act(&mut acts, RelayAction::Save);
    let mut m = owned("RECONNECTED:");
    push_chars(&mut m, &color);
    crate::text::push_char(&mut m, ':');
    push_str(&mut m, moves.as_str());
    assert(m@ =~= "RECONNECTED:"@ + color@ + seq![':'] + join_moves(r0.moves));
    act(&mut acts, RelayAction::Reply(m));
    let mut m = owned("LOBBY:");
    push_str(&mut m, wire.as_str());
    act(&mut acts, RelayAction::Reply(m));
    push_history_replies(&mut acts, &r.chat_history);
    if opp {
        act(&mut acts, RelayAction::ToOpponent(owned("OPPONENT_RECONNECTED")));
        if name_c.len() > 0 {
            let mut m = owned("OPP_NAME:");
            push_chars(&mut m, &name_c);
            act(&mut acts, RelayAction::ToOpponent(m));
        }
    }
    act(&mut acts, RelayAction::Rejoined);
    sess.room_code = string_of(&code);
    sess.my_color = string_of(&color);
    put_room(rooms, i, (c, r));
    proof {
        lemma_take_put(v, i as int, (c@, room_view(r)));
        let s3 = sess.my_name@;
        let r2 = if white {
            RoomView { white_conn: true, white_token: Some(new_token@),
                white_name: if s3.len() > 0 { Some(s3) } else { r0.white_name }, ..r0 }
        } else {
            RoomView { black_conn: true, black_token: Some(new_token@),
                black_name: if s3.len() > 0 { Some(s3) } else { r0.black_name }, ..r0 }
        };
        assert(room_view(r) =~~= r2);
        assert(actions_view(acts@) =~= seq![ActionView::Save, ActionView::Reply("RECONNECTED:"@ + color@ + seq![':'] + join_moves(r0.moves)),
                    ActionView::Reply("LOBBY:"@ + to_wire_spec(r0.opts))]
                + history_replies(r0.chat_history)
                + (if opp {
                    seq![ActionView::ToOpponent("OPPONENT_RECONNECTED"@)]
                        + (if s3.len() > 0 { seq![ActionView::ToOpponent("OPP_NAME:"@ + s3)] } else { Seq::empty() })
                } else {
                    Seq::empty()
                })
                + seq![ActionView::Rejoined]);
    }
    acts
}

pub open spec fn chat_spec(s: SessionView, rs: Seq<(Seq<char>, RoomView)>, payload: Seq<char>, now: u64) -> Step {
    let i = room_index(rs, s.0);
    if i < 0 {
        (s, rs, Seq::empty())
    } else {
        let r = rs[i].1;
        let p = trim_spec(payload);
        let (b, allowed) = hit_spec(r.chat_buckets, s.1, now, 60_000, r.chat_max);
        let safe = sanitise_spec(p);
        let fwd = allowed && !refused(p) && safe.len() > 0;
        let r2 = RoomView {
            chat_buckets: b,
            chat_count: if fwd { vstd::wrapping::u64_specs::wrapping_add(r.chat_count, 1) } else { r.chat_count },
            chat_history: if fwd {
                (if r.chat_history.len() >= 200 { r.chat_history.drop_first() } else { r.chat_history }).push((s.1, safe))
            } else {
                r.chat_history
            },
            ..r
        };
        let wire = "CHAT:"@ + s.1 + seq![':'] + safe;
        (s, rs.update(i, (s.0, r2)),
            if fwd { seq![ActionView::Save, ActionView::Reply(wire)] + to_opp_if(r2, s.1, wire) } else { Seq::empty() })
    }
}

/// `CHAT:<message>`: the cleaned message to both players and the room's history, when the
/// sender is within its rate and the message is acceptable.
fn cmd_chat(sess: &mut Session, rooms: &mut Rooms, payload: &Vec<char>, now: u64) -> (acts: Vec<RelayAction>)
    ensures
        (session_view(*final(sess)), final(rooms).view(), actions_view(acts@))
            == chat_spec(session_view(*old(sess)), old(rooms).view(), payload@, now),
{
    let mut acts: Vec<RelayAction> = Vec::new();
    let code = chars_of(sess.room_code.as_str());
    let i = match rooms.find(&code) {
        Some(i) => i,
        None => {
            assert(actions_view(acts@) =~= Seq::<ActionView>::empty());
            return acts;
        },
    };
    proof { lemma_room_index(rooms.view(), code@); }
    let ghost v = rooms.view();
    let (c, mut r) = take_room(rooms, i);
    let ghost r0 = room_view(r);
    let p = string_of(&trim(payload));
    let fwd = r.chat.process_at(sess.my_color.as_str(), p.as_str(), now);
    let ghost h0 = r.chat_history@;
    match &fwd {
        Some(safe) => {
            if r.chat_history.len() >= 200 {
                r.chat_history.remove(0);
            }
            r.chat_history.push((clone_str(&sess.my_color), clone_str(safe)));
        },
        None => {},
    }
    let opp = if crate::text::eq_lit(&chars_of(sess.my_color.as_str()), "white") { r.black_conn } else { r.white_conn };
    assert(opp == opp_conn(room_view(r), sess.my_color@));
    put_room(rooms, i, (c, r));
    proof {
        lemma_take_put(v, i as int, (c@, room_view(r)));
    }
    match fwd {
        Some(safe) => {
            act(&mut acts, RelayAction::Save);
            let mut wire = owned("CHAT:");
            push_str(&mut wire, sess.my_color.as_str());
            crate::text::push_char(&mut wire, ':');
            push_str(&mut wire, safe.as_str());
            assert(wire@ =~= "CHAT:"@ + sess.my_color@ + seq![':'] + safe@);
            act(&mut acts, RelayAction::Reply(clone_str(&wire)));
            if opp {
                act(&mut acts, RelayAction::ToOpponent(wire));
            }
        },
        None => {},
    }
    proof {
        let pv = trim_spec(payload@);
        let (b, allowed) = hit_spec(r0.chat_buckets, sess.my_color@, now, 60_000, r0.chat_max);
        let safe = sanitise_spec(pv);
        let fw = allowed && !refused(pv) && safe.len() > 0;
        let hv0 = h0.map_values(|e: (String, String)| (e.0@, e.1@));
        assert(hv0 == r0.chat_history);
        if fw {
            if h0.len() >= 200 {
                assert(room_view(r).chat_history =~= r0.chat_history.drop_first().push((sess.my_color@, safe)));
            } else {
                assert(room_view(r).chat_history =~= r0.chat_history.push((sess.my_color@, safe)));
            }
        } else {
            assert(room_view(r).chat_history =~= r0.chat_history);
        }
        let wire = "CHAT:"@ + sess.my_color@ + seq![':'] + safe;
        let r2 = room_view(r);
        if fw {
            assert(actions_view(acts@) =~= seq![ActionView::Save, ActionView::Reply(wire)] + to_opp_if(r2, sess.my_color@, wire));
        } else {
            assert(actions_view(acts@) =~= Seq::<ActionView>::empty());
        }
    }
    acts
}

pub open spec fn fwd_spec(rs: Seq<(Seq<char>, RoomView)>, s: SessionView, msg: Seq<char>) -> Seq<ActionView> {
    let i = room_index(rs, s.0);
    if i >= 0 && opp_conn(rs[i].1, s.1) { seq![ActionView::ToOpponent(msg)] } else { Seq::empty() }
}

pub open spec fn remove_room(rs: Seq<(Seq<char>, RoomView)>, code: Seq<char>) -> Seq<(Seq<char>, RoomView)> {
    if room_index(rs, code) >= 0 { rs.remove(room_index(rs, code)) } else { rs }
}

/// The first 32 bytes of a line, for an error message.
pub open spec fn line_head(t: Seq<char>) -> Seq<char> {
    let b = encode_utf8(t);
    if b.len() <= 32 { t } else { decode_utf8(b.take(32)) }
}

/// Game commands of a session in a room: a move is recorded and relayed, draw and undo
/// offers and answers are relayed, an accepted draw or a resignation ends the room, a clock
/// update is relayed; anything else is answered as unknown.
pub open spec fn game_spec(s: SessionView, rs: Seq<(Seq<char>, RoomView)>, t: Seq<char>) -> Step {
    let i = room_index(rs, s.0);
    let has = i >= 0;
    if starts_with_text(t, "MOVE:"@) {
        let uci = trim_spec(t.skip(5));
        if has {
            let r = rs[i].1;
            (s, rs.update(i, (s.0, RoomView { moves: r.moves.push(uci), ..r })),
                seq![ActionView::Save] + fwd_spec(rs, s, "MOVE:"@ + uci) + seq![ActionView::Moved])
        } else {
            (s, rs, fwd_spec(rs, s, "MOVE:"@ + uci) + seq![ActionView::Moved])
        }
    } else if t == "DRAW"@ {
        (s, rs, fwd_spec(rs, s, "DRAW_OFFER"@))
    } else if t == "DRAW_ACCEPT"@ {
        (s, remove_room(rs, s.0), fwd_spec(rs, s, "DRAW_ACCEPTED"@) + seq![ActionView::Cleanup, ActionView::Close])
    } else if t == "DRAW_DECLINE"@ {
        (s, rs, fwd_spec(rs, s, "DRAW_DECLINED"@))
    } else if t == "UNDO_REQUEST"@ {
        (s, rs, fwd_spec(rs, s, "UNDO_REQUEST"@))
    } else if t == "UNDO_ACCEPT"@ {
        if has {
            let r = rs[i].1;
            let n = if r.moves.len() >= 2 { r.moves.len() - 2 } else { 0 };
            (s, rs.update(i, (s.0, RoomView { moves: r.moves.take(n), ..r })),
                seq![ActionView::Save] + fwd_spec(rs, s, "UNDO_ACCEPTED"@))
        } else {
            (s, rs, fwd_spec(rs, s, "UNDO_ACCEPTED"@))
        }
    } else if t == "UNDO_DECLINE"@ {
        (s, rs, fwd_spec(rs, s, "UNDO_DECLINED"@))
    } else if t == "RESIGN"@ {
        (s, remove_room(rs, s.0), fwd_spec(rs, s, "RESIGNED"@) + seq![ActionView::Cleanup, ActionView::Close])
    } else if starts_with_text(t, "CLOCK:"@) {
        (s, rs, fwd_spec(rs, s, "CLOCK:"@ + t.skip(6)))
    } else {
        (s, rs, seq![ActionView::Reply("ERROR:Unknown command: "@ + line_head(t))])
    }
}

pub open spec fn starts_with_text(s: Seq<char>, p: Seq<char>) -> bool {
    s.len() >= p.len() && s.take(p.len() as int) == p
}

/// Whether a line is one of the game commands.
pub open spec fn known_game_line(t: Seq<char>) -> bool {
    ||| starts_with_text(t, "MOVE:"@)
    ||| t == "DRAW"@
    ||| t == "DRAW_ACCEPT"@
    ||| t == "DRAW_DECLINE"@
    ||| t == "UNDO_REQUEST"@
    ||| t == "UNDO_ACCEPT"@
    ||| t == "UNDO_DECLINE"@
    ||| t == "RESIGN"@
    ||| starts_with_text(t, "CLOCK:"@)
}

/// Whether a line can be cut after 32 bytes for an error message.
pub open spec fn head_cuttable(t: Seq<char>) -> bool {
    encode_utf8(t).len() <= 32 || vstd::utf8::is_char_boundary(encode_utf8(t), 32)
}

fn opp_open(rooms: &Rooms, sess: &Session) -> (r: bool)
    ensures r == (room_index(rooms.view(), sess.room_code@) >= 0
        && opp_conn(rooms.view()[room_index(rooms.view(), sess.room_code@)].1, sess.my_color@)),
{
    match rooms.find(&chars_of(sess.room_code.as_str())) {
        Some(i) => {
            proof { lemma_room_index(rooms.view(), sess.room_code@); }
            if crate::text::eq_lit(&chars_of(sess.my_color.as_str()), "white") {
                rooms.entries[i].1.black_conn
            } else {
                rooms.entries[i].1.white_conn
            }
        },
        None => false,
    }
}

fn fwd(acts: &mut Vec<RelayAction>, opp: bool, msg: String)
    ensures actions_view(final(acts)@) == actions_view(old(acts)@) + (if opp { seq![ActionView::ToOpponent(msg@)] } else { Seq::empty() }),
{
    let ghost a0 = actions_view(acts@);
    if opp {
        act(acts, RelayAction::ToOpponent(msg));
        assert(actions_view(acts@) =~= a0 + seq![ActionView::ToOpponent(msg@)]);
    } else {
        assert(actions_view(acts@) =~= a0 + Seq::<ActionView>::empty());
    }
}

fn cmd_game(sess: &mut Session, rooms: &mut Rooms, t: &Vec<char>) -> (acts: Vec<RelayAction>)
    requires known_game_line(t@) || head_cuttable(t@),
    ensures
        (session_view(*final(sess)), final(rooms).view(), actions_view(acts@))
            == game_spec(session_view(*old(sess)), old(rooms).view(), t@),
{
    proof {
        reveal_strlit("MOVE:");
        reveal_strlit("CLOCK:");
    }
    let mut acts: Vec<RelayAction> = Vec::new();
    let ghost a0 = actions_view(acts@);
    assert(a0 =~= Seq::<ActionView>::empty());
    let opp = opp_open(rooms, sess);
    let code = chars_of(sess.room_code.as_str());
    if crate::network::has_prefix(t, "MOVE:") {
        let uci = trim(&crate::puzzle::rest_after(t, 5));
        match rooms.find(&code) {
            Some(i) => {
                proof { lemma_room_index(rooms.view(), code@); }
                let ghost v = rooms.view();
                let (c, mut r) = take_room(rooms, i);
                let ghost r0 = room_view(r);
                r.moves.push(string_of(&uci));
                proof { assert(room_view(r) =~~= RoomView { moves: r0.moves.push(uci@), ..r0 }); }
                put_room(rooms, i, (c, r));
                proof { lemma_take_put(v, i as int, (c@, room_view(r))); }
                act(&mut acts, RelayAction::Save);
            },
            None => {},
        }
        let mut m = owned("MOVE:");
        push_chars(&mut m, &uci);
        fwd(&mut acts, opp, m);
        act(&mut acts, RelayAction::Moved);
        proof {
            if room_index(old(rooms).view(), code@) >= 0 {
                assert(actions_view(acts@) =~= seq![ActionView::Save] + fwd_spec(old(rooms).view(), session_view(*old(sess)), "MOVE:"@ + uci@) + seq![ActionView::Moved]);
            } else {
                assert(actions_view(acts@) =~= fwd_spec(old(rooms).view(), session_view(*old(sess)), "MOVE:"@ + uci@) + seq![ActionView::Moved]);
            }
        }
    } else if eq_lit(t, "DRAW") {
        fwd(&mut acts, opp, owned("DRAW_OFFER"));
    } else if eq_lit(t, "DRAW_ACCEPT") {
        fwd(&mut acts, opp, owned("DRAW_ACCEPTED"));
        act(&mut acts, RelayAction::Cleanup);
        act(&mut acts, RelayAction::Close);
        rooms.remove_code(&code);
    } else if eq_lit(t, "DRAW_DECLINE") {
        fwd(&mut acts, opp, owned("DRAW_DECLINED"));
    } else if eq_lit(t, "UNDO_REQUEST") {
        fwd(&mut acts, opp, owned("UNDO_REQUEST"));
    } else if eq_lit(t, "UNDO_ACCEPT") {
        match rooms.find(&code) {
            Some(i) => {
                proof { lemma_room_index(rooms.view(), code@); }
                let ghost v = rooms.view();
                let (c, mut r) = take_room(rooms, i);
                let ghost r0 = room_view(r);
                let n = if r.moves.len() >= 2 { r.moves.len() - 2 } else { 0 };
                r.moves.truncate(n);
                proof { assert(room_view(r) =~~= RoomView { moves: r0.moves.take(n as int), ..r0 }); }
                put_room(rooms, i, (c, r));
                proof { lemma_take_put(v, i as int, (c@, room_view(r))); }
                act(&mut acts, RelayAction::Save);
            },
            None => {},
        }
        fwd(&mut acts, opp, owned("UNDO_ACCEPTED"));
    } else if eq_lit(t, "UNDO_DECLINE") {
        fwd(&mut acts, opp, owned("UNDO_DECLINED"));
    } else if eq_lit(t, "RESIGN") {
        fwd(&mut acts, opp, owned("RESIGNED"));
        act(&mut acts, RelayAction::Cleanup);
        act(&mut acts, RelayAction::Close);
        rooms.remove_code(&code);
    } else if crate::network::has_prefix(t, "CLOCK:") {
        let rest = crate::puzzle::rest_after(t, 6);
        let mut m = owned("CLOCK:");
        push_chars(&mut m, &rest);
        fwd(&mut acts, opp, m);
    } else {
        let mut m = owned("ERROR:Unknown command: ");
        let ts = string_of(t);
        let tstr = ts.as_str();
        if tstr.as_bytes().len() <= 32 {
            push_str(&mut m, tstr);
        } else {
            let (head, _) = tstr.split_at(32);
            proof {
                broadcast use vstd::utf8::encode_utf8_decode_utf8;
                assert(encode_utf8(head@) =~= encode_utf8(t@).take(32));
            }
            push_str(&mut m, head);
        }
        act(&mut acts, RelayAction::Reply(m));
    }
    acts
}

// ── A whole line, and the end of a connection ────────────────────────────────

impl Session {
    /// A fresh session; it counts as having given the password when the server has none.
    pub fn new(needs_password: bool) -> (s: Session)
        ensures session_view(s) == (Seq::<char>::empty(), Seq::<char>::empty(), !needs_password, Seq::<char>::empty()),
    {
        Session { room_code: String::new(), my_color: String::new(), authed: !needs_password, my_name: String::new() }
    }
}

pub open spec fn kick_spec(s: SessionView, rs: Seq<(Seq<char>, RoomView)>) -> Step {
    let k = "KICKED:Admin disconnected this room"@;
    (s, remove_room(rs, s.0), seq![ActionView::Reply(k)] + fwd_spec(rs, s, k) + seq![ActionView::Cleanup, ActionView::Close])
}

pub open spec fn auth_spec(s: SessionView, rs: Seq<(Seq<char>, RoomView)>, password: Option<Seq<char>>, pw: Seq<char>) -> Step {
    match password {
        Some(expected) => {
            let ok = trim_spec(pw) == expected;
            ((s.0, s.1, ok, s.3), rs,
                seq![ActionView::Reply(if ok { "AUTH_OK"@ } else { "ERROR:Wrong server password"@ })])
        },
        None => ((s.0, s.1, true, s.3), rs, seq![ActionView::Reply("AUTH_OK"@)]),
    }
}

/// The relay's answer to one line from a client: the session and rooms after it, and what
/// the connection handler is to do. An empty line is ignored; a session whose room the admin
/// closed is told so and closed; `AUTH:` checks the server password, and nothing else is
/// answered before it passed; then `PING`/`PONG`, `NAME:`, `CREATE:`, `JOIN:` and `REJOIN:`;
/// everything after needs a room: `CHAT:` and the game commands.
pub open spec fn relay_spec(s: SessionView, rs: Seq<(Seq<char>, RoomView)>, password: Option<Seq<char>>,
    max_rooms: usize, port: u16, host: Seq<char>, line: Seq<char>, kicked: bool, token: Seq<char>,
    code: Seq<char>, now: u64) -> Step
{
    let t = trim_spec(line);
    if t.len() == 0 {
        (s, rs, Seq::empty())
    } else if kicked && s.0.len() > 0 {
        kick_spec(s, rs)
    } else if starts_with_text(t, "AUTH:"@) {
        auth_spec(s, rs, password, t.skip(5))
    } else if !s.2 {
        (s, rs, seq![ActionView::Reply("ERROR:Authentication required. Send AUTH:<password>"@)])
    } else if t == "PING"@ || t == "PONG"@ {
        (s, rs, seq![ActionView::Reply("PONG"@)])
    } else if starts_with_text(t, "NAME:"@) {
        name_spec(s, rs, t.skip(5))
    } else if starts_with_text(t, "CREATE:"@) {
        create_spec(s, rs, max_rooms, port, t.skip(7), token, code, host)
    } else if starts_with_text(t, "JOIN:"@) {
        join_spec(s, rs, t.skip(5), token)
    } else if starts_with_text(t, "REJOIN:"@) {
        rejoin_spec(s, rs, t.skip(7), token)
    } else if s.0.len() == 0 {
        (s, rs, seq![ActionView::Reply("ERROR:Not in a room"@)])
    } else if starts_with_text(t, "CHAT:"@) {
        chat_spec(s, rs, t.skip(5), now)
    } else {
        game_spec(s, rs, t)
    }
}

/// Whether `line` makes a new room: a `CREATE:` from a signed-in session that is not being
/// kicked out of its room, while the server has room for it. Only then is the drawn code used.
pub open spec fn creates_room(s: SessionView, rs: Seq<(Seq<char>, RoomView)>, max_rooms: usize, line: Seq<char>,
    kicked: bool) -> bool {
    &&& starts_with_text(trim_spec(line), "CREATE:"@)
    &&& !(kicked && s.0.len() > 0)
    &&& s.2
    &&& rs.len() < max_rooms
}

/// Whether the relay can answer `line` without cutting an unknown command inside a
/// character: every line but an unknown command whose 32nd byte falls inside a character.
pub open spec fn relay_total(s: SessionView, line: Seq<char>, kicked: bool) -> bool {
    let t = trim_spec(line);
    ||| t.len() == 0
    ||| kicked && s.0.len() > 0
    ||| starts_with_text(t, "AUTH:"@)
    ||| !s.2
    ||| t == "PING"@ || t == "PONG"@
    ||| starts_with_text(t, "NAME:"@)
    ||| starts_with_text(t, "CREATE:"@)
    ||| starts_with_text(t, "JOIN:"@)
    ||| starts_with_text(t, "REJOIN:"@)
    ||| s.0.len() == 0
    ||| starts_with_text(t, "CHAT:"@)
    ||| known_game_line(t)
    ||| head_cuttable(t)
}

/// Whether `relay_line` can take `line`.
pub fn line_total(sess: &Session, line: &str, kicked: bool) -> (r: bool)
    ensures r == relay_total(session_view(*sess), line@, kicked),
{
    proof {
        reveal_strlit("MOVE:");
        reveal_strlit("CLOCK:");
    }
    let t = trim(&chars_of(line));
    let in_room = chars_of(sess.room_code.as_str()).len() > 0;
    let known = crate::network::has_prefix(&t, "MOVE:") || eq_lit(&t, "DRAW") || eq_lit(&t, "DRAW_ACCEPT")
        || eq_lit(&t, "DRAW_DECLINE") || eq_lit(&t, "UNDO_REQUEST") || eq_lit(&t, "UNDO_ACCEPT")
        || eq_lit(&t, "UNDO_DECLINE") || eq_lit(&t, "RESIGN") || crate::network::has_prefix(&t, "CLOCK:");
    assert(known == known_game_line(t@));
    let ts = string_of(&t);
    let tstr = ts.as_str();
    let cut = tstr.as_bytes().len() <= 32 || tstr.is_char_boundary(32);
    proof {
        broadcast use vstd::utf8::encode_utf8_decode_utf8;
    }
    assert(cut == head_cuttable(t@));
    t.len() == 0 || (kicked && in_room) || crate::network::has_prefix(&t, "AUTH:") || !sess.authed
        || eq_lit(&t, "PING") || eq_lit(&t, "PONG") || crate::network::has_prefix(&t, "NAME:")
        || crate::network::has_prefix(&t, "CREATE:") || crate::network::has_prefix(&t, "JOIN:")
        || crate::network::has_prefix(&t, "REJOIN:") || !in_room || crate::network::has_prefix(&t, "CHAT:")
        || known || cut
}

/// The relay's answer to one line. `token` is the fresh token a join or a new room gets,
/// `code` a code no room has yet, `host` the address invite links name and `now` the relay's
/// clock in milliseconds.
pub fn relay_line(sess: &mut Session, rooms: &mut Rooms, password: &Option<String>, max_rooms: usize,
    port: u16, host: &str, line: &str, kicked: bool, token: &str, code: &str, now: u64) -> (acts: Vec<RelayAction>)
    requires
        creates_room(session_view(*old(sess)), old(rooms).view(), max_rooms, line@, kicked)
            ==> room_index(old(rooms).view(), code@) == -1,
        relay_total(session_view(*old(sess)), line@, kicked),
    ensures
        (session_view(*final(sess)), final(rooms).view(), actions_view(acts@))
            == relay_spec(session_view(*old(sess)), old(rooms).view(), opt_str(*password), max_rooms, port,
                host@, line@, kicked, token@, code@, now),
{
    proof {
        reveal_strlit("AUTH:");
        reveal_strlit("NAME:");
        reveal_strlit("CREATE:");
        reveal_strlit("JOIN:");
        reveal_strlit("REJOIN:");
        reveal_strlit("CHAT:");
    }
    let t = trim(&chars_of(line));
    let mut acts: Vec<RelayAction> = Vec::new();
    if t.len() == 0 {
        assert(actions_view(acts@) =~= Seq::<ActionView>::empty());
        return acts;
    }
    let in_room = chars_of(sess.room_code.as_str()).len() > 0;
    if kicked && in_room {
        let opp = opp_open(rooms, sess);
        let code_c = chars_of(sess.room_code.as_str());
        act(&mut acts, RelayAction::Reply(owned("KICKED:Admin disconnected this room")));
        fwd(&mut acts, opp, owned("KICKED:Admin disconnected this room"));
        act(&mut acts, RelayAction::Cleanup);
        act(&mut acts, RelayAction::Close);
        rooms.remove_code(&code_c);
        let ghost k = "KICKED:Admin disconnected this room"@;
        assert(actions_view(acts@) =~= seq![ActionView::Reply(k)] + fwd_spec(old(rooms).view(), session_view(*old(sess)), k)
            + seq![ActionView::Cleanup, ActionView::Close]);
        return acts;
    }
    if crate::network::has_prefix(&t, "AUTH:") {
        let pw = trim(&crate::puzzle::rest_after(&t, 5));
        match password {
            Some(expected) => {
                let ok = check_password(string_of(&pw).as_str(), expected.as_str());
                sess.authed = ok;
                if ok {
                    act(&mut acts, RelayAction::Reply(owned("AUTH_OK")));
                } else {
                    act(&mut acts, RelayAction::Reply(owned("ERROR:Wrong server password")));
                }
            },
            None => {
                sess.authed = true;
                act(&mut acts, RelayAction::Reply(owned("AUTH_OK")));
            },
        }
        assert(actions_view(acts@) =~= auth_spec(session_view(*old(sess)), old(rooms).view(), opt_str(*password), t@.skip(5)).2);
        return acts;
    }
    if !sess.authed {
        act(&mut acts, RelayAction::Reply(owned("ERROR:Authentication required. Send AUTH:<password>")));
        assert(actions_view(acts@) =~= seq![ActionView::Reply("ERROR:Authentication required. Send AUTH:<password>"@)]);
        return acts;
    }
    if eq_lit(&t, "PING") || eq_lit(&t, "PONG") {
        act(&mut acts, RelayAction::Reply(owned("PONG")));
        assert(actions_view(acts@) =~= seq![ActionView::Reply("PONG"@)]);
        return acts;
    }
    if crate::network::has_prefix(&t, "NAME:") {
        return cmd_name(sess, rooms, &crate::puzzle::rest_after(&t, 5));
    }
    if crate::network::has_prefix(&t, "CREATE:") {
        return cmd_create(sess, rooms, max_rooms, port, &crate::puzzle::rest_after(&t, 7), token, code, host);
    }
    if crate::network::has_prefix(&t, "JOIN:") {
        return cmd_join(sess, rooms, &crate::puzzle::rest_after(&t, 5), token);
    }
    if crate::network::has_prefix(&t, "REJOIN:") {
        return cmd_rejoin(sess, rooms, &crate::puzzle::rest_after(&t, 7), token);
    }
    if !in_room {
        act(&mut acts, RelayAction::Reply(owned("ERROR:Not in a room")));
        assert(actions_view(acts@) =~= seq![ActionView::Reply("ERROR:Not in a room"@)]);
        return acts;
    }
    if crate::network::has_prefix(&t, "CHAT:") {
        return cmd_chat(sess, rooms, &crate::puzzle::rest_after(&t, 5), now);
    }
    cmd_game(sess, rooms, &t)
}

/// What the end of a connection does to its room: the session's side is no longer
/// connected, and a connected opponent is told so.
pub open spec fn disconnect_spec(s: SessionView, rs: Seq<(Seq<char>, RoomView)>) -> (Seq<(Seq<char>, RoomView)>, Seq<ActionView>) {
    let i = room_index(rs, s.0);
    if s.0.len() == 0 || i < 0 {
        (rs, Seq::empty())
    } else {
        let r = rs[i].1;
        let r2 = if is_white(s.1) { RoomView { white_conn: false, ..r } } else { RoomView { black_conn: false, ..r } };
        (rs.update(i, (s.0, r2)), to_opp_if(r2, s.1, "OPPONENT_DISCONNECTED"@))
    }
}

/// The end of a session's connection.
pub fn disconnect(sess: &Session, rooms: &mut Rooms) -> (acts: Vec<RelayAction>)
    ensures
        (final(rooms).view(), actions_view(acts@)) == disconnect_spec(session_view(*sess), old(rooms).view()),
{
    let mut acts: Vec<RelayAction> = Vec::new();
    let code = chars_of(sess.room_code.as_str());
    if code.len() == 0 {
        assert(actions_view(acts@) =~= Seq::<ActionView>::empty());
        return acts;
    }
    match rooms.find(&code) {
        Some(i) => {
            proof { lemma_room_index(rooms.view(), code@); }
            let ghost v = rooms.view();
            let (c, mut r) = take_room(rooms, i);
            let white = eq_lit(&chars_of(sess.my_color.as_str()), "white");
            if white {
                r.white_conn = false;
            } else {
                r.black_conn = false;
            }
            let opp = if white { r.black_conn } else { r.white_conn };
            put_room(rooms, i, (c, r));
            proof { lemma_take_put(v, i as int, (c@, room_view(r))); }
            if opp {
                act(&mut acts, RelayAction::ToOpponent(owned("OPPONENT_DISCONNECTED")));
            }
            assert(actions_view(acts@) =~= to_opp_if(room_view(r), sess.my_color@, "OPPONENT_DISCONNECTED"@));
        },
        None => {
            assert(actions_view(acts@) =~= Seq::<ActionView>::empty());
        },
    }
    acts
}

/// Whether the room with `code` is gone or has neither side connected: after its time to live
/// such a room is removed.
pub fn room_expired(rooms: &Rooms, code: &str) -> (r: bool)
    ensures
        r == (room_index(rooms.view(), code@) < 0 || {
            let rv = rooms.view()[room_index(rooms.view(), code@)].1;
            !rv.white_conn && !rv.black_conn
        }),
{
    match rooms.find(&chars_of(code)) {
        Some(i) => {
            proof { lemma_room_index(rooms.view(), code@); }
            !rooms.entries[i].1.white_conn && !rooms.entries[i].1.black_conn
        },
        None => true,
    }
}

/// Whether the `k`-th code drawn from counter `ctr` on can be one that a room has: for some
/// clock reading, the code for counter `ctr + k` is taken.
pub open spec fn drawn_code_taken(rs: Seq<(Seq<char>, RoomView)>, ctr: u64, k: u64) -> bool {
    exists|t: u64| t < 1_000_000_000
        && #[trigger] room_index(rs, room_code_text(t, vstd::wrapping::u64_specs::wrapping_add(ctr, k))) >= 0
}

/// A digit of the spare codes: `2` to `9`, the digits of the room-code alphabet.
pub open spec fn digit_char(d: int) -> char {
    if d == 0 { '2' } else if d == 1 { '3' } else if d == 2 { '4' } else if d == 3 { '5' }
    else if d == 4 { '6' } else if d == 5 { '7' } else if d == 6 { '8' } else { '9' }
}

/// The `n` base-8 digits of `k`, most significant first, written with `digit_char`.
pub open spec fn digit_code(k: nat, n: nat) -> Seq<char>
    decreases n,
{
    if n == 0 { Seq::empty() } else { digit_code(k / 8, (n - 1) as nat).push(digit_char((k % 8) as int)) }
}

pub open spec fn pow8(n: nat) -> nat
    decreases n,
{
    if n == 0 { 1 } else { 8 * pow8((n - 1) as nat) }
}

proof fn lemma_digit_code_inj(k1: nat, k2: nat, n: nat)
    requires k1 < pow8(n), k2 < pow8(n), digit_code(k1, n) == digit_code(k2, n),
    ensures k1 == k2,
    decreases n,
{
    if n > 0 {
        let a = digit_code(k1, n);
        let b = digit_code(k2, n);
        assert(a.last() == b.last());
        assert(digit_char((k1 % 8) as int) == digit_char((k2 % 8) as int));
        assert(k1 % 8 == k2 % 8);
        assert(a.drop_last() =~= digit_code(k1 / 8, (n - 1) as nat));
        assert(b.drop_last() =~= digit_code(k2 / 8, (n - 1) as nat));
        let m = pow8((n - 1) as nat);
        assert(k1 / 8 < m) by (nonlinear_arith) requires k1 < 8 * m;
        assert(k2 / 8 < m) by (nonlinear_arith) requires k2 < 8 * m;
        lemma_digit_code_inj(k1 / 8, k2 / 8, (n - 1) as nat);
    }
}

pub open spec fn tells_apart(f: spec_fn(int) -> int, n: int) -> bool {
    forall|k1: int, k2: int| 0 <= k1 <= n && 0 <= k2 <= n && #[trigger] f(k1) == #[trigger] f(k2) ==> k1 == k2
}

/// No map of `n + 1` numbers into `0..n` tells them all apart.
proof fn lemma_pigeonhole(f: spec_fn(int) -> int, n: int)
    requires
        n >= 0,
        forall|k: int| 0 <= k <= n ==> 0 <= #[trigger] f(k) < n,
    ensures !tells_apart(f, n),
    decreases n,
{
    if n == 0 {
        let x = f(0);
        assert(0 <= x && x < n);
    } else if tells_apart(f, n) {
        let g = |k: int| if f(k) == n - 1 { f(n) } else { f(k) };
        assert forall|k: int| 0 <= k <= n - 1 implies 0 <= #[trigger] g(k) < n - 1 by {
            if f(k) == n - 1 {
                assert(f(n) != f(k));
            }
        }
        lemma_pigeonhole(g, n - 1);
        assert forall|k1: int, k2: int| 0 <= k1 <= n - 1 && 0 <= k2 <= n - 1 && #[trigger] g(k1) == #[trigger] g(k2)
            implies k1 == k2 by {
            if f(k1) == n - 1 && f(k2) != n - 1 { assert(f(n) == f(k2)); }
            if f(k2) == n - 1 && f(k1) != n - 1 { assert(f(n) == f(k1)); }
        }
        assert(tells_apart(g, n - 1));
    }
}

fn digit_code_of(k: u64, n: u32) -> (s: String)
    ensures s@ == digit_code(k as nat, n as nat),
    decreases n,
{
    if n == 0 {
        return String::new();
    }
    let mut s = digit_code_of(k / 8, n - 1);
    let d = k % 8;
    let c = if d == 0 { '2' } else if d == 1 { '3' } else if d == 2 { '4' } else if d == 3 { '5' }
        else if d == 4 { '6' } else if d == 5 { '7' } else if d == 6 { '8' } else { '9' };
    push_char(&mut s, c);
    s
}

/// The most rooms for which a free code is always found: the number of spare codes.
pub open spec fn code_room_limit() -> nat { 262144 }

/// A room code that no room has yet: first up to 64 codes drawn with counters `ctr`,
/// `ctr + 1`, ... (wrapping); when those are all taken, the first free one of the spare codes
/// (six digits from 2 to 9, in order), of which there are more than rooms up to
/// `code_room_limit`. None only when that many rooms exist and every code tried is taken.
pub fn fresh_room_code(rooms: &Rooms, ctr: u64) -> (r: Option<String>)
    ensures
        r matches Some(c) ==> room_index(rooms.view(), c@) == -1 && (
            (exists|k: u64, t: u64| k < 64 && t < 1_000_000_000
                && c@ == room_code_text(t, vstd::wrapping::u64_specs::wrapping_add(ctr, k)))
            || (forall|k: u64| k < 64 ==> #[trigger] drawn_code_taken(rooms.view(), ctr, k))
                && (exists|k: nat| k <= rooms.view().len() && c@ == digit_code(k, 6)
                    && forall|j: nat| j < k ==> #[trigger] room_index(rooms.view(), digit_code(j, 6)) >= 0)),
        r is None ==> (forall|k: u64| k < 64 ==> #[trigger] drawn_code_taken(rooms.view(), ctr, k))
            && rooms.view().len() >= code_room_limit(),
        rooms.view().len() < code_room_limit() ==> r is Some,
        rooms.view().len() == 0 ==> (r matches Some(c) && exists|t: u64| t < 1_000_000_000 && c@ == room_code_text(t, ctr)),
{
    let mut k: u64 = 0;
    while k < 64
        invariant
            k <= 64,
            forall|j: u64| j < k ==> #[trigger] drawn_code_taken(rooms.view(), ctr, j),
            k > 0 ==> rooms.view().len() > 0,
        decreases 64 - k,
    {
        let c = generate_room_code(ctr.wrapping_add(k));
        let found = rooms.find(&chars_of(c.as_str()));
        if found.is_none() {
            proof {
                if rooms.view().len() == 0 {
                    assert(k == 0);
                    assert(vstd::wrapping::u64_specs::wrapping_add(ctr, 0) == ctr) by (bit_vector);
                }
            }
            return Some(c);
        }
        proof {
            let t = choose|t: u64| t < 1_000_000_000 && c@ == room_code_text(t, vstd::wrapping::u64_specs::wrapping_add(ctr, k));
            assert(room_index(rooms.view(), room_code_text(t, vstd::wrapping::u64_specs::wrapping_add(ctr, k))) >= 0);
            assert(drawn_code_taken(rooms.view(), ctr, k));
            lemma_room_index(rooms.view(), c@);
        }
        k += 1;
    }
    let n = rooms.len();
    if n >= 262144 {
        return None;
    }
    let ghost rs = rooms.view();
    let mut j: u64 = 0;
    while j <= n as u64
        invariant
            n == rs.len(), n < 262144, rs == rooms.view(), rs.len() > 0,
            forall|i: u64| i < 64 ==> #[trigger] drawn_code_taken(rs, ctr, i),
            forall|i: nat| i < j ==> #[trigger] room_index(rs, digit_code(i, 6)) >= 0,
            j <= n + 1,
        decreases n + 1 - j,
    {
        let c = digit_code_of(j, 6);
        if rooms.find(&chars_of(c.as_str())).is_none() {
            assert(forall|i: nat| i < j as nat ==> #[trigger] room_index(rs, digit_code(i, 6)) >= 0);
            return Some(c);
        }
        j += 1;
    }
    proof {
        let f = |i: int| room_index(rs, digit_code(i as nat, 6));
        reveal_with_fuel(pow8, 7);
        assert(pow8(6) == 262144);
        assert forall|i: int| 0 <= i <= n implies 0 <= #[trigger] f(i) < n by {
            assert(room_index(rs, digit_code(i as nat, 6)) >= 0);
            lemma_room_index(rs, digit_code(i as nat, 6));
        }
        assert forall|k1: int, k2: int| 0 <= k1 <= n && 0 <= k2 <= n && #[trigger] f(k1) == #[trigger] f(k2)
            implies k1 == k2 by {
            lemma_room_index(rs, digit_code(k1 as nat, 6));
            lemma_room_index(rs, digit_code(k2 as nat, 6));
            lemma_digit_code_inj(k1 as nat, k2 as nat, 6);
        }
        assert(tells_apart(f, n as int));
        lemma_pigeonhole(f, n as int);
    }
    None
}

/// The lines a client gets when it connects: the message of the day, if any, and the
/// server's name and number of rooms.
pub fn welcome_lines(motd: &str, server_name: &str, room_count: usize) -> (v: Vec<String>)
    ensures
        v@.map_values(|l: String| l@) == (if motd@.len() > 0 { seq!["MOTD:"@ + motd@] } else { Seq::empty() })
            + seq!["SERVER_INFO:name="@ + server_name@ + ",version=2.0,rooms="@ + dec_spec(room_count as nat)],
{
    let mut v: Vec<String> = Vec::new();
    if motd.as_bytes().len() > 0 {
        let mut m = owned("MOTD:");
        push_str(&mut m, motd);
        v.push(m);
    }
    let mut m = owned("SERVER_INFO:name=");
    push_str(&mut m, server_name);
    push_str(&mut m, ",version=2.0,rooms=");
    push_dec(&mut m, room_count as u64);
    v.push(m);
    assert(v@.map_values(|l: String| l@) =~= (if motd@.len() > 0 { seq!["MOTD:"@ + motd@] } else { Seq::empty() })
        + seq!["SERVER_INFO:name="@ + server_name@ + ",version=2.0,rooms="@ + dec_spec(room_count as nat)]);
    v
}

/// One line from a client, with a fresh token and room code drawn for it (see `relay_line`).
/// A line that would make a new room when no free code was found (possible only with
/// `code_room_limit` rooms or more) is answered as if the server were full; every other line
/// is answered as `relay_line` answers it.
pub fn handle_line(sess: &mut Session, rooms: &mut Rooms, password: &Option<String>, max_rooms: usize,
    port: u16, host: &str, line: &str, kicked: bool, ctr: u64, now: u64) -> (acts: Vec<RelayAction>)
    requires
        relay_total(session_view(*old(sess)), line@, kicked),
    ensures
        (exists|t: u64, code: Seq<char>| t < 1_000_000_000 &&
            (creates_room(session_view(*old(sess)), old(rooms).view(), max_rooms, line@, kicked)
                ==> room_index(old(rooms).view(), code) == -1)
            && (session_view(*final(sess)), final(rooms).view(), actions_view(acts@))
                == relay_spec(session_view(*old(sess)), old(rooms).view(), opt_str(*password), max_rooms, port,
                    host@, line@, kicked, token_text(t, ctr), code, now))
        || (creates_room(session_view(*old(sess)), old(rooms).view(), max_rooms, line@, kicked)
            && old(rooms).view().len() >= code_room_limit()
            && session_view(*final(sess)) == session_view(*old(sess)) && final(rooms).view() == old(rooms).view()
            && actions_view(acts@) == seq![ActionView::Reply("ERROR:Server full. Try again later."@)]),
        old(rooms).view().len() < code_room_limit()
            || !creates_room(session_view(*old(sess)), old(rooms).view(), max_rooms, line@, kicked)
            ==> exists|t: u64, code: Seq<char>| t < 1_000_000_000 &&
            (creates_room(session_view(*old(sess)), old(rooms).view(), max_rooms, line@, kicked)
                ==> room_index(old(rooms).view(), code) == -1)
            && (session_view(*final(sess)), final(rooms).view(), actions_view(acts@))
                == relay_spec(session_view(*old(sess)), old(rooms).view(), opt_str(*password), max_rooms, port,
                    host@, line@, kicked, token_text(t, ctr), code, now),
{
    let token = generate_token(ctr);
    match fresh_room_code(rooms, ctr) {
        Some(code) => relay_line(sess, rooms, password, max_rooms, port, host, line, kicked, token.as_str(), code.as_str(), now),
        None => {
            proof { reveal_strlit("CREATE:"); }
            let creates = crate::network::has_prefix(&trim(&chars_of(line)), "CREATE:")
                && !(kicked && chars_of(sess.room_code.as_str()).len() > 0) && sess.authed && rooms.len() < max_rooms;
            if creates {
                let mut acts: Vec<RelayAction> = Vec::new();
                act(&mut acts, RelayAction::Reply(owned("ERROR:Server full. Try again later.")));
                assert(actions_view(acts@) =~= seq![ActionView::Reply("ERROR:Server full. Try again later."@)]);
                acts
            } else {
                relay_line(sess, rooms, password, max_rooms, port, host, line, kicked, token.as_str(), "", now)
            }
        },
    }
}

// ── What every line keeps ────────────────────────────────────────────────────

/// What holds of the rooms at all times: no code occurs twice, and no room keeps more than
/// 200 chat messages.
pub open spec fn rooms_wf(rs: Seq<(Seq<char>, RoomView)>) -> bool {
    &&& forall|i: int, j: int| 0 <= i < rs.len() && 0 <= j < rs.len() && i != j ==> #[trigger] rs[i].0 != #[trigger] rs[j].0
    &&& forall|i: int| 0 <= i < rs.len() ==> (#[trigger] rs[i]).1.chat_history.len() <= 200
}

proof fn lemma_update_wf(rs: Seq<(Seq<char>, RoomView)>, i: int, x: (Seq<char>, RoomView))
    requires rooms_wf(rs), 0 <= i < rs.len(), x.0 == rs[i].0, x.1.chat_history.len() <= 200,
    ensures rooms_wf(rs.update(i, x)),
{
    let r2 = rs.update(i, x);
    assert forall|a: int, b: int| 0 <= a < r2.len() && 0 <= b < r2.len() && a != b implies #[trigger] r2[a].0 != #[trigger] r2[b].0 by {
        assert(r2[a].0 == rs[a].0);
        assert(r2[b].0 == rs[b].0);
    }
}

proof fn lemma_remove_wf(rs: Seq<(Seq<char>, RoomView)>, code: Seq<char>)
    requires rooms_wf(rs),
    ensures rooms_wf(remove_room(rs, code)),
{
    lemma_room_index(rs, code);
    let k = room_index(rs, code);
    if k >= 0 {
        let r2 = rs.remove(k);
        assert forall|a: int, b: int| 0 <= a < r2.len() && 0 <= b < r2.len() && a != b implies #[trigger] r2[a].0 != #[trigger] r2[b].0 by {
            let a2 = if a < k { a } else { a + 1 };
            let b2 = if b < k { b } else { b + 1 };
            assert(r2[a] == rs[a2]);
            assert(r2[b] == rs[b2]);
        }
        assert forall|a: int| 0 <= a < r2.len() implies (#[trigger] r2[a]).1.chat_history.len() <= 200 by {
            let a2 = if a < k { a } else { a + 1 };
            assert(r2[a] == rs[a2]);
        }
    }
}

proof fn lemma_push_wf(rs: Seq<(Seq<char>, RoomView)>, x: (Seq<char>, RoomView))
    requires rooms_wf(rs), room_index(rs, x.0) == -1, x.1.chat_history.len() <= 200,
    ensures rooms_wf(rs.push(x)),
{
    lemma_room_index(rs, x.0);
    let r2 = rs.push(x);
    assert forall|a: int, b: int| 0 <= a < r2.len() && 0 <= b < r2.len() && a != b implies #[trigger] r2[a].0 != #[trigger] r2[b].0 by {
        if a < rs.len() { assert(r2[a] == rs[a]); }
        if b < rs.len() { assert(r2[b] == rs[b]); }
    }
    assert forall|a: int| 0 <= a < r2.len() implies (#[trigger] r2[a]).1.chat_history.len() <= 200 by {
        if a < rs.len() { assert(r2[a] == rs[a]); }
    }
}

/// Whatever line the relay takes, no room code occurs twice afterwards and no room keeps more
/// than 200 chat messages, when that held before and a new room gets a code no room has.
pub proof fn lemma_relay_keeps_rooms_wf(s: SessionView, rs: Seq<(Seq<char>, RoomView)>, password: Option<Seq<char>>,
    max_rooms: usize, port: u16, host: Seq<char>, line: Seq<char>, kicked: bool, token: Seq<char>,
    code: Seq<char>, now: u64)
    requires
        rooms_wf(rs),
        starts_with_text(trim_spec(line), "CREATE:"@) ==> room_index(rs, code) == -1,
    ensures
        rooms_wf(relay_spec(s, rs, password, max_rooms, port, host, line, kicked, token, code, now).1),
{
    let t = trim_spec(line);
    lemma_room_index(rs, s.0);
    let i = room_index(rs, s.0);
    if t.len() == 0 {
    } else if kicked && s.0.len() > 0 {
        lemma_remove_wf(rs, s.0);
    } else if starts_with_text(t, "AUTH:"@) || !s.2 || t == "PING"@ || t == "PONG"@ {
    } else if starts_with_text(t, "NAME:"@) {
        if s.0.len() > 0 && i >= 0 {
            let r = rs[i].1;
            let safe = safe_name(t.skip(5));
            let r2 = if is_white(s.1) { RoomView { white_name: Some(safe), ..r } } else { RoomView { black_name: Some(safe), ..r } };
            lemma_update_wf(rs, i, (s.0, r2));
        }
    } else if starts_with_text(t, "CREATE:"@) {
        if rs.len() < max_rooms {
            lemma_push_wf(rs, (code, new_room(from_wire_spec(trim_spec(t.skip(7))), token, s.3)));
        }
    } else if starts_with_text(t, "JOIN:"@) {
        let c = str_uppercase(trim_spec(t.skip(5)));
        lemma_room_index(rs, c);
        let k = room_index(rs, c);
        if k >= 0 && !(rs[k].1.white_conn && rs[k].1.black_conn) {
            let r = rs[k].1;
            let r1 = RoomView {
                black_conn: true,
                black_token: Some(token),
                black_name: if s.3.len() > 0 { Some(s.3) } else { r.black_name },
                ..r
            };
            lemma_update_wf(rs, k, (c, RoomView { started: true, ..r1 }));
        }
    } else if starts_with_text(t, "REJOIN:"@) {
        let parts = split3(trim_spec(t.skip(7)));
        let c = str_uppercase(trim_spec(parts[0]));
        let color = if parts.len() > 1 { str_lowercase(trim_spec(parts[1])) } else { Seq::empty() };
        lemma_room_index(rs, c);
        let k = room_index(rs, c);
        if k >= 0 {
            let r = rs[k].1;
            let r2 = if is_white(color) {
                RoomView { white_conn: true, white_token: Some(token),
                    white_name: if s.3.len() > 0 { Some(s.3) } else { r.white_name }, ..r }
            } else {
                RoomView { black_conn: true, black_token: Some(token),
                    black_name: if s.3.len() > 0 { Some(s.3) } else { r.black_name }, ..r }
            };
            lemma_update_wf(rs, k, (c, r2));
        }
    } else if s.0.len() == 0 {
    } else if starts_with_text(t, "CHAT:"@) {
        if i >= 0 {
            let r = rs[i].1;
            let st = chat_spec(s, rs, t.skip(5), now);
            assert(st.1 == rs.update(i, (s.0, st.1[i].1)));
            lemma_update_wf(rs, i, (s.0, st.1[i].1));
        }
    } else {
        if starts_with_text(t, "MOVE:"@) {
            if i >= 0 {
                let r = rs[i].1;
                lemma_update_wf(rs, i, (s.0, RoomView { moves: r.moves.push(trim_spec(t.skip(5))), ..r }));
            }
        } else if t == "DRAW_ACCEPT"@ || t == "RESIGN"@ {
            lemma_remove_wf(rs, s.0);
        } else if t == "UNDO_ACCEPT"@ {
            if i >= 0 {
                let r = rs[i].1;
                let n = if r.moves.len() >= 2 { r.moves.len() - 2 } else { 0 };
                lemma_update_wf(rs, i, (s.0, RoomView { moves: r.moves.take(n), ..r }));
            }
        }
    }
}

/// The end of a connection keeps the same.
pub proof fn lemma_disconnect_keeps_rooms_wf(s: SessionView, rs: Seq<(Seq<char>, RoomView)>)
    requires rooms_wf(rs),
    ensures rooms_wf(disconnect_spec(s, rs).0),
{
    lemma_room_index(rs, s.0);
    let i = room_index(rs, s.0);
    if s.0.len() > 0 && i >= 0 {
        let r = rs[i].1;
        let r2 = if is_white(s.1) { RoomView { white_conn: false, ..r } } else { RoomView { black_conn: false, ..r } };
        lemma_update_wf(rs, i, (s.0, r2));
    }
}

} // verus!
