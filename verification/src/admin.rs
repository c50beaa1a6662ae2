//! The relay server's admin dashboard: room summaries and text escaping for JSON and HTML.
use vstd::prelude::*;
use crate::text::{chars_of, push_char, push_str, owned, string_of, trim, trim_spec, lines, lines_spec, words, words_spec,
    find_char, find_char_spec, slice, eq_lit, uppercase, str_uppercase};
use crate::num::{push_dec, push_dec2, dec_spec};
use crate::config::bool_word;
use crate::network::{has_prefix, starts_with_lit};

verus! {

/// What the dashboard shows of one room.
#[derive(Clone, Debug)]
pub struct RoomInfo {
    pub code: String,
    pub moves: usize,
    pub white_conn: bool,
    pub black_conn: bool,
    pub white_name: String,
    pub black_name: String,
    pub time_secs: u32,
    pub inc_secs: u32,
    pub undo: bool,
    pub engine: bool,
    pub started: bool,
    pub chat_msgs: usize,
}

/// One character inside a JSON string: backslash, quote and newline escaped.
pub open spec fn json_char(c: char) -> Seq<char> {
    if c == '\\' { seq!['\\', '\\'] } else if c == '"' { seq!['\\', '"'] } else if c == '\n' { seq!['\\', 'n'] } else { seq![c] }
}

/// One character inside HTML: `&`, `<`, `>` and `"` as entities.
pub open spec fn html_char(c: char) -> Seq<char> {
    if c == '&' { "&amp;"@ } else if c == '<' { "&lt;"@ } else if c == '>' { "&gt;"@ } else if c == '"' { "&quot;"@ } else { seq![c] }
}

pub open spec fn json_esc_spec(s: Seq<char>) -> Seq<char>
    decreases s.len(),
{
    if s.len() == 0 { Seq::empty() } else { json_esc_spec(s.drop_last()) + json_char(s.last()) }
}

pub open spec fn html_esc_spec(s: Seq<char>) -> Seq<char>
    decreases s.len(),
{
    if s.len() == 0 { Seq::empty() } else { html_esc_spec(s.drop_last()) + html_char(s.last()) }
}

/// `s` escaped for a JSON string literal.
pub fn esc_json(s: &str) -> (r: String)
    ensures r@ == json_esc_spec(s@),
{
    let cs = chars_of(s);
    let mut r = String::new();
    let mut i: usize = 0;
    assert(cs@.take(0) =~= Seq::<char>::empty());
    while i < cs.len()
        invariant i <= cs@.len(), cs@ == s@, r@ == json_esc_spec(cs@.take(i as int)),
        decreases cs@.len() - i,
    {
        assert(cs@.take(i + 1).drop_last() =~= cs@.take(i as int));
        let c = cs[i];
        let ghost r0 = r@;
        if c == '\\' {
            push_char(&mut r, '\\');
            push_char(&mut r, '\\');
        } else if c == '"' {
            push_char(&mut r, '\\');
            push_char(&mut r, '"');
        } else if c == '\n' {
            push_char(&mut r, '\\');
            push_char(&mut r, 'n');
        } else {
            push_char(&mut r, c);
        }
        assert(r@ =~= r0 + json_char(c));
        i += 1;
    }
    assert(cs@.take(cs@.len() as int) =~= cs@);
    r
}

/// `s` escaped for HTML text and attribute values.
pub fn html_esc(s: &str) -> (r: String)
    ensures r@ == html_esc_spec(s@),
{
    let cs = chars_of(s);
    let mut r = String::new();
    let mut i: usize = 0;
    assert(cs@.take(0) =~= Seq::<char>::empty());
    while i < cs.len()
        invariant i <= cs@.len(), cs@ == s@, r@ == html_esc_spec(cs@.take(i as int)),
        decreases cs@.len() - i,
    {
        assert(cs@.take(i + 1).drop_last() =~= cs@.take(i as int));
        let c = cs[i];
        let ghost r0 = r@;
        if c == '&' {
            push_str(&mut r, "&amp;");
        } else if c == '<' {
            push_str(&mut r, "&lt;");
        } else if c == '>' {
            push_str(&mut r, "&gt;");
        } else if c == '"' {
            push_str(&mut r, "&quot;");
        } else {
            push_char(&mut r, c);
        }
        assert(r@ =~= r0 + html_char(c));
        i += 1;
    }
    assert(cs@.take(cs@.len() as int) =~= cs@);
    r
}

// ── Requests ─────────────────────────────────────────────────────────────────

/// What an admin request asks for.
#[derive(Debug)]
pub enum AdminRoute {
    /// The password is missing or wrong.
    Unauthorized,
    /// The HTML dashboard.
    Dashboard,
    /// Server counters as JSON.
    Status,
    /// The rooms as JSON.
    Rooms,
    /// The event log as JSON.
    Log,
    /// Close the room with this code.
    Kick(String),
    /// Send a server message (the second field) to the room with this code.
    Message(String, String),
    /// Send a server message to every room.
    Broadcast(String),
    /// Set the admin note.
    Note(String),
    /// Set the message of the day.
    Motd(String),
    /// Delete the stored room files.
    ClearRooms,
    /// Anything else.
    NotFound,
}

pub enum RouteView {
    Unauthorized,
    Dashboard,
    Status,
    Rooms,
    Log,
    Kick(Seq<char>),
    Message(Seq<char>, Seq<char>),
    Broadcast(Seq<char>),
    Note(Seq<char>),
    Motd(Seq<char>),
    ClearRooms,
    NotFound,
}

pub open spec fn route_view(r: AdminRoute) -> RouteView {
    match r {
        AdminRoute::Unauthorized => RouteView::Unauthorized,
        AdminRoute::Dashboard => RouteView::Dashboard,
        AdminRoute::Status => RouteView::Status,
        AdminRoute::Rooms => RouteView::Rooms,
        AdminRoute::Log => RouteView::Log,
        AdminRoute::Kick(c) => RouteView::Kick(c@),
        AdminRoute::Message(c, m) => RouteView::Message(c@, m@),
        AdminRoute::Broadcast(m) => RouteView::Broadcast(m@),
        AdminRoute::Note(m) => RouteView::Note(m@),
        AdminRoute::Motd(m) => RouteView::Motd(m@),
        AdminRoute::ClearRooms => RouteView::ClearRooms,
        AdminRoute::NotFound => RouteView::NotFound,
    }
}

/// Index of the first occurrence of `t` in `s` from `i` on, or -1.
pub open spec fn find_sub(s: Seq<char>, t: Seq<char>, i: int) -> int
    decreases s.len() + 1 - i,
{
    if i < 0 || i + t.len() > s.len() { -1 } else if s.subrange(i, i + t.len()) == t { i } else { find_sub(s, t, i + 1) }
}

pub open spec fn first_line(req: Seq<char>) -> Seq<char> {
    let ls = lines_spec(req);
    if ls.len() > 0 { ls[0] } else { Seq::empty() }
}

/// The method: the first word of the first line, `GET` without one.
pub open spec fn req_method(req: Seq<char>) -> Seq<char> {
    let w = words_spec(first_line(req));
    if w.len() > 0 { w[0] } else { "GET"@ }
}

/// The path without its query: the second word of the first line up to a `?`, `/` without one.
pub open spec fn req_path(req: Seq<char>) -> Seq<char> {
    let w = words_spec(first_line(req));
    let p = if w.len() > 1 { w[1] } else { "/"@ };
    p.take(find_char_spec(p, '?'))
}

/// The body: the trimmed text after the first blank line, or nothing.
pub open spec fn req_body(req: Seq<char>) -> Seq<char> {
    let p = find_sub(req, "\r\n\r\n"@, 0);
    if p >= 0 { trim_spec(req.skip(p + 4)) } else { Seq::empty() }
}

/// Whether a request carries the admin password: as `pw=` anywhere, as a bearer token, or at
/// the start of its body. Without a password every request passes.
pub open spec fn admin_authed(req: Seq<char>, pw: Option<Seq<char>>) -> bool {
    match pw {
        None => true,
        Some(p) => find_sub(req, "pw="@ + p, 0) >= 0 || find_sub(req, "Authorization: Bearer "@ + p, 0) >= 0
            || starts_with_lit(req_body(req), "pw="@ + p),
    }
}

pub open spec fn ends_with_lit(s: Seq<char>, t: Seq<char>) -> bool {
    s.len() >= t.len() && s.skip(s.len() - t.len()) == t
}

pub open spec fn head_chars(s: Seq<char>, n: nat) -> Seq<char> {
    if s.len() > n { s.take(n as int) } else { s }
}

/// What the admin server does with a request.
pub open spec fn route_spec(req: Seq<char>, pw: Option<Seq<char>>) -> RouteView {
    let m = req_method(req);
    let p = req_path(req);
    let body = req_body(req);
    if !admin_authed(req, pw) {
        RouteView::Unauthorized
    } else if m == "GET"@ && p == "/"@ {
        RouteView::Dashboard
    } else if m == "GET"@ && p == "/api/status"@ {
        RouteView::Status
    } else if m == "GET"@ && p == "/api/rooms"@ {
        RouteView::Rooms
    } else if m == "GET"@ && p == "/api/log"@ {
        RouteView::Log
    } else if m == "POST"@ && starts_with_lit(p, "/api/rooms/"@) && ends_with_lit(p, "/kick"@) {
        RouteView::Kick(str_uppercase(p.subrange(11, p.len() - 5)))
    } else if m == "POST"@ && starts_with_lit(p, "/api/rooms/"@) && ends_with_lit(p, "/message"@) {
        RouteView::Message(str_uppercase(p.subrange(11, p.len() - 8)), head_chars(body, 200))
    } else if m == "POST"@ && p == "/api/broadcast"@ {
        RouteView::Broadcast(head_chars(body, 200))
    } else if m == "POST"@ && p == "/api/note"@ {
        RouteView::Note(head_chars(body, 500))
    } else if m == "POST"@ && p == "/api/motd"@ {
        RouteView::Motd(head_chars(body, 300))
    } else if m == "POST"@ && p == "/api/clear-rooms"@ {
        RouteView::ClearRooms
    } else {
        RouteView::NotFound
    }
}

/// Whether a request can be routed: every request but a `POST` to `/api/rooms/kick` or
/// `/api/rooms/message`, whose room code would have to end before it starts.
pub open spec fn route_total(req: Seq<char>, pw: Option<Seq<char>>) -> bool {
    !(admin_authed(req, pw) && req_method(req) == "POST"@
        && (req_path(req) == "/api/rooms/kick"@ || req_path(req) == "/api/rooms/message"@))
}

proof fn lemma_find_sub(s: Seq<char>, t: Seq<char>, i: int)
    ensures
        find_sub(s, t, i) >= 0 ==> i <= find_sub(s, t, i) && find_sub(s, t, i) + t.len() <= s.len()
            && s.subrange(find_sub(s, t, i), find_sub(s, t, i) + t.len()) == t,
    decreases s.len() + 1 - i,
{
    if !(i < 0 || i + t.len() > s.len()) && s.subrange(i, i + t.len()) != t {
        lemma_find_sub(s, t, i + 1);
    }
}

fn matches_at(s: &Vec<char>, t: &Vec<char>, i: usize) -> (r: bool)
    requires i + t@.len() <= s@.len(),
    ensures r == (s@.subrange(i as int, i + t@.len()) == t@),
{
    let sl = s.len();
    let mut j: usize = 0;
    while j < t.len()
        invariant
            j <= t@.len(), i + t@.len() <= s@.len(), sl == s@.len(),
            forall|k: int| 0 <= k < j ==> s@[i + k] == t@[k],
        decreases t@.len() - j,
    {
        if s[i + j] != t[j] {
            assert(s@.subrange(i as int, i + t@.len())[j as int] != t@[j as int]);
            return false;
        }
        j += 1;
    }
    assert(s@.subrange(i as int, i + t@.len()) =~= t@);
    true
}

fn find_sub_in(s: &Vec<char>, t: &str) -> (r: Option<usize>)
    ensures
        match r { Some(i) => find_sub(s@, t@, 0) == i, None => find_sub(s@, t@, 0) == -1 },
{
    let tc = chars_of(t);
    if tc.len() == 0 {
        assert(s@.subrange(0, 0) =~= t@);
        return Some(0);
    }
    let mut i: usize = 0;
    while i < s.len() && s.len() - i >= tc.len()
        invariant
            tc@ == t@, i <= s@.len(), tc@.len() > 0,
            find_sub(s@, t@, 0) == find_sub(s@, t@, i as int),
        decreases s@.len() + 1 - i,
    {
        if matches_at(s, &tc, i) {
            return Some(i);
        }
        i += 1;
    }
    None
}

fn head_of(s: &Vec<char>, n: usize) -> (r: String)
    ensures r@ == head_chars(s@, n as nat),
{
    if s.len() > n {
        let h = slice(s, 0, n);
        assert(h@ =~= s@.take(n as int));
        string_of(&h)
    } else {
        string_of(s)
    }
}

fn concat_chars(a: &str, b: &str) -> (r: Vec<char>)
    ensures r@ == a@ + b@,
{
    let mut s = owned(a);
    push_str(&mut s, b);
    chars_of(s.as_str())
}

/// The parts of a request the routing looks at: method, path without query, and body.
fn request_parts(req: &str) -> (r: (Vec<char>, Vec<char>, Vec<char>))
    ensures r.0@ == req_method(req@), r.1@ == req_path(req@), r.2@ == req_body(req@),
{
    let rc = chars_of(req);
    let ls = lines(&rc);
    let fl: Vec<char> = if ls.len() > 0 { slice(&ls[0], 0, ls[0].len()) } else { Vec::new() };
    proof {
        if ls@.len() > 0 {
            assert(ls@[0].deep_view() =~= ls@[0]@);
            assert(ls@[0]@.subrange(0, ls@[0]@.len() as int) =~= ls@[0]@);
        }
    }
    assert(fl@ == first_line(req@));
    let w = words(&fl);
    proof {
        assert forall|k: int| 0 <= k < w@.len() implies #[trigger] w.deep_view()[k] == w@[k]@ by {
            assert(w@[k].deep_view() =~= w@[k]@);
        }
    }
    let meth = if w.len() > 0 { slice(&w[0], 0, w[0].len()) } else { chars_of("GET") };
    let path = if w.len() > 1 { slice(&w[1], 0, w[1].len()) } else { chars_of("/") };
    proof {
        if w@.len() > 0 { assert(w@[0]@.subrange(0, w@[0]@.len() as int) =~= w@[0]@); }
        if w@.len() > 1 { assert(w@[1]@.subrange(0, w@[1]@.len() as int) =~= w@[1]@); }
    }
    let q = find_char(&path, '?');
    let base = slice(&path, 0, q);
    assert(base@ =~= path@.take(q as int));
    let body = match find_sub_in(&rc, "\r\n\r\n") {
        Some(p) => {
            proof {
                reveal_strlit("\r\n\r\n");
                lemma_find_sub(rc@, "\r\n\r\n"@, 0);
            }
            let rl = rc.len();
            let rest = slice(&rc, p + 4, rl);
            assert(rest@ =~= rc@.skip(p + 4));
            trim(&rest)
        },
        None => Vec::new(),
    };
    (meth, base, body)
}

fn authed(req: &Vec<char>, body: &Vec<char>, pw: &Option<String>) -> (r: bool)
    requires body@ == req_body(req@),
    ensures r == admin_authed(req@, opt_text(*pw)),
{
    match pw {
        None => true,
        Some(p) => {
            let a = concat_chars("pw=", p.as_str());
            let b = concat_chars("Authorization: Bearer ", p.as_str());
            find_sub_in(req, string_of(&a).as_str()).is_some() || find_sub_in(req, string_of(&b).as_str()).is_some()
                || has_prefix(body, string_of(&a).as_str())
        },
    }
}

pub open spec fn opt_text(o: Option<String>) -> Option<Seq<char>> {
    match o { Some(s) => Some(s@), None => None }
}

/// Whether `route_admin_request` can take `req`.
pub fn admin_request_total(req: &str, admin_password: &Option<String>) -> (r: bool)
    ensures r == route_total(req@, opt_text(*admin_password)),
{
    let (meth, path, body) = request_parts(req);
    let ok = authed(&chars_of(req), &body, admin_password);
    !(ok && eq_lit(&meth, "POST") && (eq_lit(&path, "/api/rooms/kick") || eq_lit(&path, "/api/rooms/message")))
}

/// What the admin server does with the request text `req` (see `route_spec`).
pub fn route_admin_request(req: &str, admin_password: &Option<String>) -> (r: AdminRoute)
    requires route_total(req@, opt_text(*admin_password)),
    ensures route_view(r) == route_spec(req@, opt_text(*admin_password)),
{
    proof {
        reveal_strlit("/api/rooms/");
        reveal_strlit("/kick");
        reveal_strlit("/message");
        reveal_strlit("/api/rooms/kick");
        reveal_strlit("/api/rooms/message");
    }
    let (meth, path, body) = request_parts(req);
    if !authed(&chars_of(req), &body, admin_password) {
        return AdminRoute::Unauthorized;
    }
    let get = eq_lit(&meth, "GET");
    let post = eq_lit(&meth, "POST");
    if get && eq_lit(&path, "/") {
        return AdminRoute::Dashboard;
    }
    if get && eq_lit(&path, "/api/status") {
        return AdminRoute::Status;
    }
    if get && eq_lit(&path, "/api/rooms") {
        return AdminRoute::Rooms;
    }
    if get && eq_lit(&path, "/api/log") {
        return AdminRoute::Log;
    }
    let rooms_prefix = has_prefix(&path, "/api/rooms/");
    let n = path.len();
    if post && rooms_prefix && n >= 5 && eq_lit(&slice(&path, n - 5, n), "/kick") {
        assert(path@.subrange(n - 5, n as int) =~= path@.skip(n - 5));
        if n < 16 {
            assert(path@[n - 5] == '/') by { assert(path@.skip(n - 5)[0] == "/kick"@[0]); }
            assert(path@[n - 5] == "/api/rooms/"@[n - 5]) by { assert(path@.take(11)[n - 5] == path@[n - 5]); }
            assert(n == 15);
            assert(path@ =~= "/api/rooms/kick"@) by {
                assert forall|k: int| 0 <= k < path@.len() implies path@[k] == "/api/rooms/kick"@[k] by {
                    if k < 11 { assert(path@.take(11)[k] == "/api/rooms/"@[k]); }
                    else { assert(path@.skip(10)[k - 10] == "/kick"@[k - 10]); }
                }
            }
        }
        let code = uppercase(&slice(&path, 11, n - 5));
        return AdminRoute::Kick(string_of(&code));
    }
    assert(!(starts_with_lit(path@, "/api/rooms/"@) && ends_with_lit(path@, "/kick"@) && post)) by {
        if starts_with_lit(path@, "/api/rooms/"@) && ends_with_lit(path@, "/kick"@) && post {
            assert(path@.subrange(n - 5, n as int) =~= path@.skip(n - 5));
        }
    }
    if post && rooms_prefix && n >= 8 && eq_lit(&slice(&path, n - 8, n), "/message") {
        assert(path@.subrange(n - 8, n as int) =~= path@.skip(n - 8));
        if n < 19 {
            assert(path@[n - 8] == '/') by { assert(path@.skip(n - 8)[0] == "/message"@[0]); }
            assert(path@[n - 8] == "/api/rooms/"@[n - 8]) by { assert(path@.take(11)[n - 8] == path@[n - 8]); }
            assert(n == 18 || n == 12);
            if n == 12 {
                assert(path@[5] == "/message"@[1]) by { assert(path@.skip(4)[1] == "/message"@[1]); }
                assert(path@[5] == "/api/rooms/"@[5]) by { assert(path@.take(11)[5] == path@[5]); }
            }
            assert(path@ =~= "/api/rooms/message"@) by {
                assert forall|k: int| 0 <= k < path@.len() implies path@[k] == "/api/rooms/message"@[k] by {
                    if k < 11 { assert(path@.take(11)[k] == "/api/rooms/"@[k]); }
                    else { assert(path@.skip(10)[k - 10] == "/message"@[k - 10]); }
                }
            }
        }
        let code = uppercase(&slice(&path, 11, n - 8));
        return AdminRoute::Message(string_of(&code), head_of(&body, 200));
    }
    assert(!(starts_with_lit(path@, "/api/rooms/"@) && ends_with_lit(path@, "/message"@) && post)) by {
        if starts_with_lit(path@, "/api/rooms/"@) && ends_with_lit(path@, "/message"@) && post {
            assert(path@.subrange(n - 8, n as int) =~= path@.skip(n - 8));
        }
    }
    if post && eq_lit(&path, "/api/broadcast") {
        return AdminRoute::Broadcast(head_of(&body, 200));
    }
    if post && eq_lit(&path, "/api/note") {
        return AdminRoute::Note(head_of(&body, 500));
    }
    if post && eq_lit(&path, "/api/motd") {
        return AdminRoute::Motd(head_of(&body, 300));
    }
    if post && eq_lit(&path, "/api/clear-rooms") {
        return AdminRoute::ClearRooms;
    }
    AdminRoute::NotFound
}

// ── Answers ──────────────────────────────────────────────────────────────────

/// Texts joined with commas.
pub open spec fn join_comma(parts: Seq<Seq<char>>) -> Seq<char>
    decreases parts.len(),
{
    if parts.len() == 0 {
        Seq::empty()
    } else if parts.len() == 1 {
        parts[0]
    } else {
        join_comma(parts.drop_last()) + seq![','] + parts.last()
    }
}

/// One room as a JSON object.
pub open spec fn room_json_spec(r: RoomInfo) -> Seq<char> {
    "{\"code\":\""@ + r.code@ + "\",\"moves\":"@ + dec_spec(r.moves as nat) + ",\"white_conn\":"@ + bool_word(r.white_conn)
        + ",\"black_conn\":"@ + bool_word(r.black_conn) + ",\"white_name\":\""@ + json_esc_spec(r.white_name@)
        + "\",\"black_name\":\""@ + json_esc_spec(r.black_name@) + "\",\"started\":"@ + bool_word(r.started)
        + ",\"time_secs\":"@ + dec_spec(r.time_secs as nat) + ",\"chat_msgs\":"@ + dec_spec(r.chat_msgs as nat) + "}"@
}

fn push_bool(s: &mut String, b: bool)
    ensures final(s)@ == old(s)@ + bool_word(b),
{
    push_str(s, if b { "true" } else { "false" });
}

fn room_json(r: &RoomInfo) -> (s: String)
    ensures s@ == room_json_spec(*r),
{
    let mut s = owned("{\"code\":\"");
    push_str(&mut s, r.code.as_str());
    push_str(&mut s, "\",\"moves\":");
    push_dec(&mut s, r.moves as u64);
    push_str(&mut s, ",\"white_conn\":");
    push_bool(&mut s, r.white_conn);
    push_str(&mut s, ",\"black_conn\":");
    push_bool(&mut s, r.black_conn);
    push_str(&mut s, ",\"white_name\":\"");
    push_str(&mut s, esc_json(r.white_name.as_str()).as_str());
    push_str(&mut s, "\",\"black_name\":\"");
    push_str(&mut s, esc_json(r.black_name.as_str()).as_str());
    push_str(&mut s, "\",\"started\":");
    push_bool(&mut s, r.started);
    push_str(&mut s, ",\"time_secs\":");
    push_dec(&mut s, r.time_secs as u64);
    push_str(&mut s, ",\"chat_msgs\":");
    push_dec(&mut s, r.chat_msgs as u64);
    push_str(&mut s, "}");
    assert(s@ =~= room_json_spec(*r));
    s
}

/// The rooms as a JSON array.
pub open spec fn rooms_json_spec(rooms: Seq<RoomInfo>) -> Seq<char> {
    seq!['['] + join_comma(rooms.map_values(|r: RoomInfo| room_json_spec(r))) + seq![']']
}

pub fn json_rooms(rooms: &Vec<RoomInfo>) -> (s: String)
    ensures s@ == rooms_json_spec(rooms@),
{
    let ghost parts = rooms@.map_values(|r: RoomInfo| room_json_spec(r));
    let mut body = String::new();
    let mut i: usize = 0;
    assert(parts.take(0) =~= Seq::<Seq<char>>::empty());
    while i < rooms.len()
        invariant
            i <= rooms@.len(), parts == rooms@.map_values(|r: RoomInfo| room_json_spec(r)),
            body@ == join_comma(parts.take(i as int)),
        decreases rooms@.len() - i,
    {
        let ghost b0 = body@;
        if i > 0 {
            push_char(&mut body, ',');
        }
        push_str(&mut body, room_json(&rooms[i]).as_str());
        proof {
            assert(parts.take(i + 1).drop_last() =~= parts.take(i as int));
            if i == 0 { assert(parts.take(1) =~= seq![parts[0]]); }
        }
        assert(body@ =~= join_comma(parts.take(i + 1)));
        i += 1;
    }
    assert(parts.take(rooms@.len() as int) =~= parts);
    proof { reveal_strlit("["); }
    let mut s = owned("[");
    push_str(&mut s, body.as_str());
    push_char(&mut s, ']');
    assert(s@ =~= rooms_json_spec(rooms@));
    s
}

/// The server's counters as a JSON object.
pub open spec fn status_json_spec(server_name: Seq<char>, rooms: nat, games: nat, moves: nat, conns: nat, uptime: nat) -> Seq<char> {
    "{\"server_name\":\""@ + json_esc_spec(server_name) + "\",\"rooms\":"@ + dec_spec(rooms) + ",\"total_games\":"@
        + dec_spec(games) + ",\"total_moves\":"@ + dec_spec(moves) + ",\"total_conns\":"@ + dec_spec(conns)
        + ",\"uptime_secs\":"@ + dec_spec(uptime) + "}"@
}

pub fn json_status(server_name: &str, rooms: usize, total_games: u64, total_moves: u64, total_conns: u64, uptime_secs: u64)
    -> (s: String)
    ensures s@ == status_json_spec(server_name@, rooms as nat, total_games as nat, total_moves as nat, total_conns as nat, uptime_secs as nat),
{
    let mut s = owned("{\"server_name\":\"");
    push_str(&mut s, esc_json(server_name).as_str());
    push_str(&mut s, "\",\"rooms\":");
    push_dec(&mut s, rooms as u64);
    push_str(&mut s, ",\"total_games\":");
    push_dec(&mut s, total_games);
    push_str(&mut s, ",\"total_moves\":");
    push_dec(&mut s, total_moves);
    push_str(&mut s, ",\"total_conns\":");
    push_dec(&mut s, total_conns);
    push_str(&mut s, ",\"uptime_secs\":");
    push_dec(&mut s, uptime_secs);
    push_str(&mut s, "}");
    assert(s@ =~= status_json_spec(server_name@, rooms as nat, total_games as nat, total_moves as nat, total_conns as nat, uptime_secs as nat));
    s
}

/// The newest 100 log entries, newest first.
pub open spec fn recent_log(log: Seq<Seq<char>>, n: nat) -> Seq<Seq<char>> {
    let k = if log.len() > n { n as int } else { log.len() as int };
    Seq::new(k as nat, |i: int| log[log.len() - 1 - i])
}

/// The newest 100 log entries as a JSON array of strings, newest first.
pub open spec fn log_json_spec(log: Seq<Seq<char>>) -> Seq<char> {
    seq!['['] + join_comma(recent_log(log, 100).map_values(|l: Seq<char>| seq!['"'] + json_esc_spec(l) + seq!['"'])) + seq![']']
}

pub open spec fn texts(v: Seq<String>) -> Seq<Seq<char>> {
    v.map_values(|l: String| l@)
}

pub fn json_log(log: &Vec<String>) -> (s: String)
    ensures s@ == log_json_spec(texts(log@)),
{
    let ghost lv = texts(log@);
    let ghost parts = recent_log(lv, 100).map_values(|l: Seq<char>| seq!['"'] + json_esc_spec(l) + seq!['"']);
    let n = log.len();
    let k: usize = if n > 100 { 100 } else { n };
    let mut body = String::new();
    let mut i: usize = 0;
    assert(parts.take(0) =~= Seq::<Seq<char>>::empty());
    while i < k
        invariant
            i <= k, n == log@.len(), k == (if n > 100 { 100 } else { n }), lv == texts(log@),
            parts == recent_log(lv, 100).map_values(|l: Seq<char>| seq!['"'] + json_esc_spec(l) + seq!['"']),
            parts.len() == k,
            body@ == join_comma(parts.take(i as int)),
        decreases k - i,
    {
        if i > 0 {
            push_char(&mut body, ',');
        }
        push_char(&mut body, '"');
        push_str(&mut body, esc_json(log[n - 1 - i].as_str()).as_str());
        push_char(&mut body, '"');
        proof {
            assert(parts.take(i + 1).drop_last() =~= parts.take(i as int));
            if i == 0 { assert(parts.take(1) =~= seq![parts[0]]); }
            assert(parts[i as int] == seq!['"'] + json_esc_spec(lv[n - 1 - i]) + seq!['"']);
        }
        assert(body@ =~= join_comma(parts.take(i + 1)));
        i += 1;
    }
    assert(parts.take(k as int) =~= parts);
    proof { reveal_strlit("["); }
    let mut s = owned("[");
    push_str(&mut s, body.as_str());
    push_char(&mut s, ']');
    assert(s@ =~= log_json_spec(lv));
    s
}

pub open spec fn two_digits(n: nat) -> Seq<char> {
    (if n < 10 { seq!['0'] } else { Seq::empty() }) + dec_spec(n)
}

/// A log entry: the uptime as `[hh:mm:ss]` (hours may run past two digits), then the message.
pub open spec fn log_entry_spec(secs: u64, msg: Seq<char>) -> Seq<char> {
    seq!['['] + two_digits((secs / 3600) as nat) + seq![':'] + two_digits(((secs % 3600) / 60) as nat) + seq![':']
        + two_digits((secs % 60) as nat) + "] "@ + msg
}

pub fn log_entry(secs: u64, msg: &str) -> (s: String)
    ensures s@ == log_entry_spec(secs, msg@),
{
    proof { reveal_strlit("["); }
    let mut s = owned("[");
    push_dec2(&mut s, secs / 3600);
    push_char(&mut s, ':');
    push_dec2(&mut s, (secs % 3600) / 60);
    push_char(&mut s, ':');
    push_dec2(&mut s, secs % 60);
    push_str(&mut s, "] ");
    push_str(&mut s, msg);
    assert(s@ =~= log_entry_spec(secs, msg@));
    s
}

/// Adds an entry to the log, which keeps the newest 500.
pub fn push_log(log: &mut Vec<String>, entry: String)
    ensures
        texts(final(log)@) == (if old(log)@.len() >= 500 { texts(old(log)@).drop_first() } else { texts(old(log)@) }).push(entry@),
{
    let ghost l0 = texts(log@);
    if log.len() >= 500 {
        log.remove(0);
    }
    log.push(entry);
    assert(texts(log@) =~= (if l0.len() >= 500 { l0.drop_first() } else { l0 }).push(entry@));
}

/// The answer to a kick: the room's code and whether players were connected.
pub open spec fn kick_json_spec(code: Seq<char>, found: bool) -> Seq<char> {
    "{\"ok\":true,\"kicked\":\""@ + code + "\",\"had_players\":"@ + bool_word(found) + "}"@
}

pub fn kick_json(code: &str, found: bool) -> (s: String)
    ensures s@ == kick_json_spec(code@, found),
{
    let mut s = owned("{\"ok\":true,\"kicked\":\"");
    push_str(&mut s, code);
    push_str(&mut s, "\",\"had_players\":");
    push_bool(&mut s, found);
    push_str(&mut s, "}");
    assert(s@ =~= kick_json_spec(code@, found));
    s
}

/// A whole HTTP response: status line, headers (the body's length in bytes) and body.
pub open spec fn response_spec(status: Seq<char>, ct: Seq<char>, body: Seq<char>) -> Seq<char> {
    "HTTP/1.1 "@ + status + "\r\nContent-Type: "@ + ct + "; charset=utf-8\r\nContent-Length: "@
        + dec_spec(vstd::utf8::encode_utf8(body).len())
        + "\r\nAccess-Control-Allow-Origin: *\r\nCache-Control: no-cache\r\nConnection: close\r\n\r\n"@ + body
}

pub fn response_text(status: &str, ct: &str, body: &str) -> (s: String)
    ensures s@ == response_spec(status@, ct@, body@),
{
    let mut s = owned("HTTP/1.1 ");
    push_str(&mut s, status);
    push_str(&mut s, "\r\nContent-Type: ");
    push_str(&mut s, ct);
    push_str(&mut s, "; charset=utf-8\r\nContent-Length: ");
    let n = body.as_bytes().len();
    proof { broadcast use vstd::utf8::encode_utf8_decode_utf8; }
    push_dec(&mut s, n as u64);
    push_str(&mut s, "\r\nAccess-Control-Allow-Origin: *\r\nCache-Control: no-cache\r\nConnection: close\r\n\r\n");
    push_str(&mut s, body);
    assert(s@ =~= response_spec(status@, ct@, body@));
    s
}

// ── Dashboard pieces ─────────────────────────────────────────────────────────

pub open spec fn has_sub(s: Seq<char>, t: Seq<char>) -> bool {
    find_sub(s, t, 0) >= 0
}

/// A room's row on the dashboard: code, both players (a green dot when connected, the side's
/// name when unknown), moves, chat messages, whether it started, the time control, and kick
/// and message buttons.
pub open spec fn room_row_spec(r: RoomInfo) -> Seq<char> {
    let w = if r.white_conn { "\u{1f7e2}"@ } else { "\u{26aa}"@ };
    let b = if r.black_conn { "\u{1f7e2}"@ } else { "\u{26aa}"@ };
    let st = if r.started { "<span class='badge open'>active</span>"@ } else { "<span class='badge waiting'>waiting</span>"@ };
    let t = if r.time_secs == 0 { "\u{221e}"@ } else { dec_spec((r.time_secs / 60) as nat) + "m"@ };
    let wn = if r.white_name@.len() == 0 { "White"@ } else { html_esc_spec(r.white_name@) };
    let bn = if r.black_name@.len() == 0 { "Black"@ } else { html_esc_spec(r.black_name@) };
    "<tr><td><code>"@ + r.code@ + "</code></td><td>"@ + w + " "@ + wn + "</td><td>"@ + b + " "@ + bn
        + "</td><td class='num'>"@ + dec_spec(r.moves as nat) + "</td><td class='num'>"@ + dec_spec(r.chat_msgs as nat)
        + "</td><td>"@ + st + "</td><td>"@ + t + "+"@ + dec_spec(r.inc_secs as nat)
        + "s</td><td class='actions'><button class='btn btn-kick' onclick=\"kickRoom('"@ + r.code@
        + "')\">\u{26a1} Kick</button><button class='btn btn-msg' onclick=\"msgRoom('"@ + r.code@
        + "')\">\u{1f4e8} Msg</button></td></tr>"@
}

pub fn room_row(r: &RoomInfo) -> (s: String)
    ensures s@ == room_row_spec(*r),
{
    let mut s = owned("<tr><td><code>");
    push_str(&mut s, r.code.as_str());
    push_str(&mut s, "</code></td><td>");
    push_str(&mut s, if r.white_conn { "\u{1f7e2}" } else { "\u{26aa}" });
    push_str(&mut s, " ");
    if r.white_name.as_str().as_bytes().len() == 0 {
        push_str(&mut s, "White");
    } else {
        push_str(&mut s, html_esc(r.white_name.as_str()).as_str());
    }
    push_str(&mut s, "</td><td>");
    push_str(&mut s, if r.black_conn { "\u{1f7e2}" } else { "\u{26aa}" });
    push_str(&mut s, " ");
    if r.black_name.as_str().as_bytes().len() == 0 {
        push_str(&mut s, "Black");
    } else {
        push_str(&mut s, html_esc(r.black_name.as_str()).as_str());
    }
    push_str(&mut s, "</td><td class='num'>");
    push_dec(&mut s, r.moves as u64);
    push_str(&mut s, "</td><td class='num'>");
    push_dec(&mut s, r.chat_msgs as u64);
    push_str(&mut s, "</td><td>");
    push_str(&mut s, if r.started { "<span class='badge open'>active</span>" } else { "<span class='badge waiting'>waiting</span>" });
    push_str(&mut s, "</td><td>");
    if r.time_secs == 0 {
        push_str(&mut s, "\u{221e}");
    } else {
        push_dec(&mut s, (r.time_secs / 60) as u64);
        push_str(&mut s, "m");
    }
    push_str(&mut s, "+");
    push_dec(&mut s, r.inc_secs as u64);
    push_str(&mut s, "s</td><td class='actions'><button class='btn btn-kick' onclick=\"kickRoom('");
    push_str(&mut s, r.code.as_str());
    push_str(&mut s, "')\">\u{26a1} Kick</button><button class='btn btn-msg' onclick=\"msgRoom('");
    push_str(&mut s, r.code.as_str());
    push_str(&mut s, "')\">\u{1f4e8} Msg</button></td></tr>");
    proof {
        broadcast use vstd::utf8::encode_utf8_decode_utf8;
    }
    assert(s@ =~= room_row_spec(*r));
    s
}

/// The colour a log entry is shown in: kicks red, disconnects and expiries yellow, new
/// rooms green, messages purple, anything else dim.
pub open spec fn log_colour(l: Seq<char>) -> Seq<char> {
    if has_sub(l, "KICK"@) || has_sub(l, "kick"@) { "var(--red)"@ }
    else if has_sub(l, "disconnect"@) || has_sub(l, "expire"@) { "var(--yellow)"@ }
    else if has_sub(l, "started"@) || has_sub(l, "created"@) { "var(--green)"@ }
    else if has_sub(l, "broadcast"@) || has_sub(l, "message"@) { "var(--purple)"@ }
    else { "var(--dim)"@ }
}

pub open spec fn log_row_spec(l: Seq<char>) -> Seq<char> {
    "<div class='ll' style='color:"@ + log_colour(l) + "'>"@ + html_esc_spec(l) + "</div>"@
}

pub fn log_row(l: &str) -> (s: String)
    ensures s@ == log_row_spec(l@),
{
    let lc = chars_of(l);
    let col = if find_sub_in(&lc, "KICK").is_some() || find_sub_in(&lc, "kick").is_some() {
        "var(--red)"
    } else if find_sub_in(&lc, "disconnect").is_some() || find_sub_in(&lc, "expire").is_some() {
        "var(--yellow)"
    } else if find_sub_in(&lc, "started").is_some() || find_sub_in(&lc, "created").is_some() {
        "var(--green)"
    } else if find_sub_in(&lc, "broadcast").is_some() || find_sub_in(&lc, "message").is_some() {
        "var(--purple)"
    } else {
        "var(--dim)"
    };
    let mut s = owned("<div class='ll' style='color:");
    push_str(&mut s, col);
    push_str(&mut s, "'>");
    push_str(&mut s, html_esc(l).as_str());
    push_str(&mut s, "</div>");
    assert(s@ =~= log_row_spec(l@));
    s
}

} // verus!
