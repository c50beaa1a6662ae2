use rchess::relay::{RoomOptions, Rooms, Session, RelayAction, relay_line, disconnect, room_expired, fresh_room_code, welcome_lines, line_total};
use rchess::auth::{check_password, token_from, room_code_from, encode_invite, decode_invite, RateLimiter};
use rchess::admin::{esc_json, html_esc, route_admin_request, admin_request_total, AdminRoute, RoomInfo, json_rooms, json_status,
    json_log, log_entry, push_log, kick_json, response_text, room_row, log_row};
use rchess::room_chat::{RoomChat, sanitise};
use rchess::server_config::ServerConfig;

fn replies(acts: &[RelayAction]) -> Vec<String> {
    acts.iter().filter_map(|a| match a { RelayAction::Reply(s) => Some(s.clone()), _ => None }).collect()
}

fn to_opponent(acts: &[RelayAction]) -> Vec<String> {
    acts.iter().filter_map(|a| match a { RelayAction::ToOpponent(s) => Some(s.clone()), _ => None }).collect()
}

fn line(s: &mut Session, rooms: &mut Rooms, pw: &Option<String>, l: &str, token: &str, code: &str) -> Vec<RelayAction> {
    assert!(line_total(s, l, false));
    relay_line(s, rooms, pw, 10, 9001, "example.org", l, false, token, code, 0)
}

#[test]
fn room_options_wire_round_trip() {
    let o = RoomOptions { time_secs: 600, increment_secs: 3, undo_allowed: true, engine_during: false };
    assert_eq!(o.to_wire(), "time=600,inc=3,undo=true,engine=false");
    assert_eq!(RoomOptions::from_wire(&o.to_wire()), o);
    let p = RoomOptions::from_wire(" time = 90 , inc=x, engine=true, other=1");
    assert_eq!(p, RoomOptions { time_secs: 90, increment_secs: 0, undo_allowed: false, engine_during: true });
}

#[test]
fn password_is_checked_first() {
    let pw = Some("secret".to_string());
    let mut rooms = Rooms::new();
    let mut s = Session::new(true);
    let a = line(&mut s, &mut rooms, &pw, "CREATE:time=60", "T", "C");
    assert_eq!(replies(&a), vec!["ERROR:Authentication required. Send AUTH:<password>"]);
    let a = line(&mut s, &mut rooms, &pw, "AUTH:wrong", "T", "C");
    assert_eq!(replies(&a), vec!["ERROR:Wrong server password"]);
    assert!(!s.authed);
    let a = line(&mut s, &mut rooms, &pw, "AUTH: secret ", "T", "C");
    assert_eq!(replies(&a), vec!["AUTH_OK"]);
    assert!(s.authed);
    let a = line(&mut s, &mut rooms, &pw, "PING", "T", "C");
    assert_eq!(replies(&a), vec!["PONG"]);
}

#[test]
fn create_join_move_and_resign() {
    let mut rooms = Rooms::new();
    let mut w = Session::new(false);
    let mut b = Session::new(false);
    let a = line(&mut w, &mut rooms, &None, "NAME:Ann!", "T", "C");
    assert_eq!(replies(&a), vec!["NAME_ACK:Ann"]);
    let a = line(&mut w, &mut rooms, &None, "CREATE:time=300,inc=2", "wtok", "ABC234");
    assert_eq!(replies(&a), vec!["ROOM:ABC234".to_string(), "TOKEN:wtok".to_string(),
        format!("INVITE:{}", encode_invite("example.org", 9001, "ABC234"))]);
    assert!(matches!(a.last(), Some(RelayAction::Created)));
    assert_eq!(rooms.len(), 1);
    assert_eq!(w.room_code, "ABC234");
    assert_eq!(w.my_color, "white");

    let a = line(&mut b, &mut rooms, &None, "JOIN:abc234", "btok", "ZZZ");
    assert_eq!(replies(&a), vec!["JOINED:black", "TOKEN:btok", "LOBBY:time=300,inc=2,undo=false,engine=false", "START"]);
    assert_eq!(to_opponent(&a), vec!["JOINED:white", "START"]);
    assert_eq!(b.my_color, "black");

    let a = line(&mut w, &mut rooms, &None, "MOVE: e2e4 ", "T", "C");
    assert_eq!(to_opponent(&a), vec!["MOVE:e2e4"]);
    assert_eq!(rooms.entries[0].1.moves, vec!["e2e4"]);

    let a = line(&mut b, &mut rooms, &None, "DRAW", "T", "C");
    assert_eq!(to_opponent(&a), vec!["DRAW_OFFER"]);
    let a = line(&mut b, &mut rooms, &None, "RESIGN", "T", "C");
    assert_eq!(to_opponent(&a), vec!["RESIGNED"]);
    assert!(matches!(a[a.len() - 2], RelayAction::Cleanup));
    assert!(matches!(a[a.len() - 1], RelayAction::Close));
    assert_eq!(rooms.len(), 0);
}

#[test]
fn join_errors() {
    let mut rooms = Rooms::new();
    let mut s = Session::new(false);
    let a = line(&mut s, &mut rooms, &None, "JOIN:NOPE", "t", "c");
    assert_eq!(replies(&a), vec!["ERROR:Room not found"]);
    let a = line(&mut s, &mut rooms, &None, "CHAT:hello", "t", "c");
    assert_eq!(replies(&a), vec!["ERROR:Not in a room"]);
    let a = line(&mut s, &mut rooms, &None, "REJOIN:ABC", "t", "c");
    assert_eq!(replies(&a), vec!["ERROR:REJOIN format: REJOIN:<code>:<white|black>:<token>"]);
    let a = line(&mut s, &mut rooms, &None, "REJOIN:ABC:white:x", "t", "c");
    assert_eq!(replies(&a), vec!["ERROR:Room not found or expired"]);
    let a = line(&mut s, &mut rooms, &None, "   ", "t", "c");
    assert!(a.is_empty());
}

#[test]
fn full_room_refuses_a_third_player() {
    let mut rooms = Rooms::new();
    let mut w = Session::new(false);
    let mut b = Session::new(false);
    let mut c = Session::new(false);
    line(&mut w, &mut rooms, &None, "CREATE:", "w", "QQQ");
    line(&mut b, &mut rooms, &None, "JOIN:QQQ", "b", "x");
    let a = line(&mut c, &mut rooms, &None, "JOIN:QQQ", "c", "y");
    assert_eq!(replies(&a), vec!["ERROR:Room is full \u{2014} use REJOIN if you disconnected"]);
}

#[test]
fn rejoin_needs_the_token() {
    let mut rooms = Rooms::new();
    let mut w = Session::new(false);
    line(&mut w, &mut rooms, &None, "CREATE:", "wtok", "RRR");
    line(&mut w, &mut rooms, &None, "MOVE:e2e4", "t", "c");
    let d = disconnect(&w, &mut rooms);
    assert!(d.is_empty());
    assert!(!rooms.entries[0].1.white_conn);
    let mut again = Session::new(false);
    let a = line(&mut again, &mut rooms, &None, "REJOIN:rrr:WHITE:bad", "new", "c");
    assert!(matches!(a.as_slice(), [RelayAction::Abort]));
    let a = line(&mut again, &mut rooms, &None, "REJOIN:rrr:WHITE:wtok", "new", "c");
    assert_eq!(replies(&a), vec!["RECONNECTED:white:e2e4", "LOBBY:time=0,inc=0,undo=false,engine=false"]);
    assert_eq!(rooms.entries[0].1.white_token, Some("new".to_string()));
    assert!(rooms.entries[0].1.white_conn);
}

#[test]
fn chat_is_cleaned_echoed_and_kept() {
    let mut rooms = Rooms::new();
    let mut w = Session::new(false);
    let mut b = Session::new(false);
    line(&mut w, &mut rooms, &None, "CREATE:", "w", "CCC");
    line(&mut b, &mut rooms, &None, "JOIN:CCC", "b", "x");
    let a = line(&mut w, &mut rooms, &None, "CHAT: good:game\u{e9}! ", "t", "c");
    assert_eq!(replies(&a), vec!["CHAT:white:goodgame!"]);
    assert_eq!(to_opponent(&a), vec!["CHAT:white:goodgame!"]);
    assert_eq!(rooms.entries[0].1.chat_history, vec![("white".to_string(), "goodgame!".to_string())]);
    let a = line(&mut w, &mut rooms, &None, "CHAT:\u{e9}\u{e9}", "t", "c");
    assert!(a.is_empty());
}

#[test]
fn undo_takes_back_two_moves() {
    let mut rooms = Rooms::new();
    let mut w = Session::new(false);
    line(&mut w, &mut rooms, &None, "CREATE:", "w", "UUU");
    for m in ["MOVE:e2e4", "MOVE:e7e5", "MOVE:g1f3"] {
        line(&mut w, &mut rooms, &None, m, "t", "c");
    }
    line(&mut w, &mut rooms, &None, "UNDO_ACCEPT", "t", "c");
    assert_eq!(rooms.entries[0].1.moves, vec!["e2e4"]);
    let a = line(&mut w, &mut rooms, &None, "BOGUS_COMMAND_THAT_IS_LONGER_THAN_THIRTY_TWO_BYTES", "t", "c");
    assert_eq!(replies(&a), vec!["ERROR:Unknown command: BOGUS_COMMAND_THAT_IS_LONGER_THA"]);
}

#[test]
fn admin_kick_closes_the_room() {
    let mut rooms = Rooms::new();
    let mut w = Session::new(false);
    let mut b = Session::new(false);
    line(&mut w, &mut rooms, &None, "CREATE:", "w", "KKK");
    line(&mut b, &mut rooms, &None, "JOIN:KKK", "b", "x");
    let a = relay_line(&mut w, &mut rooms, &None, 10, 9001, "h", "PING", true, "t", "c", 0);
    assert_eq!(replies(&a), vec!["KICKED:Admin disconnected this room"]);
    assert_eq!(to_opponent(&a), vec!["KICKED:Admin disconnected this room"]);
    assert_eq!(rooms.len(), 0);
}

#[test]
fn server_full_and_expiry() {
    let mut rooms = Rooms::new();
    let mut s = Session::new(false);
    let a = relay_line(&mut s, &mut rooms, &None, 0, 9001, "h", "CREATE:", false, "t", "c", 0);
    assert_eq!(replies(&a), vec!["ERROR:Server full. Try again later."]);
    assert!(room_expired(&rooms, "NONE"));
    let mut w = Session::new(false);
    line(&mut w, &mut rooms, &None, "CREATE:", "w", "EEE");
    assert!(!room_expired(&rooms, "EEE"));
    disconnect(&w, &mut rooms);
    assert!(room_expired(&rooms, "EEE"));
    let c = fresh_room_code(&rooms, 7).expect("a free code");
    assert_ne!(c, "EEE");
    assert_eq!(c.len(), 6);
}

#[test]
fn welcome_lines_name_the_server() {
    assert_eq!(welcome_lines("", "RChess Server", 3), vec!["SERVER_INFO:name=RChess Server,version=2.0,rooms=3"]);
    assert_eq!(welcome_lines("hi", "S", 0), vec!["MOTD:hi", "SERVER_INFO:name=S,version=2.0,rooms=0"]);
}

#[test]
fn passwords_compare_exactly() {
    assert!(check_password("abc", "abc"));
    assert!(!check_password("abc", "abd"));
    assert!(!check_password("abc", "abcd"));
    assert!(check_password("", ""));
}

#[test]
fn tokens_and_codes_from_their_seeds() {
    assert_eq!(token_from(0, 1), "00000000000000014b0fe61dd2b91376");
    assert_eq!(token_from(5, 7), "1715609f7c746c70b4c8ebac9b3e7714");
    assert_eq!(room_code_from(0, 1), "7B4UAE");
    assert_eq!(room_code_from(123, 4), "XUFHED");
}

#[test]
fn invite_links_round_trip() {
    assert_eq!(encode_invite("localhost", 9001, "ABCDEF"), "rc1:bG9jYWxob3N0OjkwMDE6QUJDREVG");
    assert_eq!(encode_invite("10.0.0.5", 9001, "xyz12"), "rc1:MTAuMC4wLjU6OTAwMTp4eXoxMg");
    assert_eq!(decode_invite(" rc1:bG9jYWxob3N0OjkwMDE6QUJDREVG "),
        Some(("localhost".to_string(), 9001, "ABCDEF".to_string())));
    assert_eq!(decode_invite(&encode_invite("::1", 80, "abc")), Some(("::1".to_string(), 80, "ABC".to_string())));
    assert_eq!(decode_invite("rc2:abc"), None);
    assert_eq!(decode_invite("rc1:!!!"), None);
}

#[test]
fn rate_limiter_counts_per_key_and_window() {
    let mut r = RateLimiter::new(2, 60);
    assert!(r.check_at("1.2.3.4", 0));
    assert!(r.check_at("1.2.3.4", 1_000));
    assert!(!r.check_at("1.2.3.4", 2_000));
    assert!(r.check_at("5.6.7.8", 2_000));
    assert!(r.check_at("1.2.3.4", 61_000));
}

#[test]
fn chat_messages_are_cleaned_and_rated() {
    assert_eq!(sanitise("a:b\u{e9}c\td"), "abcd");
    let mut c = RoomChat::new();
    assert_eq!(c.process_at("white", "hello", 0), Some("hello".to_string()));
    assert_eq!(c.process_at("white", "two\nlines", 0), None);
    assert_eq!(c.process_at("white", "", 0), None);
    for _ in 0..27 {
        assert!(c.process_at("white", "x", 10).is_some());
    }
    assert_eq!(c.process_at("white", "over", 20), None);
    assert_eq!(c.process_at("black", "fine", 20), Some("fine".to_string()));
    assert_eq!(c.message_count, 29);
}

#[test]
fn json_and_html_escaping() {
    assert_eq!(esc_json("a\"b\\c\nd"), "a\\\"b\\\\c\\nd");
    assert_eq!(html_esc("<a href=\"x\">&</a>"), "&lt;a href=&quot;x&quot;&gt;&amp;&lt;/a&gt;");
}

fn info() -> RoomInfo {
    RoomInfo {
        code: "ABC".to_string(), moves: 4, white_conn: true, black_conn: false, white_name: "A\"n".to_string(),
        black_name: String::new(), time_secs: 120, inc_secs: 2, undo: false, engine: false, started: true, chat_msgs: 1,
    }
}

#[test]
fn admin_json_answers() {
    assert_eq!(json_rooms(&vec![]), "[]");
    assert_eq!(json_rooms(&vec![info()]),
        "[{\"code\":\"ABC\",\"moves\":4,\"white_conn\":true,\"black_conn\":false,\"white_name\":\"A\\\"n\",\"black_name\":\"\",\"started\":true,\"time_secs\":120,\"chat_msgs\":1}]");
    assert_eq!(json_status("S", 1, 2, 3, 4, 5),
        "{\"server_name\":\"S\",\"rooms\":1,\"total_games\":2,\"total_moves\":3,\"total_conns\":4,\"uptime_secs\":5}");
    assert_eq!(json_log(&vec!["a".to_string(), "b".to_string()]), "[\"b\",\"a\"]");
    assert_eq!(kick_json("ABC", true), "{\"ok\":true,\"kicked\":\"ABC\",\"had_players\":true}");
    assert_eq!(log_entry(3725, "hi"), "[01:02:05] hi");
    assert_eq!(response_text("200 OK", "text/plain", "h\u{e9}"),
        "HTTP/1.1 200 OK\r\nContent-Type: text/plain; charset=utf-8\r\nContent-Length: 3\r\nAccess-Control-Allow-Origin: *\r\nCache-Control: no-cache\r\nConnection: close\r\n\r\nh\u{e9}");
}

#[test]
fn admin_log_keeps_five_hundred() {
    let mut log: Vec<String> = Vec::new();
    for i in 0..505 {
        push_log(&mut log, format!("e{}", i));
    }
    assert_eq!(log.len(), 500);
    assert_eq!(log[0], "e5");
    assert_eq!(log[499], "e504");
}

#[test]
fn admin_dashboard_pieces() {
    let row = room_row(&info());
    assert!(row.starts_with("<tr><td><code>ABC</code></td><td>\u{1f7e2} A&quot;n</td><td>\u{26aa} Black</td>"));
    assert!(row.contains("<td>2m+2s</td>"));
    assert_eq!(log_row("[room] KICKED x"), "<div class='ll' style='color:var(--red)'>[room] KICKED x</div>");
    assert_eq!(log_row("plain <b>"), "<div class='ll' style='color:var(--dim)'>plain &lt;b&gt;</div>");
}

#[test]
fn admin_requests_are_routed() {
    let pw = Some("s3".to_string());
    assert!(matches!(route_admin_request("GET / HTTP/1.1\r\n\r\n", &pw), AdminRoute::Unauthorized));
    assert!(matches!(route_admin_request("GET /?pw=s3 HTTP/1.1\r\n\r\n", &pw), AdminRoute::Dashboard));
    assert!(matches!(route_admin_request("GET /api/rooms HTTP/1.1\r\nAuthorization: Bearer s3\r\n\r\n", &pw), AdminRoute::Rooms));
    match route_admin_request("POST /api/rooms/abc/kick?pw=s3 HTTP/1.1\r\n\r\n", &pw) {
        AdminRoute::Kick(code) => assert_eq!(code, "ABC"),
        other => panic!("unexpected {:?}", other),
    }
    match route_admin_request("POST /api/rooms/xy/message HTTP/1.1\r\n\r\npw=s3 hello", &pw) {
        AdminRoute::Message(code, msg) => { assert_eq!(code, "XY"); assert_eq!(msg, "pw=s3 hello"); }
        other => panic!("unexpected {:?}", other),
    }
    assert!(matches!(route_admin_request("DELETE /api/log HTTP/1.1\r\n\r\n", &None), AdminRoute::NotFound));
    assert!(matches!(route_admin_request("", &None), AdminRoute::Dashboard));
    assert!(!admin_request_total("POST /api/rooms/kick HTTP/1.1\r\n\r\n", &None));
    assert!(admin_request_total("POST /api/rooms/A/kick HTTP/1.1\r\n\r\n", &None));
}

#[test]
fn server_settings_from_text() {
    let mut c = ServerConfig::default();
    c.apply_toml("# comment\nport = \"9100\"\nserver_password = \"\"\nadmin_password = pw\nmax_rooms = x\nname_ignored = 1\n");
    assert_eq!(c.port, 9100);
    assert_eq!(c.server_password, None);
    assert_eq!(c.admin_password, Some("pw".to_string()));
    assert_eq!(c.max_rooms, 200);
    assert_eq!(c.link_host(None), "localhost");
    assert_eq!(c.link_host(Some("192.168.1.2".to_string())), "192.168.1.2");
    c.public_host = "chess.example".to_string();
    assert_eq!(c.link_host(None), "chess.example");
}
