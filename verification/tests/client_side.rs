use rchess::network::{parse_server_line, NetClient, NetCmd, NetMsg};
use rchess::chat::{ChatState, ChatKey, ChatKeyResult, Sender, encrypt, decrypt, hex_nibble};
use rchess::analysis::{mv_to_uci, replay_uci, parse_score, analyse_builtin, EngineReply, position_before, position_after,
    engine_verdict, skill_option, uci_to_mv, uci_move_total};
use rchess::engine::{start_board, Color, Kind, Mv, Status, Castle};
use rchess::game::{Gs, GameEnd, ClockState, HistEntry};
use rchess::config::TimeControl;
use rchess::play::{result_text, history_uci, check_is_book_move};
use rchess::ui_text::{trunc, center_str, piece_block_row, status_text};

fn sent(c: &NetClient) -> Vec<String> {
    c.outbox.iter().map(|m| match m { NetCmd::Raw(s) => s.clone(), NetCmd::Disconnect => "<disconnect>".to_string() }).collect()
}

#[test]
fn server_lines_are_read() {
    assert!(matches!(parse_server_line("ROOM: ABC123 "), NetMsg::RoomCreated(ref c) if c == "ABC123"));
    assert!(matches!(parse_server_line("JOINED:White"), NetMsg::Joined { ref color } if color == "white"));
    assert!(matches!(parse_server_line("START"), NetMsg::Start));
    assert!(matches!(parse_server_line("MOVE:e7e5"), NetMsg::OpponentMove(ref m) if m == "e7e5"));
    assert!(matches!(parse_server_line("DRAW_OFFER"), NetMsg::DrawOffer));
    assert!(matches!(parse_server_line("RESIGNED"), NetMsg::OpponentResigned));
    assert!(matches!(parse_server_line("ERROR: Room not found"), NetMsg::Error(ref e) if e == "Room not found"));
    assert!(matches!(parse_server_line("SOMETHING_ELSE"), NetMsg::Pong));
}

#[test]
fn client_queues_commands() {
    let mut c = NetClient::new();
    c.send_create();
    c.send_join("ABC");
    c.send_move("e2e4");
    c.send_draw_offer();
    c.send_resign();
    c.send_ping();
    c.disconnect();
    assert_eq!(sent(&c), vec!["CREATE", "JOIN:ABC", "MOVE:e2e4", "DRAW", "RESIGN", "PING", "<disconnect>"]);
    assert!(!c.connected);
    c.inbox.push(NetMsg::Start);
    let got = c.drain();
    assert_eq!(got.len(), 1);
    assert!(c.inbox.is_empty());
}

#[test]
fn chat_encryption_round_trip() {
    assert_eq!(encrypt("hi", "ABCDEF"), "2675");
    assert_eq!(encrypt("hello world", "XYZ123"), "4fa1b70e17fe03996c533f");
    assert_eq!(decrypt("2675", "ABCDEF"), Some("hi".to_string()));
    assert_eq!(decrypt(&encrypt("caf\u{e9} :)", "ROOM42"), "ROOM42"), Some("caf\u{e9} :)".to_string()));
    assert_eq!(encrypt("plain", ""), "plain");
    assert_eq!(decrypt("plain", ""), Some("plain".to_string()));
    assert_eq!(hex_nibble(b'a'), 10);
    assert_eq!(hex_nibble(b'F'), 15);
    assert_eq!(hex_nibble(b'7'), 7);
}

#[test]
fn chat_panel_keys() {
    let mut c = ChatState::new();
    assert!(matches!(c.handle_key(ChatKey::Char('x')), ChatKeyResult::Ignored));
    assert!(!c.focused);
    c.push_opponent("hey".to_string());
    assert!(c.has_unread());
    assert_eq!(c.badge(), " [1]");
    assert!(matches!(c.handle_key(ChatKey::Char('c')), ChatKeyResult::Opened));
    assert!(c.focused && !c.has_unread());
    assert_eq!(c.badge(), " [chat]");
    for ch in " hi!".chars() {
        c.handle_key(ChatKey::Char(ch));
    }
    c.handle_key(ChatKey::Backspace);
    match c.handle_key(ChatKey::Enter) {
        ChatKeyResult::Send(t) => assert_eq!(t, "hi"),
        other => panic!("unexpected {:?}", other),
    }
    assert!(c.input.is_empty());
    assert!(matches!(c.handle_key(ChatKey::Enter), ChatKeyResult::Ignored));
    assert!(matches!(c.handle_key(ChatKey::Esc), ChatKeyResult::Closed));
    assert!(!c.focused);
    assert_eq!(Sender::Opponent.label(), "Opp");
}

#[test]
fn chat_log_is_capped() {
    let mut c = ChatState::new();
    for i in 0..305 {
        c.push_me(format!("m{}", i));
    }
    assert_eq!(c.messages.len(), 300);
    assert_eq!(c.messages[0].text, "m5");
}

#[test]
fn uci_text_of_moves() {
    let m = Mv { fr: (6, 4), to: (4, 4), promo: None, ep: false, castle: 0 };
    assert_eq!(mv_to_uci(&m), "e2e4");
    let p = Mv { fr: (1, 0), to: (0, 0), promo: Some(Kind::N), ep: false, castle: 0 };
    assert_eq!(mv_to_uci(&p), "a7a8n");
}

#[test]
fn replaying_uci_moves() {
    let (b, turn, ep, _) = replay_uci("e2e4 e7e5 zz g1f3");
    assert!(matches!(turn, Color::Black));
    assert_eq!(ep, None);
    assert!(b[5][5].is_some());
    assert!(b[4][4].is_some() && b[3][4].is_some());
    let (b0, t0, _, _) = replay_uci("");
    assert_eq!(b0, start_board());
    assert!(matches!(t0, Color::White));
}

#[test]
fn engine_scores() {
    assert_eq!(parse_score("info depth 10 score cp 35 pv e2e4"), Some(35));
    assert_eq!(parse_score("info depth 10 score cp -120"), Some(-120));
    assert_eq!(parse_score("info score mate 3 pv a1a2"), Some(30000));
    assert_eq!(parse_score("info score mate -2"), Some(-30000));
    assert_eq!(parse_score("info depth 3"), None);
    assert_eq!(parse_score("info score lowerbound 10"), None);
}

#[test]
fn engine_reply_collects_lines() {
    let mut r = EngineReply::new();
    assert!(!r.feed("info depth 12 multipv 1 score cp 40 pv e2e4 e7e5"));
    assert!(!r.feed("info depth 12 multipv 2 score cp 25 pv d2d4"));
    assert!(!r.feed("info depth 12 multipv 3 score mate 5 pv g1f3"));
    assert!(!r.feed("info depth 13 multipv 2 score cp 30 pv c2c4"));
    assert!(!r.feed("readyok"));
    assert!(r.feed("bestmove e2e4 ponder e7e5"));
    let (best, mv, top) = r.result();
    assert_eq!(best, 40);
    assert_eq!(mv, Some("e2e4".to_string()));
    assert_eq!(top, vec![("e2e4".to_string(), 40), ("c2c4".to_string(), 30), ("g1f3".to_string(), 30000)]);
    let mut none = EngineReply::new();
    assert!(none.feed("bestmove (none)"));
    assert_eq!(none.result(), (0, None, vec![]));
    let mut only = EngineReply::new();
    only.feed("bestmove a2a3");
    assert_eq!(only.result(), (0, Some("a2a3".to_string()), vec![("a2a3".to_string(), 0)]));
}

#[test]
fn engine_commands_and_verdict() {
    assert_eq!(position_before("  "), "position startpos");
    assert_eq!(position_before(" e2e4 e7e5 "), "position startpos moves e2e4 e7e5");
    assert_eq!(position_after(""), "position startpos moves ");
    assert_eq!(skill_option(7), "setoption name Skill Level value 7");
    assert_eq!(skill_option(99), "setoption name Skill Level value 20");
    let v = engine_verdict(3, Color::Black, (50, Some("e7e5".to_string()), vec![("e7e5".to_string(), 50)]), 20);
    assert_eq!((v.move_idx, v.eval_before_cp, v.eval_after_cp), (3, -50, 20));
    assert_eq!(v.top_moves, vec![("e7e5".to_string(), -50)]);
    assert_eq!(v.best_move_uci, Some("e7e5".to_string()));
    let w = engine_verdict(0, Color::White, (10, None, vec![]), 15);
    assert_eq!((w.eval_before_cp, w.eval_after_cp), (10, -15));
}

#[test]
fn engine_moves_are_read() {
    let m = uci_to_mv("e7e8Q").unwrap();
    assert_eq!((m.fr, m.to), ((1, 4), (0, 4)));
    assert!(matches!(m.promo, Some(Kind::Q)));
    assert!(uci_to_mv("e2").is_none());
    assert!(uci_to_mv("z2e4").is_none());
    assert!(uci_move_total("e2e4"));
    assert!(!uci_move_total("e9e4"));
}

#[test]
fn builtin_analysis_of_the_first_move() {
    let r = analyse_builtin(0, "", "e2e4", Color::White, 1);
    assert_eq!(r.move_idx, 0);
    assert_eq!(r.top_moves.len(), 3);
    assert!(r.best_move_uci.is_some());
    assert_eq!(r.best_move_uci.clone().unwrap(), r.top_moves[0].0);
    assert_eq!(r.eval_before_cp, r.top_moves[0].1);
}

#[test]
fn clocks_tick_down_and_flag() {
    let mut g = Gs::new(TimeControl::Bullet);
    assert!(!g.tick_clock(1_000));
    assert_eq!(g.white_ms, Some(60_000));
    g.clock_state = ClockState::Running;
    assert!(!g.tick_clock(1_000));
    assert_eq!(g.white_ms, Some(59_000));
    assert_eq!(g.black_ms, Some(60_000));
    assert!(g.tick_clock(100_000));
    assert_eq!(g.white_ms, Some(0));
    assert!(matches!(g.clock_state, ClockState::Flagged));
}

#[test]
fn end_of_game_texts() {
    assert_eq!(result_text(GameEnd::Flag, Status::Active, Color::White), "BLACK wins on time");
    assert_eq!(result_text(GameEnd::Normal, Status::Checkmate, Color::Black), "WHITE wins");
    assert_eq!(result_text(GameEnd::Draw, Status::Active, Color::White), "\u{bd}-\u{bd} Draw");
    assert_eq!(result_text(GameEnd::Normal, Status::Active, Color::White), "");
    assert_eq!(status_text(Status::Check, GameEnd::Normal, ClockState::Running, false, Color::White), "\u{26a0} CHECK \u{2014} WHITE TO MOVE");
    assert_eq!(status_text(Status::Active, GameEnd::Normal, ClockState::Running, true, Color::White), "\u{23f3} THINKING...");
    assert_eq!(status_text(Status::Active, GameEnd::Normal, ClockState::Flagged, false, Color::Black), "\u{23f0} FLAG \u{2014} WHITE WINS");
    assert_eq!(status_text(Status::Stalemate, GameEnd::Draw, ClockState::Running, false, Color::Black), "\u{bd} DRAW AGREED");
}

fn h(n: &str) -> HistEntry {
    HistEntry { notation: n.to_string(), san: n.to_string(), color: Color::White, from: (0, 0), to: (0, 0), move_time_ms: 0 }
}

#[test]
fn moves_for_the_analysis_engine() {
    let hist = vec![h("e2e4"), h("e7e5"), h("d1h5+"), h("b8c6#")];
    assert_eq!(history_uci(&hist, 0), "");
    assert_eq!(history_uci(&hist, 2), "e2e4 e7e5");
    assert_eq!(history_uci(&hist, 4), "e2e4 e7e5 d1h5 b8c6");
}

#[test]
fn book_moves_are_recognised() {
    let b = start_board();
    let first = rchess::book::book_move(&Vec::new(), &b, Color::White, None, &Castle::all()).unwrap();
    let uci = mv_to_uci(&first);
    assert!(check_is_book_move(&vec![h(&uci)], 0, &b, None, &Castle::all()));
    assert!(!check_is_book_move(&vec![], 0, &b, None, &Castle::all()));
}

#[test]
fn labels_cut_and_centred() {
    assert_eq!(trunc("short", 10), "short");
    assert_eq!(trunc("a long label", 6), "a lo..");
    assert_eq!(trunc("abc", 1), "..");
    assert_eq!(center_str("ab", 6), "  ab  ");
    assert_eq!(center_str("abc", 6), " abc  ");
    assert_eq!(center_str("abcdef", 3), "abc");
    assert_eq!(piece_block_row(Kind::R, 0), " \u{2588} \u{2588} \u{2588} \u{2588} ");
    assert_eq!(piece_block_row(Kind::P, 4), "         ");
}
