use rchess::config::{Config, Theme, PieceStyle, AiDepth, MoveHints, TimeControl, UiMode, AnalysisEngine};
use rchess::engine::{start_board, Castle, Color, Kind, Piece, Status};
use rchess::export::{current_fen, pgn_text, result_tag, player_name, tc_tag};
use rchess::game::{Gs, GameEnd, Mode, HistEntry};
use rchess::pgn::parse_pgn;
use rchess::puzzle::{parse_fen, parse_fetch_output};
use rchess::persist::{room_text, load_room};
use rchess::relay::{RoomOptions, RoomState};
use rchess::room_chat::RoomChat;

fn settings() -> Config {
    let mut c = Config::default();
    c.theme = Theme::Ocean;
    c.piece_style = PieceStyle::Blocks;
    c.ai_depth = AiDepth::Expert;
    c.move_hints = MoveHints::Off;
    c.time_control = TimeControl::Rapid;
    c.show_coords = false;
    c.flip_board = true;
    c.ui_mode = UiMode::Analysis;
    c.auto_save_png = true;
    c.lichess_token = "lip_abc123".to_string();
    c.blunder_cp = -250;
    c.mistake_cp = 120;
    c.inaccuracy_cp = 0;
    c.stockfish_skill = 200;
    c.analysis_engine = AnalysisEngine::Stockfish;
    c.analysis_depth = 3;
    c.highlight_brightness = 0;
    c.cell_w = 20;
    c.cell_h = 2;
    c
}

#[test]
fn saved_settings_read_back_the_same() {
    let c = settings();
    let d = Config::parse(&c.to_text());
    assert!(d.theme == Theme::Ocean && d.piece_style == PieceStyle::Blocks && d.ai_depth == AiDepth::Expert);
    assert!(d.move_hints == MoveHints::Off && d.time_control == TimeControl::Rapid && d.ui_mode == UiMode::Analysis);
    assert!(!d.show_coords && d.show_clock && d.flip_board && !d.auto_flip && !d.confirm_move && d.auto_save_png);
    assert_eq!(d.lichess_token, "lip_abc123");
    assert_eq!((d.blunder_cp, d.mistake_cp, d.inaccuracy_cp), (-250, 120, 0));
    assert_eq!((d.stockfish_skill, d.analysis_depth, d.highlight_brightness, d.cell_w, d.cell_h), (200, 3, 0, 20, 2));
    assert!(d.analysis_engine == AnalysisEngine::Stockfish);
}

#[test]
fn settings_file_defaults_and_clamps() {
    let d = Config::parse("");
    assert!(d.theme == Theme::Classic && d.ai_depth == AiDepth::Hard && d.cell_w == 8 && d.cell_h == 4);
    let e = Config::parse("# comment = ignored\ntheme = slate\ncell_w = 99\ncell_h = 1\nanalysis_depth = 0\nblunder_cp = lots\ntheme=mocha\n");
    assert!(e.theme == Theme::Mocha);
    assert_eq!((e.cell_w, e.cell_h, e.analysis_depth, e.blunder_cp), (20, 2, 1, 300));
    let f = Config::parse("theme = unknown\nai_depth = 1\nmove_hints = highlight\n");
    assert!(f.theme == Theme::Tournament && f.ai_depth == AiDepth::Easy && f.move_hints == MoveHints::Highlight);
}

#[test]
fn settings_text_starts_with_the_comment_block() {
    let t = Config::default().to_text();
    assert!(t.starts_with("# RChess TUI v0.7"));
    assert!(t.contains("\ntheme            = classic\n"));
    assert!(t.contains("\ncell_h           = 4\n"));
}

#[test]
fn fen_of_the_start_position() {
    let g = Gs::new(TimeControl::Infinite);
    assert_eq!(current_fen(&g), "rnbqkbnr/pppppppp/8/8/8/8/PPPPPPPP/RNBQKBNR w KQkq - 0 1");
}

#[test]
fn fen_with_en_passant_and_lost_rights() {
    let mut g = Gs::new(TimeControl::Infinite);
    g.board[6][4] = None;
    g.board[4][4] = Some(Piece { c: Color::White, k: Kind::P });
    g.turn = Color::Black;
    g.ep = Some((5, 4));
    g.cast = Castle { wk: false, wq: true, bk: true, bq: false };
    g.fullmove = 12;
    assert_eq!(current_fen(&g), "rnbqkbnr/pppppppp/8/8/4P3/8/PPPP1PPP/RNBQKBNR b Qk e3 0 12");
    g.cast = Castle { wk: false, wq: false, bk: false, bq: false };
    g.ep = None;
    assert_eq!(current_fen(&g), "rnbqkbnr/pppppppp/8/8/4P3/8/PPPP1PPP/RNBQKBNR b - - 0 12");
}

#[test]
fn fen_reads_back_the_start_position() {
    let g = Gs::new(TimeControl::Infinite);
    let (b, turn, ep, cast, n) = parse_fen(&current_fen(&g)).expect("valid fen");
    assert_eq!(b, start_board());
    assert!(matches!(turn, Color::White));
    assert_eq!(ep, None);
    assert!(cast.wk && cast.wq && cast.bk && cast.bq);
    assert_eq!(n, 1);
}

#[test]
fn fen_errors() {
    assert_eq!(parse_fen("8/8").unwrap_err(), "FEN too short");
    assert_eq!(parse_fen("8/8/8 w").unwrap_err(), "FEN must have 8 ranks");
    assert_eq!(parse_fen("8/8/8/8/8/8/8/7x w").unwrap_err(), "Unknown piece 'x'");
    assert_eq!(parse_fen("8/8/8/8/8/8/8/8P w").unwrap_err(), "FEN rank overflow");
    let (_, _, ep, _, n) = parse_fen("8/8/8/8/8/8/8/8 b - d6 0 7").unwrap();
    assert_eq!(ep, Some((2, 3)));
    assert_eq!(n, 7);
}

#[test]
fn result_tags_and_names() {
    assert_eq!(result_tag(GameEnd::Flag, Status::Active, Color::White), "0-1");
    assert_eq!(result_tag(GameEnd::Normal, Status::Checkmate, Color::Black), "1-0");
    assert_eq!(result_tag(GameEnd::Normal, Status::Stalemate, Color::White), "1/2-1/2");
    assert_eq!(result_tag(GameEnd::Draw, Status::Active, Color::White), "1/2-1/2");
    assert_eq!(result_tag(GameEnd::Normal, Status::Check, Color::White), "*");
    assert_eq!(player_name(Color::White, Mode::PvP, None, Color::White, AiDepth::Hard), "Player 1");
    assert_eq!(player_name(Color::Black, Mode::CPU, None, Color::White, AiDepth::Medium), "CPU (Medium)");
    assert_eq!(player_name(Color::Black, Mode::Online, Some(Color::Black), Color::White, AiDepth::Hard), "You");
    assert_eq!(tc_tag(TimeControl::Classical), "1800");
    assert_eq!(tc_tag(TimeControl::Infinite), "-");
}

fn hist(n: &str, san: &str) -> HistEntry {
    HistEntry { notation: n.to_string(), san: san.to_string(), color: Color::White, from: (0, 0), to: (0, 0), move_time_ms: 0 }
}

#[test]
fn game_record_text() {
    let mut g = Gs::new(TimeControl::Blitz);
    g.history = vec![hist("e2e4", "e4"), hist("e7e5", "e5"), hist("g1f3", "Nf3")];
    let t = pgn_text(&g, GameEnd::Normal, Mode::PvP, None, Color::White, AiDepth::Hard, TimeControl::Blitz, 0);
    assert_eq!(t, "[Event \"RChess TUI\"]\n[Site \"Terminal\"]\n[Date \"1970.??.??\"]\n[White \"Player 1\"]\n\
[Black \"Player 2\"]\n[Result \"*\"]\n[TimeControl \"180\"]\n[Generator \"RChess TUI v0.7.3\"]\n\n1. e4 e5 2. Nf3 *\n");
}

#[test]
fn game_record_reads_back_its_moves() {
    let mut g = Gs::new(TimeControl::Infinite);
    g.history = vec![hist("e2e4", "e4"), hist("c7c5", "c5"), hist("g1f3", "Nf3"), hist("d7d6", "d6")];
    let t = pgn_text(&g, GameEnd::Draw, Mode::CPU, None, Color::White, AiDepth::Easy, TimeControl::Infinite, 86400 * 365 * 30);
    let p = parse_pgn(&t).expect("parses");
    assert_eq!(p.uci_moves, vec!["e2e4", "c7c5", "g1f3", "d7d6"]);
    assert_eq!(p.white, "Player");
    assert_eq!(p.black, "CPU (Easy)");
    assert_eq!(p.result, "1/2-1/2");
    assert_eq!(p.date, "2000.??.??");
}

#[test]
fn pgn_without_moves_is_an_error() {
    assert_eq!(parse_pgn("[White \"A\"]\n\n*").unwrap_err(), "No moves found in PGN");
    let p = parse_pgn("1. e4 e5 2. Qh5?! Nc6 3. Bc4 Nf6?? 4. Qxf7# 1-0").unwrap();
    assert_eq!(p.uci_moves, vec!["e2e4", "e7e5", "d1h5", "b8c6", "f1c4", "g8f6", "h5f7"]);
    assert_eq!(p.white, "?");
}

#[test]
fn puzzle_fetch_output() {
    let out = "id=abc12\nrating=1800\nfen=8/8/8/8/8/8/8/K6k w - - 0 1\nmoves=a1a2 h1h2\nthemes=endgame short\nOK\n";
    let p = parse_fetch_output(out).unwrap();
    assert_eq!(p.id, "abc12");
    assert_eq!(p.rating, 1800);
    assert_eq!(p.moves, vec!["a1a2", "h1h2"]);
    assert_eq!(p.themes, vec!["endgame", "short"]);
    assert_eq!(p.solution_start, 1);
    assert_eq!(parse_fetch_output("ERROR: rate limited\n").unwrap_err(), "rate limited");
    assert_eq!(parse_fetch_output("nothing").unwrap_err(), "Unexpected output: nothing");
    assert_eq!(parse_fetch_output("moves=e2e4\nOK").unwrap_err(), "FEN missing from response");
    assert_eq!(parse_fetch_output("fen=x\nOK").unwrap_err(), "Moves missing from response");
}

fn room() -> RoomState {
    RoomState {
        opts: RoomOptions { time_secs: 300, increment_secs: 5, undo_allowed: true, engine_during: false },
        moves: vec!["e2e4".to_string(), "e7e5".to_string()],
        white_conn: true,
        black_conn: true,
        white_token: Some("aaaa".to_string()),
        black_token: None,
        white_name: Some("Ann".to_string()),
        black_name: None,
        started: true,
        chat: RoomChat::new(),
        chat_history: vec![("white".to_string(), "hi there".to_string()), ("black".to_string(), "hello: again".to_string())],
    }
}

#[test]
fn room_file_text() {
    let t = room_text("ABC234", &room());
    assert_eq!(t, "code=ABC234\ntime=300\ninc=5\nundo=true\nengine=false\nstarted=true\nwhite_token=aaaa\n\
white_name=Ann\nblack_name=\nmoves=e2e4 e7e5\nchat=white:hi there\nchat=black:hello: again\n");
}

#[test]
fn room_file_reads_back() {
    let r = load_room(&room_text("ABC234", &room()));
    assert_eq!((r.opts.time_secs, r.opts.increment_secs, r.opts.undo_allowed, r.opts.engine_during), (300, 5, true, false));
    assert_eq!(r.moves, vec!["e2e4", "e7e5"]);
    assert_eq!(r.white_token, Some("aaaa".to_string()));
    assert_eq!(r.black_token, None);
    assert_eq!(r.white_name, Some("Ann".to_string()));
    assert_eq!(r.black_name, None);
    assert!(r.started && !r.white_conn && !r.black_conn);
    assert_eq!(r.chat_history, vec![("white".to_string(), "hi there".to_string()), ("black".to_string(), "hello: again".to_string())]);
}

#[test]
fn room_file_keeps_the_last_hundred_messages() {
    let mut r = room();
    r.chat_history = (0..150).map(|i| ("white".to_string(), format!("m{}", i))).collect();
    let back = load_room(&room_text("X", &r));
    assert_eq!(back.chat_history.len(), 100);
    assert_eq!(back.chat_history[0].1, "m50");
    assert_eq!(back.chat_history[99].1, "m149");
}

#[test]
fn room_file_ignores_bad_lines() {
    let r = load_room("time=abc\ninc=7\nstarted\nmoves=\nchat=:nobody\nwhatever=1\nundo=TRUE\n");
    assert_eq!((r.opts.time_secs, r.opts.increment_secs, r.opts.undo_allowed), (0, 7, false));
    assert!(!r.started && r.moves.is_empty() && r.chat_history.is_empty());
}
