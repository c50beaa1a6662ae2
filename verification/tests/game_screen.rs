use rchess::ai::best_mv_with_score;
use rchess::auth::encode_invite;
use rchess::board_view::{board_cells, palette};
use rchess::online_setup::{JoinRequest, OnlineAction, OnlineSetup};
use rchess::client_game::{ClientGame, GameAction, Key, NetAction};
use rchess::config::{AiDepth, Config, PieceStyle, TimeControl, UiMode};
use rchess::engine::{legal, start_board, zobrist_hash, Board, Castle, Color, Kind, Mv, Piece, Status};
use rchess::game::{GameEnd, Gs, Mode, OnlineStep, Screen};
use rchess::network::{NetClient, NetMsg};
use rchess::pieces::render_sym;
use rchess::room_chat::sanitise;
use rchess::tt::{TTFlag, TranspositionTable};

fn empty() -> Board {
    [[None; 8]; 8]
}

fn pc(c: Color, k: Kind) -> Option<Piece> {
    Some(Piece { c, k })
}

fn game(mode: Mode, depth: AiDepth) -> ClientGame {
    ClientGame::new(Gs::new(TimeControl::Blitz), mode, depth, UiMode::Standard, Color::White, false, false)
}

fn typed(cg: &mut ClientGame, text: &str) -> GameAction {
    for ch in text.chars() {
        cg.game_key(Key::Char(ch), 0);
    }
    cg.game_key(Key::Enter, 1500)
}

#[test]
fn castling_cannot_cross_a_square_a_pawn_guards() {
    let mut b = empty();
    b[7][4] = pc(Color::White, Kind::K);
    b[7][7] = pc(Color::White, Kind::R);
    b[6][4] = pc(Color::Black, Kind::P);
    b[0][0] = pc(Color::Black, Kind::K);
    let cast = Castle { wk: true, wq: false, bk: false, bq: false };
    assert!(legal(&b, Color::White, None, &cast).iter().all(|m| m.castle != 1));
    // Without the pawn, O-O is there.
    b[6][4] = None;
    assert!(legal(&b, Color::White, None, &cast).iter().any(|m| m.castle == 1));
}

#[test]
fn unicode_piece_is_centred_by_characters() {
    let king = Piece { c: Color::White, k: Kind::K };
    let s = render_sym(king, &PieceStyle::Unicode, 8);
    assert_eq!(s, "   \u{2654}    ");
    assert_eq!(s.chars().count(), 8);
}

#[test]
fn search_finds_the_mate_in_one() {
    let mut b = empty();
    b[7][6] = pc(Color::White, Kind::K);
    b[7][0] = pc(Color::White, Kind::R);
    b[0][7] = pc(Color::Black, Kind::K);
    b[1][6] = pc(Color::Black, Kind::P);
    b[1][7] = pc(Color::Black, Kind::P);
    let cast = Castle { wk: false, wq: false, bk: false, bq: false };
    let (mv, score) = best_mv_with_score(&b, Color::White, None, &cast, 2);
    let mv = mv.expect("a move");
    assert_eq!((mv.fr, mv.to), ((7, 0), (0, 0)));
    assert_eq!(score, 98999);
}

#[test]
fn table_store_evicts_the_other_key_of_its_slot() {
    let mut t = TranspositionTable::new();
    let h1: u64 = 5;
    let h2: u64 = 5 + (1u64 << 18);
    t.store(h1, 3, 10, TTFlag::Exact, None);
    t.store(h2, 4, 20, TTFlag::Beta, None);
    assert!(t.probe(h1).is_none());
    assert!(matches!(t.probe(h2), Some((TTFlag::Beta, 4, 20, None))));
}

#[test]
fn drain_ends_with_disconnected_after_a_hang_up() {
    let mut c = NetClient::new();
    c.inbox.push(NetMsg::Start);
    c.hang_up();
    let got = c.drain();
    assert_eq!(got.len(), 2);
    assert!(matches!(got[0], NetMsg::Start));
    assert!(matches!(got[1], NetMsg::Disconnected));
    assert!(matches!(c.drain().as_slice(), [NetMsg::Disconnected]));
}

#[test]
fn typed_moves_play_and_undo_takes_back_one_between_players() {
    let mut cg = game(Mode::PvP, AiDepth::Hard);
    assert!(matches!(typed(&mut cg, "e4"), GameAction::Moved(_)));
    assert!(matches!(typed(&mut cg, "e5"), GameAction::Moved(_)));
    assert_eq!(cg.gs.history.len(), 2);
    assert_eq!(cg.gs.history[0].notation, "e2e4");
    assert_eq!(cg.gs.history[1].san, "e5");
    assert_eq!(cg.gs.history[1].move_time_ms, 1500);
    assert_eq!(cg.gs.fullmove, 2);
    assert_eq!(cg.gs.clock_state, rchess::game::ClockState::Running);
    assert_eq!(cg.replay_snaps.len(), 2);
    assert_eq!(cg.undo_stack.len(), 2);
    cg.game_key(Key::Char('u'), 0);
    assert_eq!(cg.gs.history.len(), 1);
    assert_eq!(cg.gs.turn, Color::Black);
    assert_eq!(cg.replay_snaps.len(), 2);
    cg.game_key(Key::Char('u'), 0);
    assert_eq!(cg.gs.history.len(), 0);
    assert_eq!(cg.replay_snaps.len(), 1);
}

#[test]
fn undo_against_the_computer_takes_back_the_reply_too() {
    let mut cg = game(Mode::CPU, AiDepth::Hard);
    typed(&mut cg, "e4");
    // The front end plays the computer's reply.
    let reply = Mv::basic((1, 4), (3, 4));
    assert!(matches!(cg.play_if_legal(reply, 10), GameAction::Moved(_)));
    cg.game_key(Key::Char('u'), 0);
    assert_eq!(cg.gs.history.len(), 0);
    let mut easy = game(Mode::CPU, AiDepth::Easy);
    typed(&mut easy, "e4");
    easy.play_if_legal(reply, 10);
    easy.game_key(Key::Char('u'), 0);
    assert_eq!(easy.gs.history.len(), 1);
}

#[test]
fn bad_typed_move_keeps_the_text_and_says_why() {
    let mut cg = game(Mode::PvP, AiDepth::Hard);
    assert!(matches!(typed(&mut cg, "e5"), GameAction::Nothing));
    assert!(cg.input_err.is_some());
    assert_eq!(cg.input.iter().collect::<String>(), "e5");
    cg.game_key(Key::Backspace, 0);
    cg.game_key(Key::Backspace, 0);
    assert!(cg.input.is_empty());
    assert!(cg.input_err.is_none());
}

#[test]
fn cursor_selection_and_promotion_picker() {
    let mut cg = game(Mode::PvP, AiDepth::Hard);
    // Cursor starts on e2: select the pawn, move up twice, play e4.
    cg.game_key(Key::Enter, 0);
    assert_eq!(cg.selected, Some((6, 4)));
    assert_eq!(cg.targets.len(), 2);
    cg.game_key(Key::Char('k'), 0);
    cg.game_key(Key::Char('k'), 0);
    assert!(matches!(cg.game_key(Key::Char(' '), 700), GameAction::Moved(_)));
    assert_eq!(cg.gs.history[0].notation, "e2e4");
    assert!(cg.selected.is_none());

    let mut b = empty();
    b[1][0] = pc(Color::White, Kind::P);
    b[7][4] = pc(Color::White, Kind::K);
    b[0][7] = pc(Color::Black, Kind::K);
    let mut gs = Gs::new(TimeControl::Blitz);
    gs.board = b;
    gs.cast = Castle { wk: false, wq: false, bk: false, bq: false };
    let mut p = ClientGame::new(gs, Mode::PvP, AiDepth::Hard, UiMode::Standard, Color::White, false, false);
    p.cursor = (1, 0);
    p.game_key(Key::Enter, 0);
    p.game_key(Key::Up, 0);
    p.game_key(Key::Enter, 0);
    assert_eq!(p.screen, Screen::Promo);
    p.promo_key(Key::Right, 0);
    assert!(matches!(p.promo_key(Key::Enter, 0), GameAction::Moved(_)));
    assert_eq!(p.gs.board[0][0], pc(Color::White, Kind::R));
    assert_eq!(p.gs.history[0].notation, "a7a8R+");
}

#[test]
fn replay_viewer_steps_through_the_positions() {
    let mut cg = game(Mode::PvP, AiDepth::Hard);
    typed(&mut cg, "e4");
    typed(&mut cg, "e5");
    typed(&mut cg, "Nf3");
    cg.game_key(Key::Char('r'), 0);
    assert_eq!(cg.screen, Screen::Replay);
    assert_eq!(cg.replay_idx, 2);
    cg.replay_key(Key::Right);
    assert_eq!(cg.replay_idx, 2);
    cg.replay_key(Key::Char('h'));
    assert_eq!(cg.replay_idx, 1);
    cg.replay_key(Key::Char('0'));
    assert_eq!(cg.replay_idx, 0);
    assert_eq!(cg.replay_snaps[0].notation, "e4");
    cg.replay_key(Key::End);
    assert_eq!(cg.replay_idx, 2);
    cg.replay_key(Key::Esc);
    assert_eq!(cg.screen, Screen::Game);
}

#[test]
fn draw_offer_and_view_cycling() {
    let mut cg = game(Mode::PvP, AiDepth::Hard);
    cg.game_key(Key::Char('T'), 0);
    assert_eq!(cg.ui_mode, UiMode::Analysis);
    cg.game_key(Key::Char('T'), 0);
    assert_eq!(cg.ui_mode, UiMode::Minimal);
    cg.game_key(Key::Char('d'), 0);
    assert_eq!(cg.screen, Screen::DrawOffer);
    assert_eq!(cg.draw_offer, Some(Color::White));
    cg.draw_key(Key::Char('n'));
    assert_eq!(cg.screen, Screen::Game);
    assert!(cg.draw_offer.is_none());
    cg.game_key(Key::Char('d'), 0);
    assert!(matches!(cg.draw_key(Key::Char('y')), GameAction::DrawAgreed));
    assert_eq!(cg.gs.status, Status::Stalemate);
    assert_eq!(cg.game_end, GameEnd::Draw);
    // Against the computer `d` starts a typed move instead.
    let mut cpu = game(Mode::CPU, AiDepth::Hard);
    cpu.game_key(Key::Char('d'), 0);
    assert_eq!(cpu.input, vec!['d']);
    assert!(matches!(typed(&mut cpu, "4"), GameAction::Moved(_)));
}

#[test]
fn side_to_move_changes_the_hash_by_one_key() {
    let b = start_board();
    let all = Castle { wk: true, wq: true, bk: true, bq: true };
    let none = Castle { wk: false, wq: false, bk: false, bq: false };
    let d1 = zobrist_hash(&b, Color::Black, None, &all) ^ zobrist_hash(&b, Color::White, None, &all);
    let d2 = zobrist_hash(&empty(), Color::Black, Some((2, 4)), &none) ^ zobrist_hash(&empty(), Color::White, Some((2, 4)), &none);
    assert_eq!(d1, d2);
    assert_ne!(d1, 0);
}

#[test]
fn cleaning_a_chat_message_twice_changes_nothing() {
    let once = sanitise("hi: there\u{7}\u{e9}!");
    assert_eq!(once, "hi there!");
    assert_eq!(sanitise(&once), once);
}

#[test]
fn opponent_moves_and_draw_answers_from_the_server() {
    let mut cg = ClientGame::new(Gs::new(TimeControl::Blitz), Mode::Online, AiDepth::Hard, UiMode::Standard,
        Color::White, false, false);
    assert!(matches!(cg.on_net_msg(NetMsg::Joined { color: "black".to_string() }, 0), NetAction::SaveSession));
    assert_eq!(cg.online_color, Some(Color::Black));
    assert_eq!(cg.player_color, Color::Black);
    assert!(matches!(cg.on_net_msg(NetMsg::OpponentMove("e2e4+".to_string()), 900), NetAction::Moved(_)));
    assert_eq!(cg.gs.history[0].notation, "e2e4");
    assert_eq!(cg.gs.turn, Color::Black);
    assert!(matches!(cg.on_net_msg(NetMsg::OpponentMove("e2e4".to_string()), 0), NetAction::Nothing));
    cg.on_net_msg(NetMsg::DrawOffer, 0);
    assert_eq!(cg.screen, Screen::DrawOffer);
    cg.on_net_msg(NetMsg::DrawDeclined, 0);
    assert_eq!(cg.screen, Screen::Game);
    assert!(matches!(cg.on_net_msg(NetMsg::OpponentResigned, 0), NetAction::ClearSession));
    assert_eq!(cg.gs.status, Status::Checkmate);
    assert!(matches!(cg.on_net_msg(NetMsg::Disconnected, 0), NetAction::ConnectionLost));
}

fn type_keys(s: &mut OnlineSetup, text: &str) {
    for ch in text.chars() {
        s.key(Key::Char(ch));
    }
}

#[test]
fn online_setup_warns_about_the_admin_port_and_reads_invite_links() {
    let mut s = OnlineSetup::new(Vec::new(), None);
    type_keys(&mut s, "example.org:9002");
    assert!(matches!(s.key(Key::Enter), OnlineAction::Nothing));
    assert_eq!(s.msg, "\u{26a0} Port 9002 is the admin/HTTP port. Use :9001 for the game.");
    assert_eq!(s.step, OnlineStep::EnterAddr);
    for _ in 0..4 { s.key(Key::Backspace); }
    type_keys(&mut s, "9001");
    s.key(Key::Enter);
    assert_eq!(s.step, OnlineStep::ChooseAction);
    assert_eq!(s.server_addr.iter().collect::<String>(), "example.org:9001");
    s.key(Key::Char('j'));
    assert_eq!(s.step, OnlineStep::EnterRoom);
    type_keys(&mut s, " abc234 ");
    match s.key(Key::Enter) {
        OnlineAction::Connect { addr, request: JoinRequest::Join(room), password } => {
            assert_eq!(addr, "example.org:9001");
            assert_eq!(room, "ABC234");
            assert!(password.is_none());
        }
        _ => panic!("expected a join"),
    }
    for _ in 0..8 { s.key(Key::Backspace); }
    let link = encode_invite("10.0.0.5", 9001, "XYZ789");
    type_keys(&mut s, &link);
    match s.key(Key::Enter) {
        OnlineAction::Connect { addr, request: JoinRequest::Join(room), .. } => {
            assert_eq!(addr, "10.0.0.5:9001");
            assert_eq!(room, "XYZ789");
            s.connect_result(&addr, &JoinRequest::Join(room), None);
        }
        _ => panic!("expected a join from the link"),
    }
    assert_eq!(s.step, OnlineStep::Connecting);
    assert_eq!(s.screen, Screen::OnlineWaiting);
    assert_eq!(s.msg, "Joining room XYZ789\u{2026}");
    assert!(matches!(s.key(Key::Esc), OnlineAction::Disconnect));
    assert_eq!(s.step, OnlineStep::ChooseAction);
    assert!(matches!(s.key(Key::Char('r')), OnlineAction::Nothing));
    assert_eq!(s.msg, "No saved session found.");
}

#[test]
fn board_cells_show_selection_targets_and_check() {
    let mut cg = game(Mode::PvP, AiDepth::Hard);
    let cfg = Config::default();
    cg.game_key(Key::Enter, 0);
    let cells = board_cells(&cg, &cfg);
    assert_eq!(cells.len(), 64);
    let pal = palette(cfg.theme);
    // e2 selected, e3 a target, the cursor on the selected square.
    assert_eq!(cells[6 * 8 + 4].bg, pal.select);
    assert_eq!(cells[5 * 8 + 4].lines.len(), cfg.cell_h as usize);
    // An empty square away from everything has the theme colour and blank lines.
    let quiet = &cells[4 * 8 + 0];
    assert_eq!(quiet.bg, if (4 + 0) % 2 == 0 { pal.light } else { pal.dark });
    assert!(quiet.lines.iter().all(|l| l.text.chars().all(|c| c == ' ')));
}
