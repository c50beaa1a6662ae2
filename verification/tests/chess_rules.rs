use rchess::engine::{start_board, legal, apply, game_status, in_check, mv_to_san, Castle, Color, Kind, Mv, Piece, Status, Board};
use rchess::ai::{evaluate, best_mv, top_n_moves};
use rchess::notation::parse_notation;
use rchess::book::{book_move, opening_name};
use rchess::game::{HistEntry, Gs, MoveLabel};
use rchess::config::TimeControl;
use rchess::tt::{TranspositionTable, TTFlag};

fn play(board: &Board, color: Color, ep: Option<(usize, usize)>, cast: &Castle, input: &str)
    -> (Board, Option<(usize, usize)>, Castle, Mv)
{
    let mv = parse_notation(board, color, ep, cast, input).expect("legal move");
    let (b, e, c) = apply(board, &mv, ep, cast);
    (b, e, c, mv)
}

fn entry(notation: &str) -> HistEntry {
    HistEntry {
        notation: notation.to_string(),
        san: notation.to_string(),
        color: Color::White,
        from: (0, 0),
        to: (0, 0),
        move_time_ms: 0,
    }
}

#[test]
fn start_position_has_twenty_moves() {
    let b = start_board();
    let moves = legal(&b, Color::White, None, &Castle::all());
    assert_eq!(moves.len(), 20);
    let black = legal(&b, Color::Black, None, &Castle::all());
    assert_eq!(black.len(), 20);
}

#[test]
fn start_position_is_active_and_balanced() {
    let b = start_board();
    assert!(matches!(game_status(&b, Color::White, None, &Castle::all()), Status::Active));
    assert!(!in_check(&b, Color::White));
    assert_eq!(evaluate(&b), 0);
}

#[test]
fn opponent_colour_is_an_involution() {
    assert!(matches!(Color::White.opp(), Color::Black));
    assert!(matches!(Color::Black.opp(), Color::White));
    assert!(matches!(Color::White.opp().opp(), Color::White));
}

#[test]
fn pawn_push_by_san_and_by_coordinates() {
    let b = start_board();
    let c = Castle::all();
    let san = parse_notation(&b, Color::White, None, &c, "e4").unwrap();
    assert_eq!((san.fr, san.to), ((6, 4), (4, 4)));
    let coord = parse_notation(&b, Color::White, None, &c, "e2e4").unwrap();
    assert_eq!((coord.fr, coord.to), ((6, 4), (4, 4)));
    let knight = parse_notation(&b, Color::White, None, &c, "Nf3").unwrap();
    assert_eq!((knight.fr, knight.to), ((7, 6), (5, 5)));
}

#[test]
fn double_push_sets_en_passant_square() {
    let b = start_board();
    let (_, ep, _, _) = play(&b, Color::White, None, &Castle::all(), "e4");
    assert_eq!(ep, Some((5, 4)));
}

#[test]
fn notation_errors_name_the_problem() {
    let b = start_board();
    let c = Castle::all();
    assert_eq!(parse_notation(&b, Color::White, None, &c, "O-O").unwrap_err(), "Kingside castling not available");
    assert_eq!(parse_notation(&b, Color::White, None, &c, "0-0-0").unwrap_err(), "Queenside castling not available");
    assert_eq!(parse_notation(&b, Color::White, None, &c, "e2e5").unwrap_err(), "e2 \u{2192} e5 not legal");
    assert_eq!(parse_notation(&b, Color::White, None, &c, "e3e4").unwrap_err(), "e3 \u{2192} e4 not legal (empty square)");
    assert_eq!(parse_notation(&b, Color::White, None, &c, "e7e5").unwrap_err(), "e7 \u{2192} e5 not legal (opponent piece)");
    assert_eq!(parse_notation(&b, Color::White, None, &c, "Qh5").unwrap_err(),
        "'Qh5' \u{2014} try: e2e4  Nf3  Qg4  O-O  O-O-O");
}

#[test]
fn fools_mate_is_checkmate() {
    let mut b = start_board();
    let mut ep = None;
    let mut c = Castle::all();
    let mut color = Color::White;
    for m in ["f3", "e5", "g4", "Qh4"] {
        let (nb, ne, nc, _) = play(&b, color, ep, &c, m);
        b = nb;
        ep = ne;
        c = nc;
        color = color.opp();
    }
    assert!(in_check(&b, Color::White));
    assert!(matches!(game_status(&b, Color::White, ep, &c), Status::Checkmate));
    assert!(legal(&b, Color::White, ep, &c).is_empty());
    assert_eq!(parse_notation(&b, Color::White, ep, &c, "e4").unwrap_err(), "No legal moves");
}

#[test]
fn legal_moves_never_leave_the_king_in_check() {
    let mut b = start_board();
    let mut ep = None;
    let mut c = Castle::all();
    let mut color = Color::White;
    for m in ["e4", "e5", "Qh5", "Nc6", "Bc4", "Nf6"] {
        let (nb, ne, nc, _) = play(&b, color, ep, &c, m);
        b = nb;
        ep = ne;
        c = nc;
        color = color.opp();
    }
    for mv in legal(&b, color, ep, &c) {
        let (after, _, _) = apply(&b, &mv, ep, &c);
        assert!(!in_check(&after, color));
    }
}

#[test]
fn san_of_moves() {
    let b = start_board();
    let c = Castle::all();
    let e4 = parse_notation(&b, Color::White, None, &c, "e2e4").unwrap();
    assert_eq!(mv_to_san(&b, &e4, None, &c), "e4");
    let nf3 = parse_notation(&b, Color::White, None, &c, "g1f3").unwrap();
    assert_eq!(mv_to_san(&b, &nf3, None, &c), "Nf3");
}

#[test]
fn best_move_takes_a_free_queen() {
    let mut b: Board = [[None; 8]; 8];
    b[7][4] = Some(Piece { c: Color::White, k: Kind::K });
    b[0][4] = Some(Piece { c: Color::Black, k: Kind::K });
    b[4][3] = Some(Piece { c: Color::White, k: Kind::R });
    b[4][6] = Some(Piece { c: Color::Black, k: Kind::Q });
    let none = Castle { wk: false, wq: false, bk: false, bq: false };
    let mv = best_mv(&b, Color::White, None, &none, 2, &Vec::new()).expect("a move");
    assert_eq!((mv.fr, mv.to), ((4, 3), (4, 6)));
}

#[test]
fn top_moves_are_three_at_most_and_legal() {
    let b = start_board();
    let c = Castle::all();
    let top = top_n_moves(&b, Color::White, None, &c, 1, 3);
    assert_eq!(top.len(), 3);
    let moves = legal(&b, Color::White, None, &c);
    for (mv, _) in &top {
        assert!(moves.iter().any(|m| m.fr == mv.fr && m.to == mv.to));
    }
    assert!(top[0].1 >= top[1].1 && top[1].1 >= top[2].1);
}

#[test]
fn book_answers_the_first_move() {
    let b = start_board();
    let c = Castle::all();
    let first = book_move(&Vec::new(), &b, Color::White, None, &c).expect("book has a first move");
    let moves = legal(&b, Color::White, None, &c);
    assert!(moves.iter().any(|m| m.fr == first.fr && m.to == first.to));
    let again = book_move(&Vec::new(), &b, Color::White, None, &c).unwrap();
    assert_eq!((first.fr, first.to), (again.fr, again.to));
}

#[test]
fn opening_names_follow_the_moves() {
    assert_eq!(opening_name(&Vec::new()), None);
    let sicilian = vec![entry("e2e4"), entry("c7c5")];
    let name = opening_name(&sicilian).expect("named opening");
    assert_eq!(name, "Sicilian Defence");
}

#[test]
fn move_labels_by_loss() {
    assert!(matches!(MoveLabel::from_delta_cp(0), MoveLabel::Good));
    assert!(matches!(MoveLabel::from_delta_cp(-49), MoveLabel::Good));
    assert!(matches!(MoveLabel::from_delta_cp(-50), MoveLabel::Inaccuracy));
    assert!(matches!(MoveLabel::from_delta_cp(-100), MoveLabel::Mistake));
    assert!(matches!(MoveLabel::from_delta_cp(-299), MoveLabel::Mistake));
    assert!(matches!(MoveLabel::from_delta_cp(-300), MoveLabel::Mistake));
    assert!(matches!(MoveLabel::from_delta_cp(-301), MoveLabel::Blunder));
    assert_eq!(MoveLabel::Blunder.icon(), "??");
    assert_eq!(MoveLabel::Inaccuracy.name(), "Inaccuracy");
    assert!(matches!(MoveLabel::from_delta_cp_thresholds(-20, 10, 20, 30), MoveLabel::Mistake));
}

#[test]
fn clock_display() {
    assert_eq!(Gs::fmt_time(None), "   \u{221e}  ");
    assert_eq!(Gs::fmt_time(Some(0)), " 0:00 ");
    assert_eq!(Gs::fmt_time(Some(65_000)), "1:05  ");
    assert_eq!(Gs::fmt_time(Some(9_500)), " 0:09.5 ");
    assert_eq!(Gs::fmt_time(Some(600_000)), "10:00  ");
}

#[test]
fn new_game_starts_paused_with_full_clocks() {
    let g = Gs::new(TimeControl::Blitz);
    assert_eq!(g.white_ms, Some(180_000));
    assert_eq!(g.black_ms, Some(180_000));
    assert_eq!(g.fullmove, 1);
    assert!(g.history.is_empty());
    let inf = Gs::new(TimeControl::Infinite);
    assert_eq!(inf.white_ms, None);
}

#[test]
fn transposition_table_gives_back_what_was_stored() {
    let mut t = TranspositionTable::new();
    assert!(t.probe(12345).is_none());
    t.store(12345, 3, 42, TTFlag::Exact, None);
    let (flag, depth, score, mv) = t.probe(12345).expect("stored entry");
    assert!(matches!(flag, TTFlag::Exact));
    assert_eq!((depth, score), (3, 42));
    assert!(mv.is_none());
    t.clear();
    assert!(t.probe(12345).is_none());
}
