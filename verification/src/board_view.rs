//! What each square of the board looks like on screen: its background (theme colour, or the
//! selection, check, cursor, move-hint or last-move highlight, blended by the configured
//! brightness), and the text and colour of each of its lines (the piece, a hint dot, a
//! capture bar, or block art). The terminal front end only paints these cells.
use vstd::prelude::*;
use crate::engine::{Color, Kind, Piece, Status, king_sq, king_sq_spec, sym_spec};
use crate::config::{Config, MoveHints, PieceStyle, Theme, ascii_upper, ascii_lower};
use crate::client_game::{ClientGame, ClientView, to_board};
use crate::ui_text::{center_spec, center_str, spaces, block_row_spec, piece_block_row};
use crate::pieces::kind_letter;
use crate::text::{owned, push_char, push_str};

verus! {

pub type Rgb = (u8, u8, u8);

/// One line of a square: its text, its colour (none: the terminal's), and whether it is bold.
pub struct CellLine {
    pub text: String,
    pub fg: Option<Rgb>,
    pub bold: bool,
}

/// One square: its background and its lines, top to bottom.
pub struct CellStyle {
    pub bg: Rgb,
    pub lines: Vec<CellLine>,
}

pub type CellView = (Rgb, Seq<(Seq<char>, Option<Rgb>, bool)>);

pub open spec fn cell_view(c: CellStyle) -> CellView {
    (c.bg, c.lines@.map_values(|l: CellLine| (l.text@, l.fg, l.bold)))
}

/// `base` moved towards `target` by `t` tenths, channel by channel.
pub open spec fn blend(base: Rgb, target: Rgb, t: u8) -> Rgb {
    (((base.0 * (10 - t) + target.0 * t) / 10) as u8,
     ((base.1 * (10 - t) + target.1 * t) / 10) as u8,
     ((base.2 * (10 - t) + target.2 * t) / 10) as u8)
}

/// Two thirds of the square's colour and one third of the last-move colour.
pub open spec fn last_move_tint(sq: Rgb, lm: Rgb) -> Rgb {
    (((sq.0 * 2 + lm.0) / 3) as u8, ((sq.1 * 2 + lm.1) / 3) as u8, ((sq.2 * 2 + lm.2) / 3) as u8)
}

pub open spec fn theme_squares(th: Theme) -> (Rgb, Rgb) {
    match th {
        Theme::Classic => ((240u8, 217u8, 181u8), (181u8, 136u8, 99u8)),
        Theme::Tournament => ((100u8, 140u8, 100u8), (50u8, 80u8, 50u8)),
        Theme::Mocha => ((180u8, 140u8, 100u8), (110u8, 80u8, 50u8)),
        Theme::Slate => ((90u8, 110u8, 130u8), (50u8, 65u8, 80u8)),
        Theme::Midnight => ((60u8, 60u8, 120u8), (30u8, 30u8, 70u8)),
        Theme::Crimson => ((160u8, 60u8, 60u8), (90u8, 30u8, 30u8)),
        Theme::MatteBlack => ((55u8, 55u8, 55u8), (22u8, 22u8, 22u8)),
        Theme::Ocean => ((40u8, 70u8, 110u8), (15u8, 35u8, 65u8)),
    }
}

/// The colours, by square, that a configuration and a theme give.
pub struct Palette {
    pub light: Rgb,
    pub dark: Rgb,
    pub select: Rgb,
    pub cursor: Rgb,
    pub last_move: Rgb,
    pub white_piece: Rgb,
    pub black_piece: Rgb,
}

/// Some target of the selection lands on (r, c).
pub open spec fn is_target(v: ClientView, r: int, c: int) -> bool {
    exists|i: int| 0 <= i < v.targets.len() && (#[trigger] v.targets[i]).to == (r as usize, c as usize)
}

/// The king in check, if the side to move is in check.
pub open spec fn checked_king(v: ClientView) -> Option<(usize, usize)> {
    if v.gs.status == Status::Check { king_sq_spec(v.gs.board, v.gs.turn) } else { None }
}

/// (r, c) is the start or end of the last move.
pub open spec fn on_last_move(v: ClientView, r: int, c: int) -> bool {
    v.gs.history.len() > 0 && (v.gs.history.last().3 == (r as usize, c as usize)
        || v.gs.history.last().4 == (r as usize, c as usize))
}

/// The background of square (r, c): selected, then the checked king, the cursor, a move hint
/// (highlight mode; in dot mode on empty squares), the last move, then the theme colour.
pub open spec fn cell_bg(v: ClientView, cfg: Config, pal: Palette, r: int, c: int) -> Rgb {
    let light = (r + c) % 2 == 0;
    let sq = if light { pal.light } else { pal.dark };
    let t = cfg.highlight_brightness;
    let sel = v.selected == Some((r as usize, c as usize));
    let chk = checked_king(v) == Some((r as usize, c as usize));
    let tgt = is_target(v, r, c);
    if sel { pal.select }
    else if chk { (180u8, 40u8, 40u8) }
    else if to_board(v, v.cursor) == (r as usize, c as usize) { pal.cursor }
    else if tgt && cfg.move_hints == MoveHints::Highlight {
        blend(sq, if light { (180u8, 230u8, 50u8) } else { (20u8, 200u8, 130u8) }, t)
    }
    else if tgt && cfg.move_hints == MoveHints::Dots && v.gs.board[r][c] is None { blend(sq, (220u8, 200u8, 40u8), t) }
    else if on_last_move(v, r, c) { last_move_tint(sq, pal.last_move) }
    else { sq }
}

/// The text of a piece in a piece style.
pub open spec fn piece_text(p: Piece, style: PieceStyle) -> Seq<char> {
    let l = kind_letter(p.k);
    let w = p.c == Color::White;
    match style {
        PieceStyle::Unicode | PieceStyle::Blocks => sym_spec(p),
        PieceStyle::Letters => seq![if w { ascii_upper(l) } else { ascii_lower(l) }],
        PieceStyle::FatLetters => seq!['[', if w { ascii_upper(l) } else { ascii_lower(l) }, ']'],
    }
}

/// The bar under a capturable piece: two spaces, `w - 4` rules, two spaces.
pub open spec fn capture_bar(w: nat) -> Seq<char> {
    "  "@ + Seq::new(if w >= 4 { (w - 4) as nat } else { 0 }, |i: int| '\u{2500}') + "  "@
}

/// Line `li` of square (r, c), `w` wide and `h` high. In block style every line shows a slice
/// of the piece's block art (a hint dot in the middle of an empty target); otherwise the
/// piece or hint dot stands on the middle line and a capturable piece gets a bar on the last.
pub open spec fn cell_line(v: ClientView, cfg: Config, pal: Palette, r: int, c: int, li: nat) -> (Seq<char>, Option<Rgb>, bool) {
    let w = cfg.cell_w as nat;
    let h = cfg.cell_h as nat;
    let piece = v.gs.board[r][c];
    let tgt = is_target(v, r, c);
    let dots = cfg.move_hints == MoveHints::Dots;
    let hint = blend(pal.light, (0u8, 255u8, 140u8), cfg.highlight_brightness);
    let mid = li == h / 2;
    if cfg.piece_style == PieceStyle::Blocks {
        match piece {
            Some(p) => (block_row_spec(p.k, li), Some(if p.c == Color::White { pal.white_piece } else { pal.black_piece }), true),
            None => if tgt && dots && mid { (center_spec("\u{2b24}"@, w), Some(hint), true) }
                else { (spaces(w), Some(cell_bg(v, cfg, pal, r, c)), true) },
        }
    } else {
        let text = if mid {
            match piece {
                Some(p) => center_spec(piece_text(p, cfg.piece_style), w),
                None => if tgt && dots { center_spec("\u{2b24}"@, w) } else { spaces(w) },
            }
        } else if h >= 1 && li == h - 1 && tgt && piece is Some {
            capture_bar(w)
        } else {
            spaces(w)
        };
        match piece {
            Some(p) => (text, Some(if p.c == Color::White { pal.white_piece } else { pal.black_piece }), true),
            None => if tgt { (text, Some(hint), true) } else { (text, None, false) },
        }
    }
}

pub open spec fn cell_spec(v: ClientView, cfg: Config, pal: Palette, r: int, c: int) -> CellView {
    (cell_bg(v, cfg, pal, r, c), Seq::new(cfg.cell_h as nat, |li: int| cell_line(v, cfg, pal, r, c, li as nat)))
}

/// The colours of a theme: its squares, selection, cursor, last move and pieces.
pub open spec fn theme_palette(th: Theme) -> Palette {
    Palette {
        light: theme_squares(th).0,
        dark: theme_squares(th).1,
        select: match th {
            Theme::Classic => (205u8, 210u8, 60u8),
            Theme::Tournament => (180u8, 160u8, 40u8),
            Theme::Mocha => (200u8, 170u8, 80u8),
            Theme::Slate => (60u8, 180u8, 180u8),
            Theme::Midnight => (120u8, 80u8, 200u8),
            Theme::Crimson => (220u8, 80u8, 80u8),
            Theme::MatteBlack => (180u8, 140u8, 20u8),
            Theme::Ocean => (20u8, 180u8, 200u8),
        },
        cursor: match th {
            Theme::MatteBlack => (220u8, 180u8, 30u8),
            Theme::Ocean => (50u8, 230u8, 230u8),
            _ => (200u8, 180u8, 50u8),
        },
        last_move: match th {
            Theme::MatteBlack => (160u8, 130u8, 20u8),
            Theme::Ocean => (30u8, 160u8, 180u8),
            _ => (160u8, 140u8, 30u8),
        },
        white_piece: match th {
            Theme::MatteBlack => (240u8, 230u8, 200u8),
            Theme::Ocean => (240u8, 250u8, 255u8),
            Theme::Classic => (255u8, 248u8, 220u8),
            _ => (240u8, 240u8, 240u8),
        },
        black_piece: match th {
            Theme::MatteBlack => (190u8, 190u8, 195u8),
            Theme::Ocean => (20u8, 60u8, 120u8),
            Theme::Classic => (15u8, 10u8, 5u8),
            _ => (15u8, 15u8, 15u8),
        },
    }
}

/// The colours of theme `th`.
pub fn palette(th: Theme) -> (p: Palette)
    ensures p == theme_palette(th),
{
    let (light, dark) = th.squares();
    let pcs = th.piece_colors();
    Palette { light, dark, select: th.select(), cursor: th.cursor(), last_move: th.last_move(),
        white_piece: pcs.0, black_piece: pcs.1 }
}

fn chan(a: u8, b: u8, t: u8) -> (x: u8)
    requires t <= 10,
    ensures x == ((a * (10 - t) + b * t) / 10) as u8,
{
    assert(a * (10 - t) + b * t <= 2550) by (nonlinear_arith) requires a <= 255, b <= 255, t <= 10;
    assert(a as u16 * (10 - t as u16) == a * (10 - t));
    assert(b as u16 * (t as u16) == b * t);
    ((a as u16 * (10 - t as u16) + b as u16 * t as u16) / 10) as u8
}

fn blend_of(base: Rgb, target: Rgb, t: u8) -> (r: Rgb)
    requires t <= 10,
    ensures r == blend(base, target, t),
{
    (chan(base.0, target.0, t), chan(base.1, target.1, t), chan(base.2, target.2, t))
}

fn tint_of(sq: Rgb, lm: Rgb) -> (r: Rgb)
    ensures r == last_move_tint(sq, lm),
{
    (((sq.0 as u16 * 2 + lm.0 as u16) / 3) as u8, ((sq.1 as u16 * 2 + lm.1 as u16) / 3) as u8,
        ((sq.2 as u16 * 2 + lm.2 as u16) / 3) as u8)
}

fn spaces_str(n: usize) -> (s: String)
    ensures s@ == spaces(n as nat),
{
    let mut s = String::new();
    let mut i: usize = 0;
    while i < n
        invariant i <= n, s@ == spaces(i as nat),
        decreases n - i,
    {
        push_char(&mut s, ' ');
        i += 1;
        assert(s@ =~= spaces(i as nat));
    }
    s
}

fn capture_bar_str(w: usize) -> (s: String)
    ensures s@ == capture_bar(w as nat),
{
    proof { reveal_strlit("  "); }
    let n = if w >= 4 { w - 4 } else { 0 };
    let mut s = owned("  ");
    let mut i: usize = 0;
    while i < n
        invariant i <= n, s@ == "  "@ + Seq::new(i as nat, |k: int| '\u{2500}'),
        decreases n - i,
    {
        push_char(&mut s, '\u{2500}');
        i += 1;
        assert(s@ =~= "  "@ + Seq::new(i as nat, |k: int| '\u{2500}'));
    }
    push_str(&mut s, "  ");
    s
}

fn piece_text_of(p: Piece, style: PieceStyle) -> (s: String)
    ensures s@ == piece_text(p, style),
{
    let l = match p.k { Kind::K => 'K', Kind::Q => 'Q', Kind::R => 'R', Kind::B => 'B', Kind::N => 'N', Kind::P => 'P' };
    let white = match p.c { Color::White => true, Color::Black => false };
    style.render(p.sym(), l, white)
}

fn target_at(v: &ClientGame, r: usize, c: usize) -> (b: bool)
    ensures b == is_target(v.view(), r as int, c as int),
{
    let mut i: usize = 0;
    while i < v.targets.len()
        invariant i <= v.targets@.len(), forall|k: int| 0 <= k < i ==> (#[trigger] v.targets@[k]).to != (r, c),
        decreases v.targets@.len() - i,
    {
        if v.targets[i].to.0 == r && v.targets[i].to.1 == c {
            assert(v.view().targets[i as int].to == (r, c));
            return true;
        }
        i += 1;
    }
    false
}

/// The 64 squares as drawn, row by row from the top of the board (`8 * r + c`), whatever
/// the side the board is drawn from.
pub fn board_cells(g: &ClientGame, cfg: &Config) -> (cells: Vec<CellStyle>)
    requires cfg.highlight_brightness <= 10, g.cursor.0 < 8, g.cursor.1 < 8,
    ensures
        cells@.len() == 64,
        forall|i: int| 0 <= i < 64 ==> cell_view(#[trigger] cells@[i]) == cell_spec(g.view(), *cfg,
            theme_palette(cfg.theme), i / 8, i % 8),
{
    let pal = palette(cfg.theme);
    let ghost gp = theme_palette(cfg.theme);
    let light = pal.light;
    let dark = pal.dark;
    let ghost v = g.view();
    let t = cfg.highlight_brightness;
    let chk: Option<(usize, usize)> = match g.gs.status { Status::Check => king_sq(&g.gs.board, g.gs.turn), _ => None };
    let black = match g.gs.turn { Color::Black => true, Color::White => false };
    let cpu = match g.mode { crate::game::Mode::CPU => true, _ => false };
    let pvp = match g.mode { crate::game::Mode::PvP => true, _ => false };
    let pb = match g.player_color { Color::Black => true, Color::White => false };
    let cur = if g.flip_board || (cpu && pb) || (pvp && g.auto_flip && black) { (7 - g.cursor.0, 7 - g.cursor.1) } else { g.cursor };
    assert(cur == to_board(v, v.cursor));
    let hl = g.gs.history.len();
    let last: Option<((usize, usize), (usize, usize))> = if hl > 0 { Some((g.gs.history[hl - 1].from, g.gs.history[hl - 1].to)) } else { None };
    let hint = blend_of(light, (0, 255, 140), t);
    let w = cfg.cell_w as usize;
    let h = cfg.cell_h as usize;
    let mut cells: Vec<CellStyle> = Vec::new();
    let mut idx: usize = 0;
    while idx < 64
        invariant
            idx <= 64, cells@.len() == idx, v == g.view(), pal == gp, t == cfg.highlight_brightness, t <= 10,
            chk == checked_king(v), cur == to_board(v, v.cursor), hint == blend(gp.light, (0u8, 255u8, 140u8), t),
            w == cfg.cell_w, h == cfg.cell_h, light == gp.light, dark == gp.dark,
            last == (if v.gs.history.len() > 0 { Some((v.gs.history.last().3, v.gs.history.last().4)) } else { None }),
            forall|i: int| 0 <= i < idx ==> cell_view(#[trigger] cells@[i]) == cell_spec(v, *cfg, gp, i / 8, i % 8),
        decreases 64 - idx,
    {
        let r = idx / 8;
        let c = idx % 8;
        let is_light = (r + c) % 2 == 0;
        let sq = if is_light { light } else { dark };
        let piece = g.gs.board[r][c];
        let tgt = target_at(g, r, c);
        let sel = match g.selected { Some(s) => s.0 == r && s.1 == c, None => false };
        let is_chk = match chk { Some(k) => k.0 == r && k.1 == c, None => false };
        let is_last = match last { Some((a, b)) => (a.0 == r && a.1 == c) || (b.0 == r && b.1 == c), None => false };
        let hi = match cfg.move_hints { MoveHints::Highlight => true, _ => false };
        let dots = match cfg.move_hints { MoveHints::Dots => true, _ => false };
        let bg = if sel { pal.select }
            else if is_chk { (180, 40, 40) }
            else if cur.0 == r && cur.1 == c { pal.cursor }
            else if tgt && hi { blend_of(sq, if is_light { (180, 230, 50) } else { (20, 200, 130) }, t) }
            else if tgt && dots && piece.is_none() { blend_of(sq, (220, 200, 40), t) }
            else if is_last { tint_of(sq, pal.last_move) }
            else { sq };
        assert(bg == cell_bg(v, *cfg, gp, r as int, c as int));
        let blocks = match cfg.piece_style { PieceStyle::Blocks => true, _ => false };
        let mut lines: Vec<CellLine> = Vec::new();
        let mut li: usize = 0;
        while li < h
            invariant
                li <= h, h == cfg.cell_h, w == cfg.cell_w, lines@.len() == li, r < 8, c < 8, v == g.view(), pal == gp,
                hint == blend(gp.light, (0u8, 255u8, 140u8), cfg.highlight_brightness),
                bg == cell_bg(v, *cfg, gp, r as int, c as int), tgt == is_target(v, r as int, c as int),
                piece == v.gs.board[r as int][c as int], dots == (cfg.move_hints == MoveHints::Dots),
                blocks == (cfg.piece_style == PieceStyle::Blocks),
                forall|k: int| 0 <= k < li ==> (#[trigger] lines@[k]).text@ == cell_line(v, *cfg, gp, r as int, c as int, k as nat).0
                    && lines@[k].fg == cell_line(v, *cfg, gp, r as int, c as int, k as nat).1
                    && lines@[k].bold == cell_line(v, *cfg, gp, r as int, c as int, k as nat).2,
            decreases h - li,
        {
            let mid = li == h / 2;
            let line = if blocks {
                match piece {
                    Some(p) => CellLine { text: owned(piece_block_row(p.k, li)),
                        fg: Some(match p.c { Color::White => pal.white_piece, Color::Black => pal.black_piece }), bold: true },
                    None => if tgt && dots && mid { CellLine { text: center_str("\u{2b24}", w), fg: Some(hint), bold: true } }
                        else { CellLine { text: spaces_str(w), fg: Some(bg), bold: true } },
                }
            } else {
                let text = if mid {
                    match piece {
                        Some(p) => center_str(piece_text_of(p, cfg.piece_style).as_str(), w),
                        None => if tgt && dots { center_str("\u{2b24}", w) } else { spaces_str(w) },
                    }
                } else if h >= 1 && li == h - 1 && tgt && piece.is_some() {
                    capture_bar_str(w)
                } else {
                    spaces_str(w)
                };
                match piece {
                    Some(p) => CellLine { text, fg: Some(match p.c { Color::White => pal.white_piece, Color::Black => pal.black_piece }), bold: true },
                    None => if tgt { CellLine { text, fg: Some(hint), bold: true } } else { CellLine { text, fg: None, bold: false } },
                }
            };
            lines.push(line);
            li += 1;
        }
        let cell = CellStyle { bg, lines };
        proof {
            assert(r as int == idx as int / 8 && c as int == idx as int % 8);
            assert(cell_view(cell).1 =~= Seq::new(cfg.cell_h as nat, |k: int| cell_line(v, *cfg, gp, r as int, c as int, k as nat)));
        }
        cells.push(cell);
        idx += 1;
    }
    cells
}

} // verus!
