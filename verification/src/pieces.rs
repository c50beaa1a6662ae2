//! Drawing pieces in a board square: a glyph, a letter, or half-block art scaled to the square.
use vstd::prelude::*;
use crate::engine::{Color, Kind, Piece, sym_spec};
use crate::config::{PieceStyle, ascii_lower};
use crate::text::push_char;
use crate::ui_text::center_spec;

verus! {

/// The 6-wide bitmap of a piece, one byte per row from the top; bit 5 is the leftmost pixel.
pub open spec fn small_bitmap(k: Kind) -> Seq<u8> {
    match k {
        Kind::P => seq![0b001100u8, 0b001100, 0b011110, 0b011110, 0b111111, 0b011110, 0b001100, 0b000000],
        Kind::N => seq![0b001111u8, 0b011110, 0b001100, 0b011110, 0b111100, 0b011100, 0b001000, 0b000000],
        Kind::B => seq![0b000100u8, 0b001110, 0b001110, 0b011110, 0b111111, 0b011110, 0b010010, 0b000000],
        Kind::R => seq![0b101010u8, 0b111111, 0b011110, 0b011110, 0b011110, 0b011110, 0b011110, 0b000000],
        Kind::Q => seq![0b010010u8, 0b101010, 0b111111, 0b111111, 0b111111, 0b011110, 0b001100, 0b000000],
        Kind::K => seq![0b001100u8, 0b001100, 0b011110, 0b111111, 0b111111, 0b011110, 0b001100, 0b000000],
    }
}

/// The 8-wide bitmap of a piece for large squares; bit 7 is the leftmost pixel.
pub open spec fn large_bitmap(k: Kind) -> Seq<u8> {
    match k {
        Kind::P => seq![0b00010000u8, 0b00111000, 0b00111000, 0b01111100, 0b11111110, 0b01111100, 0b00010000, 0b00000000],
        Kind::N => seq![0b00011110u8, 0b00111100, 0b00011000, 0b00111100, 0b01111000, 0b00111000, 0b00010000, 0b00000000],
        Kind::B => seq![0b00001000u8, 0b00011100, 0b00011100, 0b00111110, 0b01111111, 0b00111110, 0b00100100, 0b00000000],
        Kind::R => seq![0b10101010u8, 0b11111111, 0b00111100, 0b00111100, 0b00111100, 0b00111100, 0b00111100, 0b00000000],
        Kind::Q => seq![0b00100100u8, 0b01010101, 0b11111111, 0b11111111, 0b01111110, 0b00111100, 0b00011000, 0b00000000],
        Kind::K => seq![0b00011000u8, 0b00011000, 0b00111100, 0b01111110, 0b11111111, 0b00111100, 0b00011000, 0b00000000],
    }
}

fn piece_bitmap(kind: Kind) -> (r: [u8; 8])
    ensures r@ == small_bitmap(kind),
{
    let r: [u8; 8] = match kind {
        Kind::P => [0b001100, 0b001100, 0b011110, 0b011110, 0b111111, 0b011110, 0b001100, 0b000000],
        Kind::N => [0b001111, 0b011110, 0b001100, 0b011110, 0b111100, 0b011100, 0b001000, 0b000000],
        Kind::B => [0b000100, 0b001110, 0b001110, 0b011110, 0b111111, 0b011110, 0b010010, 0b000000],
        Kind::R => [0b101010, 0b111111, 0b011110, 0b011110, 0b011110, 0b011110, 0b011110, 0b000000],
        Kind::Q => [0b010010, 0b101010, 0b111111, 0b111111, 0b111111, 0b011110, 0b001100, 0b000000],
        Kind::K => [0b001100, 0b001100, 0b011110, 0b111111, 0b111111, 0b011110, 0b001100, 0b000000],
    };
    assert(r@ =~= small_bitmap(kind));
    r
}

fn piece_bitmap_8(kind: Kind) -> (r: [u8; 8])
    ensures r@ == large_bitmap(kind),
{
    let r: [u8; 8] = match kind {
        Kind::P => [0b00010000, 0b00111000, 0b00111000, 0b01111100, 0b11111110, 0b01111100, 0b00010000, 0b00000000],
        Kind::N => [0b00011110, 0b00111100, 0b00011000, 0b00111100, 0b01111000, 0b00111000, 0b00010000, 0b00000000],
        Kind::B => [0b00001000, 0b00011100, 0b00011100, 0b00111110, 0b01111111, 0b00111110, 0b00100100, 0b00000000],
        Kind::R => [0b10101010, 0b11111111, 0b00111100, 0b00111100, 0b00111100, 0b00111100, 0b00111100, 0b00000000],
        Kind::Q => [0b00100100, 0b01010101, 0b11111111, 0b11111111, 0b01111110, 0b00111100, 0b00011000, 0b00000000],
        Kind::K => [0b00011000, 0b00011000, 0b00111100, 0b01111110, 0b11111111, 0b00111100, 0b00011000, 0b00000000],
    };
    assert(r@ =~= large_bitmap(kind));
    r
}

/// Which drawing a square of width `cell_w` gets: glyphs below 6, half-blocks up to 10,
/// detailed half-blocks above.
pub fn render_style(cell_w: usize) -> (r: &'static str)
    ensures r@ == (if cell_w < 6 { "unicode"@ } else if cell_w <= 10 { "halfblock"@ } else { "detail"@ }),
{
    if cell_w < 6 { "unicode" } else if cell_w <= 10 { "halfblock" } else { "detail" }
}

/// `s` centred in `w` characters: padded with spaces, the odd one on the right, or cut to its
/// first `w` characters.
pub fn center_str(s: &str, w: usize) -> (r: String)
    ensures r@ == center_spec(s@, w as nat),
{
    crate::ui_text::center_str(s, w)
}

/// The letter of a piece kind.
pub open spec fn kind_letter(k: Kind) -> char {
    match k { Kind::K => 'K', Kind::Q => 'Q', Kind::R => 'R', Kind::B => 'B', Kind::N => 'N', Kind::P => 'P' }
}

fn kind_letter_of(k: Kind) -> (c: char)
    ensures c == kind_letter(k),
{
    match k { Kind::K => 'K', Kind::Q => 'Q', Kind::R => 'R', Kind::B => 'B', Kind::N => 'N', Kind::P => 'P' }
}

/// Whether bit `k` (from the right) of `b` is set.
pub open spec fn bit(b: u8, k: int) -> bool {
    (b >> (k as u8)) & 1u8 != 0
}

/// The half-block line of a piece at its middle row, `cell_w` wide.
pub open spec fn halfblock_spec(p: Piece, cell_w: nat) -> Seq<char> {
    Seq::new(cell_w, |x: int| if bit(small_bitmap(p.k)[4], 5 - x * 6 / (cell_w as int)) { '\u{2588}' } else { ' ' })
}

fn render_halfblock(p: Piece, cell_w: usize) -> (r: String)
    requires cell_w <= usize::MAX / 8,
    ensures r@ == halfblock_spec(p, cell_w as nat),
{
    let src = piece_bitmap(p.k);
    let mut out = String::new();
    let mut x: usize = 0;
    while x < cell_w
        invariant
            x <= cell_w, cell_w <= usize::MAX / 8, src@ == small_bitmap(p.k),
            out@ == halfblock_spec(p, cell_w as nat).take(x as int),
        decreases cell_w - x,
    {
        let sx = x * 6 / cell_w;
        proof {
            assert(x * 6 < cell_w * 6) by (nonlinear_arith) requires x < cell_w;
            vstd::arithmetic::div_mod::lemma_multiply_divide_lt((x * 6) as int, cell_w as int, 6);
        }
        let filled = (src[4] >> ((5 - sx) as u8)) & 1 != 0;
        push_char(&mut out, if filled { '\u{2588}' } else { ' ' });
        assert(halfblock_spec(p, cell_w as nat).take(x + 1) =~= halfblock_spec(p, cell_w as nat).take(x as int).push(
            if filled { '\u{2588}' } else { ' ' }));
        x += 1;
    }
    assert(halfblock_spec(p, cell_w as nat).take(cell_w as int) =~= halfblock_spec(p, cell_w as nat));
    out
}

/// The symbol a piece style shows before centering.
pub open spec fn style_sym(p: Piece, style: PieceStyle) -> Seq<char> {
    match style {
        PieceStyle::Unicode | PieceStyle::Blocks => sym_spec(p),
        PieceStyle::Letters => seq![if p.c == Color::White { kind_letter(p.k) } else { ascii_lower(kind_letter(p.k)) }],
        PieceStyle::FatLetters => seq!['[', if p.c == Color::White { kind_letter(p.k) } else { ascii_lower(kind_letter(p.k)) }, ']'],
    }
}

/// A piece as one line of a square `cell_w` wide: its symbol centered, or, in block style on
/// squares of 6 and more, the middle row of its half-block art.
pub open spec fn render_sym_spec(p: Piece, style: PieceStyle, cell_w: nat) -> Seq<char> {
    if style == PieceStyle::Blocks && cell_w >= 6 {
        halfblock_spec(p, cell_w)
    } else {
        center_spec(style_sym(p, style), cell_w)
    }
}

pub fn render_sym(p: Piece, style: &PieceStyle, cell_w: usize) -> (r: String)
    requires
        cell_w <= usize::MAX / 8,
    ensures r@ == render_sym_spec(p, *style, cell_w as nat),
{
    match style {
        PieceStyle::Unicode => {
            let sym = p.sym();
            assert(sym@ == style_sym(p, *style));
            center_str(sym, cell_w)
        },
        PieceStyle::Letters => {
            let l = kind_letter_of(p.k);
            let c = if p.c == Color::White { l } else { crate::config::to_ascii_lower(l) };
            let mut s = String::new();
            push_char(&mut s, c);
            assert(s@ =~= style_sym(p, *style));
            center_str(s.as_str(), cell_w)
        },
        PieceStyle::FatLetters => {
            let l = kind_letter_of(p.k);
            let c = if p.c == Color::White { l } else { crate::config::to_ascii_lower(l) };
            let mut s = String::new();
            push_char(&mut s, '[');
            push_char(&mut s, c);
            push_char(&mut s, ']');
            assert(s@ =~= style_sym(p, *style));
            center_str(s.as_str(), cell_w)
        },
        PieceStyle::Blocks => {
            if cell_w < 6 {
                let sym = p.sym();
                assert(sym@ == style_sym(p, *style));
                center_str(sym, cell_w)
            } else {
                render_halfblock(p, cell_w)
            }
        },
    }
}

/// The half-block character for a top and a bottom pixel.
pub open spec fn block_char(top: bool, bottom: bool) -> char {
    if top && bottom { '\u{2588}' } else if top { '\u{2580}' } else if bottom { '\u{2584}' } else { ' ' }
}

/// The piece's art in `cell_h` lines of `cell_w` characters: each character covers two
/// vertical sub-pixels, sampled from the 6-wide bitmap, or the 8-wide one above width 10.
pub open spec fn block_lines_spec(p: Piece, cell_w: nat, cell_h: nat) -> Seq<Seq<char>> {
    let big = cell_w > 10;
    let src = if big { large_bitmap(p.k) } else { small_bitmap(p.k) };
    let src_w: int = if big { 8 } else { 6 };
    Seq::new(cell_h, |y: int| Seq::new(cell_w, |x: int| {
        let sx = x * src_w / (cell_w as int);
        let st = (y * 2) * 8 / (cell_h as int * 2);
        let sb = (y * 2 + 1) * 8 / (cell_h as int * 2);
        block_char(st < 8 && sx < src_w && bit(src[st], src_w - 1 - sx), sb < 8 && sx < src_w && bit(src[sb], src_w - 1 - sx))
    }))
}

pub fn render_block_lines(p: Piece, cell_w: usize, cell_h: usize) -> (r: Vec<String>)
    requires cell_w <= usize::MAX / 8, cell_h <= usize::MAX / 16,
    ensures r@.map_values(|s: String| s@) == block_lines_spec(p, cell_w as nat, cell_h as nat),
{
    let sub_h = cell_h * 2;
    let big = cell_w > 10;
    let src = if big { piece_bitmap_8(p.k) } else { piece_bitmap(p.k) };
    let src_w: usize = if big { 8 } else { 6 };
    let ghost spec = block_lines_spec(p, cell_w as nat, cell_h as nat);
    let mut lines: Vec<String> = Vec::new();
    let mut y: usize = 0;
    while y < cell_h
        invariant
            y <= cell_h, cell_w <= usize::MAX / 8, cell_h <= usize::MAX / 16, sub_h == cell_h * 2,
            big == (cell_w > 10), src_w == (if big { 8usize } else { 6usize }),
            src@ == (if big { large_bitmap(p.k) } else { small_bitmap(p.k) }),
            spec == block_lines_spec(p, cell_w as nat, cell_h as nat),
            lines@.map_values(|s: String| s@) == spec.take(y as int),
        decreases cell_h - y,
    {
        let mut line = String::new();
        let mut x: usize = 0;
        while x < cell_w
            invariant
                x <= cell_w, y < cell_h, cell_w <= usize::MAX / 8, cell_h <= usize::MAX / 16, sub_h == cell_h * 2,
                big == (cell_w > 10), src_w == (if big { 8usize } else { 6usize }),
                src@ == (if big { large_bitmap(p.k) } else { small_bitmap(p.k) }),
                spec == block_lines_spec(p, cell_w as nat, cell_h as nat),
                line@ == spec[y as int].take(x as int),
            decreases cell_w - x,
        {
            let sx = x * src_w / cell_w;
            proof {
                assert(x * src_w < cell_w * src_w) by (nonlinear_arith) requires x < cell_w, src_w > 0;
                vstd::arithmetic::div_mod::lemma_multiply_divide_lt((x * src_w) as int, cell_w as int, src_w as int);
            }
            assert(y * 2 + 1 < sub_h);
            let st = (y * 2) * 8 / sub_h;
            let sb = (y * 2 + 1) * 8 / sub_h;
            assert(st < 8 && sb < 8) by (nonlinear_arith)
                requires y * 2 + 1 < sub_h, st as int == ((y * 2) * 8) as int / (sub_h as int), sb as int == ((y * 2 + 1) * 8) as int / (sub_h as int);
            let top = (src[st] >> ((src_w - 1 - sx) as u8)) & 1 != 0;
            let bottom = (src[sb] >> ((src_w - 1 - sx) as u8)) & 1 != 0;
            let ch = if top && bottom { '\u{2588}' } else if top { '\u{2580}' } else if bottom { '\u{2584}' } else { ' ' };
            push_char(&mut line, ch);
            assert(spec[y as int].take(x + 1) =~= spec[y as int].take(x as int).push(ch));
            x += 1;
        }
        assert(spec[y as int].take(cell_w as int) =~= spec[y as int]);
        let ghost before = lines@.map_values(|s: String| s@);
        lines.push(line);
        assert(lines@.map_values(|s: String| s@) =~= before.push(spec[y as int]));
        assert(spec.take(y + 1) =~= spec.take(y as int).push(spec[y as int]));
        y += 1;
    }
    assert(spec.take(cell_h as int) =~= spec);
    lines
}

} // verus!
