//! Saving the settings and reading them back gives the same settings.
use vstd::prelude::*;
use crate::config::{Config, Theme, PieceStyle, AiDepth, MoveHints, TimeControl, UiMode, AnalysisEngine, key_index,
    lemma_key_index, theme_of, piece_style_of, ai_depth_of, move_hints_of, time_control_of, ui_mode_of, analysis_engine_of,
    i32_or, u8_or, clamp_u8, setting_line, line_key, line_val, last_val, config_header, config_text, theme_word, piece_style_word,
    move_hints_word, time_control_word, ui_mode_word, analysis_engine_word, bool_word, int_text};
use crate::text::{lemma_join_push, lines_spec, trim_spec, trim_start_spec, trim_end_spec, find_char_spec, is_ws_spec, join_lines, plain_line,
    lemma_lines_join, lemma_find_after, lemma_find_char_bounds, lemma_trim_noop};
use crate::num::{dec_spec, parse_unsigned_spec, parse_signed_spec, lemma_dec_digits, lemma_parse_dec, all_digits, is_digit};

verus! {

pub open spec fn gap(n: nat) -> Seq<char> {
    Seq::new(n, |i: int| ' ')
}

/// The place of a key among the settings, hidden from the solver unless asked for.
#[verifier::opaque]
pub open spec fn kidx(k: Seq<char>) -> int {
    key_index(k)
}

/// A setting line as the configuration file writes it: key, spaces, `= ` and the value.
#[verifier::opaque]
pub open spec fn kv_line(key: Seq<char>, n: nat, val: Seq<char>) -> Seq<char> {
    key + gap(n) + seq!['=', ' '] + val
}

/// A key: not empty, not starting with `#`, no whitespace and no `=` in it.
pub open spec fn key_ok(key: Seq<char>) -> bool {
    key.len() > 0 && key[0] != '#' && forall|i: int| 0 <= i < key.len() ==> !is_ws_spec(#[trigger] key[i]) && key[i] != '='
}

/// A value that reads back as itself: no whitespace around it and no line break in it.
pub open spec fn value_ok(v: Seq<char>) -> bool {
    (v.len() == 0 || (!is_ws_spec(v[0]) && !is_ws_spec(v.last()))) && !v.contains('\n')
}

proof fn lemma_trim_end_gap(a: Seq<char>, n: nat)
    ensures trim_end_spec(a + gap(n)) == trim_end_spec(a),
    decreases n,
{
    if n == 0 {
        assert(a + gap(0) =~= a);
    } else {
        let s = a + gap(n);
        assert(s.last() == ' ');
        assert(s.drop_last() =~= a + gap((n - 1) as nat));
        lemma_trim_end_gap(a, (n - 1) as nat);
    }
}

proof fn lemma_kv_line(key: Seq<char>, n: nat, val: Seq<char>)
    requires key_ok(key), value_ok(val),
    ensures
        setting_line(kv_line(key, n, val)),
        line_key(kv_line(key, n, val)) == key,
        line_val(kv_line(key, n, val)) == val,
        plain_line(kv_line(key, n, val)),
{
    reveal(kv_line);
    let l = kv_line(key, n, val);
    let a = key + gap(n);
    assert(!is_ws_spec(key[0]));
    assert(!a.contains('=')) by {
        if a.contains('=') {
            let i = choose|i: int| 0 <= i < a.len() && a[i] == '=';
            if i < key.len() { assert(a[i] == key[i]); } else { assert(a[i] == ' '); }
        }
    }
    assert(l[0] == key[0]);
    assert(trim_start_spec(l) == l);
    let t = if val.len() > 0 { l } else { a + seq!['='] };
    if val.len() > 0 {
        assert(l.last() == val.last());
        assert(trim_end_spec(l) == l);
        assert(l =~= a + seq!['='] + (seq![' '] + val));
        lemma_find_after(a, seq![' '] + val, '=');
    } else {
        assert(l =~= a + seq!['=', ' ']);
        assert(l.last() == ' ');
        assert(l.drop_last() =~= a + seq!['=']);
        assert((a + seq!['=']).last() == '=');
        assert(is_ws_spec(' '));
        assert(!is_ws_spec('='));
        assert(trim_end_spec(l) == trim_end_spec(l.drop_last()));
        assert(trim_end_spec(a + seq!['=']) == a + seq!['=']);
        assert(trim_end_spec(l) == a + seq!['=']);
        assert(a + seq!['='] =~= a + seq!['='] + Seq::<char>::empty());
        lemma_find_after(a, Seq::<char>::empty(), '=');
    }
    assert(trim_spec(l) == t);
    let k = a.len() as int;
    assert(find_char_spec(t, '=') == k);
    assert(t.take(k) =~= a);
    assert(trim_start_spec(a) == a) by { assert(a[0] == key[0]); }
    lemma_trim_end_gap(key, n);
    assert(!is_ws_spec(key.last())) by { assert(key.last() == key[key.len() - 1]); }
    assert(trim_end_spec(key) == key);
    assert(line_key(l) == key);
    if val.len() > 0 {
        assert(t.skip(k + 1) =~= seq![' '] + val);
        assert((seq![' '] + val).drop_first() =~= val);
        assert(trim_start_spec(seq![' '] + val) == trim_start_spec(val));
        lemma_trim_noop(val);
    } else {
        assert(t.skip(k + 1) =~= Seq::<char>::empty());
    }
    assert(line_val(l) == val);
    assert(setting_line(l)) by { assert(t[0] == key[0]); }
    assert(!l.contains('\n')) by {
        if l.contains('\n') {
            let i = choose|i: int| 0 <= i < l.len() && l[i] == '\n';
            if i < key.len() { assert(l[i] == key[i]); }
            else if i < a.len() { assert(l[i] == ' '); }
            else if i < a.len() + 2 { }
            else { assert(l[i] == val[i - a.len() - 2]); assert(val.contains('\n')); }
        }
    }
    if l.len() > 0 && l.last() == '\r' {
        if val.len() > 0 { assert(l.last() == val.last()); } else { assert(l.last() == ' '); }
    }
}

/// The value that the last line with key `k` gives, where line `j` has that key and no
/// later line does.
proof fn lemma_last_val_at(ls: Seq<Seq<char>>, k: Seq<char>, j: int)
    requires
        0 <= j < ls.len(), setting_line(ls[j]), line_key(ls[j]) == k,
        forall|i: int| j < i < ls.len() ==> !(setting_line(#[trigger] ls[i]) && line_key(ls[i]) == k),
    ensures last_val(ls, k) == Some(line_val(ls[j])),
    decreases ls.len(),
{
    if j < ls.len() - 1 {
        assert(!(setting_line(ls[ls.len() - 1]) && line_key(ls[ls.len() - 1]) == k));
        assert forall|i: int| j < i < ls.drop_last().len() implies !(setting_line(#[trigger] ls.drop_last()[i]) && line_key(ls.drop_last()[i]) == k) by {
            assert(ls.drop_last()[i] == ls[i]);
        }
        lemma_last_val_at(ls.drop_last(), k, j);
    }
}

/// The comment block's lines.
pub open spec fn header_lines() -> Seq<Seq<char>> {
    seq![
        "# RChess TUI v0.7 \u{2014} edit here or use in-game Settings (s)"@,
        "#"@,
        "# analysis_engine options:"@,
        "#   builtin   \u{2014} pure Rust minimax, always works, no install needed"@,
        "#   stockfish \u{2014} install: sudo pacman -S stockfish  (Arch)"@,
        "#               install: sudo apt install stockfish (Ubuntu)"@,
        "#               then set: analysis_engine = stockfish"@,
        "#"@,
        "# ui_mode options: minimal | standard | analysis"@,
        "# Press T in-game to cycle ui_mode quickly."@,
        Seq::<char>::empty(),
    ]
}

/// The keys of the settings, in the order the file writes them.
pub open spec fn keys() -> Seq<Seq<char>> {
    seq!["theme"@, "piece_style"@, "ai_depth"@, "move_hints"@, "time_control"@, "show_coords"@, "show_clock"@,
        "flip_board"@, "auto_flip"@, "confirm_move"@, "ui_mode"@, "auto_save_png"@, "lichess_token"@, "blunder_cp"@,
        "mistake_cp"@, "inaccuracy_cp"@, "stockfish_skill"@, "analysis_engine"@, "analysis_depth"@,
        "highlight_brightness"@, "cell_w"@, "cell_h"@]
}

/// The values of the settings of `c`, in the same order.
pub open spec fn values(c: Config) -> Seq<Seq<char>> {
    seq![theme_word(c.theme), piece_style_word(c.piece_style), dec_spec(c.ai_depth.depth() as nat),
        move_hints_word(c.move_hints), time_control_word(c.time_control), bool_word(c.show_coords),
        bool_word(c.show_clock), bool_word(c.flip_board), bool_word(c.auto_flip), bool_word(c.confirm_move),
        ui_mode_word(c.ui_mode), bool_word(c.auto_save_png), c.lichess_token@, int_text(c.blunder_cp as int),
        int_text(c.mistake_cp as int), int_text(c.inaccuracy_cp as int), dec_spec(c.stockfish_skill as nat),
        analysis_engine_word(c.analysis_engine), dec_spec(c.analysis_depth as nat),
        dec_spec(c.highlight_brightness as nat), dec_spec(c.cell_w as nat), dec_spec(c.cell_h as nat)]
}


pub open spec fn config_lines(c: Config) -> Seq<Seq<char>> {
    header_lines() + setting_lines(c)
}

proof fn lemma_header()
    ensures join_lines(header_lines()) == config_header(),
{
    reveal_strlit("# RChess TUI v0.7 \u{2014} edit here or use in-game Settings (s)");
    reveal_strlit("#");
    reveal_strlit("# analysis_engine options:");
    reveal_strlit("#   builtin   \u{2014} pure Rust minimax, always works, no install needed");
    reveal_strlit("#   stockfish \u{2014} install: sudo pacman -S stockfish  (Arch)");
    reveal_strlit("#               install: sudo apt install stockfish (Ubuntu)");
    reveal_strlit("#               then set: analysis_engine = stockfish");
    reveal_strlit("# ui_mode options: minimal | standard | analysis");
    reveal_strlit("# Press T in-game to cycle ui_mode quickly.");
    reveal_strlit("# RChess TUI v0.7 \u{2014} edit here or use in-game Settings (s)\n#\n# analysis_engine options:\n#   builtin   \u{2014} pure Rust minimax, always works, no install needed\n#   stockfish \u{2014} install: sudo pacman -S stockfish  (Arch)\n#               install: sudo apt install stockfish (Ubuntu)\n#               then set: analysis_engine = stockfish\n#\n# ui_mode options: minimal | standard | analysis\n# Press T in-game to cycle ui_mode quickly.\n\n");
    reveal_with_fuel(join_lines, 12);
    assert(join_lines(header_lines()) =~= config_header());
}

proof fn lemma_step(x: Seq<Seq<char>>, t: Seq<char>, p: Seq<char>, key: Seq<char>, n: nat, val: Seq<char>)
    requires join_lines(x) == t, p == key + gap(n) + seq!['=', ' '],
    ensures join_lines(x.push(kv_line(key, n, val))) == t + p + val + seq!['\n'],
{
    reveal(kv_line);
    lemma_join_push(x, kv_line(key, n, val));
    assert(join_lines(x.push(kv_line(key, n, val))) =~= t + p + val + seq!['\n']);
}

proof fn lemma_prefix_theme()
    ensures "theme            = "@ == "theme"@ + gap(12) + seq!['=', ' '],
{
    reveal_strlit("theme            = ");
    reveal_strlit("theme");
    assert("theme            = "@ =~= "theme"@ + gap(12) + seq!['=', ' ']);
}

proof fn lemma_prefix_piece_style()
    ensures "piece_style      = "@ == "piece_style"@ + gap(6) + seq!['=', ' '],
{
    reveal_strlit("piece_style      = ");
    reveal_strlit("piece_style");
    assert("piece_style      = "@ =~= "piece_style"@ + gap(6) + seq!['=', ' ']);
}

proof fn lemma_prefix_ai_depth()
    ensures "ai_depth         = "@ == "ai_depth"@ + gap(9) + seq!['=', ' '],
{
    reveal_strlit("ai_depth         = ");
    reveal_strlit("ai_depth");
    assert("ai_depth         = "@ =~= "ai_depth"@ + gap(9) + seq!['=', ' ']);
}

proof fn lemma_prefix_move_hints()
    ensures "move_hints       = "@ == "move_hints"@ + gap(7) + seq!['=', ' '],
{
    reveal_strlit("move_hints       = ");
    reveal_strlit("move_hints");
    assert("move_hints       = "@ =~= "move_hints"@ + gap(7) + seq!['=', ' ']);
}

proof fn lemma_prefix_time_control()
    ensures "time_control     = "@ == "time_control"@ + gap(5) + seq!['=', ' '],
{
    reveal_strlit("time_control     = ");
    reveal_strlit("time_control");
    assert("time_control     = "@ =~= "time_control"@ + gap(5) + seq!['=', ' ']);
}

proof fn lemma_prefix_show_coords()
    ensures "show_coords      = "@ == "show_coords"@ + gap(6) + seq!['=', ' '],
{
    reveal_strlit("show_coords      = ");
    reveal_strlit("show_coords");
    assert("show_coords      = "@ =~= "show_coords"@ + gap(6) + seq!['=', ' ']);
}

proof fn lemma_prefix_show_clock()
    ensures "show_clock       = "@ == "show_clock"@ + gap(7) + seq!['=', ' '],
{
    reveal_strlit("show_clock       = ");
    reveal_strlit("show_clock");
    assert("show_clock       = "@ =~= "show_clock"@ + gap(7) + seq!['=', ' ']);
}

proof fn lemma_prefix_flip_board()
    ensures "flip_board       = "@ == "flip_board"@ + gap(7) + seq!['=', ' '],
{
    reveal_strlit("flip_board       = ");
    reveal_strlit("flip_board");
    assert("flip_board       = "@ =~= "flip_board"@ + gap(7) + seq!['=', ' ']);
}

proof fn lemma_prefix_auto_flip()
    ensures "auto_flip        = "@ == "auto_flip"@ + gap(8) + seq!['=', ' '],
{
    reveal_strlit("auto_flip        = ");
    reveal_strlit("auto_flip");
    assert("auto_flip        = "@ =~= "auto_flip"@ + gap(8) + seq!['=', ' ']);
}

proof fn lemma_prefix_confirm_move()
    ensures "confirm_move     = "@ == "confirm_move"@ + gap(5) + seq!['=', ' '],
{
    reveal_strlit("confirm_move     = ");
    reveal_strlit("confirm_move");
    assert("confirm_move     = "@ =~= "confirm_move"@ + gap(5) + seq!['=', ' ']);
}

proof fn lemma_prefix_ui_mode()
    ensures "ui_mode          = "@ == "ui_mode"@ + gap(10) + seq!['=', ' '],
{
    reveal_strlit("ui_mode          = ");
    reveal_strlit("ui_mode");
    assert("ui_mode          = "@ =~= "ui_mode"@ + gap(10) + seq!['=', ' ']);
}

proof fn lemma_prefix_auto_save_png()
    ensures "auto_save_png    = "@ == "auto_save_png"@ + gap(4) + seq!['=', ' '],
{
    reveal_strlit("auto_save_png    = ");
    reveal_strlit("auto_save_png");
    assert("auto_save_png    = "@ =~= "auto_save_png"@ + gap(4) + seq!['=', ' ']);
}

proof fn lemma_prefix_lichess_token()
    ensures "lichess_token    = "@ == "lichess_token"@ + gap(4) + seq!['=', ' '],
{
    reveal_strlit("lichess_token    = ");
    reveal_strlit("lichess_token");
    assert("lichess_token    = "@ =~= "lichess_token"@ + gap(4) + seq!['=', ' ']);
}

proof fn lemma_prefix_blunder_cp()
    ensures "blunder_cp       = "@ == "blunder_cp"@ + gap(7) + seq!['=', ' '],
{
    reveal_strlit("blunder_cp       = ");
    reveal_strlit("blunder_cp");
    assert("blunder_cp       = "@ =~= "blunder_cp"@ + gap(7) + seq!['=', ' ']);
}

proof fn lemma_prefix_mistake_cp()
    ensures "mistake_cp       = "@ == "mistake_cp"@ + gap(7) + seq!['=', ' '],
{
    reveal_strlit("mistake_cp       = ");
    reveal_strlit("mistake_cp");
    assert("mistake_cp       = "@ =~= "mistake_cp"@ + gap(7) + seq!['=', ' ']);
}

proof fn lemma_prefix_inaccuracy_cp()
    ensures "inaccuracy_cp    = "@ == "inaccuracy_cp"@ + gap(4) + seq!['=', ' '],
{
    reveal_strlit("inaccuracy_cp    = ");
    reveal_strlit("inaccuracy_cp");
    assert("inaccuracy_cp    = "@ =~= "inaccuracy_cp"@ + gap(4) + seq!['=', ' ']);
}

proof fn lemma_prefix_stockfish_skill()
    ensures "stockfish_skill  = "@ == "stockfish_skill"@ + gap(2) + seq!['=', ' '],
{
    reveal_strlit("stockfish_skill  = ");
    reveal_strlit("stockfish_skill");
    assert("stockfish_skill  = "@ =~= "stockfish_skill"@ + gap(2) + seq!['=', ' ']);
}

proof fn lemma_prefix_analysis_engine()
    ensures "analysis_engine  = "@ == "analysis_engine"@ + gap(2) + seq!['=', ' '],
{
    reveal_strlit("analysis_engine  = ");
    reveal_strlit("analysis_engine");
    assert("analysis_engine  = "@ =~= "analysis_engine"@ + gap(2) + seq!['=', ' ']);
}

proof fn lemma_prefix_analysis_depth()
    ensures "analysis_depth   = "@ == "analysis_depth"@ + gap(3) + seq!['=', ' '],
{
    reveal_strlit("analysis_depth   = ");
    reveal_strlit("analysis_depth");
    assert("analysis_depth   = "@ =~= "analysis_depth"@ + gap(3) + seq!['=', ' ']);
}

proof fn lemma_prefix_highlight_brightness()
    ensures "highlight_brightness = "@ == "highlight_brightness"@ + gap(1) + seq!['=', ' '],
{
    reveal_strlit("highlight_brightness = ");
    reveal_strlit("highlight_brightness");
    assert("highlight_brightness = "@ =~= "highlight_brightness"@ + gap(1) + seq!['=', ' ']);
}

proof fn lemma_prefix_cell_w()
    ensures "cell_w           = "@ == "cell_w"@ + gap(11) + seq!['=', ' '],
{
    reveal_strlit("cell_w           = ");
    reveal_strlit("cell_w");
    assert("cell_w           = "@ =~= "cell_w"@ + gap(11) + seq!['=', ' ']);
}

proof fn lemma_prefix_cell_h()
    ensures "cell_h           = "@ == "cell_h"@ + gap(11) + seq!['=', ' '],
{
    reveal_strlit("cell_h           = ");
    reveal_strlit("cell_h");
    assert("cell_h           = "@ =~= "cell_h"@ + gap(11) + seq!['=', ' ']);
}

/// The setting lines of `c`, in the order the file writes them.
pub open spec fn setting_lines(c: Config) -> Seq<Seq<char>> {
    seq![
        kv_line("theme"@, 12, theme_word(c.theme)),
        kv_line("piece_style"@, 6, piece_style_word(c.piece_style)),
        kv_line("ai_depth"@, 9, dec_spec(c.ai_depth.depth() as nat)),
        kv_line("move_hints"@, 7, move_hints_word(c.move_hints)),
        kv_line("time_control"@, 5, time_control_word(c.time_control)),
        kv_line("show_coords"@, 6, bool_word(c.show_coords)),
        kv_line("show_clock"@, 7, bool_word(c.show_clock)),
        kv_line("flip_board"@, 7, bool_word(c.flip_board)),
        kv_line("auto_flip"@, 8, bool_word(c.auto_flip)),
        kv_line("confirm_move"@, 5, bool_word(c.confirm_move)),
        kv_line("ui_mode"@, 10, ui_mode_word(c.ui_mode)),
        kv_line("auto_save_png"@, 4, bool_word(c.auto_save_png)),
        kv_line("lichess_token"@, 4, c.lichess_token@),
        kv_line("blunder_cp"@, 7, int_text(c.blunder_cp as int)),
        kv_line("mistake_cp"@, 7, int_text(c.mistake_cp as int)),
        kv_line("inaccuracy_cp"@, 4, int_text(c.inaccuracy_cp as int)),
        kv_line("stockfish_skill"@, 2, dec_spec(c.stockfish_skill as nat)),
        kv_line("analysis_engine"@, 2, analysis_engine_word(c.analysis_engine)),
        kv_line("analysis_depth"@, 3, dec_spec(c.analysis_depth as nat)),
        kv_line("highlight_brightness"@, 1, dec_spec(c.highlight_brightness as nat)),
        kv_line("cell_w"@, 11, dec_spec(c.cell_w as nat)),
        kv_line("cell_h"@, 11, dec_spec(c.cell_h as nat)),
    ]
}

/// The configuration file's text is its lines, each with a line break.
#[verifier::rlimit(100)]
#[verifier::spinoff_prover]
proof fn lemma_config_text_lines(c: Config)
    ensures join_lines(config_lines(c)) == config_text(c),
{
    lemma_header();
    reveal_strlit("\n");
    assert("\n"@ == seq!['\n']);
    let x0 = header_lines();
    let t0 = config_header();
    lemma_prefix_theme();
    lemma_step(x0, t0, "theme            = "@, "theme"@, 12, theme_word(c.theme));
    let x1 = x0.push(kv_line("theme"@, 12, theme_word(c.theme)));
    let t1 = t0 + "theme            = "@ + theme_word(c.theme) + "\n"@;
    lemma_prefix_piece_style();
    lemma_step(x1, t1, "piece_style      = "@, "piece_style"@, 6, piece_style_word(c.piece_style));
    let x2 = x1.push(kv_line("piece_style"@, 6, piece_style_word(c.piece_style)));
    let t2 = t1 + "piece_style      = "@ + piece_style_word(c.piece_style) + "\n"@;
    lemma_prefix_ai_depth();
    lemma_step(x2, t2, "ai_depth         = "@, "ai_depth"@, 9, dec_spec(c.ai_depth.depth() as nat));
    let x3 = x2.push(kv_line("ai_depth"@, 9, dec_spec(c.ai_depth.depth() as nat)));
    let t3 = t2 + "ai_depth         = "@ + dec_spec(c.ai_depth.depth() as nat) + "\n"@;
    lemma_prefix_move_hints();
    lemma_step(x3, t3, "move_hints       = "@, "move_hints"@, 7, move_hints_word(c.move_hints));
    let x4 = x3.push(kv_line("move_hints"@, 7, move_hints_word(c.move_hints)));
    let t4 = t3 + "move_hints       = "@ + move_hints_word(c.move_hints) + "\n"@;
    lemma_prefix_time_control();
    lemma_step(x4, t4, "time_control     = "@, "time_control"@, 5, time_control_word(c.time_control));
    let x5 = x4.push(kv_line("time_control"@, 5, time_control_word(c.time_control)));
    let t5 = t4 + "time_control     = "@ + time_control_word(c.time_control) + "\n"@;
    lemma_prefix_show_coords();
    lemma_step(x5, t5, "show_coords      = "@, "show_coords"@, 6, bool_word(c.show_coords));
    let x6 = x5.push(kv_line("show_coords"@, 6, bool_word(c.show_coords)));
    let t6 = t5 + "show_coords      = "@ + bool_word(c.show_coords) + "\n"@;
    lemma_prefix_show_clock();
    lemma_step(x6, t6, "show_clock       = "@, "show_clock"@, 7, bool_word(c.show_clock));
    let x7 = x6.push(kv_line("show_clock"@, 7, bool_word(c.show_clock)));
    let t7 = t6 + "show_clock       = "@ + bool_word(c.show_clock) + "\n"@;
    lemma_prefix_flip_board();
    lemma_step(x7, t7, "flip_board       = "@, "flip_board"@, 7, bool_word(c.flip_board));
    let x8 = x7.push(kv_line("flip_board"@, 7, bool_word(c.flip_board)));
    let t8 = t7 + "flip_board       = "@ + bool_word(c.flip_board) + "\n"@;
    lemma_prefix_auto_flip();
    lemma_step(x8, t8, "auto_flip        = "@, "auto_flip"@, 8, bool_word(c.auto_flip));
    let x9 = x8.push(kv_line("auto_flip"@, 8, bool_word(c.auto_flip)));
    let t9 = t8 + "auto_flip        = "@ + bool_word(c.auto_flip) + "\n"@;
    lemma_prefix_confirm_move();
    lemma_step(x9, t9, "confirm_move     = "@, "confirm_move"@, 5, bool_word(c.confirm_move));
    let x10 = x9.push(kv_line("confirm_move"@, 5, bool_word(c.confirm_move)));
    let t10 = t9 + "confirm_move     = "@ + bool_word(c.confirm_move) + "\n"@;
    lemma_prefix_ui_mode();
    lemma_step(x10, t10, "ui_mode          = "@, "ui_mode"@, 10, ui_mode_word(c.ui_mode));
    let x11 = x10.push(kv_line("ui_mode"@, 10, ui_mode_word(c.ui_mode)));
    let t11 = t10 + "ui_mode          = "@ + ui_mode_word(c.ui_mode) + "\n"@;
    lemma_prefix_auto_save_png();
    lemma_step(x11, t11, "auto_save_png    = "@, "auto_save_png"@, 4, bool_word(c.auto_save_png));
    let x12 = x11.push(kv_line("auto_save_png"@, 4, bool_word(c.auto_save_png)));
    let t12 = t11 + "auto_save_png    = "@ + bool_word(c.auto_save_png) + "\n"@;
    lemma_prefix_lichess_token();
    lemma_step(x12, t12, "lichess_token    = "@, "lichess_token"@, 4, c.lichess_token@);
    let x13 = x12.push(kv_line("lichess_token"@, 4, c.lichess_token@));
    let t13 = t12 + "lichess_token    = "@ + c.lichess_token@ + "\n"@;
    lemma_prefix_blunder_cp();
    lemma_step(x13, t13, "blunder_cp       = "@, "blunder_cp"@, 7, int_text(c.blunder_cp as int));
    let x14 = x13.push(kv_line("blunder_cp"@, 7, int_text(c.blunder_cp as int)));
    let t14 = t13 + "blunder_cp       = "@ + int_text(c.blunder_cp as int) + "\n"@;
    lemma_prefix_mistake_cp();
    lemma_step(x14, t14, "mistake_cp       = "@, "mistake_cp"@, 7, int_text(c.mistake_cp as int));
    let x15 = x14.push(kv_line("mistake_cp"@, 7, int_text(c.mistake_cp as int)));
    let t15 = t14 + "mistake_cp       = "@ + int_text(c.mistake_cp as int) + "\n"@;
    lemma_prefix_inaccuracy_cp();
    lemma_step(x15, t15, "inaccuracy_cp    = "@, "inaccuracy_cp"@, 4, int_text(c.inaccuracy_cp as int));
    let x16 = x15.push(kv_line("inaccuracy_cp"@, 4, int_text(c.inaccuracy_cp as int)));
    let t16 = t15 + "inaccuracy_cp    = "@ + int_text(c.inaccuracy_cp as int) + "\n"@;
    lemma_prefix_stockfish_skill();
    lemma_step(x16, t16, "stockfish_skill  = "@, "stockfish_skill"@, 2, dec_spec(c.stockfish_skill as nat));
    let x17 = x16.push(kv_line("stockfish_skill"@, 2, dec_spec(c.stockfish_skill as nat)));
    let t17 = t16 + "stockfish_skill  = "@ + dec_spec(c.stockfish_skill as nat) + "\n"@;
    lemma_prefix_analysis_engine();
    lemma_step(x17, t17, "analysis_engine  = "@, "analysis_engine"@, 2, analysis_engine_word(c.analysis_engine));
    let x18 = x17.push(kv_line("analysis_engine"@, 2, analysis_engine_word(c.analysis_engine)));
    let t18 = t17 + "analysis_engine  = "@ + analysis_engine_word(c.analysis_engine) + "\n"@;
    lemma_prefix_analysis_depth();
    lemma_step(x18, t18, "analysis_depth   = "@, "analysis_depth"@, 3, dec_spec(c.analysis_depth as nat));
    let x19 = x18.push(kv_line("analysis_depth"@, 3, dec_spec(c.analysis_depth as nat)));
    let t19 = t18 + "analysis_depth   = "@ + dec_spec(c.analysis_depth as nat) + "\n"@;
    lemma_prefix_highlight_brightness();
    lemma_step(x19, t19, "highlight_brightness = "@, "highlight_brightness"@, 1, dec_spec(c.highlight_brightness as nat));
    let x20 = x19.push(kv_line("highlight_brightness"@, 1, dec_spec(c.highlight_brightness as nat)));
    let t20 = t19 + "highlight_brightness = "@ + dec_spec(c.highlight_brightness as nat) + "\n"@;
    lemma_prefix_cell_w();
    lemma_step(x20, t20, "cell_w           = "@, "cell_w"@, 11, dec_spec(c.cell_w as nat));
    let x21 = x20.push(kv_line("cell_w"@, 11, dec_spec(c.cell_w as nat)));
    let t21 = t20 + "cell_w           = "@ + dec_spec(c.cell_w as nat) + "\n"@;
    lemma_prefix_cell_h();
    lemma_step(x21, t21, "cell_h           = "@, "cell_h"@, 11, dec_spec(c.cell_h as nat));
    let x22 = x21.push(kv_line("cell_h"@, 11, dec_spec(c.cell_h as nat)));
    let t22 = t21 + "cell_h           = "@ + dec_spec(c.cell_h as nat) + "\n"@;
    assert(x22 =~= config_lines(c));
}

proof fn lemma_key_theme()
    ensures key_ok("theme"@), key_index("theme"@) == 0, kidx("theme"@) == 0,
{
    reveal(kidx);
    reveal_strlit("theme");
    lemma_key_index("theme"@);
}

proof fn lemma_key_piece_style()
    ensures key_ok("piece_style"@), key_index("piece_style"@) == 1, kidx("piece_style"@) == 1,
{
    reveal(kidx);
    reveal_strlit("piece_style");
    lemma_key_index("piece_style"@);
}

proof fn lemma_key_ai_depth()
    ensures key_ok("ai_depth"@), key_index("ai_depth"@) == 2, kidx("ai_depth"@) == 2,
{
    reveal(kidx);
    reveal_strlit("ai_depth");
    lemma_key_index("ai_depth"@);
}

proof fn lemma_key_move_hints()
    ensures key_ok("move_hints"@), key_index("move_hints"@) == 3, kidx("move_hints"@) == 3,
{
    reveal(kidx);
    reveal_strlit("move_hints");
    lemma_key_index("move_hints"@);
}

proof fn lemma_key_time_control()
    ensures key_ok("time_control"@), key_index("time_control"@) == 4, kidx("time_control"@) == 4,
{
    reveal(kidx);
    reveal_strlit("time_control");
    lemma_key_index("time_control"@);
}

proof fn lemma_key_show_coords()
    ensures key_ok("show_coords"@), key_index("show_coords"@) == 5, kidx("show_coords"@) == 5,
{
    reveal(kidx);
    reveal_strlit("show_coords");
    lemma_key_index("show_coords"@);
}

proof fn lemma_key_show_clock()
    ensures key_ok("show_clock"@), key_index("show_clock"@) == 6, kidx("show_clock"@) == 6,
{
    reveal(kidx);
    reveal_strlit("show_clock");
    lemma_key_index("show_clock"@);
}

proof fn lemma_key_flip_board()
    ensures key_ok("flip_board"@), key_index("flip_board"@) == 7, kidx("flip_board"@) == 7,
{
    reveal(kidx);
    reveal_strlit("flip_board");
    lemma_key_index("flip_board"@);
}

proof fn lemma_key_auto_flip()
    ensures key_ok("auto_flip"@), key_index("auto_flip"@) == 8, kidx("auto_flip"@) == 8,
{
    reveal(kidx);
    reveal_strlit("auto_flip");
    lemma_key_index("auto_flip"@);
}

proof fn lemma_key_confirm_move()
    ensures key_ok("confirm_move"@), key_index("confirm_move"@) == 9, kidx("confirm_move"@) == 9,
{
    reveal(kidx);
    reveal_strlit("confirm_move");
    lemma_key_index("confirm_move"@);
}

proof fn lemma_key_ui_mode()
    ensures key_ok("ui_mode"@), key_index("ui_mode"@) == 10, kidx("ui_mode"@) == 10,
{
    reveal(kidx);
    reveal_strlit("ui_mode");
    lemma_key_index("ui_mode"@);
}

proof fn lemma_key_auto_save_png()
    ensures key_ok("auto_save_png"@), key_index("auto_save_png"@) == 11, kidx("auto_save_png"@) == 11,
{
    reveal(kidx);
    reveal_strlit("auto_save_png");
    lemma_key_index("auto_save_png"@);
}

proof fn lemma_key_lichess_token()
    ensures key_ok("lichess_token"@), key_index("lichess_token"@) == 12, kidx("lichess_token"@) == 12,
{
    reveal(kidx);
    reveal_strlit("lichess_token");
    lemma_key_index("lichess_token"@);
}

proof fn lemma_key_blunder_cp()
    ensures key_ok("blunder_cp"@), key_index("blunder_cp"@) == 13, kidx("blunder_cp"@) == 13,
{
    reveal(kidx);
    reveal_strlit("blunder_cp");
    lemma_key_index("blunder_cp"@);
}

proof fn lemma_key_mistake_cp()
    ensures key_ok("mistake_cp"@), key_index("mistake_cp"@) == 14, kidx("mistake_cp"@) == 14,
{
    reveal(kidx);
    reveal_strlit("mistake_cp");
    lemma_key_index("mistake_cp"@);
}

proof fn lemma_key_inaccuracy_cp()
    ensures key_ok("inaccuracy_cp"@), key_index("inaccuracy_cp"@) == 15, kidx("inaccuracy_cp"@) == 15,
{
    reveal(kidx);
    reveal_strlit("inaccuracy_cp");
    lemma_key_index("inaccuracy_cp"@);
}

proof fn lemma_key_stockfish_skill()
    ensures key_ok("stockfish_skill"@), key_index("stockfish_skill"@) == 16, kidx("stockfish_skill"@) == 16,
{
    reveal(kidx);
    reveal_strlit("stockfish_skill");
    lemma_key_index("stockfish_skill"@);
}

proof fn lemma_key_analysis_engine()
    ensures key_ok("analysis_engine"@), key_index("analysis_engine"@) == 17, kidx("analysis_engine"@) == 17,
{
    reveal(kidx);
    reveal_strlit("analysis_engine");
    lemma_key_index("analysis_engine"@);
}

proof fn lemma_key_analysis_depth()
    ensures key_ok("analysis_depth"@), key_index("analysis_depth"@) == 18, kidx("analysis_depth"@) == 18,
{
    reveal(kidx);
    reveal_strlit("analysis_depth");
    lemma_key_index("analysis_depth"@);
}

proof fn lemma_key_highlight_brightness()
    ensures key_ok("highlight_brightness"@), key_index("highlight_brightness"@) == 19, kidx("highlight_brightness"@) == 19,
{
    reveal(kidx);
    reveal_strlit("highlight_brightness");
    lemma_key_index("highlight_brightness"@);
}

proof fn lemma_key_cell_w()
    ensures key_ok("cell_w"@), key_index("cell_w"@) == 20, kidx("cell_w"@) == 20,
{
    reveal(kidx);
    reveal_strlit("cell_w");
    lemma_key_index("cell_w"@);
}

proof fn lemma_key_cell_h()
    ensures key_ok("cell_h"@), key_index("cell_h"@) == 21, kidx("cell_h"@) == 21,
{
    reveal(kidx);
    reveal_strlit("cell_h");
    lemma_key_index("cell_h"@);
}

proof fn lemma_lit_ok(s: Seq<char>)
    requires s.len() > 0, forall|i: int| 0 <= i < s.len() ==> 'a' <= #[trigger] s[i] <= 'z',
    ensures value_ok(s),
{
    assert(!is_ws_spec(s[0]));
    assert(!is_ws_spec(s.last())) by { assert(s.last() == s[s.len() - 1]); }
    if s.contains('\n') { let i = choose|i: int| 0 <= i < s.len() && s[i] == '\n'; }
}

proof fn lemma_dec_ok(n: nat)
    ensures value_ok(dec_spec(n)),
{
    lemma_dec_digits(n);
    let s = dec_spec(n);
    assert(is_digit(s[0]));
    assert(is_digit(s[s.len() - 1]));
    if s.contains('\n') { let i = choose|i: int| 0 <= i < s.len() && s[i] == '\n'; assert(is_digit(s[i])); }
}

proof fn lemma_int_ok(n: int)
    ensures value_ok(int_text(n)),
{
    if n < 0 {
        let d = dec_spec((-n) as nat);
        lemma_dec_digits((-n) as nat);
        let s = seq!['-'] + d;
        assert(s[0] == '-');
        assert(s.last() == d[d.len() - 1]);
        assert(is_digit(d[d.len() - 1]));
        if s.contains('\n') {
            let i = choose|i: int| 0 <= i < s.len() && s[i] == '\n';
            if i > 0 { assert(s[i] == d[i - 1]); assert(is_digit(d[i - 1])); }
        }
    } else {
        lemma_dec_ok(n as nat);
    }
}

proof fn lemma_theme_word(x: Theme)
    ensures value_ok(theme_word(x)), theme_of(theme_word(x)) == x,
{
    reveal_strlit("classic");
    reveal_strlit("tournament");
    reveal_strlit("mocha");
    reveal_strlit("slate");
    reveal_strlit("midnight");
    reveal_strlit("crimson");
    reveal_strlit("matteblack");
    reveal_strlit("ocean");
    lemma_lit_ok(theme_word(x));
}

proof fn lemma_piece_style_word(x: PieceStyle)
    ensures value_ok(piece_style_word(x)), piece_style_of(piece_style_word(x)) == x,
{
    reveal_strlit("unicode");
    reveal_strlit("letters");
    reveal_strlit("fatletters");
    reveal_strlit("blocks");
    lemma_lit_ok(piece_style_word(x));
}

proof fn lemma_move_hints_word(x: MoveHints)
    ensures value_ok(move_hints_word(x)), move_hints_of(move_hints_word(x)) == x,
{
    reveal_strlit("dots");
    reveal_strlit("highlight");
    reveal_strlit("none");
    lemma_lit_ok(move_hints_word(x));
}

proof fn lemma_time_control_word(x: TimeControl)
    ensures value_ok(time_control_word(x)), time_control_of(time_control_word(x)) == x,
{
    reveal_strlit("infinite");
    reveal_strlit("bullet");
    reveal_strlit("blitz");
    reveal_strlit("rapid");
    reveal_strlit("classical");
    lemma_lit_ok(time_control_word(x));
}

proof fn lemma_ui_mode_word(x: UiMode)
    ensures value_ok(ui_mode_word(x)), ui_mode_of(ui_mode_word(x)) == x,
{
    reveal_strlit("minimal");
    reveal_strlit("standard");
    reveal_strlit("analysis");
    lemma_lit_ok(ui_mode_word(x));
}

proof fn lemma_analysis_engine_word(x: AnalysisEngine)
    ensures value_ok(analysis_engine_word(x)), analysis_engine_of(analysis_engine_word(x)) == x,
{
    reveal_strlit("builtin");
    reveal_strlit("stockfish");
    lemma_lit_ok(analysis_engine_word(x));
}

proof fn lemma_bool_word(b: bool)
    ensures value_ok(bool_word(b)), (bool_word(b) == "true"@) == b,
{
    reveal_strlit("true");
    reveal_strlit("false");
    lemma_lit_ok(bool_word(b));
}

proof fn lemma_ai_depth(x: AiDepth)
    ensures value_ok(dec_spec(x.depth() as nat)), ai_depth_of(dec_spec(x.depth() as nat)) == x,
{
    reveal_strlit("1");
    reveal_strlit("2");
    reveal_strlit("4");
    lemma_dec_ok(x.depth() as nat);
    assert(dec_spec(1) =~= "1"@);
    assert(dec_spec(2) =~= "2"@);
    assert(dec_spec(3) =~= seq!['3']);
    assert(dec_spec(4) =~= "4"@);
}

proof fn lemma_parse_int(n: i32)
    ensures i32_or(int_text(n as int), 0) == n, forall|d: i32| i32_or(int_text(n as int), d) == n,
{
    if n < 0 {
        let m = (-(n as int)) as nat;
        lemma_dec_digits(m);
        let s = int_text(n as int);
        assert(s.drop_first() =~= dec_spec(m));
        assert(parse_signed_spec(s, i32::MIN as int, i32::MAX as nat) == Some(n as int));
    } else {
        lemma_parse_dec(n as nat, i32::MAX as nat);
        lemma_dec_digits(n as nat);
        assert(is_digit(dec_spec(n as nat)[0]));
        assert(parse_signed_spec(dec_spec(n as nat), i32::MIN as int, i32::MAX as nat) == Some(n as int));
    }
}

proof fn lemma_parse_u8(n: u8)
    ensures forall|d: u8| u8_or(dec_spec(n as nat), d) == n,
{
    lemma_parse_dec(n as nat, 255);
}

/// What saving needs of the settings so that they read back the same: a Lichess token
/// without surrounding whitespace or line breaks, and the ranged numbers within their ranges.
pub open spec fn config_savable(c: Config) -> bool {
    &&& value_ok(c.lichess_token@)
    &&& 1 <= c.analysis_depth <= 3
    &&& c.highlight_brightness <= 10
    &&& 4 <= c.cell_w <= 20
    &&& 2 <= c.cell_h <= 10
}

proof fn lemma_line_theme(c: Config)
    requires config_savable(c),
    ensures
        setting_line(setting_lines(c)[0]), kidx(line_key(setting_lines(c)[0])) == 0, plain_line(setting_lines(c)[0]),
        line_val(setting_lines(c)[0]) == values(c)[0], line_key(setting_lines(c)[0]) == keys()[0],
{
    lemma_theme_word(c.theme);
    lemma_key_theme();
    lemma_kv_line("theme"@, 12, theme_word(c.theme));
}

proof fn lemma_line_piece_style(c: Config)
    requires config_savable(c),
    ensures
        setting_line(setting_lines(c)[1]), kidx(line_key(setting_lines(c)[1])) == 1, plain_line(setting_lines(c)[1]),
        line_val(setting_lines(c)[1]) == values(c)[1], line_key(setting_lines(c)[1]) == keys()[1],
{
    lemma_piece_style_word(c.piece_style);
    lemma_key_piece_style();
    lemma_kv_line("piece_style"@, 6, piece_style_word(c.piece_style));
}

proof fn lemma_line_ai_depth(c: Config)
    requires config_savable(c),
    ensures
        setting_line(setting_lines(c)[2]), kidx(line_key(setting_lines(c)[2])) == 2, plain_line(setting_lines(c)[2]),
        line_val(setting_lines(c)[2]) == values(c)[2], line_key(setting_lines(c)[2]) == keys()[2],
{
    lemma_ai_depth(c.ai_depth);
    lemma_key_ai_depth();
    lemma_kv_line("ai_depth"@, 9, dec_spec(c.ai_depth.depth() as nat));
}

proof fn lemma_line_move_hints(c: Config)
    requires config_savable(c),
    ensures
        setting_line(setting_lines(c)[3]), kidx(line_key(setting_lines(c)[3])) == 3, plain_line(setting_lines(c)[3]),
        line_val(setting_lines(c)[3]) == values(c)[3], line_key(setting_lines(c)[3]) == keys()[3],
{
    lemma_move_hints_word(c.move_hints);
    lemma_key_move_hints();
    lemma_kv_line("move_hints"@, 7, move_hints_word(c.move_hints));
}

proof fn lemma_line_time_control(c: Config)
    requires config_savable(c),
    ensures
        setting_line(setting_lines(c)[4]), kidx(line_key(setting_lines(c)[4])) == 4, plain_line(setting_lines(c)[4]),
        line_val(setting_lines(c)[4]) == values(c)[4], line_key(setting_lines(c)[4]) == keys()[4],
{
    lemma_time_control_word(c.time_control);
    lemma_key_time_control();
    lemma_kv_line("time_control"@, 5, time_control_word(c.time_control));
}

proof fn lemma_line_show_coords(c: Config)
    requires config_savable(c),
    ensures
        setting_line(setting_lines(c)[5]), kidx(line_key(setting_lines(c)[5])) == 5, plain_line(setting_lines(c)[5]),
        line_val(setting_lines(c)[5]) == values(c)[5], line_key(setting_lines(c)[5]) == keys()[5],
{
    lemma_bool_word(c.show_coords);
    lemma_key_show_coords();
    lemma_kv_line("show_coords"@, 6, bool_word(c.show_coords));
}

proof fn lemma_line_show_clock(c: Config)
    requires config_savable(c),
    ensures
        setting_line(setting_lines(c)[6]), kidx(line_key(setting_lines(c)[6])) == 6, plain_line(setting_lines(c)[6]),
        line_val(setting_lines(c)[6]) == values(c)[6], line_key(setting_lines(c)[6]) == keys()[6],
{
    lemma_bool_word(c.show_clock);
    lemma_key_show_clock();
    lemma_kv_line("show_clock"@, 7, bool_word(c.show_clock));
}

proof fn lemma_line_flip_board(c: Config)
    requires config_savable(c),
    ensures
        setting_line(setting_lines(c)[7]), kidx(line_key(setting_lines(c)[7])) == 7, plain_line(setting_lines(c)[7]),
        line_val(setting_lines(c)[7]) == values(c)[7], line_key(setting_lines(c)[7]) == keys()[7],
{
    lemma_bool_word(c.flip_board);
    lemma_key_flip_board();
    lemma_kv_line("flip_board"@, 7, bool_word(c.flip_board));
}

proof fn lemma_line_auto_flip(c: Config)
    requires config_savable(c),
    ensures
        setting_line(setting_lines(c)[8]), kidx(line_key(setting_lines(c)[8])) == 8, plain_line(setting_lines(c)[8]),
        line_val(setting_lines(c)[8]) == values(c)[8], line_key(setting_lines(c)[8]) == keys()[8],
{
    lemma_bool_word(c.auto_flip);
    lemma_key_auto_flip();
    lemma_kv_line("auto_flip"@, 8, bool_word(c.auto_flip));
}

proof fn lemma_line_confirm_move(c: Config)
    requires config_savable(c),
    ensures
        setting_line(setting_lines(c)[9]), kidx(line_key(setting_lines(c)[9])) == 9, plain_line(setting_lines(c)[9]),
        line_val(setting_lines(c)[9]) == values(c)[9], line_key(setting_lines(c)[9]) == keys()[9],
{
    lemma_bool_word(c.confirm_move);
    lemma_key_confirm_move();
    lemma_kv_line("confirm_move"@, 5, bool_word(c.confirm_move));
}

proof fn lemma_line_ui_mode(c: Config)
    requires config_savable(c),
    ensures
        setting_line(setting_lines(c)[10]), kidx(line_key(setting_lines(c)[10])) == 10, plain_line(setting_lines(c)[10]),
        line_val(setting_lines(c)[10]) == values(c)[10], line_key(setting_lines(c)[10]) == keys()[10],
{
    lemma_ui_mode_word(c.ui_mode);
    lemma_key_ui_mode();
    lemma_kv_line("ui_mode"@, 10, ui_mode_word(c.ui_mode));
}

proof fn lemma_line_auto_save_png(c: Config)
    requires config_savable(c),
    ensures
        setting_line(setting_lines(c)[11]), kidx(line_key(setting_lines(c)[11])) == 11, plain_line(setting_lines(c)[11]),
        line_val(setting_lines(c)[11]) == values(c)[11], line_key(setting_lines(c)[11]) == keys()[11],
{
    lemma_bool_word(c.auto_save_png);
    lemma_key_auto_save_png();
    lemma_kv_line("auto_save_png"@, 4, bool_word(c.auto_save_png));
}

proof fn lemma_line_lichess_token(c: Config)
    requires config_savable(c),
    ensures
        setting_line(setting_lines(c)[12]), kidx(line_key(setting_lines(c)[12])) == 12, plain_line(setting_lines(c)[12]),
        line_val(setting_lines(c)[12]) == values(c)[12], line_key(setting_lines(c)[12]) == keys()[12],
{
    
    lemma_key_lichess_token();
    lemma_kv_line("lichess_token"@, 4, c.lichess_token@);
}

proof fn lemma_line_blunder_cp(c: Config)
    requires config_savable(c),
    ensures
        setting_line(setting_lines(c)[13]), kidx(line_key(setting_lines(c)[13])) == 13, plain_line(setting_lines(c)[13]),
        line_val(setting_lines(c)[13]) == values(c)[13], line_key(setting_lines(c)[13]) == keys()[13],
{
    lemma_int_ok(c.blunder_cp as int);
    lemma_key_blunder_cp();
    lemma_kv_line("blunder_cp"@, 7, int_text(c.blunder_cp as int));
}

proof fn lemma_line_mistake_cp(c: Config)
    requires config_savable(c),
    ensures
        setting_line(setting_lines(c)[14]), kidx(line_key(setting_lines(c)[14])) == 14, plain_line(setting_lines(c)[14]),
        line_val(setting_lines(c)[14]) == values(c)[14], line_key(setting_lines(c)[14]) == keys()[14],
{
    lemma_int_ok(c.mistake_cp as int);
    lemma_key_mistake_cp();
    lemma_kv_line("mistake_cp"@, 7, int_text(c.mistake_cp as int));
}

proof fn lemma_line_inaccuracy_cp(c: Config)
    requires config_savable(c),
    ensures
        setting_line(setting_lines(c)[15]), kidx(line_key(setting_lines(c)[15])) == 15, plain_line(setting_lines(c)[15]),
        line_val(setting_lines(c)[15]) == values(c)[15], line_key(setting_lines(c)[15]) == keys()[15],
{
    lemma_int_ok(c.inaccuracy_cp as int);
    lemma_key_inaccuracy_cp();
    lemma_kv_line("inaccuracy_cp"@, 4, int_text(c.inaccuracy_cp as int));
}

proof fn lemma_line_stockfish_skill(c: Config)
    requires config_savable(c),
    ensures
        setting_line(setting_lines(c)[16]), kidx(line_key(setting_lines(c)[16])) == 16, plain_line(setting_lines(c)[16]),
        line_val(setting_lines(c)[16]) == values(c)[16], line_key(setting_lines(c)[16]) == keys()[16],
{
    lemma_dec_ok(c.stockfish_skill as nat);
    lemma_key_stockfish_skill();
    lemma_kv_line("stockfish_skill"@, 2, dec_spec(c.stockfish_skill as nat));
}

proof fn lemma_line_analysis_engine(c: Config)
    requires config_savable(c),
    ensures
        setting_line(setting_lines(c)[17]), kidx(line_key(setting_lines(c)[17])) == 17, plain_line(setting_lines(c)[17]),
        line_val(setting_lines(c)[17]) == values(c)[17], line_key(setting_lines(c)[17]) == keys()[17],
{
    lemma_analysis_engine_word(c.analysis_engine);
    lemma_key_analysis_engine();
    lemma_kv_line("analysis_engine"@, 2, analysis_engine_word(c.analysis_engine));
}

proof fn lemma_line_analysis_depth(c: Config)
    requires config_savable(c),
    ensures
        setting_line(setting_lines(c)[18]), kidx(line_key(setting_lines(c)[18])) == 18, plain_line(setting_lines(c)[18]),
        line_val(setting_lines(c)[18]) == values(c)[18], line_key(setting_lines(c)[18]) == keys()[18],
{
    lemma_dec_ok(c.analysis_depth as nat);
    lemma_key_analysis_depth();
    lemma_kv_line("analysis_depth"@, 3, dec_spec(c.analysis_depth as nat));
}

proof fn lemma_line_highlight_brightness(c: Config)
    requires config_savable(c),
    ensures
        setting_line(setting_lines(c)[19]), kidx(line_key(setting_lines(c)[19])) == 19, plain_line(setting_lines(c)[19]),
        line_val(setting_lines(c)[19]) == values(c)[19], line_key(setting_lines(c)[19]) == keys()[19],
{
    lemma_dec_ok(c.highlight_brightness as nat);
    lemma_key_highlight_brightness();
    lemma_kv_line("highlight_brightness"@, 1, dec_spec(c.highlight_brightness as nat));
}

proof fn lemma_line_cell_w(c: Config)
    requires config_savable(c),
    ensures
        setting_line(setting_lines(c)[20]), kidx(line_key(setting_lines(c)[20])) == 20, plain_line(setting_lines(c)[20]),
        line_val(setting_lines(c)[20]) == values(c)[20], line_key(setting_lines(c)[20]) == keys()[20],
{
    lemma_dec_ok(c.cell_w as nat);
    lemma_key_cell_w();
    lemma_kv_line("cell_w"@, 11, dec_spec(c.cell_w as nat));
}

proof fn lemma_line_cell_h(c: Config)
    requires config_savable(c),
    ensures
        setting_line(setting_lines(c)[21]), kidx(line_key(setting_lines(c)[21])) == 21, plain_line(setting_lines(c)[21]),
        line_val(setting_lines(c)[21]) == values(c)[21], line_key(setting_lines(c)[21]) == keys()[21],
{
    lemma_dec_ok(c.cell_h as nat);
    lemma_key_cell_h();
    lemma_kv_line("cell_h"@, 11, dec_spec(c.cell_h as nat));
}

proof fn lemma_setting_facts(c: Config)
    requires config_savable(c),
    ensures
        forall|a: int| 0 <= a < 22 ==> setting_line(#[trigger] setting_lines(c)[a])
            && kidx(line_key(setting_lines(c)[a])) == a && plain_line(setting_lines(c)[a])
            && line_val(setting_lines(c)[a]) == values(c)[a] && line_key(setting_lines(c)[a]) == keys()[a],
{
    assert forall|a: int| 0 <= a < 22 implies setting_line(#[trigger] setting_lines(c)[a])
        && kidx(line_key(setting_lines(c)[a])) == a && plain_line(setting_lines(c)[a])
        && line_val(setting_lines(c)[a]) == values(c)[a] && line_key(setting_lines(c)[a]) == keys()[a] by {
        if a == 0 { lemma_line_theme(c); }
        else if a == 1 { lemma_line_piece_style(c); }
        else if a == 2 { lemma_line_ai_depth(c); }
        else if a == 3 { lemma_line_move_hints(c); }
        else if a == 4 { lemma_line_time_control(c); }
        else if a == 5 { lemma_line_show_coords(c); }
        else if a == 6 { lemma_line_show_clock(c); }
        else if a == 7 { lemma_line_flip_board(c); }
        else if a == 8 { lemma_line_auto_flip(c); }
        else if a == 9 { lemma_line_confirm_move(c); }
        else if a == 10 { lemma_line_ui_mode(c); }
        else if a == 11 { lemma_line_auto_save_png(c); }
        else if a == 12 { lemma_line_lichess_token(c); }
        else if a == 13 { lemma_line_blunder_cp(c); }
        else if a == 14 { lemma_line_mistake_cp(c); }
        else if a == 15 { lemma_line_inaccuracy_cp(c); }
        else if a == 16 { lemma_line_stockfish_skill(c); }
        else if a == 17 { lemma_line_analysis_engine(c); }
        else if a == 18 { lemma_line_analysis_depth(c); }
        else if a == 19 { lemma_line_highlight_brightness(c); }
        else if a == 20 { lemma_line_cell_w(c); }
        else if a == 21 { lemma_line_cell_h(c); }
    }
}

/// The last line with key `k` is the setting line of that key, where each setting line's
/// key has the index of its place.
proof fn lemma_last_val_idx(ls: Seq<Seq<char>>, k: Seq<char>, j: int)
    requires
        ls.len() == 33, 11 <= j < 33, kidx(k) == j - 11,
        forall|i: int| 11 <= i < 33 ==> setting_line(#[trigger] ls[i]) && kidx(line_key(ls[i])) == i - 11,
        line_key(ls[j]) == k,
    ensures last_val(ls, k) == Some(line_val(ls[j])),
{
    assert(setting_line(ls[j]));
    assert forall|i: int| j < i < ls.len() implies !(setting_line(#[trigger] ls[i]) && line_key(ls[i]) == k) by {
        assert(kidx(line_key(ls[i])) == i - 11);
    }
    lemma_last_val_at(ls, k, j);
}

proof fn lemma_plain_comment(l: Seq<char>)
    requires l.len() > 0, forall|i: int| 0 <= i < l.len() ==> #[trigger] l[i] != '\n' && l[i] != '\r',
    ensures plain_line(l),
{
    if l.contains('\n') { let i = choose|i: int| 0 <= i < l.len() && l[i] == '\n'; }
    assert(l.last() == l[l.len() - 1]);
}

proof fn lemma_header_plain()
    ensures forall|k: int| 0 <= k < 11 ==> plain_line(#[trigger] header_lines()[k]),
{
    reveal_strlit("# RChess TUI v0.7 \u{2014} edit here or use in-game Settings (s)");
    lemma_plain_comment("# RChess TUI v0.7 \u{2014} edit here or use in-game Settings (s)"@);
    reveal_strlit("#");
    lemma_plain_comment("#"@);
    reveal_strlit("# analysis_engine options:");
    lemma_plain_comment("# analysis_engine options:"@);
    reveal_strlit("#   builtin   \u{2014} pure Rust minimax, always works, no install needed");
    lemma_plain_comment("#   builtin   \u{2014} pure Rust minimax, always works, no install needed"@);
    reveal_strlit("#   stockfish \u{2014} install: sudo pacman -S stockfish  (Arch)");
    lemma_plain_comment("#   stockfish \u{2014} install: sudo pacman -S stockfish  (Arch)"@);
    reveal_strlit("#               install: sudo apt install stockfish (Ubuntu)");
    lemma_plain_comment("#               install: sudo apt install stockfish (Ubuntu)"@);
    reveal_strlit("#               then set: analysis_engine = stockfish");
    lemma_plain_comment("#               then set: analysis_engine = stockfish"@);
    reveal_strlit("# ui_mode options: minimal | standard | analysis");
    lemma_plain_comment("# ui_mode options: minimal | standard | analysis"@);
    reveal_strlit("# Press T in-game to cycle ui_mode quickly.");
    lemma_plain_comment("# Press T in-game to cycle ui_mode quickly."@);
    let h = header_lines();
    assert(plain_line(Seq::<char>::empty()));
    assert forall|k: int| 0 <= k < 11 implies plain_line(#[trigger] h[k]) by {
        if k == 0 {} else if k == 1 {} else if k == 2 {} else if k == 3 {} else if k == 4 {} else if k == 5 {}
        else if k == 6 {} else if k == 7 {} else if k == 8 {} else if k == 9 {} else {}
    }
}

/// Saving settings and reading the file back gives the same settings, for settings whose
/// Lichess token has no whitespace around it and no line break in it and whose ranged
/// numbers are within their ranges.
#[verifier::rlimit(100)]
#[verifier::spinoff_prover]
pub proof fn lemma_config_roundtrip(c: Config, d: Config)
    requires config_savable(c), d.from_lines(lines_spec(config_text(c))),
    ensures
        d.theme == c.theme, d.piece_style == c.piece_style, d.ai_depth == c.ai_depth, d.move_hints == c.move_hints,
        d.time_control == c.time_control, d.show_coords == c.show_coords, d.show_clock == c.show_clock,
        d.flip_board == c.flip_board, d.auto_flip == c.auto_flip, d.confirm_move == c.confirm_move,
        d.ui_mode == c.ui_mode, d.auto_save_png == c.auto_save_png, d.lichess_token@ == c.lichess_token@,
        d.blunder_cp == c.blunder_cp, d.mistake_cp == c.mistake_cp, d.inaccuracy_cp == c.inaccuracy_cp,
        d.stockfish_skill == c.stockfish_skill, d.analysis_engine == c.analysis_engine,
        d.analysis_depth == c.analysis_depth, d.highlight_brightness == c.highlight_brightness,
        d.cell_w == c.cell_w, d.cell_h == c.cell_h,
{
    lemma_config_text_lines(c);
    lemma_setting_facts(c);
    lemma_header_plain();
    let ls = config_lines(c);
    let s = setting_lines(c);
    assert forall|k: int| 0 <= k < ls.len() implies plain_line(#[trigger] ls[k]) by {
        if k < 11 { assert(ls[k] == header_lines()[k]); } else { assert(ls[k] == s[k - 11]); }
    }
    lemma_lines_join(ls);
    assert(lines_spec(config_text(c)) == ls);
    assert forall|i: int| 11 <= i < 33 implies setting_line(#[trigger] ls[i]) && kidx(line_key(ls[i])) == i - 11
        && line_val(ls[i]) == values(c)[i - 11] && line_key(ls[i]) == keys()[i - 11] by {
        assert(ls[i] == s[i - 11]);
    }
    lemma_key_theme();
    lemma_key_piece_style();
    lemma_key_ai_depth();
    lemma_key_move_hints();
    lemma_key_time_control();
    lemma_key_show_coords();
    lemma_key_show_clock();
    lemma_key_flip_board();
    lemma_key_auto_flip();
    lemma_key_confirm_move();
    lemma_key_ui_mode();
    lemma_key_auto_save_png();
    lemma_key_lichess_token();
    lemma_key_blunder_cp();
    lemma_key_mistake_cp();
    lemma_key_inaccuracy_cp();
    lemma_key_stockfish_skill();
    lemma_key_analysis_engine();
    lemma_key_analysis_depth();
    lemma_key_highlight_brightness();
    lemma_key_cell_w();
    lemma_key_cell_h();
    lemma_last_val_idx(ls, "theme"@, 11);
    lemma_last_val_idx(ls, "piece_style"@, 12);
    lemma_last_val_idx(ls, "ai_depth"@, 13);
    lemma_last_val_idx(ls, "move_hints"@, 14);
    lemma_last_val_idx(ls, "time_control"@, 15);
    lemma_last_val_idx(ls, "show_coords"@, 16);
    lemma_last_val_idx(ls, "show_clock"@, 17);
    lemma_last_val_idx(ls, "flip_board"@, 18);
    lemma_last_val_idx(ls, "auto_flip"@, 19);
    lemma_last_val_idx(ls, "confirm_move"@, 20);
    lemma_last_val_idx(ls, "ui_mode"@, 21);
    lemma_last_val_idx(ls, "auto_save_png"@, 22);
    lemma_last_val_idx(ls, "lichess_token"@, 23);
    lemma_last_val_idx(ls, "blunder_cp"@, 24);
    lemma_last_val_idx(ls, "mistake_cp"@, 25);
    lemma_last_val_idx(ls, "inaccuracy_cp"@, 26);
    lemma_last_val_idx(ls, "stockfish_skill"@, 27);
    lemma_last_val_idx(ls, "analysis_engine"@, 28);
    lemma_last_val_idx(ls, "analysis_depth"@, 29);
    lemma_last_val_idx(ls, "highlight_brightness"@, 30);
    lemma_last_val_idx(ls, "cell_w"@, 31);
    lemma_last_val_idx(ls, "cell_h"@, 32);
    lemma_theme_word(c.theme);
    lemma_piece_style_word(c.piece_style);
    lemma_ai_depth(c.ai_depth);
    lemma_move_hints_word(c.move_hints);
    lemma_time_control_word(c.time_control);
    lemma_bool_word(c.show_coords);
    lemma_bool_word(c.show_clock);
    lemma_bool_word(c.flip_board);
    lemma_bool_word(c.auto_flip);
    lemma_bool_word(c.confirm_move);
    lemma_ui_mode_word(c.ui_mode);
    lemma_bool_word(c.auto_save_png);
    lemma_parse_int(c.blunder_cp);
    lemma_parse_int(c.mistake_cp);
    lemma_parse_int(c.inaccuracy_cp);
    lemma_parse_u8(c.stockfish_skill);
    lemma_analysis_engine_word(c.analysis_engine);
    lemma_parse_u8(c.analysis_depth);
    lemma_parse_u8(c.highlight_brightness);
    lemma_parse_u8(c.cell_w);
    lemma_parse_u8(c.cell_h);
}

} // verus!
