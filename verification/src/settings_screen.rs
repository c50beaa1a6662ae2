//! The settings screen: its rows (a label and the current value of each option), the keys
//! that move between rows and cycle an option through its values, and the window of rows
//! that fits the terminal.
use vstd::prelude::*;
use crate::client_game::Key;
use crate::config::{Config, Theme, PieceStyle, AiDepth, MoveHints, TimeControl, UiMode, AnalysisEngine};
use crate::num::{push_dec, dec_spec};
use crate::text::{owned, push_str};

verus! {

/// The settings menu's rows, top to bottom; the last one (the Lichess token) has no values
/// to cycle.
pub const SETTINGS_ROWS: usize = 18;

/// The value after (`fwd`) or before the one at position `i` of `all`, wrapping round.
pub open spec fn cycled<T>(all: Seq<T>, i: int, fwd: bool) -> T {
    if fwd { all[(i + 1) % (all.len() as int)] } else { all[(i + all.len() - 1) % (all.len() as int)] }
}

pub open spec fn theme_order() -> Seq<Theme> {
    seq![Theme::Classic, Theme::Tournament, Theme::Mocha, Theme::Slate, Theme::Midnight, Theme::Crimson,
        Theme::MatteBlack, Theme::Ocean]
}

pub open spec fn theme_pos(t: Theme) -> int {
    match t {
        Theme::Classic => 0, Theme::Tournament => 1, Theme::Mocha => 2, Theme::Slate => 3,
        Theme::Midnight => 4, Theme::Crimson => 5, Theme::MatteBlack => 6, Theme::Ocean => 7,
    }
}

pub open spec fn piece_style_order() -> Seq<PieceStyle> {
    seq![PieceStyle::Unicode, PieceStyle::Letters, PieceStyle::FatLetters, PieceStyle::Blocks]
}

pub open spec fn piece_style_pos(p: PieceStyle) -> int {
    match p { PieceStyle::Unicode => 0, PieceStyle::Letters => 1, PieceStyle::FatLetters => 2, PieceStyle::Blocks => 3 }
}

pub open spec fn ai_depth_order() -> Seq<AiDepth> {
    seq![AiDepth::Easy, AiDepth::Medium, AiDepth::Hard, AiDepth::Expert]
}

pub open spec fn ai_depth_pos(d: AiDepth) -> int {
    match d { AiDepth::Easy => 0, AiDepth::Medium => 1, AiDepth::Hard => 2, AiDepth::Expert => 3 }
}

pub open spec fn move_hints_order() -> Seq<MoveHints> {
    seq![MoveHints::Dots, MoveHints::Highlight, MoveHints::Off]
}

pub open spec fn move_hints_pos(m: MoveHints) -> int {
    match m { MoveHints::Dots => 0, MoveHints::Highlight => 1, MoveHints::Off => 2 }
}

pub open spec fn time_control_order() -> Seq<TimeControl> {
    seq![TimeControl::Infinite, TimeControl::Bullet, TimeControl::Blitz, TimeControl::Rapid, TimeControl::Classical]
}

pub open spec fn time_control_pos(t: TimeControl) -> int {
    match t {
        TimeControl::Infinite => 0, TimeControl::Bullet => 1, TimeControl::Blitz => 2,
        TimeControl::Rapid => 3, TimeControl::Classical => 4,
    }
}

pub open spec fn ui_mode_order() -> Seq<UiMode> {
    seq![UiMode::Minimal, UiMode::Standard, UiMode::Analysis]
}

pub open spec fn ui_mode_pos(m: UiMode) -> int {
    match m { UiMode::Minimal => 0, UiMode::Standard => 1, UiMode::Analysis => 2 }
}

pub open spec fn engine_order() -> Seq<AnalysisEngine> {
    seq![AnalysisEngine::Builtin, AnalysisEngine::Stockfish]
}

pub open spec fn engine_pos(e: AnalysisEngine) -> int {
    match e { AnalysisEngine::Builtin => 0, AnalysisEngine::Stockfish => 1 }
}

/// What the front end has to do after a key on the settings screen.
#[derive(Clone, Copy, PartialEq, Eq, Debug, Structural)]
pub enum SettingsAction {
    Nothing,
    /// Write the settings file and show that it was saved.
    Save,
    /// Back to the main menu.
    Back,
    /// The analysis engine or its depth changed: restart it.
    RestartAnalysis,
}

/// Left or right on row `cur`: the option of that row goes to its previous or next value
/// (a switch flips; brightness moves by one within 0 to 10, square width within 4 to 20,
/// square height within 2 to 10; analysis depth cycles through 1, 2, 3). The action asks for
/// a restart of the analysis when its engine or depth changed.
pub open spec fn cycle_view(c: Config, cur: usize, fwd: bool) -> (Config, SettingsAction) {
    if cur == 0 {
        (Config { theme: cycled(theme_order(), theme_pos(c.theme), fwd), ..c }, SettingsAction::Nothing)
    } else if cur == 1 {
        (Config { piece_style: cycled(piece_style_order(), piece_style_pos(c.piece_style), fwd), ..c }, SettingsAction::Nothing)
    } else if cur == 2 {
        (Config { ai_depth: cycled(ai_depth_order(), ai_depth_pos(c.ai_depth), fwd), ..c }, SettingsAction::Nothing)
    } else if cur == 3 {
        (Config { move_hints: cycled(move_hints_order(), move_hints_pos(c.move_hints), fwd), ..c }, SettingsAction::Nothing)
    } else if cur == 4 {
        (Config { time_control: cycled(time_control_order(), time_control_pos(c.time_control), fwd), ..c }, SettingsAction::Nothing)
    } else if cur == 5 {
        (Config { show_coords: !c.show_coords, ..c }, SettingsAction::Nothing)
    } else if cur == 6 {
        (Config { show_clock: !c.show_clock, ..c }, SettingsAction::Nothing)
    } else if cur == 7 {
        (Config { flip_board: !c.flip_board, ..c }, SettingsAction::Nothing)
    } else if cur == 8 {
        (Config { auto_flip: !c.auto_flip, ..c }, SettingsAction::Nothing)
    } else if cur == 9 {
        (Config { confirm_move: !c.confirm_move, ..c }, SettingsAction::Nothing)
    } else if cur == 10 {
        (Config { ui_mode: cycled(ui_mode_order(), ui_mode_pos(c.ui_mode), fwd), ..c }, SettingsAction::Nothing)
    } else if cur == 11 {
        (Config { analysis_engine: cycled(engine_order(), engine_pos(c.analysis_engine), fwd), ..c }, SettingsAction::RestartAnalysis)
    } else if cur == 12 {
        let d = c.analysis_depth;
        (Config { analysis_depth: if fwd { (d % 3 + 1) as u8 } else if d <= 1 { 3u8 } else { (d - 1) as u8 }, ..c },
            SettingsAction::RestartAnalysis)
    } else if cur == 13 {
        (Config { auto_save_png: !c.auto_save_png, ..c }, SettingsAction::Nothing)
    } else if cur == 14 {
        let b = c.highlight_brightness;
        (Config { highlight_brightness: if fwd { if b + 1 < 10 { (b + 1) as u8 } else { 10u8 } }
            else if b >= 1 { (b - 1) as u8 } else { 0u8 }, ..c }, SettingsAction::Nothing)
    } else if cur == 15 {
        let w = c.cell_w;
        (Config { cell_w: if fwd { if w + 1 < 20 { (w + 1) as u8 } else { 20u8 } }
            else if w >= 5 { (w - 1) as u8 } else { 4u8 }, ..c }, SettingsAction::Nothing)
    } else if cur == 16 {
        let h = c.cell_h;
        (Config { cell_h: if fwd { if h + 1 < 10 { (h + 1) as u8 } else { 10u8 } }
            else if h >= 3 { (h - 1) as u8 } else { 2u8 }, ..c }, SettingsAction::Nothing)
    } else {
        (c, SettingsAction::Nothing)
    }
}

/// The settings as `Config::default` gives them.
pub open spec fn is_default(c: Config) -> bool {
    &&& c.theme == Theme::Classic && c.piece_style == PieceStyle::Unicode && c.ai_depth == AiDepth::Hard
    &&& c.move_hints == MoveHints::Dots && c.time_control == TimeControl::Infinite
    &&& c.show_coords && c.show_clock && !c.flip_board && !c.auto_flip && !c.confirm_move
    &&& c.ui_mode == UiMode::Standard && !c.auto_save_png && c.lichess_token@ == Seq::<char>::empty()
    &&& c.blunder_cp == 300 && c.mistake_cp == 100 && c.inaccuracy_cp == 50 && c.stockfish_skill == 10
    &&& c.analysis_engine == AnalysisEngine::Builtin && c.analysis_depth == 2 && c.highlight_brightness == 5
    &&& c.cell_w == 8 && c.cell_h == 4
}

/// A key on the settings screen, other than `r`: up and down (or `k` and `j`) move between the
/// rows, left and right (or `h` and `l`) cycle the row's option (see `cycle_view`), `w` or `s`
/// save, Esc or `q` go back.
pub open spec fn settings_key_view(c: Config, cur: usize, key: Key) -> (Config, usize, SettingsAction) {
    if key == Key::Up || key == Key::Char('k') {
        (c, if cur > 0 { (cur - 1) as usize } else { cur }, SettingsAction::Nothing)
    } else if key == Key::Down || key == Key::Char('j') {
        (c, if cur < 17 { (cur + 1) as usize } else { cur }, SettingsAction::Nothing)
    } else if key == Key::Left || key == Key::Char('h') {
        (cycle_view(c, cur, false).0, cur, cycle_view(c, cur, false).1)
    } else if key == Key::Right || key == Key::Char('l') {
        (cycle_view(c, cur, true).0, cur, cycle_view(c, cur, true).1)
    } else if key == Key::Char('w') || key == Key::Char('s') {
        (c, cur, SettingsAction::Save)
    } else if key == Key::Esc || key == Key::Char('q') {
        (c, cur, SettingsAction::Back)
    } else {
        (c, cur, SettingsAction::Nothing)
    }
}

/// Growing a square past 255 would overflow: the one key that cannot be taken.
pub open spec fn settings_key_ok(c: Config, cur: usize, key: Key) -> bool {
    (key == Key::Right || key == Key::Char('l')) ==> ((cur == 15 ==> c.cell_w < 255) && (cur == 16 ==> c.cell_h < 255))
}

fn next_theme(t: Theme, fwd: bool) -> (r: Theme)
    ensures r == cycled(theme_order(), theme_pos(t), fwd),
{
    let all: [Theme; 8] = [Theme::Classic, Theme::Tournament, Theme::Mocha, Theme::Slate, Theme::Midnight,
        Theme::Crimson, Theme::MatteBlack, Theme::Ocean];
    assert(all@ =~= theme_order());
    let i: usize = match t {
        Theme::Classic => 0, Theme::Tournament => 1, Theme::Mocha => 2, Theme::Slate => 3,
        Theme::Midnight => 4, Theme::Crimson => 5, Theme::MatteBlack => 6, Theme::Ocean => 7,
    };
    if fwd { all[(i + 1) % 8] } else { all[(i + 7) % 8] }
}

fn next_piece_style(p: PieceStyle, fwd: bool) -> (r: PieceStyle)
    ensures r == cycled(piece_style_order(), piece_style_pos(p), fwd),
{
    let all: [PieceStyle; 4] = [PieceStyle::Unicode, PieceStyle::Letters, PieceStyle::FatLetters, PieceStyle::Blocks];
    assert(all@ =~= piece_style_order());
    let i: usize = match p { PieceStyle::Unicode => 0, PieceStyle::Letters => 1, PieceStyle::FatLetters => 2, PieceStyle::Blocks => 3 };
    if fwd { all[(i + 1) % 4] } else { all[(i + 3) % 4] }
}

fn next_ai_depth(d: AiDepth, fwd: bool) -> (r: AiDepth)
    ensures r == cycled(ai_depth_order(), ai_depth_pos(d), fwd),
{
    let all: [AiDepth; 4] = [AiDepth::Easy, AiDepth::Medium, AiDepth::Hard, AiDepth::Expert];
    assert(all@ =~= ai_depth_order());
    let i: usize = match d { AiDepth::Easy => 0, AiDepth::Medium => 1, AiDepth::Hard => 2, AiDepth::Expert => 3 };
    if fwd { all[(i + 1) % 4] } else { all[(i + 3) % 4] }
}

fn next_move_hints(m: MoveHints, fwd: bool) -> (r: MoveHints)
    ensures r == cycled(move_hints_order(), move_hints_pos(m), fwd),
{
    let all: [MoveHints; 3] = [MoveHints::Dots, MoveHints::Highlight, MoveHints::Off];
    assert(all@ =~= move_hints_order());
    let i: usize = match m { MoveHints::Dots => 0, MoveHints::Highlight => 1, MoveHints::Off => 2 };
    if fwd { all[(i + 1) % 3] } else { all[(i + 2) % 3] }
}

fn next_time_control(t: TimeControl, fwd: bool) -> (r: TimeControl)
    ensures r == cycled(time_control_order(), time_control_pos(t), fwd),
{
    let all: [TimeControl; 5] = [TimeControl::Infinite, TimeControl::Bullet, TimeControl::Blitz, TimeControl::Rapid,
        TimeControl::Classical];
    assert(all@ =~= time_control_order());
    let i: usize = match t {
        TimeControl::Infinite => 0, TimeControl::Bullet => 1, TimeControl::Blitz => 2,
        TimeControl::Rapid => 3, TimeControl::Classical => 4,
    };
    if fwd { all[(i + 1) % 5] } else { all[(i + 4) % 5] }
}

fn next_ui_mode(m: UiMode, fwd: bool) -> (r: UiMode)
    ensures r == cycled(ui_mode_order(), ui_mode_pos(m), fwd),
{
    let all: [UiMode; 3] = [UiMode::Minimal, UiMode::Standard, UiMode::Analysis];
    assert(all@ =~= ui_mode_order());
    let i: usize = match m { UiMode::Minimal => 0, UiMode::Standard => 1, UiMode::Analysis => 2 };
    if fwd { all[(i + 1) % 3] } else { all[(i + 2) % 3] }
}

fn next_engine(e: AnalysisEngine, fwd: bool) -> (r: AnalysisEngine)
    ensures r == cycled(engine_order(), engine_pos(e), fwd),
{
    let all: [AnalysisEngine; 2] = [AnalysisEngine::Builtin, AnalysisEngine::Stockfish];
    assert(all@ =~= engine_order());
    let i: usize = match e { AnalysisEngine::Builtin => 0, AnalysisEngine::Stockfish => 1 };
    if fwd { all[(i + 1) % 2] } else { all[(i + 1) % 2] }
}

/// Left or right on row `cur` (see `cycle_view`).
#[verifier::rlimit(40)]
pub fn settings_cycle(cfg: &mut Config, cur: usize, fwd: bool) -> (a: SettingsAction)
    requires fwd ==> ((cur == 15 ==> old(cfg).cell_w < 255) && (cur == 16 ==> old(cfg).cell_h < 255)),
    ensures (*final(cfg), a) == cycle_view(*old(cfg), cur, fwd),
{
    if cur == 0 {
        cfg.theme = next_theme(cfg.theme, fwd);
    } else if cur == 1 {
        cfg.piece_style = next_piece_style(cfg.piece_style, fwd);
    } else if cur == 2 {
        cfg.ai_depth = next_ai_depth(cfg.ai_depth, fwd);
    } else if cur == 3 {
        cfg.move_hints = next_move_hints(cfg.move_hints, fwd);
    } else if cur == 4 {
        cfg.time_control = next_time_control(cfg.time_control, fwd);
    } else if cur == 5 {
        cfg.show_coords = !cfg.show_coords;
    } else if cur == 6 {
        cfg.show_clock = !cfg.show_clock;
    } else if cur == 7 {
        cfg.flip_board = !cfg.flip_board;
    } else if cur == 8 {
        cfg.auto_flip = !cfg.auto_flip;
    } else if cur == 9 {
        cfg.confirm_move = !cfg.confirm_move;
    } else if cur == 10 {
        cfg.ui_mode = next_ui_mode(cfg.ui_mode, fwd);
    } else if cur == 11 {
        cfg.analysis_engine = next_engine(cfg.analysis_engine, fwd);
        return SettingsAction::RestartAnalysis;
    } else if cur == 12 {
        let d = cfg.analysis_depth;
        cfg.analysis_depth = if fwd { d % 3 + 1 } else if d <= 1 { 3 } else { d - 1 };
        return SettingsAction::RestartAnalysis;
    } else if cur == 13 {
        cfg.auto_save_png = !cfg.auto_save_png;
    } else if cur == 14 {
        let b = cfg.highlight_brightness;
        cfg.highlight_brightness = if fwd { if b < 9 { b + 1 } else { 10 } } else if b >= 1 { b - 1 } else { 0 };
    } else if cur == 15 {
        let w = cfg.cell_w;
        cfg.cell_w = if fwd { if w < 19 { w + 1 } else { 20 } } else if w >= 5 { w - 1 } else { 4 };
    } else if cur == 16 {
        let h = cfg.cell_h;
        cfg.cell_h = if fwd { if h < 9 { h + 1 } else { 10 } } else if h >= 3 { h - 1 } else { 2 };
    }
    SettingsAction::Nothing
}

/// A key on the settings screen: `r` puts every setting back to its default; any other key
/// see `settings_key_view`.
pub fn settings_key(cfg: &mut Config, cur: &mut usize, key: Key) -> (a: SettingsAction)
    requires settings_key_ok(*old(cfg), *old(cur), key),
    ensures
        key == Key::Char('r') ==> is_default(*final(cfg)) && *final(cur) == *old(cur) && a == SettingsAction::Nothing,
        key != Key::Char('r') ==> (*final(cfg), *final(cur), a) == settings_key_view(*old(cfg), *old(cur), key),
{
    match key {
        Key::Up | Key::Char('k') => {
            if *cur > 0 { *cur = *cur - 1; }
            SettingsAction::Nothing
        },
        Key::Down | Key::Char('j') => {
            if *cur < 17 { *cur = *cur + 1; }
            SettingsAction::Nothing
        },
        Key::Left | Key::Char('h') => settings_cycle(cfg, *cur, false),
        Key::Right | Key::Char('l') => settings_cycle(cfg, *cur, true),
        Key::Char('w') | Key::Char('s') => SettingsAction::Save,
        Key::Char('r') => {
            *cfg = Config::default();
            SettingsAction::Nothing
        },
        Key::Esc | Key::Char('q') => SettingsAction::Back,
        _ => SettingsAction::Nothing,
    }
}

pub open spec fn on_off(b: bool) -> Seq<char> {
    if b { "ON"@ } else { "OFF"@ }
}

pub open spec fn analysis_depth_text(d: u8) -> Seq<char> {
    if d == 1 { "1  (fast)"@ } else if d == 2 { "2  (balanced)"@ } else { "3  (strong)"@ }
}

pub open spec fn brightness_text(b: u8) -> Seq<char> {
    if b == 0 { "0  (dim)"@ } else if b == 5 { "5  (default)"@ } else if b == 10 { "10 (vivid)"@ } else { dec_spec(b as nat) }
}

pub open spec fn cell_w_text(w: u8) -> Seq<char> {
    if w == 4 { "4 (tiny)"@ } else if w == 6 { "6 (small)"@ } else if w == 8 { "8 (default)"@ }
    else if w == 10 { "10 (large)"@ } else if w == 12 { "12 (huge)"@ } else { dec_spec(w as nat) }
}

pub open spec fn cell_h_text(h: u8) -> Seq<char> {
    if h == 2 { "2 (flat)"@ } else if h == 3 { "3"@ } else if h == 4 { "4 (default)"@ }
    else if h == 5 { "5"@ } else if h == 6 { "6 (tall)"@ } else { dec_spec(h as nat) }
}

pub open spec fn theme_name(t: Theme) -> Seq<char> {
    match t {
        Theme::Classic => "Classic      (cream/brown)"@,
        Theme::Tournament => "Tournament   (green/gold)"@,
        Theme::Mocha => "Mocha        (brown/cream)"@,
        Theme::Slate => "Slate        (grey/cyan)"@,
        Theme::Midnight => "Midnight     (navy/purple)"@,
        Theme::Crimson => "Crimson      (red/white)"@,
        Theme::MatteBlack => "Matte Black  (dark grey/gold)"@,
        Theme::Ocean => "Ocean        (navy/cyan)"@,
    }
}

pub open spec fn piece_style_name(p: PieceStyle) -> Seq<char> {
    match p {
        PieceStyle::Unicode => "Unicode symbols  \u{2654}\u{2655}\u{2656}\u{2657}\u{2658}\u{2659}"@,
        PieceStyle::Letters => "ASCII letters    K Q R B N P"@,
        PieceStyle::FatLetters => "Bracketed        [K][Q][R]\u{2026}"@,
        PieceStyle::Blocks => "Block art        \u{2588}\u{2588}\u{2588} (big pieces)"@,
    }
}

pub open spec fn ai_depth_name(d: AiDepth) -> Seq<char> {
    match d {
        AiDepth::Easy => "Easy    (depth 1)"@,
        AiDepth::Medium => "Medium  (depth 2)"@,
        AiDepth::Hard => "Hard    (depth 3)"@,
        AiDepth::Expert => "Expert  (depth 4, slow)"@,
    }
}

pub open spec fn move_hints_name(m: MoveHints) -> Seq<char> {
    match m {
        MoveHints::Dots => "Dots       (\u{b7} on target squares)"@,
        MoveHints::Highlight => "Highlight  (full square glow)"@,
        MoveHints::Off => "Off        (no hints)"@,
    }
}

pub open spec fn time_control_name(t: TimeControl) -> Seq<char> {
    match t {
        TimeControl::Infinite => "Infinite   (no clock)"@,
        TimeControl::Bullet => "Bullet     (1 min each)"@,
        TimeControl::Blitz => "Blitz      (3 min each)"@,
        TimeControl::Rapid => "Rapid      (10 min each)"@,
        TimeControl::Classical => "Classical  (30 min each)"@,
    }
}

pub open spec fn ui_mode_name(m: UiMode) -> Seq<char> {
    match m {
        UiMode::Minimal => "Minimal   (no engine info)"@,
        UiMode::Standard => "Standard  (compact eval)"@,
        UiMode::Analysis => "Analysis  (full panel)"@,
    }
}

pub open spec fn engine_name(e: AnalysisEngine) -> Seq<char> {
    match e {
        AnalysisEngine::Builtin => "Built-in  (minimax, always works)"@,
        AnalysisEngine::Stockfish => "Stockfish (pacman -S stockfish)"@,
    }
}

/// The rows of the settings screen: each option's label and its current value.
pub open spec fn settings_rows_spec(c: Config) -> Seq<(Seq<char>, Seq<char>)> {
    seq![
        ("Theme"@, theme_name(c.theme)),
        ("Piece style"@, piece_style_name(c.piece_style)),
        ("AI difficulty"@, ai_depth_name(c.ai_depth)),
        ("Move hints"@, move_hints_name(c.move_hints)),
        ("Time control"@, time_control_name(c.time_control)),
        ("Show coords"@, on_off(c.show_coords)),
        ("Show clock"@, on_off(c.show_clock)),
        ("Flip board"@, on_off(c.flip_board)),
        ("Auto-flip PvP"@, on_off(c.auto_flip)),
        ("Confirm move"@, on_off(c.confirm_move)),
        ("UI mode"@, ui_mode_name(c.ui_mode)),
        ("Analysis engine"@, engine_name(c.analysis_engine)),
        ("Analysis depth"@, analysis_depth_text(c.analysis_depth)),
        ("Auto-save PNG"@, on_off(c.auto_save_png)),
        ("Highlight bright"@, brightness_text(c.highlight_brightness)),
        ("Board cell width"@, cell_w_text(c.cell_w)),
        ("Board cell height"@, cell_h_text(c.cell_h)),
        ("Lichess token"@, if c.lichess_token@.len() == 0 { "(not set)"@ } else { "(configured \u{2713})"@ }),
    ]
}

pub open spec fn rows_view(r: Seq<(String, String)>) -> Seq<(Seq<char>, Seq<char>)> {
    r.map_values(|p: (String, String)| (p.0@, p.1@))
}

fn on_off_text(b: bool) -> (s: &'static str)
    ensures s@ == on_off(b),
{
    if b { "ON" } else { "OFF" }
}

fn number_text(n: u8) -> (s: String)
    ensures s@ == dec_spec(n as nat),
{
    let mut s = String::new();
    push_dec(&mut s, n as u64);
    s
}

fn brightness_string(b: u8) -> (s: String)
    ensures s@ == brightness_text(b),
{
    if b == 0 { owned("0  (dim)") } else if b == 5 { owned("5  (default)") } else if b == 10 { owned("10 (vivid)") }
    else { number_text(b) }
}

fn cell_w_string(w: u8) -> (s: String)
    ensures s@ == cell_w_text(w),
{
    if w == 4 { owned("4 (tiny)") } else if w == 6 { owned("6 (small)") } else if w == 8 { owned("8 (default)") }
    else if w == 10 { owned("10 (large)") } else if w == 12 { owned("12 (huge)") } else { number_text(w) }
}

fn cell_h_string(h: u8) -> (s: String)
    ensures s@ == cell_h_text(h),
{
    if h == 2 { owned("2 (flat)") } else if h == 3 { owned("3") } else if h == 4 { owned("4 (default)") }
    else if h == 5 { owned("5") } else if h == 6 { owned("6 (tall)") } else { number_text(h) }
}

fn row(label: &str, value: &str) -> (r: (String, String))
    ensures r.0@ == label@, r.1@ == value@,
{
    (owned(label), owned(value))
}

/// The rows of the settings screen for `cfg` (see `settings_rows_spec`).
#[verifier::rlimit(40)]
pub fn settings_rows(cfg: &Config) -> (r: Vec<(String, String)>)
    ensures rows_view(r@) == settings_rows_spec(*cfg),
{
    let mut r: Vec<(String, String)> = Vec::new();
    r.push(row("Theme", cfg.theme.name()));
    r.push(row("Piece style", cfg.piece_style.name()));
    r.push(row("AI difficulty", cfg.ai_depth.name()));
    r.push(row("Move hints", cfg.move_hints.name()));
    r.push(row("Time control", cfg.time_control.name()));
    r.push(row("Show coords", on_off_text(cfg.show_coords)));
    r.push(row("Show clock", on_off_text(cfg.show_clock)));
    r.push(row("Flip board", on_off_text(cfg.flip_board)));
    r.push(row("Auto-flip PvP", on_off_text(cfg.auto_flip)));
    r.push(row("Confirm move", on_off_text(cfg.confirm_move)));
    r.push(row("UI mode", cfg.ui_mode.name()));
    r.push(row("Analysis engine", cfg.analysis_engine.name()));
    let depth = if cfg.analysis_depth == 1 { "1  (fast)" } else if cfg.analysis_depth == 2 { "2  (balanced)" } else { "3  (strong)" };
    r.push(row("Analysis depth", depth));
    r.push(row("Auto-save PNG", on_off_text(cfg.auto_save_png)));
    r.push((owned("Highlight bright"), brightness_string(cfg.highlight_brightness)));
    r.push((owned("Board cell width"), cell_w_string(cfg.cell_w)));
    r.push((owned("Board cell height"), cell_h_string(cfg.cell_h)));
    let token = if cfg.lichess_token.as_str().is_empty() { "(not set)" } else { "(configured \u{2713})" };
    r.push(row("Lichess token", token));
    assert(rows_view(r@) =~= settings_rows_spec(*cfg));
    r
}

/// The first row shown when `visible` rows fit and row `cur` is selected: the selected row
/// stays in view, and the window never runs past the last of the `n` rows.
pub open spec fn settings_scroll_spec(cur: usize, n: usize, visible: usize) -> usize {
    let s = if cur < visible { 0 } else { cur + 1 - visible };
    let last = if n > visible { n - visible } else { 0 };
    (if s < last { s } else { last }) as usize
}

pub fn settings_scroll(cur: usize, n: usize, visible: usize) -> (s: usize)
    requires cur < n,
    ensures s == settings_scroll_spec(cur, n, visible),
{
    let s = if cur < visible { 0 } else { cur + 1 - visible };
    let last = if n > visible { n - visible } else { 0 };
    if s < last { s } else { last }
}

} // verus!
