//! User settings: the themes and options of the settings menu, and the configuration
//! file's text, read and written.
use vstd::prelude::*;
use crate::text::{push_str, push_char, chars_of, eq_lit, lines, trim, find_char, slice, string_of, lines_spec, trim_spec, find_char_spec};
use crate::num::{parse_unsigned, parse_signed, parse_unsigned_spec, parse_signed_spec, push_dec, push_dec_i, dec_spec};

verus! {

/// Colour scheme of the board and the panels.
#[derive(Clone, Copy, PartialEq, Eq, Debug, Structural)]
pub enum Theme {
    Classic,
    Tournament,
    Mocha,
    Slate,
    Midnight,
    Crimson,
    MatteBlack,
    Ocean,
}

impl Theme {
    /// The label shown in the settings menu.
    pub fn name(self) -> (r: &'static str)
        ensures
            r@ == (match self {
                    Theme::Classic => "Classic      (cream/brown)"@,
                    Theme::Tournament => "Tournament   (green/gold)"@,
                    Theme::Mocha => "Mocha        (brown/cream)"@,
                    Theme::Slate => "Slate        (grey/cyan)"@,
                    Theme::Midnight => "Midnight     (navy/purple)"@,
                    Theme::Crimson => "Crimson      (red/white)"@,
                    Theme::MatteBlack => "Matte Black  (dark grey/gold)"@,
                    Theme::Ocean => "Ocean        (navy/cyan)"@,
            }),
    {
        match self {
                Theme::Classic => "Classic      (cream/brown)",
                Theme::Tournament => "Tournament   (green/gold)",
                Theme::Mocha => "Mocha        (brown/cream)",
                Theme::Slate => "Slate        (grey/cyan)",
                Theme::Midnight => "Midnight     (navy/purple)",
                Theme::Crimson => "Crimson      (red/white)",
                Theme::MatteBlack => "Matte Black  (dark grey/gold)",
                Theme::Ocean => "Ocean        (navy/cyan)",
        }
    }

    /// Light and dark square colours.
    pub fn squares(self) -> (r: ((u8, u8, u8), (u8, u8, u8)))
        ensures
            r == (match self {
                Theme::Classic => ((240u8, 217u8, 181u8), (181u8, 136u8, 99u8)),
                Theme::Tournament => ((100u8, 140u8, 100u8), (50u8, 80u8, 50u8)),
                Theme::Mocha => ((180u8, 140u8, 100u8), (110u8, 80u8, 50u8)),
                Theme::Slate => ((90u8, 110u8, 130u8), (50u8, 65u8, 80u8)),
                Theme::Midnight => ((60u8, 60u8, 120u8), (30u8, 30u8, 70u8)),
                Theme::Crimson => ((160u8, 60u8, 60u8), (90u8, 30u8, 30u8)),
                Theme::MatteBlack => ((55u8, 55u8, 55u8), (22u8, 22u8, 22u8)),
                Theme::Ocean => ((40u8, 70u8, 110u8), (15u8, 35u8, 65u8)),
            }),
    {
        match self {
            Theme::Classic => ((240, 217, 181), (181, 136, 99)),
            Theme::Tournament => ((100, 140, 100), (50, 80, 50)),
            Theme::Mocha => ((180, 140, 100), (110, 80, 50)),
            Theme::Slate => ((90, 110, 130), (50, 65, 80)),
            Theme::Midnight => ((60, 60, 120), (30, 30, 70)),
            Theme::Crimson => ((160, 60, 60), (90, 30, 30)),
            Theme::MatteBlack => ((55, 55, 55), (22, 22, 22)),
            Theme::Ocean => ((40, 70, 110), (15, 35, 65)),
        }
    }

    /// Accent colour of borders and titles.
    pub fn accent(self) -> (r: (u8, u8, u8))
        ensures
            r == (match self {
                Theme::Classic => (160u8, 110u8, 60u8),
                Theme::Tournament => (210u8, 175u8, 60u8),
                Theme::Mocha => (200u8, 160u8, 90u8),
                Theme::Slate => (80u8, 200u8, 200u8),
                Theme::Midnight => (160u8, 100u8, 220u8),
                Theme::Crimson => (240u8, 200u8, 200u8),
                Theme::MatteBlack => (200u8, 160u8, 30u8),
                Theme::Ocean => (40u8, 220u8, 220u8),
            }),
    {
        match self {
            Theme::Classic => (160, 110, 60),
            Theme::Tournament => (210, 175, 60),
            Theme::Mocha => (200, 160, 90),
            Theme::Slate => (80, 200, 200),
            Theme::Midnight => (160, 100, 220),
            Theme::Crimson => (240, 200, 200),
            Theme::MatteBlack => (200, 160, 30),
            Theme::Ocean => (40, 220, 220),
        }
    }

    /// Colour of the selected square.
    pub fn select(self) -> (r: (u8, u8, u8))
        ensures
            r == (match self {
                Theme::Classic => (205u8, 210u8, 60u8),
                Theme::Tournament => (180u8, 160u8, 40u8),
                Theme::Mocha => (200u8, 170u8, 80u8),
                Theme::Slate => (60u8, 180u8, 180u8),
                Theme::Midnight => (120u8, 80u8, 200u8),
                Theme::Crimson => (220u8, 80u8, 80u8),
                Theme::MatteBlack => (180u8, 140u8, 20u8),
                Theme::Ocean => (20u8, 180u8, 200u8),
            }),
    {
        match self {
            Theme::Classic => (205, 210, 60),
            Theme::Tournament => (180, 160, 40),
            Theme::Mocha => (200, 170, 80),
            Theme::Slate => (60, 180, 180),
            Theme::Midnight => (120, 80, 200),
            Theme::Crimson => (220, 80, 80),
            Theme::MatteBlack => (180, 140, 20),
            Theme::Ocean => (20, 180, 200),
        }
    }

    /// Colour of the cursor square.
    pub fn cursor(self) -> (r: (u8, u8, u8))
        ensures
            r == (match self {
                Theme::MatteBlack => (220u8, 180u8, 30u8),
                Theme::Ocean => (50u8, 230u8, 230u8),
                _ => (200u8, 180u8, 50u8),
            }),
    {
        match self {
            Theme::MatteBlack => (220, 180, 30),
            Theme::Ocean => (50, 230, 230),
            _ => (200, 180, 50),
        }
    }

    /// Colour of the squares of the last move.
    pub fn last_move(self) -> (r: (u8, u8, u8))
        ensures
            r == (match self {
                Theme::MatteBlack => (160u8, 130u8, 20u8),
                Theme::Ocean => (30u8, 160u8, 180u8),
                _ => (160u8, 140u8, 30u8),
            }),
    {
        match self {
            Theme::MatteBlack => (160, 130, 20),
            Theme::Ocean => (30, 160, 180),
            _ => (160, 140, 30),
        }
    }

    /// Colours of the white and the black pieces.
    pub fn piece_colors(self) -> (r: ((u8, u8, u8), (u8, u8, u8)))
        ensures
            r == (match self {
                Theme::MatteBlack => ((240u8, 230u8, 200u8), (190u8, 190u8, 195u8)),
                Theme::Ocean => ((240u8, 250u8, 255u8), (20u8, 60u8, 120u8)),
                Theme::Classic => ((255u8, 248u8, 220u8), (15u8, 10u8, 5u8)),
                _ => ((240u8, 240u8, 240u8), (15u8, 15u8, 15u8)),
            }),
    {
        match self {
            Theme::MatteBlack => ((240, 230, 200), (190, 190, 195)),
            Theme::Ocean => ((240, 250, 255), (20, 60, 120)),
            Theme::Classic => ((255, 248, 220), (15, 10, 5)),
            _ => ((240, 240, 240), (15, 15, 15)),
        }
    }

    /// Background colours of the two panels.
    pub fn bg_colors(self) -> (r: ((u8, u8, u8), (u8, u8, u8)))
        ensures
            r == (match self {
                Theme::Classic => ((36u8, 22u8, 12u8), (52u8, 34u8, 18u8)),
                Theme::Tournament => ((14u8, 20u8, 14u8), (22u8, 30u8, 22u8)),
                Theme::Mocha => ((30u8, 18u8, 8u8), (44u8, 28u8, 14u8)),
                Theme::Slate => ((16u8, 20u8, 28u8), (22u8, 28u8, 40u8)),
                Theme::Midnight => ((8u8, 8u8, 20u8), (14u8, 14u8, 32u8)),
                Theme::Crimson => ((28u8, 8u8, 8u8), (42u8, 14u8, 14u8)),
                Theme::MatteBlack => ((8u8, 8u8, 8u8), (16u8, 16u8, 16u8)),
                Theme::Ocean => ((5u8, 15u8, 35u8), (10u8, 22u8, 50u8)),
            }),
    {
        match self {
            Theme::Classic => ((36, 22, 12), (52, 34, 18)),
            Theme::Tournament => ((14, 20, 14), (22, 30, 22)),
            Theme::Mocha => ((30, 18, 8), (44, 28, 14)),
            Theme::Slate => ((16, 20, 28), (22, 28, 40)),
            Theme::Midnight => ((8, 8, 20), (14, 14, 32)),
            Theme::Crimson => ((28, 8, 8), (42, 14, 14)),
            Theme::MatteBlack => ((8, 8, 8), (16, 16, 16)),
            Theme::Ocean => ((5, 15, 35), (10, 22, 50)),
        }
    }
}

/// How pieces are drawn.
#[derive(Clone, Copy, PartialEq, Eq, Debug, Structural)]
pub enum PieceStyle {
    Unicode,
    Letters,
    FatLetters,
    Blocks,
}

/// `char::to_ascii_uppercase`: `'a'..='z'` to `'A'..='Z'`, every other character unchanged.
pub open spec fn ascii_upper(c: char) -> char {
    if 'a' <= c <= 'z' { ((c as u32) - 32) as char } else { c }
}

/// `char::to_ascii_lowercase`: `'A'..='Z'` to `'a'..='z'`, every other character unchanged.
pub open spec fn ascii_lower(c: char) -> char {
    if 'A' <= c <= 'Z' { ((c as u32) + 32) as char } else { c }
}

pub fn to_ascii_upper(c: char) -> (r: char)
    ensures r == ascii_upper(c),
{
    if 'a' <= c && c <= 'z' { ((c as u8) - 32) as char } else { c }
}

pub fn to_ascii_lower(c: char) -> (r: char)
    ensures r == ascii_lower(c),
{
    if 'A' <= c && c <= 'Z' { ((c as u8) + 32) as char } else { c }
}

impl PieceStyle {
    /// The label shown in the settings menu.
    pub fn name(self) -> (r: &'static str)
        ensures
            r@ == (match self {
                    PieceStyle::Unicode => "Unicode symbols  \u{2654}\u{2655}\u{2656}\u{2657}\u{2658}\u{2659}"@,
                    PieceStyle::Letters => "ASCII letters    K Q R B N P"@,
                    PieceStyle::FatLetters => "Bracketed        [K][Q][R]\u{2026}"@,
                    PieceStyle::Blocks => "Block art        \u{2588}\u{2588}\u{2588} (big pieces)"@,
            }),
    {
        match self {
                PieceStyle::Unicode => "Unicode symbols  \u{2654}\u{2655}\u{2656}\u{2657}\u{2658}\u{2659}",
                PieceStyle::Letters => "ASCII letters    K Q R B N P",
                PieceStyle::FatLetters => "Bracketed        [K][Q][R]\u{2026}",
                PieceStyle::Blocks => "Block art        \u{2588}\u{2588}\u{2588} (big pieces)",
        }
    }

    /// The text of one piece: its symbol, or its letter in the side's case, bare or in brackets.
    pub fn render(self, sym: &'static str, letter: char, is_white: bool) -> (r: String)
        ensures
            r@ == (match self {
                PieceStyle::Unicode | PieceStyle::Blocks => sym@,
                PieceStyle::Letters => seq![if is_white { ascii_upper(letter) } else { ascii_lower(letter) }],
                PieceStyle::FatLetters => seq!['[', if is_white { ascii_upper(letter) } else { ascii_lower(letter) }, ']'],
            }),
    {
        let mut s = String::new();
        match self {
            PieceStyle::Unicode | PieceStyle::Blocks => {
                push_str(&mut s, sym);
            },
            PieceStyle::Letters => {
                let c = if is_white { to_ascii_upper(letter) } else { to_ascii_lower(letter) };
                push_char(&mut s, c);
            },
            PieceStyle::FatLetters => {
                let c = if is_white { to_ascii_upper(letter) } else { to_ascii_lower(letter) };
                push_char(&mut s, '[');
                push_char(&mut s, c);
                push_char(&mut s, ']');
            },
        }
        s
    }
}

/// Strength of the computer opponent: its search depth.
#[derive(Clone, Copy, PartialEq, Eq, Debug, Structural)]
pub enum AiDepth {
    Easy,
    Medium,
    Hard,
    Expert,
}

impl AiDepth {
    /// The label shown in the settings menu.
    pub fn name(self) -> (r: &'static str)
        ensures
            r@ == (match self {
                    AiDepth::Easy => "Easy    (depth 1)"@,
                    AiDepth::Medium => "Medium  (depth 2)"@,
                    AiDepth::Hard => "Hard    (depth 3)"@,
                    AiDepth::Expert => "Expert  (depth 4, slow)"@,
            }),
    {
        match self {
                AiDepth::Easy => "Easy    (depth 1)",
                AiDepth::Medium => "Medium  (depth 2)",
                AiDepth::Hard => "Hard    (depth 3)",
                AiDepth::Expert => "Expert  (depth 4, slow)",
        }
    }

    /// The search depth, 1 to 4.
    #[verifier::allow_in_spec]
    pub fn depth(self) -> u8
        returns
            (match self { AiDepth::Easy => 1u8, AiDepth::Medium => 2u8, AiDepth::Hard => 3u8, AiDepth::Expert => 4u8 }),
    {
        match self {
            AiDepth::Easy => 1,
            AiDepth::Medium => 2,
            AiDepth::Hard => 3,
            AiDepth::Expert => 4,
        }
    }

    /// The depth named by a settings value: `"1"`, `"2"` and `"4"` name their depth, anything
    /// else names `Hard`.
    pub fn from_text(s: &Vec<char>) -> (r: AiDepth)
        ensures r == ai_depth_of(s@),
    {
        if eq_lit(s, "1") {
            AiDepth::Easy
        } else if eq_lit(s, "2") {
            AiDepth::Medium
        } else if eq_lit(s, "4") {
            AiDepth::Expert
        } else {
            AiDepth::Hard
        }
    }
}

pub open spec fn ai_depth_of(s: Seq<char>) -> AiDepth {
    if s == "1"@ { AiDepth::Easy } else if s == "2"@ { AiDepth::Medium } else if s == "4"@ { AiDepth::Expert } else { AiDepth::Hard }
}

/// How the legal targets of the selected piece are shown.
#[derive(Clone, Copy, PartialEq, Eq, Debug, Structural)]
pub enum MoveHints {
    Dots,
    Highlight,
    Off,
}

impl MoveHints {
    /// The label shown in the settings menu.
    pub fn name(self) -> (r: &'static str)
        ensures
            r@ == (match self {
                    MoveHints::Dots => "Dots       (\u{b7} on target squares)"@,
                    MoveHints::Highlight => "Highlight  (full square glow)"@,
                    MoveHints::Off => "Off        (no hints)"@,
            }),
    {
        match self {
                MoveHints::Dots => "Dots       (\u{b7} on target squares)",
                MoveHints::Highlight => "Highlight  (full square glow)",
                MoveHints::Off => "Off        (no hints)",
        }
    }
}

/// The clock of a game.
#[derive(Clone, Copy, PartialEq, Eq, Debug, Structural)]
pub enum TimeControl {
    Infinite,
    Bullet,
    Blitz,
    Rapid,
    Classical,
}

impl TimeControl {
    /// The label shown in the settings menu.
    pub fn name(self) -> (r: &'static str)
        ensures
            r@ == (match self {
                    TimeControl::Infinite => "Infinite   (no clock)"@,
                    TimeControl::Bullet => "Bullet     (1 min each)"@,
                    TimeControl::Blitz => "Blitz      (3 min each)"@,
                    TimeControl::Rapid => "Rapid      (10 min each)"@,
                    TimeControl::Classical => "Classical  (30 min each)"@,
            }),
    {
        match self {
                TimeControl::Infinite => "Infinite   (no clock)",
                TimeControl::Bullet => "Bullet     (1 min each)",
                TimeControl::Blitz => "Blitz      (3 min each)",
                TimeControl::Rapid => "Rapid      (10 min each)",
                TimeControl::Classical => "Classical  (30 min each)",
        }
    }

    /// Each side's starting time in milliseconds; `None` for no clock.
    #[verifier::allow_in_spec]
    pub fn initial_ms(self) -> Option<u64>
        returns
            (match self {
                TimeControl::Infinite => None,
                TimeControl::Bullet => Some(60_000u64),
                TimeControl::Blitz => Some(180_000u64),
                TimeControl::Rapid => Some(600_000u64),
                TimeControl::Classical => Some(1_800_000u64),
            }),
    {
        match self {
            TimeControl::Infinite => None,
            TimeControl::Bullet => Some(60_000),
            TimeControl::Blitz => Some(180_000),
            TimeControl::Rapid => Some(600_000),
            TimeControl::Classical => Some(1_800_000),
        }
    }

    /// The short label shown beside the clock.
    pub fn short_label(self) -> (r: &'static str)
        ensures
            r@ == (match self {
                    TimeControl::Infinite => "\u{221e}"@,
                    TimeControl::Bullet => "1'"@,
                    TimeControl::Blitz => "3'"@,
                    TimeControl::Rapid => "10'"@,
                    TimeControl::Classical => "30'"@,
            }),
    {
        match self {
                TimeControl::Infinite => "\u{221e}",
                TimeControl::Bullet => "1'",
                TimeControl::Blitz => "3'",
                TimeControl::Rapid => "10'",
                TimeControl::Classical => "30'",
        }
    }
}

/// How much engine information the game screen shows.
#[derive(Clone, Copy, PartialEq, Eq, Debug, Structural)]
pub enum UiMode {
    /// Original clean UI: no engine panel shown.
    Minimal,
    /// Compact two-line eval bar (default).
    Standard,
    /// Full engine analysis panel with eval arrow, bar, and best move.
    Analysis,
}

impl UiMode {
    /// The label shown in the settings menu.
    pub fn name(self) -> (r: &'static str)
        ensures
            r@ == (match self {
                    UiMode::Minimal => "Minimal   (no engine info)"@,
                    UiMode::Standard => "Standard  (compact eval)"@,
                    UiMode::Analysis => "Analysis  (full panel)"@,
            }),
    {
        match self {
                UiMode::Minimal => "Minimal   (no engine info)",
                UiMode::Standard => "Standard  (compact eval)",
                UiMode::Analysis => "Analysis  (full panel)",
        }
    }
}

/// Which analysis backend to use. If Stockfish is selected but not found, the game falls
/// back to the built-in engine.
#[derive(Clone, Copy, PartialEq, Eq, Debug, Structural)]
pub enum AnalysisEngine {
    /// Minimax search of this crate: always available.
    Builtin,
    /// Stockfish over UCI: must be installed separately.
    Stockfish,
}

impl AnalysisEngine {
    /// The label shown in the settings menu.
    pub fn name(self) -> (r: &'static str)
        ensures
            r@ == (match self {
                    AnalysisEngine::Builtin => "Built-in  (minimax, always works)"@,
                    AnalysisEngine::Stockfish => "Stockfish (pacman -S stockfish)"@,
            }),
    {
        match self {
                AnalysisEngine::Builtin => "Built-in  (minimax, always works)",
                AnalysisEngine::Stockfish => "Stockfish (pacman -S stockfish)",
        }
    }
}

/// The user's settings.
#[derive(Clone, Debug)]
pub struct Config {
    pub theme: Theme,
    pub piece_style: PieceStyle,
    pub ai_depth: AiDepth,
    pub move_hints: MoveHints,
    pub time_control: TimeControl,
    pub show_coords: bool,
    pub show_clock: bool,
    pub flip_board: bool,
    pub auto_flip: bool,
    pub confirm_move: bool,
    pub ui_mode: UiMode,
    /// Save a PNG of the board when a game ends.
    pub auto_save_png: bool,
    /// Lichess API token for puzzle access (empty for anonymous).
    pub lichess_token: String,
    /// Centipawn loss from which a move is a blunder.
    pub blunder_cp: i32,
    /// Centipawn loss from which a move is a mistake.
    pub mistake_cp: i32,
    /// Centipawn loss from which a move is an inaccuracy.
    pub inaccuracy_cp: i32,
    /// Stockfish skill level 0-20 when it plays the computer side.
    pub stockfish_skill: u8,
    pub analysis_engine: AnalysisEngine,
    /// Depth of the built-in analysis engine (1 to 3).
    pub analysis_depth: u8,
    /// Highlight brightness 0-10.
    pub highlight_brightness: u8,
    /// Width of a board square in characters (4 to 20).
    pub cell_w: u8,
    /// Height of a board square in lines (2 to 10).
    pub cell_h: u8,
}

impl Default for Config {
    fn default() -> (r: Config)
        ensures
            r.theme == Theme::Classic,
            r.piece_style == PieceStyle::Unicode,
            r.ai_depth == AiDepth::Hard,
            r.move_hints == MoveHints::Dots,
            r.time_control == TimeControl::Infinite,
            r.show_coords == true,
            r.show_clock == true,
            r.flip_board == false,
            r.auto_flip == false,
            r.confirm_move == false,
            r.ui_mode == UiMode::Standard,
            r.auto_save_png == false,
            r.lichess_token@ == Seq::<char>::empty(),
            r.blunder_cp == 300,
            r.mistake_cp == 100,
            r.inaccuracy_cp == 50,
            r.stockfish_skill == 10,
            r.analysis_engine == AnalysisEngine::Builtin,
            r.analysis_depth == 2,
            r.highlight_brightness == 5,
            r.cell_w == 8,
            r.cell_h == 4,
    {
        Config {
            theme: Theme::Classic,
            piece_style: PieceStyle::Unicode,
            ai_depth: AiDepth::Hard,
            move_hints: MoveHints::Dots,
            time_control: TimeControl::Infinite,
            show_coords: true,
            show_clock: true,
            flip_board: false,
            auto_flip: false,
            confirm_move: false,
            ui_mode: UiMode::Standard,
            auto_save_png: false,
            lichess_token: String::new(),
            blunder_cp: 300,
            mistake_cp: 100,
            inaccuracy_cp: 50,
            stockfish_skill: 10,
            analysis_engine: AnalysisEngine::Builtin,
            analysis_depth: 2,
            highlight_brightness: 5,
            cell_w: 8,
            cell_h: 4,
        }
    }
}

pub open spec fn theme_of(v: Seq<char>) -> Theme {
    if v == "classic"@ { Theme::Classic }
    else if v == "mocha"@ { Theme::Mocha }
    else if v == "slate"@ { Theme::Slate }
    else if v == "midnight"@ { Theme::Midnight }
    else if v == "crimson"@ { Theme::Crimson }
    else if v == "matteblack"@ { Theme::MatteBlack }
    else if v == "ocean"@ { Theme::Ocean }
    else { Theme::Tournament }
}

pub open spec fn piece_style_of(v: Seq<char>) -> PieceStyle {
    if v == "letters"@ { PieceStyle::Letters }
    else if v == "fatletters"@ { PieceStyle::FatLetters }
    else if v == "blocks"@ { PieceStyle::Blocks }
    else { PieceStyle::Unicode }
}

pub open spec fn move_hints_of(v: Seq<char>) -> MoveHints {
    if v == "highlight"@ { MoveHints::Highlight } else if v == "none"@ { MoveHints::Off } else { MoveHints::Dots }
}

pub open spec fn time_control_of(v: Seq<char>) -> TimeControl {
    if v == "bullet"@ { TimeControl::Bullet }
    else if v == "blitz"@ { TimeControl::Blitz }
    else if v == "rapid"@ { TimeControl::Rapid }
    else if v == "classical"@ { TimeControl::Classical }
    else { TimeControl::Infinite }
}

pub open spec fn ui_mode_of(v: Seq<char>) -> UiMode {
    if v == "minimal"@ { UiMode::Minimal } else if v == "analysis"@ { UiMode::Analysis } else { UiMode::Standard }
}

pub open spec fn analysis_engine_of(v: Seq<char>) -> AnalysisEngine {
    if v == "stockfish"@ { AnalysisEngine::Stockfish } else { AnalysisEngine::Builtin }
}

/// `v.parse::<i32>().unwrap_or(d)`.
pub open spec fn i32_or(v: Seq<char>, d: i32) -> i32 {
    match parse_signed_spec(v, i32::MIN as int, i32::MAX as nat) { Some(n) => n as i32, None => d }
}

/// `v.parse::<u8>().unwrap_or(d)`.
pub open spec fn u8_or(v: Seq<char>, d: u8) -> u8 {
    match parse_unsigned_spec(v, 255) { Some(n) => n as u8, None => d }
}

/// `x.clamp(lo, hi)`.
pub open spec fn clamp_u8(x: u8, lo: u8, hi: u8) -> u8 {
    if x < lo { lo } else if x > hi { hi } else { x }
}

/// A line of the configuration file, trimmed; it sets a key when it does not start with `#`
/// and holds a `=`.
pub open spec fn setting_line(l: Seq<char>) -> bool {
    let t = trim_spec(l);
    !(t.len() > 0 && t[0] == '#') && find_char_spec(t, '=') < t.len()
}

/// The key of a setting line: the trimmed text before its first `=`.
pub open spec fn line_key(l: Seq<char>) -> Seq<char> {
    let t = trim_spec(l);
    trim_spec(t.take(find_char_spec(t, '=')))
}

/// The value of a setting line: the trimmed text after its first `=`.
pub open spec fn line_val(l: Seq<char>) -> Seq<char> {
    let t = trim_spec(l);
    trim_spec(t.skip(find_char_spec(t, '=') + 1))
}

/// The value that the last setting line with key `k` gives, if any.
pub open spec fn last_val(ls: Seq<Seq<char>>, k: Seq<char>) -> Option<Seq<char>>
    decreases ls.len(),
{
    if ls.len() == 0 {
        None
    } else if setting_line(ls.last()) && line_key(ls.last()) == k {
        Some(line_val(ls.last()))
    } else {
        last_val(ls.drop_last(), k)
    }
}

pub open spec fn theme_setting(ls: Seq<Seq<char>>) -> Theme {
    match last_val(ls, "theme"@) { Some(v) => theme_of(v), None => Theme::Classic }
}

pub open spec fn piece_style_setting(ls: Seq<Seq<char>>) -> PieceStyle {
    match last_val(ls, "piece_style"@) { Some(v) => piece_style_of(v), None => PieceStyle::Unicode }
}

pub open spec fn ai_depth_setting(ls: Seq<Seq<char>>) -> AiDepth {
    match last_val(ls, "ai_depth"@) { Some(v) => ai_depth_of(v), None => AiDepth::Hard }
}

pub open spec fn move_hints_setting(ls: Seq<Seq<char>>) -> MoveHints {
    match last_val(ls, "move_hints"@) { Some(v) => move_hints_of(v), None => MoveHints::Dots }
}

pub open spec fn time_control_setting(ls: Seq<Seq<char>>) -> TimeControl {
    match last_val(ls, "time_control"@) { Some(v) => time_control_of(v), None => TimeControl::Infinite }
}

pub open spec fn show_coords_setting(ls: Seq<Seq<char>>) -> bool {
    match last_val(ls, "show_coords"@) { Some(v) => v == "true"@, None => true }
}

pub open spec fn show_clock_setting(ls: Seq<Seq<char>>) -> bool {
    match last_val(ls, "show_clock"@) { Some(v) => v == "true"@, None => true }
}

pub open spec fn flip_board_setting(ls: Seq<Seq<char>>) -> bool {
    match last_val(ls, "flip_board"@) { Some(v) => v == "true"@, None => false }
}

pub open spec fn auto_flip_setting(ls: Seq<Seq<char>>) -> bool {
    match last_val(ls, "auto_flip"@) { Some(v) => v == "true"@, None => false }
}

pub open spec fn confirm_move_setting(ls: Seq<Seq<char>>) -> bool {
    match last_val(ls, "confirm_move"@) { Some(v) => v == "true"@, None => false }
}

pub open spec fn ui_mode_setting(ls: Seq<Seq<char>>) -> UiMode {
    match last_val(ls, "ui_mode"@) { Some(v) => ui_mode_of(v), None => UiMode::Standard }
}

pub open spec fn auto_save_png_setting(ls: Seq<Seq<char>>) -> bool {
    match last_val(ls, "auto_save_png"@) { Some(v) => v == "true"@, None => false }
}

/// The `lichess_token` that the lines give: the last value, or the default.
pub open spec fn lichess_token_setting(ls: Seq<Seq<char>>) -> Seq<char> {
    match last_val(ls, "lichess_token"@) { Some(v) => v, None => Seq::empty() }
}

pub open spec fn blunder_cp_setting(ls: Seq<Seq<char>>) -> i32 {
    match last_val(ls, "blunder_cp"@) { Some(v) => i32_or(v, 300), None => 300 }
}

pub open spec fn mistake_cp_setting(ls: Seq<Seq<char>>) -> i32 {
    match last_val(ls, "mistake_cp"@) { Some(v) => i32_or(v, 100), None => 100 }
}

pub open spec fn inaccuracy_cp_setting(ls: Seq<Seq<char>>) -> i32 {
    match last_val(ls, "inaccuracy_cp"@) { Some(v) => i32_or(v, 50), None => 50 }
}

pub open spec fn stockfish_skill_setting(ls: Seq<Seq<char>>) -> u8 {
    match last_val(ls, "stockfish_skill"@) { Some(v) => u8_or(v, 10), None => 10 }
}

pub open spec fn analysis_engine_setting(ls: Seq<Seq<char>>) -> AnalysisEngine {
    match last_val(ls, "analysis_engine"@) { Some(v) => analysis_engine_of(v), None => AnalysisEngine::Builtin }
}

pub open spec fn analysis_depth_setting(ls: Seq<Seq<char>>) -> u8 {
    match last_val(ls, "analysis_depth"@) { Some(v) => clamp_u8(u8_or(v, 2), 1, 3), None => 2 }
}

pub open spec fn highlight_brightness_setting(ls: Seq<Seq<char>>) -> u8 {
    match last_val(ls, "highlight_brightness"@) { Some(v) => clamp_u8(u8_or(v, 5), 0, 10), None => 5 }
}

pub open spec fn cell_w_setting(ls: Seq<Seq<char>>) -> u8 {
    match last_val(ls, "cell_w"@) { Some(v) => clamp_u8(u8_or(v, 8), 4, 20), None => 8 }
}

pub open spec fn cell_h_setting(ls: Seq<Seq<char>>) -> u8 {
    match last_val(ls, "cell_h"@) { Some(v) => clamp_u8(u8_or(v, 4), 2, 10), None => 4 }
}

impl Config {
    /// The configuration that the lines `ls` of a configuration file give: each setting
    /// takes the value of the last line that sets it, or its default.
    pub open spec fn from_lines(self, ls: Seq<Seq<char>>) -> bool {
        &&& self.theme == theme_setting(ls)
        &&& self.piece_style == piece_style_setting(ls)
        &&& self.ai_depth == ai_depth_setting(ls)
        &&& self.move_hints == move_hints_setting(ls)
        &&& self.time_control == time_control_setting(ls)
        &&& self.show_coords == show_coords_setting(ls)
        &&& self.show_clock == show_clock_setting(ls)
        &&& self.flip_board == flip_board_setting(ls)
        &&& self.auto_flip == auto_flip_setting(ls)
        &&& self.confirm_move == confirm_move_setting(ls)
        &&& self.ui_mode == ui_mode_setting(ls)
        &&& self.auto_save_png == auto_save_png_setting(ls)
        &&& self.lichess_token@ == lichess_token_setting(ls)
        &&& self.blunder_cp == blunder_cp_setting(ls)
        &&& self.mistake_cp == mistake_cp_setting(ls)
        &&& self.inaccuracy_cp == inaccuracy_cp_setting(ls)
        &&& self.stockfish_skill == stockfish_skill_setting(ls)
        &&& self.analysis_engine == analysis_engine_setting(ls)
        &&& self.analysis_depth == analysis_depth_setting(ls)
        &&& self.highlight_brightness == highlight_brightness_setting(ls)
        &&& self.cell_w == cell_w_setting(ls)
        &&& self.cell_h == cell_h_setting(ls)
    }

    /// `self` after the setting `k = v`: the field that `k` names takes the value `v` gives.
    pub open spec fn set(self, old: Config, k: Seq<char>, v: Seq<char>) -> bool {
        &&& self.theme == (if key_index(k) == 0 { theme_of(v) } else { old.theme })
        &&& self.piece_style == (if key_index(k) == 1 { piece_style_of(v) } else { old.piece_style })
        &&& self.ai_depth == (if key_index(k) == 2 { ai_depth_of(v) } else { old.ai_depth })
        &&& self.move_hints == (if key_index(k) == 3 { move_hints_of(v) } else { old.move_hints })
        &&& self.time_control == (if key_index(k) == 4 { time_control_of(v) } else { old.time_control })
        &&& self.show_coords == (if key_index(k) == 5 { v == "true"@ } else { old.show_coords })
        &&& self.show_clock == (if key_index(k) == 6 { v == "true"@ } else { old.show_clock })
        &&& self.flip_board == (if key_index(k) == 7 { v == "true"@ } else { old.flip_board })
        &&& self.auto_flip == (if key_index(k) == 8 { v == "true"@ } else { old.auto_flip })
        &&& self.confirm_move == (if key_index(k) == 9 { v == "true"@ } else { old.confirm_move })
        &&& self.ui_mode == (if key_index(k) == 10 { ui_mode_of(v) } else { old.ui_mode })
        &&& self.auto_save_png == (if key_index(k) == 11 { v == "true"@ } else { old.auto_save_png })
        &&& self.lichess_token@ == (if key_index(k) == 12 { v } else { old.lichess_token@ })
        &&& self.blunder_cp == (if key_index(k) == 13 { i32_or(v, 300) } else { old.blunder_cp })
        &&& self.mistake_cp == (if key_index(k) == 14 { i32_or(v, 100) } else { old.mistake_cp })
        &&& self.inaccuracy_cp == (if key_index(k) == 15 { i32_or(v, 50) } else { old.inaccuracy_cp })
        &&& self.stockfish_skill == (if key_index(k) == 16 { u8_or(v, 10) } else { old.stockfish_skill })
        &&& self.analysis_engine == (if key_index(k) == 17 { analysis_engine_of(v) } else { old.analysis_engine })
        &&& self.analysis_depth == (if key_index(k) == 18 { clamp_u8(u8_or(v, 2), 1, 3) } else { old.analysis_depth })
        &&& self.highlight_brightness == (if key_index(k) == 19 { clamp_u8(u8_or(v, 5), 0, 10) } else { old.highlight_brightness })
        &&& self.cell_w == (if key_index(k) == 20 { clamp_u8(u8_or(v, 8), 4, 20) } else { old.cell_w })
        &&& self.cell_h == (if key_index(k) == 21 { clamp_u8(u8_or(v, 4), 2, 10) } else { old.cell_h })
    }

    fn theme_from(v: &Vec<char>) -> (r: Theme)
        ensures r == theme_of(v@),
    {
        if eq_lit(v, "classic") { Theme::Classic }
        else if eq_lit(v, "mocha") { Theme::Mocha }
        else if eq_lit(v, "slate") { Theme::Slate }
        else if eq_lit(v, "midnight") { Theme::Midnight }
        else if eq_lit(v, "crimson") { Theme::Crimson }
        else if eq_lit(v, "matteblack") { Theme::MatteBlack }
        else if eq_lit(v, "ocean") { Theme::Ocean }
        else { Theme::Tournament }
    }

    fn piece_style_from(v: &Vec<char>) -> (r: PieceStyle)
        ensures r == piece_style_of(v@),
    {
        if eq_lit(v, "letters") { PieceStyle::Letters }
        else if eq_lit(v, "fatletters") { PieceStyle::FatLetters }
        else if eq_lit(v, "blocks") { PieceStyle::Blocks }
        else { PieceStyle::Unicode }
    }

    fn move_hints_from(v: &Vec<char>) -> (r: MoveHints)
        ensures r == move_hints_of(v@),
    {
        if eq_lit(v, "highlight") { MoveHints::Highlight } else if eq_lit(v, "none") { MoveHints::Off } else { MoveHints::Dots }
    }

    fn time_control_from(v: &Vec<char>) -> (r: TimeControl)
        ensures r == time_control_of(v@),
    {
        if eq_lit(v, "bullet") { TimeControl::Bullet }
        else if eq_lit(v, "blitz") { TimeControl::Blitz }
        else if eq_lit(v, "rapid") { TimeControl::Rapid }
        else if eq_lit(v, "classical") { TimeControl::Classical }
        else { TimeControl::Infinite }
    }

    fn ui_mode_from(v: &Vec<char>) -> (r: UiMode)
        ensures r == ui_mode_of(v@),
    {
        if eq_lit(v, "minimal") { UiMode::Minimal } else if eq_lit(v, "analysis") { UiMode::Analysis } else { UiMode::Standard }
    }

    fn analysis_engine_from(v: &Vec<char>) -> (r: AnalysisEngine)
        ensures r == analysis_engine_of(v@),
    {
        if eq_lit(v, "stockfish") { AnalysisEngine::Stockfish } else { AnalysisEngine::Builtin }
    }

    fn i32_from(v: &Vec<char>, d: i32) -> (r: i32)
        ensures r == i32_or(v@, d),
    {
        match parse_signed(v, 2147483648, 2147483647) {
            Some(n) => n as i32,
            None => d,
        }
    }

    fn u8_from(v: &Vec<char>, d: u8, lo: u8, hi: u8) -> (r: u8)
        requires lo <= hi,
        ensures r == clamp_u8(u8_or(v@, d), lo, hi),
    {
        let x: u8 = match parse_unsigned(v, 255) {
            Some(n) => n as u8,
            None => d,
        };
        if x < lo { lo } else if x > hi { hi } else { x }
    }

    /// Applies the setting `key = val`; an unknown key changes nothing.
    #[verifier::rlimit(40)]
    fn apply(&mut self, key: &Vec<char>, val: &Vec<char>)
        ensures final(self).set(*old(self), key@, val@),
    {
        proof { lemma_key_index(key@); }
        if eq_lit(key, "theme") {
            self.theme = Config::theme_from(val);
        } else if eq_lit(key, "piece_style") {
            self.piece_style = Config::piece_style_from(val);
        } else if eq_lit(key, "ai_depth") {
            self.ai_depth = AiDepth::from_text(val);
        } else if eq_lit(key, "move_hints") {
            self.move_hints = Config::move_hints_from(val);
        } else if eq_lit(key, "time_control") {
            self.time_control = Config::time_control_from(val);
        } else if eq_lit(key, "show_coords") {
            self.show_coords = eq_lit(val, "true");
        } else if eq_lit(key, "show_clock") {
            self.show_clock = eq_lit(val, "true");
        } else if eq_lit(key, "flip_board") {
            self.flip_board = eq_lit(val, "true");
        } else if eq_lit(key, "auto_flip") {
            self.auto_flip = eq_lit(val, "true");
        } else if eq_lit(key, "confirm_move") {
            self.confirm_move = eq_lit(val, "true");
        } else if eq_lit(key, "ui_mode") {
            self.ui_mode = Config::ui_mode_from(val);
        } else if eq_lit(key, "auto_save_png") {
            self.auto_save_png = eq_lit(val, "true");
        } else if eq_lit(key, "lichess_token") {
            self.lichess_token = string_of(val);
        } else if eq_lit(key, "blunder_cp") {
            self.blunder_cp = Config::i32_from(val, 300);
        } else if eq_lit(key, "mistake_cp") {
            self.mistake_cp = Config::i32_from(val, 100);
        } else if eq_lit(key, "inaccuracy_cp") {
            self.inaccuracy_cp = Config::i32_from(val, 50);
        } else if eq_lit(key, "stockfish_skill") {
            self.stockfish_skill = Config::u8_from(val, 10, 0, 255);
        } else if eq_lit(key, "analysis_engine") {
            self.analysis_engine = Config::analysis_engine_from(val);
        } else if eq_lit(key, "analysis_depth") {
            self.analysis_depth = Config::u8_from(val, 2, 1, 3);
        } else if eq_lit(key, "highlight_brightness") {
            self.highlight_brightness = Config::u8_from(val, 5, 0, 10);
        } else if eq_lit(key, "cell_w") {
            self.cell_w = Config::u8_from(val, 8, 4, 20);
        } else if eq_lit(key, "cell_h") {
            self.cell_h = Config::u8_from(val, 4, 2, 10);
        }
    }

    /// The settings that the text of a configuration file gives: each line is trimmed; one that
    /// starts with `#` or holds no `=` is skipped; the others set the key before their first
    /// `=` to the value after it, both trimmed. Unknown keys are ignored, and a later line
    /// overrides an earlier one.
    pub fn parse(text: &str) -> (cfg: Config)
        ensures cfg.from_lines(lines_spec(text@)),
    {
        let mut cfg = Config::default();
        let chars = chars_of(text);
        let ls = lines(&chars);
        let ghost all = ls.deep_view();
        let mut i: usize = 0;
        assert(all.take(0) =~= Seq::<Seq<char>>::empty());
        while i < ls.len()
            invariant
                i <= ls@.len(), all == ls.deep_view(), all.len() == ls@.len(),
                cfg.from_lines(all.take(i as int)),
            decreases ls@.len() - i,
        {
            let ghost pre = all.take(i as int);
            let ghost l = all[i as int];
            assert(all.take(i + 1) =~= pre.push(l));
            assert(ls@[i as int]@ == l);
            let ghost before = cfg;
            let line = trim(&ls[i]);
            if !(line.len() > 0 && line[0] == '#') {
                let e = find_char(&line, '=');
                if e < line.len() {
                    let k = trim(&slice(&line, 0, e));
                    let v = trim(&slice(&line, e + 1, line.len()));
                    assert(k@ == line_key(l));
                    assert(v@ == line_val(l));
                    cfg.apply(&k, &v);
                }
            }
            proof { lemma_from_lines_step(before, cfg, pre, l); }
            i += 1;
        }
        assert(all.take(ls@.len() as int) =~= all);
        cfg
    }
}

} // verus!
verus! {

/// The word that stands for a `Theme` in the configuration file.
pub open spec fn theme_word(x: Theme) -> Seq<char> {
    match x {
        Theme::Classic => "classic"@,
        Theme::Tournament => "tournament"@,
        Theme::Mocha => "mocha"@,
        Theme::Slate => "slate"@,
        Theme::Midnight => "midnight"@,
        Theme::Crimson => "crimson"@,
        Theme::MatteBlack => "matteblack"@,
        Theme::Ocean => "ocean"@,
    }
}

fn theme_word_str(x: Theme) -> (r: &'static str)
    ensures r@ == theme_word(x),
{
    match x {
        Theme::Classic => "classic",
        Theme::Tournament => "tournament",
        Theme::Mocha => "mocha",
        Theme::Slate => "slate",
        Theme::Midnight => "midnight",
        Theme::Crimson => "crimson",
        Theme::MatteBlack => "matteblack",
        Theme::Ocean => "ocean",
    }
}

/// The word that stands for a `PieceStyle` in the configuration file.
pub open spec fn piece_style_word(x: PieceStyle) -> Seq<char> {
    match x {
        PieceStyle::Unicode => "unicode"@,
        PieceStyle::Letters => "letters"@,
        PieceStyle::FatLetters => "fatletters"@,
        PieceStyle::Blocks => "blocks"@,
    }
}

fn piece_style_word_str(x: PieceStyle) -> (r: &'static str)
    ensures r@ == piece_style_word(x),
{
    match x {
        PieceStyle::Unicode => "unicode",
        PieceStyle::Letters => "letters",
        PieceStyle::FatLetters => "fatletters",
        PieceStyle::Blocks => "blocks",
    }
}

/// The word that stands for a `MoveHints` in the configuration file.
pub open spec fn move_hints_word(x: MoveHints) -> Seq<char> {
    match x {
        MoveHints::Dots => "dots"@,
        MoveHints::Highlight => "highlight"@,
        MoveHints::Off => "none"@,
    }
}

fn move_hints_word_str(x: MoveHints) -> (r: &'static str)
    ensures r@ == move_hints_word(x),
{
    match x {
        MoveHints::Dots => "dots",
        MoveHints::Highlight => "highlight",
        MoveHints::Off => "none",
    }
}

/// The word that stands for a `TimeControl` in the configuration file.
pub open spec fn time_control_word(x: TimeControl) -> Seq<char> {
    match x {
        TimeControl::Infinite => "infinite"@,
        TimeControl::Bullet => "bullet"@,
        TimeControl::Blitz => "blitz"@,
        TimeControl::Rapid => "rapid"@,
        TimeControl::Classical => "classical"@,
    }
}

fn time_control_word_str(x: TimeControl) -> (r: &'static str)
    ensures r@ == time_control_word(x),
{
    match x {
        TimeControl::Infinite => "infinite",
        TimeControl::Bullet => "bullet",
        TimeControl::Blitz => "blitz",
        TimeControl::Rapid => "rapid",
        TimeControl::Classical => "classical",
    }
}

/// The word that stands for a `UiMode` in the configuration file.
pub open spec fn ui_mode_word(x: UiMode) -> Seq<char> {
    match x {
        UiMode::Minimal => "minimal"@,
        UiMode::Standard => "standard"@,
        UiMode::Analysis => "analysis"@,
    }
}

fn ui_mode_word_str(x: UiMode) -> (r: &'static str)
    ensures r@ == ui_mode_word(x),
{
    match x {
        UiMode::Minimal => "minimal",
        UiMode::Standard => "standard",
        UiMode::Analysis => "analysis",
    }
}

/// The word that stands for a `AnalysisEngine` in the configuration file.
pub open spec fn analysis_engine_word(x: AnalysisEngine) -> Seq<char> {
    match x {
        AnalysisEngine::Builtin => "builtin"@,
        AnalysisEngine::Stockfish => "stockfish"@,
    }
}

fn analysis_engine_word_str(x: AnalysisEngine) -> (r: &'static str)
    ensures r@ == analysis_engine_word(x),
{
    match x {
        AnalysisEngine::Builtin => "builtin",
        AnalysisEngine::Stockfish => "stockfish",
    }
}

pub open spec fn bool_word(b: bool) -> Seq<char> {
    if b { "true"@ } else { "false"@ }
}

fn bool_word_str(b: bool) -> (r: &'static str)
    ensures r@ == bool_word(b),
{
    if b { "true" } else { "false" }
}

/// A signed integer as `Display` writes it.
pub open spec fn int_text(n: int) -> Seq<char> {
    if n < 0 { seq!['-'] + dec_spec((-n) as nat) } else { dec_spec(n as nat) }
}

/// The comment block at the top of the configuration file.
pub open spec fn config_header() -> Seq<char> {
    "# RChess TUI v0.7 \u{2014} edit here or use in-game Settings (s)\n#\n# analysis_engine options:\n#   builtin   \u{2014} pure Rust minimax, always works, no install needed\n#   stockfish \u{2014} install: sudo pacman -S stockfish  (Arch)\n#               install: sudo apt install stockfish (Ubuntu)\n#               then set: analysis_engine = stockfish\n#\n# ui_mode options: minimal | standard | analysis\n# Press T in-game to cycle ui_mode quickly.\n\n"@
}

/// The text of the configuration file for `c`: the comment block, then one `key = value`
/// line per setting.
pub open spec fn config_text(c: Config) -> Seq<char> {
    config_header()
        + "theme            = "@ + theme_word(c.theme) + "\n"@
        + "piece_style      = "@ + piece_style_word(c.piece_style) + "\n"@
        + "ai_depth         = "@ + dec_spec(c.ai_depth.depth() as nat) + "\n"@
        + "move_hints       = "@ + move_hints_word(c.move_hints) + "\n"@
        + "time_control     = "@ + time_control_word(c.time_control) + "\n"@
        + "show_coords      = "@ + bool_word(c.show_coords) + "\n"@
        + "show_clock       = "@ + bool_word(c.show_clock) + "\n"@
        + "flip_board       = "@ + bool_word(c.flip_board) + "\n"@
        + "auto_flip        = "@ + bool_word(c.auto_flip) + "\n"@
        + "confirm_move     = "@ + bool_word(c.confirm_move) + "\n"@
        + "ui_mode          = "@ + ui_mode_word(c.ui_mode) + "\n"@
        + "auto_save_png    = "@ + bool_word(c.auto_save_png) + "\n"@
        + "lichess_token    = "@ + c.lichess_token@ + "\n"@
        + "blunder_cp       = "@ + int_text(c.blunder_cp as int) + "\n"@
        + "mistake_cp       = "@ + int_text(c.mistake_cp as int) + "\n"@
        + "inaccuracy_cp    = "@ + int_text(c.inaccuracy_cp as int) + "\n"@
        + "stockfish_skill  = "@ + dec_spec(c.stockfish_skill as nat) + "\n"@
        + "analysis_engine  = "@ + analysis_engine_word(c.analysis_engine) + "\n"@
        + "analysis_depth   = "@ + dec_spec(c.analysis_depth as nat) + "\n"@
        + "highlight_brightness = "@ + dec_spec(c.highlight_brightness as nat) + "\n"@
        + "cell_w           = "@ + dec_spec(c.cell_w as nat) + "\n"@
        + "cell_h           = "@ + dec_spec(c.cell_h as nat) + "\n"@
}

impl Config {
    /// The text that saving writes to the configuration file.
    #[verifier::rlimit(60)]
    pub fn to_text(&self) -> (s: String)
        ensures s@ == config_text(*self),
    {
        let mut s = String::new();
        push_str(&mut s, "# RChess TUI v0.7 \u{2014} edit here or use in-game Settings (s)\n#\n# analysis_engine options:\n#   builtin   \u{2014} pure Rust minimax, always works, no install needed\n#   stockfish \u{2014} install: sudo pacman -S stockfish  (Arch)\n#               install: sudo apt install stockfish (Ubuntu)\n#               then set: analysis_engine = stockfish\n#\n# ui_mode options: minimal | standard | analysis\n# Press T in-game to cycle ui_mode quickly.\n\n");
        push_str(&mut s, "theme            = ");
        push_str(&mut s, theme_word_str(self.theme));
        push_str(&mut s, "\n");
        push_str(&mut s, "piece_style      = ");
        push_str(&mut s, piece_style_word_str(self.piece_style));
        push_str(&mut s, "\n");
        push_str(&mut s, "ai_depth         = ");
        push_dec(&mut s, self.ai_depth.depth() as u64);
        push_str(&mut s, "\n");
        push_str(&mut s, "move_hints       = ");
        push_str(&mut s, move_hints_word_str(self.move_hints));
        push_str(&mut s, "\n");
        push_str(&mut s, "time_control     = ");
        push_str(&mut s, time_control_word_str(self.time_control));
        push_str(&mut s, "\n");
        push_str(&mut s, "show_coords      = ");
        push_str(&mut s, bool_word_str(self.show_coords));
        push_str(&mut s, "\n");
        push_str(&mut s, "show_clock       = ");
        push_str(&mut s, bool_word_str(self.show_clock));
        push_str(&mut s, "\n");
        push_str(&mut s, "flip_board       = ");
        push_str(&mut s, bool_word_str(self.flip_board));
        push_str(&mut s, "\n");
        push_str(&mut s, "auto_flip        = ");
        push_str(&mut s, bool_word_str(self.auto_flip));
        push_str(&mut s, "\n");
        push_str(&mut s, "confirm_move     = ");
        push_str(&mut s, bool_word_str(self.confirm_move));
        push_str(&mut s, "\n");
        push_str(&mut s, "ui_mode          = ");
        push_str(&mut s, ui_mode_word_str(self.ui_mode));
        push_str(&mut s, "\n");
        push_str(&mut s, "auto_save_png    = ");
        push_str(&mut s, bool_word_str(self.auto_save_png));
        push_str(&mut s, "\n");
        push_str(&mut s, "lichess_token    = ");
        push_str(&mut s, self.lichess_token.as_str());
        push_str(&mut s, "\n");
        push_str(&mut s, "blunder_cp       = ");
        push_dec_i(&mut s, self.blunder_cp as i64);
        push_str(&mut s, "\n");
        push_str(&mut s, "mistake_cp       = ");
        push_dec_i(&mut s, self.mistake_cp as i64);
        push_str(&mut s, "\n");
        push_str(&mut s, "inaccuracy_cp    = ");
        push_dec_i(&mut s, self.inaccuracy_cp as i64);
        push_str(&mut s, "\n");
        push_str(&mut s, "stockfish_skill  = ");
        push_dec(&mut s, self.stockfish_skill as u64);
        push_str(&mut s, "\n");
        push_str(&mut s, "analysis_engine  = ");
        push_str(&mut s, analysis_engine_word_str(self.analysis_engine));
        push_str(&mut s, "\n");
        push_str(&mut s, "analysis_depth   = ");
        push_dec(&mut s, self.analysis_depth as u64);
        push_str(&mut s, "\n");
        push_str(&mut s, "highlight_brightness = ");
        push_dec(&mut s, self.highlight_brightness as u64);
        push_str(&mut s, "\n");
        push_str(&mut s, "cell_w           = ");
        push_dec(&mut s, self.cell_w as u64);
        push_str(&mut s, "\n");
        push_str(&mut s, "cell_h           = ");
        push_dec(&mut s, self.cell_h as u64);
        push_str(&mut s, "\n");
        s
    }
}

impl std::str::FromStr for AiDepth {
    type Err = ();

    fn from_str(s: &str) -> (r: Result<AiDepth, ()>)
        ensures r == Ok::<AiDepth, ()>(ai_depth_of(s@)),
    {
        let v = chars_of(s);
        Ok(AiDepth::from_text(&v))
    }
}

/// The position of a key in the list of keys, or -1 for an unknown key.
pub open spec fn key_index(k: Seq<char>) -> int {
    if k == "theme"@ { 0 }
    else if k == "piece_style"@ { 1 }
    else if k == "ai_depth"@ { 2 }
    else if k == "move_hints"@ { 3 }
    else if k == "time_control"@ { 4 }
    else if k == "show_coords"@ { 5 }
    else if k == "show_clock"@ { 6 }
    else if k == "flip_board"@ { 7 }
    else if k == "auto_flip"@ { 8 }
    else if k == "confirm_move"@ { 9 }
    else if k == "ui_mode"@ { 10 }
    else if k == "auto_save_png"@ { 11 }
    else if k == "lichess_token"@ { 12 }
    else if k == "blunder_cp"@ { 13 }
    else if k == "mistake_cp"@ { 14 }
    else if k == "inaccuracy_cp"@ { 15 }
    else if k == "stockfish_skill"@ { 16 }
    else if k == "analysis_engine"@ { 17 }
    else if k == "analysis_depth"@ { 18 }
    else if k == "highlight_brightness"@ { 19 }
    else if k == "cell_w"@ { 20 }
    else if k == "cell_h"@ { 21 }
    else { -1 }
}

/// One more line: a setting line sets the field its key names, any other line changes nothing.
#[verifier::rlimit(60)]
proof fn lemma_from_lines_step(old: Config, new: Config, pre: Seq<Seq<char>>, l: Seq<char>)
    requires
        old.from_lines(pre),
        setting_line(l) ==> new.set(old, line_key(l), line_val(l)),
        !setting_line(l) ==> new == old,
    ensures
        new.from_lines(pre.push(l)),
{
    assert(pre.push(l).drop_last() =~= pre);
    lemma_key_index(line_key(l));
}

pub proof fn lemma_key_index(k: Seq<char>)
    ensures
        (k == "theme"@) == (key_index(k) == 0),
        (k == "piece_style"@) == (key_index(k) == 1),
        (k == "ai_depth"@) == (key_index(k) == 2),
        (k == "move_hints"@) == (key_index(k) == 3),
        (k == "time_control"@) == (key_index(k) == 4),
        (k == "show_coords"@) == (key_index(k) == 5),
        (k == "show_clock"@) == (key_index(k) == 6),
        (k == "flip_board"@) == (key_index(k) == 7),
        (k == "auto_flip"@) == (key_index(k) == 8),
        (k == "confirm_move"@) == (key_index(k) == 9),
        (k == "ui_mode"@) == (key_index(k) == 10),
        (k == "auto_save_png"@) == (key_index(k) == 11),
        (k == "lichess_token"@) == (key_index(k) == 12),
        (k == "blunder_cp"@) == (key_index(k) == 13),
        (k == "mistake_cp"@) == (key_index(k) == 14),
        (k == "inaccuracy_cp"@) == (key_index(k) == 15),
        (k == "stockfish_skill"@) == (key_index(k) == 16),
        (k == "analysis_engine"@) == (key_index(k) == 17),
        (k == "analysis_depth"@) == (key_index(k) == 18),
        (k == "highlight_brightness"@) == (key_index(k) == 19),
        (k == "cell_w"@) == (key_index(k) == 20),
        (k == "cell_h"@) == (key_index(k) == 21),
{
    assert("theme"@.len() == 5 && "theme"@[0] == 't') by { reveal_strlit("theme"); }
    assert("piece_style"@.len() == 11 && "piece_style"@[0] == 'p') by { reveal_strlit("piece_style"); }
    assert("ai_depth"@.len() == 8 && "ai_depth"@[0] == 'a') by { reveal_strlit("ai_depth"); }
    assert("move_hints"@.len() == 10 && "move_hints"@[0] == 'm' && "move_hints"@[1] == 'o') by { reveal_strlit("move_hints"); }
    assert("time_control"@.len() == 12 && "time_control"@[0] == 't') by { reveal_strlit("time_control"); }
    assert("show_coords"@.len() == 11 && "show_coords"@[0] == 's') by { reveal_strlit("show_coords"); }
    assert("show_clock"@.len() == 10 && "show_clock"@[0] == 's') by { reveal_strlit("show_clock"); }
    assert("flip_board"@.len() == 10 && "flip_board"@[0] == 'f') by { reveal_strlit("flip_board"); }
    assert("auto_flip"@.len() == 9 && "auto_flip"@[0] == 'a') by { reveal_strlit("auto_flip"); }
    assert("confirm_move"@.len() == 12 && "confirm_move"@[0] == 'c') by { reveal_strlit("confirm_move"); }
    assert("ui_mode"@.len() == 7 && "ui_mode"@[0] == 'u') by { reveal_strlit("ui_mode"); }
    assert("auto_save_png"@.len() == 13 && "auto_save_png"@[0] == 'a') by { reveal_strlit("auto_save_png"); }
    assert("lichess_token"@.len() == 13 && "lichess_token"@[0] == 'l') by { reveal_strlit("lichess_token"); }
    assert("blunder_cp"@.len() == 10 && "blunder_cp"@[0] == 'b') by { reveal_strlit("blunder_cp"); }
    assert("mistake_cp"@.len() == 10 && "mistake_cp"@[0] == 'm' && "mistake_cp"@[1] == 'i') by { reveal_strlit("mistake_cp"); }
    assert("inaccuracy_cp"@.len() == 13 && "inaccuracy_cp"@[0] == 'i') by { reveal_strlit("inaccuracy_cp"); }
    assert("stockfish_skill"@.len() == 15 && "stockfish_skill"@[0] == 's') by { reveal_strlit("stockfish_skill"); }
    assert("analysis_engine"@.len() == 15 && "analysis_engine"@[0] == 'a') by { reveal_strlit("analysis_engine"); }
    assert("analysis_depth"@.len() == 14 && "analysis_depth"@[0] == 'a') by { reveal_strlit("analysis_depth"); }
    assert("highlight_brightness"@.len() == 20 && "highlight_brightness"@[0] == 'h') by { reveal_strlit("highlight_brightness"); }
    assert("cell_w"@.len() == 6 && "cell_w"@[0] == 'c' && "cell_w"@[5] == 'w') by { reveal_strlit("cell_w"); }
    assert("cell_h"@.len() == 6 && "cell_h"@[0] == 'c' && "cell_h"@[5] == 'h') by { reveal_strlit("cell_h"); }
}
}
