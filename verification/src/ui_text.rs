//! Text the terminal interface shows: cut and centred labels, the block-art pieces and the
//! status line.
use vstd::prelude::*;
use crate::engine::{Color, Kind, Status};
use crate::game::{GameEnd, ClockState};
use crate::text::{chars_of, push_char, push_str, owned, string_of, slice};

verus! {

/// A label cut to `max` characters: when longer, its first `max - 2` characters and `..`.
pub open spec fn trunc_spec(s: Seq<char>, max: nat) -> Seq<char> {
    if s.len() <= max { s } else { s.take(if max >= 2 { max - 2 } else { 0 }) + ".."@ }
}

pub fn trunc(s: &str, max: usize) -> (r: String)
    ensures r@ == trunc_spec(s@, max as nat),
{
    let cs = chars_of(s);
    if cs.len() <= max {
        return owned(s);
    }
    let k: usize = if max >= 2 { max - 2 } else { 0 };
    let head = slice(&cs, 0, k);
    let mut out = string_of(&head);
    push_str(&mut out, "..");
    assert(out@ =~= trunc_spec(s@, max as nat));
    out
}

pub open spec fn spaces(n: nat) -> Seq<char> {
    Seq::new(n, |i: int| ' ')
}

/// A label centred in `w` characters: padded with spaces (the extra one on the right), or
/// cut to its first `w` characters.
pub open spec fn center_spec(s: Seq<char>, w: nat) -> Seq<char> {
    if s.len() >= w {
        s.take(w as int)
    } else {
        let pad = (w - s.len()) as nat;
        spaces(pad / 2) + s + spaces((pad - pad / 2) as nat)
    }
}

fn push_spaces(s: &mut String, n: usize)
    ensures final(s)@ == old(s)@ + spaces(n as nat),
{
    let ghost s0 = s@;
    let mut i: usize = 0;
    while i < n
        invariant i <= n, s@ == s0 + spaces(i as nat),
        decreases n - i,
    {
        push_char(s, ' ');
        i += 1;
        assert(s@ =~= s0 + spaces(i as nat));
    }
}

pub fn center_str(s: &str, w: usize) -> (r: String)
    ensures r@ == center_spec(s@, w as nat),
{
    let cs = chars_of(s);
    let len = cs.len();
    if len >= w {
        let head = slice(&cs, 0, w);
        assert(head@ =~= s@.take(w as int));
        return string_of(&head);
    }
    let pad = w - len;
    let left = pad / 2;
    let mut r = String::new();
    push_spaces(&mut r, left);
    push_str(&mut r, s);
    push_spaces(&mut r, pad - left);
    r
}

/// Row `line` of the five-row block-art drawing of a piece kind.
pub open spec fn block_row_spec(k: Kind, line: nat) -> Seq<char> {
    let blank = "         "@;
    match k {
        Kind::P => if line == 1 || line == 2 { "   \u{2588}\u{2588}\u{2588}   "@ }
            else if line == 3 { "  \u{2588}\u{2588}\u{2588}\u{2588}\u{2588}  "@ } else { blank },
        Kind::N => if line == 0 { "   \u{2588}\u{2588}\u{2588}\u{2588}  "@ }
            else if line == 1 || line == 3 { "  \u{2588}\u{2588}\u{2588}\u{2588}\u{2588}  "@ }
            else if line == 2 { "  \u{2588}\u{2588}\u{2588}\u{2588}   "@ } else { blank },
        Kind::B => if line == 0 { "    \u{2588}    "@ }
            else if line == 1 { "   \u{2588}\u{2588}\u{2588}   "@ }
            else if line == 2 { "  \u{2588}\u{2588}\u{2588}\u{2588}\u{2588}  "@ }
            else if line == 3 { " \u{2588}\u{2588}\u{2588}\u{2588}\u{2588}\u{2588}\u{2588} "@ } else { blank },
        Kind::R => if line == 0 { " \u{2588} \u{2588} \u{2588} \u{2588} "@ }
            else if line == 1 || line == 3 { " \u{2588}\u{2588}\u{2588}\u{2588}\u{2588}\u{2588}\u{2588} "@ }
            else if line == 2 { "  \u{2588}\u{2588}\u{2588}\u{2588}\u{2588}  "@ } else { blank },
        Kind::Q => if line == 0 { " \u{2588} \u{2588} \u{2588} \u{2588} "@ }
            else if 1 <= line <= 3 { " \u{2588}\u{2588}\u{2588}\u{2588}\u{2588}\u{2588}\u{2588} "@ } else { blank },
        Kind::K => if line == 0 { "    \u{2588}    "@ }
            else if line == 1 || line == 2 { "  \u{2588}\u{2588}\u{2588}\u{2588}\u{2588}  "@ }
            else if line == 3 { " \u{2588}\u{2588}\u{2588}\u{2588}\u{2588}\u{2588}\u{2588} "@ } else { blank },
    }
}

pub fn piece_block_row(k: Kind, line: usize) -> (r: &'static str)
    ensures r@ == block_row_spec(k, line as nat),
{
    match k {
        Kind::P => if line == 1 || line == 2 { "   \u{2588}\u{2588}\u{2588}   " }
            else if line == 3 { "  \u{2588}\u{2588}\u{2588}\u{2588}\u{2588}  " } else { "         " },
        Kind::N => if line == 0 { "   \u{2588}\u{2588}\u{2588}\u{2588}  " }
            else if line == 1 || line == 3 { "  \u{2588}\u{2588}\u{2588}\u{2588}\u{2588}  " }
            else if line == 2 { "  \u{2588}\u{2588}\u{2588}\u{2588}   " } else { "         " },
        Kind::B => if line == 0 { "    \u{2588}    " }
            else if line == 1 { "   \u{2588}\u{2588}\u{2588}   " }
            else if line == 2 { "  \u{2588}\u{2588}\u{2588}\u{2588}\u{2588}  " }
            else if line == 3 { " \u{2588}\u{2588}\u{2588}\u{2588}\u{2588}\u{2588}\u{2588} " } else { "         " },
        Kind::R => if line == 0 { " \u{2588} \u{2588} \u{2588} \u{2588} " }
            else if line == 1 || line == 3 { " \u{2588}\u{2588}\u{2588}\u{2588}\u{2588}\u{2588}\u{2588} " }
            else if line == 2 { "  \u{2588}\u{2588}\u{2588}\u{2588}\u{2588}  " } else { "         " },
        Kind::Q => if line == 0 { " \u{2588} \u{2588} \u{2588} \u{2588} " }
            else if 1 <= line && line <= 3 { " \u{2588}\u{2588}\u{2588}\u{2588}\u{2588}\u{2588}\u{2588} " } else { "         " },
        Kind::K => if line == 0 { "    \u{2588}    " }
            else if line == 1 || line == 2 { "  \u{2588}\u{2588}\u{2588}\u{2588}\u{2588}  " }
            else if line == 3 { " \u{2588}\u{2588}\u{2588}\u{2588}\u{2588}\u{2588}\u{2588} " } else { "         " },
    }
}

pub open spec fn side_name(c: Color) -> Seq<char> {
    if c == Color::White { "WHITE"@ } else { "BLACK"@ }
}

pub open spec fn other(c: Color) -> Color {
    if c == Color::White { Color::Black } else { Color::White }
}

/// The status line: mate and who won, an agreed draw or a stalemate, check and who is to
/// move, a fallen flag and who won, that the computer is thinking, or who is to move.
pub open spec fn status_text_spec(status: Status, end: GameEnd, clock: ClockState, thinking: bool, turn: Color) -> Seq<char> {
    if status == Status::Checkmate {
        "\u{2715} CHECKMATE \u{2014} "@ + side_name(other(turn)) + " WINS"@
    } else if status == Status::Stalemate && end == GameEnd::Draw {
        "\u{bd} DRAW AGREED"@
    } else if status == Status::Stalemate {
        "\u{bd} STALEMATE \u{2014} DRAW"@
    } else if status == Status::Check {
        "\u{26a0} CHECK \u{2014} "@ + side_name(turn) + " TO MOVE"@
    } else if clock == ClockState::Flagged {
        "\u{23f0} FLAG \u{2014} "@ + side_name(other(turn)) + " WINS"@
    } else if thinking {
        "\u{23f3} THINKING..."@
    } else {
        "\u{25ba} "@ + side_name(turn) + " TO MOVE"@
    }
}

pub fn status_text(status: Status, end: GameEnd, clock: ClockState, thinking: bool, turn: Color) -> (s: String)
    ensures s@ == status_text_spec(status, end, clock, thinking, turn),
{
    let mate = match status { Status::Checkmate => true, _ => false };
    let stale = match status { Status::Stalemate => true, _ => false };
    let check = match status { Status::Check => true, _ => false };
    let draw = match end { GameEnd::Draw => true, _ => false };
    let flagged = match clock { ClockState::Flagged => true, _ => false };
    if mate {
        let mut s = owned("\u{2715} CHECKMATE \u{2014} ");
        push_str(&mut s, turn.opp().name());
        push_str(&mut s, " WINS");
        s
    } else if stale && draw {
        owned("\u{bd} DRAW AGREED")
    } else if stale {
        owned("\u{bd} STALEMATE \u{2014} DRAW")
    } else if check {
        let mut s = owned("\u{26a0} CHECK \u{2014} ");
        push_str(&mut s, turn.name());
        push_str(&mut s, " TO MOVE");
        s
    } else if flagged {
        let mut s = owned("\u{23f0} FLAG \u{2014} ");
        push_str(&mut s, turn.opp().name());
        push_str(&mut s, " WINS");
        s
    } else if thinking {
        owned("\u{23f3} THINKING...")
    } else {
        let mut s = owned("\u{25ba} ");
        push_str(&mut s, turn.name());
        push_str(&mut s, " TO MOVE");
        s
    }
}

} // verus!
