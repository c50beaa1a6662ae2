//! Opening book: known opening lines to play from, and the names of openings.
use vstd::prelude::*;
use crate::engine::{Board, Castle, Color, Mv};
use crate::game::HistEntry;
use crate::notation::{parse_notation, notation_spec};
use crate::text::{chars_of, strip_end, strip_end_spec, eq_lit};

verus! {

/// Opening lines in coordinate notation, White and Black alternating.
pub open spec fn book_lines() -> Seq<Seq<Seq<char>>> {
    seq![
        seq![],
        seq!["e2e4"@, "e7e5"@, "g1f3"@, "b8c6"@, "f1b5"@, "a7a6"@, "b5a4"@, "g8f6"@, "e1g1"@, "f8e7"@, "f1e1"@, "b7b5"@, "a4b3"@],
        seq!["e2e4"@, "e7e5"@, "g1f3"@, "b8c6"@, "f1b5"@, "g8f6"@, "e1g1"@, "f8c5"@, "c2c3"@, "e8g8"@],
        seq!["e2e4"@, "e7e5"@, "g1f3"@, "b8c6"@, "f1b5"@, "a7a6"@, "b5c6"@, "d7c6"@, "d2d4"@, "e5d4"@],
        seq!["e2e4"@, "e7e5"@, "g1f3"@, "b8c6"@, "f1c4"@, "f8c5"@, "c2c3"@, "g8f6"@, "d2d4"@, "e5d4"@, "c3d4"@, "c5b4"@, "c1d2"@],
        seq!["e2e4"@, "e7e5"@, "g1f3"@, "b8c6"@, "f1c4"@, "g8f6"@, "d2d4"@, "e5d4"@, "e1g1"@, "f8c5"@],
        seq!["e2e4"@, "e7e5"@, "g1f3"@, "b8c6"@, "d2d4"@, "e5d4"@, "f3d4"@, "g8f6"@, "d4c6"@, "b7c6"@, "e4e5"@, "d8e7"@, "d1e2"@],
        seq!["e2e4"@, "e7e5"@, "g1f3"@, "b8c6"@, "d2d4"@, "e5d4"@, "f3d4"@, "f8c5"@, "c1e3"@, "d8f6"@],
        seq!["e2e4"@, "c7c5"@, "g1f3"@, "d7d6"@, "d2d4"@, "c5d4"@, "f3d4"@, "g8f6"@, "b1c3"@, "a7a6"@, "c1e3"@, "e7e5"@, "d4b3"@],
        seq!["e2e4"@, "c7c5"@, "g1f3"@, "b8c6"@, "d2d4"@, "c5d4"@, "f3d4"@, "g7g6"@, "c2c4"@, "g8f6"@],
        seq!["e2e4"@, "c7c5"@, "b1c3"@, "b8c6"@, "g2g3"@, "g7g6"@, "f1g2"@, "f8g7"@, "d2d3"@, "d7d6"@],
        seq!["e2e4"@, "c7c5"@, "g1f3"@, "e7e6"@, "d2d4"@, "c5d4"@, "f3d4"@, "a7a6"@, "f1d3"@, "g8f6"@],
        seq!["e2e4"@, "e7e6"@, "d2d4"@, "d7d5"@, "b1c3"@, "g8f6"@, "c1g5"@, "f8e7"@, "e4e5"@, "f6d7"@, "g5e7"@, "d8e7"@],
        seq!["e2e4"@, "e7e6"@, "d2d4"@, "d7d5"@, "e4e5"@, "c7c5"@, "c2c3"@, "b8c6"@, "g1f3"@, "d8b6"@],
        seq!["e2e4"@, "c7c6"@, "d2d4"@, "d7d5"@, "b1c3"@, "d5e4"@, "c3e4"@, "g8f6"@, "e4f6"@, "e7f6"@, "g1f3"@, "f8d6"@],
        seq!["e2e4"@, "c7c6"@, "d2d4"@, "d7d5"@, "e4e5"@, "c8f5"@, "g1f3"@, "e7e6"@, "f1e2"@, "g8e7"@],
        seq!["e2e4"@, "d7d6"@, "d2d4"@, "g8f6"@, "b1c3"@, "g7g6"@, "g1f3"@, "f8g7"@, "f1e2"@, "e8g8"@, "e1g1"@, "c7c6"@],
        seq!["d2d4"@, "d7d5"@, "c2c4"@, "e7e6"@, "b1c3"@, "g8f6"@, "c1g5"@, "f8e7"@, "e2e3"@, "e8g8"@, "g1f3"@, "b7b6"@],
        seq!["d2d4"@, "d7d5"@, "c2c4"@, "c7c6"@, "b1c3"@, "g8f6"@, "g1f3"@, "e7e6"@, "e2e3"@, "b8d7"@, "f1d3"@],
        seq!["d2d4"@, "d7d5"@, "c2c4"@, "d5c4"@, "g1f3"@, "g8f6"@, "e2e3"@, "e7e6"@, "f1c4"@, "c7c5"@],
        seq!["d2d4"@, "g8f6"@, "c2c4"@, "g7g6"@, "b1c3"@, "f8g7"@, "e2e4"@, "d7d6"@, "g1f3"@, "e8g8"@, "f1e2"@, "e7e5"@],
        seq!["d2d4"@, "g8f6"@, "c2c4"@, "g7g6"@, "b1c3"@, "f8g7"@, "e2e4"@, "d7d6"@, "f2f3"@, "e8g8"@, "c1e3"@, "b8c6"@],
        seq!["d2d4"@, "g8f6"@, "c2c4"@, "e7e6"@, "b1c3"@, "f8b4"@, "e2e3"@, "e8g8"@, "f1d3"@, "d7d5"@, "g1f3"@, "c7c5"@],
        seq!["d2d4"@, "g8f6"@, "c2c4"@, "e7e6"@, "b1c3"@, "f8b4"@, "d1c2"@, "d7d5"@, "a2a3"@, "b4c3"@, "c2c3"@, "b8c6"@],
        seq!["d2d4"@, "g8f6"@, "c2c4"@, "e7e6"@, "g1f3"@, "b7b6"@, "g2g3"@, "c8b7"@, "f1g2"@, "f8e7"@, "e1g1"@, "e8g8"@],
        seq!["d2d4"@, "g8f6"@, "c2c4"@, "g7g6"@, "b1c3"@, "d7d5"@, "c4d5"@, "f6d5"@, "e2e4"@, "d5c3"@, "b2c3"@, "f8g7"@],
        seq!["d2d4"@, "d7d5"@, "g1f3"@, "g8f6"@, "c1f4"@, "e7e6"@, "e2e3"@, "c7c5"@, "c2c3"@, "b8c6"@, "b1d2"@, "f8d6"@],
        seq!["d2d4"@, "g8f6"@, "g1f3"@, "d7d5"@, "c1f4"@, "e7e6"@, "e2e3"@, "c7c5"@, "c2c3"@, "b8c6"@],
        seq!["c2c4"@, "e7e5"@, "b1c3"@, "g8f6"@, "g1f3"@, "b8c6"@, "g2g3"@, "d7d5"@, "c4d5"@, "f6d5"@, "f1g2"@],
        seq!["c2c4"@, "c7c5"@, "g1f3"@, "g8f6"@, "b1c3"@, "d7d5"@, "c4d5"@, "f6d5"@, "e2e3"@, "e7e6"@],
        seq!["f2f4"@, "d7d5"@, "g1f3"@, "g8f6"@, "e2e3"@, "g7g6"@, "b2b3"@, "f8g7"@, "c1b2"@, "e8g8"@],
        seq!["g1f3"@, "d7d5"@, "g2g3"@, "g8f6"@, "f1g2"@, "g7g6"@, "e1g1"@, "f8g7"@, "d2d3"@, "e8g8"@, "b1d2"@],
    ]
}

/// Opening names, each with the moves that start it.
pub open spec fn eco_table() -> Seq<(Seq<Seq<char>>, Seq<char>)> {
    seq![
        (seq!["e2e4"@, "e7e5"@, "g1f3"@, "b8c6"@, "f1b5"@, "a7a6"@, "b5a4"@, "g8f6"@, "e1g1"@, "f8e7"@, "f1e1"@, "b7b5"@, "a4b3"@], "Ruy L\u{f3}pez \u{2014} Closed"@),
        (seq!["e2e4"@, "e7e5"@, "g1f3"@, "b8c6"@, "f1b5"@, "a7a6"@, "b5c6"@, "d7c6"@, "d2d4"@, "e5d4"@], "Ruy L\u{f3}pez \u{2014} Exchange"@),
        (seq!["e2e4"@, "e7e5"@, "g1f3"@, "b8c6"@, "f1b5"@, "g8f6"@, "e1g1"@], "Ruy L\u{f3}pez \u{2014} Berlin"@),
        (seq!["e2e4"@, "e7e5"@, "g1f3"@, "b8c6"@, "f1b5"@], "Ruy L\u{f3}pez"@),
        (seq!["e2e4"@, "e7e5"@, "g1f3"@, "b8c6"@, "f1c4"@, "f8c5"@, "c2c3"@, "g8f6"@, "d2d4"@], "Italian \u{2014} Giuoco Piano"@),
        (seq!["e2e4"@, "e7e5"@, "g1f3"@, "b8c6"@, "f1c4"@, "g8f6"@, "d2d4"@], "Italian \u{2014} Two Knights"@),
        (seq!["e2e4"@, "e7e5"@, "g1f3"@, "b8c6"@, "f1c4"@], "Italian Game"@),
        (seq!["e2e4"@, "e7e5"@, "g1f3"@, "b8c6"@, "d2d4"@, "e5d4"@, "f3d4"@, "g8f6"@], "Scotch Game"@),
        (seq!["e2e4"@, "e7e5"@, "g1f3"@, "b8c6"@, "d2d4"@], "Scotch Game"@),
        (seq!["e2e4"@, "c7c5"@, "g1f3"@, "d7d6"@, "d2d4"@, "c5d4"@, "f3d4"@, "g8f6"@, "b1c3"@, "a7a6"@], "Sicilian \u{2014} Najdorf"@),
        (seq!["e2e4"@, "c7c5"@, "g1f3"@, "b8c6"@, "d2d4"@, "c5d4"@, "f3d4"@, "g7g6"@], "Sicilian \u{2014} Dragon"@),
        (seq!["e2e4"@, "c7c5"@, "g1f3"@, "e7e6"@, "d2d4"@, "c5d4"@, "f3d4"@, "a7a6"@], "Sicilian \u{2014} Kan"@),
        (seq!["e2e4"@, "c7c5"@, "b1c3"@, "b8c6"@, "g2g3"@], "Sicilian \u{2014} Closed"@),
        (seq!["e2e4"@, "c7c5"@, "g1f3"@, "d7d6"@, "d2d4"@], "Sicilian \u{2014} Open"@),
        (seq!["e2e4"@, "c7c5"@], "Sicilian Defence"@),
        (seq!["e2e4"@, "e7e6"@, "d2d4"@, "d7d5"@, "b1c3"@, "g8f6"@, "c1g5"@], "French \u{2014} Classical"@),
        (seq!["e2e4"@, "e7e6"@, "d2d4"@, "d7d5"@, "e4e5"@, "c7c5"@, "c2c3"@], "French \u{2014} Advance"@),
        (seq!["e2e4"@, "e7e6"@, "d2d4"@, "d7d5"@, "b1d2"@], "French \u{2014} Tarrasch"@),
        (seq!["e2e4"@, "e7e6"@, "d2d4"@, "d7d5"@], "French Defence"@),
        (seq!["e2e4"@, "e7e6"@], "French Defence"@),
        (seq!["e2e4"@, "c7c6"@, "d2d4"@, "d7d5"@, "b1c3"@, "d5e4"@, "c3e4"@, "g8f6"@], "Caro-Kann \u{2014} Classical"@),
        (seq!["e2e4"@, "c7c6"@, "d2d4"@, "d7d5"@, "e4e5"@], "Caro-Kann \u{2014} Advance"@),
        (seq!["e2e4"@, "c7c6"@, "d2d4"@, "d7d5"@], "Caro-Kann Defence"@),
        (seq!["e2e4"@, "c7c6"@], "Caro-Kann Defence"@),
        (seq!["e2e4"@, "d7d6"@, "d2d4"@, "g8f6"@, "b1c3"@, "g7g6"@], "Pirc Defence"@),
        (seq!["e2e4"@, "d7d6"@], "Pirc / Modern Defence"@),
        (seq!["e2e4"@, "e7e5"@], "Open Game (1.e4 e5)"@),
        (seq!["e2e4"@], "King's Pawn Opening"@),
        (seq!["d2d4"@, "d7d5"@, "c2c4"@, "d5c4"@, "g1f3"@, "g8f6"@, "e2e3"@, "e7e6"@, "f1c4"@, "c7c5"@], "QGA \u{2014} Classical"@),
        (seq!["d2d4"@, "d7d5"@, "c2c4"@, "d5c4"@], "Queen's Gambit Accepted"@),
        (seq!["d2d4"@, "d7d5"@, "c2c4"@, "c7c6"@, "b1c3"@, "g8f6"@, "g1f3"@, "e7e6"@, "e2e3"@], "Slav Defence \u{2014} Orthodox"@),
        (seq!["d2d4"@, "d7d5"@, "c2c4"@, "c7c6"@], "Slav Defence"@),
        (seq!["d2d4"@, "d7d5"@, "c2c4"@, "e7e6"@, "b1c3"@, "g8f6"@, "c1g5"@, "f8e7"@], "QGD \u{2014} Orthodox"@),
        (seq!["d2d4"@, "d7d5"@, "c2c4"@, "e7e6"@, "b1c3"@, "g8f6"@], "Queen's Gambit Declined"@),
        (seq!["d2d4"@, "d7d5"@, "c2c4"@], "Queen's Gambit"@),
        (seq!["d2d4"@, "g8f6"@, "c2c4"@, "g7g6"@, "b1c3"@, "f8g7"@, "e2e4"@, "d7d6"@, "f2f3"@, "e8g8"@], "King's Indian \u{2014} S\u{e4}misch"@),
        (seq!["d2d4"@, "g8f6"@, "c2c4"@, "g7g6"@, "b1c3"@, "f8g7"@, "e2e4"@, "d7d6"@, "g1f3"@, "e8g8"@], "King's Indian \u{2014} Classical"@),
        (seq!["d2d4"@, "g8f6"@, "c2c4"@, "g7g6"@, "b1c3"@, "f8g7"@, "e2e4"@], "King's Indian Defence"@),
        (seq!["d2d4"@, "g8f6"@, "c2c4"@, "e7e6"@, "b1c3"@, "f8b4"@, "e2e3"@], "Nimzo-Indian \u{2014} Rubinstein"@),
        (seq!["d2d4"@, "g8f6"@, "c2c4"@, "e7e6"@, "b1c3"@, "f8b4"@, "d1c2"@], "Nimzo-Indian \u{2014} Classical"@),
        (seq!["d2d4"@, "g8f6"@, "c2c4"@, "e7e6"@, "b1c3"@, "f8b4"@], "Nimzo-Indian Defence"@),
        (seq!["d2d4"@, "g8f6"@, "c2c4"@, "e7e6"@, "g1f3"@, "b7b6"@, "g2g3"@, "c8b7"@, "f1g2"@], "Queen's Indian Defence"@),
        (seq!["d2d4"@, "g8f6"@, "c2c4"@, "e7e6"@, "g1f3"@, "b7b6"@], "Queen's Indian Defence"@),
        (seq!["d2d4"@, "g8f6"@, "c2c4"@, "g7g6"@, "b1c3"@, "d7d5"@, "c4d5"@, "f6d5"@, "e2e4"@, "d5c3"@, "b2c3"@], "Gr\u{fc}nfeld \u{2014} Exchange"@),
        (seq!["d2d4"@, "g8f6"@, "c2c4"@, "g7g6"@, "b1c3"@, "d7d5"@], "Gr\u{fc}nfeld Defence"@),
        (seq!["d2d4"@, "d7d5"@, "g1f3"@, "g8f6"@, "c1f4"@, "e7e6"@, "e2e3"@, "c7c5"@], "London System"@),
        (seq!["d2d4"@, "d7d5"@, "g1f3"@, "g8f6"@, "c1f4"@], "London System"@),
        (seq!["d2d4"@, "g8f6"@, "g1f3"@, "d7d5"@, "c1f4"@], "London System"@),
        (seq!["c2c4"@, "e7e5"@, "b1c3"@, "g8f6"@, "g1f3"@, "b8c6"@, "g2g3"@], "English \u{2014} Reversed Sicilian"@),
        (seq!["c2c4"@, "c7c5"@, "g1f3"@, "g8f6"@, "b1c3"@, "d7d5"@], "English \u{2014} Symmetrical"@),
        (seq!["c2c4"@], "English Opening"@),
        (seq!["g1f3"@, "d7d5"@, "g2g3"@, "g8f6"@, "f1g2"@], "R\u{e9}ti Opening"@),
        (seq!["g1f3"@, "d7d5"@, "g2g3"@], "R\u{e9}ti Opening"@),
        (seq!["g1f3"@, "d7d5"@], "R\u{e9}ti / Zukertort"@),
        (seq!["f2f4"@, "d7d5"@, "g1f3"@, "g8f6"@, "e2e3"@], "Bird's Opening"@),
        (seq!["f2f4"@], "Bird's Opening"@),
        (seq!["d2d4"@, "g8f6"@, "c2c4"@], "Indian Game"@),
        (seq!["d2d4"@, "d7d5"@], "Queen's Pawn Game"@),
        (seq!["d2d4"@], "Queen's Pawn Opening"@),
    ]
}

pub open spec fn strs(v: Seq<&'static str>) -> Seq<Seq<char>> {
    v.map_values(|s: &'static str| s@)
}

pub open spec fn line_views(v: Seq<Vec<&'static str>>) -> Seq<Seq<Seq<char>>> {
    v.map_values(|w: Vec<&'static str>| strs(w@))
}

pub open spec fn eco_views(v: Seq<(Vec<&'static str>, &'static str)>) -> Seq<(Seq<Seq<char>>, Seq<char>)> {
    v.map_values(|e: (Vec<&'static str>, &'static str)| (strs(e.0@), e.1@))
}

#[verifier::rlimit(100)]
fn book_table() -> (r: Vec<Vec<&'static str>>)
    ensures line_views(r@) == book_lines(),
{
    let r = vec![
        vec![],
        vec!["e2e4", "e7e5", "g1f3", "b8c6", "f1b5", "a7a6", "b5a4", "g8f6", "e1g1", "f8e7", "f1e1", "b7b5", "a4b3"],
        vec!["e2e4", "e7e5", "g1f3", "b8c6", "f1b5", "g8f6", "e1g1", "f8c5", "c2c3", "e8g8"],
        vec!["e2e4", "e7e5", "g1f3", "b8c6", "f1b5", "a7a6", "b5c6", "d7c6", "d2d4", "e5d4"],
        vec!["e2e4", "e7e5", "g1f3", "b8c6", "f1c4", "f8c5", "c2c3", "g8f6", "d2d4", "e5d4", "c3d4", "c5b4", "c1d2"],
        vec!["e2e4", "e7e5", "g1f3", "b8c6", "f1c4", "g8f6", "d2d4", "e5d4", "e1g1", "f8c5"],
        vec!["e2e4", "e7e5", "g1f3", "b8c6", "d2d4", "e5d4", "f3d4", "g8f6", "d4c6", "b7c6", "e4e5", "d8e7", "d1e2"],
        vec!["e2e4", "e7e5", "g1f3", "b8c6", "d2d4", "e5d4", "f3d4", "f8c5", "c1e3", "d8f6"],
        vec!["e2e4", "c7c5", "g1f3", "d7d6", "d2d4", "c5d4", "f3d4", "g8f6", "b1c3", "a7a6", "c1e3", "e7e5", "d4b3"],
        vec!["e2e4", "c7c5", "g1f3", "b8c6", "d2d4", "c5d4", "f3d4", "g7g6", "c2c4", "g8f6"],
        vec!["e2e4", "c7c5", "b1c3", "b8c6", "g2g3", "g7g6", "f1g2", "f8g7", "d2d3", "d7d6"],
        vec!["e2e4", "c7c5", "g1f3", "e7e6", "d2d4", "c5d4", "f3d4", "a7a6", "f1d3", "g8f6"],
        vec!["e2e4", "e7e6", "d2d4", "d7d5", "b1c3", "g8f6", "c1g5", "f8e7", "e4e5", "f6d7", "g5e7", "d8e7"],
        vec!["e2e4", "e7e6", "d2d4", "d7d5", "e4e5", "c7c5", "c2c3", "b8c6", "g1f3", "d8b6"],
        vec!["e2e4", "c7c6", "d2d4", "d7d5", "b1c3", "d5e4", "c3e4", "g8f6", "e4f6", "e7f6", "g1f3", "f8d6"],
        vec!["e2e4", "c7c6", "d2d4", "d7d5", "e4e5", "c8f5", "g1f3", "e7e6", "f1e2", "g8e7"],
        vec!["e2e4", "d7d6", "d2d4", "g8f6", "b1c3", "g7g6", "g1f3", "f8g7", "f1e2", "e8g8", "e1g1", "c7c6"],
        vec!["d2d4", "d7d5", "c2c4", "e7e6", "b1c3", "g8f6", "c1g5", "f8e7", "e2e3", "e8g8", "g1f3", "b7b6"],
        vec!["d2d4", "d7d5", "c2c4", "c7c6", "b1c3", "g8f6", "g1f3", "e7e6", "e2e3", "b8d7", "f1d3"],
        vec!["d2d4", "d7d5", "c2c4", "d5c4", "g1f3", "g8f6", "e2e3", "e7e6", "f1c4", "c7c5"],
        vec!["d2d4", "g8f6", "c2c4", "g7g6", "b1c3", "f8g7", "e2e4", "d7d6", "g1f3", "e8g8", "f1e2", "e7e5"],
        vec!["d2d4", "g8f6", "c2c4", "g7g6", "b1c3", "f8g7", "e2e4", "d7d6", "f2f3", "e8g8", "c1e3", "b8c6"],
        vec!["d2d4", "g8f6", "c2c4", "e7e6", "b1c3", "f8b4", "e2e3", "e8g8", "f1d3", "d7d5", "g1f3", "c7c5"],
        vec!["d2d4", "g8f6", "c2c4", "e7e6", "b1c3", "f8b4", "d1c2", "d7d5", "a2a3", "b4c3", "c2c3", "b8c6"],
        vec!["d2d4", "g8f6", "c2c4", "e7e6", "g1f3", "b7b6", "g2g3", "c8b7", "f1g2", "f8e7", "e1g1", "e8g8"],
        vec!["d2d4", "g8f6", "c2c4", "g7g6", "b1c3", "d7d5", "c4d5", "f6d5", "e2e4", "d5c3", "b2c3", "f8g7"],
        vec!["d2d4", "d7d5", "g1f3", "g8f6", "c1f4", "e7e6", "e2e3", "c7c5", "c2c3", "b8c6", "b1d2", "f8d6"],
        vec!["d2d4", "g8f6", "g1f3", "d7d5", "c1f4", "e7e6", "e2e3", "c7c5", "c2c3", "b8c6"],
        vec!["c2c4", "e7e5", "b1c3", "g8f6", "g1f3", "b8c6", "g2g3", "d7d5", "c4d5", "f6d5", "f1g2"],
        vec!["c2c4", "c7c5", "g1f3", "g8f6", "b1c3", "d7d5", "c4d5", "f6d5", "e2e3", "e7e6"],
        vec!["f2f4", "d7d5", "g1f3", "g8f6", "e2e3", "g7g6", "b2b3", "f8g7", "c1b2", "e8g8"],
        vec!["g1f3", "d7d5", "g2g3", "g8f6", "f1g2", "g7g6", "e1g1", "f8g7", "d2d3", "e8g8", "b1d2"],
    ];
    assert(line_views(r@) =~~= book_lines());
    r
}

#[verifier::rlimit(100)]
fn eco_list() -> (r: Vec<(Vec<&'static str>, &'static str)>)
    ensures eco_views(r@) == eco_table(),
{
    let r = vec![
        (vec!["e2e4", "e7e5", "g1f3", "b8c6", "f1b5", "a7a6", "b5a4", "g8f6", "e1g1", "f8e7", "f1e1", "b7b5", "a4b3"], "Ruy L\u{f3}pez \u{2014} Closed"),
        (vec!["e2e4", "e7e5", "g1f3", "b8c6", "f1b5", "a7a6", "b5c6", "d7c6", "d2d4", "e5d4"], "Ruy L\u{f3}pez \u{2014} Exchange"),
        (vec!["e2e4", "e7e5", "g1f3", "b8c6", "f1b5", "g8f6", "e1g1"], "Ruy L\u{f3}pez \u{2014} Berlin"),
        (vec!["e2e4", "e7e5", "g1f3", "b8c6", "f1b5"], "Ruy L\u{f3}pez"),
        (vec!["e2e4", "e7e5", "g1f3", "b8c6", "f1c4", "f8c5", "c2c3", "g8f6", "d2d4"], "Italian \u{2014} Giuoco Piano"),
        (vec!["e2e4", "e7e5", "g1f3", "b8c6", "f1c4", "g8f6", "d2d4"], "Italian \u{2014} Two Knights"),
        (vec!["e2e4", "e7e5", "g1f3", "b8c6", "f1c4"], "Italian Game"),
        (vec!["e2e4", "e7e5", "g1f3", "b8c6", "d2d4", "e5d4", "f3d4", "g8f6"], "Scotch Game"),
        (vec!["e2e4", "e7e5", "g1f3", "b8c6", "d2d4"], "Scotch Game"),
        (vec!["e2e4", "c7c5", "g1f3", "d7d6", "d2d4", "c5d4", "f3d4", "g8f6", "b1c3", "a7a6"], "Sicilian \u{2014} Najdorf"),
        (vec!["e2e4", "c7c5", "g1f3", "b8c6", "d2d4", "c5d4", "f3d4", "g7g6"], "Sicilian \u{2014} Dragon"),
        (vec!["e2e4", "c7c5", "g1f3", "e7e6", "d2d4", "c5d4", "f3d4", "a7a6"], "Sicilian \u{2014} Kan"),
        (vec!["e2e4", "c7c5", "b1c3", "b8c6", "g2g3"], "Sicilian \u{2014} Closed"),
        (vec!["e2e4", "c7c5", "g1f3", "d7d6", "d2d4"], "Sicilian \u{2014} Open"),
        (vec!["e2e4", "c7c5"], "Sicilian Defence"),
        (vec!["e2e4", "e7e6", "d2d4", "d7d5", "b1c3", "g8f6", "c1g5"], "French \u{2014} Classical"),
        (vec!["e2e4", "e7e6", "d2d4", "d7d5", "e4e5", "c7c5", "c2c3"], "French \u{2014} Advance"),
        (vec!["e2e4", "e7e6", "d2d4", "d7d5", "b1d2"], "French \u{2014} Tarrasch"),
        (vec!["e2e4", "e7e6", "d2d4", "d7d5"], "French Defence"),
        (vec!["e2e4", "e7e6"], "French Defence"),
        (vec!["e2e4", "c7c6", "d2d4", "d7d5", "b1c3", "d5e4", "c3e4", "g8f6"], "Caro-Kann \u{2014} Classical"),
        (vec!["e2e4", "c7c6", "d2d4", "d7d5", "e4e5"], "Caro-Kann \u{2014} Advance"),
        (vec!["e2e4", "c7c6", "d2d4", "d7d5"], "Caro-Kann Defence"),
        (vec!["e2e4", "c7c6"], "Caro-Kann Defence"),
        (vec!["e2e4", "d7d6", "d2d4", "g8f6", "b1c3", "g7g6"], "Pirc Defence"),
        (vec!["e2e4", "d7d6"], "Pirc / Modern Defence"),
        (vec!["e2e4", "e7e5"], "Open Game (1.e4 e5)"),
        (vec!["e2e4"], "King's Pawn Opening"),
        (vec!["d2d4", "d7d5", "c2c4", "d5c4", "g1f3", "g8f6", "e2e3", "e7e6", "f1c4", "c7c5"], "QGA \u{2014} Classical"),
        (vec!["d2d4", "d7d5", "c2c4", "d5c4"], "Queen's Gambit Accepted"),
        (vec!["d2d4", "d7d5", "c2c4", "c7c6", "b1c3", "g8f6", "g1f3", "e7e6", "e2e3"], "Slav Defence \u{2014} Orthodox"),
        (vec!["d2d4", "d7d5", "c2c4", "c7c6"], "Slav Defence"),
        (vec!["d2d4", "d7d5", "c2c4", "e7e6", "b1c3", "g8f6", "c1g5", "f8e7"], "QGD \u{2014} Orthodox"),
        (vec!["d2d4", "d7d5", "c2c4", "e7e6", "b1c3", "g8f6"], "Queen's Gambit Declined"),
        (vec!["d2d4", "d7d5", "c2c4"], "Queen's Gambit"),
        (vec!["d2d4", "g8f6", "c2c4", "g7g6", "b1c3", "f8g7", "e2e4", "d7d6", "f2f3", "e8g8"], "King's Indian \u{2014} S\u{e4}misch"),
        (vec!["d2d4", "g8f6", "c2c4", "g7g6", "b1c3", "f8g7", "e2e4", "d7d6", "g1f3", "e8g8"], "King's Indian \u{2014} Classical"),
        (vec!["d2d4", "g8f6", "c2c4", "g7g6", "b1c3", "f8g7", "e2e4"], "King's Indian Defence"),
        (vec!["d2d4", "g8f6", "c2c4", "e7e6", "b1c3", "f8b4", "e2e3"], "Nimzo-Indian \u{2014} Rubinstein"),
        (vec!["d2d4", "g8f6", "c2c4", "e7e6", "b1c3", "f8b4", "d1c2"], "Nimzo-Indian \u{2014} Classical"),
        (vec!["d2d4", "g8f6", "c2c4", "e7e6", "b1c3", "f8b4"], "Nimzo-Indian Defence"),
        (vec!["d2d4", "g8f6", "c2c4", "e7e6", "g1f3", "b7b6", "g2g3", "c8b7", "f1g2"], "Queen's Indian Defence"),
        (vec!["d2d4", "g8f6", "c2c4", "e7e6", "g1f3", "b7b6"], "Queen's Indian Defence"),
        (vec!["d2d4", "g8f6", "c2c4", "g7g6", "b1c3", "d7d5", "c4d5", "f6d5", "e2e4", "d5c3", "b2c3"], "Gr\u{fc}nfeld \u{2014} Exchange"),
        (vec!["d2d4", "g8f6", "c2c4", "g7g6", "b1c3", "d7d5"], "Gr\u{fc}nfeld Defence"),
        (vec!["d2d4", "d7d5", "g1f3", "g8f6", "c1f4", "e7e6", "e2e3", "c7c5"], "London System"),
        (vec!["d2d4", "d7d5", "g1f3", "g8f6", "c1f4"], "London System"),
        (vec!["d2d4", "g8f6", "g1f3", "d7d5", "c1f4"], "London System"),
        (vec!["c2c4", "e7e5", "b1c3", "g8f6", "g1f3", "b8c6", "g2g3"], "English \u{2014} Reversed Sicilian"),
        (vec!["c2c4", "c7c5", "g1f3", "g8f6", "b1c3", "d7d5"], "English \u{2014} Symmetrical"),
        (vec!["c2c4"], "English Opening"),
        (vec!["g1f3", "d7d5", "g2g3", "g8f6", "f1g2"], "R\u{e9}ti Opening"),
        (vec!["g1f3", "d7d5", "g2g3"], "R\u{e9}ti Opening"),
        (vec!["g1f3", "d7d5"], "R\u{e9}ti / Zukertort"),
        (vec!["f2f4", "d7d5", "g1f3", "g8f6", "e2e3"], "Bird's Opening"),
        (vec!["f2f4"], "Bird's Opening"),
        (vec!["d2d4", "g8f6", "c2c4"], "Indian Game"),
        (vec!["d2d4", "d7d5"], "Queen's Pawn Game"),
        (vec!["d2d4"], "Queen's Pawn Opening"),
    ];
    assert(eco_views(r@) =~~= eco_table());
    r
}

// ── Order of strings ─────────────────────────────────────────────────────────

/// Lexicographic order of strings, character by character, as `str`'s `Ord` orders them.
pub open spec fn lex_lt(a: Seq<char>, b: Seq<char>) -> bool
    decreases a.len(),
{
    if a.len() == 0 {
        b.len() > 0
    } else if b.len() == 0 {
        false
    } else if a[0] != b[0] {
        a[0] < b[0]
    } else {
        lex_lt(a.drop_first(), b.drop_first())
    }
}

proof fn lemma_lex_irrefl(a: Seq<char>)
    ensures !lex_lt(a, a),
    decreases a.len(),
{
    if a.len() > 0 { lemma_lex_irrefl(a.drop_first()); }
}

proof fn lemma_lex_trans(a: Seq<char>, b: Seq<char>, c: Seq<char>)
    requires lex_lt(a, b), lex_lt(b, c),
    ensures lex_lt(a, c),
    decreases a.len(),
{
    if a.len() > 0 && b.len() > 0 && c.len() > 0 && a[0] == b[0] && b[0] == c[0] {
        lemma_lex_trans(a.drop_first(), b.drop_first(), c.drop_first());
    }
}

proof fn lemma_lex_total(a: Seq<char>, b: Seq<char>)
    requires a != b,
    ensures lex_lt(a, b) || lex_lt(b, a),
    decreases a.len(),
{
    if a.len() > 0 && b.len() > 0 && a[0] == b[0] {
        if a.drop_first() == b.drop_first() {
            assert(a =~= seq![a[0]] + a.drop_first());
            assert(b =~= seq![b[0]] + b.drop_first());
        }
        lemma_lex_total(a.drop_first(), b.drop_first());
    } else if a.len() == 0 && b.len() == 0 {
        assert(a =~= b);
    }
}

fn lex_less(a: &str, b: &str) -> (r: bool)
    ensures r == lex_lt(a@, b@),
{
    let x = chars_of(a);
    let y = chars_of(b);
    let mut i: usize = 0;
    assert(x@.skip(0) =~= x@ && y@.skip(0) =~= y@);
    while i < x.len() && i < y.len() && x[i] == y[i]
        invariant
            i <= x@.len(), i <= y@.len(), x@ == a@, y@ == b@,
            lex_lt(a@, b@) == lex_lt(x@.skip(i as int), y@.skip(i as int)),
        decreases x@.len() - i,
    {
        assert(x@.skip(i as int).drop_first() =~= x@.skip(i + 1));
        assert(y@.skip(i as int).drop_first() =~= y@.skip(i + 1));
        i += 1;
    }
    if i == x.len() {
        i < y.len()
    } else if i == y.len() {
        false
    } else {
        assert(x@.skip(i as int)[0] == x@[i as int] && y@.skip(i as int)[0] == y@[i as int]);
        x[i] < y[i]
    }
}

/// Strictly increasing: sorted, with nothing twice.
pub open spec fn strictly_sorted(s: Seq<Seq<char>>) -> bool {
    forall|i: int, j: int| 0 <= i < j < s.len() ==> lex_lt(s[i], s[j])
}

/// Two strictly sorted lists with the same elements are the same list.
proof fn lemma_sorted_unique(a: Seq<Seq<char>>, b: Seq<Seq<char>>)
    requires
        strictly_sorted(a), strictly_sorted(b),
        forall|m: Seq<char>| a.contains(m) <==> b.contains(m),
    ensures a == b,
    decreases a.len() + b.len(),
{
    if a.len() == 0 {
        if b.len() > 0 { assert(b.contains(b[0])); }
        assert(a =~= b);
    } else if b.len() == 0 {
        assert(a.contains(a[0]));
    } else {
        assert(a.contains(a[0]));
        assert(b.contains(b[0]));
        let i = choose|i: int| 0 <= i < a.len() && a[i] == b[0];
        let j = choose|j: int| 0 <= j < b.len() && b[j] == a[0];
        if a[0] != b[0] {
            assert(i > 0 && j > 0);
            assert(lex_lt(a[0], a[i]));
            assert(lex_lt(b[0], b[j]));
            lemma_lex_trans(a[0], b[0], a[0]);
            lemma_lex_irrefl(a[0]);
        }
        let a1 = a.drop_first();
        let b1 = b.drop_first();
        assert forall|m: Seq<char>| a1.contains(m) <==> b1.contains(m) by {
            if a1.contains(m) {
                let k = choose|k: int| 0 <= k < a1.len() && a1[k] == m;
                assert(lex_lt(a[0], a[k + 1]));
                if m == b[0] { lemma_lex_irrefl(m); }
                assert(a[k + 1] == m);
                assert(a.contains(a[k + 1]));
                assert(b.contains(m));
                let l = choose|l: int| 0 <= l < b.len() && b[l] == m;
                assert(l > 0);
                assert(b1[l - 1] == m);
            }
            if b1.contains(m) {
                let k = choose|k: int| 0 <= k < b1.len() && b1[k] == m;
                assert(lex_lt(b[0], b[k + 1]));
                if m == a[0] { lemma_lex_irrefl(m); }
                assert(b[k + 1] == m);
                assert(b.contains(b[k + 1]));
                assert(a.contains(m));
                let l = choose|l: int| 0 <= l < a.len() && a[l] == m;
                assert(l > 0);
                assert(a1[l - 1] == m);
            }
        }
        lemma_sorted_unique(a1, b1);
        assert(a =~= seq![a[0]] + a1);
        assert(b =~= seq![b[0]] + b1);
    }
}

/// Adds `x` to a strictly sorted list at its place, unless it is there already.
fn insert_sorted(c: &mut Vec<&'static str>, x: &'static str)
    requires strictly_sorted(strs(old(c)@)),
    ensures
        strictly_sorted(strs(final(c)@)),
        forall|m: Seq<char>| strs(final(c)@).contains(m) <==> (strs(old(c)@).contains(m) || m == x@),
{
    let ghost s0 = strs(c@);
    let mut p: usize = 0;
    while p < c.len() && lex_less(c[p], x)
        invariant
            p <= c@.len(), s0 == strs(c@), strictly_sorted(s0),
            forall|i: int| 0 <= i < p ==> lex_lt(s0[i], x@),
        decreases c@.len() - p,
    {
        p += 1;
    }
    if p < c.len() && eq_str(c[p], x) {
        assert(s0[p as int] == x@);
        assert(s0.contains(x@));
        return;
    }
    // every element from p on is greater than x
    proof {
        assert forall|j: int| p <= j < s0.len() implies lex_lt(x@, #[trigger] s0[j]) by {
            assert(!lex_lt(s0[p as int], x@));
            assert(s0[p as int] != x@);
            lemma_lex_total(s0[p as int], x@);
            if j > p { lemma_lex_trans(x@, s0[p as int], s0[j]); }
        }
    }
    c.insert(p, x);
    proof {
        let s1 = strs(c@);
        assert(s1 =~= s0.insert(p as int, x@));
        assert forall|i: int, j: int| 0 <= i < j < s1.len() implies lex_lt(s1[i], s1[j]) by {
            if i < p && j == p {
            } else if i < p && j > p {
                lemma_lex_trans(s1[i], x@, s1[j]);
            }
        }
        assert forall|m: Seq<char>| s1.contains(m) <==> (s0.contains(m) || m == x@) by {
            if s1.contains(m) {
                let k = choose|k: int| 0 <= k < s1.len() && s1[k] == m;
                if k < p { assert(s0[k] == m); } else if k > p { assert(s0[k - 1] == m); }
            }
            if s0.contains(m) {
                let k = choose|k: int| 0 <= k < s0.len() && s0[k] == m;
                if k < p { assert(s1[k] == m); } else { assert(s1[k + 1] == m); }
            }
            if m == x@ { assert(s1[p as int] == m); }
        }
    }
}

fn eq_str(a: &str, b: &str) -> (r: bool)
    ensures r == (a@ == b@),
{
    let x = chars_of(a);
    eq_lit(&x, b)
}

// ── Book moves ───────────────────────────────────────────────────────────────

/// The moves played so far, in coordinates, without check marks.
pub open spec fn played(history: Seq<HistEntry>) -> Seq<Seq<char>> {
    history.map_values(|h: HistEntry| strip_end_spec(strip_end_spec(h.notation@, '#'), '+'))
}

/// Whether `line` starts with the moves `h` and goes on after them.
pub open spec fn continues(line: Seq<Seq<char>>, h: Seq<Seq<char>>) -> bool {
    line.len() > h.len() && forall|i: int| 0 <= i < h.len() ==> line[i] == h[i]
}

/// The next moves of the first `n` book lines that continue `h`.
pub open spec fn next_moves_upto(h: Seq<Seq<char>>, n: nat) -> Set<Seq<char>>
    decreases n,
{
    if n == 0 {
        Set::empty()
    } else {
        let line = book_lines()[n - 1];
        let rest = next_moves_upto(h, (n - 1) as nat);
        if continues(line, h) { rest.insert(line[h.len() as int]) } else { rest }
    }
}

/// The book's next moves after `h`, sorted and without repeats.
pub open spec fn book_candidates(h: Seq<Seq<char>>) -> Seq<Seq<char>> {
    choose|c: Seq<Seq<char>>| strictly_sorted(c)
        && forall|m: Seq<char>| c.contains(m) <==> next_moves_upto(h, book_lines().len()).contains(m)
}

/// The book move: among the sorted next moves of the lines that the game follows, the one
/// at the game's length modulo their number, read as typed notation; `None` out of book.
pub open spec fn book_move_spec(history: Seq<HistEntry>, board: Board, color: Color, ep: Option<(usize, usize)>,
    cast: Castle) -> Option<Mv>
{
    let h = played(history);
    let c = book_candidates(h);
    if c.len() == 0 {
        None
    } else {
        match notation_spec(board, color, ep, cast, c[(h.len() % c.len()) as int]) {
            Ok(m) => Some(m),
            Err(_) => None,
        }
    }
}

fn played_moves(history: &Vec<HistEntry>) -> (r: Vec<Vec<char>>)
    ensures r.deep_view() == played(history@),
{
    let mut r: Vec<Vec<char>> = Vec::new();
    let mut i: usize = 0;
    while i < history.len()
        invariant
            i <= history@.len(),
            r.deep_view() =~= played(history@).take(i as int),
        decreases history@.len() - i,
    {
        let n = chars_of(history[i].notation.as_str());
        let m = strip_end(&strip_end(&n, '#'), '+');
        let ghost before = r.deep_view();
        assert(m.deep_view() =~= m@);
        r.push(m);
        assert(r.deep_view() =~= before.push(m@));
        i += 1;
    }
    r
}

/// Whether `line` continues the moves `h`.
fn line_continues(line: &Vec<&'static str>, h: &Vec<Vec<char>>) -> (r: bool)
    ensures r == continues(strs(line@), h.deep_view()),
{
    if line.len() <= h.len() {
        return false;
    }
    let mut i: usize = 0;
    while i < h.len()
        invariant
            i <= h@.len(), h@.len() < line@.len(),
            forall|j: int| 0 <= j < i ==> strs(line@)[j] == h.deep_view()[j],
        decreases h@.len() - i,
    {
        assert(h@[i as int].deep_view() =~= h@[i as int]@);
        if !eq_lit(&h[i], line[i]) {
            assert(strs(line@)[i as int] != h.deep_view()[i as int]);
            return false;
        }
        i += 1;
    }
    true
}

/// A move from the opening book for the game so far, or `None` out of book.
pub fn book_move(history: &Vec<HistEntry>, board: &Board, color: Color, ep: Option<(usize, usize)>, cast: &Castle)
    -> (r: Option<Mv>)
    ensures r == book_move_spec(history@, *board, color, ep, *cast),
{
    let h = played_moves(history);
    let d = h.len();
    let lines = book_table();
    let mut cands: Vec<&'static str> = Vec::new();
    let mut k: usize = 0;
    while k < lines.len()
        invariant
            k <= lines@.len(), line_views(lines@) == book_lines(), d == h@.len(),
            h.deep_view() == played(history@),
            strictly_sorted(strs(cands@)),
            forall|m: Seq<char>| strs(cands@).contains(m) <==> next_moves_upto(h.deep_view(), k as nat).contains(m),
        decreases lines@.len() - k,
    {
        assert(strs(lines@[k as int]@) == book_lines()[k as int]);
        if line_continues(&lines[k], &h) {
            insert_sorted(&mut cands, lines[k][d]);
        }
        k += 1;
    }
    let ghost c = strs(cands@);
    assert(book_lines().len() == lines@.len());
    proof {
        let b = book_candidates(h.deep_view());
        assert(strictly_sorted(c) && forall|m: Seq<char>| c.contains(m) <==> next_moves_upto(h.deep_view(), book_lines().len()).contains(m));
        lemma_sorted_unique(b, c);
    }
    if cands.len() == 0 {
        return None;
    }
    let pick = d % cands.len();
    match parse_notation(board, color, ep, cast, cands[pick]) {
        Ok(m) => Some(m),
        Err(_) => None,
    }
}

// ── Opening names ────────────────────────────────────────────────────────────

/// Whether the moves `h` start with `p`.
pub open spec fn starts_with(h: Seq<Seq<char>>, p: Seq<Seq<char>>) -> bool {
    p.len() <= h.len() && forall|i: int| 0 <= i < p.len() ==> h[i] == p[i]
}

/// The length of the moves of the first table entry from index `i` on named `name`, or 0.
pub open spec fn first_len_from(name: Seq<char>, i: int) -> nat
    decreases eco_table().len() - i,
{
    if i >= eco_table().len() {
        0
    } else if eco_table()[i].1 == name {
        eco_table()[i].0.len()
    } else {
        first_len_from(name, i + 1)
    }
}

/// The name of the opening after the first `n` table entries: an entry whose moves start
/// the game replaces the name found so far when there is none yet, or when its moves are
/// longer than those of the first entry of the name found so far.
pub open spec fn opening_upto(h: Seq<Seq<char>>, n: nat) -> Option<Seq<char>>
    decreases n,
{
    if n == 0 {
        None
    } else {
        let best = opening_upto(h, (n - 1) as nat);
        let e = eco_table()[n - 1];
        if starts_with(h, e.0) && (best is None || e.0.len() > first_len_from(best->0, 0)) {
            Some(e.1)
        } else {
            best
        }
    }
}

fn first_len(eco: &Vec<(Vec<&'static str>, &'static str)>, name: &str) -> (r: usize)
    requires eco_views(eco@) == eco_table(),
    ensures r == first_len_from(name@, 0),
{
    let mut i: usize = 0;
    while i < eco.len()
        invariant
            i <= eco@.len(), eco_views(eco@) == eco_table(),
            first_len_from(name@, 0) == first_len_from(name@, i as int),
        decreases eco@.len() - i,
    {
        assert(eco_views(eco@)[i as int] == (strs(eco@[i as int].0@), eco@[i as int].1@));
        if eq_str(eco[i].1, name) {
            return eco[i].0.len();
        }
        i += 1;
    }
    0
}

fn starts_with_moves(h: &Vec<Vec<char>>, p: &Vec<&'static str>) -> (r: bool)
    ensures r == starts_with(h.deep_view(), strs(p@)),
{
    if p.len() > h.len() {
        return false;
    }
    let mut i: usize = 0;
    while i < p.len()
        invariant
            i <= p@.len(), p@.len() <= h@.len(),
            forall|j: int| 0 <= j < i ==> h.deep_view()[j] == strs(p@)[j],
        decreases p@.len() - i,
    {
        assert(h@[i as int].deep_view() =~= h@[i as int]@);
        if !eq_lit(&h[i], p[i]) {
            assert(strs(p@)[i as int] != h.deep_view()[i as int]);
            return false;
        }
        i += 1;
    }
    true
}

/// The name of the opening that the game follows, by its longest known start.
pub fn opening_name(history: &Vec<HistEntry>) -> (r: Option<&'static str>)
    ensures
        match r {
            Some(s) => opening_upto(played(history@), eco_table().len()) == Some(s@),
            None => opening_upto(played(history@), eco_table().len()) is None,
        },
{
    let h = played_moves(history);
    let eco = eco_list();
    let mut best: Option<&'static str> = None;
    let mut k: usize = 0;
    while k < eco.len()
        invariant
            k <= eco@.len(), eco_views(eco@) == eco_table(), h.deep_view() == played(history@),
            match best {
                Some(s) => opening_upto(h.deep_view(), k as nat) == Some(s@),
                None => opening_upto(h.deep_view(), k as nat) is None,
            },
        decreases eco@.len() - k,
    {
        assert(eco_views(eco@)[k as int] == (strs(eco@[k as int].0@), eco@[k as int].1@));
        if starts_with_moves(&h, &eco[k].0) {
            let better = match best {
                None => true,
                Some(b) => eco[k].0.len() > first_len(&eco, b),
            };
            if better {
                best = Some(eco[k].1);
            }
        }
        k += 1;
    }
    best
}

} // verus!
