//! Board representation, move generation and move application.
use vstd::prelude::*;

verus! {

#[derive(Clone, Copy, PartialEq, Eq, Debug, Structural)]
pub enum Color { White, Black }

impl Color {
    /// The other side.
    #[verifier::allow_in_spec]
    pub fn opp(self) -> Color
        returns (match self { Color::White => Color::Black, Color::Black => Color::White }),
    {
        match self { Color::White => Color::Black, Color::Black => Color::White }
    }

    pub fn name(self) -> (s: &'static str)
        ensures s@ == (match self { Color::White => "WHITE"@, Color::Black => "BLACK"@ }),
    {
        match self { Color::White => "WHITE", Color::Black => "BLACK" }
    }
}

#[derive(Clone, Copy, PartialEq, Eq, Debug, Structural)]
pub enum Kind { P, N, B, R, Q, K }

#[derive(Clone, Copy, PartialEq, Eq, Debug, Structural)]
pub struct Piece { pub c: Color, pub k: Kind }

pub open spec fn sym_spec(p: Piece) -> Seq<char> {
    match (p.c, p.k) {
        (Color::White, Kind::K) => "\u{2654}"@, (Color::White, Kind::Q) => "\u{2655}"@,
        (Color::White, Kind::R) => "\u{2656}"@, (Color::White, Kind::B) => "\u{2657}"@,
        (Color::White, Kind::N) => "\u{2658}"@, (Color::White, Kind::P) => "\u{2659}"@,
        (Color::Black, Kind::K) => "\u{265a}"@, (Color::Black, Kind::Q) => "\u{265b}"@,
        (Color::Black, Kind::R) => "\u{265c}"@, (Color::Black, Kind::B) => "\u{265d}"@,
        (Color::Black, Kind::N) => "\u{265e}"@, (Color::Black, Kind::P) => "\u{265f}"@,
    }
}

impl Piece {
    /// The Unicode chess glyph of the piece.
    pub fn sym(self) -> (s: &'static str)
        ensures s@ == sym_spec(self),
    {
        match (self.c, self.k) {
            (Color::White, Kind::K) => "\u{2654}", (Color::White, Kind::Q) => "\u{2655}",
            (Color::White, Kind::R) => "\u{2656}", (Color::White, Kind::B) => "\u{2657}",
            (Color::White, Kind::N) => "\u{2658}", (Color::White, Kind::P) => "\u{2659}",
            (Color::Black, Kind::K) => "\u{265a}", (Color::Black, Kind::Q) => "\u{265b}",
            (Color::Black, Kind::R) => "\u{265c}", (Color::Black, Kind::B) => "\u{265d}",
            (Color::Black, Kind::N) => "\u{265e}", (Color::Black, Kind::P) => "\u{265f}",
        }
    }
}

/// `b[r][c]`: row 0 is Black's back rank (rank 8), column 0 is the a-file.
pub type Board = [[Option<Piece>; 8]; 8];

#[derive(Clone, Copy, Debug)]
pub struct Mv { pub fr: (usize, usize), pub to: (usize, usize), pub promo: Option<Kind>, pub ep: bool, pub castle: u8 }

impl PartialEq for Mv {
    fn eq(&self, other: &Mv) -> (r: bool) {
        self.fr.0 == other.fr.0 && self.fr.1 == other.fr.1 && self.to.0 == other.to.0
            && self.to.1 == other.to.1 && self.promo == other.promo && self.ep == other.ep
            && self.castle == other.castle
    }
}

impl Eq for Mv {}

impl vstd::std_specs::cmp::PartialEqSpecImpl for Mv {
    open spec fn obeys_eq_spec() -> bool { true }
    open spec fn eq_spec(&self, other: &Mv) -> bool { *self == *other }
}

impl Mv {
    /// A plain move: no promotion, not en passant, not castling.
    #[verifier::allow_in_spec]
    pub fn basic(fr: (usize, usize), to: (usize, usize)) -> Mv
        returns (Mv { fr, to, promo: None, ep: false, castle: 0 }),
    {
        Mv { fr, to, promo: None, ep: false, castle: 0 }
    }
}

#[derive(Clone, Copy, Debug)]
pub struct Castle { pub wk: bool, pub wq: bool, pub bk: bool, pub bq: bool }

impl Castle {
    pub fn all() -> (r: Castle)
        ensures r == (Castle { wk: true, wq: true, bk: true, bq: true }),
    {
        Castle { wk: true, wq: true, bk: true, bq: true }
    }

    /// Kingside right of `c`.
    #[verifier::allow_in_spec]
    pub fn ks(self, c: Color) -> bool
        returns (if c == Color::White { self.wk } else { self.bk }),
    {
        if c == Color::White { self.wk } else { self.bk }
    }

    /// Queenside right of `c`.
    #[verifier::allow_in_spec]
    pub fn qs(self, c: Color) -> bool
        returns (if c == Color::White { self.wq } else { self.bq }),
    {
        if c == Color::White { self.wq } else { self.bq }
    }

    pub fn revoke_all(&mut self, c: Color)
        ensures
            *final(self) == (if c == Color::White {
                Castle { wk: false, wq: false, ..*old(self) }
            } else {
                Castle { bk: false, bq: false, ..*old(self) }
            }),
    {
        if c == Color::White { self.wk = false; self.wq = false; } else { self.bk = false; self.bq = false; }
    }

    pub fn revoke_ks(&mut self, c: Color)
        ensures
            *final(self) == (if c == Color::White { Castle { wk: false, ..*old(self) } } else { Castle { bk: false, ..*old(self) } }),
    {
        if c == Color::White { self.wk = false; } else { self.bk = false; }
    }

    pub fn revoke_qs(&mut self, c: Color)
        ensures
            *final(self) == (if c == Color::White { Castle { wq: false, ..*old(self) } } else { Castle { bq: false, ..*old(self) } }),
    {
        if c == Color::White { self.wq = false; } else { self.bq = false; }
    }
}

// ── Board model ──────────────────────────────────────────────────────────────

pub open spec fn inb(r: int, c: int) -> bool { 0 <= r < 8 && 0 <= c < 8 }

pub open spec fn set_sq(b: Board, r: int, c: int, v: Option<Piece>) -> Board {
    vstd::array::spec_array_update(b, r, vstd::array::spec_array_update(b[r], c, v))
}

pub open spec fn back_rank_kind(c: int) -> Kind {
    if c == 0 || c == 7 { Kind::R } else if c == 1 || c == 6 { Kind::N } else if c == 2 || c == 5 { Kind::B }
    else if c == 3 { Kind::Q } else { Kind::K }
}

/// The initial position, square by square.
pub open spec fn start_sq(r: int, c: int) -> Option<Piece> {
    if r == 0 { Some(Piece { c: Color::Black, k: back_rank_kind(c) }) }
    else if r == 1 { Some(Piece { c: Color::Black, k: Kind::P }) }
    else if r == 6 { Some(Piece { c: Color::White, k: Kind::P }) }
    else if r == 7 { Some(Piece { c: Color::White, k: back_rank_kind(c) }) }
    else { None }
}

pub fn start_board() -> (b: Board)
    ensures forall|r: int, c: int| inb(r, c) ==> b[r][c] == start_sq(r, c),
{
    let mut b: Board = [[None; 8]; 8];
    let back: [Kind; 8] = [Kind::R, Kind::N, Kind::B, Kind::Q, Kind::K, Kind::B, Kind::N, Kind::R];
    assert(forall|r: int, c: int| inb(r, c) ==> b[r][c] == None::<Piece>);
    let mut c: usize = 0;
    while c < 8
        invariant
            c <= 8,
            forall|i: int| 0 <= i < 8 ==> back[i] == back_rank_kind(i),
            forall|r: int, cc: int| inb(r, cc) ==> b[r][cc] == (if (r == 0 || r == 1 || r == 6 || r == 7) && cc < c { start_sq(r, cc) } else { None }),
        decreases 8 - c,
    {
        let k = back[c];
        b[0][c] = Some(Piece { c: Color::Black, k });
        b[7][c] = Some(Piece { c: Color::White, k });
        b[1][c] = Some(Piece { c: Color::Black, k: Kind::P });
        b[6][c] = Some(Piece { c: Color::White, k: Kind::P });
        c += 1;
    }
    b
}

pub open spec fn bmv(r: int, c: int, nr: int, nc: int) -> Mv {
    Mv { fr: (r as usize, c as usize), to: (nr as usize, nc as usize), promo: None, ep: false, castle: 0 }
}

fn ib(r: i32, c: i32) -> (res: bool)
    ensures res == inb(r as int, c as int),
{
    r >= 0 && r < 8 && c >= 0 && c < 8
}

/// The moves of a sliding piece of colour `col` on (r, c) along one direction,
/// starting from (nr, nc): empty squares, then possibly one capture.
pub open spec fn ray(b: Board, r: int, c: int, col: Color, dr: int, dc: int, nr: int, nc: int, fuel: nat) -> Seq<Mv>
    decreases fuel,
{
    if fuel == 0 || !inb(nr, nc) {
        Seq::empty()
    } else {
        match b[nr][nc] {
            Some(p) => if p.c == col { Seq::empty() } else { seq![bmv(r, c, nr, nc)] },
            None => seq![bmv(r, c, nr, nc)] + ray(b, r, c, col, dr, dc, nr + dr, nc + dc, (fuel - 1) as nat),
        }
    }
}

pub open spec fn unit_dir(d: (i32, i32)) -> bool {
    -1 <= d.0 <= 1 && -1 <= d.1 <= 1 && !(d.0 == 0 && d.1 == 0)
}

pub open spec fn slide_spec(b: Board, r: int, c: int, col: Color, dirs: Seq<(i32, i32)>) -> Seq<Mv>
    decreases dirs.len(),
{
    if dirs.len() == 0 {
        Seq::empty()
    } else {
        let d = dirs.last();
        slide_spec(b, r, c, col, dirs.drop_last())
            + ray(b, r, c, col, d.0 as int, d.1 as int, r + d.0, c + d.1, 8)
    }
}

fn slide(b: &Board, r: usize, c: usize, col: Color, dirs: &[(i32, i32)], out: &mut Vec<Mv>)
    requires
        r < 8, c < 8,
        forall|i: int| 0 <= i < dirs@.len() ==> unit_dir(#[trigger] dirs@[i]),
    ensures
        final(out)@ == old(out)@ + slide_spec(*b, r as int, c as int, col, dirs@),
{
    let ghost out0 = out@;
    let mut i: usize = 0;
    while i < dirs.len()
        invariant
            i <= dirs@.len(), r < 8, c < 8,
            forall|j: int| 0 <= j < dirs@.len() ==> unit_dir(#[trigger] dirs@[j]),
            out@ == out0 + slide_spec(*b, r as int, c as int, col, dirs@.take(i as int)),
        decreases dirs@.len() - i,
    {
        let (dr, dc) = dirs[i];
        assert(unit_dir(dirs@[i as int]));
        let ghost before = out@;
        let ghost full = ray(*b, r as int, c as int, col, dr as int, dc as int, r + dr, c + dc, 8);
        let mut nr: i32 = r as i32 + dr;
        let mut nc: i32 = c as i32 + dc;
        let ghost mut fuel: nat = 8;
        while ib(nr, nc)
            invariant_except_break
                r < 8, c < 8, -1 <= dr <= 1, -1 <= dc <= 1, !(dr == 0 && dc == 0),
                -1 <= nr <= 8, -1 <= nc <= 8,
                dr == 1 ==> nr + fuel == r + 9,
                dr == -1 ==> nr - fuel == r - 9,
                dr == 0 && dc == 1 ==> nc + fuel == c + 9,
                dr == 0 && dc == -1 ==> nc - fuel == c - 9,
                before + full == out@ + ray(*b, r as int, c as int, col, dr as int, dc as int, nr as int, nc as int, fuel),
            ensures
                before + full == out@,
            decreases fuel,
        {
            let ur = nr as usize;
            let uc = nc as usize;
            assert(fuel > 0);
            match b[ur][uc] {
                Some(p) => {
                    if p.c == col {
                        break;
                    }
                    out.push(Mv::basic((r, c), (ur, uc)));
                    break;
                }
                None => {
                    out.push(Mv::basic((r, c), (ur, uc)));
                }
            }
            nr += dr;
            nc += dc;
            proof { fuel = (fuel - 1) as nat; }
        }
        assert(dirs@.take(i + 1).drop_last() =~= dirs@.take(i as int));
        i += 1;
    }
    assert(dirs@.take(dirs@.len() as int) =~= dirs@);
}

pub open spec fn is_own(b: Board, r: int, c: int, col: Color) -> bool {
    match b[r][c] { Some(q) => q.c == col, None => false }
}

pub open spec fn is_enemy(b: Board, r: int, c: int, col: Color) -> bool {
    match b[r][c] { Some(q) => q.c != col, None => false }
}

/// One leaper step: the target must be on the board and not hold a piece of `col`.
pub open spec fn step_spec(b: Board, r: int, c: int, col: Color, d: (i32, i32)) -> Seq<Mv> {
    let nr = r + d.0;
    let nc = c + d.1;
    if inb(nr, nc) && !is_own(b, nr, nc, col) { seq![bmv(r, c, nr, nc)] } else { Seq::empty() }
}

pub open spec fn steps_spec(b: Board, r: int, c: int, col: Color, offs: Seq<(i32, i32)>) -> Seq<Mv>
    decreases offs.len(),
{
    if offs.len() == 0 {
        Seq::empty()
    } else {
        steps_spec(b, r, c, col, offs.drop_last()) + step_spec(b, r, c, col, offs.last())
    }
}

pub open spec fn small_off(d: (i32, i32)) -> bool {
    -2 <= d.0 <= 2 && -2 <= d.1 <= 2
}

fn steps(b: &Board, r: usize, c: usize, col: Color, offs: &[(i32, i32)], out: &mut Vec<Mv>)
    requires
        r < 8, c < 8,
        forall|i: int| 0 <= i < offs@.len() ==> small_off(#[trigger] offs@[i]),
    ensures
        final(out)@ == old(out)@ + steps_spec(*b, r as int, c as int, col, offs@),
{
    let ghost out0 = out@;
    let mut i: usize = 0;
    while i < offs.len()
        invariant
            i <= offs@.len(), r < 8, c < 8,
            forall|j: int| 0 <= j < offs@.len() ==> small_off(#[trigger] offs@[j]),
            out@ == out0 + steps_spec(*b, r as int, c as int, col, offs@.take(i as int)),
        decreases offs@.len() - i,
    {
        let (dr, dc) = offs[i];
        assert(small_off(offs@[i as int]));
        let nr: i32 = r as i32 + dr;
        let nc: i32 = c as i32 + dc;
        if ib(nr, nc) {
            let ur = nr as usize;
            let uc = nc as usize;
            let own = match b[ur][uc] { Some(q) => q.c == col, None => false };
            if !own {
                out.push(Mv::basic((r, c), (ur, uc)));
            }
        }
        assert(offs@.take(i + 1).drop_last() =~= offs@.take(i as int));
        i += 1;
    }
    assert(offs@.take(offs@.len() as int) =~= offs@);
}

pub open spec fn knight_offs() -> Seq<(i32, i32)> {
    seq![(2i32, 1i32), (2i32, -1i32), (-2i32, 1i32), (-2i32, -1i32), (1i32, 2i32), (1i32, -2i32), (-1i32, 2i32), (-1i32, -2i32)]
}

pub open spec fn king_offs() -> Seq<(i32, i32)> {
    seq![(-1i32, -1i32), (-1i32, 0i32), (-1i32, 1i32), (0i32, -1i32), (0i32, 1i32), (1i32, -1i32), (1i32, 0i32), (1i32, 1i32)]
}

pub open spec fn diag_dirs() -> Seq<(i32, i32)> {
    seq![(1i32, 1i32), (1i32, -1i32), (-1i32, 1i32), (-1i32, -1i32)]
}

pub open spec fn orth_dirs() -> Seq<(i32, i32)> {
    seq![(1i32, 0i32), (-1i32, 0i32), (0i32, 1i32), (0i32, -1i32)]
}

pub open spec fn queen_dirs() -> Seq<(i32, i32)> {
    diag_dirs() + orth_dirs()
}

pub open spec fn pawn_dir(col: Color) -> int { if col == Color::White { -1 } else { 1 } }

pub open spec fn pawn_start_row(col: Color) -> int { if col == Color::White { 6 } else { 1 } }

pub open spec fn promo_row(col: Color) -> int { if col == Color::White { 0 } else { 7 } }

/// The four promotions, queen first.
pub open spec fn promo_moves(fr: (usize, usize), to: (usize, usize), ep: bool) -> Seq<Mv> {
    seq![
        Mv { fr, to, promo: Some(Kind::Q), ep, castle: 0 },
        Mv { fr, to, promo: Some(Kind::R), ep, castle: 0 },
        Mv { fr, to, promo: Some(Kind::B), ep, castle: 0 },
        Mv { fr, to, promo: Some(Kind::N), ep, castle: 0 },
    ]
}

/// Forward pawn moves (single and double push) from (r, c), given `nr = r + dir` on the board.
pub open spec fn pawn_push_spec(b: Board, r: int, c: int, col: Color) -> Seq<Mv> {
    let nr = r + pawn_dir(col);
    let nr2 = nr + pawn_dir(col);
    if b[nr][c].is_some() {
        Seq::empty()
    } else if nr == promo_row(col) {
        promo_moves((r as usize, c as usize), (nr as usize, c as usize), false)
    } else {
        seq![bmv(r, c, nr, c)] + (if r == pawn_start_row(col) && inb(nr2, c) && b[nr2][c].is_none() {
            seq![bmv(r, c, nr2, c)]
        } else {
            Seq::empty()
        })
    }
}

/// Diagonal pawn moves towards column `c + dc`: captures and en passant.
pub open spec fn pawn_cap_spec(b: Board, r: int, c: int, col: Color, ep: Option<(usize, usize)>, dc: int) -> Seq<Mv> {
    let nr = r + pawn_dir(col);
    let nc = c + dc;
    if !inb(nr, nc) {
        Seq::empty()
    } else {
        let is_ep = ep == Some((nr as usize, nc as usize));
        if is_enemy(b, nr, nc, col) || is_ep {
            if nr == promo_row(col) {
                promo_moves((r as usize, c as usize), (nr as usize, nc as usize), is_ep)
            } else {
                seq![Mv { fr: (r as usize, c as usize), to: (nr as usize, nc as usize), promo: None, ep: is_ep, castle: 0 }]
            }
        } else {
            Seq::empty()
        }
    }
}

pub open spec fn pawn_spec(b: Board, r: int, c: int, col: Color, ep: Option<(usize, usize)>) -> Seq<Mv> {
    if !inb(r + pawn_dir(col), c) {
        Seq::empty()
    } else {
        pawn_push_spec(b, r, c, col) + pawn_cap_spec(b, r, c, col, ep, -1) + pawn_cap_spec(b, r, c, col, ep, 1)
    }
}

fn push_promos(out: &mut Vec<Mv>, fr: (usize, usize), to: (usize, usize), ep: bool)
    ensures final(out)@ == old(out)@ + promo_moves(fr, to, ep),
{
    out.push(Mv { fr, to, promo: Some(Kind::Q), ep, castle: 0 });
    out.push(Mv { fr, to, promo: Some(Kind::R), ep, castle: 0 });
    out.push(Mv { fr, to, promo: Some(Kind::B), ep, castle: 0 });
    out.push(Mv { fr, to, promo: Some(Kind::N), ep, castle: 0 });
}

fn pawn_moves(b: &Board, r: usize, c: usize, col: Color, ep: Option<(usize, usize)>, out: &mut Vec<Mv>)
    requires r < 8, c < 8,
    ensures final(out)@ == old(out)@ + pawn_spec(*b, r as int, c as int, col, ep),
{
    let dir: i32 = if col == Color::White { -1 } else { 1 };
    let sr: usize = if col == Color::White { 6 } else { 1 };
    let pr: usize = if col == Color::White { 0 } else { 7 };
    let nr: i32 = r as i32 + dir;
    if ib(nr, c as i32) {
        let ghost o0 = out@;
        let ur = nr as usize;
        if b[ur][c].is_none() {
            if ur == pr {
                push_promos(out, (r, c), (ur, c), false);
            } else {
                out.push(Mv::basic((r, c), (ur, c)));
                let nr2: i32 = ur as i32 + dir;
                if r == sr && ib(nr2, c as i32) && b[nr2 as usize][c].is_none() {
                    out.push(Mv::basic((r, c), (nr2 as usize, c)));
                }
            }
        }
        assert(out@ == o0 + pawn_push_spec(*b, r as int, c as int, col));
        let ghost o1 = out@;
        let dcs: [i32; 2] = [-1, 1];
        let mut k: usize = 0;
        while k < 2
            invariant
                k <= 2, r < 8, c < 8, ur < 8, ur == r + pawn_dir(col), pr == promo_row(col), nr == ur,
                dcs@ == seq![-1i32, 1i32],
                out@ == o1 + (if k == 0 { Seq::empty() } else if k == 1 { pawn_cap_spec(*b, r as int, c as int, col, ep, -1) }
                    else { pawn_cap_spec(*b, r as int, c as int, col, ep, -1) + pawn_cap_spec(*b, r as int, c as int, col, ep, 1) }),
            decreases 2 - k,
        {
            let dc = dcs[k];
            let ghost before = out@;
            let nc2: i32 = c as i32 + dc;
            if ib(nr, nc2) {
                let uc2 = nc2 as usize;
                let is_ep = match ep { Some(e) => e.0 == ur && e.1 == uc2, None => false };
                let is_cap = match b[ur][uc2] { Some(q) => q.c != col, None => false };
                if is_cap || is_ep {
                    if ur == pr {
                        push_promos(out, (r, c), (ur, uc2), is_ep);
                    } else {
                        out.push(Mv { fr: (r, c), to: (ur, uc2), promo: None, ep: is_ep, castle: 0 });
                    }
                }
            }
            assert(out@ == before + pawn_cap_spec(*b, r as int, c as int, col, ep, dc as int));
            k += 1;
        }
    }
}

/// The moves a piece makes apart from castling.
pub open spec fn piece_moves_spec(b: Board, r: int, c: int, p: Piece, ep: Option<(usize, usize)>) -> Seq<Mv> {
    match p.k {
        Kind::P => pawn_spec(b, r, c, p.c, ep),
        Kind::N => steps_spec(b, r, c, p.c, knight_offs()),
        Kind::B => slide_spec(b, r, c, p.c, diag_dirs()),
        Kind::R => slide_spec(b, r, c, p.c, orth_dirs()),
        Kind::Q => slide_spec(b, r, c, p.c, queen_dirs()),
        Kind::K => steps_spec(b, r, c, p.c, king_offs()),
    }
}

fn piece_moves(b: &Board, r: usize, c: usize, p: Piece, ep: Option<(usize, usize)>) -> (out: Vec<Mv>)
    requires r < 8, c < 8,
    ensures out@ == piece_moves_spec(*b, r as int, c as int, p, ep),
{
    let mut out: Vec<Mv> = Vec::new();
    match p.k {
        Kind::P => pawn_moves(b, r, c, p.c, ep, &mut out),
        Kind::N => {
            let offs: [(i32, i32); 8] = [(2, 1), (2, -1), (-2, 1), (-2, -1), (1, 2), (1, -2), (-1, 2), (-1, -2)];
            assert(offs@ =~= knight_offs());
            steps(b, r, c, p.c, offs.as_slice(), &mut out);
        }
        Kind::B => {
            let dirs: [(i32, i32); 4] = [(1, 1), (1, -1), (-1, 1), (-1, -1)];
            assert(dirs@ =~= diag_dirs());
            slide(b, r, c, p.c, dirs.as_slice(), &mut out);
        }
        Kind::R => {
            let dirs: [(i32, i32); 4] = [(1, 0), (-1, 0), (0, 1), (0, -1)];
            assert(dirs@ =~= orth_dirs());
            slide(b, r, c, p.c, dirs.as_slice(), &mut out);
        }
        Kind::Q => {
            let dirs: [(i32, i32); 8] = [(1, 1), (1, -1), (-1, 1), (-1, -1), (1, 0), (-1, 0), (0, 1), (0, -1)];
            assert(dirs@ =~= queen_dirs());
            slide(b, r, c, p.c, dirs.as_slice(), &mut out);
        }
        Kind::K => {
            let offs: [(i32, i32); 8] = [(-1, -1), (-1, 0), (-1, 1), (0, -1), (0, 1), (1, -1), (1, 0), (1, 1)];
            assert(offs@ =~= king_offs());
            steps(b, r, c, p.c, offs.as_slice(), &mut out);
        }
    }
    out
}

/// Some move of `s` lands on (r, c).
pub open spec fn hits(s: Seq<Mv>, r: int, c: int) -> bool {
    exists|i: int| 0 <= i < s.len() && (#[trigger] s[i]).to == (r as usize, c as usize)
}

/// The piece on (br, bc) belongs to `by` and one of its moves lands on (r, c).
pub open spec fn attacks_from(b: Board, br: int, bc: int, r: int, c: int, by: Color) -> bool {
    match b[br][bc] {
        Some(p) => p.c == by && hits(piece_moves_spec(b, br, bc, p, None), r, c),
        None => false,
    }
}

/// Some piece of `by` can move to (r, c) (castling aside, en passant aside).
pub open spec fn attacked_spec(b: Board, r: int, c: int, by: Color) -> bool {
    exists|br: int, bc: int| inb(br, bc) && #[trigger] attacks_from(b, br, bc, r, c, by)
}

fn hits_any(ms: &Vec<Mv>, r: usize, c: usize) -> (res: bool)
    ensures res == hits(ms@, r as int, c as int),
{
    let mut i: usize = 0;
    while i < ms.len()
        invariant
            i <= ms@.len(),
            forall|j: int| 0 <= j < i ==> (#[trigger] ms@[j]).to != (r, c),
        decreases ms@.len() - i,
    {
        if ms[i].to.0 == r && ms[i].to.1 == c {
            assert(ms@[i as int].to == (r as usize, c as usize));
            return true;
        }
        i += 1;
    }
    false
}

pub fn attacked(b: &Board, r: usize, c: usize, by: Color) -> (res: bool)
    requires r < 8, c < 8,
    ensures res == attacked_spec(*b, r as int, c as int, by),
{
    let mut br: usize = 0;
    while br < 8
        invariant
            br <= 8, r < 8, c < 8,
            forall|i: int, j: int| 0 <= i < br && 0 <= j < 8 ==> !attacks_from(*b, i, j, r as int, c as int, by),
        decreases 8 - br,
    {
        let mut bc: usize = 0;
        while bc < 8
            invariant
                bc <= 8, br < 8, r < 8, c < 8,
                forall|i: int, j: int| 0 <= i < br && 0 <= j < 8 ==> !attacks_from(*b, i, j, r as int, c as int, by),
                forall|j: int| 0 <= j < bc ==> !attacks_from(*b, br as int, j, r as int, c as int, by),
            decreases 8 - bc,
        {
            if let Some(p) = b[br][bc] {
                if p.c == by {
                    let ms = piece_moves(b, br, bc, p, None);
                    if hits_any(&ms, r, c) {
                        assert(attacks_from(*b, br as int, bc as int, r as int, c as int, by));
                        return true;
                    }
                }
            }
            bc += 1;
        }
        br += 1;
    }
    false
}

pub open spec fn is_king(b: Board, r: int, c: int, col: Color) -> bool {
    match b[r][c] { Some(p) => p.c == col && p.k == Kind::K, None => false }
}

/// (r, c) holds a king of `col` and no square before it in row-major order does.
pub open spec fn first_king(b: Board, col: Color, r: int, c: int) -> bool {
    &&& inb(r, c)
    &&& is_king(b, r, c, col)
    &&& forall|i: int, j: int| inb(i, j) && (i < r || (i == r && j < c)) ==> !is_king(b, i, j, col)
}

pub open spec fn king_sq_spec(b: Board, col: Color) -> Option<(usize, usize)> {
    if exists|r: int, c: int| #[trigger] first_king(b, col, r, c) {
        let (r, c) = choose|r: int, c: int| #[trigger] first_king(b, col, r, c);
        Some((r as usize, c as usize))
    } else {
        None
    }
}

proof fn lemma_first_king_unique(b: Board, col: Color, r1: int, c1: int, r2: int, c2: int)
    requires first_king(b, col, r1, c1), first_king(b, col, r2, c2),
    ensures r1 == r2 && c1 == c2,
{
    if r1 < r2 || (r1 == r2 && c1 < c2) {
        assert(!is_king(b, r1, c1, col));
    } else if r2 < r1 || (r2 == r1 && c2 < c1) {
        assert(!is_king(b, r2, c2, col));
    }
}

/// The first square (row-major) holding the king of `c`.
pub fn king_sq(b: &Board, c: Color) -> (res: Option<(usize, usize)>)
    ensures res == king_sq_spec(*b, c),
{
    let mut r: usize = 0;
    while r < 8
        invariant
            r <= 8,
            forall|i: int, j: int| 0 <= i < r && 0 <= j < 8 ==> !is_king(*b, i, j, c),
        decreases 8 - r,
    {
        let mut cc: usize = 0;
        while cc < 8
            invariant
                cc <= 8, r < 8,
                forall|i: int, j: int| 0 <= i < r && 0 <= j < 8 ==> !is_king(*b, i, j, c),
                forall|j: int| 0 <= j < cc ==> !is_king(*b, r as int, j, c),
            decreases 8 - cc,
        {
            if let Some(p) = b[r][cc] {
                if p.c == c && p.k == Kind::K {
                    assert(first_king(*b, c, r as int, cc as int));
                    proof {
                        let (r2, c2) = choose|r2: int, c2: int| #[trigger] first_king(*b, c, r2, c2);
                        lemma_first_king_unique(*b, c, r as int, cc as int, r2, c2);
                    }
                    return Some((r, cc));
                }
            }
            cc += 1;
        }
        r += 1;
    }
    assert(!exists|i: int, j: int| #[trigger] first_king(*b, c, i, j));
    None
}

pub open spec fn in_check_spec(b: Board, col: Color) -> bool {
    match king_sq_spec(b, col) {
        Some((r, c)) => attacked_spec(b, r as int, c as int, col.opp()),
        None => false,
    }
}

/// The king of `c` (the first one found) is attacked; false when `c` has no king.
pub fn in_check(b: &Board, c: Color) -> (res: bool)
    ensures res == in_check_spec(*b, c),
{
    match king_sq(b, c) {
        Some((r, cc)) => {
            proof {
                let (r2, c2) = choose|r2: int, c2: int| #[trigger] first_king(*b, c, r2, c2);
            }
            attacked(b, r, cc, c.opp())
        }
        None => false,
    }
}

/// Whether (r, c) lies on the capture diagonal of a pawn of `by`, whether or not a piece
/// stands there: pawns guard empty squares too.
pub open spec fn pawn_guards_spec(b: Board, r: int, c: int, by: Color) -> bool {
    let pr = r - pawn_dir(by);
    ||| inb(pr, c - 1) && b[pr][c - 1] == Some(Piece { c: by, k: Kind::P })
    ||| inb(pr, c + 1) && b[pr][c + 1] == Some(Piece { c: by, k: Kind::P })
}

/// A square the king may stand on or pass over while castling: no piece of `by` attacks it
/// and no pawn of `by` guards it.
pub open spec fn castle_safe(b: Board, r: int, c: int, by: Color) -> bool {
    !attacked_spec(b, r, c, by) && !pawn_guards_spec(b, r, c, by)
}

fn pawn_guards(b: &Board, r: usize, c: usize, by: Color) -> (res: bool)
    requires r < 8, c < 8,
    ensures res == pawn_guards_spec(*b, r as int, c as int, by),
{
    let pr: i32 = if by == Color::White { r as i32 + 1 } else { r as i32 - 1 };
    if pr < 0 || pr > 7 {
        return false;
    }
    let pr = pr as usize;
    let pawn = Piece { c: by, k: Kind::P };
    let left = c >= 1 && match b[pr][c - 1] { Some(q) => q.c == by && q.k == Kind::P, None => false };
    let right = c + 1 < 8 && match b[pr][c + 1] { Some(q) => q.c == by && q.k == Kind::P, None => false };
    assert(left == (inb(pr as int, c - 1) && b[pr as int][c - 1] == Some(pawn)));
    assert(right == (inb(pr as int, c + 1) && b[pr as int][c + 1] == Some(pawn)));
    left || right
}

fn castle_safe_at(b: &Board, r: usize, c: usize, by: Color) -> (res: bool)
    requires r < 8, c < 8,
    ensures res == castle_safe(*b, r as int, c as int, by),
{
    !attacked(b, r, c, by) && !pawn_guards(b, r, c, by)
}

/// Castling moves of the king of `col` standing on (r, c): the squares between king and rook
/// empty, and the king's square, the square it crosses and the one it lands on neither
/// attacked nor guarded by a pawn.
pub open spec fn castle_spec(b: Board, r: int, c: int, col: Color, cast: Castle) -> Seq<Mv> {
    let kr: int = if col == Color::White { 7 } else { 0 };
    let opp = col.opp();
    if r == kr && c == 4 {
        (if cast.ks(col) && b[kr][5].is_none() && b[kr][6].is_none()
            && castle_safe(b, kr, 4, opp) && castle_safe(b, kr, 5, opp) && castle_safe(b, kr, 6, opp) {
            seq![Mv { fr: (r as usize, c as usize), to: (kr as usize, 6), promo: None, ep: false, castle: 1 }]
        } else {
            Seq::empty()
        }) + (if cast.qs(col) && b[kr][3].is_none() && b[kr][2].is_none() && b[kr][1].is_none()
            && castle_safe(b, kr, 4, opp) && castle_safe(b, kr, 3, opp) && castle_safe(b, kr, 2, opp) {
            seq![Mv { fr: (r as usize, c as usize), to: (kr as usize, 2), promo: None, ep: false, castle: 2 }]
        } else {
            Seq::empty()
        })
    } else {
        Seq::empty()
    }
}

fn castle_moves(b: &Board, r: usize, c: usize, col: Color, cast: &Castle, out: &mut Vec<Mv>)
    requires r < 8, c < 8,
    ensures final(out)@ == old(out)@ + castle_spec(*b, r as int, c as int, col, *cast),
{
    let kr: usize = if col == Color::White { 7 } else { 0 };
    let opp = col.opp();
    if r == kr && c == 4 {
        let ghost o0 = out@;
        if cast.ks(col) && b[kr][5].is_none() && b[kr][6].is_none()
            && castle_safe_at(b, kr, 4, opp) && castle_safe_at(b, kr, 5, opp) && castle_safe_at(b, kr, 6, opp)
        {
            out.push(Mv { fr: (r, c), to: (kr, 6), promo: None, ep: false, castle: 1 });
        }
        let ghost o1 = out@;
        if cast.qs(col) && b[kr][3].is_none() && b[kr][2].is_none() && b[kr][1].is_none()
            && castle_safe_at(b, kr, 4, opp) && castle_safe_at(b, kr, 3, opp) && castle_safe_at(b, kr, 2, opp)
        {
            out.push(Mv { fr: (r, c), to: (kr, 2), promo: None, ep: false, castle: 2 });
        }
        assert(out@ =~= o0 + castle_spec(*b, r as int, c as int, col, *cast));
    }
}

/// All moves of the piece on (r, c), ignoring whether they expose the own king.
pub open spec fn pseudo_spec(b: Board, r: int, c: int, ep: Option<(usize, usize)>, cast: Castle, allow_castle: bool) -> Seq<Mv> {
    match b[r][c] {
        None => Seq::empty(),
        Some(p) => piece_moves_spec(b, r, c, p, ep) + (if p.k == Kind::K && allow_castle {
            castle_spec(b, r, c, p.c, cast)
        } else {
            Seq::empty()
        }),
    }
}

pub fn pseudo(b: &Board, r: usize, c: usize, ep: Option<(usize, usize)>, cast: &Castle, allow_castle: bool) -> (out: Vec<Mv>)
    requires r < 8, c < 8,
    ensures out@ == pseudo_spec(*b, r as int, c as int, ep, *cast, allow_castle),
{
    let p = match b[r][c] { Some(p) => p, None => return Vec::new() };
    let mut out = piece_moves(b, r, c, p, ep);
    if p.k == Kind::K && allow_castle {
        castle_moves(b, r, c, p.c, cast, &mut out);
    }
    out
}

/// What `apply` needs of a move: both squares on the board, a piece to move,
/// and for an en-passant move a captured square on the board.
pub open spec fn apply_ok(b: Board, mv: Mv) -> bool {
    &&& inb(mv.fr.0 as int, mv.fr.1 as int)
    &&& inb(mv.to.0 as int, mv.to.1 as int)
    &&& b[mv.fr.0 as int][mv.fr.1 as int].is_some()
    &&& mv.ep ==> (if b[mv.fr.0 as int][mv.fr.1 as int].unwrap().c == Color::White { mv.to.0 + 1 < 8 } else { mv.to.0 >= 1 })
}

/// Row of the pawn taken en passant.
pub open spec fn ep_cap_row(p: Piece, mv: Mv) -> int {
    if p.c == Color::White { mv.to.0 + 1 } else { mv.to.0 - 1 }
}

pub open spec fn moved_piece(b: Board, mv: Mv) -> Piece {
    b[mv.fr.0 as int][mv.fr.1 as int].unwrap()
}

/// The piece that ends on the target square.
pub open spec fn placed_piece(b: Board, mv: Mv) -> Piece {
    let p = moved_piece(b, mv);
    match mv.promo { Some(k) => Piece { c: p.c, k }, None => p }
}

/// Board after the move: en-passant capture, rook hop of a castling move,
/// then the piece (promoted if asked) goes from `fr` to `to`.
pub open spec fn apply_board(b: Board, mv: Mv) -> Board {
    let p = moved_piece(b, mv);
    let fr0 = mv.fr.0 as int;
    let b1 = if mv.ep { set_sq(b, ep_cap_row(p, mv), mv.to.1 as int, None) } else { b };
    let b2 = if mv.castle == 1 {
        set_sq(set_sq(b1, fr0, 5, b1[fr0][7]), fr0, 7, None)
    } else if mv.castle == 2 {
        set_sq(set_sq(b1, fr0, 3, b1[fr0][0]), fr0, 0, None)
    } else {
        b1
    };
    set_sq(set_sq(b2, mv.to.0 as int, mv.to.1 as int, Some(placed_piece(b, mv))), fr0, mv.fr.1 as int, None)
}

/// En-passant square after the move: set only by a pawn double push.
pub open spec fn apply_ep(b: Board, mv: Mv) -> Option<(usize, usize)> {
    let p = moved_piece(b, mv);
    if p.k == Kind::P && (mv.to.0 - mv.fr.0 == 2 || mv.fr.0 - mv.to.0 == 2) {
        Some((((mv.fr.0 + mv.to.0) / 2) as usize, mv.fr.1))
    } else {
        None
    }
}

/// Castling rights after the move: a king move loses both rights of its side,
/// a rook leaving its corner loses that right, and any move onto a corner loses that corner's right.
pub open spec fn apply_castle(b: Board, mv: Mv, cast: Castle) -> Castle {
    let p = moved_piece(b, mv);
    let wking = p.k == Kind::K && p.c == Color::White;
    let bking = p.k == Kind::K && p.c == Color::Black;
    let wrook = p.k == Kind::R && p.c == Color::White;
    let brook = p.k == Kind::R && p.c == Color::Black;
    Castle {
        wk: cast.wk && !wking && !(wrook && mv.fr == (7usize, 7usize)) && mv.to != (7usize, 7usize),
        wq: cast.wq && !wking && !(wrook && mv.fr == (7usize, 0usize)) && mv.to != (7usize, 0usize),
        bk: cast.bk && !bking && !(brook && mv.fr == (0usize, 7usize)) && mv.to != (0usize, 7usize),
        bq: cast.bq && !bking && !(brook && mv.fr == (0usize, 0usize)) && mv.to != (0usize, 0usize),
    }
}

/// Plays `mv`; returns the new board, en-passant square and castling rights.
pub fn apply(b: &Board, mv: &Mv, _ep: Option<(usize, usize)>, cast: &Castle) -> (res: (Board, Option<(usize, usize)>, Castle))
    requires apply_ok(*b, *mv),
    ensures
        res.0 == apply_board(*b, *mv),
        res.1 == apply_ep(*b, *mv),
        res.2 == apply_castle(*b, *mv, *cast),
{
    let mut nb = *b;
    let mut nc = *cast;
    let p = match nb[mv.fr.0][mv.fr.1] { Some(p) => p, None => { return (nb, None, nc); } };
    let mut new_ep: Option<(usize, usize)> = None;
    if mv.ep {
        let cap_r = if p.c == Color::White { mv.to.0 + 1 } else { mv.to.0 - 1 };
        nb[cap_r][mv.to.1] = None;
    }
    let ghost b1 = nb;
    let dist: i32 = mv.to.0 as i32 - mv.fr.0 as i32;
    if p.k == Kind::P && (dist == 2 || dist == -2) {
        new_ep = Some(((mv.fr.0 + mv.to.0) / 2, mv.fr.1));
    }
    if mv.castle == 1 {
        nb[mv.fr.0][5] = nb[mv.fr.0][7];
        nb[mv.fr.0][7] = None;
    } else if mv.castle == 2 {
        nb[mv.fr.0][3] = nb[mv.fr.0][0];
        nb[mv.fr.0][0] = None;
    }
    if p.k == Kind::K {
        nc.revoke_all(p.c);
    }
    if p.k == Kind::R {
        if p.c == Color::White && mv.fr.0 == 7 && mv.fr.1 == 7 {
            nc.revoke_ks(Color::White);
        } else if p.c == Color::White && mv.fr.0 == 7 && mv.fr.1 == 0 {
            nc.revoke_qs(Color::White);
        } else if p.c == Color::Black && mv.fr.0 == 0 && mv.fr.1 == 7 {
            nc.revoke_ks(Color::Black);
        } else if p.c == Color::Black && mv.fr.0 == 0 && mv.fr.1 == 0 {
            nc.revoke_qs(Color::Black);
        }
    }
    if mv.to.0 == 7 && mv.to.1 == 7 {
        nc.revoke_ks(Color::White);
    } else if mv.to.0 == 7 && mv.to.1 == 0 {
        nc.revoke_qs(Color::White);
    } else if mv.to.0 == 0 && mv.to.1 == 7 {
        nc.revoke_ks(Color::Black);
    } else if mv.to.0 == 0 && mv.to.1 == 0 {
        nc.revoke_qs(Color::Black);
    }
    let placed = match mv.promo { Some(k) => Piece { c: p.c, k }, None => p };
    nb[mv.to.0][mv.to.1] = Some(placed);
    nb[mv.fr.0][mv.fr.1] = None;
    (nb, new_ep, nc)
}

/// A move generated for the piece of colour `col` on (r, c) has this shape.
pub open spec fn mv_shape(mv: Mv, r: int, c: int, col: Color) -> bool {
    &&& mv.fr == (r as usize, c as usize)
    &&& inb(mv.to.0 as int, mv.to.1 as int)
    &&& mv.ep ==> (if col == Color::White { mv.to.0 + 1 < 8 } else { mv.to.0 >= 1 })
}

pub open spec fn all_shaped(s: Seq<Mv>, r: int, c: int, col: Color) -> bool {
    forall|i: int| 0 <= i < s.len() ==> mv_shape(#[trigger] s[i], r, c, col)
}

proof fn lemma_shaped_concat(a: Seq<Mv>, b: Seq<Mv>, r: int, c: int, col: Color)
    requires all_shaped(a, r, c, col), all_shaped(b, r, c, col),
    ensures all_shaped(a + b, r, c, col),
{
    assert forall|i: int| 0 <= i < (a + b).len() implies mv_shape(#[trigger] (a + b)[i], r, c, col) by {
        if i < a.len() { assert((a + b)[i] == a[i]); } else { assert((a + b)[i] == b[i - a.len()]); }
    }
}

proof fn lemma_ray_shaped(b: Board, r: int, c: int, col: Color, dr: int, dc: int, nr: int, nc: int, fuel: nat)
    requires inb(r, c),
    ensures all_shaped(ray(b, r, c, col, dr, dc, nr, nc, fuel), r, c, col),
    decreases fuel,
{
    if fuel > 0 && inb(nr, nc) {
        lemma_ray_shaped(b, r, c, col, dr, dc, nr + dr, nc + dc, (fuel - 1) as nat);
        lemma_shaped_concat(seq![bmv(r, c, nr, nc)], ray(b, r, c, col, dr, dc, nr + dr, nc + dc, (fuel - 1) as nat), r, c, col);
    }
}

proof fn lemma_slide_shaped(b: Board, r: int, c: int, col: Color, dirs: Seq<(i32, i32)>)
    requires inb(r, c),
    ensures all_shaped(slide_spec(b, r, c, col, dirs), r, c, col),
    decreases dirs.len(),
{
    if dirs.len() > 0 {
        let d = dirs.last();
        lemma_slide_shaped(b, r, c, col, dirs.drop_last());
        lemma_ray_shaped(b, r, c, col, d.0 as int, d.1 as int, r + d.0, c + d.1, 8);
        lemma_shaped_concat(slide_spec(b, r, c, col, dirs.drop_last()), ray(b, r, c, col, d.0 as int, d.1 as int, r + d.0, c + d.1, 8), r, c, col);
    }
}

proof fn lemma_steps_shaped(b: Board, r: int, c: int, col: Color, offs: Seq<(i32, i32)>)
    requires inb(r, c),
    ensures all_shaped(steps_spec(b, r, c, col, offs), r, c, col),
    decreases offs.len(),
{
    if offs.len() > 0 {
        lemma_steps_shaped(b, r, c, col, offs.drop_last());
        lemma_shaped_concat(steps_spec(b, r, c, col, offs.drop_last()), step_spec(b, r, c, col, offs.last()), r, c, col);
    }
}

proof fn lemma_pawn_shaped(b: Board, r: int, c: int, col: Color, ep: Option<(usize, usize)>)
    requires inb(r, c),
    ensures all_shaped(pawn_spec(b, r, c, col, ep), r, c, col),
{
    if inb(r + pawn_dir(col), c) {
        let a = pawn_push_spec(b, r, c, col);
        let x = pawn_cap_spec(b, r, c, col, ep, -1);
        let y = pawn_cap_spec(b, r, c, col, ep, 1);
        assert(all_shaped(a, r, c, col));
        assert(all_shaped(x, r, c, col));
        assert(all_shaped(y, r, c, col));
        lemma_shaped_concat(a, x, r, c, col);
        lemma_shaped_concat(a + x, y, r, c, col);
    }
}

proof fn lemma_piece_moves_shaped(b: Board, r: int, c: int, p: Piece, ep: Option<(usize, usize)>)
    requires inb(r, c),
    ensures all_shaped(piece_moves_spec(b, r, c, p, ep), r, c, p.c),
{
    match p.k {
        Kind::P => lemma_pawn_shaped(b, r, c, p.c, ep),
        Kind::N => lemma_steps_shaped(b, r, c, p.c, knight_offs()),
        Kind::B => lemma_slide_shaped(b, r, c, p.c, diag_dirs()),
        Kind::R => lemma_slide_shaped(b, r, c, p.c, orth_dirs()),
        Kind::Q => lemma_slide_shaped(b, r, c, p.c, queen_dirs()),
        Kind::K => lemma_steps_shaped(b, r, c, p.c, king_offs()),
    }
}

/// Every generated move starts on (r, c), lands on the board, and can be applied.
pub proof fn lemma_pseudo_shaped(b: Board, r: int, c: int, ep: Option<(usize, usize)>, cast: Castle, allow: bool)
    requires inb(r, c), b[r][c].is_some(),
    ensures
        all_shaped(pseudo_spec(b, r, c, ep, cast, allow), r, c, b[r][c].unwrap().c),
        forall|i: int| 0 <= i < pseudo_spec(b, r, c, ep, cast, allow).len() ==> apply_ok(b, #[trigger] pseudo_spec(b, r, c, ep, cast, allow)[i]),
{
    let p = b[r][c].unwrap();
    lemma_piece_moves_shaped(b, r, c, p, ep);
    let cs = if p.k == Kind::K && allow { castle_spec(b, r, c, p.c, cast) } else { Seq::empty() };
    assert(all_shaped(cs, r, c, p.c));
    lemma_shaped_concat(piece_moves_spec(b, r, c, p, ep), cs, r, c, p.c);
    let ps = pseudo_spec(b, r, c, ep, cast, allow);
    assert forall|i: int| 0 <= i < ps.len() implies apply_ok(b, #[trigger] ps[i]) by {
        assert(mv_shape(ps[i], r, c, p.c));
    }
}

proof fn lemma_ray_len(b: Board, r: int, c: int, col: Color, dr: int, dc: int, nr: int, nc: int, fuel: nat)
    ensures ray(b, r, c, col, dr, dc, nr, nc, fuel).len() <= fuel,
    decreases fuel,
{
    if fuel > 0 && inb(nr, nc) {
        lemma_ray_len(b, r, c, col, dr, dc, nr + dr, nc + dc, (fuel - 1) as nat);
    }
}

proof fn lemma_slide_len(b: Board, r: int, c: int, col: Color, dirs: Seq<(i32, i32)>)
    ensures slide_spec(b, r, c, col, dirs).len() <= 8 * dirs.len(),
    decreases dirs.len(),
{
    if dirs.len() > 0 {
        let d = dirs.last();
        lemma_slide_len(b, r, c, col, dirs.drop_last());
        lemma_ray_len(b, r, c, col, d.0 as int, d.1 as int, r + d.0, c + d.1, 8);
    }
}

proof fn lemma_steps_len(b: Board, r: int, c: int, col: Color, offs: Seq<(i32, i32)>)
    ensures steps_spec(b, r, c, col, offs).len() <= offs.len(),
    decreases offs.len(),
{
    if offs.len() > 0 {
        lemma_steps_len(b, r, c, col, offs.drop_last());
    }
}

/// A piece has at most 64 moves (castling aside).
pub proof fn lemma_piece_moves_len(b: Board, r: int, c: int, p: Piece, ep: Option<(usize, usize)>)
    ensures piece_moves_spec(b, r, c, p, ep).len() <= 64,
{
    match p.k {
        Kind::P => {},
        Kind::N => lemma_steps_len(b, r, c, p.c, knight_offs()),
        Kind::B => lemma_slide_len(b, r, c, p.c, diag_dirs()),
        Kind::R => lemma_slide_len(b, r, c, p.c, orth_dirs()),
        Kind::Q => lemma_slide_len(b, r, c, p.c, queen_dirs()),
        Kind::K => lemma_steps_len(b, r, c, p.c, king_offs()),
    }
}

/// A legal move: generated for a piece of the side to move, and not leaving its own king attacked.
pub open spec fn keeps_king_safe(b: Board, color: Color) -> spec_fn(Mv) -> bool {
    |mv: Mv| !in_check_spec(apply_board(b, mv), color)
}

pub open spec fn square_legal(b: Board, color: Color, ep: Option<(usize, usize)>, cast: Castle, r: int, c: int) -> Seq<Mv> {
    match b[r][c] {
        Some(p) => if p.c == color { pseudo_spec(b, r, c, ep, cast, true).filter(keeps_king_safe(b, color)) } else { Seq::empty() },
        None => Seq::empty(),
    }
}

/// Legal moves from the first `n` squares in row-major order.
pub open spec fn legal_upto(b: Board, color: Color, ep: Option<(usize, usize)>, cast: Castle, n: nat) -> Seq<Mv>
    decreases n,
{
    if n == 0 {
        Seq::empty()
    } else {
        let m = (n - 1) as int;
        legal_upto(b, color, ep, cast, (n - 1) as nat) + square_legal(b, color, ep, cast, m / 8, m % 8)
    }
}

/// All legal moves of `color`, square by square in row-major order.
pub open spec fn legal_spec(b: Board, color: Color, ep: Option<(usize, usize)>, cast: Castle) -> Seq<Mv> {
    legal_upto(b, color, ep, cast, 64)
}

pub fn legal(b: &Board, color: Color, ep: Option<(usize, usize)>, cast: &Castle) -> (out: Vec<Mv>)
    ensures out@ == legal_spec(*b, color, ep, *cast),
{
    let mut out: Vec<Mv> = Vec::new();
    let mut r: usize = 0;
    while r < 8
        invariant
            r <= 8,
            out@ == legal_upto(*b, color, ep, *cast, (r * 8) as nat),
        decreases 8 - r,
    {
        let mut c: usize = 0;
        while c < 8
            invariant
                c <= 8, r < 8,
                out@ == legal_upto(*b, color, ep, *cast, (r * 8 + c) as nat),
            decreases 8 - c,
        {
            let ghost before = out@;
            let ghost n = (r * 8 + c) as int;
            assert(n / 8 == r && n % 8 == c);
            if let Some(p) = b[r][c] {
                if p.c == color {
                    let ms = pseudo(b, r, c, ep, cast, true);
                    proof { lemma_pseudo_shaped(*b, r as int, c as int, ep, *cast, true); }
                    let ghost pred = keeps_king_safe(*b, color);
                    let mut i: usize = 0;
                    while i < ms.len()
                        invariant
                            i <= ms@.len(), r < 8, c < 8,
                            ms@ == pseudo_spec(*b, r as int, c as int, ep, *cast, true),
                            forall|j: int| 0 <= j < ms@.len() ==> apply_ok(*b, #[trigger] ms@[j]),
                            pred == keeps_king_safe(*b, color),
                            out@ == before + ms@.take(i as int).filter(pred),
                        decreases ms@.len() - i,
                    {
                        let mv = ms[i];
                        assert(apply_ok(*b, ms@[i as int]));
                        let (nb, _, _) = apply(b, &mv, ep, cast);
                        let safe = !in_check(&nb, color);
                        if safe {
                            out.push(mv);
                        }
                        proof {
                            reveal(Seq::filter);
                            assert(ms@.take(i + 1).drop_last() =~= ms@.take(i as int));
                        }
                        i += 1;
                    }
                    assert(ms@.take(ms@.len() as int) =~= ms@);
                }
            }
            assert(out@ == before + square_legal(*b, color, ep, *cast, r as int, c as int));
            c += 1;
        }
        r += 1;
    }
    out
}

/// What every legal move of `color` satisfies: it starts on a piece of `color`,
/// lands on the board and can be applied.
pub open spec fn legal_shape(b: Board, color: Color, mv: Mv) -> bool {
    &&& inb(mv.fr.0 as int, mv.fr.1 as int)
    &&& (match b[mv.fr.0 as int][mv.fr.1 as int] { Some(p) => p.c == color, None => false })
    &&& mv_shape(mv, mv.fr.0 as int, mv.fr.1 as int, color)
    &&& apply_ok(b, mv)
}

proof fn lemma_filter_keeps<A>(s: Seq<A>, p: spec_fn(A) -> bool, q: spec_fn(A) -> bool)
    requires forall|i: int| 0 <= i < s.len() ==> q(#[trigger] s[i]),
    ensures forall|i: int| 0 <= i < s.filter(p).len() ==> q(#[trigger] s.filter(p)[i]),
    decreases s.len(),
{
    reveal(Seq::filter);
    if s.len() > 0 {
        lemma_filter_keeps(s.drop_last(), p, q);
        let sub = s.drop_last().filter(p);
        if p(s.last()) {
            assert forall|i: int| 0 <= i < sub.push(s.last()).len() implies q(#[trigger] sub.push(s.last())[i]) by {
                if i < sub.len() { assert(sub.push(s.last())[i] == sub[i]); }
            }
        }
    }
}

pub proof fn lemma_legal_shaped(b: Board, color: Color, ep: Option<(usize, usize)>, cast: Castle, n: nat)
    requires n <= 64,
    ensures forall|i: int| 0 <= i < legal_upto(b, color, ep, cast, n).len() ==> legal_shape(b, color, #[trigger] legal_upto(b, color, ep, cast, n)[i]),
    decreases n,
{
    if n > 0 {
        lemma_legal_shaped(b, color, ep, cast, (n - 1) as nat);
        let m = (n - 1) as int;
        let r = m / 8;
        let c = m % 8;
        let a = legal_upto(b, color, ep, cast, (n - 1) as nat);
        let sq = square_legal(b, color, ep, cast, r, c);
        let q = |mv: Mv| legal_shape(b, color, mv);
        assert forall|i: int| 0 <= i < sq.len() implies legal_shape(b, color, #[trigger] sq[i]) by {
            match b[r][c] {
                Some(p) => {
                    if p.c == color {
                        let ps = pseudo_spec(b, r, c, ep, cast, true);
                        lemma_pseudo_shaped(b, r, c, ep, cast, true);
                        assert forall|j: int| 0 <= j < ps.len() implies q(#[trigger] ps[j]) by {
                            assert(mv_shape(ps[j], r, c, color));
                            assert(apply_ok(b, ps[j]));
                        }
                        lemma_filter_keeps(ps, keeps_king_safe(b, color), q);
                        assert(q(sq[i]));
                    }
                },
                None => {},
            }
        }
        assert forall|i: int| 0 <= i < (a + sq).len() implies legal_shape(b, color, #[trigger] (a + sq)[i]) by {
            if i < a.len() { assert((a + sq)[i] == a[i]); } else { assert((a + sq)[i] == sq[i - a.len()]); }
        }
    }
}

#[derive(Clone, Copy, PartialEq, Eq, Debug, Structural)]
pub enum Status { Active, Check, Checkmate, Stalemate }

pub open spec fn status_spec(b: Board, color: Color, ep: Option<(usize, usize)>, cast: Castle) -> Status {
    let none = legal_spec(b, color, ep, cast).len() == 0;
    let chk = in_check_spec(b, color);
    if none && chk { Status::Checkmate } else if none { Status::Stalemate } else if chk { Status::Check } else { Status::Active }
}

pub fn game_status(b: &Board, color: Color, ep: Option<(usize, usize)>, cast: &Castle) -> (s: Status)
    ensures s == status_spec(*b, color, ep, *cast),
{
    let moves = legal(b, color, ep, cast);
    let chk = in_check(b, color);
    match (moves.len() == 0, chk) {
        (true, true) => Status::Checkmate,
        (true, false) => Status::Stalemate,
        (false, true) => Status::Check,
        _ => Status::Active,
    }
}

pub open spec fn file_char(c: int) -> char { (97 + c) as char }

pub open spec fn rank_char(r: int) -> char { (48 + (8 - r)) as char }

pub(crate) fn file_ch(c: usize) -> (ch: char)
    requires c < 8,
    ensures ch == file_char(c as int),
{
    (97u8 + c as u8) as char
}

pub(crate) fn rank_ch(r: usize) -> (ch: char)
    requires r < 8,
    ensures ch == rank_char(r as int),
{
    (48u8 + (8 - r) as u8) as char
}

pub open spec fn piece_letter(k: Kind) -> Seq<char> {
    match k {
        Kind::P => Seq::empty(), Kind::N => seq!['N'], Kind::B => seq!['B'],
        Kind::R => seq!['R'], Kind::Q => seq!['Q'], Kind::K => seq!['K'],
    }
}

/// Another legal move of a piece of the same kind to the same square.
pub open spec fn rival(b: Board, mv: Mv, k: Kind) -> spec_fn(Mv) -> bool {
    |m: Mv| m.to == mv.to && m.fr != mv.fr
        && (match b[m.fr.0 as int][m.fr.1 as int] { Some(q) => q.k == k, None => false })
}

pub open spec fn any_same_col(s: Seq<Mv>, col: usize) -> bool {
    exists|i: int| 0 <= i < s.len() && (#[trigger] s[i]).fr.1 == col
}

pub open spec fn any_same_row(s: Seq<Mv>, row: usize) -> bool {
    exists|i: int| 0 <= i < s.len() && (#[trigger] s[i]).fr.0 == row
}

/// SAN disambiguation: file if it tells the pieces apart, else rank, else both.
pub open spec fn san_disambig(b: Board, mv: Mv, ep: Option<(usize, usize)>, cast: Castle, p: Piece) -> Seq<char> {
    if p.k == Kind::P || p.k == Kind::K {
        Seq::empty()
    } else {
        let amb = legal_spec(b, p.c, ep, cast).filter(rival(b, mv, p.k));
        if amb.len() == 0 {
            Seq::empty()
        } else if !any_same_col(amb, mv.fr.1) {
            seq![file_char(mv.fr.1 as int)]
        } else if !any_same_row(amb, mv.fr.0) {
            seq![rank_char(mv.fr.0 as int)]
        } else {
            seq![file_char(mv.fr.1 as int), rank_char(mv.fr.0 as int)]
        }
    }
}

pub open spec fn promo_suffix(promo: Option<Kind>) -> Seq<char> {
    match promo {
        Some(Kind::Q) => seq!['=', 'Q'],
        Some(Kind::R) => seq!['=', 'R'],
        Some(Kind::B) => seq!['=', 'B'],
        Some(_) => seq!['=', 'N'],
        None => Seq::empty(),
    }
}

pub open spec fn san_spec(b: Board, mv: Mv, ep: Option<(usize, usize)>, cast: Castle) -> Seq<char> {
    if mv.castle == 1 {
        "O-O"@
    } else if mv.castle == 2 {
        "O-O-O"@
    } else {
        match b[mv.fr.0 as int][mv.fr.1 as int] {
            None => "??"@,
            Some(p) => {
                let is_cap = b[mv.to.0 as int][mv.to.1 as int].is_some() || mv.ep;
                piece_letter(p.k) + san_disambig(b, mv, ep, cast, p)
                    + (if p.k == Kind::P && is_cap { seq![file_char(mv.fr.1 as int)] } else { Seq::empty() })
                    + (if is_cap { seq!['x'] } else { Seq::empty() })
                    + seq![file_char(mv.to.1 as int), rank_char(mv.to.0 as int)]
                    + promo_suffix(mv.promo)
            }
        }
    }
}

fn push_disambig(board: &Board, mv: &Mv, ep: Option<(usize, usize)>, cast: &Castle, piece: Piece, s: &mut String)
    requires
        inb(mv.fr.0 as int, mv.fr.1 as int),
    ensures final(s)@ == old(s)@ + san_disambig(*board, *mv, ep, *cast, piece),
{
    let ghost s0 = old(s)@;
    if !(piece.k == Kind::P || piece.k == Kind::K) {
        let all = legal(board, piece.c, ep, cast);
        let ghost pred = rival(*board, *mv, piece.k);
        let mut ambiguous: Vec<Mv> = Vec::new();
        let mut i: usize = 0;
        while i < all.len()
            invariant
                i <= all@.len(),
                pred == rival(*board, *mv, piece.k),
                all@ == legal_spec(*board, piece.c, ep, *cast),
                ambiguous@ == all@.take(i as int).filter(pred),
            decreases all@.len() - i,
        {
            let m = all[i];
            proof { lemma_legal_shaped(*board, piece.c, ep, *cast, 64); }
            assert(legal_shape(*board, piece.c, all@[i as int]));
            let same_kind = match board[m.fr.0][m.fr.1] { Some(q) => q.k == piece.k, None => false };
            if m.to.0 == mv.to.0 && m.to.1 == mv.to.1 && !(m.fr.0 == mv.fr.0 && m.fr.1 == mv.fr.1) && same_kind {
                ambiguous.push(m);
            }
            proof {
                reveal(Seq::filter);
                assert(all@.take(i + 1).drop_last() =~= all@.take(i as int));
            }
            i += 1;
        }
        assert(all@.take(all@.len() as int) =~= all@);
        if ambiguous.len() > 0 {
            let mut same_col = false;
            let mut same_row = false;
            let mut j: usize = 0;
            while j < ambiguous.len()
                invariant
                    j <= ambiguous@.len(),
                    same_col == exists|k: int| 0 <= k < j && (#[trigger] ambiguous@[k]).fr.1 == mv.fr.1,
                    same_row == exists|k: int| 0 <= k < j && (#[trigger] ambiguous@[k]).fr.0 == mv.fr.0,
                decreases ambiguous@.len() - j,
            {
                if ambiguous[j].fr.1 == mv.fr.1 { same_col = true; }
                if ambiguous[j].fr.0 == mv.fr.0 { same_row = true; }
                j += 1;
            }
            if !same_col {
                crate::text::push_char(s, file_ch(mv.fr.1));
            } else if !same_row {
                crate::text::push_char(s, rank_ch(mv.fr.0));
            } else {
                crate::text::push_char(s, file_ch(mv.fr.1));
                crate::text::push_char(s, rank_ch(mv.fr.0));
            }
        }
    }
    assert(s@ =~= s0 + san_disambig(*board, *mv, ep, *cast, piece));
}

/// Standard algebraic notation of `mv`, played from `board` (the position before the move).
pub fn mv_to_san(board: &Board, mv: &Mv, ep: Option<(usize, usize)>, cast: &Castle) -> (s: String)
    requires
        mv.castle != 1 && mv.castle != 2 ==> inb(mv.fr.0 as int, mv.fr.1 as int)
            && (board[mv.fr.0 as int][mv.fr.1 as int].is_some() ==> inb(mv.to.0 as int, mv.to.1 as int)),
    ensures s@ == san_spec(*board, *mv, ep, *cast),
{
    if mv.castle == 1 { return crate::text::owned("O-O"); }
    if mv.castle == 2 { return crate::text::owned("O-O-O"); }
    let piece = match board[mv.fr.0][mv.fr.1] { Some(p) => p, None => return crate::text::owned("??") };
    let is_cap = board[mv.to.0][mv.to.1].is_some() || mv.ep;
    let mut s = String::new();
    match piece.k {
        Kind::P => {},
        Kind::N => crate::text::push_char(&mut s, 'N'),
        Kind::B => crate::text::push_char(&mut s, 'B'),
        Kind::R => crate::text::push_char(&mut s, 'R'),
        Kind::Q => crate::text::push_char(&mut s, 'Q'),
        Kind::K => crate::text::push_char(&mut s, 'K'),
    }
    assert(s@ =~= piece_letter(piece.k));
    let ghost s0 = s@;
    push_disambig(board, mv, ep, cast, piece, &mut s);
    assert(s@ =~= s0 + san_disambig(*board, *mv, ep, *cast, piece));
    let ghost s1 = s@;
    if piece.k == Kind::P && is_cap {
        crate::text::push_char(&mut s, file_ch(mv.fr.1));
    }
    if is_cap {
        crate::text::push_char(&mut s, 'x');
    }
    crate::text::push_char(&mut s, file_ch(mv.to.1));
    crate::text::push_char(&mut s, rank_ch(mv.to.0));
    match mv.promo {
        Some(k) => {
            crate::text::push_char(&mut s, '=');
            crate::text::push_char(&mut s, match k { Kind::Q => 'Q', Kind::R => 'R', Kind::B => 'B', _ => 'N' });
        }
        None => {}
    }
    assert(s@ =~= san_spec(*board, *mv, ep, *cast));
    s
}

// ── Facts about generated moves ──────────────────────────────────────────────

/// What a generated move of the piece `p` on (r, c) satisfies, given the en-passant square `ep`.
pub open spec fn gen_facts(b: Board, r: int, c: int, p: Piece, ep: Option<(usize, usize)>, mv: Mv) -> bool {
    &&& mv.fr != mv.to
    &&& mv.castle != 0 ==> !mv.ep && mv.promo.is_none() && b[mv.to.0 as int][mv.to.1 as int].is_none()
    &&& mv.castle == 1 ==> c == 4 && mv.to == (r as usize, 6usize) && b[r][5].is_none() && b[r][6].is_none()
    &&& mv.castle == 2 ==> c == 4 && mv.to == (r as usize, 2usize)
            && b[r][1].is_none() && b[r][2].is_none() && b[r][3].is_none()
    &&& mv.castle != 0 ==> p.k == Kind::K && r == (if p.c == Color::White { 7int } else { 0int })
    &&& mv.castle == 1 ==> !attacked_spec(b, r, 4, p.c.opp()) && !attacked_spec(b, r, 5, p.c.opp())
            && !attacked_spec(b, r, 6, p.c.opp())
    &&& mv.castle == 2 ==> !attacked_spec(b, r, 4, p.c.opp()) && !attacked_spec(b, r, 3, p.c.opp())
            && !attacked_spec(b, r, 2, p.c.opp())
    &&& mv.ep ==> p.k == Kind::P && mv.to.0 == r + pawn_dir(p.c)
            && (mv.to.1 == c + 1 || mv.to.1 == c - 1) && ep == Some(mv.to)
    &&& (match mv.promo { Some(k) => k != Kind::P && p.k == Kind::P && mv.to.0 == r + pawn_dir(p.c), None => true })
}

pub open spec fn all_facts(b: Board, r: int, c: int, p: Piece, ep: Option<(usize, usize)>, s: Seq<Mv>) -> bool {
    forall|i: int| 0 <= i < s.len() ==> gen_facts(b, r, c, p, ep, #[trigger] s[i])
}

proof fn lemma_facts_concat(b: Board, r: int, c: int, p: Piece, ep: Option<(usize, usize)>, x: Seq<Mv>, y: Seq<Mv>)
    requires all_facts(b, r, c, p, ep, x), all_facts(b, r, c, p, ep, y),
    ensures all_facts(b, r, c, p, ep, x + y),
{
    assert forall|i: int| 0 <= i < (x + y).len() implies gen_facts(b, r, c, p, ep, #[trigger] (x + y)[i]) by {
        if i < x.len() { assert((x + y)[i] == x[i]); } else { assert((x + y)[i] == y[i - x.len()]); }
    }
}

pub open spec fn ahead(d: int, n: int, o: int) -> bool {
    (d == 0 ==> n == o) && (d > 0 ==> n > o) && (d < 0 ==> n < o)
}

proof fn lemma_ray_facts(b: Board, r: int, c: int, p: Piece, ep: Option<(usize, usize)>, dr: int, dc: int, nr: int, nc: int, fuel: nat)
    requires inb(r, c), !(dr == 0 && dc == 0), ahead(dr, nr, r), ahead(dc, nc, c),
    ensures all_facts(b, r, c, p, ep, ray(b, r, c, p.c, dr, dc, nr, nc, fuel)),
    decreases fuel,
{
    if fuel > 0 && inb(nr, nc) {
        lemma_ray_facts(b, r, c, p, ep, dr, dc, nr + dr, nc + dc, (fuel - 1) as nat);
        lemma_facts_concat(b, r, c, p, ep, seq![bmv(r, c, nr, nc)], ray(b, r, c, p.c, dr, dc, nr + dr, nc + dc, (fuel - 1) as nat));
    }
}

proof fn lemma_slide_facts(b: Board, r: int, c: int, p: Piece, ep: Option<(usize, usize)>, dirs: Seq<(i32, i32)>)
    requires inb(r, c), forall|i: int| 0 <= i < dirs.len() ==> unit_dir(#[trigger] dirs[i]),
    ensures all_facts(b, r, c, p, ep, slide_spec(b, r, c, p.c, dirs)),
    decreases dirs.len(),
{
    if dirs.len() > 0 {
        let d = dirs.last();
        assert(unit_dir(dirs[dirs.len() - 1]));
        lemma_slide_facts(b, r, c, p, ep, dirs.drop_last());
        lemma_ray_facts(b, r, c, p, ep, d.0 as int, d.1 as int, r + d.0, c + d.1, 8);
        lemma_facts_concat(b, r, c, p, ep, slide_spec(b, r, c, p.c, dirs.drop_last()), ray(b, r, c, p.c, d.0 as int, d.1 as int, r + d.0, c + d.1, 8));
    }
}

proof fn lemma_steps_facts(b: Board, r: int, c: int, p: Piece, ep: Option<(usize, usize)>, offs: Seq<(i32, i32)>)
    requires inb(r, c), forall|i: int| 0 <= i < offs.len() ==> !((#[trigger] offs[i]).0 == 0 && offs[i].1 == 0),
    ensures all_facts(b, r, c, p, ep, steps_spec(b, r, c, p.c, offs)),
    decreases offs.len(),
{
    if offs.len() > 0 {
        assert(!(offs[offs.len() - 1].0 == 0 && offs[offs.len() - 1].1 == 0));
        lemma_steps_facts(b, r, c, p, ep, offs.drop_last());
        lemma_facts_concat(b, r, c, p, ep, steps_spec(b, r, c, p.c, offs.drop_last()), step_spec(b, r, c, p.c, offs.last()));
    }
}

proof fn lemma_pawn_facts(b: Board, r: int, c: int, p: Piece, ep: Option<(usize, usize)>)
    requires inb(r, c), p.k == Kind::P,
    ensures all_facts(b, r, c, p, ep, pawn_spec(b, r, c, p.c, ep)),
{
    if inb(r + pawn_dir(p.c), c) {
        let a = pawn_push_spec(b, r, c, p.c);
        let x = pawn_cap_spec(b, r, c, p.c, ep, -1);
        let y = pawn_cap_spec(b, r, c, p.c, ep, 1);
        assert(all_facts(b, r, c, p, ep, a));
        assert(all_facts(b, r, c, p, ep, x));
        assert(all_facts(b, r, c, p, ep, y));
        lemma_facts_concat(b, r, c, p, ep, a, x);
        lemma_facts_concat(b, r, c, p, ep, a + x, y);
    }
}

proof fn lemma_piece_moves_facts(b: Board, r: int, c: int, p: Piece, ep: Option<(usize, usize)>)
    requires inb(r, c),
    ensures all_facts(b, r, c, p, ep, piece_moves_spec(b, r, c, p, ep)),
{
    match p.k {
        Kind::P => lemma_pawn_facts(b, r, c, p, ep),
        Kind::N => lemma_steps_facts(b, r, c, p, ep, knight_offs()),
        Kind::B => lemma_slide_facts(b, r, c, p, ep, diag_dirs()),
        Kind::R => lemma_slide_facts(b, r, c, p, ep, orth_dirs()),
        Kind::Q => lemma_slide_facts(b, r, c, p, ep, queen_dirs()),
        Kind::K => lemma_steps_facts(b, r, c, p, ep, king_offs()),
    }
}

pub open spec fn castle_free(s: Seq<Mv>) -> bool {
    forall|i: int| 0 <= i < s.len() ==> (#[trigger] s[i]).castle == 0
}

proof fn lemma_free_concat(x: Seq<Mv>, y: Seq<Mv>)
    requires castle_free(x), castle_free(y),
    ensures castle_free(x + y),
{
    assert forall|i: int| 0 <= i < (x + y).len() implies (#[trigger] (x + y)[i]).castle == 0 by {
        if i < x.len() { assert((x + y)[i] == x[i]); } else { assert((x + y)[i] == y[i - x.len()]); }
    }
}

proof fn lemma_ray_free(b: Board, r: int, c: int, col: Color, dr: int, dc: int, nr: int, nc: int, fuel: nat)
    ensures castle_free(ray(b, r, c, col, dr, dc, nr, nc, fuel)),
    decreases fuel,
{
    if fuel > 0 && inb(nr, nc) {
        lemma_ray_free(b, r, c, col, dr, dc, nr + dr, nc + dc, (fuel - 1) as nat);
        lemma_free_concat(seq![bmv(r, c, nr, nc)], ray(b, r, c, col, dr, dc, nr + dr, nc + dc, (fuel - 1) as nat));
    }
}

proof fn lemma_slide_free(b: Board, r: int, c: int, col: Color, dirs: Seq<(i32, i32)>)
    ensures castle_free(slide_spec(b, r, c, col, dirs)),
    decreases dirs.len(),
{
    if dirs.len() > 0 {
        let d = dirs.last();
        lemma_slide_free(b, r, c, col, dirs.drop_last());
        lemma_ray_free(b, r, c, col, d.0 as int, d.1 as int, r + d.0, c + d.1, 8);
        lemma_free_concat(slide_spec(b, r, c, col, dirs.drop_last()), ray(b, r, c, col, d.0 as int, d.1 as int, r + d.0, c + d.1, 8));
    }
}

proof fn lemma_steps_free(b: Board, r: int, c: int, col: Color, offs: Seq<(i32, i32)>)
    ensures castle_free(steps_spec(b, r, c, col, offs)),
    decreases offs.len(),
{
    if offs.len() > 0 {
        lemma_steps_free(b, r, c, col, offs.drop_last());
        assert(castle_free(step_spec(b, r, c, col, offs.last())));
        lemma_free_concat(steps_spec(b, r, c, col, offs.drop_last()), step_spec(b, r, c, col, offs.last()));
    }
}

proof fn lemma_pawn_free(b: Board, r: int, c: int, col: Color, ep: Option<(usize, usize)>)
    ensures castle_free(pawn_spec(b, r, c, col, ep)),
{
    if inb(r + pawn_dir(col), c) {
        let a = pawn_push_spec(b, r, c, col);
        let x = pawn_cap_spec(b, r, c, col, ep, -1);
        let y = pawn_cap_spec(b, r, c, col, ep, 1);
        assert(castle_free(a));
        assert(castle_free(x));
        assert(castle_free(y));
        lemma_free_concat(a, x);
        lemma_free_concat(a + x, y);
    }
}

/// The moves of a piece other than castling are never marked as castling.
pub proof fn lemma_piece_moves_castle_free(b: Board, r: int, c: int, p: Piece, ep: Option<(usize, usize)>)
    ensures castle_free(piece_moves_spec(b, r, c, p, ep)),
{
    match p.k {
        Kind::P => lemma_pawn_free(b, r, c, p.c, ep),
        Kind::N => lemma_steps_free(b, r, c, p.c, knight_offs()),
        Kind::B => lemma_slide_free(b, r, c, p.c, diag_dirs()),
        Kind::R => lemma_slide_free(b, r, c, p.c, orth_dirs()),
        Kind::Q => lemma_slide_free(b, r, c, p.c, queen_dirs()),
        Kind::K => lemma_steps_free(b, r, c, p.c, king_offs()),
    }
}

/// A castling move keeps to the rights: kingside only with the kingside right of `color`,
/// queenside only with its queenside right.
pub open spec fn castle_right_ok(cast: Castle, color: Color, mv: Mv) -> bool {
    &&& mv.castle == 1 ==> (if color == Color::White { cast.wk } else { cast.bk })
    &&& mv.castle == 2 ==> (if color == Color::White { cast.wq } else { cast.bq })
}

pub proof fn lemma_legal_castle_rights(b: Board, color: Color, ep: Option<(usize, usize)>, cast: Castle, n: nat)
    requires n <= 64,
    ensures forall|i: int| 0 <= i < legal_upto(b, color, ep, cast, n).len()
        ==> castle_right_ok(cast, color, #[trigger] legal_upto(b, color, ep, cast, n)[i]),
    decreases n,
{
    if n > 0 {
        lemma_legal_castle_rights(b, color, ep, cast, (n - 1) as nat);
        let m = (n - 1) as int;
        let r = m / 8;
        let c = m % 8;
        let a = legal_upto(b, color, ep, cast, (n - 1) as nat);
        let sq = square_legal(b, color, ep, cast, r, c);
        let q = |mv: Mv| castle_right_ok(cast, color, mv);
        match b[r][c] {
            Some(p) => {
                if p.c == color {
                    let pm = piece_moves_spec(b, r, c, p, ep);
                    let cs = if p.k == Kind::K { castle_spec(b, r, c, p.c, cast) } else { Seq::empty() };
                    let ps = pseudo_spec(b, r, c, ep, cast, true);
                    assert(ps == pm + cs);
                    lemma_piece_moves_castle_free(b, r, c, p, ep);
                    assert forall|j: int| 0 <= j < ps.len() implies q(#[trigger] ps[j]) by {
                        if j < pm.len() {
                            assert(ps[j] == pm[j]);
                        } else {
                            assert(ps[j] == cs[j - pm.len()]);
                        }
                    }
                    lemma_filter_keeps(ps, keeps_king_safe(b, color), q);
                }
            },
            None => {},
        }
        assert forall|i: int| 0 <= i < sq.len() implies q(#[trigger] sq[i]) by {}
        assert forall|i: int| 0 <= i < (a + sq).len() implies castle_right_ok(cast, color, #[trigger] (a + sq)[i]) by {
            if i < a.len() { assert((a + sq)[i] == a[i]); } else { assert((a + sq)[i] == sq[i - a.len()]); assert(q(sq[i - a.len()])); }
        }
    }
}

/// Facts about every move `pseudo` generates for the piece on (r, c).
pub proof fn lemma_pseudo_facts(b: Board, r: int, c: int, ep: Option<(usize, usize)>, cast: Castle, allow: bool)
    requires inb(r, c), b[r][c].is_some(),
    ensures all_facts(b, r, c, b[r][c].unwrap(), ep, pseudo_spec(b, r, c, ep, cast, allow)),
{
    let p = b[r][c].unwrap();
    lemma_piece_moves_facts(b, r, c, p, ep);
    let cs = if p.k == Kind::K && allow { castle_spec(b, r, c, p.c, cast) } else { Seq::empty() };
    assert(all_facts(b, r, c, p, ep, cs));
    lemma_facts_concat(b, r, c, p, ep, piece_moves_spec(b, r, c, p, ep), cs);
}

/// Facts that hold of every legal move.
pub open spec fn legal_facts(b: Board, ep: Option<(usize, usize)>, mv: Mv) -> bool {
    gen_facts(b, mv.fr.0 as int, mv.fr.1 as int, moved_piece(b, mv), ep, mv)
}

pub proof fn lemma_legal_facts(b: Board, color: Color, ep: Option<(usize, usize)>, cast: Castle, n: nat)
    requires n <= 64,
    ensures forall|i: int| 0 <= i < legal_upto(b, color, ep, cast, n).len() ==> legal_facts(b, ep, #[trigger] legal_upto(b, color, ep, cast, n)[i]),
    decreases n,
{
    if n > 0 {
        lemma_legal_facts(b, color, ep, cast, (n - 1) as nat);
        let m = (n - 1) as int;
        let r = m / 8;
        let c = m % 8;
        let a = legal_upto(b, color, ep, cast, (n - 1) as nat);
        let sq = square_legal(b, color, ep, cast, r, c);
        let q = |mv: Mv| legal_facts(b, ep, mv);
        assert forall|i: int| 0 <= i < sq.len() implies legal_facts(b, ep, #[trigger] sq[i]) by {
            match b[r][c] {
                Some(p) => {
                    if p.c == color {
                        let ps = pseudo_spec(b, r, c, ep, cast, true);
                        lemma_pseudo_facts(b, r, c, ep, cast, true);
                        lemma_pseudo_shaped(b, r, c, ep, cast, true);
                        assert forall|j: int| 0 <= j < ps.len() implies q(#[trigger] ps[j]) by {
                            assert(mv_shape(ps[j], r, c, p.c));
                            assert(gen_facts(b, r, c, p, ep, ps[j]));
                        }
                        lemma_filter_keeps(ps, keeps_king_safe(b, color), q);
                        assert(q(sq[i]));
                    }
                },
                None => {},
            }
        }
        assert forall|i: int| 0 <= i < (a + sq).len() implies legal_facts(b, ep, #[trigger] (a + sq)[i]) by {
            if i < a.len() { assert((a + sq)[i] == a[i]); } else { assert((a + sq)[i] == sq[i - a.len()]); }
        }
    }
}

// ── Material measure ─────────────────────────────────────────────────────────

/// Pawns weigh 2, other pieces 1.
pub open spec fn sq_weight(v: Option<Piece>) -> int {
    match v { Some(p) => if p.k == Kind::P { 2 } else { 1 }, None => 0 }
}

pub open spec fn weight_upto(b: Board, n: nat) -> int
    decreases n,
{
    if n == 0 { 0 } else {
        let m = (n - 1) as int;
        weight_upto(b, (n - 1) as nat) + sq_weight(b[m / 8][m % 8])
    }
}

/// Decreases with every capture, promotion or en-passant move (see `lemma_capture_shrinks`).
pub open spec fn material_measure(b: Board, ep: Option<(usize, usize)>) -> int {
    2 * weight_upto(b, 64) + if ep.is_some() { 1int } else { 0 }
}

proof fn lemma_weight_set(b: Board, r: int, c: int, v: Option<Piece>, n: nat)
    requires inb(r, c), n <= 64,
    ensures weight_upto(set_sq(b, r, c, v), n) == weight_upto(b, n)
        + (if r * 8 + c < n { sq_weight(v) - sq_weight(b[r][c]) } else { 0 }),
    decreases n,
{
    if n > 0 {
        lemma_weight_set(b, r, c, v, (n - 1) as nat);
        let m = (n - 1) as int;
        let nb = set_sq(b, r, c, v);
        assert(nb[r] == vstd::array::spec_array_update(b[r], c, v));
        if m / 8 == r && m % 8 == c {
            assert(m == r * 8 + c);
            assert(nb[m / 8][m % 8] == v);
        } else {
            assert(nb[m / 8][m % 8] == b[m / 8][m % 8]);
        }
    }
}

proof fn lemma_weight_nonneg(b: Board, n: nat)
    ensures weight_upto(b, n) >= 0,
    decreases n,
{
    if n > 0 { lemma_weight_nonneg(b, (n - 1) as nat); }
}

/// A capture, promotion or en-passant move lowers `material_measure`.
pub proof fn lemma_capture_shrinks(b: Board, ep: Option<(usize, usize)>, mv: Mv)
    requires
        apply_ok(b, mv),
        legal_facts(b, ep, mv),
        mv.ep || b[mv.to.0 as int][mv.to.1 as int].is_some() || mv.promo.is_some(),
    ensures
        0 <= material_measure(apply_board(b, mv), apply_ep(b, mv)) < material_measure(b, ep),
{
    lemma_weight_nonneg(apply_board(b, mv), 64);
    let p = moved_piece(b, mv);
    let fr0 = mv.fr.0 as int;
    let fr1 = mv.fr.1 as int;
    let to0 = mv.to.0 as int;
    let to1 = mv.to.1 as int;
    assert(mv.castle == 0);
    let cr = ep_cap_row(p, mv);
    let b1 = if mv.ep { set_sq(b, cr, to1, None) } else { b };
    if mv.ep {
        lemma_weight_set(b, cr, to1, None, 64);
        assert(b1[to0][to1] == b[to0][to1]);
        assert(b1[fr0][fr1] == b[fr0][fr1]);
    }
    let placed = placed_piece(b, mv);
    let b2 = set_sq(b1, to0, to1, Some(placed));
    lemma_weight_set(b1, to0, to1, Some(placed), 64);
    assert(b2[fr0][fr1] == b1[fr0][fr1]);
    lemma_weight_set(b2, fr0, fr1, None, 64);
    lemma_weight_nonneg(b, 64);
    assert(sq_weight(Some(placed)) <= sq_weight(b[fr0][fr1]));
    if mv.promo.is_some() {
        assert(sq_weight(Some(placed)) < sq_weight(b[fr0][fr1]));
    }
    assert(apply_board(b, mv) == set_sq(b2, fr0, fr1, None));
}

// ── Zobrist hashing ──────────────────────────────────────────────────────────

/// Index of a (colour, kind) pair: white P..K are 0..5, black P..K are 6..11.
#[verifier::allow_in_spec]
pub fn piece_index(c: Color, k: Kind) -> usize
    returns (match c {
        Color::White => match k { Kind::P => 0usize, Kind::N => 1, Kind::B => 2, Kind::R => 3, Kind::Q => 4, Kind::K => 5 },
        Color::Black => match k { Kind::P => 6usize, Kind::N => 7, Kind::B => 8, Kind::R => 9, Kind::Q => 10, Kind::K => 11 },
    }),
{
    let ki: usize = match k { Kind::P => 0, Kind::N => 1, Kind::B => 2, Kind::R => 3, Kind::Q => 4, Kind::K => 5 };
    match c { Color::White => ki, Color::Black => ki + 6 }
}

/// One xorshift-64 step (shifts 13, 7, 17).
pub open spec fn xs_step(x: u64) -> u64 {
    let a = x ^ (x << 13u64);
    let b = a ^ (a >> 7u64);
    b ^ (b << 17u64)
}

pub open spec fn zobrist_seed() -> u64 { 1804289383 }

/// The n-th output of the generator (the 0-th is the seed).
pub open spec fn xs_nth(n: nat) -> u64
    decreases n,
{
    if n == 0 { zobrist_seed() } else { xs_step(xs_nth((n - 1) as nat)) }
}

struct XorShift64(u64);

impl XorShift64 {
    fn next(&mut self) -> (r: u64)
        ensures final(self).0 == xs_step(old(self).0), r == final(self).0,
    {
        self.0 = self.0 ^ (self.0 << 13u64);
        self.0 = self.0 ^ (self.0 >> 7u64);
        self.0 = self.0 ^ (self.0 << 17u64);
        self.0
    }
}

/// Keys are drawn in order: 12 x 64 piece keys, the side key, 8 en-passant keys, 4 castling keys.
pub open spec fn zkey_piece(pi: int, s: int) -> u64 { xs_nth((pi * 64 + s + 1) as nat) }

pub open spec fn zkey_side() -> u64 { xs_nth(769) }

pub open spec fn zkey_ep(f: int) -> u64 { xs_nth((770 + f) as nat) }

pub open spec fn zkey_castle(j: int) -> u64 { xs_nth((778 + j) as nat) }

pub struct ZobristTable {
    pieces: [[u64; 64]; 12],
    side: u64,
    ep: [u64; 8],
    castle: [u64; 4],
}

impl ZobristTable {
    pub closed spec fn wf(&self) -> bool {
        &&& forall|i: int, j: int| 0 <= i < 12 && 0 <= j < 64 ==> self.pieces[i][j] == zkey_piece(i, j)
        &&& self.side == zkey_side()
        &&& forall|j: int| 0 <= j < 8 ==> self.ep[j] == zkey_ep(j)
        &&& forall|j: int| 0 <= j < 4 ==> self.castle[j] == zkey_castle(j)
    }
}

pub fn init_zobrist() -> (t: ZobristTable)
    ensures t.wf(),
{
    let mut rng = XorShift64(1804289383);
    let mut pieces: [[u64; 64]; 12] = [[0u64; 64]; 12];
    let mut i: usize = 0;
    while i < 12
        invariant
            i <= 12,
            rng.0 == xs_nth((i * 64) as nat),
            forall|a: int, j: int| 0 <= a < i && 0 <= j < 64 ==> pieces[a][j] == zkey_piece(a, j),
        decreases 12 - i,
    {
        let mut sq: usize = 0;
        while sq < 64
            invariant
                i < 12, sq <= 64,
                rng.0 == xs_nth((i * 64 + sq) as nat),
                forall|a: int, j: int| 0 <= a < i && 0 <= j < 64 ==> pieces[a][j] == zkey_piece(a, j),
                forall|j: int| 0 <= j < sq ==> pieces[i as int][j] == zkey_piece(i as int, j),
            decreases 64 - sq,
        {
            let v = rng.next();
            pieces[i][sq] = v;
            sq += 1;
        }
        i += 1;
    }
    let side = rng.next();
    let mut ep: [u64; 8] = [0u64; 8];
    let mut k: usize = 0;
    while k < 8
        invariant
            k <= 8,
            rng.0 == xs_nth((769 + k) as nat),
            forall|j: int| 0 <= j < k ==> ep[j] == zkey_ep(j),
        decreases 8 - k,
    {
        let v = rng.next();
        ep[k] = v;
        k += 1;
    }
    let mut castle: [u64; 4] = [0u64; 4];
    let mut k: usize = 0;
    while k < 4
        invariant
            k <= 4,
            rng.0 == xs_nth((777 + k) as nat),
            forall|j: int| 0 <= j < k ==> castle[j] == zkey_castle(j),
        decreases 4 - k,
    {
        let v = rng.next();
        castle[k] = v;
        k += 1;
    }
    ZobristTable { pieces, side, ep, castle }
}

/// XOR of the piece keys of the first `n` squares (row-major).
pub open spec fn zhash_squares(b: Board, n: nat) -> u64
    decreases n,
{
    if n == 0 {
        0
    } else {
        let m = (n - 1) as int;
        let h = zhash_squares(b, (n - 1) as nat);
        match b[m / 8][m % 8] {
            Some(p) => h ^ zkey_piece(piece_index(p.c, p.k) as int, m),
            None => h,
        }
    }
}

pub open spec fn zhash_spec(b: Board, stm: Color, ep: Option<(usize, usize)>, cast: Castle) -> u64 {
    let h0 = zhash_squares(b, 64);
    let h1 = if stm == Color::Black { h0 ^ zkey_side() } else { h0 };
    let h2 = match ep { Some((_, cf)) => h1 ^ zkey_ep(cf as int), None => h1 };
    let h3 = if cast.wk { h2 ^ zkey_castle(0) } else { h2 };
    let h4 = if cast.wq { h3 ^ zkey_castle(1) } else { h3 };
    let h5 = if cast.bk { h4 ^ zkey_castle(2) } else { h4 };
    if cast.bq { h5 ^ zkey_castle(3) } else { h5 }
}

/// The side to move enters the hash through one fixed key: for any position, the hashes with
/// Black and with White to move differ by exactly that key.
pub proof fn lemma_zobrist_side_key(b: Board, ep: Option<(usize, usize)>, cast: Castle)
    ensures zhash_spec(b, Color::Black, ep, cast) ^ zhash_spec(b, Color::White, ep, cast) == zkey_side(),
{
    let h = zhash_squares(b, 64);
    let s = zkey_side();
    let e: u64 = match ep { Some((_, cf)) => zkey_ep(cf as int), None => 0u64 };
    let k0: u64 = if cast.wk { zkey_castle(0) } else { 0u64 };
    let k1: u64 = if cast.wq { zkey_castle(1) } else { 0u64 };
    let k2: u64 = if cast.bk { zkey_castle(2) } else { 0u64 };
    let k3: u64 = if cast.bq { zkey_castle(3) } else { 0u64 };
    assert(forall|x: u64| #[trigger] (x ^ 0u64) == x) by (bit_vector);
    assert(zhash_spec(b, Color::White, ep, cast) == ((((h ^ e) ^ k0) ^ k1) ^ k2) ^ k3);
    assert(zhash_spec(b, Color::Black, ep, cast) == (((((h ^ s) ^ e) ^ k0) ^ k1) ^ k2) ^ k3);
    assert((((((h ^ s) ^ e) ^ k0) ^ k1) ^ k2) ^ k3 ^ (((((h ^ e) ^ k0) ^ k1) ^ k2) ^ k3) == s) by (bit_vector);
}

pub open spec fn ep_file_ok(ep: Option<(usize, usize)>) -> bool {
    match ep { Some((_, cf)) => cf < 8, None => true }
}

pub fn zobrist_hash_with(z: &ZobristTable, b: &Board, stm: Color, ep: Option<(usize, usize)>, cast: &Castle) -> (h: u64)
    requires z.wf(), ep_file_ok(ep),
    ensures h == zhash_spec(*b, stm, ep, *cast),
{
    let mut h: u64 = 0;
    let mut r: usize = 0;
    while r < 8
        invariant
            r <= 8, z.wf(),
            h == zhash_squares(*b, (r * 8) as nat),
        decreases 8 - r,
    {
        let mut c: usize = 0;
        while c < 8
            invariant
                c <= 8, r < 8, z.wf(),
                h == zhash_squares(*b, (r * 8 + c) as nat),
            decreases 8 - c,
        {
            let ghost n = (r * 8 + c) as int;
            assert(n / 8 == r && n % 8 == c);
            if let Some(p) = b[r][c] {
                h = h ^ z.pieces[piece_index(p.c, p.k)][r * 8 + c];
            }
            c += 1;
        }
        r += 1;
    }
    if stm == Color::Black { h = h ^ z.side; }
    if let Some((_, cf)) = ep { h = h ^ z.ep[cf]; }
    if cast.wk { h = h ^ z.castle[0]; }
    if cast.wq { h = h ^ z.castle[1]; }
    if cast.bk { h = h ^ z.castle[2]; }
    if cast.bq { h = h ^ z.castle[3]; }
    h
}

/// Zobrist key of a position (pieces, side to move, en-passant file, castling rights).
pub fn zobrist_hash(b: &Board, stm: Color, ep: Option<(usize, usize)>, cast: &Castle) -> (h: u64)
    requires ep_file_ok(ep),
    ensures h == zhash_spec(*b, stm, ep, *cast),
{
    let z = init_zobrist();
    zobrist_hash_with(&z, b, stm, ep, cast)
}

} // verus!
