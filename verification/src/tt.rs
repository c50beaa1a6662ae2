//! Transposition table: a fixed-size, direct-mapped cache of search results.
use vstd::prelude::*;
use crate::engine::Mv;

verus! {

pub const TT_BITS: usize = 18;
pub const TT_SIZE: usize = 262144;

#[derive(Clone, Copy, PartialEq, Eq, Debug, Structural)]
pub enum TTFlag { Exact, Alpha, Beta }

#[derive(Clone, Copy)]
struct TTEntry {
    key: u64,
    depth: u8,
    score: i32,
    flag: u8,
    mv: Option<Mv>,
}

pub struct TranspositionTable {
    entries: Vec<TTEntry>,
}

/// The slot a key maps to: its low `TT_BITS` bits.
pub open spec fn tt_slot(hash: u64) -> int { (hash % 262144) as int }

/// The flag a stored code stands for.
pub open spec fn flag_of_code(code: u8) -> TTFlag {
    if code == 1 { TTFlag::Exact } else if code == 2 { TTFlag::Alpha } else { TTFlag::Beta }
}

fn slot(hash: u64) -> (i: usize)
    ensures i == tt_slot(hash), i < TT_SIZE,
{
    let i = (hash & 262143u64) as usize;
    assert(hash & 262143u64 == hash % 262144) by (bit_vector);
    i
}

impl TranspositionTable {
    pub closed spec fn wf(&self) -> bool {
        self.entries@.len() == TT_SIZE
    }

    /// What `probe(hash)` answers.
    pub closed spec fn lookup(&self, hash: u64) -> Option<(TTFlag, u8, i32, Option<Mv>)> {
        let e = self.entries@[tt_slot(hash)];
        if e.key == hash && e.flag != 0 {
            Some((flag_of_code(e.flag), e.depth, e.score, e.mv))
        } else {
            None
        }
    }

    pub fn new() -> (t: Self)
        ensures t.wf(), forall|h: u64| t.lookup(h) is None,
    {
        let entry = TTEntry { key: 0, depth: 0, score: 0, flag: 0, mv: None };
        let mut entries: Vec<TTEntry> = Vec::new();
        let mut i: usize = 0;
        while i < TT_SIZE
            invariant
                i <= TT_SIZE, entry.flag == 0,
                entries@.len() == i,
                forall|j: int| 0 <= j < i ==> (#[trigger] entries@[j]).flag == 0,
            decreases TT_SIZE - i,
        {
            entries.push(entry);
            i += 1;
        }
        let t = TranspositionTable { entries };
        assert forall|h: u64| t.lookup(h) is None by {
            assert(t.entries@[tt_slot(h)].flag == 0);
        }
        t
    }

    /// Forgets every entry.
    pub fn clear(&mut self)
        requires old(self).wf(),
        ensures final(self).wf(), forall|h: u64| final(self).lookup(h) is None,
    {
        let n = self.entries.len();
        let mut i: usize = 0;
        while i < n
            invariant
                i <= n, n == TT_SIZE,
                self.entries@.len() == n,
                forall|j: int| 0 <= j < i ==> (#[trigger] self.entries@[j]).flag == 0,
            decreases n - i,
        {
            let e = self.entries[i];
            self.entries.set(i, TTEntry { key: 0, depth: e.depth, score: e.score, flag: 0, mv: None });
            i += 1;
        }
        assert forall|h: u64| self.lookup(h) is None by {
            assert(self.entries@[tt_slot(h)].flag == 0);
        }
    }

    /// The stored (flag, depth, score, best move) for `hash`, if its slot holds that key.
    pub fn probe(&self, hash: u64) -> (r: Option<(TTFlag, u8, i32, Option<Mv>)>)
        requires self.wf(),
        ensures r == self.lookup(hash),
    {
        let e = self.entries[slot(hash)];
        if e.key == hash && e.flag != 0 {
            Some((if e.flag == 1 { TTFlag::Exact } else if e.flag == 2 { TTFlag::Alpha } else { TTFlag::Beta }, e.depth, e.score, e.mv))
        } else {
            None
        }
    }

    /// Overwrites the slot of `hash`; a later probe of `hash` gives the stored values back,
    /// and keys of other slots are untouched.
    pub fn store(&mut self, hash: u64, depth: u8, score: i32, flag: TTFlag, mv: Option<Mv>)
        requires old(self).wf(),
        ensures
            final(self).wf(),
            final(self).lookup(hash) == Some((flag, depth, score, mv)),
            forall|h: u64| tt_slot(h) != tt_slot(hash) ==> final(self).lookup(h) == old(self).lookup(h),
            forall|h: u64| tt_slot(h) == tt_slot(hash) && h != hash ==> final(self).lookup(h) is None,
    {
        let i = slot(hash);
        let code: u8 = match flag { TTFlag::Exact => 1, TTFlag::Alpha => 2, TTFlag::Beta => 3 };
        self.entries.set(i, TTEntry { key: hash, depth, score, flag: code, mv });
    }
}

} // verus!
