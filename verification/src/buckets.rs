//! Fixed-window rate limiting: per key, a count of hits and the end of the current window.
use vstd::prelude::*;
use crate::text::{chars_of, eq_lit, string_of};

verus! {

/// `std::time::Instant`, carried through as an opaque value.
#[verifier::external_type_specification]
#[verifier::external_body]
pub struct ExInstant(std::time::Instant);

/// Calls `Instant::now`.
#[verifier::external_body]
pub(crate) fn instant_now() -> std::time::Instant {
    std::time::Instant::now()
}

/// Calls `Instant::elapsed` and gives the milliseconds since `origin`; nothing is promised of
/// the reading.
#[verifier::external_body]
pub(crate) fn elapsed_ms(origin: &std::time::Instant) -> u64 {
    origin.elapsed().as_millis() as u64
}

pub struct Bucket {
    pub key: String,
    pub count: u32,
    pub window_end: u64,
}

/// The buckets of a limiter, one per key.
pub struct Buckets {
    pub entries: Vec<Bucket>,
}

/// A bucket as plain values: key, count, end of window (milliseconds).
pub type BucketView = (Seq<char>, u32, u64);

/// Index of the bucket of `k`, or -1.
pub open spec fn bucket_index(v: Seq<BucketView>, k: Seq<char>) -> int
    decreases v.len(),
{
    if v.len() == 0 { -1 } else if v.last().0 == k { v.len() - 1 } else { bucket_index(v.drop_last(), k) }
}

proof fn lemma_bucket_index(v: Seq<BucketView>, k: Seq<char>)
    ensures
        -1 <= bucket_index(v, k) < v.len(),
        bucket_index(v, k) >= 0 ==> v[bucket_index(v, k)].0 == k,
        bucket_index(v, k) == -1 ==> forall|i: int| 0 <= i < v.len() ==> v[i].0 != k,
    decreases v.len(),
{
    if v.len() > 0 && v.last().0 != k {
        lemma_bucket_index(v.drop_last(), k);
        assert forall|i: int| bucket_index(v, k) == -1 && 0 <= i < v.len() implies v[i].0 != k by {
            if i < v.len() - 1 { assert(v[i] == v.drop_last()[i]); }
        }
    }
}

/// The state after a hit of `k` at time `now`, and whether the hit is allowed: a key seen
/// for the first time, or whose window has ended, starts a new window with one hit and is
/// allowed (a new key only while `max` is at least one, unless the window is empty);
/// otherwise its count grows by one (wrapping) and the hit is allowed while the count is at
/// most `max`.
pub open spec fn hit_spec(v: Seq<BucketView>, k: Seq<char>, now: u64, window: u64, max: u32) -> (Seq<BucketView>, bool) {
    let end = if now as int + window as int > u64::MAX { u64::MAX } else { (now + window) as u64 };
    let i = bucket_index(v, k);
    if i < 0 {
        (v.push((k, 1u32, end)), now >= end || 1 <= max)
    } else if now >= v[i].2 {
        (v.update(i, (k, 1u32, end)), true)
    } else {
        let c = vstd::wrapping::u32_specs::wrapping_add(v[i].1, 1);
        (v.update(i, (k, c, v[i].2)), c <= max)
    }
}

/// Buckets whose window has not ended at `now`.
pub open spec fn alive(now: u64) -> spec_fn(BucketView) -> bool {
    |b: BucketView| now < b.2
}

impl Buckets {
    pub open spec fn view(&self) -> Seq<BucketView> {
        self.entries@.map_values(|b: Bucket| (b.key@, b.count, b.window_end))
    }

    pub fn new() -> (r: Buckets)
        ensures r.view().len() == 0,
    {
        Buckets { entries: Vec::new() }
    }

    fn find(&self, key: &Vec<char>) -> (r: Option<usize>)
        ensures
            match r { Some(i) => bucket_index(self.view(), key@) == i, None => bucket_index(self.view(), key@) == -1 },
    {
        let ghost v = self.view();
        let mut n: usize = self.entries.len();
        assert(v.take(n as int) =~= v);
        while n > 0
            invariant
                n <= self.entries@.len(), v == self.view(),
                bucket_index(v, key@) == bucket_index(v.take(n as int), key@),
            decreases n,
        {
            assert(v.take(n as int).last() == v[n - 1]);
            if eq_lit(key, self.entries[n - 1].key.as_str()) {
                return Some(n - 1);
            }
            assert(v.take(n as int).drop_last() =~= v.take(n - 1));
            n -= 1;
        }
        None
    }

    /// Records a hit of `key` at time `now` (milliseconds) for windows of `window`
    /// milliseconds and says whether it is allowed.
    pub fn hit(&mut self, key: &str, now: u64, window: u64, max: u32) -> (r: bool)
        ensures (final(self).view(), r) == hit_spec(old(self).view(), key@, now, window, max),
    {
        let kc = chars_of(key);
        let end = now.saturating_add(window);
        match self.find(&kc) {
            None => {
                let ghost v = self.view();
                self.entries.push(Bucket { key: string_of(&kc), count: 1, window_end: end });
                assert(self.view() =~= v.push((key@, 1u32, end)));
                now >= end || 1 <= max
            },
            Some(i) => {
                let ghost v = self.view();
                proof { lemma_bucket_index(v, key@); }
                let we = self.entries[i].window_end;
                if now >= we {
                    self.entries.set(i, Bucket { key: string_of(&kc), count: 1, window_end: end });
                    assert(self.view() =~= v.update(i as int, (key@, 1u32, end)));
                    true
                } else {
                    let c = self.entries[i].count.wrapping_add(1);
                    self.entries.set(i, Bucket { key: string_of(&kc), count: c, window_end: we });
                    assert(self.view() =~= v.update(i as int, (key@, c, we)));
                    c <= max
                }
            },
        }
    }

    /// Drops the buckets whose window has ended at `now`.
    pub fn purge(&mut self, now: u64)
        ensures final(self).view() == old(self).view().filter(alive(now)),
    {
        let ghost v = self.view();
        let ghost p = alive(now);
        let mut kept = Buckets { entries: Vec::new() };
        let mut i: usize = 0;
        assert(v.take(0) =~= Seq::<BucketView>::empty());
        while i < self.entries.len()
            invariant
                i <= self.entries@.len(), v == self.view(), p == alive(now),
                kept.view() == v.take(i as int).filter(p),
            decreases self.entries@.len() - i,
        {
            assert(v.take(i + 1).drop_last() =~= v.take(i as int));
            proof { reveal(Seq::filter); }
            let e = &self.entries[i];
            assert(v[i as int] == (e.key@, e.count, e.window_end));
            if now < e.window_end {
                let ghost kv = kept.view();
                let key = string_of(&chars_of(e.key.as_str()));
                kept.entries.push(Bucket { key, count: e.count, window_end: e.window_end });
                assert(kept.view() =~= kv.push(v[i as int]));
            }
            i += 1;
        }
        assert(v.take(self.entries@.len() as int) =~= v);
        self.entries = kept.entries;
    }
}

} // verus!
