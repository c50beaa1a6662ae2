//! Chat inside a room of the relay server: rate limiting and cleaning of messages.
use vstd::prelude::*;
use vstd::utf8::encode_utf8;
use crate::buckets::{Buckets, hit_spec, instant_now, elapsed_ms};
use crate::text::{chars_of, push_char};

verus! {

/// Allows each sender at most `max` messages a minute.
pub struct ChatRateLimit {
    pub buckets: Buckets,
    pub max: u32,
    pub origin: std::time::Instant,
}

impl ChatRateLimit {
    pub fn new(max_per_minute: u32) -> (r: ChatRateLimit)
        ensures r.buckets.view().len() == 0, r.max == max_per_minute,
    {
        ChatRateLimit { buckets: Buckets::new(), max: max_per_minute, origin: instant_now() }
    }

    /// Records a message from `key` at `now` milliseconds and says whether it is allowed.
    pub fn allow_at(&mut self, key: &str, now: u64) -> (r: bool)
        ensures
            (final(self).buckets.view(), r) == hit_spec(old(self).buckets.view(), key@, now, 60_000, old(self).max),
            final(self).max == old(self).max,
    {
        self.buckets.hit(key, now, 60_000, self.max)
    }

    /// Records a message from `key` now and says whether it is allowed.
    pub fn allow(&mut self, key: &str) -> (r: bool)
        ensures
            exists|now: u64| (final(self).buckets.view(), r) == hit_spec(old(self).buckets.view(), key@, now, 60_000, old(self).max),
            final(self).max == old(self).max,
    {
        let now = elapsed_ms(&self.origin);
        self.allow_at(key, now)
    }
}

/// Characters a chat message keeps: printable ASCII other than `:`.
pub open spec fn chat_char(c: char) -> bool {
    ' ' <= c <= '\u{7f}' && c != ':'
}

pub open spec fn chat_pred() -> spec_fn(char) -> bool {
    |c: char| chat_char(c)
}

/// A message cleaned for the wire: its printable ASCII characters other than `:`, at most 400.
pub open spec fn sanitise_spec(payload: Seq<char>) -> Seq<char> {
    let f = payload.filter(chat_pred());
    if f.len() > 400 { f.take(400) } else { f }
}

proof fn lemma_filter_keeps_all(s: Seq<char>)
    requires forall|i: int| 0 <= i < s.len() ==> chat_char(#[trigger] s[i]),
    ensures s.filter(chat_pred()) == s,
    decreases s.len(),
{
    reveal(Seq::filter);
    if s.len() > 0 {
        lemma_filter_keeps_all(s.drop_last());
        assert(chat_char(s.last()));
        assert(s =~= s.drop_last().push(s.last()));
    } else {
        assert(s.filter(chat_pred()) =~= s);
    }
}

/// Cleaning a cleaned message changes nothing.
pub proof fn lemma_sanitise_idempotent(payload: Seq<char>)
    ensures sanitise_spec(sanitise_spec(payload)) == sanitise_spec(payload),
{
    broadcast use vstd::seq_lib::group_filter_ensures;
    let f = payload.filter(chat_pred());
    let x = sanitise_spec(payload);
    assert forall|i: int| 0 <= i < x.len() implies chat_char(#[trigger] x[i]) by {
        assert(x[i] == f[i]);
        assert(chat_pred()(f[i]));
    }
    lemma_filter_keeps_all(x);
}

pub fn sanitise(payload: &str) -> (r: String)
    ensures r@ == sanitise_spec(payload@),
{
    let cs = chars_of(payload);
    let mut r = String::new();
    let mut n: usize = 0;
    let mut i: usize = 0;
    assert(cs@.take(0) =~= Seq::<char>::empty());
    while i < cs.len()
        invariant
            i <= cs@.len(), cs@ == payload@, n == r@.len(), n <= 400,
            r@ == (if cs@.take(i as int).filter(chat_pred()).len() > 400 {
                cs@.take(i as int).filter(chat_pred()).take(400)
            } else {
                cs@.take(i as int).filter(chat_pred())
            }),
        decreases cs@.len() - i,
    {
        let ghost f0 = cs@.take(i as int).filter(chat_pred());
        assert(cs@.take(i + 1).drop_last() =~= cs@.take(i as int));
        proof { reveal(Seq::filter); }
        let c = cs[i];
        if ' ' <= c && c <= '\u{7f}' && c != ':' {
            if n < 400 {
                push_char(&mut r, c);
                n += 1;
            }
            proof {
                let f1 = f0.push(c);
                if f0.len() >= 400 {
                    assert(f1.take(400) =~= f0.take(400));
                } else {
                    assert(f1.len() <= 400);
                }
            }
        }
        i += 1;
    }
    assert(cs@.take(cs@.len() as int) =~= cs@);
    r
}

fn has_line_break(cs: &Vec<char>) -> (r: bool)
    ensures r == (cs@.contains('\n') || cs@.contains('\r')),
{
    let mut i: usize = 0;
    while i < cs.len()
        invariant
            i <= cs@.len(),
            forall|j: int| 0 <= j < i ==> cs@[j] != '\n' && cs@[j] != '\r',
        decreases cs@.len() - i,
    {
        if cs[i] == '\n' || cs[i] == '\r' {
            assert(cs@.contains(cs@[i as int]));
            return true;
        }
        i += 1;
    }
    assert(!cs@.contains('\n')) by { if cs@.contains('\n') { let k = choose|k: int| 0 <= k < cs@.len() && cs@[k] == '\n'; } }
    assert(!cs@.contains('\r')) by { if cs@.contains('\r') { let k = choose|k: int| 0 <= k < cs@.len() && cs@[k] == '\r'; } }
    false
}

/// The chat of one room.
pub struct RoomChat {
    pub message_count: u64,
    pub rate_limiter: ChatRateLimit,
}

/// Whether a message is refused before cleaning: empty, over 800 bytes, or on several lines.
pub open spec fn refused(payload: Seq<char>) -> bool {
    payload.len() == 0 || encode_utf8(payload).len() > 800 || payload.contains('\n') || payload.contains('\r')
}

impl RoomChat {
    pub fn new() -> (r: RoomChat)
        ensures r.message_count == 0, r.rate_limiter.buckets.view().len() == 0, r.rate_limiter.max == 30,
    {
        RoomChat { message_count: 0, rate_limiter: ChatRateLimit::new(30) }
    }

    /// A message from `sender_color` at `now` milliseconds: `Some(cleaned)` to forward, or
    /// `None` when the sender is over its rate, the message is refused, or nothing is left of
    /// it after cleaning; each forwarded message is counted.
    pub fn process_at(&mut self, sender_color: &str, payload: &str, now: u64) -> (r: Option<String>)
        ensures
            ({
                let (b, allowed) = hit_spec(old(self).rate_limiter.buckets.view(), sender_color@, now, 60_000,
                    old(self).rate_limiter.max);
                &&& final(self).rate_limiter.buckets.view() == b
                &&& final(self).rate_limiter.max == old(self).rate_limiter.max
                &&& (r is Some <==> allowed && !refused(payload@) && sanitise_spec(payload@).len() > 0)
                &&& (r matches Some(s) ==> s@ == sanitise_spec(payload@))
                &&& final(self).message_count == (if r is Some {
                        vstd::wrapping::u64_specs::wrapping_add(old(self).message_count, 1)
                    } else {
                        old(self).message_count
                    })
            }),
    {
        if !self.rate_limiter.allow_at(sender_color, now) {
            return None;
        }
        let cs = chars_of(payload);
        if cs.len() == 0 || payload.as_bytes().len() > 800 {
            return None;
        }
        if has_line_break(&cs) {
            return None;
        }
        let safe = sanitise(payload);
        if safe.as_str().is_empty() {
            return None;
        }
        self.message_count = self.message_count.wrapping_add(1);
        Some(safe)
    }

    /// A message from `sender_color`, timed by the room's clock.
    pub fn process(&mut self, sender_color: &str, payload: &str) -> (r: Option<String>)
        ensures
            exists|now: u64| {
                &&& final(self).rate_limiter.buckets.view()
                    == (#[trigger] hit_spec(old(self).rate_limiter.buckets.view(), sender_color@, now, 60_000,
                        old(self).rate_limiter.max)).0
                &&& (r is Some <==> hit_spec(old(self).rate_limiter.buckets.view(), sender_color@, now, 60_000,
                        old(self).rate_limiter.max).1 && !refused(payload@) && sanitise_spec(payload@).len() > 0)
            },
            r matches Some(s) ==> s@ == sanitise_spec(payload@),
            final(self).rate_limiter.max == old(self).rate_limiter.max,
            final(self).message_count == (if r is Some {
                vstd::wrapping::u64_specs::wrapping_add(old(self).message_count, 1)
            } else {
                old(self).message_count
            }),
    {
        let now = elapsed_ms(&self.rate_limiter.origin);
        self.process_at(sender_color, payload, now)
    }
}

} // verus!
