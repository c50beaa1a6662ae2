//! Decimal integers: parsing as `str::parse` does, and formatting as `Display` does.
use vstd::prelude::*;
use crate::text::push_char;

verus! {

pub open spec fn is_digit(c: char) -> bool { '0' <= c <= '9' }

pub open spec fn digit_val(c: char) -> nat { (c as int - 48) as nat }

pub open spec fn all_digits(s: Seq<char>) -> bool {
    forall|i: int| 0 <= i < s.len() ==> is_digit(#[trigger] s[i])
}

/// Value of a string of decimal digits.
pub open spec fn digits_val(s: Seq<char>) -> nat
    decreases s.len(),
{
    if s.len() == 0 { 0 } else { digits_val(s.drop_last()) * 10 + digit_val(s.last()) }
}

/// `str::parse` for an unsigned type whose largest value is `max`: an optional `+`,
/// then one or more digits, with a value of at most `max`.
pub open spec fn parse_unsigned_spec(s: Seq<char>, max: nat) -> Option<nat> {
    let t = if s.len() > 0 && s[0] == '+' { s.drop_first() } else { s };
    if t.len() > 0 && all_digits(t) && digits_val(t) <= max { Some(digits_val(t)) } else { None }
}

/// `str::parse` for a signed type with range `min..=max`: an optional sign, then one or more digits.
pub open spec fn parse_signed_spec(s: Seq<char>, min: int, max: nat) -> Option<int> {
    if s.len() > 0 && s[0] == '-' {
        let t = s.drop_first();
        if t.len() > 0 && all_digits(t) && -(digits_val(t) as int) >= min { Some(-(digits_val(t) as int)) } else { None }
    } else {
        match parse_unsigned_spec(s, max) { Some(v) => Some(v as int), None => None }
    }
}

proof fn lemma_digits_step(s: Seq<char>, i: int)
    requires 0 <= i < s.len(),
    ensures digits_val(s.take(i + 1)) == digits_val(s.take(i)) * 10 + digit_val(s[i]),
{
    assert(s.take(i + 1).drop_last() =~= s.take(i));
}

/// Parses the digits of `t` from `start` on (no sign); `None` unless they are one or more
/// digits with a value of at most `max`.
fn parse_digits(t: &Vec<char>, start: usize, max: u64) -> (r: Option<u64>)
    requires start <= t@.len(),
    ensures
        r == (if t@.len() > start && all_digits(t@.skip(start as int)) && digits_val(t@.skip(start as int)) <= max {
            Some(digits_val(t@.skip(start as int)) as u64)
        } else {
            None::<u64>
        }),
{
    let ghost u = t@.skip(start as int);
    if t.len() == start {
        return None;
    }
    let mut v: u64 = 0;
    let mut over = false;
    let mut i: usize = start;
    while i < t.len()
        invariant
            start <= i <= t@.len(), u == t@.skip(start as int),
            all_digits(u.take(i - start)),
            over == (digits_val(u.take(i - start)) > max),
            !over ==> v as int == digits_val(u.take(i - start)),
        decreases t@.len() - i,
    {
        let c = t[i];
        if !('0' <= c && c <= '9') {
            assert(!is_digit(u[i - start]));
            return None;
        }
        let d = (c as u32 - 48) as u64;
        proof {
            lemma_digits_step(u, i - start);
            assert(u.take(i - start + 1) =~= u.take(i - start).push(c));
            let dv = digits_val(u.take(i - start));
            if dv > max {
                assert(dv * 10 + d > max) by (nonlinear_arith) requires dv > max, d >= 0;
            }
        }
        if !over {
            match v.checked_mul(10) {
                Some(x) => match x.checked_add(d) {
                    Some(y) => {
                        if y > max { over = true; } else { v = y; }
                    },
                    None => { over = true; },
                },
                None => {
                    proof {
                        assert(v * 10 + d > max) by (nonlinear_arith) requires v * 10 > u64::MAX, max <= u64::MAX, d >= 0;
                    }
                    over = true;
                },
            }
        }
        i += 1;
    }
    assert(u.take(i - start) =~= u);
    if over { None } else { Some(v) }
}

/// `str::parse::<T>` for an unsigned `T` with largest value `max`.
pub fn parse_unsigned(s: &Vec<char>, max: u64) -> (r: Option<u64>)
    ensures
        r matches Some(v) ==> parse_unsigned_spec(s@, max as nat) == Some(v as nat),
        r is None ==> parse_unsigned_spec(s@, max as nat) is None,
{
    let start: usize = if s.len() > 0 && s[0] == '+' { 1 } else { 0 };
    assert(s@.skip(1) =~= s@.drop_first());
    assert(s@.skip(0) =~= s@);
    parse_digits(s, start, max)
}

/// `str::parse::<T>` for a signed `T` with range `-min_mag..=max`.
pub fn parse_signed(s: &Vec<char>, min_mag: u64, max: u64) -> (r: Option<i64>)
    requires max <= i64::MAX, min_mag <= i64::MAX,
    ensures
        r matches Some(v) ==> parse_signed_spec(s@, -(min_mag as int), max as nat) == Some(v as int),
        r is None ==> parse_signed_spec(s@, -(min_mag as int), max as nat) is None,
{
    if s.len() > 0 && s[0] == '-' {
        assert(s@.skip(1) =~= s@.drop_first());
        match parse_digits(s, 1, min_mag) {
            Some(v) => Some(-(v as i64)),
            None => None,
        }
    } else {
        match parse_unsigned(s, max) {
            Some(v) => Some(v as i64),
            None => None,
        }
    }
}

/// Decimal digits of `n`, most significant first, as `Display` prints them.
pub open spec fn dec_spec(n: nat) -> Seq<char>
    decreases n,
{
    if n < 10 { seq![(48 + n) as char] } else { dec_spec(n / 10).push((48 + n % 10) as char) }
}

/// Appends `n` in decimal.
pub fn push_dec(s: &mut String, n: u64)
    ensures final(s)@ == old(s)@ + dec_spec(n as nat),
    decreases n,
{
    if n < 10 {
        push_char(s, (48u8 + n as u8) as char);
    } else {
        push_dec(s, n / 10);
        push_char(s, (48u8 + (n % 10) as u8) as char);
    }
}

/// Appends `n` in decimal, zero-padded to at least two digits (`{:02}`).
pub fn push_dec2(s: &mut String, n: u64)
    ensures final(s)@ == old(s)@ + (if n < 10 { seq!['0'] } else { Seq::empty() }) + dec_spec(n as nat),
{
    if n < 10 {
        push_char(s, '0');
    }
    push_dec(s, n);
}

/// Appends a signed `n` in decimal.
pub fn push_dec_i(s: &mut String, n: i64)
    ensures final(s)@ == old(s)@ + (if n < 0 { seq!['-'] + dec_spec((-n) as nat) } else { dec_spec(n as nat) }),
{
    if n < 0 {
        push_char(s, '-');
        let m: u64 = if n == i64::MIN { 9223372036854775808u64 } else { (-n) as u64 };
        push_dec(s, m);
    } else {
        push_dec(s, n as u64);
    }
}

/// The decimal text of `n` is digits, and reads back as `n`.
pub proof fn lemma_dec_digits(n: nat)
    ensures
        dec_spec(n).len() >= 1,
        all_digits(dec_spec(n)),
        digits_val(dec_spec(n)) == n,
    decreases n,
{
    if n < 10 {
        assert(((48 + n) as char) as int == 48 + n);
        assert(dec_spec(n).drop_last() =~= Seq::<char>::empty());
        assert(digits_val(dec_spec(n)) == digits_val(Seq::<char>::empty()) * 10 + digit_val(dec_spec(n).last()));
    } else {
        lemma_dec_digits(n / 10);
        let s = dec_spec(n);
        assert(((48 + n % 10) as char) as int == 48 + n % 10);
        assert(s.last() == (48 + n % 10) as char);
        assert(digit_val(s.last()) == n % 10);
        assert(s.drop_last() =~= dec_spec(n / 10));
        assert(n == (n / 10) * 10 + n % 10);
        assert(digits_val(s) == digits_val(s.drop_last()) * 10 + digit_val(s.last()));
        assert forall|i: int| 0 <= i < s.len() implies is_digit(#[trigger] s[i]) by {
            if i < s.len() - 1 { assert(s[i] == dec_spec(n / 10)[i]); }
        }
    }
}

/// Parsing the decimal text of a number that fits gives the number back.
pub proof fn lemma_parse_dec(n: nat, max: nat)
    requires n <= max,
    ensures parse_unsigned_spec(dec_spec(n), max) == Some(n),
{
    lemma_dec_digits(n);
    assert(is_digit(dec_spec(n)[0]));
}

} // verus!
