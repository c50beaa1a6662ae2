//! Passwords, tokens, room codes and invite links of the relay server.
use vstd::prelude::*;
use vstd::string::StrSliceExecFns;
use vstd::utf8::{encode_utf8, decode_utf8, valid_utf8};
use crate::text::{chars_of, trim, push_char, push_str, push_chars, string_of, slice, trim_spec, is_ws_spec,
    lemma_trim_noop, rfind_char, rfind_char_spec, lemma_rfind_bounds, lemma_rfind_before, uppercase, str_uppercase};
use crate::buckets::{Buckets, hit_spec, alive, instant_now, elapsed_ms};
use crate::num::{parse_unsigned, parse_unsigned_spec, push_dec, dec_spec, lemma_dec_digits, lemma_parse_dec, is_digit};

verus! {

// ── Passwords ────────────────────────────────────────────────────────────────

/// Whether `input` is the password `expected`; every character pair is looked at, whatever
/// the first difference, so the time taken does not tell where it is.
pub fn check_password(input: &str, expected: &str) -> (r: bool)
    ensures r == (input@ == expected@),
{
    let a = chars_of(input);
    let b = chars_of(expected);
    if a.len() != b.len() {
        return false;
    }
    let mut acc: u32 = 0;
    let mut i: usize = 0;
    while i < a.len()
        invariant
            i <= a@.len(), a@.len() == b@.len(), a@ == input@, b@ == expected@,
            (acc == 0) == (forall|j: int| 0 <= j < i ==> a@[j] == b@[j]),
        decreases a@.len() - i,
    {
        let x = a[i] as u32;
        let y = b[i] as u32;
        let old_acc = acc;
        acc = acc | (x ^ y);
        assert((old_acc | (x ^ y)) == 0 <==> (old_acc == 0 && x == y)) by (bit_vector);
        proof {
            vstd::utf8::char_u32_cast(a@[i as int], x);
            vstd::utf8::char_u32_cast(b@[i as int], y);
            assert((x == y) == (a@[i as int] == b@[i as int]));
        }
        i += 1;
    }
    if acc == 0 {
        assert(a@ =~= b@);
        true
    } else {
        false
    }
}

// ── Tokens and room codes ────────────────────────────────────────────────────

/// The lowercase hexadecimal digit of `v` (below 16).
pub open spec fn hex_digit(v: int) -> char {
    if v < 10 { (48 + v) as char } else { (87 + v) as char }
}

/// `n` in 16 lowercase hexadecimal digits, as `{:016x}` writes it.
pub open spec fn hex16(n: u64) -> Seq<char> {
    Seq::new(16, |i: int| hex_digit(((n as int) / pow16(15 - i)) % 16))
}

pub open spec fn pow16(k: int) -> int
    decreases k,
{
    if k <= 0 { 1 } else { 16 * pow16(k - 1) }
}

/// The two numbers a token is written from, mixed from a clock reading `t` and a counter.
pub open spec fn token_words(t: u64, ctr: u64) -> (u64, u64) {
    let a = vstd::wrapping::u64_specs::wrapping_add(vstd::wrapping::u64_specs::wrapping_mul(t, 0x9e3779b97f4a7c15u64), ctr);
    let b = vstd::wrapping::u64_specs::wrapping_add(vstd::wrapping::u64_specs::wrapping_mul(a, 0x6c62272e07bb0142u64),
        0xdeadbeefcafe1234u64);
    (a, b)
}

/// The 32-character token for clock reading `t` and counter `ctr`.
pub open spec fn token_text(t: u64, ctr: u64) -> Seq<char> {
    hex16(token_words(t, ctr).0) + hex16(token_words(t, ctr).1)
}

fn push_hex16(s: &mut String, n: u64)
    ensures final(s)@ == old(s)@ + hex16(n),
{
    let ghost s0 = s@;
    let mut i: u32 = 0;
    let mut div: u64 = 0x1000000000000000;
    assert(pow16(15) == 0x1000000000000000) by { reveal_with_fuel(pow16, 17); }
    while i < 16
        invariant
            i <= 16, s@ == s0 + hex16(n).take(i as int),
            div as int == pow16(15 - i),
            i < 16 ==> div >= 1,
        decreases 16 - i,
    {
        let v = (n / div) % 16;
        let c = if v < 10 { (48 + v as u8) as char } else { (87 + v as u8) as char };
        push_char(s, c);
        assert(hex16(n).take(i + 1) =~= hex16(n).take(i as int).push(hex16(n)[i as int]));
        if i < 15 {
            assert(pow16(15 - i) == 16 * pow16(15 - i - 1));
            div = div / 16;
        }
        i += 1;
    }
    assert(hex16(n).take(16) =~= hex16(n));
}

/// Calls `SystemTime::now().duration_since(UNIX_EPOCH)` and takes `subsec_nanos`, which
/// std documents as below one billion; 0 when the clock is before the epoch.
#[verifier::external_body]
fn clock_nanos() -> (r: u64)
    ensures r < 1_000_000_000,
{
    std::time::SystemTime::now().duration_since(std::time::UNIX_EPOCH).unwrap_or_default().subsec_nanos() as u64
}

/// The token for clock reading `t` and counter `ctr`.
pub fn token_from(t: u64, ctr: u64) -> (s: String)
    ensures s@ == token_text(t, ctr),
{
    let a = t.wrapping_mul(0x9e3779b97f4a7c15).wrapping_add(ctr);
    let b = a.wrapping_mul(0x6c62272e07bb0142).wrapping_add(0xdeadbeefcafe1234);
    let mut s = String::new();
    push_hex16(&mut s, a);
    push_hex16(&mut s, b);
    s
}

/// A fresh 32-character hex token, mixed from the clock and the caller's counter `ctr`
/// (which the caller advances on every call).
pub fn generate_token(ctr: u64) -> (s: String)
    ensures exists|t: u64| t < 1_000_000_000 && s@ == token_text(t, ctr),
{
    let t = clock_nanos();
    token_from(t, ctr)
}

/// The letters a room code is made of: no `0`/`O` or `1`/`I`/`L`.
pub open spec fn code_alphabet() -> Seq<char> {
    "ABCDEFGHJKMNPQRSTUVWXYZ23456789"@
}

pub open spec fn lcg_next(seed: u64) -> u64 {
    vstd::wrapping::u64_specs::wrapping_add(vstd::wrapping::u64_specs::wrapping_mul(seed, 6364136223846793005u64),
        1442695040888963407u64)
}

/// `n` code letters from the generator state `seed`: each step advances the state and picks
/// the letter at its top bits modulo the alphabet's length.
pub open spec fn code_letters(seed: u64, n: nat) -> Seq<char>
    decreases n,
{
    if n == 0 {
        Seq::empty()
    } else {
        let s1 = lcg_next(seed);
        seq![code_alphabet()[((s1 >> 33u64) as int) % 31]] + code_letters(s1, (n - 1) as nat)
    }
}

/// The six-letter room code for clock reading `t` and counter `ctr`.
pub open spec fn room_code_text(t: u64, ctr: u64) -> Seq<char> {
    code_letters(vstd::wrapping::u64_specs::wrapping_add(vstd::wrapping::u64_specs::wrapping_mul(t, 0x9e3779b97f4a7c15u64),
        vstd::wrapping::u64_specs::wrapping_mul(ctr, 0x6c62272e07bb0142u64)), 6)
}

/// The room code for clock reading `t` and counter `ctr`.
pub fn room_code_from(t: u64, ctr: u64) -> (s: String)
    ensures s@ == room_code_text(t, ctr),
{
    let alphabet = chars_of("ABCDEFGHJKMNPQRSTUVWXYZ23456789");
    proof { reveal_strlit("ABCDEFGHJKMNPQRSTUVWXYZ23456789"); }
    let mut seed = t.wrapping_mul(0x9e3779b97f4a7c15).wrapping_add(ctr.wrapping_mul(0x6c62272e07bb0142));
    let ghost seed0 = seed;
    let mut s = String::new();
    let mut i: u32 = 0;
    while i < 6
        invariant
            i <= 6, alphabet@ == code_alphabet(), alphabet@.len() == 31,
            s@ + code_letters(seed, (6 - i) as nat) == code_letters(seed0, 6),
        decreases 6 - i,
    {
        let ghost before = seed;
        let ghost s_before = s@;
        seed = seed.wrapping_mul(6364136223846793005).wrapping_add(1442695040888963407);
        assert(seed == lcg_next(before));
        let hi = seed >> 33;
        assert(hi < 0x80000000) by (bit_vector) requires hi == seed >> 33;
        let idx = (hi as usize) % 31;
        let ch = alphabet[idx];
        push_char(&mut s, ch);
        proof {
            let rest = code_letters(seed, (6 - i - 1) as nat);
            assert(ch == code_alphabet()[((seed >> 33u64) as int) % 31]);
            assert(code_letters(before, (6 - i) as nat) == seq![ch] + rest);
            assert(s@ + rest =~= s_before + (seq![ch] + rest));
        }
        i += 1;
    }
    assert(s@ + code_letters(seed, 0) =~= s@);
    s
}

/// A fresh six-letter room code, mixed from the clock and the caller's counter `ctr`.
pub fn generate_room_code(ctr: u64) -> (s: String)
    ensures exists|t: u64| t < 1_000_000_000 && s@ == room_code_text(t, ctr),
{
    let t = clock_nanos();
    room_code_from(t, ctr)
}

// ── Invite links ─────────────────────────────────────────────────────────────

/// The byte of the base64url alphabet (`A-Z a-z 0-9 - _`) for a six-bit value.
pub open spec fn b64_sym(v: int) -> u8 {
    if v < 26 { (65 + v) as u8 } else if v < 52 { (71 + v) as u8 } else if v < 62 { (v - 4) as u8 }
    else if v == 62 { 45u8 } else { 95u8 }
}

/// The six-bit value of a base64url byte, if it is one.
pub open spec fn b64_val(c: u8) -> Option<u32> {
    if 65 <= c <= 90 { Some((c - 65) as u32) } else if 97 <= c <= 122 { Some((c - 71) as u32) }
    else if 48 <= c <= 57 { Some((c + 4) as u32) } else if c == 45 { Some(62u32) } else if c == 95 { Some(63u32) }
    else { None }
}

/// The base64url symbols of one to three bytes: two, three or four symbols, no padding.
pub open spec fn enc_group(d: Seq<u8>) -> Seq<u8> {
    let b0 = d[0] as u32;
    let b1 = if d.len() > 1 { d[1] as u32 } else { 0u32 };
    let b2 = if d.len() > 2 { d[2] as u32 } else { 0u32 };
    seq![b64_sym(((b0 >> 2u32) & 0x3fu32) as int), b64_sym((((b0 << 4u32) | (b1 >> 4u32)) & 0x3fu32) as int)]
        + (if d.len() > 1 { seq![b64_sym((((b1 << 2u32) | (b2 >> 6u32)) & 0x3fu32) as int)] } else { Seq::empty() })
        + (if d.len() > 2 { seq![b64_sym((b2 & 0x3fu32) as int)] } else { Seq::empty() })
}

/// base64url without padding, three bytes at a time.
pub open spec fn b64_enc(d: Seq<u8>) -> Seq<u8>
    decreases d.len(),
{
    if d.len() == 0 { Seq::empty() } else if d.len() <= 3 { enc_group(d) } else { enc_group(d.take(3)) + b64_enc(d.skip(3)) }
}

/// The bytes of one group of two to four symbols.
pub open spec fn dec_group(cs: Seq<u8>) -> Option<Seq<u8>> {
    match (b64_val(cs[0]), b64_val(cs[1])) {
        (Some(v0), Some(v1)) => {
            let o0 = ((v0 << 2u32) | (v1 >> 4u32)) as u8;
            if cs.len() > 2 {
                match b64_val(cs[2]) {
                    Some(v2) => {
                        let o1 = ((v1 << 4u32) | (v2 >> 2u32)) as u8;
                        if cs.len() > 3 {
                            match b64_val(cs[3]) {
                                Some(v3) => Some(seq![o0, o1, ((v2 << 6u32) | v3) as u8]),
                                None => None,
                            }
                        } else {
                            Some(seq![o0, o1])
                        }
                    },
                    None => None,
                }
            } else {
                Some(seq![o0])
            }
        },
        _ => None,
    }
}

/// Decoding base64url four symbols at a time; a last lone symbol is ignored, and any byte
/// outside the alphabet makes it fail.
pub open spec fn b64_dec(cs: Seq<u8>) -> Option<Seq<u8>>
    decreases cs.len(),
{
    if cs.len() < 2 {
        Some(Seq::empty())
    } else {
        match dec_group(cs.take(if cs.len() < 4 { cs.len() as int } else { 4 })) {
            None => None,
            Some(g) => if cs.len() > 4 {
                match b64_dec(cs.skip(4)) { Some(r) => Some(g + r), None => None }
            } else {
                Some(g)
            },
        }
    }
}

/// The characters of bytes that are ASCII.
pub open spec fn ascii_chars(b: Seq<u8>) -> Seq<char> {
    b.map_values(|x: u8| x as char)
}

/// The invite link for a room: `rc1:` and the base64url of `host:port:code` in UTF-8.
pub open spec fn invite_text(host: Seq<char>, port: u16, code: Seq<char>) -> Seq<char> {
    "rc1:"@ + ascii_chars(b64_enc(encode_utf8(host + seq![':'] + dec_spec(port as nat) + seq![':'] + code)))
}

/// What an invite link reads as: the host, port and room code (uppercased) of the text
/// `host:port:code` that its base64url part encodes; the host may hold colons, the port and
/// the code may not.
pub open spec fn invite_parts(link: Seq<char>) -> Option<(Seq<char>, u16, Seq<char>)> {
    let t = trim_spec(link);
    if !(t.len() >= 4 && t.take(4) == "rc1:"@) {
        None
    } else {
        match b64_dec(encode_utf8(t.skip(4))) {
            None => None,
            Some(bytes) => if !valid_utf8(bytes) {
                None
            } else {
                let s = decode_utf8(bytes);
                let j = rfind_char_spec(s, ':');
                let i = rfind_char_spec(s.take(j), ':');
                if j < 0 || i < 0 {
                    None
                } else {
                    match parse_unsigned_spec(s.subrange(i + 1, j), u16::MAX as nat) {
                        Some(p) => Some((s.take(i), p as u16, str_uppercase(s.skip(j + 1)))),
                        None => None,
                    }
                }
            },
        }
    }
}

fn b64_sym_of(v: u32) -> (r: u8)
    requires v < 64,
    ensures r == b64_sym(v as int),
{
    if v < 26 { (65 + v) as u8 } else if v < 52 { (71 + v) as u8 } else if v < 62 { (v - 4) as u8 }
    else if v == 62 { 45 } else { 95 }
}

fn b64_val_of(c: u8) -> (r: Option<u32>)
    ensures r == b64_val(c),
{
    if 65 <= c && c <= 90 { Some((c - 65) as u32) } else if 97 <= c && c <= 122 { Some((c - 71) as u32) }
    else if 48 <= c && c <= 57 { Some((c + 4) as u32) } else if c == 45 { Some(62) } else if c == 95 { Some(63) }
    else { None }
}

fn base64url_encode(data: &Vec<u8>) -> (out: Vec<u8>)
    ensures out@ == b64_enc(data@),
{
    let mut out: Vec<u8> = Vec::new();
    let mut i: usize = 0;
    assert(data@.skip(0) =~= data@);
    while i < data.len()
        invariant
            i <= data@.len(),
            out@ + b64_enc(data@.skip(i as int)) == b64_enc(data@),
        decreases data@.len() - i,
    {
        let ghost rest = data@.skip(i as int);
        let left = data.len() - i;
        let b0 = data[i] as u32;
        let b1: u32 = if left > 1 { data[i + 1] as u32 } else { 0 };
        let b2: u32 = if left > 2 { data[i + 2] as u32 } else { 0 };
        let ghost g = if rest.len() <= 3 { rest } else { rest.take(3) };
        assert(g[0] == data@[i as int]);
        assert(g.len() > 1 ==> g[1] == data@[i + 1]);
        assert(g.len() > 2 ==> g[2] == data@[i + 2]);
        let ghost before = out@;
        let c0 = (b0 >> 2) & 0x3f;
        let c1 = ((b0 << 4) | (b1 >> 4)) & 0x3f;
        let c2 = ((b1 << 2) | (b2 >> 6)) & 0x3f;
        let c3 = b2 & 0x3f;
        assert(c0 < 64 && c1 < 64 && c2 < 64 && c3 < 64) by (bit_vector)
            requires c0 == (b0 >> 2) & 0x3f, c1 == ((b0 << 4) | (b1 >> 4)) & 0x3f,
                c2 == ((b1 << 2) | (b2 >> 6)) & 0x3f, c3 == b2 & 0x3f;
        out.push(b64_sym_of(c0));
        out.push(b64_sym_of(c1));
        if left > 1 {
            out.push(b64_sym_of(c2));
        }
        if left > 2 {
            out.push(b64_sym_of(c3));
        }
        assert(out@ =~= before + enc_group(g));
        if left <= 3 {
            i = data.len();
            assert(data@.skip(i as int) =~= Seq::<u8>::empty());
        } else {
            assert(rest.skip(3) =~= data@.skip(i + 3));
            i += 3;
        }
    }
    out
}

fn base64url_decode(bytes: &Vec<u8>) -> (r: Option<Vec<u8>>)
    ensures
        match r { Some(v) => b64_dec(bytes@) == Some(v@), None => b64_dec(bytes@) is None },
{
    let mut out: Vec<u8> = Vec::new();
    let mut i: usize = 0;
    assert(bytes@.skip(0) =~= bytes@);
    assert(out@ + Seq::<u8>::empty() =~= out@);
    while i < bytes.len() && bytes.len() - i > 1
        invariant
            i <= bytes@.len(),
            match b64_dec(bytes@.skip(i as int)) {
                Some(rest) => b64_dec(bytes@) == Some(out@ + rest),
                None => b64_dec(bytes@) is None,
            },
        decreases bytes@.len() - i,
    {
        let ghost cs = bytes@.skip(i as int);
        let ghost n = if cs.len() < 4 { cs.len() as int } else { 4 };
        let ghost grp = cs.take(n);
        let left = bytes.len() - i;
        assert(grp[0] == bytes@[i as int] && grp[1] == bytes@[i + 1]);
        let b0 = match b64_val_of(bytes[i]) { Some(v) => v, None => { return None; } };
        let b1 = match b64_val_of(bytes[i + 1]) { Some(v) => v, None => { return None; } };
        let ghost before = out@;
        out.push(((b0 << 2) | (b1 >> 4)) as u8);
        if left > 2 {
            assert(grp[2] == bytes@[i + 2]);
            let b2 = match b64_val_of(bytes[i + 2]) { Some(v) => v, None => { return None; } };
            out.push(((b1 << 4) | (b2 >> 2)) as u8);
            if left > 3 {
                assert(grp[3] == bytes@[i + 3]);
                let b3 = match b64_val_of(bytes[i + 3]) { Some(v) => v, None => { return None; } };
                out.push(((b2 << 6) | b3) as u8);
            }
        }
        assert(dec_group(grp) == Some(out@.skip(before.len() as int)));
        assert(out@ =~= before + out@.skip(before.len() as int));
        if left <= 4 {
            i = bytes.len();
            assert(bytes@.skip(i as int) =~= Seq::<u8>::empty());
        } else {
            assert(cs.skip(4) =~= bytes@.skip(i + 4));
            i += 4;
        }
    }
    if i < bytes.len() {
        assert(bytes@.skip(i as int).len() < 2);
    }
    assert(out@ + Seq::<u8>::empty() =~= out@);
    Some(out)
}

/// Calls `String::from_utf8`, which std documents as giving the string when the bytes are
/// valid UTF-8 and an error otherwise.
#[verifier::external_body]
pub(crate) fn utf8_string(bytes: Vec<u8>) -> (r: Option<String>)
    ensures
        r is Some <==> valid_utf8(bytes@),
        r matches Some(s) ==> s@ == decode_utf8(bytes@),
{
    String::from_utf8(bytes).ok()
}

/// The invite link of a room.
pub fn encode_invite(host: &str, port: u16, room_code: &str) -> (s: String)
    ensures s@ == invite_text(host@, port, room_code@),
{
    let mut payload = String::new();
    push_str(&mut payload, host);
    push_char(&mut payload, ':');
    push_dec(&mut payload, port as u64);
    push_char(&mut payload, ':');
    push_str(&mut payload, room_code);
    let ps = payload.as_str();
    let bytes = ps.as_bytes_vec();
    assert(ps@ == host@ + seq![':'] + dec_spec(port as nat) + seq![':'] + room_code@);
    assert(bytes@ == encode_utf8(ps@));
    let b = base64url_encode(&bytes);
    let mut s = String::new();
    push_str(&mut s, "rc1:");
    let ghost s0 = s@;
    let mut i: usize = 0;
    while i < b.len()
        invariant
            i <= b@.len(), s0 == "rc1:"@,
            s@ == s0 + ascii_chars(b@).take(i as int),
        decreases b@.len() - i,
    {
        push_char(&mut s, b[i] as char);
        assert(ascii_chars(b@).take(i + 1) =~= ascii_chars(b@).take(i as int).push(b@[i as int] as char));
        i += 1;
    }
    assert(ascii_chars(b@).take(b@.len() as int) =~= ascii_chars(b@));
    s
}

/// The host, port and room code that an invite link names.
pub fn decode_invite(link: &str) -> (r: Option<(String, u16, String)>)
    ensures
        match r {
            Some((h, p, c)) => invite_parts(link@) == Some((h@, p, c@)),
            None => invite_parts(link@) is None,
        },
{
    let t = trim(&chars_of(link));
    if !(t.len() >= 4 && t[0] == 'r' && t[1] == 'c' && t[2] == '1' && t[3] == ':') {
        proof {
            reveal_strlit("rc1:");
            if t@.len() >= 4 && t@.take(4) == "rc1:"@ {
                assert(t@.take(4)[0] == 'r' && t@.take(4)[1] == 'c' && t@.take(4)[2] == '1' && t@.take(4)[3] == ':');
            }
        }
        return None;
    }
    proof {
        reveal_strlit("rc1:");
        assert(t@.take(4) =~= "rc1:"@);
    }
    let inner = slice(&t, 4, t.len());
    assert(inner@ =~= t@.skip(4));
    let inner_s = string_of(&inner);
    let bytes = inner_s.as_str().as_bytes_vec();
    let decoded = match base64url_decode(&bytes) { Some(d) => d, None => { return None; } };
    let s = match utf8_string(decoded) { Some(s) => s, None => { return None; } };
    let sc = chars_of(s.as_str());
    let j = match rfind_char(&sc, ':') { Some(j) => j, None => { return None; } };
    proof { lemma_rfind_bounds(sc@, ':'); }
    assert(j < sc.len());
    let head = slice(&sc, 0, j);
    let i = match rfind_char(&head, ':') { Some(i) => i, None => { return None; } };
    proof { lemma_rfind_bounds(head@, ':'); }
    assert(head@ =~= sc@.take(j as int));
    let port_s = slice(&sc, i + 1, j);
    let port = match parse_unsigned(&port_s, 65535) { Some(p) => p as u16, None => { return None; } };
    let host = slice(&sc, 0, i);
    assert(host@ =~= sc@.take(i as int));
    let code = slice(&sc, j + 1, sc.len());
    assert(code@ =~= sc@.skip(j + 1));
    let up = uppercase(&code);
    Some((string_of(&host), port, string_of(&up)))
}

proof fn lemma_sym_val(v: int)
    requires 0 <= v < 64,
    ensures b64_val(b64_sym(v)) == Some(v as u32), b64_sym(v) < 128,
        b64_sym(v) != 9 && b64_sym(v) != 10 && b64_sym(v) != 11 && b64_sym(v) != 12 && b64_sym(v) != 13 && b64_sym(v) != 32,
{
}

proof fn lemma_group_bits(b0: u32, b1: u32, b2: u32)
    requires b0 < 256, b1 < 256, b2 < 256,
    ensures ({
        let c0 = (b0 >> 2u32) & 0x3fu32;
        let c1 = ((b0 << 4u32) | (b1 >> 4u32)) & 0x3fu32;
        let c2 = ((b1 << 2u32) | (b2 >> 6u32)) & 0x3fu32;
        let c3 = b2 & 0x3fu32;
        &&& c0 < 64 && c1 < 64 && c2 < 64 && c3 < 64
        &&& ((c0 << 2u32) | (c1 >> 4u32)) as u8 == b0
        &&& ((c1 << 4u32) | (c2 >> 2u32)) as u8 == b1
        &&& ((c2 << 6u32) | c3) as u8 == b2
    }),
{
    assert(({
        let c0 = (b0 >> 2u32) & 0x3fu32;
        let c1 = ((b0 << 4u32) | (b1 >> 4u32)) & 0x3fu32;
        let c2 = ((b1 << 2u32) | (b2 >> 6u32)) & 0x3fu32;
        let c3 = b2 & 0x3fu32;
        &&& c0 < 64 && c1 < 64 && c2 < 64 && c3 < 64
        &&& ((c0 << 2u32) | (c1 >> 4u32)) as u8 == b0
        &&& ((c1 << 4u32) | (c2 >> 2u32)) as u8 == b1
        &&& ((c2 << 6u32) | c3) as u8 == b2
    })) by (bit_vector)
        requires b0 < 256, b1 < 256, b2 < 256;
}

proof fn lemma_group_roundtrip(g: Seq<u8>)
    requires 1 <= g.len() <= 3,
    ensures
        enc_group(g).len() == g.len() + 1,
        dec_group(enc_group(g)) == Some(g),
        forall|k: int| 0 <= k < enc_group(g).len() ==> b64_val(#[trigger] enc_group(g)[k]) is Some,
{
    let b0 = g[0] as u32;
    let b1 = if g.len() > 1 { g[1] as u32 } else { 0u32 };
    let b2 = if g.len() > 2 { g[2] as u32 } else { 0u32 };
    lemma_group_bits(b0, b1, b2);
    let c0 = (b0 >> 2u32) & 0x3fu32;
    let c1 = ((b0 << 4u32) | (b1 >> 4u32)) & 0x3fu32;
    let c2 = ((b1 << 2u32) | (b2 >> 6u32)) & 0x3fu32;
    let c3 = b2 & 0x3fu32;
    lemma_sym_val(c0 as int);
    lemma_sym_val(c1 as int);
    lemma_sym_val(c2 as int);
    lemma_sym_val(c3 as int);
    let e = enc_group(g);
    if g.len() == 1 {
        assert(dec_group(e) == Some(seq![g[0]]));
        assert(g =~= seq![g[0]]);
    } else if g.len() == 2 {
        assert(dec_group(e) == Some(seq![g[0], g[1]]));
        assert(g =~= seq![g[0], g[1]]);
    } else {
        assert(dec_group(e) == Some(seq![g[0], g[1], g[2]]));
        assert(g =~= seq![g[0], g[1], g[2]]);
    }
}

/// base64url decoding undoes base64url encoding.
pub proof fn lemma_b64_roundtrip(d: Seq<u8>)
    ensures
        b64_dec(b64_enc(d)) == Some(d),
        d.len() > 0 ==> b64_enc(d).len() >= 2,
        forall|k: int| 0 <= k < b64_enc(d).len() ==> b64_val(#[trigger] b64_enc(d)[k]) is Some,
    decreases d.len(),
{
    if d.len() == 0 {
        assert(d =~= Seq::<u8>::empty());
    } else if d.len() <= 3 {
        lemma_group_roundtrip(d);
        let e = enc_group(d);
        assert(e.take(e.len() as int) =~= e);
    } else {
        let g = d.take(3);
        let rest = d.skip(3);
        lemma_group_roundtrip(g);
        lemma_b64_roundtrip(rest);
        let e = b64_enc(d);
        let ge = enc_group(g);
        assert(e == ge + b64_enc(rest));
        assert(e.take(4) =~= ge);
        assert(e.skip(4) =~= b64_enc(rest));
        assert(d =~= g + rest);
        assert forall|k: int| 0 <= k < e.len() implies b64_val(#[trigger] e[k]) is Some by {
            if k < 4 { assert(e[k] == ge[k]); } else { assert(e[k] == b64_enc(rest)[k - 4]); }
        }
    }
}

/// Reading an invite link gives back the host, the port and the room code (uppercased) it
/// was made from, when the code holds no colon.
pub proof fn lemma_invite_roundtrip(host: Seq<char>, port: u16, code: Seq<char>)
    requires !code.contains(':'),
    ensures invite_parts(invite_text(host, port, code)) == Some((host, port, str_uppercase(code))),
{
    broadcast use vstd::utf8::encode_utf8_valid_utf8, vstd::utf8::encode_utf8_decode_utf8;
    reveal_strlit("rc1:");
    let dp = dec_spec(port as nat);
    let payload = host + seq![':'] + dp + seq![':'] + code;
    let b = encode_utf8(payload);
    let e = b64_enc(b);
    let link = invite_text(host, port, code);
    lemma_b64_roundtrip(b);
    assert(b.len() > 0) by {
        if b.len() == 0 { assert(decode_utf8(b) =~= Seq::<char>::empty()); assert(payload.len() > 0); }
    }
    let ac = ascii_chars(e);
    assert(link =~= "rc1:"@ + ac);
    // the link is already trimmed
    assert(!is_ws_spec(link[0]));
    assert(!is_ws_spec(link.last())) by {
        let x = e[e.len() - 1];
        assert(b64_val(x) is Some);
        assert(link.last() == x as char);
    }
    lemma_trim_noop(link);
    assert(link.take(4) =~= "rc1:"@);
    assert(link.skip(4) =~= ac);
    // the base64 part is ASCII, so its UTF-8 bytes are the encoded bytes
    assert forall|k: int| 0 <= k < ac.len() implies '\0' <= #[trigger] ac[k] <= '\u{7f}' by {
        assert(b64_val(e[k]) is Some);
    }
    vstd::utf8::is_ascii_chars_encode_utf8(ac);
    assert forall|k: int| 0 <= k < e.len() implies #[trigger] encode_utf8(ac)[k] == e[k] by {
        assert(b64_val(e[k]) is Some);
        assert(ac[k] == e[k] as char);
    }
    assert(encode_utf8(ac) =~= e);
    // the text between the colons
    lemma_dec_digits(port as nat);
    assert(!dp.contains(':')) by {
        if dp.contains(':') { let k = choose|k: int| 0 <= k < dp.len() && dp[k] == ':'; assert(is_digit(dp[k])); }
    }
    let hd = host + seq![':'] + dp;
    assert(payload =~= hd + seq![':'] + code);
    lemma_rfind_before(hd, code, ':');
    let j = hd.len() as int;
    assert(payload.take(j) =~= hd);
    lemma_rfind_before(host, dp, ':');
    let i = host.len() as int;
    assert(payload.subrange(i + 1, j) =~= dp);
    assert(payload.take(i) =~= host);
    assert(payload.skip(j + 1) =~= code);
    lemma_parse_dec(port as nat, u16::MAX as nat);
}

// ── Rate limiting ────────────────────────────────────────────────────────────

/// Allows each key at most `max` connections per window.
pub struct RateLimiter {
    pub buckets: Buckets,
    pub max: u32,
    /// Window length in milliseconds.
    pub window_ms: u64,
    /// The moment the limiter's clock counts from.
    pub origin: std::time::Instant,
}

impl RateLimiter {
    pub fn new(max_per_window: u32, window_secs: u64) -> (r: RateLimiter)
        ensures
            r.buckets.view().len() == 0, r.max == max_per_window,
            r.window_ms == (if window_secs * 1000 > u64::MAX { u64::MAX as int } else { window_secs * 1000 }),
    {
        RateLimiter {
            buckets: Buckets::new(),
            max: max_per_window,
            window_ms: if window_secs > u64::MAX / 1000 { u64::MAX } else { window_secs * 1000 },
            origin: instant_now(),
        }
    }

    /// Records a connection from `key` at `now` milliseconds and says whether it is allowed.
    pub fn check_at(&mut self, key: &str, now: u64) -> (r: bool)
        ensures
            (final(self).buckets.view(), r) == hit_spec(old(self).buckets.view(), key@, now, old(self).window_ms, old(self).max),
            final(self).max == old(self).max, final(self).window_ms == old(self).window_ms,
    {
        self.buckets.hit(key, now, self.window_ms, self.max)
    }

    /// Records a connection from `key` now and says whether it is allowed.
    pub fn check(&mut self, key: &str) -> (r: bool)
        ensures
            exists|now: u64| (final(self).buckets.view(), r)
                == hit_spec(old(self).buckets.view(), key@, now, old(self).window_ms, old(self).max),
            final(self).max == old(self).max, final(self).window_ms == old(self).window_ms,
    {
        let now = elapsed_ms(&self.origin);
        self.check_at(key, now)
    }

    /// Forgets the keys whose window has ended.
    pub fn purge_expired(&mut self)
        ensures
            exists|now: u64| final(self).buckets.view() == old(self).buckets.view().filter(alive(now)),
            final(self).max == old(self).max, final(self).window_ms == old(self).window_ms,
    {
        let now = elapsed_ms(&self.origin);
        self.buckets.purge(now);
    }
}

} // verus!
