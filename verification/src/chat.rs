//! The chat panel of online games: its messages, input line and unread count, and the light
//! encryption of messages with a key derived from the room code.
use vstd::prelude::*;
use vstd::utf8::{encode_utf8, decode_utf8, valid_utf8};
use vstd::string::StrSliceExecFns;
use crate::text::{chars_of, push_char, push_str, push_chars, string_of, trim, owned, trim_spec};
use crate::num::push_dec;
use crate::auth::utf8_string;

verus! {

/// Who wrote a chat message.
#[derive(Clone, Copy, Debug, PartialEq, Eq, Structural)]
pub enum Sender {
    Me,
    Opponent,
    Server,
}

impl Sender {
    pub fn label(&self) -> (r: &'static str)
        ensures r@ == (match *self { Sender::Me => "You"@, Sender::Opponent => "Opp"@, Sender::Server => "Srv"@ }),
    {
        match self { Sender::Me => "You", Sender::Opponent => "Opp", Sender::Server => "Srv" }
    }
}

#[derive(Clone, Debug)]
pub struct ChatMsg {
    pub sender: Sender,
    pub text: String,
    pub tick: u64,
}

/// A chat message as plain values.
pub open spec fn msg_of(m: ChatMsg) -> (Sender, Seq<char>, u64) {
    (m.sender, m.text@, m.tick)
}

pub struct ChatState {
    pub messages: Vec<ChatMsg>,
    pub input: String,
    pub focused: bool,
    pub unread: usize,
    pub tick: u64,
    pub capacity: usize,
    /// Opponent display name shown in the chat header.
    pub opp_name: String,
}

/// A key press, as the chat panel tells keys apart.
#[derive(Clone, Copy, Debug, PartialEq, Eq, Structural)]
pub enum ChatKey {
    Esc,
    Enter,
    Backspace,
    Char(char),
    Other,
}

/// What a key press did.
#[derive(Debug)]
pub enum ChatKeyResult {
    /// Nothing to report.
    Ignored,
    /// The player sent this text.
    Send(String),
    Opened,
    Closed,
}

impl ChatState {
    pub open spec fn log(&self) -> Seq<(Sender, Seq<char>, u64)> {
        self.messages@.map_values(|m: ChatMsg| msg_of(m))
    }

    /// The log after adding `m`: the oldest message leaves first when the log is full.
    pub open spec fn log_after(&self, m: (Sender, Seq<char>, u64)) -> Seq<(Sender, Seq<char>, u64)> {
        (if self.messages@.len() >= self.capacity { self.log().drop_first() } else { self.log() }).push(m)
    }

    pub fn new() -> (c: ChatState)
        ensures
            c.log().len() == 0, c.input@.len() == 0, !c.focused, c.unread == 0, c.tick == 0,
            c.capacity == 300, c.opp_name@.len() == 0,
    {
        ChatState {
            messages: Vec::new(),
            input: String::new(),
            focused: false,
            unread: 0,
            tick: 0,
            capacity: 300,
            opp_name: String::new(),
        }
    }

    /// One more tick of the game loop.
    pub fn tick(&mut self)
        ensures
            final(self).tick == vstd::wrapping::u64_specs::wrapping_add(old(self).tick, 1),
            final(self).log() == old(self).log(), final(self).unread == old(self).unread,
            final(self).focused == old(self).focused, final(self).capacity == old(self).capacity,
    {
        self.tick = self.tick.wrapping_add(1);
    }

    /// Empties the chat for a new game.
    pub fn clear(&mut self)
        ensures
            final(self).log().len() == 0, final(self).input@.len() == 0, !final(self).focused,
            final(self).unread == 0, final(self).tick == 0, final(self).opp_name@.len() == 0,
            final(self).capacity == old(self).capacity,
    {
        self.messages = Vec::new();
        self.input = String::new();
        self.focused = false;
        self.unread = 0;
        self.tick = 0;
        self.opp_name = String::new();
    }

    fn push(&mut self, sender: Sender, text: String, tick: u64)
        requires old(self).capacity > 0 || old(self).messages@.len() > 0,
        ensures
            final(self).log() == old(self).log_after((sender, text@, tick)),
            final(self).input == old(self).input, final(self).focused == old(self).focused,
            final(self).unread == old(self).unread, final(self).tick == old(self).tick,
            final(self).capacity == old(self).capacity, final(self).opp_name == old(self).opp_name,
    {
        let ghost l0 = self.log();
        if self.messages.len() >= self.capacity {
            self.messages.remove(0);
            assert(self.log() =~= l0.drop_first());
        }
        let ghost l1 = self.log();
        self.messages.push(ChatMsg { sender, text, tick });
        assert(self.log() =~= l1.push((sender, text@, tick)));
    }

    /// A message from the opponent; unread while the panel is closed.
    pub fn push_opponent(&mut self, text: String)
        requires old(self).capacity > 0 || old(self).messages@.len() > 0,
        ensures
            final(self).log() == old(self).log_after((Sender::Opponent, text@, old(self).tick)),
            final(self).unread == (if old(self).focused { old(self).unread as int }
                else { vstd::wrapping::usize_specs::wrapping_add(old(self).unread, 1) as int }),
            final(self).focused == old(self).focused, final(self).capacity == old(self).capacity,
            final(self).input == old(self).input, final(self).opp_name == old(self).opp_name,
            final(self).tick == old(self).tick,
    {
        let t = self.tick;
        self.push(Sender::Opponent, text, t);
        if !self.focused {
            self.unread = self.unread.wrapping_add(1);
        }
    }

    /// A message from the server; unread while the panel is closed.
    pub fn push_server(&mut self, text: String)
        requires old(self).capacity > 0 || old(self).messages@.len() > 0,
        ensures
            final(self).log() == old(self).log_after((Sender::Server, text@, old(self).tick)),
            final(self).unread == (if old(self).focused { old(self).unread as int }
                else { vstd::wrapping::usize_specs::wrapping_add(old(self).unread, 1) as int }),
            final(self).focused == old(self).focused, final(self).capacity == old(self).capacity,
            final(self).input == old(self).input, final(self).opp_name == old(self).opp_name,
            final(self).tick == old(self).tick,
    {
        let t = self.tick;
        self.push(Sender::Server, text, t);
        if !self.focused {
            self.unread = self.unread.wrapping_add(1);
        }
    }

    /// A message of ours.
    pub fn push_me(&mut self, text: String)
        requires old(self).capacity > 0 || old(self).messages@.len() > 0,
        ensures
            final(self).log() == old(self).log_after((Sender::Me, text@, old(self).tick)),
            final(self).unread == old(self).unread, final(self).focused == old(self).focused,
            final(self).capacity == old(self).capacity,
            final(self).input == old(self).input, final(self).opp_name == old(self).opp_name,
            final(self).tick == old(self).tick,
    {
        let t = self.tick;
        self.push(Sender::Me, text, t);
    }

    /// A message replayed from the room's history on rejoin: at tick 0, never unread.
    pub fn push_history(&mut self, sender: Sender, text: String)
        requires old(self).capacity > 0 || old(self).messages@.len() > 0,
        ensures
            final(self).log() == old(self).log_after((sender, text@, 0u64)),
            final(self).unread == old(self).unread, final(self).focused == old(self).focused,
            final(self).capacity == old(self).capacity,
            final(self).input == old(self).input, final(self).opp_name == old(self).opp_name,
            final(self).tick == old(self).tick,
    {
        self.push(sender, text, 0);
    }

    /// Focuses the panel; everything counts as read.
    pub fn open(&mut self)
        ensures final(self).focused, final(self).unread == 0, final(self).log() == old(self).log(),
            final(self).input == old(self).input, final(self).capacity == old(self).capacity,
    {
        self.focused = true;
        self.unread = 0;
    }

    pub fn close(&mut self)
        ensures !final(self).focused, final(self).unread == old(self).unread, final(self).log() == old(self).log(),
            final(self).input == old(self).input, final(self).capacity == old(self).capacity,
    {
        self.focused = false;
    }

    pub fn toggle(&mut self)
        ensures
            final(self).focused == !old(self).focused,
            final(self).unread == (if old(self).focused { old(self).unread } else { 0 }),
            final(self).log() == old(self).log(), final(self).capacity == old(self).capacity,
    {
        if self.focused { self.close(); } else { self.open(); }
    }

    pub fn has_unread(&self) -> (r: bool)
        ensures r == (self.unread > 0),
    {
        self.unread > 0
    }

    /// The badge beside the chat's title: the unread count, or `[chat]` once there are messages.
    pub fn badge(&self) -> (s: String)
        ensures
            s@ == (if self.unread > 0 { " ["@ + crate::num::dec_spec(self.unread as nat) + "]"@ }
                else if self.messages@.len() > 0 { " [chat]"@ } else { Seq::empty() }),
    {
        if self.unread > 0 {
            let mut s = owned(" [");
            push_dec(&mut s, self.unread as u64);
            push_str(&mut s, "]");
            s
        } else if self.messages.len() > 0 {
            owned(" [chat]")
        } else {
            String::new()
        }
    }

    /// A key press: while focused, `Esc` closes, `Enter` sends the trimmed input (when not
    /// empty) and clears it, `Backspace` deletes, a character is typed while the input is
    /// under 400 bytes; while unfocused, `c` or `C` opens the panel.
    pub fn handle_key(&mut self, key: ChatKey) -> (r: ChatKeyResult)
        ensures
            final(self).log() == old(self).log(), final(self).capacity == old(self).capacity,
            old(self).focused ==> match key {
                ChatKey::Esc => r is Closed && !final(self).focused && final(self).input == old(self).input,
                ChatKey::Enter => if trim_spec(old(self).input@).len() == 0 {
                        r is Ignored && final(self).input@ == old(self).input@ && final(self).focused
                    } else {
                        r matches ChatKeyResult::Send(t) && t@ == trim_spec(old(self).input@)
                            && final(self).input@.len() == 0 && final(self).focused
                    },
                ChatKey::Backspace => r is Ignored && final(self).focused && final(self).input@ == (
                        if old(self).input@.len() > 0 { old(self).input@.drop_last() } else { old(self).input@ }),
                ChatKey::Char(c) => r is Ignored && final(self).focused && final(self).input@ == (
                        if encode_utf8(old(self).input@).len() < 400 { old(self).input@.push(c) } else { old(self).input@ }),
                ChatKey::Other => r is Ignored && final(self).focused && final(self).input == old(self).input,
            },
            !old(self).focused ==> (if key == ChatKey::Char('c') || key == ChatKey::Char('C') {
                    r is Opened && final(self).focused && final(self).unread == 0
                } else {
                    r is Ignored && !final(self).focused && final(self).unread == old(self).unread
                }) && final(self).input == old(self).input,
    {
        if self.focused {
            match key {
                ChatKey::Esc => {
                    self.close();
                    ChatKeyResult::Closed
                },
                ChatKey::Enter => {
                    let cs = chars_of(self.input.as_str());
                    let t = trim(&cs);
                    if t.len() == 0 {
                        return ChatKeyResult::Ignored;
                    }
                    self.input = String::new();
                    ChatKeyResult::Send(string_of(&t))
                },
                ChatKey::Backspace => {
                    let mut cs = chars_of(self.input.as_str());
                    if cs.len() > 0 {
                        cs.pop();
                    }
                    self.input = string_of(&cs);
                    ChatKeyResult::Ignored
                },
                ChatKey::Char(c) => {
                    if self.input.as_str().as_bytes().len() < 400 {
                        push_char(&mut self.input, c);
                    }
                    ChatKeyResult::Ignored
                },
                ChatKey::Other => ChatKeyResult::Ignored,
            }
        } else {
            match key {
                ChatKey::Char(c) => {
                    if c == 'c' || c == 'C' {
                        self.open();
                        ChatKeyResult::Opened
                    } else {
                        ChatKeyResult::Ignored
                    }
                },
                _ => ChatKeyResult::Ignored,
            }
        }
    }
}

// ── Encryption: XOR with a key derived from the room code, written in hex ────

pub open spec fn key_state(src: Seq<u8>, i: nat) -> u64
    decreases i,
{
    if i == 0 {
        0x9e3779b97f4a7c15u64
    } else {
        let h = key_state(src, (i - 1) as nat);
        let b = src[((i - 1) as int) % (src.len() as int)] as u64;
        vstd::wrapping::u64_specs::wrapping_add(vstd::wrapping::u64_specs::wrapping_mul(h, 0x6c62272e07bb0142u64),
            b ^ vstd::wrapping::u64_specs::wrapping_mul((i - 1) as u64, 0x2545f4914f6cdd1du64))
    }
}

/// The 32-byte key of a room code's bytes `src`.
pub open spec fn key_spec(src: Seq<u8>) -> Seq<u8> {
    Seq::new(32, |i: int| {
        let h = key_state(src, (i + 1) as nat);
        (h ^ (h >> 32u64)) as u8
    })
}

/// The key of a room code (which must not be empty).
pub fn derive_key(room_code: &str) -> (key: [u8; 32])
    requires room_code@.len() > 0,
    ensures key@ == key_spec(encode_utf8(room_code@)),
{
    let src = room_code.as_bytes_vec();
    assert(src@.len() > 0) by {
        broadcast use vstd::utf8::encode_utf8_decode_utf8;
        if src@.len() == 0 { assert(decode_utf8(src@) =~= Seq::<char>::empty()); }
    }
    let mut key = [0u8; 32];
    let mut h: u64 = 0x9e3779b97f4a7c15;
    let mut i: usize = 0;
    while i < 32
        invariant
            i <= 32, src@ == encode_utf8(room_code@), src@.len() > 0,
            h == key_state(src@, i as nat),
            forall|j: int| 0 <= j < i ==> key@[j] == key_spec(src@)[j],
        decreases 32 - i,
    {
        let b = src[i % src.len()];
        h = h.wrapping_mul(0x6c62272e07bb0142).wrapping_add((b as u64) ^ (i as u64).wrapping_mul(0x2545f4914f6cdd1d));
        key[i] = (h ^ (h >> 32)) as u8;
        i += 1;
    }
    assert(key@ =~= key_spec(src@));
    key
}

/// The lowercase hex digit of a value below 16.
pub open spec fn hexd(v: int) -> char {
    if v < 10 { (48 + v) as char } else { (87 + v) as char }
}

/// Each byte as two lowercase hex digits, as `{:02x}` writes it.
pub open spec fn hex_pairs(xs: Seq<u8>) -> Seq<char>
    decreases xs.len(),
{
    if xs.len() == 0 { Seq::empty() } else { hex_pairs(xs.drop_last()) + seq![hexd(xs.last() as int / 16), hexd(xs.last() as int % 16)] }
}

/// Each byte XORed with the key byte at its position modulo 32.
pub open spec fn xored(b: Seq<u8>, k: Seq<u8>) -> Seq<u8> {
    Seq::new(b.len(), |i: int| b[i] ^ k[i % 32])
}

/// The chat text as sent: unchanged without a room code, else the XOR of its UTF-8 bytes
/// with the room's key, in hex.
pub open spec fn encrypt_spec(plaintext: Seq<char>, code: Seq<char>) -> Seq<char> {
    if code.len() == 0 { plaintext } else { hex_pairs(xored(encode_utf8(plaintext), key_spec(encode_utf8(code)))) }
}

pub fn encrypt(plaintext: &str, room_code: &str) -> (s: String)
    ensures s@ == encrypt_spec(plaintext@, room_code@),
{
    if room_code.as_bytes().len() == 0 {
        proof {
            broadcast use vstd::utf8::encode_utf8_decode_utf8;
            assert(decode_utf8(encode_utf8(room_code@)) == room_code@);
            assert(encode_utf8(room_code@) =~= Seq::<u8>::empty());
            assert(room_code@ =~= Seq::<char>::empty());
        }
        return owned(plaintext);
    }
    proof {
        if room_code@.len() == 0 { assert(encode_utf8(room_code@) =~= Seq::<u8>::empty()); }
    }
    let key = derive_key(room_code);
    let b = plaintext.as_bytes_vec();
    let ghost x = xored(b@, key@);
    let mut s = String::new();
    let mut i: usize = 0;
    assert(x.take(0) =~= Seq::<u8>::empty());
    while i < b.len()
        invariant
            i <= b@.len(), x == xored(b@, key@), key@.len() == 32,
            s@ == hex_pairs(x.take(i as int)),
        decreases b@.len() - i,
    {
        let v = b[i] ^ key[i % 32];
        assert(v == x[i as int]);
        let hi = v / 16;
        let lo = v % 16;
        push_char(&mut s, if hi < 10 { (48 + hi) as char } else { (87 + hi) as char });
        push_char(&mut s, if lo < 10 { (48 + lo) as char } else { (87 + lo) as char });
        assert(x.take(i + 1).drop_last() =~= x.take(i as int));
        i += 1;
    }
    assert(x.take(b@.len() as int) =~= x);
    s
}

/// The value of a hex digit byte, or 255.
pub open spec fn nibble_spec(b: u8) -> u8 {
    if 48 <= b <= 57 { (b - 48) as u8 } else if 97 <= b <= 102 { (b - 87) as u8 } else if 65 <= b <= 70 { (b - 55) as u8 } else { 255 }
}

pub fn hex_nibble(b: u8) -> (r: u8)
    ensures r == nibble_spec(b),
{
    if 48 <= b && b <= 57 { b - 48 } else if 97 <= b && b <= 102 { b - 87 } else if 65 <= b && b <= 70 { b - 55 } else { 255 }
}

pub open spec fn is_hex_char(c: char) -> bool {
    ('0' <= c <= '9') || ('a' <= c <= 'f') || ('A' <= c <= 'F')
}

/// Text that reads as a decrypted chat message: each character printable or a tab.
pub open spec fn printable(s: Seq<char>) -> bool {
    forall|i: int| 0 <= i < s.len() ==> s[i] >= ' ' || s[i] == '\t'
}

/// The bytes that hex text `h` (even length, hex digits) writes.
pub open spec fn unhex(h: Seq<char>) -> Seq<u8> {
    Seq::new(h.len() / 2, |i: int| (nibble_spec(h[2 * i] as u8) * 16 + nibble_spec(h[2 * i + 1] as u8)) as u8)
}

/// A chat text as received: with a room code, hex text of even length that decrypts to
/// printable UTF-8 gives that text; anything else is shown as it came.
pub open spec fn decrypt_spec(hex: Seq<char>, code: Seq<char>) -> Seq<char> {
    if code.len() > 0 && hex.len() >= 2 && hex.len() % 2 == 0 && (forall|i: int| 0 <= i < hex.len() ==> is_hex_char(#[trigger] hex[i])) {
        let out = xored(unhex(hex), key_spec(encode_utf8(code)));
        if valid_utf8(out) && decode_utf8(out).len() > 0 && printable(decode_utf8(out)) { decode_utf8(out) } else { hex }
    } else {
        hex
    }
}

pub fn decrypt(hex: &str, room_code: &str) -> (r: Option<String>)
    ensures r matches Some(s) && s@ == decrypt_spec(hex@, room_code@),
{
    let hc = chars_of(hex);
    let code_c = chars_of(room_code);
    if code_c.len() == 0 {
        return Some(owned(hex));
    }
    if !(hc.len() >= 2 && hc.len() % 2 == 0) {
        return Some(owned(hex));
    }
    let mut k: usize = 0;
    while k < hc.len()
        invariant k <= hc@.len(), hc@ == hex@, forall|j: int| 0 <= j < k ==> is_hex_char(#[trigger] hc@[j]),
        decreases hc@.len() - k,
    {
        let c = hc[k];
        if !(('0' <= c && c <= '9') || ('a' <= c && c <= 'f') || ('A' <= c && c <= 'F')) {
            return Some(owned(hex));
        }
        k += 1;
    }
    let key = derive_key(room_code);
    let mut out: Vec<u8> = Vec::new();
    let ghost u = unhex(hc@);
    let mut i: usize = 0;
    while i + 1 < hc.len()
        invariant
            i % 2 == 0, i <= hc@.len(), hc@.len() % 2 == 0, hc@ == hex@, u == unhex(hc@), key@.len() == 32,
            key@ == key_spec(encode_utf8(room_code@)),
            forall|j: int| 0 <= j < hc@.len() ==> is_hex_char(#[trigger] hc@[j]),
            out@ == xored(u, key@).take(i as int / 2),
        decreases hc@.len() - i,
    {
        let hi = hex_nibble(hc[i] as u8);
        let lo = hex_nibble(hc[i + 1] as u8);
        assert(is_hex_char(hc@[i as int]) && is_hex_char(hc@[i + 1]));
        assert(hi < 16 && lo < 16);
        let byte = (hi << 4) | lo;
        assert(byte == hi * 16 + lo) by (bit_vector) requires hi < 16, lo < 16, byte == (hi << 4) | lo;
        assert(u[i as int / 2] == byte);
        let ghost before = out@;
        out.push(byte ^ key[(i / 2) % 32]);
        assert(out@ =~= xored(u, key@).take(i as int / 2 + 1));
        i += 2;
    }
    assert(out@ =~= xored(u, key@));
    let ghost ov = out@;
    match utf8_string(out) {
        Some(s) => {
            let sc = chars_of(s.as_str());
            if sc.len() > 0 && all_printable(&sc) {
                return Some(s);
            }
            Some(owned(hex))
        },
        None => Some(owned(hex)),
    }
}

fn all_printable(s: &Vec<char>) -> (r: bool)
    ensures r == printable(s@),
{
    let mut i: usize = 0;
    while i < s.len()
        invariant i <= s@.len(), forall|j: int| 0 <= j < i ==> s@[j] >= ' ' || s@[j] == '\t',
        decreases s@.len() - i,
    {
        if !(s[i] >= ' ' || s[i] == '\t') {
            return false;
        }
        i += 1;
    }
    true
}

proof fn lemma_hex_pairs(xs: Seq<u8>)
    ensures
        hex_pairs(xs).len() == 2 * xs.len(),
        forall|i: int| 0 <= i < xs.len() ==> hex_pairs(xs)[2 * i] == hexd(xs[i] as int / 16)
            && hex_pairs(xs)[2 * i + 1] == hexd(xs[i] as int % 16),
    decreases xs.len(),
{
    if xs.len() > 0 {
        lemma_hex_pairs(xs.drop_last());
        assert forall|i: int| 0 <= i < xs.len() implies hex_pairs(xs)[2 * i] == hexd(xs[i] as int / 16)
            && hex_pairs(xs)[2 * i + 1] == hexd(xs[i] as int % 16) by {
            if i < xs.len() - 1 { assert(xs[i] == xs.drop_last()[i]); }
        }
    }
}

proof fn lemma_hexd(v: int)
    requires 0 <= v < 16,
    ensures is_hex_char(hexd(v)), nibble_spec(hexd(v) as u8) == v,
{
}

/// Decrypting an encrypted message gives it back, when it is empty or printable (or there is
/// no room code).
pub proof fn lemma_chat_roundtrip(p: Seq<char>, code: Seq<char>)
    requires code.len() == 0 || p.len() == 0 || printable(p),
    ensures decrypt_spec(encrypt_spec(p, code), code) == p,
{
    broadcast use vstd::utf8::encode_utf8_valid_utf8, vstd::utf8::encode_utf8_decode_utf8;
    if code.len() > 0 {
        let b = encode_utf8(p);
        let k = key_spec(encode_utf8(code));
        let x = xored(b, k);
        let h = hex_pairs(x);
        lemma_hex_pairs(x);
        if b.len() == 0 {
            assert(p =~= decode_utf8(b));
            assert(decode_utf8(b) =~= Seq::<char>::empty());
        } else {
            assert forall|i: int| 0 <= i < h.len() implies is_hex_char(#[trigger] h[i]) by {
                let j = i / 2;
                assert(x[j] as int / 16 < 16);
                lemma_hexd(x[j] as int / 16);
                lemma_hexd(x[j] as int % 16);
                if i % 2 == 0 { assert(h[2 * j] == h[i]); } else { assert(h[2 * j + 1] == h[i]); }
            }
            assert(unhex(h) =~= x) by {
                assert forall|i: int| 0 <= i < x.len() implies #[trigger] unhex(h)[i] == x[i] by {
                    let v = x[i];
                    lemma_hexd(v as int / 16);
                    lemma_hexd(v as int % 16);
                    assert(((v / 16) * 16 + v % 16) as u8 == v) by (bit_vector);
                }
            }
            assert(xored(x, k) =~= b) by {
                assert forall|i: int| 0 <= i < b.len() implies #[trigger] xored(x, k)[i] == b[i] by {
                    let bi = b[i];
                    let ki = k[i % 32];
                    assert((bi ^ ki) ^ ki == bi) by (bit_vector);
                }
            }
            assert(p.len() > 0);
        }
    }
}

} // verus!
