//! Small string helpers over `String`, stated on the character sequence.
use vstd::prelude::*;

verus! {

/// Appends one character: calls `String::push`, which (per std's documentation)
/// appends the given `char` to the end of the string.
#[verifier::external_body]
pub(crate) fn push_char(s: &mut String, c: char)
    ensures final(s)@ == old(s)@.push(c),
{
    s.push(c);
}

/// Appends a string slice: calls `String::push_str`, which (per std's documentation)
/// appends the given slice to the end of the string.
#[verifier::external_body]
pub(crate) fn push_str(s: &mut String, t: &str)
    ensures final(s)@ == old(s)@ + t@,
{
    s.push_str(t);
}

/// An owned copy of `t`.
pub fn owned(t: &str) -> (s: String)
    ensures s@ == t@,
{
    let mut s = String::new();
    push_str(&mut s, t);
    s
}

/// The characters of `s`.
pub fn chars_of(s: &str) -> (v: Vec<char>)
    ensures v@ == s@,
{
    broadcast use vstd::string::group_string_axioms;
    let mut v: Vec<char> = Vec::new();
    for ch in it: s.chars()
        invariant
            v@ == it.seq().take(it.index() as int),
    {
        v.push(ch);
    }
    v
}

/// Unicode White_Space, as `char::is_whitespace` defines it.
pub open spec fn is_ws_spec(c: char) -> bool {
    let u = c as int;
    u == 0x20 || (0x09 <= u <= 0x0d) || u == 0x85 || u == 0xa0 || u == 0x1680 || (0x2000 <= u <= 0x200a)
        || u == 0x2028 || u == 0x2029 || u == 0x202f || u == 0x205f || u == 0x3000
}

pub fn is_ws(c: char) -> (r: bool)
    ensures r == is_ws_spec(c),
{
    let u = c as u32;
    u == 0x20 || (0x09 <= u && u <= 0x0d) || u == 0x85 || u == 0xa0 || u == 0x1680 || (0x2000 <= u && u <= 0x200a)
        || u == 0x2028 || u == 0x2029 || u == 0x202f || u == 0x205f || u == 0x3000
}

/// `s` without leading whitespace.
pub open spec fn trim_start_spec(s: Seq<char>) -> Seq<char>
    decreases s.len(),
{
    if s.len() > 0 && is_ws_spec(s[0]) { trim_start_spec(s.drop_first()) } else { s }
}

/// `s` without trailing whitespace.
pub open spec fn trim_end_spec(s: Seq<char>) -> Seq<char>
    decreases s.len(),
{
    if s.len() > 0 && is_ws_spec(s.last()) { trim_end_spec(s.drop_last()) } else { s }
}

/// `str::trim`: leading and trailing whitespace removed.
pub open spec fn trim_spec(s: Seq<char>) -> Seq<char> {
    trim_end_spec(trim_start_spec(s))
}

/// `trim_end_matches(c)`: every trailing `c` removed.
pub open spec fn strip_end_spec(s: Seq<char>, c: char) -> Seq<char>
    decreases s.len(),
{
    if s.len() > 0 && s.last() == c { strip_end_spec(s.drop_last(), c) } else { s }
}

pub fn trim_start(s: &Vec<char>) -> (r: Vec<char>)
    ensures r@ == trim_start_spec(s@),
{
    let mut i: usize = 0;
    assert(s@.skip(0) =~= s@);
    while i < s.len() && is_ws(s[i])
        invariant
            i <= s@.len(),
            trim_start_spec(s@) == trim_start_spec(s@.skip(i as int)),
        decreases s@.len() - i,
    {
        assert(s@.skip(i as int).drop_first() =~= s@.skip(i + 1));
        i += 1;
    }
    let mut r: Vec<char> = Vec::new();
    let mut j: usize = i;
    while j < s.len()
        invariant
            i <= j <= s@.len(),
            r@ == s@.subrange(i as int, j as int),
        decreases s@.len() - j,
    {
        r.push(s[j]);
        j += 1;
    }
    assert(r@ =~= s@.skip(i as int));
    r
}

pub fn trim_end(s: &Vec<char>) -> (r: Vec<char>)
    ensures r@ == trim_end_spec(s@),
{
    let mut n: usize = s.len();
    assert(s@.take(n as int) =~= s@);
    while n > 0 && is_ws(s[n - 1])
        invariant
            n <= s@.len(),
            trim_end_spec(s@) == trim_end_spec(s@.take(n as int)),
        decreases n,
    {
        assert(s@.take(n as int).drop_last() =~= s@.take(n - 1));
        n -= 1;
    }
    let mut r: Vec<char> = Vec::new();
    let mut j: usize = 0;
    while j < n
        invariant
            j <= n <= s@.len(),
            r@ == s@.take(j as int),
        decreases n - j,
    {
        r.push(s[j]);
        assert(s@.take(j + 1) =~= s@.take(j as int).push(s@[j as int]));
        j += 1;
    }
    assert(s@.take(n as int) =~= trim_end_spec(s@.take(n as int)));
    r
}

pub fn trim(s: &Vec<char>) -> (r: Vec<char>)
    ensures r@ == trim_spec(s@),
{
    let a = trim_start(s);
    trim_end(&a)
}

pub fn strip_end(s: &Vec<char>, c: char) -> (r: Vec<char>)
    ensures r@ == strip_end_spec(s@, c),
{
    let mut n: usize = s.len();
    assert(s@.take(n as int) =~= s@);
    while n > 0 && s[n - 1] == c
        invariant
            n <= s@.len(),
            strip_end_spec(s@, c) == strip_end_spec(s@.take(n as int), c),
        decreases n,
    {
        assert(s@.take(n as int).drop_last() =~= s@.take(n - 1));
        n -= 1;
    }
    let mut r: Vec<char> = Vec::new();
    let mut j: usize = 0;
    while j < n
        invariant
            j <= n <= s@.len(),
            r@ == s@.take(j as int),
        decreases n - j,
    {
        r.push(s[j]);
        assert(s@.take(j + 1) =~= s@.take(j as int).push(s@[j as int]));
        j += 1;
    }
    r
}

/// A `String` holding the characters of `v`.
pub fn string_of(v: &Vec<char>) -> (s: String)
    ensures s@ == v@,
{
    let mut s = String::new();
    let mut i: usize = 0;
    while i < v.len()
        invariant
            i <= v@.len(),
            s@ == v@.take(i as int),
        decreases v@.len() - i,
    {
        push_char(&mut s, v[i]);
        assert(v@.take(i + 1) =~= v@.take(i as int).push(v@[i as int]));
        i += 1;
    }
    assert(v@.take(v@.len() as int) =~= v@);
    s
}

/// Appends the characters of `v`.
pub fn push_chars(s: &mut String, v: &Vec<char>)
    ensures final(s)@ == old(s)@ + v@,
{
    let ghost s0 = s@;
    let mut i: usize = 0;
    while i < v.len()
        invariant
            i <= v@.len(),
            s@ == s0 + v@.take(i as int),
        decreases v@.len() - i,
    {
        push_char(s, v[i]);
        assert(v@.take(i + 1) =~= v@.take(i as int).push(v@[i as int]));
        i += 1;
    }
    assert(v@.take(v@.len() as int) =~= v@);
}

/// The words of `s` (maximal runs of non-whitespace), scanning from index `i` with the current
/// word `cur` and the words `acc` found so far, as `str::split_whitespace` yields them.
pub open spec fn words_from(s: Seq<char>, i: int, cur: Seq<char>, acc: Seq<Seq<char>>) -> Seq<Seq<char>>
    decreases s.len() - i,
{
    if i >= s.len() {
        if cur.len() > 0 { acc.push(cur) } else { acc }
    } else if is_ws_spec(s[i]) {
        words_from(s, i + 1, Seq::empty(), if cur.len() > 0 { acc.push(cur) } else { acc })
    } else {
        words_from(s, i + 1, cur.push(s[i]), acc)
    }
}

pub open spec fn words_spec(s: Seq<char>) -> Seq<Seq<char>> {
    words_from(s, 0, Seq::empty(), Seq::empty())
}

pub fn words(s: &Vec<char>) -> (w: Vec<Vec<char>>)
    ensures w.deep_view() == words_spec(s@),
{
    let mut w: Vec<Vec<char>> = Vec::new();
    let mut cur: Vec<char> = Vec::new();
    let mut i: usize = 0;
    assert(w.deep_view() =~= Seq::<Seq<char>>::empty());
    assert(cur@ =~= Seq::<char>::empty());
    while i < s.len()
        invariant
            i <= s@.len(),
            words_spec(s@) == words_from(s@, i as int, cur@, w.deep_view()),
        decreases s@.len() - i,
    {
        if is_ws(s[i]) {
            if cur.len() > 0 {
                let ghost wd = w.deep_view();
                assert(cur.deep_view() =~= cur@);
                w.push(cur);
                assert(w.deep_view() =~= wd.push(cur@));
                cur = Vec::new();
            } else {
                cur = Vec::new();
            }
            assert(cur@ =~= Seq::<char>::empty());
        } else {
            cur.push(s[i]);
        }
        i += 1;
    }
    if cur.len() > 0 {
        let ghost wd = w.deep_view();
        assert(cur.deep_view() =~= cur@);
        w.push(cur);
        assert(w.deep_view() =~= wd.push(cur@));
    }
    w
}

/// The lines of `s` as `str::lines` yields them: split after each `'\n'`, with that
/// `'\n'` and then one `'\r'` before it dropped; a last line without `'\n'` is kept as it is.
pub open spec fn lines_from(s: Seq<char>, i: int, cur: Seq<char>, acc: Seq<Seq<char>>) -> Seq<Seq<char>>
    decreases s.len() - i,
{
    if i >= s.len() {
        if cur.len() > 0 { acc.push(cur) } else { acc }
    } else if s[i] == '\n' {
        lines_from(s, i + 1, Seq::empty(),
            acc.push(if cur.len() > 0 && cur.last() == '\r' { cur.drop_last() } else { cur }))
    } else {
        lines_from(s, i + 1, cur.push(s[i]), acc)
    }
}

pub open spec fn lines_spec(s: Seq<char>) -> Seq<Seq<char>> {
    lines_from(s, 0, Seq::empty(), Seq::empty())
}

/// Lines, each followed by a line break.
pub open spec fn join_lines(ls: Seq<Seq<char>>) -> Seq<char>
    decreases ls.len(),
{
    if ls.len() == 0 { Seq::empty() } else { ls[0] + seq!['\n'] + join_lines(ls.drop_first()) }
}

/// A line that reads back as itself: no line break in it and no `'\r'` at its end.
pub open spec fn plain_line(l: Seq<char>) -> bool {
    !l.contains('\n') && !(l.len() > 0 && l.last() == '\r')
}

pub open spec fn strip_cr(l: Seq<char>) -> Seq<char> {
    if l.len() > 0 && l.last() == '\r' { l.drop_last() } else { l }
}

proof fn lemma_lines_step(s: Seq<char>, i: int, cur: Seq<char>, acc: Seq<Seq<char>>, t: Seq<char>)
    requires
        0 <= i, i + t.len() < s.len(), s.subrange(i, i + t.len()) == t, s[i + t.len()] == '\n', !t.contains('\n'),
    ensures
        lines_from(s, i, cur, acc) == lines_from(s, i + t.len() + 1, Seq::empty(), acc.push(strip_cr(cur + t))),
    decreases t.len(),
{
    if t.len() == 0 {
        assert(cur + t =~= cur);
    } else {
        assert(s[i] == s.subrange(i, i + t.len())[0]);
        assert(s[i] != '\n') by { assert(t.contains(t[0])); }
        let t2 = t.drop_first();
        assert(s.subrange(i + 1, i + 1 + t2.len()) =~= t2) by {
            assert forall|k: int| 0 <= k < t2.len() implies s.subrange(i + 1, i + 1 + t2.len())[k] == t2[k] by {
                assert(s.subrange(i, i + t.len())[k + 1] == t[k + 1]);
            }
        }
        assert(!t2.contains('\n')) by {
            if t2.contains('\n') { let k = choose|k: int| 0 <= k < t2.len() && t2[k] == '\n'; assert(t[k + 1] == '\n'); }
        }
        lemma_lines_step(s, i + 1, cur.push(s[i]), acc, t2);
        assert(cur.push(s[i]) + t2 =~= cur + t);
    }
}

proof fn lemma_lines_join_from(s: Seq<char>, i: int, acc: Seq<Seq<char>>, ls: Seq<Seq<char>>)
    requires
        0 <= i <= s.len(), s.skip(i) == join_lines(ls),
        forall|k: int| 0 <= k < ls.len() ==> plain_line(#[trigger] ls[k]),
    ensures
        lines_from(s, i, Seq::empty(), acc) == acc + ls,
    decreases ls.len(),
{
    if ls.len() == 0 {
        assert(acc + ls =~= acc);
    } else {
        let t = ls[0];
        assert(plain_line(t));
        let rest = join_lines(ls.drop_first());
        assert(s.skip(i) == t + seq!['\n'] + rest);
        assert(s.subrange(i, i + t.len()) =~= t) by {
            assert forall|k: int| 0 <= k < t.len() implies s.subrange(i, i + t.len())[k] == t[k] by {
                assert(s.skip(i)[k] == (t + seq!['\n'] + rest)[k]);
            }
        }
        assert(s[i + t.len()] == '\n') by { assert(s.skip(i)[t.len() as int] == (t + seq!['\n'] + rest)[t.len() as int]); }
        lemma_lines_step(s, i, Seq::empty(), acc, t);
        assert(Seq::<char>::empty() + t =~= t);
        assert(strip_cr(t) == t);
        assert(s.skip(i + t.len() + 1) =~= rest) by {
            assert forall|k: int| 0 <= k < rest.len() implies s.skip(i + t.len() + 1)[k] == rest[k] by {
                assert(s.skip(i)[t.len() + 1 + k] == (t + seq!['\n'] + rest)[t.len() + 1 + k]);
            }
        }
        assert forall|k: int| 0 <= k < ls.drop_first().len() implies plain_line(#[trigger] ls.drop_first()[k]) by {
            assert(ls.drop_first()[k] == ls[k + 1]);
        }
        lemma_lines_join_from(s, i + t.len() + 1, acc.push(t), ls.drop_first());
        assert(acc.push(t) + ls.drop_first() =~= acc + ls);
    }
}

/// Adding a line adds it and its line break to the text.
pub proof fn lemma_join_push(ls: Seq<Seq<char>>, l: Seq<char>)
    ensures join_lines(ls.push(l)) == join_lines(ls) + l + seq!['\n'],
    decreases ls.len(),
{
    if ls.len() == 0 {
        assert(ls.push(l).drop_first() =~= Seq::<Seq<char>>::empty());
        assert(join_lines(Seq::<Seq<char>>::empty()) == Seq::<char>::empty());
        assert(ls.push(l)[0] == l);
        assert(join_lines(ls.push(l)) == l + seq!['\n'] + join_lines(ls.push(l).drop_first()));
        assert(join_lines(ls.push(l)) =~= l + seq!['\n']);
        assert(join_lines(ls) + l + seq!['\n'] =~= l + seq!['\n']);
    } else {
        assert(ls.push(l).drop_first() =~= ls.drop_first().push(l));
        lemma_join_push(ls.drop_first(), l);
        assert(join_lines(ls.push(l)) =~= join_lines(ls) + l + seq!['\n']);
    }
}

/// Lines written one after another, each with its line break, read back as the same lines.
pub proof fn lemma_lines_join(ls: Seq<Seq<char>>)
    requires forall|k: int| 0 <= k < ls.len() ==> plain_line(#[trigger] ls[k]),
    ensures lines_spec(join_lines(ls)) == ls,
{
    let s = join_lines(ls);
    assert(s.skip(0) =~= s);
    lemma_lines_join_from(s, 0, Seq::empty(), ls);
    assert(Seq::<Seq<char>>::empty() + ls =~= ls);
}

pub fn lines(s: &Vec<char>) -> (w: Vec<Vec<char>>)
    ensures w.deep_view() == lines_spec(s@),
{
    let mut w: Vec<Vec<char>> = Vec::new();
    let mut cur: Vec<char> = Vec::new();
    let mut i: usize = 0;
    assert(w.deep_view() =~= Seq::<Seq<char>>::empty());
    assert(cur@ =~= Seq::<char>::empty());
    while i < s.len()
        invariant
            i <= s@.len(),
            lines_spec(s@) == lines_from(s@, i as int, cur@, w.deep_view()),
        decreases s@.len() - i,
    {
        if s[i] == '\n' {
            let ghost wd = w.deep_view();
            let ghost c0 = cur@;
            if cur.len() > 0 && cur[cur.len() - 1] == '\r' {
                cur.pop();
            }
            assert(cur.deep_view() =~= cur@);
            w.push(cur);
            assert(w.deep_view() =~= wd.push(if c0.len() > 0 && c0.last() == '\r' { c0.drop_last() } else { c0 }));
            cur = Vec::new();
            assert(cur@ =~= Seq::<char>::empty());
        } else {
            cur.push(s[i]);
        }
        i += 1;
    }
    if cur.len() > 0 {
        let ghost wd = w.deep_view();
        assert(cur.deep_view() =~= cur@);
        w.push(cur);
        assert(w.deep_view() =~= wd.push(cur@));
    }
    w
}

/// Whether `v` holds exactly the characters of `lit`.
pub fn eq_lit(v: &Vec<char>, lit: &str) -> (r: bool)
    ensures r == (v@ == lit@),
{
    let w = chars_of(lit);
    if v.len() != w.len() {
        return false;
    }
    let mut i: usize = 0;
    while i < v.len()
        invariant
            i <= v@.len(), v@.len() == w@.len(), w@ == lit@,
            forall|j: int| 0 <= j < i ==> v@[j] == w@[j],
        decreases v@.len() - i,
    {
        if v[i] != w[i] {
            return false;
        }
        i += 1;
    }
    assert(v@ =~= w@);
    true
}

/// Index of the first `c` in `s` at or after `i`, or `s.len()` where there is none.
pub open spec fn find_from(s: Seq<char>, c: char, i: int) -> int
    decreases s.len() - i,
{
    if i >= s.len() { s.len() as int } else if s[i] == c { i } else { find_from(s, c, i + 1) }
}

/// Index of the first `c` in `s`, or `s.len()` where there is none.
pub open spec fn find_char_spec(s: Seq<char>, c: char) -> int {
    find_from(s, c, 0)
}

pub fn find_char(s: &Vec<char>, c: char) -> (r: usize)
    ensures r == find_char_spec(s@, c), r <= s@.len(),
{
    let mut i: usize = 0;
    while i < s.len() && s[i] != c
        invariant
            i <= s@.len(),
            find_from(s@, c, 0) == find_from(s@, c, i as int),
        decreases s@.len() - i,
    {
        i += 1;
    }
    i
}

/// The characters of `s` from `a` up to `b`.
pub fn slice(s: &Vec<char>, a: usize, b: usize) -> (r: Vec<char>)
    requires a <= b <= s@.len(),
    ensures r@ == s@.subrange(a as int, b as int),
{
    let mut r: Vec<char> = Vec::new();
    let mut j: usize = a;
    while j < b
        invariant
            a <= j <= b, b <= s@.len(),
            r@ == s@.subrange(a as int, j as int),
        decreases b - j,
    {
        r.push(s[j]);
        j += 1;
    }
    r
}

/// `trim_start_matches(c)`: every leading `c` removed.
pub open spec fn strip_start_spec(s: Seq<char>, c: char) -> Seq<char>
    decreases s.len(),
{
    if s.len() > 0 && s[0] == c { strip_start_spec(s.drop_first(), c) } else { s }
}

/// `trim_matches(c)`: every leading and trailing `c` removed.
pub open spec fn strip_both_spec(s: Seq<char>, c: char) -> Seq<char> {
    strip_end_spec(strip_start_spec(s, c), c)
}

pub fn strip_both(s: &Vec<char>, c: char) -> (r: Vec<char>)
    ensures r@ == strip_both_spec(s@, c),
{
    let mut i: usize = 0;
    assert(s@.skip(0) =~= s@);
    while i < s.len() && s[i] == c
        invariant
            i <= s@.len(),
            strip_start_spec(s@, c) == strip_start_spec(s@.skip(i as int), c),
        decreases s@.len() - i,
    {
        assert(s@.skip(i as int).drop_first() =~= s@.skip(i + 1));
        i += 1;
    }
    let t = slice(s, i, s.len());
    assert(t@ =~= s@.skip(i as int));
    strip_end(&t, c)
}

/// `str::split(c)`: the pieces between the `c`s, empty ones included.
pub open spec fn split_spec(s: Seq<char>, c: char) -> Seq<Seq<char>>
    decreases s.len(),
{
    let e = find_char_spec(s, c);
    if e >= s.len() {
        seq![s]
    } else {
        proof { lemma_find_char_bounds(s, c); }
        seq![s.take(e)] + split_spec(s.skip(e + 1), c)
    }
}

pub proof fn lemma_find_from_bounds(s: Seq<char>, c: char, i: int)
    requires 0 <= i,
    ensures
        i <= s.len() ==> i <= find_from(s, c, i) <= s.len(),
        find_from(s, c, i) < s.len() ==> s[find_from(s, c, i)] == c,
    decreases s.len() - i,
{
    if i < s.len() && s[i] != c {
        lemma_find_from_bounds(s, c, i + 1);
    }
}

pub proof fn lemma_find_char_bounds(s: Seq<char>, c: char)
    ensures
        0 <= find_char_spec(s, c) <= s.len(),
        find_char_spec(s, c) < s.len() ==> s[find_char_spec(s, c)] == c,
{
    lemma_find_from_bounds(s, c, 0);
}

proof fn lemma_find_from_at(s: Seq<char>, c: char, i: int, k: int)
    requires 0 <= i <= k < s.len(), s[k] == c, forall|j: int| i <= j < k ==> s[j] != c,
    ensures find_from(s, c, i) == k,
    decreases k - i,
{
    if i < k {
        lemma_find_from_at(s, c, i + 1, k);
    }
}

/// The first `c` of `a + [c] + b`, where `a` holds no `c`, is the one after `a`.
pub proof fn lemma_find_after(a: Seq<char>, b: Seq<char>, c: char)
    requires !a.contains(c),
    ensures find_char_spec(a + seq![c] + b, c) == a.len(),
{
    let s = a + seq![c] + b;
    assert forall|j: int| 0 <= j < a.len() implies s[j] != c by {
        assert(s[j] == a[j]);
        if a[j] == c { assert(a.contains(c)); }
    }
    lemma_find_from_at(s, c, 0, a.len() as int);
}

/// Splitting `a + [c] + b`, where `a` holds no `c`, gives `a` and then the pieces of `b`.
pub proof fn lemma_split_cons(a: Seq<char>, b: Seq<char>, c: char)
    requires !a.contains(c),
    ensures split_spec(a + seq![c] + b, c) == seq![a] + split_spec(b, c),
{
    let s = a + seq![c] + b;
    lemma_find_after(a, b, c);
    assert(s.take(a.len() as int) =~= a);
    assert(s.skip(a.len() as int + 1) =~= b);
}

/// A string without `c` is one piece.
pub proof fn lemma_split_single(a: Seq<char>, c: char)
    requires !a.contains(c),
    ensures split_spec(a, c) == seq![a],
{
    lemma_find_char_bounds(a, c);
    if find_char_spec(a, c) < a.len() {
        assert(a.contains(c));
    }
}

pub fn split(s: &Vec<char>, c: char) -> (r: Vec<Vec<char>>)
    ensures r.deep_view() == split_spec(s@, c),
    decreases s@.len(),
{
    let e = find_char(s, c);
    if e >= s.len() {
        let mut r: Vec<Vec<char>> = Vec::new();
        let t = slice(s, 0, s.len());
        assert(t@ =~= s@);
        assert(t.deep_view() =~= t@);
        r.push(t);
        assert(r.deep_view() =~= seq![s@]);
        r
    } else {
        proof { lemma_find_char_bounds(s@, c); }
        let head = slice(s, 0, e);
        let tail = slice(s, e + 1, s.len());
        assert(tail@ =~= s@.skip(e + 1));
        let rest = split(&tail, c);
        let mut r: Vec<Vec<char>> = Vec::new();
        assert(head.deep_view() =~= head@);
        r.push(head);
        let mut i: usize = 0;
        while i < rest.len()
            invariant
                i <= rest@.len(),
                r.deep_view() =~= seq![s@.take(e as int)] + rest.deep_view().take(i as int),
            decreases rest@.len() - i,
        {
            let ghost before = r.deep_view();
            let piece = slice(&rest[i], 0, rest[i].len());
            assert(piece@ =~= rest@[i as int]@);
            assert(piece.deep_view() =~= piece@);
            r.push(piece);
            assert(r.deep_view() =~= before.push(piece@));
            assert(rest@[i as int].deep_view() =~= rest@[i as int]@);
            assert(rest.deep_view()[i as int] == rest@[i as int]@);
            assert(rest.deep_view().take(i + 1) =~= rest.deep_view().take(i as int).push(rest@[i as int]@));
            i += 1;
        }
        assert(rest.deep_view().take(rest@.len() as int) =~= rest.deep_view());
        r
    }
}

/// Trimming leaves a string alone whose first and last characters are not whitespace.
pub proof fn lemma_trim_noop(s: Seq<char>)
    requires s.len() == 0 || (!is_ws_spec(s[0]) && !is_ws_spec(s.last())),
    ensures trim_spec(s) == s,
{
}

/// `str::to_uppercase`: the uppercase form of a string under Unicode's case mapping.
pub uninterp spec fn str_uppercase(s: Seq<char>) -> Seq<char>;

/// Calls `str::to_uppercase`; its result depends on the string alone.
#[verifier::external_body]
pub(crate) fn uppercase(s: &Vec<char>) -> (r: Vec<char>)
    ensures r@ == str_uppercase(s@),
{
    let t: String = s.iter().collect();
    t.to_uppercase().chars().collect()
}

/// Index of the last `c` in `s`, or -1 where there is none.
pub open spec fn rfind_char_spec(s: Seq<char>, c: char) -> int
    decreases s.len(),
{
    if s.len() == 0 { -1 } else if s.last() == c { s.len() - 1 } else { rfind_char_spec(s.drop_last(), c) }
}

pub proof fn lemma_rfind_bounds(s: Seq<char>, c: char)
    ensures
        -1 <= rfind_char_spec(s, c) < s.len(),
        rfind_char_spec(s, c) >= 0 ==> s[rfind_char_spec(s, c)] == c,
        forall|j: int| rfind_char_spec(s, c) < j < s.len() ==> s[j] != c,
    decreases s.len(),
{
    if s.len() > 0 && s.last() != c {
        lemma_rfind_bounds(s.drop_last(), c);
        assert forall|j: int| rfind_char_spec(s, c) < j < s.len() implies s[j] != c by {
            if j < s.len() - 1 { assert(s[j] == s.drop_last()[j]); }
        }
    }
}

/// The last `c` of `a + [c] + b`, where `b` holds no `c`, is the one before `b`.
pub proof fn lemma_rfind_before(a: Seq<char>, b: Seq<char>, c: char)
    requires !b.contains(c),
    ensures rfind_char_spec(a + seq![c] + b, c) == a.len(),
    decreases b.len(),
{
    let s = a + seq![c] + b;
    if b.len() == 0 {
        assert(s.last() == c);
    } else {
        assert(s.last() == b.last());
        assert(b.last() != c) by { if b.last() == c { assert(b.contains(b[b.len() - 1])); } }
        assert(!b.drop_last().contains(c)) by {
            if b.drop_last().contains(c) { let i = choose|i: int| 0 <= i < b.drop_last().len() && b.drop_last()[i] == c; assert(b[i] == c); }
        }
        lemma_rfind_before(a, b.drop_last(), c);
        assert(s.drop_last() =~= a + seq![c] + b.drop_last());
    }
}

pub fn rfind_char(s: &Vec<char>, c: char) -> (r: Option<usize>)
    ensures
        match r { Some(i) => rfind_char_spec(s@, c) == i, None => rfind_char_spec(s@, c) == -1 },
{
    let mut n: usize = s.len();
    assert(s@.take(n as int) =~= s@);
    while n > 0 && s[n - 1] != c
        invariant
            n <= s@.len(),
            rfind_char_spec(s@, c) == rfind_char_spec(s@.take(n as int), c),
        decreases n,
    {
        assert(s@.take(n as int).drop_last() =~= s@.take(n - 1));
        n -= 1;
    }
    if n == 0 { None } else { Some(n - 1) }
}

} // verus!
