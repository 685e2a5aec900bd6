//! Character-level text helpers shared by the relay's parsers and formatters.
//!
//! Text is modelled as `Seq<char>`, the view of `str` and `String`.
use vstd::prelude::*;
use vstd::string::StrSliceExecFns;

verus! {

/// The Unicode `White_Space` property: the characters that `str::trim` removes.
pub open spec fn is_ws(c: char) -> bool {
    let u = c as u32;
    ||| 0x9 <= u <= 0xD
    ||| u == 0x20
    ||| u == 0x85
    ||| u == 0xA0
    ||| u == 0x1680
    ||| 0x2000 <= u <= 0x200A
    ||| u == 0x2028
    ||| u == 0x2029
    ||| u == 0x202F
    ||| u == 0x205F
    ||| u == 0x3000
}

/// Which characters a strip removes from the two ends of a text.
#[derive(Clone, Copy, PartialEq, Eq, Structural)]
pub enum StripKind {
    /// Unicode whitespace, as `str::trim` removes it.
    Whitespace,
    /// Double quotes, as `str::trim_matches('"')` removes them.
    Quote,
}

pub open spec fn strips(kind: StripKind, c: char) -> bool {
    match kind {
        StripKind::Whitespace => is_ws(c),
        StripKind::Quote => c == '"',
    }
}

/// `s` without its leading characters of the given kind.
pub open spec fn strip_start(s: Seq<char>, kind: StripKind) -> Seq<char>
    decreases s.len(),
{
    if s.len() > 0 && strips(kind, s[0]) {
        strip_start(s.drop_first(), kind)
    } else {
        s
    }
}

/// `s` without its trailing characters of the given kind.
pub open spec fn strip_end(s: Seq<char>, kind: StripKind) -> Seq<char>
    decreases s.len(),
{
    if s.len() > 0 && strips(kind, s.last()) {
        strip_end(s.drop_last(), kind)
    } else {
        s
    }
}

/// `s` without the characters of the given kind at both ends.
pub open spec fn strip(s: Seq<char>, kind: StripKind) -> Seq<char> {
    strip_end(strip_start(s, kind), kind)
}

/// `str::trim`: `s` without leading and trailing whitespace.
pub open spec fn trim(s: Seq<char>) -> Seq<char> {
    strip(s, StripKind::Whitespace)
}

/// The text `s` with every `'\r'` and `'\n'` removed.
pub open spec fn remove_crlf(s: Seq<char>) -> Seq<char>
    decreases s.len(),
{
    if s.len() == 0 {
        s
    } else if s.last() == '\r' || s.last() == '\n' {
        remove_crlf(s.drop_last())
    } else {
        remove_crlf(s.drop_last()).push(s.last())
    }
}

/// `str::split(sep)`: the pieces of `s` between occurrences of `sep`.
pub open spec fn split_on(s: Seq<char>, sep: char) -> Seq<Seq<char>>
    decreases s.len(),
{
    if s.len() == 0 {
        seq![Seq::<char>::empty()]
    } else {
        let pieces = split_on(s.drop_last(), sep);
        if s.last() == sep {
            pieces.push(Seq::<char>::empty())
        } else {
            pieces.update(pieces.len() - 1, pieces.last().push(s.last()))
        }
    }
}

/// `s` starts with `prefix`.
pub open spec fn starts_with(s: Seq<char>, prefix: Seq<char>) -> bool {
    prefix.len() <= s.len() && s.subrange(0, prefix.len() as int) == prefix
}

/// The decimal digit character for `d < 10`.
pub open spec fn digit_char(d: nat) -> char {
    if d == 0 { '0' }
    else if d == 1 { '1' }
    else if d == 2 { '2' }
    else if d == 3 { '3' }
    else if d == 4 { '4' }
    else if d == 5 { '5' }
    else if d == 6 { '6' }
    else if d == 7 { '7' }
    else if d == 8 { '8' }
    else { '9' }
}

/// The decimal representation of `n`, without leading zeros.
pub open spec fn decimal(n: nat) -> Seq<char>
    decreases n,
{
    if n < 10 {
        seq![digit_char(n)]
    } else {
        decimal(n / 10).push(digit_char(n % 10))
    }
}

/// `format!("{:03}", n)` for `n < 1000`.
pub open spec fn decimal_pad3(n: nat) -> Seq<char> {
    if n < 10 {
        seq!['0', '0'] + decimal(n)
    } else if n < 100 {
        seq!['0'] + decimal(n)
    } else {
        decimal(n)
    }
}

pub proof fn lemma_split_nonempty(s: Seq<char>, sep: char)
    ensures
        split_on(s, sep).len() >= 1,
    decreases s.len(),
{
    if s.len() > 0 {
        lemma_split_nonempty(s.drop_last(), sep);
    }
}

pub proof fn lemma_split_push(s: Seq<char>, c: char, sep: char)
    ensures
        split_on(s.push(c), sep) == if c == sep {
            split_on(s, sep).push(Seq::<char>::empty())
        } else {
            split_on(s, sep).update(
                split_on(s, sep).len() - 1,
                split_on(s, sep).last().push(c),
            )
        },
{
    assert(s.push(c).drop_last() == s);
}

/// Splitting `x;v`, where `v` holds no separator, gives the pieces of `x`
/// followed by `v`.
pub proof fn lemma_split_after_separator(x: Seq<char>, v: Seq<char>, sep: char)
    requires
        forall|i: int| 0 <= i < v.len() ==> v[i] != sep,
    ensures
        split_on(x + seq![sep] + v, sep) == split_on(x, sep).push(v),
    decreases v.len(),
{
    if v.len() == 0 {
        assert(x + seq![sep] + v == x.push(sep));
        assert(v == Seq::<char>::empty());
        lemma_split_push(x, sep, sep);
    } else {
        let w = v.drop_last();
        let c = v.last();
        lemma_split_after_separator(x, w, sep);
        assert(w.push(c) == v);
        assert(c != sep);
        assert(x + seq![sep] + v == (x + seq![sep] + w).push(c));
        lemma_split_push(x + seq![sep] + w, c, sep);
        let p = split_on(x, sep).push(w);
        assert(p.len() - 1 == split_on(x, sep).len());
        assert(p.last() == w);
        assert(split_on(x, sep).push(w).update(split_on(x, sep).len() as int, w.push(c))
            == split_on(x, sep).push(v));
    }
}

/// `char::is_whitespace`, decided by the code point.
pub fn is_whitespace(c: char) -> (r: bool)
    ensures
        r == is_ws(c),
{
    let u = c as u32;
    (0x9 <= u && u <= 0xD) || u == 0x20 || u == 0x85 || u == 0xA0 || u == 0x1680 || (0x2000 <= u
        && u <= 0x200A) || u == 0x2028 || u == 0x2029 || u == 0x202F || u == 0x205F || u == 0x3000
}

fn strips_exec(kind: StripKind, c: char) -> (r: bool)
    ensures
        r == strips(kind, c),
{
    match kind {
        StripKind::Whitespace => is_whitespace(c),
        StripKind::Quote => c == '"',
    }
}

/// `String::push`.
#[verifier::external_body]
fn push_char(s: &mut String, c: char)
    ensures
        final(s)@ == old(s)@.push(c),
{
    s.push(c)
}

/// The characters of `s`, in order.
pub fn chars_of(s: &str) -> (v: Vec<char>)
    ensures
        v@ == s@,
{
    let mut v: Vec<char> = Vec::new();
    let n = s.unicode_len();
    let mut i: usize = 0;
    while i < n
        invariant
            n == s@.len(),
            i <= n,
            v@ == s@.subrange(0, i as int),
        decreases n - i,
    {
        let c = s.get_char(i);
        v.push(c);
        assert(s@.subrange(0, i + 1) == s@.subrange(0, i as int).push(c));
        i = i + 1;
    }
    assert(s@.subrange(0, n as int) == s@);
    v
}

/// The string made of the characters `v`.
pub fn string_of(v: &[char]) -> (s: String)
    ensures
        s@ == v@,
{
    let mut s = String::new();
    let mut i: usize = 0;
    while i < v.len()
        invariant
            i <= v@.len(),
            s@ == v@.subrange(0, i as int),
        decreases v.len() - i,
    {
        push_char(&mut s, v[i]);
        assert(v@.subrange(0, i + 1) == v@.subrange(0, i as int).push(v@[i as int]));
        i = i + 1;
    }
    assert(v@.subrange(0, v@.len() as int) == v@);
    s
}

/// Appends the character `c` to `s`.
pub fn append_char(s: &mut String, c: char)
    ensures
        final(s)@ == old(s)@.push(c),
{
    push_char(s, c)
}

/// Appends the characters `v` to `s`.
pub fn append_chars(s: &mut String, v: &[char])
    ensures
        final(s)@ == old(s)@ + v@,
{
    let ghost start = s@;
    let mut i: usize = 0;
    while i < v.len()
        invariant
            i <= v@.len(),
            s@ == start + v@.subrange(0, i as int),
        decreases v.len() - i,
    {
        push_char(s, v[i]);
        assert(v@.subrange(0, i + 1) == v@.subrange(0, i as int).push(v@[i as int]));
        i = i + 1;
    }
    assert(v@.subrange(0, v@.len() as int) == v@);
}

proof fn lemma_strip_start_step(s: Seq<char>, kind: StripKind, a: int)
    requires
        0 <= a < s.len(),
        strips(kind, s[a]),
    ensures
        strip_start(s.subrange(a, s.len() as int), kind) == strip_start(
            s.subrange(a + 1, s.len() as int),
            kind,
        ),
{
    assert(s.subrange(a, s.len() as int).drop_first() == s.subrange(a + 1, s.len() as int));
}

proof fn lemma_strip_end_step(s: Seq<char>, kind: StripKind, b: int)
    requires
        0 < b <= s.len(),
        strips(kind, s[b - 1]),
    ensures
        strip_end(s.subrange(0, b), kind) == strip_end(s.subrange(0, b - 1), kind),
{
    assert(s.subrange(0, b).drop_last() == s.subrange(0, b - 1));
}

/// The characters `v` without the characters of `kind` at both ends.
pub fn strip_chars(v: &[char], kind: StripKind) -> (r: Vec<char>)
    ensures
        r@ == strip(v@, kind),
{
    let n = v.len();
    let mut a: usize = 0;
    assert(v@.subrange(0, n as int) == v@);
    while a < n && strips_exec(kind, v[a])
        invariant
            n == v@.len(),
            a <= n,
            strip_start(v@, kind) == strip_start(v@.subrange(a as int, n as int), kind),
        decreases n - a,
    {
        proof {
            lemma_strip_start_step(v@, kind, a as int);
        }
        a = a + 1;
    }
    let ghost rest = v@.subrange(a as int, n as int);
    assert(strip_start(rest, kind) == rest);
    assert(strip_start(v@, kind) == rest);
    let mut b: usize = n;
    assert(rest.subrange(0, n - a) == rest);
    while b > a && strips_exec(kind, v[b - 1])
        invariant
            n == v@.len(),
            a <= b <= n,
            rest == v@.subrange(a as int, n as int),
            strip_end(rest, kind) == strip_end(rest.subrange(0, b - a), kind),
        decreases b,
    {
        proof {
            lemma_strip_end_step(rest, kind, b - a);
        }
        b = b - 1;
    }
    let ghost kept = rest.subrange(0, b - a);
    assert(strip_end(kept, kind) == kept);
    let mut r: Vec<char> = Vec::new();
    let mut i: usize = a;
    while i < b
        invariant
            n == v@.len(),
            a <= i <= b <= n,
            r@ == v@.subrange(a as int, i as int),
        decreases b - i,
    {
        r.push(v[i]);
        assert(v@.subrange(a as int, i + 1) == v@.subrange(a as int, i as int).push(v@[i as int]));
        i = i + 1;
    }
    assert(r@ == kept);
    r
}

/// `str::trim` on characters.
pub fn trim_chars(v: &[char]) -> (r: Vec<char>)
    ensures
        r@ == trim(v@),
{
    strip_chars(v, StripKind::Whitespace)
}

/// `str::trim`.
pub fn trim_str(s: &str) -> (r: String)
    ensures
        r@ == trim(s@),
{
    let v = chars_of(s);
    let t = trim_chars(v.as_slice());
    string_of(t.as_slice())
}

/// Whether `s` starts with `prefix`.
pub fn chars_start_with(s: &[char], prefix: &[char]) -> (r: bool)
    ensures
        r == starts_with(s@, prefix@),
{
    if prefix.len() > s.len() {
        return false;
    }
    let mut i: usize = 0;
    while i < prefix.len()
        invariant
            prefix@.len() <= s@.len(),
            i <= prefix@.len(),
            forall|j: int| 0 <= j < i ==> s@[j] == prefix@[j],
        decreases prefix.len() - i,
    {
        if s[i] != prefix[i] {
            assert(s@.subrange(0, prefix@.len() as int)[i as int] != prefix@[i as int]);
            return false;
        }
        i = i + 1;
    }
    assert(s@.subrange(0, prefix@.len() as int) == prefix@);
    true
}

/// Whether the two texts are equal.
pub fn chars_equal(a: &[char], b: &[char]) -> (r: bool)
    ensures
        r == (a@ == b@),
{
    if a.len() != b.len() {
        return false;
    }
    let mut i: usize = 0;
    while i < a.len()
        invariant
            a@.len() == b@.len(),
            i <= a@.len(),
            forall|j: int| 0 <= j < i ==> a@[j] == b@[j],
        decreases a.len() - i,
    {
        if a[i] != b[i] {
            return false;
        }
        i = i + 1;
    }
    assert(a@ == b@);
    true
}

/// Whether the two strings are equal.
pub fn strings_equal(a: &str, b: &str) -> (r: bool)
    ensures
        r == (a@ == b@),
{
    let va = chars_of(a);
    let vb = chars_of(b);
    chars_equal(va.as_slice(), vb.as_slice())
}

fn digit_exec(d: u64) -> (c: char)
    requires
        d < 10,
    ensures
        c == digit_char(d as nat),
{
    if d == 0 { '0' }
    else if d == 1 { '1' }
    else if d == 2 { '2' }
    else if d == 3 { '3' }
    else if d == 4 { '4' }
    else if d == 5 { '5' }
    else if d == 6 { '6' }
    else if d == 7 { '7' }
    else if d == 8 { '8' }
    else { '9' }
}

/// `n.to_string()`: the decimal digits of `n`.
pub fn decimal_string(n: u64) -> (s: String)
    ensures
        s@ == decimal(n as nat),
    decreases n,
{
    if n < 10 {
        let mut s = String::new();
        push_char(&mut s, digit_exec(n));
        assert(s@ == seq![digit_char(n as nat)]);
        s
    } else {
        let mut s = decimal_string(n / 10);
        push_char(&mut s, digit_exec(n % 10));
        s
    }
}

/// `format!("{:03}", n)` for `n < 1000`.
pub fn decimal_pad3_string(n: u64) -> (s: String)
    requires
        n < 1000,
    ensures
        s@ == decimal_pad3(n as nat),
{
    let mut s = String::new();
    if n < 10 {
        push_char(&mut s, '0');
        push_char(&mut s, '0');
    } else if n < 100 {
        push_char(&mut s, '0');
    }
    let d = decimal_string(n);
    let ghost prefix = s@;
    let dv = chars_of(d.as_str());
    append_chars(&mut s, dv.as_slice());
    proof {
        if n < 10 {
            assert(prefix == seq!['0', '0']);
        } else if n < 100 {
            assert(prefix == seq!['0']);
        } else {
            assert(prefix == Seq::<char>::empty());
            assert(s@ == decimal(n as nat));
        }
    }
    s
}

} // verus!
