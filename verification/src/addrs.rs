//! TCP addresses of iMotions: validation, the sorted list of saved
//! addresses, and the text file in which that list is kept.
use vstd::prelude::*;
use vstd::string::StringExecFns;

use crate::text::{
    append_char, append_chars, chars_of, is_ws, lemma_split_after_separator, lemma_split_nonempty,
    lemma_split_push, split_on, strip, strip_chars, strip_end, strip_start, string_of, strips, trim,
    trim_chars, StripKind,
};

verus! {

/// Whether `s` parses as a socket address (`core::net::SocketAddr`): an IPv4
/// address and a port such as `127.0.0.1:9999`, or a bracketed IPv6 address
/// and a port.
pub uninterp spec fn socket_addr_parses(s: Seq<char>) -> bool;

/// `s.parse::<SocketAddr>().is_ok()`.
#[verifier::external_body]
fn parses_as_socket_addr(s: &str) -> (r: bool)
    ensures
        r == socket_addr_parses(s@),
{
    s.parse::<core::net::SocketAddr>().is_ok()
}

/// An address that the relay accepts: once trimmed, it parses as a socket
/// address.
pub open spec fn valid_tcp_addr(s: Seq<char>) -> bool {
    socket_addr_parses(trim(s))
}

/// Why an address, or the file of saved addresses, was refused.
#[derive(Debug, Clone, Copy, PartialEq, Eq, Structural)]
pub enum AddrError {
    /// The address does not parse as a socket address.
    InvalidAddress,
    /// The file of saved addresses is not a bracketed list.
    MalformedList,
}

pub open spec fn addr_error_text(e: AddrError) -> Seq<char> {
    match e {
        AddrError::InvalidAddress => "Invalid IP address. Use format: 127.0.0.1:9999"@,
        AddrError::MalformedList => "InvalidTCP"@,
    }
}

impl AddrError {
    /// The message shown for this error.
    pub fn message(&self) -> (s: String)
        ensures
            s@ == addr_error_text(*self),
    {
        match self {
            AddrError::InvalidAddress => String::from_str(
                "Invalid IP address. Use format: 127.0.0.1:9999",
            ),
            AddrError::MalformedList => String::from_str("InvalidTCP"),
        }
    }
}

/// Checks that the trimmed `address` parses as a socket address.
pub fn validate_tcp_addr(address: &str) -> (r: Result<(), AddrError>)
    ensures
        r is Ok <==> valid_tcp_addr(address@),
        r is Err ==> r == Err::<(), AddrError>(AddrError::InvalidAddress),
{
    let t = crate::text::trim_str(address);
    if parses_as_socket_addr(t.as_str()) {
        Ok(())
    } else {
        Err(AddrError::InvalidAddress)
    }
}

// ---------------------------------------------------------------------------
// The order of texts
/// `a` comes before `b` in the order of `String`: by code points, a proper
/// prefix first.
pub open spec fn text_lt(a: Seq<char>, b: Seq<char>) -> bool
    decreases a.len(),
{
    if a.len() == 0 {
        b.len() > 0
    } else if b.len() == 0 {
        false
    } else if (a[0] as int) < (b[0] as int) {
        true
    } else if a[0] == b[0] {
        text_lt(a.drop_first(), b.drop_first())
    } else {
        false
    }
}

/// Each text comes before every later one.
pub open spec fn strictly_sorted(s: Seq<Seq<char>>) -> bool {
    forall|i: int, j: int| 0 <= i < j < s.len() ==> text_lt(#[trigger] s[i], #[trigger] s[j])
}

pub proof fn lemma_text_lt_irreflexive(a: Seq<char>)
    ensures
        !text_lt(a, a),
    decreases a.len(),
{
    if a.len() > 0 {
        lemma_text_lt_irreflexive(a.drop_first());
    }
}

pub proof fn lemma_text_lt_transitive(a: Seq<char>, b: Seq<char>, c: Seq<char>)
    requires
        text_lt(a, b),
        text_lt(b, c),
    ensures
        text_lt(a, c),
    decreases a.len(),
{
    if a.len() > 0 && b.len() > 0 && c.len() > 0 {
        if a[0] == b[0] && b[0] == c[0] {
            lemma_text_lt_transitive(a.drop_first(), b.drop_first(), c.drop_first());
        }
    }
}

pub proof fn lemma_text_lt_total(a: Seq<char>, b: Seq<char>)
    requires
        a != b,
    ensures
        text_lt(a, b) || text_lt(b, a),
    decreases a.len(),
{
    if a.len() > 0 && b.len() > 0 {
        if a[0] == b[0] {
            if a.drop_first() == b.drop_first() {
                assert(a == seq![a[0]] + a.drop_first());
                assert(b == seq![b[0]] + b.drop_first());
            }
            lemma_text_lt_total(a.drop_first(), b.drop_first());
        } else {
            assert((a[0] as int) != (b[0] as int));
        }
    } else if a.len() == 0 && b.len() == 0 {
        assert(a == b);
    }
}

pub proof fn lemma_text_lt_asymmetric(a: Seq<char>, b: Seq<char>)
    requires
        text_lt(a, b),
    ensures
        !text_lt(b, a),
{
    if text_lt(b, a) {
        lemma_text_lt_transitive(a, b, a);
        lemma_text_lt_irreflexive(a);
    }
}

/// A proper prefix comes first.
proof fn lemma_prefix_first(a: Seq<char>, b: Seq<char>)
    requires
        b.len() > 0,
    ensures
        text_lt(a, a + b),
    decreases a.len(),
{
    if a.len() == 0 {
        assert(a + b =~= b);
    } else {
        assert((a + b)[0] == a[0]);
        assert((a + b).drop_first() =~= a.drop_first() + b);
        lemma_prefix_first(a.drop_first(), b);
    }
}

/// After a common part, the first characters that differ decide.
proof fn lemma_first_difference_decides(p: Seq<char>, x: char, y: char, c: Seq<char>, d: Seq<char>)
    requires
        (x as int) < (y as int),
    ensures
        text_lt(p + seq![x] + c, p + seq![y] + d),
    decreases p.len(),
{
    let a = p + seq![x] + c;
    let b = p + seq![y] + d;
    if p.len() == 0 {
        assert(a[0] == x && b[0] == y);
    } else {
        assert(a[0] == p[0] && b[0] == p[0]);
        assert(a.drop_first() =~= p.drop_first() + seq![x] + c);
        assert(b.drop_first() =~= p.drop_first() + seq![y] + d);
        lemma_first_difference_decides(p.drop_first(), x, y, c, d);
    }
}

/// Law: saved addresses are ordered as `String` orders them. A text comes
/// before every longer text that extends it, and after a common start the
/// first characters that differ decide, by code point (the order of their
/// UTF-8 bytes); of two texts either they are equal or exactly one comes
/// first.
pub proof fn law_text_order_is_string_order(
    a: Seq<char>,
    b: Seq<char>,
    p: Seq<char>,
    x: char,
    y: char,
    c: Seq<char>,
    d: Seq<char>,
)
    ensures
        b.len() > 0 ==> text_lt(a, a + b) && !text_lt(a + b, a),
        (x as int) < (y as int) ==> text_lt(p + seq![x] + c, p + seq![y] + d) && !text_lt(
            p + seq![y] + d,
            p + seq![x] + c,
        ),
        a == b || (text_lt(a, b) != text_lt(b, a)),
        !text_lt(a, a),
{
    if b.len() > 0 {
        lemma_prefix_first(a, b);
        lemma_text_lt_asymmetric(a, a + b);
    }
    if (x as int) < (y as int) {
        lemma_first_difference_decides(p, x, y, c, d);
        lemma_text_lt_asymmetric(p + seq![x] + c, p + seq![y] + d);
    }
    lemma_text_lt_irreflexive(a);
    if a != b {
        lemma_text_lt_total(a, b);
        if text_lt(a, b) {
            lemma_text_lt_asymmetric(a, b);
        }
    }
}

/// Where one text stands against another.
#[derive(Clone, Copy, PartialEq, Eq, Structural)]
pub enum TextOrder {
    Before,
    Same,
    After,
}

/// Compares two texts in the order of `String`.
pub fn compare_text(a: &[char], b: &[char]) -> (r: TextOrder)
    ensures
        r == TextOrder::Before <==> text_lt(a@, b@),
        r == TextOrder::Same <==> a@ == b@,
        r == TextOrder::After <==> text_lt(b@, a@),
{
    let mut i: usize = 0;
    assert(a@.skip(0) == a@);
    assert(b@.skip(0) == b@);
    while i < a.len() && i < b.len() && a[i] == b[i]
        invariant
            i <= a@.len(),
            i <= b@.len(),
            forall|j: int| 0 <= j < i ==> a@[j] == b@[j],
            text_lt(a@, b@) == text_lt(a@.skip(i as int), b@.skip(i as int)),
            text_lt(b@, a@) == text_lt(b@.skip(i as int), a@.skip(i as int)),
        decreases a.len() - i,
    {
        assert(a@.skip(i as int).drop_first() == a@.skip(i + 1));
        assert(b@.skip(i as int).drop_first() == b@.skip(i + 1));
        i = i + 1;
    }
    let ghost sa = a@.skip(i as int);
    let ghost sb = b@.skip(i as int);
    if i == a.len() && i == b.len() {
        assert(a@ == b@);
        proof {
            lemma_text_lt_irreflexive(a@);
        }
        TextOrder::Same
    } else if i == a.len() {
        assert(sa.len() == 0 && sb.len() > 0);
        assert(a@ != b@);
        TextOrder::Before
    } else if i == b.len() {
        assert(sb.len() == 0 && sa.len() > 0);
        assert(a@ != b@);
        TextOrder::After
    } else if a[i] < b[i] {
        assert(sa[0] == a@[i as int] && sb[0] == b@[i as int]);
        assert(a@[i as int] != b@[i as int]);
        assert(a@ != b@);
        TextOrder::Before
    } else {
        assert(sa[0] == a@[i as int] && sb[0] == b@[i as int]);
        assert(a@[i as int] != b@[i as int]);
        assert(a@ != b@);
        assert((b@[i as int] as int) < (a@[i as int] as int));
        TextOrder::After
    }
}

// ---------------------------------------------------------------------------
// Sorted lists of addresses
//
// The saved addresses are a `Vec<String>` kept strictly sorted by the order
// of their characters, rather than a `BTreeSet<String>`: vstd states no order
// of `String`, so of a `BTreeSet<String>` nothing could be proved, not even
// its length after one insertion.
/// Inserts `addr` into the sorted list `list`, unless it is there already.
pub fn insert_sorted(list: &mut Vec<String>, addr: &str)
    requires
        strictly_sorted(old(list).deep_view()),
    ensures
        strictly_sorted(final(list).deep_view()),
        final(list).deep_view().to_set() == old(list).deep_view().to_set().insert(addr@),
        old(list).deep_view().contains(addr@) ==> final(list).deep_view() == old(
            list,
        ).deep_view(),
        !old(list).deep_view().contains(addr@) ==> final(list).deep_view().len() == old(
            list,
        ).deep_view().len() + 1,
{
    let ghost old_v = list.deep_view();
    let a = chars_of(addr);
    let mut p: usize = 0;
    let mut found = false;
    let mut done = false;
    while p < list.len() && !done
        invariant
            old_v == list.deep_view(),
            strictly_sorted(old_v),
            a@ == addr@,
            p <= list@.len(),
            forall|j: int| 0 <= j < p ==> text_lt(#[trigger] old_v[j], addr@),
            found ==> done,
            done ==> p < list@.len(),
            done && found ==> old_v[p as int] == addr@,
            done && !found ==> text_lt(addr@, old_v[p as int]),
        decreases list.len() - p + (if done { 0int } else { 1int }),
    {
        let e = chars_of(list[p].as_str());
        match compare_text(e.as_slice(), a.as_slice()) {
            TextOrder::Before => {
                p = p + 1;
            },
            TextOrder::Same => {
                found = true;
                done = true;
            },
            TextOrder::After => {
                done = true;
            },
        }
    }
    if found {
        assert(old_v[p as int] == addr@);
        assert(old_v.contains(addr@));
        assert(old_v.to_set().insert(addr@) =~= old_v.to_set());
        return ;
    }
    assert(p < old_v.len() ==> text_lt(addr@, old_v[p as int]));
    assert(!old_v.contains(addr@)) by {
        if old_v.contains(addr@) {
            let k = choose|k: int| 0 <= k < old_v.len() && old_v[k] == addr@;
            if k < p {
                lemma_text_lt_irreflexive(addr@);
            } else if k == p {
                lemma_text_lt_irreflexive(addr@);
            } else {
                lemma_text_lt_transitive(addr@, old_v[p as int], old_v[k]);
                lemma_text_lt_irreflexive(addr@);
            }
        }
    }
    let s = string_of(a.as_slice());
    list.insert(p, s);
    proof {
        let nv = old_v.insert(p as int, addr@);
        assert(list.deep_view() == nv);
        assert forall|i: int, j: int| 0 <= i < j < nv.len() implies text_lt(
            #[trigger] nv[i],
            #[trigger] nv[j],
        ) by {
            if j < p {
            } else if j == p {
            } else if i < p {
                assert(nv[j] == old_v[j - 1]);
                if p < old_v.len() {
                    assert(text_lt(addr@, old_v[p as int]));
                    if j - 1 > p {
                        lemma_text_lt_transitive(addr@, old_v[p as int], old_v[j - 1]);
                    }
                    lemma_text_lt_transitive(old_v[i], addr@, old_v[j - 1]);
                }
            } else if i == p {
                assert(nv[j] == old_v[j - 1]);
                if j - 1 > p {
                    lemma_text_lt_transitive(addr@, old_v[p as int], old_v[j - 1]);
                }
            } else {
                assert(nv[i] == old_v[i - 1]);
                assert(nv[j] == old_v[j - 1]);
            }
        }
        assert(nv.to_set() =~= old_v.to_set().insert(addr@)) by {
            assert forall|x: Seq<char>| nv.to_set().contains(x) implies old_v.to_set().insert(
                addr@,
            ).contains(x) by {
                let k = choose|k: int| 0 <= k < nv.len() && nv[k] == x;
                if k < p {
                    assert(old_v[k] == x);
                } else if k > p {
                    assert(old_v[k - 1] == x);
                }
            }
            assert forall|x: Seq<char>| old_v.to_set().insert(addr@).contains(x) implies nv.to_set().contains(
                x,
            ) by {
                if x == addr@ {
                    assert(nv[p as int] == x);
                } else {
                    let k = choose|k: int| 0 <= k < old_v.len() && old_v[k] == x;
                    if k < p {
                        assert(nv[k] == x);
                    } else {
                        assert(nv[k + 1] == x);
                    }
                }
            }
        }
    }
}

// ---------------------------------------------------------------------------
// The file of saved addresses
/// The text between the brackets of a saved list, if it is bracketed once
/// trimmed.
pub open spec fn saved_list_body(contents: Seq<char>) -> Option<Seq<char>> {
    let t = trim(contents);
    if t.len() >= 2 && t[0] == '[' && t.last() == ']' {
        Some(t.subrange(1, t.len() - 1))
    } else {
        None
    }
}

/// The address that an entry of the list names: trimmed, stripped of its
/// quotes, and trimmed again.
pub open spec fn addr_candidate(entry: Seq<char>) -> Seq<char> {
    trim(strip(trim(entry), StripKind::Quote))
}

/// The valid addresses that the entries name.
pub open spec fn valid_candidates(entries: Seq<Seq<char>>) -> Set<Seq<char>>
    decreases entries.len(),
{
    if entries.len() == 0 {
        Set::<Seq<char>>::empty()
    } else {
        let rest = valid_candidates(entries.drop_last());
        let c = addr_candidate(entries.last());
        if valid_tcp_addr(c) {
            rest.insert(c)
        } else {
            rest
        }
    }
}

/// The valid addresses that the body of a saved list names: none if the body
/// is blank, else those of its `,`-separated entries.
pub open spec fn saved_addrs(body: Seq<char>) -> Set<Seq<char>> {
    if trim(body).len() == 0 {
        Set::<Seq<char>>::empty()
    } else {
        valid_candidates(split_on(body, ','))
    }
}

proof fn lemma_valid_candidates_push(entries: Seq<Seq<char>>, e: Seq<char>)
    ensures
        valid_candidates(entries.push(e)) == if valid_tcp_addr(addr_candidate(e)) {
            valid_candidates(entries).insert(addr_candidate(e))
        } else {
            valid_candidates(entries)
        },
{
    assert(entries.push(e).drop_last() == entries);
}

/// The addresses that the entries name, in order.
pub open spec fn entry_candidates(entries: Seq<Seq<char>>) -> Seq<Seq<char>> {
    entries.map_values(|e: Seq<char>| addr_candidate(e))
}

/// The address candidates of the body of a saved list: none if the body is
/// blank, else one per `,`-separated entry.
pub open spec fn body_candidates(body: Seq<char>) -> Seq<Seq<char>> {
    if trim(body).len() == 0 {
        Seq::<Seq<char>>::empty()
    } else {
        entry_candidates(split_on(body, ','))
    }
}

/// The candidates that are marked valid.
pub open spec fn chosen(candidates: Seq<Seq<char>>, valid: Seq<bool>) -> Set<Seq<char>>
    decreases candidates.len(),
{
    if candidates.len() == 0 {
        Set::<Seq<char>>::empty()
    } else {
        let rest = chosen(candidates.drop_last(), valid.subrange(0, valid.len() - 1));
        if valid.last() {
            rest.insert(candidates.last())
        } else {
            rest
        }
    }
}

/// The address that `entry` names.
fn entry_candidate(entry: &[char]) -> (c: String)
    ensures
        c@ == addr_candidate(entry@),
{
    let t = trim_chars(entry);
    let q = strip_chars(t.as_slice(), StripKind::Quote);
    let c = trim_chars(q.as_slice());
    string_of(c.as_slice())
}

/// The address candidates that the body of a saved list names.
pub fn addr_candidates(body: &[char]) -> (cands: Vec<String>)
    ensures
        cands.deep_view() == body_candidates(body@),
{
    let mut cands: Vec<String> = Vec::new();
    let tb = trim_chars(body);
    if tb.len() == 0 {
        assert(cands.deep_view() == Seq::<Seq<char>>::empty());
        return cands;
    }
    let mut cur: Vec<char> = Vec::new();
    let mut k: usize = 0;
    assert(body@.subrange(0, 0) == Seq::<char>::empty());
    assert(cands.deep_view() == entry_candidates(Seq::<Seq<char>>::empty()));
    while k < body.len()
        invariant
            k <= body@.len(),
            split_on(body@.subrange(0, k as int), ',').len() >= 1,
            cands.deep_view() == entry_candidates(
                split_on(body@.subrange(0, k as int), ',').drop_last(),
            ),
            cur@ == split_on(body@.subrange(0, k as int), ',').last(),
        decreases body.len() - k,
    {
        let c = body[k];
        let ghost pieces = split_on(body@.subrange(0, k as int), ',');
        proof {
            assert(body@.subrange(0, k + 1) == body@.subrange(0, k as int).push(c));
            assert(body@.subrange(0, k as int).push(c).drop_last() == body@.subrange(
                0,
                k as int,
            ));
            lemma_split_nonempty(body@.subrange(0, k + 1), ',');
            assert(pieces.drop_last().push(pieces.last()) == pieces);
        }
        if c == ',' {
            let e = entry_candidate(cur.as_slice());
            let ghost before = cands.deep_view();
            cands.push(e);
            proof {
                assert(cands.deep_view() == before.push(addr_candidate(pieces.last())));
                assert(pieces.push(Seq::<char>::empty()).drop_last() == pieces);
                assert(entry_candidates(pieces) == entry_candidates(pieces.drop_last()).push(
                    addr_candidate(pieces.last()),
                ));
            }
            cur = Vec::new();
            assert(cur@ == Seq::<char>::empty());
        } else {
            cur.push(c);
            proof {
                assert(pieces.update(pieces.len() - 1, pieces.last().push(c)).drop_last()
                    == pieces.drop_last());
            }
        }
        k = k + 1;
    }
    let ghost pieces = split_on(body@.subrange(0, body@.len() as int), ',');
    assert(body@.subrange(0, body@.len() as int) == body@);
    let e = entry_candidate(cur.as_slice());
    let ghost before = cands.deep_view();
    cands.push(e);
    proof {
        assert(cands.deep_view() == before.push(addr_candidate(pieces.last())));
        assert(pieces.drop_last().push(pieces.last()) == pieces);
        assert(entry_candidates(pieces) == entry_candidates(pieces.drop_last()).push(
            addr_candidate(pieces.last()),
        ));
    }
    cands
}

/// The candidates marked valid, sorted, each once.
pub fn sorted_valid_addrs(candidates: &[String], valid: &[bool]) -> (list: Vec<String>)
    requires
        candidates@.len() == valid@.len(),
    ensures
        strictly_sorted(list.deep_view()),
        list.deep_view().to_set() == chosen(candidates.deep_view(), valid@),
{
    let mut list: Vec<String> = Vec::new();
    let mut i: usize = 0;
    assert(list.deep_view().to_set() =~= Set::<Seq<char>>::empty());
    assert(candidates.deep_view().subrange(0, 0) == Seq::<Seq<char>>::empty());
    while i < candidates.len()
        invariant
            candidates@.len() == valid@.len(),
            i <= candidates@.len(),
            strictly_sorted(list.deep_view()),
            list.deep_view().to_set() == chosen(
                candidates.deep_view().subrange(0, i as int),
                valid@.subrange(0, i as int),
            ),
        decreases candidates.len() - i,
    {
        proof {
            let cs = candidates.deep_view().subrange(0, i + 1);
            let vs = valid@.subrange(0, i + 1);
            assert(cs.drop_last() == candidates.deep_view().subrange(0, i as int));
            assert(vs.subrange(0, vs.len() - 1) == valid@.subrange(0, i as int));
            assert(cs.last() == candidates[i as int]@);
            assert(vs.last() == valid@[i as int]);
        }
        if valid[i] {
            insert_sorted(&mut list, candidates[i].as_str());
        }
        i = i + 1;
    }
    assert(candidates.deep_view().subrange(0, candidates@.len() as int) == candidates.deep_view());
    assert(valid@.subrange(0, valid@.len() as int) == valid@);
    list
}

proof fn lemma_chosen_are_valid_candidates(entries: Seq<Seq<char>>, valid: Seq<bool>)
    requires
        valid.len() == entries.len(),
        forall|i: int|
            0 <= i < entries.len() ==> #[trigger] valid[i] == valid_tcp_addr(
                addr_candidate(entries[i]),
            ),
    ensures
        chosen(entry_candidates(entries), valid) == valid_candidates(entries),
    decreases entries.len(),
{
    if entries.len() > 0 {
        let rest = entries.drop_last();
        let vrest = valid.subrange(0, valid.len() - 1);
        assert forall|i: int| 0 <= i < rest.len() implies #[trigger] vrest[i] == valid_tcp_addr(
            addr_candidate(rest[i]),
        ) by {
            assert(vrest[i] == valid[i]);
            assert(rest[i] == entries[i]);
        }
        lemma_chosen_are_valid_candidates(rest, vrest);
        assert(entry_candidates(entries).drop_last() == entry_candidates(rest));
        assert(valid.last() == valid[valid.len() - 1]);
    }
}

/// The saved addresses in the text of the file that holds them: a bracketed,
/// `,`-separated list of quoted addresses. The valid ones come back sorted
/// and without repeats; invalid entries are skipped.
pub fn parse_saved_tcp_addrs(contents: &str) -> (r: Result<Vec<String>, AddrError>)
    ensures
        saved_list_body(contents@) is None <==> r is Err,
        r is Err ==> r == Err::<Vec<String>, AddrError>(AddrError::MalformedList),
        r matches Ok(list) ==> strictly_sorted(list.deep_view()) && list.deep_view().to_set()
            == saved_addrs(saved_list_body(contents@)->0),
{
    let all = chars_of(contents);
    let t = trim_chars(all.as_slice());
    let n = t.len();
    if !(n >= 2 && t[0] == '[' && t[n - 1] == ']') {
        return Err(AddrError::MalformedList);
    }
    let mut body: Vec<char> = Vec::new();
    let mut i: usize = 1;
    while i < n - 1
        invariant
            n == t@.len(),
            n >= 2,
            1 <= i <= n - 1,
            body@ == t@.subrange(1, i as int),
        decreases n - 1 - i,
    {
        body.push(t[i]);
        assert(t@.subrange(1, i + 1) == t@.subrange(1, i as int).push(t@[i as int]));
        i = i + 1;
    }
    assert(body@ == saved_list_body(contents@)->0);
    let cands = addr_candidates(body.as_slice());
    let mut valid: Vec<bool> = Vec::new();
    let mut k: usize = 0;
    while k < cands.len()
        invariant
            k <= cands@.len(),
            valid@.len() == k,
            forall|j: int| 0 <= j < k ==> #[trigger] valid@[j] == valid_tcp_addr(cands[j]@),
        decreases cands.len() - k,
    {
        let ok = validate_tcp_addr(cands[k].as_str()).is_ok();
        valid.push(ok);
        k = k + 1;
    }
    let list = sorted_valid_addrs(cands.as_slice(), valid.as_slice());
    proof {
        let tb = trim(body@);
        if tb.len() == 0 {
            assert(cands.deep_view() == Seq::<Seq<char>>::empty());
            assert(chosen(cands.deep_view(), valid@) == Set::<Seq<char>>::empty());
        } else {
            let entries = split_on(body@, ',');
            assert forall|j: int| 0 <= j < entries.len() implies #[trigger] valid@[j]
                == valid_tcp_addr(addr_candidate(entries[j])) by {
                assert(cands.deep_view()[j] == cands[j]@);
            }
            lemma_chosen_are_valid_candidates(entries, valid@);
        }
    }
    Ok(list)
}

/// The line of the file for one address: indented and quoted.
pub open spec fn quoted_line(a: Seq<char>) -> Seq<char> {
    seq![' ', ' ', '"'] + a + seq!['"']
}

/// The quoted lines of the addresses, separated by `,` and a line break.
pub open spec fn quoted_lines(addrs: Seq<Seq<char>>) -> Seq<char>
    decreases addrs.len(),
{
    if addrs.len() == 0 {
        Seq::<char>::empty()
    } else if addrs.len() == 1 {
        quoted_line(addrs[0])
    } else {
        quoted_lines(addrs.drop_last()) + seq![',', '\n'] + quoted_line(addrs.last())
    }
}

/// The text of the file that keeps the saved addresses.
pub open spec fn saved_file(addrs: Seq<Seq<char>>) -> Seq<char> {
    if addrs.len() == 0 {
        seq!['[', ']', '\n']
    } else {
        seq!['[', '\n'] + quoted_lines(addrs) + seq!['\n', ']', '\n']
    }
}

/// The text of the file that keeps the saved addresses: `[]` when there are
/// none, else one quoted address per line between brackets.
pub fn format_saved_tcp_addrs(addrs: &[String]) -> (s: String)
    ensures
        s@ == saved_file(addrs.deep_view()),
{
    let mut s = String::new();
    if addrs.len() == 0 {
        append_char(&mut s, '[');
        append_char(&mut s, ']');
        append_char(&mut s, '\n');
        return s;
    }
    append_char(&mut s, '[');
    append_char(&mut s, '\n');
    let ghost start = s@;
    let mut i: usize = 0;
    while i < addrs.len()
        invariant
            i <= addrs@.len(),
            start == seq!['[', '\n'],
            s@ == start + quoted_lines(addrs.deep_view().subrange(0, i as int)),
        decreases addrs.len() - i,
    {
        let ghost before = s@;
        if i > 0 {
            append_char(&mut s, ',');
            append_char(&mut s, '\n');
        }
        append_char(&mut s, ' ');
        append_char(&mut s, ' ');
        append_char(&mut s, '"');
        let a = chars_of(addrs[i].as_str());
        append_chars(&mut s, a.as_slice());
        append_char(&mut s, '"');
        proof {
            let vs = addrs.deep_view().subrange(0, i + 1);
            assert(vs.drop_last() == addrs.deep_view().subrange(0, i as int));
            assert(vs.last() == addrs[i as int]@);
            if i == 0 {
                assert(vs.len() == 1);
                assert(quoted_lines(addrs.deep_view().subrange(0, 0)) == Seq::<char>::empty());
                assert(s@ == start + quoted_line(vs[0]));
            } else {
                assert(s@ == start + quoted_lines(vs));
            }
        }
        i = i + 1;
    }
    assert(addrs.deep_view().subrange(0, addrs@.len() as int) == addrs.deep_view());
    append_char(&mut s, '\n');
    append_char(&mut s, ']');
    append_char(&mut s, '\n');
    s
}

// ---------------------------------------------------------------------------
// What the file gives back
/// An address that the file keeps unchanged: not empty, no surrounding
/// whitespace, and neither `,` nor `"` inside.
pub open spec fn plain_addr(a: Seq<char>) -> bool {
    &&& a.len() > 0
    &&& trim(a) == a
    &&& forall|i: int| 0 <= i < a.len() ==> a[i] != ',' && a[i] != '"'
}

proof fn lemma_strip_start_cons(c: char, y: Seq<char>, kind: StripKind)
    ensures
        strip_start(seq![c] + y, kind) == if strips(kind, c) {
            strip_start(y, kind)
        } else {
            seq![c] + y
        },
{
    assert((seq![c] + y).drop_first() == y);
    assert((seq![c] + y)[0] == c);
}

proof fn lemma_strip_end_snoc(y: Seq<char>, c: char, kind: StripKind)
    ensures
        strip_end(y.push(c), kind) == if strips(kind, c) {
            strip_end(y, kind)
        } else {
            y.push(c)
        },
{
    assert(y.push(c).drop_last() == y);
}

proof fn lemma_strip_end_keeps(y: Seq<char>, kind: StripKind)
    requires
        y.len() > 0,
        !strips(kind, y.last()),
    ensures
        strip_end(y, kind) == y,
{
}

proof fn lemma_strip_start_keeps(y: Seq<char>, kind: StripKind)
    requires
        y.len() > 0,
        !strips(kind, y[0]),
    ensures
        strip_start(y, kind) == y,
{
}

/// A text with a character that a strip keeps does not strip to nothing.
proof fn lemma_strip_start_nonempty(s: Seq<char>, kind: StripKind, i: int)
    requires
        0 <= i < s.len(),
        !strips(kind, s[i]),
    ensures
        strip_start(s, kind).len() > 0,
        !strips(kind, strip_start(s, kind)[0]),
    decreases s.len(),
{
    if strips(kind, s[0]) {
        lemma_strip_start_nonempty(s.drop_first(), kind, i - 1);
    }
}

proof fn lemma_strip_end_nonempty(s: Seq<char>, kind: StripKind)
    requires
        s.len() > 0,
        !strips(kind, s[0]),
    ensures
        strip_end(s, kind).len() > 0,
    decreases s.len(),
{
    if strips(kind, s.last()) {
        lemma_strip_end_nonempty(s.drop_last(), kind);
    }
}

proof fn lemma_trim_nonempty(s: Seq<char>, i: int)
    requires
        0 <= i < s.len(),
        !is_ws(s[i]),
    ensures
        trim(s).len() > 0,
{
    lemma_strip_start_nonempty(s, StripKind::Whitespace, i);
    lemma_strip_end_nonempty(strip_start(s, StripKind::Whitespace), StripKind::Whitespace);
}

/// The address on its line of the file is the address.
proof fn lemma_candidate_of_line(a: Seq<char>, tail: Seq<char>)
    requires
        plain_addr(a),
        tail == Seq::<char>::empty() || tail == seq!['\n'],
    ensures
        addr_candidate(seq!['\n'] + quoted_line(a) + tail) == a,
{
    let ws = StripKind::Whitespace;
    let q = StripKind::Quote;
    let inner = seq!['"'] + a + seq!['"'];
    let x = seq!['\n'] + quoted_line(a) + tail;
    assert(x == seq!['\n'] + (seq![' '] + (seq![' '] + (inner + tail))));
    lemma_strip_start_cons('\n', seq![' '] + (seq![' '] + (inner + tail)), ws);
    lemma_strip_start_cons(' ', seq![' '] + (inner + tail), ws);
    lemma_strip_start_cons(' ', inner + tail, ws);
    assert((inner + tail)[0] == '"');
    lemma_strip_start_keeps(inner + tail, ws);
    assert(strip_start(x, ws) == inner + tail);
    if tail.len() == 0 {
        assert(inner + tail == inner);
    } else {
        assert(inner + tail == inner.push('\n'));
        lemma_strip_end_snoc(inner, '\n', ws);
    }
    assert(inner.last() == '"');
    lemma_strip_end_keeps(inner, ws);
    assert(trim(x) == inner);
    assert(inner == seq!['"'] + (a + seq!['"']));
    lemma_strip_start_cons('"', a + seq!['"'], q);
    assert((a + seq!['"'])[0] == a[0]);
    lemma_strip_start_keeps(a + seq!['"'], q);
    assert(a + seq!['"'] == a.push('"'));
    lemma_strip_end_snoc(a, '"', q);
    assert(a.last() == a[a.len() - 1]);
    lemma_strip_end_keeps(a, q);
    assert(strip(inner, q) == a);
}

proof fn lemma_quoted_lines_start(addrs: Seq<Seq<char>>)
    requires
        addrs.len() > 0,
    ensures
        quoted_lines(addrs).len() >= 3,
        quoted_lines(addrs)[2] == '"',
    decreases addrs.len(),
{
    if addrs.len() > 1 {
        lemma_quoted_lines_start(addrs.drop_last());
    }
}

/// A text without the separator is a single piece.
proof fn lemma_split_single(s: Seq<char>, sep: char)
    requires
        forall|i: int| 0 <= i < s.len() ==> s[i] != sep,
    ensures
        split_on(s, sep) == seq![s],
    decreases s.len(),
{
    if s.len() > 0 {
        let w = s.drop_last();
        assert forall|i: int| 0 <= i < w.len() implies w[i] != sep by {
            assert(w[i] == s[i]);
        }
        lemma_split_single(w, sep);
        lemma_split_push(w, s.last(), sep);
        assert(s.last() == s[s.len() - 1]);
        assert(w.push(s.last()) == s);
    } else {
        assert(s == Seq::<char>::empty());
    }
}

/// The lines of the addresses, each after a line break.
pub open spec fn address_lines(addrs: Seq<Seq<char>>) -> Seq<Seq<char>> {
    Seq::new(addrs.len(), |k: int| seq!['\n'] + quoted_line(addrs[k]))
}

proof fn lemma_split_quoted_lines(addrs: Seq<Seq<char>>)
    requires
        addrs.len() > 0,
        forall|k: int| 0 <= k < addrs.len() ==> plain_addr(#[trigger] addrs[k]),
    ensures
        split_on(seq!['\n'] + quoted_lines(addrs), ',') == address_lines(addrs),
    decreases addrs.len(),
{
    if addrs.len() == 1 {
        let s = seq!['\n'] + quoted_line(addrs[0]);
        assert(plain_addr(addrs[0]));
        assert(s == seq!['\n', ' ', ' ', '"'] + addrs[0] + seq!['"']);
        assert forall|i: int| 0 <= i < s.len() implies s[i] != ',' by {
            if 4 <= i < 4 + addrs[0].len() {
                assert(s[i] == addrs[0][i - 4]);
            }
        }
        lemma_split_single(s, ',');
        assert(address_lines(addrs) == seq![s]);
    } else {
        let rest = addrs.drop_last();
        let last = addrs.last();
        assert forall|k: int| 0 <= k < rest.len() implies plain_addr(#[trigger] rest[k]) by {
            assert(rest[k] == addrs[k]);
        }
        lemma_split_quoted_lines(rest);
        assert(plain_addr(addrs[addrs.len() - 1]));
        let v = seq!['\n'] + quoted_line(last);
        assert(v == seq!['\n', ' ', ' ', '"'] + last + seq!['"']);
        assert forall|i: int| 0 <= i < v.len() implies v[i] != ',' by {
            if 4 <= i < 4 + last.len() {
                assert(v[i] == last[i - 4]);
            }
        }
        assert(seq!['\n'] + quoted_lines(addrs) == (seq!['\n'] + quoted_lines(rest)) + seq![','] + v);
        lemma_split_after_separator(seq!['\n'] + quoted_lines(rest), v, ',');
        assert(address_lines(rest).push(v) == address_lines(addrs));
    }
}

proof fn lemma_candidates_of_lines(addrs: Seq<Seq<char>>)
    requires
        forall|k: int| 0 <= k < addrs.len() ==> plain_addr(#[trigger] addrs[k]) && valid_tcp_addr(
            addrs[k],
        ),
    ensures
        valid_candidates(address_lines(addrs)) == addrs.to_set(),
    decreases addrs.len(),
{
    if addrs.len() == 0 {
        assert(addrs.to_set() =~= Set::<Seq<char>>::empty());
    } else {
        let rest = addrs.drop_last();
        assert forall|k: int| 0 <= k < rest.len() implies plain_addr(#[trigger] rest[k])
            && valid_tcp_addr(rest[k]) by {
            assert(rest[k] == addrs[k]);
        }
        lemma_candidates_of_lines(rest);
        assert(plain_addr(addrs[addrs.len() - 1]) && valid_tcp_addr(addrs[addrs.len() - 1]));
        lemma_candidate_of_line(addrs.last(), Seq::<char>::empty());
        assert(seq!['\n'] + quoted_line(addrs.last()) + Seq::<char>::empty() == seq!['\n']
            + quoted_line(addrs.last()));
        assert(address_lines(addrs).drop_last() == address_lines(rest));
        assert(address_lines(addrs).last() == seq!['\n'] + quoted_line(addrs.last()));
        assert(rest.push(addrs.last()) == addrs);
        assert(addrs.to_set() =~= rest.to_set().insert(addrs.last())) by {
            Seq::<Seq<char>>::lemma_to_set_insert_commutes(rest, addrs.last());
        }
    }
}

/// Two sorted lists that hold the same texts are the same list.
pub proof fn lemma_sorted_lists_with_same_texts(a: Seq<Seq<char>>, b: Seq<Seq<char>>)
    requires
        strictly_sorted(a),
        strictly_sorted(b),
        a.to_set() == b.to_set(),
    ensures
        a == b,
    decreases a.len(),
{
    if a.len() == 0 {
        if b.len() > 0 {
            assert(b.to_set().contains(b[0]));
        }
        assert(b.len() == 0);
        assert(a == b);
    } else {
        assert(a.to_set().contains(a[0]));
        assert(b.len() > 0);
        assert(b.to_set().contains(b[0]));
        // The first texts of both are the smallest of the common texts.
        assert(a[0] == b[0]) by {
            let j = choose|j: int| 0 <= j < b.len() && b[j] == a[0];
            let k = choose|k: int| 0 <= k < a.len() && a[k] == b[0];
            if j > 0 {
                assert(text_lt(b[0], b[j]));
                if k > 0 {
                    assert(text_lt(a[0], a[k]));
                    lemma_text_lt_asymmetric(a[0], b[0]);
                } else {
                    lemma_text_lt_irreflexive(a[0]);
                }
            }
        }
        let ta = a.drop_first();
        let tb = b.drop_first();
        assert(strictly_sorted(ta)) by {
            assert forall|i: int, j: int| 0 <= i < j < ta.len() implies text_lt(
                #[trigger] ta[i],
                #[trigger] ta[j],
            ) by {
                assert(ta[i] == a[i + 1] && ta[j] == a[j + 1]);
            }
        }
        assert(strictly_sorted(tb)) by {
            assert forall|i: int, j: int| 0 <= i < j < tb.len() implies text_lt(
                #[trigger] tb[i],
                #[trigger] tb[j],
            ) by {
                assert(tb[i] == b[i + 1] && tb[j] == b[j + 1]);
            }
        }
        assert(ta.to_set() =~= tb.to_set()) by {
            assert forall|x: Seq<char>| ta.to_set().contains(x) implies tb.to_set().contains(x) by {
                let i = choose|i: int| 0 <= i < ta.len() && ta[i] == x;
                assert(a[i + 1] == x);
                assert(text_lt(a[0], x));
                assert(a.to_set().contains(x));
                let j = choose|j: int| 0 <= j < b.len() && b[j] == x;
                if j == 0 {
                    lemma_text_lt_irreflexive(x);
                }
                assert(tb[j - 1] == x);
            }
            assert forall|x: Seq<char>| tb.to_set().contains(x) implies ta.to_set().contains(x) by {
                let i = choose|i: int| 0 <= i < tb.len() && tb[i] == x;
                assert(b[i + 1] == x);
                assert(text_lt(b[0], x));
                assert(b.to_set().contains(x));
                let j = choose|j: int| 0 <= j < a.len() && a[j] == x;
                if j == 0 {
                    lemma_text_lt_irreflexive(x);
                }
                assert(ta[j - 1] == x);
            }
        }
        lemma_sorted_lists_with_same_texts(ta, tb);
        assert(a == seq![a[0]] + ta);
        assert(b == seq![b[0]] + tb);
    }
}

/// Law: the file of saved addresses gives back the list that was written to
/// it. For a sorted list of valid addresses that have no surrounding
/// whitespace and hold neither `,` nor `"`, the text that
/// `format_saved_tcp_addrs` writes is bracketed, names exactly those
/// addresses, and the only sorted list of them is the list itself, which is
/// therefore what `parse_saved_tcp_addrs` returns.
pub proof fn law_saved_addrs_round_trip(addrs: Seq<Seq<char>>)
    requires
        strictly_sorted(addrs),
        forall|k: int| 0 <= k < addrs.len() ==> plain_addr(#[trigger] addrs[k]) && valid_tcp_addr(
            addrs[k],
        ),
    ensures
        saved_list_body(saved_file(addrs)) is Some,
        saved_addrs(saved_list_body(saved_file(addrs))->0) == addrs.to_set(),
        forall|r: Seq<Seq<char>>|
            strictly_sorted(r) && r.to_set() == saved_addrs(saved_list_body(saved_file(addrs))->0)
                ==> r == addrs,
{
    let ws = StripKind::Whitespace;
    let f = saved_file(addrs);
    if addrs.len() == 0 {
        let t = seq!['[', ']'];
        assert(f == seq!['['] + seq![']', '\n']);
        lemma_strip_start_cons('[', seq![']', '\n'], ws);
        assert(f == t.push('\n'));
        lemma_strip_end_snoc(t, '\n', ws);
        lemma_strip_end_keeps(t, ws);
        assert(trim(f) == t);
        assert(t.subrange(1, 1) == Seq::<char>::empty());
        assert(trim(Seq::<char>::empty()) == Seq::<char>::empty());
        assert(addrs.to_set() =~= Set::<Seq<char>>::empty());
    } else {
        let q = quoted_lines(addrs);
        let t = seq!['[', '\n'] + q + seq!['\n', ']'];
        assert(f == t.push('\n'));
        assert(t == seq!['['] + (seq!['\n'] + q + seq!['\n', ']']));
        lemma_strip_start_cons('[', seq!['\n'] + q + seq!['\n', ']'], ws);
        assert(strip_start(f, ws) == f) by {
            lemma_strip_start_keeps(f, ws);
        }
        lemma_strip_end_snoc(t, '\n', ws);
        lemma_strip_end_keeps(t, ws);
        assert(trim(f) == t);
        let body = seq!['\n'] + q + seq!['\n'];
        assert(t.subrange(1, t.len() - 1) == body);
        assert(saved_list_body(f) == Some(body));
        // The body is not blank: its fourth character is a quote.
        lemma_quoted_lines_start(addrs);
        assert(body[3] == q[2]);
        lemma_trim_nonempty(body, 3);
        // Its entries are the lines of the addresses, the last with a line break.
        lemma_split_quoted_lines(addrs);
        assert(body == (seq!['\n'] + q).push('\n'));
        lemma_split_push(seq!['\n'] + q, '\n', ',');
        let lines = address_lines(addrs);
        let pieces = split_on(body, ',');
        assert(pieces == lines.update(lines.len() - 1, lines.last().push('\n')));
        assert(pieces.drop_last() == lines.drop_last());
        assert(lines.drop_last() == address_lines(addrs.drop_last()));
        let rest = addrs.drop_last();
        assert forall|k: int| 0 <= k < rest.len() implies plain_addr(#[trigger] rest[k])
            && valid_tcp_addr(rest[k]) by {
            assert(rest[k] == addrs[k]);
        }
        lemma_candidates_of_lines(rest);
        assert(plain_addr(addrs[addrs.len() - 1]) && valid_tcp_addr(addrs[addrs.len() - 1]));
        assert(pieces.last() == seq!['\n'] + quoted_line(addrs.last()) + seq!['\n']);
        lemma_candidate_of_line(addrs.last(), seq!['\n']);
        assert(pieces == pieces.drop_last().push(pieces.last()));
        lemma_valid_candidates_push(pieces.drop_last(), pieces.last());
        assert(rest.push(addrs.last()) == addrs);
        assert(addrs.to_set() =~= rest.to_set().insert(addrs.last())) by {
            Seq::<Seq<char>>::lemma_to_set_insert_commutes(rest, addrs.last());
        }
    }
    assert forall|r: Seq<Seq<char>>|
        strictly_sorted(r) && r.to_set() == saved_addrs(
            saved_list_body(saved_file(addrs))->0,
        ) implies r == addrs by {
        lemma_sorted_lists_with_same_texts(r, addrs);
    }
}

} // verus!
