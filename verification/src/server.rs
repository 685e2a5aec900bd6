//! The mock iMotions server's logic: the port to listen on, and the packets
//! that a connection's bytes hold.
use vstd::prelude::*;
use vstd::string::StringExecFns;

use crate::text::chars_of;

verus! {

/// The port that the mock server listens on when none is given, so that the
/// relay can be pointed at `127.0.0.1:7878`.
pub const DEFAULT_PORT: u16 = 7878;

/// The value of a decimal digit character.
pub open spec fn digit_value(c: char) -> Option<nat> {
    if c == '0' {
        Some(0)
    } else if c == '1' {
        Some(1)
    } else if c == '2' {
        Some(2)
    } else if c == '3' {
        Some(3)
    } else if c == '4' {
        Some(4)
    } else if c == '5' {
        Some(5)
    } else if c == '6' {
        Some(6)
    } else if c == '7' {
        Some(7)
    } else if c == '8' {
        Some(8)
    } else if c == '9' {
        Some(9)
    } else {
        None
    }
}

/// Every character of `s` is a decimal digit.
pub open spec fn all_digits(s: Seq<char>) -> bool {
    forall|i: int| 0 <= i < s.len() ==> digit_value(#[trigger] s[i]) is Some
}

/// The number that the decimal digits `s` write.
pub open spec fn digits_number(s: Seq<char>) -> nat
    decreases s.len(),
{
    if s.len() == 0 {
        0
    } else {
        digits_number(s.drop_last()) * 10 + digit_value(s.last())->0
    }
}

/// `str::parse::<u16>`: an optional `+` followed by at least one decimal
/// digit, writing a number no greater than 65535.
pub open spec fn parsed_u16(s: Seq<char>) -> Option<u16> {
    let digits = if s.len() > 0 && s[0] == '+' {
        s.drop_first()
    } else {
        s
    };
    if digits.len() > 0 && all_digits(digits) && digits_number(digits) <= 65535 {
        Some(digits_number(digits) as u16)
    } else {
        None
    }
}

/// The message that refuses the port argument `s`.
pub open spec fn invalid_port_message(s: Seq<char>) -> Seq<char> {
    "Invalid port: "@ + s
}

fn digit_of(c: char) -> (d: Option<u32>)
    ensures
        d is Some <==> digit_value(c) is Some,
        d matches Some(v) ==> v as nat == digit_value(c)->0 && v < 10,
{
    if c == '0' {
        Some(0)
    } else if c == '1' {
        Some(1)
    } else if c == '2' {
        Some(2)
    } else if c == '3' {
        Some(3)
    } else if c == '4' {
        Some(4)
    } else if c == '5' {
        Some(5)
    } else if c == '6' {
        Some(6)
    } else if c == '7' {
        Some(7)
    } else if c == '8' {
        Some(8)
    } else if c == '9' {
        Some(9)
    } else {
        None
    }
}

proof fn lemma_digits_number_grows(s: Seq<char>, k: int)
    requires
        0 <= k <= s.len(),
        all_digits(s),
    ensures
        digits_number(s.subrange(0, k)) <= digits_number(s),
    decreases s.len() - k,
{
    if k < s.len() {
        lemma_digits_number_grows(s, k + 1);
        let t = s.subrange(0, k + 1);
        assert(t.drop_last() == s.subrange(0, k));
        assert(digit_value(t.last()) is Some) by {
            assert(t.last() == s[k]);
        }
    } else {
        assert(s.subrange(0, k) == s);
    }
}

/// `s.parse::<u16>()`, the number if `s` writes one that fits.
pub fn parse_u16(s: &str) -> (r: Option<u16>)
    ensures
        r == parsed_u16(s@),
{
    let v = chars_of(s);
    let start: usize = if v.len() > 0 && v[0] == '+' {
        1
    } else {
        0
    };
    let ghost digits = if s@.len() > 0 && s@[0] == '+' {
        s@.drop_first()
    } else {
        s@
    };
    assert(digits == v@.subrange(start as int, v@.len() as int));
    if start >= v.len() {
        return None;
    }
    let mut value: u32 = 0;
    let mut i: usize = start;
    while i < v.len()
        invariant
            start <= i <= v@.len(),
            start < v@.len(),
            v@ == s@,
            digits == (if s@.len() > 0 && s@[0] == '+' {
                s@.drop_first()
            } else {
                s@
            }),
            digits == v@.subrange(start as int, v@.len() as int),
            all_digits(v@.subrange(start as int, i as int)),
            value as nat == digits_number(v@.subrange(start as int, i as int)),
            value <= 65535,
        decreases v.len() - i,
    {
        let ghost prefix = v@.subrange(start as int, i as int);
        let ghost next = v@.subrange(start as int, i + 1);
        assert(next.drop_last() == prefix);
        assert(next.last() == v@[i as int]);
        match digit_of(v[i]) {
            None => {
                assert(!all_digits(digits)) by {
                    assert(digits[i - start] == v@[i as int]);
                }
                return None;
            },
            Some(d) => {
                let bigger = value * 10 + d;
                if bigger > 65535 {
                    assert(digits_number(next) > 65535);
                    proof {
                        if all_digits(digits) {
                            lemma_digits_number_grows(digits, i + 1 - start);
                            assert(digits.subrange(0, i + 1 - start) == next);
                        }
                    }
                    return None;
                }
                assert(all_digits(next)) by {
                    assert forall|j: int| 0 <= j < next.len() implies digit_value(
                        #[trigger] next[j],
                    ) is Some by {
                        if j < prefix.len() {
                            assert(next[j] == prefix[j]);
                        }
                    }
                }
                value = bigger;
            },
        }
        i = i + 1;
    }
    assert(v@.subrange(start as int, i as int) == digits);
    Some(value as u16)
}

/// The port that the mock server listens on: the default when no argument is
/// given, else the argument read as a port number.
pub fn parse_port(arg: Option<String>) -> (r: Result<u16, String>)
    ensures
        arg is None ==> r == Ok::<u16, String>(DEFAULT_PORT),
        arg matches Some(s) ==> match parsed_u16(s@) {
            Some(p) => r == Ok::<u16, String>(p),
            None => r matches Err(e) && e@ == invalid_port_message(s@),
        },
{
    match arg {
        None => Ok(DEFAULT_PORT),
        Some(s) => match parse_u16(s.as_str()) {
            Some(p) => Ok(p),
            None => {
                let mut e = String::from_str("Invalid port: ");
                e.append(s.as_str());
                Err(e)
            },
        },
    }
}

/// The packets that the bytes `s` complete, read after the unfinished packet
/// `pending`, and the bytes of the packet that is then unfinished. A packet
/// ends with a line break, which it keeps.
pub open spec fn frame(pending: Seq<u8>, s: Seq<u8>) -> (Seq<Seq<u8>>, Seq<u8>)
    decreases s.len(),
{
    if s.len() == 0 {
        (Seq::empty(), pending)
    } else {
        let (lines, rest) = frame(pending, s.drop_last());
        if s.last() == 10u8 {
            (lines.push(rest.push(10u8)), Seq::empty())
        } else {
            (lines, rest.push(s.last()))
        }
    }
}

/// The packets that a connection's bytes `s` hold: the complete ones, then
/// the unfinished last one, if there is one.
pub open spec fn packets(s: Seq<u8>) -> Seq<Seq<u8>> {
    let (lines, rest) = frame(Seq::empty(), s);
    if rest.len() == 0 {
        lines
    } else {
        lines.push(rest)
    }
}

/// Cuts the bytes that arrive on a connection into packets.
pub struct PacketFramer {
    /// The bytes of the packet that is not finished yet.
    pub pending: Vec<u8>,
}

impl PacketFramer {
    /// No bytes yet.
    pub fn new() -> (f: PacketFramer)
        ensures
            f.pending@.len() == 0,
    {
        PacketFramer { pending: Vec::new() }
    }

    /// Takes the next bytes of the connection, and returns the packets that
    /// they complete.
    pub fn push(&mut self, chunk: &[u8]) -> (lines: Vec<Vec<u8>>)
        ensures
            (lines.deep_view(), final(self).pending@) == frame(old(self).pending@, chunk@),
    {
        let mut lines: Vec<Vec<u8>> = Vec::new();
        let mut i: usize = 0;
        while i < chunk.len()
            invariant
                i <= chunk.len(),
                (lines.deep_view(), self.pending@) == frame(old(self).pending@, chunk@.take(i as int)),
            decreases chunk.len() - i,
        {
            let b = chunk[i];
            assert(chunk@.take(i as int + 1).drop_last() =~= chunk@.take(i as int));
            let ghost before = lines.deep_view();
            if b == 10u8 {
                self.pending.push(b);
                let ghost finished = self.pending@;
                let mut line: Vec<u8> = Vec::new();
                std::mem::swap(&mut line, &mut self.pending);
                assert(line.deep_view() =~= finished);
                lines.push(line);
                assert(lines.deep_view() =~= before.push(finished));
            } else {
                self.pending.push(b);
            }
            i = i + 1;
        }
        assert(chunk@.take(i as int) =~= chunk@);
        lines
    }

    /// The connection closed: the unfinished packet, if any, is the last one.
    pub fn finish(self) -> (last: Option<Vec<u8>>)
        ensures
            self.pending@.len() == 0 ==> last is None,
            self.pending@.len() > 0 ==> (last matches Some(l) && l@ == self.pending@),
    {
        if self.pending.len() == 0 {
            None
        } else {
            Some(self.pending)
        }
    }
}

/// The number of packets that a connection's bytes `data` hold.
pub fn count_packets(data: &[u8]) -> (n: u64)
    requires
        data@.len() < u64::MAX,
    ensures
        n == packets(data@).len(),
{
    let mut framer = PacketFramer::new();
    assert(framer.pending@ =~= Seq::<u8>::empty());
    let lines = framer.push(data);
    assert(lines.deep_view().len() == lines@.len());
    proof {
        lemma_frame_count_bounded(Seq::empty(), data@);
    }
    let mut n = lines.len() as u64;
    match framer.finish() {
        Some(_) => n = n + 1,
        None => {},
    }
    n
}

/// Framing never yields more packets than it reads bytes.
proof fn lemma_frame_count_bounded(pending: Seq<u8>, s: Seq<u8>)
    ensures
        frame(pending, s).0.len() <= s.len(),
    decreases s.len(),
{
    if s.len() > 0 {
        lemma_frame_count_bounded(pending, s.drop_last());
    }
}


/// The packets `ps` one after the other.
pub open spec fn joined(ps: Seq<Seq<u8>>) -> Seq<u8>
    decreases ps.len(),
{
    if ps.len() == 0 {
        Seq::empty()
    } else {
        joined(ps.drop_last()) + ps.last()
    }
}

proof fn lemma_joined_push(ps: Seq<Seq<u8>>, p: Seq<u8>)
    ensures
        joined(ps.push(p)) == joined(ps) + p,
{
    assert(ps.push(p).drop_last() =~= ps);
}

/// Framing keeps every byte, in order, and each packet it completes is
/// nonempty.
proof fn lemma_frame_keeps_bytes(pending: Seq<u8>, s: Seq<u8>)
    ensures
        joined(frame(pending, s).0) + frame(pending, s).1 == pending + s,
        forall|k: int|
            0 <= k < frame(pending, s).0.len() ==> #[trigger] frame(pending, s).0[k].len() > 0,
    decreases s.len(),
{
    if s.len() > 0 {
        let (lines, rest) = frame(pending, s.drop_last());
        lemma_frame_keeps_bytes(pending, s.drop_last());
        assert(pending + s =~= (pending + s.drop_last()).push(s.last()));
        if s.last() == 10u8 {
            lemma_joined_push(lines, rest.push(10u8));
            assert(joined(lines) + rest.push(10u8) =~= (joined(lines) + rest).push(10u8));
            assert(joined(lines.push(rest.push(10u8))) + Seq::<u8>::empty() =~= joined(
                lines.push(rest.push(10u8)),
            ));
        } else {
            assert(joined(lines) + rest.push(s.last()) =~= (joined(lines) + rest).push(s.last()));
        }
    }
}

/// Law: the packets that the mock server counts give back the bytes it
/// received, in order and with none lost, and none of them is empty.
pub proof fn law_packets_give_back_the_bytes(s: Seq<u8>)
    ensures
        joined(packets(s)) == s,
        forall|k: int| 0 <= k < packets(s).len() ==> #[trigger] packets(s)[k].len() > 0,
{
    lemma_frame_keeps_bytes(Seq::empty(), s);
    let (lines, rest) = frame(Seq::empty(), s);
    assert(Seq::<u8>::empty() + s =~= s);
    if rest.len() == 0 {
        assert(joined(lines) + rest =~= joined(lines));
    } else {
        lemma_joined_push(lines, rest);
    }
}



/// The value of a decimal digit is its distance from `0`.
proof fn lemma_digit_value_is_code_distance(d: char)
    ensures
        digit_value(d) is Some <==> 48 <= (d as int) <= 57,
        digit_value(d) is Some ==> digit_value(d)->0 == (d as int) - 48,
{
}

/// Law: a port argument is read as `str::parse::<u16>` reads it. Nothing,
/// or a lone `+`, is no number; any character beyond a leading `+` that is
/// not a decimal digit refuses the text; a leading `+` changes nothing; a
/// single digit is its value; and a digit written after a number makes ten
/// times that number plus the digit, refused once it passes 65535.
pub proof fn law_port_text_is_decimal(s: Seq<char>, d: char)
    ensures
        parsed_u16(Seq::empty()) is None,
        parsed_u16(seq!['+']) is None,
        (exists|i: int|
            0 <= i < s.len() && !(48 <= (#[trigger] s[i] as int) <= 57) && !(i == 0 && s[i]
                == '+')) ==> parsed_u16(s) is None,
        (s.len() > 0 && s[0] != '+') ==> parsed_u16(seq!['+'] + s) == parsed_u16(s),
        48 <= (d as int) <= 57 ==> parsed_u16(seq![d]) == Some(((d as int) - 48) as u16),
        (48 <= (d as int) <= 57 && s.len() > 0 && s[0] != '+' && parsed_u16(s) is Some)
            ==> parsed_u16(s.push(d)) == (if parsed_u16(s)->0 * 10 + ((d as int) - 48) <= 65535 {
            Some((parsed_u16(s)->0 * 10 + ((d as int) - 48)) as u16)
        } else {
            None::<u16>
        }),
        (48 <= (d as int) <= 57 && s.len() > 0 && s[0] != '+' && parsed_u16(s) is None)
            ==> parsed_u16(s.push(d)) is None,
{
    lemma_digit_value_is_code_distance(d);
    assert(seq!['+'].drop_first() =~= Seq::<char>::empty());
    if s.len() > 0 && s[0] != '+' {
        assert((seq!['+'] + s)[0] == '+');
        assert((seq!['+'] + s).drop_first() =~= s);
        let t = s.push(d);
        assert(t[0] == s[0]);
        assert(t.drop_last() =~= s);
        if 48 <= (d as int) <= 57 {
            if all_digits(s) {
                assert(all_digits(t)) by {
                    assert forall|i: int| 0 <= i < t.len() implies digit_value(#[trigger] t[i]) is Some by {
                        if i < s.len() {
                            assert(t[i] == s[i]);
                        }
                    }
                }
            } else {
                let i = choose|i: int| 0 <= i < s.len() && !(digit_value(#[trigger] s[i]) is Some);
                assert(t[i] == s[i]);
            }
        }
    }
    if exists|i: int|
        0 <= i < s.len() && !(48 <= (#[trigger] s[i] as int) <= 57) && !(i == 0 && s[i] == '+') {
        let i = choose|i: int|
            0 <= i < s.len() && !(48 <= (#[trigger] s[i] as int) <= 57) && !(i == 0 && s[i] == '+');
        lemma_digit_value_is_code_distance(s[i]);
        if s.len() > 0 && s[0] == '+' {
            assert(s.drop_first()[i - 1] == s[i]);
        }
    }
    if 48 <= (d as int) <= 57 {
        assert(seq![d].drop_last() =~= Seq::<char>::empty());
        assert(seq![d].last() == d);
    }
}

} // verus!
