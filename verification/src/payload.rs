//! Baton payloads and iMotions packets.
//!
//! Baton sends each telemetry sample as one line of `;`-prefixed values. The
//! relay splits such a line into fields and frames each sample as an iMotions
//! event packet, `E;1;PilotDataSync;;;;;<Event>;<values...>\r\n`.
use vstd::prelude::*;
use vstd::string::StringExecFns;

use crate::text::{
    append_char, chars_of, chars_start_with, lemma_split_after_separator, lemma_split_nonempty,
    lemma_split_push, remove_crlf, split_on, starts_with, strip_end, strip_start, strips,
    is_ws, StripKind,
    string_of, trim, trim_chars,
};

verus! {

/// `s` with every `;` turned into `,`.
pub open spec fn replace_semicolons(s: Seq<char>) -> Seq<char> {
    s.map_values(|c: char| if c == ';' { ',' } else { c })
}

/// A field made safe for an iMotions packet: no line breaks, no `;`, trimmed.
pub open spec fn sanitized(s: Seq<char>) -> Seq<char> {
    trim(replace_semicolons(remove_crlf(s)))
}

/// The trimmed pieces that are not empty, in order.
pub open spec fn keep_fields(pieces: Seq<Seq<char>>) -> Seq<Seq<char>>
    decreases pieces.len(),
{
    if pieces.len() == 0 {
        Seq::<Seq<char>>::empty()
    } else {
        let rest = keep_fields(pieces.drop_last());
        let f = trim(pieces.last());
        if f.len() > 0 {
            rest.push(f)
        } else {
            rest
        }
    }
}

/// The fields of a baton payload: line breaks removed, split on `;`, each
/// piece trimmed, empty pieces dropped.
pub open spec fn baton_fields(raw: Seq<char>) -> Seq<Seq<char>> {
    keep_fields(split_on(remove_crlf(raw), ';'))
}

/// The values, each preceded by a `;`.
pub open spec fn semicolon_prefixed(values: Seq<Seq<char>>) -> Seq<char>
    decreases values.len(),
{
    if values.len() == 0 {
        Seq::<char>::empty()
    } else {
        semicolon_prefixed(values.drop_last()) + seq![';'] + values.last()
    }
}

/// The fixed start of every iMotions event packet.
pub open spec fn packet_header() -> Seq<char> {
    "E;1;PilotDataSync;;;;;"@
}

/// The iMotions event packet for `event` carrying `fields`.
pub open spec fn imotions_packet(event: Seq<char>, fields: Seq<Seq<char>>) -> Seq<char> {
    packet_header() + event + semicolon_prefixed(fields) + seq!['\r', '\n']
}

/// The iMotions event of the `k`-th sample, in the order in which the relay
/// sends them.
pub open spec fn sample_event(k: int) -> Seq<char> {
    if k == 0 {
        "AltitudeSync"@
    } else if k == 1 {
        "AirspeedSync"@
    } else if k == 2 {
        "VerticalVelocitySync"@
    } else if k == 3 {
        "HeadingSync"@
    } else if k == 4 {
        "RollSync"@
    } else if k == 5 {
        "PitchSync"@
    } else if k == 6 {
        "YawSync"@
    } else {
        "GForceSync"@
    }
}

/// Where the value of the `k`-th sample stands in a pilot-only payload, which
/// lists altitude, airspeed, heading, vertical velocity, roll, pitch, yaw and
/// g-force.
pub open spec fn pilot_value_index(k: int) -> int {
    if k == 2 {
        3
    } else if k == 3 {
        2
    } else {
        k
    }
}

/// The packets that one payload of `fields` turns into.
///
/// Fewer than two fields: none. Four or eight fields: pilot-only values, each
/// sent as both the flight-model and the pilot value. Otherwise: consecutive
/// (flight-model, pilot) pairs, one packet per complete pair, at most eight.
pub open spec fn planned_packets(fields: Seq<Seq<char>>) -> Seq<Seq<char>> {
    if fields.len() < 2 {
        Seq::<Seq<char>>::empty()
    } else if fields.len() == 4 || fields.len() == 8 {
        Seq::new(
            fields.len(),
            |k: int|
                imotions_packet(
                    sample_event(k),
                    seq![fields[pilot_value_index(k)], fields[pilot_value_index(k)]],
                ),
        )
    } else {
        let n = if fields.len() / 2 < 8 {
            fields.len() / 2
        } else {
            8
        };
        Seq::new(n, |k: int| imotions_packet(sample_event(k), seq![fields[2 * k], fields[2 * k + 1]]))
    }
}

/// Whether a failed send ends the relaying of the remaining packets of a
/// payload: it does for pilot-only payloads, not for paired ones.
pub open spec fn stops_on_send_error(fields: Seq<Seq<char>>) -> bool {
    fields.len() == 4 || fields.len() == 8
}

/// The packets to send for one baton payload, and what a failed send does.
pub struct PacketPlan {
    pub packets: Vec<String>,
    pub stop_on_send_error: bool,
}

/// A line that the relay read from baton's socket.
pub enum IpcLine {
    /// Nothing was read.
    Empty,
    /// Baton is shutting down.
    Shutdown,
    /// A telemetry payload, without its line terminator.
    Data(String),
}

proof fn lemma_remove_crlf_identity(s: Seq<char>)
    requires
        forall|i: int| 0 <= i < s.len() ==> s[i] != '\r' && s[i] != '\n',
    ensures
        remove_crlf(s) == s,
    decreases s.len(),
{
    if s.len() > 0 {
        lemma_remove_crlf_identity(s.drop_last());
        assert(s.drop_last().push(s.last()) == s);
    }
}

proof fn lemma_remove_crlf_push(s: Seq<char>, c: char)
    ensures
        remove_crlf(s.push(c)) == if c == '\r' || c == '\n' {
            remove_crlf(s)
        } else {
            remove_crlf(s).push(c)
        },
{
    assert(s.push(c).drop_last() == s);
}

proof fn lemma_keep_fields_push(pieces: Seq<Seq<char>>, p: Seq<char>)
    ensures
        keep_fields(pieces.push(p)) == if trim(p).len() > 0 {
            keep_fields(pieces).push(trim(p))
        } else {
            keep_fields(pieces)
        },
{
    assert(pieces.push(p).drop_last() == pieces);
}

/// A sanitized piece of a payload that has no line breaks and no `;` is the
/// trimmed piece.
proof fn lemma_sanitized_plain(p: Seq<char>)
    requires
        forall|i: int| 0 <= i < p.len() ==> p[i] != '\r' && p[i] != '\n' && p[i] != ';',
    ensures
        sanitized(p) == trim(p),
{
    lemma_remove_crlf_identity(p);
    assert(replace_semicolons(p) == p);
}

/// A value that baton can send unchanged: not empty, no surrounding
/// whitespace, and neither `;` nor a line break inside.
pub open spec fn plain_value(v: Seq<char>) -> bool {
    &&& v.len() > 0
    &&& trim(v) == v
    &&& forall|i: int| 0 <= i < v.len() ==> v[i] != ';' && v[i] != '\r' && v[i] != '\n'
}

proof fn lemma_prefixed_no_crlf(values: Seq<Seq<char>>)
    requires
        forall|k: int| 0 <= k < values.len() ==> plain_value(#[trigger] values[k]),
    ensures
        forall|i: int|
            0 <= i < semicolon_prefixed(values).len() ==> semicolon_prefixed(values)[i] != '\r'
                && semicolon_prefixed(values)[i] != '\n',
    decreases values.len(),
{
    if values.len() > 0 {
        let rest = values.drop_last();
        assert forall|k: int| 0 <= k < rest.len() implies plain_value(#[trigger] rest[k]) by {
            assert(rest[k] == values[k]);
        }
        lemma_prefixed_no_crlf(rest);
        let a = semicolon_prefixed(rest) + seq![';'];
        let v = values.last();
        assert(plain_value(values[values.len() - 1]));
        assert forall|i: int|
            0 <= i < semicolon_prefixed(values).len() implies semicolon_prefixed(values)[i] != '\r'
            && semicolon_prefixed(values)[i] != '\n' by {
            if i < semicolon_prefixed(rest).len() {
                assert(semicolon_prefixed(values)[i] == semicolon_prefixed(rest)[i]);
            } else if i == semicolon_prefixed(rest).len() {
                assert(semicolon_prefixed(values)[i] == ';');
            } else {
                assert(semicolon_prefixed(values)[i] == v[i - a.len()]);
            }
        }
    }
}

proof fn lemma_split_prefixed(values: Seq<Seq<char>>)
    requires
        forall|k: int| 0 <= k < values.len() ==> plain_value(#[trigger] values[k]),
    ensures
        split_on(semicolon_prefixed(values), ';') == seq![Seq::<char>::empty()] + values,
    decreases values.len(),
{
    if values.len() == 0 {
        assert(semicolon_prefixed(values) == Seq::<char>::empty());
        assert(seq![Seq::<char>::empty()] + values == seq![Seq::<char>::empty()]);
    } else {
        let rest = values.drop_last();
        assert forall|k: int| 0 <= k < rest.len() implies plain_value(#[trigger] rest[k]) by {
            assert(rest[k] == values[k]);
        }
        lemma_split_prefixed(rest);
        assert(plain_value(values[values.len() - 1]));
        lemma_split_after_separator(semicolon_prefixed(rest), values.last(), ';');
        assert((seq![Seq::<char>::empty()] + rest).push(values.last()) == seq![
            Seq::<char>::empty(),
        ] + values);
    }
}

proof fn lemma_keep_plain(values: Seq<Seq<char>>)
    requires
        forall|k: int| 0 <= k < values.len() ==> plain_value(#[trigger] values[k]),
    ensures
        keep_fields(seq![Seq::<char>::empty()] + values) == values,
    decreases values.len(),
{
    let e = Seq::<char>::empty();
    if values.len() == 0 {
        assert(seq![e] + values == seq![e]);
        assert(seq![e] == Seq::<Seq<char>>::empty().push(e));
        lemma_keep_fields_push(Seq::<Seq<char>>::empty(), e);
        assert(trim(e) == e);
    } else {
        let rest = values.drop_last();
        assert forall|k: int| 0 <= k < rest.len() implies plain_value(#[trigger] rest[k]) by {
            assert(rest[k] == values[k]);
        }
        lemma_keep_plain(rest);
        assert(plain_value(values[values.len() - 1]));
        assert((seq![e] + values).drop_last() == seq![e] + rest);
        assert((seq![e] + values).last() == values.last());
        assert(rest.push(values.last()) == values);
        assert(seq![e] + values == (seq![e] + rest).push(values.last()));
        lemma_keep_fields_push(seq![e] + rest, values.last());
        assert(trim(values.last()) == values.last());
    }
}

/// Law: the relay recovers exactly the values that baton sends. For values
/// that are not empty, have no surrounding whitespace and hold no `;` and no
/// line break, the fields of the payload `;v1;...;vn` are `v1, ..., vn`.
pub proof fn law_sent_values_are_recovered(values: Seq<Seq<char>>)
    requires
        forall|k: int| 0 <= k < values.len() ==> plain_value(#[trigger] values[k]),
    ensures
        baton_fields(semicolon_prefixed(values)) == values,
{
    lemma_prefixed_no_crlf(values);
    lemma_remove_crlf_identity(semicolon_prefixed(values));
    lemma_split_prefixed(values);
    lemma_keep_plain(values);
}

/// Law: a full sample that baton sends, eight plain values, becomes eight
/// iMotions events, altitude, airspeed, vertical velocity, heading, roll,
/// pitch, yaw and g-force, each carrying its value twice, and a failed send
/// ends the relaying of the sample.
pub proof fn law_full_sample_becomes_eight_events(values: Seq<Seq<char>>)
    requires
        values.len() == 8,
        forall|k: int| 0 <= k < values.len() ==> plain_value(#[trigger] values[k]),
    ensures
        planned_packets(baton_fields(semicolon_prefixed(values))) == Seq::new(
            8,
            |k: int|
                imotions_packet(
                    sample_event(k),
                    seq![values[pilot_value_index(k)], values[pilot_value_index(k)]],
                ),
        ),
        stops_on_send_error(baton_fields(semicolon_prefixed(values))),
{
    law_sent_values_are_recovered(values);
    assert(planned_packets(values) =~= Seq::new(
        8,
        |k: int|
            imotions_packet(
                sample_event(k),
                seq![values[pilot_value_index(k)], values[pilot_value_index(k)]],
            ),
    ));
}

/// The characters `v` made safe for a packet field.
fn sanitize_chars(v: &[char]) -> (r: Vec<char>)
    ensures
        r@ == sanitized(v@),
{
    let mut w: Vec<char> = Vec::new();
    let mut i: usize = 0;
    while i < v.len()
        invariant
            i <= v@.len(),
            w@ == replace_semicolons(remove_crlf(v@.subrange(0, i as int))),
        decreases v.len() - i,
    {
        let c = v[i];
        proof {
            assert(v@.subrange(0, i + 1) == v@.subrange(0, i as int).push(c));
            lemma_remove_crlf_push(v@.subrange(0, i as int), c);
        }
        if c == '\r' || c == '\n' {
        } else if c == ';' {
            w.push(',');
            assert(w@ == replace_semicolons(remove_crlf(v@.subrange(0, i + 1))));
        } else {
            w.push(c);
            assert(w@ == replace_semicolons(remove_crlf(v@.subrange(0, i + 1))));
        }
        i = i + 1;
    }
    assert(v@.subrange(0, v@.len() as int) == v@);
    trim_chars(w.as_slice())
}

/// A field made safe for an iMotions packet: line breaks removed, `;` turned
/// into `,`, surrounding whitespace trimmed.
pub fn sanitize_field(s: &str) -> (r: String)
    ensures
        r@ == sanitized(s@),
{
    let v = chars_of(s);
    let w = sanitize_chars(v.as_slice());
    string_of(w.as_slice())
}

/// The fields of a baton payload, each sanitized, with empty fields dropped.
pub fn normalize_baton_payload(raw: &str) -> (fields: Vec<String>)
    ensures
        fields.deep_view() == baton_fields(raw@),
{
    let v = chars_of(raw);
    let mut out: Vec<String> = Vec::new();
    let mut cur: Vec<char> = Vec::new();
    let mut i: usize = 0;
    proof {
        assert(v@.subrange(0, 0) == Seq::<char>::empty());
        assert(out.deep_view() == keep_fields(Seq::<Seq<char>>::empty()));
    }
    while i < v.len()
        invariant
            i <= v@.len(),
            split_on(remove_crlf(v@.subrange(0, i as int)), ';').len() >= 1,
            out.deep_view() == keep_fields(
                split_on(remove_crlf(v@.subrange(0, i as int)), ';').drop_last(),
            ),
            cur@ == split_on(remove_crlf(v@.subrange(0, i as int)), ';').last(),
            forall|j: int|
                0 <= j < cur@.len() ==> cur@[j] != '\r' && cur@[j] != '\n' && cur@[j] != ';',
        decreases v.len() - i,
    {
        let c = v[i];
        let ghost t = remove_crlf(v@.subrange(0, i as int));
        let ghost pieces = split_on(t, ';');
        proof {
            assert(v@.subrange(0, i + 1) == v@.subrange(0, i as int).push(c));
            lemma_remove_crlf_push(v@.subrange(0, i as int), c);
            lemma_split_push(t, c, ';');
            assert(pieces.drop_last().push(pieces.last()) == pieces);
        }
        if c == '\r' || c == '\n' {
        } else if c == ';' {
            let f = sanitize_chars(cur.as_slice());
            proof {
                lemma_sanitized_plain(cur@);
                lemma_keep_fields_push(pieces.drop_last(), pieces.last());
                assert(pieces.push(Seq::<char>::empty()).drop_last() == pieces);
                lemma_split_nonempty(t.push(c), ';');
            }
            if f.len() > 0 {
                let fs = string_of(f.as_slice());
                let ghost before = out.deep_view();
                out.push(fs);
                assert(out.deep_view() == before.push(f@));
            }
            cur = Vec::new();
            assert(cur@ == Seq::<char>::empty());
        } else {
            cur.push(c);
            proof {
                assert(pieces.update(pieces.len() - 1, pieces.last().push(c)).drop_last()
                    == pieces.drop_last());
                lemma_split_nonempty(t.push(c), ';');
            }
        }
        i = i + 1;
    }
    let ghost pieces = split_on(remove_crlf(v@.subrange(0, v@.len() as int)), ';');
    assert(v@.subrange(0, v@.len() as int) == v@);
    let f = sanitize_chars(cur.as_slice());
    proof {
        lemma_sanitized_plain(cur@);
        lemma_keep_fields_push(pieces.drop_last(), pieces.last());
        assert(pieces.drop_last().push(pieces.last()) == pieces);
    }
    if f.len() > 0 {
        let fs = string_of(f.as_slice());
        let ghost before = out.deep_view();
        out.push(fs);
        assert(out.deep_view() == before.push(f@));
    }
    out
}

/// Appends each of `values` to `s`, each preceded by a `;`.
fn append_semicolon_prefixed(s: &mut String, values: &[String])
    ensures
        final(s)@ == old(s)@ + semicolon_prefixed(values.deep_view()),
{
    let ghost start = s@;
    let mut i: usize = 0;
    while i < values.len()
        invariant
            i <= values@.len(),
            s@ == start + semicolon_prefixed(values.deep_view().subrange(0, i as int)),
        decreases values.len() - i,
    {
        let ghost before = s@;
        append_char(s, ';');
        s.append(values[i].as_str());
        proof {
            let vs = values.deep_view().subrange(0, i + 1);
            assert(vs.drop_last() == values.deep_view().subrange(0, i as int));
            assert(vs.last() == values[i as int]@);
            assert(s@ == start + semicolon_prefixed(vs));
        }
        i = i + 1;
    }
    assert(values.deep_view().subrange(0, values@.len() as int) == values.deep_view());
}

/// The values, each preceded by a `;`: the line that baton sends for one
/// sample, without its terminator.
pub fn join_with_leading_semicolons(values: &[String]) -> (s: String)
    ensures
        s@ == semicolon_prefixed(values.deep_view()),
{
    let mut s = String::new();
    append_semicolon_prefixed(&mut s, values);
    s
}

/// The iMotions event packet for `event_name` carrying `fields`.
pub fn build_imotions_packet(event_name: &str, fields: &[String]) -> (packet: String)
    ensures
        packet@ == imotions_packet(event_name@, fields.deep_view()),
{
    let mut packet = String::from_str("E;1;PilotDataSync;;;;;");
    packet.append(event_name);
    append_semicolon_prefixed(&mut packet, fields);
    append_char(&mut packet, '\r');
    append_char(&mut packet, '\n');
    packet
}

/// The iMotions event of the `k`-th sample.
pub fn sample_event_name(k: usize) -> (name: &'static str)
    requires
        k < 8,
    ensures
        name@ == sample_event(k as int),
{
    if k == 0 {
        "AltitudeSync"
    } else if k == 1 {
        "AirspeedSync"
    } else if k == 2 {
        "VerticalVelocitySync"
    } else if k == 3 {
        "HeadingSync"
    } else if k == 4 {
        "RollSync"
    } else if k == 5 {
        "PitchSync"
    } else if k == 6 {
        "YawSync"
    } else {
        "GForceSync"
    }
}

fn pilot_value_index_exec(k: usize) -> (i: usize)
    ensures
        i as int == pilot_value_index(k as int),
{
    if k == 2 {
        3
    } else if k == 3 {
        2
    } else {
        k
    }
}

/// The packets that the fields of one payload turn into, and whether a failed
/// send ends the relaying of the rest.
pub fn plan_packets(fields: &Vec<String>) -> (plan: PacketPlan)
    ensures
        plan.packets.deep_view() == planned_packets(fields.deep_view()),
        plan.stop_on_send_error == stops_on_send_error(fields.deep_view()),
{
    let len = fields.len();
    let mut packets: Vec<String> = Vec::new();
    let ghost fv = fields.deep_view();
    if len < 2 {
        assert(packets.deep_view() == planned_packets(fv));
        return PacketPlan { packets, stop_on_send_error: false };
    }
    if len == 4 || len == 8 {
        let mut k: usize = 0;
        while k < len
            invariant
                len == fields@.len(),
                len == 4 || len == 8,
                fv == fields.deep_view(),
                k <= len,
                packets.deep_view() == planned_packets(fv).subrange(0, k as int),
            decreases len - k,
        {
            let i = pilot_value_index_exec(k);
            let mut pair: Vec<String> = Vec::new();
            pair.push(fields[i].clone());
            pair.push(fields[i].clone());
            assert(pair.deep_view() == seq![fv[i as int], fv[i as int]]);
            let p = build_imotions_packet(sample_event_name(k), pair.as_slice());
            let ghost before = packets.deep_view();
            packets.push(p);
            assert(packets.deep_view() == before.push(p@));
            assert(planned_packets(fv).subrange(0, k + 1) == planned_packets(fv).subrange(
                0,
                k as int,
            ).push(planned_packets(fv)[k as int]));
            k = k + 1;
        }
        assert(planned_packets(fv).subrange(0, len as int) == planned_packets(fv));
        return PacketPlan { packets, stop_on_send_error: true };
    }
    let n = if len / 2 < 8 {
        len / 2
    } else {
        8
    };
    let mut k: usize = 0;
    while k < n
        invariant
            len == fields@.len(),
            len >= 2,
            len != 4 && len != 8,
            n == (if len / 2 < 8 {
                len / 2
            } else {
                8
            }),
            fv == fields.deep_view(),
            k <= n,
            packets.deep_view() == planned_packets(fv).subrange(0, k as int),
        decreases n - k,
    {
        let mut pair: Vec<String> = Vec::new();
        pair.push(fields[2 * k].clone());
        pair.push(fields[2 * k + 1].clone());
        assert(pair.deep_view() == seq![fv[2 * k], fv[2 * k + 1]]);
        let p = build_imotions_packet(sample_event_name(k), pair.as_slice());
        let ghost before = packets.deep_view();
        packets.push(p);
        assert(packets.deep_view() == before.push(p@));
        assert(planned_packets(fv).subrange(0, k + 1) == planned_packets(fv).subrange(
            0,
            k as int,
        ).push(planned_packets(fv)[k as int]));
        k = k + 1;
    }
    assert(planned_packets(fv).subrange(0, n as int) == planned_packets(fv));
    PacketPlan { packets, stop_on_send_error: false }
}

/// The packets to send for one baton payload: the payload is normalized into
/// fields and the fields are framed as iMotions packets.
pub fn packets_for_payload(raw: &str) -> (plan: PacketPlan)
    ensures
        plan.packets.deep_view() == planned_packets(baton_fields(raw@)),
        plan.stop_on_send_error == stops_on_send_error(baton_fields(raw@)),
{
    let fields = normalize_baton_payload(raw);
    plan_packets(&fields)
}

/// What a line read from baton's socket means. The last character of the line
/// is its terminator and is dropped; a line that then starts with `SHUTDOWN`
/// announces that baton is shutting down.
pub fn classify_ipc_line(line: &str) -> (r: IpcLine)
    ensures
        line@.len() == 0 ==> r is Empty,
        line@.len() > 0 && starts_with(line@.drop_last(), "SHUTDOWN"@) ==> r is Shutdown,
        line@.len() > 0 && !starts_with(line@.drop_last(), "SHUTDOWN"@) ==> (r matches IpcLine::Data(
            d,
        ) && d@ == line@.drop_last()),
{
    let v = chars_of(line);
    if v.len() == 0 {
        return IpcLine::Empty;
    }
    let mut body = v;
    body.pop();
    assert(body@ == line@.drop_last());
    let marker = chars_of("SHUTDOWN");
    if chars_start_with(body.as_slice(), marker.as_slice()) {
        IpcLine::Shutdown
    } else {
        IpcLine::Data(string_of(body.as_slice()))
    }
}


/// The text that a packet carrying the two values `a` and `b` ends with.
proof fn lemma_two_values(a: Seq<char>, b: Seq<char>)
    ensures
        semicolon_prefixed(seq![a, b]) == seq![';'] + a + seq![';'] + b,
{
    assert(seq![a, b].drop_last() =~= seq![a]);
    assert(seq![a].drop_last() =~= Seq::<Seq<char>>::empty());
    reveal_with_fuel(semicolon_prefixed, 3);
    assert(semicolon_prefixed(seq![a]) =~= seq![';'] + a);
}

/// The `k`-th event, in the order altitude, airspeed, vertical velocity,
/// heading, roll, pitch, yaw, g-force.
proof fn lemma_event_order(k: int)
    requires
        0 <= k < 8,
    ensures
        sample_event(k) == seq![
            "AltitudeSync"@,
            "AirspeedSync"@,
            "VerticalVelocitySync"@,
            "HeadingSync"@,
            "RollSync"@,
            "PitchSync"@,
            "YawSync"@,
            "GForceSync"@,
        ][k],
{
}

/// Law: a payload of (flight-model, pilot) pairs, of at least two fields and
/// neither four nor eight, becomes one packet per complete pair, at most
/// eight; packet `k` is the `PilotDataSync` event `k` of the order altitude,
/// airspeed, vertical velocity, heading, roll, pitch, yaw, g-force, carrying
/// fields `2k` and `2k + 1`.
pub proof fn law_paired_samples_in_event_order(fields: Seq<Seq<char>>, k: int)
    requires
        fields.len() >= 2,
        fields.len() != 4,
        fields.len() != 8,
        0 <= k < fields.len() / 2,
        k < 8,
    ensures
        planned_packets(fields).len() == (if fields.len() / 2 < 8 {
            fields.len() / 2
        } else {
            8
        }),
        planned_packets(fields)[k] == "E;1;PilotDataSync;;;;;"@ + seq![
            "AltitudeSync"@,
            "AirspeedSync"@,
            "VerticalVelocitySync"@,
            "HeadingSync"@,
            "RollSync"@,
            "PitchSync"@,
            "YawSync"@,
            "GForceSync"@,
        ][k] + seq![';'] + fields[2
            * k] + seq![';'] + fields[2 * k + 1] + seq!['\r', '\n'],
{
    lemma_event_order(k);
    lemma_two_values(fields[2 * k], fields[2 * k + 1]);
    assert(planned_packets(fields)[k] =~= "E;1;PilotDataSync;;;;;"@ + seq![
            "AltitudeSync"@,
            "AirspeedSync"@,
            "VerticalVelocitySync"@,
            "HeadingSync"@,
            "RollSync"@,
            "PitchSync"@,
            "YawSync"@,
            "GForceSync"@,
        ][k] + seq![';']
        + fields[2 * k] + seq![';'] + fields[2 * k + 1] + seq!['\r', '\n']);
}

/// Law: a pilot-only payload of four or eight values, which lists altitude,
/// airspeed, heading, vertical velocity, roll, pitch, yaw and g-force, becomes
/// one packet per value; packet `k` is the `PilotDataSync` event `k` of the
/// order altitude, airspeed, vertical velocity, heading, roll, pitch, yaw,
/// g-force, carrying its value twice, so that the vertical velocity and the
/// heading values trade places.
pub proof fn law_pilot_values_in_event_order(fields: Seq<Seq<char>>, k: int)
    requires
        fields.len() == 4 || fields.len() == 8,
        0 <= k < fields.len(),
    ensures
        planned_packets(fields).len() == fields.len(),
        planned_packets(fields)[k] == "E;1;PilotDataSync;;;;;"@ + seq![
            "AltitudeSync"@,
            "AirspeedSync"@,
            "VerticalVelocitySync"@,
            "HeadingSync"@,
            "RollSync"@,
            "PitchSync"@,
            "YawSync"@,
            "GForceSync"@,
        ][k] + seq![';']
            + fields[seq![0int, 1, 3, 2, 4, 5, 6, 7][k]] + seq![';'] + fields[seq![0int, 1, 3, 2, 4, 5, 6, 7][k]]
            + seq!['\r', '\n'],
{
    lemma_event_order(k);
    let v = fields[seq![0int, 1, 3, 2, 4, 5, 6, 7][k]];
    assert(pilot_value_index(k) == seq![0int, 1, 3, 2, 4, 5, 6, 7][k]);
    lemma_two_values(v, v);
    assert(planned_packets(fields)[k] =~= "E;1;PilotDataSync;;;;;"@ + seq![
            "AltitudeSync"@,
            "AirspeedSync"@,
            "VerticalVelocitySync"@,
            "HeadingSync"@,
            "RollSync"@,
            "PitchSync"@,
            "YawSync"@,
            "GForceSync"@,
        ][k] + seq![';'] + v
        + seq![';'] + v + seq!['\r', '\n']);
}


/// Stripping the start of a text leaves a suffix of it that does not start
/// with a stripped character.
proof fn lemma_strip_start_suffix(s: Seq<char>, kind: StripKind) -> (a: int)
    ensures
        0 <= a <= s.len(),
        strip_start(s, kind) == s.skip(a),
        strip_start(s, kind).len() > 0 ==> !strips(kind, strip_start(s, kind)[0]),
    decreases s.len(),
{
    if s.len() > 0 && strips(kind, s[0]) {
        let b = lemma_strip_start_suffix(s.drop_first(), kind);
        assert(s.drop_first().skip(b) =~= s.skip(b + 1));
        b + 1
    } else {
        assert(s.skip(0) =~= s);
        0
    }
}

/// Stripping the end of a text leaves a prefix of it that does not end with
/// a stripped character.
proof fn lemma_strip_end_prefix(s: Seq<char>, kind: StripKind) -> (b: int)
    ensures
        0 <= b <= s.len(),
        strip_end(s, kind) == s.take(b),
        strip_end(s, kind).len() > 0 ==> !strips(kind, strip_end(s, kind).last()),
    decreases s.len(),
{
    if s.len() > 0 && strips(kind, s.last()) {
        let b = lemma_strip_end_prefix(s.drop_last(), kind);
        assert(s.drop_last().take(b) =~= s.take(b));
        b
    } else {
        assert(s.take(s.len() as int) =~= s);
        s.len() as int
    }
}

/// Removing line breaks leaves none.
proof fn lemma_remove_crlf_leaves_none(s: Seq<char>)
    ensures
        forall|i: int|
            0 <= i < remove_crlf(s).len() ==> #[trigger] remove_crlf(s)[i] != '\r'
                && remove_crlf(s)[i] != '\n',
    decreases s.len(),
{
    if s.len() > 0 {
        lemma_remove_crlf_leaves_none(s.drop_last());
        let r = remove_crlf(s.drop_last());
        if !(s.last() == '\r' || s.last() == '\n') {
            assert forall|i: int| 0 <= i < r.push(s.last()).len() implies #[trigger] r.push(
                s.last(),
            )[i] != '\r' && r.push(s.last())[i] != '\n' by {
                if i < r.len() {
                    assert(r.push(s.last())[i] == r[i]);
                }
            }
        }
    }
}

/// Law: a field of a packet never breaks the packet: once sanitized it holds
/// no `;` and no line break, and it neither starts nor ends with whitespace;
/// a field that was already so is sent as it is.
pub proof fn law_sanitized_field_is_safe(s: Seq<char>)
    ensures
        forall|i: int|
            0 <= i < sanitized(s).len() ==> #[trigger] sanitized(s)[i] != ';' && sanitized(s)[i]
                != '\r' && sanitized(s)[i] != '\n',
        sanitized(s).len() > 0 ==> !is_ws(sanitized(s)[0]) && !is_ws(sanitized(s).last()),
        (forall|i: int| 0 <= i < s.len() ==> #[trigger] s[i] != ';' && s[i] != '\r' && s[i] != '\n')
            && (s.len() > 0 ==> !is_ws(s[0]) && !is_ws(s.last())) ==> sanitized(s) == s,
{
    let x = replace_semicolons(remove_crlf(s));
    lemma_remove_crlf_leaves_none(s);
    assert forall|i: int| 0 <= i < x.len() implies #[trigger] x[i] != ';' && x[i] != '\r' && x[i]
        != '\n' by {
        assert(remove_crlf(s)[i] != '\r' && remove_crlf(s)[i] != '\n');
    }
    let st = strip_start(x, StripKind::Whitespace);
    let a = lemma_strip_start_suffix(x, StripKind::Whitespace);
    let b = lemma_strip_end_prefix(st, StripKind::Whitespace);
    let r = sanitized(s);
    assert(r == st.take(b));
    assert forall|i: int| 0 <= i < r.len() implies #[trigger] r[i] != ';' && r[i] != '\r' && r[i]
        != '\n' by {
        assert(r[i] == x[a + i]);
    }
    if r.len() > 0 {
        assert(r[0] == st[0]);
    }
    if (forall|i: int| 0 <= i < s.len() ==> #[trigger] s[i] != ';' && s[i] != '\r' && s[i] != '\n')
        && (s.len() > 0 ==> !is_ws(s[0]) && !is_ws(s.last())) {
        lemma_sanitized_plain(s);
        assert(replace_semicolons(s) =~= s);
        assert(strip_start(s, StripKind::Whitespace) == s);
        assert(strip_end(s, StripKind::Whitespace) == s);
    }
}

} // verus!
