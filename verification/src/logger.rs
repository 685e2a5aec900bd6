//! Timestamped log entries, and the throttle that keeps the relay's console
//! log from repeating itself.
use vstd::prelude::*;
use vstd::string::StringExecFns;

use crate::text::{
    append_char, decimal, decimal_pad3, decimal_pad3_string, decimal_string, digit_char,
    strings_equal,
};

verus! {

/// How long an unchanged message stays quiet, in milliseconds.
pub const LOG_FLUSH_INTERVAL_MS: u64 = 2000;

/// `secs.millis` of a time given in milliseconds since the Unix epoch, the
/// milliseconds padded to three digits.
pub open spec fn epoch_text(epoch_ms: u64) -> Seq<char> {
    decimal((epoch_ms / 1000) as nat) + seq!['.'] + decimal_pad3((epoch_ms % 1000) as nat)
}

/// `[secs.millis] text`.
pub open spec fn timestamped(epoch_ms: u64, text: Seq<char>) -> Seq<char> {
    seq!['['] + epoch_text(epoch_ms) + seq![']', ' '] + text
}

/// `level - msg`, what the console log compares to spot a repeat.
pub open spec fn log_body(level: Seq<char>, msg: Seq<char>) -> Seq<char> {
    level + seq![' ', '-', ' '] + msg
}

/// A line of baton's log file: timestamped, or marked when the clock reads
/// before the Unix epoch.
pub open spec fn baton_log_line(epoch_ms: Option<u64>, message: Seq<char>) -> Seq<char> {
    match epoch_ms {
        Some(ms) => timestamped(ms, message),
        None => "[TIME_ERROR] "@ + message,
    }
}

/// The time in milliseconds since the Unix epoch as `secs.millis`.
pub fn epoch_timestamp(epoch_ms: u64) -> (s: String)
    ensures
        s@ == epoch_text(epoch_ms),
{
    let mut s = decimal_string(epoch_ms / 1000);
    append_char(&mut s, '.');
    let m = decimal_pad3_string(epoch_ms % 1000);
    s.append(m.as_str());
    s
}

/// `text` behind the timestamp of `epoch_ms`: `[secs.millis] text`.
pub fn timestamped_entry(epoch_ms: u64, text: &str) -> (s: String)
    ensures
        s@ == timestamped(epoch_ms, text@),
{
    let mut s = String::new();
    append_char(&mut s, '[');
    let t = epoch_timestamp(epoch_ms);
    s.append(t.as_str());
    append_char(&mut s, ']');
    append_char(&mut s, ' ');
    s.append(text);
    s
}

/// `level - msg`.
pub fn make_log_body(level: &str, msg: &str) -> (s: String)
    ensures
        s@ == log_body(level@, msg@),
{
    let mut s = String::from_str(level);
    append_char(&mut s, ' ');
    append_char(&mut s, '-');
    append_char(&mut s, ' ');
    s.append(msg);
    s
}

/// A line of baton's log file.
pub fn make_baton_log_line(epoch_ms: Option<u64>, message: &str) -> (s: String)
    ensures
        s@ == baton_log_line(epoch_ms, message@),
{
    match epoch_ms {
        Some(ms) => timestamped_entry(ms, message),
        None => {
            let mut s = String::from_str("[TIME_ERROR] ");
            s.append(message);
            s
        },
    }
}


/// The upper-case hexadecimal digit of `d < 16`.
pub open spec fn hex_digit(d: nat) -> char {
    if d < 10 {
        digit_char(d)
    } else if d == 10 {
        'A'
    } else if d == 11 {
        'B'
    } else if d == 12 {
        'C'
    } else if d == 13 {
        'D'
    } else if d == 14 {
        'E'
    } else {
        'F'
    }
}

/// `format!("{:02X}", b)`.
pub open spec fn hex_byte(b: u8) -> Seq<char> {
    seq![hex_digit((b / 16) as nat), hex_digit((b % 16) as nat)]
}

/// The bytes in upper-case hexadecimal, two digits each, separated by spaces.
pub open spec fn hex_dump(bytes: Seq<u8>) -> Seq<char>
    decreases bytes.len(),
{
    if bytes.len() == 0 {
        Seq::<char>::empty()
    } else if bytes.len() == 1 {
        hex_byte(bytes[0])
    } else {
        hex_dump(bytes.drop_last()) + seq![' '] + hex_byte(bytes.last())
    }
}

fn hex_digit_exec(d: u8) -> (c: char)
    requires
        d < 16,
    ensures
        c == hex_digit(d as nat),
{
    if d == 0 { '0' }
    else if d == 1 { '1' }
    else if d == 2 { '2' }
    else if d == 3 { '3' }
    else if d == 4 { '4' }
    else if d == 5 { '5' }
    else if d == 6 { '6' }
    else if d == 7 { '7' }
    else if d == 8 { '8' }
    else if d == 9 { '9' }
    else if d == 10 { 'A' }
    else if d == 11 { 'B' }
    else if d == 12 { 'C' }
    else if d == 13 { 'D' }
    else if d == 14 { 'E' }
    else { 'F' }
}

/// The bytes of a packet as the console shows them: upper-case hexadecimal
/// pairs separated by spaces.
pub fn hex_dump_string(bytes: &[u8]) -> (s: String)
    ensures
        s@ == hex_dump(bytes@),
{
    let mut s = String::new();
    let mut i: usize = 0;
    while i < bytes.len()
        invariant
            i <= bytes@.len(),
            s@ == hex_dump(bytes@.subrange(0, i as int)),
        decreases bytes.len() - i,
    {
        let b = bytes[i];
        let ghost pre = bytes@.subrange(0, i + 1);
        assert(pre.drop_last() == bytes@.subrange(0, i as int));
        if i > 0 {
            append_char(&mut s, ' ');
        }
        append_char(&mut s, hex_digit_exec(b / 16));
        append_char(&mut s, hex_digit_exec(b % 16));
        proof {
            if i == 0 {
                assert(pre.len() == 1);
                assert(hex_dump(bytes@.subrange(0, 0)) == Seq::<char>::empty());
            }
        }
        i = i + 1;
    }
    assert(bytes@.subrange(0, bytes@.len() as int) == bytes@);
    s
}

/// What the throttle remembers: when it last let a message through, and the
/// last message that differed from its predecessor.
pub struct ThrottleView {
    pub last_flush: u64,
    pub last_msg: Option<Seq<char>>,
}

/// Whether a message that repeats the last one may be logged again at `now`.
pub open spec fn interval_passed(last_flush: u64, now: u64) -> bool {
    now >= last_flush && now - last_flush >= LOG_FLUSH_INTERVAL_MS
}

/// Whether the throttle lets `body` through at `now`: a new message always,
/// a repeat once the interval has passed since the last message logged.
pub open spec fn throttle_lets_through(v: ThrottleView, body: Seq<char>, now: u64) -> bool {
    v.last_msg != Some(body) || interval_passed(v.last_flush, now)
}

/// What the throttle remembers after it was asked about `body` at `now`.
pub open spec fn throttle_after(v: ThrottleView, body: Seq<char>, now: u64) -> ThrottleView {
    if v.last_msg != Some(body) {
        ThrottleView { last_flush: now, last_msg: Some(body) }
    } else if interval_passed(v.last_flush, now) {
        ThrottleView { last_flush: now, last_msg: v.last_msg }
    } else {
        v
    }
}

/// Decides which console messages are printed: a message that differs from
/// the last one at once, the same message again at most once per interval.
pub struct LogThrottle {
    last_flush: u64,
    last_msg: Option<String>,
}

impl View for LogThrottle {
    type V = ThrottleView;

    closed spec fn view(&self) -> ThrottleView {
        ThrottleView {
            last_flush: self.last_flush,
            last_msg: match self.last_msg {
                Some(m) => Some(m@),
                None => None,
            },
        }
    }
}

impl LogThrottle {
    /// A throttle that has logged nothing, started at `now`.
    pub fn new(now: u64) -> (t: LogThrottle)
        ensures
            t@ == (ThrottleView { last_flush: now, last_msg: None }),
    {
        LogThrottle { last_flush: now, last_msg: None }
    }

    /// Whether `body` is to be printed at `now`; the throttle remembers it.
    pub fn should_print(&mut self, body: &str, now: u64) -> (printed: bool)
        ensures
            printed == throttle_lets_through(old(self)@, body@, now),
            final(self)@ == throttle_after(old(self)@, body@, now),
    {
        let same = match &self.last_msg {
            Some(m) => strings_equal(m.as_str(), body),
            None => false,
        };
        if !same {
            self.last_msg = Some(String::from_str(body));
            self.last_flush = now;
            return true;
        }
        if now >= self.last_flush && now - self.last_flush >= LOG_FLUSH_INTERVAL_MS {
            self.last_flush = now;
            return true;
        }
        false
    }
}

/// Law: a message that differs from the last one is always printed.
pub proof fn law_new_message_is_printed(v: ThrottleView, body: Seq<char>, now: u64)
    requires
        v.last_msg != Some(body),
    ensures
        throttle_lets_through(v, body, now),
{
}

/// Law: once a message was printed at `t`, the same message is not printed
/// again before the interval has passed, and is printed once it has.
pub proof fn law_repeat_waits_for_interval(v: ThrottleView, body: Seq<char>, t: u64, later: u64)
    requires
        throttle_lets_through(v, body, t),
        t <= later,
    ensures
        throttle_lets_through(throttle_after(v, body, t), body, later) <==> later - t
            >= LOG_FLUSH_INTERVAL_MS,
{
}

} // verus!
