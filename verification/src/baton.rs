//! The decisions of baton, the plugin side of the IPC link: how long to wait
//! between attempts to reach the relay, when to give up, and the lines it
//! writes.
use vstd::prelude::*;

use crate::payload::{
    baton_fields, imotions_packet, law_full_sample_becomes_eight_events, pilot_value_index,
    plain_value, planned_packets, sample_event, semicolon_prefixed,
};
use crate::text::{append_char, starts_with};
use vstd::string::StringExecFns;

verus! {

/// The wait after the first failed attempt to reach the relay, in ms.
pub const FIRST_RETRY_DELAY_MS: u64 = 500;

/// The longest wait between two attempts, in ms.
pub const MAX_RETRY_DELAY_MS: u64 = 5000;

/// The failed attempts after which baton gives up.
pub const MAX_CONNECT_ATTEMPTS: u32 = 20;

/// The would-block reads after which a wait for a reply gives up.
pub const MAX_READ_WAITS: u32 = 100;

/// The wait after the `n`-th failed attempt, counted from 0: it starts at
/// half a second and doubles up to five seconds.
pub open spec fn retry_delay(n: nat) -> nat
    decreases n,
{
    if n == 0 {
        FIRST_RETRY_DELAY_MS as nat
    } else {
        let d = retry_delay((n - 1) as nat) * 2;
        if d < MAX_RETRY_DELAY_MS {
            d
        } else {
            MAX_RETRY_DELAY_MS as nat
        }
    }
}

/// The time spent waiting after the first `n` failed attempts.
pub open spec fn total_retry_wait(n: nat) -> nat
    decreases n,
{
    if n == 0 {
        0
    } else {
        total_retry_wait((n - 1) as nat) + retry_delay((n - 1) as nat)
    }
}

/// The schedule of baton's attempts to reach the relay.
pub struct ConnectRetry {
    /// The wait after the next failed attempt, in ms.
    pub delay_ms: u64,
    /// The attempts that failed so far.
    pub failures: u32,
}

/// What to do after an attempt failed.
pub struct RetryStep {
    /// How long to wait, in ms.
    pub sleep_ms: u64,
    /// Whether to stop trying once the wait is over.
    pub give_up: bool,
}

impl ConnectRetry {
    /// No attempt failed yet.
    pub fn new() -> (r: ConnectRetry)
        ensures
            r.failures == 0,
            r.delay_ms == retry_delay(0),
    {
        ConnectRetry { delay_ms: FIRST_RETRY_DELAY_MS, failures: 0 }
    }

    /// Records a failed attempt: baton waits the current delay, the delay
    /// doubles up to its cap, and baton gives up after the twentieth failure.
    pub fn on_connect_failure(&mut self) -> (step: RetryStep)
        requires
            old(self).delay_ms <= MAX_RETRY_DELAY_MS,
            old(self).failures < u32::MAX,
        ensures
            step.sleep_ms == old(self).delay_ms,
            final(self).failures == old(self).failures + 1,
            final(self).delay_ms == (if old(self).delay_ms * 2 < MAX_RETRY_DELAY_MS {
                old(self).delay_ms * 2
            } else {
                MAX_RETRY_DELAY_MS as int
            }),
            old(self).delay_ms == retry_delay(old(self).failures as nat) ==> final(self).delay_ms
                == retry_delay(final(self).failures as nat),
            step.give_up == (final(self).failures >= MAX_CONNECT_ATTEMPTS),
    {
        let sleep_ms = self.delay_ms;
        self.failures = self.failures + 1;
        let doubled = self.delay_ms * 2;
        self.delay_ms = if doubled < MAX_RETRY_DELAY_MS {
            doubled
        } else {
            MAX_RETRY_DELAY_MS
        };
        RetryStep { sleep_ms, give_up: self.failures >= MAX_CONNECT_ATTEMPTS }
    }
}

/// Law: baton gives up on the relay after twenty failed attempts, having
/// waited 87.5 seconds between them in all: half a second, then one, two,
/// four, and five seconds for each attempt after that.
pub proof fn law_baton_gives_up_after_twenty_attempts()
    ensures
        retry_delay(0) == 500,
        retry_delay(1) == 1000,
        retry_delay(2) == 2000,
        retry_delay(3) == 4000,
        forall|n: nat| 4 <= n ==> #[trigger] retry_delay(n) == 5000,
        total_retry_wait(MAX_CONNECT_ATTEMPTS as nat) == 87_500,
{
    reveal_with_fuel(retry_delay, 5);
    assert forall|n: nat| 4 <= n implies #[trigger] retry_delay(n) == 5000 by {
        lemma_retry_delay_capped(n);
    }
    reveal_with_fuel(total_retry_wait, 21);
}

proof fn lemma_retry_delay_capped(n: nat)
    requires
        4 <= n,
    ensures
        retry_delay(n) == 5000,
    decreases n,
{
    reveal_with_fuel(retry_delay, 5);
    if n > 4 {
        lemma_retry_delay_capped((n - 1) as nat);
    }
}

/// Counts the reads that would have blocked while waiting for a reply.
pub struct ReadWait {
    pub attempts: u32,
}

impl ReadWait {
    pub fn new() -> (w: ReadWait)
        ensures
            w.attempts == 0,
    {
        ReadWait { attempts: 0 }
    }

    /// Records a read that would have blocked; whether to keep waiting. The
    /// wait ends at the hundred-and-first such read.
    pub fn on_would_block(&mut self) -> (keep_waiting: bool)
        requires
            old(self).attempts <= MAX_READ_WAITS,
        ensures
            final(self).attempts == old(self).attempts + 1,
            keep_waiting == (final(self).attempts <= MAX_READ_WAITS),
    {
        self.attempts = self.attempts + 1;
        self.attempts <= MAX_READ_WAITS
    }
}

/// The batches of baton's frequency test, sent a second apart.
pub const FREQUENCY_TEST_BATCHES: u32 = 3;

/// The dummy values in each batch of the frequency test.
pub const FREQUENCY_TEST_BATCH_SIZE: usize = 5;

/// One batch of the frequency test: five lines that each carry a `0`.
pub open spec fn frequency_test_batch_text() -> Seq<char> {
    Seq::new(10, |i: int| if i % 2 == 0 { '0' } else { '\n' })
}

/// One batch of the frequency test, five `0` lines, as written to the link.
pub fn frequency_test_batch() -> (s: String)
    ensures
        s@ == frequency_test_batch_text(),
{
    let mut s = String::new();
    let mut i: usize = 0;
    while i < FREQUENCY_TEST_BATCH_SIZE
        invariant
            i <= FREQUENCY_TEST_BATCH_SIZE,
            s@ == frequency_test_batch_text().subrange(0, 2 * i),
        decreases FREQUENCY_TEST_BATCH_SIZE - i,
    {
        append_char(&mut s, '0');
        append_char(&mut s, '\n');
        assert(frequency_test_batch_text().subrange(0, 2 * i + 2) == frequency_test_batch_text().subrange(
            0,
            2 * i,
        ).push('0').push('\n'));
        i = i + 1;
    }
    assert(frequency_test_batch_text().subrange(0, 10) == frequency_test_batch_text());
    s
}

/// The line that carries one payload over the IPC link.
pub open spec fn wire_line(payload: Seq<char>) -> Seq<char> {
    payload.push('\n')
}

/// Law: the relay reads back from a line exactly the payload that baton
/// wrote into it, since a line is never empty and its last character is the
/// line break that the relay drops.
pub proof fn law_wire_line_gives_back_payload(payload: Seq<char>)
    ensures
        wire_line(payload).len() > 0,
        wire_line(payload).drop_last() == payload,
{
}

/// Law: a full sample that the plugin hands to baton reaches iMotions as
/// eight events. Baton writes the eight plain values as one line; the relay
/// reads that line back as the same payload, which is data and not a
/// shutdown, since it starts with `;`; and the payload becomes the eight
/// events of the sample, each carrying its value twice.
pub proof fn law_plugin_sample_reaches_imotions(values: Seq<Seq<char>>)
    requires
        values.len() == 8,
        forall|k: int| 0 <= k < values.len() ==> plain_value(#[trigger] values[k]),
    ensures
        wire_line(semicolon_prefixed(values)).drop_last() == semicolon_prefixed(values),
        !starts_with(semicolon_prefixed(values), "SHUTDOWN"@),
        planned_packets(baton_fields(semicolon_prefixed(values))) == Seq::new(
            8,
            |k: int|
                imotions_packet(
                    sample_event(k),
                    seq![values[pilot_value_index(k)], values[pilot_value_index(k)]],
                ),
        ),
{
    reveal_strlit("SHUTDOWN");
    law_full_sample_becomes_eight_events(values);
    lemma_prefixed_starts_with_semicolon(values);
    let p = semicolon_prefixed(values);
    if starts_with(p, "SHUTDOWN"@) {
        assert(p.subrange(0, 8)[0] == p[0]);
        assert("SHUTDOWN"@[0] == 'S');
    }
}

proof fn lemma_prefixed_starts_with_semicolon(values: Seq<Seq<char>>)
    requires
        values.len() > 0,
    ensures
        semicolon_prefixed(values).len() > 0,
        semicolon_prefixed(values)[0] == ';',
    decreases values.len(),
{
    let rest = semicolon_prefixed(values.drop_last());
    if values.len() > 1 {
        lemma_prefixed_starts_with_semicolon(values.drop_last());
        assert((rest + seq![';'] + values.last())[0] == rest[0]);
    } else {
        assert(values.drop_last().len() == 0);
        assert(rest.len() == 0);
        assert((rest + seq![';'] + values.last())[0] == ';');
    }
}

/// The payload followed by a line break.
pub fn make_wire_line(payload: &str) -> (line: String)
    ensures
        line@ == wire_line(payload@),
{
    let mut line = String::from_str(payload);
    append_char(&mut line, '\n');
    line
}


/// The line that baton greets the relay with.
pub open spec fn greeting_text() -> Seq<char> {
    "Hello, from the baton prototype (Rust lib called from C++)\n"@
}

/// The pause between two reads while waiting for the relay's reply, in ms.
pub const REPLY_POLL_MS: u64 = 10;

/// The pause after each batch of the frequency test, in ms.
pub const TEST_BATCH_PAUSE_MS: u64 = 1000;

/// The pause while the plugin has nothing to send, in ms.
pub const IDLE_POLL_MS: u64 = 10;

/// Where a session of the IPC link stands.
#[derive(Clone, Copy, PartialEq, Eq, Structural)]
pub enum LinkPhase {
    /// Connected to the relay; nothing written yet.
    Start,
    /// The greeting is being written.
    Greeting,
    /// Waiting for the relay's reply, after this many reads that would have
    /// blocked.
    AwaitingReply(u32),
    /// Pausing before the next read of the reply.
    ReplyPause(u32),
    /// Batch `k` of the frequency test, counted from 0, is being written.
    TestBatch(u32),
    /// Pausing after this many batches of the frequency test.
    TestPause(u32),
    /// Waiting for the plugin's next signal.
    Streaming,
    /// A data line is being written.
    Forwarding,
    /// Pausing while the plugin has nothing to send.
    StreamPause,
    /// The session is over.
    Done,
}

/// What a line that baton writes is.
#[derive(Clone, Copy, PartialEq, Eq, Structural)]
pub enum LineKind {
    Greeting,
    TestBatch,
    Data,
}

/// What happened since the last step of a session.
pub enum LinkEvent {
    /// The link to the relay is up.
    Connected,
    /// The line was written and flushed.
    Written,
    /// The relay's reply arrived.
    ReplyLine,
    /// The relay closed the link before replying.
    ReplyClosed,
    /// No reply yet: the read would have blocked.
    WouldBlock,
    /// The pause is over.
    Resumed,
    /// The plugin handed over this payload.
    Payload(String),
    /// The plugin is stopping.
    Stop,
    /// The plugin has nothing to send.
    Idle,
    /// A read or a write failed.
    Failed,
}

/// What a session asks its driver to do next.
pub enum LinkAction {
    /// Write and flush this line; then report `Written`, or `Failed`.
    Write(LineKind, String),
    /// Read a line of the relay's reply; then report `ReplyLine`,
    /// `ReplyClosed`, `WouldBlock` or `Failed`.
    Read,
    /// Sleep this many ms; then report `Resumed`.
    Pause(u64),
    /// Take the plugin's next signal, if any; then report `Payload`, `Stop`
    /// or `Idle`.
    Poll,
    /// Write this last line, whether or not that works, and end the session.
    Farewell(String),
    /// End the session.
    End,
}

/// A `LinkAction`, with its text as a sequence of characters.
pub enum LinkStep {
    Write(LineKind, Seq<char>),
    Read,
    Pause(u64),
    Poll,
    Farewell(Seq<char>),
    End,
}

impl View for LinkAction {
    type V = LinkStep;

    open spec fn view(&self) -> LinkStep {
        match self {
            LinkAction::Write(k, t) => LinkStep::Write(*k, t@),
            LinkAction::Read => LinkStep::Read,
            LinkAction::Pause(ms) => LinkStep::Pause(*ms),
            LinkAction::Poll => LinkStep::Poll,
            LinkAction::Farewell(t) => LinkStep::Farewell(t@),
            LinkAction::End => LinkStep::End,
        }
    }
}

/// The phase that `event` moves a session in phase `p` to: the greeting, the
/// relay's reply (waited for through at most a hundred reads that would have
/// blocked), three batches of the frequency test a second apart, then each
/// payload of the plugin until it stops. A failure, or an event that the
/// phase does not expect, ends the session.
pub open spec fn next_phase(p: LinkPhase, event: LinkEvent) -> LinkPhase {
    match (p, event) {
        (LinkPhase::Start, LinkEvent::Connected) => LinkPhase::Greeting,
        (LinkPhase::Greeting, LinkEvent::Written) => LinkPhase::AwaitingReply(0),
        (LinkPhase::AwaitingReply(_), LinkEvent::ReplyLine) => LinkPhase::TestBatch(0),
        (LinkPhase::AwaitingReply(n), LinkEvent::WouldBlock) => if n + 1 <= MAX_READ_WAITS {
            LinkPhase::ReplyPause((n + 1) as u32)
        } else {
            LinkPhase::Done
        },
        (LinkPhase::ReplyPause(n), LinkEvent::Resumed) => LinkPhase::AwaitingReply(n),
        (LinkPhase::TestBatch(k), LinkEvent::Written) => LinkPhase::TestPause((k + 1) as u32),
        (LinkPhase::TestPause(n), LinkEvent::Resumed) => if n < FREQUENCY_TEST_BATCHES {
            LinkPhase::TestBatch(n)
        } else {
            LinkPhase::Streaming
        },
        (LinkPhase::Streaming, LinkEvent::Payload(_)) => LinkPhase::Forwarding,
        (LinkPhase::Streaming, LinkEvent::Idle) => LinkPhase::StreamPause,
        (LinkPhase::Forwarding, LinkEvent::Written) => LinkPhase::Streaming,
        (LinkPhase::StreamPause, LinkEvent::Resumed) => LinkPhase::Streaming,
        _ => LinkPhase::Done,
    }
}

/// What a session in phase `p` asks for after `event`.
pub open spec fn planned_step(p: LinkPhase, event: LinkEvent) -> LinkStep {
    match (p, event) {
        (LinkPhase::Start, LinkEvent::Connected) => LinkStep::Write(
            LineKind::Greeting,
            greeting_text(),
        ),
        (LinkPhase::Greeting, LinkEvent::Written) => LinkStep::Read,
        (LinkPhase::AwaitingReply(_), LinkEvent::ReplyLine) => LinkStep::Write(
            LineKind::TestBatch,
            frequency_test_batch_text(),
        ),
        (LinkPhase::AwaitingReply(n), LinkEvent::WouldBlock) => if n + 1 <= MAX_READ_WAITS {
            LinkStep::Pause(REPLY_POLL_MS)
        } else {
            LinkStep::End
        },
        (LinkPhase::ReplyPause(_), LinkEvent::Resumed) => LinkStep::Read,
        (LinkPhase::TestBatch(_), LinkEvent::Written) => LinkStep::Pause(TEST_BATCH_PAUSE_MS),
        (LinkPhase::TestPause(n), LinkEvent::Resumed) => if n < FREQUENCY_TEST_BATCHES {
            LinkStep::Write(LineKind::TestBatch, frequency_test_batch_text())
        } else {
            LinkStep::Poll
        },
        (LinkPhase::Streaming, LinkEvent::Payload(s)) => LinkStep::Write(
            LineKind::Data,
            wire_line(s@),
        ),
        (LinkPhase::Streaming, LinkEvent::Idle) => LinkStep::Pause(IDLE_POLL_MS),
        (LinkPhase::Streaming, LinkEvent::Stop) => LinkStep::Farewell(wire_line("SHUTDOWN"@)),
        (LinkPhase::Forwarding, LinkEvent::Written) => LinkStep::Poll,
        (LinkPhase::StreamPause, LinkEvent::Resumed) => LinkStep::Poll,
        _ => LinkStep::End,
    }
}

/// The phase and the steps of a session that has taken `events`, in order.
pub open spec fn run_session(events: Seq<LinkEvent>) -> (LinkPhase, Seq<LinkStep>)
    decreases events.len(),
{
    if events.len() == 0 {
        (LinkPhase::Start, Seq::empty())
    } else {
        let (p, steps) = run_session(events.drop_last());
        (next_phase(p, events.last()), steps.push(planned_step(p, events.last())))
    }
}

/// The lines of kind `kind` among `steps`.
pub open spec fn lines_written(steps: Seq<LinkStep>, kind: LineKind) -> nat
    decreases steps.len(),
{
    if steps.len() == 0 {
        0
    } else {
        lines_written(steps.drop_last(), kind) + (if steps.last() matches LinkStep::Write(k, _)
            && k == kind {
            1nat
        } else {
            0nat
        })
    }
}

/// What the lines written so far tell of a session in phase `p`.
spec fn lines_so_far(p: LinkPhase, steps: Seq<LinkStep>) -> bool {
    let greetings = lines_written(steps, LineKind::Greeting);
    let batches = lines_written(steps, LineKind::TestBatch);
    match p {
        LinkPhase::Start => greetings == 0 && batches == 0,
        LinkPhase::Greeting | LinkPhase::AwaitingReply(_) | LinkPhase::ReplyPause(_) => greetings
            == 1 && batches == 0,
        LinkPhase::TestBatch(k) => greetings == 1 && batches == k + 1 && k < FREQUENCY_TEST_BATCHES,
        LinkPhase::TestPause(n) => greetings == 1 && batches == n && 1 <= n
            <= FREQUENCY_TEST_BATCHES,
        LinkPhase::Streaming | LinkPhase::Forwarding | LinkPhase::StreamPause => greetings == 1
            && batches == FREQUENCY_TEST_BATCHES,
        LinkPhase::Done => greetings <= 1 && batches <= FREQUENCY_TEST_BATCHES,
    }
}

proof fn lemma_lines_written_push(steps: Seq<LinkStep>, s: LinkStep, kind: LineKind)
    ensures
        lines_written(steps.push(s), kind) == lines_written(steps, kind) + (if s matches LinkStep::Write(
            k,
            _,
        ) && k == kind {
            1nat
        } else {
            0nat
        }),
{
    assert(steps.push(s).drop_last() =~= steps);
}

/// Each phase that a session reaches agrees with the lines it wrote, and
/// every data line it wrote came after the greeting and the three batches of
/// the frequency test.
proof fn lemma_run_session(events: Seq<LinkEvent>)
    ensures
        lines_so_far(run_session(events).0, run_session(events).1),
        run_session(events).1.len() == events.len(),
        forall|i: int|
            0 <= i < run_session(events).1.len() && (#[trigger] run_session(events).1[i] matches LinkStep::Write(
                k,
                _,
            ) && k == LineKind::Data) ==> lines_written(run_session(events).1.take(i), LineKind::Greeting)
                == 1 && lines_written(run_session(events).1.take(i), LineKind::TestBatch)
                == FREQUENCY_TEST_BATCHES,
    decreases events.len(),
{
    if events.len() > 0 {
        let prev = events.drop_last();
        let e = events.last();
        lemma_run_session(prev);
        let (p, steps) = run_session(prev);
        let s = planned_step(p, e);
        let after = steps.push(s);
        assert(run_session(events) == (next_phase(p, e), after));
        lemma_lines_written_push(steps, s, LineKind::Greeting);
        lemma_lines_written_push(steps, s, LineKind::TestBatch);
        assert forall|i: int|
            0 <= i < after.len() && (#[trigger] after[i] matches LinkStep::Write(k, _) && k
                == LineKind::Data) implies lines_written(after.take(i), LineKind::Greeting) == 1
            && lines_written(after.take(i), LineKind::TestBatch) == FREQUENCY_TEST_BATCHES by {
            if i < steps.len() {
                assert(after.take(i) =~= steps.take(i));
                assert(after[i] == steps[i]);
            } else {
                assert(after.take(i) =~= steps);
            }
        }
    }
}

/// Law: whatever happens on the link, baton writes a data line only after
/// it has greeted the relay once and sent the three batches of the frequency
/// test, and never a greeting or a batch after that.
pub proof fn law_data_follows_greeting_and_frequency_test(events: Seq<LinkEvent>, i: int)
    requires
        0 <= i < events.len(),
        run_session(events).1[i] matches LinkStep::Write(k, _) && k == LineKind::Data,
    ensures
        lines_written(run_session(events).1.take(i), LineKind::Greeting) == 1,
        lines_written(run_session(events).1.take(i), LineKind::TestBatch) == FREQUENCY_TEST_BATCHES,
        lines_written(run_session(events).1, LineKind::Greeting) == 1,
        lines_written(run_session(events).1, LineKind::TestBatch) == FREQUENCY_TEST_BATCHES,
{
    lemma_run_session(events);
    let steps = run_session(events).1;
    lemma_lines_never_shrink(steps, i, LineKind::Greeting);
    lemma_lines_never_shrink(steps, i, LineKind::TestBatch);
}

/// A prefix of the steps wrote no more lines of a kind than all of them.
proof fn lemma_lines_never_shrink(steps: Seq<LinkStep>, i: int, kind: LineKind)
    requires
        0 <= i <= steps.len(),
    ensures
        lines_written(steps.take(i), kind) <= lines_written(steps, kind),
    decreases steps.len(),
{
    if i < steps.len() {
        assert(steps.take(i) =~= steps.drop_last().take(i));
        lemma_lines_never_shrink(steps.drop_last(), i, kind);
    } else {
        assert(steps.take(i) =~= steps);
    }
}

/// A session of baton's IPC link, from the moment it reaches the relay.
pub struct LinkSession {
    phase: LinkPhase,
}

impl View for LinkSession {
    type V = LinkPhase;

    closed spec fn view(&self) -> LinkPhase {
        self.phase
    }
}

impl LinkSession {
    /// The counters that a phase carries stay in range.
    #[verifier::type_invariant]
    closed spec fn counters_in_range(self) -> bool {
        match self.phase {
            LinkPhase::AwaitingReply(n) => n <= MAX_READ_WAITS,
            LinkPhase::ReplyPause(n) => n <= MAX_READ_WAITS,
            LinkPhase::TestBatch(k) => k < FREQUENCY_TEST_BATCHES,
            LinkPhase::TestPause(n) => 1 <= n <= FREQUENCY_TEST_BATCHES,
            _ => true,
        }
    }

    /// A session that has just reached the relay.
    pub fn new() -> (s: LinkSession)
        ensures
            s@ == LinkPhase::Start,
    {
        LinkSession { phase: LinkPhase::Start }
    }

    /// The phase the session is in.
    pub fn phase(&self) -> (p: LinkPhase)
        ensures
            p == self@,
    {
        self.phase
    }

    /// Takes `event` and says what to do next.
    pub fn step(&mut self, event: LinkEvent) -> (action: LinkAction)
        ensures
            final(self)@ == next_phase(old(self)@, event),
            action@ == planned_step(old(self)@, event),
    {
        proof {
            use_type_invariant(&*self);
        }
        let (phase, action) = match self.phase {
            LinkPhase::Start => match event {
                LinkEvent::Connected => (
                    LinkPhase::Greeting,
                    LinkAction::Write(
                        LineKind::Greeting,
                        String::from_str(
                            "Hello, from the baton prototype (Rust lib called from C++)\n",
                        ),
                    ),
                ),
                _ => (LinkPhase::Done, LinkAction::End),
            },
            LinkPhase::Greeting => match event {
                LinkEvent::Written => (LinkPhase::AwaitingReply(0), LinkAction::Read),
                _ => (LinkPhase::Done, LinkAction::End),
            },
            LinkPhase::AwaitingReply(n) => match event {
                LinkEvent::ReplyLine => (
                    LinkPhase::TestBatch(0),
                    LinkAction::Write(LineKind::TestBatch, frequency_test_batch()),
                ),
                LinkEvent::WouldBlock => {
                    let mut wait = ReadWait { attempts: n };
                    if wait.on_would_block() {
                        (LinkPhase::ReplyPause(wait.attempts), LinkAction::Pause(REPLY_POLL_MS))
                    } else {
                        (LinkPhase::Done, LinkAction::End)
                    }
                },
                _ => (LinkPhase::Done, LinkAction::End),
            },
            LinkPhase::ReplyPause(n) => match event {
                LinkEvent::Resumed => (LinkPhase::AwaitingReply(n), LinkAction::Read),
                _ => (LinkPhase::Done, LinkAction::End),
            },
            LinkPhase::TestBatch(k) => match event {
                LinkEvent::Written => (
                    LinkPhase::TestPause(k + 1),
                    LinkAction::Pause(TEST_BATCH_PAUSE_MS),
                ),
                _ => (LinkPhase::Done, LinkAction::End),
            },
            LinkPhase::TestPause(n) => match event {
                LinkEvent::Resumed => if n < FREQUENCY_TEST_BATCHES {
                    (
                        LinkPhase::TestBatch(n),
                        LinkAction::Write(LineKind::TestBatch, frequency_test_batch()),
                    )
                } else {
                    (LinkPhase::Streaming, LinkAction::Poll)
                },
                _ => (LinkPhase::Done, LinkAction::End),
            },
            LinkPhase::Streaming => match event {
                LinkEvent::Payload(s) => (
                    LinkPhase::Forwarding,
                    LinkAction::Write(LineKind::Data, make_wire_line(s.as_str())),
                ),
                LinkEvent::Idle => (LinkPhase::StreamPause, LinkAction::Pause(IDLE_POLL_MS)),
                LinkEvent::Stop => (LinkPhase::Done, LinkAction::Farewell(make_wire_line("SHUTDOWN"))),
                _ => (LinkPhase::Done, LinkAction::End),
            },
            LinkPhase::Forwarding => match event {
                LinkEvent::Written => (LinkPhase::Streaming, LinkAction::Poll),
                _ => (LinkPhase::Done, LinkAction::End),
            },
            LinkPhase::StreamPause => match event {
                LinkEvent::Resumed => (LinkPhase::Streaming, LinkAction::Poll),
                _ => (LinkPhase::Done, LinkAction::End),
            },
            LinkPhase::Done => (LinkPhase::Done, LinkAction::End),
        };
        self.phase = phase;
        action
    }
}


/// Law: what baton writes and when. On reaching the relay it greets it with
/// `Hello, from the baton prototype (Rust lib called from C++)`; it waits for
/// the reply, pausing after each of the first hundred reads that would block
/// and giving up at the next; once answered it sends a batch of five `0`
/// lines, pauses a second, and does so three times in all before it polls
/// the plugin; each payload goes out followed by a line break, and when the
/// plugin stops baton says `SHUTDOWN` and the session is over.
pub proof fn law_link_lines_and_pauses(n: u32, k: u32, payload: String)
    ensures
        planned_step(LinkPhase::Start, LinkEvent::Connected) == LinkStep::Write(
            LineKind::Greeting,
            "Hello, from the baton prototype (Rust lib called from C++)\n"@,
        ),
        next_phase(LinkPhase::Greeting, LinkEvent::Written) == LinkPhase::AwaitingReply(0)
            && planned_step(LinkPhase::Greeting, LinkEvent::Written) is Read,
        n < 100 ==> planned_step(LinkPhase::AwaitingReply(n), LinkEvent::WouldBlock) is Pause
            && next_phase(LinkPhase::AwaitingReply(n), LinkEvent::WouldBlock)
            == LinkPhase::ReplyPause((n + 1) as u32),
        n >= 100 ==> planned_step(LinkPhase::AwaitingReply(n), LinkEvent::WouldBlock) is End
            && next_phase(LinkPhase::AwaitingReply(n), LinkEvent::WouldBlock) == LinkPhase::Done,
        planned_step(LinkPhase::AwaitingReply(n), LinkEvent::ReplyLine) == LinkStep::Write(
            LineKind::TestBatch,
            "0\n0\n0\n0\n0\n"@,
        ),
        next_phase(LinkPhase::AwaitingReply(n), LinkEvent::ReplyLine) == LinkPhase::TestBatch(0),
        planned_step(LinkPhase::TestBatch(k), LinkEvent::Written) == LinkStep::Pause(1000),
        next_phase(LinkPhase::TestBatch(k), LinkEvent::Written) == LinkPhase::TestPause(
            (k + 1) as u32,
        ),
        k < 3 ==> planned_step(LinkPhase::TestPause(k), LinkEvent::Resumed) == LinkStep::Write(
            LineKind::TestBatch,
            "0\n0\n0\n0\n0\n"@,
        ) && next_phase(LinkPhase::TestPause(k), LinkEvent::Resumed) == LinkPhase::TestBatch(k),
        k >= 3 ==> planned_step(LinkPhase::TestPause(k), LinkEvent::Resumed) is Poll
            && next_phase(LinkPhase::TestPause(k), LinkEvent::Resumed) == LinkPhase::Streaming,
        planned_step(LinkPhase::Streaming, LinkEvent::Payload(payload)) == LinkStep::Write(
            LineKind::Data,
            payload@ + seq!['\n'],
        ),
        planned_step(LinkPhase::Streaming, LinkEvent::Stop) == LinkStep::Farewell(
            "SHUTDOWN\n"@,
        ),
        next_phase(LinkPhase::Streaming, LinkEvent::Stop) == LinkPhase::Done,
{
    reveal_strlit("0\n0\n0\n0\n0\n");
    assert(frequency_test_batch_text() =~= "0\n0\n0\n0\n0\n"@);
    reveal_strlit("SHUTDOWN");
    reveal_strlit("SHUTDOWN\n");
    assert(wire_line("SHUTDOWN"@) =~= "SHUTDOWN\n"@);
    assert(wire_line(payload@) =~= payload@ + seq!['\n']);
}

} // verus!
