//! The relay's side of one connection from baton on the IPC socket: wait for
//! baton's greeting, reply to it, then hand each payload to the GUI until
//! baton shuts down or the connection fails.
use vstd::prelude::*;
use vstd::string::StringExecFns;

use crate::baton::{ReadWait, MAX_READ_WAITS};
use crate::payload::{classify_ipc_line, IpcLine};
use crate::text::starts_with;

verus! {

/// The line that the relay answers baton's greeting with.
pub open spec fn relay_reply_text() -> Seq<char> {
    "Hello, from the relay (Rust)!\n"@
}

/// The pause between two reads while waiting for baton's greeting, in ms.
pub const GREETING_POLL_MS: u64 = 10;

/// The pause while baton has sent nothing new, in ms.
pub const RECEIVE_POLL_MS: u64 = 1;

/// Where a connection from baton stands.
#[derive(Clone, Copy, PartialEq, Eq, Structural)]
pub enum RelayLinkPhase {
    /// Accepted; nothing read yet.
    Start,
    /// Waiting for baton's greeting, after this many reads that would have
    /// blocked.
    Greeting(u32),
    /// Pausing before the next read of the greeting.
    GreetingPause(u32),
    /// The reply is being written.
    Replying,
    /// Reading baton's lines.
    Receiving,
    /// Pausing while baton has sent nothing new.
    ReceivePause,
    /// A payload is being handed to the GUI.
    Delivering,
    /// The connection is over.
    Closed,
}

/// What happened since the last step of a connection.
pub enum RelayLinkEvent {
    /// The connection was accepted.
    Accepted,
    /// A read returned this text, which may be empty.
    Line(String),
    /// The read would have blocked.
    WouldBlock,
    /// A read or a write failed.
    Failed,
    /// The pause is over.
    Resumed,
    /// The reply was written and flushed.
    Written,
    /// The payload was handed to the GUI.
    Delivered,
}

/// What a connection asks its driver to do next.
pub enum RelayLinkAction {
    /// Read a line; then report `Line`, `WouldBlock` or `Failed`.
    Read,
    /// Sleep this many ms; then report `Resumed`.
    Pause(u64),
    /// Write and flush this reply; then report `Written`, or `Failed`.
    Reply(String),
    /// Hand this payload to the GUI; then report `Delivered`.
    Deliver(String),
    /// Close the connection; if the flag is set, tell the GUI that baton has
    /// shut down.
    Close(bool),
}

/// A `RelayLinkAction`, with its text as a sequence of characters.
pub enum RelayLinkStep {
    Read,
    Pause(u64),
    Reply(Seq<char>),
    Deliver(Seq<char>),
    Close(bool),
}

impl View for RelayLinkAction {
    type V = RelayLinkStep;

    open spec fn view(&self) -> RelayLinkStep {
        match self {
            RelayLinkAction::Read => RelayLinkStep::Read,
            RelayLinkAction::Pause(ms) => RelayLinkStep::Pause(*ms),
            RelayLinkAction::Reply(t) => RelayLinkStep::Reply(t@),
            RelayLinkAction::Deliver(t) => RelayLinkStep::Deliver(t@),
            RelayLinkAction::Close(shutdown) => RelayLinkStep::Close(*shutdown),
        }
    }
}

/// A line read from baton announces its shutdown: what is left once its
/// terminator is dropped starts with `SHUTDOWN`.
pub open spec fn is_shutdown_line(line: Seq<char>) -> bool {
    line.len() > 0 && starts_with(line.drop_last(), "SHUTDOWN"@)
}

/// The phase that `event` moves a connection in phase `p` to: the greeting
/// is waited for through at most a hundred reads that would have blocked,
/// and the reply follows whether or not it came; then each line is read
/// until baton shuts down or a read fails. An event that the phase does not
/// expect closes the connection.
pub open spec fn relay_next_phase(p: RelayLinkPhase, event: RelayLinkEvent) -> RelayLinkPhase {
    match (p, event) {
        (RelayLinkPhase::Start, RelayLinkEvent::Accepted) => RelayLinkPhase::Greeting(0),
        (RelayLinkPhase::Greeting(_), RelayLinkEvent::Line(_)) => RelayLinkPhase::Replying,
        (RelayLinkPhase::Greeting(n), RelayLinkEvent::WouldBlock) => if n + 1 <= MAX_READ_WAITS {
            RelayLinkPhase::GreetingPause((n + 1) as u32)
        } else {
            RelayLinkPhase::Replying
        },
        (RelayLinkPhase::Greeting(_), RelayLinkEvent::Failed) => RelayLinkPhase::Replying,
        (RelayLinkPhase::GreetingPause(n), RelayLinkEvent::Resumed) => RelayLinkPhase::Greeting(n),
        (RelayLinkPhase::Replying, RelayLinkEvent::Written) => RelayLinkPhase::Receiving,
        (RelayLinkPhase::Receiving, RelayLinkEvent::Line(l)) => if l@.len() == 0 {
            RelayLinkPhase::ReceivePause
        } else if is_shutdown_line(l@) {
            RelayLinkPhase::Closed
        } else {
            RelayLinkPhase::Delivering
        },
        (RelayLinkPhase::Receiving, RelayLinkEvent::WouldBlock) => RelayLinkPhase::ReceivePause,
        (RelayLinkPhase::ReceivePause, RelayLinkEvent::Resumed) => RelayLinkPhase::Receiving,
        (RelayLinkPhase::Delivering, RelayLinkEvent::Delivered) => RelayLinkPhase::Receiving,
        _ => RelayLinkPhase::Closed,
    }
}

/// What a connection in phase `p` asks for after `event`.
pub open spec fn relay_planned_step(p: RelayLinkPhase, event: RelayLinkEvent) -> RelayLinkStep {
    match (p, event) {
        (RelayLinkPhase::Start, RelayLinkEvent::Accepted) => RelayLinkStep::Read,
        (RelayLinkPhase::Greeting(_), RelayLinkEvent::Line(_)) => RelayLinkStep::Reply(
            relay_reply_text(),
        ),
        (RelayLinkPhase::Greeting(n), RelayLinkEvent::WouldBlock) => if n + 1 <= MAX_READ_WAITS {
            RelayLinkStep::Pause(GREETING_POLL_MS)
        } else {
            RelayLinkStep::Reply(relay_reply_text())
        },
        (RelayLinkPhase::Greeting(_), RelayLinkEvent::Failed) => RelayLinkStep::Reply(
            relay_reply_text(),
        ),
        (RelayLinkPhase::GreetingPause(_), RelayLinkEvent::Resumed) => RelayLinkStep::Read,
        (RelayLinkPhase::Replying, RelayLinkEvent::Written) => RelayLinkStep::Read,
        (RelayLinkPhase::Receiving, RelayLinkEvent::Line(l)) => if l@.len() == 0 {
            RelayLinkStep::Pause(RECEIVE_POLL_MS)
        } else if is_shutdown_line(l@) {
            RelayLinkStep::Close(true)
        } else {
            RelayLinkStep::Deliver(l@.drop_last())
        },
        (RelayLinkPhase::Receiving, RelayLinkEvent::WouldBlock) => RelayLinkStep::Pause(
            RECEIVE_POLL_MS,
        ),
        (RelayLinkPhase::Receiving, RelayLinkEvent::Failed) => RelayLinkStep::Close(true),
        (RelayLinkPhase::ReceivePause, RelayLinkEvent::Resumed) => RelayLinkStep::Read,
        (RelayLinkPhase::Delivering, RelayLinkEvent::Delivered) => RelayLinkStep::Read,
        _ => RelayLinkStep::Close(false),
    }
}

/// The phase and the steps of a connection that has taken `events`, in
/// order.
pub open spec fn run_relay_link(events: Seq<RelayLinkEvent>) -> (RelayLinkPhase, Seq<
    RelayLinkStep,
>)
    decreases events.len(),
{
    if events.len() == 0 {
        (RelayLinkPhase::Start, Seq::empty())
    } else {
        let (p, steps) = run_relay_link(events.drop_last());
        (relay_next_phase(p, events.last()), steps.push(relay_planned_step(p, events.last())))
    }
}

/// The replies among `steps`.
pub open spec fn replies(steps: Seq<RelayLinkStep>) -> nat
    decreases steps.len(),
{
    if steps.len() == 0 {
        0
    } else {
        replies(steps.drop_last()) + (if steps.last() is Reply {
            1nat
        } else {
            0nat
        })
    }
}

/// What the replies so far tell of a connection in phase `p`.
spec fn replies_so_far(p: RelayLinkPhase, steps: Seq<RelayLinkStep>) -> bool {
    match p {
        RelayLinkPhase::Start | RelayLinkPhase::Greeting(_) | RelayLinkPhase::GreetingPause(
            _,
        ) => replies(steps) == 0,
        RelayLinkPhase::Closed => replies(steps) <= 1,
        _ => replies(steps) == 1,
    }
}

proof fn lemma_replies_push(steps: Seq<RelayLinkStep>, s: RelayLinkStep)
    ensures
        replies(steps.push(s)) == replies(steps) + (if s is Reply {
            1nat
        } else {
            0nat
        }),
{
    assert(steps.push(s).drop_last() =~= steps);
}

proof fn lemma_run_relay_link(events: Seq<RelayLinkEvent>)
    ensures
        replies_so_far(run_relay_link(events).0, run_relay_link(events).1),
        run_relay_link(events).1.len() == events.len(),
        forall|i: int|
            0 <= i < run_relay_link(events).1.len() && #[trigger] run_relay_link(
                events,
            ).1[i] is Deliver ==> replies(run_relay_link(events).1.take(i)) == 1,
    decreases events.len(),
{
    if events.len() > 0 {
        let prev = events.drop_last();
        let e = events.last();
        lemma_run_relay_link(prev);
        let (p, steps) = run_relay_link(prev);
        let s = relay_planned_step(p, e);
        let after = steps.push(s);
        assert(run_relay_link(events) == (relay_next_phase(p, e), after));
        lemma_replies_push(steps, s);
        assert forall|i: int| 0 <= i < after.len() && #[trigger] after[i] is Deliver implies replies(
            after.take(i),
        ) == 1 by {
            if i < steps.len() {
                assert(after.take(i) =~= steps.take(i));
                assert(after[i] == steps[i]);
            } else {
                assert(after.take(i) =~= steps);
            }
        }
    }
}

/// Law: whatever happens on a connection, the relay replies to baton at
/// most once, and hands baton's payloads to the GUI only after that reply.
pub proof fn law_payloads_follow_the_reply(events: Seq<RelayLinkEvent>, i: int)
    requires
        0 <= i < events.len(),
        run_relay_link(events).1[i] is Deliver,
    ensures
        replies(run_relay_link(events).1.take(i)) == 1,
        replies(run_relay_link(events).1) == 1,
{
    lemma_run_relay_link(events);
    lemma_replies_never_shrink(run_relay_link(events).1, i);
}

/// A prefix of the steps holds no more replies than all of them.
proof fn lemma_replies_never_shrink(steps: Seq<RelayLinkStep>, i: int)
    requires
        0 <= i <= steps.len(),
    ensures
        replies(steps.take(i)) <= replies(steps),
    decreases steps.len(),
{
    if i < steps.len() {
        assert(steps.take(i) =~= steps.drop_last().take(i));
        lemma_replies_never_shrink(steps.drop_last(), i);
    } else {
        assert(steps.take(i) =~= steps);
    }
}

/// One connection from baton, on the relay's side.
pub struct RelayLink {
    phase: RelayLinkPhase,
}

impl View for RelayLink {
    type V = RelayLinkPhase;

    closed spec fn view(&self) -> RelayLinkPhase {
        self.phase
    }
}

impl RelayLink {
    /// The greeting wait stays within its bound.
    #[verifier::type_invariant]
    closed spec fn wait_in_range(self) -> bool {
        match self.phase {
            RelayLinkPhase::Greeting(n) => n <= MAX_READ_WAITS,
            RelayLinkPhase::GreetingPause(n) => n <= MAX_READ_WAITS,
            _ => true,
        }
    }

    /// A connection that is about to be accepted.
    pub fn new() -> (l: RelayLink)
        ensures
            l@ == RelayLinkPhase::Start,
    {
        RelayLink { phase: RelayLinkPhase::Start }
    }

    /// The phase the connection is in.
    pub fn phase(&self) -> (p: RelayLinkPhase)
        ensures
            p == self@,
    {
        self.phase
    }

    /// Takes `event` and says what to do next.
    pub fn step(&mut self, event: RelayLinkEvent) -> (action: RelayLinkAction)
        ensures
            final(self)@ == relay_next_phase(old(self)@, event),
            action@ == relay_planned_step(old(self)@, event),
    {
        proof {
            use_type_invariant(&*self);
        }
        let (phase, action) = match self.phase {
            RelayLinkPhase::Start => match event {
                RelayLinkEvent::Accepted => (RelayLinkPhase::Greeting(0), RelayLinkAction::Read),
                _ => (RelayLinkPhase::Closed, RelayLinkAction::Close(false)),
            },
            RelayLinkPhase::Greeting(n) => match event {
                RelayLinkEvent::Line(_) | RelayLinkEvent::Failed => (
                    RelayLinkPhase::Replying,
                    RelayLinkAction::Reply(reply_line()),
                ),
                RelayLinkEvent::WouldBlock => {
                    let mut wait = ReadWait { attempts: n };
                    if wait.on_would_block() {
                        (
                            RelayLinkPhase::GreetingPause(wait.attempts),
                            RelayLinkAction::Pause(GREETING_POLL_MS),
                        )
                    } else {
                        (RelayLinkPhase::Replying, RelayLinkAction::Reply(reply_line()))
                    }
                },
                _ => (RelayLinkPhase::Closed, RelayLinkAction::Close(false)),
            },
            RelayLinkPhase::GreetingPause(n) => match event {
                RelayLinkEvent::Resumed => (RelayLinkPhase::Greeting(n), RelayLinkAction::Read),
                _ => (RelayLinkPhase::Closed, RelayLinkAction::Close(false)),
            },
            RelayLinkPhase::Replying => match event {
                RelayLinkEvent::Written => (RelayLinkPhase::Receiving, RelayLinkAction::Read),
                _ => (RelayLinkPhase::Closed, RelayLinkAction::Close(false)),
            },
            RelayLinkPhase::Receiving => match event {
                RelayLinkEvent::Line(l) => match classify_ipc_line(l.as_str()) {
                    IpcLine::Empty => (
                        RelayLinkPhase::ReceivePause,
                        RelayLinkAction::Pause(RECEIVE_POLL_MS),
                    ),
                    IpcLine::Shutdown => (RelayLinkPhase::Closed, RelayLinkAction::Close(true)),
                    IpcLine::Data(d) => (RelayLinkPhase::Delivering, RelayLinkAction::Deliver(d)),
                },
                RelayLinkEvent::WouldBlock => (
                    RelayLinkPhase::ReceivePause,
                    RelayLinkAction::Pause(RECEIVE_POLL_MS),
                ),
                RelayLinkEvent::Failed => (RelayLinkPhase::Closed, RelayLinkAction::Close(true)),
                _ => (RelayLinkPhase::Closed, RelayLinkAction::Close(false)),
            },
            RelayLinkPhase::ReceivePause => match event {
                RelayLinkEvent::Resumed => (RelayLinkPhase::Receiving, RelayLinkAction::Read),
                _ => (RelayLinkPhase::Closed, RelayLinkAction::Close(false)),
            },
            RelayLinkPhase::Delivering => match event {
                RelayLinkEvent::Delivered => (RelayLinkPhase::Receiving, RelayLinkAction::Read),
                _ => (RelayLinkPhase::Closed, RelayLinkAction::Close(false)),
            },
            RelayLinkPhase::Closed => (RelayLinkPhase::Closed, RelayLinkAction::Close(false)),
        };
        self.phase = phase;
        action
    }
}

/// The relay's reply to baton's greeting.
fn reply_line() -> (s: String)
    ensures
        s@ == relay_reply_text(),
{
    String::from_str("Hello, from the relay (Rust)!\n")
}


/// Law: while receiving, a read that would block leads to a pause and then
/// another read, a nonempty line that is no shutdown is handed to the GUI
/// without its terminator, and of what a read can report only a line that
/// starts with `SHUTDOWN` or a failed read closes the connection; both then
/// tell the GUI that baton shut down.
pub proof fn law_receiving_reads_until_shutdown_or_failure(e: RelayLinkEvent)
    ensures
        relay_next_phase(RelayLinkPhase::Receiving, RelayLinkEvent::WouldBlock)
            == RelayLinkPhase::ReceivePause,
        relay_planned_step(RelayLinkPhase::Receiving, RelayLinkEvent::WouldBlock) is Pause,
        relay_next_phase(RelayLinkPhase::ReceivePause, RelayLinkEvent::Resumed)
            == RelayLinkPhase::Receiving,
        relay_planned_step(RelayLinkPhase::ReceivePause, RelayLinkEvent::Resumed) is Read,
        (e is Line || e is WouldBlock || e is Failed) ==> ((relay_planned_step(
            RelayLinkPhase::Receiving,
            e,
        ) is Close) <==> (e is Failed || (e matches RelayLinkEvent::Line(l) && l@.len() > 0
            && starts_with(l@.drop_last(), "SHUTDOWN"@)))),
        (e is Line || e is WouldBlock || e is Failed) ==> ((relay_planned_step(
            RelayLinkPhase::Receiving,
            e,
        ) is Close) <==> relay_planned_step(RelayLinkPhase::Receiving, e) == RelayLinkStep::Close(
            true,
        )),
        (e matches RelayLinkEvent::Line(l) && l@.len() > 0 && !starts_with(
            l@.drop_last(),
            "SHUTDOWN"@,
        )) ==> (relay_planned_step(RelayLinkPhase::Receiving, e) matches RelayLinkStep::Deliver(
            d,
        ) && e matches RelayLinkEvent::Line(l) && d == l@.drop_last()),
{
}


/// Law: a new connection first reads; while waiting for baton's greeting the
/// relay pauses after each of the first hundred reads that would block and
/// reads again, and it replies `Hello, from the relay (Rust)!` once the
/// greeting arrives, once the hundred-and-first read would block, or once a
/// read fails.
pub proof fn law_greeting_is_answered(n: u32, e: RelayLinkEvent)
    ensures
        relay_planned_step(RelayLinkPhase::Start, RelayLinkEvent::Accepted) is Read,
        relay_next_phase(RelayLinkPhase::Start, RelayLinkEvent::Accepted)
            == RelayLinkPhase::Greeting(0),
        n < 100 ==> relay_planned_step(RelayLinkPhase::Greeting(n), RelayLinkEvent::WouldBlock) is Pause
            && relay_next_phase(RelayLinkPhase::Greeting(n), RelayLinkEvent::WouldBlock)
            == RelayLinkPhase::GreetingPause((n + 1) as u32)
            && relay_planned_step(RelayLinkPhase::GreetingPause(n), RelayLinkEvent::Resumed) is Read
            && relay_next_phase(RelayLinkPhase::GreetingPause(n), RelayLinkEvent::Resumed)
            == RelayLinkPhase::Greeting(n),
        (e is Line || e is Failed || (e is WouldBlock && n >= 100)) ==> relay_planned_step(
            RelayLinkPhase::Greeting(n),
            e,
        ) == RelayLinkStep::Reply("Hello, from the relay (Rust)!\n"@) && relay_next_phase(
            RelayLinkPhase::Greeting(n),
            e,
        ) == RelayLinkPhase::Replying,
        relay_planned_step(RelayLinkPhase::Replying, RelayLinkEvent::Written) is Read,
        relay_next_phase(RelayLinkPhase::Replying, RelayLinkEvent::Written)
            == RelayLinkPhase::Receiving,
{
}

} // verus!
