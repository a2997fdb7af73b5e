//! Host lifecycle state machine.
//!
//! Each state is a struct carrying its data (`Booting` holds the host
//! process, `Ready` holds the connection and the missed-pong count, ...).
//! Transition methods consume `self` and return the next state, so an
//! illegal transition does not exist as a method. `HostState` wraps the
//! eight states for the supervisor.
//!
//! The state structs are generic over what the runtime holds: `P` is the
//! spawned host process, `C` the live connection, `D` a timer deadline.

use vstd::prelude::*;
use crate::protocol::messages::{Handshake, HandshakeAck, Message, Shutdown, PROTOCOL_VERSION};
use crate::text::push_decimal;
use crate::time::{max_span_nanos, Span, NANOS_PER_SEC};
use vstd::string::StringExecFns;

verus! {

/// Consecutive missed pongs at which the host counts as hung.
pub const MISSED_PONG_THRESHOLD: u32 = 3;

/// Consecutive failed boots at which the supervisor stops respawning.
pub const CRASH_LOOP_THRESHOLD: u32 = 5;

/// Stopped: no host process, no pending action.
#[derive(Debug, Clone, Copy, PartialEq, Eq, Structural)]
pub struct Stopped;

/// Booting: the host was spawned; waiting for its handshake.
pub struct Booting<P> {
    pub process: P,
}

/// Ready: handshake accepted. Holds the connection and the count of
/// consecutive missed pongs.
pub struct Ready<C> {
    pub conn: C,
    pub missed_pongs: u32,
}

/// Hung: three consecutive missed pongs. Transient.
#[derive(Debug, Clone, Copy, PartialEq, Eq, Structural)]
pub struct Hung;

/// Draining: a draining shutdown was sent; waiting for the ack or exit.
pub struct Draining<C> {
    pub conn: C,
}

/// BackingOff: a boot crash occurred (fewer than five); waiting for the
/// backoff timer before respawning.
pub struct BackingOff<D> {
    pub deadline: D,
    pub crash_count: u32,
}

/// Reconnecting: the host died at runtime; waiting for the backoff timer.
pub struct Reconnecting<D> {
    pub deadline: D,
}

/// CrashLooping: five consecutive failed boots; auto-respawn stopped.
#[derive(Debug, Clone, Copy, PartialEq, Eq, Structural)]
pub struct CrashLooping {
    pub crash_count: u32,
}

/// The supervisor's held state.
pub enum HostState<P, C, D> {
    Stopped(Stopped),
    Booting(Booting<P>),
    Ready(Ready<C>),
    Hung(Hung),
    Draining(Draining<C>),
    BackingOff(BackingOff<D>),
    Reconnecting(Reconnecting<D>),
    CrashLooping(CrashLooping),
}

impl<P, C, D> HostState<P, C, D> {
    /// The initial state.
    pub fn stopped() -> (r: Self)
        ensures
            r matches HostState::Stopped(_),
    {
        HostState::Stopped(Stopped)
    }
}

impl Stopped {
    /// Stopped to Booting: the host was spawned.
    pub fn spawn<P>(self, process: P) -> (r: Booting<P>)
        ensures
            r.process == process,
    {
        Booting { process }
    }
}

/// The outcome of a boot crash: back off, or give up.
pub enum BootCrashOutcome<D> {
    /// Fewer than five crashes: wait the backoff, then respawn.
    BackingOff(BackingOff<D>),
    /// Five or more: give up, surface the prompt.
    CrashLooping(CrashLooping),
}

impl<P> Booting<P> {
    /// Booting to Ready: a valid handshake arrived. The missed-pong count
    /// starts at zero.
    pub fn on_handshake_ok<C>(self, conn: C) -> (r: Ready<C>)
        ensures
            r.conn == conn,
            r.missed_pongs == 0,
    {
        Ready { conn, missed_pongs: 0 }
    }

    /// Booting to BackingOff or CrashLooping: the host exited before its
    /// handshake. `crash_count` includes this crash; `deadline` is when the
    /// backoff ends.
    pub fn on_boot_crash<D>(self, crash_count: u32, deadline: D) -> (r: BootCrashOutcome<D>)
        ensures
            crash_count >= CRASH_LOOP_THRESHOLD ==> (r matches BootCrashOutcome::CrashLooping(c)
                && c.crash_count == crash_count),
            crash_count < CRASH_LOOP_THRESHOLD ==> (r matches BootCrashOutcome::BackingOff(b)
                && b.crash_count == crash_count && b.deadline == deadline),
    {
        if crash_count >= CRASH_LOOP_THRESHOLD {
            BootCrashOutcome::CrashLooping(CrashLooping { crash_count })
        } else {
            BootCrashOutcome::BackingOff(BackingOff { deadline, crash_count })
        }
    }
}

impl<C> Ready<C> {
    /// Ready to Hung: the connection is handed back to be torn down.
    pub fn into_hung(self) -> (r: (Hung, C))
        ensures
            r.1 == self.conn,
    {
        (Hung, self.conn)
    }

    /// Ready to Draining: a draining shutdown was sent.
    pub fn on_drain(self) -> (r: Draining<C>)
        ensures
            r.conn == self.conn,
    {
        Draining { conn: self.conn }
    }

    /// Records a missed pong.
    pub fn on_pong_missed(self) -> (r: Ready<C>)
        requires
            self.missed_pongs < u32::MAX,
        ensures
            r.conn == self.conn,
            r.missed_pongs == self.missed_pongs + 1,
    {
        Ready { conn: self.conn, missed_pongs: self.missed_pongs + 1 }
    }

    /// Records a pong: the miss count resets.
    pub fn on_pong(self) -> (r: Ready<C>)
        ensures
            r.conn == self.conn,
            r.missed_pongs == 0,
    {
        Ready { conn: self.conn, missed_pongs: 0 }
    }

    /// Whether the miss threshold (three) is reached.
    pub fn is_hung(&self) -> (r: bool)
        ensures
            r == (self.missed_pongs >= MISSED_PONG_THRESHOLD),
    {
        self.missed_pongs >= MISSED_PONG_THRESHOLD
    }
}

impl Hung {
    /// Hung to Reconnecting: the socket was closed; respawn at `deadline`.
    pub fn on_close<D>(self, deadline: D) -> (r: Reconnecting<D>)
        ensures
            r.deadline == deadline,
    {
        Reconnecting { deadline }
    }
}

impl<C> Draining<C> {
    /// Draining to Stopped: the ack arrived or the host exited. The
    /// connection is handed back to be shut down.
    pub fn on_drained(self) -> (r: (Stopped, C))
        ensures
            r.1 == self.conn,
    {
        (Stopped, self.conn)
    }
}

impl<D> BackingOff<D> {
    /// BackingOff to Booting: the timer elapsed and the host was respawned.
    pub fn on_deadline<P>(self, process: P) -> (r: Booting<P>)
        ensures
            r.process == process,
    {
        Booting { process }
    }
}

impl<D> Reconnecting<D> {
    /// Reconnecting to Booting: the timer elapsed and the host was respawned.
    pub fn on_deadline<P>(self, process: P) -> (r: Booting<P>)
        ensures
            r.process == process,
    {
        Booting { process }
    }
}

impl CrashLooping {
    /// CrashLooping to Booting: a human picked Restart.
    pub fn on_restart<P>(self, process: P) -> (r: Booting<P>)
        ensures
            r.process == process,
    {
        Booting { process }
    }

    /// CrashLooping to Stopped: a human picked bypass-once or abort.
    pub fn on_abort(self) -> (r: Stopped)
        ensures
            r == Stopped,
    {
        Stopped
    }
}

/// A handshake rejection reason.
#[derive(Debug, Clone, Copy, PartialEq, Eq, Structural)]
pub enum HandshakeRejection {
    VersionMismatch { expected: u32, got: u32 },
}

impl HandshakeRejection {
    /// The rejection as its debug text, e.g.
    /// `VersionMismatch { expected: 1, got: 2 }`.
    pub fn describe(&self) -> (r: String)
        ensures
            r@ == rejection_text(*self),
    {
        match self {
            HandshakeRejection::VersionMismatch { expected, got } => {
                let mut s = String::from_str("VersionMismatch { expected: ");
                push_decimal(&mut s, *expected as u64);
                s.append(", got: ");
                push_decimal(&mut s, *got as u64);
                s.append(" }");
                s
            },
        }
    }
}

/// The debug text of a rejection.
pub open spec fn rejection_text(r: HandshakeRejection) -> Seq<char> {
    match r {
        HandshakeRejection::VersionMismatch { expected, got } => "VersionMismatch { expected: "@
            + crate::text::decimal(expected as nat) + ", got: "@ + crate::text::decimal(
            got as nat,
        ) + " }"@,
    }
}

/// Validates a handshake against the protocol version: exact match or
/// refuse.
pub fn validate_handshake(hs: &Handshake) -> (r: Result<HandshakeAck, HandshakeRejection>)
    ensures
        hs.protocol_version == PROTOCOL_VERSION <==> r is Ok,
        hs.protocol_version != PROTOCOL_VERSION ==> r == Err::<HandshakeAck, HandshakeRejection>(
            HandshakeRejection::VersionMismatch {
                expected: PROTOCOL_VERSION,
                got: hs.protocol_version,
            },
        ),
{
    if hs.protocol_version == PROTOCOL_VERSION {
        Ok(HandshakeAck)
    } else {
        Err(
            HandshakeRejection::VersionMismatch {
                expected: PROTOCOL_VERSION,
                got: hs.protocol_version,
            },
        )
    }
}

/// The backoff multiplier for a crash count: 0 for none, then
/// 1, 2, 4, 8, and 30 from the fifth crash on.
pub open spec fn backoff_multiplier_spec(crash_count: u32) -> u64 {
    if crash_count == 0 {
        0
    } else if crash_count == 1 {
        1
    } else if crash_count == 2 {
        2
    } else if crash_count == 3 {
        4
    } else if crash_count == 4 {
        8
    } else {
        30
    }
}

/// The backoff multiplier for a crash count (1-indexed: the first crash
/// waits 1x, the second 2x, ... capped at 30x).
pub fn backoff_multiplier(crash_count: u32) -> (r: u64)
    ensures
        r == backoff_multiplier_spec(crash_count),
{
    match crash_count {
        0 => 0,
        1 => 1,
        2 => 2,
        3 => 4,
        4 => 8,
        _ => 30,
    }
}

/// The backoff for a crash count with the default one-second base.
pub fn backoff_for(crash_count: u32) -> (r: Span)
    ensures
        r.total_nanos() == backoff_multiplier_spec(crash_count) * NANOS_PER_SEC,
{
    Span::from_secs(backoff_multiplier(crash_count))
}

/// The backoff for a crash count, scaled by `base`. The product must fit.
pub fn backoff_for_scaled(crash_count: u32, base: Span) -> (r: Span)
    requires
        base.total_nanos() * backoff_multiplier_spec(crash_count) <= max_span_nanos(),
    ensures
        r.total_nanos() == base.total_nanos() * backoff_multiplier_spec(crash_count),
{
    let m = backoff_multiplier(crash_count);
    base.mul(m as u32)
}

/// The message for a graceful shutdown: drain, then ack.
pub fn graceful_shutdown() -> (r: Shutdown)
    ensures
        r.drain,
{
    Shutdown { drain: true }
}

/// The message for an immediate shutdown: no ack.
pub fn immediate_shutdown() -> (r: Shutdown)
    ensures
        !r.drain,
{
    Shutdown { drain: false }
}

/// Whether a message is the ack a graceful shutdown expects.
pub fn is_shutdown_ack(msg: &Message) -> (r: bool)
    ensures
        r == (*msg matches Message::ShutdownAck),
{
    match msg {
        Message::ShutdownAck => true,
        _ => false,
    }
}

/// The Ready state after `k` more missed pongs, each recorded as
/// `on_pong_missed` records it: the same connection, one more miss.
pub open spec fn ready_after_misses<C>(r: Ready<C>, k: nat) -> Ready<C>
    decreases k,
{
    if k == 0 {
        r
    } else {
        let p = ready_after_misses(r, (k - 1) as nat);
        Ready { conn: p.conn, missed_pongs: (p.missed_pongs + 1) as u32 }
    }
}

/// Hung after three missed pongs: from a Ready state with no misses,
/// after `k` consecutive misses the count is `k`, the connection is the
/// same, and the state is hung exactly when `k` is three or more (not
/// after one or two).
pub proof fn lemma_hung_after_three_misses<C>(r: Ready<C>, k: nat)
    requires
        r.missed_pongs == 0,
        k <= u32::MAX,
    ensures
        ready_after_misses(r, k).missed_pongs == k,
        ready_after_misses(r, k).conn == r.conn,
        (ready_after_misses(r, k).missed_pongs >= MISSED_PONG_THRESHOLD) <==> k >= 3,
    decreases k,
{
    if k > 0 {
        lemma_hung_after_three_misses(r, (k - 1) as nat);
    }
}

/// The backoff grows with the crash count and never exceeds 30 times the
/// base: 1, 2, 4, 8, then 30 from the fifth crash on.
pub proof fn lemma_backoff_monotone_capped(a: u32, b: u32)
    requires
        a <= b,
    ensures
        backoff_multiplier_spec(a) <= backoff_multiplier_spec(b) <= 30,
        b >= 5 ==> backoff_multiplier_spec(b) == 30,
{
}

} // verus!
