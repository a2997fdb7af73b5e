//! The host supervisor's decisions.
//!
//! The supervisor owns the host state, the crash count and the backoff
//! timer; it spawns the host, runs the boot phase (accept, handshake) and
//! the ready phase (heartbeat and message routing). Waiting, spawning and
//! socket I/O are the runtime's work; every decision the supervisor takes
//! on what came back is a function here, from the current counts and the
//! outcome to the next step.

use vstd::prelude::*;
use vstd::string::StringExecFns;
use crate::host::host_state::{
    backoff_for_scaled, backoff_multiplier_spec, rejection_text, validate_handshake,
    CRASH_LOOP_THRESHOLD, MISSED_PONG_THRESHOLD,
};
use crate::protocol::messages::{
    EchoRequest, EchoResponse, Message, ProtocolError, ProtocolErrorCode,
};
use crate::text::{str_eq, trim, trim_spec};
use crate::time::{max_span_nanos, Span};

verus! {

/// The host process's path type.
#[verifier::external_type_specification]
#[verifier::external_body]
pub struct ExPathBuf(std::path::PathBuf);

/// The production heartbeat interval, in seconds.
pub const HEARTBEAT_INTERVAL_SECS: u64 = 5;

/// A decision from the restart prompt.
#[derive(Debug, Clone, Copy, PartialEq, Eq, Structural)]
pub enum FailureDecision {
    Restart,
    BypassOnce,
    AbortTurn,
}

/// Configuration for the supervisor.
pub struct SupervisorConfig {
    /// The socket path to bind and pass to the host.
    pub socket_path: std::path::PathBuf,
    /// The host binary to spawn.
    pub host_binary: std::path::PathBuf,
    /// Arguments for the host binary.
    pub host_args: Vec<String>,
    /// The heartbeat interval.
    pub heartbeat_interval: Span,
    /// How long to wait for the host to connect and hand-shake.
    pub boot_timeout: Span,
    /// The base unit of the exponential backoff.
    pub backoff_base: Span,
}

/// The host supervisor. Construct with `new`; the runtime drives it.
pub struct HostSupervisor {
    config: SupervisorConfig,
}

impl HostSupervisor {
    /// The supervisor's configuration.
    pub closed spec fn spec_config(&self) -> SupervisorConfig {
        self.config
    }

    /// A supervisor with the given configuration.
    pub fn new(config: SupervisorConfig) -> (r: Self)
        ensures
            r.spec_config() == config,
    {
        Self { config }
    }

    /// The configuration, for the runtime that drives the supervisor.
    pub fn config(&self) -> (r: &SupervisorConfig)
        ensures
            *r == self.spec_config(),
    {
        &self.config
    }
}

/// What the boot phase came to.
pub enum BootResult<C> {
    /// The handshake was accepted; the connection is live.
    Ready(C),
    /// The host failed to boot (exit, timeout, bad first frame).
    Crash,
}

/// What the ready phase came to.
#[derive(Debug, Clone, Copy, PartialEq, Eq, Structural)]
pub enum ReadyResult {
    /// Three missed pongs; reconnect after the given backoff.
    Hung(Span),
    /// A draining shutdown was acknowledged.
    Drained,
    /// The connection dropped unexpectedly.
    ConnectionLost,
}

/// The supervisor's next step after a phase.
pub enum Next<C> {
    /// Enter Ready with this connection.
    Ready(C),
    /// Wait the backoff, then respawn (a boot crash below the threshold).
    BackOff { crash_count: u32, backoff: Span },
    /// Give up respawning; ask the human.
    CrashLoop { crash_count: u32 },
    /// The host died at runtime; wait the backoff, then respawn.
    Reconnect { backoff: Span },
    /// Spawn the host now.
    Respawn,
    /// Stop the supervisor.
    Stop,
}

/// After a boot phase: a successful handshake resets the crash count; a
/// crash counts, backs off with the scaled backoff for the new count, and
/// crash-loops at the fifth consecutive crash. Returns the new crash count
/// and the next step.
pub fn after_boot<C>(crash_count: u32, result: BootResult<C>, base: Span) -> (r: (u32, Next<C>))
    requires
        result is Crash ==> crash_count < u32::MAX,
        result is Crash ==> base.total_nanos() * backoff_multiplier_spec((crash_count + 1) as u32)
            <= max_span_nanos(),
    ensures
        match result {
            BootResult::Ready(conn) => r.0 == 0 && r.1 == Next::Ready(conn),
            BootResult::Crash => {
                &&& r.0 == crash_count + 1
                &&& crash_count + 1 >= CRASH_LOOP_THRESHOLD ==> r.1 == Next::<C>::CrashLoop {
                    crash_count: (crash_count + 1) as u32,
                }
                &&& crash_count + 1 < CRASH_LOOP_THRESHOLD ==> (r.1 matches Next::BackOff {
                    crash_count: n,
                    backoff,
                } && n == crash_count + 1 && backoff.total_nanos() == base.total_nanos()
                    * backoff_multiplier_spec((crash_count + 1) as u32))
            },
        },
{
    match result {
        BootResult::Ready(conn) => (0, Next::Ready(conn)),
        BootResult::Crash => {
            let n = crash_count + 1;
            let backoff = backoff_for_scaled(n, base);
            if n >= CRASH_LOOP_THRESHOLD {
                (n, Next::CrashLoop { crash_count: n })
            } else {
                (n, Next::BackOff { crash_count: n, backoff })
            }
        },
    }
}

/// After a ready phase: a hung host reconnects after its backoff, a drained
/// host stops (and the crash count resets), a lost connection reconnects
/// after the first-crash backoff.
pub fn after_ready<C>(crash_count: u32, result: ReadyResult, base: Span) -> (r: (u32, Next<C>))
    ensures
        match result {
            ReadyResult::Hung(b) => r.0 == crash_count && r.1 == Next::<C>::Reconnect { backoff: b },
            ReadyResult::Drained => r.0 == 0 && r.1 == Next::<C>::Stop,
            ReadyResult::ConnectionLost => r.0 == crash_count && (r.1 matches Next::Reconnect {
                backoff,
            } && backoff.total_nanos() == base.total_nanos()),
        },
{
    match result {
        ReadyResult::Hung(b) => (crash_count, Next::Reconnect { backoff: b }),
        ReadyResult::Drained => (0, Next::Stop),
        ReadyResult::ConnectionLost => {
            proof {
                use_type_invariant(&base);
                base.lemma_fits();
            }
            let b = backoff_for_scaled(1, base);
            assert(b.total_nanos() == base.total_nanos() * 1);
            (crash_count, Next::Reconnect { backoff: b })
        },
    }
}

/// After the transient Hung state: reconnect after the first-crash backoff.
pub fn after_hung<C>(base: Span) -> (r: Next<C>)
    ensures
        r matches Next::Reconnect { backoff } && backoff.total_nanos() == base.total_nanos(),
{
    proof {
        use_type_invariant(&base);
        base.lemma_fits();
    }
    let b = backoff_for_scaled(1, base);
    assert(b.total_nanos() == base.total_nanos() * 1);
    Next::Reconnect { backoff: b }
}

/// After the restart prompt: Restart resets the crash count and respawns;
/// bypass-once and abort stop the supervisor.
pub fn after_prompt<C>(crash_count: u32, decision: FailureDecision) -> (r: (u32, Next<C>))
    ensures
        decision == FailureDecision::Restart ==> r.0 == 0 && r.1 == Next::<C>::Respawn,
        decision != FailureDecision::Restart ==> r.0 == crash_count && r.1 == Next::<C>::Stop,
{
    match decision {
        FailureDecision::Restart => (0, Next::Respawn),
        FailureDecision::BypassOnce | FailureDecision::AbortTurn => (crash_count, Next::Stop),
    }
}

/// The prompt's answer: `r` restarts, `b` bypasses once, anything else
/// aborts the turn. Surrounding white space is ignored.
pub open spec fn failure_decision_spec(line: Seq<char>) -> FailureDecision {
    if trim_spec(line) == "r"@ {
        FailureDecision::Restart
    } else if trim_spec(line) == "b"@ {
        FailureDecision::BypassOnce
    } else {
        FailureDecision::AbortTurn
    }
}

/// Reads the prompt's answer line.
pub fn parse_failure_decision(line: &str) -> (r: FailureDecision)
    ensures
        r == failure_decision_spec(line@),
{
    let t = trim(line);
    if str_eq(t.as_str(), "r") {
        FailureDecision::Restart
    } else if str_eq(t.as_str(), "b") {
        FailureDecision::BypassOnce
    } else {
        FailureDecision::AbortTurn
    }
}

/// The boot phase's verdict on the host's first frame.
pub enum FirstFrameVerdict {
    /// A valid handshake: send the ack; the host is ready.
    Accept,
    /// Not acceptable: send this error (if any), then count a boot crash.
    Reject(Option<Message>),
}

/// The text sent when the first frame is not a handshake.
pub open spec fn not_handshake_text() -> Seq<char> {
    "first frame was not a Handshake"@
}

/// Judges the host's first frame. `None` (the host closed or timed out)
/// is a crash with nothing to send; a handshake of the right version is
/// accepted; a handshake of another version is refused with a
/// `HandshakeRejected` error naming the mismatch; any other message is
/// refused with an `UnexpectedMessage` error.
pub fn judge_first_frame(first: Option<Message>) -> (r: FirstFrameVerdict)
    ensures
        first is None ==> r matches FirstFrameVerdict::Reject(None),
        first matches Some(Message::Handshake { inner }) ==> match validate_handshake_spec(inner) {
            Ok(_) => r matches FirstFrameVerdict::Accept,
            Err(rej) => r matches FirstFrameVerdict::Reject(Some(Message::ProtocolError { inner: e }))
                && e.code == ProtocolErrorCode::HandshakeRejected && e.message@ == rejection_text(rej),
        },
        (first matches Some(m) && !(m is Handshake)) ==> (r matches FirstFrameVerdict::Reject(
            Some(Message::ProtocolError { inner: e }),
        ) && e.code == ProtocolErrorCode::UnexpectedMessage && e.message@ == not_handshake_text()),
{
    match first {
        None => FirstFrameVerdict::Reject(None),
        Some(Message::Handshake { inner: hs }) => match validate_handshake(&hs) {
            Ok(_) => FirstFrameVerdict::Accept,
            Err(rejection) => FirstFrameVerdict::Reject(
                Some(
                    Message::ProtocolError {
                        inner: ProtocolError {
                            code: ProtocolErrorCode::HandshakeRejected,
                            message: rejection.describe(),
                        },
                    },
                ),
            ),
        },
        Some(_) => FirstFrameVerdict::Reject(
            Some(
                Message::ProtocolError {
                    inner: ProtocolError {
                        code: ProtocolErrorCode::UnexpectedMessage,
                        message: String::from_str("first frame was not a Handshake"),
                    },
                },
            ),
        ),
    }
}

/// What `validate_handshake` returns, as a spec.
pub open spec fn validate_handshake_spec(hs: crate::protocol::messages::Handshake) -> Result<
    crate::protocol::messages::HandshakeAck,
    crate::host::host_state::HandshakeRejection,
> {
    if hs.protocol_version == crate::protocol::messages::PROTOCOL_VERSION {
        Ok(crate::protocol::messages::HandshakeAck)
    } else {
        Err(
            crate::host::host_state::HandshakeRejection::VersionMismatch {
                expected: crate::protocol::messages::PROTOCOL_VERSION,
                got: hs.protocol_version,
            },
        )
    }
}

/// The reply to an echo request: the same id and payload.
pub fn echo_reply(req: EchoRequest) -> (r: Message)
    ensures
        r matches Message::EchoResponse { inner } && inner.request_id == req.request_id
            && inner.payload@ == req.payload@,
{
    Message::EchoResponse {
        inner: EchoResponse { request_id: req.request_id, payload: req.payload },
    }
}

/// How the ready phase goes on after a heartbeat wait or an upstream
/// message.
pub enum ReadyStep {
    /// Stay ready with this missed-pong count, sending `reply` if any.
    Continue { missed_pongs: u32, reply: Option<Message> },
    /// Leave the ready phase.
    End(ReadyResult),
    /// Send `reply`, then leave the ready phase.
    ReplyThenEnd { reply: Message, result: ReadyResult },
}

/// What the wait for a pong after a heartbeat came to.
pub enum PongWait {
    /// A message arrived within the interval.
    Got(Message),
    /// The connection closed.
    Closed,
    /// The interval passed with no message.
    TimedOut,
}

/// A step that declares the host hung: the reconnect backoff is the
/// first-crash backoff, one base.
pub open spec fn is_hung_step(r: ReadyStep, base: Span) -> bool {
    r matches ReadyStep::End(ReadyResult::Hung(b)) && b.total_nanos() == base.total_nanos()
}

/// A step that records one more miss, with nothing to send.
pub open spec fn is_miss_step(r: ReadyStep, missed_pongs: u32) -> bool {
    r matches ReadyStep::Continue { missed_pongs: k, reply: None } && k == missed_pongs + 1
}

/// The hung backoff: the first-crash backoff, one base.
fn hung_backoff(base: Span) -> (r: Span)
    ensures
        r.total_nanos() == base.total_nanos(),
{
    proof {
        use_type_invariant(&base);
        base.lemma_fits();
    }
    let b = backoff_for_scaled(1, base);
    assert(b.total_nanos() == base.total_nanos() * 1);
    b
}

/// After a heartbeat was sent and the pong wait ended: a pong resets the
/// miss count; a closed connection is lost. Anything else is a miss: a
/// timeout, an echo request (which is answered) or any other message. At
/// the third consecutive miss the host is declared hung (reconnect after
/// the first-crash backoff); an echo request that makes the third miss is
/// still answered first.
pub fn after_pong_wait(missed_pongs: u32, wait: PongWait, base: Span) -> (r: ReadyStep)
    requires
        missed_pongs < u32::MAX,
    ensures
        match wait {
            PongWait::Got(Message::Pong) => r matches ReadyStep::Continue {
                missed_pongs: 0,
                reply: None,
            },
            PongWait::Got(Message::EchoRequest { inner: req }) => {
                &&& missed_pongs + 1 < MISSED_PONG_THRESHOLD ==> (r matches ReadyStep::Continue {
                    missed_pongs: m,
                    reply: Some(Message::EchoResponse { inner: resp }),
                } && m == missed_pongs + 1 && resp.request_id == req.request_id && resp.payload@
                    == req.payload@)
                &&& missed_pongs + 1 >= MISSED_PONG_THRESHOLD ==> (r matches ReadyStep::ReplyThenEnd {
                    reply: Message::EchoResponse { inner: resp },
                    result: ReadyResult::Hung(b),
                } && resp.request_id == req.request_id && resp.payload@ == req.payload@
                    && b.total_nanos() == base.total_nanos())
            },
            PongWait::Got(m) => (!(m is Pong) && !(m is EchoRequest)) ==> {
                &&& missed_pongs + 1 >= MISSED_PONG_THRESHOLD ==> is_hung_step(r, base)
                &&& missed_pongs + 1 < MISSED_PONG_THRESHOLD ==> is_miss_step(r, missed_pongs)
            },
            PongWait::Closed => r matches ReadyStep::End(ReadyResult::ConnectionLost),
            PongWait::TimedOut => {
                &&& missed_pongs + 1 >= MISSED_PONG_THRESHOLD ==> is_hung_step(r, base)
                &&& missed_pongs + 1 < MISSED_PONG_THRESHOLD ==> is_miss_step(r, missed_pongs)
            },
        },
{
    match wait {
        PongWait::Got(Message::Pong) => ReadyStep::Continue { missed_pongs: 0, reply: None },
        PongWait::Closed => ReadyStep::End(ReadyResult::ConnectionLost),
        PongWait::Got(Message::EchoRequest { inner: req }) => {
            let reply = echo_reply(req);
            let m = missed_pongs + 1;
            if m >= MISSED_PONG_THRESHOLD {
                ReadyStep::ReplyThenEnd { reply, result: ReadyResult::Hung(hung_backoff(base)) }
            } else {
                ReadyStep::Continue { missed_pongs: m, reply: Some(reply) }
            }
        },
        _ => {
            let m = missed_pongs + 1;
            if m >= MISSED_PONG_THRESHOLD {
                ReadyStep::End(ReadyResult::Hung(hung_backoff(base)))
            } else {
                ReadyStep::Continue { missed_pongs: m, reply: None }
            }
        },
    }
}

/// After a message arrived outside a heartbeat wait (`None`: the connection
/// closed): a pong resets the miss count, an echo request is answered,
/// other messages are ignored, a closed connection is lost.
pub fn on_upstream(missed_pongs: u32, msg: Option<Message>) -> (r: ReadyStep)
    ensures
        match msg {
            Some(Message::Pong) => r matches ReadyStep::Continue { missed_pongs: 0, reply: None },
            Some(Message::EchoRequest { inner: req }) => r matches ReadyStep::Continue {
                missed_pongs: m,
                reply: Some(Message::EchoResponse { inner: resp }),
            } && m == missed_pongs && resp.request_id == req.request_id && resp.payload@
                == req.payload@,
            Some(m) => (!(m is Pong) && !(m is EchoRequest)) ==> (r matches ReadyStep::Continue {
                missed_pongs: k,
                reply: None,
            } && k == missed_pongs),
            None => r matches ReadyStep::End(ReadyResult::ConnectionLost),
        },
{
    match msg {
        Some(Message::Pong) => ReadyStep::Continue { missed_pongs: 0, reply: None },
        Some(Message::EchoRequest { inner: req }) => ReadyStep::Continue {
            missed_pongs,
            reply: Some(echo_reply(req)),
        },
        Some(_) => ReadyStep::Continue { missed_pongs, reply: None },
        None => ReadyStep::End(ReadyResult::ConnectionLost),
    }
}

} // verus!
