//! The mock host's rules: its misbehaviour mode from the command line, and
//! what it answers to each message.
//!
//! Modes (passed as `--mode <mode>`): `normal` (the default),
//! `exit-immediately`, `go-silent-after-handshake`, `bad-handshake`,
//! `no-handshake`, `echo-after-handshake`, `connect-then-silent`,
//! `exit-after-handshake`.

use vstd::prelude::*;
use crate::host::supervisor::echo_reply;
use crate::protocol::messages::{EchoRequest, Handshake, Message, PROTOCOL_VERSION};
use crate::text::str_eq;

verus! {

/// The mock host's controllable misbehaviour.
#[derive(Debug, Clone, Copy, PartialEq, Eq, Structural)]
pub enum Mode {
    /// Hand-shake, answer heartbeats, ack shutdown, echo requests.
    Normal,
    /// Exit before connecting.
    ExitImmediately,
    /// Hand-shake, then stop answering.
    GoSilentAfterHandshake,
    /// Send a handshake with the wrong protocol version.
    BadHandshake,
    /// Send an echo request as the first frame.
    NoHandshake,
    /// Hand-shake, then send an echo request and await the response.
    EchoAfterHandshake,
    /// Connect, then never send a handshake (the boot times out).
    ConnectThenSilent,
    /// Hand-shake, answer one heartbeat with a pong, then exit.
    ExitAfterHandshake,
}

/// The mode a `--mode` value selects; unknown values select `Normal`.
pub open spec fn mode_of_value(v: Seq<char>) -> Mode {
    if v == "exit-immediately"@ {
        Mode::ExitImmediately
    } else if v == "go-silent-after-handshake"@ {
        Mode::GoSilentAfterHandshake
    } else if v == "bad-handshake"@ {
        Mode::BadHandshake
    } else if v == "no-handshake"@ {
        Mode::NoHandshake
    } else if v == "echo-after-handshake"@ {
        Mode::EchoAfterHandshake
    } else if v == "connect-then-silent"@ {
        Mode::ConnectThenSilent
    } else if v == "exit-after-handshake"@ {
        Mode::ExitAfterHandshake
    } else {
        Mode::Normal
    }
}

/// The mode the arguments select: the value after the first `--mode` that
/// has one; `Normal` when there is none.
pub open spec fn mode_spec(args: Seq<Seq<char>>) -> Mode
    decreases args.len(),
{
    if args.len() == 0 {
        Mode::Normal
    } else if args[0] == "--mode"@ {
        if args.len() >= 2 {
            mode_of_value(args[1])
        } else {
            Mode::Normal
        }
    } else {
        mode_spec(args.drop_first())
    }
}

fn mode_from_value(v: &str) -> (r: Mode)
    ensures
        r == mode_of_value(v@),
{
    if str_eq(v, "exit-immediately") {
        Mode::ExitImmediately
    } else if str_eq(v, "go-silent-after-handshake") {
        Mode::GoSilentAfterHandshake
    } else if str_eq(v, "bad-handshake") {
        Mode::BadHandshake
    } else if str_eq(v, "no-handshake") {
        Mode::NoHandshake
    } else if str_eq(v, "echo-after-handshake") {
        Mode::EchoAfterHandshake
    } else if str_eq(v, "connect-then-silent") {
        Mode::ConnectThenSilent
    } else if str_eq(v, "exit-after-handshake") {
        Mode::ExitAfterHandshake
    } else {
        Mode::Normal
    }
}

/// Reads the mode from the command line.
pub fn parse_mode(args: &[String]) -> (r: Mode)
    ensures
        r == mode_spec(args@.map_values(|a: String| a@)),
{
    let ghost views = args@.map_values(|a: String| a@);
    let mut i: usize = 0;
    assert(views.skip(0) =~= views);
    while i < args.len()
        invariant
            i <= args.len(),
            views == args@.map_values(|a: String| a@),
            mode_spec(views) == mode_spec(views.skip(i as int)),
        decreases args.len() - i,
    {
        let ghost rest = views.skip(i as int);
        assert(rest[0] == args@[i as int]@);
        if str_eq(args[i].as_str(), "--mode") {
            if i + 1 < args.len() {
                assert(rest[1] == args@[i + 1]@);
                return mode_from_value(args[i + 1].as_str());
            }
            return Mode::Normal;
        }
        assert(rest.drop_first() =~= views.skip(i + 1));
        i = i + 1;
    }
    Mode::Normal
}

/// What the mock host does once it has read its handshake ack.
pub enum AfterAck {
    /// Serve messages as `serve_reply` says until told to exit.
    Serve,
    /// Stay connected and send nothing more.
    StaySilent,
    /// Send this echo request, read one frame (the response), then serve.
    EchoThenServe(Message),
}

/// The mock host's script for a mode, up to its message loop.
pub enum Script {
    /// Exit with failure before connecting.
    ExitAtOnce,
    /// Connect, then send nothing.
    StaySilent,
    /// Connect, send this first frame, read one frame (the rejection), and
    /// exit successfully.
    SendThenExit(Message),
    /// Connect, send this handshake, read the ack, then go on as the
    /// second part says.
    HandshakeThen(Message, AfterAck),
}

/// The bytes of `not-a-handshake`.
pub open spec fn not_a_handshake_bytes() -> Seq<u8> {
    seq![110u8, 111, 116, 45, 97, 45, 104, 97, 110, 100, 115, 104, 97, 107, 101]
}

/// The bytes of `echo-test`.
pub open spec fn echo_test_bytes() -> Seq<u8> {
    seq![101u8, 99, 104, 111, 45, 116, 101, 115, 116]
}

/// A handshake of the given version from the process `pid`.
pub open spec fn is_handshake(m: Message, version: u32, pid: u32) -> bool {
    m matches Message::Handshake { inner } && inner.protocol_version == version && inner.host_pid
        == pid
}

/// An echo request with this id and payload.
pub open spec fn is_echo_request(m: Message, id: u64, payload: Seq<u8>) -> bool {
    m matches Message::EchoRequest { inner } && inner.request_id == id && inner.payload@ == payload
}

/// What each mode does, for a host process `pid`: `exit-immediately`
/// exits before connecting; `connect-then-silent` connects and never
/// hand-shakes; `bad-handshake` sends a handshake one protocol version
/// ahead; `no-handshake` sends the echo request 1 `not-a-handshake` first;
/// every other mode hand-shakes with the current version, after which
/// `go-silent-after-handshake` stays silent, `echo-after-handshake` sends
/// the echo request 42 `echo-test` and then serves, and the rest serve.
pub fn mode_script(mode: Mode, pid: u32) -> (r: Script)
    ensures
        mode == Mode::ExitImmediately ==> r matches Script::ExitAtOnce,
        mode == Mode::ConnectThenSilent ==> r matches Script::StaySilent,
        mode == Mode::BadHandshake ==> (r matches Script::SendThenExit(m) && is_handshake(
            m,
            (PROTOCOL_VERSION + 1) as u32,
            pid,
        )),
        mode == Mode::NoHandshake ==> (r matches Script::SendThenExit(m) && is_echo_request(
            m,
            1,
            not_a_handshake_bytes(),
        )),
        mode == Mode::GoSilentAfterHandshake ==> (r matches Script::HandshakeThen(
            m,
            AfterAck::StaySilent,
        ) && is_handshake(m, PROTOCOL_VERSION, pid)),
        mode == Mode::EchoAfterHandshake ==> (r matches Script::HandshakeThen(
            m,
            AfterAck::EchoThenServe(e),
        ) && is_handshake(m, PROTOCOL_VERSION, pid) && is_echo_request(e, 42, echo_test_bytes())),
        (mode == Mode::Normal || mode == Mode::ExitAfterHandshake) ==> (r matches Script::HandshakeThen(
            m,
            AfterAck::Serve,
        ) && is_handshake(m, PROTOCOL_VERSION, pid)),
{
    let hello = Message::Handshake { inner: Handshake { protocol_version: PROTOCOL_VERSION, host_pid: pid } };
    match mode {
        Mode::ExitImmediately => Script::ExitAtOnce,
        Mode::ConnectThenSilent => Script::StaySilent,
        Mode::BadHandshake => Script::SendThenExit(
            Message::Handshake {
                inner: Handshake { protocol_version: PROTOCOL_VERSION + 1, host_pid: pid },
            },
        ),
        Mode::NoHandshake => {
            let payload: Vec<u8> = vec![110u8, 111, 116, 45, 97, 45, 104, 97, 110, 100, 115, 104, 97, 107, 101];
            assert(payload@ =~= not_a_handshake_bytes());
            Script::SendThenExit(Message::EchoRequest { inner: EchoRequest { request_id: 1, payload } })
        },
        Mode::GoSilentAfterHandshake => Script::HandshakeThen(hello, AfterAck::StaySilent),
        Mode::EchoAfterHandshake => {
            let payload: Vec<u8> = vec![101u8, 99, 104, 111, 45, 116, 101, 115, 116];
            assert(payload@ =~= echo_test_bytes());
            Script::HandshakeThen(
                hello,
                AfterAck::EchoThenServe(
                    Message::EchoRequest { inner: EchoRequest { request_id: 42, payload } },
                ),
            )
        },
        Mode::Normal | Mode::ExitAfterHandshake => Script::HandshakeThen(hello, AfterAck::Serve),
    }
}

/// What the mock host does with a message while serving: as `mock_reply`
/// says, except that in `exit-after-handshake` mode a heartbeat is answered
/// with a pong and the host then exits.
pub fn serve_reply(mode: Mode, msg: Message) -> (r: HostReply)
    ensures
        (mode == Mode::ExitAfterHandshake && msg is Heartbeat) ==> r matches HostReply::Exit(
            Some(Message::Pong),
        ),
        !(mode == Mode::ExitAfterHandshake && msg is Heartbeat) ==> is_mock_reply(msg, r),
{
    if mode == Mode::ExitAfterHandshake {
        if let Message::Heartbeat = msg {
            return HostReply::Exit(Some(Message::Pong));
        }
    }
    mock_reply(msg)
}

/// What the mock host does with a message.
pub enum HostReply {
    /// Send the reply (if any) and keep reading.
    Continue(Option<Message>),
    /// Send the reply (if any) and exit successfully.
    Exit(Option<Message>),
}

/// A heartbeat is answered with a pong; an echo request with the matching
/// response; a draining shutdown with an ack and exit; an immediate
/// shutdown with exit and no ack; anything else is ignored.
pub open spec fn is_mock_reply(msg: Message, r: HostReply) -> bool {
        match msg {
            Message::Heartbeat => r matches HostReply::Continue(Some(Message::Pong)),
            Message::EchoRequest { inner: req } => r matches HostReply::Continue(
                Some(Message::EchoResponse { inner: resp }),
            ) && resp.request_id == req.request_id && resp.payload@ == req.payload@,
            Message::Shutdown { inner } => if inner.drain {
                r matches HostReply::Exit(Some(Message::ShutdownAck))
            } else {
                r matches HostReply::Exit(None)
            },
            _ => r matches HostReply::Continue(None),
        }
}

/// The mock host's reply to a message, as `is_mock_reply` says.
pub fn mock_reply(msg: Message) -> (r: HostReply)
    ensures
        is_mock_reply(msg, r),
{
    match msg {
        Message::Heartbeat => HostReply::Continue(Some(Message::Pong)),
        Message::EchoRequest { inner: req } => HostReply::Continue(Some(echo_reply(req))),
        Message::Shutdown { inner } => {
            if inner.drain {
                HostReply::Exit(Some(Message::ShutdownAck))
            } else {
                HostReply::Exit(None)
            }
        },
        _ => HostReply::Continue(None),
    }
}

} // verus!
