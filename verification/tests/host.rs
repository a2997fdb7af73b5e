use pi_rs::host::host_state::{
    backoff_for, backoff_for_scaled, backoff_multiplier, graceful_shutdown, immediate_shutdown,
    is_shutdown_ack, validate_handshake, BootCrashOutcome, Booting, CrashLooping, HandshakeRejection,
    HostState, Ready, Stopped,
};
use pi_rs::host::mock_host::{mock_reply, mode_script, parse_mode, serve_reply, AfterAck, HostReply, Mode, Script};
use pi_rs::host::supervisor::{
    after_boot, after_hung, after_pong_wait, after_prompt, judge_first_frame, on_upstream, parse_failure_decision,
    BootResult, FailureDecision, FirstFrameVerdict, Next, PongWait, ReadyResult, ReadyStep,
};
use pi_rs::protocol::messages::{
    EchoRequest, Handshake, Message, ProtocolErrorCode, Shutdown, PROTOCOL_VERSION,
};
use pi_rs::time::Span;

#[test]
fn validate_handshake_matches() {
    let hs = Handshake { protocol_version: PROTOCOL_VERSION, host_pid: 1234 };
    assert!(validate_handshake(&hs).is_ok());
}

#[test]
fn validate_handshake_rejects_mismatch() {
    let hs = Handshake { protocol_version: PROTOCOL_VERSION + 1, host_pid: 1234 };
    let err = validate_handshake(&hs).unwrap_err();
    assert_eq!(err, HandshakeRejection::VersionMismatch { expected: PROTOCOL_VERSION, got: PROTOCOL_VERSION + 1 });
}

#[test]
fn backoff_sequence_is_exponential_capped_at_30() {
    assert_eq!(backoff_for(1), Span::from_secs(1));
    assert_eq!(backoff_for(2), Span::from_secs(2));
    assert_eq!(backoff_for(3), Span::from_secs(4));
    assert_eq!(backoff_for(4), Span::from_secs(8));
    assert_eq!(backoff_for(5), Span::from_secs(30));
    assert_eq!(backoff_for(6), Span::from_secs(30), "capped at 30");
    assert_eq!(backoff_for(100), Span::from_secs(30), "capped at 30");
}

#[test]
fn stopped_starts_empty() {
    let s: HostState<(), (), ()> = HostState::stopped();
    assert!(matches!(s, HostState::Stopped(_)));
}

#[test]
fn stopped_to_booting_via_spawn() {
    let booting = Stopped.spawn(42u32);
    assert_eq!(booting.process, 42);
}

#[test]
fn booting_to_ready_on_handshake_ok() {
    let booting = Booting { process: () };
    let ready = booting.on_handshake_ok("conn");
    assert_eq!(ready.missed_pongs, 0, "miss count resets on successful handshake");
}

#[test]
fn booting_crash_under_5_yields_backing_off() {
    let booting = Booting { process: () };
    let outcome = booting.on_boot_crash(1, backoff_for(1));
    assert!(matches!(outcome, BootCrashOutcome::BackingOff(_)));
}

#[test]
fn booting_crash_at_5_yields_crash_looping() {
    let booting = Booting { process: () };
    let outcome = booting.on_boot_crash(5, backoff_for(5));
    assert!(matches!(outcome, BootCrashOutcome::CrashLooping(_)));
}

#[test]
fn ready_to_hung_after_3_misses() {
    let mut ready = Ready { conn: (), missed_pongs: 0 };
    ready = ready.on_pong_missed();
    assert!(!ready.is_hung(), "1 miss is not hung");
    ready = ready.on_pong_missed();
    assert!(!ready.is_hung(), "2 misses are not hung");
    ready = ready.on_pong_missed();
    assert!(ready.is_hung(), "3 misses is hung");
    let (_hung, _conn) = ready.into_hung();
}

#[test]
fn ready_pong_resets_miss_count() {
    let ready = Ready { conn: (), missed_pongs: 2 };
    let ready = ready.on_pong();
    assert_eq!(ready.missed_pongs, 0, "Pong resets the miss count");
}

#[test]
fn crash_looping_abort_stops() {
    let s = CrashLooping { crash_count: 5 }.on_abort();
    assert_eq!(s, Stopped);
}

#[test]
fn backoff_multiplier_values() {
    assert_eq!(backoff_multiplier(0), 0);
    assert_eq!(backoff_multiplier(3), 4);
    assert_eq!(backoff_multiplier(7), 30);
    assert_eq!(backoff_for_scaled(3, Span::from_millis(10)), Span::from_millis(40));
}

#[test]
fn shutdowns_and_ack() {
    assert_eq!(graceful_shutdown(), Shutdown { drain: true });
    assert_eq!(immediate_shutdown(), Shutdown { drain: false });
    assert!(is_shutdown_ack(&Message::ShutdownAck));
    assert!(!is_shutdown_ack(&Message::Pong));
}

#[test]
fn rejection_describes_like_debug() {
    let rej = HandshakeRejection::VersionMismatch { expected: 1, got: 2 };
    assert_eq!(rej.describe(), format!("{:?}", rej));
}

#[test]
fn fifth_consecutive_boot_crash_crash_loops() {
    let base = Span::from_millis(1);
    let mut count = 0u32;
    for expected in 1..5u32 {
        let (n, next) = after_boot::<()>(count, BootResult::Crash, base);
        assert_eq!(n, expected);
        assert!(matches!(next, Next::BackOff { crash_count, .. } if crash_count == expected));
        count = n;
    }
    let (n, next) = after_boot::<()>(count, BootResult::Crash, base);
    assert_eq!(n, 5);
    assert!(matches!(next, Next::CrashLoop { crash_count: 5 }));
    let (n, next) = after_boot(n, BootResult::Ready("c"), base);
    assert_eq!(n, 0);
    assert!(matches!(next, Next::Ready("c")));
}

#[test]
fn prompt_decisions() {
    assert_eq!(parse_failure_decision(" r\n"), FailureDecision::Restart);
    assert_eq!(parse_failure_decision("b"), FailureDecision::BypassOnce);
    assert_eq!(parse_failure_decision("x"), FailureDecision::AbortTurn);
    assert!(matches!(after_prompt::<()>(5, FailureDecision::Restart), (0, Next::Respawn)));
    assert!(matches!(after_prompt::<()>(5, FailureDecision::AbortTurn), (5, Next::Stop)));
}

#[test]
fn first_frame_must_be_a_valid_handshake() {
    let ok = Message::Handshake { inner: Handshake { protocol_version: PROTOCOL_VERSION, host_pid: 7 } };
    assert!(matches!(judge_first_frame(Some(ok)), FirstFrameVerdict::Accept));
    let bad = Message::Handshake { inner: Handshake { protocol_version: 9, host_pid: 7 } };
    match judge_first_frame(Some(bad)) {
        FirstFrameVerdict::Reject(Some(Message::ProtocolError { inner })) => {
            assert_eq!(inner.code, ProtocolErrorCode::HandshakeRejected);
            assert_eq!(inner.message, "VersionMismatch { expected: 1, got: 9 }");
        }
        _ => panic!("a bad handshake is rejected with a protocol error"),
    }
    match judge_first_frame(Some(Message::Pong)) {
        FirstFrameVerdict::Reject(Some(Message::ProtocolError { inner })) => {
            assert_eq!(inner.code, ProtocolErrorCode::UnexpectedMessage);
            assert_eq!(inner.message, "first frame was not a Handshake");
        }
        _ => panic!("a non-handshake first frame is rejected"),
    }
    assert!(matches!(judge_first_frame(None), FirstFrameVerdict::Reject(None)));
}

#[test]
fn third_missed_pong_is_hung() {
    let base = Span::from_millis(5);
    assert!(matches!(after_pong_wait(0, PongWait::TimedOut, base), ReadyStep::Continue { missed_pongs: 1, reply: None }));
    assert!(matches!(after_pong_wait(2, PongWait::TimedOut, base), ReadyStep::End(ReadyResult::Hung(b)) if b == base));
    assert!(matches!(after_pong_wait(2, PongWait::Got(Message::Pong), base), ReadyStep::Continue { missed_pongs: 0, reply: None }));
    assert!(matches!(after_pong_wait(1, PongWait::Closed, base), ReadyStep::End(ReadyResult::ConnectionLost)));
}

#[test]
fn echo_requests_are_answered() {
    let req = EchoRequest { request_id: 3, payload: b"ping".to_vec() };
    match on_upstream(1, Some(Message::EchoRequest { inner: req })) {
        ReadyStep::Continue { missed_pongs: 1, reply: Some(Message::EchoResponse { inner }) } => {
            assert_eq!(inner.request_id, 3);
            assert_eq!(inner.payload, b"ping".to_vec());
        }
        _ => panic!("echo request answered"),
    }
    assert!(matches!(on_upstream(1, None), ReadyStep::End(ReadyResult::ConnectionLost)));
}

#[test]
fn mock_host_modes_and_replies() {
    let args = |v: &[&str]| v.iter().map(|s| s.to_string()).collect::<Vec<String>>();
    assert_eq!(parse_mode(&args(&["mock", "--mode", "bad-handshake"])), Mode::BadHandshake);
    assert_eq!(parse_mode(&args(&["mock", "--mode", "whatever"])), Mode::Normal);
    assert_eq!(parse_mode(&args(&["mock", "--mode"])), Mode::Normal);
    assert_eq!(parse_mode(&args(&["mock"])), Mode::Normal);
    assert!(matches!(mock_reply(Message::Heartbeat), HostReply::Continue(Some(Message::Pong))));
    assert!(matches!(mock_reply(Message::Shutdown { inner: Shutdown { drain: true } }), HostReply::Exit(Some(Message::ShutdownAck))));
    assert!(matches!(mock_reply(Message::Shutdown { inner: Shutdown { drain: false } }), HostReply::Exit(None)));
    assert!(matches!(mock_reply(Message::Pong), HostReply::Continue(None)));
}

#[test]
fn non_pong_replies_count_toward_hung() {
    let base = Span::from_millis(5);
    let mut missed = 0;
    for _ in 0..2 {
        match after_pong_wait(missed, PongWait::Got(Message::ShutdownAck), base) {
            ReadyStep::Continue { missed_pongs, reply: None } => missed = missed_pongs,
            _ => panic!("a non-pong reply below the threshold is a miss"),
        }
    }
    assert_eq!(missed, 2);
    assert!(matches!(after_pong_wait(missed, PongWait::Got(Message::ShutdownAck), base), ReadyStep::End(ReadyResult::Hung(b)) if b == base));
    let req = EchoRequest { request_id: 9, payload: b"x".to_vec() };
    match after_pong_wait(2, PongWait::Got(Message::EchoRequest { inner: req }), base) {
        ReadyStep::ReplyThenEnd { reply: Message::EchoResponse { inner }, result: ReadyResult::Hung(b) } => {
            assert_eq!(inner.request_id, 9);
            assert_eq!(inner.payload, b"x".to_vec());
            assert_eq!(b, base);
        }
        _ => panic!("the third miss is hung even when it is an echo request"),
    }
}

#[test]
fn backoff_scales_any_fitting_base() {
    let big = Span::from_secs(u64::MAX / 2);
    assert_eq!(backoff_for_scaled(1, big), big);
    assert!(matches!(after_hung::<()>(big), Next::Reconnect { backoff } if backoff == big));
    assert!(matches!(after_boot::<()>(0, BootResult::Crash, big), (1, Next::BackOff { crash_count: 1, backoff }) if backoff == big));
}

#[test]
fn mock_host_misbehaviour_scripts() {
    let args = |v: &[&str]| v.iter().map(|s| s.to_string()).collect::<Vec<String>>();
    let silent = parse_mode(&args(&["mock-host", "--mode", "connect-then-silent"]));
    assert_eq!(silent, Mode::ConnectThenSilent);
    assert!(matches!(mode_script(silent, 7), Script::StaySilent));
    let exits = parse_mode(&args(&["mock-host", "--mode", "exit-after-handshake"]));
    assert_eq!(exits, Mode::ExitAfterHandshake);
    match mode_script(exits, 7) {
        Script::HandshakeThen(Message::Handshake { inner }, AfterAck::Serve) => {
            assert_eq!(inner.protocol_version, PROTOCOL_VERSION);
            assert_eq!(inner.host_pid, 7);
        }
        _ => panic!("exit-after-handshake hand-shakes, then serves"),
    }
    assert!(matches!(serve_reply(exits, Message::Heartbeat), HostReply::Exit(Some(Message::Pong))));
    assert!(matches!(serve_reply(Mode::Normal, Message::Heartbeat), HostReply::Continue(Some(Message::Pong))));
    assert!(matches!(mode_script(Mode::ExitImmediately, 7), Script::ExitAtOnce));
    match mode_script(Mode::BadHandshake, 7) {
        Script::SendThenExit(Message::Handshake { inner }) => assert_eq!(inner.protocol_version, PROTOCOL_VERSION + 1),
        _ => panic!("bad-handshake sends a handshake of another version"),
    }
    match mode_script(Mode::NoHandshake, 7) {
        Script::SendThenExit(Message::EchoRequest { inner }) => {
            assert_eq!(inner.request_id, 1);
            assert_eq!(inner.payload, b"not-a-handshake".to_vec());
        }
        _ => panic!("no-handshake sends an echo request first"),
    }
    match mode_script(Mode::EchoAfterHandshake, 7) {
        Script::HandshakeThen(_, AfterAck::EchoThenServe(Message::EchoRequest { inner })) => {
            assert_eq!(inner.request_id, 42);
            assert_eq!(inner.payload, b"echo-test".to_vec());
        }
        _ => panic!("echo-after-handshake sends its echo request after the ack"),
    }
    assert!(matches!(mode_script(Mode::GoSilentAfterHandshake, 7), Script::HandshakeThen(_, AfterAck::StaySilent)));
}
