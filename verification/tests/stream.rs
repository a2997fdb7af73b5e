use pi_rs::render::stream::StopReason;

#[test]
fn stop_reason_has_five_variants() {
    assert_eq!(format!("{:?}", StopReason::Stop), "Stop".to_string());
    assert!(matches!(StopReason::Length, StopReason::Length));
    let all = [StopReason::Stop, StopReason::Length, StopReason::ToolUse, StopReason::Error, StopReason::Aborted];
    assert_eq!(all.len(), 5);
}
