use pi_rs::render::thread::{check_channel_cap, SpawnRefusal};
use std::sync::atomic::{AtomicBool, Ordering};
use std::sync::Arc;

use pi_rs::render::event::RenderEvent;
use pi_rs::render::frame::{CountingSink, FrameSink};
use pi_rs::render::input::InputEvent;
use pi_rs::render::message::{ContentBlock, MessageRef};
use pi_rs::render::projection::{FrameBuffer, RenderedLine};
use pi_rs::render::state::RenderState;
use pi_rs::render::stream::AssistantMessageEvent;
use pi_rs::render::thread::{LoopEvent, SendError};

fn asst_ref() -> MessageRef {
    MessageRef::Assistant { content: vec![], stop_reason: None, timestamp: 0 }
}

fn empty_object() -> serde_json::Value {
    serde_json::Value::Object(serde_json::Map::new())
}

#[test]
fn apply_text_delta_appends_and_marks_dirty() {
    let mut s = RenderState::default();
    s.push_message(MessageRef::Assistant {
        content: vec![ContentBlock::Text { text: "".into() }],
        stop_reason: None,
        timestamp: 0,
    });
    let dirty = s.apply(&[RenderEvent::MessageUpdate {
        message: asst_ref(),
        event: AssistantMessageEvent::TextDelta { content_index: 0, delta: "hi".into() },
    }]);
    assert!(dirty, "appending a delta must mark the state dirty");
    match &s.messages()[0] {
        MessageRef::Assistant { content, .. } => {
            assert_eq!(content[0], ContentBlock::Text { text: "hi".into() });
        }
        _ => panic!("wrong role"),
    }
}

#[test]
fn apply_quit_sets_flag_without_dirty() {
    let mut s = RenderState::default();
    let dirty = s.apply(&[RenderEvent::Quit]);
    assert!(s.quit, "Quit must set the quit flag");
    assert!(!dirty, "Quit must not mark the state dirty");
}

#[test]
fn apply_empty_is_noop() {
    let mut s = RenderState::default();
    let dirty = s.apply(&[]);
    assert!(!dirty);
}

#[test]
fn apply_message_start_pushes_and_marks_dirty() {
    let mut s = RenderState::default();
    let dirty = s.apply(&[RenderEvent::MessageStart { message: asst_ref() }]);
    assert!(dirty);
    assert_eq!(s.messages().len(), 1);
}

#[test]
fn apply_message_end_clears_streaming_and_marks_dirty() {
    let mut s = RenderState::default();
    s.push_message(asst_ref());
    let dirty = s.apply(&[RenderEvent::MessageEnd { message: asst_ref() }]);
    assert!(dirty);
}

#[test]
fn apply_frame_buffer_updated_marks_dirty() {
    let mut s = RenderState::default();
    let dirty = s.apply(&[RenderEvent::FrameBufferUpdated]);
    assert!(dirty);
}

#[test]
fn apply_resize_invalidates_cache() {
    let mut s = RenderState::with_cache(80, Vec::new());
    let dirty = s.apply(&[RenderEvent::Resize { cols: 40, rows: 24 }]);
    assert!(dirty);
    assert_eq!(s.cached_width(), 40);
}

#[test]
fn apply_resize_same_width_still_dirty() {
    let mut s = RenderState::with_cache(80, Vec::new());
    let dirty = s.apply(&[RenderEvent::Resize { cols: 80, rows: 24 }]);
    assert!(dirty);
}

#[test]
fn apply_agent_loop_events_mark_dirty() {
    let mut s = RenderState::default();
    let dirty = s.apply(&[RenderEvent::AgentStart, RenderEvent::TurnStart, RenderEvent::AgentEnd { messages: vec![] }]);
    assert!(dirty);
}

#[test]
fn apply_tool_execution_events_mark_dirty() {
    let mut s = RenderState::default();
    let dirty = s.apply(&[
        RenderEvent::ToolExecutionStart { tool_call_id: "tc1".into(), tool_name: "bash".into(), args: empty_object() },
        RenderEvent::ToolExecutionUpdate {
            tool_call_id: "tc1".into(),
            tool_name: "bash".into(),
            args: empty_object(),
            partial_result: empty_object(),
        },
        RenderEvent::ToolExecutionEnd {
            tool_call_id: "tc1".into(),
            tool_name: "bash".into(),
            result: empty_object(),
            is_error: false,
        },
    ]);
    assert!(dirty);
}

#[test]
fn apply_streaming_boundary_marks_dirty() {
    let mut s = RenderState::default();
    let dirty = s.apply(&[RenderEvent::MessageUpdate {
        message: asst_ref(),
        event: AssistantMessageEvent::TextStart { content_index: 0 },
    }]);
    assert!(dirty);
}

#[test]
fn append_delta_without_streaming_is_noop() {
    let mut s = RenderState::default();
    s.apply(&[RenderEvent::MessageUpdate {
        message: asst_ref(),
        event: AssistantMessageEvent::TextDelta { content_index: 0, delta: "orphan".into() },
    }]);
    assert!(s.messages().is_empty());
}

#[test]
fn apply_thinking_delta_marks_dirty() {
    let mut s = RenderState::default();
    s.push_message(asst_ref());
    let dirty = s.apply(&[RenderEvent::MessageUpdate {
        message: asst_ref(),
        event: AssistantMessageEvent::ThinkingDelta { content_index: 0, delta: "hmm".into() },
    }]);
    assert!(dirty);
}

#[test]
fn apply_toolcall_delta_marks_dirty() {
    let mut s = RenderState::default();
    s.push_message(asst_ref());
    let dirty = s.apply(&[RenderEvent::MessageUpdate {
        message: asst_ref(),
        event: AssistantMessageEvent::ToolCallDelta { content_index: 0, delta: "{}".into() },
    }]);
    assert!(dirty);
}

#[test]
fn recompute_scroll_pins_to_tail() {
    let mut s = RenderState::with_cache(80, (0..10).map(|_| RenderedLine::plain("x")).collect());
    s.recompute_scroll(5);
    assert_eq!(s.scroll_offset(), 5);
}

#[test]
fn recompute_scroll_underflow_is_zero() {
    let mut s = RenderState::with_cache(80, vec![RenderedLine::plain("x")]);
    s.recompute_scroll(10);
    assert_eq!(s.scroll_offset(), 0);
}

#[test]
fn render_at_width_renders_and_clears_dirty() {
    let mut s = RenderState::default();
    s.push_message(MessageRef::Assistant {
        content: vec![ContentBlock::Text { text: "hi".into() }],
        stop_reason: None,
        timestamp: 0,
    });
    s.render_at_width(80);
    assert!(!s.is_dirty());
    assert!(!s.rendered_lines().is_empty());
}

#[test]
fn render_at_width_same_width_uses_cache() {
    let mut s = RenderState::default();
    s.push_message(MessageRef::Assistant {
        content: vec![ContentBlock::Text { text: "hi".into() }],
        stop_reason: None,
        timestamp: 0,
    });
    s.render_at_width(80);
    let count1 = s.rendered_lines().len();
    s.render_at_width(80);
    let count2 = s.rendered_lines().len();
    assert_eq!(count1, count2);
}

#[test]
fn add_frame_buffer_works() {
    let mut s = RenderState::default();
    s.add_frame_buffer(FrameBuffer { lines: vec!["x".into()], col: 0, row: 0 });
    assert_eq!(s.frame_buffers().len(), 1);
}

// The render loop's turn: render events are applied, input quit and the
// shared flag both stop the loop.

#[test]
fn step_applies_render_events_and_reports_draw() {
    let mut s = RenderState::default();
    let draw = s.step(vec![LoopEvent::Render(RenderEvent::MessageStart { message: asst_ref() })], false);
    assert!(draw);
    assert_eq!(s.messages().len(), 1);
    assert!(!s.quit);
}

#[test]
fn step_input_quit_stops_the_loop() {
    let mut s = RenderState::default();
    let draw = s.step(vec![LoopEvent::Input(InputEvent::Quit)], false);
    assert!(!draw);
    assert!(s.quit);
}

#[test]
fn step_quit_flag_stops_the_loop() {
    let mut s = RenderState::default();
    let draw = s.step(vec![], true);
    assert!(!draw);
    assert!(s.quit);
}

#[test]
fn counting_sink_observes_frame_with_message() {
    let observed = Arc::new(AtomicBool::new(false));
    let mut sink = CountingSink::new(observed.clone());
    let mut s = RenderState::default();
    sink.draw(&s).unwrap();
    assert!(!observed.load(Ordering::SeqCst));
    s.push_message(asst_ref());
    sink.draw(&s).unwrap();
    assert!(observed.load(Ordering::SeqCst));
}

#[test]
fn send_error_records_full_or_disconnected() {
    let full = SendError { full: true };
    let gone = SendError { full: false };
    assert!(full.full);
    assert!(!gone.full);
    assert_ne!(full, gone);
}

#[test]
fn zero_channel_cap_is_refused_before_spawning() {
    assert_eq!(check_channel_cap(0), Err(SpawnRefusal::ZeroChannelCap));
    assert_eq!(SpawnRefusal::ZeroChannelCap.describe(), "channel_cap must be positive");
    assert_eq!(check_channel_cap(16), Ok(()));
}
