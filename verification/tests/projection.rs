use std::sync::Arc;

use pi_rs::render::message::{ContentBlock, MessageRef};
use pi_rs::render::projection::{
    render_message, stop_reason_str, visible_window, wrap_text, FrameBuffer, RenderedLine,
};
use pi_rs::render::state::RenderState;
use pi_rs::render::stream::StopReason;
use pi_rs::render::style::{Color, Style};

fn text_msg(text: &str) -> MessageRef {
    MessageRef::Assistant {
        content: vec![ContentBlock::Text { text: text.into() }],
        stop_reason: None,
        timestamp: 0,
    }
}

fn empty_object() -> serde_json::Value {
    serde_json::Value::Object(serde_json::Map::new())
}

#[test]
fn stop_reason_str_all_variants() {
    assert_eq!(stop_reason_str(StopReason::Stop), "stop");
    assert_eq!(stop_reason_str(StopReason::Length), "length");
    assert_eq!(stop_reason_str(StopReason::ToolUse), "toolUse");
    assert_eq!(stop_reason_str(StopReason::Error), "error");
    assert_eq!(stop_reason_str(StopReason::Aborted), "aborted");
}

#[test]
fn resize_rewraps_without_corruption() {
    let msg = text_msg("1234567890ABCDEF");
    let lines_10 = render_message(&msg, 10);
    assert!(lines_10.len() >= 2, "16 chars at width 10 must wrap to >= 2 lines");
    let lines_20 = render_message(&msg, 20);
    assert_eq!(lines_20.len(), 1, "16 chars at width 20 must fit on one line");
}

#[test]
fn auto_scroll_pins_to_tail() {
    let mut state = RenderState::default();
    for i in 0..10 {
        state.push_message(text_msg(&format!("line {}", i)));
    }
    state.render_at_width(20);
    state.recompute_scroll(5);
    let scroll = state.scroll_offset();
    let total = state.rendered_lines().len();
    assert!(scroll + 5 >= total, "pin-to-tail: scroll({}) + viewport(5) must reach total({})", scroll, total);
}

#[test]
fn finalized_message_is_cached() {
    let mut state = RenderState::default();
    state.push_message(text_msg("Hello"));
    state.render_at_width(20);
    let lines1 = state.rendered_lines().len();
    state.render_at_width(20);
    let lines2 = state.rendered_lines().len();
    assert_eq!(lines1, lines2, "re-render at same width must return cached lines");
}

#[test]
fn cache_invalidated_on_resize() {
    let msg = text_msg("1234567890ABCDEF");
    let mut state = RenderState::default();
    state.push_message(msg);
    state.render_at_width(20);
    let lines_20 = state.rendered_lines().len();
    state.render_at_width(10);
    let lines_10 = state.rendered_lines().len();
    assert_ne!(lines_20, lines_10, "resize must invalidate cache and re-render at new width");
}

#[test]
fn render_user_message() {
    let msg = MessageRef::User {
        content: vec![ContentBlock::Text { text: "hello user".into() }],
        timestamp: 0,
    };
    let lines = render_message(&msg, 80);
    assert!(!lines.is_empty());
}

#[test]
fn render_assistant_with_stop_reason() {
    let msg = MessageRef::Assistant {
        content: vec![ContentBlock::Text { text: "hi".into() }],
        stop_reason: Some(StopReason::Stop),
        timestamp: 0,
    };
    let lines = render_message(&msg, 80);
    assert!(lines.len() >= 2, "assistant with stop_reason has content + marker");
}

#[test]
fn render_assistant_with_error_stop_reason() {
    let msg = MessageRef::Assistant { content: vec![], stop_reason: Some(StopReason::Error), timestamp: 0 };
    let lines = render_message(&msg, 80);
    assert!(!lines.is_empty());
}

#[test]
fn render_tool_result_ok() {
    let msg = MessageRef::ToolResult {
        tool_call_id: "tc1".into(),
        tool_name: "bash".into(),
        content: vec![ContentBlock::Text { text: "output".into() }],
        is_error: false,
        timestamp: 0,
    };
    let lines = render_message(&msg, 80);
    assert!(!lines.is_empty());
}

#[test]
fn render_tool_result_error() {
    let msg = MessageRef::ToolResult {
        tool_call_id: "tc1".into(),
        tool_name: "bash".into(),
        content: vec![],
        is_error: true,
        timestamp: 0,
    };
    let lines = render_message(&msg, 80);
    assert!(!lines.is_empty());
}

#[test]
fn render_thinking_block() {
    let msg = MessageRef::Assistant {
        content: vec![ContentBlock::Thinking { thinking: "hmm".into(), redacted: false }],
        stop_reason: None,
        timestamp: 0,
    };
    let lines = render_message(&msg, 80);
    assert!(!lines.is_empty());
}

#[test]
fn render_redacted_thinking_block() {
    let msg = MessageRef::Assistant {
        content: vec![ContentBlock::Thinking { thinking: "".into(), redacted: true }],
        stop_reason: None,
        timestamp: 0,
    };
    let lines = render_message(&msg, 80);
    assert!(!lines.is_empty());
}

#[test]
fn render_toolcall_block() {
    let msg = MessageRef::Assistant {
        content: vec![ContentBlock::ToolCall { id: "tc1".into(), name: "bash".into(), arguments: empty_object() }],
        stop_reason: None,
        timestamp: 0,
    };
    let lines = render_message(&msg, 80);
    assert!(!lines.is_empty());
}

#[test]
fn render_image_block() {
    let msg = MessageRef::Assistant {
        content: vec![ContentBlock::Image { data: Arc::from(""), mime_type: "image/png".into() }],
        stop_reason: None,
        timestamp: 0,
    };
    let lines = render_message(&msg, 80);
    assert!(!lines.is_empty());
}

#[test]
fn render_empty_message() {
    let msg = MessageRef::Assistant { content: vec![], stop_reason: None, timestamp: 0 };
    let lines = render_message(&msg, 80);
    assert_eq!(lines.len(), 1);
}

#[test]
fn wrap_text_zero_width() {
    let mut lines = Vec::new();
    wrap_text("hello", 0, Style::plain(), &mut lines);
    assert!(lines.is_empty());
}

#[test]
fn wrap_text_handles_newlines() {
    let mut lines = Vec::new();
    wrap_text("a\nb\nc", 80, Style::plain(), &mut lines);
    assert_eq!(lines.len(), 3);
}

#[test]
fn wrap_text_empty_paragraph() {
    let mut lines = Vec::new();
    wrap_text("", 80, Style::plain(), &mut lines);
    assert_eq!(lines.len(), 1);
    assert!(lines[0].segments.is_empty() || lines[0].segments[0].text.is_empty());
}

#[test]
fn rendered_line_constructors() {
    let plain = RenderedLine::plain("x");
    assert_eq!(plain.segments.len(), 1);
    assert_eq!(plain.segments[0].text, "x");
    assert_eq!(plain.segments[0].style, Style::plain());
    let styled = RenderedLine::styled("y", Style::with_fg(Color::Red));
    assert_eq!(styled.segments[0].style, Style::with_fg(Color::Red));
}

#[test]
fn frame_buffer_clips_beyond_bottom() {
    let fb = FrameBuffer { lines: vec!["line1".into(), "line2".into(), "line3".into()], col: 0, row: 0 };
    let rows = fb.composite_rows(0, 0, 2);
    assert_eq!(rows, vec![(0, 0, 0), (0, 1, 1)]);
}

#[test]
fn frame_buffer_composites_into_grid() {
    let fb = FrameBuffer { lines: vec!["[FB]".into()], col: 10, row: 0 };
    let rows = fb.composite_rows(0, 0, 5);
    assert_eq!(rows, vec![(10, 0, 0)]);
}

#[test]
fn projection_renders_visible_window() {
    assert_eq!(visible_window(0, 5, 3), (0, 3));
    assert_eq!(visible_window(10, 5, 8), (3, 8));
    assert_eq!(visible_window(2, 3, 10), (2, 5));
}

#[test]
fn projection_empty_state() {
    let state = RenderState::default();
    assert!(state.rendered_lines().is_empty());
    assert_eq!(visible_window(state.scroll_offset(), 5, 0), (0, 0));
}

#[test]
fn message_ref_roles_match_pi() {
    let _ = MessageRef::User { content: vec![], timestamp: 0 };
    let _ = MessageRef::Assistant { content: vec![], stop_reason: None, timestamp: 0 };
    let _ = MessageRef::ToolResult {
        tool_call_id: "tc1".into(),
        tool_name: "bash".into(),
        content: vec![],
        is_error: false,
        timestamp: 0,
    };
}

#[test]
fn content_block_variants_match_pi() {
    let _ = ContentBlock::Text { text: "hi".into() };
    let _ = ContentBlock::Thinking { thinking: "hmm".into(), redacted: false };
    let _ = ContentBlock::Image { data: Arc::from(""), mime_type: "image/png".into() };
    let _ = ContentBlock::ToolCall { id: "tc1".into(), name: "bash".into(), arguments: empty_object() };
}

#[test]
fn content_returns_blocks_for_any_role() {
    let blocks = || vec![ContentBlock::Text { text: "x".into() }];
    let user = MessageRef::User { content: blocks(), timestamp: 0 };
    let asst = MessageRef::Assistant { content: blocks(), stop_reason: Some(StopReason::Stop), timestamp: 0 };
    let tool = MessageRef::ToolResult {
        tool_call_id: "tc1".into(),
        tool_name: "bash".into(),
        content: blocks(),
        is_error: false,
        timestamp: 0,
    };
    assert_eq!(user.content(), blocks().as_slice());
    assert_eq!(asst.content(), blocks().as_slice());
    assert_eq!(tool.content(), blocks().as_slice());
}

#[test]
fn image_data_is_arc() {
    let big = ContentBlock::Image { data: Arc::from("x".repeat(1024)), mime_type: "image/png".into() };
    let clone = big.clone();
    match (&big, &clone) {
        (ContentBlock::Image { data: a, .. }, ContentBlock::Image { data: b, .. }) => {
            assert!(Arc::ptr_eq(a, b), "Arc clone must share the allocation");
        }
        _ => panic!("must be Image"),
    }
}
