//! The render-thread channel contract: the events the async side sends to
//! the render thread, which applies them to the retained message model.

use vstd::prelude::*;
use crate::render::message::MessageRef;
use crate::render::stream::AssistantMessageEvent;

verus! {

/// A state change signalled to the render thread. The agent-loop lifecycle
/// variants come first; the render controls (`Resize`, `ThemeChanged`,
/// `FrameBufferUpdated`, `Quit`) follow.
#[derive(Debug, PartialEq)]
pub enum RenderEvent {
    /// An agent run began.
    AgentStart,
    /// An agent run ended with its final messages (opaque).
    AgentEnd { messages: Vec<serde_json::Value> },
    /// A turn began.
    TurnStart,
    /// A turn ended with its assistant message and tool results (opaque).
    TurnEnd { message: serde_json::Value, tool_results: Vec<serde_json::Value> },
    /// A message began.
    MessageStart { message: MessageRef },
    /// A streaming update of the in-flight assistant message.
    MessageUpdate { message: MessageRef, event: AssistantMessageEvent },
    /// A message finalized.
    MessageEnd { message: MessageRef },
    /// A tool began executing.
    ToolExecutionStart { tool_call_id: String, tool_name: String, args: serde_json::Value },
    /// A tool emitted a partial result.
    ToolExecutionUpdate {
        tool_call_id: String,
        tool_name: String,
        args: serde_json::Value,
        partial_result: serde_json::Value,
    },
    /// A tool finished.
    ToolExecutionEnd {
        tool_call_id: String,
        tool_name: String,
        result: serde_json::Value,
        is_error: bool,
    },
    /// The terminal was resized.
    Resize { cols: u16, rows: u16 },
    /// The active theme changed.
    ThemeChanged,
    /// An extension frame buffer was updated.
    FrameBufferUpdated,
    /// Stop the render thread.
    Quit,
}

} // verus!
