//! The provider streaming event protocol: stop reasons and the streaming
//! events of an assistant message.

use vstd::prelude::*;

verus! {

/// Why a completed stream stopped.
#[derive(Debug, Clone, Copy, PartialEq, Eq, Structural)]
pub enum StopReason {
    /// The model stopped naturally.
    Stop,
    /// The output token limit was hit.
    Length,
    /// The model emitted a tool call.
    ToolUse,
    /// The stream errored.
    Error,
    /// The stream was cancelled.
    Aborted,
}

/// A streaming event from the provider. `content_index` names the content
/// block of the in-flight assistant message the event targets.
#[derive(Debug, PartialEq)]
pub enum AssistantMessageEvent {
    Start,
    TextStart { content_index: u32 },
    TextDelta { content_index: u32, delta: String },
    TextEnd { content_index: u32, content: String },
    ThinkingStart { content_index: u32 },
    ThinkingDelta { content_index: u32, delta: String },
    ThinkingEnd { content_index: u32, content: String },
    ToolCallStart { content_index: u32 },
    ToolCallDelta { content_index: u32, delta: String },
    ToolCallEnd { content_index: u32, tool_call: serde_json::Value },
    Done { reason: StopReason, message: serde_json::Value },
    Error { reason: StopReason, error: serde_json::Value },
}

impl Clone for AssistantMessageEvent {
    fn clone(&self) -> (r: Self)
        ensures
            r == *self,
    {
        match self {
            AssistantMessageEvent::Start => AssistantMessageEvent::Start,
            AssistantMessageEvent::TextStart { content_index } => AssistantMessageEvent::TextStart {
                content_index: *content_index,
            },
            AssistantMessageEvent::TextDelta { content_index, delta } =>
                AssistantMessageEvent::TextDelta { content_index: *content_index, delta: delta.clone() },
            AssistantMessageEvent::TextEnd { content_index, content } =>
                AssistantMessageEvent::TextEnd {
                    content_index: *content_index,
                    content: content.clone(),
                },
            AssistantMessageEvent::ThinkingStart { content_index } =>
                AssistantMessageEvent::ThinkingStart { content_index: *content_index },
            AssistantMessageEvent::ThinkingDelta { content_index, delta } =>
                AssistantMessageEvent::ThinkingDelta {
                    content_index: *content_index,
                    delta: delta.clone(),
                },
            AssistantMessageEvent::ThinkingEnd { content_index, content } =>
                AssistantMessageEvent::ThinkingEnd {
                    content_index: *content_index,
                    content: content.clone(),
                },
            AssistantMessageEvent::ToolCallStart { content_index } =>
                AssistantMessageEvent::ToolCallStart { content_index: *content_index },
            AssistantMessageEvent::ToolCallDelta { content_index, delta } =>
                AssistantMessageEvent::ToolCallDelta {
                    content_index: *content_index,
                    delta: delta.clone(),
                },
            AssistantMessageEvent::ToolCallEnd { content_index, tool_call } =>
                AssistantMessageEvent::ToolCallEnd {
                    content_index: *content_index,
                    tool_call: tool_call.clone(),
                },
            AssistantMessageEvent::Done { reason, message } => AssistantMessageEvent::Done {
                reason: *reason,
                message: message.clone(),
            },
            AssistantMessageEvent::Error { reason, error } => AssistantMessageEvent::Error {
                reason: *reason,
                error: error.clone(),
            },
        }
    }
}

} // verus!
