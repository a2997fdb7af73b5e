//! Typed render-domain messages and content blocks.

use vstd::prelude::*;
use std::sync::Arc;
use crate::render::stream::StopReason;

verus! {

/// A content block of a message.
#[derive(Debug, PartialEq)]
pub enum ContentBlock {
    /// Text.
    Text { text: String },
    /// Reasoning; `redacted` blocks are shown as a placeholder.
    Thinking { thinking: String, redacted: bool },
    /// An image; `data` is base64, shared so a clone does not copy it.
    Image { data: Arc<str>, mime_type: String },
    /// A tool call; `arguments` is model-emitted JSON, displayed, never
    /// interpreted.
    ToolCall { id: String, name: String, arguments: serde_json::Value },
}

/// The mathematical content of a content block.
pub ghost enum ContentView {
    Text { text: Seq<char> },
    Thinking { thinking: Seq<char>, redacted: bool },
    Image { data: Seq<char>, mime_type: Seq<char> },
    ToolCall { id: Seq<char>, name: Seq<char>, arguments: serde_json::Value },
}

impl View for ContentBlock {
    type V = ContentView;

    open spec fn view(&self) -> ContentView {
        match self {
            ContentBlock::Text { text } => ContentView::Text { text: text@ },
            ContentBlock::Thinking { thinking, redacted } => ContentView::Thinking {
                thinking: thinking@,
                redacted: *redacted,
            },
            ContentBlock::Image { data, mime_type } => ContentView::Image {
                data: data@,
                mime_type: mime_type@,
            },
            ContentBlock::ToolCall { id, name, arguments } => ContentView::ToolCall {
                id: id@,
                name: name@,
                arguments: *arguments,
            },
        }
    }
}

/// The views of a sequence of blocks.
pub open spec fn blocks_view(blocks: Seq<ContentBlock>) -> Seq<ContentView> {
    blocks.map_values(|b: ContentBlock| b@)
}

/// Shares the image data (`Arc::clone`): the same string.
#[verifier::external_body]
fn share_str(a: &Arc<str>) -> (r: Arc<str>)
    ensures
        r == *a,
{
    a.clone()
}

impl Clone for ContentBlock {
    fn clone(&self) -> (r: Self)
        ensures
            r == *self,
    {
        match self {
            ContentBlock::Text { text } => ContentBlock::Text { text: text.clone() },
            ContentBlock::Thinking { thinking, redacted } => ContentBlock::Thinking {
                thinking: thinking.clone(),
                redacted: *redacted,
            },
            ContentBlock::Image { data, mime_type } => ContentBlock::Image {
                data: share_str(data),
                mime_type: mime_type.clone(),
            },
            ContentBlock::ToolCall { id, name, arguments } => ContentBlock::ToolCall {
                id: id.clone(),
                name: name.clone(),
                arguments: arguments.clone(),
            },
        }
    }
}

/// Clones a list of content blocks, element by element.
pub fn clone_blocks(v: &Vec<ContentBlock>) -> (r: Vec<ContentBlock>)
    ensures
        r@ == v@,
        blocks_view(r@) == blocks_view(v@),
{
    let mut out: Vec<ContentBlock> = Vec::new();
    let mut i: usize = 0;
    while i < v.len()
        invariant
            i <= v.len(),
            out@ == v@.take(i as int),
        decreases v.len() - i,
    {
        out.push(v[i].clone());
        assert(out@ =~= v@.take(i + 1));
        i = i + 1;
    }
    assert(v@.take(v.len() as int) =~= v@);
    out
}

/// A message as the renderer sees it: the role, the content blocks, and
/// the fields that affect display.
#[derive(Debug, PartialEq)]
pub enum MessageRef {
    /// A user message.
    User { content: Vec<ContentBlock>, timestamp: u64 },
    /// An assistant message; `stop_reason` is unset while streaming.
    Assistant { content: Vec<ContentBlock>, stop_reason: Option<StopReason>, timestamp: u64 },
    /// A tool result; errored output is shown differently.
    ToolResult {
        tool_call_id: String,
        tool_name: String,
        content: Vec<ContentBlock>,
        is_error: bool,
        timestamp: u64,
    },
}

/// The mathematical content of a message: its role, its blocks as a
/// sequence, and the fields that affect display.
pub ghost enum MessageView {
    User { content: Seq<ContentView>, timestamp: u64 },
    Assistant { content: Seq<ContentView>, stop_reason: Option<StopReason>, timestamp: u64 },
    ToolResult {
        tool_call_id: Seq<char>,
        tool_name: Seq<char>,
        content: Seq<ContentView>,
        is_error: bool,
        timestamp: u64,
    },
}

impl View for MessageRef {
    type V = MessageView;

    open spec fn view(&self) -> MessageView {
        match self {
            MessageRef::User { content, timestamp } => MessageView::User {
                content: blocks_view(content@),
                timestamp: *timestamp,
            },
            MessageRef::Assistant { content, stop_reason, timestamp } => MessageView::Assistant {
                content: blocks_view(content@),
                stop_reason: *stop_reason,
                timestamp: *timestamp,
            },
            MessageRef::ToolResult { tool_call_id, tool_name, content, is_error, timestamp } =>
                MessageView::ToolResult {
                tool_call_id: tool_call_id@,
                tool_name: tool_name@,
                content: blocks_view(content@),
                is_error: *is_error,
                timestamp: *timestamp,
            },
        }
    }
}

impl Clone for MessageRef {
    fn clone(&self) -> (r: Self)
        ensures
            r@ == self@,
    {
        match self {
            MessageRef::User { content, timestamp } => MessageRef::User {
                content: clone_blocks(content),
                timestamp: *timestamp,
            },
            MessageRef::Assistant { content, stop_reason, timestamp } => MessageRef::Assistant {
                content: clone_blocks(content),
                stop_reason: *stop_reason,
                timestamp: *timestamp,
            },
            MessageRef::ToolResult { tool_call_id, tool_name, content, is_error, timestamp } =>
                MessageRef::ToolResult {
                tool_call_id: tool_call_id.clone(),
                tool_name: tool_name.clone(),
                content: clone_blocks(content),
                is_error: *is_error,
                timestamp: *timestamp,
            },
        }
    }
}

/// The content blocks of a message, whatever its role.
pub open spec fn view_content(m: MessageView) -> Seq<ContentView> {
    match m {
        MessageView::User { content, .. } => content,
        MessageView::Assistant { content, .. } => content,
        MessageView::ToolResult { content, .. } => content,
    }
}

impl MessageRef {
    /// The content blocks of this message, regardless of role.
    pub fn content(&self) -> (r: &[ContentBlock])
        ensures
            blocks_view(r@) == view_content(self@),
    {
        match self {
            MessageRef::User { content, .. } => content.as_slice(),
            MessageRef::Assistant { content, .. } => content.as_slice(),
            MessageRef::ToolResult { content, .. } => content.as_slice(),
        }
    }
}

} // verus!
