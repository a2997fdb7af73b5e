//! Markdown document structure, as events from `pulldown-cmark`.

use vstd::prelude::*;
use pulldown_cmark::CodeBlockKind::{Fenced, Indented};
use pulldown_cmark::Event::{Code, End, HardBreak, Rule, SoftBreak, Start, Text};
use pulldown_cmark::Tag::{CodeBlock, Heading, Paragraph};
use pulldown_cmark::{Options, Parser, TagEnd};

verus! {

/// The markdown events the renderer acts on.
#[derive(Debug, Clone, PartialEq, Eq)]
pub enum MdEvent {
    /// A code block began; `lang` is the fence's info string (empty for an
    /// indented block).
    CodeBlockStart { lang: String },
    CodeBlockEnd,
    HeadingStart,
    HeadingEnd,
    ParagraphStart,
    ParagraphEnd,
    Text { text: String },
    /// Inline code.
    Code { code: String },
    SoftBreak,
    HardBreak,
    Rule,
    /// Any other event (lists, emphasis, html, ...); ignored.
    Other,
}

/// A markdown event as data.
pub ghost enum MdEventView {
    CodeBlockStart { lang: Seq<char> },
    CodeBlockEnd,
    HeadingStart,
    HeadingEnd,
    ParagraphStart,
    ParagraphEnd,
    Text { text: Seq<char> },
    Code { code: Seq<char> },
    SoftBreak,
    HardBreak,
    Rule,
    Other,
}

impl View for MdEvent {
    type V = MdEventView;

    open spec fn view(&self) -> MdEventView {
        match self {
            MdEvent::CodeBlockStart { lang } => MdEventView::CodeBlockStart { lang: lang@ },
            MdEvent::CodeBlockEnd => MdEventView::CodeBlockEnd,
            MdEvent::HeadingStart => MdEventView::HeadingStart,
            MdEvent::HeadingEnd => MdEventView::HeadingEnd,
            MdEvent::ParagraphStart => MdEventView::ParagraphStart,
            MdEvent::ParagraphEnd => MdEventView::ParagraphEnd,
            MdEvent::Text { text } => MdEventView::Text { text: text@ },
            MdEvent::Code { code } => MdEventView::Code { code: code@ },
            MdEvent::SoftBreak => MdEventView::SoftBreak,
            MdEvent::HardBreak => MdEventView::HardBreak,
            MdEvent::Rule => MdEventView::Rule,
            MdEvent::Other => MdEventView::Other,
        }
    }
}

/// The events `pulldown-cmark` yields for a text with tables and
/// strikethrough enabled.
pub uninterp spec fn markdown_events(text: Seq<char>) -> Seq<MdEventView>;

/// Parses markdown with `pulldown_cmark::Parser::new_ext` (tables and
/// strikethrough enabled) and lists its events, keeping the code block
/// starts (with the fence's info string), code block, heading and
/// paragraph ends, text, inline code, soft and hard breaks and rules; every
/// other event is `Other`. The result is a function of the text.
#[verifier::external_body]
pub(crate) fn parse_markdown(text: &str) -> (r: Vec<MdEvent>)
    ensures
        r@.map_values(|e: MdEvent| e@) == markdown_events(text@),
{
    let opts = Options::ENABLE_TABLES | Options::ENABLE_STRIKETHROUGH;
    Parser::new_ext(text, opts).map(|e| match e {
        Start(CodeBlock(Fenced(l))) => MdEvent::CodeBlockStart { lang: l.into_string() },
        Start(CodeBlock(Indented)) => MdEvent::CodeBlockStart { lang: String::new() },
        End(TagEnd::CodeBlock) => MdEvent::CodeBlockEnd,
        Start(Heading { .. }) => MdEvent::HeadingStart, End(TagEnd::Heading(_)) => MdEvent::HeadingEnd,
        Start(Paragraph) => MdEvent::ParagraphStart, End(TagEnd::Paragraph) => MdEvent::ParagraphEnd,
        Text(t) => MdEvent::Text { text: t.into_string() },
        Code(c) => MdEvent::Code { code: c.into_string() },
        SoftBreak => MdEvent::SoftBreak, HardBreak => MdEvent::HardBreak, Rule => MdEvent::Rule,
        _ => MdEvent::Other,
    }).collect()
}

} // verus!
