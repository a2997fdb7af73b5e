//! Projection of the retained message model to rendered lines, and the
//! geometry of the visible window and of frame buffers.
//!
//! A message renders to lines at a width: text is wrapped by characters,
//! thinking is dimmed (or a placeholder when redacted), tool calls, images
//! and stop reasons get one marker line each.

use vstd::prelude::*;
use vstd::string::StringExecFns;
use crate::render::message::{blocks_view, view_content, ContentBlock, ContentView, MessageRef, MessageView};
use crate::render::stream::StopReason;
use crate::render::style::{fg_style, plain_style, Color, Style};
use crate::render::width::concat_all;
use crate::text::{split_chars, split_on};
use crate::text::{chars_of, string_from_chars};

verus! {

/// A styled text segment of a rendered line.
#[derive(Debug, Clone, PartialEq, Eq)]
pub struct StyledSegment {
    pub text: String,
    pub style: Style,
}

/// A rendered line: a sequence of styled segments.
#[derive(Debug, Default, PartialEq, Eq)]
pub struct RenderedLine {
    pub segments: Vec<StyledSegment>,
}

/// A rendered line as data: each segment's text and style.
pub type LineView = Seq<(Seq<char>, Style)>;

impl View for StyledSegment {
    type V = (Seq<char>, Style);

    open spec fn view(&self) -> (Seq<char>, Style) {
        (self.text@, self.style)
    }
}

impl View for RenderedLine {
    type V = LineView;

    open spec fn view(&self) -> LineView {
        self.segments@.map_values(|s: StyledSegment| s@)
    }
}

/// The lines of a rendered output as data.
pub open spec fn lines_view(lines: Seq<RenderedLine>) -> Seq<LineView> {
    lines.map_values(|l: RenderedLine| l@)
}

/// A line of one segment.
pub open spec fn one_segment(text: Seq<char>, style: Style) -> LineView {
    seq![(text, style)]
}

/// The text of a line: its segments' texts run together.
pub open spec fn line_text(l: LineView) -> Seq<char> {
    concat_all(l.map_values(|s: (Seq<char>, Style)| s.0))
}

/// The texts of some lines, one per line.
pub open spec fn line_texts(ls: Seq<LineView>) -> Seq<Seq<char>> {
    ls.map_values(|l: LineView| line_text(l))
}

/// The text of a one-segment line is its segment's text.
pub proof fn lemma_one_segment_text(text: Seq<char>, style: Style)
    ensures
        line_text(one_segment(text, style)) == text,
{
    let parts = one_segment(text, style).map_values(|s: (Seq<char>, Style)| s.0);
    assert(parts.len() == 1);
    assert(parts.drop_last() =~= Seq::<Seq<char>>::empty());
    assert(concat_all(parts.drop_last()) =~= Seq::<char>::empty());
    assert(parts.last() == text);
    assert(concat_all(parts) == concat_all(parts.drop_last()) + parts.last());
    assert(Seq::<char>::empty() + text =~= text);
}

impl Clone for RenderedLine {
    fn clone(&self) -> (r: Self)
        ensures
            r@ == self@,
    {
        let mut segs: Vec<StyledSegment> = Vec::new();
        let mut i: usize = 0;
        while i < self.segments.len()
            invariant
                i <= self.segments.len(),
                segs@.map_values(|s: StyledSegment| s@) == self.segments@.take(i as int).map_values(
                    |s: StyledSegment| s@,
                ),
            decreases self.segments.len() - i,
        {
            let s = StyledSegment {
                text: self.segments[i].text.clone(),
                style: self.segments[i].style,
            };
            let ghost before = segs@.map_values(|s: StyledSegment| s@);
            let ghost sv = s@;
            segs.push(s);
            assert(segs@.map_values(|s: StyledSegment| s@) =~= before.push(sv));
            assert(self.segments@.take(i + 1) =~= self.segments@.take(i as int).push(
                self.segments@[i as int],
            ));
            assert(segs@.map_values(|s: StyledSegment| s@) =~= self.segments@.take(i + 1).map_values(
                |s: StyledSegment| s@,
            ));
            i = i + 1;
        }
        assert(self.segments@.take(self.segments.len() as int) =~= self.segments@);
        RenderedLine { segments: segs }
    }
}

impl RenderedLine {
    /// A line of one unstyled segment.
    pub fn plain(text: &str) -> (r: Self)
        ensures
            r@ == one_segment(text@, plain_style()),
    {
        let mut segments: Vec<StyledSegment> = Vec::new();
        segments.push(StyledSegment { text: String::from_str(text), style: Style::plain() });
        let r = RenderedLine { segments };
        assert(r@ =~= one_segment(text@, plain_style()));
        r
    }

    /// A line of one segment with the given style.
    pub fn styled(text: &str, style: Style) -> (r: Self)
        ensures
            r@ == one_segment(text@, style),
    {
        let mut segments: Vec<StyledSegment> = Vec::new();
        segments.push(StyledSegment { text: String::from_str(text), style });
        let r = RenderedLine { segments };
        assert(r@ =~= one_segment(text@, style));
        r
    }
}

/// A frame buffer region: pre-rendered text lines at a (col, row) offset
/// within the viewport.
#[derive(Debug, Clone, PartialEq, Eq)]
pub struct FrameBuffer {
    pub lines: Vec<String>,
    pub col: u16,
    pub row: u16,
}

/// The rows a frame buffer's lines land on: line `i` at row
/// `area_y + row + i`, for the lines before the first row at or below
/// `area_bottom`.
pub open spec fn composite_rows_spec(n_lines: int, area_y: int, row: int, area_bottom: int) -> int {
    if area_y + row >= area_bottom {
        0
    } else if area_bottom - (area_y + row) < n_lines {
        area_bottom - (area_y + row)
    } else {
        n_lines
    }
}

impl FrameBuffer {
    /// Where the frame buffer's lines go in an area whose top-left is
    /// (`area_x`, `area_y`) and whose bottom edge is `area_bottom`: for each
    /// line drawn, its column, its row and its index. Line `i` goes at
    /// column `area_x + col`, row `area_y + row + i`; drawing stops at the
    /// first line that would fall at or below the bottom.
    pub fn composite_rows(&self, area_x: u16, area_y: u16, area_bottom: u16) -> (r: Vec<
        (u16, u16, usize),
    >)
        requires
            area_x + self.col <= u16::MAX,
        ensures
            r@.len() == composite_rows_spec(
                self.lines@.len() as int,
                area_y as int,
                self.row as int,
                area_bottom as int,
            ),
            forall|i: int|
                0 <= i < r@.len() ==> #[trigger] r@[i] == (
                    (area_x + self.col) as u16,
                    (area_y + self.row + i) as u16,
                    i as usize,
                ),
    {
        let top: u64 = area_y as u64 + self.row as u64;
        let bottom: u64 = area_bottom as u64;
        let len: u64 = self.lines.len() as u64;
        let n: u64 = if top >= bottom {
            0
        } else if bottom - top < len {
            bottom - top
        } else {
            len
        };
        let x: u16 = area_x + self.col;
        let mut out: Vec<(u16, u16, usize)> = Vec::new();
        let mut i: u64 = 0;
        while i < n
            invariant
                i <= n,
                n == composite_rows_spec(
                    self.lines@.len() as int,
                    area_y as int,
                    self.row as int,
                    area_bottom as int,
                ),
                top == area_y + self.row,
                n > 0 ==> top + n <= bottom,
                bottom == area_bottom,
                x == area_x + self.col,
                out@.len() == i,
                forall|j: int|
                    0 <= j < i ==> #[trigger] out@[j] == (x, (area_y + self.row + j) as u16, j as usize),
            decreases n - i,
        {
            out.push((x, (top + i) as u16, i as usize));
            i = i + 1;
        }
        out
    }
}

/// The visible window of `total` lines for a viewport of `height` lines
/// scrolled to `scroll`: the start is the scroll offset, but never so far
/// that fewer than `height` lines remain (unless there are fewer in all);
/// the end is `height` lines on, or the last line.
pub open spec fn visible_window_spec(scroll: int, height: int, total: int) -> (int, int) {
    let max_start = if total > height {
        total - height
    } else {
        0
    };
    let start = if scroll < max_start {
        scroll
    } else {
        max_start
    };
    let end = if start + height < total {
        start + height
    } else {
        total
    };
    (start, end)
}

/// The range of rendered lines that is visible.
pub fn visible_window(scroll: usize, height: usize, total: usize) -> (r: (usize, usize))
    ensures
        r.0 == visible_window_spec(scroll as int, height as int, total as int).0,
        r.1 == visible_window_spec(scroll as int, height as int, total as int).1,
        r.0 <= r.1 <= total,
{
    let max_start = if total > height {
        total - height
    } else {
        0
    };
    let start = if scroll < max_start {
        scroll
    } else {
        max_start
    };
    let end = if height < total - start {
        start + height
    } else {
        total
    };
    (start, end)
}

/// The text of a stop reason, as the provider spells it.
pub open spec fn stop_reason_text(reason: StopReason) -> Seq<char> {
    match reason {
        StopReason::Stop => "stop"@,
        StopReason::Length => "length"@,
        StopReason::ToolUse => "toolUse"@,
        StopReason::Error => "error"@,
        StopReason::Aborted => "aborted"@,
    }
}

/// The text of a stop reason.
pub fn stop_reason_str(reason: StopReason) -> (r: &'static str)
    ensures
        r@ == stop_reason_text(reason),
{
    match reason {
        StopReason::Stop => "stop",
        StopReason::Length => "length",
        StopReason::ToolUse => "toolUse",
        StopReason::Error => "error",
        StopReason::Aborted => "aborted",
    }
}

/// A paragraph cut into chunks of `width` characters (the last may be
/// shorter), each a line in `style`.
pub open spec fn chunk_lines(p: Seq<char>, width: int, style: Style) -> Seq<LineView>
    decreases p.len(),
{
    if p.len() == 0 || width <= 0 {
        seq![]
    } else if p.len() <= width {
        seq![one_segment(p, style)]
    } else {
        seq![one_segment(p.take(width), style)] + chunk_lines(p.skip(width), width, style)
    }
}

/// The lines of paragraphs cut at `width`: an empty paragraph is one plain
/// empty line.
pub open spec fn chunk_paragraphs(ps: Seq<Seq<char>>, width: int, style: Style) -> Seq<LineView>
    decreases ps.len(),
{
    if ps.len() == 0 {
        seq![]
    } else {
        let p = ps.last();
        chunk_paragraphs(ps.drop_last(), width, style) + if p.len() == 0 {
            seq![one_segment(seq![], plain_style())]
        } else {
            chunk_lines(p, width, style)
        }
    }
}

/// Text wrapped at `width` characters: each `\n` starts a paragraph; a
/// width of zero gives no lines.
pub open spec fn wrap_text_lines(text: Seq<char>, width: int, style: Style) -> Seq<LineView> {
    if width == 0 {
        seq![]
    } else {
        chunk_paragraphs(split_on(text, '\n'), width, style)
    }
}

/// The lines of one content block.
pub open spec fn block_lines(block: ContentView, width: int) -> Seq<LineView> {
    match block {
        ContentView::Text { text } => wrap_text_lines(text, width, plain_style()),
        ContentView::Thinking { thinking, redacted } => if redacted {
            seq![one_segment("[redacted thinking]"@, fg_style(Color::DarkGray))]
        } else {
            wrap_text_lines(thinking, width, fg_style(Color::DarkGray))
        },
        ContentView::ToolCall { id, name, .. } => seq![
            one_segment("> "@ + name + " ("@ + id + ")"@, fg_style(Color::Cyan)),
        ],
        ContentView::Image { mime_type, .. } => seq![
            one_segment("[image: "@ + mime_type + "]"@, fg_style(Color::Magenta)),
        ],
    }
}

/// The lines of a sequence of content blocks, one block after another.
pub open spec fn blocks_lines(blocks: Seq<ContentView>, width: int) -> Seq<LineView>
    decreases blocks.len(),
{
    if blocks.len() == 0 {
        seq![]
    } else {
        blocks_lines(blocks.drop_last(), width) + block_lines(blocks.last(), width)
    }
}

/// The lines of a message before the empty-message fallback.
pub open spec fn message_body_lines(m: MessageView, width: int) -> Seq<LineView> {
    match m {
        MessageView::User { content, .. } => blocks_lines(content, width),
        MessageView::Assistant { content, stop_reason, .. } => blocks_lines(content, width) + match
            stop_reason {
            Some(reason) => seq![
                one_segment("["@ + stop_reason_text(reason) + "]"@, fg_style(Color::DarkGray)),
            ],
            None => seq![],
        },
        MessageView::ToolResult { tool_name, content, is_error, .. } => seq![
            one_segment(
                (if is_error {
                    "ERROR"@
                } else {
                    "OK"@
                }) + ": "@ + tool_name,
                if is_error {
                    fg_style(Color::Red)
                } else {
                    fg_style(Color::Green)
                },
            ),
        ] + blocks_lines(content, width),
    }
}

/// A tool result's first line names its outcome: `ERROR: <tool>` in red
/// when the result is an error, `OK: <tool>` in green when it is not,
/// whatever the width and the result's content.
pub proof fn lemma_tool_result_header(m: MessageView, width: int)
    requires
        m is ToolResult,
    ensures
        message_lines(m, width).len() >= 1,
        match m {
            MessageView::ToolResult { tool_name, is_error, .. } => if is_error {
                message_lines(m, width)[0] == seq![
                    (seq!['E', 'R', 'R', 'O', 'R', ':', ' '] + tool_name, fg_style(Color::Red)),
                ]
            } else {
                message_lines(m, width)[0] == seq![
                    (seq!['O', 'K', ':', ' '] + tool_name, fg_style(Color::Green)),
                ]
            },
            _ => true,
        },
{
    reveal_strlit("ERROR");
    reveal_strlit("OK");
    reveal_strlit(": ");
    match m {
        MessageView::ToolResult { tool_name, is_error, .. } => {
            if is_error {
                assert("ERROR"@ + ": "@ + tool_name =~= seq!['E', 'R', 'R', 'O', 'R', ':', ' '] + tool_name);
            } else {
                assert("OK"@ + ": "@ + tool_name =~= seq!['O', 'K', ':', ' '] + tool_name);
            }
        },
        _ => {},
    }
}

/// The lines of a message at a width: its body, or one plain empty line if
/// the body is empty.
pub open spec fn message_lines(m: MessageView, width: int) -> Seq<LineView> {
    let body = message_body_lines(m, width);
    if body.len() == 0 {
        seq![one_segment(seq![], plain_style())]
    } else {
        body
    }
}

/// Appends `text` cut into chunks of `width` characters.
fn push_chunks(cs: &Vec<char>, width: usize, style: Style, lines: &mut Vec<RenderedLine>)
    requires
        width > 0,
    ensures
        lines_view(final(lines)@) == lines_view(old(lines)@) + chunk_lines(cs@, width as int, style),
{
    let ghost before = lines_view(lines@);
    let mut start: usize = 0;
    assert(cs@.skip(0) =~= cs@);
    assert(before + Seq::<LineView>::empty() =~= before);
    while start < cs.len()
        invariant
            width > 0,
            start <= cs.len(),
            lines_view(lines@) + chunk_lines(cs@.skip(start as int), width as int, style) == before
                + chunk_lines(cs@, width as int, style),
        decreases cs.len() - start,
    {
        let end = if width < cs.len() - start {
            start + width
        } else {
            cs.len()
        };
        let chunk = string_from_chars(&cs.as_slice()[start..end]);
        let ghost rest = cs@.skip(start as int);
        let ghost prev = lines_view(lines@);
        lines.push(RenderedLine::styled(chunk.as_str(), style));
        proof {
            assert(lines_view(lines@) =~= prev.push(one_segment(chunk@, style)));
            assert(chunk@ =~= cs@.subrange(start as int, end as int));
            if rest.len() <= width {
                assert(rest =~= cs@.subrange(start as int, end as int));
                assert(cs@.skip(end as int) =~= Seq::<char>::empty());
                assert(chunk_lines(rest, width as int, style) == seq![one_segment(rest, style)]);
            } else {
                assert(rest.take(width as int) =~= cs@.subrange(start as int, end as int));
                assert(rest.skip(width as int) =~= cs@.skip(end as int));
            }
            assert(prev.push(one_segment(chunk@, style)) + chunk_lines(cs@.skip(end as int), width as int, style)
                =~= prev + chunk_lines(rest, width as int, style));
        }
        start = end;
    }
    proof {
        assert(cs@.skip(start as int) =~= Seq::<char>::empty());
        assert(lines_view(lines@) + Seq::<LineView>::empty() =~= lines_view(lines@));
    }
}

/// Word-wraps `text` at `width` characters into `lines`: each `\n` starts a
/// paragraph, an empty paragraph is a plain empty line, a longer one is cut
/// into `width`-character lines in `style`. A width of zero adds nothing.
pub fn wrap_text(text: &str, width: usize, style: Style, lines: &mut Vec<RenderedLine>)
    ensures
        lines_view(final(lines)@) == lines_view(old(lines)@) + wrap_text_lines(
            text@,
            width as int,
            style,
        ),
{
    if width == 0 {
        assert(lines_view(lines@) + Seq::<LineView>::empty() =~= lines_view(lines@));
        return;
    }
    let cs = chars_of(text);
    let paragraphs = split_chars(&cs, '\n');
    let ghost before = lines_view(lines@);
    let ghost ps = split_on(text@, '\n');
    let mut i: usize = 0;
    assert(ps.take(0) =~= Seq::<Seq<char>>::empty());
    assert(before + Seq::<LineView>::empty() =~= before);
    while i < paragraphs.len()
        invariant
            width > 0,
            i <= paragraphs.len(),
            paragraphs@.map_values(|c: Vec<char>| c@) == ps,
            ps == split_on(text@, '\n'),
            lines_view(lines@) == before + chunk_paragraphs(ps.take(i as int), width as int, style),
        decreases paragraphs.len() - i,
    {
        assert(paragraphs@[i as int]@ == ps[i as int]);
        assert(ps.take(i + 1).drop_last() =~= ps.take(i as int));
        assert(ps.take(i + 1).last() == ps[i as int]);
        let ghost prev = lines_view(lines@);
        if paragraphs[i].len() == 0 {
            lines.push(RenderedLine::plain(""));
            proof {
                reveal_strlit("");
                assert(""@ =~= Seq::<char>::empty());
                assert(lines_view(lines@) =~= prev.push(one_segment(seq![], plain_style())));
                assert(prev.push(one_segment(seq![], plain_style())) =~= prev + seq![
                    one_segment(seq![], plain_style()),
                ]);
            }
        } else {
            push_chunks(&paragraphs[i], width, style, lines);
        }
        i = i + 1;
    }
    assert(ps.take(paragraphs.len() as int) =~= ps);
}

fn push_line(lines: &mut Vec<RenderedLine>, text: &str, style: Style)
    ensures
        lines_view(final(lines)@) == lines_view(old(lines)@).push(one_segment(text@, style)),
{
    let ghost prev = lines_view(lines@);
    lines.push(RenderedLine::styled(text, style));
    assert(lines_view(lines@) =~= prev.push(one_segment(text@, style)));
}

/// Appends the lines of one content block.
pub fn render_content_block(block: &ContentBlock, width: usize, lines: &mut Vec<RenderedLine>)
    ensures
        lines_view(final(lines)@) == lines_view(old(lines)@) + block_lines(block@, width as int),
{
    let ghost prev = lines_view(lines@);
    match block {
        ContentBlock::Text { text } => {
            wrap_text(text.as_str(), width, Style::plain(), lines);
        },
        ContentBlock::Thinking { thinking, redacted } => {
            if *redacted {
                push_line(lines, "[redacted thinking]", Style::with_fg(Color::DarkGray));
                assert(prev.push(one_segment("[redacted thinking]"@, fg_style(Color::DarkGray)))
                    =~= prev + seq![one_segment("[redacted thinking]"@, fg_style(Color::DarkGray))]);
            } else {
                wrap_text(thinking.as_str(), width, Style::with_fg(Color::DarkGray), lines);
            }
        },
        ContentBlock::ToolCall { id, name, .. } => {
            let mut s = String::from_str("> ");
            s.append(name.as_str());
            s.append(" (");
            s.append(id.as_str());
            s.append(")");
            push_line(lines, s.as_str(), Style::with_fg(Color::Cyan));
            assert(prev.push(one_segment(s@, fg_style(Color::Cyan))) =~= prev + seq![
                one_segment(s@, fg_style(Color::Cyan)),
            ]);
        },
        ContentBlock::Image { mime_type, .. } => {
            let mut s = String::from_str("[image: ");
            s.append(mime_type.as_str());
            s.append("]");
            push_line(lines, s.as_str(), Style::with_fg(Color::Magenta));
            assert(prev.push(one_segment(s@, fg_style(Color::Magenta))) =~= prev + seq![
                one_segment(s@, fg_style(Color::Magenta)),
            ]);
        },
    }
}

fn render_blocks(blocks: &Vec<ContentBlock>, width: usize, lines: &mut Vec<RenderedLine>)
    ensures
        lines_view(final(lines)@) == lines_view(old(lines)@) + blocks_lines(blocks_view(blocks@), width as int),
{
    let ghost before = lines_view(lines@);
    let ghost bv = blocks_view(blocks@);
    let mut i: usize = 0;
    assert(bv.take(0) =~= Seq::<ContentView>::empty());
    assert(before + Seq::<LineView>::empty() =~= before);
    while i < blocks.len()
        invariant
            i <= blocks.len(),
            bv == blocks_view(blocks@),
            lines_view(lines@) == before + blocks_lines(bv.take(i as int), width as int),
        decreases blocks.len() - i,
    {
        assert(bv.take(i + 1).drop_last() =~= bv.take(i as int));
        assert(bv.take(i + 1).last() == blocks@[i as int]@);
        render_content_block(&blocks[i], width, lines);
        i = i + 1;
    }
    assert(bv.take(blocks.len() as int) =~= bv);
}

/// Renders a message to lines at a width. Text wraps by characters;
/// an assistant message with a stop reason ends with a `[reason]` line; a
/// tool result starts with `OK: name` (or `ERROR: name`). A message with no
/// lines renders as one empty line.
pub fn render_message(msg: &MessageRef, width: u16) -> (r: Vec<RenderedLine>)
    ensures
        lines_view(r@) == message_lines(msg@, width as int),
{
    let w = width as usize;
    let mut lines: Vec<RenderedLine> = Vec::new();
    assert(lines_view(lines@) =~= Seq::<LineView>::empty());
    match msg {
        MessageRef::User { content, .. } => {
            render_blocks(content, w, &mut lines);
            assert(Seq::<LineView>::empty() + blocks_lines(blocks_view(content@), w as int)
                =~= blocks_lines(blocks_view(content@), w as int));
        },
        MessageRef::Assistant { content, stop_reason, .. } => {
            render_blocks(content, w, &mut lines);
            assert(Seq::<LineView>::empty() + blocks_lines(blocks_view(content@), w as int)
                =~= blocks_lines(blocks_view(content@), w as int));
            match stop_reason {
                Some(reason) => {
                    let mut s = String::from_str("[");
                    s.append(stop_reason_str(*reason));
                    s.append("]");
                    let ghost prev = lines_view(lines@);
                    push_line(&mut lines, s.as_str(), Style::with_fg(Color::DarkGray));
                    assert(prev.push(one_segment(s@, fg_style(Color::DarkGray))) =~= prev + seq![
                        one_segment(s@, fg_style(Color::DarkGray)),
                    ]);
                },
                None => {
                    assert(lines_view(lines@) + Seq::<LineView>::empty() =~= lines_view(lines@));
                },
            }
        },
        MessageRef::ToolResult { tool_name, is_error, content, .. } => {
            let prefix = if *is_error {
                "ERROR"
            } else {
                "OK"
            };
            let style = if *is_error {
                Style::with_fg(Color::Red)
            } else {
                Style::with_fg(Color::Green)
            };
            let mut s = String::from_str(prefix);
            s.append(": ");
            s.append(tool_name.as_str());
            push_line(&mut lines, s.as_str(), style);
            assert(lines_view(lines@) =~= seq![one_segment(s@, style)]);
            render_blocks(content, w, &mut lines);
        },
    }
    if lines.len() == 0 {
        lines.push(RenderedLine::plain(""));
        proof {
            reveal_strlit("");
            assert(""@ =~= Seq::<char>::empty());
            assert(lines_view(lines@) =~= seq![one_segment(seq![], plain_style())]);
        }
    }
    lines
}

} // verus!
