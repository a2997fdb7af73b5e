//! Streaming markdown pipeline.
//!
//! `pulldown-cmark` gives the document structure; code blocks are
//! highlighted with `tree-sitter-highlight`. Finalized code blocks are
//! cached as highlighted lines (keyed by code, language and width); the
//! streaming tail block is not cached. A partial closing fence at the end of
//! the stream is trimmed before parsing so an open code block does not
//! flicker closed and open again.

use vstd::prelude::*;
use vstd::string::StringExecFns;
use crate::render::projection::{
    lemma_one_segment_text, line_texts, lines_view, one_segment, LineView, RenderedLine, StyledSegment,
};
use crate::render::style::{fg_style, plain_style, Color, Style};
use crate::render::width::{
    clusters, concat_all, lemma_plain_text_fixed, lemma_wrap_text_keeps_text, lemma_wrap_text_nonempty,
    wrap_text_spec, GraphemeWidth, RunefixWidth,
};
use crate::render::highlight::{try_highlight, try_highlight_spec};
use crate::render::cmark::{markdown_events, parse_markdown, MdEvent, MdEventView};
use vstd::string::StrSliceExecFns;
use crate::text::{chars_of, push_char, str_eq, string_from_chars, text_lines, text_lines_of, trim, trim_spec};

verus! {

// ---------------------------------------------------------------------------
// Partial closing fences
// ---------------------------------------------------------------------------

/// Whether a line is a partial closing fence: one or two backticks and
/// nothing else.
pub open spec fn is_partial_fence_spec(line: Seq<char>) -> bool {
    0 < line.len() < 3 && forall|i: int| 0 <= i < line.len() ==> line[i] == '`'
}

/// Whether a line is a partial closing fence (1-2 backticks, nothing else).
pub fn is_partial_closing_fence(line: &str) -> (r: bool)
    ensures
        r == is_partial_fence_spec(line@),
{
    let cs = chars_of(line);
    if cs.len() == 0 || cs.len() >= 3 {
        return false;
    }
    let mut i: usize = 0;
    while i < cs.len()
        invariant
            cs@ == line@,
            i <= cs.len(),
            forall|j: int| 0 <= j < i ==> cs@[j] == '`',
        decreases cs.len() - i,
    {
        if cs[i] != '`' {
            return false;
        }
        i = i + 1;
    }
    true
}

/// The index of the last `\n` in `s`, if any.
pub open spec fn last_newline(s: Seq<char>) -> Option<int>
    decreases s.len(),
{
    if s.len() == 0 {
        None
    } else if s.last() == '\n' {
        Some(s.len() - 1)
    } else {
        last_newline(s.drop_last())
    }
}

/// `text` without its last line when that line, trimmed, is a partial
/// closing fence (the newline before it stays).
pub open spec fn trim_fences_spec(text: Seq<char>) -> Seq<char> {
    let (body, last) = match last_newline(text) {
        Some(i) => (text.take(i + 1), text.skip(i + 1)),
        None => (seq![], text),
    };
    if is_partial_fence_spec(trim_spec(last)) {
        body
    } else {
        text
    }
}

proof fn lemma_last_newline_bounds(s: Seq<char>)
    ensures
        last_newline(s) matches Some(i) ==> 0 <= i < s.len() && s[i] == '\n' && forall|j: int|
            i < j < s.len() ==> s[j] != '\n',
        last_newline(s) is None ==> forall|j: int| 0 <= j < s.len() ==> s[j] != '\n',
    decreases s.len(),
{
    if s.len() > 0 && s.last() != '\n' {
        let d = s.drop_last();
        lemma_last_newline_bounds(d);
        assert forall|j: int| 0 <= j < d.len() implies d[j] == s[j] by {}
        match last_newline(d) {
            Some(i) => {
                assert(s[i] == d[i]);
                assert forall|j: int| i < j < s.len() implies s[j] != '\n' by {
                    if j < d.len() {
                        assert(d[j] != '\n');
                    }
                }
            },
            None => {
                assert forall|j: int| 0 <= j < s.len() implies s[j] != '\n' by {
                    if j < d.len() {
                        assert(d[j] != '\n');
                    }
                }
            },
        }
    }
}

/// Fence trimming touches only the last line: the result is the text, or
/// the text up to and including its last newline, so every earlier line
/// is kept as it is, and what is dropped holds no newline.
pub proof fn lemma_trim_fences_only_last_line(text: Seq<char>)
    ensures
        trim_fences_spec(text).len() <= text.len(),
        trim_fences_spec(text) == text.take(trim_fences_spec(text).len() as int),
        forall|j: int|
            trim_fences_spec(text).len() <= j < text.len() ==> text[j] != '\n',
{
    lemma_last_newline_bounds(text);
    let r = trim_fences_spec(text);
    if r != text {
        match last_newline(text) {
            Some(i) => {
                assert(r =~= text.take(i + 1));
            },
            None => {
                assert(r =~= Seq::<char>::empty());
                assert(text.take(0) =~= Seq::<char>::empty());
            },
        }
    } else {
        assert(text.take(text.len() as int) =~= text);
    }
}

/// Trims a partial closing fence from the last line of streamed markdown.
/// During streaming a closing fence arrives one backtick at a time; a
/// partial fence at the end would be parsed as code, then as a fence once
/// complete, causing flicker. Only the last line is trimmed.
pub fn trim_partial_closing_fences(text: &str) -> (r: String)
    ensures
        r@ == trim_fences_spec(text@),
{
    let cs = chars_of(text);
    let mut k: usize = cs.len();
    while k > 0 && cs[k - 1] != '\n'
        invariant
            cs@ == text@,
            k <= cs.len(),
            forall|j: int| k <= j < cs.len() ==> cs@[j] != '\n',
        decreases k,
    {
        k = k - 1;
    }
    proof {
        lemma_last_newline_bounds(cs@);
        if k > 0 {
            assert(cs@[k - 1] == '\n');
            match last_newline(cs@) {
                Some(i) => {
                    assert(i == k - 1);
                },
                None => {
                    assert(false);
                },
            }
        } else {
            match last_newline(cs@) {
                Some(i) => {
                    assert(false);
                },
                None => {},
            }
            assert(cs@.take(0) =~= Seq::<char>::empty());
            assert(cs@.skip(0) =~= cs@);
        }
    }
    let last = string_from_chars(&cs.as_slice()[k..cs.len()]);
    let t = trim(last.as_str());
    if is_partial_closing_fence(t.as_str()) {
        let body = string_from_chars(&cs.as_slice()[0..k]);
        assert(body@ =~= cs@.take(k as int));
        assert(last@ =~= cs@.skip(k as int));
        body
    } else {
        assert(last@ =~= cs@.skip(k as int));
        String::from_str(text)
    }
}

/// Normalizes markdown before parsing: trims a partial closing fence.
pub fn normalize_markdown(text: &str) -> (r: String)
    ensures
        r@ == trim_fences_spec(text@),
{
    trim_partial_closing_fences(text)
}

// ---------------------------------------------------------------------------
// Code blocks
// ---------------------------------------------------------------------------

/// `s` without one trailing newline.
pub open spec fn strip_newline(s: Seq<char>) -> Seq<char> {
    if s.len() > 0 && s.last() == '\n' {
        s.drop_last()
    } else {
        s
    }
}

/// The fence line of a code block: three backticks, then the language.
pub open spec fn fence_line(lang: Seq<char>) -> LineView {
    one_segment(seq!['`', '`', '`'] + lang, fg_style(Color::DarkGray))
}

/// The lines of a highlighted code block: a fence line with the language,
/// the code (one trailing newline dropped) highlighted, or if it cannot be
/// highlighted its lines in yellow, and a closing fence line.
pub open spec fn code_block_spec(code: Seq<char>, lang: Seq<char>) -> Seq<LineView> {
    let c = strip_newline(code);
    let body = match try_highlight_spec(c, lang) {
        Some(ls) => ls,
        None => text_lines(c).map_values(|l: Seq<char>| one_segment(l, fg_style(Color::Yellow))),
    };
    seq![fence_line(lang)] + body + seq![fence_line(seq![])]
}

/// Highlights a code block, falling back to plain yellow lines when the
/// language is not supported or highlighting fails. The width is not used.
pub fn highlight_code_block(code: &str, lang: &str, width: u16) -> (r: Vec<RenderedLine>)
    ensures
        lines_view(r@) == code_block_spec(code@, lang@),
{
    let n = code.unicode_len();
    let stripped = if n > 0 && code.get_char(n - 1) == '\n' {
        code.substring_char(0, n - 1)
    } else {
        code.substring_char(0, n)
    };
    assert(stripped@ =~= strip_newline(code@));
    let ghost c = stripped@;
    let header_style = Style::with_fg(Color::DarkGray);
    let mut lines: Vec<RenderedLine> = Vec::new();
    let mut header = fence_text();
    header.append(lang);
    lines.push(RenderedLine::styled(header.as_str(), header_style));
    let ghost start = lines_view(lines@);
    assert(start =~= seq![fence_line(lang@)]);
    let body: Vec<RenderedLine> = match try_highlight(stripped, lang) {
        Some(ls) => ls,
        None => {
            let plain = Style::with_fg(Color::Yellow);
            let ls = text_lines_of(stripped);
            let ghost tl = text_lines(c);
            let mut out: Vec<RenderedLine> = Vec::new();
            let mut i: usize = 0;
            while i < ls.len()
                invariant
                    i <= ls.len(),
                    plain == fg_style(Color::Yellow),
                    ls@.map_values(|x: String| x@) == tl,
                    lines_view(out@) == tl.take(i as int).map_values(
                        |l: Seq<char>| one_segment(l, fg_style(Color::Yellow)),
                    ),
                decreases ls.len() - i,
            {
                let ghost before = lines_view(out@);
                assert(ls@[i as int]@ == tl[i as int]);
                out.push(RenderedLine::styled(ls[i].as_str(), plain));
                assert(tl.take(i + 1) =~= tl.take(i as int).push(tl[i as int]));
                assert(lines_view(out@) =~= before.push(
                    one_segment(tl[i as int], fg_style(Color::Yellow)),
                ));
                i = i + 1;
            }
            assert(tl.take(ls.len() as int) =~= tl);
            out
        },
    };
    let ghost body_view = lines_view(body@);
    append_lines(&mut lines, body);
    lines.push(RenderedLine::styled(fence_text().as_str(), header_style));
    assert(lines_view(lines@) =~= start + body_view + seq![fence_line(seq![])]);
    lines
}

/// Three backticks.
fn fence_text() -> (r: String)
    ensures
        r@ == seq!['`', '`', '`'],
{
    let mut s = String::new();
    push_char(&mut s, '`');
    push_char(&mut s, '`');
    push_char(&mut s, '`');
    assert(s@ =~= seq!['`', '`', '`']);
    s
}

/// Moves `more` onto the end of `lines`.
fn append_lines(lines: &mut Vec<RenderedLine>, more: Vec<RenderedLine>)
    ensures
        lines_view(final(lines)@) == lines_view(old(lines)@) + lines_view(more@),
{
    let mut more = more;
    let ghost start = lines_view(lines@);
    let ghost mv = lines_view(more@);
    lines.append(&mut more);
    assert(lines_view(lines@) =~= start + mv);
}

// ---------------------------------------------------------------------------
// The block cache
// ---------------------------------------------------------------------------

/// A cache key: code, language and width.
pub type CacheKey = (Seq<char>, Seq<char>, u16);

/// What the cache holds after a lookup of `(code, lang, width)`: a width
/// change first empties it; a finalized block not yet held is added.
pub open spec fn cache_step(
    cached_width: u16,
    keys: Seq<CacheKey>,
    code: Seq<char>,
    lang: Seq<char>,
    width: u16,
    is_finalized: bool,
) -> (u16, Seq<CacheKey>) {
    let base = if cached_width == width {
        keys
    } else {
        seq![]
    };
    if is_finalized && !base.contains((code, lang, width)) {
        (width, base.push((code, lang, width)))
    } else {
        (width, base)
    }
}

struct CacheEntry {
    code: String,
    lang: String,
    width: u16,
    lines: Vec<RenderedLine>,
}

impl CacheEntry {
    spec fn key(&self) -> CacheKey {
        (self.code@, self.lang@, self.width)
    }
}

/// The block-granular highlight cache, keyed by code, language and width.
/// Finalized code blocks are held as their highlighted lines; the block
/// still streaming is highlighted afresh each time and not held.
pub struct BlockCache {
    entries: Vec<CacheEntry>,
    cached_width: u16,
}

impl BlockCache {
    /// The keys held, in the order they were added.
    pub closed spec fn keys(&self) -> Seq<CacheKey> {
        self.entries@.map_values(|e: CacheEntry| e.key())
    }

    /// The width the held blocks were highlighted for.
    pub closed spec fn width(&self) -> u16 {
        self.cached_width
    }

    /// Every held entry is its block's highlighted lines, and no key is
    /// held twice.
    #[verifier::type_invariant]
    spec fn wf(&self) -> bool {
        &&& forall|i: int|
            0 <= i < self.entries@.len() ==> lines_view(#[trigger] self.entries@[i].lines@)
                == code_block_spec(self.entries@[i].code@, self.entries@[i].lang@)
        &&& forall|i: int, j: int|
            0 <= i < j < self.entries@.len() ==> #[trigger] self.entries@[i].key()
                != #[trigger] self.entries@[j].key()
    }

    /// An empty cache.
    pub fn new() -> (r: Self)
        ensures
            r.keys() == Seq::<CacheKey>::empty(),
            r.width() == 0,
    {
        let r = BlockCache { entries: Vec::new(), cached_width: 0 };
        assert(r.keys() =~= Seq::<CacheKey>::empty());
        r
    }

    /// Empties the cache (on a width or theme change).
    pub fn invalidate(&mut self)
        ensures
            final(self).keys() == Seq::<CacheKey>::empty(),
            final(self).width() == old(self).width(),
    {
        self.entries = Vec::new();
        assert(self.keys() =~= Seq::<CacheKey>::empty());
    }

    /// Whether the cache holds no block.
    pub fn is_empty(&self) -> (r: bool)
        ensures
            r == (self.keys().len() == 0),
    {
        self.entries.len() == 0
    }

    /// The highlighted lines of a code block: held lines if the block is
    /// held, else highlighted afresh (and held if `is_finalized`). A
    /// width change empties the cache first. Either way the lines are the
    /// block's highlighted lines.
    pub fn get_or_highlight(&mut self, code: &str, lang: &str, width: u16, is_finalized: bool) -> (r:
        Vec<RenderedLine>)
        ensures
            lines_view(r@) == code_block_spec(code@, lang@),
            (final(self).width(), final(self).keys()) == cache_step(
                old(self).width(),
                old(self).keys(),
                code@,
                lang@,
                width,
                is_finalized,
            ),
    {
        proof {
            use_type_invariant(&*self);
        }
        if self.cached_width != width {
            self.entries = Vec::new();
            self.cached_width = width;
        }
        let ghost base = self.keys();
        assert(base =~= (if old(self).width() == width {
            old(self).keys()
        } else {
            Seq::<CacheKey>::empty()
        }));
        let ghost key = (code@, lang@, width);
        let mut i: usize = 0;
        while i < self.entries.len()
            invariant
                i <= self.entries@.len(),
                base == self.keys(),
                key == (code@, lang@, width),
                self.cached_width == width,
                base == (if old(self).width() == width {
                    old(self).keys()
                } else {
                    Seq::<CacheKey>::empty()
                }),
                forall|j: int| 0 <= j < i ==> #[trigger] self.entries@[j].key() != key,
                forall|j: int|
                    0 <= j < self.entries@.len() ==> lines_view(#[trigger] self.entries@[j].lines@)
                        == code_block_spec(self.entries@[j].code@, self.entries@[j].lang@),
            decreases self.entries@.len() - i,
        {
            let e = &self.entries[i];
            let same_code = str_eq(e.code.as_str(), code);
            let same_lang = str_eq(e.lang.as_str(), lang);
            if e.width == width && same_code && same_lang {
                assert(base[i as int] == key);
                assert(base.contains(key));
                return clone_lines(&e.lines);
            }
            assert(self.entries@[i as int].key() != key);
            i = i + 1;
        }
        assert(!base.contains(key)) by {
            if base.contains(key) {
                let j = choose|j: int| 0 <= j < base.len() && base[j] == key;
                assert(self.entries@[j].key() == key);
            }
        }
        let lines = highlight_code_block(code, lang, width);
        if is_finalized {
            let entry = CacheEntry {
                code: String::from_str(code),
                lang: String::from_str(lang),
                width,
                lines: clone_lines(&lines),
            };
            let mut entries: Vec<CacheEntry> = Vec::new();
            std::mem::swap(&mut entries, &mut self.entries);
            entries.push(entry);
            self.entries = entries;
            assert(self.keys() =~= base.push(key));
        }
        lines
    }
}

impl Default for BlockCache {
    fn default() -> (r: Self)
        ensures
            r.keys() == Seq::<CacheKey>::empty(),
            r.width() == 0,
    {
        BlockCache::new()
    }
}

/// A copy of some lines.
pub fn clone_lines(v: &Vec<RenderedLine>) -> (r: Vec<RenderedLine>)
    ensures
        lines_view(r@) == lines_view(v@),
{
    let mut out: Vec<RenderedLine> = Vec::new();
    let mut i: usize = 0;
    while i < v.len()
        invariant
            i <= v.len(),
            lines_view(out@) == lines_view(v@).take(i as int),
        decreases v.len() - i,
    {
        let ghost before = lines_view(out@);
        let c = v[i].clone();
        out.push(c);
        assert(lines_view(v@).take(i + 1) =~= before.push(v@[i as int]@));
        assert(lines_view(out@) =~= before.push(v@[i as int]@));
        i = i + 1;
    }
    assert(lines_view(v@).take(v.len() as int) =~= lines_view(v@));
    out
}

// ---------------------------------------------------------------------------
// Rendering
// ---------------------------------------------------------------------------

/// Segments as data.
pub open spec fn segs_view(s: Seq<StyledSegment>) -> Seq<(Seq<char>, Style)> {
    s.map_values(|x: StyledSegment| x@)
}

/// `text` wrapped to `width` columns by grapheme cluster, as
/// `RunefixWidth` wraps it.
pub open spec fn runefix_wrap(text: Seq<char>, width: u16) -> Seq<Seq<char>> {
    wrap_text_spec(|p: Seq<char>| RunefixWidth.spec_graphemes(p), text, width as int)
}

/// The texts of some segments run together.
pub open spec fn inline_text(inline: Seq<(Seq<char>, Style)>) -> Seq<char> {
    concat_all(inline.map_values(|s: (Seq<char>, Style)| s.0))
}

/// The inline buffer flushed onto `lines`: its texts run together and
/// wrapped to the width, each line in the first segment's style; nothing
/// for an empty buffer.
pub open spec fn flush_lines(lines: Seq<LineView>, inline: Seq<(Seq<char>, Style)>, width: u16) -> Seq<
    LineView,
> {
    if inline.len() == 0 {
        lines
    } else {
        lines + runefix_wrap(inline_text(inline), width).map_values(
            |l: Seq<char>| one_segment(l, inline[0].1),
        )
    }
}

/// Bold, with no colour.
pub open spec fn bold_style() -> Style {
    Style { fg: None, bold: true }
}

/// The renderer's state between markdown events: the lines so far,
/// whether a code block is open (with its language and code so far),
/// whether a heading is open, whether a paragraph has ended, the heading
/// style, the inline buffer, and what the block cache holds.
pub ghost struct MdState {
    pub lines: Seq<LineView>,
    pub in_code: bool,
    pub code_lang: Seq<char>,
    pub code: Seq<char>,
    pub in_heading: bool,
    pub prev_para: bool,
    pub style: Style,
    pub inline: Seq<(Seq<char>, Style)>,
    pub cache_width: u16,
    pub cache_keys: Seq<CacheKey>,
}

/// The state before any event.
pub open spec fn md_start(cache_width: u16, cache_keys: Seq<CacheKey>) -> MdState {
    MdState {
        lines: seq![],
        in_code: false,
        code_lang: seq![],
        code: seq![],
        in_heading: false,
        prev_para: false,
        style: plain_style(),
        inline: seq![],
        cache_width,
        cache_keys,
    }
}

/// The inline buffer flushed.
pub open spec fn md_flush(st: MdState, width: u16) -> MdState {
    MdState { lines: flush_lines(st.lines, st.inline, width), inline: seq![], ..st }
}

/// A segment added to the inline buffer.
pub open spec fn md_push(st: MdState, text: Seq<char>, style: Style) -> MdState {
    MdState { inline: st.inline.push((text, style)), ..st }
}

/// One markdown event applied. Code block text accumulates until the
/// block ends, when the block's highlighted lines (through the cache) are
/// added. Text, inline code (yellow) and soft breaks (a space) accumulate
/// in the inline buffer, which block boundaries flush. Headings are bold;
/// a paragraph after a paragraph is preceded by a blank line; a rule is a
/// dark grey `---`.
pub open spec fn md_step(st: MdState, ev: MdEventView, width: u16) -> MdState {
    match ev {
        MdEventView::CodeBlockStart { lang } => MdState {
            in_code: true,
            code_lang: lang,
            code: seq![],
            ..md_flush(st, width)
        },
        MdEventView::CodeBlockEnd => {
            let c = cache_step(st.cache_width, st.cache_keys, st.code, st.code_lang, width, true);
            MdState {
                in_code: false,
                lines: st.lines + code_block_spec(st.code, st.code_lang),
                cache_width: c.0,
                cache_keys: c.1,
                ..st
            }
        },
        MdEventView::HeadingStart => MdState {
            in_heading: true,
            style: bold_style(),
            ..md_flush(st, width)
        },
        MdEventView::HeadingEnd => MdState {
            in_heading: false,
            style: plain_style(),
            ..md_flush(st, width)
        },
        MdEventView::ParagraphStart => if st.prev_para {
            MdState { lines: st.lines.push(one_segment(seq![], plain_style())), ..st }
        } else {
            st
        },
        MdEventView::ParagraphEnd => MdState { prev_para: true, ..md_flush(st, width) },
        MdEventView::Text { text } => if st.in_code {
            MdState { code: st.code + text, ..st }
        } else if st.in_heading {
            md_push(st, text, st.style)
        } else {
            md_push(st, text, plain_style())
        },
        MdEventView::Code { code } => md_push(st, code, fg_style(Color::Yellow)),
        MdEventView::SoftBreak => md_push(st, seq![' '], plain_style()),
        MdEventView::HardBreak => md_flush(st, width),
        MdEventView::Rule => {
            let f = md_flush(st, width);
            MdState {
                lines: f.lines.push(one_segment(seq!['-', '-', '-'], fg_style(Color::DarkGray))),
                ..f
            }
        },
        MdEventView::Other => st,
    }
}

/// Markdown events applied in order.
pub open spec fn md_fold(start: MdState, evs: Seq<MdEventView>, width: u16) -> MdState
    decreases evs.len(),
{
    if evs.len() == 0 {
        start
    } else {
        md_step(md_fold(start, evs.drop_last(), width), evs.last(), width)
    }
}

/// The rendered lines once every event is applied: the inline buffer
/// flushed, and one blank line if there is nothing else.
pub open spec fn md_lines(st: MdState, width: u16) -> Seq<LineView> {
    let f = md_flush(st, width).lines;
    if f.len() == 0 {
        seq![one_segment(seq![], plain_style())]
    } else {
        f
    }
}

/// The state after a document's events, from a cache's state.
pub open spec fn md_final(evs: Seq<MdEventView>, width: u16, cache_width: u16, keys: Seq<CacheKey>) -> MdState {
    md_fold(md_start(cache_width, keys), evs, width)
}

/// A soft break inside a paragraph is one space: a paragraph of the text
/// `a`, a soft break and the text `b` renders as `a`, a space and `b`
/// wrapped to the width, every line plain. Where the segmentation makes up
/// each text and neither part holds a tab or a newline, the lines joined
/// are exactly `a + " " + b`, so neither are the words run together nor
/// is the break turned into a new line.
pub proof fn lemma_soft_break_is_space(
    a: Seq<char>,
    b: Seq<char>,
    width: u16,
    cache_width: u16,
    keys: Seq<CacheKey>,
)
    requires
        width > 0,
    ensures
        ({
            let evs = seq![
                MdEventView::ParagraphStart,
                MdEventView::Text { text: a },
                MdEventView::SoftBreak,
                MdEventView::Text { text: b },
                MdEventView::ParagraphEnd,
            ];
            let ls = md_lines(md_final(evs, width, cache_width, keys), width);
            &&& ls == runefix_wrap(a + seq![' '] + b, width).map_values(
                |l: Seq<char>| one_segment(l, plain_style()),
            )
            &&& ((forall|p: Seq<char>| #[trigger] concat_all(clusters(RunefixWidth.spec_graphemes(p))) == p)
                && (forall|k: int| 0 <= k < a.len() ==> #[trigger] a[k] != '\n' && a[k] != '\t')
                && (forall|k: int| 0 <= k < b.len() ==> #[trigger] b[k] != '\n' && b[k] != '\t'))
                ==> concat_all(line_texts(ls)) == a + seq![' '] + b
        }),
{
    let evs = seq![
        MdEventView::ParagraphStart,
        MdEventView::Text { text: a },
        MdEventView::SoftBreak,
        MdEventView::Text { text: b },
        MdEventView::ParagraphEnd,
    ];
    let st0 = md_start(cache_width, keys);
    reveal_with_fuel(md_fold, 6);
    assert(evs.drop_last().drop_last().drop_last().drop_last().drop_last() =~= Seq::<MdEventView>::empty());
    assert(evs.drop_last().drop_last().drop_last().drop_last() =~= seq![MdEventView::ParagraphStart]);
    assert(evs.drop_last().drop_last().drop_last() =~= seq![
        MdEventView::ParagraphStart,
        MdEventView::Text { text: a },
    ]);
    assert(evs.drop_last().drop_last() =~= seq![
        MdEventView::ParagraphStart,
        MdEventView::Text { text: a },
        MdEventView::SoftBreak,
    ]);
    assert(evs.drop_last() =~= seq![
        MdEventView::ParagraphStart,
        MdEventView::Text { text: a },
        MdEventView::SoftBreak,
        MdEventView::Text { text: b },
    ]);
    let inline = seq![(a, plain_style()), (seq![' '], plain_style()), (b, plain_style())];
    let pre = md_fold(st0, evs.drop_last(), width);
    assert(pre.inline =~= inline);
    assert(pre.lines =~= Seq::<LineView>::empty());
    let t = a + seq![' '] + b;
    let texts = inline.map_values(|s: (Seq<char>, Style)| s.0);
    assert(texts =~= seq![a, seq![' '], b]);
    reveal_with_fuel(concat_all, 4);
    assert(texts.drop_last().drop_last().drop_last() =~= Seq::<Seq<char>>::empty());
    assert(texts.drop_last().drop_last() =~= seq![a]);
    assert(texts.drop_last() =~= seq![a, seq![' ']]);
    assert(concat_all(texts) =~= t);
    assert(inline_text(inline) == t);
    let wrapped = runefix_wrap(t, width);
    let mapped = wrapped.map_values(|l: Seq<char>| one_segment(l, plain_style()));
    let fin = md_final(evs, width, cache_width, keys);
    assert(fin.lines =~= Seq::<LineView>::empty() + mapped);
    assert(fin.inline =~= Seq::<(Seq<char>, Style)>::empty());
    lemma_wrap_text_nonempty(|p: Seq<char>| RunefixWidth.spec_graphemes(p), t, width as int);
    assert(md_flush(fin, width).lines == fin.lines);
    assert(md_lines(fin, width) =~= mapped);
    if (forall|p: Seq<char>| #[trigger] concat_all(clusters(RunefixWidth.spec_graphemes(p))) == p)
        && (forall|k: int| 0 <= k < a.len() ==> #[trigger] a[k] != '\n' && a[k] != '\t')
        && (forall|k: int| 0 <= k < b.len() ==> #[trigger] b[k] != '\n' && b[k] != '\t') {
        assert forall|k: int| 0 <= k < t.len() implies #[trigger] t[k] != '\n' && t[k] != '\t' by {
            if k < a.len() {
                assert(t[k] == a[k]);
            } else if k > a.len() {
                assert(t[k] == b[k - a.len() - 1]);
            }
        }
        lemma_plain_text_fixed(t);
        lemma_wrap_text_keeps_text(|p: Seq<char>| RunefixWidth.spec_graphemes(p), t, width as int);
        assert forall|i: int| 0 <= i < mapped.len() implies #[trigger] line_texts(mapped)[i] == wrapped[i] by {
            lemma_one_segment_text(wrapped[i], plain_style());
        }
        assert(line_texts(mapped) =~= wrapped);
    }
}

/// Flushes the inline buffer into wrapped lines.
fn flush_inline(inline: &mut Vec<StyledSegment>, lines: &mut Vec<RenderedLine>, width: u16)
    ensures
        lines_view(final(lines)@) == flush_lines(lines_view(old(lines)@), segs_view(old(inline)@), width),
        final(inline)@ == Seq::<StyledSegment>::empty(),
        segs_view(final(inline)@) == Seq::<(Seq<char>, Style)>::empty(),
{
    if inline.len() == 0 {
        assert(inline@ =~= Seq::<StyledSegment>::empty());
        assert(segs_view(inline@) =~= Seq::<(Seq<char>, Style)>::empty());
        return;
    }
    let ghost sv = segs_view(inline@);
    let ghost texts = sv.map_values(|s: (Seq<char>, Style)| s.0);
    let mut combined = String::new();
    let mut i: usize = 0;
    assert(texts.take(0) =~= Seq::<Seq<char>>::empty());
    while i < inline.len()
        invariant
            i <= inline.len(),
            sv == segs_view(inline@),
            texts == sv.map_values(|s: (Seq<char>, Style)| s.0),
            combined@ == concat_all(texts.take(i as int)),
        decreases inline.len() - i,
    {
        combined.append(inline[i].text.as_str());
        assert(texts.take(i + 1).drop_last() =~= texts.take(i as int));
        assert(texts.take(i + 1).last() == inline@[i as int].text@);
        i = i + 1;
    }
    assert(texts.take(inline.len() as int) =~= texts);
    let style = inline[0].style;
    let engine = RunefixWidth;
    let wrapped = engine.wrap_text(combined.as_str(), width);
    let ghost wv = runefix_wrap(combined@, width);
    assert((|p: Seq<char>| engine.spec_graphemes(p)) =~= (|p: Seq<char>| RunefixWidth.spec_graphemes(p)));
    assert(wrapped@.map_values(|x: String| x@) == wv);
    let ghost start = lines_view(lines@);
    let mut k: usize = 0;
    while k < wrapped.len()
        invariant
            k <= wrapped.len(),
            wrapped@.map_values(|x: String| x@) == wv,
            lines_view(lines@) == start + wv.take(k as int).map_values(
                |l: Seq<char>| one_segment(l, style),
            ),
        decreases wrapped.len() - k,
    {
        let ghost before = lines_view(lines@);
        assert(wrapped@[k as int]@ == wv[k as int]);
        lines.push(RenderedLine::styled(wrapped[k].as_str(), style));
        assert(wv.take(k + 1) =~= wv.take(k as int).push(wv[k as int]));
        assert(lines_view(lines@) =~= before.push(one_segment(wv[k as int], style)));
        k = k + 1;
    }
    assert(wv.take(wrapped.len() as int) =~= wv);
    *inline = Vec::new();
    assert(segs_view(inline@) =~= Seq::<(Seq<char>, Style)>::empty());
}

/// Renders markdown events to lines at a width (the events of
/// `render_markdown`'s parse). Code blocks go through the block cache.
pub fn render_markdown_events(events: &Vec<MdEvent>, width: u16, block_cache: &mut BlockCache) -> (r:
    Vec<RenderedLine>)
    ensures
        ({
            let st = md_final(
                events@.map_values(|e: MdEvent| e@),
                width,
                old(block_cache).width(),
                old(block_cache).keys(),
            );
            &&& lines_view(r@) == md_lines(st, width)
            &&& final(block_cache).width() == st.cache_width
            &&& final(block_cache).keys() == st.cache_keys
        }),
{
    let ghost evs = events@.map_values(|e: MdEvent| e@);
    let ghost start = md_start(block_cache.width(), block_cache.keys());
    let mut lines: Vec<RenderedLine> = Vec::new();
    let mut in_code = false;
    let mut code_lang = String::new();
    let mut code = String::new();
    let mut in_heading = false;
    let mut prev_para = false;
    let mut style = Style::plain();
    let mut inline: Vec<StyledSegment> = Vec::new();
    let mut i: usize = 0;
    assert(evs.take(0) =~= Seq::<MdEventView>::empty());
    assert(lines_view(lines@) =~= Seq::<LineView>::empty());
    assert(segs_view(inline@) =~= Seq::<(Seq<char>, Style)>::empty());
    while i < events.len()
        invariant
            i <= events.len(),
            evs == events@.map_values(|e: MdEvent| e@),
            start == md_start(old(block_cache).width(), old(block_cache).keys()),
            (MdState {
                lines: lines_view(lines@),
                in_code,
                code_lang: code_lang@,
                code: code@,
                in_heading,
                prev_para,
                style,
                inline: segs_view(inline@),
                cache_width: block_cache.width(),
                cache_keys: block_cache.keys(),
            }) == md_fold(start, evs.take(i as int), width),
        decreases events.len() - i,
    {
        assert(evs.take(i + 1).drop_last() =~= evs.take(i as int));
        assert(evs.take(i + 1).last() == events@[i as int]@);
        let ghost sv = segs_view(inline@);
        match &events[i] {
            MdEvent::CodeBlockStart { lang } => {
                flush_inline(&mut inline, &mut lines, width);
                in_code = true;
                code_lang = String::from_str(lang.as_str());
                code = String::new();
            },
            MdEvent::CodeBlockEnd => {
                in_code = false;
                let hl = block_cache.get_or_highlight(code.as_str(), code_lang.as_str(), width, true);
                append_lines(&mut lines, hl);
            },
            MdEvent::HeadingStart => {
                flush_inline(&mut inline, &mut lines, width);
                in_heading = true;
                style = Style::plain().bolded();
            },
            MdEvent::HeadingEnd => {
                flush_inline(&mut inline, &mut lines, width);
                in_heading = false;
                style = Style::plain();
            },
            MdEvent::ParagraphStart => {
                if prev_para {
                    let ghost before = lines_view(lines@);
                    let blank = String::new();
                    lines.push(RenderedLine::plain(blank.as_str()));
                    assert(lines_view(lines@) =~= before.push(one_segment(seq![], plain_style())));
                }
            },
            MdEvent::ParagraphEnd => {
                flush_inline(&mut inline, &mut lines, width);
                prev_para = true;
            },
            MdEvent::Text { text } => {
                if in_code {
                    code.append(text.as_str());
                } else {
                    let st = if in_heading {
                        style
                    } else {
                        Style::plain()
                    };
                    inline.push(StyledSegment { text: String::from_str(text.as_str()), style: st });
                    assert(segs_view(inline@) =~= sv.push((text@, st)));
                }
            },
            MdEvent::Code { code: c } => {
                let st = Style::with_fg(Color::Yellow);
                inline.push(StyledSegment { text: String::from_str(c.as_str()), style: st });
                assert(segs_view(inline@) =~= sv.push((c@, st)));
            },
            MdEvent::SoftBreak => {
                let mut sp = String::new();
                push_char(&mut sp, ' ');
                inline.push(StyledSegment { text: sp, style: Style::plain() });
                assert(segs_view(inline@) =~= sv.push((seq![' '], plain_style())));
            },
            MdEvent::HardBreak => {
                flush_inline(&mut inline, &mut lines, width);
            },
            MdEvent::Rule => {
                flush_inline(&mut inline, &mut lines, width);
                let ghost before = lines_view(lines@);
                let mut dashes = String::new();
                push_char(&mut dashes, '-');
                push_char(&mut dashes, '-');
                push_char(&mut dashes, '-');
                assert(dashes@ =~= seq!['-', '-', '-']);
                lines.push(RenderedLine::styled(dashes.as_str(), Style::with_fg(Color::DarkGray)));
                assert(lines_view(lines@) =~= before.push(
                    one_segment(seq!['-', '-', '-'], fg_style(Color::DarkGray)),
                ));
            },
            MdEvent::Other => {},
        }
        i = i + 1;
    }
    assert(evs.take(events.len() as int) =~= evs);
    flush_inline(&mut inline, &mut lines, width);
    if lines.len() == 0 {
        let blank = String::new();
        lines.push(RenderedLine::plain(blank.as_str()));
        assert(lines_view(lines@) =~= seq![one_segment(seq![], plain_style())]);
    }
    lines
}

/// Renders markdown text to lines at a width: `pulldown-cmark` gives the
/// structure, code blocks are highlighted (finalized blocks through the
/// cache), and inline text is wrapped by grapheme width. A partial closing
/// fence at the end is trimmed first. Empty markdown renders one blank
/// line.
pub fn render_markdown(text: &str, width: u16, block_cache: &mut BlockCache) -> (r: Vec<RenderedLine>)
    ensures
        ({
            let st = md_final(
                markdown_events(trim_fences_spec(text@)),
                width,
                old(block_cache).width(),
                old(block_cache).keys(),
            );
            &&& lines_view(r@) == md_lines(st, width)
            &&& final(block_cache).width() == st.cache_width
            &&& final(block_cache).keys() == st.cache_keys
        }),
{
    let normalized = normalize_markdown(text);
    let events = parse_markdown(normalized.as_str());
    render_markdown_events(&events, width, block_cache)
}

} // verus!
