//! Code highlighting with `tree-sitter-highlight`, and the turning of its
//! events into styled lines.

use vstd::prelude::*;
use vstd::string::StringExecFns;
use tree_sitter_highlight::{HighlightConfiguration, HighlightEvent, Highlighter};
use crate::render::projection::{
    lemma_one_segment_text, line_texts, lines_view, one_segment, LineView, RenderedLine, StyledSegment,
};
use crate::render::style::{fg_style, plain_style, Color, Style};
use crate::text::{chars_of, lemma_split_append, lemma_split_len, split_chars, split_on, str_eq, string_from_chars};

verus! {

/// A highlighter language.
#[derive(Debug, Clone, Copy, PartialEq, Eq, Structural)]
pub enum HlLang {
    Rust,
    JavaScript,
    Bash,
    Json,
}

/// The language a fence's info string selects, if it is supported.
pub open spec fn lang_of(lang: Seq<char>) -> Option<HlLang> {
    if lang == "rust"@ || lang == "rs"@ {
        Some(HlLang::Rust)
    } else if lang == "javascript"@ || lang == "js"@ || lang == "typescript"@ || lang == "ts"@ {
        Some(HlLang::JavaScript)
    } else if lang == "bash"@ || lang == "sh"@ || lang == "shell"@ {
        Some(HlLang::Bash)
    } else if lang == "json"@ {
        Some(HlLang::Json)
    } else {
        None
    }
}

/// The highlighter language for a fence's info string; `None` for an
/// unsupported language (plain fallback).
pub fn highlight_language(lang: &str) -> (r: Option<HlLang>)
    ensures
        r == lang_of(lang@),
{
    if str_eq(lang, "rust") || str_eq(lang, "rs") {
        Some(HlLang::Rust)
    } else if str_eq(lang, "javascript") || str_eq(lang, "js") || str_eq(lang, "typescript")
        || str_eq(lang, "ts") {
        Some(HlLang::JavaScript)
    } else if str_eq(lang, "bash") || str_eq(lang, "sh") || str_eq(lang, "shell") {
        Some(HlLang::Bash)
    } else if str_eq(lang, "json") {
        Some(HlLang::Json)
    } else {
        None
    }
}

/// The highlight capture names the renderer recognizes, in order; a
/// highlight's index is its position here.
pub open spec fn highlight_names_spec() -> Seq<Seq<char>> {
    seq![
        "attribute"@,
        "constant.builtin"@,
        "comment"@,
        "function"@,
        "keyword"@,
        "operator"@,
        "property"@,
        "punctuation"@,
        "string"@,
        "type"@,
        "variable"@,
        "number"@,
    ]
}

/// The recognized highlight capture names.
pub fn highlight_names() -> (r: Vec<String>)
    ensures
        r@.map_values(|s: String| s@) == highlight_names_spec(),
{
    let r: Vec<String> = vec![
        String::from_str("attribute"),
        String::from_str("constant.builtin"),
        String::from_str("comment"),
        String::from_str("function"),
        String::from_str("keyword"),
        String::from_str("operator"),
        String::from_str("property"),
        String::from_str("punctuation"),
        String::from_str("string"),
        String::from_str("type"),
        String::from_str("variable"),
        String::from_str("number"),
    ];
    assert(r@.map_values(|s: String| s@) =~= highlight_names_spec());
    r
}

/// The style of a highlight capture (by its index in the recognized
/// names); unknown captures are unstyled.
pub open spec fn capture_style_spec(h: usize) -> Style {
    if h == 0 {
        fg_style(Color::LightYellow)
    } else if h == 2 {
        fg_style(Color::DarkGray)
    } else if h == 3 {
        fg_style(Color::Blue)
    } else if h == 4 {
        Style { fg: Some(Color::Magenta), bold: true }
    } else if h == 5 {
        fg_style(Color::LightCyan)
    } else if h == 6 {
        fg_style(Color::LightBlue)
    } else if h == 7 {
        fg_style(Color::Gray)
    } else if h == 8 {
        fg_style(Color::Green)
    } else if h == 9 {
        fg_style(Color::Yellow)
    } else if h == 10 {
        fg_style(Color::Red)
    } else if h == 11 {
        fg_style(Color::Cyan)
    } else {
        plain_style()
    }
}

/// Maps a highlight capture to a style (the capture-to-palette mapping):
/// comment dark grey, keyword bold magenta, function blue, string green,
/// number cyan, type yellow, variable red, operator light cyan, property
/// light blue, punctuation grey, attribute light yellow; others unstyled.
pub fn capture_to_style(h: usize) -> (r: Style)
    ensures
        r == capture_style_spec(h),
{
    match h {
        0 => Style::with_fg(Color::LightYellow),
        2 => Style::with_fg(Color::DarkGray),
        3 => Style::with_fg(Color::Blue),
        4 => Style::with_fg(Color::Magenta).bolded(),
        5 => Style::with_fg(Color::LightCyan),
        6 => Style::with_fg(Color::LightBlue),
        7 => Style::with_fg(Color::Gray),
        8 => Style::with_fg(Color::Green),
        9 => Style::with_fg(Color::Yellow),
        10 => Style::with_fg(Color::Red),
        11 => Style::with_fg(Color::Cyan),
        _ => Style::plain(),
    }
}

/// A highlighter event: a source span's text, the start or end of a
/// highlight, or an error the renderer skips.
#[derive(Debug, Clone, PartialEq, Eq)]
pub enum HlEvent {
    Source { text: String },
    Start { highlight: usize },
    End,
    Error,
}

/// A highlighter event as data.
pub ghost enum HlEventView {
    Source { text: Seq<char> },
    Start { highlight: usize },
    End,
    Error,
}

impl View for HlEvent {
    type V = HlEventView;

    open spec fn view(&self) -> HlEventView {
        match self {
            HlEvent::Source { text } => HlEventView::Source { text: text@ },
            HlEvent::Start { highlight } => HlEventView::Start { highlight: *highlight },
            HlEvent::End => HlEventView::End,
            HlEvent::Error => HlEventView::Error,
        }
    }
}

/// The events of an optional highlight run, as data.
pub open spec fn hl_view(r: Option<Vec<HlEvent>>) -> Option<Seq<HlEventView>> {
    match r {
        Some(v) => Some(v@.map_values(|e: HlEvent| e@)),
        None => None,
    }
}

/// What `tree-sitter-highlight` yields for `code` in a language's bundled
/// grammar with the given recognized names: `None` when the configuration
/// or the highlighting fails.
pub uninterp spec fn highlight_events(
    lang: HlLang,
    code: Seq<char>,
    names: Seq<Seq<char>>,
) -> Option<Seq<HlEventView>>;

/// Highlights `code` with `tree-sitter-rust`'s grammar and highlights
/// query, recognizing `names`. `None` when the configuration or the
/// highlighting fails; otherwise the source spans' texts and the highlight
/// starts and ends, in order.
#[verifier::external_body]
fn highlight_rust(code: &str, names: &Vec<String>) -> (r: Option<Vec<HlEvent>>)
    ensures
        hl_view(r) == highlight_events(HlLang::Rust, code@, names@.map_values(|s: String| s@)),
{
    let q = tree_sitter_rust::HIGHLIGHTS_QUERY;
    let mut cfg = HighlightConfiguration::new(tree_sitter_rust::LANGUAGE.into(), "rust", q, "", "").ok()?;
    cfg.configure(names);
    let mut hl = Highlighter::new();
    let events = hl.highlight(&cfg, code.as_bytes(), None, None, |_| None).ok()?;
    Some(events.map(|e| match e {
        Ok(HighlightEvent::Source { start, end }) => HlEvent::Source { text: code[start..end].to_string() },
        Ok(HighlightEvent::HighlightStart(h)) => HlEvent::Start { highlight: h.0 },
        Ok(HighlightEvent::HighlightEnd) => HlEvent::End,
        Err(_) => HlEvent::Error,
    }).collect())
}

/// Highlights `code` with `tree-sitter-javascript`'s grammar and its
/// highlights, injections and locals queries, recognizing `names`. `None`
/// when the configuration or the highlighting fails.
#[verifier::external_body]
fn highlight_javascript(code: &str, names: &Vec<String>) -> (r: Option<Vec<HlEvent>>)
    ensures
        hl_view(r) == highlight_events(HlLang::JavaScript, code@, names@.map_values(|s: String| s@)),
{
    let (q, inj, loc) = (tree_sitter_javascript::HIGHLIGHT_QUERY, tree_sitter_javascript::INJECTIONS_QUERY, tree_sitter_javascript::LOCALS_QUERY);
    let mut cfg = HighlightConfiguration::new(tree_sitter_javascript::LANGUAGE.into(), "javascript", q, inj, loc).ok()?;
    cfg.configure(names);
    let mut hl = Highlighter::new();
    let events = hl.highlight(&cfg, code.as_bytes(), None, None, |_| None).ok()?;
    Some(events.map(|e| match e {
        Ok(HighlightEvent::Source { start, end }) => HlEvent::Source { text: code[start..end].to_string() },
        Ok(HighlightEvent::HighlightStart(h)) => HlEvent::Start { highlight: h.0 },
        Ok(HighlightEvent::HighlightEnd) => HlEvent::End,
        Err(_) => HlEvent::Error,
    }).collect())
}

/// Highlights `code` with `tree-sitter-bash`'s grammar and highlights
/// query, recognizing `names`. `None` when the configuration or the
/// highlighting fails.
#[verifier::external_body]
fn highlight_bash(code: &str, names: &Vec<String>) -> (r: Option<Vec<HlEvent>>)
    ensures
        hl_view(r) == highlight_events(HlLang::Bash, code@, names@.map_values(|s: String| s@)),
{
    let q = tree_sitter_bash::HIGHLIGHT_QUERY;
    let mut cfg = HighlightConfiguration::new(tree_sitter_bash::LANGUAGE.into(), "bash", q, "", "").ok()?;
    cfg.configure(names);
    let mut hl = Highlighter::new();
    let events = hl.highlight(&cfg, code.as_bytes(), None, None, |_| None).ok()?;
    Some(events.map(|e| match e {
        Ok(HighlightEvent::Source { start, end }) => HlEvent::Source { text: code[start..end].to_string() },
        Ok(HighlightEvent::HighlightStart(h)) => HlEvent::Start { highlight: h.0 },
        Ok(HighlightEvent::HighlightEnd) => HlEvent::End,
        Err(_) => HlEvent::Error,
    }).collect())
}

/// Highlights `code` with `tree-sitter-json`'s grammar and highlights
/// query, recognizing `names`. `None` when the configuration or the
/// highlighting fails.
#[verifier::external_body]
fn highlight_json(code: &str, names: &Vec<String>) -> (r: Option<Vec<HlEvent>>)
    ensures
        hl_view(r) == highlight_events(HlLang::Json, code@, names@.map_values(|s: String| s@)),
{
    let q = tree_sitter_json::HIGHLIGHTS_QUERY;
    let mut cfg = HighlightConfiguration::new(tree_sitter_json::LANGUAGE.into(), "json", q, "", "").ok()?;
    cfg.configure(names);
    let mut hl = Highlighter::new();
    let events = hl.highlight(&cfg, code.as_bytes(), None, None, |_| None).ok()?;
    Some(events.map(|e| match e {
        Ok(HighlightEvent::Source { start, end }) => HlEvent::Source { text: code[start..end].to_string() },
        Ok(HighlightEvent::HighlightStart(h)) => HlEvent::Start { highlight: h.0 },
        Ok(HighlightEvent::HighlightEnd) => HlEvent::End,
        Err(_) => HlEvent::Error,
    }).collect())
}

/// The state of turning highlighter events into lines: the finished
/// lines, the line being built, and the style stack.
pub ghost struct HlState {
    pub lines: Seq<LineView>,
    pub current: Seq<char>,
    pub stack: Seq<Style>,
}

/// A source span's pieces (split at newlines) added: the first piece
/// extends the current line; each later piece finishes the current line
/// (in `style`) and starts a new one.
pub open spec fn source_pieces(st: HlState, pieces: Seq<Seq<char>>, style: Style) -> HlState
    decreases pieces.len(),
{
    if pieces.len() == 0 {
        st
    } else {
        let prev = source_pieces(st, pieces.drop_last(), style);
        if pieces.len() == 1 {
            HlState { current: prev.current + pieces.last(), ..prev }
        } else {
            HlState {
                lines: prev.lines.push(one_segment(prev.current, style)),
                current: pieces.last(),
                ..prev
            }
        }
    }
}

/// The style on top of a non-empty style stack.
pub open spec fn top_style(stack: Seq<Style>) -> Style {
    stack.last()
}

/// One highlighter event applied.
pub open spec fn hl_step(st: HlState, ev: HlEventView) -> HlState {
    match ev {
        HlEventView::Source { text } => source_pieces(st, split_on(text, '\n'), top_style(st.stack)),
        HlEventView::Start { highlight } => HlState {
            stack: st.stack.push(capture_style_spec(highlight)),
            ..st
        },
        HlEventView::End => if st.stack.len() > 1 {
            HlState { stack: st.stack.drop_last(), ..st }
        } else {
            st
        },
        HlEventView::Error => st,
    }
}

/// Highlighter events applied in order from the start state.
pub open spec fn hl_fold(evs: Seq<HlEventView>) -> HlState
    decreases evs.len(),
{
    if evs.len() == 0 {
        HlState { lines: seq![], current: seq![], stack: seq![plain_style()] }
    } else {
        hl_step(hl_fold(evs.drop_last()), evs.last())
    }
}

/// The lines of highlighter events: the finished lines, then the current
/// line if non-empty; `None` if there are no lines.
pub open spec fn highlight_lines_spec(evs: Seq<HlEventView>) -> Option<Seq<LineView>> {
    let st = hl_fold(evs);
    let lines = if st.current.len() > 0 {
        st.lines.push(one_segment(st.current, top_style(st.stack)))
    } else {
        st.lines
    };
    if lines.len() == 0 {
        None
    } else {
        Some(lines)
    }
}

proof fn lemma_hl_fold_stack(evs: Seq<HlEventView>)
    ensures
        hl_fold(evs).stack.len() >= 1,
    decreases evs.len(),
{
    if evs.len() > 0 {
        lemma_hl_fold_stack(evs.drop_last());
        lemma_source_pieces_stack(hl_fold(evs.drop_last()), evs.last());
    }
}

proof fn lemma_source_pieces_stack(st: HlState, ev: HlEventView)
    ensures
        hl_step(st, ev).stack.len() >= st.stack.len() || (st.stack.len() > 1 && hl_step(
            st,
            ev,
        ).stack.len() == st.stack.len() - 1),
{
    match ev {
        HlEventView::Source { text } => {
            lemma_source_pieces_keeps_stack(st, split_on(text, '\n'), top_style(st.stack));
        },
        _ => {},
    }
}

proof fn lemma_source_pieces_keeps_stack(st: HlState, pieces: Seq<Seq<char>>, style: Style)
    ensures
        source_pieces(st, pieces, style).stack == st.stack,
    decreases pieces.len(),
{
    if pieces.len() > 0 {
        lemma_source_pieces_keeps_stack(st, pieces.drop_last(), style);
    }
}

/// The source text of highlighter events: their source spans, in order.
pub open spec fn source_text(evs: Seq<HlEventView>) -> Seq<char>
    decreases evs.len(),
{
    if evs.len() == 0 {
        seq![]
    } else {
        source_text(evs.drop_last()) + match evs.last() {
            HlEventView::Source { text } => text,
            _ => seq![],
        }
    }
}

/// The lines of some code: its pieces between newlines, less a final empty
/// piece (the one after a trailing newline, or of empty code).
pub open spec fn code_lines(code: Seq<char>) -> Seq<Seq<char>> {
    let p = split_on(code, '\n');
    if p.last().len() == 0 {
        p.drop_last()
    } else {
        p
    }
}

proof fn lemma_source_pieces_texts(st: HlState, pieces: Seq<Seq<char>>, style: Style)
    requires
        pieces.len() >= 1,
    ensures
        ({
            let r = source_pieces(st, pieces, style);
            line_texts(r.lines).push(r.current) =~~= line_texts(st.lines) + seq![st.current + pieces[0]]
                + pieces.skip(1)
        }),
    decreases pieces.len(),
{
    if pieces.len() > 1 {
        lemma_source_pieces_texts(st, pieces.drop_last(), style);
        let prev = source_pieces(st, pieces.drop_last(), style);
        lemma_one_segment_text(prev.current, style);
        assert(line_texts(prev.lines.push(one_segment(prev.current, style))) =~~= line_texts(
            prev.lines,
        ).push(prev.current));
        assert(pieces.skip(1) =~~= pieces.drop_last().skip(1).push(pieces.last()));
    } else {
        assert(source_pieces(st, pieces.drop_last(), style) == st);
        assert(pieces.skip(1) =~~= Seq::<Seq<char>>::empty());
    }
}

proof fn lemma_hl_fold_texts(evs: Seq<HlEventView>)
    ensures
        line_texts(hl_fold(evs).lines).push(hl_fold(evs).current) =~~= split_on(source_text(evs), '\n'),
    decreases evs.len(),
{
    if evs.len() == 0 {
        assert(line_texts(Seq::<LineView>::empty()) =~~= Seq::<Seq<char>>::empty());
        assert(split_on(Seq::<char>::empty(), '\n') =~~= seq![Seq::<char>::empty()]);
    } else {
        let pre = evs.drop_last();
        lemma_hl_fold_texts(pre);
        let st = hl_fold(pre);
        let a = source_text(pre);
        match evs.last() {
            HlEventView::Source { text } => {
                let pieces = split_on(text, '\n');
                lemma_split_len(text, '\n');
                lemma_split_len(a, '\n');
                lemma_source_pieces_texts(st, pieces, top_style(st.stack));
                lemma_split_append(a, text, '\n');
                let pa = split_on(a, '\n');
                assert(line_texts(st.lines) =~~= pa.drop_last());
                assert(st.current == pa.last());
            },
            _ => {
                assert(source_text(evs) =~= a);
                match evs.last() {
                    HlEventView::Start { highlight } => {},
                    HlEventView::End => {},
                    _ => {},
                }
            },
        }
    }
}

/// Highlighting keeps the code's lines: the highlighted lines' texts, one
/// per line, are the events' source text split at newlines (less a final
/// empty piece), so an empty line of code is an empty highlighted line and
/// no text is lost, added or moved between lines; no line at all exactly
/// when there is no such line.
pub proof fn lemma_highlight_keeps_lines(evs: Seq<HlEventView>)
    ensures
        match highlight_lines_spec(evs) {
            Some(ls) => line_texts(ls) =~~= code_lines(source_text(evs)),
            None => code_lines(source_text(evs)).len() == 0,
        },
{
    lemma_hl_fold_texts(evs);
    lemma_split_len(source_text(evs), '\n');
    let st = hl_fold(evs);
    let p = split_on(source_text(evs), '\n');
    assert(line_texts(st.lines) =~~= p.drop_last());
    assert(st.current == p.last());
    if st.current.len() > 0 {
        lemma_one_segment_text(st.current, top_style(st.stack));
        assert(line_texts(st.lines.push(one_segment(st.current, top_style(st.stack)))) =~~= p);
    }
}

/// Turns highlighter events into lines: source text is split at newlines
/// into lines styled by the innermost open highlight; highlights nest.
/// `None` when no line results.
pub fn highlight_lines(events: &Vec<HlEvent>) -> (r: Option<Vec<RenderedLine>>)
    ensures
        match (r, highlight_lines_spec(events@.map_values(|e: HlEvent| e@))) {
            (Some(v), Some(s)) => lines_view(v@) == s,
            (None, None) => true,
            _ => false,
        },
{
    let ghost evs = events@.map_values(|e: HlEvent| e@);
    let mut lines: Vec<RenderedLine> = Vec::new();
    let mut current = String::new();
    let mut stack: Vec<Style> = Vec::new();
    stack.push(Style::plain());
    let mut i: usize = 0;
    assert(evs.take(0) =~= Seq::<HlEventView>::empty());
    assert(lines_view(lines@) =~= Seq::<LineView>::empty());
    assert(stack@ =~= seq![plain_style()]);
    while i < events.len()
        invariant
            i <= events.len(),
            evs == events@.map_values(|e: HlEvent| e@),
            stack@.len() >= 1,
            (HlState { lines: lines_view(lines@), current: current@, stack: stack@ }) == hl_fold(
                evs.take(i as int),
            ),
        decreases events.len() - i,
    {
        assert(evs.take(i + 1).drop_last() =~= evs.take(i as int));
        assert(evs.take(i + 1).last() == events@[i as int]@);
        match &events[i] {
            HlEvent::Source { text } => {
                let style = stack[stack.len() - 1];
                let cs = chars_of(text.as_str());
                let pieces = split_chars(&cs, '\n');
                let ghost ps = split_on(text@, '\n');
                let ghost st0 = HlState { lines: lines_view(lines@), current: current@, stack: stack@ };
                let mut k: usize = 0;
                assert(ps.take(0) =~= Seq::<Seq<char>>::empty());
                while k < pieces.len()
                    invariant
                        k <= pieces.len(),
                        pieces@.map_values(|c: Vec<char>| c@) == ps,
                        stack@ == st0.stack,
                        (HlState { lines: lines_view(lines@), current: current@, stack: stack@ })
                            == source_pieces(st0, ps.take(k as int), style),
                    decreases pieces.len() - k,
                {
                    assert(ps.take(k + 1).drop_last() =~= ps.take(k as int));
                    assert(ps.take(k + 1).last() == pieces@[k as int]@);
                    let piece = string_from_chars(pieces[k].as_slice());
                    if k > 0 {
                        let ghost prev = lines_view(lines@);
                        let ghost cur = current@;
                        let mut segs: Vec<StyledSegment> = Vec::new();
                        segs.push(StyledSegment { text: current, style });
                        let line = RenderedLine { segments: segs };
                        assert(line@ =~= one_segment(cur, style));
                        lines.push(line);
                        current = piece;
                        assert(lines_view(lines@) =~= prev.push(one_segment(cur, style)));
                    } else {
                        current.append(piece.as_str());
                    }
                    proof {
                        lemma_source_pieces_keeps_stack(st0, ps.take(k + 1), style);
                    }
                    k = k + 1;
                }
                assert(ps.take(pieces.len() as int) =~= ps);
            },
            HlEvent::Start { highlight } => {
                stack.push(capture_to_style(*highlight));
            },
            HlEvent::End => {
                if stack.len() > 1 {
                    stack.pop();
                    assert(stack@ =~= hl_fold(evs.take(i as int)).stack.drop_last());
                }
            },
            HlEvent::Error => {},
        }
        i = i + 1;
    }
    assert(evs.take(events.len() as int) =~= evs);
    let style = stack[stack.len() - 1];
    if !current.as_str().is_empty() {
        let ghost prev = lines_view(lines@);
        let mut segs: Vec<StyledSegment> = Vec::new();
        let ghost cur = current@;
        segs.push(StyledSegment { text: current, style });
        let line = RenderedLine { segments: segs };
        assert(line@ =~= one_segment(cur, style));
        lines.push(line);
        assert(lines_view(lines@) =~= prev.push(one_segment(cur, style)));
    }
    if lines.len() == 0 {
        None
    } else {
        Some(lines)
    }
}

/// The lines of an optional result, as data.
pub open spec fn opt_lines_view(r: Option<Vec<RenderedLine>>) -> Option<Seq<LineView>> {
    match r {
        Some(v) => Some(lines_view(v@)),
        None => None,
    }
}

/// What highlighting `code` in the language of a fence's info string
/// gives: `None` for an unsupported language, a failed highlight, or no
/// lines; otherwise the highlighter's events turned into lines.
pub open spec fn try_highlight_spec(code: Seq<char>, lang: Seq<char>) -> Option<Seq<LineView>> {
    match lang_of(lang) {
        Some(l) => match highlight_events(l, code, highlight_names_spec()) {
            Some(evs) => highlight_lines_spec(evs),
            None => None,
        },
        None => None,
    }
}

/// Highlights code with tree-sitter: `None` if the language is not
/// supported or highlighting fails (the caller falls back to plain lines).
pub fn try_highlight(code: &str, lang: &str) -> (r: Option<Vec<RenderedLine>>)
    ensures
        opt_lines_view(r) == try_highlight_spec(code@, lang@),
{
    let names = highlight_names();
    let events = match highlight_language(lang) {
        Some(HlLang::Rust) => highlight_rust(code, &names),
        Some(HlLang::JavaScript) => highlight_javascript(code, &names),
        Some(HlLang::Bash) => highlight_bash(code, &names),
        Some(HlLang::Json) => highlight_json(code, &names),
        None => return None,
    };
    match events {
        Some(evs) => highlight_lines(&evs),
        None => None,
    }
}

} // verus!
