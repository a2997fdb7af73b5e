use pi_rs::render::highlight::{
    capture_to_style, highlight_language, highlight_names, try_highlight, HlLang,
};
use pi_rs::render::markdown::{
    highlight_code_block, is_partial_closing_fence, normalize_markdown, render_markdown,
    trim_partial_closing_fences, BlockCache,
};
use pi_rs::text::text_lines_of;
use pi_rs::render::projection::RenderedLine;
use pi_rs::render::style::{Color, Style};

fn line_text(line: &RenderedLine) -> String {
    line.segments.iter().map(|s| s.text.as_str()).collect()
}

#[test]
fn plain_text_renders() {
    let mut cache = BlockCache::new();
    let lines = render_markdown("Hello world", 80, &mut cache);
    assert!(!lines.is_empty());
}

#[test]
fn code_block_with_lang_highlighted() {
    let mut cache = BlockCache::new();
    let lines = render_markdown("```rust\nfn main() {}\n```", 80, &mut cache);
    assert!(lines.len() >= 3, "code block should have header, code, footer");
}

#[test]
fn code_block_no_lang_plain() {
    let mut cache = BlockCache::new();
    let lines = render_markdown("```\nplain code\n```", 80, &mut cache);
    assert!(lines.len() >= 3);
}

#[test]
fn unknown_lang_falls_back_to_plain() {
    let mut cache = BlockCache::new();
    let lines = render_markdown("```brainfuck\n+++[+++]\n```", 80, &mut cache);
    assert!(lines.len() >= 3);
}

#[test]
fn finalized_block_is_cached() {
    let mut cache = BlockCache::new();
    let lines1 = cache.get_or_highlight("fn main() {}", "rust", 80, true);
    let lines2 = cache.get_or_highlight("fn main() {}", "rust", 80, true);
    assert_eq!(lines1, lines2, "cached block must return same result");
}

#[test]
fn tail_block_not_cached() {
    let mut cache = BlockCache::new();
    cache.get_or_highlight("fn main() {}", "rust", 80, false);
    assert!(cache.is_empty(), "tail block must not be cached");
}

#[test]
fn different_code_different_result() {
    let mut cache = BlockCache::new();
    let lines1 = cache.get_or_highlight("fn main() {}", "rust", 80, true);
    let lines2 = cache.get_or_highlight("fn other() {}", "rust", 80, true);
    assert_ne!(lines1, lines2, "different code must produce different results");
}

#[test]
fn cache_invalidated_on_width_change() {
    let mut cache = BlockCache::new();
    cache.get_or_highlight("fn main() {}", "rust", 80, true);
    cache.get_or_highlight("fn main() {}", "rust", 40, true);
}

#[test]
fn explicit_invalidate_clears() {
    let mut cache = BlockCache::new();
    cache.get_or_highlight("fn main() {}", "rust", 80, true);
    cache.invalidate();
    assert!(cache.is_empty());
}

#[test]
fn default_creates_empty() {
    let cache = BlockCache::default();
    assert!(cache.is_empty());
}

#[test]
fn partial_closing_fence_trimmed() {
    let result = trim_partial_closing_fences("```rust\nfn main() {}\n``");
    assert!(!result.ends_with("``"), "partial closing fence at end must be trimmed");
}

#[test]
fn complete_closing_fence_kept() {
    let result = trim_partial_closing_fences("```rust\nfn main() {}\n```");
    assert!(result.contains("```"), "complete closing fence must be kept");
}

#[test]
fn single_backtick_in_content_not_trimmed() {
    let result = trim_partial_closing_fences("hello `world`");
    assert!(result.contains("`"), "inline backtick must not be trimmed");
}

#[test]
fn incomplete_rust_no_panic() {
    let mut cache = BlockCache::new();
    let lines = render_markdown("```rust\nfn main() {\n    // incomplete\n```", 80, &mut cache);
    assert!(!lines.is_empty());
}

#[test]
fn incomplete_js_no_panic() {
    let mut cache = BlockCache::new();
    let lines = render_markdown("```js\nfunction foo(\n```", 80, &mut cache);
    assert!(!lines.is_empty());
}

#[test]
fn incomplete_bash_no_panic() {
    let mut cache = BlockCache::new();
    let lines = render_markdown("```bash\nif [ true ]; then\n```", 80, &mut cache);
    assert!(!lines.is_empty());
}

#[test]
fn incomplete_json_no_panic() {
    let mut cache = BlockCache::new();
    let lines = render_markdown("```json\n{\"key\":\n```", 80, &mut cache);
    assert!(!lines.is_empty());
}

#[test]
fn text_and_code_renders() {
    let mut cache = BlockCache::new();
    let lines = render_markdown("Here is code:\n```rust\nfn main() {}\n```\nDone.", 80, &mut cache);
    assert!(lines.len() >= 4, "text + code + text should produce >= 4 lines");
}

#[test]
fn empty_markdown_renders_blank() {
    let mut cache = BlockCache::new();
    let lines = render_markdown("", 80, &mut cache);
    assert_eq!(lines.len(), 1);
}

#[test]
fn markdown_with_rule() {
    let mut cache = BlockCache::new();
    let lines = render_markdown("before\n---\nafter", 80, &mut cache);
    assert!(!lines.is_empty());
}

#[test]
fn inline_code_renders() {
    let mut cache = BlockCache::new();
    let lines = render_markdown("Use `print()` to output", 80, &mut cache);
    assert_eq!(lines.len(), 1, "inline code must compose into one line");
    let combined = line_text(&lines[0]);
    assert!(combined.contains("Use"), "line must contain 'Use'");
    assert!(combined.contains("print()"), "line must contain inline code");
    assert!(combined.contains("output"), "line must contain 'output'");
}

#[test]
fn heading_renders_bold() {
    let mut cache = BlockCache::new();
    let lines = render_markdown("# Hello", 80, &mut cache);
    assert!(!lines.is_empty());
}

#[test]
fn consecutive_paragraphs_have_blank_line() {
    let mut cache = BlockCache::new();
    let lines = render_markdown("First paragraph.\n\nSecond paragraph.", 80, &mut cache);
    assert!(lines.len() >= 2);
}

#[test]
fn indented_code_block_renders() {
    let mut cache = BlockCache::new();
    let lines = render_markdown("    code here", 80, &mut cache);
    assert!(!lines.is_empty());
}

#[test]
fn unclosed_code_block_renders() {
    let mut cache = BlockCache::new();
    let lines = render_markdown("```rust\nfn main() {", 80, &mut cache);
    assert!(!lines.is_empty());
}

#[test]
fn partial_fence_single_line() {
    let result = trim_partial_closing_fences("``");
    assert!(result.is_empty(), "partial fence on single line must be trimmed");
}

#[test]
fn no_partial_fence_unchanged() {
    let result = trim_partial_closing_fences("hello world");
    assert_eq!(result, "hello world");
}

#[test]
fn empty_string_no_change() {
    let result = trim_partial_closing_fences("");
    assert_eq!(result, "");
}

#[test]
fn capture_to_style_all_named() {
    for (i, _name) in highlight_names().iter().enumerate() {
        let style = capture_to_style(i);
        let _ = format!("{:?}", style);
    }
}

#[test]
fn capture_to_style_unknown() {
    let style = capture_to_style(999);
    assert_eq!(style, Style::plain());
}

#[test]
fn unsupported_lang_returns_none() {
    assert!(highlight_language("python").is_none());
}

#[test]
fn all_supported_langs_return_config() {
    assert!(highlight_language("rust").is_some());
    assert!(highlight_language("javascript").is_some());
    assert!(highlight_language("bash").is_some());
    assert!(highlight_language("json").is_some());
}

#[test]
fn is_partial_fence_edge_cases() {
    assert!(is_partial_closing_fence("`"));
    assert!(is_partial_closing_fence("``"));
    assert!(!is_partial_closing_fence("```"));
    assert!(!is_partial_closing_fence(""));
    assert!(!is_partial_closing_fence("a"));
    assert!(!is_partial_closing_fence("`a"));
}

#[test]
fn soft_break_renders_inline_spacing() {
    let mut cache = BlockCache::new();
    let lines = render_markdown("line one\nline two", 80, &mut cache);
    assert_eq!(lines.len(), 1, "soft break must compose into one line");
    let combined = line_text(&lines[0]);
    assert!(combined.contains("line one"), "must contain first part");
    assert!(combined.contains("line two"), "must contain second part");
}

#[test]
fn hard_break_renders_blank_line() {
    let mut cache = BlockCache::new();
    let lines = render_markdown("line one\\\nline two", 80, &mut cache);
    assert!(lines.len() >= 2);
}

#[test]
fn horizontal_rule_renders() {
    let mut cache = BlockCache::new();
    let lines = render_markdown("before\n\n***\n\nafter", 80, &mut cache);
    assert!(!lines.is_empty());
}

#[test]
fn unclosed_code_block_tail_renders() {
    let mut cache = BlockCache::new();
    let lines = render_markdown("```rust\nfn main() {", 80, &mut cache);
    assert!(!lines.is_empty(), "unclosed code block must render");
}

#[test]
fn try_highlight_empty_code_returns_none() {
    let result = try_highlight("", "rust");
    let _ = result;
}

#[test]
fn try_highlight_unsupported_lang_returns_none() {
    assert!(try_highlight("code", "cobol").is_none());
}

#[test]
fn html_in_markdown_no_panic() {
    let mut cache = BlockCache::new();
    let lines = render_markdown("<div>hello</div>", 80, &mut cache);
    assert!(!lines.is_empty());
}

#[test]
fn task_list_marker_no_panic() {
    let mut cache = BlockCache::new();
    let lines = render_markdown("- [x] done\n- [ ] todo", 80, &mut cache);
    assert!(!lines.is_empty());
}

// Exact renderings.

#[test]
fn heading_is_bold_and_rule_is_dark_grey_dashes() {
    let mut cache = BlockCache::new();
    let lines = render_markdown("# Title\n\n***\n", 80, &mut cache);
    assert_eq!(lines.len(), 2);
    assert_eq!(lines[0], RenderedLine::styled("Title", Style::plain().bolded()));
    assert_eq!(lines[1], RenderedLine::styled("---", Style::with_fg(Color::DarkGray)));
}

#[test]
fn paragraphs_are_separated_by_one_blank_line() {
    let mut cache = BlockCache::new();
    let lines = render_markdown("one\n\ntwo", 80, &mut cache);
    assert_eq!(lines.len(), 3);
    assert_eq!(lines[0], RenderedLine::plain("one"));
    assert_eq!(lines[1], RenderedLine::plain(""));
    assert_eq!(lines[2], RenderedLine::plain("two"));
}

#[test]
fn inline_text_wraps_at_width_in_first_style() {
    let mut cache = BlockCache::new();
    let lines = render_markdown("`abc` def", 4, &mut cache);
    assert_eq!(lines.len(), 2);
    assert_eq!(lines[0], RenderedLine::styled("abc ", Style::with_fg(Color::Yellow)));
    assert_eq!(lines[1], RenderedLine::styled("def", Style::with_fg(Color::Yellow)));
}

#[test]
fn unsupported_code_block_is_fenced_yellow_lines() {
    let lines = highlight_code_block("a\r\nb\n", "cobol", 80);
    let dim = Style::with_fg(Color::DarkGray);
    let yellow = Style::with_fg(Color::Yellow);
    assert_eq!(
        lines,
        vec![
            RenderedLine::styled("```cobol", dim),
            RenderedLine::styled("a", yellow),
            RenderedLine::styled("b", yellow),
            RenderedLine::styled("```", dim),
        ]
    );
}

#[test]
fn rust_code_block_highlights_keyword() {
    let lines = highlight_code_block("fn main() {}\n", "rust", 80);
    assert_eq!(lines.len(), 3);
    let code = &lines[1];
    assert_eq!(line_text(code), "fn main() {}");
    assert_eq!(code.segments.len(), 1, "a highlighted line is one segment");
    assert_eq!(lines[0], RenderedLine::styled("```rust", Style::with_fg(Color::DarkGray)));
}

#[test]
fn cache_returns_fresh_highlight_for_held_block() {
    let mut cache = BlockCache::new();
    let fresh = highlight_code_block("let x = 1;", "js", 80);
    let first = cache.get_or_highlight("let x = 1;", "js", 80, true);
    let second = cache.get_or_highlight("let x = 1;", "js", 80, true);
    assert_eq!(first, fresh);
    assert_eq!(second, fresh);
    assert!(!cache.is_empty());
}

#[test]
fn language_aliases_select_grammars() {
    assert_eq!(highlight_language("rs"), Some(HlLang::Rust));
    assert_eq!(highlight_language("ts"), Some(HlLang::JavaScript));
    assert_eq!(highlight_language("sh"), Some(HlLang::Bash));
    assert_eq!(highlight_language("shell"), Some(HlLang::Bash));
    assert_eq!(highlight_language("json"), Some(HlLang::Json));
}

#[test]
fn keyword_capture_is_bold_magenta() {
    assert_eq!(capture_to_style(4), Style::with_fg(Color::Magenta).bolded());
    assert_eq!(capture_to_style(2), Style::with_fg(Color::DarkGray));
}

#[test]
fn normalize_trims_partial_fence_only_on_last_line() {
    assert_eq!(normalize_markdown("``\nabc\n`"), "``\nabc\n");
    assert_eq!(normalize_markdown("abc\n  `` "), "abc\n");
}

#[test]
fn text_lines_follow_str_lines() {
    for s in ["", "a", "a\n", "a\r\nb", "a\n\nb\n", "x\r", "\n"] {
        let expected: Vec<String> = s.lines().map(|l| l.to_string()).collect();
        assert_eq!(text_lines_of(s), expected, "lines of {:?}", s);
    }
}
