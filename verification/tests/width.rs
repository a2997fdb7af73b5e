use pi_rs::render::width::{GraphemeWidth, RunefixWidth};

fn widths(text: &str) -> Vec<(&str, u16)> {
    RunefixWidth.grapheme_widths(text)
}

fn wdisplay(text: &str) -> u16 {
    RunefixWidth.display_width(text)
}

fn wwrap(text: &str, max_width: u16) -> Vec<String> {
    RunefixWidth.wrap_text(text, max_width)
}

#[test]
fn ascii_width_is_1() {
    let widths = widths("Hello");
    assert_eq!(widths, vec![("H", 1), ("e", 1), ("l", 1), ("l", 1), ("o", 1)]);
}

#[test]
fn hiragana_width_is_2() {
    let widths = widths("あいう");
    assert_eq!(widths, vec![("あ", 2), ("い", 2), ("う", 2)]);
}

#[test]
fn katakana_width_is_2() {
    let widths = widths("カキク");
    assert_eq!(widths, vec![("カ", 2), ("キ", 2), ("ク", 2)]);
}

#[test]
fn han_width_is_2() {
    let widths = widths("你好");
    assert_eq!(widths, vec![("你", 2), ("好", 2)]);
}

#[test]
fn single_emoji_width_is_2() {
    let widths = widths("😀");
    assert_eq!(widths.len(), 1);
    assert_eq!(widths[0].1, 2, "single emoji must be width 2");
}

#[test]
fn zwj_family_is_single_grapheme_width_2() {
    let widths = widths("👨‍👩‍👧‍👦");
    assert_eq!(widths.len(), 1, "ZWJ family must be a single grapheme");
    assert_eq!(widths[0].1, 2, "ZWJ family must be width 2");
}

#[test]
fn vs16_groups_with_base() {
    let widths = widths("❤️");
    assert_eq!(widths.len(), 1, "VS16 must group with base");
}

#[test]
fn combining_marks_group_with_base() {
    let widths = widths("e\u{0301}");
    assert_eq!(widths.len(), 1, "combining mark must group with base");
    assert_eq!(widths[0].0, "e\u{0301}");
}

#[test]
fn east_asian_ambiguous_returns_width() {
    let widths = widths("±");
    assert_eq!(widths.len(), 1);
    assert!(widths[0].1 == 1 || widths[0].1 == 2);
}

#[test]
fn halfwidth_katakana_width_is_1() {
    let widths = widths("ｶｷｸ");
    for (_, w) in &widths {
        assert_eq!(*w, 1, "halfwidth katakana must be width 1");
    }
}

#[test]
fn mixed_text_widths() {
    let widths = widths("Hi你😀");
    assert_eq!(widths.len(), 4);
    assert_eq!(widths[0], ("H", 1));
    assert_eq!(widths[1], ("i", 1));
    assert_eq!(widths[2], ("你", 2));
    assert_eq!(widths[3].1, 2);
}

#[test]
fn empty_string_returns_empty() {
    let widths = widths("");
    assert!(widths.is_empty());
}

#[test]
fn display_width_sums() {
    assert_eq!(wdisplay("Hello"), 5);
    assert_eq!(wdisplay("你好"), 4);
    assert_eq!(wdisplay(""), 0);
}

#[test]
fn wrap_short_text_one_line() {
    let lines = wwrap("Hi", 10);
    assert_eq!(lines.len(), 1);
    assert_eq!(lines[0], "Hi");
}

#[test]
fn wrap_exact_width_one_line() {
    let lines = wwrap("Hello", 5);
    assert_eq!(lines.len(), 1);
    assert_eq!(lines[0], "Hello");
}

#[test]
fn wrap_long_text_wraps() {
    let lines = wwrap("Hello World", 5);
    assert!(lines.len() >= 2);
}

#[test]
fn wrap_width_2_at_boundary_wraps() {
    let lines = wwrap("你好世", 3);
    assert_eq!(lines.len(), 3);
    assert_eq!(lines[0], "你");
    assert_eq!(lines[1], "好");
    assert_eq!(lines[2], "世");
}

#[test]
fn wrap_zero_width_grouped() {
    let lines = wwrap("e\u{0301}", 5);
    assert_eq!(lines.len(), 1);
    assert_eq!(lines[0], "e\u{0301}");
}

#[test]
fn wrap_empty_paragraph_blank_line() {
    let lines = wwrap("", 10);
    assert_eq!(lines.len(), 1);
    assert_eq!(lines[0], "");
}

#[test]
fn wrap_width_zero_no_output() {
    let lines = wwrap("Hello", 0);
    assert!(lines.is_empty());
}

#[test]
fn wrap_newlines_split_paragraphs() {
    let lines = wwrap("a\nb\nc", 10);
    assert_eq!(lines.len(), 3);
    assert_eq!(lines[0], "a");
    assert_eq!(lines[1], "b");
    assert_eq!(lines[2], "c");
}

#[test]
fn wrap_mixed_cjk_ascii() {
    let lines = wwrap("Hi你好", 4);
    assert_eq!(lines.len(), 2);
    assert_eq!(lines[0], "Hi你");
    assert_eq!(lines[1], "好");
}

#[test]
fn wrap_paragraph_empty() {
    let lines = RunefixWidth.wrap_paragraph("", 10);
    assert_eq!(lines.len(), 1);
}

#[test]
fn wrap_expands_tab_to_3_spaces() {
    let lines = wwrap("a\tb", 10);
    assert_eq!(lines.len(), 1);
    assert_eq!(lines[0], "a   b");
}

#[test]
fn wrap_grapheme_wider_than_max_width() {
    let lines = wwrap("😀", 1);
    assert_eq!(lines.len(), 1);
    assert_eq!(lines[0], "😀");
}

#[test]
fn wrap_consecutive_newlines() {
    let lines = wwrap("a\n\nb", 10);
    assert_eq!(lines.len(), 3);
    assert_eq!(lines[0], "a");
    assert_eq!(lines[1], "");
    assert_eq!(lines[2], "b");
}

#[test]
fn wrap_trailing_newline() {
    let lines = wwrap("hello\n", 10);
    assert_eq!(lines.len(), 2);
    assert_eq!(lines[0], "hello");
    assert_eq!(lines[1], "");
}

#[test]
fn wrap_only_newlines() {
    let lines = wwrap("\n\n\n", 10);
    assert_eq!(lines.len(), 4);
    assert!(lines.iter().all(|l| l.is_empty()));
}

// Wrapping keeps every character: the wrapped lines of a paragraph run
// together give the paragraph back.
#[test]
fn wrap_preserves_content_on_example() {
    let text = "The quick brown fox 你好 jumps";
    let lines = RunefixWidth.wrap_paragraph(text, 7);
    assert_eq!(lines.concat(), text);
    for l in &lines {
        assert!(RunefixWidth.display_width(l) <= 7);
    }
}

#[test]
fn wrapped_lines_join_to_the_text_without_newlines() {
    let text = "héllo wörld 你好\tend\n\nsecond paragraph here";
    let lines = wwrap(text, 4);
    let expanded = text.replace('\t', "   ");
    assert_eq!(lines.concat(), expanded.replace('\n', ""));
    assert!(lines.iter().all(|l| !l.contains('\n')));
    assert!(lines.len() >= expanded.split('\n').count());
}
