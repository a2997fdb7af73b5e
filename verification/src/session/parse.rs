//! Splitting a session file into its JSON lines. Blank lines and lines
//! that are not JSON are skipped; each remaining line is classified as the
//! header or an entry by its `type` field. Turning a classified line into
//! a typed header or entry is serde's part.

use vstd::prelude::*;
use crate::json::{json_str_field, json_string_fields};
use crate::session::header::{header_type_spec, header_type};
use crate::text::{str_eq, text_lines, text_lines_of, trim, trim_spec};

verus! {

/// The lines of a session file that hold something: each line trimmed,
/// blank ones dropped.
pub open spec fn content_lines(lines: Seq<Seq<char>>) -> Seq<Seq<char>>
    decreases lines.len(),
{
    if lines.len() == 0 {
        seq![]
    } else {
        let rest = content_lines(lines.drop_last());
        let t = trim_spec(lines.last());
        if t.len() == 0 {
            rest
        } else {
            rest.push(t)
        }
    }
}

/// The trimmed, non-blank lines of a session file's contents.
pub fn session_lines(contents: &str) -> (r: Vec<String>)
    ensures
        r@.map_values(|s: String| s@) == content_lines(text_lines(contents@)),
{
    let lines = text_lines_of(contents);
    let ghost ls = text_lines(contents@);
    let mut out: Vec<String> = Vec::new();
    let mut i: usize = 0;
    assert(ls.take(0) =~= Seq::<Seq<char>>::empty());
    while i < lines.len()
        invariant
            i <= lines@.len(),
            lines@.map_values(|s: String| s@) == ls,
            out@.map_values(|s: String| s@) == content_lines(ls.take(i as int)),
        decreases lines@.len() - i,
    {
        assert(ls.take(i + 1).drop_last() =~= ls.take(i as int));
        assert(ls.take(i + 1).last() == lines@[i as int]@);
        let t = trim(lines[i].as_str());
        if !t.as_str().is_empty() {
            let ghost before = out@.map_values(|s: String| s@);
            out.push(t);
            assert(out@.map_values(|s: String| s@) =~= before.push(t@));
        }
        i = i + 1;
    }
    assert(ls.take(lines@.len() as int) =~= ls);
    out
}

/// What `serde_json::from_str` gives for a text: the JSON value it holds,
/// or `None` if it is not JSON.
pub uninterp spec fn parsed_json(text: Seq<char>) -> Option<serde_json::Value>;

/// Parses a text as JSON (`serde_json::from_str` into a `Value`); `None`
/// when it is not JSON. The result is a function of the text.
#[verifier::external_body]
fn parse_json(text: &str) -> (r: Option<serde_json::Value>)
    ensures
        r == parsed_json(text@),
{
    serde_json::from_str(text).ok()
}

/// Whether a session line is the header or an entry.
#[derive(Debug, Clone, Copy, PartialEq, Eq, Structural)]
pub enum LineKind {
    Header,
    Entry,
}

/// `type`.
pub open spec fn type_key() -> Seq<char> {
    seq!['t', 'y', 'p', 'e']
}

/// The kind of a parsed line: a JSON object whose string `type` is
/// `session` is the header; one with another string `type` is an entry;
/// anything else is neither.
pub open spec fn line_kind_spec(v: serde_json::Value) -> Option<LineKind> {
    let fields = json_string_fields(v);
    if fields.dom().contains(type_key()) {
        if fields[type_key()] == header_type_spec() {
            Some(LineKind::Header)
        } else {
            Some(LineKind::Entry)
        }
    } else {
        None
    }
}

/// Classifies a parsed line by its `type` field.
pub fn line_kind(v: &serde_json::Value) -> (r: Option<LineKind>)
    ensures
        r == line_kind_spec(*v),
{
    let key = String::from_str("type");
    proof {
        reveal_strlit("type");
    }
    assert(key@ =~= type_key());
    match json_str_field(v, key.as_str()) {
        Some(t) => {
            let session = header_type();
            if str_eq(t.as_str(), session.as_str()) {
                Some(LineKind::Header)
            } else {
                Some(LineKind::Entry)
            }
        },
        None => None,
    }
}

/// The classified JSON lines of some trimmed lines: lines that are not
/// JSON, or not an object with a string `type`, are dropped.
pub open spec fn classified(lines: Seq<Seq<char>>) -> Seq<(LineKind, serde_json::Value)>
    decreases lines.len(),
{
    if lines.len() == 0 {
        seq![]
    } else {
        let rest = classified(lines.drop_last());
        match parsed_json(lines.last()) {
            Some(v) => match line_kind_spec(v) {
                Some(k) => rest.push((k, v)),
                None => rest,
            },
            None => rest,
        }
    }
}

/// Splits a session file into its classified JSON lines, in order: blank
/// lines, lines that are not JSON, and lines without a string `type` are
/// skipped. No migration is applied.
pub fn classify_session_lines(contents: &str) -> (r: Vec<(LineKind, serde_json::Value)>)
    ensures
        r@ == classified(content_lines(text_lines(contents@))),
{
    let lines = session_lines(contents);
    let ghost ls = content_lines(text_lines(contents@));
    let mut out: Vec<(LineKind, serde_json::Value)> = Vec::new();
    let mut i: usize = 0;
    assert(ls.take(0) =~= Seq::<Seq<char>>::empty());
    while i < lines.len()
        invariant
            i <= lines@.len(),
            lines@.map_values(|s: String| s@) == ls,
            out@ == classified(ls.take(i as int)),
        decreases lines@.len() - i,
    {
        assert(ls.take(i + 1).drop_last() =~= ls.take(i as int));
        assert(ls.take(i + 1).last() == lines@[i as int]@);
        match parse_json(lines[i].as_str()) {
            Some(v) => match line_kind(&v) {
                Some(k) => {
                    out.push((k, v));
                },
                None => {},
            },
            None => {},
        }
        i = i + 1;
    }
    assert(ls.take(lines@.len() as int) =~= ls);
    out
}

} // verus!
