//! Session file and directory naming.

use vstd::prelude::*;
use crate::text::{chars_of, push_char};

verus! {

/// A path separator or drive colon, which the directory slug turns into a
/// dash.
pub open spec fn slug_char(c: char) -> char {
    if c == '/' || c == '\\' || c == ':' {
        '-'
    } else {
        c
    }
}

/// The directory slug of a working directory: one leading separator
/// dropped, every remaining separator and colon a dash, and the whole
/// between `--` and `--`.
pub open spec fn dir_slug_spec(cwd: Seq<char>) -> Seq<char> {
    let rest = if cwd.len() > 0 && (cwd[0] == '/' || cwd[0] == '\\') {
        cwd.skip(1)
    } else {
        cwd
    };
    seq!['-', '-'] + rest.map_values(|c: char| slug_char(c)) + seq!['-', '-']
}

/// A timestamp character as it appears in a file name: colons and dots
/// become dashes.
pub open spec fn stamp_char(c: char) -> char {
    if c == ':' || c == '.' {
        '-'
    } else {
        c
    }
}

/// The file name of a session: the timestamp with colons and dots as
/// dashes, `_`, the session id, and `.jsonl`.
pub open spec fn file_name_spec(iso_timestamp: Seq<char>, session_id: Seq<char>) -> Seq<char> {
    iso_timestamp.map_values(|c: char| stamp_char(c)) + seq!['_'] + session_id + seq![
        '.',
        'j',
        's',
        'o',
        'n',
        'l',
    ]
}

/// Appends `cs[from..]` to `out`, each character mapped as in a directory
/// slug (`slug`) or as in a file-name timestamp.
fn push_mapped(out: &mut String, cs: &Vec<char>, from: usize, slug: bool)
    requires
        from <= cs.len(),
    ensures
        final(out)@ == old(out)@ + cs@.skip(from as int).map_values(
            |c: char|
                if slug {
                    slug_char(c)
                } else {
                    stamp_char(c)
                },
        ),
{
    let ghost start = out@;
    let ghost f = |c: char|
        if slug {
            slug_char(c)
        } else {
            stamp_char(c)
        };
    let mut i: usize = from;
    while i < cs.len()
        invariant
            from <= i <= cs.len(),
            f == (|c: char|
                if slug {
                    slug_char(c)
                } else {
                    stamp_char(c)
                }),
            out@ == start + cs@.subrange(from as int, i as int).map_values(f),
        decreases cs.len() - i,
    {
        let c = cs[i];
        let d = if slug {
            if c == '/' || c == '\\' || c == ':' {
                '-'
            } else {
                c
            }
        } else {
            if c == ':' || c == '.' {
                '-'
            } else {
                c
            }
        };
        assert(f(c) == d);
        push_char(out, d);
        assert(cs@.subrange(from as int, i + 1) =~= cs@.subrange(from as int, i as int).push(cs@[i as int]));
        assert(out@ =~= start + cs@.subrange(from as int, i + 1).map_values(f));
        i = i + 1;
    }
    assert(cs@.subrange(from as int, cs.len() as int) =~= cs@.skip(from as int));
}

/// The session directory slug of a working directory:
/// `--<cwd with separators as dashes>--`, with one leading separator
/// dropped first.
pub fn session_dir_slug(cwd: &str) -> (r: String)
    ensures
        r@ == dir_slug_spec(cwd@),
{
    let cs = chars_of(cwd);
    let from: usize = if cs.len() > 0 && (cs[0] == '/' || cs[0] == '\\') {
        1
    } else {
        0
    };
    let mut out = String::new();
    push_char(&mut out, '-');
    push_char(&mut out, '-');
    push_mapped(&mut out, &cs, from, true);
    push_char(&mut out, '-');
    push_char(&mut out, '-');
    assert(cs@.skip(0) =~= cs@);
    assert(out@ =~= dir_slug_spec(cwd@));
    out
}

/// The session file name: `<timestamp with : and . as ->_<session id>.jsonl`.
pub fn session_file_name(iso_timestamp: &str, session_id: &str) -> (r: String)
    ensures
        r@ == file_name_spec(iso_timestamp@, session_id@),
{
    let ts = chars_of(iso_timestamp);
    let id = chars_of(session_id);
    let mut out = String::new();
    push_mapped(&mut out, &ts, 0, false);
    push_char(&mut out, '_');
    let mut i: usize = 0;
    let ghost start = out@;
    while i < id.len()
        invariant
            i <= id.len(),
            out@ == start + id@.take(i as int),
        decreases id.len() - i,
    {
        push_char(&mut out, id[i]);
        assert(id@.take(i + 1) =~= id@.take(i as int).push(id@[i as int]));
        i = i + 1;
    }
    push_char(&mut out, '.');
    push_char(&mut out, 'j');
    push_char(&mut out, 's');
    push_char(&mut out, 'o');
    push_char(&mut out, 'n');
    push_char(&mut out, 'l');
    assert(ts@.skip(0) =~= ts@);
    assert(id@.take(id.len() as int) =~= id@);
    assert(out@ =~= file_name_spec(iso_timestamp@, session_id@));
    out
}

} // verus!
