//! Version migrations: version 1 to 2 (ids and parent links for every
//! entry, compaction positions turned into ids) and version 2 to 3 (the
//! `hookMessage` role renamed `custom`). Migration works in place and says
//! whether it changed anything.

use vstd::prelude::*;
use crate::json::{json_set_str_field, json_str_field, json_string_fields, json_with_str_field};
use crate::session::entry::{EntryBase, FileEntry, SessionEntry};
use crate::session::header::{SessionHeader, CURRENT_SESSION_VERSION};
use crate::text::{chars_of, str_eq, string_from_chars};
use crate::vecs::reversed;

verus! {

// ---------------------------------------------------------------------------
// Models
// ---------------------------------------------------------------------------

/// An optional string, as data.
pub open spec fn opt_view(o: Option<String>) -> Option<Seq<char>> {
    match o {
        Some(s) => Some(s@),
        None => None,
    }
}

/// The version a file declares: that of its first header that has one.
pub open spec fn header_version_spec(entries: Seq<FileEntry>) -> Option<u32>
    decreases entries.len(),
{
    if entries.len() == 0 {
        None
    } else {
        match entries[0] {
            FileEntry::Header(h) => match h.version {
                Some(v) => Some(v),
                None => header_version_spec(entries.skip(1)),
            },
            _ => header_version_spec(entries.skip(1)),
        }
    }
}

/// The version a file is at: its declared version, or 1 if it declares
/// none.
pub open spec fn file_version(entries: Seq<FileEntry>) -> u32 {
    match header_version_spec(entries) {
        Some(v) => v,
        None => 1,
    }
}

/// `n` is `h` at version `v`.
pub open spec fn header_at(h: SessionHeader, n: SessionHeader, v: u32) -> bool {
    n == SessionHeader { version: Some(v), ..h }
}

/// An entry with its base replaced.
pub open spec fn with_base(e: SessionEntry, b: EntryBase) -> SessionEntry {
    match e {
        SessionEntry::Message { message, .. } => SessionEntry::Message { base: b, message },
        SessionEntry::ThinkingLevelChange { thinking_level, .. } => SessionEntry::ThinkingLevelChange {
            base: b,
            thinking_level,
        },
        SessionEntry::ModelChange { provider, model_id, .. } => SessionEntry::ModelChange {
            base: b,
            provider,
            model_id,
        },
        SessionEntry::Compaction {
            summary,
            first_kept_entry_id,
            first_kept_entry_index,
            tokens_before,
            details,
            usage,
            from_hook,
            ..
        } => SessionEntry::Compaction {
            base: b,
            summary,
            first_kept_entry_id,
            first_kept_entry_index,
            tokens_before,
            details,
            usage,
            from_hook,
        },
        SessionEntry::BranchSummary { from_id, summary, details, usage, from_hook, .. } =>
            SessionEntry::BranchSummary { base: b, from_id, summary, details, usage, from_hook },
        SessionEntry::Custom { custom_type, data, .. } => SessionEntry::Custom {
            base: b,
            custom_type,
            data,
        },
        SessionEntry::CustomMessage { custom_type, content, details, display, .. } =>
            SessionEntry::CustomMessage { base: b, custom_type, content, details, display },
        SessionEntry::Label { target_id, label, .. } => SessionEntry::Label {
            base: b,
            target_id,
            label,
        },
        SessionEntry::SessionInfo { name, .. } => SessionEntry::SessionInfo { base: b, name },
    }
}

/// A compaction with its first kept entry set to an id (and its position
/// cleared); any other entry as it is.
pub open spec fn with_kept(e: SessionEntry, kept: String) -> SessionEntry {
    match e {
        SessionEntry::Compaction {
            base,
            summary,
            tokens_before,
            details,
            usage,
            from_hook,
            ..
        } => SessionEntry::Compaction {
            base,
            summary,
            first_kept_entry_id: Some(kept),
            first_kept_entry_index: None,
            tokens_before,
            details,
            usage,
            from_hook,
        },
        _ => e,
    }
}

/// The id a file entry had by position before migration: an entry's id;
/// none for a header.
pub open spec fn id_at_index(e: FileEntry) -> Option<Seq<char>> {
    match e {
        FileEntry::Entry(x) => Some(x.id_spec()),
        FileEntry::Header(_) => None,
    }
}

/// The id a version 1 compaction's first kept position names: the id the
/// file entry at that position had (none for a header or a position past
/// the end). `None` for an entry that is not a compaction with a position.
pub open spec fn kept_target(olds: Seq<FileEntry>, e: SessionEntry) -> Option<Seq<char>> {
    match e {
        SessionEntry::Compaction { first_kept_entry_index, .. } => match first_kept_entry_index {
            Some(idx) => if idx < olds.len() {
                id_at_index(olds[idx as int])
            } else {
                None
            },
            None => None,
        },
        _ => None,
    }
}

/// The id of the last entry (not header) before position `i`.
pub open spec fn prev_entry_id(news: Seq<FileEntry>, i: int) -> Option<Seq<char>>
    decreases i,
{
    if i <= 0 {
        None
    } else {
        match news[i - 1] {
            FileEntry::Entry(e) => Some(e.id_spec()),
            FileEntry::Header(_) => prev_entry_id(news, i - 1),
        }
    }
}

/// A lowercase hexadecimal digit.
pub open spec fn is_hex_digit(c: char) -> bool {
    ('0' <= c && c <= '9') || ('a' <= c && c <= 'f')
}

/// A short id: eight lowercase hexadecimal digits.
pub open spec fn is_short_id(id: Seq<char>) -> bool {
    &&& id.len() == 8
    &&& forall|k: int| 0 <= k < 8 ==> is_hex_digit(#[trigger] id[k])
}

/// An id given to an entry that had none: a short id that no earlier
/// entry's id equals, or (once a hundred tries collided) a full hyphenated
/// UUID, which can only happen when an earlier entry holds a short id.
pub open spec fn fresh_id(news: Seq<FileEntry>, i: int, id: Seq<char>) -> bool {
    ||| {
        &&& id.len() == 36
        &&& exists|j: int|
            0 <= j < i && #[trigger] news[j] is Entry && is_short_id(news[j]->Entry_0.id_spec())
    }
    ||| {
        &&& is_short_id(id)
        &&& forall|j: int|
            0 <= j < i && #[trigger] news[j] is Entry ==> news[j]->Entry_0.id_spec() != id
    }
}

/// Entry `i` migrated from version 1 to 2: its id kept, or a fresh one if
/// it had none; its parent the previous entry; a compaction's first kept
/// position turned into the id it names; nothing else changed.
pub open spec fn entry_v2(olds: Seq<FileEntry>, news: Seq<FileEntry>, i: int) -> bool {
    match olds[i] {
        FileEntry::Header(h) => news[i] is Header && header_at(h, news[i]->Header_0, 2),
        FileEntry::Entry(oe) => news[i] is Entry && {
            let ne = news[i]->Entry_0;
            let nb = ne.base_spec();
            &&& nb.timestamp == oe.base_spec().timestamp
            &&& opt_view(nb.parent_id) == prev_entry_id(news, i)
            &&& oe.id_spec().len() > 0 ==> nb.id@ == oe.id_spec()
            &&& oe.id_spec().len() == 0 ==> fresh_id(news, i, nb.id@)
            &&& match kept_target(olds, oe) {
                Some(t) => exists|k: String| k@ == t && ne == with_kept(with_base(oe, nb), k),
                None => ne == with_base(oe, nb),
            }
        },
    }
}

/// A file migrated from version 1 to 2.
pub open spec fn migrated_v2(olds: Seq<FileEntry>, news: Seq<FileEntry>) -> bool {
    &&& news.len() == olds.len()
    &&& forall|i: int| 0 <= i < olds.len() ==> #[trigger] entry_v2(olds, news, i)
}

/// The role of a message entry's message.
pub open spec fn role_of(message: serde_json::Value) -> Option<Seq<char>> {
    if json_string_fields(message).dom().contains(role_key()) {
        Some(json_string_fields(message)[role_key()])
    } else {
        None
    }
}

/// `role`.
pub open spec fn role_key() -> Seq<char> {
    seq!['r', 'o', 'l', 'e']
}

/// `hookMessage`.
pub open spec fn hook_message_role() -> Seq<char> {
    seq!['h', 'o', 'o', 'k', 'M', 'e', 's', 's', 'a', 'g', 'e']
}

/// `custom`.
pub open spec fn custom_role() -> Seq<char> {
    seq!['c', 'u', 's', 't', 'o', 'm']
}

/// Entry `i` migrated from version 2 to 3: a header at version 3; a
/// message whose role is `hookMessage` turned into the same message with
/// the role `custom` (its base and every other field kept); everything
/// else unchanged.
pub open spec fn entry_v3(olds: Seq<FileEntry>, news: Seq<FileEntry>, i: int) -> bool {
    match olds[i] {
        FileEntry::Header(h) => news[i] is Header && header_at(h, news[i]->Header_0, CURRENT_SESSION_VERSION),
        FileEntry::Entry(SessionEntry::Message { base, message }) => if role_of(message) == Some(
            hook_message_role(),
        ) {
            news[i] == FileEntry::Entry(
                SessionEntry::Message {
                    base,
                    message: json_with_str_field(message, role_key(), custom_role()),
                },
            )
        } else {
            news[i] == olds[i]
        },
        FileEntry::Entry(_) => news[i] == olds[i],
    }
}

/// A file migrated from version 2 to 3.
pub open spec fn migrated_v3(olds: Seq<FileEntry>, news: Seq<FileEntry>) -> bool {
    &&& news.len() == olds.len()
    &&& forall|i: int| 0 <= i < olds.len() ==> #[trigger] entry_v3(olds, news, i)
}

// ---------------------------------------------------------------------------
// Ids
// ---------------------------------------------------------------------------

/// A new version 7 UUID (`uuid::Uuid::now_v7`) in its simple form
/// (`Uuid::simple`): 32 lowercase hexadecimal digits. The value depends on
/// the clock and a random source; only its form is stated.
#[verifier::external_body]
fn new_uuid_v7_simple() -> (r: String)
    ensures
        r@.len() == 32,
        forall|k: int| 0 <= k < 32 ==> is_hex_digit(#[trigger] r@[k]),
{
    uuid::Uuid::now_v7().simple().to_string()
}

/// A new version 7 UUID (`uuid::Uuid::now_v7`) in its hyphenated form
/// (`Display`): 36 characters. The value depends on the clock and a random
/// source; only its length is stated.
#[verifier::external_body]
fn new_uuid_v7_hyphenated() -> (r: String)
    ensures
        r@.len() == 36,
{
    uuid::Uuid::now_v7().to_string()
}

/// Whether `used` holds `s`.
fn contains_str(used: &Vec<String>, s: &str) -> (r: bool)
    ensures
        r == exists|k: int| 0 <= k < used@.len() && (#[trigger] used@[k])@ == s@,
{
    let mut i: usize = 0;
    while i < used.len()
        invariant
            i <= used@.len(),
            forall|k: int| 0 <= k < i ==> (#[trigger] used@[k])@ != s@,
        decreases used@.len() - i,
    {
        if str_eq(used[i].as_str(), s) {
            return true;
        }
        i = i + 1;
    }
    false
}

/// A short id for an entry: the first eight hex digits of a new v7 UUID,
/// tried up to a hundred times until one is not in `used`; after that a
/// full hyphenated v7 UUID. When `used` holds no short id (for one, when
/// it is empty) the first try cannot collide, so the id is short.
fn generate_short_id(used: &Vec<String>) -> (r: String)
    ensures
        r@.len() == 36 || {
            &&& is_short_id(r@)
            &&& forall|k: int| 0 <= k < used@.len() ==> (#[trigger] used@[k])@ != r@
        },
        (forall|k: int| 0 <= k < used@.len() ==> !is_short_id((#[trigger] used@[k])@)) ==> is_short_id(r@),
{
    let mut tries: usize = 0;
    while tries < 100
        invariant
            tries <= 100,
            (forall|k: int| 0 <= k < used@.len() ==> !is_short_id((#[trigger] used@[k])@)) ==> tries == 0,
        decreases 100 - tries,
    {
        let id = new_uuid_v7_simple();
        let cs = chars_of(id.as_str());
        let short = string_from_chars(&cs.as_slice()[0..8]);
        assert(short@ =~= id@.take(8));
        assert(is_short_id(short@));
        if !contains_str(used, short.as_str()) {
            return short;
        }
        tries = tries + 1;
    }
    new_uuid_v7_hyphenated()
}

// ---------------------------------------------------------------------------
// Version 1 to 2
// ---------------------------------------------------------------------------

/// `e` with a new id and parent, its timestamp and payload kept.
fn rebase(e: SessionEntry, id: String, parent_id: Option<String>) -> (r: SessionEntry)
    ensures
        r == with_base(e, EntryBase { id, parent_id, timestamp: e.base_spec().timestamp }),
{
    match e {
        SessionEntry::Message { base, message } => SessionEntry::Message {
            base: EntryBase { id, parent_id, timestamp: base.timestamp },
            message,
        },
        SessionEntry::ThinkingLevelChange { base, thinking_level } =>
            SessionEntry::ThinkingLevelChange {
                base: EntryBase { id, parent_id, timestamp: base.timestamp },
                thinking_level,
            },
        SessionEntry::ModelChange { base, provider, model_id } => SessionEntry::ModelChange {
            base: EntryBase { id, parent_id, timestamp: base.timestamp },
            provider,
            model_id,
        },
        SessionEntry::Compaction {
            base,
            summary,
            first_kept_entry_id,
            first_kept_entry_index,
            tokens_before,
            details,
            usage,
            from_hook,
        } => SessionEntry::Compaction {
            base: EntryBase { id, parent_id, timestamp: base.timestamp },
            summary,
            first_kept_entry_id,
            first_kept_entry_index,
            tokens_before,
            details,
            usage,
            from_hook,
        },
        SessionEntry::BranchSummary { base, from_id, summary, details, usage, from_hook } =>
            SessionEntry::BranchSummary {
                base: EntryBase { id, parent_id, timestamp: base.timestamp },
                from_id,
                summary,
                details,
                usage,
                from_hook,
            },
        SessionEntry::Custom { base, custom_type, data } => SessionEntry::Custom {
            base: EntryBase { id, parent_id, timestamp: base.timestamp },
            custom_type,
            data,
        },
        SessionEntry::CustomMessage { base, custom_type, content, details, display } =>
            SessionEntry::CustomMessage {
                base: EntryBase { id, parent_id, timestamp: base.timestamp },
                custom_type,
                content,
                details,
                display,
            },
        SessionEntry::Label { base, target_id, label } => SessionEntry::Label {
            base: EntryBase { id, parent_id, timestamp: base.timestamp },
            target_id,
            label,
        },
        SessionEntry::SessionInfo { base, name } => SessionEntry::SessionInfo {
            base: EntryBase { id, parent_id, timestamp: base.timestamp },
            name,
        },
    }
}

/// A compaction with its first kept entry set to `kept`.
fn set_kept(e: SessionEntry, kept: String) -> (r: SessionEntry)
    ensures
        r == with_kept(e, kept),
{
    match e {
        SessionEntry::Compaction {
            base,
            summary,
            first_kept_entry_id,
            first_kept_entry_index,
            tokens_before,
            details,
            usage,
            from_hook,
        } => SessionEntry::Compaction {
            base,
            summary,
            first_kept_entry_id: Some(kept),
            first_kept_entry_index: None,
            tokens_before,
            details,
            usage,
            from_hook,
        },
        other => other,
    }
}

/// The id the first kept position of a version 1 compaction names.
fn kept_target_of(id_by_index: &Vec<Option<String>>, e: &SessionEntry, Ghost(olds): Ghost<
    Seq<FileEntry>,
>) -> (r: Option<String>)
    requires
        id_by_index@.len() == olds.len(),
        forall|k: int|
            0 <= k < olds.len() ==> opt_view(#[trigger] id_by_index@[k]) == id_at_index(olds[k]),
    ensures
        opt_view(r) == kept_target(olds, *e),
{
    match e {
        SessionEntry::Compaction { first_kept_entry_index, .. } => match first_kept_entry_index {
            Some(idx) => {
                if *idx < id_by_index.len() as u64 {
                    let i = *idx as usize;
                    match &id_by_index[i] {
                        Some(id) => Some(String::from_str(id.as_str())),
                        None => None,
                    }
                } else {
                    None
                }
            },
            None => None,
        },
        _ => None,
    }
}

proof fn lemma_prev_entry_id_prefix(a: Seq<FileEntry>, b: Seq<FileEntry>, i: int)
    requires
        0 <= i <= a.len(),
        i <= b.len(),
        forall|j: int| 0 <= j < i ==> a[j] == b[j],
    ensures
        prev_entry_id(a, i) == prev_entry_id(b, i),
    decreases i,
{
    if i > 0 {
        lemma_prev_entry_id_prefix(a, b, i - 1);
    }
}

proof fn lemma_fresh_id_prefix(a: Seq<FileEntry>, b: Seq<FileEntry>, i: int)
    requires
        0 <= i <= a.len(),
        i <= b.len(),
        forall|j: int| 0 <= j < i ==> a[j] == b[j],
    ensures
        forall|id: Seq<char>| fresh_id(a, i, id) ==> #[trigger] fresh_id(b, i, id),
{
    assert forall|id: Seq<char>| fresh_id(a, i, id) implies #[trigger] fresh_id(b, i, id) by {
        if id.len() == 36 && exists|j: int|
            0 <= j < i && #[trigger] a[j] is Entry && is_short_id(a[j]->Entry_0.id_spec()) {
            let j = choose|j: int|
                0 <= j < i && #[trigger] a[j] is Entry && is_short_id(a[j]->Entry_0.id_spec());
            assert(b[j] == a[j]);
        } else {
            assert forall|j: int| 0 <= j < i && #[trigger] b[j] is Entry implies b[j]->Entry_0.id_spec()
                != id by {
                assert(b[j] == a[j]);
            }
        }
    }
}

/// Version 1 to 2: every header set to version 2; every entry given an id
/// if it has none (eight hex digits, checked against the ids before it)
/// and the previous entry as its parent; a compaction's first kept
/// position turned into the id of the entry that was at that position.
fn migrate_v1_to_v2(entries: &mut Vec<FileEntry>)
    ensures
        migrated_v2(old(entries)@, final(entries)@),
{
    let ghost olds = entries@;
    let n = entries.len();
    let mut id_by_index: Vec<Option<String>> = Vec::new();
    let mut i: usize = 0;
    while i < n
        invariant
            n == entries@.len(),
            olds == entries@,
            i <= n,
            id_by_index@.len() == i,
            forall|k: int|
                0 <= k < i ==> opt_view(#[trigger] id_by_index@[k]) == id_at_index(olds[k]),
        decreases n - i,
    {
        let v = match &entries[i] {
            FileEntry::Entry(e) => Some(String::from_str(e.id())),
            FileEntry::Header(_) => None,
        };
        id_by_index.push(v);
        i = i + 1;
    }
    let mut taken: Vec<FileEntry> = Vec::new();
    std::mem::swap(&mut taken, entries);
    let mut rev = reversed(taken);
    let mut out: Vec<FileEntry> = Vec::new();
    let mut used: Vec<String> = Vec::new();
    let mut prev_id: Option<String> = None;
    let ghost mut pos: Seq<int> = Seq::empty();
    assert(olds.skip(0) =~= olds);
    while rev.len() > 0
        invariant
            n == olds.len(),
            out@.len() + rev@.len() == n,
            rev@ == olds.skip(out@.len() as int).reverse(),
            id_by_index@.len() == olds.len(),
            forall|k: int|
                0 <= k < olds.len() ==> opt_view(#[trigger] id_by_index@[k]) == id_at_index(olds[k]),
            forall|k: int| 0 <= k < out@.len() ==> #[trigger] entry_v2(olds, out@, k),
            opt_view(prev_id) == prev_entry_id(out@, out@.len() as int),
            forall|j: int|
                0 <= j < out@.len() && #[trigger] out@[j] is Entry ==> exists|u: int|
                    0 <= u < used@.len() && (#[trigger] used@[u])@ == out@[j]->Entry_0.id_spec(),
            pos.len() == used@.len(),
            forall|u: int|
                0 <= u < used@.len() ==> 0 <= #[trigger] pos[u] < out@.len() && out@[pos[u]] is Entry
                    && out@[pos[u]]->Entry_0.id_spec() == used@[u]@,
        decreases rev@.len(),
    {
        let ghost k: int = out@.len() as int;
        let ghost before = out@;
        let fe = rev.pop().unwrap();
        assert(olds.skip(k).reverse().last() == olds[k]);
        assert(rev@ =~= olds.skip(k + 1).reverse());
        match fe {
            FileEntry::Header(h) => {
                let mut h = h;
                h.version = Some(2);
                out.push(FileEntry::Header(h));
                proof {
                    lemma_prev_entry_id_prefix(before, out@, k as int);
                    assert forall|m: int| 0 <= m < out@.len() implies #[trigger] entry_v2(
                        olds,
                        out@,
                        m,
                    ) by {
                        if m < k {
                            assert(entry_v2(olds, before, m));
                            lemma_prev_entry_id_prefix(before, out@, m);
                            lemma_fresh_id_prefix(before, out@, m);
                        }
                    }
                    assert(prev_entry_id(out@, out@.len() as int) == prev_entry_id(out@, k as int));
                    assert forall|u: int| 0 <= u < used@.len() implies 0 <= #[trigger] pos[u] < out@.len()
                        && out@[pos[u]] is Entry && out@[pos[u]]->Entry_0.id_spec() == used@[u]@ by {
                        assert(out@[pos[u]] == before[pos[u]]);
                    }
                }
            },
            FileEntry::Entry(e) => {
                let ghost oe = e;
                let kept = kept_target_of(&id_by_index, &e, Ghost(olds));
                let id = if e.id().is_empty() {
                    generate_short_id(&used)
                } else {
                    String::from_str(e.id())
                };
                let ghost used_before = used@;
                let ghost pos_before = pos;
                used.push(String::from_str(id.as_str()));
                proof {
                    pos = pos.push(k);
                }
                let next_prev = Some(String::from_str(id.as_str()));
                let parent = prev_id;
                prev_id = next_prev;
                let ghost nb = EntryBase { id, parent_id: parent, timestamp: oe.base_spec().timestamp };
                let based = rebase(e, id, parent);
                let ne = match kept {
                    Some(t) => set_kept(based, t),
                    None => based,
                };
                out.push(FileEntry::Entry(ne));
                proof {
                    assert(ne.base_spec() == nb);
                    lemma_prev_entry_id_prefix(before, out@, k as int);
                    assert forall|m: int| 0 <= m < out@.len() implies #[trigger] entry_v2(
                        olds,
                        out@,
                        m,
                    ) by {
                        if m < k {
                            assert(entry_v2(olds, before, m));
                            lemma_prev_entry_id_prefix(before, out@, m);
                            lemma_fresh_id_prefix(before, out@, m);
                        } else {
                            if oe.id_spec().len() == 0 && nb.id@.len() == 36 {
                                assert(!is_short_id(nb.id@));
                                let u = choose|u: int|
                                    0 <= u < used_before.len() && is_short_id(
                                        (#[trigger] used_before[u])@,
                                    );
                                let j = pos_before[u];
                                assert(out@[j] == before[j]);
                                assert(fresh_id(out@, m, nb.id@));
                            }
                            if oe.id_spec().len() == 0 {
                                assert forall|j: int|
                                    0 <= j < m && #[trigger] out@[j] is Entry implies out@[j]->Entry_0.id_spec()
                                    != nb.id@ || nb.id@.len() == 36 by {
                                    assert(out@[j] == before[j]);
                                    let u = choose|u: int|
                                        0 <= u < used_before.len() && (#[trigger] used_before[u])@
                                            == before[j]->Entry_0.id_spec();
                                    assert(used_before[u] == used@[u]);
                                }
                            }
                        }
                    }
                    assert forall|j: int|
                        0 <= j < out@.len() && #[trigger] out@[j] is Entry implies exists|u: int|
                        0 <= u < used@.len() && (#[trigger] used@[u])@
                            == out@[j]->Entry_0.id_spec() by {
                        if j < k {
                            assert(out@[j] == before[j]);
                            let u = choose|u: int|
                                0 <= u < used_before.len() && (#[trigger] used_before[u])@
                                    == before[j]->Entry_0.id_spec();
                            assert(used@[u] == used_before[u]);
                        } else {
                            assert(used@[used@.len() - 1]@ == nb.id@);
                        }
                    }
                    assert forall|u: int| 0 <= u < used@.len() implies 0 <= #[trigger] pos[u] < out@.len()
                        && out@[pos[u]] is Entry && out@[pos[u]]->Entry_0.id_spec() == used@[u]@ by {
                        if u < used_before.len() {
                            assert(used@[u] == used_before[u]);
                            assert(pos[u] == pos_before[u]);
                            assert(out@[pos[u]] == before[pos[u]]);
                        } else {
                            assert(pos[u] == k);
                        }
                    }
                }
            },
        }
    }
    *entries = out;
}

// ---------------------------------------------------------------------------
// Version 2 to 3
// ---------------------------------------------------------------------------

/// Whether a message's role is `hookMessage`.
fn is_hook_message(message: &serde_json::Value) -> (r: bool)
    ensures
        r == (role_of(*message) == Some(hook_message_role())),
{
    let key = String::from_str("role");
    proof {
        reveal_strlit("role");
        reveal_strlit("hookMessage");
    }
    assert(key@ =~= role_key());
    match json_str_field(message, key.as_str()) {
        Some(role) => {
            let r = str_eq(role.as_str(), "hookMessage");
            assert("hookMessage"@ =~= hook_message_role());
            r
        },
        None => false,
    }
}

/// Version 2 to 3: every header set to version 3; the role of a message
/// whose role is `hookMessage` renamed `custom`.
fn migrate_v2_to_v3(entries: &mut Vec<FileEntry>)
    ensures
        migrated_v3(old(entries)@, final(entries)@),
{
    let ghost olds = entries@;
    let n = entries.len();
    let mut taken: Vec<FileEntry> = Vec::new();
    std::mem::swap(&mut taken, entries);
    let mut rev = reversed(taken);
    let mut out: Vec<FileEntry> = Vec::new();
    assert(olds.skip(0) =~= olds);
    while rev.len() > 0
        invariant
            n == olds.len(),
            out@.len() + rev@.len() == n,
            rev@ == olds.skip(out@.len() as int).reverse(),
            forall|k: int| 0 <= k < out@.len() ==> #[trigger] entry_v3(olds, out@, k),
        decreases rev@.len(),
    {
        let ghost k: int = out@.len() as int;
        let ghost before = out@;
        let fe = rev.pop().unwrap();
        assert(olds.skip(k).reverse().last() == olds[k]);
        assert(rev@ =~= olds.skip(k + 1).reverse());
        let ne = match fe {
            FileEntry::Header(h) => {
                let mut h = h;
                h.version = Some(CURRENT_SESSION_VERSION);
                FileEntry::Header(h)
            },
            FileEntry::Entry(SessionEntry::Message { base, message }) => {
                let mut message = message;
                if is_hook_message(&message) {
                    let key = String::from_str("role");
                    let role = String::from_str("custom");
                    proof {
                        reveal_strlit("role");
                        reveal_strlit("custom");
                    }
                    assert(key@ =~= role_key());
                    assert(role@ =~= custom_role());
                    json_set_str_field(&mut message, key.as_str(), role.as_str());
                }
                FileEntry::Entry(SessionEntry::Message { base, message })
            },
            other => other,
        };
        out.push(ne);
        assert forall|m: int| 0 <= m < out@.len() implies #[trigger] entry_v3(olds, out@, m) by {
            if m < k {
                assert(entry_v3(olds, before, m));
                assert(out@[m] == before[m]);
            }
        }
    }
    *entries = out;
}

// ---------------------------------------------------------------------------
// Migration
// ---------------------------------------------------------------------------

/// The version the file declares: that of its first header with one.
fn header_version(entries: &Vec<FileEntry>) -> (r: Option<u32>)
    ensures
        r == header_version_spec(entries@),
{
    let mut i: usize = 0;
    assert(entries@.skip(0) =~= entries@);
    while i < entries.len()
        invariant
            i <= entries@.len(),
            header_version_spec(entries@) == header_version_spec(entries@.skip(i as int)),
        decreases entries@.len() - i,
    {
        assert(entries@.skip(i as int).skip(1) =~= entries@.skip(i + 1));
        assert(entries@.skip(i as int)[0] == entries@[i as int]);
        match &entries[i] {
            FileEntry::Header(h) => {
                if let Some(v) = h.version {
                    return Some(v);
                }
            },
            FileEntry::Entry(_) => {},
        }
        i = i + 1;
    }
    None
}

/// Brings a file to the current version, in place: version 1 files (no
/// declared version) are migrated to 2, then files below 3 to 3. Says
/// whether a migration ran; a file at the current version is unchanged.
pub fn migrate_to_current_version(entries: &mut Vec<FileEntry>) -> (r: bool)
    ensures
        r == (file_version(old(entries)@) < CURRENT_SESSION_VERSION),
        !r ==> final(entries)@ == old(entries)@,
        file_version(old(entries)@) < 2 ==> exists|mid: Seq<FileEntry>|
            migrated_v2(old(entries)@, mid) && migrated_v3(mid, final(entries)@),
        file_version(old(entries)@) == 2 ==> migrated_v3(old(entries)@, final(entries)@),
{
    let version = match header_version(entries) {
        Some(v) => v,
        None => 1,
    };
    if version >= CURRENT_SESSION_VERSION {
        return false;
    }
    let ghost start = entries@;
    if version < 2 {
        migrate_v1_to_v2(entries);
    }
    let ghost mid = entries@;
    migrate_v2_to_v3(entries);
    assert(version < 2 ==> migrated_v2(start, mid));
    true
}

/// Whether a file holds a header.
pub open spec fn has_header(entries: Seq<FileEntry>) -> bool {
    exists|i: int| 0 <= i < entries.len() && #[trigger] entries[i] is Header
}

proof fn lemma_version_after(news: Seq<FileEntry>)
    requires
        has_header(news),
        forall|i: int|
            0 <= i < news.len() && #[trigger] news[i] is Header ==> news[i]->Header_0.version
                == Some(CURRENT_SESSION_VERSION),
    ensures
        header_version_spec(news) == Some(CURRENT_SESSION_VERSION),
    decreases news.len(),
{
    if !(news[0] is Header) {
        let i = choose|i: int| 0 <= i < news.len() && #[trigger] news[i] is Header;
        assert(news.skip(1)[i - 1] == news[i]);
        assert forall|j: int|
            0 <= j < news.skip(1).len() && #[trigger] news.skip(1)[j] is Header implies news.skip(
            1,
        )[j]->Header_0.version == Some(CURRENT_SESSION_VERSION) by {
            assert(news.skip(1)[j] == news[j + 1]);
        }
        lemma_version_after(news.skip(1));
    }
}

/// Migration reaches the current version: a file with a header, once
/// migrated from version 2 to 3, declares the current version, so
/// migrating it again does nothing.
pub proof fn lemma_migration_reaches_current(olds: Seq<FileEntry>, news: Seq<FileEntry>)
    requires
        has_header(olds),
        migrated_v3(olds, news),
    ensures
        file_version(news) == CURRENT_SESSION_VERSION,
{
    let i = choose|i: int| 0 <= i < olds.len() && #[trigger] olds[i] is Header;
    assert(entry_v3(olds, news, i));
    assert forall|j: int|
        0 <= j < news.len() && #[trigger] news[j] is Header implies news[j]->Header_0.version
            == Some(CURRENT_SESSION_VERSION) by {
        assert(entry_v3(olds, news, j));
    }
    lemma_version_after(news);
}

} // verus!
