//! Compaction-aware context reconstruction: the path from a leaf entry to
//! the root, and the entries of it that make up model context once the
//! latest compaction has replaced what came before it.

use vstd::prelude::*;
use crate::session::entry::SessionEntry;
use crate::text::str_eq;

verus! {

// ---------------------------------------------------------------------------
// The session path
// ---------------------------------------------------------------------------

/// The index an id resolves to: the last entry with that id (a later entry
/// with a repeated id replaces an earlier one).
pub open spec fn lookup_id(entries: Seq<SessionEntry>, id: Seq<char>) -> Option<int>
    decreases entries.len(),
{
    if entries.len() == 0 {
        None
    } else if entries.last().id_spec() == id {
        Some(entries.len() - 1)
    } else {
        lookup_id(entries.drop_last(), id)
    }
}

/// The index of an entry's parent, if it has one that resolves.
pub open spec fn parent_index(entries: Seq<SessionEntry>, i: int) -> Option<int> {
    match entries[i].parent_spec() {
        Some(p) => lookup_id(entries, p),
        None => None,
    }
}

/// The entries from `i` up through its ancestors, at most `fuel` of them.
pub open spec fn parent_chain(entries: Seq<SessionEntry>, i: int, fuel: nat) -> Seq<int>
    decreases fuel,
{
    if fuel == 0 {
        seq![]
    } else {
        match parent_index(entries, i) {
            Some(p) => seq![i] + parent_chain(entries, p, (fuel - 1) as nat),
            None => seq![i],
        }
    }
}

/// Whether the ancestors of `i` end in a root within `fuel` entries.
pub open spec fn chain_ends(entries: Seq<SessionEntry>, i: int, fuel: nat) -> bool
    decreases fuel,
{
    fuel > 0 && match parent_index(entries, i) {
        Some(p) => chain_ends(entries, p, (fuel - 1) as nat),
        None => true,
    }
}

/// The leaf a leaf id selects: the entry it resolves to; the last entry
/// for no id, an empty id or an id that does not resolve; none for no
/// entries.
pub open spec fn leaf_index(entries: Seq<SessionEntry>, leaf_id: Option<Seq<char>>) -> Option<int> {
    let last = if entries.len() == 0 {
        None
    } else {
        Some(entries.len() - 1)
    };
    match leaf_id {
        None => last,
        Some(id) => if id.len() == 0 {
            last
        } else {
            match lookup_id(entries, id) {
                Some(k) => Some(k),
                None => last,
            }
        },
    }
}

/// A leaf id as data.
pub open spec fn leaf_view(leaf_id: Option<&str>) -> Option<Seq<char>> {
    match leaf_id {
        Some(s) => Some(s@),
        None => None,
    }
}

/// Whether the leaf's ancestors end in a root (there is no parent cycle).
pub open spec fn path_ends(entries: Seq<SessionEntry>, leaf_id: Option<Seq<char>>) -> bool {
    match leaf_index(entries, leaf_id) {
        Some(i) => chain_ends(entries, i, entries.len()),
        None => true,
    }
}

/// The session path: the leaf and its ancestors, root first.
pub open spec fn session_path(entries: Seq<SessionEntry>, leaf_id: Option<Seq<char>>) -> Seq<
    SessionEntry,
> {
    match leaf_index(entries, leaf_id) {
        Some(i) => parent_chain(entries, i, entries.len()).reverse().map_values(
            |k: int| entries[k],
        ),
        None => seq![],
    }
}

/// Entry references as the entries they refer to.
pub open spec fn deref_all(v: Seq<&SessionEntry>) -> Seq<SessionEntry> {
    v.map_values(|e: &SessionEntry| *e)
}

proof fn lemma_lookup_in_range(entries: Seq<SessionEntry>, id: Seq<char>)
    ensures
        match lookup_id(entries, id) {
            Some(k) => 0 <= k < entries.len() && entries[k].id_spec() == id,
            None => true,
        },
    decreases entries.len(),
{
    if entries.len() > 0 && entries.last().id_spec() != id {
        lemma_lookup_in_range(entries.drop_last(), id);
    }
}

/// The index of the last entry with id `id`.
fn find_last_id(entries: &[SessionEntry], id: &str) -> (r: Option<usize>)
    ensures
        match r {
            Some(k) => lookup_id(entries@, id@) == Some(k as int),
            None => lookup_id(entries@, id@) is None,
        },
{
    let mut k: usize = entries.len();
    assert(entries@.take(k as int) =~= entries@);
    while k > 0
        invariant
            k <= entries@.len(),
            lookup_id(entries@, id@) == lookup_id(entries@.take(k as int), id@),
        decreases k,
    {
        let ghost t = entries@.take(k as int);
        assert(t.drop_last() =~= entries@.take(k - 1));
        if str_eq(entries[k - 1].id(), id) {
            return Some(k - 1);
        }
        k = k - 1;
    }
    None
}

/// The leaf a leaf id selects, as an index.
fn find_leaf(entries: &[SessionEntry], leaf_id: Option<&str>) -> (r: Option<usize>)
    ensures
        match r {
            Some(k) => leaf_index(entries@, leaf_view(leaf_id)) == Some(k as int) && k
                < entries@.len(),
            None => leaf_index(entries@, leaf_view(leaf_id)) is None,
        },
{
    proof {
        if let Some(id) = leaf_id {
            lemma_lookup_in_range(entries@, id@);
        }
    }
    let last: Option<usize> = if entries.len() == 0 {
        None
    } else {
        Some(entries.len() - 1)
    };
    match leaf_id {
        None => last,
        Some(id) => {
            if id.is_empty() {
                last
            } else {
                match find_last_id(entries, id) {
                    Some(k) => Some(k),
                    None => last,
                }
            }
        },
    }
}

/// The leaf-to-root path of entries, reversed to root first. `leaf_id`
/// selects the leaf: no id, an empty id, or an id that does not resolve
/// select the last entry. Ids resolve to the last entry that holds them.
/// The leaf's ancestors must end in a root (a parent cycle never ends).
pub fn build_session_path<'a>(entries: &'a [SessionEntry], leaf_id: Option<&str>) -> (r: Vec<
    &'a SessionEntry,
>)
    requires
        path_ends(entries@, leaf_view(leaf_id)),
    ensures
        deref_all(r@) == session_path(entries@, leaf_view(leaf_id)),
{
    let leaf = find_leaf(entries, leaf_id);
    let ghost n = entries@.len();
    let ghost full: Seq<int> = match leaf {
        Some(i) => parent_chain(entries@, i as int, n),
        None => seq![],
    };
    let mut chain: Vec<&'a SessionEntry> = Vec::new();
    let ghost mut done: Seq<int> = seq![];
    let ghost mut fuel: nat = n;
    let mut cur = leaf;
    while cur.is_some()
        invariant
            n == entries@.len(),
            deref_all(chain@) == done.map_values(|k: int| entries@[k]),
            match cur {
                Some(c) => c < n && chain_ends(entries@, c as int, fuel) && full == done
                    + parent_chain(entries@, c as int, fuel),
                None => full == done,
            },
        decreases fuel,
    {
        let c = match cur {
            Some(c) => c,
            None => 0,
        };
        let e: &'a SessionEntry = &entries[c];
        let ghost before = deref_all(chain@);
        chain.push(e);
        assert(deref_all(chain@) =~= before.push(entries@[c as int]));
        proof {
            assert(done.push(c as int).map_values(|k: int| entries@[k]) =~= done.map_values(
                |k: int| entries@[k],
            ).push(entries@[c as int]));
            done = done.push(c as int);
        }
        let next = match e.parent_id() {
            Some(pid) => {
                proof {
                    lemma_lookup_in_range(entries@, pid@);
                }
                find_last_id(entries, pid)
            },
            None => None,
        };
        proof {
            assert(full == done + match next {
                Some(p) => parent_chain(entries@, p as int, (fuel - 1) as nat),
                None => seq![],
            });
            fuel = (fuel - 1) as nat;
        }
        cur = next;
    }
    let mut out: Vec<&'a SessionEntry> = Vec::new();
    let mut k: usize = chain.len();
    let ghost cv = deref_all(chain@);
    while k > 0
        invariant
            k <= chain@.len(),
            cv == deref_all(chain@),
            deref_all(out@) == cv.reverse().take(cv.len() - k),
        decreases k,
    {
        let ghost before = deref_all(out@);
        out.push(chain[k - 1]);
        assert(cv.reverse().take(cv.len() - (k - 1)) =~= cv.reverse().take(cv.len() - k).push(
            cv[k - 1],
        ));
        assert(deref_all(out@) =~= before.push(cv[k - 1]));
        k = k - 1;
    }
    assert(cv.reverse().take(cv.len() as int) =~= cv.reverse());
    assert(full.reverse().map_values(|k: int| entries@[k]) =~= cv.reverse());
    out
}

// ---------------------------------------------------------------------------
// Context entries
// ---------------------------------------------------------------------------

/// The index of the last compaction on a path.
pub open spec fn last_compaction(p: Seq<SessionEntry>) -> Option<int>
    decreases p.len(),
{
    if p.len() == 0 {
        None
    } else if p.last() is Compaction {
        Some(p.len() - 1)
    } else {
        last_compaction(p.drop_last())
    }
}

/// The index of the first entry on a path with the given id.
pub open spec fn first_with_id(p: Seq<SessionEntry>, id: Seq<char>) -> Option<int>
    decreases p.len(),
{
    if p.len() == 0 {
        None
    } else {
        match first_with_id(p.drop_last(), id) {
            Some(k) => Some(k),
            None => if p.last().id_spec() == id {
                Some(p.len() - 1)
            } else {
                None
            },
        }
    }
}

/// A compaction's first kept entry id, as data.
pub open spec fn first_kept_of(e: SessionEntry) -> Option<Seq<char>> {
    match e {
        SessionEntry::Compaction { first_kept_entry_id, .. } => match first_kept_entry_id {
            Some(k) => Some(k@),
            None => None,
        },
        _ => None,
    }
}

/// The entries before a compaction that it keeps: from the first one with
/// the kept id on; none if no entry has it.
pub open spec fn kept_before(prefix: Seq<SessionEntry>, kept: Seq<char>) -> Seq<SessionEntry> {
    match first_with_id(prefix, kept) {
        Some(k) => prefix.skip(k),
        None => seq![],
    }
}

/// The context entries of a path: the path itself if it holds no
/// compaction; otherwise the latest compaction, then the entries before it
/// from its first kept entry on (none for a compaction without one), then
/// the entries after it. "Before" and "after" are taken at the first entry
/// that shares the compaction's id.
pub open spec fn context_spec(p: Seq<SessionEntry>) -> Seq<SessionEntry> {
    match last_compaction(p) {
        None => p,
        Some(j) => {
            let c = p[j];
            let ci = match first_with_id(p, c.id_spec()) {
                Some(k) => k,
                None => j,
            };
            let after = p.skip(ci + 1);
            match first_kept_of(c) {
                None => seq![c] + after,
                Some(kept) => seq![c] + kept_before(p.take(ci), kept) + after,
            }
        },
    }
}

proof fn lemma_last_compaction(p: Seq<SessionEntry>)
    ensures
        match last_compaction(p) {
            Some(j) => 0 <= j < p.len() && p[j] is Compaction,
            None => true,
        },
    decreases p.len(),
{
    if p.len() > 0 && !(p.last() is Compaction) {
        lemma_last_compaction(p.drop_last());
    }
}

proof fn lemma_first_with_id(p: Seq<SessionEntry>, id: Seq<char>, j: int)
    requires
        0 <= j < p.len(),
        p[j].id_spec() == id,
    ensures
        match first_with_id(p, id) {
            Some(k) => 0 <= k <= j && p[k].id_spec() == id,
            None => false,
        },
    decreases p.len(),
{
    if j < p.len() - 1 {
        lemma_first_with_id(p.drop_last(), id, j);
    } else {
        lemma_first_with_id_range(p.drop_last(), id);
    }
}

proof fn lemma_first_with_id_range(p: Seq<SessionEntry>, id: Seq<char>)
    ensures
        match first_with_id(p, id) {
            Some(k) => 0 <= k < p.len() && p[k].id_spec() == id,
            None => true,
        },
    decreases p.len(),
{
    if p.len() > 0 {
        lemma_first_with_id_range(p.drop_last(), id);
    }
}

proof fn lemma_last_compaction_is_last(p: Seq<SessionEntry>)
    ensures
        match last_compaction(p) {
            Some(j) => forall|m: int| j < m < p.len() ==> !(#[trigger] p[m] is Compaction),
            None => forall|m: int| 0 <= m < p.len() ==> !(#[trigger] p[m] is Compaction),
        },
    decreases p.len(),
{
    if p.len() > 0 {
        lemma_last_compaction_is_last(p.drop_last());
        let q = p.drop_last();
        lemma_last_compaction(q);
        if !(p.last() is Compaction) {
            match last_compaction(q) {
                Some(j) => {
                    assert forall|m: int| j < m < p.len() implies !(#[trigger] p[m] is Compaction) by {
                        if m < p.len() - 1 {
                            assert(p[m] == q[m]);
                        }
                    }
                },
                None => {
                    assert forall|m: int| 0 <= m < p.len() implies !(#[trigger] p[m] is Compaction) by {
                        if m < p.len() - 1 {
                            assert(p[m] == q[m]);
                        }
                    }
                },
            }
        }
    }
}

/// Where the kept entries before the compaction at `ci` start: the
/// position of its first kept entry, or `ci` (nothing kept) when it names
/// none or no entry before it has that id.
pub open spec fn kept_start(p: Seq<SessionEntry>, ci: int) -> int {
    match first_kept_of(p[ci]) {
        None => ci,
        Some(kept) => match first_with_id(p.take(ci), kept) {
            Some(k) => k,
            None => ci,
        },
    }
}

/// The context of a path whose ids are distinct: the path itself when it
/// holds no compaction; otherwise, with `ci` the position of its last
/// compaction `c`, `c`, then the entries from `c`'s first kept entry up to
/// `c`, then the entries after `c`. The first kept entry is the one before
/// `c` with the kept id; when `c` names none, or no entry before it has
/// that id, nothing before `c` is kept.
pub proof fn lemma_context_formula(p: Seq<SessionEntry>)
    requires
        forall|i: int, j: int| 0 <= i < j < p.len() ==> #[trigger] p[i].id_spec() != #[trigger] p[j].id_spec(),
    ensures
        last_compaction(p) is None ==> context_spec(p) == p,
        last_compaction(p) is None ==> forall|m: int| 0 <= m < p.len() ==> !(#[trigger] p[m] is Compaction),
        last_compaction(p) matches Some(ci) ==> {
            let k = kept_start(p, ci);
            &&& 0 <= ci < p.len() && p[ci] is Compaction
            &&& forall|m: int| ci < m < p.len() ==> !(#[trigger] p[m] is Compaction)
            &&& 0 <= k <= ci
            &&& context_spec(p) == seq![p[ci]] + p.subrange(k, ci) + p.skip(ci + 1)
            &&& match first_kept_of(p[ci]) {
                None => k == ci,
                Some(kept) => {
                    ||| k < ci && p[k].id_spec() == kept
                    ||| k == ci && forall|m: int| 0 <= m < ci ==> #[trigger] p[m].id_spec() != kept
                },
            }
        },
{
    lemma_last_compaction(p);
    lemma_last_compaction_is_last(p);
    match last_compaction(p) {
        None => {},
        Some(ci) => {
            let c = p[ci];
            lemma_first_with_id(p, c.id_spec(), ci);
            match first_with_id(p, c.id_spec()) {
                Some(f) => {
                    if f != ci {
                        assert(p[f].id_spec() != p[ci].id_spec());
                    }
                },
                None => {},
            }
            assert(first_with_id(p, c.id_spec()) == Some(ci));
            let pre = p.take(ci);
            let k = kept_start(p, ci);
            match first_kept_of(c) {
                None => {
                    assert(p.subrange(ci, ci) =~= Seq::<SessionEntry>::empty());
                    assert(seq![c] + p.subrange(ci, ci) + p.skip(ci + 1) =~= seq![c] + p.skip(ci + 1));
                },
                Some(kept) => {
                    lemma_first_with_id_range(pre, kept);
                    match first_with_id(pre, kept) {
                        Some(f) => {
                            assert(pre.skip(f) =~= p.subrange(f, ci));
                            assert(pre[f] == p[f]);
                        },
                        None => {
                            assert(p.subrange(ci, ci) =~= Seq::<SessionEntry>::empty());
                            assert forall|m: int| 0 <= m < ci implies #[trigger] p[m].id_spec() != kept by {
                                if p[m].id_spec() == kept {
                                    assert(pre[m] == p[m]);
                                    lemma_first_with_id(pre, kept, m);
                                }
                            }
                        },
                    }
                },
            }
        },
    }
}

/// Context entries come from the path: every entry of the context of a
/// path is an entry of that path (compaction only drops entries, it never
/// invents one).
pub proof fn lemma_context_on_path(p: Seq<SessionEntry>)
    ensures
        forall|k: int|
            0 <= k < context_spec(p).len() ==> p.contains(#[trigger] context_spec(p)[k]),
{
    let ctx = context_spec(p);
    lemma_last_compaction(p);
    match last_compaction(p) {
        None => {
            assert forall|k: int| 0 <= k < ctx.len() implies p.contains(#[trigger] ctx[k]) by {
                assert(p[k] == ctx[k]);
            }
        },
        Some(j) => {
            let c = p[j];
            lemma_first_with_id(p, c.id_spec(), j);
            let ci = match first_with_id(p, c.id_spec()) {
                Some(k) => k,
                None => j,
            };
            let after = p.skip(ci + 1);
            match first_kept_of(c) {
                None => {
                    assert(ctx =~= seq![c] + after);
                    assert forall|k: int| 0 <= k < ctx.len() implies p.contains(#[trigger] ctx[k]) by {
                        if k == 0 {
                            assert(p[j] == ctx[k]);
                        } else {
                            assert(p[ci + k] == ctx[k]);
                        }
                    }
                },
                Some(kept) => {
                    let pre = p.take(ci);
                    lemma_first_with_id_range(pre, kept);
                    let kb = kept_before(pre, kept);
                    let f: int = match first_with_id(pre, kept) {
                        Some(f) => f,
                        None => ci,
                    };
                    assert(kb.len() == ci - f);
                    assert(ctx =~= seq![c] + kb + after);
                    assert forall|k: int| 0 <= k < ctx.len() implies p.contains(#[trigger] ctx[k]) by {
                        if k == 0 {
                            assert(p[j] == ctx[k]);
                        } else if k < 1 + kb.len() {
                            assert(p[f + k - 1] == ctx[k]);
                        } else {
                            assert(p[ci + 1 + (k - 1 - kb.len())] == ctx[k]);
                        }
                    }
                },
            }
        },
    }
}

/// The index of the first entry of `v` with id `id`.
fn position_of_id(v: &Vec<&SessionEntry>, id: &str) -> (r: Option<usize>)
    ensures
        match r {
            Some(k) => first_with_id(deref_all(v@), id@) == Some(k as int),
            None => first_with_id(deref_all(v@), id@) is None,
        },
{
    let ghost p = deref_all(v@);
    let mut i: usize = 0;
    assert(p.take(0) =~= Seq::<SessionEntry>::empty());
    while i < v.len()
        invariant
            i <= v@.len(),
            p == deref_all(v@),
            first_with_id(p.take(i as int), id@) is None,
        decreases v@.len() - i,
    {
        assert(p.take(i + 1).drop_last() =~= p.take(i as int));
        if str_eq(v[i].id(), id) {
            proof {
                lemma_first_with_id_prefix(p, id@, i + 1);
            }
            return Some(i);
        }
        i = i + 1;
    }
    assert(p.take(v@.len() as int) =~= p);
    None
}

proof fn lemma_first_with_id_prefix(p: Seq<SessionEntry>, id: Seq<char>, n: int)
    requires
        0 < n <= p.len(),
        first_with_id(p.take(n - 1), id) is None,
        p[n - 1].id_spec() == id,
    ensures
        first_with_id(p, id) == Some(n - 1),
    decreases p.len(),
{
    assert(p.take(n).drop_last() =~= p.take(n - 1));
    if n < p.len() {
        assert(p.drop_last().take(n) =~= p.take(n));
        assert(p.drop_last().take(n - 1) =~= p.take(n - 1));
        lemma_first_with_id_prefix(p.drop_last(), id, n);
    } else {
        assert(p.take(n) =~= p);
    }
}

/// Appends `v[from..]` to `out`.
fn extend_from<'a>(out: &mut Vec<&'a SessionEntry>, v: &Vec<&'a SessionEntry>, from: usize)
    requires
        from <= v@.len(),
    ensures
        deref_all(final(out)@) == deref_all(old(out)@) + deref_all(v@).skip(from as int),
{
    let ghost start = deref_all(out@);
    let ghost p = deref_all(v@);
    let mut i: usize = from;
    while i < v.len()
        invariant
            from <= i <= v@.len(),
            p == deref_all(v@),
            deref_all(out@) == start + p.subrange(from as int, i as int),
        decreases v@.len() - i,
    {
        let ghost before = deref_all(out@);
        out.push(v[i]);
        assert(deref_all(out@) =~= before.push(p[i as int]));
        assert(p.subrange(from as int, i + 1) =~= p.subrange(from as int, i as int).push(
            p[i as int],
        ));
        i = i + 1;
    }
    assert(p.subrange(from as int, v@.len() as int) =~= p.skip(from as int));
}

/// The index of the last compaction in `v`.
fn find_last_compaction(v: &Vec<&SessionEntry>) -> (r: Option<usize>)
    ensures
        match r {
            Some(j) => last_compaction(deref_all(v@)) == Some(j as int),
            None => last_compaction(deref_all(v@)) is None,
        },
{
    let ghost p = deref_all(v@);
    let mut j: usize = v.len();
    assert(p.take(j as int) =~= p);
    while j > 0
        invariant
            j <= v@.len(),
            p == deref_all(v@),
            last_compaction(p) == last_compaction(p.take(j as int)),
        decreases j,
    {
        assert(p.take(j as int).drop_last() =~= p.take(j - 1));
        if matches!(v[j - 1], SessionEntry::Compaction { .. }) {
            return Some(j - 1);
        }
        j = j - 1;
    }
    None
}

/// The compaction-aware context entries: the session path, with everything
/// before the latest compaction replaced by the compaction and the entries
/// from its first kept entry on.
pub fn build_context_entries<'a>(entries: &'a [SessionEntry], leaf_id: Option<&str>) -> (r: Vec<
    &'a SessionEntry,
>)
    requires
        path_ends(entries@, leaf_view(leaf_id)),
    ensures
        deref_all(r@) == context_spec(session_path(entries@, leaf_view(leaf_id))),
{
    let path = build_session_path(entries, leaf_id);
    let ghost p = deref_all(path@);
    let j = match find_last_compaction(&path) {
        Some(j) => j,
        None => {
            return path;
        },
    };
    proof {
        lemma_last_compaction(p);
    }
    assert(last_compaction(p) == Some(j as int));
    let compaction: &'a SessionEntry = path[j];
    proof {
        lemma_first_with_id(p, compaction.id_spec(), j as int);
    }
    let ci = match position_of_id(&path, compaction.id()) {
        Some(k) => k,
        None => j,
    };
    let mut context: Vec<&'a SessionEntry> = Vec::new();
    context.push(compaction);
    assert(deref_all(context@) =~= seq![p[j as int]]);
    let kept: Option<&str> = match compaction {
        SessionEntry::Compaction { first_kept_entry_id, .. } => match first_kept_entry_id {
            Some(k) => Some(k.as_str()),
            None => None,
        },
        _ => None,
    };
    match kept {
        None => {},
        Some(kept) => {
            let mut before: Vec<&'a SessionEntry> = Vec::new();
            let mut i: usize = 0;
            while i < ci
                invariant
                    i <= ci < path@.len(),
                    p == deref_all(path@),
                    deref_all(before@) == p.take(i as int),
                decreases ci - i,
            {
                let ghost b = deref_all(before@);
                before.push(path[i]);
                assert(deref_all(before@) =~= b.push(p[i as int]));
                assert(p.take(i + 1) =~= p.take(i as int).push(p[i as int]));
                i = i + 1;
            }
            match position_of_id(&before, kept) {
                Some(k) => {
                    proof {
                        lemma_first_with_id_range(deref_all(before@), kept@);
                    }
                    extend_from(&mut context, &before, k);
                },
                None => {},
            }
        },
    }
    extend_from(&mut context, &path, ci + 1);
    context
}

/// What an entry contributes to model context.
#[derive(Debug, Clone, Copy, PartialEq, Eq, Structural)]
pub enum ContextContribution {
    /// A `message` entry, projected as it is.
    Message,
    /// A `custom_message` entry, projected as a user message.
    CustomMessage,
    /// A `branch_summary` entry with a non-empty summary.
    BranchSummary,
    /// A `compaction` entry, projected as a compaction summary.
    Compaction,
}

/// The context contribution of an entry, as data.
pub open spec fn contribution_spec(e: SessionEntry) -> Option<ContextContribution> {
    match e {
        SessionEntry::Message { .. } => Some(ContextContribution::Message),
        SessionEntry::CustomMessage { .. } => Some(ContextContribution::CustomMessage),
        SessionEntry::BranchSummary { summary, .. } => if summary@.len() > 0 {
            Some(ContextContribution::BranchSummary)
        } else {
            None
        },
        SessionEntry::Compaction { .. } => Some(ContextContribution::Compaction),
        _ => None,
    }
}

/// Every compaction contributes to model context, as a compaction summary;
/// so does every message and custom message, while labels, session info,
/// model and thinking-level changes and custom entries never do.
pub proof fn lemma_compaction_contributes(e: SessionEntry)
    ensures
        e is Compaction ==> contribution_spec(e) == Some(ContextContribution::Compaction),
        e is Message ==> contribution_spec(e) == Some(ContextContribution::Message),
        e is CustomMessage ==> contribution_spec(e) == Some(ContextContribution::CustomMessage),
        (e is Label || e is SessionInfo || e is ModelChange || e is ThinkingLevelChange || e is Custom)
            ==> contribution_spec(e) is None,
{
}

/// Classifies an entry's context contribution: messages, custom messages,
/// compactions and branch summaries with a non-empty summary contribute;
/// thinking level and model changes, custom entries, labels and session
/// info do not.
pub fn session_entry_to_context_messages(entry: &SessionEntry) -> (r: Option<ContextContribution>)
    ensures
        r == contribution_spec(*entry),
{
    match entry {
        SessionEntry::Message { .. } => Some(ContextContribution::Message),
        SessionEntry::CustomMessage { .. } => Some(ContextContribution::CustomMessage),
        SessionEntry::BranchSummary { summary, .. } => {
            if summary.as_str().is_empty() {
                None
            } else {
                Some(ContextContribution::BranchSummary)
            }
        },
        SessionEntry::Compaction { .. } => Some(ContextContribution::Compaction),
        _ => None,
    }
}

} // verus!
