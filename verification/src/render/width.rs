//! Grapheme-cluster-aware terminal width and wrapping.
//!
//! Width is computed per grapheme cluster (emoji = 2, CJK = 2). The
//! `GraphemeWidth` trait is the seam: an implementation segments text into
//! clusters with their widths; measuring and wrapping are built on that.
//! `RunefixWidth` segments with `runefix-core`.

use vstd::prelude::*;
use vstd::string::StringExecFns;
use crate::text::{chars_of, push_char, split_chars, split_on, string_from_chars};

verus! {

/// The characters of a sequence of strings, one after another.
pub open spec fn concat_all(parts: Seq<Seq<char>>) -> Seq<char>
    decreases parts.len(),
{
    if parts.len() == 0 {
        seq![]
    } else {
        concat_all(parts.drop_last()) + parts.last()
    }
}

/// The clusters of a segmentation, without their widths.
pub open spec fn clusters(gs: Seq<(Seq<char>, u16)>) -> Seq<Seq<char>> {
    gs.map_values(|g: (Seq<char>, u16)| g.0)
}

/// The total width of a segmentation.
pub open spec fn sum_widths(gs: Seq<(Seq<char>, u16)>) -> int
    decreases gs.len(),
{
    if gs.len() == 0 {
        0
    } else {
        sum_widths(gs.drop_last()) + gs.last().1
    }
}

/// Greedy line filling, one cluster at a time: the finished lines, the
/// line being filled, and its width. A cluster that would overflow a
/// non-empty line starts the next line.
pub open spec fn wrap_fold(gs: Seq<(Seq<char>, u16)>, max_width: int) -> (Seq<Seq<char>>, Seq<char>, int)
    decreases gs.len(),
{
    if gs.len() == 0 {
        (seq![], seq![], 0)
    } else {
        let st = wrap_fold(gs.drop_last(), max_width);
        let g = gs.last();
        if st.2 + g.1 > max_width && st.1.len() > 0 {
            (st.0.push(st.1), g.0, g.1 as int)
        } else {
            (st.0, st.1 + g.0, st.2 + g.1)
        }
    }
}

/// The lines of a wrapped paragraph: the finished lines, then the last line
/// if it is non-empty or no line was finished.
pub open spec fn wrap_paragraph_spec(gs: Seq<(Seq<char>, u16)>, max_width: int) -> Seq<Seq<char>> {
    let st = wrap_fold(gs, max_width);
    if st.1.len() > 0 || st.0.len() == 0 {
        st.0.push(st.1)
    } else {
        st.0
    }
}

/// `s` with every tab replaced by three spaces.
pub open spec fn expand_tabs(s: Seq<char>) -> Seq<char>
    decreases s.len(),
{
    if s.len() == 0 {
        seq![]
    } else if s.last() == '\t' {
        expand_tabs(s.drop_last()) + seq![' ', ' ', ' ']
    } else {
        expand_tabs(s.drop_last()).push(s.last())
    }
}

/// A trait for grapheme-cluster-aware terminal width. Implementations
/// segment text into clusters with their display widths; measuring and
/// wrapping are defined on that segmentation.
pub trait GraphemeWidth {
    /// The segmentation of `text` into clusters with their widths.
    spec fn spec_graphemes(&self, text: Seq<char>) -> Seq<(Seq<char>, u16)>;

    /// Segments text into grapheme clusters with their display widths.
    fn grapheme_widths<'a>(&self, text: &'a str) -> (r: Vec<(&'a str, u16)>)
        ensures
            r@.map_values(|p: (&'a str, u16)| (p.0@, p.1)) == self.spec_graphemes(text@),
            forall|i: int| 0 <= i < r@.len() ==> (#[trigger] r@[i]).0@.len() > 0,
    ;

    /// Total display width of a string: the sum of its cluster widths.
    fn display_width(&self, text: &str) -> (r: u16)
        requires
            sum_widths(self.spec_graphemes(text@)) <= u16::MAX,
        ensures
            r == sum_widths(self.spec_graphemes(text@)),
    {
        let gs = self.grapheme_widths(text);
        let ghost views = gs@.map_values(|p: (&str, u16)| (p.0@, p.1));
        let mut total: u16 = 0;
        let mut i: usize = 0;
        while i < gs.len()
            invariant
                i <= gs.len(),
                views == gs@.map_values(|p: (&str, u16)| (p.0@, p.1)),
                views == self.spec_graphemes(text@),
                sum_widths(views) <= u16::MAX,
                total == sum_widths(views.take(i as int)),
            decreases gs.len() - i,
        {
            proof {
                assert(views.take(i + 1).drop_last() =~= views.take(i as int));
                lemma_sum_widths_prefix(views, i + 1);
            }
            total = total + gs[i].1;
            i = i + 1;
        }
        assert(views.take(gs.len() as int) =~= views);
        total
    }

    /// Wraps text into lines of at most `max_width` columns, keeping
    /// clusters whole. Tabs become three spaces; each `\n` starts a new
    /// paragraph; an empty paragraph is an empty line. A width of zero
    /// gives no lines.
    fn wrap_text(&self, text: &str, max_width: u16) -> (r: Vec<String>)
        ensures
            r@.map_values(|s: String| s@) == wrap_text_spec(
                |p: Seq<char>| self.spec_graphemes(p),
                text@,
                max_width as int,
            ),
    {
        if max_width == 0 {
            return Vec::new();
        }
        let expanded = expand_tabs_exec(text);
        let paragraphs = split_chars(&expanded, '\n');
        let ghost f = |p: Seq<char>| self.spec_graphemes(p);
        let mut result: Vec<String> = Vec::new();
        let mut i: usize = 0;
        while i < paragraphs.len()
            invariant
                i <= paragraphs.len(),
                max_width > 0,
                f == |p: Seq<char>| self.spec_graphemes(p),
                paragraphs@.map_values(|c: Vec<char>| c@) == split_on(expand_tabs(text@), '\n'),
                result@.map_values(|s: String| s@) == wrap_paragraphs(
                    f,
                    split_on(expand_tabs(text@), '\n').take(i as int),
                    max_width as int,
                ),
            decreases paragraphs.len() - i,
        {
            let ghost pieces = split_on(expand_tabs(text@), '\n');
            let ghost before = result@.map_values(|s: String| s@);
            assert(paragraphs@[i as int]@ == pieces[i as int]);
            assert(pieces.take(i + 1).drop_last() =~= pieces.take(i as int));
            assert(pieces.take(i + 1).last() == pieces[i as int]);
            if paragraphs[i].len() == 0 {
                result.push(String::new());
                assert(result@.map_values(|s: String| s@) =~= before + seq![Seq::<char>::empty()]);
            } else {
                let para = string_from_chars(paragraphs[i].as_slice());
                let lines = self.wrap_paragraph(para.as_str(), max_width as usize);
                let mut k: usize = 0;
                while k < lines.len()
                    invariant
                        k <= lines.len(),
                        result@.map_values(|s: String| s@) == before + lines@.map_values(
                            |s: String| s@,
                        ).take(k as int),
                    decreases lines.len() - k,
                {
                    let ghost b2 = result@.map_values(|s: String| s@);
                    let ghost lv = lines@.map_values(|s: String| s@);
                    let line = lines[k].clone();
                    assert(line@ == lv[k as int]);
                    result.push(line);
                    assert(result@.map_values(|s: String| s@) =~= b2.push(lv[k as int]));
                    assert(lv.take(k + 1) =~= lv.take(k as int).push(lv[k as int]));
                    assert(result@.map_values(|s: String| s@) =~= before + lv.take(k + 1));
                    k = k + 1;
                }
                assert(lines@.map_values(|s: String| s@).take(lines.len() as int) =~= lines@.map_values(
                    |s: String| s@,
                ));
            }
            i = i + 1;
        }
        proof {
            let pieces = split_on(expand_tabs(text@), '\n');
            assert(pieces.take(paragraphs.len() as int) =~= pieces);
        }
        result
    }

    /// Wraps one paragraph (no newlines) by display width: clusters fill a
    /// line until the next would overflow a non-empty line.
    fn wrap_paragraph(&self, text: &str, max_width: usize) -> (r: Vec<String>)
        ensures
            r@.map_values(|s: String| s@) == wrap_paragraph_spec(
                self.spec_graphemes(text@),
                max_width as int,
            ),
    {
        let gs = self.grapheme_widths(text);
        let ghost views = gs@.map_values(|p: (&str, u16)| (p.0@, p.1));
        let mut result: Vec<String> = Vec::new();
        let mut current_line = String::new();
        let mut current_width: usize = 0;
        let mut i: usize = 0;
        while i < gs.len()
            invariant
                i <= gs.len(),
                views == gs@.map_values(|p: (&str, u16)| (p.0@, p.1)),
                views == self.spec_graphemes(text@),
                (result@.map_values(|s: String| s@), current_line@, current_width as int)
                    == wrap_fold(views.take(i as int), max_width as int),
                forall|j: int| 0 <= j < views.len() ==> (#[trigger] views[j]).0.len() > 0,
                current_line@.len() > 0 ==> current_width <= max_width || current_width <= u16::MAX,
                current_line@.len() == 0 ==> current_width == 0,
            decreases gs.len() - i,
        {
            let (grapheme, width) = gs[i];
            let w = width as usize;
            proof {
                assert(views.take(i + 1).drop_last() =~= views.take(i as int));
                assert(views.take(i + 1).last() == (grapheme@, width));
            }
            let overflow = !current_line.as_str().is_empty() && (current_width > max_width || w > max_width
                - current_width);
            if overflow {
                let ghost before = result@.map_values(|s: String| s@);
                result.push(current_line.clone());
                assert(result@.map_values(|s: String| s@) =~= before.push(current_line@));
                current_line = String::new();
                current_line.append(grapheme);
                current_width = w;
                assert(current_line@ =~= grapheme@);
            } else {
                current_line.append(grapheme);
                current_width = current_width + w;
            }
            i = i + 1;
        }
        assert(views.take(gs.len() as int) =~= views);
        if !current_line.as_str().is_empty() || result.len() == 0 {
            let ghost before = result@.map_values(|s: String| s@);
            result.push(current_line);
            assert(result@.map_values(|s: String| s@) =~= before.push(current_line@));
        }
        result
    }
}

/// The lines of wrapped paragraphs, one paragraph after another: an empty
/// paragraph is one empty line; the others are wrapped by their clusters.
pub open spec fn wrap_paragraphs(
    graphemes: spec_fn(Seq<char>) -> Seq<(Seq<char>, u16)>,
    paragraphs: Seq<Seq<char>>,
    max_width: int,
) -> Seq<Seq<char>>
    decreases paragraphs.len(),
{
    if paragraphs.len() == 0 {
        seq![]
    } else {
        let p = paragraphs.last();
        wrap_paragraphs(graphemes, paragraphs.drop_last(), max_width) + if p.len() == 0 {
            seq![Seq::<char>::empty()]
        } else {
            wrap_paragraph_spec(graphemes(p), max_width)
        }
    }
}

/// The lines of `text` wrapped at `max_width`, given a segmentation.
pub open spec fn wrap_text_spec(
    graphemes: spec_fn(Seq<char>) -> Seq<(Seq<char>, u16)>,
    text: Seq<char>,
    max_width: int,
) -> Seq<Seq<char>> {
    if max_width == 0 {
        seq![]
    } else {
        wrap_paragraphs(graphemes, split_on(expand_tabs(text), '\n'), max_width)
    }
}

proof fn lemma_sum_widths_prefix(gs: Seq<(Seq<char>, u16)>, i: int)
    requires
        0 < i <= gs.len(),
        sum_widths(gs) <= u16::MAX,
    ensures
        sum_widths(gs.take(i)) == sum_widths(gs.take(i - 1)) + gs[i - 1].1,
        sum_widths(gs.take(i)) <= sum_widths(gs),
    decreases gs.len(),
{
    assert(gs.take(i).drop_last() =~= gs.take(i - 1));
    lemma_sum_widths_prefix_le(gs, i);
}

proof fn lemma_sum_widths_prefix_le(gs: Seq<(Seq<char>, u16)>, i: int)
    requires
        0 <= i <= gs.len(),
    ensures
        sum_widths(gs.take(i)) <= sum_widths(gs),
    decreases gs.len() - i,
{
    if i < gs.len() {
        lemma_sum_widths_prefix_le(gs, i + 1);
        assert(gs.take(i + 1).drop_last() =~= gs.take(i));
    } else {
        assert(gs.take(i) =~= gs);
    }
}

proof fn lemma_concat_push(parts: Seq<Seq<char>>, p: Seq<char>)
    ensures
        concat_all(parts.push(p)) == concat_all(parts) + p,
{
    assert(parts.push(p).drop_last() =~= parts);
}

proof fn lemma_wrap_fold_content(gs: Seq<(Seq<char>, u16)>, max_width: int)
    ensures
        concat_all(wrap_fold(gs, max_width).0) + wrap_fold(gs, max_width).1 == concat_all(
            clusters(gs),
        ),
    decreases gs.len(),
{
    if gs.len() > 0 {
        lemma_wrap_fold_content(gs.drop_last(), max_width);
        let st = wrap_fold(gs.drop_last(), max_width);
        let g = gs.last();
        assert(clusters(gs).drop_last() =~= clusters(gs.drop_last()));
        assert(clusters(gs).last() == g.0);
        lemma_concat_push(st.0, st.1);
        assert(concat_all(st.0) + (st.1 + g.0) =~= concat_all(st.0) + st.1 + g.0);
        assert(concat_all(st.0.push(st.1)) + g.0 =~= concat_all(st.0) + st.1 + g.0);
    } else {
        assert(concat_all(Seq::<Seq<char>>::empty()) + Seq::<char>::empty() =~= Seq::<char>::empty());
    }
}

/// Wrapping a paragraph keeps its clusters: the wrapped lines of a
/// paragraph, joined, are its clusters joined; no character is lost,
/// added or reordered.
pub proof fn lemma_wrap_preserves_content(gs: Seq<(Seq<char>, u16)>, max_width: int)
    ensures
        concat_all(wrap_paragraph_spec(gs, max_width)) == concat_all(clusters(gs)),
{
    lemma_wrap_fold_content(gs, max_width);
    let st = wrap_fold(gs, max_width);
    if st.1.len() > 0 || st.0.len() == 0 {
        lemma_concat_push(st.0, st.1);
    } else {
        assert(st.1 =~= Seq::<char>::empty());
        assert(concat_all(st.0) + st.1 =~= concat_all(st.0));
    }
}

/// Where the greedy fill starts its lines: the index of each finished
/// line's first cluster, then that of the line being filled.
spec fn fill_starts(gs: Seq<(Seq<char>, u16)>, max_width: int) -> Seq<int>
    decreases gs.len(),
{
    if gs.len() == 0 {
        seq![0]
    } else {
        let st = wrap_fold(gs.drop_last(), max_width);
        let g = gs.last();
        if st.2 + g.1 > max_width && st.1.len() > 0 {
            fill_starts(gs.drop_last(), max_width).push(gs.len() - 1)
        } else {
            fill_starts(gs.drop_last(), max_width)
        }
    }
}

/// The clusters `a..b` run together.
pub open spec fn run(gs: Seq<(Seq<char>, u16)>, a: int, b: int) -> Seq<char> {
    concat_all(clusters(gs.subrange(a, b)))
}

/// Whether clusters `a..b` fit in the width, or are a single cluster.
pub open spec fn fits(gs: Seq<(Seq<char>, u16)>, a: int, b: int, max_width: int) -> bool {
    sum_widths(gs.subrange(a, b)) <= max_width || b - a == 1
}

/// What the greedy fill keeps true: each finished line is the clusters
/// between two starts, and fits; the line being filled is the clusters
/// from the last start, with its width, and fits.
spec fn fill_inv(gs: Seq<(Seq<char>, u16)>, max_width: int) -> bool {
    let st = wrap_fold(gs, max_width);
    let s = fill_starts(gs, max_width);
    let n = gs.len() as int;
    &&& s.len() == st.0.len() + 1
    &&& s[0] == 0
    &&& forall|i: int, j: int| 0 <= i < j < s.len() ==> s[i] < s[j]
    &&& s.last() <= n
    &&& n > 0 ==> s.last() < n
    &&& forall|i: int|
        0 <= i < st.0.len() ==> st.0[i] == run(gs, s[i], s[i + 1]) && fits(gs, s[i], s[i + 1], max_width)
    &&& st.1 == run(gs, s.last(), n)
    &&& st.2 == sum_widths(gs.subrange(s.last(), n))
    &&& n > 0 ==> st.1.len() > 0
    &&& fits(gs, s.last(), n, max_width) || n == s.last()
}

proof fn lemma_run_push(gs: Seq<(Seq<char>, u16)>, a: int, b: int)
    requires
        0 <= a <= b < gs.len(),
    ensures
        run(gs, a, b + 1) == run(gs, a, b) + gs[b].0,
        sum_widths(gs.subrange(a, b + 1)) == sum_widths(gs.subrange(a, b)) + gs[b].1,
{
    assert(gs.subrange(a, b + 1).drop_last() =~= gs.subrange(a, b));
    assert(clusters(gs.subrange(a, b + 1)) =~= clusters(gs.subrange(a, b)).push(gs[b].0));
    lemma_concat_push(clusters(gs.subrange(a, b)), gs[b].0);
}

proof fn lemma_run_prefix(gs: Seq<(Seq<char>, u16)>, a: int, b: int)
    requires
        0 <= a <= b < gs.len(),
    ensures
        run(gs.drop_last(), a, b) == run(gs, a, b),
        gs.drop_last().subrange(a, b) == gs.subrange(a, b),
{
    assert(gs.drop_last().subrange(a, b) =~= gs.subrange(a, b));
}

proof fn lemma_fill_inv(gs: Seq<(Seq<char>, u16)>, max_width: int)
    requires
        forall|i: int| 0 <= i < gs.len() ==> (#[trigger] gs[i]).0.len() > 0,
    ensures
        fill_inv(gs, max_width),
    decreases gs.len(),
{
    let n = gs.len() as int;
    if n == 0 {
        assert(clusters(gs.subrange(0, 0)) =~= Seq::<Seq<char>>::empty());
        assert(gs.subrange(0, 0) =~= Seq::<(Seq<char>, u16)>::empty());
    } else {
        let d = gs.drop_last();
        assert forall|i: int| 0 <= i < d.len() implies (#[trigger] d[i]).0.len() > 0 by {
            assert(d[i] == gs[i]);
        }
        lemma_fill_inv(d, max_width);
        let st = wrap_fold(d, max_width);
        let s = fill_starts(d, max_width);
        let g = gs.last();
        assert(g == gs[n - 1]);
        let m = n - 1;
        assert forall|i: int| 0 <= i < st.0.len() implies st.0[i] == run(gs, s[i], s[i + 1]) && fits(
            gs,
            s[i],
            s[i + 1],
            max_width,
        ) by {
            lemma_run_prefix(gs, s[i], s[i + 1]);
        }
        lemma_run_prefix(gs, s.last(), m);
        if st.2 + g.1 > max_width && st.1.len() > 0 {
            let s2 = s.push(m);
            assert(fill_starts(gs, max_width) == s2);
            assert(s.last() < m);
            lemma_run_push(gs, m, m);
            assert(gs.subrange(m, m) =~= Seq::<(Seq<char>, u16)>::empty());
            assert(clusters(gs.subrange(m, m)) =~= Seq::<Seq<char>>::empty());
            assert(run(gs, m, n) == g.0);
            assert(sum_widths(gs.subrange(m, n)) == g.1);
            assert(st.1 == run(gs, s.last(), m));
            assert(fits(gs, s.last(), m, max_width));
            let lines = st.0.push(st.1);
            assert forall|i: int| 0 <= i < lines.len() implies lines[i] == run(gs, s2[i], s2[i + 1])
                && fits(gs, s2[i], s2[i + 1], max_width) by {
                if i < st.0.len() {
                } else {
                    assert(s2[i] == s.last());
                    assert(s2[i + 1] == m);
                }
            }
        } else {
            assert(fill_starts(gs, max_width) == s);
            lemma_run_push(gs, s.last(), m);
            if st.1.len() == 0 {
                assert(m == 0);
                assert(s.last() == 0);
            }
        }
    }
}

/// Whether `br` splits a wrapped paragraph's clusters into its lines:
/// `br` runs from 0 to the number of clusters without going back, line `i`
/// is the clusters `br[i]..br[i + 1]`, and each such run fits in the width
/// or is a single cluster.
pub open spec fn breaks_fit(gs: Seq<(Seq<char>, u16)>, max_width: int, br: Seq<int>) -> bool {
    let lines = wrap_paragraph_spec(gs, max_width);
    &&& br.len() == lines.len() + 1
    &&& br[0] == 0
    &&& br.last() == gs.len()
    &&& forall|i: int, j: int| 0 <= i < j < br.len() ==> br[i] <= br[j]
    &&& forall|i: int|
        0 <= i < lines.len() ==> lines[i] == run(gs, br[i], br[i + 1]) && fits(
            gs,
            br[i],
            br[i + 1],
            max_width,
        )
}

/// Wrapping fills lines greedily and never splits a cluster: the lines of
/// a wrapped paragraph are consecutive runs of its clusters, in order and
/// covering them all, and each run fits in the width or is a single
/// cluster (one wider than the width gets a line of its own).
pub proof fn lemma_wrap_lines_fit(gs: Seq<(Seq<char>, u16)>, max_width: int)
    requires
        max_width >= 0,
        forall|i: int| 0 <= i < gs.len() ==> (#[trigger] gs[i]).0.len() > 0,
    ensures
        exists|br: Seq<int>| #[trigger] breaks_fit(gs, max_width, br),
{
    lemma_fill_inv(gs, max_width);
    let st = wrap_fold(gs, max_width);
    let s = fill_starts(gs, max_width);
    let n = gs.len() as int;
    let lines = wrap_paragraph_spec(gs, max_width);
    let br = s.push(n);
    if st.1.len() > 0 || st.0.len() == 0 {
        if n == 0 {
            assert(gs.subrange(0, 0) =~= Seq::<(Seq<char>, u16)>::empty());
        }
        assert forall|i: int| 0 <= i < lines.len() implies lines[i] == run(gs, br[i], br[i + 1])
            && fits(gs, br[i], br[i + 1], max_width) by {
            if i < st.0.len() {
                assert(br[i] == s[i] && br[i + 1] == s[i + 1]);
            } else {
                assert(br[i] == s.last());
            }
        }
        assert(forall|i: int, j: int| 0 <= i < j < br.len() ==> br[i] <= br[j]);
        assert(breaks_fit(gs, max_width, br));
    } else {
        assert(n == 0);
    }
}

/// `s` with every tab replaced by three spaces, as characters.
fn expand_tabs_exec(s: &str) -> (r: Vec<char>)
    ensures
        r@ == expand_tabs(s@),
{
    let cs = chars_of(s);
    let mut out: Vec<char> = Vec::new();
    let mut i: usize = 0;
    while i < cs.len()
        invariant
            cs@ == s@,
            i <= cs.len(),
            out@ == expand_tabs(cs@.take(i as int)),
        decreases cs.len() - i,
    {
        assert(cs@.take(i + 1).drop_last() =~= cs@.take(i as int));
        if cs[i] == '\t' {
            out.push(' ');
            out.push(' ');
            out.push(' ');
            assert(out@ =~= expand_tabs(cs@.take(i + 1)));
        } else {
            out.push(cs[i]);
        }
        i = i + 1;
    }
    assert(cs@.take(cs.len() as int) =~= cs@);
    out
}

/// `s` with every `c` taken out.
pub open spec fn drop_char(s: Seq<char>, c: char) -> Seq<char>
    decreases s.len(),
{
    if s.len() == 0 {
        seq![]
    } else if s.last() == c {
        drop_char(s.drop_last(), c)
    } else {
        drop_char(s.drop_last(), c).push(s.last())
    }
}

proof fn lemma_concat_append(a: Seq<Seq<char>>, b: Seq<Seq<char>>)
    ensures
        concat_all(a + b) == concat_all(a) + concat_all(b),
    decreases b.len(),
{
    if b.len() == 0 {
        assert(a + b =~= a);
        assert(concat_all(a) + concat_all(b) =~= concat_all(a));
    } else {
        lemma_concat_append(a, b.drop_last());
        assert((a + b).drop_last() =~= a + b.drop_last());
        assert((a + b).last() == b.last());
        assert(concat_all(a) + concat_all(b.drop_last()) + b.last() =~= concat_all(a) + (concat_all(
            b.drop_last(),
        ) + b.last()));
    }
}

proof fn lemma_split_concat(s: Seq<char>, sep: char)
    ensures
        concat_all(split_on(s, sep)) == drop_char(s, sep),
        split_on(s, sep).len() >= 1,
    decreases s.len(),
{
    if s.len() == 0 {
        lemma_concat_push(Seq::<Seq<char>>::empty(), Seq::<char>::empty());
        assert(Seq::<Seq<char>>::empty().push(Seq::<char>::empty()) =~= split_on(s, sep));
        assert(concat_all(Seq::<Seq<char>>::empty()) + Seq::<char>::empty() =~= drop_char(s, sep));
    } else {
        lemma_split_concat(s.drop_last(), sep);
        let prev = split_on(s.drop_last(), sep);
        if s.last() == sep {
            lemma_concat_push(prev, seq![]);
            assert(concat_all(prev) + Seq::<char>::empty() =~= concat_all(prev));
        } else {
            let n = prev.len();
            let up = prev.update(n - 1, prev.last().push(s.last()));
            assert(up.drop_last() =~= prev.drop_last());
            assert(up.last() == prev.last().push(s.last()));
            assert(concat_all(prev) == concat_all(prev.drop_last()) + prev.last());
            assert(concat_all(up) =~= concat_all(prev).push(s.last()));
        }
    }
}

proof fn lemma_wrap_paragraph_nonempty(gs: Seq<(Seq<char>, u16)>, max_width: int)
    ensures
        wrap_paragraph_spec(gs, max_width).len() >= 1,
{
}

proof fn lemma_paragraphs_concat(
    graphemes: spec_fn(Seq<char>) -> Seq<(Seq<char>, u16)>,
    ps: Seq<Seq<char>>,
    max_width: int,
)
    requires
        forall|p: Seq<char>| #[trigger] concat_all(clusters(graphemes(p))) == p,
    ensures
        concat_all(wrap_paragraphs(graphemes, ps, max_width)) == concat_all(ps),
        wrap_paragraphs(graphemes, ps, max_width).len() >= ps.len(),
    decreases ps.len(),
{
    if ps.len() > 0 {
        lemma_paragraphs_concat(graphemes, ps.drop_last(), max_width);
        let p = ps.last();
        let prev = wrap_paragraphs(graphemes, ps.drop_last(), max_width);
        let tail = if p.len() == 0 {
            seq![Seq::<char>::empty()]
        } else {
            wrap_paragraph_spec(graphemes(p), max_width)
        };
        lemma_concat_append(prev, tail);
        if p.len() == 0 {
            lemma_concat_push(Seq::<Seq<char>>::empty(), Seq::<char>::empty());
            assert(Seq::<Seq<char>>::empty().push(Seq::<char>::empty()) =~= tail);
            assert(concat_all(tail) =~= p);
        } else {
            lemma_wrap_preserves_content(graphemes(p), max_width);
            assert(concat_all(clusters(graphemes(p))) == p);
            lemma_wrap_paragraph_nonempty(graphemes(p), max_width);
        }
    }
}

proof fn lemma_drop_char_absent(s: Seq<char>, c: char)
    ensures
        forall|k: int| 0 <= k < drop_char(s, c).len() ==> #[trigger] drop_char(s, c)[k] != c,
    decreases s.len(),
{
    if s.len() > 0 {
        lemma_drop_char_absent(s.drop_last(), c);
        let prev = drop_char(s.drop_last(), c);
        if s.last() != c {
            assert forall|k: int| 0 <= k < drop_char(s, c).len() implies #[trigger] drop_char(s, c)[k]
                != c by {
                if k < prev.len() {
                    assert(drop_char(s, c)[k] == prev[k]);
                }
            }
        }
    }
}

proof fn lemma_parts_absent(parts: Seq<Seq<char>>, c: char)
    requires
        forall|k: int| 0 <= k < concat_all(parts).len() ==> #[trigger] concat_all(parts)[k] != c,
    ensures
        forall|i: int, k: int| 0 <= i < parts.len() && 0 <= k < parts[i].len() ==> #[trigger] parts[i][k]
            != c,
    decreases parts.len(),
{
    if parts.len() > 0 {
        let head = concat_all(parts.drop_last());
        let last = parts.last();
        assert(concat_all(parts) == head + last);
        assert forall|k: int| 0 <= k < head.len() implies #[trigger] head[k] != c by {
            assert(concat_all(parts)[k] == head[k]);
        }
        lemma_parts_absent(parts.drop_last(), c);
        assert forall|i: int, k: int| 0 <= i < parts.len() && 0 <= k < parts[i].len() implies #[trigger] parts[i][k]
            != c by {
            if i < parts.len() - 1 {
                assert(parts[i] == parts.drop_last()[i]);
            } else {
                assert(concat_all(parts)[head.len() + k] == last[k]);
            }
        }
    }
}

/// Wrapping keeps the text: for a segmentation whose clusters make up each
/// string, the wrapped lines of a text (at a width above zero), joined,
/// are the text with tabs expanded and newlines taken out; no line holds
/// a newline; and there is at least one line per paragraph.
pub proof fn lemma_wrap_text_keeps_text(
    graphemes: spec_fn(Seq<char>) -> Seq<(Seq<char>, u16)>,
    text: Seq<char>,
    max_width: int,
)
    requires
        max_width > 0,
        forall|p: Seq<char>| #[trigger] concat_all(clusters(graphemes(p))) == p,
    ensures
        concat_all(wrap_text_spec(graphemes, text, max_width)) == drop_char(expand_tabs(text), '\n'),
        forall|i: int, k: int|
            0 <= i < wrap_text_spec(graphemes, text, max_width).len() && 0 <= k < wrap_text_spec(
                graphemes,
                text,
                max_width,
            )[i].len() ==> #[trigger] wrap_text_spec(graphemes, text, max_width)[i][k] != '\n',
        wrap_text_spec(graphemes, text, max_width).len() >= split_on(expand_tabs(text), '\n').len(),
{
    let ps = split_on(expand_tabs(text), '\n');
    lemma_split_concat(expand_tabs(text), '\n');
    lemma_paragraphs_concat(graphemes, ps, max_width);
    lemma_drop_char_absent(expand_tabs(text), '\n');
    lemma_parts_absent(wrap_text_spec(graphemes, text, max_width), '\n');
}

proof fn lemma_wrap_paragraphs_len(
    graphemes: spec_fn(Seq<char>) -> Seq<(Seq<char>, u16)>,
    ps: Seq<Seq<char>>,
    max_width: int,
)
    ensures
        wrap_paragraphs(graphemes, ps, max_width).len() >= ps.len(),
    decreases ps.len(),
{
    if ps.len() > 0 {
        lemma_wrap_paragraphs_len(graphemes, ps.drop_last(), max_width);
        let p = ps.last();
        if p.len() > 0 {
            lemma_wrap_paragraph_nonempty(graphemes(p), max_width);
        }
    }
}

/// Wrapping at a width above zero gives at least one line.
pub(crate) proof fn lemma_wrap_text_nonempty(
    graphemes: spec_fn(Seq<char>) -> Seq<(Seq<char>, u16)>,
    text: Seq<char>,
    max_width: int,
)
    requires
        max_width > 0,
    ensures
        wrap_text_spec(graphemes, text, max_width).len() >= 1,
{
    lemma_split_concat(expand_tabs(text), '\n');
    lemma_wrap_paragraphs_len(graphemes, split_on(expand_tabs(text), '\n'), max_width);
}

/// Text without tabs and newlines is what wrapping joins back to.
pub(crate) proof fn lemma_plain_text_fixed(s: Seq<char>)
    requires
        forall|k: int| 0 <= k < s.len() ==> #[trigger] s[k] != '\n' && s[k] != '\t',
    ensures
        expand_tabs(s) == s,
        drop_char(s, '\n') == s,
    decreases s.len(),
{
    if s.len() > 0 {
        lemma_plain_text_fixed(s.drop_last());
        assert(s.drop_last().push(s.last()) =~= s);
    }
}

/// The segmentation `runefix_core::grapheme_widths` gives for a text.
pub uninterp spec fn runefix_graphemes(text: Seq<char>) -> Seq<(Seq<char>, usize)>;

/// Calls `runefix_core::grapheme_widths`: the text's extended grapheme
/// clusters (Unicode UAX #29), in order, each with its terminal display
/// width. Its documentation promises widths of 0, 1 or 2 and clusters that
/// together make up the text.
#[verifier::external_body]
fn runefix_grapheme_widths<'a>(text: &'a str) -> (r: Vec<(&'a str, usize)>)
    ensures
        r@.map_values(|p: (&'a str, usize)| (p.0@, p.1)) == runefix_graphemes(text@),
        forall|i: int| 0 <= i < r@.len() ==> #[trigger] r@[i].1 <= 2,
        forall|i: int| 0 <= i < r@.len() ==> (#[trigger] r@[i]).0@.len() > 0,
        concat_all(r@.map_values(|p: (&'a str, usize)| p.0@)) == text@,
{
    runefix_core::grapheme_widths(text)
}

/// The `runefix-core` implementation of `GraphemeWidth` (terminal policy:
/// emoji = 2, CJK = 2).
pub struct RunefixWidth;

impl GraphemeWidth for RunefixWidth {
    open spec fn spec_graphemes(&self, text: Seq<char>) -> Seq<(Seq<char>, u16)> {
        runefix_graphemes(text).map_values(|p: (Seq<char>, usize)| (p.0, p.1 as u16))
    }

    fn grapheme_widths<'a>(&self, text: &'a str) -> (r: Vec<(&'a str, u16)>) {
        let raw = runefix_grapheme_widths(text);
        let ghost rv = raw@.map_values(|p: (&'a str, usize)| (p.0@, p.1));
        let mut out: Vec<(&'a str, u16)> = Vec::new();
        let mut i: usize = 0;
        while i < raw.len()
            invariant
                i <= raw.len(),
                rv == raw@.map_values(|p: (&'a str, usize)| (p.0@, p.1)),
                rv == runefix_graphemes(text@),
                forall|j: int| 0 <= j < raw@.len() ==> #[trigger] raw@[j].1 <= 2,
                forall|j: int| 0 <= j < raw@.len() ==> (#[trigger] raw@[j]).0@.len() > 0,
                forall|j: int| 0 <= j < out@.len() ==> (#[trigger] out@[j]).0@.len() > 0,
                out.len() == i,
                forall|j: int| 0 <= j < out@.len() ==> (#[trigger] out@[j]).0 == raw@[j].0,
                out@.map_values(|p: (&'a str, u16)| (p.0@, p.1)) == rv.take(i as int).map_values(
                    |p: (Seq<char>, usize)| (p.0, p.1 as u16),
                ),
            decreases raw.len() - i,
        {
            let (g, w) = raw[i];
            assert(raw@[i as int].1 <= 2);
            let ghost before = out@.map_values(|p: (&'a str, u16)| (p.0@, p.1));
            out.push((g, w as u16));
            assert(out@.map_values(|p: (&'a str, u16)| (p.0@, p.1)) =~= before.push(
                (g@, w as u16),
            ));
            assert(rv[i as int] == (g@, w));
            assert(rv.take(i + 1) =~= rv.take(i as int).push(rv[i as int]));
            assert(out@.map_values(|p: (&'a str, u16)| (p.0@, p.1)) =~= rv.take(i + 1).map_values(
                |p: (Seq<char>, usize)| (p.0, p.1 as u16),
            ));
            i = i + 1;
        }
        assert(rv.take(raw.len() as int) =~= rv);
        out
    }
}

} // verus!
