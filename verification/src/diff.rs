//! Comparing two texts line by line.
//!
//! The comparison rests on the length of the longest common subsequence of
//! the two texts, tabulated for every pair of beginnings.

use vstd::prelude::*;
use crate::grid::Grid;

verus! {

/// Whether the lines `c` can be had from the lines `t` by leaving lines
/// out. Lines count as the same when they read the same.
pub open spec fn is_subsequence(c: Seq<String>, t: Seq<String>) -> bool
    decreases t.len(),
{
    if c.len() == 0 {
        true
    } else if t.len() == 0 {
        false
    } else {
        ||| c.last()@ == t.last()@ && is_subsequence(c.drop_last(), t.drop_last())
        ||| is_subsequence(c, t.drop_last())
    }
}

/// The length of a longest common subsequence of the lines `a` and `b`,
/// worked out from their ends: where both end in the same line, that line
/// is common and the rest is compared; where they do not, the last line of
/// one of them is left out, whichever loses less.
pub open spec fn lcs_len(a: Seq<String>, b: Seq<String>) -> nat
    decreases a.len() + b.len(),
{
    if a.len() == 0 || b.len() == 0 {
        0
    } else if a.last()@ == b.last()@ {
        lcs_len(a.drop_last(), b.drop_last()) + 1
    } else if lcs_len(a.drop_last(), b) >= lcs_len(a, b.drop_last()) {
        lcs_len(a.drop_last(), b)
    } else {
        lcs_len(a, b.drop_last())
    }
}

/// A common subsequence of `a` and `b` of the length `lcs_len(a, b)`.
pub open spec fn longest_common(a: Seq<String>, b: Seq<String>) -> Seq<String>
    decreases a.len() + b.len(),
{
    if a.len() == 0 || b.len() == 0 {
        Seq::empty()
    } else if a.last()@ == b.last()@ {
        longest_common(a.drop_last(), b.drop_last()).push(a.last())
    } else if lcs_len(a.drop_last(), b) >= lcs_len(a, b.drop_last()) {
        longest_common(a.drop_last(), b)
    } else {
        longest_common(a, b.drop_last())
    }
}

/// A common subsequence is no longer than either text.
pub proof fn lemma_lcs_len_bounded(a: Seq<String>, b: Seq<String>)
    ensures
        lcs_len(a, b) <= a.len(),
        lcs_len(a, b) <= b.len(),
    decreases a.len() + b.len(),
{
    if a.len() == 0 || b.len() == 0 {
    } else {
        lemma_lcs_len_bounded(a.drop_last(), b.drop_last());
        lemma_lcs_len_bounded(a.drop_last(), b);
        lemma_lcs_len_bounded(a, b.drop_last());
    }
}

/// A line more at the end of either text makes `lcs_len` no smaller and at
/// most one larger.
proof fn lemma_lcs_len_steps(a: Seq<String>, b: Seq<String>)
    ensures
        a.len() > 0 ==> lcs_len(a.drop_last(), b) <= lcs_len(a, b) <= lcs_len(a.drop_last(), b)
            + 1,
        b.len() > 0 ==> lcs_len(a, b.drop_last()) <= lcs_len(a, b) <= lcs_len(a, b.drop_last())
            + 1,
    decreases a.len() + b.len(),
{
    if a.len() > 0 && b.len() > 0 {
        lemma_lcs_len_steps(a.drop_last(), b);
        lemma_lcs_len_steps(a, b.drop_last());
    }
}

/// There is a common subsequence of `a` and `b` as long as `lcs_len(a, b)`.
pub proof fn law_lcs_len_is_reached(a: Seq<String>, b: Seq<String>)
    ensures
        is_subsequence(longest_common(a, b), a),
        is_subsequence(longest_common(a, b), b),
        longest_common(a, b).len() == lcs_len(a, b),
    decreases a.len() + b.len(),
{
    if a.len() == 0 || b.len() == 0 {
    } else if a.last()@ == b.last()@ {
        law_lcs_len_is_reached(a.drop_last(), b.drop_last());
        let rest = longest_common(a.drop_last(), b.drop_last());
        let all = rest.push(a.last());
        assert(all.drop_last() =~= rest);
        assert(all.last() == a.last());
    } else if lcs_len(a.drop_last(), b) >= lcs_len(a, b.drop_last()) {
        law_lcs_len_is_reached(a.drop_last(), b);
    } else {
        law_lcs_len_is_reached(a, b.drop_last());
    }
}

/// No common subsequence of `a` and `b` is longer than `lcs_len(a, b)`.
pub proof fn law_lcs_len_is_longest(c: Seq<String>, a: Seq<String>, b: Seq<String>)
    requires
        is_subsequence(c, a),
        is_subsequence(c, b),
    ensures
        c.len() <= lcs_len(a, b),
    decreases a.len() + b.len(),
{
    if c.len() > 0 {
        lemma_lcs_len_steps(a, b);
        if is_subsequence(c, a.drop_last()) {
            law_lcs_len_is_longest(c, a.drop_last(), b);
        } else if is_subsequence(c, b.drop_last()) {
            law_lcs_len_is_longest(c, a, b.drop_last());
        } else {
            law_lcs_len_is_longest(c.drop_last(), a.drop_last(), b.drop_last());
        }
    }
}

/// One line of a comparison.
#[derive(Clone, Debug, PartialEq, Eq)]
pub enum DiffLine {
    /// A line that both texts hold.
    Same(String),
    /// A line that only the second text holds.
    Added(String),
    /// A line that only the first text holds.
    Removed(String),
}

/// Whether `dp` tabulates the common subsequence lengths of `x` and `y`:
/// the cell (`i`, `j`) holds that of the first `i` lines of `x` and the first
/// `j` lines of `y`.
pub open spec fn tabulates(dp: Grid, x: Seq<String>, y: Seq<String>) -> bool {
    &&& dp.wf()
    &&& dp.dims() == ((x.len() + 1) as usize, (y.len() + 1) as usize)
    &&& x.len() + 1 <= usize::MAX
    &&& y.len() + 1 <= usize::MAX
    &&& forall|i: int, j: int|
        0 <= i <= x.len() && 0 <= j <= y.len() ==> #[trigger] dp.cell(i, j) == lcs_len(
            x.take(i),
            y.take(j),
        )
}

/// Tabulates the lengths of the longest common subsequences of all
/// beginnings of `seq1` and `seq2`. The table has to fit into memory.
pub fn lcs(seq1: &Vec<String>, seq2: &Vec<String>) -> (dp: Grid)
    requires
        (seq1@.len() + 1) * (seq2@.len() + 1) <= usize::MAX,
    ensures
        tabulates(dp, seq1@, seq2@),
{
    let n = seq1.len();
    let m = seq2.len();
    proof {
        assert(n + 1 <= usize::MAX && m + 1 <= usize::MAX) by (nonlinear_arith)
            requires
                (n + 1) * (m + 1) <= usize::MAX,
                n >= 0,
                m >= 0,
        ;
    }
    let mut dp: Grid = Grid::new(n + 1, m + 1);
    let mut i: usize = 0;
    while i < n
        invariant
            i <= n,
            n == seq1@.len(),
            m == seq2@.len(),
            n + 1 <= usize::MAX,
            m + 1 <= usize::MAX,
            dp.wf(),
            dp.dims() == ((n + 1) as usize, (m + 1) as usize),
            forall|r: int, c: int|
                0 <= r <= i && 0 <= c <= m ==> #[trigger] dp.cell(r, c) == lcs_len(
                    seq1@.take(r),
                    seq2@.take(c),
                ),
            forall|r: int, c: int| i < r <= n && 0 <= c <= m ==> #[trigger] dp.cell(r, c) == 0,
        decreases n - i,
    {
        let mut j: usize = 0;
        while j < m
            invariant
                i < n,
                j <= m,
                n == seq1@.len(),
                m == seq2@.len(),
                n + 1 <= usize::MAX,
                m + 1 <= usize::MAX,
                dp.wf(),
                dp.dims() == ((n + 1) as usize, (m + 1) as usize),
                forall|r: int, c: int|
                    0 <= r <= i && 0 <= c <= m ==> #[trigger] dp.cell(r, c) == lcs_len(
                        seq1@.take(r),
                        seq2@.take(c),
                    ),
                forall|c: int|
                    0 <= c <= j ==> #[trigger] dp.cell(i + 1, c) == lcs_len(
                        seq1@.take(i + 1),
                        seq2@.take(c),
                    ),
                forall|c: int| j < c <= m ==> #[trigger] dp.cell(i + 1, c) == 0,
                forall|r: int, c: int|
                    i + 1 < r <= n && 0 <= c <= m ==> #[trigger] dp.cell(r, c) == 0,
            decreases m - j,
        {
            let ghost a = seq1@.take(i + 1);
            let ghost b = seq2@.take(j + 1);
            proof {
                assert(a.drop_last() =~= seq1@.take(i as int));
                assert(b.drop_last() =~= seq2@.take(j as int));
                assert(a.last() == seq1@[i as int]);
                assert(b.last() == seq2@[j as int]);
                lemma_lcs_len_bounded(seq1@.take(i as int), seq2@.take(j as int));
            }
            let value: usize = if seq1[i] == seq2[j] {
                dp.get(i, j).unwrap() + 1
            } else {
                let left = dp.get(i + 1, j).unwrap();
                let up = dp.get(i, j + 1).unwrap();
                if left < up {
                    up
                } else {
                    left
                }
            };
            let ghost before = dp;
            let _ = dp.set(i + 1, j + 1, value);
            proof {
                assert(value == lcs_len(a, b));
                assert forall|r: int, c: int| 0 <= r <= i && 0 <= c <= m implies #[trigger] dp.cell(
                    r,
                    c,
                ) == lcs_len(seq1@.take(r), seq2@.take(c)) by {
                    assert(before.has(r, c));
                }
                assert forall|c: int| 0 <= c <= j + 1 implies #[trigger] dp.cell(i + 1, c)
                    == lcs_len(seq1@.take(i + 1), seq2@.take(c)) by {
                    if c <= j {
                        assert(before.has(i + 1, c));
                    }
                }
                assert forall|c: int| j + 1 < c <= m implies #[trigger] dp.cell(i + 1, c) == 0 by {
                    assert(before.has(i + 1, c));
                }
                assert forall|r: int, c: int|
                    i + 1 < r <= n && 0 <= c <= m implies #[trigger] dp.cell(r, c) == 0 by {
                    assert(before.has(r, c));
                }
            }
            j += 1;
        }
        i += 1;
    }
    dp
}

/// The comparison of the first `i` lines of `x` with the first `j` lines of
/// `y`, read off the table `dp`: common lines are kept, and where the texts
/// part, the line that costs less of the common subsequence goes first,
/// an added one in doubt.
pub open spec fn diff_lines(dp: Grid, x: Seq<String>, y: Seq<String>, i: int, j: int) -> Seq<
    DiffLine,
>
    decreases
        (if i > 0 {
            i
        } else {
            0
        }) + (if j > 0 {
            j
        } else {
            0
        }),
{
    if i > 0 && j > 0 && x[i - 1]@ == y[j - 1]@ {
        diff_lines(dp, x, y, i - 1, j - 1).push(DiffLine::Same(x[i - 1]))
    } else if j > 0 && (i <= 0 || dp.cell(i, j - 1) >= dp.cell(i - 1, j)) {
        diff_lines(dp, x, y, i, j - 1).push(DiffLine::Added(y[j - 1]))
    } else if i > 0 {
        diff_lines(dp, x, y, i - 1, j).push(DiffLine::Removed(x[i - 1]))
    } else {
        Seq::empty()
    }
}

/// What the lines read.
pub open spec fn readings(lines: Seq<String>) -> Seq<Seq<char>> {
    lines.map_values(|line: String| line@)
}

/// The first of the two texts that a comparison speaks of: its common and
/// its removed lines, in order.
pub open spec fn first_text(lines: Seq<DiffLine>) -> Seq<Seq<char>>
    decreases lines.len(),
{
    if lines.len() == 0 {
        Seq::empty()
    } else {
        match lines.last() {
            DiffLine::Same(line) => first_text(lines.drop_last()).push(line@),
            DiffLine::Removed(line) => first_text(lines.drop_last()).push(line@),
            DiffLine::Added(_) => first_text(lines.drop_last()),
        }
    }
}

/// The second of the two texts that a comparison speaks of: its common and
/// its added lines, in order.
pub open spec fn second_text(lines: Seq<DiffLine>) -> Seq<Seq<char>>
    decreases lines.len(),
{
    if lines.len() == 0 {
        Seq::empty()
    } else {
        match lines.last() {
            DiffLine::Same(line) => second_text(lines.drop_last()).push(line@),
            DiffLine::Added(line) => second_text(lines.drop_last()).push(line@),
            DiffLine::Removed(_) => second_text(lines.drop_last()),
        }
    }
}

/// A comparison accounts for every line of both texts: without its added
/// lines it reads as the first text, and without its removed lines as the
/// second.
pub proof fn law_diff_accounts_for_both_texts(
    dp: Grid,
    x: Seq<String>,
    y: Seq<String>,
    i: int,
    j: int,
)
    requires
        0 <= i <= x.len(),
        0 <= j <= y.len(),
    ensures
        first_text(diff_lines(dp, x, y, i, j)) == readings(x.take(i)),
        second_text(diff_lines(dp, x, y, i, j)) == readings(y.take(j)),
    decreases i + j,
{
    let lines = diff_lines(dp, x, y, i, j);
    if i > 0 && j > 0 && x[i - 1]@ == y[j - 1]@ {
        law_diff_accounts_for_both_texts(dp, x, y, i - 1, j - 1);
        let rest = diff_lines(dp, x, y, i - 1, j - 1);
        assert(lines.drop_last() =~= rest);
        assert(readings(x.take(i)) =~= readings(x.take(i - 1)).push(x[i - 1]@));
        assert(readings(y.take(j)) =~= readings(y.take(j - 1)).push(y[j - 1]@));
    } else if j > 0 && (i <= 0 || dp.cell(i, j - 1) >= dp.cell(i - 1, j)) {
        law_diff_accounts_for_both_texts(dp, x, y, i, j - 1);
        let rest = diff_lines(dp, x, y, i, j - 1);
        assert(lines.drop_last() =~= rest);
        assert(readings(y.take(j)) =~= readings(y.take(j - 1)).push(y[j - 1]@));
    } else if i > 0 {
        law_diff_accounts_for_both_texts(dp, x, y, i - 1, j);
        let rest = diff_lines(dp, x, y, i - 1, j);
        assert(lines.drop_last() =~= rest);
        assert(readings(x.take(i)) =~= readings(x.take(i - 1)).push(x[i - 1]@));
    } else {
        assert(readings(x.take(i)) =~= Seq::<Seq<char>>::empty());
        assert(readings(y.take(j)) =~= Seq::<Seq<char>>::empty());
    }
}

/// Compares the first `i` lines of `x` with the first `j` lines of `y`,
/// given the table `dp` of their common subsequence lengths.
pub fn print_diff(dp: &Grid, x: &Vec<String>, y: &Vec<String>, i: usize, j: usize) -> (lines: Vec<
    DiffLine,
>)
    requires
        tabulates(*dp, x@, y@),
        i <= x@.len(),
        j <= y@.len(),
    ensures
        lines@ == diff_lines(*dp, x@, y@, i as int, j as int),
    decreases i + j,
{
    if i > 0 && j > 0 && x[i - 1] == y[j - 1] {
        let mut lines = print_diff(dp, x, y, i - 1, j - 1);
        lines.push(DiffLine::Same(x[i - 1].clone()));
        lines
    } else if j > 0 && (i == 0 || dp.get(i, j - 1).unwrap() >= dp.get(i - 1, j).unwrap()) {
        let mut lines = print_diff(dp, x, y, i, j - 1);
        lines.push(DiffLine::Added(y[j - 1].clone()));
        lines
    } else if i > 0 {
        let mut lines = print_diff(dp, x, y, i - 1, j);
        lines.push(DiffLine::Removed(x[i - 1].clone()));
        lines
    } else {
        Vec::new()
    }
}

} // verus!
