//! Responsive row layout: module cells, their rendered width, and the rule
//! that drops the least important modules until a row fits.

use crate::config::Segment;
use crate::text::{display_width, text_width};
use vstd::prelude::*;

verus! {

/// A module and its text.
pub type Cell = (Segment, String);

/// The characters of each cell.
pub open spec fn cells_view(v: Seq<Cell>) -> Seq<(Segment, Seq<char>)> {
    v.map_values(|c: Cell| (c.0, c.1@))
}

/// Sum of the display widths of the cell texts.
pub open spec fn texts_width(cells: Seq<(Segment, Seq<char>)>) -> nat
    decreases cells.len(),
{
    if cells.len() == 0 {
        0
    } else {
        texts_width(cells.drop_last()) + display_width(cells.last().1)
    }
}

/// Columns a row takes: the texts, a separator between neighbours, and one
/// column of padding on each side.
pub open spec fn rendered_width(cells: Seq<(Segment, Seq<char>)>, separator: Seq<char>) -> nat {
    texts_width(cells) + display_width(separator) * (if cells.len() == 0 { 0 } else { (cells.len() - 1) as nat }) + 2
}

/// How important a module is when space runs out (higher stays longer).
pub open spec fn priority(segment: Segment) -> nat {
    match segment {
        Segment::Work => 100,
        Segment::Context => 95,
        Segment::ContextRemaining => 95,
        Segment::RateLimits => 94,
        Segment::Git => 93,
        Segment::Model => 90,
        Segment::Cwd => 90,
        Segment::Status => 89,
        Segment::FiveHourLimit => 88,
        Segment::WeeklyLimit => 87,
        Segment::Worktree => 86,
        Segment::Safety => 84,
        Segment::App => 80,
        Segment::ContextUsed => 79,
        Segment::Tools => 78,
        Segment::Reasoning => 76,
        Segment::GitDirty => 75,
        Segment::GitSync => 74,
        Segment::Tokens => 72,
        Segment::Agents => 70,
        Segment::AgentCount => 69,
        Segment::GitStaged => 68,
        Segment::GitModified => 67,
        Segment::Plan => 65,
        Segment::ContextWindow => 64,
        Segment::Compactions => 62,
        Segment::InputTokens => 60,
        Segment::OutputTokens => 59,
        Segment::CachedTokens => 58,
        Segment::ResetCredits => 57,
        Segment::ProjectRoot => 55,
        Segment::HooksHealth => 54,
        Segment::AppServerHealth => 53,
        Segment::Elapsed => 50,
        Segment::SessionId => 45,
    }
}

pub fn segment_priority(segment: Segment) -> (r: u8)
    ensures
        r == priority(segment),
{
    match segment {
        Segment::Work => 100,
        Segment::Context => 95,
        Segment::ContextRemaining => 95,
        Segment::RateLimits => 94,
        Segment::Git => 93,
        Segment::Model => 90,
        Segment::Cwd => 90,
        Segment::Status => 89,
        Segment::FiveHourLimit => 88,
        Segment::WeeklyLimit => 87,
        Segment::Worktree => 86,
        Segment::Safety => 84,
        Segment::App => 80,
        Segment::ContextUsed => 79,
        Segment::Tools => 78,
        Segment::Reasoning => 76,
        Segment::GitDirty => 75,
        Segment::GitSync => 74,
        Segment::Tokens => 72,
        Segment::Agents => 70,
        Segment::AgentCount => 69,
        Segment::GitStaged => 68,
        Segment::GitModified => 67,
        Segment::Plan => 65,
        Segment::ContextWindow => 64,
        Segment::Compactions => 62,
        Segment::InputTokens => 60,
        Segment::OutputTokens => 59,
        Segment::CachedTokens => 58,
        Segment::ResetCredits => 57,
        Segment::ProjectRoot => 55,
        Segment::HooksHealth => 54,
        Segment::AppServerHealth => 53,
        Segment::Elapsed => 50,
        Segment::SessionId => 45,
    }
}

/// The first index whose module has the lowest priority among the first `n` cells.
pub open spec fn lowest_in(cells: Seq<(Segment, Seq<char>)>, n: nat) -> int
    decreases n,
{
    if n <= 1 {
        0
    } else {
        let best = lowest_in(cells, (n - 1) as nat);
        if priority(cells[n - 1].0) < priority(cells[best].0) { n - 1 } else { best }
    }
}

/// The first index of a lowest-priority module.
pub open spec fn lowest_priority_index(cells: Seq<(Segment, Seq<char>)>) -> int {
    lowest_in(cells, cells.len())
}

pub proof fn lemma_lowest_in_bounds(cells: Seq<(Segment, Seq<char>)>, n: nat)
    requires
        1 <= n <= cells.len(),
    ensures
        0 <= lowest_in(cells, n) < n,
        forall|j: int| 0 <= j < n ==> priority(cells[lowest_in(cells, n)].0) <= priority(#[trigger] cells[j].0),
    decreases n,
{
    if n > 1 {
        lemma_lowest_in_bounds(cells, (n - 1) as nat);
    }
}

/// The row after dropping, one at a time, the first lowest-priority module
/// while the row is wider than `width` and holds more than one module.
pub open spec fn fit_cells(cells: Seq<(Segment, Seq<char>)>, width: nat, separator: Seq<char>) -> Seq<(Segment, Seq<char>)>
    decreases cells.len(),
{
    if rendered_width(cells, separator) > width && cells.len() > 1 {
        proof {
            lemma_lowest_in_bounds(cells, cells.len());
        }
        fit_cells(cells.remove(lowest_priority_index(cells)), width, separator)
    } else {
        cells
    }
}

/// Whether a row is wider than `width` columns.
pub fn row_exceeds(cells: &Vec<Cell>, separator: &str, width: usize) -> (r: bool)
    ensures
        r == (rendered_width(cells_view(cells@), separator@) > width),
{
    let n = cells.len();
    let ghost view = cells_view(cells@);
    let sep = text_width(separator) as u128;
    let limit = width as u128;
    let mut acc: u128 = 2;
    let mut i: usize = 0;
    while i < n
        invariant
            n == cells@.len(),
            view == cells_view(cells@),
            i <= n,
            sep == display_width(separator@),
            sep <= usize::MAX,
            limit == width,
            acc == texts_width(view.take(i as int)) + sep * (if i == 0 { 0 } else { (i - 1) as nat }) + 2,
            acc <= limit + 2,
        decreases n - i,
    {
        assert(view.take(i as int + 1).drop_last() =~= view.take(i as int));
        let w = text_width(cells[i].1.as_str()) as u128;
        if i > 0 {
            acc = acc + sep;
        }
        acc = acc + w;
        i = i + 1;
        assert(sep * (if i == 0 { 0 } else { (i - 1) as nat }) == sep * (if i - 1 == 0 { 0 } else { (i - 2) as nat }) + (if i > 1 { sep } else { 0 })) by (nonlinear_arith)
            requires i >= 1;
        if acc > limit {
            proof {
                lemma_texts_width_prefix(view, i as nat);
                assert(sep * (if i == 0 { 0 } else { (i - 1) as nat }) <= sep * (if n == 0 { 0 } else { (n - 1) as nat })) by (nonlinear_arith)
                    requires i <= n, i >= 1;
            }
            return true;
        }
    }
    assert(view.take(n as int) =~= view);
    acc > limit
}

proof fn lemma_texts_width_prefix(cells: Seq<(Segment, Seq<char>)>, i: nat)
    requires
        i <= cells.len(),
    ensures
        texts_width(cells.take(i as int)) <= texts_width(cells),
    decreases cells.len() - i,
{
    if i < cells.len() {
        lemma_texts_width_prefix(cells, i + 1);
        assert(cells.take(i as int + 1).drop_last() =~= cells.take(i as int));
    } else {
        assert(cells.take(i as int) =~= cells);
    }
}

/// The columns a row takes, capped at `width`.
pub fn row_width_capped(cells: &Vec<Cell>, separator: &str, width: usize) -> (r: usize)
    ensures
        r == (if rendered_width(cells_view(cells@), separator@) > width { width as nat } else {
            rendered_width(cells_view(cells@), separator@)
        }),
{
    if row_exceeds(cells, separator, width) {
        return width;
    }
    let n = cells.len();
    let ghost view = cells_view(cells@);
    let sep = text_width(separator) as u128;
    let mut acc: u128 = 2;
    let mut i: usize = 0;
    while i < n
        invariant
            n == cells@.len(),
            view == cells_view(cells@),
            i <= n,
            sep == display_width(separator@),
            rendered_width(view, separator@) <= width,
            acc == texts_width(view.take(i as int)) + sep * (if i == 0 { 0 } else { (i - 1) as nat }) + 2,
        decreases n - i,
    {
        assert(view.take(i as int + 1).drop_last() =~= view.take(i as int));
        let w = text_width(cells[i].1.as_str()) as u128;
        proof {
            lemma_texts_width_prefix(view, (i + 1) as nat);
            assert(sep * (i as nat) <= sep * (if n == 0 { 0 } else { (n - 1) as nat })) by (nonlinear_arith)
                requires i + 1 <= n;
            assert(sep * (i as nat) == sep * (if i == 0 { 0 } else { (i - 1) as nat }) + (if i > 0 { sep } else { 0 })) by (nonlinear_arith);
        }
        if i > 0 {
            acc = acc + sep;
        }
        acc = acc + w;
        i = i + 1;
    }
    assert(view.take(n as int) =~= view);
    acc as usize
}

fn lowest_priority_position(cells: &Vec<Cell>) -> (r: usize)
    requires
        cells.len() >= 1,
    ensures
        r == lowest_priority_index(cells_view(cells@)),
        r < cells.len(),
{
    let ghost view = cells_view(cells@);
    let mut best: usize = 0;
    let mut i: usize = 1;
    while i < cells.len()
        invariant
            view == cells_view(cells@),
            1 <= i <= cells.len(),
            best == lowest_in(view, i as nat),
            best < i,
        decreases cells.len() - i,
    {
        if segment_priority(cells[i].0) < segment_priority(cells[best].0) {
            best = i;
        }
        i = i + 1;
    }
    best
}

/// Drops the least important modules until the row fits `width` columns or
/// one module is left.
pub fn fit_layout(cells: Vec<Cell>, width: usize, separator: &str) -> (r: Vec<Cell>)
    ensures
        cells_view(r@) == fit_cells(cells_view(cells@), width as nat, separator@),
{
    let mut cur = cells;
    while row_exceeds(&cur, separator, width) && cur.len() > 1
        invariant
            fit_cells(cells_view(cur@), width as nat, separator@) == fit_cells(cells_view(cells@), width as nat, separator@),
        decreases cur.len(),
    {
        let index = lowest_priority_position(&cur);
        let ghost before = cur@;
        let _ = cur.remove(index);
        assert(cells_view(cur@) =~= cells_view(before).remove(index as int));
    }
    cur
}

/// Every row that `fit_cells` produces fits `width`, unless a single module is left.
pub proof fn lemma_fit_cells_fits(cells: Seq<(Segment, Seq<char>)>, width: nat, separator: Seq<char>)
    ensures
        rendered_width(fit_cells(cells, width, separator), separator) <= width
            || fit_cells(cells, width, separator).len() <= 1,
        cells.len() >= 1 ==> fit_cells(cells, width, separator).len() >= 1,
        fit_cells(cells, width, separator).len() <= cells.len(),
        rendered_width(cells, separator) <= width ==> fit_cells(cells, width, separator) == cells,
    decreases cells.len(),
{
    if rendered_width(cells, separator) > width && cells.len() > 1 {
        lemma_lowest_in_bounds(cells, cells.len());
        lemma_fit_cells_fits(cells.remove(lowest_priority_index(cells)), width, separator);
    }
}

/// `f` places each element of `small`, in order, at an equal element of `big`.
pub open spec fn embeds(f: spec_fn(int) -> int, small: Seq<(Segment, Seq<char>)>, big: Seq<(Segment, Seq<char>)>) -> bool {
    &&& forall|i: int, j: int| 0 <= i < j < small.len() ==> #[trigger] f(i) < #[trigger] f(j)
    &&& forall|i: int| 0 <= i < small.len() ==> 0 <= #[trigger] f(i) < big.len() && small[i] == big[f(i)]
}

/// `small` is `big` with some elements left out, the rest in their order.
pub open spec fn is_subsequence(small: Seq<(Segment, Seq<char>)>, big: Seq<(Segment, Seq<char>)>) -> bool {
    exists|f: spec_fn(int) -> int| embeds(f, small, big)
}

proof fn lemma_subsequence_refl(s: Seq<(Segment, Seq<char>)>)
    ensures
        is_subsequence(s, s),
{
    let f = |i: int| i;
    assert(embeds(f, s, s));
}

proof fn lemma_subsequence_remove(s: Seq<(Segment, Seq<char>)>, k: int)
    requires
        0 <= k < s.len(),
    ensures
        is_subsequence(s.remove(k), s),
{
    let f = |i: int| if i < k { i } else { i + 1 };
    assert(embeds(f, s.remove(k), s));
}

proof fn lemma_subsequence_trans(a: Seq<(Segment, Seq<char>)>, b: Seq<(Segment, Seq<char>)>, c: Seq<(Segment, Seq<char>)>)
    requires
        is_subsequence(a, b),
        is_subsequence(b, c),
    ensures
        is_subsequence(a, c),
{
    let f = choose|f: spec_fn(int) -> int| embeds(f, a, b);
    let g = choose|g: spec_fn(int) -> int| embeds(g, b, c);
    let h = |i: int| g(f(i));
    assert forall|i: int, j: int| 0 <= i < j < a.len() implies #[trigger] h(i) < #[trigger] h(j) by {
        assert(f(i) < f(j));
        assert(0 <= f(i) < b.len() && 0 <= f(j) < b.len());
    }
    assert forall|i: int| 0 <= i < a.len() implies 0 <= #[trigger] h(i) < c.len() && a[i] == c[h(i)] by {
        assert(0 <= f(i) < b.len());
        assert(a[i] == b[f(i)]);
        assert(b[f(i)] == c[g(f(i))]);
    }
    assert(embeds(h, a, c));
}

/// Fitting keeps modules in their order and invents none.
pub proof fn lemma_fit_cells_subsequence(cells: Seq<(Segment, Seq<char>)>, width: nat, separator: Seq<char>)
    ensures
        is_subsequence(fit_cells(cells, width, separator), cells),
    decreases cells.len(),
{
    if rendered_width(cells, separator) > width && cells.len() > 1 {
        lemma_lowest_in_bounds(cells, cells.len());
        let k = lowest_priority_index(cells);
        let rest = cells.remove(k);
        lemma_fit_cells_subsequence(rest, width, separator);
        lemma_subsequence_remove(cells, k);
        lemma_subsequence_trans(fit_cells(rest, width, separator), rest, cells);
    } else {
        lemma_subsequence_refl(cells);
    }
}

/// Under the embedding `f`, every module of `big` left out of `small` has a
/// priority no higher than any module kept.
pub open spec fn drops_lowest(f: spec_fn(int) -> int, small: Seq<(Segment, Seq<char>)>, big: Seq<(Segment, Seq<char>)>) -> bool {
    forall|j: int, i: int|
        0 <= j < big.len() && 0 <= i < small.len() && (forall|k: int| 0 <= k < small.len() ==> #[trigger] f(k) != j)
            ==> priority(#[trigger] big[j].0) <= priority(#[trigger] small[i].0)
}

/// Fitting drops only lowest-priority modules: the fitted row is the row with
/// some modules left out, in order, and no module left out outranks one kept.
pub proof fn lemma_fit_cells_drops_lowest(cells: Seq<(Segment, Seq<char>)>, width: nat, separator: Seq<char>)
    ensures
        exists|f: spec_fn(int) -> int| embeds(f, fit_cells(cells, width, separator), cells)
            && drops_lowest(f, fit_cells(cells, width, separator), cells),
    decreases cells.len(),
{
    let fit = fit_cells(cells, width, separator);
    if rendered_width(cells, separator) > width && cells.len() > 1 {
        lemma_lowest_in_bounds(cells, cells.len());
        let m = lowest_priority_index(cells);
        let rest = cells.remove(m);
        lemma_fit_cells_drops_lowest(rest, width, separator);
        assert(fit == fit_cells(rest, width, separator));
        let g = choose|g: spec_fn(int) -> int| embeds(g, fit, rest) && drops_lowest(g, fit, rest);
        let f = |i: int| if g(i) < m { g(i) } else { g(i) + 1 };
        assert forall|i: int, j: int| 0 <= i < j < fit.len() implies #[trigger] f(i) < #[trigger] f(j) by {
            assert(g(i) < g(j));
        }
        assert forall|i: int| 0 <= i < fit.len() implies 0 <= #[trigger] f(i) < cells.len() && fit[i] == cells[f(i)] by {
            assert(0 <= g(i) < rest.len() && fit[i] == rest[g(i)]);
        }
        assert(embeds(f, fit, cells));
        assert forall|j: int, i: int|
            0 <= j < cells.len() && 0 <= i < fit.len() && (forall|k: int| 0 <= k < fit.len() ==> #[trigger] f(k) != j)
            implies priority(#[trigger] cells[j].0) <= priority(#[trigger] fit[i].0) by {
            assert(0 <= g(i) < rest.len() && fit[i] == rest[g(i)]);
            assert(fit[i] == cells[f(i)]);
            if j != m {
                let jj = if j < m { j } else { j - 1 };
                assert(rest[jj] == cells[j]);
                assert forall|k: int| 0 <= k < fit.len() implies #[trigger] g(k) != jj by {
                    assert(f(k) != j);
                }
                assert(priority(rest[jj].0) <= priority(fit[i].0));
            }
        }
        assert(drops_lowest(f, fit, cells));
    } else {
        let f = |i: int| i;
        assert(embeds(f, fit, cells));
        assert forall|j: int, i: int|
            0 <= j < cells.len() && 0 <= i < fit.len() && (forall|k: int| 0 <= k < fit.len() ==> #[trigger] f(k) != j)
            implies priority(#[trigger] cells[j].0) <= priority(#[trigger] fit[i].0) by {
            assert(f(j) == j);
        }
        assert(drops_lowest(f, fit, cells));
    }
}

} // verus!
