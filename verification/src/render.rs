//! The HUD: status rows grouped by session, workspace and activity, the
//! Agent Inspector below them, and a renderer that redraws only the rows
//! that changed.

use crate::config::{DisplayConfig, Glyphs, Segment};
use crate::layout::{cells_view, embeds, fit_cells, fit_layout, is_subsequence, lemma_fit_cells_subsequence, Cell};
use crate::panel::{agent_panel_layouts, agent_panel_rows, layouts_view, AgentPanelState};
use crate::rows::{plain_row, plain_row_text, styled_row, write_styled_row};
use crate::segments::{opt_view, segment_text, segment_text_spec};
use crate::state::{is_showcase, StatusSnapshot};
use crate::text::{decimal, display_width, has_no_controls, owned, push_char, push_decimal, push_str, sanitize, same_text, without_controls};
use vstd::prelude::*;

verus! {

/// `s` after `root/`, when `s` lies under `root`.
pub open spec fn under(s: Seq<char>, root: Seq<char>) -> Option<Seq<char>> {
    if s.len() > root.len() && s.take(root.len() as int) == root && s[root.len() as int] == '/' {
        Some(s.skip(root.len() as int + 1))
    } else {
        None
    }
}

pub fn strip_dir_prefix(s: &str, root: &str) -> (r: Option<String>)
    ensures
        opt_view(r) == under(s@, root@),
{
    let n = s.unicode_len();
    let m = root.unicode_len();
    if n <= m {
        return None;
    }
    let mut i: usize = 0;
    while i < m
        invariant
            n == s@.len(),
            m == root@.len(),
            m < n,
            i <= m,
            forall|j: int| 0 <= j < i ==> s@[j] == root@[j],
        decreases m - i,
    {
        if s.get_char(i) != root.get_char(i) {
            assert(s@.take(m as int)[i as int] != root@[i as int]);
            return None;
        }
        i = i + 1;
    }
    assert(s@.take(m as int) =~= root@);
    if s.get_char(m) != '/' {
        return None;
    }
    Some(owned(s.substring_char(m + 1, n)))
}

/// A path shown relative to the home directory: `~` or `~/rest`.
pub open spec fn compact_path_text(value: Seq<char>, home: Option<Seq<char>>) -> Seq<char> {
    let v = without_controls(value);
    match home {
        None => v,
        Some(h) => if v == h {
            "~"@
        } else {
            match under(v, h) {
                Some(rest) => "~/"@ + rest,
                None => v,
            }
        },
    }
}

pub fn compact_path(value: &str, home: &Option<String>) -> (r: String)
    ensures
        r@ == compact_path_text(value@, opt_view(*home)),
{
    let v = sanitize(value);
    match home {
        None => v,
        Some(h) => {
            if same_text(v.as_str(), h.as_str()) {
                owned("~")
            } else {
                match strip_dir_prefix(v.as_str(), h.as_str()) {
                    Some(rest) => {
                        let mut out = owned("~/");
                        push_str(&mut out, rest.as_str());
                        out
                    },
                    None => v,
                }
            }
        },
    }
}

/// The workspace: the project root, then ` › ` and the directory inside it.
pub open spec fn workspace_path_text(s: StatusSnapshot, home: Option<Seq<char>>) -> Seq<char> {
    match s.cwd {
        None => "workspace"@,
        Some(cwd) => match s.project_root {
            None => compact_path_text(cwd@, home),
            Some(root) => if cwd@ == root@ {
                compact_path_text(root@, home)
            } else {
                match under(cwd@, root@) {
                    Some(rel) => compact_path_text(root@, home) + " › "@ + without_controls(rel),
                    None => compact_path_text(cwd@, home),
                }
            },
        },
    }
}

pub fn workspace_path(s: &StatusSnapshot, home: &Option<String>) -> (r: String)
    ensures
        r@ == workspace_path_text(*s, opt_view(*home)),
{
    match &s.cwd {
        None => owned("workspace"),
        Some(cwd) => match &s.project_root {
            None => compact_path(cwd.as_str(), home),
            Some(root) => {
                if same_text(cwd.as_str(), root.as_str()) {
                    compact_path(root.as_str(), home)
                } else {
                    match strip_dir_prefix(cwd.as_str(), root.as_str()) {
                        Some(rel) => {
                            let mut out = compact_path(root.as_str(), home);
                            push_str(&mut out, " › ");
                            push_str(&mut out, sanitize(rel.as_str()).as_str());
                            out
                        },
                        None => compact_path(cwd.as_str(), home),
                    }
                }
            },
        },
    }
}

/// The activity glyph.
pub open spec fn spinner_text(glyphs: Glyphs) -> Seq<char> {
    match glyphs {
        Glyphs::Ascii => ">"@,
        Glyphs::Unicode => "●"@,
    }
}

/// The cells of the configured modules whose data is known, in configured
/// order. The agents module is left to the inspector while agents exist.
pub open spec fn module_cells(segments: Seq<Segment>, spinner: Seq<char>, cwd: Seq<char>, elapsed: nat, now: nat, s: StatusSnapshot) -> Seq<(Segment, Seq<char>)>
    decreases segments.len(),
{
    if segments.len() == 0 {
        Seq::empty()
    } else {
        let rest = module_cells(segments.drop_last(), spinner, cwd, elapsed, now, s);
        let segment = segments.last();
        if segment == Segment::Agents && s.agents@.len() > 0 {
            rest
        } else {
            match segment_text_spec(segment, spinner, cwd, elapsed, now, s) {
                Some(t) => rest.push((segment, without_controls(t))),
                None => rest,
            }
        }
    }
}

/// Row groups: 0 session, 1 workspace, 2 activity.
pub open spec fn row_group(segment: Segment) -> nat {
    match segment {
        Segment::App | Segment::Model | Segment::Reasoning | Segment::Work | Segment::Elapsed | Segment::SessionId => 0,
        Segment::Git | Segment::GitDirty | Segment::GitStaged | Segment::GitModified | Segment::GitSync
        | Segment::Worktree | Segment::Cwd | Segment::ProjectRoot => 1,
        _ => 2,
    }
}

pub fn segment_row_group(segment: Segment) -> (r: u8)
    ensures
        r == row_group(segment),
{
    match segment {
        Segment::App | Segment::Model | Segment::Reasoning | Segment::Work | Segment::Elapsed | Segment::SessionId => 0,
        Segment::Git | Segment::GitDirty | Segment::GitStaged | Segment::GitModified | Segment::GitSync
        | Segment::Worktree | Segment::Cwd | Segment::ProjectRoot => 1,
        _ => 2,
    }
}

/// The cells of one group, in order.
pub open spec fn group_cells(cells: Seq<(Segment, Seq<char>)>, group: nat) -> Seq<(Segment, Seq<char>)>
    decreases cells.len(),
{
    if cells.len() == 0 {
        cells
    } else {
        let rest = group_cells(cells.drop_last(), group);
        if row_group(cells.last().0) == group { rest.push(cells.last()) } else { rest }
    }
}

pub open spec fn nonempty_row(cells: Seq<(Segment, Seq<char>)>, width: nat, separator: Seq<char>) -> Seq<Seq<(Segment, Seq<char>)>> {
    if cells.len() == 0 { Seq::empty() } else { seq![fit_cells(cells, width, separator)] }
}

/// The status rows. One row holds every module; with two rows the session
/// modules come first and everything else second; with three, session,
/// workspace and activity each get a row. Empty groups take no row.
pub open spec fn status_rows(width: nat, d: DisplayConfig, s: StatusSnapshot, elapsed: nat, now: nat, home: Option<Seq<char>>) -> Seq<Seq<(Segment, Seq<char>)>> {
    let cells = module_cells(d.segments@, spinner_text(d.glyphs), without_controls(workspace_path_text(s, home)), elapsed, now, s);
    let sep = d.separator@;
    if d.rows >= 2 {
        let session = group_cells(cells, 0);
        let workspace = group_cells(cells, 1);
        let activity = group_cells(cells, 2);
        if d.rows == 2 {
            nonempty_row(session, width, sep) + nonempty_row(workspace + activity, width, sep)
        } else {
            nonempty_row(session, width, sep) + nonempty_row(workspace, width, sep) + nonempty_row(activity, width, sep)
        }
    } else {
        seq![fit_cells(cells, width, sep)]
    }
}

fn clone_cell(c: &Cell) -> (r: Cell)
    ensures
        r.0 == c.0,
        r.1@ == c.1@,
{
    (c.0, c.1.clone())
}

/// The cells of one group.
pub fn cells_in_group(cells: &Vec<Cell>, group: u8) -> (r: Vec<Cell>)
    ensures
        cells_view(r@) == group_cells(cells_view(cells@), group as nat),
{
    let ghost view = cells_view(cells@);
    let mut out: Vec<Cell> = Vec::new();
    let mut i: usize = 0;
    while i < cells.len()
        invariant
            i <= cells.len(),
            view == cells_view(cells@),
            cells_view(out@) == group_cells(view.take(i as int), group as nat),
        decreases cells.len() - i,
    {
        assert(view.take(i as int + 1).drop_last() =~= view.take(i as int));
        if segment_row_group(cells[i].0) == group {
            let ghost prev = out@;
            out.push(clone_cell(&cells[i]));
            assert(cells_view(out@) =~= cells_view(prev).push(view[i as int]));
        }
        i = i + 1;
    }
    assert(view.take(i as int) =~= view);
    out
}

fn push_row(rows: &mut Vec<Vec<Cell>>, cells: Vec<Cell>, width: usize, separator: &str)
    ensures
        layouts_view(final(rows)@) == layouts_view(old(rows)@) + nonempty_row(cells_view(cells@), width as nat, separator@),
{
    if cells.len() > 0 {
        let fitted = fit_layout(cells, width, separator);
        let ghost prev = rows@;
        rows.push(fitted);
        assert(layouts_view(rows@) =~= layouts_view(prev) + nonempty_row(cells_view(cells@), width as nat, separator@));
    } else {
        assert(layouts_view(rows@) =~= layouts_view(old(rows)@) + nonempty_row(cells_view(cells@), width as nat, separator@));
    }
}

fn concat_cells(a: Vec<Cell>, b: Vec<Cell>) -> (r: Vec<Cell>)
    ensures
        cells_view(r@) == cells_view(a@) + cells_view(b@),
{
    let mut out = a;
    let mut rest = b;
    out.append(&mut rest);
    assert(cells_view(out@) =~= cells_view(a@) + cells_view(b@));
    out
}

/// The HUD status rows for a terminal `width` columns wide.
pub fn status_layouts(width: u16, d: &DisplayConfig, s: &StatusSnapshot, elapsed: u64, now: u64, home: &Option<String>) -> (r: Vec<Vec<Cell>>)
    ensures
        layouts_view(r@) == status_rows(width as nat, *d, *s, elapsed as nat, now as nat, opt_view(*home)),
        forall|i: int, j: int| 0 <= i < r@.len() && 0 <= j < r@[i]@.len() ==> has_no_controls(#[trigger] r@[i]@[j].1@),
{
    let spinner = match d.glyphs {
        Glyphs::Ascii => ">",
        Glyphs::Unicode => "●",
    };
    let cwd = sanitize(workspace_path(s, home).as_str());
    let ghost wanted_cells = module_cells(d.segments@, spinner@, cwd@, elapsed as nat, now as nat, *s);
    let mut cells: Vec<Cell> = Vec::new();
    let mut i: usize = 0;
    while i < d.segments.len()
        invariant
            i <= d.segments.len(),
            cells_view(cells@) == module_cells(d.segments@.take(i as int), spinner@, cwd@, elapsed as nat, now as nat, *s),
        decreases d.segments.len() - i,
    {
        let segment = d.segments[i];
        assert(d.segments@.take(i as int + 1).drop_last() =~= d.segments@.take(i as int));
        assert(d.segments@.take(i as int + 1).last() == segment);
        if !(segment == Segment::Agents && s.agents.len() > 0) {
            if let Some(t) = segment_text(segment, spinner, cwd.as_str(), elapsed, now, s) {
                let ghost prev = cells@;
                let shown = sanitize(t.as_str());
                cells.push((segment, shown));
                assert(cells_view(cells@) =~= cells_view(prev).push((segment, without_controls(t@))));
            }
        }
        i = i + 1;
    }
    assert(d.segments@.take(i as int) =~= d.segments@);
    let w = width as usize;
    let sep = d.separator.as_str();
    let mut rows: Vec<Vec<Cell>> = Vec::new();
    if d.rows >= 2 {
        let session = cells_in_group(&cells, 0);
        let workspace = cells_in_group(&cells, 1);
        let activity = cells_in_group(&cells, 2);
        push_row(&mut rows, session, w, sep);
        if d.rows == 2 {
            push_row(&mut rows, concat_cells(workspace, activity), w, sep);
        } else {
            push_row(&mut rows, workspace, w, sep);
            push_row(&mut rows, activity, w, sep);
        }
        assert(layouts_view(rows@) =~= status_rows(width as nat, *d, *s, elapsed as nat, now as nat, opt_view(*home)));
    } else {
        let fitted = fit_layout(cells, w, sep);
        rows.push(fitted);
        assert(layouts_view(rows@) =~= status_rows(width as nat, *d, *s, elapsed as nat, now as nat, opt_view(*home)));
    }
    proof {
        let shown = status_rows(width as nat, *d, *s, elapsed as nat, now as nat, opt_view(*home));
        lemma_status_text_is_clean(width as nat, *d, *s, elapsed as nat, now as nat, opt_view(*home));
        assert forall|i: int, j: int| 0 <= i < rows@.len() && 0 <= j < rows@[i]@.len() implies has_no_controls(#[trigger] rows@[i]@[j].1@) by {
            assert(layouts_view(rows@) == shown);
            assert(layouts_view(rows@)[i] == cells_view(rows@[i]@));
            assert(cells_clean(shown[i]));
            assert(cells_view(rows@[i]@)[j] == (rows@[i]@[j].0, rows@[i]@[j].1@));
            assert(has_no_controls(shown[i][j].1));
        }
    }
    rows
}

/// Every cell of a row is free of control characters.
pub open spec fn cells_clean(cells: Seq<(Segment, Seq<char>)>) -> bool {
    forall|j: int| 0 <= j < cells.len() ==> has_no_controls(#[trigger] cells[j].1)
}

proof fn lemma_module_cells_clean(segments: Seq<Segment>, spinner: Seq<char>, cwd: Seq<char>, elapsed: nat, now: nat, s: StatusSnapshot)
    ensures
        cells_clean(module_cells(segments, spinner, cwd, elapsed, now, s)),
    decreases segments.len(),
{
    if segments.len() > 0 {
        lemma_module_cells_clean(segments.drop_last(), spinner, cwd, elapsed, now, s);
        let segment = segments.last();
        if !(segment == Segment::Agents && s.agents@.len() > 0) {
            if let Some(t) = segment_text_spec(segment, spinner, cwd, elapsed, now, s) {
                crate::text::lemma_without_controls_clean(t);
            }
        }
    }
}

proof fn lemma_group_cells_clean(cells: Seq<(Segment, Seq<char>)>, group: nat)
    requires
        cells_clean(cells),
    ensures
        cells_clean(group_cells(cells, group)),
    decreases cells.len(),
{
    if cells.len() > 0 {
        assert(cells_clean(cells.drop_last())) by {
            assert forall|j: int| 0 <= j < cells.drop_last().len() implies has_no_controls(#[trigger] cells.drop_last()[j].1) by {
                assert(cells.drop_last()[j] == cells[j]);
            }
        }
        lemma_group_cells_clean(cells.drop_last(), group);
        assert(has_no_controls(cells[cells.len() - 1].1));
    }
}

proof fn lemma_subsequence_clean(small: Seq<(Segment, Seq<char>)>, big: Seq<(Segment, Seq<char>)>)
    requires
        is_subsequence(small, big),
        cells_clean(big),
    ensures
        cells_clean(small),
{
    let f = choose|f: spec_fn(int) -> int| embeds(f, small, big);
    assert forall|j: int| 0 <= j < small.len() implies has_no_controls(#[trigger] small[j].1) by {
        assert(0 <= f(j) < big.len() && small[j] == big[f(j)]);
    }
}

proof fn lemma_row_clean(cells: Seq<(Segment, Seq<char>)>, width: nat, separator: Seq<char>)
    requires
        cells_clean(cells),
    ensures
        forall|i: int| 0 <= i < nonempty_row(cells, width, separator).len() ==> cells_clean(#[trigger] nonempty_row(cells, width, separator)[i]),
        cells_clean(fit_cells(cells, width, separator)),
{
    lemma_fit_cells_subsequence(cells, width, separator);
    lemma_subsequence_clean(fit_cells(cells, width, separator), cells);
}

/// Every cell's module is among `segments`, and no cell is the agent summary
/// when `hide_agents`.
pub open spec fn cells_from(cells: Seq<(Segment, Seq<char>)>, segments: Seq<Segment>, hide_agents: bool) -> bool {
    forall|j: int| 0 <= j < cells.len() ==> segments.contains(#[trigger] cells[j].0)
        && !(hide_agents && cells[j].0 == Segment::Agents)
}

proof fn lemma_module_cells_from(segments: Seq<Segment>, spinner: Seq<char>, cwd: Seq<char>, elapsed: nat, now: nat, s: StatusSnapshot)
    ensures
        cells_from(module_cells(segments, spinner, cwd, elapsed, now, s), segments, s.agents@.len() > 0),
    decreases segments.len(),
{
    if segments.len() > 0 {
        let init = segments.drop_last();
        lemma_module_cells_from(init, spinner, cwd, elapsed, now, s);
        let rest = module_cells(init, spinner, cwd, elapsed, now, s);
        let cells = module_cells(segments, spinner, cwd, elapsed, now, s);
        assert forall|j: int| 0 <= j < cells.len() implies segments.contains(#[trigger] cells[j].0)
            && !(s.agents@.len() > 0 && cells[j].0 == Segment::Agents) by {
            if j < rest.len() {
                assert(cells[j] == rest[j]);
                assert(init.contains(rest[j].0));
                let k = choose|k: int| 0 <= k < init.len() && init[k] == rest[j].0;
                assert(segments[k] == init[k]);
            } else {
                assert(cells[j].0 == segments[segments.len() - 1]);
            }
        }
    }
}

proof fn lemma_group_cells_from(cells: Seq<(Segment, Seq<char>)>, group: nat, segments: Seq<Segment>, hide: bool)
    requires
        cells_from(cells, segments, hide),
    ensures
        cells_from(group_cells(cells, group), segments, hide),
    decreases cells.len(),
{
    if cells.len() > 0 {
        assert(cells_from(cells.drop_last(), segments, hide)) by {
            assert forall|j: int| 0 <= j < cells.drop_last().len() implies segments.contains(#[trigger] cells.drop_last()[j].0)
                && !(hide && cells.drop_last()[j].0 == Segment::Agents) by {
                assert(cells.drop_last()[j] == cells[j]);
            }
        }
        lemma_group_cells_from(cells.drop_last(), group, segments, hide);
        assert(segments.contains(cells[cells.len() - 1].0));
    }
}

proof fn lemma_row_from(cells: Seq<(Segment, Seq<char>)>, width: nat, separator: Seq<char>, segments: Seq<Segment>, hide: bool)
    requires
        cells_from(cells, segments, hide),
    ensures
        cells_from(fit_cells(cells, width, separator), segments, hide),
        cells.len() > 0 ==> fit_cells(cells, width, separator).len() > 0,
{
    lemma_fit_cells_subsequence(cells, width, separator);
    crate::layout::lemma_fit_cells_fits(cells, width, separator);
    let small = fit_cells(cells, width, separator);
    let f = choose|f: spec_fn(int) -> int| embeds(f, small, cells);
    assert forall|j: int| 0 <= j < small.len() implies segments.contains(#[trigger] small[j].0)
        && !(hide && small[j].0 == Segment::Agents) by {
        assert(0 <= f(j) < cells.len() && small[j] == cells[f(j)]);
    }
}

/// The shape of the status rows: one row when one is configured; with two or
/// three, at most that many rows and none of them empty. Every module shown
/// is one the configuration lists, and the agent summary is left out while
/// the inspector lists agents.
pub proof fn lemma_status_rows_shape(width: nat, d: DisplayConfig, s: StatusSnapshot, elapsed: nat, now: nat, home: Option<Seq<char>>)
    requires
        1 <= d.rows <= 3,
    ensures
        status_rows(width, d, s, elapsed, now, home).len() <= d.rows,
        d.rows == 1 ==> status_rows(width, d, s, elapsed, now, home).len() == 1,
        d.rows >= 2 ==> forall|i: int| 0 <= i < status_rows(width, d, s, elapsed, now, home).len()
            ==> (#[trigger] status_rows(width, d, s, elapsed, now, home)[i]).len() > 0,
        forall|i: int| 0 <= i < status_rows(width, d, s, elapsed, now, home).len()
            ==> cells_from(#[trigger] status_rows(width, d, s, elapsed, now, home)[i], d.segments@, s.agents@.len() > 0),
{
    let hide = s.agents@.len() > 0;
    let segs = d.segments@;
    let cells = module_cells(segs, spinner_text(d.glyphs), without_controls(workspace_path_text(s, home)), elapsed, now, s);
    let sep = d.separator@;
    lemma_module_cells_from(segs, spinner_text(d.glyphs), without_controls(workspace_path_text(s, home)), elapsed, now, s);
    let session = group_cells(cells, 0);
    let workspace = group_cells(cells, 1);
    let activity = group_cells(cells, 2);
    lemma_group_cells_from(cells, 0, segs, hide);
    lemma_group_cells_from(cells, 1, segs, hide);
    lemma_group_cells_from(cells, 2, segs, hide);
    assert(cells_from(workspace + activity, segs, hide)) by {
        assert forall|j: int| 0 <= j < (workspace + activity).len() implies segs.contains(#[trigger] (workspace + activity)[j].0)
            && !(hide && (workspace + activity)[j].0 == Segment::Agents) by {
            if j < workspace.len() {
                assert((workspace + activity)[j] == workspace[j]);
            } else {
                assert((workspace + activity)[j] == activity[j - workspace.len()]);
            }
        }
    }
    lemma_row_from(cells, width, sep, segs, hide);
    lemma_row_from(session, width, sep, segs, hide);
    lemma_row_from(workspace, width, sep, segs, hide);
    lemma_row_from(activity, width, sep, segs, hide);
    lemma_row_from(workspace + activity, width, sep, segs, hide);
    let rows = status_rows(width, d, s, elapsed, now, home);
    let a = nonempty_row(session, width, sep);
    let b = nonempty_row(workspace, width, sep);
    let c = nonempty_row(activity, width, sep);
    let wa = nonempty_row(workspace + activity, width, sep);
    assert forall|i: int| 0 <= i < rows.len() implies cells_from(#[trigger] rows[i], segs, hide)
        && (d.rows >= 2 ==> rows[i].len() > 0) by {
        if d.rows >= 2 {
            if d.rows == 2 {
                assert(rows == a + wa);
                if i < a.len() { assert(rows[i] == a[i]); } else { assert(rows[i] == wa[i - a.len()]); }
            } else {
                assert(rows == a + b + c);
                if i < a.len() {
                    assert(rows[i] == a[i]);
                } else if i < a.len() + b.len() {
                    assert(rows[i] == b[i - a.len()]);
                } else {
                    assert(rows[i] == c[i - a.len() - b.len()]);
                }
            }
        } else {
            assert(rows[i] == fit_cells(cells, width, sep));
        }
    }
}

/// No text shown in a status row holds a control character: every module's
/// text is filtered before it is laid out, whatever the snapshot holds.
pub proof fn lemma_status_text_is_clean(width: nat, d: DisplayConfig, s: StatusSnapshot, elapsed: nat, now: nat, home: Option<Seq<char>>)
    ensures
        forall|i: int| 0 <= i < status_rows(width, d, s, elapsed, now, home).len()
            ==> cells_clean(#[trigger] status_rows(width, d, s, elapsed, now, home)[i]),
{
    let cells = module_cells(d.segments@, spinner_text(d.glyphs), without_controls(workspace_path_text(s, home)), elapsed, now, s);
    let sep = d.separator@;
    lemma_module_cells_clean(d.segments@, spinner_text(d.glyphs), without_controls(workspace_path_text(s, home)), elapsed, now, s);
    let session = group_cells(cells, 0);
    let workspace = group_cells(cells, 1);
    let activity = group_cells(cells, 2);
    lemma_group_cells_clean(cells, 0);
    lemma_group_cells_clean(cells, 1);
    lemma_group_cells_clean(cells, 2);
    assert(cells_clean(workspace + activity)) by {
        assert forall|j: int| 0 <= j < (workspace + activity).len() implies has_no_controls(#[trigger] (workspace + activity)[j].1) by {
            if j < workspace.len() {
                assert((workspace + activity)[j] == workspace[j]);
            } else {
                assert((workspace + activity)[j] == activity[j - workspace.len()]);
            }
        }
    }
    lemma_row_clean(cells, width, sep);
    lemma_row_clean(session, width, sep);
    lemma_row_clean(workspace, width, sep);
    lemma_row_clean(activity, width, sep);
    lemma_row_clean(workspace + activity, width, sep);
    let rows = status_rows(width, d, s, elapsed, now, home);
    let a = nonempty_row(session, width, sep);
    let b = nonempty_row(workspace, width, sep);
    let c = nonempty_row(activity, width, sep);
    let wa = nonempty_row(workspace + activity, width, sep);
    assert forall|i: int| 0 <= i < rows.len() implies cells_clean(#[trigger] rows[i]) by {
        if d.rows >= 2 {
            if d.rows == 2 {
                assert(rows == a + wa);
                if i < a.len() { assert(rows[i] == a[i]); } else { assert(rows[i] == wa[i - a.len()]); }
            } else {
                assert(rows == a + b + c);
                if i < a.len() {
                    assert(rows[i] == a[i]);
                } else if i < a.len() + b.len() {
                    assert(rows[i] == b[i - a.len()]);
                } else {
                    assert(rows[i] == c[i - a.len() - b.len()]);
                }
            }
        } else {
            assert(rows[i] == fit_cells(cells, width, sep));
        }
    }
}

/// The status rows followed by the inspector rows.
pub open spec fn hud_rows(width: nat, d: DisplayConfig, s: StatusSnapshot, panel: AgentPanelState, elapsed: nat, now: nat, home: Option<Seq<char>>) -> Seq<Seq<(Segment, Seq<char>)>> {
    status_rows(width, d, s, elapsed, now, home) + agent_panel_rows(width, s, panel, now)
}

fn append_rows(a: &mut Vec<Vec<Cell>>, b: Vec<Vec<Cell>>)
    ensures
        layouts_view(final(a)@) == layouts_view(old(a)@) + layouts_view(b@),
{
    let mut rest = b;
    a.append(&mut rest);
    assert(layouts_view(final(a)@) =~= layouts_view(old(a)@) + layouts_view(b@));
}

pub fn hud_layouts(width: u16, d: &DisplayConfig, s: &StatusSnapshot, panel: AgentPanelState, elapsed: u64, now: u64, home: &Option<String>) -> (r: Vec<Vec<Cell>>)
    ensures
        layouts_view(r@) == hud_rows(width as nat, *d, *s, panel, elapsed as nat, now as nat, opt_view(*home)),
{
    let mut rows = status_layouts(width, d, s, elapsed, now, home);
    append_rows(&mut rows, agent_panel_layouts(width, s, panel, now));
    rows
}

/// The preview's fixed inputs: the showcase state, 8 seconds of session, the
/// inspector closed, time 0 and no home directory (showcase paths are already
/// written relative to it).
pub open spec fn preview_rows_spec(width: nat, d: DisplayConfig, showcase: StatusSnapshot) -> Seq<Seq<(Segment, Seq<char>)>> {
    hud_rows(width, d, showcase, AgentPanelState { mode: crate::panel::AgentPanelMode::Passive, selected: 0 }, 8, 0, None)
}

/// The rows of the plain preview.
pub open spec fn preview_texts(width: nat, d: DisplayConfig, showcase: StatusSnapshot) -> Seq<Seq<char>> {
    preview_rows_spec(width, d, showcase).map_values(|l: Seq<(Segment, Seq<char>)>| plain_row_text(l, width, d.separator@))
}

/// Every row of the plain preview; each is exactly `width` columns wide.
pub fn preview_rows(width: u16, d: &DisplayConfig) -> (r: Vec<String>)
    ensures
        exists|s: StatusSnapshot| #[trigger] is_showcase(s) && crate::text::strings_view(r@) == preview_texts(width as nat, *d, s),
        forall|i: int| 0 <= i < r@.len() ==> display_width(#[trigger] r@[i]@) == width,
{
    let snapshot = StatusSnapshot::showcase();
    let layouts = hud_layouts(width, d, &snapshot, AgentPanelState::passive(), 8, 0, &None);
    let ghost wanted = preview_rows_spec(width as nat, *d, snapshot);
    assert(layouts_view(layouts@) == wanted);
    let mut out: Vec<String> = Vec::new();
    let mut i: usize = 0;
    while i < layouts.len()
        invariant
            i <= layouts.len(),
            layouts_view(layouts@) == wanted,
            out@.len() == i,
            forall|j: int| 0 <= j < i ==> #[trigger] out@[j]@ == plain_row_text(wanted[j], width as nat, d.separator@),
            forall|j: int| 0 <= j < i ==> display_width(#[trigger] out@[j]@) == width,
        decreases layouts.len() - i,
    {
        let row = plain_row(&layouts[i], width as usize, d.separator.as_str());
        assert(cells_view(layouts@[i as int]@) == wanted[i as int]);
        out.push(row);
        i = i + 1;
    }
    assert(crate::text::strings_view(out@) =~= preview_texts(width as nat, *d, snapshot));
    out
}

/// The simulated HUD without colours, one line per row.
pub fn preview_line(width: u16, d: &DisplayConfig) -> (r: String)
    ensures
        exists|s: StatusSnapshot| #[trigger] is_showcase(s) && r@ == crate::text::join(preview_texts(width as nat, *d, s), "\n"@)
            && forall|i: int| 0 <= i < preview_texts(width as nat, *d, s).len()
                ==> display_width(#[trigger] preview_texts(width as nat, *d, s)[i]) == width,
{
    let rows = preview_rows(width, d);
    let r = crate::text::join_strings(&rows, "\n");
    proof {
        let s = choose|s: StatusSnapshot| #[trigger] is_showcase(s) && crate::text::strings_view(rows@) == preview_texts(width as nat, *d, s);
        let texts = preview_texts(width as nat, *d, s);
        assert forall|i: int| 0 <= i < texts.len() implies display_width(#[trigger] texts[i]) == width by {
            assert(texts[i] == crate::text::strings_view(rows@)[i]);
            assert(display_width(rows@[i]@) == width);
        }
        assert(is_showcase(s));
    }
    r
}

} // verus!
