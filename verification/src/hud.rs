//! The live HUD renderer: it draws the rows below the child terminal's scroll
//! region, repaints only the rows whose bytes changed, and keeps the scroll
//! region in place.

use crate::config::{DisplayConfig, Segment};
use crate::layout::Cell;
use crate::panel::{layouts_view, AgentPanelState};
use crate::render::{hud_layouts, hud_rows};
use crate::rows::{styled_row, write_styled_row};
use crate::segments::opt_view;
use crate::state::{is_showcase, StatusSnapshot};
use crate::text::{decimal, join, join_strings, owned, push_decimal, push_str, same_text, strings_view};
use vstd::prelude::*;

verus! {

/// The styled text of each row.
pub open spec fn styled_rows(rows: Seq<Seq<(Segment, Seq<char>)>>, width: nat, d: DisplayConfig, context_percent: Option<u8>) -> Seq<Seq<char>> {
    rows.map_values(|l: Seq<(Segment, Seq<char>)>| styled_row(l, width, d.theme, d.separator@, context_percent))
}

fn render_rows(layouts: &Vec<Vec<Cell>>, count: usize, width: u16, d: &DisplayConfig, context_percent: Option<u8>) -> (r: Vec<String>)
    requires
        count <= layouts@.len(),
    ensures
        strings_view(r@) == styled_rows(layouts_view(layouts@).take(count as int), width as nat, *d, context_percent),
{
    let ghost wanted = styled_rows(layouts_view(layouts@).take(count as int), width as nat, *d, context_percent);
    let mut out: Vec<String> = Vec::new();
    let mut i: usize = 0;
    while i < count
        invariant
            i <= count <= layouts@.len(),
            wanted == styled_rows(layouts_view(layouts@).take(count as int), width as nat, *d, context_percent),
            strings_view(out@) == wanted.take(i as int),
        decreases count - i,
    {
        let row = write_styled_row(&layouts[i], width as usize, d.theme, d.separator.as_str(), context_percent);
        let ghost prev = out@;
        out.push(row);
        assert(strings_view(out@) =~= strings_view(prev).push(row@));
        assert(wanted.take(i as int + 1) =~= wanted.take(i as int).push(wanted[i as int]));
        i = i + 1;
    }
    assert(wanted.take(i as int) =~= wanted);
    out
}

/// The simulated HUD in colour, one entry per row.
pub fn preview_ansi_rows(width: u16, d: &DisplayConfig) -> (r: Vec<String>)
    ensures
        exists|s: StatusSnapshot| #[trigger] is_showcase(s) && strings_view(r@)
            == styled_rows(crate::render::preview_rows_spec(width as nat, *d, s), width as nat, *d, s.context_percent),
{
    let snapshot = StatusSnapshot::showcase();
    let layouts = hud_layouts(width, d, &snapshot, AgentPanelState::passive(), 8, 0, &None);
    let rows = render_rows(&layouts, layouts.len(), width, d, snapshot.context_percent);
    assert(layouts_view(layouts@).take(layouts@.len() as int) =~= layouts_view(layouts@));
    rows
}

/// The simulated HUD in colour, one line per row.
pub fn preview_ansi(width: u16, d: &DisplayConfig) -> (r: String)
    ensures
        exists|s: StatusSnapshot| #[trigger] is_showcase(s) && r@ == join(
            styled_rows(crate::render::preview_rows_spec(width as nat, *d, s), width as nat, *d, s.context_percent),
            "\n"@,
        ),
{
    let rows = preview_ansi_rows(width, d);
    join_strings(&rows, "\n")
}

/// Draws the HUD below the child terminal and remembers what it drew.
pub struct StatusRenderer {
    pub display: DisplayConfig,
    pub snapshot: StatusSnapshot,
    pub started: u64,
    pub agent_panel: AgentPanelState,
    pub home: Option<String>,
    pub previous_rows: Vec<String>,
    pub previous_first_row: Option<u16>,
}

/// How many rows are drawn: all but four terminal rows, at least one.
pub open spec fn drawn_count(available: nat, rows: nat) -> nat {
    let cap: nat = if rows >= 5 { (rows - 4) as nat } else { 1 };
    if available > cap { cap } else { available }
}

/// The first terminal row of the HUD (1-based).
pub open spec fn first_row_of(rows: nat, count: nat) -> nat {
    let top: nat = if rows >= count { (rows - count) as nat } else { 0 };
    if top + 1 > u16::MAX { u16::MAX as nat } else { top + 1 }
}

/// The styled rows that a draw paints.
pub open spec fn frame_rows(r: StatusRenderer, width: nat, rows: nat, now: nat) -> Seq<Seq<char>> {
    let all = hud_rows(width, r.display, r.snapshot, r.agent_panel, if now > r.started { (now - r.started) as nat } else { 0 }, now, opt_view(r.home));
    let n = drawn_count(all.len(), rows);
    styled_rows(all.take(n as int), width, r.display, r.snapshot.context_percent)
}

/// The escape sequence that moves the cursor to column 1 of `row`.
pub open spec fn move_to(row: nat) -> Seq<char> {
    "\x1b["@ + decimal(row) + ";1H"@
}

/// The terminal row of offset `i` (saturating like `u16`).
pub open spec fn row_at(first: nat, i: nat) -> nat {
    if first + i > u16::MAX { u16::MAX as nat } else { first + i }
}

/// What is written for the first `k` rows: a move and the row's bytes for each
/// row that changed; every row when the geometry changed.
pub open spec fn row_updates(previous: Seq<Seq<char>>, frame: Seq<Seq<char>>, redraw_all: bool, first: nat, k: nat) -> Seq<char>
    decreases k,
{
    if k == 0 {
        Seq::empty()
    } else {
        let i = (k - 1) as nat;
        row_updates(previous, frame, redraw_all, first, i) + (if !redraw_all && i < previous.len() && previous[i as int] == frame[i as int] {
            Seq::empty()
        } else {
            move_to(row_at(first, i)) + frame[i as int]
        })
    }
}

/// The bytes one draw writes: nothing when no row changed; otherwise the
/// cursor is saved, the changed rows are written, and the style and cursor are
/// restored. The scroll region is never touched.
pub open spec fn draw_output(r: StatusRenderer, width: nat, rows: nat, now: nat) -> Seq<char> {
    let frame = frame_rows(r, width, rows, now);
    let first = first_row_of(rows, frame.len());
    let redraw_all = r.previous_first_row != Some(first as u16) || r.previous_rows@.len() != frame.len();
    let updates = row_updates(strings_view(r.previous_rows@), frame, redraw_all, first, frame.len());
    if updates.len() == 0 { Seq::empty() } else { "\x1b7"@ + updates + "\x1b[0m\x1b8"@ }
}

/// The moves and row bytes for every row of `frame` that differs from
/// `previous` (every row when `redraw_all`).
fn changed_rows(previous: &Vec<String>, frame: &Vec<String>, redraw_all: bool, first: u16) -> (r: String)
    requires
        frame@.len() <= u16::MAX,
    ensures
        r@ == row_updates(strings_view(previous@), strings_view(frame@), redraw_all, first as nat, frame@.len()),
{
    let ghost old_rows = strings_view(previous@);
    let ghost rows = strings_view(frame@);
    let mut updates = String::new();
    let mut i: usize = 0;
    while i < frame.len()
        invariant
            i <= frame@.len() <= u16::MAX,
            rows == strings_view(frame@),
            old_rows == strings_view(previous@),
            updates@ == row_updates(old_rows, rows, redraw_all, first as nat, i as nat),
        decreases frame@.len() - i,
    {
        let same = !redraw_all && i < previous.len() && same_text(previous[i].as_str(), frame[i].as_str());
        if !same {
            let row: u16 = if first as usize + i > 65535 { 65535 } else { first + i as u16 };
            push_str(&mut updates, "\x1b[");
            push_decimal(&mut updates, row as u64);
            push_str(&mut updates, ";1H");
            push_str(&mut updates, frame[i].as_str());
        }
        i = i + 1;
        assert(updates@ =~= row_updates(old_rows, rows, redraw_all, first as nat, i as nat));
    }
    updates
}

impl StatusRenderer {
    pub fn new(display: DisplayConfig, snapshot: StatusSnapshot) -> (r: Self)
        ensures
            r.display == display,
            r.snapshot == snapshot,
            r.started == 0,
            r.agent_panel == AgentPanelState::default_spec(),
            r.home is None,
            r.previous_rows@.len() == 0,
            r.previous_first_row is None,
    {
        StatusRenderer {
            display,
            snapshot,
            started: 0,
            agent_panel: AgentPanelState::passive(),
            home: None,
            previous_rows: Vec::new(),
            previous_first_row: None,
        }
    }

    /// The inspector state (the input thread owns the live copy).
    pub fn agent_panel(&self) -> (r: AgentPanelState)
        ensures
            r == self.agent_panel,
    {
        self.agent_panel
    }

    pub fn set_agent_panel(&mut self, panel: AgentPanelState)
        ensures
            final(self).agent_panel == panel,
            final(self).display == old(self).display,
            final(self).snapshot == old(self).snapshot,
            final(self).started == old(self).started,
            final(self).home == old(self).home,
            final(self).previous_rows == old(self).previous_rows,
            final(self).previous_first_row == old(self).previous_first_row,
    {
        self.agent_panel = panel;
    }

    pub fn set_snapshot(&mut self, snapshot: StatusSnapshot)
        ensures
            final(self).snapshot == snapshot,
            final(self).display == old(self).display,
            final(self).agent_panel == old(self).agent_panel,
            final(self).started == old(self).started,
            final(self).home == old(self).home,
            final(self).previous_rows == old(self).previous_rows,
            final(self).previous_first_row == old(self).previous_first_row,
    {
        self.snapshot = snapshot;
    }

    /// Sets the session start (Unix seconds) and the home directory used to shorten paths.
    pub fn set_clock_and_home(&mut self, started: u64, home: Option<String>)
        ensures
            final(self).started == started,
            final(self).home == home,
            final(self).display == old(self).display,
            final(self).snapshot == old(self).snapshot,
            final(self).agent_panel == old(self).agent_panel,
            final(self).previous_rows == old(self).previous_rows,
            final(self).previous_first_row == old(self).previous_first_row,
    {
        self.started = started;
        self.home = home;
    }

    /// How many HUD rows the current state wants at this width.
    pub fn required_rows(&self, width: u16, now: u64) -> (r: u16)
        ensures
            r == (if hud_rows(width as nat, self.display, self.snapshot, self.agent_panel,
                if now > self.started { (now - self.started) as nat } else { 0 }, now as nat, opt_view(self.home)).len() > u16::MAX {
                u16::MAX as nat
            } else {
                hud_rows(width as nat, self.display, self.snapshot, self.agent_panel,
                    if now > self.started { (now - self.started) as nat } else { 0 }, now as nat, opt_view(self.home)).len()
            }),
    {
        let layouts = hud_layouts(width, &self.display, &self.snapshot, self.agent_panel, now.saturating_sub(self.started), now, &self.home);
        if layouts.len() > 65535 { 65535 } else { layouts.len() as u16 }
    }

    /// Forgets what was drawn: a full-screen redraw of the child can erase the
    /// HUD rows behind the diff cache.
    pub fn invalidate(&mut self)
        ensures
            final(self).previous_rows@.len() == 0,
            final(self).previous_first_row is None,
            final(self).display == old(self).display,
            final(self).snapshot == old(self).snapshot,
            final(self).agent_panel == old(self).agent_panel,
            final(self).started == old(self).started,
            final(self).home == old(self).home,
    {
        self.previous_rows.clear();
        self.previous_first_row = None;
    }

    /// Draws the HUD for a terminal of `width` columns and `rows` rows at Unix time `now`.
    pub fn draw(&mut self, output: &mut String, width: u16, rows: u16, now: u64)
        ensures
            final(output)@ == old(output)@ + draw_output(*old(self), width as nat, rows as nat, now as nat),
            strings_view(final(self).previous_rows@) == frame_rows(*old(self), width as nat, rows as nat, now as nat),
            final(self).previous_first_row == Some(first_row_of(rows as nat, frame_rows(*old(self), width as nat, rows as nat, now as nat).len()) as u16),
            final(self).display == old(self).display,
            final(self).snapshot == old(self).snapshot,
            final(self).agent_panel == old(self).agent_panel,
            final(self).started == old(self).started,
            final(self).home == old(self).home,
    {
        let layouts = hud_layouts(width, &self.display, &self.snapshot, self.agent_panel, now.saturating_sub(self.started), now, &self.home);
        let cap: usize = if rows >= 5 { (rows - 4) as usize } else { 1 };
        let count: usize = if layouts.len() > cap { cap } else { layouts.len() };
        let rendered = render_rows(&layouts, count, width, &self.display, self.snapshot.context_percent);
        let ghost frame = strings_view(rendered@);
        assert(frame == frame_rows(*old(self), width as nat, rows as nat, now as nat));
        let top: u16 = if rows as usize >= count { rows - count as u16 } else { 0 };
        let first: u16 = if top == 65535 { 65535 } else { top + 1 };
        let redraw_all = self.previous_first_row != Some(first) || self.previous_rows.len() != count;
        let updates = changed_rows(&self.previous_rows, &rendered, redraw_all, first);
        if updates.unicode_len() > 0 {
            push_str(output, "\x1b7");
            push_str(output, updates.as_str());
            push_str(output, "\x1b[0m\x1b8");
        }
        self.previous_rows = rendered;
        self.previous_first_row = Some(first);
    }
}

/// Drawing again with nothing changed writes nothing.
pub proof fn lemma_unchanged_redraw_is_silent(r: StatusRenderer, width: nat, rows: nat, now: nat)
    requires
        strings_view(r.previous_rows@) == frame_rows(r, width, rows, now),
        r.previous_first_row == Some(first_row_of(rows, frame_rows(r, width, rows, now).len()) as u16),
        rows <= u16::MAX,
    ensures
        draw_output(r, width, rows, now).len() == 0,
{
    let frame = frame_rows(r, width, rows, now);
    let first = first_row_of(rows, frame.len());
    assert(first <= u16::MAX);
    assert(r.previous_rows@.len() == frame.len());
    lemma_no_updates(strings_view(r.previous_rows@), frame, first, frame.len());
}

proof fn lemma_no_updates(previous: Seq<Seq<char>>, frame: Seq<Seq<char>>, first: nat, k: nat)
    requires
        previous == frame,
        k <= frame.len(),
    ensures
        row_updates(previous, frame, false, first, k).len() == 0,
    decreases k,
{
    if k > 0 {
        lemma_no_updates(previous, frame, first, (k - 1) as nat);
    }
}

/// With nothing remembered (a new or invalidated renderer), a draw writes every
/// row of the frame, each after a move to its terminal row.
pub proof fn lemma_invalidated_draw_writes_every_row(r: StatusRenderer, width: nat, rows: nat, now: nat)
    requires
        r.previous_rows@.len() == 0,
        r.previous_first_row is None,
        frame_rows(r, width, rows, now).len() > 0,
    ensures
        draw_output(r, width, rows, now) == "\x1b7"@ + row_updates(Seq::empty(), frame_rows(r, width, rows, now), true,
            first_row_of(rows, frame_rows(r, width, rows, now).len()), frame_rows(r, width, rows, now).len())
            + "\x1b[0m\x1b8"@,
        forall|i: nat| i < frame_rows(r, width, rows, now).len() ==> is_written(
            row_updates(Seq::empty(), frame_rows(r, width, rows, now), true, first_row_of(rows, frame_rows(r, width, rows, now).len()),
            frame_rows(r, width, rows, now).len()),
            move_to(row_at(first_row_of(rows, frame_rows(r, width, rows, now).len()), i)) + frame_rows(r, width, rows, now)[i as int]),
{
    let frame = frame_rows(r, width, rows, now);
    let first = first_row_of(rows, frame.len());
    assert(strings_view(r.previous_rows@) =~= Seq::<Seq<char>>::empty());
    lemma_all_written(frame, first, frame.len());
    reveal_strlit("\x1b[");
    assert(row_updates(Seq::empty(), frame, true, first, frame.len()).len() > 0) by {
        lemma_updates_nonempty(frame, first, frame.len());
    }
}

/// `piece` occurs in `s`.
pub open spec fn is_written(s: Seq<char>, piece: Seq<char>) -> bool {
    exists|a: Seq<char>, b: Seq<char>| s == a + piece + b
}

proof fn lemma_all_written(frame: Seq<Seq<char>>, first: nat, k: nat)
    requires
        k <= frame.len(),
    ensures
        forall|i: nat| i < k ==> is_written(row_updates(Seq::empty(), frame, true, first, k), move_to(row_at(first, i)) + frame[i as int]),
    decreases k,
{
    if k > 0 {
        let j = (k - 1) as nat;
        lemma_all_written(frame, first, j);
        let prefix = row_updates(Seq::empty(), frame, true, first, j);
        let last = move_to(row_at(first, j)) + frame[j as int];
        assert(row_updates(Seq::empty(), frame, true, first, k) == prefix + last);
        assert forall|i: nat| i < k implies is_written(row_updates(Seq::empty(), frame, true, first, k), move_to(row_at(first, i)) + frame[i as int]) by {
            if i == j {
                assert(prefix + last =~= prefix + last + Seq::<char>::empty());
            } else {
                let piece = move_to(row_at(first, i)) + frame[i as int];
                let (a, b) = choose|a: Seq<char>, b: Seq<char>| prefix == a + piece + b;
                assert(prefix + last =~= a + piece + (b + last));
            }
        }
    }
}

proof fn lemma_updates_nonempty(frame: Seq<Seq<char>>, first: nat, k: nat)
    requires
        0 < k <= frame.len(),
    ensures
        row_updates(Seq::empty(), frame, true, first, k).len() > 0,
{
    reveal_strlit("\x1b[");
    let j = (k - 1) as nat;
    assert(move_to(row_at(first, j)).len() > 0);
}

/// The terminal's scroll-region bookkeeping: the child owns rows
/// `1..=child_rows`, the HUD owns the `reserved_rows` below them.
#[derive(Debug, Clone, Copy, PartialEq, Eq, Structural)]
pub struct TerminalGuard {
    pub child_rows: u16,
    pub reserved_rows: u16,
}

/// `ESC [ 1 ; n r`: the scroll region covers rows 1 to `n`.
pub open spec fn scroll_region(child_rows: nat) -> Seq<char> {
    "\x1b[1;"@ + decimal(child_rows) + "r"@
}

/// Clears rows `first..=last` (each: move, erase line).
pub open spec fn clear_rows(first: nat, last: nat) -> Seq<char>
    decreases last + 1 - first,
{
    if first > last {
        Seq::empty()
    } else {
        move_to(first) + "\x1b[2K"@ + clear_rows(first + 1, last)
    }
}

/// The HUD rows of a guard: the row after the child's, through the reserved count.
pub open spec fn hud_first(g: TerminalGuard) -> nat {
    if g.child_rows + 1 > u16::MAX { u16::MAX as nat } else { (g.child_rows + 1) as nat }
}

pub open spec fn hud_last(g: TerminalGuard) -> nat {
    let end: nat = (hud_first(g) + g.reserved_rows) as nat;
    let capped: nat = if end > u16::MAX { u16::MAX as nat } else { end };
    if capped == 0 { 0 } else { (capped - 1) as nat }
}

fn push_clear_rows(out: &mut String, first: u16, last: u16)
    ensures
        final(out)@ == old(out)@ + clear_rows(first as nat, last as nat),
    decreases last + 1 - first,
{
    if first <= last {
        push_str(out, "\x1b[");
        push_decimal(out, first as u64);
        push_str(out, ";1H");
        push_str(out, "\x1b[2K");
        if first < last {
            push_clear_rows(out, first + 1, last);
        }
        assert(clear_rows((first + 1) as nat, last as nat) =~= (if first < last { clear_rows((first + 1) as nat, last as nat) } else { Seq::empty() }));
        assert(out@ =~= old(out)@ + clear_rows(first as nat, last as nat));
    }
}

impl TerminalGuard {
    /// The guard and the bytes that enter it: the scroll region, cursor shown.
    pub fn enter(child_rows: u16, reserved_rows: u16) -> (r: (Self, String))
        ensures
            r.0.child_rows == child_rows,
            r.0.reserved_rows == reserved_rows,
            r.1@ == scroll_region(child_rows as nat) + "\x1b[?25h"@,
    {
        let mut out = owned("\x1b[1;");
        push_decimal(&mut out, child_rows as u64);
        push_str(&mut out, "r");
        push_str(&mut out, "\x1b[?25h");
        (TerminalGuard { child_rows, reserved_rows }, out)
    }

    /// Moves the HUD boundary: clears the old HUD rows and sets the new
    /// scroll region, cursor saved and restored.
    pub fn update_reserved_rows(&mut self, child_rows: u16, reserved_rows: u16) -> (r: String)
        ensures
            final(self).child_rows == child_rows,
            final(self).reserved_rows == reserved_rows,
            r@ == "\x1b7\x1b[r"@ + clear_rows(hud_first(*old(self)), hud_last(*old(self))) + scroll_region(child_rows as nat) + "\x1b8"@,
    {
        let first: u16 = self.child_rows.saturating_add(1);
        let last: u16 = first.saturating_add(self.reserved_rows).saturating_sub(1);
        let mut out = owned("\x1b7\x1b[r");
        push_clear_rows(&mut out, first, last);
        push_str(&mut out, "\x1b[1;");
        push_decimal(&mut out, child_rows as u64);
        push_str(&mut out, "r");
        push_str(&mut out, "\x1b8");
        self.child_rows = child_rows;
        self.reserved_rows = reserved_rows;
        out
    }

    /// Reasserts the child scroll region after the child TUI has emitted a
    /// full-screen reset. The cursor is preserved and no status cells are touched.
    pub fn prepare_status_draw(&self, output: &mut String)
        ensures
            final(output)@ == old(output)@ + "\x1b7"@ + scroll_region(self.child_rows as nat) + "\x1b8"@,
    {
        push_str(output, "\x1b7");
        push_str(output, "\x1b[1;");
        push_decimal(output, self.child_rows as u64);
        push_str(output, "r");
        push_str(output, "\x1b8");
    }

    /// What leaving writes: the HUD rows cleared, the full scroll region
    /// restored, styles reset and the cursor shown.
    pub fn exit_sequence(&self) -> (r: String)
        ensures
            r@ == "\x1b7"@ + clear_rows(hud_first(*self), hud_last(*self)) + "\x1b8\x1b[r\x1b[0m\x1b[?25h"@,
    {
        let first: u16 = self.child_rows.saturating_add(1);
        let last: u16 = first.saturating_add(self.reserved_rows).saturating_sub(1);
        let mut out = owned("\x1b7");
        push_clear_rows(&mut out, first, last);
        push_str(&mut out, "\x1b8\x1b[r\x1b[0m\x1b[?25h");
        out
    }
}

/// The first terminal row that a draw paints.
pub open spec fn frame_first(r: StatusRenderer, width: nat, rows: nat, now: nat) -> nat {
    first_row_of(rows, frame_rows(r, width, rows, now).len())
}

/// A draw writes only in the HUD's rows at the bottom of the terminal: it
/// paints at most `rows - 4` rows (at least one), every cursor move goes to a
/// row between the HUD's first row and the last terminal row, so with five or
/// more rows the top four always stay Codex's; and any output is framed by a
/// cursor save and a style reset with cursor restore.
pub proof fn lemma_draw_stays_in_hud_rows(r: StatusRenderer, width: nat, rows: nat, now: nat)
    requires
        1 <= rows <= u16::MAX,
    ensures
        frame_rows(r, width, rows, now).len() <= (if rows >= 5 { (rows - 4) as nat } else { 1 }),
        frame_rows(r, width, rows, now).len() > 0 ==> frame_first(r, width, rows, now) == rows - frame_rows(r, width, rows, now).len() + 1,
        forall|i: nat| i < frame_rows(r, width, rows, now).len()
            ==> frame_first(r, width, rows, now) <= #[trigger] row_at(frame_first(r, width, rows, now), i) <= rows,
        rows >= 5 && frame_rows(r, width, rows, now).len() > 0 ==> frame_first(r, width, rows, now) >= 5,
        draw_output(r, width, rows, now).len() == 0 || draw_output(r, width, rows, now) == "\x1b7"@
            + row_updates(strings_view(r.previous_rows@), frame_rows(r, width, rows, now),
                r.previous_first_row != Some(frame_first(r, width, rows, now) as u16)
                    || r.previous_rows@.len() != frame_rows(r, width, rows, now).len(),
                frame_first(r, width, rows, now), frame_rows(r, width, rows, now).len())
            + "\x1b[0m\x1b8"@,
{
    let all = hud_rows(width, r.display, r.snapshot, r.agent_panel, if now > r.started { (now - r.started) as nat } else { 0 }, now, opt_view(r.home));
    let n0 = drawn_count(all.len(), rows);
    assert(all.take(n0 as int).len() == n0);
    let frame = frame_rows(r, width, rows, now);
    assert(frame.len() == n0);
}

} // verus!
