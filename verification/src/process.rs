//! The launch decisions: when Codex runs directly, when it runs inside the
//! companion's PTY, and how the terminal rows are shared between them.

use crate::config::DisplayConfig;
use crate::state::StatusSnapshot;
use crate::text::same_text;
use vstd::prelude::*;

verus! {

/// Why Codex runs without the companion.
#[derive(Debug, Clone, Copy, PartialEq, Eq, Structural)]
pub enum BypassReason {
    Explicit,
    NonInteractive,
    DumbTerminal,
    ContinuousIntegration,
    ExecSubcommand,
    TerminalTooSmall,
}

impl BypassReason {
    pub fn label(self) -> (r: &'static str)
        ensures
            r@ == (match self {
                BypassReason::Explicit => "requested with --no-companion"@,
                BypassReason::NonInteractive => "stdin or stdout is not a TTY"@,
                BypassReason::DumbTerminal => "TERM=dumb"@,
                BypassReason::ContinuousIntegration => "CI environment detected"@,
                BypassReason::ExecSubcommand => "codex exec is non-interactive"@,
                BypassReason::TerminalTooSmall => "terminal is smaller than 40x8"@,
            }),
    {
        match self {
            BypassReason::Explicit => "requested with --no-companion",
            BypassReason::NonInteractive => "stdin or stdout is not a TTY",
            BypassReason::DumbTerminal => "TERM=dumb",
            BypassReason::ContinuousIntegration => "CI environment detected",
            BypassReason::ExecSubcommand => "codex exec is non-interactive",
            BypassReason::TerminalTooSmall => "terminal is smaller than 40x8",
        }
    }
}

/// What the process knows about its terminal: whether stdin and stdout are
/// terminals, `TERM` (when set and readable), whether `CI` is set, and the
/// terminal size (when it could be read).
#[derive(Debug)]
pub struct TerminalFacts {
    pub stdin_tty: bool,
    pub stdout_tty: bool,
    pub term: Option<String>,
    pub ci: bool,
    pub size: Option<(u16, u16)>,
}

/// The first reason, in checking order, to run Codex directly.
pub open spec fn bypass_spec(explicit: bool, f: TerminalFacts) -> Option<BypassReason> {
    if explicit {
        Some(BypassReason::Explicit)
    } else if !f.stdin_tty || !f.stdout_tty {
        Some(BypassReason::NonInteractive)
    } else if f.term matches Some(t) && t@ == "dumb"@ {
        Some(BypassReason::DumbTerminal)
    } else if f.ci {
        Some(BypassReason::ContinuousIntegration)
    } else if f.size matches Some((columns, rows)) && (columns < 40 || rows < 8) {
        Some(BypassReason::TerminalTooSmall)
    } else {
        None
    }
}

pub fn bypass_reason(explicit: bool, facts: &TerminalFacts) -> (r: Option<BypassReason>)
    ensures
        r == bypass_spec(explicit, *facts),
{
    if explicit {
        return Some(BypassReason::Explicit);
    }
    if !facts.stdin_tty || !facts.stdout_tty {
        return Some(BypassReason::NonInteractive);
    }
    if let Some(term) = &facts.term {
        if same_text(term.as_str(), "dumb") {
            return Some(BypassReason::DumbTerminal);
        }
    }
    if facts.ci {
        return Some(BypassReason::ContinuousIntegration);
    }
    if let Some((columns, rows)) = facts.size {
        if columns < 40 || rows < 8 {
            return Some(BypassReason::TerminalTooSmall);
        }
    }
    None
}

/// Everything a launch needs.
#[derive(Debug)]
pub struct LaunchRequest {
    pub executable: String,
    pub args: Vec<String>,
    pub bypass: Option<BypassReason>,
    pub display: DisplayConfig,
    pub snapshot: StatusSnapshot,
    pub app_server: bool,
    pub remote_proxy: bool,
}

/// How Codex is started.
#[derive(Debug, Clone, Copy, PartialEq, Eq, Structural)]
pub enum LaunchPlan {
    /// Replace this process with Codex; the reason, when there is one.
    Direct(Option<BypassReason>),
    /// Run Codex inside the companion's PTY, falling back to `Direct(None)`
    /// when the PTY cannot be set up.
    Companion,
}

/// `codex exec` and any bypass reason run Codex directly.
pub open spec fn plan_spec(args: Seq<Seq<char>>, bypass: Option<BypassReason>) -> LaunchPlan {
    let exec = args.len() > 0 && args[0] == "exec"@;
    if bypass is Some {
        LaunchPlan::Direct(bypass)
    } else if exec {
        LaunchPlan::Direct(Some(BypassReason::ExecSubcommand))
    } else {
        LaunchPlan::Companion
    }
}

pub fn launch_plan(args: &Vec<String>, bypass: Option<BypassReason>) -> (r: LaunchPlan)
    ensures
        r == plan_spec(crate::text::strings_view(args@), bypass),
{
    let exec = args.len() > 0 && same_text(args[0].as_str(), "exec");
    if bypass.is_some() {
        LaunchPlan::Direct(bypass)
    } else if exec {
        LaunchPlan::Direct(Some(BypassReason::ExecSubcommand))
    } else {
        LaunchPlan::Companion
    }
}

/// The file names searched for on `PATH`.
pub fn executable_names(windows: bool) -> (r: Vec<&'static str>)
    ensures
        windows ==> r@.len() == 3 && r@[0]@ == "codex.exe"@ && r@[1]@ == "codex.cmd"@ && r@[2]@ == "codex.bat"@,
        !windows ==> r@.len() == 1 && r@[0]@ == "codex"@,
{
    if windows {
        vec!["codex.exe", "codex.cmd", "codex.bat"]
    } else {
        vec!["codex"]
    }
}

/// The PTY backend in use.
pub fn backend_name(windows: bool) -> (r: &'static str)
    ensures
        r@ == (if windows { "ConPTY (portable-pty)"@ } else { "POSIX PTY (portable-pty)"@ }),
{
    if windows { "ConPTY (portable-pty)" } else { "POSIX PTY (portable-pty)" }
}

/// The child's rows: what the HUD leaves (saturating).
pub open spec fn child_rows_spec(rows: u16, reserved: u16) -> u16 {
    if rows >= reserved { (rows - reserved) as u16 } else { 0 }
}

pub fn child_rows(rows: u16, reserved: u16) -> (r: u16)
    ensures
        r == child_rows_spec(rows, reserved),
{
    if rows >= reserved { rows - reserved } else { 0 }
}

/// The HUD rows to reserve: what the HUD wants, leaving the child at least
/// four rows, and at least one HUD row.
pub open spec fn reserved_rows_spec(required: u16, rows: u16) -> u16 {
    let room: u16 = if rows >= 5 { (rows - 4) as u16 } else { 1 };
    if required < room { required } else { room }
}

pub fn reserved_rows(required: u16, rows: u16) -> (r: u16)
    ensures
        r == reserved_rows_spec(required, rows),
{
    let room: u16 = if rows >= 5 { rows - 4 } else { 1 };
    if required < room { required } else { room }
}

/// Milliseconds between redraws driven by output.
pub fn frame_interval_ms(refresh_hz: u8) -> (r: u64)
    requires
        refresh_hz > 0,
    ensures
        r == 1000int / (refresh_hz as int),
{
    1000 / (refresh_hz as u64)
}

/// The relay loop's memory: the reserved rows, the last terminal size, and
/// when the HUD was last drawn (milliseconds on a monotonic clock).
#[derive(Debug, Clone, Copy, PartialEq, Eq, Structural)]
pub struct RelayState {
    pub reserved_rows: u16,
    pub columns: u16,
    pub rows: u16,
    pub last_draw_ms: u64,
}

/// What happened since the last step.
#[derive(Debug, Clone, Copy, PartialEq, Eq, Structural)]
pub enum RelayEvent {
    /// The child wrote output (already copied to the terminal).
    Output,
    /// Nothing arrived within the poll interval.
    Idle,
}

/// What the loop does after an event, in this order: draw the HUD after the
/// copied output (`output_draw`); on a terminal resize, resize the child PTY and
/// move the HUD boundary to `(columns, child_rows)` with the rows reserved so
/// far (`size_resize`); when the HUD wants other rows, resize to
/// `(columns, child_rows)` with the new reservation and draw (`rows_resize`);
/// draw when a second passed since the last draw (`late_draw`).
#[derive(Debug, Clone, Copy, PartialEq, Eq, Structural)]
pub struct RelayActions {
    pub output_draw: bool,
    pub size_resize: Option<ChildSize>,
    pub rows_resize: Option<ChildSize>,
    pub late_draw: bool,
}

/// The child PTY's size.
#[derive(Debug, Clone, Copy, PartialEq, Eq, Structural)]
pub struct ChildSize {
    pub columns: u16,
    pub rows: u16,
}

pub open spec fn elapsed(now: u64, before: u64) -> int {
    if now >= before { now - before } else { 0 }
}

/// One step of the relay loop at time `now`, given the terminal size just read
/// (when readable) and the rows the HUD currently wants at the new width.
pub open spec fn relay_spec(s: RelayState, event: RelayEvent, now: u64, interval_ms: u64, size: Option<(u16, u16)>, required: u16) -> (RelayState, RelayActions) {
    let output_draw = event == RelayEvent::Output && elapsed(now, s.last_draw_ms) >= interval_ms;
    let t1: u64 = if output_draw { now } else { s.last_draw_ms };
    let resized = size matches Some((c, r)) && (c != s.columns || r != s.rows);
    let columns = if resized { size.unwrap().0 } else { s.columns };
    let rows = if resized { size.unwrap().1 } else { s.rows };
    let wanted = reserved_rows_spec(required, rows);
    let rows_changed = wanted != s.reserved_rows;
    let t2: u64 = if rows_changed { now } else { t1 };
    let late = elapsed(now, t2) >= 1000;
    (
        RelayState {
            reserved_rows: wanted,
            columns: columns,
            rows: rows,
            last_draw_ms: if late { now } else { t2 },
        },
        RelayActions {
            output_draw: output_draw,
            size_resize: if resized { Some(ChildSize { columns: columns, rows: child_rows_spec(rows, s.reserved_rows) }) } else { None },
            rows_resize: if rows_changed { Some(ChildSize { columns: columns, rows: child_rows_spec(rows, wanted) }) } else { None },
            late_draw: late,
        },
    )
}

/// One step of the relay loop: the output-paced redraw, a terminal resize, a
/// change of the HUD's wanted rows, and the once-a-second redraw.
pub fn relay_step(s: RelayState, event: RelayEvent, now: u64, interval_ms: u64, size: Option<(u16, u16)>, required: u16) -> (r: (RelayState, RelayActions))
    ensures
        r == relay_spec(s, event, now, interval_ms, size, required),
{
    let since: u64 = if now >= s.last_draw_ms { now - s.last_draw_ms } else { 0 };
    let output_draw = event == RelayEvent::Output && since >= interval_ms;
    let t1: u64 = if output_draw { now } else { s.last_draw_ms };
    let (resized, columns, rows) = match size {
        Some((c, r)) => if c != s.columns || r != s.rows { (true, c, r) } else { (false, s.columns, s.rows) },
        None => (false, s.columns, s.rows),
    };
    let wanted = reserved_rows(required, rows);
    let rows_changed = wanted != s.reserved_rows;
    let t2: u64 = if rows_changed { now } else { t1 };
    let since2: u64 = if now >= t2 { now - t2 } else { 0 };
    let late = since2 >= 1000;
    (
        RelayState { reserved_rows: wanted, columns, rows, last_draw_ms: if late { now } else { t2 } },
        RelayActions {
            output_draw,
            size_resize: if resized { Some(ChildSize { columns, rows: child_rows(rows, s.reserved_rows) }) } else { None },
            rows_resize: if rows_changed { Some(ChildSize { columns, rows: child_rows(rows, wanted) }) } else { None },
            late_draw: late,
        },
    )
}

/// The terminal's rows are shared: the HUD keeps at least one row, leaves the
/// child at least four when the terminal has five or more, and the child gets
/// the rest.
pub proof fn lemma_rows_are_shared(required: u16, rows: u16)
    ensures
        reserved_rows_spec(required, rows) >= 1 || required == 0,
        reserved_rows_spec(required, rows) <= required,
        rows >= 5 ==> child_rows_spec(rows, reserved_rows_spec(required, rows)) >= 4,
        rows >= 5 ==> child_rows_spec(rows, reserved_rows_spec(required, rows)) + reserved_rows_spec(required, rows) == rows,
{
}

} // verus!
