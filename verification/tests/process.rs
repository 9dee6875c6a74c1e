use codexline::process::{
    backend_name, bypass_reason, child_rows, executable_names, frame_interval_ms, launch_plan, relay_step, reserved_rows,
    BypassReason, ChildSize, LaunchPlan, RelayEvent, RelayState, TerminalFacts,
};

fn tty() -> TerminalFacts {
    TerminalFacts { stdin_tty: true, stdout_tty: true, term: Some("xterm-256color".into()), ci: false, size: Some((120, 40)) }
}

#[test]
fn bypass_reasons_are_checked_in_order() {
    assert_eq!(bypass_reason(true, &tty()), Some(BypassReason::Explicit));
    assert_eq!(bypass_reason(false, &tty()), None);
    assert_eq!(bypass_reason(false, &TerminalFacts { stdout_tty: false, ..tty() }), Some(BypassReason::NonInteractive));
    assert_eq!(bypass_reason(false, &TerminalFacts { term: Some("dumb".into()), ..tty() }), Some(BypassReason::DumbTerminal));
    assert_eq!(bypass_reason(false, &TerminalFacts { ci: true, ..tty() }), Some(BypassReason::ContinuousIntegration));
    assert_eq!(bypass_reason(false, &TerminalFacts { size: Some((39, 40)), ..tty() }), Some(BypassReason::TerminalTooSmall));
    assert_eq!(bypass_reason(false, &TerminalFacts { size: None, ..tty() }), None);
    assert_eq!(BypassReason::TerminalTooSmall.label(), "terminal is smaller than 40x8");
}

#[test]
fn exec_and_bypass_run_codex_directly() {
    let exec: Vec<String> = vec!["exec".into(), "hi".into()];
    assert_eq!(launch_plan(&exec, None), LaunchPlan::Direct(Some(BypassReason::ExecSubcommand)));
    assert_eq!(launch_plan(&exec, Some(BypassReason::DumbTerminal)), LaunchPlan::Direct(Some(BypassReason::DumbTerminal)));
    let run: Vec<String> = vec!["--model".into(), "x".into()];
    assert_eq!(launch_plan(&run, None), LaunchPlan::Companion);
    assert_eq!(executable_names(false), ["codex"]);
    assert_eq!(executable_names(true), ["codex.exe", "codex.cmd", "codex.bat"]);
    assert_eq!(backend_name(false), "POSIX PTY (portable-pty)");
}

#[test]
fn a_forty_row_terminal_gives_codex_thirty_seven_rows() {
    assert_eq!(reserved_rows(3, 40), 3);
    assert_eq!(child_rows(40, 3), 37);
    assert_eq!(reserved_rows(9, 10), 6);
    assert_eq!(reserved_rows(3, 4), 1);
    assert_eq!(frame_interval_ms(8), 125);
}

#[test]
fn the_relay_redraws_on_pace_and_follows_resizes() {
    let state = RelayState { reserved_rows: 3, columns: 120, rows: 40, last_draw_ms: 1000 };
    let (next, actions) = relay_step(state, RelayEvent::Output, 1100, 125, Some((120, 40)), 3);
    assert!(!actions.output_draw && !actions.late_draw);
    assert_eq!(next, state);
    let (next, actions) = relay_step(state, RelayEvent::Output, 1200, 125, Some((100, 30)), 4);
    assert!(actions.output_draw);
    assert_eq!(actions.size_resize, Some(ChildSize { columns: 100, rows: 27 }));
    assert_eq!(actions.rows_resize, Some(ChildSize { columns: 100, rows: 26 }));
    assert_eq!(next.reserved_rows, 4);
    assert_eq!(next.last_draw_ms, 1200);
    let (_, actions) = relay_step(next, RelayEvent::Idle, 2300, 125, None, 4);
    assert!(actions.late_draw);
}
