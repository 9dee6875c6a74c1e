use codexline::layout::fit_layout;
use codexline::config::{DisplayConfig, Segment, Theme};
use codexline::hud::{preview_ansi, StatusRenderer, TerminalGuard};
use codexline::panel::{agent_panel_layouts, AgentPanelState};
use codexline::render::preview_line;
use codexline::state::StatusSnapshot;
use unicode_width::UnicodeWidthStr;

#[test]
fn preview_always_fits_requested_width() {
    for width in [20, 40, 80, 120] {
        let line = preview_line(width, &DisplayConfig::default());
        for row in line.lines() {
            assert_eq!(UnicodeWidthStr::width(row), width as usize);
        }
    }
}

#[test]
fn preview_respects_segment_order_and_visibility() {
    let display = DisplayConfig {
        segments: vec![Segment::Elapsed, Segment::App],
        separator: " :: ".into(),
        ..DisplayConfig::default()
    };
    let line = preview_line(120, &display);
    assert!(line.contains("8s :: ● Codex"));
    assert!(!line.contains("companion active"));
}

#[test]
fn full_layout_keeps_workspace_and_health_context_at_common_widths() {
    let line = preview_line(90, &DisplayConfig::default());
    assert!(line.contains("git:(feat/statusline*)"));
    assert!(line.contains("DIR ~/pro/codex-cli-statusline"));
    assert!(line.contains("H+A ✓"));
}

#[test]
fn inherit_theme_never_paints_a_background() {
    let inherited = preview_ansi(100, &DisplayConfig::default());
    assert!(!inherited.contains("\x1b[48;"));

    let ox96f = preview_ansi(100, &DisplayConfig { theme: Theme::Ox96f, ..DisplayConfig::default() });
    assert!(!ox96f.contains("\x1b[48;"));
    assert!(ox96f.contains("\x1b[38;2;0;205;232m"));

    let fixed_dark = preview_ansi(100, &DisplayConfig { theme: Theme::CodexDark, ..DisplayConfig::default() });
    assert!(fixed_dark.contains("\x1b[48;"));
}

#[test]
fn agent_panel_is_visible_and_keyboard_driven() {
    let snapshot = StatusSnapshot::showcase();
    let mut panel = AgentPanelState::default();
    let passive = agent_panel_layouts(100, &snapshot, panel, 0);
    assert!(passive[0][0].1.contains("Ctrl+G focus"));
    assert!(passive.iter().any(|row| row[0].1.contains("explore")));

    assert!(panel.handle_input(&[0x07], snapshot.agents.len()));
    assert!(panel.handle_input(b"\x1b[B", snapshot.agents.len()));
    assert!(panel.handle_input(b"\r", snapshot.agents.len()));
    let detail = agent_panel_layouts(100, &snapshot, panel, 0);
    assert!(detail.iter().any(|row| row[0].1.starts_with("Goal")));
    assert!(detail.iter().any(|row| row[0].1.starts_with("Latest")));
}

#[test]
fn renderer_diffs_rows_without_resetting_the_scroll_region() {
    let mut renderer = StatusRenderer::new(DisplayConfig::default(), StatusSnapshot::showcase());
    let mut first = String::new();
    renderer.draw(&mut first, 100, 40, 0);
    let text = first.clone();
    assert!(text.match_indices("\x1b[1;").all(|(start, _)| {
        text[start + 4..].chars().find(char::is_ascii_alphabetic) != Some('r')
    }));
    assert!(!first.as_bytes().windows(2).any(|window| window == b"2K"));

    let mut unchanged = String::new();
    renderer.draw(&mut unchanged, 100, 40, 0);
    assert!(unchanged.is_empty());
}

#[test]
fn invalidation_redraws_every_unchanged_hud_row() {
    let display = DisplayConfig::default();
    let mut renderer = StatusRenderer::new(display, StatusSnapshot::default());
    let mut first = String::new();
    renderer.draw(&mut first, 100, 40, 0);

    renderer.invalidate();
    let mut restored = String::new();
    renderer.draw(&mut restored, 100, 40, 0);

    assert!(restored.contains("\x1b[38;1H"));
    assert!(restored.contains("\x1b[39;1H"));
    assert!(restored.contains("\x1b[40;1H"));
}

#[test]
fn the_terminal_guard_moves_the_boundary_and_restores_on_exit() {
    let (mut guard, entered) = TerminalGuard::enter(37, 3);
    assert_eq!(entered, "\x1b[1;37r\x1b[?25h");
    let moved = guard.update_reserved_rows(38, 2);
    assert_eq!(moved, "\x1b7\x1b[r\x1b[38;1H\x1b[2K\x1b[39;1H\x1b[2K\x1b[40;1H\x1b[2K\x1b[1;38r\x1b8");
    let mut out = String::new();
    guard.prepare_status_draw(&mut out);
    assert_eq!(out, "\x1b7\x1b[1;38r\x1b8");
    assert_eq!(guard.exit_sequence(), "\x1b7\x1b[39;1H\x1b[2K\x1b[40;1H\x1b[2K\x1b8\x1b[r\x1b[0m\x1b[?25h");
}

#[test]
fn required_rows_count_the_hud_and_the_inspector() {
    let renderer = StatusRenderer::new(DisplayConfig::default(), StatusSnapshot::default());
    assert_eq!(renderer.required_rows(100, 0), 3);
    let busy = StatusRenderer::new(DisplayConfig::default(), StatusSnapshot::showcase());
    assert!(busy.required_rows(100, 0) > 3);
}

#[test]
fn panel_text_drops_control_characters_and_fits() {
    let row = codexline::rows::panel_layout(Segment::Tokens, "Latest \u{1b}[31mred\u{7} done", 80);
    assert_eq!(row.len(), 1);
    assert_eq!(row[0].0, Segment::Tokens);
    assert_eq!(row[0].1, "Latest [31mred done");
    let narrow = codexline::rows::panel_layout(Segment::Tokens, "abcdefghij", 6);
    assert_eq!(narrow[0].1, "abcd");
}

#[test]
fn status_rows_drop_control_characters_from_snapshot_text() {
    let mut snapshot = StatusSnapshot::default();
    snapshot.model = Some("gpt\u{1b}[31m-5".into());
    snapshot.reasoning = Some("high\u{7}".into());
    snapshot.work = Some("exec\r 8s".into());
    let display = DisplayConfig { rows: 1, segments: vec![Segment::Model, Segment::Work], ..DisplayConfig::default() };
    let rows = codexline::render::status_layouts(120, &display, &snapshot, 0, 0, &None);
    assert_eq!(rows.len(), 1);
    assert_eq!(rows[0][0].1, "gpt[31m-5 high");
    assert_eq!(rows[0][1].1, "exec 8s");
    for row in &rows {
        for (_, text) in row {
            assert!(!text.chars().any(char::is_control));
        }
    }
}

#[test]
fn a_draw_moves_only_to_the_bottom_rows() {
    let mut renderer = StatusRenderer::new(DisplayConfig::default(), StatusSnapshot::showcase());
    let mut out = String::new();
    renderer.draw(&mut out, 100, 8, 0);
    assert!(out.starts_with("\u{1b}7"));
    assert!(out.ends_with("\u{1b}[0m\u{1b}8"));
    let moves: Vec<u16> = out
        .match_indices(";1H")
        .map(|(end, _)| {
            let start = out[..end].rfind("\u{1b}[").unwrap() + 2;
            out[start..end].parse().unwrap()
        })
        .collect();
    assert_eq!(moves, vec![5, 6, 7, 8]);
}

#[test]
fn the_list_view_marks_only_the_selected_agent() {
    let snapshot = StatusSnapshot::showcase();
    let mut panel = AgentPanelState::default();
    assert!(panel.handle_input(&[0x07], snapshot.agents.len()));
    assert!(panel.handle_input(b"\x1b[B", snapshot.agents.len()));
    let rows = agent_panel_layouts(100, &snapshot, panel, 0);
    assert_eq!(rows.len(), 3);
    assert!(rows.iter().all(|row| row.len() == 1));
    assert_eq!(rows.iter().filter(|row| row[0].1.starts_with('›')).count(), 1);
    assert!(rows[2][0].1.starts_with('›'));
}

#[test]
fn fitting_drops_the_lowest_priority_modules_first() {
    let cells = vec![
        (Segment::Work, "exec 8s".to_string()),
        (Segment::SessionId, "thr_showcase".to_string()),
        (Segment::Elapsed, "8s".to_string()),
        (Segment::Model, "gpt-5".to_string()),
    ];
    let fitted = fit_layout(cells.clone(), 20, " | ");
    let kept: Vec<Segment> = fitted.iter().map(|c| c.0).collect();
    assert_eq!(kept, vec![Segment::Work, Segment::Model]);
    assert_eq!(fit_layout(cells.clone(), 200, " | ").len(), 4);
}

#[test]
fn status_rows_hold_only_configured_modules() {
    let snapshot = StatusSnapshot::showcase();
    let display = DisplayConfig { rows: 2, segments: vec![Segment::App, Segment::Agents, Segment::Cwd], ..DisplayConfig::default() };
    let rows = codexline::render::status_layouts(120, &display, &snapshot, 8, 0, &None);
    assert_eq!(rows.len(), 2);
    assert!(rows.iter().all(|row| !row.is_empty()));
    let shown: Vec<Segment> = rows.iter().flatten().map(|cell| cell.0).collect();
    assert_eq!(shown, vec![Segment::App, Segment::Cwd]);
}
