use codexline::config::{Config, Segment};
use codexline::config_ui::{
    option_lines, preset_index, screen, source_index, truncate, Color, Editor, EditorError, FocusLevel, Key, KeyPress,
    ModuleCategory, Outcome, Page,
};

fn key(code: Key) -> KeyPress {
    KeyPress { key: code, control: false }
}

#[test]
fn keyboard_navigation_and_module_toggle_are_deterministic() {
    let mut editor = Editor::new(Config::default());
    editor.select_page(2);
    assert_eq!(editor.page, Page::Modules);
    assert!(editor.config.display.segments.contains(&Segment::App));
    editor.handle_key(key(Key::Down)).unwrap();
    editor.handle_key(key(Key::Down)).unwrap();
    assert_eq!(editor.handle_key(key(Key::Char(' '))).unwrap(), Outcome::Continue);
    assert!(!editor.config.display.segments.contains(&Segment::App));
    assert!(editor.dirty());
}

#[test]
fn module_categories_use_horizontal_navigation_without_leaving_the_page() {
    let mut editor = Editor::new(Config::default());
    editor.select_page(2);

    editor.handle_key(key(Key::Down)).unwrap();
    assert_eq!(editor.focus, FocusLevel::Secondary);
    editor.handle_key(key(Key::Right)).unwrap();
    assert_eq!(editor.page, Page::Modules);
    assert_eq!(editor.module_category, ModuleCategory::Usage);
    assert_eq!(editor.cursor, 0);

    editor.handle_key(key(Key::Tab)).unwrap();
    assert_eq!(editor.page, Page::Appearance);
}

#[test]
fn arrows_move_between_levels_space_edits_and_enter_saves() {
    let mut editor = Editor::new(Config::default());
    editor.select_page(2);
    assert_eq!(editor.focus, FocusLevel::Primary);

    editor.handle_key(key(Key::Down)).unwrap();
    assert_eq!(editor.focus, FocusLevel::Secondary);
    editor.handle_key(key(Key::Down)).unwrap();
    assert_eq!(editor.focus, FocusLevel::Options);

    assert!(editor.config.display.segments.contains(&Segment::App));
    editor.handle_key(key(Key::Char(' '))).unwrap();
    assert!(!editor.config.display.segments.contains(&Segment::App));

    editor.handle_key(key(Key::Up)).unwrap();
    assert_eq!(editor.focus, FocusLevel::Secondary);
    editor.handle_key(key(Key::Up)).unwrap();
    assert_eq!(editor.focus, FocusLevel::Primary);

    assert_eq!(editor.handle_key(key(Key::Enter)).unwrap(), Outcome::Save);
}

#[test]
fn presets_and_sources_update_the_same_staged_snapshot() {
    let mut editor = Editor::new(Config::default());
    editor.select_page(1);
    editor.cursor = 2;
    editor.activate().unwrap();
    assert_eq!(preset_index(&editor.config), 2);

    editor.select_page(4);
    editor.cursor = 1;
    editor.activate().unwrap();
    assert_eq!(source_index(&editor.config.sources), 1);
    assert!(!editor.config.sources.app_server);
}

#[test]
fn escape_cancels_without_mutating_the_original_snapshot() {
    let mut editor = Editor::new(Config::default());
    editor.config.display.rows = 1;
    assert_eq!(editor.handle_key(key(Key::Esc)).unwrap(), Outcome::Cancel);
    assert_eq!(editor.original.display.rows, 3);
}

#[test]
fn the_last_module_cannot_be_removed_and_invalid_configs_are_not_saved() {
    let mut editor = Editor::new(Config::default());
    editor.config.display.segments = vec![Segment::App];
    editor.select_page(2);
    editor.focus = FocusLevel::Options;
    let error = editor.handle_key(key(Key::Char(' '))).unwrap_err();
    assert_eq!(error, EditorError::LastModule);
    editor.report(error);
    assert_eq!(editor.message, "at least one module must remain enabled");
    assert_eq!(editor.config.display.segments, [Segment::App]);
    editor.config.display.refresh_hz = 0;
    assert!(matches!(editor.handle_key(key(Key::Char('s'))), Err(EditorError::Invalid(_))));
    let ctrl_c = KeyPress { key: Key::Char('c'), control: true };
    assert_eq!(editor.handle_key(ctrl_c).unwrap(), Outcome::Cancel);
}

#[test]
fn home_end_and_digits_move_within_bounds() {
    let mut editor = Editor::new(Config::default());
    editor.handle_key(key(Key::Char('4'))).unwrap();
    assert_eq!(editor.page, Page::Appearance);
    editor.handle_key(key(Key::Char('j'))).unwrap();
    assert_eq!(editor.focus, FocusLevel::Options);
    editor.handle_key(key(Key::End)).unwrap();
    assert_eq!(editor.cursor, 17);
    editor.handle_key(key(Key::Down)).unwrap();
    assert_eq!(editor.cursor, 17);
    editor.handle_key(key(Key::Char(' '))).unwrap();
    assert_eq!(editor.config.display.rows, 3);
    editor.handle_key(key(Key::Up)).unwrap();
    editor.handle_key(key(Key::Char(' '))).unwrap();
    assert_eq!(editor.config.display.rows, 2);
    editor.handle_key(key(Key::Home)).unwrap();
    assert_eq!(editor.cursor, 0);
    editor.handle_key(key(Key::Left)).unwrap();
    assert_eq!(editor.page, Page::Appearance);
    assert_eq!(editor.message, "Selection updated · Enter saves · Esc cancels");
}

#[test]
fn option_lines_mark_the_current_choice() {
    let mut editor = Editor::new(Config::default());
    let lines = option_lines(&editor);
    assert_eq!(lines[0], ("( ) Keep `codex` command · recommended".to_string(), true));
    assert_eq!(lines[1].1, false);
    editor.select_page(2);
    let lines = option_lines(&editor);
    assert_eq!(lines[0], ("[x] App · Codex identity".to_string(), true));
    assert_eq!(lines[2], ("[ ] Reasoning effort".to_string(), false));
    editor.select_page(3);
    let lines = option_lines(&editor);
    assert_eq!(lines.len(), 18);
    assert_eq!(lines[12], ("( ) Theme · Pastel Syntax · transparent".to_string(), true));
    assert_eq!(lines[17], ("( ) Layout · 3 rows".to_string(), true));
}

#[test]
fn truncation_ends_with_an_ellipsis() {
    assert_eq!(truncate("abcdef", 10), "abcdef");
    assert_eq!(truncate("abcdef", 4), "abc…");
    assert_eq!(truncate("abcdef", 1), "…");
    assert_eq!(truncate("abcdef", 0), "");
}

#[test]
fn the_screen_asks_for_room_and_then_draws_tabs_options_and_preview() {
    let editor = Editor::new(Config::default());
    let small = screen(&editor, 60, 20, &vec![]);
    assert_eq!(small.len(), 2);
    assert_eq!(small[0].text, "Codexline config needs 72×24; current terminal is 60×20.");
    assert_eq!(small[0].fg, Color::Yellow);

    let preview = vec!["row one".to_string(), "row two".to_string()];
    let ops = screen(&editor, 100, 30, &preview);
    assert_eq!(ops[0].text, "Codexline Config");
    assert_eq!(ops[1].text, "  ✓ saved");
    assert_eq!((ops[2].x, ops[2].y), (2, 3));
    assert_eq!(ops[2].text, " 1 Launch ");
    assert_eq!(ops[2].bg, Color::Cyan);
    assert_eq!((ops[3].x, ops[3].text.as_str()), (13, " 2 Preset "));
    assert!(ops.iter().any(|op| op.text == "› ( ) Keep `codex` command · recommended" || op.text == "  (●) Keep `codex` command · recommended"));
    let last = ops.len() - 1;
    assert_eq!(ops[last].y, 28);
    assert_eq!(ops[last - 1].y, 27);
    assert_eq!(ops[last - 2].text, "row two");
    assert_eq!(ops[last - 2].y, 26);
    assert_eq!(ops[last - 3].y, 25);
    assert!(ops.iter().any(|op| op.text.starts_with(" Live preview · Full · 3 rows · 16 modules · Safe sidecar ")));
}

#[test]
fn each_radio_group_marks_exactly_one_option() {
    let mut editor = Editor::new(Config::default());
    editor.page = Page::Appearance;
    let lines = option_lines(&editor);
    assert_eq!(lines.len(), editor.option_count());
    assert_eq!(lines[..13].iter().filter(|l| l.1).count(), 1);
    assert_eq!(lines[13..15].iter().filter(|l| l.1).count(), 1);
    assert_eq!(lines[15..18].iter().filter(|l| l.1).count(), 1);
    for page in [Page::Launch, Page::Preset, Page::Sources] {
        editor.page = page;
        assert_eq!(option_lines(&editor).iter().filter(|l| l.1).count(), 1);
    }
    editor.page = Page::Review;
    assert_eq!(option_lines(&editor).iter().filter(|l| l.1).count(), 0);
}
