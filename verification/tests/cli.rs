use codexline::cli::{
    declines_save, glyph_answer, invoked_as_codex_shim, launch_answer, parse_at_most, preset_answer, preset_number,
    remove_bypass_flag, theme_answer, theme_number, toggle_segments, ToggleError,
};
use codexline::config::{Glyphs, LaunchMode, Segment, Theme};

#[test]
fn removes_only_companion_bypass_flag() {
    let mut args: Vec<String> = vec!["exec".into(), "--no-companion".into(), "hello".into()];
    assert!(remove_bypass_flag(&mut args));
    assert_eq!(args, ["exec", "hello"]);
}

#[test]
fn presets_and_module_toggles_are_deterministic() {
    let mut segments = vec![Segment::App, Segment::Elapsed];
    assert_eq!(preset_number(&segments), "3");
    toggle_segments(&mut segments, "2 3").unwrap();
    assert_eq!(segments, [Segment::App, Segment::Cwd]);
    assert_eq!(preset_number(&segments), "4");
}

#[test]
fn toggles_refuse_bad_numbers_after_applying_earlier_ones() {
    let mut segments = vec![Segment::App];
    match toggle_segments(&mut segments, "3,x") {
        Err(ToggleError::InvalidNumber(t)) => assert_eq!(t, "x"),
        other => panic!("unexpected {:?}", other),
    }
    assert_eq!(segments, [Segment::App, Segment::Cwd]);
    let err = toggle_segments(&mut segments, "9").unwrap_err();
    assert_eq!(err.message(), "module number 9 is not available");
    assert!(matches!(toggle_segments(&mut segments, "256"), Err(ToggleError::InvalidNumber(_))));
    toggle_segments(&mut segments, ",, +1 ,").unwrap();
    assert_eq!(segments, [Segment::Cwd]);
    assert_eq!(ToggleError::InvalidNumber("x".into()).message(), "invalid module number `x`");
}

#[test]
fn numbers_parse_like_str_parse() {
    assert_eq!(parse_at_most("255", 255), Some(255));
    assert_eq!(parse_at_most("+7", 255), Some(7));
    assert_eq!(parse_at_most("256", 255), None);
    assert_eq!(parse_at_most("", 255), None);
    assert_eq!(parse_at_most("+", 255), None);
    assert_eq!(parse_at_most("-1", 255), None);
    assert_eq!(parse_at_most("0012", 65535), Some(12));
    assert_eq!(parse_at_most("99999999999999999999999", 65535), None);
}

#[test]
fn setup_answers_follow_the_prompts() {
    assert_eq!(launch_answer("", LaunchMode::Explicit), Some(LaunchMode::Explicit));
    assert_eq!(launch_answer("1", LaunchMode::Explicit), Some(LaunchMode::Shim));
    assert_eq!(launch_answer("3", LaunchMode::Shim), None);
    assert_eq!(preset_answer("", &vec![Segment::App, Segment::Elapsed]).unwrap(), [Segment::App, Segment::Elapsed]);
    assert_eq!(preset_answer("1", &vec![Segment::Git]).unwrap(), [Segment::App, Segment::Elapsed, Segment::Cwd, Segment::Status]);
    assert_eq!(preset_answer("4", &vec![Segment::Git]).unwrap(), [Segment::Git]);
    assert!(preset_answer("5", &vec![Segment::Git]).is_none());
    assert_eq!(theme_answer("", Theme::Nord), Some(Theme::Nord));
    assert_eq!(theme_answer("2", Theme::Nord), Some(Theme::CodexLight));
    assert_eq!(theme_answer("x", Theme::Nord), None);
    assert_eq!(theme_number(Theme::Mono), Some("4"));
    assert_eq!(theme_number(Theme::Nord), None);
    assert_eq!(glyph_answer("2", Glyphs::Unicode), Some(Glyphs::Ascii));
    assert!(declines_save("NO"));
    assert!(!declines_save("y"));
    assert!(invoked_as_codex_shim(Some("CoDeX")));
    assert!(!invoked_as_codex_shim(Some("codexline")));
    assert!(!invoked_as_codex_shim(None));
}
