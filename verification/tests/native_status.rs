use codexline::codex_toml::TomlValue;
use codexline::native_status::{override_from_lookup, setting_from_lookup};
use codexline::native_status::{
    command_line_override, detect, disable_for_companion, parse_override, project_mentions_status_line, selected_profile,
    setting_from_source, setting_read, LayerFacts, NativeStatusState, ProjectLevel, SettingError, SettingRead,
};

#[test]
fn empty_cli_array_disables_native_footer() {
    let args: Vec<String> = vec!["-c".into(), "tui.status_line=[]".into()];
    let result = command_line_override(&args).unwrap();
    assert_eq!(result.state, NativeStatusState::Disabled);
}

#[test]
fn nonempty_cli_array_enables_native_footer() {
    let args: Vec<String> = vec!["--config=tui.status_line=[\"model\"]".into()];
    let result = command_line_override(&args).unwrap();
    assert_eq!(result.state, NativeStatusState::Enabled);
}

#[test]
fn companion_disables_native_footer_without_overriding_user_intent() {
    let mut args: Vec<String> = vec!["--model".into(), "gpt-test".into()];
    assert!(disable_for_companion(&mut args));
    assert_eq!(args[args.len() - 2..], ["-c", "tui.status_line=[]"]);

    let mut explicit: Vec<String> = vec!["-c".into(), "tui.status_line=[\"model\"]".into()];
    assert!(!disable_for_companion(&mut explicit));
    assert_eq!(explicit.len(), 2);
}

#[test]
fn reads_enabled_and_disabled_settings() {
    assert_eq!(setting_from_source("[tui]\nstatus_line = []\n"), Ok(Some(false)));
    assert_eq!(setting_from_source("[tui]\nstatus_line = [\"model\"]\n"), Ok(Some(true)));
    assert_eq!(setting_from_source("model = \"x\"\n"), Ok(None));
    assert_eq!(setting_from_source("[tui]\nstatus_line = 3\n"), Err(SettingError::NotAnArray));
    assert_eq!(setting_from_source("this is not toml = ["), Err(SettingError::InvalidToml));
    assert_eq!(setting_read(Ok(Some(true))), SettingRead::Configured(true));
    assert_eq!(setting_read(Err(SettingError::InvalidToml)), SettingRead::Unreadable);
}

#[test]
fn overrides_parse_toml_arrays_and_the_last_one_wins() {
    assert_eq!(parse_override("[]"), Ok(false));
    assert_eq!(parse_override("[\"a\", \"b\"]"), Ok(true));
    assert!(parse_override("nope").is_err());
    let args: Vec<String> = vec!["-c".into(), "tui.status_line=[]".into(), "-c=tui.status_line=[\"x\"]".into()];
    assert_eq!(command_line_override(&args).unwrap().state, NativeStatusState::Enabled);
    let broken: Vec<String> = vec!["--config".into(), "tui.status_line=oops".into()];
    let d = command_line_override(&broken).unwrap();
    assert_eq!(d.state, NativeStatusState::Unknown);
    assert_eq!(d.source, "command-line override");
    let none: Vec<String> = vec!["-c".into(), "model=\"x\"".into(), "-c".into()];
    assert!(command_line_override(&none).is_none());
}

#[test]
fn project_search_stops_at_the_repository_root() {
    let levels = vec![
        ProjectLevel { setting: SettingRead::Absent, has_git: false },
        ProjectLevel { setting: SettingRead::Absent, has_git: true },
        ProjectLevel { setting: SettingRead::Configured(true), has_git: false },
    ];
    assert!(!project_mentions_status_line(&levels));
    let levels = vec![
        ProjectLevel { setting: SettingRead::Absent, has_git: false },
        ProjectLevel { setting: SettingRead::Unreadable, has_git: true },
    ];
    assert!(project_mentions_status_line(&levels));
}

#[test]
fn detection_walks_the_layers_in_order() {
    let facts = LayerFacts {
        project_mentions_status_line: false,
        profile: SettingRead::Configured(false),
        user: SettingRead::Configured(true),
        system: SettingRead::Absent,
    };
    let plain: Vec<String> = vec![];
    let d = detect(&plain, &facts);
    assert_eq!((d.state, d.source.as_str()), (NativeStatusState::Enabled, "user config"));
    let with_profile: Vec<String> = vec!["-p".into(), "work".into()];
    let d = detect(&with_profile, &facts);
    assert_eq!((d.state, d.source.as_str()), (NativeStatusState::Disabled, "selected profile"));
    let project = LayerFacts { project_mentions_status_line: true, ..facts };
    assert_eq!(detect(&plain, &project).source, "project config (trust-dependent)");
    let empty = LayerFacts {
        project_mentions_status_line: false,
        profile: SettingRead::Absent,
        user: SettingRead::Absent,
        system: SettingRead::Absent,
    };
    let d = detect(&plain, &empty);
    assert_eq!((d.state, d.source.as_str()), (NativeStatusState::Enabled, "Codex built-in default"));
    let overridden: Vec<String> = vec!["-c".into(), "tui.status_line=[]".into()];
    assert_eq!(detect(&overridden, &project).state, NativeStatusState::Disabled);
    assert_eq!(NativeStatusState::Unknown.name(), "unknown");
}

#[test]
fn profiles_prefer_the_last_pair_over_the_flag() {
    let args: Vec<String> = vec!["--profile=a".into(), "-p".into(), "b".into(), "--profile".into(), "c".into()];
    assert_eq!(selected_profile(&args).as_deref(), Some("c"));
    let flag_only: Vec<String> = vec!["--profile=a".into(), "--profile=z".into()];
    assert_eq!(selected_profile(&flag_only).as_deref(), Some("z"));
    let dangling: Vec<String> = vec!["-p".into()];
    assert_eq!(selected_profile(&dangling), None);
}

#[test]
fn lookup_outcomes_map_to_settings_and_overrides() {
    assert_eq!(setting_from_lookup(TomlValue::Array(0)), Ok(Some(false)));
    assert_eq!(setting_from_lookup(TomlValue::Array(2)), Ok(Some(true)));
    assert_eq!(setting_from_lookup(TomlValue::Missing), Ok(None));
    assert_eq!(setting_from_lookup(TomlValue::Invalid), Err(SettingError::InvalidToml));
    assert_eq!(setting_from_lookup(TomlValue::Text("x".into())), Err(SettingError::NotAnArray));
    assert_eq!(override_from_lookup(TomlValue::Array(1)), Ok(true));
    assert_eq!(override_from_lookup(TomlValue::Array(0)), Ok(false));
    assert_eq!(override_from_lookup(TomlValue::Missing), Err(SettingError::NotAnArray));
    assert_eq!(override_from_lookup(TomlValue::Invalid), Err(SettingError::InvalidToml));
}
