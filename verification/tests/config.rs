use codexline::config::{suggested_shim_path, Config, LaunchMode, Segment, Theme};
use codexline::config::{config_path, ConfigError};

#[test]
fn defaults_are_valid_and_keep_codex() {
    let config = Config::default();
    assert_eq!(config.launch.mode, LaunchMode::Shim);
    assert!(matches!(config.display.theme, Theme::PastelSyntax));
    assert!(config.sources.app_server);
    assert!(!config.sources.remote_proxy);
    config.validate().unwrap();
}

#[test]
fn version_one_migrates_away_from_the_experimental_proxy() {
    let mut config = Config { version: 1, ..Config::default() };
    config.sources.remote_proxy = true;
    assert!(config.migrate().unwrap());
    assert_eq!(config.version, 2);
    assert!(!config.sources.remote_proxy);
    config.validate().unwrap();
}

#[test]
fn rejects_unknown_schema_version() {
    let config = Config { version: 3, ..Config::default() };
    assert!(config.validate().is_err());
}

#[test]
fn rejects_duplicate_segments_and_control_characters() {
    let mut config = Config::default();
    config.display.segments = vec![Segment::App, Segment::App];
    assert!(config.validate().is_err());

    let mut config = Config::default();
    config.display.separator = "\u{1b}".into();
    assert!(config.validate().is_err());
}

#[test]
fn shim_uses_a_codexline_owned_directory() {
    let path = suggested_shim_path(None, Some("/home/user")).unwrap();
    assert!(path.ends_with("codexline/bin/codex"));
    assert!(!path.ends_with(".local/bin/codex"));
}

#[test]
fn each_rule_reports_its_own_error_in_order() {
    let mut config = Config::default();
    config.display.refresh_hz = 0;
    assert_eq!(config.validate(), Err(ConfigError::RefreshRate));
    config.display.refresh_hz = 21;
    assert_eq!(config.validate(), Err(ConfigError::RefreshRate));
    config.display.refresh_hz = 20;
    config.display.rows = 4;
    assert_eq!(config.validate(), Err(ConfigError::Rows));
    config.display.rows = 1;
    config.display.segments.clear();
    assert_eq!(config.validate(), Err(ConfigError::NoSegments));
    config.display.segments.push(Segment::Git);
    config.display.separator = "123456789".into();
    assert_eq!(config.validate(), Err(ConfigError::SeparatorTooLong));
    config.display.separator = "12345678".into();
    config.launch.bypass_flag = "--off".into();
    assert_eq!(config.validate(), Err(ConfigError::BypassFlag));
    config.launch.bypass_flag = "--no-companion".into();
    assert_eq!(config.validate(), Ok(()));
    config.version = 7;
    config.display.rows = 9;
    assert_eq!(config.validate(), Err(ConfigError::UnsupportedVersion(7)));
    assert_eq!(ConfigError::UnsupportedVersion(7).message(), "unsupported config version 7");
    assert_eq!(ConfigError::SeparatorControl.message(), "display.separator cannot contain terminal control characters");
}

#[test]
fn migration_keeps_version_two_and_refuses_unknown_versions() {
    let mut config = Config::default();
    assert_eq!(config.migrate(), Ok(false));
    assert_eq!(config.version, 2);
    let mut future = Config { version: 9, ..Config::default() };
    assert_eq!(future.migrate(), Err(ConfigError::UnsupportedVersion(9)));
    let mut old = Config { version: 1, ..Config::default() };
    old.display.rows = 0;
    assert_eq!(old.accept_loaded(), Err(ConfigError::Rows));
    let mut fine = Config { version: 1, ..Config::default() };
    assert_eq!(fine.accept_loaded(), Ok(true));
}

#[test]
fn configuration_paths_follow_xdg_then_home() {
    assert_eq!(config_path(Some("/x"), Some("/home/u")).unwrap(), "/x/codexline/config.toml");
    assert_eq!(config_path(Some("/x/"), None).unwrap(), "/x/codexline/config.toml");
    assert_eq!(config_path(None, Some("/home/u")).unwrap(), "/home/u/.config/codexline/config.toml");
    assert!(config_path(None, None).is_none());
    assert_eq!(suggested_shim_path(Some("/data"), None).unwrap(), "/data/codexline/bin/codex");
    assert_eq!(suggested_shim_path(None, Some("/home/u")).unwrap(), "/home/u/.local/share/codexline/bin/codex");
    assert_eq!(LaunchMode::Shim.describe(), "keep `codex` command");
}

#[test]
fn version_one_load_keeps_every_other_setting() {
    let mut config = Config { version: 1, ..Config::default() };
    config.sources.remote_proxy = true;
    config.sources.app_server = false;
    config.launch.mode = LaunchMode::Explicit;
    config.display.theme = Theme::Nord;
    config.display.rows = 2;
    config.display.segments = vec![Segment::Model, Segment::Cwd];
    assert_eq!(config.accept_loaded(), Ok(true));
    assert_eq!(config.version, 2);
    assert!(!config.sources.remote_proxy);
    assert!(!config.sources.app_server);
    assert_eq!(config.launch.mode, LaunchMode::Explicit);
    assert_eq!(config.display.theme, Theme::Nord);
    assert_eq!(config.display.rows, 2);
    assert_eq!(config.display.segments, vec![Segment::Model, Segment::Cwd]);
    let mut unknown = Config { version: 7, ..Config::default() };
    assert_eq!(unknown.accept_loaded(), Err(ConfigError::UnsupportedVersion(7)));
    assert_eq!(unknown.version, 7);
}
