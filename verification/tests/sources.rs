use codexline::codex_toml::TomlValue;
use codexline::sources::text_from_lookup;
use codexline::sources::{
    apply_local_refresh, apply_persisted_settings, codex_config_from_source, local_codex_settings, local_git,
    local_snapshot, option_value, parse_ahead_behind, porcelain_counts, starts_fresh_thread, GitOutputs, LocalGit,
};
use codexline::state::StatusSnapshot;

#[test]
fn command_line_model_wins() {
    let args: Vec<String> = vec!["--model=gpt-test".into(), "-s".into(), "read-only".into()];
    assert_eq!(option_value(&args, &vec!["-m", "--model"]).as_deref(), Some("gpt-test"));
    let settings = local_codex_settings(&args, None);
    assert_eq!(settings.model.as_deref(), Some("gpt-test"));
    assert_eq!(settings.sandbox.as_deref(), Some("read-only"));
}

#[test]
fn persisted_codex_settings_refresh_model_and_reviewer() {
    let config = codex_config_from_source(
        r#"
            model = "gpt-new"
            model_reasoning_effort = "high"
            sandbox_mode = "workspace-write"
            approval_policy = "on-request"
            approvals_reviewer = "guardian_subagent"
            "#,
    )
    .unwrap();
    let settings = local_codex_settings(&vec![], Some(&config));
    let mut snapshot = StatusSnapshot::default();
    apply_persisted_settings(&mut snapshot, settings);
    assert_eq!(snapshot.model.as_deref(), Some("gpt-new"));
    assert_eq!(snapshot.reasoning.as_deref(), Some("high"));
    assert_eq!(snapshot.approvals_reviewer.as_deref(), Some("guardian_subagent"));
    assert!(snapshot.model_live);
    assert!(snapshot.settings_live);
}

#[test]
fn options_take_the_last_mention_and_may_lack_a_value() {
    let args: Vec<String> = vec!["-m".into(), "a".into(), "--model=b".into()];
    assert_eq!(option_value(&args, &vec!["-m", "--model"]).as_deref(), Some("b"));
    let dangling: Vec<String> = vec!["--model=b".into(), "-m".into()];
    assert_eq!(option_value(&dangling, &vec!["-m", "--model"]), None);
    let resumed: Vec<String> = vec!["resume".into()];
    assert!(!starts_fresh_thread(&resumed));
    assert!(codex_config_from_source("not = [toml").is_none());
}

#[test]
fn porcelain_and_rev_list_are_counted() {
    assert_eq!(porcelain_counts("M  a.rs\n M b.rs\nMM c.rs\n?? d.rs"), (2, 3));
    assert_eq!(porcelain_counts(""), (0, 0));
    assert_eq!(porcelain_counts("A  x\r\n"), (1, 0));
    assert_eq!(parse_ahead_behind("3\t5"), Some((3, 5)));
    assert_eq!(parse_ahead_behind("x 7 y 9"), Some((7, 9)));
    assert_eq!(parse_ahead_behind("7"), None);
}

#[test]
fn git_state_and_local_snapshot_come_from_the_outputs() {
    let git = local_git(GitOutputs {
        branch: Some("main".into()),
        porcelain: Some("M  a".into()),
        rev_list: Some("1 2".into()),
        toplevel: Some("/w/project".into()),
        toplevel_name: Some("project".into()),
        linked_worktree: Some(false),
    });
    assert_eq!(git.branch.as_deref(), Some("main"));
    assert_eq!((git.dirty, git.staged, git.modified), (Some(true), Some(1), Some(0)));
    assert_eq!((git.behind, git.ahead), (Some(1), Some(2)));
    let outside = local_git(GitOutputs {
        branch: None,
        porcelain: Some("M  a".into()),
        rev_list: None,
        toplevel: None,
        toplevel_name: None,
        linked_worktree: None,
    });
    assert!(outside.dirty.is_none());
    let args: Vec<String> = vec!["fork".into()];
    let snapshot = local_snapshot(&args, None, git, Some("/w/project".into()));
    assert_eq!(snapshot.work.as_deref(), Some("ready"));
    assert_eq!(snapshot.context_percent, None);
    assert_eq!(snapshot.git_branch.as_deref(), Some("main"));
    assert_eq!(snapshot.worktree.as_deref(), Some("project"));
    let fresh = local_snapshot(&vec![], None, LocalGit::none(), None);
    assert_eq!(fresh.context_percent, Some(0));
    let mut state = StatusSnapshot::showcase();
    apply_local_refresh(&mut state, LocalGit::none(), None);
    assert!(state.git_branch.is_none());
    assert_eq!(state.model.as_deref(), Some("gpt-5.6-sol"));
}

#[test]
fn only_string_lookups_give_text() {
    assert_eq!(text_from_lookup(TomlValue::Text("gpt-5".into())), Some("gpt-5".to_string()));
    assert_eq!(text_from_lookup(TomlValue::Array(1)), None);
    assert_eq!(text_from_lookup(TomlValue::Missing), None);
}
