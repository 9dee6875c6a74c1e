use codexline::config::LaunchMode;
use codexline::shim::{marker_file_name, marker_is_owned, owner_marker, reconcile_step, refusal_message, ShimFacts, ShimStep};

fn nothing() -> ShimFacts {
    ShimFacts { present: false, exists: false, is_symlink: false, marker_owned: false, points_to_executable: false }
}

#[test]
fn the_shim_is_installed_only_over_its_own_files() {
    assert_eq!(reconcile_step(LaunchMode::Shim, true, nothing()), ShimStep::Install);
    let ours = ShimFacts { present: true, exists: true, is_symlink: true, ..nothing() };
    assert_eq!(reconcile_step(LaunchMode::Shim, true, ShimFacts { points_to_executable: true, ..ours }), ShimStep::Install);
    assert_eq!(reconcile_step(LaunchMode::Shim, true, ours), ShimStep::Refuse);
    let file = ShimFacts { present: true, exists: true, ..nothing() };
    assert_eq!(reconcile_step(LaunchMode::Shim, true, ShimFacts { marker_owned: true, ..file }), ShimStep::Refuse);
    assert_eq!(reconcile_step(LaunchMode::Shim, false, ShimFacts { marker_owned: true, ..file }), ShimStep::Install);
    assert!(refusal_message(true, "/x/codex").contains("unrelated file"));
}

#[test]
fn the_shim_is_removed_only_when_owned() {
    assert_eq!(reconcile_step(LaunchMode::Explicit, true, nothing()), ShimStep::Unchanged);
    let file = ShimFacts { present: true, exists: true, ..nothing() };
    assert_eq!(reconcile_step(LaunchMode::Explicit, true, file), ShimStep::Refuse);
    assert_eq!(reconcile_step(LaunchMode::Explicit, true, ShimFacts { points_to_executable: true, ..file }), ShimStep::Remove);
    assert_eq!(reconcile_step(LaunchMode::Explicit, false, ShimFacts { points_to_executable: true, ..file }), ShimStep::Refuse);
    assert_eq!(refusal_message(false, "/x/codex"), "refusing to remove unrelated file at /x/codex");
}

#[test]
fn the_marker_sits_beside_the_shim() {
    assert_eq!(marker_file_name(Some("codex")), ".codex.codexline-owned");
    assert_eq!(marker_file_name(None), ".codex.codexline-owned");
    assert!(marker_is_owned(Some(owner_marker())));
    assert!(!marker_is_owned(Some("codexline-shim-v1")));
    assert!(!marker_is_owned(None));
}
