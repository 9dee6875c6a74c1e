//! The reversible `codex` shim: when it may be installed or removed, and how
//! its ownership marker is named and recognised.

use crate::config::LaunchMode;
use crate::text::{owned, push_str, same_text};
use vstd::prelude::*;

verus! {

/// What was done to the shim.
#[derive(Debug)]
pub enum ShimOutcome {
    Installed(String),
    Removed(String),
    Unchanged,
}

/// The text of the ownership marker file.
pub fn owner_marker() -> (r: &'static str)
    ensures
        r@ == "codexline-shim-v1\n"@,
{
    "codexline-shim-v1\n"
}

/// The marker's file name beside the shim: `.NAME.codexline-owned`, with
/// `codex` when the shim's file name is unknown.
pub fn marker_file_name(shim_file_name: Option<&str>) -> (r: String)
    ensures
        r@ == "."@ + (match shim_file_name { Some(n) => n@, None => "codex"@ }) + ".codexline-owned"@,
{
    let mut name = owned(".");
    match shim_file_name {
        Some(n) => push_str(&mut name, n),
        None => push_str(&mut name, "codex"),
    }
    push_str(&mut name, ".codexline-owned");
    name
}

/// Whether the marker file (its text, when it could be read) marks the shim as Codexline's.
pub fn marker_is_owned(contents: Option<&str>) -> (r: bool)
    ensures
        r == (match contents { Some(c) => c@ == "codexline-shim-v1\n"@, None => false }),
{
    match contents {
        Some(c) => same_text(c, owner_marker()),
        None => false,
    }
}

/// What is at the shim's path: whether an entry is there (not following a
/// symbolic link), whether the path exists (following it), whether it is a
/// symbolic link, whether the marker is Codexline's, and whether it resolves to
/// the running executable.
#[derive(Debug, Clone, Copy, PartialEq, Eq, Structural)]
pub struct ShimFacts {
    pub present: bool,
    pub exists: bool,
    pub is_symlink: bool,
    pub marker_owned: bool,
    pub points_to_executable: bool,
}

/// What reconciling the shim does.
#[derive(Debug, Clone, Copy, PartialEq, Eq, Structural)]
pub enum ShimStep {
    /// Install (or replace) the shim and write the marker.
    Install,
    /// Remove the shim and its marker.
    Remove,
    /// Leave an unrelated file alone and report it.
    Refuse,
    /// Nothing to do.
    Unchanged,
}

/// Codexline may replace what is at the path: nothing, or (on Unix) a
/// symbolic link that is marked or resolves to Codexline, or (on Windows) a
/// marked file.
pub open spec fn may_replace(unix: bool, f: ShimFacts) -> bool {
    if unix {
        !f.present || (f.is_symlink && (f.marker_owned || f.points_to_executable))
    } else {
        !f.exists || f.marker_owned
    }
}

/// The step that makes the shim match the launch mode.
pub open spec fn reconcile_spec(mode: LaunchMode, unix: bool, f: ShimFacts) -> ShimStep {
    match mode {
        LaunchMode::Shim => if may_replace(unix, f) { ShimStep::Install } else { ShimStep::Refuse },
        LaunchMode::Explicit => if !f.exists && !f.present {
            ShimStep::Unchanged
        } else if f.marker_owned || (unix && f.points_to_executable) {
            ShimStep::Remove
        } else {
            ShimStep::Refuse
        },
    }
}

pub fn reconcile_step(mode: LaunchMode, unix: bool, facts: ShimFacts) -> (r: ShimStep)
    ensures
        r == reconcile_spec(mode, unix, facts),
{
    match mode {
        LaunchMode::Shim => {
            let allowed = if unix {
                !facts.present || (facts.is_symlink && (facts.marker_owned || facts.points_to_executable))
            } else {
                !facts.exists || facts.marker_owned
            };
            if allowed { ShimStep::Install } else { ShimStep::Refuse }
        },
        LaunchMode::Explicit => {
            if !facts.exists && !facts.present {
                ShimStep::Unchanged
            } else if facts.marker_owned || (unix && facts.points_to_executable) {
                ShimStep::Remove
            } else {
                ShimStep::Refuse
            }
        },
    }
}

/// The refusal shown for an unrelated file at `path`.
pub fn refusal_message(installing: bool, path: &str) -> (r: String)
    ensures
        r@ == (if installing { "refusing to replace unrelated file at "@ } else { "refusing to remove unrelated file at "@ }) + path@,
{
    let mut m = if installing { owned("refusing to replace unrelated file at ") } else { owned("refusing to remove unrelated file at ") };
    push_str(&mut m, path);
    m
}

/// Codexline never replaces or removes a file it does not own: it installs
/// over nothing or over its own shim, and removes only its own shim.
pub proof fn lemma_unrelated_files_are_left_alone(mode: LaunchMode, unix: bool, f: ShimFacts)
    ensures
        reconcile_spec(mode, unix, f) == ShimStep::Install ==> (unix ==> !f.present || (f.is_symlink && (f.marker_owned || f.points_to_executable)))
            && (!unix ==> !f.exists || f.marker_owned),
        reconcile_spec(mode, unix, f) == ShimStep::Remove ==> f.marker_owned || (unix && f.points_to_executable),
        mode == LaunchMode::Shim ==> reconcile_spec(mode, unix, f) != ShimStep::Remove,
        mode == LaunchMode::Explicit ==> reconcile_spec(mode, unix, f) != ShimStep::Install,
{
}

} // verus!
