//! Whether Codex's own footer (`tui.status_line`) is on, and the one override
//! that switches it off for a companion-managed child.

use crate::codex_toml::{lookup_view, toml_lookup, toml_value, TomlFound, TomlValue};
use crate::text::{owned, push_str, same_text};
use vstd::prelude::*;

verus! {

#[derive(Debug, Clone, Copy, PartialEq, Eq, Structural)]
pub enum NativeStatusState {
    Enabled,
    Disabled,
    Unknown,
}

impl NativeStatusState {
    /// The word shown for the state.
    pub fn name(self) -> (r: &'static str)
        ensures
            r@ == (match self {
                NativeStatusState::Enabled => "enabled"@,
                NativeStatusState::Disabled => "disabled"@,
                NativeStatusState::Unknown => "unknown"@,
            }),
    {
        match self {
            NativeStatusState::Enabled => "enabled",
            NativeStatusState::Disabled => "disabled",
            NativeStatusState::Unknown => "unknown",
        }
    }
}

/// The footer's state and the configuration layer that decided it.
#[derive(Debug)]
pub struct Detection {
    pub state: NativeStatusState,
    pub source: String,
}

/// A detection by its values.
pub open spec fn detected(state: NativeStatusState, source: Seq<char>) -> (NativeStatusState, Seq<char>) {
    (state, source)
}

pub open spec fn detection_view(d: Detection) -> (NativeStatusState, Seq<char>) {
    (d.state, d.source@)
}

impl Detection {
    pub fn new(state: NativeStatusState, source: &str) -> (r: Self)
        ensures
            detection_view(r) == detected(state, source@),
    {
        Detection { state, source: owned(source) }
    }
}

/// Why a setting could not be read.
#[derive(Debug, Clone, Copy, PartialEq, Eq, Structural)]
pub enum SettingError {
    /// The file is not valid TOML.
    InvalidToml,
    /// `tui.status_line` is not an array.
    NotAnArray,
}

/// What reading one configuration layer gave.
#[derive(Debug, Clone, Copy, PartialEq, Eq, Structural)]
pub enum SettingRead {
    /// The file does not exist or does not set `tui.status_line`.
    Absent,
    /// The footer is on (`true`) or off.
    Configured(bool),
    /// The file exists but could not be read or understood.
    Unreadable,
}

/// The footer setting that a lookup of `tui.status_line` found: a non-empty
/// array turns it on.
pub open spec fn setting_found(found: TomlFound) -> Result<Option<bool>, SettingError> {
    match found {
        TomlFound::Invalid => Err(SettingError::InvalidToml),
        TomlFound::Missing => Ok(None),
        TomlFound::Array(n) => Ok(Some(n > 0)),
        _ => Err(SettingError::NotAnArray),
    }
}

/// The footer setting of a configuration file's text.
pub open spec fn setting_of(source: Seq<char>) -> Result<Option<bool>, SettingError> {
    setting_found(toml_lookup(source, Some("tui"@), "status_line"@))
}

/// The footer setting for the outcome of looking up `tui.status_line`.
pub fn setting_from_lookup(found: TomlValue) -> (r: Result<Option<bool>, SettingError>)
    ensures
        r == setting_found(lookup_view(found)),
{
    match found {
        TomlValue::Invalid => Err(SettingError::InvalidToml),
        TomlValue::Missing => Ok(None),
        TomlValue::Array(n) => Ok(Some(n > 0)),
        _ => Err(SettingError::NotAnArray),
    }
}

/// The footer setting of a configuration file's text.
pub fn setting_from_source(source: &str) -> (r: Result<Option<bool>, SettingError>)
    ensures
        r == setting_of(source@),
{
    setting_from_lookup(toml_value(source, Some("tui"), "status_line"))
}

/// A read of an existing file, as `detect` uses it.
pub fn setting_read(setting: Result<Option<bool>, SettingError>) -> (r: SettingRead)
    ensures
        r == (match setting {
            Ok(None) => SettingRead::Absent,
            Ok(Some(b)) => SettingRead::Configured(b),
            Err(_) => SettingRead::Unreadable,
        }),
{
    match setting {
        Ok(None) => SettingRead::Absent,
        Ok(Some(b)) => SettingRead::Configured(b),
        Err(_) => SettingRead::Unreadable,
    }
}

/// The override value for a lookup's outcome: `Ok` with whether the array is
/// non-empty, or `Err` when it is no TOML array.
pub open spec fn override_found(found: TomlFound) -> Result<bool, SettingError> {
    match found {
        TomlFound::Array(n) => Ok(n > 0),
        TomlFound::Invalid => Err(SettingError::InvalidToml),
        _ => Err(SettingError::NotAnArray),
    }
}

/// The value of a `tui.status_line=<raw>` override: `Ok` with whether the
/// array is non-empty, or `Err` when `raw` is not a TOML array.
pub open spec fn override_value(raw: Seq<char>) -> Result<bool, SettingError> {
    override_found(toml_lookup("value = "@ + raw, None, "value"@))
}

/// The override value for the outcome of looking up `value` in `value = <raw>`.
pub fn override_from_lookup(found: TomlValue) -> (r: Result<bool, SettingError>)
    ensures
        r == override_found(lookup_view(found)),
{
    match found {
        TomlValue::Array(n) => Ok(n > 0),
        TomlValue::Invalid => Err(SettingError::InvalidToml),
        _ => Err(SettingError::NotAnArray),
    }
}

pub fn parse_override(raw: &str) -> (r: Result<bool, SettingError>)
    ensures
        r == override_value(raw@),
{
    let mut source = owned("value = ");
    push_str(&mut source, raw);
    override_from_lookup(toml_value(source.as_str(), None, "value"))
}

pub open spec fn configured(enabled: bool, source: Seq<char>) -> (NativeStatusState, Seq<char>) {
    (if enabled { NativeStatusState::Enabled } else { NativeStatusState::Disabled }, source)
}

fn configured_exec(enabled: bool, source: &str) -> (r: Detection)
    ensures
        detection_view(r) == configured(enabled, source@),
{
    Detection::new(if enabled { NativeStatusState::Enabled } else { NativeStatusState::Disabled }, source)
}

pub open spec fn starts_with(s: Seq<char>, prefix: Seq<char>) -> bool {
    prefix.len() <= s.len() && s.take(prefix.len() as int) == prefix
}

/// The detection an override value gives.
pub open spec fn override_detection(raw: Seq<char>) -> (NativeStatusState, Seq<char>) {
    match override_value(raw) {
        Ok(enabled) => configured(enabled, "command-line override"@),
        Err(_) => (NativeStatusState::Unknown, "command-line override"@),
    }
}

/// A config value: when it sets `tui.status_line`, it replaces the detection so far.
pub open spec fn override_step(acc: Option<(NativeStatusState, Seq<char>)>, value: Option<Seq<char>>) -> Option<(NativeStatusState, Seq<char>)> {
    match value {
        Some(v) => if starts_with(v, "tui.status_line="@) {
            Some(override_detection(v.skip(16)))
        } else {
            acc
        },
        None => acc,
    }
}

/// The `-c`/`--config` overrides from argument `i` on; the last one wins.
pub open spec fn overrides_from(args: Seq<Seq<char>>, i: int, acc: Option<(NativeStatusState, Seq<char>)>) -> Option<(NativeStatusState, Seq<char>)>
    decreases args.len() + 1 - i,
{
    if i < 0 || i >= args.len() {
        acc
    } else if args[i] == "-c"@ || args[i] == "--config"@ {
        let value = if i + 1 < args.len() { Some(args[i + 1]) } else { None };
        overrides_from(args, i + 2, override_step(acc, value))
    } else {
        let a = args[i];
        let value = if starts_with(a, "--config="@) {
            Some(a.skip(9))
        } else if starts_with(a, "-c="@) {
            Some(a.skip(3))
        } else {
            None
        };
        overrides_from(args, i + 1, override_step(acc, value))
    }
}

/// The footer setting given on the command line, if any.
pub open spec fn command_line_spec(args: Seq<Seq<char>>) -> Option<(NativeStatusState, Seq<char>)> {
    overrides_from(args, 0, None)
}

pub fn has_prefix(s: &str, prefix: &str) -> (r: bool)
    ensures
        r == starts_with(s@, prefix@),
{
    let n = prefix.unicode_len();
    if n > s.unicode_len() {
        return false;
    }
    let mut i: usize = 0;
    while i < n
        invariant
            n == prefix@.len(),
            n <= s@.len(),
            i <= n,
            forall|j: int| 0 <= j < i ==> s@[j] == prefix@[j],
        decreases n - i,
    {
        if s.get_char(i) != prefix.get_char(i) {
            assert(s@.take(n as int)[i as int] != prefix@[i as int]);
            return false;
        }
        i = i + 1;
    }
    assert(s@.take(n as int) =~= prefix@);
    true
}

/// The characters of `s` after the first `k`.
pub fn tail_from(s: &str, k: usize) -> (r: String)
    requires
        k <= s@.len(),
    ensures
        r@ == s@.skip(k as int),
{
    let n = s.unicode_len();
    let mut out = String::new();
    let mut i: usize = k;
    while i < n
        invariant
            n == s@.len(),
            k <= i <= n,
            out@ == s@.subrange(k as int, i as int),
        decreases n - i,
    {
        crate::text::push_char(&mut out, s.get_char(i));
        i = i + 1;
        assert(out@ =~= s@.subrange(k as int, i as int));
    }
    assert(s@.subrange(k as int, n as int) =~= s@.skip(k as int));
    out
}

pub open spec fn opt_detection(d: Option<Detection>) -> Option<(NativeStatusState, Seq<char>)> {
    match d {
        Some(x) => Some(detection_view(x)),
        None => None,
    }
}

fn step_exec(acc: Option<Detection>, value: Option<String>) -> (r: Option<Detection>)
    ensures
        opt_detection(r) == override_step(opt_detection(acc), crate::segments::opt_view(value)),
{
    proof {
        reveal_strlit("tui.status_line=");
    }
    match value {
        Some(v) => {
            if has_prefix(v.as_str(), "tui.status_line=") {
                let raw = tail_from(v.as_str(), 16);
                match parse_override(raw.as_str()) {
                    Ok(enabled) => Some(configured_exec(enabled, "command-line override")),
                    Err(_) => Some(Detection::new(NativeStatusState::Unknown, "command-line override")),
                }
            } else {
                acc
            }
        },
        None => acc,
    }
}

/// The footer setting given on the command line (`-c`, `--config`,
/// `--config=` or `-c=` with `tui.status_line=`); the last one wins.
pub fn command_line_override(args: &Vec<String>) -> (r: Option<Detection>)
    ensures
        opt_detection(r) == command_line_spec(crate::text::strings_view(args@)),
{
    let ghost view = crate::text::strings_view(args@);
    let mut result: Option<Detection> = None;
    let mut index: usize = 0;
    while index < args.len()
        invariant
            view == crate::text::strings_view(args@),
            index <= args@.len(),
            command_line_spec(view) == overrides_from(view, index as int, opt_detection(result)),
        decreases args@.len() - index,
    {
        proof {
            reveal_strlit("--config=");
            reveal_strlit("-c=");
        }
        let arg = args[index].as_str();
        if same_text(arg, "-c") || same_text(arg, "--config") {
            if index + 1 < args.len() {
                let value = Some(owned(args[index + 1].as_str()));
                result = step_exec(result, value);
                index = index + 2;
            } else {
                let ghost before = overrides_from(view, index as int, opt_detection(result));
                result = step_exec(result, None);
                assert(before == overrides_from(view, index as int + 2, opt_detection(result)));
                index = args.len();
                assert(overrides_from(view, index as int, opt_detection(result)) == opt_detection(result));
            }
        } else {
            let value = if has_prefix(arg, "--config=") {
                Some(tail_from(arg, 9))
            } else if has_prefix(arg, "-c=") {
                Some(tail_from(arg, 3))
            } else {
                None
            };
            result = step_exec(result, value);
            index = index + 1;
        }
    }
    result
}

/// Adds `-c tui.status_line=[]` for a companion-managed child unless the user
/// set the footer on the command line; returns whether it was added.
pub fn disable_for_companion(codex_args: &mut Vec<String>) -> (r: bool)
    ensures
        r == (command_line_spec(crate::text::strings_view(old(codex_args)@)) is None),
        r ==> crate::text::strings_view(final(codex_args)@)
            == crate::text::strings_view(old(codex_args)@) + seq!["-c"@, "tui.status_line=[]"@],
        !r ==> final(codex_args)@ == old(codex_args)@,
{
    if command_line_override(codex_args).is_some() {
        return false;
    }
    let ghost before = crate::text::strings_view(codex_args@);
    codex_args.push(owned("-c"));
    codex_args.push(owned("tui.status_line=[]"));
    assert(crate::text::strings_view(codex_args@) =~= before + seq!["-c"@, "tui.status_line=[]"@]);
    true
}

/// The profile named by the last `-p`/`--profile` pair among the first `n` arguments.
pub open spec fn last_profile_pair(args: Seq<Seq<char>>, n: int) -> Option<Seq<char>>
    decreases n,
{
    if n < 2 || n > args.len() {
        None
    } else if args[n - 2] == "-p"@ || args[n - 2] == "--profile"@ {
        Some(args[n - 1])
    } else {
        last_profile_pair(args, n - 1)
    }
}

/// The profile named by the last `--profile=` argument among the first `n`.
pub open spec fn last_profile_flag(args: Seq<Seq<char>>, n: int) -> Option<Seq<char>>
    decreases n,
{
    if n <= 0 || n > args.len() {
        None
    } else if starts_with(args[n - 1], "--profile="@) {
        Some(args[n - 1].skip(10))
    } else {
        last_profile_flag(args, n - 1)
    }
}

/// The profile Codex will use: a `-p NAME` pair wins over `--profile=NAME`; the last of each counts.
pub open spec fn selected_profile_spec(args: Seq<Seq<char>>) -> Option<Seq<char>> {
    match last_profile_pair(args, args.len() as int) {
        Some(p) => Some(p),
        None => last_profile_flag(args, args.len() as int),
    }
}

pub fn selected_profile(args: &Vec<String>) -> (r: Option<String>)
    ensures
        crate::segments::opt_view(r) == selected_profile_spec(crate::text::strings_view(args@)),
{
    let ghost view = crate::text::strings_view(args@);
    let mut n: usize = args.len();
    while n >= 2
        invariant
            view == crate::text::strings_view(args@),
            n <= args@.len(),
            last_profile_pair(view, args@.len() as int) == last_profile_pair(view, n as int),
        decreases n,
    {
        let flag = args[n - 2].as_str();
        if same_text(flag, "-p") || same_text(flag, "--profile") {
            return Some(owned(args[n - 1].as_str()));
        }
        n = n - 1;
    }
    let mut m: usize = args.len();
    while m > 0
        invariant
            view == crate::text::strings_view(args@),
            m <= args@.len(),
            last_profile_pair(view, args@.len() as int) is None,
            last_profile_flag(view, args@.len() as int) == last_profile_flag(view, m as int),
        decreases m,
    {
        proof {
            reveal_strlit("--profile=");
        }
        let arg = args[m - 1].as_str();
        if has_prefix(arg, "--profile=") {
            return Some(tail_from(arg, 10));
        }
        m = m - 1;
    }
    None
}

/// One directory on the way up from the working directory: its
/// `.codex/config.toml` setting and whether it holds `.git`.
#[derive(Debug, Clone, Copy, PartialEq, Eq, Structural)]
pub struct ProjectLevel {
    pub setting: SettingRead,
    pub has_git: bool,
}

/// Whether a project layer mentions the footer: the search goes up from the
/// working directory and stops after the first directory that holds `.git`.
pub open spec fn mentions_from(levels: Seq<ProjectLevel>) -> bool
    decreases levels.len(),
{
    if levels.len() == 0 {
        false
    } else if levels[0].setting != SettingRead::Absent {
        true
    } else if levels[0].has_git {
        false
    } else {
        mentions_from(levels.drop_first())
    }
}

pub fn project_mentions_status_line(levels: &Vec<ProjectLevel>) -> (r: bool)
    ensures
        r == mentions_from(levels@),
{
    let mut i: usize = 0;
    assert(levels@.skip(0) =~= levels@);
    while i < levels.len()
        invariant
            i <= levels@.len(),
            mentions_from(levels@) == mentions_from(levels@.skip(i as int)),
        decreases levels@.len() - i,
    {
        assert(levels@.skip(i as int)[0] == levels@[i as int]);
        assert(levels@.skip(i as int).drop_first() =~= levels@.skip(i as int + 1));
        if levels[i].setting != SettingRead::Absent {
            return true;
        }
        if levels[i].has_git {
            return false;
        }
        i = i + 1;
    }
    assert(levels@.skip(i as int) =~= Seq::<ProjectLevel>::empty());
    false
}

/// What the configuration layers say, read by the caller: the project search,
/// the selected profile's file (when a profile is selected), the user file and
/// the system file.
#[derive(Debug, Clone, Copy, PartialEq, Eq, Structural)]
pub struct LayerFacts {
    pub project_mentions_status_line: bool,
    pub profile: SettingRead,
    pub user: SettingRead,
    pub system: SettingRead,
}

/// A layer's answer, or `None` to go on to the next.
pub open spec fn layer(read: SettingRead, source: Seq<char>) -> Option<(NativeStatusState, Seq<char>)> {
    match read {
        SettingRead::Absent => None,
        SettingRead::Configured(b) => Some(configured(b, source)),
        SettingRead::Unreadable => Some((NativeStatusState::Unknown, source)),
    }
}

/// The effective footer, decided conservatively: the command line, then an
/// (untrusted) project layer, the selected profile, the user file, the system
/// file, and Codex's default (on).
pub open spec fn detect_spec(args: Seq<Seq<char>>, facts: LayerFacts) -> (NativeStatusState, Seq<char>) {
    if command_line_spec(args) is Some {
        command_line_spec(args).unwrap()
    } else if facts.project_mentions_status_line {
        (NativeStatusState::Unknown, "project config (trust-dependent)"@)
    } else if selected_profile_spec(args) is Some && layer(facts.profile, "selected profile"@) is Some {
        layer(facts.profile, "selected profile"@).unwrap()
    } else if layer(facts.user, "user config"@) is Some {
        layer(facts.user, "user config"@).unwrap()
    } else if layer(facts.system, "system config"@) is Some {
        layer(facts.system, "system config"@).unwrap()
    } else {
        (NativeStatusState::Enabled, "Codex built-in default"@)
    }
}

fn layer_exec(read: SettingRead, source: &str) -> (r: Option<Detection>)
    ensures
        opt_detection(r) == layer(read, source@),
{
    match read {
        SettingRead::Absent => None,
        SettingRead::Configured(b) => Some(configured_exec(b, source)),
        SettingRead::Unreadable => Some(Detection::new(NativeStatusState::Unknown, source)),
    }
}

/// Detects the effective native footer from the arguments and the layers' facts.
pub fn detect(codex_args: &Vec<String>, facts: &LayerFacts) -> (r: Detection)
    ensures
        detection_view(r) == detect_spec(crate::text::strings_view(codex_args@), *facts),
{
    if let Some(d) = command_line_override(codex_args) {
        return d;
    }
    if facts.project_mentions_status_line {
        return Detection::new(NativeStatusState::Unknown, "project config (trust-dependent)");
    }
    if selected_profile(codex_args).is_some() {
        if let Some(d) = layer_exec(facts.profile, "selected profile") {
            return d;
        }
    }
    if let Some(d) = layer_exec(facts.user, "user config") {
        return d;
    }
    if let Some(d) = layer_exec(facts.system, "system config") {
        return d;
    }
    Detection::new(NativeStatusState::Enabled, "Codex built-in default")
}

/// The scan from argument `i` ends on a `-c`/`--config` that has no value.
pub open spec fn dangling_from(args: Seq<Seq<char>>, i: int) -> bool
    decreases args.len() + 1 - i,
{
    if i < 0 || i >= args.len() {
        false
    } else if args[i] == "-c"@ || args[i] == "--config"@ {
        if i + 1 >= args.len() { true } else { dangling_from(args, i + 2) }
    } else {
        dangling_from(args, i + 1)
    }
}

proof fn lemma_override_appended(args: Seq<Seq<char>>, i: int, acc: Option<(NativeStatusState, Seq<char>)>)
    requires
        0 <= i <= args.len(),
        !dangling_from(args, i),
    ensures
        overrides_from(args + seq!["-c"@, "tui.status_line=[]"@], i, acc) == Some(override_detection("[]"@)),
    decreases args.len() - i,
{
    let a2 = args + seq!["-c"@, "tui.status_line=[]"@];
    if i == args.len() {
        reveal_strlit("tui.status_line=[]");
        reveal_strlit("tui.status_line=");
        reveal_strlit("[]");
        assert(a2[i] == "-c"@);
        assert(a2[i + 1] == "tui.status_line=[]"@);
        assert("tui.status_line=[]"@.take(16) =~= "tui.status_line="@);
        assert("tui.status_line=[]"@.skip(16) =~= "[]"@);
        let next = override_step(acc, Some(a2[i + 1]));
        assert(next == Some(override_detection("[]"@)));
        assert(overrides_from(a2, i + 2, next) == next);
    } else {
        assert(a2[i] == args[i]);
        if args[i] == "-c"@ || args[i] == "--config"@ {
            assert(a2[i + 1] == args[i + 1]);
            lemma_override_appended(args, i + 2, override_step(acc, Some(args[i + 1])));
        } else {
            lemma_override_appended(args, i + 1, override_step(acc, if starts_with(args[i], "--config="@) {
                Some(args[i].skip(9))
            } else if starts_with(args[i], "-c="@) {
                Some(args[i].skip(3))
            } else {
                None
            }));
        }
    }
}

/// The override that `disable_for_companion` adds takes effect: afterwards the
/// command line sets the footer to an empty list, so a second call adds
/// nothing. (Not when the arguments end with a `-c` or `--config` that has no
/// value: that flag takes the added `-c` as its value.)
pub proof fn lemma_companion_override_takes_effect(args: Seq<Seq<char>>)
    requires
        !dangling_from(args, 0),
    ensures
        command_line_spec(args + seq!["-c"@, "tui.status_line=[]"@]) == Some(override_detection("[]"@)),
        command_line_spec(args + seq!["-c"@, "tui.status_line=[]"@]) is Some,
{
    lemma_override_appended(args, 0, None);
}

} // verus!
