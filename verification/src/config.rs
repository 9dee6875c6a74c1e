//! The versioned configuration schema (`~/.config/codexline/config.toml`) and
//! the rules that a configuration must satisfy before it is used or saved.

use crate::text::{has_no_controls, is_control, owned, push_decimal, push_str, decimal};
use vstd::prelude::*;

verus! {

/// The schema version this build reads and writes.
pub const CURRENT_VERSION: u16 = 2;

/// How Codexline is started.
#[derive(Debug, Clone, Copy, PartialEq, Eq, Structural)]
pub enum LaunchMode {
    /// A reversible user-level `codex` shim runs Codexline.
    Shim,
    /// The user types `codexline`; the official command is untouched.
    Explicit,
}

impl LaunchMode {
    /// The human-readable description shown by the setup flow.
    pub fn describe(self) -> (r: String)
        ensures
            r@ == (match self {
                LaunchMode::Shim => "keep `codex` command"@,
                LaunchMode::Explicit => "explicit `codexline` command"@,
            }),
    {
        match self {
            LaunchMode::Shim => owned("keep `codex` command"),
            LaunchMode::Explicit => owned("explicit `codexline` command"),
        }
    }
}

/// Optional data sources.
#[derive(Debug, Clone, Copy, PartialEq, Eq, Structural)]
pub struct SourcesConfig {
    /// Starts a separate read-only official app-server process for account capacity data.
    pub app_server: bool,
    /// Routes the TUI through a loopback app-server proxy to receive live thread events.
    pub remote_proxy: bool,
}

impl SourcesConfig {
    pub fn default_sources() -> (r: Self)
        ensures
            r.app_server,
            !r.remote_proxy,
    {
        SourcesConfig { app_server: true, remote_proxy: false }
    }
}

#[derive(Debug)]
pub struct LaunchConfig {
    pub mode: LaunchMode,
    pub bypass_flag: String,
}

/// One HUD module.
#[derive(Debug, Clone, Copy, PartialEq, Eq, Hash, Structural)]
pub enum Segment {
    App,
    Model,
    Reasoning,
    Work,
    Context,
    ContextRemaining,
    ContextUsed,
    ContextWindow,
    Tokens,
    InputTokens,
    CachedTokens,
    OutputTokens,
    RateLimits,
    FiveHourLimit,
    WeeklyLimit,
    ResetCredits,
    Git,
    GitDirty,
    GitStaged,
    GitModified,
    GitSync,
    Worktree,
    Tools,
    Agents,
    AgentCount,
    Plan,
    Compactions,
    Safety,
    Elapsed,
    Cwd,
    ProjectRoot,
    SessionId,
    Status,
    HooksHealth,
    AppServerHealth,
}

#[derive(Debug, Clone, Copy, PartialEq, Eq, Structural)]
pub enum Theme {
    Inherit,
    Ox96f,
    TokyoNight,
    CatppuccinMocha,
    Dracula,
    Nord,
    Gruvbox,
    RosePine,
    PastelSyntax,
    CodexDark,
    CodexLight,
    Minimal,
    Mono,
}

#[derive(Debug, Clone, Copy, PartialEq, Eq, Structural)]
pub enum Glyphs {
    Ascii,
    Unicode,
}

#[derive(Debug)]
pub struct DisplayConfig {
    pub theme: Theme,
    pub glyphs: Glyphs,
    pub refresh_hz: u8,
    pub rows: u8,
    pub segments: Vec<Segment>,
    pub separator: String,
}

#[derive(Debug)]
pub struct Config {
    pub version: u16,
    pub launch: LaunchConfig,
    pub sources: SourcesConfig,
    pub display: DisplayConfig,
}

/// The sixteen modules of the full layout, in display order.
pub open spec fn full_layout_segments() -> Seq<Segment> {
    seq![
        Segment::App, Segment::Model, Segment::Work, Segment::Context, Segment::Tokens,
        Segment::RateLimits, Segment::Git, Segment::Worktree, Segment::Tools, Segment::Agents,
        Segment::Plan, Segment::Compactions, Segment::Safety, Segment::Elapsed, Segment::Cwd,
        Segment::Status,
    ]
}

/// The full layout's modules.
pub fn full_layout() -> (r: Vec<Segment>)
    ensures
        r@ == full_layout_segments(),
{
    let r = vec![
        Segment::App, Segment::Model, Segment::Work, Segment::Context, Segment::Tokens,
        Segment::RateLimits, Segment::Git, Segment::Worktree, Segment::Tools, Segment::Agents,
        Segment::Plan, Segment::Compactions, Segment::Safety, Segment::Elapsed, Segment::Cwd,
        Segment::Status,
    ];
    assert(r@ =~= full_layout_segments());
    r
}

/// A copy of a module list.
pub fn copy_segments(segments: &Vec<Segment>) -> (r: Vec<Segment>)
    ensures
        r@ == segments@,
{
    let mut r: Vec<Segment> = Vec::new();
    let mut i: usize = 0;
    while i < segments.len()
        invariant
            i <= segments.len(),
            r@ == segments@.take(i as int),
        decreases segments.len() - i,
    {
        r.push(segments[i]);
        i = i + 1;
        assert(r@ =~= segments@.take(i as int));
    }
    assert(segments@.take(i as int) =~= segments@);
    r
}

/// The display settings that `DisplayConfig::default()` holds.
pub open spec fn is_default_display(d: DisplayConfig) -> bool {
    &&& d.theme == Theme::PastelSyntax
    &&& d.glyphs == Glyphs::Unicode
    &&& d.refresh_hz == 8
    &&& d.rows == 3
    &&& d.segments@ == full_layout_segments()
    &&& d.separator@ == " │ "@
}

/// The configuration that `Config::default()` holds.
pub open spec fn is_default_config(c: Config) -> bool {
    &&& c.version == 2
    &&& c.launch.mode == LaunchMode::Shim
    &&& c.launch.bypass_flag@ == "--no-companion"@
    &&& c.sources.app_server
    &&& !c.sources.remote_proxy
    &&& is_default_display(c.display)
}

impl DisplayConfig {
    pub fn default_display() -> (r: Self)
        ensures
            is_default_display(r),
    {
        DisplayConfig {
            theme: Theme::PastelSyntax,
            glyphs: Glyphs::Unicode,
            refresh_hz: 8,
            rows: 3,
            segments: full_layout(),
            separator: owned(" │ "),
        }
    }

    /// A field-by-field copy.
    pub fn duplicate(&self) -> (r: Self)
        ensures
            r.theme == self.theme,
            r.glyphs == self.glyphs,
            r.refresh_hz == self.refresh_hz,
            r.rows == self.rows,
            r.segments@ == self.segments@,
            r.separator@ == self.separator@,
    {
        DisplayConfig {
            theme: self.theme,
            glyphs: self.glyphs,
            refresh_hz: self.refresh_hz,
            rows: self.rows,
            segments: copy_segments(&self.segments),
            separator: self.separator.clone(),
        }
    }
}

impl Default for DisplayConfig {
    fn default() -> (r: Self)
        ensures
            is_default_display(r),
    {
        DisplayConfig::default_display()
    }
}

impl Default for Config {
    fn default() -> (r: Self)
        ensures
            is_default_config(r),
    {
        Config::default_config()
    }
}

/// Why a configuration was refused.
#[derive(Debug, Clone, Copy, PartialEq, Eq, Structural)]
pub enum ConfigError {
    UnsupportedVersion(u16),
    RefreshRate,
    Rows,
    NoSegments,
    DuplicateSegments,
    SeparatorControl,
    SeparatorTooLong,
    BypassFlag,
}

/// The message shown to the user for each error.
pub open spec fn error_text(e: ConfigError) -> Seq<char> {
    match e {
        ConfigError::UnsupportedVersion(v) => "unsupported config version "@ + decimal(v as nat),
        ConfigError::RefreshRate => "display.refresh_hz must be between 1 and 20"@,
        ConfigError::Rows => "display.rows must be between 1 and 3"@,
        ConfigError::NoSegments => "display.segments must contain at least one segment"@,
        ConfigError::DuplicateSegments => "display.segments cannot contain duplicates"@,
        ConfigError::SeparatorControl => "display.separator cannot contain terminal control characters"@,
        ConfigError::SeparatorTooLong => "display.separator cannot be longer than 8 characters"@,
        ConfigError::BypassFlag => "launch.bypass_flag must be --no-companion"@,
    }
}

impl ConfigError {
    /// The message shown to the user.
    pub fn message(self) -> (r: String)
        ensures
            r@ == error_text(self),
    {
        match self {
            ConfigError::UnsupportedVersion(v) => {
                let mut r = owned("unsupported config version ");
                push_decimal(&mut r, v as u64);
                r
            },
            ConfigError::RefreshRate => owned("display.refresh_hz must be between 1 and 20"),
            ConfigError::Rows => owned("display.rows must be between 1 and 3"),
            ConfigError::NoSegments => owned("display.segments must contain at least one segment"),
            ConfigError::DuplicateSegments => owned("display.segments cannot contain duplicates"),
            ConfigError::SeparatorControl => owned("display.separator cannot contain terminal control characters"),
            ConfigError::SeparatorTooLong => owned("display.separator cannot be longer than 8 characters"),
            ConfigError::BypassFlag => owned("launch.bypass_flag must be --no-companion"),
        }
    }
}

/// A configuration by its values: text by its characters, modules as a sequence.
pub struct ConfigView {
    pub version: u16,
    pub mode: LaunchMode,
    pub bypass_flag: Seq<char>,
    pub sources: SourcesConfig,
    pub theme: Theme,
    pub glyphs: Glyphs,
    pub refresh_hz: u8,
    pub rows: u8,
    pub segments: Seq<Segment>,
    pub separator: Seq<char>,
}

impl View for Config {
    type V = ConfigView;

    open spec fn view(&self) -> ConfigView {
        ConfigView {
            version: self.version,
            mode: self.launch.mode,
            bypass_flag: self.launch.bypass_flag@,
            sources: self.sources,
            theme: self.display.theme,
            glyphs: self.display.glyphs,
            refresh_hz: self.display.refresh_hz,
            rows: self.display.rows,
            segments: self.display.segments@,
            separator: self.display.separator@,
        }
    }
}

/// The first rule, in checking order, that `c` breaks; `None` when `c` is valid.
pub open spec fn first_error(c: Config) -> Option<ConfigError> {
    view_error(c@)
}

/// The first rule, in checking order, that a configuration breaks.
pub open spec fn view_error(c: ConfigView) -> Option<ConfigError> {
    if c.version != 2 {
        Some(ConfigError::UnsupportedVersion(c.version))
    } else if !(1 <= c.refresh_hz <= 20) {
        Some(ConfigError::RefreshRate)
    } else if !(1 <= c.rows <= 3) {
        Some(ConfigError::Rows)
    } else if c.segments.len() == 0 {
        Some(ConfigError::NoSegments)
    } else if !c.segments.no_duplicates() {
        Some(ConfigError::DuplicateSegments)
    } else if !has_no_controls(c.separator) {
        Some(ConfigError::SeparatorControl)
    } else if c.separator.len() > 8 {
        Some(ConfigError::SeparatorTooLong)
    } else if c.bypass_flag != "--no-companion"@ {
        Some(ConfigError::BypassFlag)
    } else {
        None
    }
}

/// Whether `segments` holds some module twice.
pub fn has_duplicate(segments: &Vec<Segment>) -> (r: bool)
    ensures
        r == !segments@.no_duplicates(),
{
    let n = segments.len();
    let mut i: usize = 0;
    while i < n
        invariant
            n == segments@.len(),
            i <= n,
            forall|a: int, b: int| 0 <= a < b < n && a < i ==> segments@[a] != segments@[b],
        decreases n - i,
    {
        let mut j: usize = i + 1;
        while j < n
            invariant
                n == segments@.len(),
                i < n,
                i < j <= n,
                forall|a: int, b: int| 0 <= a < b < n && a < i ==> segments@[a] != segments@[b],
                forall|b: int| i < b < j ==> segments@[i as int] != segments@[b],
            decreases n - j,
        {
            if segments[i] == segments[j] {
                return true;
            }
            j = j + 1;
        }
        i = i + 1;
    }
    false
}

fn separator_has_control(separator: &str) -> (r: bool)
    ensures
        r == !has_no_controls(separator@),
{
    let n = separator.unicode_len();
    let mut i: usize = 0;
    while i < n
        invariant
            n == separator@.len(),
            i <= n,
            forall|j: int| 0 <= j < i ==> !crate::text::is_control_char(#[trigger] separator@[j]),
        decreases n - i,
    {
        if is_control(separator.get_char(i)) {
            return true;
        }
        i = i + 1;
    }
    false
}

impl Config {
    pub fn default_config() -> (r: Self)
        ensures
            is_default_config(r),
    {
        Config {
            version: 2,
            launch: LaunchConfig { mode: LaunchMode::Shim, bypass_flag: owned("--no-companion") },
            sources: SourcesConfig::default_sources(),
            display: DisplayConfig::default_display(),
        }
    }

    /// A field-by-field copy.
    pub fn duplicate(&self) -> (r: Self)
        ensures
            r.version == self.version,
            r.launch.mode == self.launch.mode,
            r.launch.bypass_flag@ == self.launch.bypass_flag@,
            r.sources == self.sources,
            r.display.theme == self.display.theme,
            r.display.glyphs == self.display.glyphs,
            r.display.refresh_hz == self.display.refresh_hz,
            r.display.rows == self.display.rows,
            r.display.segments@ == self.display.segments@,
            r.display.separator@ == self.display.separator@,
    {
        Config {
            version: self.version,
            launch: LaunchConfig { mode: self.launch.mode, bypass_flag: self.launch.bypass_flag.clone() },
            sources: self.sources,
            display: self.display.duplicate(),
        }
    }

    /// Checks every rule of the schema, in order, and reports the first one broken.
    pub fn validate(&self) -> (r: Result<(), ConfigError>)
        ensures
            r is Ok <==> first_error(*self) is None,
            r matches Err(e) ==> first_error(*self) == Some(e),
    {
        if self.version != 2 {
            return Err(ConfigError::UnsupportedVersion(self.version));
        }
        if !(1 <= self.display.refresh_hz && self.display.refresh_hz <= 20) {
            return Err(ConfigError::RefreshRate);
        }
        if !(1 <= self.display.rows && self.display.rows <= 3) {
            return Err(ConfigError::Rows);
        }
        if self.display.segments.len() == 0 {
            return Err(ConfigError::NoSegments);
        }
        if has_duplicate(&self.display.segments) {
            return Err(ConfigError::DuplicateSegments);
        }
        if separator_has_control(self.display.separator.as_str()) {
            return Err(ConfigError::SeparatorControl);
        }
        if self.display.separator.as_str().unicode_len() > 8 {
            return Err(ConfigError::SeparatorTooLong);
        }
        if !crate::text::same_text(self.launch.bypass_flag.as_str(), "--no-companion") {
            return Err(ConfigError::BypassFlag);
        }
        Ok(())
    }

    /// Upgrades an older schema in place. Version 1 shipped the experimental
    /// WebSocket proxy as the default; it migrates to version 2 with the proxy
    /// off. Returns whether anything changed.
    pub fn migrate(&mut self) -> (r: Result<bool, ConfigError>)
        ensures
            old(self).version == 1 ==> r == Ok::<bool, ConfigError>(true) && final(self).version == 2
                && !final(self).sources.remote_proxy
                && final(self).sources.app_server == old(self).sources.app_server
                && final(self).launch == old(self).launch && final(self).display == old(self).display,
            old(self).version == 2 ==> r == Ok::<bool, ConfigError>(false) && *final(self) == *old(self),
            old(self).version != 1 && old(self).version != 2 ==>
                r == Err::<bool, ConfigError>(ConfigError::UnsupportedVersion(old(self).version))
                && *final(self) == *old(self),
    {
        if self.version == 1 {
            self.version = 2;
            self.sources.remote_proxy = false;
            Ok(true)
        } else if self.version == 2 {
            Ok(false)
        } else {
            Err(ConfigError::UnsupportedVersion(self.version))
        }
    }

    /// What loading does once the file is parsed: migrate, then validate.
    /// Returns whether a migration happened (the caller then persists it).
    pub fn accept_loaded(&mut self) -> (r: Result<bool, ConfigError>)
        ensures
            (old(self).version == 1 || old(self).version == 2) ==> final(self).version == 2,
            old(self).version != 1 && old(self).version != 2 ==>
                r == Err::<bool, ConfigError>(ConfigError::UnsupportedVersion(old(self).version)),
            (old(self).version == 1 || old(self).version == 2) ==> (match first_error(*final(self)) {
                None => r == Ok::<bool, ConfigError>(old(self).version == 1),
                Some(e) => r == Err::<bool, ConfigError>(e),
            }),
            old(self).version == 1 ==> !final(self).sources.remote_proxy
                && final(self).sources.app_server == old(self).sources.app_server
                && final(self).launch == old(self).launch && final(self).display == old(self).display,
            old(self).version != 1 ==> *final(self) == *old(self),
    {
        let migrated = self.migrate()?;
        self.validate()?;
        Ok(migrated)
    }
}

/// The default configuration satisfies every rule of the schema.
pub proof fn lemma_default_is_valid(c: Config)
    requires
        is_default_config(c),
    ensures
        first_error(c) is None,
{
    reveal_strlit(" │ ");
    reveal_strlit("--no-companion");
    assert(c.display.segments@.no_duplicates());
    assert(has_no_controls(c.display.separator@));
}

/// `base` joined with the relative path `rest`, as `Path::join` writes it on Unix.
pub open spec fn path_join(base: Seq<char>, rest: Seq<char>) -> Seq<char> {
    if base.len() == 0 || base.last() == '/' { base + rest } else { base + "/"@ + rest }
}

pub fn join_path(base: &str, rest: &str) -> (r: String)
    ensures
        r@ == path_join(base@, rest@),
{
    let mut out = owned(base);
    let n = base.unicode_len();
    if n > 0 && base.get_char(n - 1) != '/' {
        push_str(&mut out, "/");
    }
    push_str(&mut out, rest);
    out
}

/// Where the configuration lives on Unix: under `$XDG_CONFIG_HOME` when it is
/// set, else under the home directory; `None` without either.
pub open spec fn config_path_spec(xdg_config_home: Option<Seq<char>>, home: Option<Seq<char>>) -> Option<Seq<char>> {
    match xdg_config_home {
        Some(x) => Some(path_join(x, "codexline/config.toml"@)),
        None => match home {
            Some(h) => Some(path_join(h, ".config/codexline/config.toml"@)),
            None => None,
        },
    }
}

pub fn config_path(xdg_config_home: Option<&str>, home: Option<&str>) -> (r: Option<String>)
    ensures
        crate::segments::opt_view(r) == config_path_spec(
            match xdg_config_home { Some(x) => Some(x@), None => None },
            match home { Some(h) => Some(h@), None => None },
        ),
{
    match xdg_config_home {
        Some(x) => Some(join_path(x, "codexline/config.toml")),
        None => match home {
            Some(h) => Some(join_path(h, ".config/codexline/config.toml")),
            None => None,
        },
    }
}

/// Where the shim goes on Unix: a Codexline-owned directory under
/// `$XDG_DATA_HOME` (else `~/.local/share`), never a shared `bin` directory.
pub open spec fn shim_path_spec(xdg_data_home: Option<Seq<char>>, home: Option<Seq<char>>) -> Option<Seq<char>> {
    match xdg_data_home {
        Some(x) => Some(path_join(x, "codexline/bin/codex"@)),
        None => match home {
            Some(h) => Some(path_join(path_join(h, ".local/share"@), "codexline/bin/codex"@)),
            None => None,
        },
    }
}

pub fn suggested_shim_path(xdg_data_home: Option<&str>, home: Option<&str>) -> (r: Option<String>)
    ensures
        crate::segments::opt_view(r) == shim_path_spec(
            match xdg_data_home { Some(x) => Some(x@), None => None },
            match home { Some(h) => Some(h@), None => None },
        ),
{
    match xdg_data_home {
        Some(x) => Some(join_path(x, "codexline/bin/codex")),
        None => match home {
            Some(h) => {
                let data = join_path(h, ".local/share");
                Some(join_path(data.as_str(), "codexline/bin/codex"))
            },
            None => None,
        },
    }
}

} // verus!
