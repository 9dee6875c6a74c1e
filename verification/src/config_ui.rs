//! The keyboard-driven configuration editor: pages of options, a staged copy of
//! the configuration, and the rules by which keys move the focus and edit it.

use crate::config::{view_error, Config, ConfigError, ConfigView, Glyphs, LaunchMode, Segment, SourcesConfig, Theme};
use crate::config::{copy_segments, full_layout, full_layout_segments};
use crate::text::owned;
use vstd::prelude::*;

verus! {

#[derive(Debug, Clone, Copy, PartialEq, Eq, Structural)]
pub enum Page {
    Launch,
    Preset,
    Modules,
    Appearance,
    Sources,
    Review,
}

#[derive(Debug, Clone, Copy, PartialEq, Eq, Structural)]
pub enum ModuleCategory {
    Core,
    Usage,
    Workspace,
    Activity,
    Runtime,
}

/// Which level the arrow keys move: the page tabs, the module categories, or the options.
#[derive(Debug, Clone, Copy, PartialEq, Eq, Structural)]
pub enum FocusLevel {
    Primary,
    Secondary,
    Options,
}

/// What a key asks of the session.
#[derive(Debug, Clone, Copy, PartialEq, Eq, Structural)]
pub enum Outcome {
    Continue,
    Save,
    Cancel,
}

/// The keys the editor reads.
#[derive(Debug, Clone, Copy, PartialEq, Eq, Structural)]
pub enum Key {
    Left,
    Right,
    Up,
    Down,
    Home,
    End,
    Tab,
    BackTab,
    Enter,
    Esc,
    Char(char),
    Other,
}

/// A key with whether Control was held.
#[derive(Debug, Clone, Copy, PartialEq, Eq, Structural)]
pub struct KeyPress {
    pub key: Key,
    pub control: bool,
}

/// Why an edit or a save was refused.
#[derive(Debug, Clone, Copy, PartialEq, Eq, Structural)]
pub enum EditorError {
    LastModule,
    Invalid(ConfigError),
}

impl EditorError {
    pub fn message(self) -> (r: String)
        ensures
            r@ == (match self {
                EditorError::LastModule => "at least one module must remain enabled"@,
                EditorError::Invalid(e) => crate::config::error_text(e),
            }),
    {
        match self {
            EditorError::LastModule => owned("at least one module must remain enabled"),
            EditorError::Invalid(e) => e.message(),
        }
    }
}

/// The page with tab index `i` (clamped to the first and last).
pub open spec fn page_at(i: int) -> Page {
    if i <= 0 {
        Page::Launch
    } else if i == 1 {
        Page::Preset
    } else if i == 2 {
        Page::Modules
    } else if i == 3 {
        Page::Appearance
    } else if i == 4 {
        Page::Sources
    } else {
        Page::Review
    }
}

pub open spec fn page_index(p: Page) -> int {
    match p {
        Page::Launch => 0,
        Page::Preset => 1,
        Page::Modules => 2,
        Page::Appearance => 3,
        Page::Sources => 4,
        Page::Review => 5,
    }
}

pub open spec fn category_at(i: int) -> ModuleCategory {
    if i <= 0 {
        ModuleCategory::Core
    } else if i == 1 {
        ModuleCategory::Usage
    } else if i == 2 {
        ModuleCategory::Workspace
    } else if i == 3 {
        ModuleCategory::Activity
    } else {
        ModuleCategory::Runtime
    }
}

pub open spec fn category_index(c: ModuleCategory) -> int {
    match c {
        ModuleCategory::Core => 0,
        ModuleCategory::Usage => 1,
        ModuleCategory::Workspace => 2,
        ModuleCategory::Activity => 3,
        ModuleCategory::Runtime => 4,
    }
}

pub open spec fn clamp(v: int, lo: int, hi: int) -> int {
    if v < lo { lo } else if v > hi { hi } else { v }
}

/// `n - 1`, or 0.
pub open spec fn last_index(n: nat) -> nat {
    if n == 0 { 0 } else { (n - 1) as nat }
}

/// The modules of a category with their labels, in display order.
pub open spec fn module_choice_list(c: ModuleCategory) -> Seq<(Segment, Seq<char>)> {
    match c {
        ModuleCategory::Core => seq![
            (Segment::App, "App · Codex identity"@),
            (Segment::Model, "Model summary · model and reasoning"@),
            (Segment::Reasoning, "Reasoning effort"@),
            (Segment::Work, "Work · phase and active tool"@),
            (Segment::Elapsed, "Elapsed · session timer"@),
            (Segment::SessionId, "Thread ID · current session"@),
        ],
        ModuleCategory::Usage => seq![
            (Segment::Context, "Context summary · pressure bar and tokens"@),
            (Segment::ContextRemaining, "Context remaining · percentage"@),
            (Segment::ContextUsed, "Context used · percentage"@),
            (Segment::ContextWindow, "Context window · token capacity"@),
            (Segment::Tokens, "Token summary · input/cache/output"@),
            (Segment::InputTokens, "Input tokens"@),
            (Segment::CachedTokens, "Cached input tokens"@),
            (Segment::OutputTokens, "Output tokens"@),
            (Segment::RateLimits, "Limit summary · quota and reset"@),
            (Segment::FiveHourLimit, "5-hour limit · remaining and reset"@),
            (Segment::WeeklyLimit, "Weekly limit · remaining and reset"@),
            (Segment::ResetCredits, "Extra usage resets"@),
        ],
        ModuleCategory::Workspace => seq![
            (Segment::Git, "Git summary · branch and changes"@),
            (Segment::GitDirty, "Git working-tree state"@),
            (Segment::GitStaged, "Git staged file count"@),
            (Segment::GitModified, "Git modified file count"@),
            (Segment::GitSync, "Git ahead/behind"@),
            (Segment::Worktree, "Worktree · linked workspace"@),
            (Segment::Cwd, "Directory · workspace path"@),
            (Segment::ProjectRoot, "Project root"@),
        ],
        ModuleCategory::Activity => seq![
            (Segment::Tools, "Tools · recent activity"@),
            (Segment::Agents, "Agent detail panel · role/task/message/time"@),
            (Segment::AgentCount, "Agent count · active/total"@),
            (Segment::Plan, "Plan · progress"@),
            (Segment::Compactions, "Compactions · count"@),
        ],
        ModuleCategory::Runtime => seq![
            (Segment::Safety, "Safety · sandbox and approval"@),
            (Segment::Status, "Source health summary"@),
            (Segment::HooksHealth, "Hooks event health"@),
            (Segment::AppServerHealth, "App-server health"@),
        ],
    }
}

/// The modules of a category with their labels.
pub fn module_choices(c: ModuleCategory) -> (r: Vec<(Segment, &'static str)>)
    ensures
        r@.len() == module_choice_list(c).len(),
        forall|i: int| 0 <= i < r@.len() ==> r@[i].0 == module_choice_list(c)[i].0 && (#[trigger] r@[i]).1@ == module_choice_list(c)[i].1,
{
    let r = match c {
        ModuleCategory::Core => vec![
            (Segment::App, "App · Codex identity"),
            (Segment::Model, "Model summary · model and reasoning"),
            (Segment::Reasoning, "Reasoning effort"),
            (Segment::Work, "Work · phase and active tool"),
            (Segment::Elapsed, "Elapsed · session timer"),
            (Segment::SessionId, "Thread ID · current session"),
        ],
        ModuleCategory::Usage => vec![
            (Segment::Context, "Context summary · pressure bar and tokens"),
            (Segment::ContextRemaining, "Context remaining · percentage"),
            (Segment::ContextUsed, "Context used · percentage"),
            (Segment::ContextWindow, "Context window · token capacity"),
            (Segment::Tokens, "Token summary · input/cache/output"),
            (Segment::InputTokens, "Input tokens"),
            (Segment::CachedTokens, "Cached input tokens"),
            (Segment::OutputTokens, "Output tokens"),
            (Segment::RateLimits, "Limit summary · quota and reset"),
            (Segment::FiveHourLimit, "5-hour limit · remaining and reset"),
            (Segment::WeeklyLimit, "Weekly limit · remaining and reset"),
            (Segment::ResetCredits, "Extra usage resets"),
        ],
        ModuleCategory::Workspace => vec![
            (Segment::Git, "Git summary · branch and changes"),
            (Segment::GitDirty, "Git working-tree state"),
            (Segment::GitStaged, "Git staged file count"),
            (Segment::GitModified, "Git modified file count"),
            (Segment::GitSync, "Git ahead/behind"),
            (Segment::Worktree, "Worktree · linked workspace"),
            (Segment::Cwd, "Directory · workspace path"),
            (Segment::ProjectRoot, "Project root"),
        ],
        ModuleCategory::Activity => vec![
            (Segment::Tools, "Tools · recent activity"),
            (Segment::Agents, "Agent detail panel · role/task/message/time"),
            (Segment::AgentCount, "Agent count · active/total"),
            (Segment::Plan, "Plan · progress"),
            (Segment::Compactions, "Compactions · count"),
        ],
        ModuleCategory::Runtime => vec![
            (Segment::Safety, "Safety · sandbox and approval"),
            (Segment::Status, "Source health summary"),
            (Segment::HooksHealth, "Hooks event health"),
            (Segment::AppServerHealth, "App-server health"),
        ],
    };
    r
}

/// The themes offered, in display order.
pub open spec fn theme_list() -> Seq<(Theme, Seq<char>)> {
    seq![
        (Theme::Inherit, "Theme · Inherit terminal"@),
        (Theme::Ox96f, "Theme · 0x96f Neon · transparent"@),
        (Theme::TokyoNight, "Theme · Tokyo Night · transparent"@),
        (Theme::CatppuccinMocha, "Theme · Catppuccin Mocha · transparent"@),
        (Theme::Dracula, "Theme · Dracula · transparent"@),
        (Theme::Nord, "Theme · Nord · transparent"@),
        (Theme::Gruvbox, "Theme · Gruvbox · transparent"@),
        (Theme::RosePine, "Theme · Rosé Pine · transparent"@),
        (Theme::CodexDark, "Theme · Codex Dark · fixed background"@),
        (Theme::CodexLight, "Theme · Codex Light · fixed background"@),
        (Theme::Minimal, "Theme · Minimal"@),
        (Theme::Mono, "Theme · Mono"@),
        (Theme::PastelSyntax, "Theme · Pastel Syntax · transparent"@),
    ]
}

/// The themes offered, with their labels.
pub fn theme_choices() -> (r: Vec<(Theme, &'static str)>)
    ensures
        r@.len() == theme_list().len(),
        forall|i: int| 0 <= i < r@.len() ==> r@[i].0 == theme_list()[i].0 && (#[trigger] r@[i]).1@ == theme_list()[i].1,
{
    vec![
        (Theme::Inherit, "Theme · Inherit terminal"),
        (Theme::Ox96f, "Theme · 0x96f Neon · transparent"),
        (Theme::TokyoNight, "Theme · Tokyo Night · transparent"),
        (Theme::CatppuccinMocha, "Theme · Catppuccin Mocha · transparent"),
        (Theme::Dracula, "Theme · Dracula · transparent"),
        (Theme::Nord, "Theme · Nord · transparent"),
        (Theme::Gruvbox, "Theme · Gruvbox · transparent"),
        (Theme::RosePine, "Theme · Rosé Pine · transparent"),
        (Theme::CodexDark, "Theme · Codex Dark · fixed background"),
        (Theme::CodexLight, "Theme · Codex Light · fixed background"),
        (Theme::Minimal, "Theme · Minimal"),
        (Theme::Mono, "Theme · Mono"),
        (Theme::PastelSyntax, "Theme · Pastel Syntax · transparent"),
    ]
}

/// A theme's position among the choices.
pub open spec fn theme_position(t: Theme) -> nat {
    match t {
        Theme::Inherit => 0,
        Theme::Ox96f => 1,
        Theme::TokyoNight => 2,
        Theme::CatppuccinMocha => 3,
        Theme::Dracula => 4,
        Theme::Nord => 5,
        Theme::Gruvbox => 6,
        Theme::RosePine => 7,
        Theme::CodexDark => 8,
        Theme::CodexLight => 9,
        Theme::Minimal => 10,
        Theme::Mono => 11,
        Theme::PastelSyntax => 12,
    }
}

pub fn theme_index(t: Theme) -> (r: usize)
    ensures
        r == theme_position(t),
        theme_list()[r as int].0 == t,
{
    match t {
        Theme::Inherit => 0,
        Theme::Ox96f => 1,
        Theme::TokyoNight => 2,
        Theme::CatppuccinMocha => 3,
        Theme::Dracula => 4,
        Theme::Nord => 5,
        Theme::Gruvbox => 6,
        Theme::RosePine => 7,
        Theme::CodexDark => 8,
        Theme::CodexLight => 9,
        Theme::Minimal => 10,
        Theme::Mono => 11,
        Theme::PastelSyntax => 12,
    }
}

/// The modules of the focused layout.
pub open spec fn focus_layout() -> Seq<Segment> {
    seq![
        Segment::App, Segment::Model, Segment::Work, Segment::Context, Segment::Git,
        Segment::Worktree, Segment::Tools, Segment::Agents, Segment::Elapsed,
    ]
}

/// The modules of the minimal layout.
pub open spec fn minimal_layout() -> Seq<Segment> {
    seq![Segment::Work, Segment::Context, Segment::Git]
}

/// Which preset a configuration matches: 0 Full, 1 Focus, 2 Minimal, 3 Custom.
pub open spec fn preset_of(c: ConfigView) -> nat {
    if c.rows == 3 && c.segments == full_layout_segments() {
        0
    } else if c.rows == 2 && c.segments == focus_layout() {
        1
    } else if c.rows == 1 && c.segments == minimal_layout() {
        2
    } else {
        3
    }
}

/// The configuration after choosing preset `index` (3 keeps it).
pub open spec fn with_preset(c: ConfigView, index: nat) -> ConfigView {
    if index == 0 {
        ConfigView { rows: 3, segments: full_layout_segments(), ..c }
    } else if index == 1 {
        ConfigView { rows: 2, segments: focus_layout(), ..c }
    } else if index == 2 {
        ConfigView { rows: 1, segments: minimal_layout(), ..c }
    } else {
        c
    }
}

/// Which data-source preset the sources match: 0 sidecar, 1 local, 2 proxy.
pub open spec fn source_preset_of(s: SourcesConfig) -> nat {
    if s.remote_proxy { 2 } else if s.app_server { 0 } else { 1 }
}

pub open spec fn with_source_preset(s: SourcesConfig, index: nat) -> SourcesConfig {
    if index == 0 {
        SourcesConfig { app_server: true, remote_proxy: false }
    } else if index == 1 {
        SourcesConfig { app_server: false, remote_proxy: false }
    } else {
        SourcesConfig { app_server: true, remote_proxy: true }
    }
}

fn same_segments(a: &Vec<Segment>, b: &Vec<Segment>) -> (r: bool)
    ensures
        r == (a@ == b@),
{
    if a.len() != b.len() {
        return false;
    }
    let mut i: usize = 0;
    while i < a.len()
        invariant
            a@.len() == b@.len(),
            i <= a@.len(),
            forall|j: int| 0 <= j < i ==> a@[j] == b@[j],
        decreases a@.len() - i,
    {
        if a[i] != b[i] {
            return false;
        }
        i = i + 1;
    }
    assert(a@ =~= b@);
    true
}

fn focus_segments() -> (r: Vec<Segment>)
    ensures
        r@ == focus_layout(),
{
    let r = vec![
        Segment::App, Segment::Model, Segment::Work, Segment::Context, Segment::Git,
        Segment::Worktree, Segment::Tools, Segment::Agents, Segment::Elapsed,
    ];
    assert(r@ =~= focus_layout());
    r
}

fn minimal_segments() -> (r: Vec<Segment>)
    ensures
        r@ == minimal_layout(),
{
    let r = vec![Segment::Work, Segment::Context, Segment::Git];
    assert(r@ =~= minimal_layout());
    r
}

/// Which preset the configuration matches.
pub fn preset_index(config: &Config) -> (r: usize)
    ensures
        r == preset_of(config@),
{
    if config.display.rows == 3 && same_segments(&config.display.segments, &full_layout()) {
        0
    } else if config.display.rows == 2 && same_segments(&config.display.segments, &focus_segments()) {
        1
    } else if config.display.rows == 1 && same_segments(&config.display.segments, &minimal_segments()) {
        2
    } else {
        3
    }
}

pub open spec fn preset_label(i: nat) -> Seq<char> {
    if i == 0 { "Full"@ } else if i == 1 { "Focus"@ } else if i == 2 { "Minimal"@ } else { "Custom"@ }
}

pub fn preset_name(config: &Config) -> (r: &'static str)
    ensures
        r@ == preset_label(preset_of(config@)),
{
    let i = preset_index(config);
    if i == 0 { "Full" } else if i == 1 { "Focus" } else if i == 2 { "Minimal" } else { "Custom" }
}

/// Applies preset `index` (0 Full, 1 Focus, 2 Minimal, 3 Custom keeps the modules).
pub fn apply_preset(config: &mut Config, index: usize)
    requires
        index < 4,
    ensures
        final(config)@ == with_preset(old(config)@, index as nat),
{
    if index == 0 {
        config.display.rows = 3;
        config.display.segments = full_layout();
    } else if index == 1 {
        config.display.rows = 2;
        config.display.segments = focus_segments();
    } else if index == 2 {
        config.display.rows = 1;
        config.display.segments = minimal_segments();
    }
}

pub fn source_index(sources: &SourcesConfig) -> (r: usize)
    ensures
        r == source_preset_of(*sources),
{
    if sources.remote_proxy { 2 } else if sources.app_server { 0 } else { 1 }
}

pub open spec fn source_label(i: nat) -> Seq<char> {
    if i == 0 { "Safe sidecar"@ } else if i == 1 { "Local only"@ } else { "Experimental proxy"@ }
}

pub fn source_name(sources: &SourcesConfig) -> (r: &'static str)
    ensures
        r@ == source_label(source_preset_of(*sources)),
{
    let i = source_index(sources);
    if i == 0 { "Safe sidecar" } else if i == 1 { "Local only" } else { "Experimental proxy" }
}

/// Applies data-source preset `index` (0 sidecar, 1 local only, 2 live proxy).
pub fn apply_source_preset(sources: &mut SourcesConfig, index: usize)
    requires
        index < 3,
    ensures
        *final(sources) == with_source_preset(*old(sources), index as nat),
{
    if index == 0 {
        sources.app_server = true;
        sources.remote_proxy = false;
    } else if index == 1 {
        sources.app_server = false;
        sources.remote_proxy = false;
    } else {
        sources.app_server = true;
        sources.remote_proxy = true;
    }
}

// ---------------------------------------------------------------- the editor

/// The editor: the configuration as loaded, the staged copy, and where the focus is.
pub struct Editor {
    pub original: Config,
    pub config: Config,
    pub page: Page,
    pub module_category: ModuleCategory,
    pub focus: FocusLevel,
    pub cursor: usize,
    pub message: String,
}

pub struct EditorView {
    pub original: ConfigView,
    pub config: ConfigView,
    pub page: Page,
    pub category: ModuleCategory,
    pub focus: FocusLevel,
    pub cursor: nat,
    pub message: Seq<char>,
}

impl View for Editor {
    type V = EditorView;

    open spec fn view(&self) -> EditorView {
        EditorView {
            original: self.original@,
            config: self.config@,
            page: self.page,
            category: self.module_category,
            focus: self.focus,
            cursor: self.cursor as nat,
            message: self.message@,
        }
    }
}

/// How many options the current page lists.
pub open spec fn option_count(e: EditorView) -> nat {
    match e.page {
        Page::Launch => 2,
        Page::Preset => 4,
        Page::Modules => module_choice_list(e.category).len(),
        Page::Appearance => theme_list().len() + 5,
        Page::Sources => 3,
        Page::Review => 2,
    }
}

/// The cursor points at an option where the page's options are indexed by it.
pub open spec fn cursor_ok(e: EditorView) -> bool {
    match e.page {
        Page::Launch | Page::Review => e.cursor < isize::MAX,
        _ => e.cursor < option_count(e),
    }
}

pub open spec fn switched_page(e: EditorView, delta: int) -> EditorView {
    EditorView { page: page_at(clamp(page_index(e.page) + delta, 0, 5)), cursor: 0, focus: FocusLevel::Primary, ..e }
}

pub open spec fn selected_page(e: EditorView, index: nat) -> EditorView {
    if index < 6 {
        EditorView { page: page_at(index as int), cursor: 0, focus: FocusLevel::Primary, ..e }
    } else {
        e
    }
}

pub open spec fn switched_category(e: EditorView, delta: int) -> EditorView {
    let c = category_at(clamp(category_index(e.category) + delta, 0, 4));
    let last = last_index(module_choice_list(c).len());
    EditorView { category: c, cursor: if e.cursor < last { e.cursor } else { last }, ..e }
}

pub open spec fn moved(e: EditorView, delta: int) -> EditorView {
    EditorView { cursor: clamp(e.cursor + delta, 0, last_index(option_count(e)) as int) as nat, ..e }
}

pub open spec fn focused(e: EditorView, f: FocusLevel) -> EditorView {
    EditorView { focus: f, ..e }
}

pub open spec fn went_up(e: EditorView) -> EditorView {
    match e.focus {
        FocusLevel::Options => if e.cursor > 0 {
            moved(e, -1)
        } else if e.page == Page::Modules {
            focused(e, FocusLevel::Secondary)
        } else {
            focused(e, FocusLevel::Primary)
        },
        FocusLevel::Secondary => focused(e, FocusLevel::Primary),
        FocusLevel::Primary => e,
    }
}

pub open spec fn went_down(e: EditorView) -> EditorView {
    match e.focus {
        FocusLevel::Primary => if e.page == Page::Modules {
            focused(e, FocusLevel::Secondary)
        } else {
            focused(e, FocusLevel::Options)
        },
        FocusLevel::Secondary => focused(e, FocusLevel::Options),
        FocusLevel::Options => moved(e, 1),
    }
}

pub open spec fn went_sideways(e: EditorView, delta: int) -> EditorView {
    match e.focus {
        FocusLevel::Primary => switched_page(e, delta),
        FocusLevel::Secondary => if e.page == Page::Modules { switched_category(e, delta) } else { e },
        FocusLevel::Options => e,
    }
}

/// The first position of `x` in `s`, or -1.
pub open spec fn seg_index(s: Seq<Segment>, x: Segment) -> int
    decreases s.len(),
{
    if s.len() == 0 {
        -1
    } else if s[0] == x {
        0
    } else {
        let j = seg_index(s.drop_first(), x);
        if j < 0 { -1 } else { j + 1 }
    }
}

pub open spec fn updated(e: EditorView, c: ConfigView) -> EditorView {
    EditorView { config: c, message: "Selection updated · Enter saves · Esc cancels"@, ..e }
}

/// What saving answers: `Save` for a valid staged configuration, else the first rule it breaks.
pub open spec fn save_answer(c: ConfigView) -> Result<Outcome, EditorError> {
    match view_error(c) {
        None => Ok(Outcome::Save),
        Some(x) => Err(EditorError::Invalid(x)),
    }
}

/// The appearance option at `cursor`: a theme, a glyph set, or a row count.
pub open spec fn with_appearance(c: ConfigView, cursor: nat) -> ConfigView {
    let n = theme_list().len();
    if cursor < n {
        ConfigView { theme: theme_list()[cursor as int].0, ..c }
    } else if cursor == n {
        ConfigView { glyphs: Glyphs::Unicode, ..c }
    } else if cursor == n + 1 {
        ConfigView { glyphs: Glyphs::Ascii, ..c }
    } else {
        ConfigView { rows: (cursor - n - 1) as u8, ..c }
    }
}

/// Space on the option under the cursor.
pub open spec fn activated(e: EditorView) -> (EditorView, Result<Outcome, EditorError>) {
    match e.page {
        Page::Launch => (
            updated(e, ConfigView { mode: if e.cursor == 0 { LaunchMode::Shim } else { LaunchMode::Explicit }, ..e.config }),
            Ok(Outcome::Continue),
        ),
        Page::Preset => (updated(e, with_preset(e.config, e.cursor)), Ok(Outcome::Continue)),
        Page::Modules => {
            let seg = module_choice_list(e.category)[e.cursor as int].0;
            let i = seg_index(e.config.segments, seg);
            if i >= 0 {
                if e.config.segments.len() > 1 {
                    (updated(e, ConfigView { segments: e.config.segments.remove(i), ..e.config }), Ok(Outcome::Continue))
                } else {
                    (e, Err(EditorError::LastModule))
                }
            } else {
                (updated(e, ConfigView { segments: e.config.segments.push(seg), ..e.config }), Ok(Outcome::Continue))
            }
        },
        Page::Appearance => (updated(e, with_appearance(e.config, e.cursor)), Ok(Outcome::Continue)),
        Page::Sources => (
            updated(e, ConfigView { sources: with_source_preset(e.config.sources, e.cursor), ..e.config }),
            Ok(Outcome::Continue),
        ),
        Page::Review => if e.cursor == 0 { (e, save_answer(e.config)) } else { (e, Ok(Outcome::Cancel)) },
    }
}

/// One key press.
pub open spec fn after_key(e: EditorView, k: KeyPress) -> (EditorView, Result<Outcome, EditorError>) {
    if k.control && k.key == Key::Char('c') {
        (e, Ok(Outcome::Cancel))
    } else {
        match k.key {
            Key::Left => (went_sideways(e, -1), Ok(Outcome::Continue)),
            Key::Right => (went_sideways(e, 1), Ok(Outcome::Continue)),
            Key::BackTab => (switched_page(e, -1), Ok(Outcome::Continue)),
            Key::Tab => (switched_page(e, 1), Ok(Outcome::Continue)),
            Key::Up => (went_up(e), Ok(Outcome::Continue)),
            Key::Down => (went_down(e), Ok(Outcome::Continue)),
            Key::Home => (if e.focus == FocusLevel::Options { EditorView { cursor: 0, ..e } } else { e }, Ok(Outcome::Continue)),
            Key::End => (
                if e.focus == FocusLevel::Options { EditorView { cursor: last_index(option_count(e)), ..e } } else { e },
                Ok(Outcome::Continue),
            ),
            Key::Enter => (e, save_answer(e.config)),
            Key::Esc => (e, Ok(Outcome::Cancel)),
            Key::Char(c) => char_key(e, c),
            Key::Other => (e, Ok(Outcome::Continue)),
        }
    }
}

/// A printable key.
pub open spec fn char_key(e: EditorView, c: char) -> (EditorView, Result<Outcome, EditorError>) {
    if c == 'k' {
        (went_up(e), Ok(Outcome::Continue))
    } else if c == 'j' {
        (went_down(e), Ok(Outcome::Continue))
    } else if '1' <= c <= '6' {
        (selected_page(e, (c as u32 - '1' as u32) as nat), Ok(Outcome::Continue))
    } else if c == ' ' && e.focus == FocusLevel::Options {
        activated(e)
    } else if c == 's' || c == 'S' {
        (e, save_answer(e.config))
    } else if c == 'q' || c == 'Q' {
        (e, Ok(Outcome::Cancel))
    } else {
        (e, Ok(Outcome::Continue))
    }
}

impl Editor {
    /// A new editor on `config`: it stages a copy and opens the first page.
    pub fn new(config: Config) -> (r: Self)
        ensures
            r@.original == config@,
            r@.config == config@,
            r.page == Page::Launch,
            r.module_category == ModuleCategory::Core,
            r.focus == FocusLevel::Primary,
            r.cursor == 0,
            r.message@ == "Changes are staged until you save."@,
    {
        Editor {
            original: config.duplicate(),
            config,
            page: Page::Launch,
            module_category: ModuleCategory::Core,
            focus: FocusLevel::Primary,
            cursor: 0,
            message: owned("Changes are staged until you save."),
        }
    }

    /// Whether the staged configuration differs from the loaded one.
    pub fn dirty(&self) -> (r: bool)
        ensures
            r == (self.original@ != self.config@),
    {
        let a = &self.original;
        let b = &self.config;
        let same = a.version == b.version && a.launch.mode == b.launch.mode
            && crate::text::same_text(a.launch.bypass_flag.as_str(), b.launch.bypass_flag.as_str())
            && a.sources == b.sources && a.display.theme == b.display.theme && a.display.glyphs == b.display.glyphs
            && a.display.refresh_hz == b.display.refresh_hz && a.display.rows == b.display.rows
            && same_segments(&a.display.segments, &b.display.segments)
            && crate::text::same_text(a.display.separator.as_str(), b.display.separator.as_str());
        !same
    }

    pub fn option_count(&self) -> (r: usize)
        ensures
            r == option_count(self@),
    {
        match self.page {
            Page::Launch => 2,
            Page::Preset => 4,
            Page::Modules => module_choices(self.module_category).len(),
            Page::Appearance => theme_choices().len() + 5,
            Page::Sources => 3,
            Page::Review => 2,
        }
    }

    pub fn switch_page(&mut self, delta: isize)
        requires
            page_index(old(self).page) + delta <= isize::MAX,
        ensures
            final(self)@ == switched_page(old(self)@, delta as int),
    {
        let current: isize = match self.page {
            Page::Launch => 0,
            Page::Preset => 1,
            Page::Modules => 2,
            Page::Appearance => 3,
            Page::Sources => 4,
            Page::Review => 5,
        };
        let target = current + delta;
        self.page = if target <= 0 {
            Page::Launch
        } else if target == 1 {
            Page::Preset
        } else if target == 2 {
            Page::Modules
        } else if target == 3 {
            Page::Appearance
        } else if target == 4 {
            Page::Sources
        } else {
            Page::Review
        };
        self.cursor = 0;
        self.focus = FocusLevel::Primary;
    }

    pub fn select_page(&mut self, index: usize)
        ensures
            final(self)@ == selected_page(old(self)@, index as nat),
    {
        if index < 6 {
            self.page = if index == 0 {
                Page::Launch
            } else if index == 1 {
                Page::Preset
            } else if index == 2 {
                Page::Modules
            } else if index == 3 {
                Page::Appearance
            } else if index == 4 {
                Page::Sources
            } else {
                Page::Review
            };
            self.cursor = 0;
            self.focus = FocusLevel::Primary;
        }
    }

    pub fn switch_module_category(&mut self, delta: isize)
        requires
            category_index(old(self).module_category) + delta <= isize::MAX,
        ensures
            final(self)@ == switched_category(old(self)@, delta as int),
    {
        let current: isize = match self.module_category {
            ModuleCategory::Core => 0,
            ModuleCategory::Usage => 1,
            ModuleCategory::Workspace => 2,
            ModuleCategory::Activity => 3,
            ModuleCategory::Runtime => 4,
        };
        let target = current + delta;
        self.module_category = if target <= 0 {
            ModuleCategory::Core
        } else if target == 1 {
            ModuleCategory::Usage
        } else if target == 2 {
            ModuleCategory::Workspace
        } else if target == 3 {
            ModuleCategory::Activity
        } else {
            ModuleCategory::Runtime
        };
        let n = module_choices(self.module_category).len();
        let last = if n == 0 { 0 } else { n - 1 };
        if self.cursor > last {
            self.cursor = last;
        }
    }

    pub fn move_cursor(&mut self, delta: isize)
        requires
            old(self).cursor <= isize::MAX,
            isize::MIN <= old(self).cursor + delta <= isize::MAX,
        ensures
            final(self)@ == moved(old(self)@, delta as int),
    {
        let n = self.option_count();
        let last: isize = if n == 0 { 0 } else { (n - 1) as isize };
        let target = self.cursor as isize + delta;
        self.cursor = if target < 0 { 0 } else if target > last { last as usize } else { target as usize };
    }

    pub fn navigate_up(&mut self)
        requires
            old(self).cursor <= isize::MAX,
        ensures
            final(self)@ == went_up(old(self)@),
    {
        match self.focus {
            FocusLevel::Options => {
                if self.cursor > 0 {
                    self.move_cursor(-1);
                } else if self.page == Page::Modules {
                    self.focus = FocusLevel::Secondary;
                } else {
                    self.focus = FocusLevel::Primary;
                }
            },
            FocusLevel::Secondary => self.focus = FocusLevel::Primary,
            FocusLevel::Primary => {},
        }
    }

    pub fn navigate_down(&mut self)
        requires
            old(self).cursor < isize::MAX,
        ensures
            final(self)@ == went_down(old(self)@),
    {
        match self.focus {
            FocusLevel::Primary => {
                if self.page == Page::Modules {
                    self.focus = FocusLevel::Secondary;
                } else {
                    self.focus = FocusLevel::Options;
                }
            },
            FocusLevel::Secondary => self.focus = FocusLevel::Options,
            FocusLevel::Options => self.move_cursor(1),
        }
    }

    pub fn navigate_horizontal(&mut self, delta: isize)
        requires
            old(self).focus == FocusLevel::Primary ==> page_index(old(self).page) + delta <= isize::MAX,
            old(self).focus == FocusLevel::Secondary ==> category_index(old(self).module_category) + delta <= isize::MAX,
        ensures
            final(self)@ == went_sideways(old(self)@, delta as int),
    {
        match self.focus {
            FocusLevel::Primary => self.switch_page(delta),
            FocusLevel::Secondary => {
                if self.page == Page::Modules {
                    self.switch_module_category(delta);
                }
            },
            FocusLevel::Options => {},
        }
    }

    fn toggle_module(&mut self) -> (r: Result<Outcome, EditorError>)
        requires
            old(self).page == Page::Modules,
            old(self).cursor < option_count(old(self)@),
        ensures
            (final(self)@, r) == activated(old(self)@),
    {
        let choices = module_choices(self.module_category);
        let segment = choices[self.cursor].0;
        let ghost segs = self.config.display.segments@;
        let mut i: usize = 0;
        let mut found = false;
        assert(segs.skip(0) =~= segs);
        while i < self.config.display.segments.len() && !found
            invariant
                segs == self.config.display.segments@,
                i <= segs.len(),
                found ==> i < segs.len() && seg_index(segs, segment) == i as int,
                !found ==> seg_index(segs, segment) == crate::events::shifted(seg_index(segs.skip(i as int), segment), i as int),
            decreases segs.len() - i + (if found { 0int } else { 1int }),
        {
            assert(segs.skip(i as int)[0] == segs[i as int]);
            if self.config.display.segments[i] == segment {
                found = true;
            } else {
                assert(segs.skip(i as int).drop_first() =~= segs.skip(i as int + 1));
                i = i + 1;
            }
        }
        if !found {
            assert(segs.skip(i as int) =~= Seq::<Segment>::empty());
        }
        if found {
            if self.config.display.segments.len() <= 1 {
                return Err(EditorError::LastModule);
            }
            self.config.display.segments.remove(i);
        } else {
            self.config.display.segments.push(segment);
        }
        self.message = owned("Selection updated · Enter saves · Esc cancels");
        Ok(Outcome::Continue)
    }

    /// Space on the option under the cursor.
    pub fn activate(&mut self) -> (r: Result<Outcome, EditorError>)
        requires
            cursor_ok(old(self)@),
        ensures
            (final(self)@, r) == activated(old(self)@),
    {
        match self.page {
            Page::Launch => {
                self.config.launch.mode = if self.cursor == 0 { LaunchMode::Shim } else { LaunchMode::Explicit };
            },
            Page::Preset => apply_preset(&mut self.config, self.cursor),
            Page::Modules => {
                return self.toggle_module();
            },
            Page::Appearance => {
                let themes = theme_choices();
                let n = themes.len();
                if self.cursor < n {
                    self.config.display.theme = themes[self.cursor].0;
                } else if self.cursor == n {
                    self.config.display.glyphs = Glyphs::Unicode;
                } else if self.cursor == n + 1 {
                    self.config.display.glyphs = Glyphs::Ascii;
                } else {
                    self.config.display.rows = (self.cursor - n - 1) as u8;
                }
            },
            Page::Sources => apply_source_preset(&mut self.config.sources, self.cursor),
            Page::Review => {
                if self.cursor == 0 {
                    return match self.config.validate() {
                        Ok(()) => Ok(Outcome::Save),
                        Err(x) => Err(EditorError::Invalid(x)),
                    };
                }
                return Ok(Outcome::Cancel);
            },
        }
        self.message = owned("Selection updated · Enter saves · Esc cancels");
        Ok(Outcome::Continue)
    }

    fn save_requested(&self) -> (r: Result<Outcome, EditorError>)
        ensures
            r == save_answer(self.config@),
    {
        match self.config.validate() {
            Ok(()) => Ok(Outcome::Save),
            Err(x) => Err(EditorError::Invalid(x)),
        }
    }

    /// One key press: moves the focus, edits the staged configuration, or ends the session.
    pub fn handle_key(&mut self, key: KeyPress) -> (r: Result<Outcome, EditorError>)
        requires
            cursor_ok(old(self)@),
        ensures
            (final(self)@, r) == after_key(old(self)@, key),
            cursor_ok(final(self)@),
    {
        if key.control && key.key == Key::Char('c') {
            return Ok(Outcome::Cancel);
        }
        match key.key {
            Key::Left => self.navigate_horizontal(-1),
            Key::Right => self.navigate_horizontal(1),
            Key::BackTab => self.switch_page(-1),
            Key::Tab => self.switch_page(1),
            Key::Up => self.navigate_up(),
            Key::Down => self.navigate_down(),
            Key::Home => {
                if self.focus == FocusLevel::Options {
                    self.cursor = 0;
                }
            },
            Key::End => {
                if self.focus == FocusLevel::Options {
                    let n = self.option_count();
                    self.cursor = if n == 0 { 0 } else { n - 1 };
                }
            },
            Key::Enter => return self.save_requested(),
            Key::Esc => return Ok(Outcome::Cancel),
            Key::Char(c) => {
                if c == 'k' {
                    self.navigate_up();
                } else if c == 'j' {
                    self.navigate_down();
                } else if '1' <= c && c <= '6' {
                    self.select_page((c as u32 - '1' as u32) as usize);
                } else if c == ' ' && self.focus == FocusLevel::Options {
                    return self.activate();
                } else if c == 's' || c == 'S' {
                    return self.save_requested();
                } else if c == 'q' || c == 'Q' {
                    return Ok(Outcome::Cancel);
                }
            },
            Key::Other => {},
        }
        Ok(Outcome::Continue)
    }

    /// Shows why the last key was refused.
    pub fn report(&mut self, error: EditorError)
        ensures
            final(self)@ == (EditorView { message: match error {
                EditorError::LastModule => "at least one module must remain enabled"@,
                EditorError::Invalid(e) => crate::config::error_text(e),
            }, ..old(self)@ }),
    {
        self.message = error.message();
    }
}

// ---------------------------------------------------------------- option lines

/// An option drawn as a radio button.
pub open spec fn radio(label: Seq<char>) -> Seq<char> {
    "( ) "@ + label
}

pub open spec fn preset_option_label(i: nat) -> Seq<char> {
    if i == 0 {
        "Full · 3 rich rows"@
    } else if i == 1 {
        "Focus · 2 rows"@
    } else if i == 2 {
        "Minimal · 1 row"@
    } else {
        "Custom"@
    }
}

pub open spec fn source_option_label(i: nat) -> Seq<char> {
    if i == 0 {
        "Safe sidecar · recommended"@
    } else if i == 1 {
        "Local only"@
    } else {
        "Experimental live proxy · may disconnect Codex"@
    }
}

/// The module option line: a check box and the label.
pub open spec fn module_line(c: ConfigView, choice: (Segment, Seq<char>)) -> (Seq<char>, bool) {
    let on = c.segments.contains(choice.0);
    ((if on { "[x] "@ } else { "[ ] "@ }) + choice.1, on)
}

/// The lines of the current page, each with whether it is the current choice.
pub open spec fn option_lines_spec(e: EditorView) -> Seq<(Seq<char>, bool)> {
    let c = e.config;
    match e.page {
        Page::Launch => seq![
            (radio("Keep `codex` command · recommended"@), c.mode == LaunchMode::Shim),
            (radio("Use explicit `codexline` command"@), c.mode == LaunchMode::Explicit),
        ],
        Page::Preset => Seq::new(4, |i: int| (radio(preset_option_label(i as nat)), preset_of(c) == i)),
        Page::Modules => module_choice_list(e.category).map_values(|ch: (Segment, Seq<char>)| module_line(c, ch)),
        Page::Appearance => theme_list().map_values(|t: (Theme, Seq<char>)| (radio(t.1), c.theme == t.0)) + seq![
            (radio("Glyphs · Unicode"@), c.glyphs == Glyphs::Unicode),
            (radio("Glyphs · ASCII"@), c.glyphs == Glyphs::Ascii),
            (radio("Layout · 1 row"@), c.rows == 1),
            (radio("Layout · 2 rows"@), c.rows == 2),
            (radio("Layout · 3 rows"@), c.rows == 3),
        ],
        Page::Sources => Seq::new(3, |i: int| (radio(source_option_label(i as nat)), source_preset_of(c.sources) == i)),
        Page::Review => seq![("Save configuration"@, false), ("Cancel without saving"@, false)],
    }
}

pub open spec fn lines_view(v: Seq<(String, bool)>) -> Seq<(Seq<char>, bool)> {
    v.map_values(|l: (String, bool)| (l.0@, l.1))
}

fn radio_line(label: &str, on: bool) -> (r: (String, bool))
    ensures
        r.0@ == radio(label@),
        r.1 == on,
{
    let mut t = owned("( ) ");
    crate::text::push_str(&mut t, label);
    (t, on)
}

fn push_line(lines: &mut Vec<(String, bool)>, line: (String, bool))
    ensures
        lines_view(final(lines)@) == lines_view(old(lines)@).push((line.0@, line.1)),
{
    lines.push(line);
    assert(lines_view(lines@) =~= lines_view(old(lines)@).push((line.0@, line.1)));
}

fn contains_segment(segments: &Vec<Segment>, x: Segment) -> (r: bool)
    ensures
        r == segments@.contains(x),
{
    let mut i: usize = 0;
    while i < segments.len()
        invariant
            i <= segments@.len(),
            forall|j: int| 0 <= j < i ==> segments@[j] != x,
        decreases segments@.len() - i,
    {
        if segments[i] == x {
            assert(segments@[i as int] == x);
            return true;
        }
        i = i + 1;
    }
    false
}

fn preset_lines(config: &Config) -> (r: Vec<(String, bool)>)
    ensures
        lines_view(r@) == Seq::new(4, |i: int| (radio(preset_option_label(i as nat)), preset_of(config@) == i)),
{
    let current = preset_index(config);
    let mut lines: Vec<(String, bool)> = Vec::new();
    push_line(&mut lines, radio_line("Full · 3 rich rows", current == 0));
    push_line(&mut lines, radio_line("Focus · 2 rows", current == 1));
    push_line(&mut lines, radio_line("Minimal · 1 row", current == 2));
    push_line(&mut lines, radio_line("Custom", current == 3));
    assert(lines_view(lines@) =~= Seq::new(4, |i: int| (radio(preset_option_label(i as nat)), preset_of(config@) == i)));
    lines
}

fn source_lines(sources: &SourcesConfig) -> (r: Vec<(String, bool)>)
    ensures
        lines_view(r@) == Seq::new(3, |i: int| (radio(source_option_label(i as nat)), source_preset_of(*sources) == i)),
{
    let current = source_index(sources);
    let mut lines: Vec<(String, bool)> = Vec::new();
    push_line(&mut lines, radio_line("Safe sidecar · recommended", current == 0));
    push_line(&mut lines, radio_line("Local only", current == 1));
    push_line(&mut lines, radio_line("Experimental live proxy · may disconnect Codex", current == 2));
    assert(lines_view(lines@) =~= Seq::new(3, |i: int| (radio(source_option_label(i as nat)), source_preset_of(*sources) == i)));
    lines
}

fn module_lines(config: &Config, category: ModuleCategory) -> (r: Vec<(String, bool)>)
    ensures
        lines_view(r@) == module_choice_list(category).map_values(|ch: (Segment, Seq<char>)| module_line(config@, ch)),
{
    let choices = module_choices(category);
    let ghost want = module_choice_list(category).map_values(|ch: (Segment, Seq<char>)| module_line(config@, ch));
    let mut lines: Vec<(String, bool)> = Vec::new();
    let mut i: usize = 0;
    while i < choices.len()
        invariant
            choices@.len() == module_choice_list(category).len(),
            forall|k: int| 0 <= k < choices@.len() ==> choices@[k].0 == module_choice_list(category)[k].0
                && (#[trigger] choices@[k]).1@ == module_choice_list(category)[k].1,
            want == module_choice_list(category).map_values(|ch: (Segment, Seq<char>)| module_line(config@, ch)),
            i <= choices@.len(),
            lines_view(lines@) == want.take(i as int),
        decreases choices@.len() - i,
    {
        let (segment, label) = choices[i];
        assert(choices@[i as int].1@ == module_choice_list(category)[i as int].1);
        let on = contains_segment(&config.display.segments, segment);
        let mut text = if on { owned("[x] ") } else { owned("[ ] ") };
        crate::text::push_str(&mut text, label);
        push_line(&mut lines, (text, on));
        i = i + 1;
        assert(lines_view(lines@) =~= want.take(i as int));
    }
    assert(want.take(i as int) =~= want);
    lines
}

fn appearance_lines(config: &Config) -> (r: Vec<(String, bool)>)
    ensures
        lines_view(r@) == theme_list().map_values(|t: (Theme, Seq<char>)| (radio(t.1), config@.theme == t.0)) + seq![
            (radio("Glyphs · Unicode"@), config@.glyphs == Glyphs::Unicode),
            (radio("Glyphs · ASCII"@), config@.glyphs == Glyphs::Ascii),
            (radio("Layout · 1 row"@), config@.rows == 1),
            (radio("Layout · 2 rows"@), config@.rows == 2),
            (radio("Layout · 3 rows"@), config@.rows == 3),
        ],
{
    let themes = theme_choices();
    let ghost want = theme_list().map_values(|t: (Theme, Seq<char>)| (radio(t.1), config@.theme == t.0));
    let mut lines: Vec<(String, bool)> = Vec::new();
    let mut i: usize = 0;
    while i < themes.len()
        invariant
            themes@.len() == theme_list().len(),
            forall|k: int| 0 <= k < themes@.len() ==> themes@[k].0 == theme_list()[k].0
                && (#[trigger] themes@[k]).1@ == theme_list()[k].1,
            want == theme_list().map_values(|t: (Theme, Seq<char>)| (radio(t.1), config@.theme == t.0)),
            i <= themes@.len(),
            lines_view(lines@) == want.take(i as int),
        decreases themes@.len() - i,
    {
        let (theme, label) = themes[i];
        assert(themes@[i as int].1@ == theme_list()[i as int].1);
        push_line(&mut lines, radio_line(label, config.display.theme == theme));
        i = i + 1;
        assert(lines_view(lines@) =~= want.take(i as int));
    }
    assert(want.take(i as int) =~= want);
    push_line(&mut lines, radio_line("Glyphs · Unicode", config.display.glyphs == Glyphs::Unicode));
    push_line(&mut lines, radio_line("Glyphs · ASCII", config.display.glyphs == Glyphs::Ascii));
    push_line(&mut lines, radio_line("Layout · 1 row", config.display.rows == 1));
    push_line(&mut lines, radio_line("Layout · 2 rows", config.display.rows == 2));
    push_line(&mut lines, radio_line("Layout · 3 rows", config.display.rows == 3));
    assert(lines_view(lines@) =~= want + seq![
        (radio("Glyphs · Unicode"@), config@.glyphs == Glyphs::Unicode),
        (radio("Glyphs · ASCII"@), config@.glyphs == Glyphs::Ascii),
        (radio("Layout · 1 row"@), config@.rows == 1),
        (radio("Layout · 2 rows"@), config@.rows == 2),
        (radio("Layout · 3 rows"@), config@.rows == 3),
    ]);
    lines
}

/// The lines of the current page, each with whether it is the current choice.
pub fn option_lines(editor: &Editor) -> (r: Vec<(String, bool)>)
    ensures
        lines_view(r@) == option_lines_spec(editor@),
{
    match editor.page {
        Page::Launch => {
            let mut lines: Vec<(String, bool)> = Vec::new();
            push_line(&mut lines, radio_line("Keep `codex` command · recommended", editor.config.launch.mode == LaunchMode::Shim));
            push_line(&mut lines, radio_line("Use explicit `codexline` command", editor.config.launch.mode == LaunchMode::Explicit));
            assert(lines_view(lines@) =~= option_lines_spec(editor@));
            lines
        },
        Page::Preset => preset_lines(&editor.config),
        Page::Modules => module_lines(&editor.config, editor.module_category),
        Page::Appearance => appearance_lines(&editor.config),
        Page::Sources => source_lines(&editor.config.sources),
        Page::Review => {
            let mut lines: Vec<(String, bool)> = Vec::new();
            push_line(&mut lines, (owned("Save configuration"), false));
            push_line(&mut lines, (owned("Cancel without saving"), false));
            assert(lines_view(lines@) =~= option_lines_spec(editor@));
            lines
        },
    }
}

/// At most `width` characters, the last replaced by an ellipsis when cut.
pub open spec fn truncated(v: Seq<char>, width: nat) -> Seq<char> {
    if v.len() <= width {
        v
    } else if width == 0 {
        Seq::empty()
    } else if width == 1 {
        seq!['…']
    } else {
        v.take(width - 1).push('…')
    }
}

pub fn truncate(value: &str, width: usize) -> (r: String)
    ensures
        r@ == truncated(value@, width as nat),
{
    let n = value.unicode_len();
    if n <= width {
        return owned(value);
    }
    let mut out = String::new();
    if width == 0 {
        return out;
    }
    if width == 1 {
        crate::text::push_char(&mut out, '…');
        assert(out@ =~= seq!['…']);
        return out;
    }
    let mut i: usize = 0;
    while i < width - 1
        invariant
            n == value@.len(),
            width <= n,
            i <= width - 1,
            out@ == value@.take(i as int),
        decreases width - 1 - i,
    {
        crate::text::push_char(&mut out, value.get_char(i));
        i = i + 1;
        assert(out@ =~= value@.take(i as int));
    }
    crate::text::push_char(&mut out, '…');
    out
}

// ---------------------------------------------------------------- the screen

/// A terminal colour of the editor screen.
#[derive(Debug, Clone, Copy, PartialEq, Eq, Structural)]
pub enum Color {
    Reset,
    Black,
    Cyan,
    Grey,
    DarkGrey,
    Green,
    Yellow,
    Magenta,
}

/// One piece of text at a 0-based cell, with its colours.
pub struct DrawOp {
    pub x: u16,
    pub y: u16,
    pub fg: Color,
    pub bg: Color,
    pub bold: bool,
    pub text: String,
}

pub struct OpView {
    pub x: nat,
    pub y: nat,
    pub fg: Color,
    pub bg: Color,
    pub bold: bool,
    pub text: Seq<char>,
}

pub open spec fn op_view(o: DrawOp) -> OpView {
    OpView { x: o.x as nat, y: o.y as nat, fg: o.fg, bg: o.bg, bold: o.bold, text: o.text@ }
}

pub open spec fn ops_view(v: Seq<DrawOp>) -> Seq<OpView> {
    v.map_values(|o: DrawOp| op_view(o))
}

pub open spec fn op(x: nat, y: nat, fg: Color, bg: Color, bold: bool, text: Seq<char>) -> OpView {
    OpView { x: x, y: y, fg: fg, bg: bg, bold: bold, text: text }
}

/// The smallest terminal the editor draws in.
pub open spec fn fits_editor(columns: nat, rows: nat) -> bool {
    columns >= 72 && rows >= 24
}

pub open spec fn sat_sub(a: nat, b: nat) -> nat {
    if a >= b { (a - b) as nat } else { 0 }
}

pub open spec fn page_title(p: Page) -> Seq<char> {
    match p {
        Page::Launch => "Launch"@,
        Page::Preset => "Preset"@,
        Page::Modules => "Modules"@,
        Page::Appearance => "Appearance"@,
        Page::Sources => "Data"@,
        Page::Review => "Review"@,
    }
}

pub open spec fn category_title(c: ModuleCategory) -> Seq<char> {
    match c {
        ModuleCategory::Core => "Core"@,
        ModuleCategory::Usage => "Usage"@,
        ModuleCategory::Workspace => "Workspace"@,
        ModuleCategory::Activity => "Activity"@,
        ModuleCategory::Runtime => "Runtime"@,
    }
}

/// The column of tab `i`: each tab is its title's width plus five.
pub open spec fn tab_x(i: nat) -> nat
    decreases i,
{
    if i == 0 { 2 } else { tab_x((i - 1) as nat) + page_title(page_at(i - 1)).len() + 5 }
}

/// The column of category `i`: each is its title's width plus four.
pub open spec fn category_x(i: nat) -> nat
    decreases i,
{
    if i == 0 { 2 } else { category_x((i - 1) as nat) + category_title(category_at(i - 1)).len() + 4 }
}

pub open spec fn tab_op(e: EditorView, i: nat) -> OpView {
    let p = page_at(i as int);
    let active = p == e.page;
    let focus = active && e.focus == FocusLevel::Primary;
    op(
        tab_x(i),
        3,
        if focus { Color::Black } else if active { Color::Cyan } else { Color::Grey },
        if focus { Color::Cyan } else { Color::Reset },
        active,
        " "@ + crate::text::decimal(i + 1) + " "@ + page_title(p) + " "@,
    )
}

pub open spec fn category_op(e: EditorView, i: nat, y: nat) -> OpView {
    let c = category_at(i as int);
    let active = c == e.category;
    let focus = active && e.focus == FocusLevel::Secondary;
    op(
        category_x(i),
        y,
        if focus { Color::Black } else if active { Color::Cyan } else { Color::DarkGrey },
        if focus { Color::Cyan } else { Color::Reset },
        active,
        (if active { "◆"@ } else { "·"@ }) + " "@ + category_title(c) + " "@,
    )
}

/// A radio label shows its state: `(●)` when chosen.
pub open spec fn marked(label: Seq<char>, selected: bool) -> Seq<char> {
    if label.len() >= 3 && label.take(3) == "( )"@ {
        "("@ + (if selected { "●"@ } else { " "@ }) + ")"@ + label.skip(3)
    } else {
        label
    }
}

/// The first option shown in a window of `visible` rows that keeps the cursor in view.
pub open spec fn window_start(cursor: nat, visible: nat, count: nat) -> nat {
    let a = sat_sub(cursor, sat_sub(visible, 1));
    let b = sat_sub(count, visible);
    if a < b { a } else { b }
}

pub open spec fn option_op(e: EditorView, options: Seq<(Seq<char>, bool)>, start: nat, offset: nat, y: nat, width: nat) -> OpView {
    let index = start + offset;
    let line = options[index as int];
    let focus = e.focus == FocusLevel::Options && index == e.cursor;
    op(
        2,
        y + offset,
        if focus { Color::Cyan } else if line.1 { Color::Green } else { Color::Grey },
        Color::Reset,
        focus,
        (if focus { "› "@ } else { "  "@ }) + truncated(marked(line.0, line.1), sat_sub(width, 2)),
    )
}

/// The visible options, from `y` down, at most `height` rows (at least one).
pub open spec fn option_ops(e: EditorView, y: nat, width: nat, height: nat) -> Seq<OpView> {
    let options = option_lines_spec(e);
    let visible: nat = if height > 1 { height } else { 1 };
    let start = window_start(e.cursor, visible, options.len());
    let shown: nat = if options.len() - start < visible { sat_sub(options.len(), start) } else { visible };
    Seq::new(shown, |k: int| option_op(e, options, start, k as nat, y, width))
}

/// The summary on the divider above the preview.
pub open spec fn summary_text(c: ConfigView) -> Seq<char> {
    " Live preview · "@ + preset_label(preset_of(c)) + " · "@ + crate::text::decimal(c.rows as nat) + " rows · "@
        + crate::text::decimal(c.segments.len()) + " modules · "@ + source_label(source_preset_of(c.sources)) + " "@
}

pub open spec fn help_text(p: Page) -> Seq<char> {
    if p == Page::Modules {
        "↑↓ level/move   ←→ current tab   Space toggle   Enter save   Esc cancel"@
    } else {
        "↑↓ level/move   ←→ current tab   Space select   Enter save   Esc cancel"@
    }
}

pub open spec fn header_ops(e: EditorView) -> Seq<OpView> {
    seq![
        op(2, 1, Color::Cyan, Color::Reset, true, "Codexline Config"@),
        op(18, 1, Color::DarkGrey, Color::Reset, false, if e.original != e.config { "  ● unsaved"@ } else { "  ✓ saved"@ }),
    ]
}

pub open spec fn tab_ops(e: EditorView) -> Seq<OpView> {
    Seq::new(6, |i: int| tab_op(e, i as nat))
}

/// The categories (on the Modules page) and the options above the divider at `divider_y`.
pub open spec fn body_ops(e: EditorView, width: nat, divider_y: nat) -> Seq<OpView> {
    if e.page == Page::Modules {
        Seq::new(5, |i: int| category_op(e, i as nat, 5)) + option_ops(e, 7, width, sat_sub(divider_y, 7))
    } else {
        option_ops(e, 6, width, sat_sub(divider_y, 6))
    }
}

pub open spec fn divider_ops(e: EditorView, width: nat, divider_y: nat) -> Seq<OpView> {
    seq![
        op(2, divider_y, Color::DarkGrey, Color::Reset, false, crate::text::repeat('─', width)),
        op(2, divider_y, Color::Magenta, Color::Reset, true, truncated(summary_text(e.config), width)),
    ]
}

pub open spec fn preview_ops(preview: Seq<Seq<char>>, preview_y: nat) -> Seq<OpView> {
    Seq::new(preview.len(), |k: int| op(2, preview_y + k as nat, Color::Reset, Color::Reset, false, preview[k]))
}

pub open spec fn footer_ops(e: EditorView, width: nat, rows: nat) -> Seq<OpView> {
    seq![
        op(2, sat_sub(rows, 3), Color::DarkGrey, Color::Reset, false, truncated(e.message, width)),
        op(2, sat_sub(rows, 2), Color::Grey, Color::Reset, false, help_text(e.page)),
    ]
}

pub open spec fn small_screen(columns: nat, rows: nat) -> Seq<OpView> {
    seq![
        op(2, 2, Color::Yellow, Color::Reset, false,
            "Codexline config needs 72×24; current terminal is "@ + crate::text::decimal(columns) + "×"@
            + crate::text::decimal(rows) + "."@),
        op(2, 4, Color::Reset, Color::Reset, false, "Resize the terminal, or press Esc/Q to cancel."@),
    ]
}

/// The editor screen for a terminal of `columns` x `rows` cells, with the
/// colour preview rows; drawn after the screen is cleared. Below 72 x 24 it is
/// a request to resize. Otherwise: the title, the page tabs, the options (with
/// the module categories on the Modules page), a divider with a summary, the
/// preview above the footer, the message and the key help.
pub open spec fn screen_spec(e: EditorView, columns: nat, rows: nat, preview: Seq<Seq<char>>) -> Seq<OpView> {
    if !fits_editor(columns, rows) {
        small_screen(columns, rows)
    } else {
        let width = sat_sub(columns, 4);
        let preview_y = sat_sub(sat_sub(rows, 3), preview.len());
        let divider_y = sat_sub(preview_y, 2);
        header_ops(e) + tab_ops(e) + body_ops(e, width, divider_y) + divider_ops(e, width, divider_y)
            + preview_ops(preview, preview_y) + footer_ops(e, width, rows)
    }
}

fn push_op(ops: &mut Vec<DrawOp>, o: DrawOp)
    ensures
        ops_view(final(ops)@) == ops_view(old(ops)@).push(op_view(o)),
{
    ops.push(o);
    assert(ops_view(ops@) =~= ops_view(old(ops)@).push(op_view(o)));
}

fn text_op(x: u16, y: u16, fg: Color, bg: Color, bold: bool, text: String) -> (r: DrawOp)
    ensures
        op_view(r) == op(x as nat, y as nat, fg, bg, bold, text@),
{
    DrawOp { x, y, fg, bg, bold, text }
}

fn page_title_text(p: Page) -> (r: &'static str)
    ensures
        r@ == page_title(p),
{
    match p {
        Page::Launch => "Launch",
        Page::Preset => "Preset",
        Page::Modules => "Modules",
        Page::Appearance => "Appearance",
        Page::Sources => "Data",
        Page::Review => "Review",
    }
}

fn category_title_text(c: ModuleCategory) -> (r: &'static str)
    ensures
        r@ == category_title(c),
{
    match c {
        ModuleCategory::Core => "Core",
        ModuleCategory::Usage => "Usage",
        ModuleCategory::Workspace => "Workspace",
        ModuleCategory::Activity => "Activity",
        ModuleCategory::Runtime => "Runtime",
    }
}

fn page_of_index(i: usize) -> (r: Page)
    ensures
        r == page_at(i as int),
{
    if i == 0 { Page::Launch } else if i == 1 { Page::Preset } else if i == 2 { Page::Modules }
    else if i == 3 { Page::Appearance } else if i == 4 { Page::Sources } else { Page::Review }
}

fn category_of_index(i: usize) -> (r: ModuleCategory)
    ensures
        r == category_at(i as int),
{
    if i == 0 { ModuleCategory::Core } else if i == 1 { ModuleCategory::Usage } else if i == 2 { ModuleCategory::Workspace }
    else if i == 3 { ModuleCategory::Activity } else { ModuleCategory::Runtime }
}

proof fn lemma_tab_x_bound(i: nat)
    requires
        i <= 6,
    ensures
        tab_x(i) <= 2 + 15 * i,
    decreases i,
{
    reveal_strlit("Launch");
    reveal_strlit("Preset");
    reveal_strlit("Modules");
    reveal_strlit("Appearance");
    reveal_strlit("Data");
    reveal_strlit("Review");
    if i > 0 {
        lemma_tab_x_bound((i - 1) as nat);
    }
}

proof fn lemma_category_x_bound(i: nat)
    requires
        i <= 5,
    ensures
        category_x(i) <= 2 + 13 * i,
    decreases i,
{
    reveal_strlit("Core");
    reveal_strlit("Usage");
    reveal_strlit("Workspace");
    reveal_strlit("Activity");
    reveal_strlit("Runtime");
    if i > 0 {
        lemma_category_x_bound((i - 1) as nat);
    }
}

fn push_tabs(ops: &mut Vec<DrawOp>, editor: &Editor)
    ensures
        ops_view(final(ops)@) == ops_view(old(ops)@) + tab_ops(editor@),
{
    let ghost start = ops_view(ops@);
    let mut x: u16 = 2;
    let mut i: usize = 0;
    while i < 6
        invariant
            i <= 6,
            x as nat == tab_x(i as nat),
            ops_view(ops@) == start + Seq::new(i as nat, |k: int| tab_op(editor@, k as nat)),
        decreases 6 - i,
    {
        proof {
            lemma_tab_x_bound(i as nat);
            lemma_tab_x_bound(i as nat + 1);
        }
        let page = page_of_index(i);
        let title = page_title_text(page);
        let active = page == editor.page;
        let focus = active && editor.focus == FocusLevel::Primary;
        let mut text = owned(" ");
        crate::text::push_decimal(&mut text, (i + 1) as u64);
        crate::text::push_str(&mut text, " ");
        crate::text::push_str(&mut text, title);
        crate::text::push_str(&mut text, " ");
        let fg = if focus { Color::Black } else if active { Color::Cyan } else { Color::Grey };
        let bg = if focus { Color::Cyan } else { Color::Reset };
        push_op(ops, text_op(x, 3, fg, bg, active, text));
        x = x + title.unicode_len() as u16 + 5;
        i = i + 1;
        assert(ops_view(ops@) =~= start + Seq::new(i as nat, |k: int| tab_op(editor@, k as nat)));
    }
}

fn push_categories(ops: &mut Vec<DrawOp>, editor: &Editor, y: u16)
    ensures
        ops_view(final(ops)@) == ops_view(old(ops)@) + Seq::new(5, |i: int| category_op(editor@, i as nat, y as nat)),
{
    let ghost start = ops_view(ops@);
    let mut x: u16 = 2;
    let mut i: usize = 0;
    while i < 5
        invariant
            i <= 5,
            x as nat == category_x(i as nat),
            ops_view(ops@) == start + Seq::new(i as nat, |k: int| category_op(editor@, k as nat, y as nat)),
        decreases 5 - i,
    {
        proof {
            lemma_category_x_bound(i as nat);
            lemma_category_x_bound(i as nat + 1);
        }
        let category = category_of_index(i);
        let title = category_title_text(category);
        let active = category == editor.module_category;
        let focus = active && editor.focus == FocusLevel::Secondary;
        let mut text = if active { owned("◆") } else { owned("·") };
        crate::text::push_str(&mut text, " ");
        crate::text::push_str(&mut text, title);
        crate::text::push_str(&mut text, " ");
        let fg = if focus { Color::Black } else if active { Color::Cyan } else { Color::DarkGrey };
        let bg = if focus { Color::Cyan } else { Color::Reset };
        push_op(ops, text_op(x, y, fg, bg, active, text));
        x = x + title.unicode_len() as u16 + 4;
        i = i + 1;
        assert(ops_view(ops@) =~= start + Seq::new(i as nat, |k: int| category_op(editor@, k as nat, y as nat)));
    }
}

fn marked_text(label: &str, selected: bool) -> (r: String)
    ensures
        r@ == marked(label@, selected),
{
    let n = label.unicode_len();
    if n >= 3 && label.get_char(0) == '(' && label.get_char(1) == ' ' && label.get_char(2) == ')' {
        proof {
            reveal_strlit("( )");
        }
        assert(label@.take(3) =~= "( )"@);
        let mut out = owned("(");
        crate::text::push_str(&mut out, if selected { "●" } else { " " });
        crate::text::push_str(&mut out, ")");
        let mut i: usize = 3;
        while i < n
            invariant
                n == label@.len(),
                3 <= i <= n,
                out@ == "("@ + (if selected { "●"@ } else { " "@ }) + ")"@ + label@.subrange(3, i as int),
            decreases n - i,
        {
            crate::text::push_char(&mut out, label.get_char(i));
            i = i + 1;
            assert(out@ =~= "("@ + (if selected { "●"@ } else { " "@ }) + ")"@ + label@.subrange(3, i as int));
        }
        assert(label@.subrange(3, n as int) =~= label@.skip(3));
        out
    } else {
        proof {
            reveal_strlit("( )");
        }
        if n >= 3 {
            assert(label@.take(3) != "( )"@) by {
                if label@.take(3) == "( )"@ {
                    assert(label@.take(3)[0] == '(');
                    assert(label@.take(3)[1] == ' ');
                    assert(label@.take(3)[2] == ')');
                }
            }
        }
        owned(label)
    }
}

fn push_options(ops: &mut Vec<DrawOp>, editor: &Editor, y: u16, width: u16, height: u16)
    requires
        y as nat + option_count(editor@) <= u16::MAX,
        option_lines_spec(editor@).len() == option_count(editor@),
    ensures
        ops_view(final(ops)@) == ops_view(old(ops)@) + option_ops(editor@, y as nat, width as nat, height as nat),
{
    let ghost start_ops = ops_view(ops@);
    let options = option_lines(editor);
    let ghost lines = option_lines_spec(editor@);
    let visible: usize = if height > 1 { height as usize } else { 1 };
    let a: usize = if editor.cursor >= visible - 1 { editor.cursor - (visible - 1) } else { 0 };
    let b: usize = if options.len() >= visible { options.len() - visible } else { 0 };
    let start: usize = if a < b { a } else { b };
    let shown: usize = if options.len() - start < visible { options.len() - start } else { visible };
    let ghost want = option_ops(editor@, y as nat, width as nat, height as nat);
    assert(want.len() == shown);
    let mut k: usize = 0;
    while k < shown
        invariant
            lines_view(options@) == lines,
            lines == option_lines_spec(editor@),
            lines.len() == option_count(editor@),
            y as nat + option_count(editor@) <= u16::MAX,
            start + shown <= lines.len(),
            want == option_ops(editor@, y as nat, width as nat, height as nat),
            want.len() == shown,
            start == window_start(editor.cursor as nat, visible as nat, lines.len()),
            visible == (if height > 1 { height as nat } else { 1nat }),
            k <= shown,
            ops_view(ops@) == start_ops + want.take(k as int),
        decreases shown - k,
    {
        let index = start + k;
        let (label, selected) = (&options[index].0, options[index].1);
        let focus = editor.focus == FocusLevel::Options && index == editor.cursor;
        let shown_label = marked_text(label.as_str(), selected);
        let w: usize = if width >= 2 { (width - 2) as usize } else { 0 };
        let mut text = if focus { owned("› ") } else { owned("  ") };
        let cut = truncate(shown_label.as_str(), w);
        crate::text::push_str(&mut text, cut.as_str());
        let fg = if focus { Color::Cyan } else if selected { Color::Green } else { Color::Grey };
        assert(lines[index as int] == (label@, selected));
        assert(text@ == (if focus { "› "@ } else { "  "@ }) + truncated(marked(lines[index as int].0, lines[index as int].1), sat_sub(width as nat, 2)));
        let row: u16 = y + k as u16;
        assert(row as nat == y as nat + k as nat);
        let o = text_op(2, row, fg, Color::Reset, focus, text);
        assert(op_view(o) == option_op(editor@, lines, start as nat, k as nat, y as nat, width as nat));
        push_op(ops, o);
        k = k + 1;
        assert(ops_view(ops@) =~= start_ops + want.take(k as int));
    }
    assert(want.take(k as int) =~= want);
}

proof fn lemma_option_lines_count(e: EditorView)
    ensures
        option_lines_spec(e).len() == option_count(e),
        option_count(e) <= 18,
{
}

fn summary(config: &Config) -> (r: String)
    ensures
        r@ == summary_text(config@),
{
    let mut out = owned(" Live preview · ");
    crate::text::push_str(&mut out, preset_name(config));
    crate::text::push_str(&mut out, " · ");
    crate::text::push_decimal(&mut out, config.display.rows as u64);
    crate::text::push_str(&mut out, " rows · ");
    crate::text::push_decimal(&mut out, config.display.segments.len() as u64);
    crate::text::push_str(&mut out, " modules · ");
    crate::text::push_str(&mut out, source_name(&config.sources));
    crate::text::push_str(&mut out, " ");
    out
}

fn push_header(ops: &mut Vec<DrawOp>, editor: &Editor)
    ensures
        ops_view(final(ops)@) == ops_view(old(ops)@) + header_ops(editor@),
{
    push_op(ops, text_op(2, 1, Color::Cyan, Color::Reset, true, owned("Codexline Config")));
    let state = if editor.dirty() { owned("  ● unsaved") } else { owned("  ✓ saved") };
    push_op(ops, text_op(18, 1, Color::DarkGrey, Color::Reset, false, state));
    assert(ops_view(ops@) =~= ops_view(old(ops)@) + header_ops(editor@));
}

fn push_body(ops: &mut Vec<DrawOp>, editor: &Editor, width: u16, divider_y: u16)
    ensures
        ops_view(final(ops)@) == ops_view(old(ops)@) + body_ops(editor@, width as nat, divider_y as nat),
{
    proof {
        lemma_option_lines_count(editor@);
    }
    if editor.page == Page::Modules {
        push_categories(ops, editor, 5);
        let ghost mid = ops_view(ops@);
        push_options(ops, editor, 7, width, if divider_y >= 7 { divider_y - 7 } else { 0 });
        assert(ops_view(ops@) =~= ops_view(old(ops)@) + body_ops(editor@, width as nat, divider_y as nat));
    } else {
        push_options(ops, editor, 6, width, if divider_y >= 6 { divider_y - 6 } else { 0 });
    }
}

fn push_divider(ops: &mut Vec<DrawOp>, editor: &Editor, width: u16, divider_y: u16)
    ensures
        ops_view(final(ops)@) == ops_view(old(ops)@) + divider_ops(editor@, width as nat, divider_y as nat),
{
    let mut rule = String::new();
    crate::text::push_repeat(&mut rule, '─', width as usize);
    assert(rule@ =~= crate::text::repeat('─', width as nat));
    push_op(ops, text_op(2, divider_y, Color::DarkGrey, Color::Reset, false, rule));
    let about = summary(&editor.config);
    push_op(ops, text_op(2, divider_y, Color::Magenta, Color::Reset, true, truncate(about.as_str(), width as usize)));
    assert(ops_view(ops@) =~= ops_view(old(ops)@) + divider_ops(editor@, width as nat, divider_y as nat));
}

fn push_preview(ops: &mut Vec<DrawOp>, preview: &Vec<String>, preview_y: u16)
    requires
        preview_y as nat + preview@.len() <= u16::MAX,
    ensures
        ops_view(final(ops)@) == ops_view(old(ops)@) + preview_ops(crate::text::strings_view(preview@), preview_y as nat),
{
    let ghost lines = crate::text::strings_view(preview@);
    let ghost start = ops_view(ops@);
    let mut k: usize = 0;
    while k < preview.len()
        invariant
            lines == crate::text::strings_view(preview@),
            preview_y as nat + preview@.len() <= u16::MAX,
            k <= preview@.len(),
            ops_view(ops@) == start + preview_ops(lines, preview_y as nat).take(k as int),
        decreases preview@.len() - k,
    {
        let line = owned(preview[k].as_str());
        push_op(ops, text_op(2, preview_y + k as u16, Color::Reset, Color::Reset, false, line));
        k = k + 1;
        assert(ops_view(ops@) =~= start + preview_ops(lines, preview_y as nat).take(k as int));
    }
    assert(preview_ops(lines, preview_y as nat).take(k as int) =~= preview_ops(lines, preview_y as nat));
}

fn push_footer(ops: &mut Vec<DrawOp>, editor: &Editor, width: u16, rows: u16)
    requires
        rows >= 3,
    ensures
        ops_view(final(ops)@) == ops_view(old(ops)@) + footer_ops(editor@, width as nat, rows as nat),
{
    push_op(ops, text_op(2, rows - 3, Color::DarkGrey, Color::Reset, false, truncate(editor.message.as_str(), width as usize)));
    let help = if editor.page == Page::Modules {
        owned("↑↓ level/move   ←→ current tab   Space toggle   Enter save   Esc cancel")
    } else {
        owned("↑↓ level/move   ←→ current tab   Space select   Enter save   Esc cancel")
    };
    push_op(ops, text_op(2, rows - 2, Color::Grey, Color::Reset, false, help));
    assert(ops_view(ops@) =~= ops_view(old(ops)@) + footer_ops(editor@, width as nat, rows as nat));
}

/// The editor screen for a terminal of `columns` x `rows` cells with the given
/// colour preview rows.
pub fn screen(editor: &Editor, columns: u16, rows: u16, preview: &Vec<String>) -> (r: Vec<DrawOp>)
    requires
        preview@.len() <= u16::MAX,
    ensures
        ops_view(r@) == screen_spec(editor@, columns as nat, rows as nat, crate::text::strings_view(preview@)),
{
    let mut ops: Vec<DrawOp> = Vec::new();
    if columns < 72 || rows < 24 {
        let mut text = owned("Codexline config needs 72×24; current terminal is ");
        crate::text::push_decimal(&mut text, columns as u64);
        crate::text::push_str(&mut text, "×");
        crate::text::push_decimal(&mut text, rows as u64);
        crate::text::push_str(&mut text, ".");
        push_op(&mut ops, text_op(2, 2, Color::Yellow, Color::Reset, false, text));
        push_op(&mut ops, text_op(2, 4, Color::Reset, Color::Reset, false, owned("Resize the terminal, or press Esc/Q to cancel.")));
        assert(ops_view(ops@) =~= small_screen(columns as nat, rows as nat));
        return ops;
    }
    let width: u16 = columns - 4;
    let footer_y: u16 = rows - 3;
    let count = preview.len() as u16;
    let preview_y: u16 = if footer_y >= count { footer_y - count } else { 0 };
    let divider_y: u16 = if preview_y >= 2 { preview_y - 2 } else { 0 };
    let ghost e = editor@;
    push_header(&mut ops, editor);
    push_tabs(&mut ops, editor);
    push_body(&mut ops, editor, width, divider_y);
    push_divider(&mut ops, editor, width, divider_y);
    push_preview(&mut ops, preview, preview_y);
    push_footer(&mut ops, editor, width, rows);
    assert(ops_view(ops@) =~= header_ops(e) + tab_ops(e) + body_ops(e, width as nat, divider_y as nat)
        + divider_ops(e, width as nat, divider_y as nat) + preview_ops(crate::text::strings_view(preview@), preview_y as nat)
        + footer_ops(e, width as nat, rows as nat));
    ops
}

/// Keys only edit the staged copy: the configuration as loaded is never changed.
pub proof fn lemma_keys_never_touch_loaded_config(e: EditorView, k: KeyPress)
    ensures
        after_key(e, k).0.original == e.original,
{
}

proof fn lemma_seg_index(s: Seq<Segment>, x: Segment)
    ensures
        seg_index(s, x) < s.len(),
    decreases s.len(),
{
    if s.len() > 0 && s[0] != x {
        lemma_seg_index(s.drop_first(), x);
    }
}

/// A module always remains enabled: no key empties a non-empty module list.
pub proof fn lemma_a_module_always_remains(e: EditorView, k: KeyPress)
    requires
        e.config.segments.len() > 0,
        cursor_ok(e),
    ensures
        after_key(e, k).0.config.segments.len() > 0,
{
    if e.page == Page::Modules {
        let seg = module_choice_list(e.category)[e.cursor as int].0;
        lemma_seg_index(e.config.segments, seg);
    }
}

/// Saving answers `Save` exactly for a staged configuration that breaks no rule.
pub proof fn lemma_enter_saves_only_valid_configs(e: EditorView)
    ensures
        after_key(e, KeyPress { key: Key::Enter, control: false }).1 == Ok::<Outcome, EditorError>(Outcome::Save)
            <==> view_error(e.config) is None,
        after_key(e, KeyPress { key: Key::Enter, control: false }).0 == e,
{
}

/// Exactly one of the lines `lo..hi` is marked as the current choice.
pub open spec fn one_selected(lines: Seq<(Seq<char>, bool)>, lo: int, hi: int) -> bool {
    exists|i: int| lo <= i < hi && #[trigger] lines[i].1
        && forall|j: int| lo <= j < hi && j != i ==> !(#[trigger] lines[j].1)
}

/// Each page shows one line per option; a radio group marks exactly one line
/// (the launch mode, the preset, the data sources; on the appearance page the
/// theme, the glyphs and the row count each); the review page marks none; a
/// module line is marked exactly when the module is enabled.
pub proof fn lemma_one_choice_per_group(e: EditorView)
    requires
        1 <= e.config.rows <= 3,
    ensures
        option_lines_spec(e).len() == option_count(e),
        (e.page == Page::Launch || e.page == Page::Preset || e.page == Page::Sources)
            ==> one_selected(option_lines_spec(e), 0, option_count(e) as int),
        e.page == Page::Appearance ==> one_selected(option_lines_spec(e), 0, 13)
            && one_selected(option_lines_spec(e), 13, 15) && one_selected(option_lines_spec(e), 15, 18),
        e.page == Page::Review ==> forall|i: int| 0 <= i < 2 ==> !(#[trigger] option_lines_spec(e)[i].1),
        e.page == Page::Modules ==> forall|i: int| 0 <= i < option_count(e)
            ==> (#[trigger] option_lines_spec(e)[i]).1 == e.config.segments.contains(module_choice_list(e.category)[i].0),
{
    let l = option_lines_spec(e);
    let c = e.config;
    match e.page {
        Page::Launch => {
            let k: int = if c.mode == LaunchMode::Shim { 0 } else { 1 };
            assert(l[k].1);
        },
        Page::Preset => {
            let k = preset_of(c) as int;
            assert(l[k].1);
        },
        Page::Sources => {
            let k = source_preset_of(c.sources) as int;
            assert(l[k].1);
        },
        Page::Appearance => {
            let themes = theme_list().map_values(|t: (Theme, Seq<char>)| (radio(t.1), c.theme == t.0));
            assert(themes.len() == 13);
            let k = theme_position(c.theme) as int;
            assert(l[k] == themes[k]);
            assert(l[k].1);
            assert forall|j: int| 0 <= j < 13 && j != k implies !(#[trigger] l[j].1) by {
                assert(l[j] == themes[j]);
                assert(theme_list()[j].0 != c.theme);
            }
            let g: int = if c.glyphs == Glyphs::Unicode { 13 } else { 14 };
            assert(l[g].1);
            let r: int = 14 + c.rows as int;
            assert(l[r].1);
        },
        Page::Review => {},
        Page::Modules => {},
    }
}

proof fn lemma_seg_index_found(s: Seq<Segment>, x: Segment)
    ensures
        seg_index(s, x) >= 0 ==> seg_index(s, x) < s.len() && s[seg_index(s, x)] == x,
        seg_index(s, x) < 0 ==> !s.contains(x),
    decreases s.len(),
{
    if s.len() > 0 && s[0] != x {
        lemma_seg_index_found(s.drop_first(), x);
        if seg_index(s, x) < 0 {
            assert forall|k: int| 0 <= k < s.len() implies s[k] != x by {
                if k > 0 { assert(s[k] == s.drop_first()[k - 1]); }
            }
        }
    }
}

/// The space key pressed on an option.
pub open spec fn space() -> KeyPress {
    KeyPress { key: Key::Char(' '), control: false }
}

/// Space on an option selects exactly what its line names: on the launch,
/// data-source and appearance pages (and for the first three presets) the
/// activated line becomes the marked one, the page and cursor stay; on the
/// appearance page the line labelled `Glyphs · ASCII` sets ASCII glyphs,
/// `Glyphs · Unicode` sets Unicode glyphs, and `Layout · N row(s)` sets N
/// rows. On the modules page the line's check box flips, unless it is the
/// last enabled module, which is refused.
pub proof fn lemma_space_selects_the_line(e: EditorView)
    requires
        e.focus == FocusLevel::Options,
        e.cursor < option_count(e),
    ensures
        (e.page == Page::Launch || e.page == Page::Sources || e.page == Page::Appearance
            || (e.page == Page::Preset && e.cursor < 3)) ==> {
            &&& after_key(e, space()).1 == Ok::<Outcome, EditorError>(Outcome::Continue)
            &&& option_lines_spec(after_key(e, space()).0)[e.cursor as int].1
            &&& after_key(e, space()).0.page == e.page
            &&& after_key(e, space()).0.cursor == e.cursor
        },
        e.page == Page::Appearance && option_lines_spec(e)[e.cursor as int].0 == radio("Glyphs · ASCII"@)
            ==> after_key(e, space()).0.config.glyphs == Glyphs::Ascii,
        e.page == Page::Appearance && option_lines_spec(e)[e.cursor as int].0 == radio("Glyphs · Unicode"@)
            ==> after_key(e, space()).0.config.glyphs == Glyphs::Unicode,
        e.page == Page::Appearance && option_lines_spec(e)[e.cursor as int].0 == radio("Layout · 1 row"@)
            ==> after_key(e, space()).0.config.rows == 1,
        e.page == Page::Appearance && option_lines_spec(e)[e.cursor as int].0 == radio("Layout · 2 rows"@)
            ==> after_key(e, space()).0.config.rows == 2,
        e.page == Page::Appearance && option_lines_spec(e)[e.cursor as int].0 == radio("Layout · 3 rows"@)
            ==> after_key(e, space()).0.config.rows == 3,
        e.page == Page::Modules && e.config.segments.no_duplicates() ==> (match after_key(e, space()).1 {
            Ok(_) => option_lines_spec(after_key(e, space()).0)[e.cursor as int].1 == !option_lines_spec(e)[e.cursor as int].1,
            Err(_) => e.config.segments.len() == 1 && option_lines_spec(e)[e.cursor as int].1,
        }),
{
    let k = space();
    assert('1' > ' ');
    assert(after_key(e, k) == activated(e));
    let e2 = after_key(e, k).0;
    let c = e.cursor as int;
    if e.page == Page::Appearance {
        reveal_strlit("( ) ");
        reveal_strlit("Glyphs · ASCII");
        reveal_strlit("Glyphs · Unicode");
        reveal_strlit("Layout · 1 row");
        reveal_strlit("Layout · 2 rows");
        reveal_strlit("Layout · 3 rows");
        reveal_strlit("Theme · Inherit terminal");
        reveal_strlit("Theme · 0x96f Neon · transparent");
        reveal_strlit("Theme · Tokyo Night · transparent");
        reveal_strlit("Theme · Catppuccin Mocha · transparent");
        reveal_strlit("Theme · Dracula · transparent");
        reveal_strlit("Theme · Nord · transparent");
        reveal_strlit("Theme · Gruvbox · transparent");
        reveal_strlit("Theme · Rosé Pine · transparent");
        reveal_strlit("Theme · Codex Dark · fixed background");
        reveal_strlit("Theme · Codex Light · fixed background");
        reveal_strlit("Theme · Minimal");
        reveal_strlit("Theme · Mono");
        reveal_strlit("Theme · Pastel Syntax · transparent");
        let l = option_lines_spec(e);
        let themes = theme_list().map_values(|t: (Theme, Seq<char>)| (radio(t.1), e.config.theme == t.0));
        let l2 = option_lines_spec(e2);
        let themes2 = theme_list().map_values(|t: (Theme, Seq<char>)| (radio(t.1), e2.config.theme == t.0));
        if c < 13 {
            assert(l[c] == themes[c]);
            assert(l[c].0[4] == 'T');
            assert(l2[c] == themes2[c]);
        } else {
            assert(l[c].0[4] != 'T');
            let tail = seq![
                (radio("Glyphs · Unicode"@), e.config.glyphs == Glyphs::Unicode),
                (radio("Glyphs · ASCII"@), e.config.glyphs == Glyphs::Ascii),
                (radio("Layout · 1 row"@), e.config.rows == 1),
                (radio("Layout · 2 rows"@), e.config.rows == 2),
                (radio("Layout · 3 rows"@), e.config.rows == 3),
            ];
            assert(l == themes + tail);
            assert(l[c] == tail[c - 13]);
            assert(radio("Glyphs · Unicode"@)[4] == 'G' && radio("Glyphs · Unicode"@)[13] == 'U');
            assert(radio("Glyphs · ASCII"@)[4] == 'G' && radio("Glyphs · ASCII"@)[13] == 'A');
            assert(radio("Layout · 1 row"@)[4] == 'L' && radio("Layout · 1 row"@)[13] == '1');
            assert(radio("Layout · 2 rows"@)[4] == 'L' && radio("Layout · 2 rows"@)[13] == '2');
            assert(radio("Layout · 3 rows"@)[4] == 'L' && radio("Layout · 3 rows"@)[13] == '3');
        }
    }
    if e.page == Page::Modules && e.config.segments.no_duplicates() {
        let seg = module_choice_list(e.category)[c].0;
        let segs = e.config.segments;
        lemma_seg_index_found(segs, seg);
        let i = seg_index(segs, seg);
        if i >= 0 && segs.len() > 1 {
            assert(!segs.remove(i).contains(seg)) by {
                if segs.remove(i).contains(seg) {
                    let j = choose|j: int| 0 <= j < segs.remove(i).len() && segs.remove(i)[j] == seg;
                    if j < i { assert(segs[j] == seg); } else { assert(segs[j + 1] == seg); }
                }
            }
        }
        if i < 0 {
            assert(segs.push(seg)[segs.len() as int] == seg);
        }
        if i >= 0 && segs.len() <= 1 {
            assert(segs.contains(seg));
        }
    }
}

} // verus!
