//! The live status model that data sources fill and the renderer reads.

use crate::segments::opt_view;
use crate::text::owned;
use vstd::prelude::*;

verus! {

/// State of the experimental loopback protocol proxy.
#[derive(Debug, Clone, Copy, PartialEq, Eq, Structural)]
pub enum LiveProxyStatus {
    Disabled,
    Starting,
    WaitingForCodex,
    Connected,
    Closed,
}

/// One subagent. `started` is the Unix time in seconds at which it was first seen.
#[derive(Debug)]
pub struct AgentActivity {
    pub id: String,
    pub kind: String,
    pub started: u64,
    pub prompt: Option<String>,
    pub message: Option<String>,
    pub active: bool,
}

impl AgentActivity {
    /// A field-by-field copy.
    pub fn duplicate(&self) -> (r: Self)
        ensures
            r == *self,
    {
        AgentActivity {
            id: self.id.clone(),
            kind: self.kind.clone(),
            started: self.started,
            prompt: match &self.prompt {
                Some(p) => Some(p.clone()),
                None => None,
            },
            message: match &self.message {
                Some(m) => Some(m.clone()),
                None => None,
            },
            active: self.active,
        }
    }
}

/// How often a tool ran.
#[derive(Debug)]
pub struct ToolCount {
    pub name: String,
    pub count: u16,
}

impl ToolCount {
    pub fn duplicate(&self) -> (r: Self)
        ensures
            r == *self,
    {
        ToolCount { name: self.name.clone(), count: self.count }
    }
}

/// One account rate-limit window.
#[derive(Debug, Clone, Copy, PartialEq, Eq, Structural)]
pub struct RateLimitWindow {
    pub used_percent: u8,
    pub window_minutes: Option<u64>,
    pub resets_at: Option<u64>,
}

/// Everything the HUD knows. Unknown data is `None` and is hidden rather than
/// rendered as a misleading zero.
#[derive(Debug)]
pub struct StatusSnapshot {
    pub model: Option<String>,
    pub reasoning: Option<String>,
    pub model_live: bool,
    pub work: Option<String>,
    pub context_percent: Option<u8>,
    pub context_used: Option<u64>,
    pub context_window: Option<u64>,
    pub context_live: bool,
    pub input_tokens: Option<u64>,
    pub cached_input_tokens: Option<u64>,
    pub output_tokens: Option<u64>,
    pub rate_limits: Vec<RateLimitWindow>,
    pub reset_credits: Option<u16>,
    pub cwd: Option<String>,
    pub project_root: Option<String>,
    pub git_branch: Option<String>,
    pub git_dirty: Option<bool>,
    pub git_staged: Option<u16>,
    pub git_modified: Option<u16>,
    pub git_ahead: Option<u16>,
    pub git_behind: Option<u16>,
    pub worktree: Option<String>,
    pub linked_worktree: Option<bool>,
    pub agents_active: Option<u16>,
    pub agents_total: Option<u16>,
    pub agents: Vec<AgentActivity>,
    pub tools: Vec<ToolCount>,
    pub plan_completed: Option<u16>,
    pub plan_total: Option<u16>,
    pub compactions: Option<u16>,
    pub sandbox: Option<String>,
    pub approval_policy: Option<String>,
    pub approvals_reviewer: Option<String>,
    pub permission_mode: Option<String>,
    pub settings_live: bool,
    pub session_id: Option<String>,
    pub events_active: bool,
    pub app_server_active: bool,
    pub live_session_active: bool,
    pub live_proxy_status: LiveProxyStatus,
    pub live_proxy_error: Option<String>,
}

/// An agent as the reducers see it: text fields by their characters.
#[verifier::ext_equal]
pub struct AgentView {
    pub id: Seq<char>,
    pub kind: Seq<char>,
    pub started: u64,
    pub prompt: Option<Seq<char>>,
    pub message: Option<Seq<char>>,
    pub active: bool,
}

impl View for AgentActivity {
    type V = AgentView;

    open spec fn view(&self) -> AgentView {
        AgentView {
            id: self.id@,
            kind: self.kind@,
            started: self.started,
            prompt: opt_view(self.prompt),
            message: opt_view(self.message),
            active: self.active,
        }
    }
}

/// The agents by their views.
pub open spec fn agents_view(agents: Seq<AgentActivity>) -> Seq<AgentView> {
    agents.map_values(|a: AgentActivity| a@)
}

/// The tool counts as (name, count).
pub open spec fn tools_view(tools: Seq<ToolCount>) -> Seq<(Seq<char>, u16)> {
    tools.map_values(|t: ToolCount| (t.name@, t.count))
}

/// The whole snapshot, text by its characters.
#[verifier::ext_equal]
pub struct SnapshotView {
    pub model: Option<Seq<char>>,
    pub reasoning: Option<Seq<char>>,
    pub model_live: bool,
    pub work: Option<Seq<char>>,
    pub context_percent: Option<u8>,
    pub context_used: Option<u64>,
    pub context_window: Option<u64>,
    pub context_live: bool,
    pub input_tokens: Option<u64>,
    pub cached_input_tokens: Option<u64>,
    pub output_tokens: Option<u64>,
    pub rate_limits: Seq<RateLimitWindow>,
    pub reset_credits: Option<u16>,
    pub cwd: Option<Seq<char>>,
    pub project_root: Option<Seq<char>>,
    pub git_branch: Option<Seq<char>>,
    pub git_dirty: Option<bool>,
    pub git_staged: Option<u16>,
    pub git_modified: Option<u16>,
    pub git_ahead: Option<u16>,
    pub git_behind: Option<u16>,
    pub worktree: Option<Seq<char>>,
    pub linked_worktree: Option<bool>,
    pub agents_active: Option<u16>,
    pub agents_total: Option<u16>,
    pub agents: Seq<AgentView>,
    pub tools: Seq<(Seq<char>, u16)>,
    pub plan_completed: Option<u16>,
    pub plan_total: Option<u16>,
    pub compactions: Option<u16>,
    pub sandbox: Option<Seq<char>>,
    pub approval_policy: Option<Seq<char>>,
    pub approvals_reviewer: Option<Seq<char>>,
    pub permission_mode: Option<Seq<char>>,
    pub settings_live: bool,
    pub session_id: Option<Seq<char>>,
    pub events_active: bool,
    pub app_server_active: bool,
    pub live_session_active: bool,
    pub live_proxy_status: LiveProxyStatus,
    pub live_proxy_error: Option<Seq<char>>,
}

impl View for StatusSnapshot {
    type V = SnapshotView;

    open spec fn view(&self) -> SnapshotView {
        SnapshotView {
            model: opt_view(self.model),
            reasoning: opt_view(self.reasoning),
            model_live: self.model_live,
            work: opt_view(self.work),
            context_percent: self.context_percent,
            context_used: self.context_used,
            context_window: self.context_window,
            context_live: self.context_live,
            input_tokens: self.input_tokens,
            cached_input_tokens: self.cached_input_tokens,
            output_tokens: self.output_tokens,
            rate_limits: self.rate_limits@,
            reset_credits: self.reset_credits,
            cwd: opt_view(self.cwd),
            project_root: opt_view(self.project_root),
            git_branch: opt_view(self.git_branch),
            git_dirty: self.git_dirty,
            git_staged: self.git_staged,
            git_modified: self.git_modified,
            git_ahead: self.git_ahead,
            git_behind: self.git_behind,
            worktree: opt_view(self.worktree),
            linked_worktree: self.linked_worktree,
            agents_active: self.agents_active,
            agents_total: self.agents_total,
            agents: agents_view(self.agents@),
            tools: tools_view(self.tools@),
            plan_completed: self.plan_completed,
            plan_total: self.plan_total,
            compactions: self.compactions,
            sandbox: opt_view(self.sandbox),
            approval_policy: opt_view(self.approval_policy),
            approvals_reviewer: opt_view(self.approvals_reviewer),
            permission_mode: opt_view(self.permission_mode),
            settings_live: self.settings_live,
            session_id: opt_view(self.session_id),
            events_active: self.events_active,
            app_server_active: self.app_server_active,
            live_session_active: self.live_session_active,
            live_proxy_status: self.live_proxy_status,
            live_proxy_error: opt_view(self.live_proxy_error),
        }
    }
}

/// Nothing is known yet.
pub open spec fn is_blank(s: StatusSnapshot) -> bool {
    &&& s.model is None && s.reasoning is None && !s.model_live && s.work is None
    &&& s.context_percent is None && s.context_used is None && s.context_window is None
    &&& !s.context_live
    &&& s.input_tokens is None && s.cached_input_tokens is None && s.output_tokens is None
    &&& s.rate_limits@.len() == 0 && s.reset_credits is None
    &&& s.cwd is None && s.project_root is None && s.git_branch is None && s.git_dirty is None
    &&& s.git_staged is None && s.git_modified is None && s.git_ahead is None
    &&& s.git_behind is None && s.worktree is None && s.linked_worktree is None
    &&& s.agents_active is None && s.agents_total is None && s.agents@.len() == 0
    &&& s.tools@.len() == 0 && s.plan_completed is None && s.plan_total is None
    &&& s.compactions is None && s.sandbox is None && s.approval_policy is None
    &&& s.approvals_reviewer is None && s.permission_mode is None && !s.settings_live
    &&& s.session_id is None && !s.events_active && !s.app_server_active
    &&& !s.live_session_active && s.live_proxy_status == LiveProxyStatus::Disabled
    &&& s.live_proxy_error is None
}

/// The view of a snapshot in which nothing is known yet.
pub open spec fn blank_view() -> SnapshotView {
    SnapshotView {
        model: None,
        reasoning: None,
        model_live: false,
        work: None,
        context_percent: None,
        context_used: None,
        context_window: None,
        context_live: false,
        input_tokens: None,
        cached_input_tokens: None,
        output_tokens: None,
        rate_limits: Seq::empty(),
        reset_credits: None,
        cwd: None,
        project_root: None,
        git_branch: None,
        git_dirty: None,
        git_staged: None,
        git_modified: None,
        git_ahead: None,
        git_behind: None,
        worktree: None,
        linked_worktree: None,
        agents_active: None,
        agents_total: None,
        agents: Seq::empty(),
        tools: Seq::empty(),
        plan_completed: None,
        plan_total: None,
        compactions: None,
        sandbox: None,
        approval_policy: None,
        approvals_reviewer: None,
        permission_mode: None,
        settings_live: false,
        session_id: None,
        events_active: false,
        app_server_active: false,
        live_session_active: false,
        live_proxy_status: LiveProxyStatus::Disabled,
        live_proxy_error: None,
    }
}

/// The simulated state that `StatusSnapshot::showcase` holds.
pub open spec fn is_showcase(r: StatusSnapshot) -> bool {
    &&& r.model matches Some(m) && m@ == "gpt-5.6-sol"@
    &&& r.reasoning matches Some(x) && x@ == "high"@
    &&& r.model_live
    &&& r.work matches Some(w) && w@ == "exec 8s"@
    &&& r.context_percent == Some(42u8)
    &&& r.context_used == Some(84_000u64)
    &&& r.context_window == Some(200_000u64)
    &&& r.context_live
    &&& r.input_tokens == Some(72_400u64)
    &&& r.cached_input_tokens == Some(51_200u64)
    &&& r.output_tokens == Some(8_600u64)
    &&& r.rate_limits@ == seq![
        RateLimitWindow { used_percent: 34, window_minutes: Some(300), resets_at: None },
        RateLimitWindow { used_percent: 65, window_minutes: Some(10_080), resets_at: None },
    ]
    &&& r.reset_credits == Some(1u16)
    &&& r.cwd matches Some(c) && c@ == "~/pro/codex-cli-statusline"@
    &&& r.project_root matches Some(c) && c@ == "~/pro/codex-cli-statusline"@
    &&& r.git_branch matches Some(b) && b@ == "feat/statusline"@
    &&& r.git_dirty == Some(true)
    &&& r.git_staged == Some(1u16)
    &&& r.git_modified == Some(3u16)
    &&& r.git_ahead == Some(2u16)
    &&& r.git_behind == Some(0u16)
    &&& r.worktree matches Some(w) && w@ == "codexline-agent-2"@
    &&& r.linked_worktree == Some(true)
    &&& r.agents_active == Some(2u16)
    &&& r.agents_total == Some(3u16)
    &&& r.agents@.len() == 2
    &&& r.agents@[0].id@ == "agent-explore"@ && r.agents@[0].kind@ == "explore"@
    &&& r.agents@[0].started == 0 && r.agents@[0].active
    &&& r.agents@[0].prompt matches Some(p) && p@ == "Trace app-server agent events"@
    &&& r.agents@[0].message matches Some(m) && m@ == "Inspecting protocol types"@
    &&& r.agents@[1].id@ == "agent-worker"@ && r.agents@[1].kind@ == "worker"@
    &&& r.agents@[1].started == 0 && r.agents@[1].active
    &&& r.agents@[1].prompt matches Some(p) && p@ == "Build the interactive inspector"@
    &&& r.agents@[1].message matches Some(m) && m@ == "Editing the renderer"@
    &&& r.tools@.len() == 2
    &&& r.tools@[0].name@ == "exec"@ && r.tools@[0].count == 3
    &&& r.tools@[1].name@ == "patch"@ && r.tools@[1].count == 2
    &&& r.plan_completed == Some(2u16)
    &&& r.plan_total == Some(4u16)
    &&& r.compactions == Some(1u16)
    &&& r.sandbox matches Some(s) && s@ == "workspace-write"@
    &&& r.approval_policy matches Some(s) && s@ == "on-request"@
    &&& r.approvals_reviewer matches Some(s) && s@ == "auto_review"@
    &&& r.permission_mode is None
    &&& r.settings_live
    &&& r.session_id matches Some(s) && s@ == "thr_showcase"@
    &&& r.events_active
    &&& r.app_server_active
    &&& r.live_session_active
    &&& r.live_proxy_status == LiveProxyStatus::Connected
    &&& r.live_proxy_error is None
}

impl Default for StatusSnapshot {
    fn default() -> (r: Self)
        ensures
            is_blank(r),
            r@ == blank_view(),
    {
        StatusSnapshot::blank()
    }
}

fn copy_text(o: &Option<String>) -> (r: Option<String>)
    ensures
        r == *o,
{
    match o {
        Some(t) => Some(t.clone()),
        None => None,
    }
}

impl StatusSnapshot {
    /// A field-by-field copy (the renderer draws from its own copy).
    pub fn duplicate(&self) -> (r: Self)
        ensures
            r@ == self@,
    {
        let mut rate_limits: Vec<RateLimitWindow> = Vec::new();
        let mut i: usize = 0;
        while i < self.rate_limits.len()
            invariant
                i <= self.rate_limits@.len(),
                rate_limits@ == self.rate_limits@.take(i as int),
            decreases self.rate_limits@.len() - i,
        {
            rate_limits.push(self.rate_limits[i]);
            i = i + 1;
            assert(rate_limits@ =~= self.rate_limits@.take(i as int));
        }
        assert(self.rate_limits@.take(i as int) =~= self.rate_limits@);
        let mut agents: Vec<AgentActivity> = Vec::new();
        let mut j: usize = 0;
        while j < self.agents.len()
            invariant
                j <= self.agents@.len(),
                agents@ == self.agents@.take(j as int),
            decreases self.agents@.len() - j,
        {
            agents.push(self.agents[j].duplicate());
            j = j + 1;
            assert(agents@ =~= self.agents@.take(j as int));
        }
        assert(self.agents@.take(j as int) =~= self.agents@);
        let mut tools: Vec<ToolCount> = Vec::new();
        let mut k: usize = 0;
        while k < self.tools.len()
            invariant
                k <= self.tools@.len(),
                tools@ == self.tools@.take(k as int),
            decreases self.tools@.len() - k,
        {
            tools.push(self.tools[k].duplicate());
            k = k + 1;
            assert(tools@ =~= self.tools@.take(k as int));
        }
        assert(self.tools@.take(k as int) =~= self.tools@);
        let r = StatusSnapshot {
            model: copy_text(&self.model),
            reasoning: copy_text(&self.reasoning),
            model_live: self.model_live,
            work: copy_text(&self.work),
            context_percent: self.context_percent,
            context_used: self.context_used,
            context_window: self.context_window,
            context_live: self.context_live,
            input_tokens: self.input_tokens,
            cached_input_tokens: self.cached_input_tokens,
            output_tokens: self.output_tokens,
            rate_limits,
            reset_credits: self.reset_credits,
            cwd: copy_text(&self.cwd),
            project_root: copy_text(&self.project_root),
            git_branch: copy_text(&self.git_branch),
            git_dirty: self.git_dirty,
            git_staged: self.git_staged,
            git_modified: self.git_modified,
            git_ahead: self.git_ahead,
            git_behind: self.git_behind,
            worktree: copy_text(&self.worktree),
            linked_worktree: self.linked_worktree,
            agents_active: self.agents_active,
            agents_total: self.agents_total,
            agents,
            tools,
            plan_completed: self.plan_completed,
            plan_total: self.plan_total,
            compactions: self.compactions,
            sandbox: copy_text(&self.sandbox),
            approval_policy: copy_text(&self.approval_policy),
            approvals_reviewer: copy_text(&self.approvals_reviewer),
            permission_mode: copy_text(&self.permission_mode),
            settings_live: self.settings_live,
            session_id: copy_text(&self.session_id),
            events_active: self.events_active,
            app_server_active: self.app_server_active,
            live_session_active: self.live_session_active,
            live_proxy_status: self.live_proxy_status,
            live_proxy_error: copy_text(&self.live_proxy_error),
        };
        assert(r@ =~= self@);
        r
    }

    pub fn blank() -> (r: Self)
        ensures
            is_blank(r),
            r@ == blank_view(),
    {
        let r = StatusSnapshot {
            model: None,
            reasoning: None,
            model_live: false,
            work: None,
            context_percent: None,
            context_used: None,
            context_window: None,
            context_live: false,
            input_tokens: None,
            cached_input_tokens: None,
            output_tokens: None,
            rate_limits: Vec::new(),
            reset_credits: None,
            cwd: None,
            project_root: None,
            git_branch: None,
            git_dirty: None,
            git_staged: None,
            git_modified: None,
            git_ahead: None,
            git_behind: None,
            worktree: None,
            linked_worktree: None,
            agents_active: None,
            agents_total: None,
            agents: Vec::new(),
            tools: Vec::new(),
            plan_completed: None,
            plan_total: None,
            compactions: None,
            sandbox: None,
            approval_policy: None,
            approvals_reviewer: None,
            permission_mode: None,
            settings_live: false,
            session_id: None,
            events_active: false,
            app_server_active: false,
            live_session_active: false,
            live_proxy_status: LiveProxyStatus::Disabled,
            live_proxy_error: None,
        };
        assert(r@ =~= blank_view());
        r
    }

    /// A clearly simulated state used by `preview` and the configuration editor.
    /// Its agents count as started at time 0.
    pub fn showcase() -> (r: Self)
        ensures
            is_showcase(r),
    {
        let mut rate_limits = Vec::new();
        rate_limits.push(RateLimitWindow { used_percent: 34, window_minutes: Some(300), resets_at: None });
        rate_limits.push(RateLimitWindow { used_percent: 65, window_minutes: Some(10_080), resets_at: None });
        let mut agents = Vec::new();
        agents.push(AgentActivity {
            id: owned("agent-explore"),
            kind: owned("explore"),
            started: 0,
            prompt: Some(owned("Trace app-server agent events")),
            message: Some(owned("Inspecting protocol types")),
            active: true,
        });
        agents.push(AgentActivity {
            id: owned("agent-worker"),
            kind: owned("worker"),
            started: 0,
            prompt: Some(owned("Build the interactive inspector")),
            message: Some(owned("Editing the renderer")),
            active: true,
        });
        let mut tools = Vec::new();
        tools.push(ToolCount { name: owned("exec"), count: 3 });
        tools.push(ToolCount { name: owned("patch"), count: 2 });
        let r = StatusSnapshot {
            model: Some(owned("gpt-5.6-sol")),
            reasoning: Some(owned("high")),
            model_live: true,
            work: Some(owned("exec 8s")),
            context_percent: Some(42),
            context_used: Some(84_000),
            context_window: Some(200_000),
            context_live: true,
            input_tokens: Some(72_400),
            cached_input_tokens: Some(51_200),
            output_tokens: Some(8_600),
            rate_limits,
            reset_credits: Some(1),
            cwd: Some(owned("~/pro/codex-cli-statusline")),
            project_root: Some(owned("~/pro/codex-cli-statusline")),
            git_branch: Some(owned("feat/statusline")),
            git_dirty: Some(true),
            git_staged: Some(1),
            git_modified: Some(3),
            git_ahead: Some(2),
            git_behind: Some(0),
            worktree: Some(owned("codexline-agent-2")),
            linked_worktree: Some(true),
            agents_active: Some(2),
            agents_total: Some(3),
            agents,
            tools,
            plan_completed: Some(2),
            plan_total: Some(4),
            compactions: Some(1),
            sandbox: Some(owned("workspace-write")),
            approval_policy: Some(owned("on-request")),
            approvals_reviewer: Some(owned("auto_review")),
            permission_mode: None,
            settings_live: true,
            session_id: Some(owned("thr_showcase")),
            events_active: true,
            app_server_active: true,
            live_session_active: true,
            live_proxy_status: LiveProxyStatus::Connected,
            live_proxy_error: None,
        };
        assert(r.rate_limits@ =~= seq![
            RateLimitWindow { used_percent: 34, window_minutes: Some(300), resets_at: None },
            RateLimitWindow { used_percent: 65, window_minutes: Some(10_080), resets_at: None },
        ]);
        r
    }
}

} // verus!
