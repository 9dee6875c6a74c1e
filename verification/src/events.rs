//! The hook event reducer: each Codex hook payload updates the status
//! snapshot and the reducer's own memory of tools and subagents.

use crate::json::{array_of, field, field_of, text_field, text_of, Json};
use crate::panel::text_less;
use crate::panel::text_lt;
use crate::state::{AgentActivity, AgentView, SnapshotView, StatusSnapshot, ToolCount};
use crate::text::{at_most, owned, push_char, push_str, same_text, sanitize_label, without_controls};
use vstd::prelude::*;

verus! {

/// What the reducer remembers between events. Each agent id occurs once in
/// `agents` and once in `seen_agents`.
pub struct RuntimeState {
    pub agents: Vec<AgentActivity>,
    pub seen_agents: Vec<String>,
    pub tools: Vec<ToolCount>,
    pub compactions: u16,
}

#[verifier::ext_equal]
pub struct RuntimeView {
    pub agents: Seq<AgentView>,
    pub seen: Seq<Seq<char>>,
    pub tools: Seq<(Seq<char>, u16)>,
    pub compactions: u16,
}

impl View for RuntimeState {
    type V = RuntimeView;

    open spec fn view(&self) -> RuntimeView {
        RuntimeView {
            agents: crate::state::agents_view(self.agents@),
            seen: crate::text::strings_view(self.seen_agents@),
            tools: crate::state::tools_view(self.tools@),
            compactions: self.compactions,
        }
    }
}

/// No id is remembered twice.
pub open spec fn runtime_wf(r: RuntimeView) -> bool {
    &&& r.seen.no_duplicates()
    &&& forall|i: int, j: int| 0 <= i < j < r.agents.len() ==> r.agents[i].id != r.agents[j].id
}

impl RuntimeState {
    pub fn new() -> (r: Self)
        ensures
            r@.agents.len() == 0,
            r@.seen.len() == 0,
            r@.tools.len() == 0,
            r@.compactions == 0,
            runtime_wf(r@),
    {
        RuntimeState { agents: Vec::new(), seen_agents: Vec::new(), tools: Vec::new(), compactions: 0 }
    }
}

impl Default for RuntimeState {
    fn default() -> (r: Self)
        ensures
            r@.agents.len() == 0,
            r@.seen.len() == 0,
            r@.tools.len() == 0,
            r@.compactions == 0,
    {
        RuntimeState::new()
    }
}

// ---------------------------------------------------------------- labels

/// The text after the last `__` (all of it when there is none), as
/// `rsplit("__").next()` yields.
pub open spec fn after_last_separator(v: Seq<char>) -> Seq<char>
    decreases v.len(),
{
    if v.len() < 2 {
        v
    } else if v[v.len() - 2] == '_' && v[v.len() - 1] == '_' {
        Seq::empty()
    } else {
        after_last_separator(v.drop_last()).push(v.last())
    }
}

/// A tool's short name: well-known tools renamed, MCP prefixes dropped, at most
/// 20 characters without control characters.
pub open spec fn compact_tool_text(v: Seq<char>) -> Seq<char> {
    let short = if v == "Bash"@ {
        "exec"@
    } else if v == "apply_patch"@ {
        "patch"@
    } else if v == "Agent"@ {
        "agent"@
    } else {
        after_last_separator(v)
    };
    at_most(without_controls(short), 20)
}

/// An agent kind: at most 16 characters without control characters.
pub open spec fn compact_agent_text(v: Seq<char>) -> Seq<char> {
    at_most(without_controls(v), 16)
}

/// A prompt or message: at most 160 characters without control characters.
pub open spec fn detail_text(v: Seq<char>) -> Seq<char> {
    at_most(without_controls(v), 160)
}

/// The words shown for a permission mode.
pub open spec fn permission_label(v: Seq<char>) -> Seq<char> {
    if v == "acceptEdits"@ {
        "accept edits"@
    } else if v == "dontAsk"@ {
        "don't ask"@
    } else if v == "bypassPermissions"@ {
        "bypass permissions"@
    } else if v == "autoReview"@ || v == "auto_review"@ || v == "guardian_subagent"@ {
        "approve for me"@
    } else {
        v
    }
}

fn tail_after_separator(value: &str) -> (r: String)
    ensures
        r@ == after_last_separator(value@),
{
    let n = value.unicode_len();
    // The end of the rightmost `__`, or 0 when there is none.
    let mut start: usize = n;
    let ghost v = value@;
    proof {
        lemma_after_separator_suffix(v, n as nat);
    }
    while start >= 2 && !(value.get_char(start - 2) == '_' && value.get_char(start - 1) == '_')
        invariant
            n == v.len(),
            v == value@,
            start <= n,
            after_last_separator(v) == after_last_separator(v.take(start as int)) + v.skip(start as int),
        decreases start,
    {
        let ghost p = v.take(start as int);
        assert(p.drop_last() =~= v.take(start as int - 1));
        assert(p[p.len() - 2] == v[start as int - 2] && p[p.len() - 1] == v[start as int - 1]);
        assert(v.skip(start as int - 1) =~= seq![v[start as int - 1]] + v.skip(start as int));
        assert(after_last_separator(p) == after_last_separator(p.drop_last()).push(p.last()));
        assert(after_last_separator(v.take(start as int - 1)).push(v[start as int - 1]) + v.skip(start as int)
            =~= after_last_separator(v.take(start as int - 1)) + v.skip(start as int - 1));
        start = start - 1;
    }
    let ghost p = v.take(start as int);
    if start >= 2 {
        assert(p[p.len() - 2] == '_' && p[p.len() - 1] == '_');
        assert(after_last_separator(p) == Seq::<char>::empty());
    } else {
        assert(after_last_separator(p) == p);
    }
    let begin: usize = if start >= 2 { start } else { 0 };
    let mut out = String::new();
    let mut i: usize = begin;
    while i < n
        invariant
            n == v.len(),
            v == value@,
            begin <= i <= n,
            out@ == v.subrange(begin as int, i as int),
        decreases n - i,
    {
        push_char(&mut out, value.get_char(i));
        i = i + 1;
        assert(out@ =~= v.subrange(begin as int, i as int));
    }
    assert(v.subrange(begin as int, n as int) =~= (if start >= 2 { v.skip(start as int) } else { v.take(start as int) + v.skip(start as int) }));
    out
}

proof fn lemma_after_separator_suffix(v: Seq<char>, n: nat)
    requires
        n == v.len(),
    ensures
        after_last_separator(v) == after_last_separator(v.take(n as int)) + v.skip(n as int),
{
    assert(v.take(n as int) =~= v);
    assert(v.skip(n as int) =~= Seq::<char>::empty());
    assert(after_last_separator(v) + Seq::<char>::empty() =~= after_last_separator(v));
}

/// A tool's short name.
pub fn compact_tool(value: &str) -> (r: String)
    ensures
        r@ == compact_tool_text(value@),
{
    if same_text(value, "Bash") {
        sanitize_label("exec", 20)
    } else if same_text(value, "apply_patch") {
        sanitize_label("patch", 20)
    } else if same_text(value, "Agent") {
        sanitize_label("agent", 20)
    } else {
        let short = tail_after_separator(value);
        sanitize_label(short.as_str(), 20)
    }
}

pub fn compact_agent(value: &str) -> (r: String)
    ensures
        r@ == compact_agent_text(value@),
{
    sanitize_label(value, 16)
}

pub fn sanitize_detail(value: &str) -> (r: String)
    ensures
        r@ == detail_text(value@),
{
    sanitize_label(value, 160)
}

pub fn compact_permission(value: &str) -> (r: String)
    ensures
        r@ == permission_label(value@),
{
    if same_text(value, "acceptEdits") {
        owned("accept edits")
    } else if same_text(value, "dontAsk") {
        owned("don't ask")
    } else if same_text(value, "bypassPermissions") {
        owned("bypass permissions")
    } else if same_text(value, "autoReview") || same_text(value, "auto_review") || same_text(value, "guardian_subagent") {
        owned("approve for me")
    } else {
        owned(value)
    }
}

// ---------------------------------------------------------------- the reducer's model

/// `a` when present, else `b`.
pub open spec fn either(a: Option<Seq<char>>, b: Option<Seq<char>>) -> Option<Seq<char>> {
    if a is Some { a } else { b }
}

/// The string member `key` of a hook payload.
pub open spec fn hook_text(e: Json, key: Seq<char>) -> Option<Seq<char>> {
    text_of(field(e, key))
}

pub open spec fn opt_detail(v: Option<Seq<char>>) -> Option<Seq<char>> {
    match v {
        Some(t) => Some(detail_text(t)),
        None => None,
    }
}

/// `n` saturated to `u16`.
pub open spec fn cap16(n: nat) -> u16 {
    if n > u16::MAX { u16::MAX } else { n as u16 }
}

/// What every payload refreshes first: the session, model, reasoning and directory.
pub open spec fn with_identity(s: SnapshotView, e: Json) -> SnapshotView {
    let model = hook_text(e, "model"@);
    let reasoning = either(hook_text(e, "reasoning_effort"@), hook_text(e, "model_reasoning_effort"@));
    SnapshotView {
        events_active: true,
        session_id: either(hook_text(e, "session_id"@), s.session_id),
        model: either(model, s.model),
        reasoning: either(reasoning, s.reasoning),
        model_live: s.model_live || model is Some || reasoning is Some,
        cwd: either(hook_text(e, "cwd"@), s.cwd),
        ..s
    }
}

/// Then the permission settings that it carries.
pub open spec fn with_permissions(s: SnapshotView, e: Json) -> SnapshotView {
    let permission = hook_text(e, "permission_mode"@);
    let sandbox = hook_text(e, "sandbox_mode"@);
    let approval = hook_text(e, "approval_policy"@);
    let approver = hook_text(e, "approvals_reviewer"@);
    SnapshotView {
        permission_mode: match permission {
            Some(p) => Some(permission_label(p)),
            None => s.permission_mode,
        },
        sandbox: either(sandbox, s.sandbox),
        approval_policy: either(approval, s.approval_policy),
        approvals_reviewer: either(approver, s.approvals_reviewer),
        settings_live: s.settings_live || permission is Some || sandbox is Some || approval is Some || approver is Some,
        ..s
    }
}

/// What every payload refreshes.
pub open spec fn with_settings(s: SnapshotView, e: Json) -> SnapshotView {
    with_permissions(with_identity(s, e), e)
}

/// Context figures that a new prompt makes stale when no live session reports them.
pub open spec fn without_context(s: SnapshotView) -> SnapshotView {
    SnapshotView {
        context_percent: None,
        context_used: None,
        context_window: None,
        input_tokens: None,
        cached_input_tokens: None,
        output_tokens: None,
        context_live: false,
        ..s
    }
}

/// How many plan steps have the status `completed`.
pub open spec fn count_completed(steps: Seq<Json>) -> nat
    decreases steps.len(),
{
    if steps.len() == 0 {
        0
    } else {
        count_completed(steps.drop_last()) + (if text_of(field(steps.last(), "status"@)) == Some("completed"@) { 1nat } else { 0nat })
    }
}

/// The plan progress that an `update_plan` call carries.
pub open spec fn with_plan(s: SnapshotView, e: Json) -> SnapshotView {
    match array_of(field_of(field(e, "tool_input"@), "plan"@)) {
        Some(steps) => SnapshotView {
            plan_completed: Some(cap16(count_completed(steps))),
            plan_total: Some(cap16(steps.len())),
            ..s
        },
        None => s,
    }
}

/// The count a finished tool gets: one more than its entry (saturating), or 1.
pub open spec fn next_tool_count(tools: Seq<(Seq<char>, u16)>, name: Seq<char>) -> u16
    decreases tools.len(),
{
    if tools.len() == 0 {
        1
    } else if tools[0].0 == name {
        if tools[0].1 == u16::MAX { u16::MAX } else { (tools[0].1 + 1) as u16 }
    } else {
        next_tool_count(tools.drop_first(), name)
    }
}

/// The entries of other tools, in order.
pub open spec fn other_tools(tools: Seq<(Seq<char>, u16)>, name: Seq<char>) -> Seq<(Seq<char>, u16)>
    decreases tools.len(),
{
    if tools.len() == 0 {
        tools
    } else if tools.last().0 == name {
        other_tools(tools.drop_last(), name)
    } else {
        other_tools(tools.drop_last(), name).push(tools.last())
    }
}

/// The recent tools after `name` finished: it moves to the front with its
/// new count, and at most four are kept.
pub open spec fn recorded_tools(tools: Seq<(Seq<char>, u16)>, name: Seq<char>) -> Seq<(Seq<char>, u16)> {
    let all = seq![(name, next_tool_count(tools, name))] + other_tools(tools, name);
    if all.len() > 4 { all.take(4) } else { all }
}

/// The first position of the agent `id`, or -1.
pub open spec fn agent_index(agents: Seq<AgentView>, id: Seq<char>) -> int
    decreases agents.len(),
{
    if agents.len() == 0 {
        -1
    } else if agents[0].id == id {
        0
    } else {
        let j = agent_index(agents.drop_first(), id);
        if j < 0 { -1 } else { j + 1 }
    }
}

/// The agents after `a` started: it replaces the agent with its id, or is added.
pub open spec fn put_agent(agents: Seq<AgentView>, a: AgentView) -> Seq<AgentView> {
    let i = agent_index(agents, a.id);
    if i >= 0 { agents.update(i, a) } else { agents.push(a) }
}

/// The agents after `id` stopped with its last message.
pub open spec fn stop_agent(agents: Seq<AgentView>, id: Seq<char>, message: Option<Seq<char>>) -> Seq<AgentView> {
    let i = agent_index(agents, id);
    if i >= 0 {
        agents.update(i, AgentView { active: false, message: message, ..agents[i] })
    } else {
        agents
    }
}

pub open spec fn seen_with(seen: Seq<Seq<char>>, id: Seq<char>) -> Seq<Seq<char>> {
    if seen.contains(id) { seen } else { seen.push(id) }
}

/// Stable insertion by kind: `x` goes after every agent whose kind is not greater.
pub open spec fn insert_by_kind(sorted: Seq<AgentView>, x: AgentView) -> Seq<AgentView>
    decreases sorted.len(),
{
    if sorted.len() == 0 {
        seq![x]
    } else if !text_lt(x.kind, sorted.last().kind) {
        sorted.push(x)
    } else {
        insert_by_kind(sorted.drop_last(), x).push(sorted.last())
    }
}

/// The agents stably sorted by kind.
pub open spec fn sorted_by_kind(s: Seq<AgentView>) -> Seq<AgentView>
    decreases s.len(),
{
    if s.len() == 0 {
        s
    } else {
        insert_by_kind(sorted_by_kind(s.drop_last()), s.last())
    }
}

pub open spec fn active_count(agents: Seq<AgentView>) -> nat
    decreases agents.len(),
{
    if agents.len() == 0 {
        0
    } else {
        active_count(agents.drop_last()) + (if agents.last().active { 1nat } else { 0nat })
    }
}

/// The snapshot's agent list and counts, taken from the reducer's memory.
pub open spec fn synced(s: SnapshotView, r: RuntimeView) -> SnapshotView {
    SnapshotView {
        agents: sorted_by_kind(r.agents),
        agents_active: Some(cap16(active_count(sorted_by_kind(r.agents)))),
        agents_total: Some(cap16(r.seen.len())),
        ..s
    }
}

/// The agent that a `SubagentStart` payload describes.
pub open spec fn new_agent(e: Json, id: Seq<char>, now: u64) -> AgentView {
    AgentView {
        id: id,
        kind: compact_agent_text(match hook_text(e, "agent_type"@) {
            Some(k) => k,
            None => "agent"@,
        }),
        started: now,
        prompt: opt_detail(hook_text(e, "prompt"@)),
        message: None,
        active: true,
    }
}

/// The memory after the agent `id` started.
pub open spec fn started_agent(r: RuntimeView, e: Json, id: Seq<char>, now: u64) -> RuntimeView {
    RuntimeView { seen: seen_with(r.seen, id), agents: put_agent(r.agents, new_agent(e, id, now)), ..r }
}

/// The snapshot and memory after one hook payload, received at Unix time `now`.
pub open spec fn hook_result(s: SnapshotView, r: RuntimeView, e: Json, now: u64) -> (SnapshotView, RuntimeView) {
    hook_step(with_settings(s, e), r, e, now)
}

/// The payload's `hook_event_name` (empty when absent).
pub open spec fn event_name(e: Json) -> Seq<char> {
    match hook_text(e, "hook_event_name"@) {
        Some(n) => n,
        None => Seq::empty(),
    }
}

/// The payload's `tool_name` (`tool` when absent).
pub open spec fn tool_name(e: Json) -> Seq<char> {
    match hook_text(e, "tool_name"@) {
        Some(t) => t,
        None => "tool"@,
    }
}

/// What the payload's `hook_event_name` does, after the settings are refreshed.
pub open spec fn hook_step(s1: SnapshotView, r: RuntimeView, e: Json, now: u64) -> (SnapshotView, RuntimeView) {
    by_name(s1, r, e, now, event_name(e), tool_name(e))
}

pub open spec fn by_name(s1: SnapshotView, r: RuntimeView, e: Json, now: u64, name: Seq<char>, tool: Seq<char>) -> (SnapshotView, RuntimeView) {
    if name == "SessionStart"@ {
        (SnapshotView { work: Some("ready"@), ..s1 }, r)
    } else if name == "UserPromptSubmit"@ {
        let s2 = SnapshotView { work: Some("thinking"@), ..s1 };
        (if s2.live_session_active { s2 } else { without_context(s2) }, r)
    } else if name == "PreToolUse"@ {
        let s2 = SnapshotView { work: Some("running · "@ + compact_tool_text(tool)), ..s1 };
        (if tool == "update_plan"@ { with_plan(s2, e) } else { s2 }, r)
    } else if name == "PermissionRequest"@ {
        (SnapshotView { work: Some("approval · "@ + compact_tool_text(tool)), ..s1 }, r)
    } else if name == "PostToolUse"@ {
        let tools = recorded_tools(r.tools, compact_tool_text(tool));
        (SnapshotView { tools: tools, work: Some("working"@), ..s1 }, RuntimeView { tools: tools, ..r })
    } else if name == "PreCompact"@ {
        (SnapshotView { work: Some("compacting"@), ..s1 }, r)
    } else if name == "PostCompact"@ {
        let c: u16 = if r.compactions == u16::MAX { u16::MAX } else { (r.compactions + 1) as u16 };
        (SnapshotView { compactions: Some(c), work: Some("working"@), ..s1 }, RuntimeView { compactions: c, ..r })
    } else if name == "SubagentStart"@ {
        match hook_text(e, "agent_id"@) {
            Some(id) => {
                let r2 = started_agent(r, e, id, now);
                (synced(s1, r2), r2)
            },
            None => (s1, r),
        }
    } else if name == "SubagentStop"@ {
        match hook_text(e, "agent_id"@) {
            Some(id) => {
                let r2 = RuntimeView {
                    agents: stop_agent(r.agents, id, opt_detail(hook_text(e, "last_assistant_message"@))),
                    ..r
                };
                (synced(s1, r2), r2)
            },
            None => (s1, r),
        }
    } else if name == "Stop"@ {
        (SnapshotView { work: Some("ready"@), ..s1 }, r)
    } else if name == "SessionEnd"@ {
        (SnapshotView { work: Some("ended"@), ..s1 }, r)
    } else {
        (s1, r)
    }
}

// ---------------------------------------------------------------- the reducer

fn apply_identity(event: &Json, snapshot: &mut StatusSnapshot)
    ensures
        final(snapshot)@ == with_identity(old(snapshot)@, *event),
{
    snapshot.events_active = true;
    if let Some(v) = text_field(event, "session_id") {
        snapshot.session_id = Some(owned(v));
    }
    let model = text_field(event, "model");
    if let Some(v) = model {
        snapshot.model = Some(owned(v));
        snapshot.model_live = true;
    }
    let reasoning = match text_field(event, "reasoning_effort") {
        Some(v) => Some(v),
        None => text_field(event, "model_reasoning_effort"),
    };
    if let Some(v) = reasoning {
        snapshot.reasoning = Some(owned(v));
        snapshot.model_live = true;
    }
    if let Some(v) = text_field(event, "cwd") {
        snapshot.cwd = Some(owned(v));
    }
    assert(snapshot@ =~= with_identity(old(snapshot)@, *event));
}

fn apply_permissions(event: &Json, snapshot: &mut StatusSnapshot)
    ensures
        final(snapshot)@ == with_permissions(old(snapshot)@, *event),
{
    let mut updated = false;
    if let Some(v) = text_field(event, "permission_mode") {
        snapshot.permission_mode = Some(compact_permission(v));
        updated = true;
    }
    if let Some(v) = text_field(event, "sandbox_mode") {
        snapshot.sandbox = Some(owned(v));
        updated = true;
    }
    if let Some(v) = text_field(event, "approval_policy") {
        snapshot.approval_policy = Some(owned(v));
        updated = true;
    }
    if let Some(v) = text_field(event, "approvals_reviewer") {
        snapshot.approvals_reviewer = Some(owned(v));
        updated = true;
    }
    if updated {
        snapshot.settings_live = true;
    }
    assert(snapshot@ =~= with_permissions(old(snapshot)@, *event));
}

/// Forgets the context figures.
pub fn clear_unobserved_context(snapshot: &mut StatusSnapshot)
    ensures
        final(snapshot)@ == without_context(old(snapshot)@),
{
    snapshot.context_percent = None;
    snapshot.context_used = None;
    snapshot.context_window = None;
    snapshot.input_tokens = None;
    snapshot.cached_input_tokens = None;
    snapshot.output_tokens = None;
    snapshot.context_live = false;
    assert(snapshot@ =~= without_context(old(snapshot)@));
}

fn capped16(n: usize) -> (r: u16)
    ensures
        r == cap16(n as nat),
{
    if n > 65535 { 65535 } else { n as u16 }
}

/// Records the plan progress of an `update_plan` call.
pub fn update_plan(event: &Json, snapshot: &mut StatusSnapshot)
    ensures
        final(snapshot)@ == with_plan(old(snapshot)@, *event),
{
    let plan = match event.get("tool_input") {
        Some(input) => input.get("plan"),
        None => None,
    };
    let steps = match plan {
        Some(p) => p.as_array(),
        None => None,
    };
    if let Some(steps) = steps {
        let mut completed: usize = 0;
        let mut i: usize = 0;
        while i < steps.len()
            invariant
                i <= steps@.len(),
                completed <= i,
                completed == count_completed(steps@.take(i as int)),
            decreases steps@.len() - i,
        {
            assert(steps@.take(i as int + 1).drop_last() =~= steps@.take(i as int));
            let done = match text_field(&steps[i], "status") {
                Some(t) => same_text(t, "completed"),
                None => false,
            };
            if done {
                completed = completed + 1;
            }
            i = i + 1;
        }
        assert(steps@.take(i as int) =~= steps@);
        snapshot.plan_completed = Some(capped16(completed));
        snapshot.plan_total = Some(capped16(steps.len()));
        assert(snapshot@ =~= with_plan(old(snapshot)@, *event));
    }
}

fn copy_tools(tools: &Vec<ToolCount>) -> (r: Vec<ToolCount>)
    ensures
        r@ == tools@,
{
    let mut out: Vec<ToolCount> = Vec::new();
    let mut i: usize = 0;
    while i < tools.len()
        invariant
            i <= tools@.len(),
            out@ == tools@.take(i as int),
        decreases tools@.len() - i,
    {
        out.push(tools[i].duplicate());
        i = i + 1;
        assert(out@ =~= tools@.take(i as int));
    }
    assert(tools@.take(i as int) =~= tools@);
    out
}

proof fn lemma_tools_view_push(s: Seq<ToolCount>, x: ToolCount)
    ensures
        crate::state::tools_view(s.push(x)) == crate::state::tools_view(s).push((x.name@, x.count)),
{
    assert(crate::state::tools_view(s.push(x)) =~= crate::state::tools_view(s).push((x.name@, x.count)));
}

/// Moves `tool` to the front of the recent tools with its new count.
pub fn record_tool(tool: &str, runtime: &mut RuntimeState)
    ensures
        final(runtime)@ == (RuntimeView { tools: recorded_tools(old(runtime)@.tools, tool@), ..old(runtime)@ }),
{
    let ghost view = crate::state::tools_view(runtime.tools@);
    let mut count: u16 = 1;
    let mut found = false;
    let mut i: usize = 0;
    assert(view.skip(0) =~= view);
    while i < runtime.tools.len() && !found
        invariant
            view == crate::state::tools_view(runtime.tools@),
            i <= view.len(),
            found ==> count == next_tool_count(view, tool@),
            !found ==> count == 1,
            !found ==> next_tool_count(view, tool@) == next_tool_count(view.skip(i as int), tool@),
        decreases view.len() - i,
    {
        assert(view.skip(i as int)[0] == view[i as int]);
        if same_text(runtime.tools[i].name.as_str(), tool) {
            let c = runtime.tools[i].count;
            count = if c == 65535 { 65535 } else { c + 1 };
            found = true;
            i = i + 1;
        } else {
            assert(view.skip(i as int).drop_first() =~= view.skip(i as int + 1));
            i = i + 1;
        }
    }
    if !found {
        assert(view.skip(i as int) =~= Seq::<(Seq<char>, u16)>::empty());
    }
    assert(count == next_tool_count(view, tool@));
    let mut tools: Vec<ToolCount> = Vec::new();
    let first = ToolCount { name: owned(tool), count };
    proof {
        lemma_tools_view_push(tools@, first);
    }
    tools.push(first);
    assert(crate::state::tools_view(tools@) =~= seq![(tool@, count)] + other_tools(view.take(0), tool@));
    let mut j: usize = 0;
    while j < runtime.tools.len()
        invariant
            view == crate::state::tools_view(runtime.tools@),
            j <= view.len(),
            crate::state::tools_view(tools@) == seq![(tool@, count)] + other_tools(view.take(j as int), tool@),
        decreases view.len() - j,
    {
        assert(view.take(j as int + 1).drop_last() =~= view.take(j as int));
        if !same_text(runtime.tools[j].name.as_str(), tool) {
            let t = runtime.tools[j].duplicate();
            assert((t.name@, t.count) == view[j as int]);
            proof {
                lemma_tools_view_push(tools@, t);
            }
            tools.push(t);
        }
        j = j + 1;
        assert(crate::state::tools_view(tools@) =~= seq![(tool@, count)] + other_tools(view.take(j as int), tool@));
    }
    assert(view.take(j as int) =~= view);
    tools.truncate(4);
    runtime.tools = tools;
    assert(runtime@.tools =~= recorded_tools(old(runtime)@.tools, tool@));
    assert(runtime@ =~= (RuntimeView { tools: recorded_tools(old(runtime)@.tools, tool@), ..old(runtime)@ }));
}

fn insert_by_kind_exec(sorted: &mut Vec<AgentActivity>, x: AgentActivity)
    ensures
        crate::state::agents_view(final(sorted)@) == insert_by_kind(crate::state::agents_view(old(sorted)@), x@),
    decreases old(sorted)@.len(),
{
    let n = sorted.len();
    let ghost before = crate::state::agents_view(sorted@);
    if n == 0 {
        sorted.push(x);
        assert(crate::state::agents_view(sorted@) =~= seq![x@]);
    } else if !text_less(x.kind.as_str(), sorted[n - 1].kind.as_str()) {
        sorted.push(x);
        assert(crate::state::agents_view(sorted@) =~= before.push(x@));
    } else {
        let last = sorted.pop().unwrap();
        assert(crate::state::agents_view(sorted@) =~= before.drop_last());
        insert_by_kind_exec(sorted, x);
        let ghost mid = crate::state::agents_view(sorted@);
        sorted.push(last);
        assert(crate::state::agents_view(sorted@) =~= mid.push(last@));
    }
}

/// The agents stably sorted by kind.
pub fn sort_by_kind(agents: &Vec<AgentActivity>) -> (r: Vec<AgentActivity>)
    ensures
        crate::state::agents_view(r@) == sorted_by_kind(crate::state::agents_view(agents@)),
{
    let ghost view = crate::state::agents_view(agents@);
    let mut out: Vec<AgentActivity> = Vec::new();
    let mut i: usize = 0;
    while i < agents.len()
        invariant
            view == crate::state::agents_view(agents@),
            i <= agents@.len(),
            crate::state::agents_view(out@) == sorted_by_kind(view.take(i as int)),
        decreases agents@.len() - i,
    {
        assert(view.take(i as int + 1).drop_last() =~= view.take(i as int));
        insert_by_kind_exec(&mut out, agents[i].duplicate());
        i = i + 1;
    }
    assert(view.take(i as int) =~= view);
    out
}

fn count_active_agents(agents: &Vec<AgentActivity>) -> (r: usize)
    ensures
        r == active_count(crate::state::agents_view(agents@)),
{
    let ghost view = crate::state::agents_view(agents@);
    let mut count: usize = 0;
    let mut i: usize = 0;
    while i < agents.len()
        invariant
            view == crate::state::agents_view(agents@),
            i <= agents@.len(),
            count <= i,
            count == active_count(view.take(i as int)),
        decreases agents@.len() - i,
    {
        assert(view.take(i as int + 1).drop_last() =~= view.take(i as int));
        if agents[i].active {
            count = count + 1;
        }
        i = i + 1;
    }
    assert(view.take(i as int) =~= view);
    count
}

/// Copies the reducer's agents into the snapshot, sorted by kind, with counts.
pub fn sync_agents(runtime: &RuntimeState, snapshot: &mut StatusSnapshot)
    ensures
        final(snapshot)@ == synced(old(snapshot)@, runtime@),
{
    let agents = sort_by_kind(&runtime.agents);
    let active = count_active_agents(&agents);
    snapshot.agents = agents;
    snapshot.agents_active = Some(capped16(active));
    snapshot.agents_total = Some(capped16(runtime.seen_agents.len()));
    assert(snapshot@ =~= synced(old(snapshot)@, runtime@));
}

pub open spec fn shifted(j: int, by: int) -> int {
    if j < 0 { -1 } else { j + by }
}

/// The position of the agent `id`.
pub fn find_agent(agents: &Vec<AgentActivity>, id: &str) -> (r: Option<usize>)
    ensures
        match r {
            Some(i) => i < agents@.len() && i as int == agent_index(crate::state::agents_view(agents@), id@),
            None => agent_index(crate::state::agents_view(agents@), id@) == -1,
        },
{
    let ghost view = crate::state::agents_view(agents@);
    let mut i: usize = 0;
    assert(view.skip(0) =~= view);
    while i < agents.len()
        invariant
            view == crate::state::agents_view(agents@),
            i <= view.len(),
            agent_index(view, id@) == shifted(agent_index(view.skip(i as int), id@), i as int),
        decreases view.len() - i,
    {
        assert(view.skip(i as int)[0] == view[i as int]);
        if same_text(agents[i].id.as_str(), id) {
            return Some(i);
        }
        assert(view.skip(i as int).drop_first() =~= view.skip(i as int + 1));
        i = i + 1;
    }
    assert(view.skip(i as int) =~= Seq::<AgentView>::empty());
    None
}

fn put_agent_exec(agents: &mut Vec<AgentActivity>, a: AgentActivity)
    ensures
        crate::state::agents_view(final(agents)@) == put_agent(crate::state::agents_view(old(agents)@), a@),
{
    let ghost before = crate::state::agents_view(agents@);
    match find_agent(agents, a.id.as_str()) {
        Some(i) => {
            agents.set(i, a);
            assert(crate::state::agents_view(agents@) =~= before.update(i as int, a@));
        },
        None => {
            agents.push(a);
            assert(crate::state::agents_view(agents@) =~= before.push(a@));
        },
    }
}

fn stop_agent_exec(agents: &mut Vec<AgentActivity>, id: &str, message: Option<String>)
    ensures
        crate::state::agents_view(final(agents)@) == stop_agent(crate::state::agents_view(old(agents)@), id@, crate::segments::opt_view(message)),
{
    let ghost before = crate::state::agents_view(agents@);
    if let Some(i) = find_agent(agents, id) {
        let mut agent = agents[i].duplicate();
        agent.active = false;
        agent.message = message;
        assert(agent@ =~= (AgentView { active: false, message: crate::segments::opt_view(message), ..before[i as int] }));
        agents.set(i, agent);
        assert(crate::state::agents_view(agents@) =~= stop_agent(before, id@, crate::segments::opt_view(message)));
    }
}

fn remember_agent(seen: &mut Vec<String>, id: &str)
    ensures
        crate::text::strings_view(final(seen)@) == seen_with(crate::text::strings_view(old(seen)@), id@),
{
    let ghost view = crate::text::strings_view(seen@);
    let mut i: usize = 0;
    while i < seen.len()
        invariant
            view == crate::text::strings_view(seen@),
            i <= view.len(),
            forall|k: int| 0 <= k < i ==> view[k] != id@,
        decreases view.len() - i,
    {
        if same_text(seen[i].as_str(), id) {
            assert(view.contains(id@)) by {
                assert(view[i as int] == id@);
            }
            return;
        }
        i = i + 1;
    }
    assert(!view.contains(id@));
    seen.push(owned(id));
    assert(crate::text::strings_view(seen@) =~= view.push(id@));
}

fn opt_detail_exec(v: Option<&str>) -> (r: Option<String>)
    ensures
        crate::segments::opt_view(r) == opt_detail(match v { Some(t) => Some(t@), None => None }),
{
    match v {
        Some(t) => Some(sanitize_detail(t)),
        None => None,
    }
}

fn set_work(snapshot: &mut StatusSnapshot, work: String)
    ensures
        final(snapshot)@ == (SnapshotView { work: Some(work@), ..old(snapshot)@ }),
{
    snapshot.work = Some(work);
    assert(snapshot@ =~= (SnapshotView { work: Some(work@), ..old(snapshot)@ }));
}

fn labelled(prefix: &str, label: String) -> (r: String)
    ensures
        r@ == prefix@ + label@,
{
    let mut out = owned(prefix);
    push_str(&mut out, label.as_str());
    out
}

fn start_agent(event: &Json, id: &str, runtime: &mut RuntimeState, snapshot: &mut StatusSnapshot, now: u64)
    requires
        hook_text(*event, "agent_id"@) == Some(id@),
    ensures
        final(runtime)@ == started_agent(old(runtime)@, *event, id@, now),
        final(snapshot)@ == synced(old(snapshot)@, final(runtime)@),
{
    let ghost r0 = runtime@;
    let kind_source: &str = match text_field(event, "agent_type") {
        Some(k) => k,
        None => "agent",
    };
    let agent = AgentActivity {
        id: owned(id),
        kind: compact_agent(kind_source),
        started: now,
        prompt: opt_detail_exec(text_field(event, "prompt")),
        message: None,
        active: true,
    };
    assert(agent@ =~= new_agent(*event, id@, now));
    remember_agent(&mut runtime.seen_agents, id);
    put_agent_exec(&mut runtime.agents, agent);
    assert(runtime@ =~= started_agent(r0, *event, id@, now));
    sync_agents(runtime, snapshot);
}

fn stop_agent_event(event: &Json, id: &str, runtime: &mut RuntimeState, snapshot: &mut StatusSnapshot)
    ensures
        final(runtime)@ == (RuntimeView {
            agents: stop_agent(old(runtime)@.agents, id@, opt_detail(hook_text(*event, "last_assistant_message"@))),
            ..old(runtime)@
        }),
        final(snapshot)@ == synced(old(snapshot)@, final(runtime)@),
{
    let ghost r0 = runtime@;
    let message = opt_detail_exec(text_field(event, "last_assistant_message"));
    stop_agent_exec(&mut runtime.agents, id, message);
    assert(runtime@ =~= (RuntimeView {
        agents: stop_agent(r0.agents, id@, opt_detail(hook_text(*event, "last_assistant_message"@))),
        ..r0
    }));
    sync_agents(runtime, snapshot);
}

fn finish_tool(tool: &str, runtime: &mut RuntimeState, snapshot: &mut StatusSnapshot)
    ensures
        final(runtime)@ == (RuntimeView { tools: recorded_tools(old(runtime)@.tools, compact_tool_text(tool@)), ..old(runtime)@ }),
        final(snapshot)@ == (SnapshotView {
            tools: recorded_tools(old(runtime)@.tools, compact_tool_text(tool@)),
            work: Some("working"@),
            ..old(snapshot)@
        }),
{
    let short = compact_tool(tool);
    record_tool(short.as_str(), runtime);
    snapshot.tools = copy_tools(&runtime.tools);
    set_work(snapshot, owned("working"));
    assert(snapshot@ =~= (SnapshotView {
        tools: recorded_tools(old(runtime)@.tools, compact_tool_text(tool@)),
        work: Some("working"@),
        ..old(snapshot)@
    }));
}

fn count_compaction(runtime: &mut RuntimeState, snapshot: &mut StatusSnapshot)
    ensures
        final(runtime)@ == (RuntimeView {
            compactions: if old(runtime).compactions == u16::MAX { u16::MAX } else { (old(runtime).compactions + 1) as u16 },
            ..old(runtime)@
        }),
        final(snapshot)@ == (SnapshotView {
            compactions: Some(final(runtime).compactions),
            work: Some("working"@),
            ..old(snapshot)@
        }),
{
    runtime.compactions = if runtime.compactions == 65535 { 65535 } else { runtime.compactions + 1 };
    snapshot.compactions = Some(runtime.compactions);
    set_work(snapshot, owned("working"));
    assert(snapshot@ =~= (SnapshotView { compactions: Some(runtime.compactions), work: Some("working"@), ..old(snapshot)@ }));
    assert(runtime@ =~= (RuntimeView {
        compactions: if old(runtime).compactions == u16::MAX { u16::MAX } else { (old(runtime).compactions + 1) as u16 },
        ..old(runtime)@
    }));
}

fn apply_hook(event: &Json, runtime: &mut RuntimeState, snapshot: &mut StatusSnapshot, now: u64)
    ensures
        (final(snapshot)@, final(runtime)@) == hook_step(old(snapshot)@, old(runtime)@, *event, now),
{
    proof {
        reveal_strlit("");
    }
    let name: &str = match text_field(event, "hook_event_name") {
        Some(n) => n,
        None => "",
    };
    let tool: &str = match text_field(event, "tool_name") {
        Some(t) => t,
        None => "tool",
    };
    assert(name@ == event_name(*event));
    assert(tool@ == tool_name(*event));
    apply_named(name, tool, event, runtime, snapshot, now);
}

#[verifier::rlimit(40)]
fn apply_named(name: &str, tool: &str, event: &Json, runtime: &mut RuntimeState, snapshot: &mut StatusSnapshot, now: u64)
    ensures
        (final(snapshot)@, final(runtime)@) == by_name(old(snapshot)@, old(runtime)@, *event, now, name@, tool@),
{
    if same_text(name, "SessionStart") {
        set_work(snapshot, owned("ready"));
        assert(by_name(old(snapshot)@, old(runtime)@, *event, now, name@, tool@).0 == snapshot@);
        assert(by_name(old(snapshot)@, old(runtime)@, *event, now, name@, tool@).1 == runtime@);
    } else if same_text(name, "UserPromptSubmit") {
        set_work(snapshot, owned("thinking"));
        if !snapshot.live_session_active {
            clear_unobserved_context(snapshot);
        }
        assert(by_name(old(snapshot)@, old(runtime)@, *event, now, name@, tool@).0 == snapshot@);
        assert(by_name(old(snapshot)@, old(runtime)@, *event, now, name@, tool@).1 == runtime@);
    } else if same_text(name, "PreToolUse") {
        set_work(snapshot, labelled("running · ", compact_tool(tool)));
        if same_text(tool, "update_plan") {
            update_plan(event, snapshot);
        }
        assert(by_name(old(snapshot)@, old(runtime)@, *event, now, name@, tool@).0 == snapshot@);
        assert(by_name(old(snapshot)@, old(runtime)@, *event, now, name@, tool@).1 == runtime@);
    } else if same_text(name, "PermissionRequest") {
        set_work(snapshot, labelled("approval · ", compact_tool(tool)));
        assert(by_name(old(snapshot)@, old(runtime)@, *event, now, name@, tool@).0 == snapshot@);
        assert(by_name(old(snapshot)@, old(runtime)@, *event, now, name@, tool@).1 == runtime@);
    } else if same_text(name, "PostToolUse") {
        finish_tool(tool, runtime, snapshot);
        assert(by_name(old(snapshot)@, old(runtime)@, *event, now, name@, tool@).0 == snapshot@);
        assert(by_name(old(snapshot)@, old(runtime)@, *event, now, name@, tool@).1 == runtime@);
    } else if same_text(name, "PreCompact") {
        set_work(snapshot, owned("compacting"));
        assert(by_name(old(snapshot)@, old(runtime)@, *event, now, name@, tool@).0 == snapshot@);
        assert(by_name(old(snapshot)@, old(runtime)@, *event, now, name@, tool@).1 == runtime@);
    } else if same_text(name, "PostCompact") {
        count_compaction(runtime, snapshot);
        assert(by_name(old(snapshot)@, old(runtime)@, *event, now, name@, tool@).0 == snapshot@);
        assert(by_name(old(snapshot)@, old(runtime)@, *event, now, name@, tool@).1 == runtime@);
    } else if same_text(name, "SubagentStart") {
        if let Some(id) = text_field(event, "agent_id") {
            start_agent(event, id, runtime, snapshot, now);
        }
        assert(by_name(old(snapshot)@, old(runtime)@, *event, now, name@, tool@).0 == snapshot@);
        assert(by_name(old(snapshot)@, old(runtime)@, *event, now, name@, tool@).1 == runtime@);
    } else if same_text(name, "SubagentStop") {
        if let Some(id) = text_field(event, "agent_id") {
            stop_agent_event(event, id, runtime, snapshot);
        }
        assert(by_name(old(snapshot)@, old(runtime)@, *event, now, name@, tool@).0 == snapshot@);
        assert(by_name(old(snapshot)@, old(runtime)@, *event, now, name@, tool@).1 == runtime@);
    } else if same_text(name, "Stop") {
        set_work(snapshot, owned("ready"));
        assert(by_name(old(snapshot)@, old(runtime)@, *event, now, name@, tool@).0 == snapshot@);
        assert(by_name(old(snapshot)@, old(runtime)@, *event, now, name@, tool@).1 == runtime@);
    } else if same_text(name, "SessionEnd") {
        set_work(snapshot, owned("ended"));
        assert(by_name(old(snapshot)@, old(runtime)@, *event, now, name@, tool@).0 == snapshot@);
        assert(by_name(old(snapshot)@, old(runtime)@, *event, now, name@, tool@).1 == runtime@);
    } else {
        assert(by_name(old(snapshot)@, old(runtime)@, *event, now, name@, tool@).0 == snapshot@);
        assert(by_name(old(snapshot)@, old(runtime)@, *event, now, name@, tool@).1 == runtime@);
    }
}

/// Applies one hook payload received at Unix time `now`: the settings it
/// carries, then what its event name does.
pub fn apply_event(event: &Json, runtime: &mut RuntimeState, snapshot: &mut StatusSnapshot, now: u64)
    ensures
        (final(snapshot)@, final(runtime)@) == hook_result(old(snapshot)@, old(runtime)@, *event, now),
{
    apply_identity(event, snapshot);
    apply_permissions(event, snapshot);
    apply_hook(event, runtime, snapshot, now);
}

/// Tool and agent labels are free of terminal control characters and bounded:
/// at most 20 characters for a tool, 16 for an agent kind, 160 for a prompt or message.
pub proof fn lemma_labels_are_clean(v: Seq<char>)
    ensures
        crate::text::has_no_controls(compact_tool_text(v)) && compact_tool_text(v).len() <= 20,
        crate::text::has_no_controls(compact_agent_text(v)) && compact_agent_text(v).len() <= 16,
        crate::text::has_no_controls(detail_text(v)) && detail_text(v).len() <= 160,
{
    let short = if v == "Bash"@ {
        "exec"@
    } else if v == "apply_patch"@ {
        "patch"@
    } else if v == "Agent"@ {
        "agent"@
    } else {
        after_last_separator(v)
    };
    crate::text::lemma_without_controls_clean(short);
    crate::text::lemma_without_controls_clean(v);
}

/// The reducer remembers at most four recent tools.
pub proof fn lemma_recent_tools_bounded(tools: Seq<(Seq<char>, u16)>, name: Seq<char>)
    ensures
        recorded_tools(tools, name).len() <= 4,
        recorded_tools(tools, name)[0] == (name, next_tool_count(tools, name)),
{
}

/// No two entries share a tool name.
pub open spec fn distinct_names(tools: Seq<(Seq<char>, u16)>) -> bool {
    forall|i: int, j: int| 0 <= i < j < tools.len() ==> #[trigger] tools[i].0 != #[trigger] tools[j].0
}

proof fn lemma_other_tools(tools: Seq<(Seq<char>, u16)>, name: Seq<char>)
    ensures
        forall|k: int| 0 <= k < other_tools(tools, name).len() ==> (#[trigger] other_tools(tools, name)[k]).0 != name
            && tools.contains(other_tools(tools, name)[k]),
        distinct_names(tools) ==> distinct_names(other_tools(tools, name)),
    decreases tools.len(),
{
    if tools.len() > 0 {
        let init = tools.drop_last();
        lemma_other_tools(init, name);
        let rest = other_tools(init, name);
        assert forall|k: int| 0 <= k < rest.len() implies tools.contains(#[trigger] rest[k]) by {
            let j = choose|j: int| 0 <= j < init.len() && init[j] == rest[k];
            assert(tools[j] == rest[k]);
        }
        if tools.last().0 != name {
            let o = rest.push(tools.last());
            assert(o == other_tools(tools, name));
            assert forall|k: int| 0 <= k < o.len() implies (#[trigger] o[k]).0 != name && tools.contains(o[k]) by {
                if k == rest.len() {
                    assert(tools[tools.len() - 1] == o[k]);
                } else {
                    assert(o[k] == rest[k]);
                }
            }
            if distinct_names(tools) {
                assert(distinct_names(init)) by {
                    assert forall|i: int, j: int| 0 <= i < j < init.len() implies #[trigger] init[i].0 != #[trigger] init[j].0 by {
                        assert(init[i] == tools[i] && init[j] == tools[j]);
                    }
                }
                assert forall|i: int, j: int| 0 <= i < j < o.len() implies #[trigger] o[i].0 != #[trigger] o[j].0 by {
                    assert(o[i] == rest[i]);
                    if j == rest.len() {
                        let m = choose|m: int| 0 <= m < init.len() && init[m] == rest[i];
                        assert(tools[m] == rest[i]);
                        assert(o[j] == tools[tools.len() - 1]);
                    } else {
                        assert(o[j] == rest[j]);
                    }
                }
            }
        } else {
            if distinct_names(tools) {
                assert forall|i: int, j: int| 0 <= i < j < init.len() implies #[trigger] init[i].0 != #[trigger] init[j].0 by {
                    assert(init[i] == tools[i] && init[j] == tools[j]);
                }
            }
        }
    }
}

/// Recording a tool puts it first with its new count (one more than its old
/// entry, saturating, or 1), followed by at most three of the other entries,
/// in their old order; distinct tool names stay distinct.
pub proof fn lemma_recorded_tools(tools: Seq<(Seq<char>, u16)>, name: Seq<char>)
    ensures
        recorded_tools(tools, name).len() <= 4,
        recorded_tools(tools, name)[0] == (name, next_tool_count(tools, name)),
        recorded_tools(tools, name).skip(1) == (if other_tools(tools, name).len() > 3 {
            other_tools(tools, name).take(3)
        } else {
            other_tools(tools, name)
        }),
        forall|k: int| 0 <= k < other_tools(tools, name).len() ==> (#[trigger] other_tools(tools, name)[k]).0 != name
            && tools.contains(other_tools(tools, name)[k]),
        distinct_names(tools) ==> distinct_names(recorded_tools(tools, name)),
{
    lemma_other_tools(tools, name);
    let o = other_tools(tools, name);
    let all = seq![(name, next_tool_count(tools, name))] + o;
    let r = recorded_tools(tools, name);
    assert(r.skip(1) =~= (if o.len() > 3 { o.take(3) } else { o }));
    if distinct_names(tools) {
        assert forall|i: int, j: int| 0 <= i < j < r.len() implies #[trigger] r[i].0 != #[trigger] r[j].0 by {
            assert(r[j] == o[j - 1]);
            if i > 0 {
                assert(r[i] == o[i - 1]);
            }
        }
    }
}

/// `agent_index` finds the agent with the id, or reports that none has it.
pub proof fn lemma_agent_index(agents: Seq<AgentView>, id: Seq<char>)
    ensures
        agent_index(agents, id) >= 0 ==> agent_index(agents, id) < agents.len() && agents[agent_index(agents, id)].id == id,
        agent_index(agents, id) < 0 ==> agent_index(agents, id) == -1 && forall|k: int| 0 <= k < agents.len() ==> agents[k].id != id,
    decreases agents.len(),
{
    if agents.len() > 0 && agents[0].id != id {
        lemma_agent_index(agents.drop_first(), id);
        if agent_index(agents.drop_first(), id) < 0 {
            assert forall|k: int| 0 <= k < agents.len() implies agents[k].id != id by {
                if k > 0 {
                    assert(agents.drop_first()[k - 1] == agents[k]);
                }
            }
        }
    }
}

/// Every payload keeps the reducer's memory consistent: each agent id is
/// remembered once, among the agents and among the ids seen.
pub proof fn lemma_hook_keeps_memory_consistent(s: SnapshotView, r: RuntimeView, e: Json, now: u64)
    requires
        runtime_wf(r),
    ensures
        runtime_wf(hook_result(s, r, e, now).1),
{
    let r2 = hook_result(s, r, e, now).1;
    let name = event_name(e);
    if name == "SubagentStart"@ && !(name == "SessionStart"@ || name == "UserPromptSubmit"@ || name == "PreToolUse"@
        || name == "PermissionRequest"@ || name == "PostToolUse"@ || name == "PreCompact"@ || name == "PostCompact"@) {
        if let Some(id) = hook_text(e, "agent_id"@) {
            let a = new_agent(e, id, now);
            lemma_agent_index(r.agents, id);
            assert(r2 == started_agent(r, e, id, now));
            let agents = put_agent(r.agents, a);
            assert forall|i: int, j: int| 0 <= i < j < agents.len() implies agents[i].id != agents[j].id by {
                if agent_index(r.agents, id) >= 0 {
                    let k = agent_index(r.agents, id);
                    if i == k {
                        assert(agents[j] == r.agents[j]);
                    } else if j == k {
                        assert(agents[i] == r.agents[i]);
                    }
                } else {
                    if j == r.agents.len() {
                        assert(agents[i] == r.agents[i]);
                    }
                }
            }
            assert(seen_with(r.seen, id).no_duplicates()) by {
                if !r.seen.contains(id) {
                    assert forall|i: int, j: int| 0 <= i < j < r.seen.push(id).len() implies r.seen.push(id)[i] != r.seen.push(id)[j] by {
                        if j == r.seen.len() {
                            assert(r.seen.push(id)[i] == r.seen[i]);
                        }
                    }
                }
            }
        }
    } else if name == "SubagentStop"@ && !(name == "SessionStart"@ || name == "UserPromptSubmit"@ || name == "PreToolUse"@
        || name == "PermissionRequest"@ || name == "PostToolUse"@ || name == "PreCompact"@ || name == "PostCompact"@
        || name == "SubagentStart"@) {
        if let Some(id) = hook_text(e, "agent_id"@) {
            lemma_agent_index(r.agents, id);
            let agents = stop_agent(r.agents, id, opt_detail(hook_text(e, "last_assistant_message"@)));
            assert forall|i: int, j: int| 0 <= i < j < agents.len() implies agents[i].id != agents[j].id by {
                assert(agents[i].id == r.agents[i].id);
                assert(agents[j].id == r.agents[j].id);
            }
        }
    }
}

/// The work state follows the turn: a session start or a `Stop` makes Codex
/// ready, a prompt makes it think, a finished tool or compaction makes it
/// work, a compaction in progress shows compacting and a session end shows
/// ended. A `Stop` changes nothing in the reducer's memory.
pub proof fn lemma_work_follows_the_turn(s: SnapshotView, r: RuntimeView, e: Json, now: u64)
    ensures
        event_name(e) == "Stop"@ ==> hook_result(s, r, e, now).0.work == Some("ready"@) && hook_result(s, r, e, now).1 == r,
        event_name(e) == "SessionStart"@ ==> hook_result(s, r, e, now).0.work == Some("ready"@),
        event_name(e) == "UserPromptSubmit"@ ==> hook_result(s, r, e, now).0.work == Some("thinking"@),
        event_name(e) == "PostToolUse"@ ==> hook_result(s, r, e, now).0.work == Some("working"@),
        event_name(e) == "PreCompact"@ ==> hook_result(s, r, e, now).0.work == Some("compacting"@),
        event_name(e) == "PostCompact"@ ==> hook_result(s, r, e, now).0.work == Some("working"@),
        event_name(e) == "SessionEnd"@ ==> hook_result(s, r, e, now).0.work == Some("ended"@),
{
    reveal_strlit("SessionStart");
    reveal_strlit("UserPromptSubmit");
    reveal_strlit("PreToolUse");
    reveal_strlit("PermissionRequest");
    reveal_strlit("PostToolUse");
    reveal_strlit("PreCompact");
    reveal_strlit("PostCompact");
    reveal_strlit("SubagentStart");
    reveal_strlit("SubagentStop");
    reveal_strlit("Stop");
    reveal_strlit("SessionEnd");
    let name = event_name(e);
    if name == "Stop"@ {
        assert(name != "SessionStart"@ && name != "UserPromptSubmit"@ && name != "PreToolUse"@
            && name != "PermissionRequest"@ && name != "PostToolUse"@ && name != "PreCompact"@
            && name != "PostCompact"@ && name != "SubagentStart"@ && name != "SubagentStop"@) by {
            assert(name.len() == 4);
        }
    }
    if name == "PostCompact"@ {
        assert(name != "SessionStart"@ && name != "UserPromptSubmit"@ && name != "PreToolUse"@
            && name != "PermissionRequest"@ && name != "PostToolUse"@ && name != "PreCompact"@) by {
            assert(name[4] == 'C');
        }
    }
    if name == "PreCompact"@ {
        assert(name != "SessionStart"@ && name != "UserPromptSubmit"@ && name != "PreToolUse"@
            && name != "PermissionRequest"@ && name != "PostToolUse"@) by {
            assert(name.len() == 10 && name[3] == 'C');
        }
    }
    if name == "PostToolUse"@ {
        assert(name != "SessionStart"@ && name != "UserPromptSubmit"@ && name != "PreToolUse"@
            && name != "PermissionRequest"@) by {
            assert(name.len() == 11 && name[1] == 'o');
        }
    }
    if name == "UserPromptSubmit"@ {
        assert(name != "SessionStart"@) by { assert(name[0] == 'U'); }
    }
    if name == "SessionEnd"@ {
        assert(name != "SessionStart"@ && name != "UserPromptSubmit"@ && name != "PreToolUse"@
            && name != "PermissionRequest"@ && name != "PostToolUse"@ && name != "PreCompact"@
            && name != "PostCompact"@ && name != "SubagentStart"@ && name != "SubagentStop"@ && name != "Stop"@) by {
            assert(name.len() == 10 && name[7] == 'E');
        }
    }
}

} // verus!
