//! The app-server protocol reducer: responses and notifications of the official
//! `codex app-server` update the status snapshot (rate limits, token usage and
//! subagent threads).

use crate::events::{active_count, cap16, detail_text, either, find_agent, sanitize_detail};
use crate::json::{array_of, field, field_of, is_present, members_of, text_field, text_of, u64_field, u64_of, Json};
use crate::state::{agents_view, AgentActivity, AgentView, RateLimitWindow, SnapshotView, StatusSnapshot};
use crate::text::{owned, same_text};
use vstd::prelude::*;

verus! {

// ---------------------------------------------------------------- rate limits and tokens

/// One rate-limit window, when the value has a `usedPercent`.
pub open spec fn window_of(v: Option<Json>) -> Option<RateLimitWindow> {
    match u64_of(field_of(v, "usedPercent"@)) {
        Some(p) => Some(RateLimitWindow {
            used_percent: if p > 100 { 100u8 } else { p as u8 },
            window_minutes: u64_of(field_of(v, "windowDurationMins"@)),
            resets_at: u64_of(field_of(v, "resetsAt"@)),
        }),
        None => None,
    }
}

/// The windows present among `primary` and `secondary`, in that order.
pub open spec fn windows_of(rate: Json) -> Seq<RateLimitWindow> {
    let p = match field(rate, "primary"@) {
        Some(x) => window_of(Some(x)),
        None => None,
    };
    let q = match field(rate, "secondary"@) {
        Some(x) => window_of(Some(x)),
        None => None,
    };
    let first: Seq<RateLimitWindow> = match p {
        Some(w) => seq![w],
        None => Seq::empty(),
    };
    match q {
        Some(w) => first.push(w),
        None => first,
    }
}

/// A rate-limit payload: the windows replace the old ones when there are any,
/// and the reset credits are taken when present.
pub open spec fn with_rate_limits(s: SnapshotView, v: Json) -> SnapshotView {
    let rate = match field(v, "rateLimits"@) {
        Some(r) => r,
        None => v,
    };
    let windows = windows_of(rate);
    let credits = u64_of(field_of(field(v, "rateLimitResetCredits"@), "availableCount"@));
    SnapshotView {
        rate_limits: if windows.len() > 0 { windows } else { s.rate_limits },
        reset_credits: match credits {
            Some(c) => Some(if c > u16::MAX { u16::MAX } else { c as u16 }),
            None => s.reset_credits,
        },
        ..s
    }
}

/// Percent of the window used, rounded up, computed with saturating `u64` steps, at most 100.
pub open spec fn used_percent(used: u64, window: u64) -> u8 {
    let scaled: int = if used * 100 > u64::MAX { u64::MAX as int } else { used * 100 };
    let padded: int = if scaled + (window - 1) > u64::MAX { u64::MAX as int } else { scaled + (window - 1) };
    let q = padded / (window as int);
    if q > 100 { 100u8 } else { q as u8 }
}

/// A token-usage payload: the window and the last turn's token counts.
pub open spec fn with_token_usage(s: SnapshotView, v: Json) -> SnapshotView {
    let window = u64_of(field(v, "modelContextWindow"@));
    let last = match field(v, "last"@) {
        Some(l) => l,
        None => v,
    };
    let input = u64_of(field(last, "inputTokens"@));
    SnapshotView {
        context_window: window,
        input_tokens: input,
        context_used: input,
        cached_input_tokens: u64_of(field(last, "cachedInputTokens"@)),
        output_tokens: u64_of(field(last, "outputTokens"@)),
        context_percent: match (input, window) {
            (Some(used), Some(w)) => if w > 0 { Some(used_percent(used, w)) } else { None },
            _ => None,
        },
        ..s
    }
}

fn parse_window(v: &Json) -> (r: Option<RateLimitWindow>)
    ensures
        r == window_of(Some(*v)),
{
    match u64_field(v, "usedPercent") {
        Some(p) => Some(RateLimitWindow {
            used_percent: if p > 100 { 100 } else { p as u8 },
            window_minutes: u64_field(v, "windowDurationMins"),
            resets_at: u64_field(v, "resetsAt"),
        }),
        None => None,
    }
}

/// Applies a rate-limit payload (a `rateLimits/read` result or an update notification).
pub fn apply_rate_limits(value: &Json, snapshot: &mut StatusSnapshot)
    ensures
        final(snapshot)@ == with_rate_limits(old(snapshot)@, *value),
{
    let rate = match value.get("rateLimits") {
        Some(r) => r,
        None => value,
    };
    let mut windows: Vec<RateLimitWindow> = Vec::new();
    if let Some(p) = rate.get("primary") {
        if let Some(w) = parse_window(p) {
            windows.push(w);
        }
    }
    if let Some(q) = rate.get("secondary") {
        if let Some(w) = parse_window(q) {
            windows.push(w);
        }
    }
    assert(windows@ =~= windows_of(*rate));
    if windows.len() > 0 {
        snapshot.rate_limits = windows;
    }
    let credits = match value.get("rateLimitResetCredits") {
        Some(c) => u64_field(c, "availableCount"),
        None => None,
    };
    if let Some(c) = credits {
        snapshot.reset_credits = Some(if c > 65535 { 65535 } else { c as u16 });
    }
    assert(snapshot@ =~= with_rate_limits(old(snapshot)@, *value));
}

fn percent_used(used: u64, window: u64) -> (r: u8)
    requires
        window > 0,
    ensures
        r == used_percent(used, window),
{
    let scaled: u64 = if used > 184467440737095516 { 18446744073709551615 } else { used * 100 };
    let padded: u64 = if scaled > 18446744073709551615 - (window - 1) { 18446744073709551615 } else { scaled + (window - 1) };
    let q = padded / window;
    if q > 100 { 100 } else { q as u8 }
}

/// Applies a `thread/tokenUsage/updated` payload.
pub fn apply_token_usage(value: &Json, snapshot: &mut StatusSnapshot)
    ensures
        final(snapshot)@ == with_token_usage(old(snapshot)@, *value),
{
    let window = u64_field(value, "modelContextWindow");
    let last = match value.get("last") {
        Some(l) => l,
        None => value,
    };
    let input = u64_field(last, "inputTokens");
    snapshot.context_window = window;
    snapshot.input_tokens = input;
    snapshot.context_used = input;
    snapshot.cached_input_tokens = u64_field(last, "cachedInputTokens");
    snapshot.output_tokens = u64_field(last, "outputTokens");
    snapshot.context_percent = match (input, window) {
        (Some(used), Some(w)) => if w > 0 { Some(percent_used(used, w)) } else { None },
        _ => None,
    };
    assert(snapshot@ =~= with_token_usage(old(snapshot)@, *value));
}

// ---------------------------------------------------------------- subagent threads

/// The characters of an optional string slice.
pub open spec fn opt_str(o: Option<&str>) -> Option<Seq<char>> {
    match o {
        Some(t) => Some(t@),
        None => None,
    }
}

/// The agent list after `id` was seen with `kind` and perhaps a prompt: a known
/// agent becomes active (a generic kind and the prompt are refreshed); an
/// unknown one is added as active.
pub open spec fn upserted(agents: Seq<AgentView>, id: Seq<char>, kind: Seq<char>, prompt: Option<Seq<char>>, now: u64) -> Seq<AgentView> {
    let i = crate::events::agent_index(agents, id);
    if i >= 0 {
        let a = agents[i];
        agents.update(i, AgentView {
            kind: if a.kind == "agent"@ && kind != "agent"@ { detail_text(kind) } else { a.kind },
            prompt: match prompt {
                Some(p) => Some(detail_text(p)),
                None => a.prompt,
            },
            active: true,
            ..a
        })
    } else {
        agents.push(AgentView {
            id: id,
            kind: detail_text(kind),
            started: now,
            prompt: crate::events::opt_detail(prompt),
            message: None,
            active: true,
        })
    }
}

/// The agent counts recomputed from the list.
pub open spec fn counted(s: SnapshotView) -> SnapshotView {
    SnapshotView {
        agents_active: Some(cap16(active_count(s.agents))),
        agents_total: Some(cap16(s.agents.len())),
        ..s
    }
}

pub open spec fn with_upsert(s: SnapshotView, id: Seq<char>, kind: Seq<char>, prompt: Option<Seq<char>>, now: u64) -> SnapshotView {
    counted(SnapshotView { agents: upserted(s.agents, id, kind, prompt, now), ..s })
}

/// Thread states that count as running.
pub open spec fn is_running(status: Seq<char>) -> bool {
    status == "pendingInit"@ || status == "running"@ || status == "active"@
}

/// The snapshot after the agent `id` reported `status` (and perhaps a message);
/// an unknown agent is added first.
pub open spec fn with_status(s: SnapshotView, id: Seq<char>, status: Seq<char>, message: Option<Seq<char>>, now: u64) -> SnapshotView {
    let s1 = if crate::events::agent_index(s.agents, id) < 0 { with_upsert(s, id, "agent"@, None, now) } else { s };
    let i = crate::events::agent_index(s1.agents, id);
    let agents = if i >= 0 {
        s1.agents.update(i, AgentView {
            active: is_running(status),
            message: match message {
                Some(m) => Some(detail_text(m)),
                None => s1.agents[i].message,
            },
            ..s1.agents[i]
        })
    } else {
        s1.agents
    };
    counted(SnapshotView { agents: agents, ..s1 })
}

/// Each string among `ids`, in order, is seen as an agent with `prompt`.
pub open spec fn with_receivers(s: SnapshotView, ids: Seq<Json>, prompt: Option<Seq<char>>, now: u64) -> SnapshotView
    decreases ids.len(),
{
    if ids.len() == 0 {
        s
    } else {
        let s1 = with_receivers(s, ids.drop_last(), prompt, now);
        match text_of(Some(ids.last())) {
            Some(id) => with_upsert(s1, id, "agent"@, prompt, now),
            None => s1,
        }
    }
}

/// Each member of `agentsStates`, in order, reports its status and message.
pub open spec fn with_states(s: SnapshotView, entries: Seq<(String, Json)>, now: u64) -> SnapshotView
    decreases entries.len(),
{
    if entries.len() == 0 {
        s
    } else {
        let s1 = with_states(s, entries.drop_last(), now);
        let state = entries.last().1;
        with_status(
            s1,
            entries.last().0@,
            match text_of(field(state, "status"@)) {
                Some(x) => x,
                None => "running"@,
            },
            text_of(field(state, "message"@)),
            now,
        )
    }
}

/// An agent tool call: its receivers are seen with its prompt, then each
/// reported state is applied.
pub open spec fn with_tool_call(s: SnapshotView, item: Json, now: u64) -> SnapshotView {
    let prompt = text_of(field(item, "prompt"@));
    let s1 = match array_of(field(item, "receiverThreadIds"@)) {
        Some(ids) => with_receivers(s, ids, prompt, now),
        None => s,
    };
    match members_of(field(item, "agentsStates"@)) {
        Some(entries) => with_states(s1, entries, now),
        None => s1,
    }
}

/// An agent message becomes the latest message of its thread's agent.
pub open spec fn with_agent_message(s: SnapshotView, item: Json, thread: Option<Seq<char>>) -> SnapshotView {
    match (thread, text_of(field(item, "text"@))) {
        (Some(id), Some(text)) => {
            let i = crate::events::agent_index(s.agents, id);
            if i >= 0 {
                SnapshotView {
                    agents: s.agents.update(i, AgentView { message: Some(detail_text(text)), ..s.agents[i] }),
                    ..s
                }
            } else {
                s
            }
        },
        _ => s,
    }
}

/// A thread item, then the agent counts.
pub open spec fn with_agent_item(s: SnapshotView, item: Json, thread: Option<Seq<char>>, now: u64) -> SnapshotView {
    let kind = text_of(field(item, "type"@));
    counted(
        if kind == Some("collabAgentToolCall"@) {
            with_tool_call(s, item, now)
        } else if kind == Some("agentMessage"@) {
            with_agent_message(s, item, thread)
        } else {
            s
        },
    )
}

/// A started thread with a parent is a subagent.
pub open spec fn thread_started(s: SnapshotView, t: Json, now: u64) -> SnapshotView {
    if is_present(field(t, "parentThreadId"@)) {
        match text_of(field(t, "id"@)) {
            Some(id) => {
                let kind_value = if field(t, "agentRole"@) is Some { field(t, "agentRole"@) } else { field(t, "agentNickname"@) };
                let kind = match text_of(kind_value) {
                    Some(k) => k,
                    None => "agent"@,
                };
                with_upsert(s, id, kind, None, now)
            },
            None => s,
        }
    } else {
        s
    }
}

/// The snapshot after one app-server message, received at Unix time `now`.
pub open spec fn message_result(s: SnapshotView, m: Json, now: u64) -> SnapshotView {
    let id = u64_of(field(m, "id"@));
    let s1 = if id == Some(1u64) && field(m, "result"@) is Some { SnapshotView { app_server_active: true, ..s } } else { s };
    if id == Some(2u64) {
        match field(m, "result"@) {
            Some(r) => with_rate_limits(s1, r),
            None => s1,
        }
    } else {
        notification_result(s1, m, now)
    }
}

/// What a notification's `method` does.
pub open spec fn notification_result(s1: SnapshotView, m: Json, now: u64) -> SnapshotView {
    let method = text_of(field(m, "method"@));
    let params = field(m, "params"@);
    if method == Some("account/rateLimits/updated"@) {
        match params {
            Some(p) => with_rate_limits(s1, p),
            None => s1,
        }
    } else if method == Some("thread/tokenUsage/updated"@) {
        match field_of(params, "tokenUsage"@) {
            Some(u) => with_token_usage(s1, u),
            None => s1,
        }
    } else if method == Some("thread/started"@) {
        match field_of(params, "thread"@) {
            Some(t) => thread_started(s1, t, now),
            None => s1,
        }
    } else if method == Some("thread/status/changed"@) {
        match (text_of(field_of(params, "threadId"@)), text_of(field_of(field_of(params, "status"@), "type"@))) {
            (Some(id), Some(st)) => with_status(s1, id, st, None, now),
            _ => s1,
        }
    } else if method == Some("item/started"@) || method == Some("item/completed"@) {
        match field_of(params, "item"@) {
            Some(item) => with_agent_item(s1, item, text_of(field_of(params, "threadId"@)), now),
            None => s1,
        }
    } else {
        s1
    }
}

fn count_active(agents: &Vec<AgentActivity>) -> (r: usize)
    ensures
        r == active_count(agents_view(agents@)),
{
    let ghost view = agents_view(agents@);
    let mut count: usize = 0;
    let mut i: usize = 0;
    while i < agents.len()
        invariant
            view == agents_view(agents@),
            i <= agents@.len(),
            count <= i,
            count == active_count(view.take(i as int)),
        decreases agents@.len() - i,
    {
        assert(view.take(i as int + 1).drop_last() =~= view.take(i as int));
        if agents[i].active {
            count = count + 1;
        }
        i = i + 1;
    }
    assert(view.take(i as int) =~= view);
    count
}

/// Recomputes the agent counts from the list.
pub fn sync_agent_counts(snapshot: &mut StatusSnapshot)
    ensures
        final(snapshot)@ == counted(old(snapshot)@),
{
    let active = count_active(&snapshot.agents);
    let total = snapshot.agents.len();
    snapshot.agents_active = Some(if active > 65535 { 65535 } else { active as u16 });
    snapshot.agents_total = Some(if total > 65535 { 65535 } else { total as u16 });
    assert(snapshot@ =~= counted(old(snapshot)@));
}

fn opt_detail_text(v: Option<&str>) -> (r: Option<String>)
    ensures
        crate::segments::opt_view(r) == crate::events::opt_detail(opt_str(v)),
{
    match v {
        Some(t) => Some(sanitize_detail(t)),
        None => None,
    }
}

/// Records that the agent `id` was seen with `kind` and perhaps a prompt.
pub fn upsert_agent(snapshot: &mut StatusSnapshot, id: &str, kind: &str, prompt: Option<&str>, now: u64)
    ensures
        final(snapshot)@ == with_upsert(old(snapshot)@, id@, kind@, opt_str(prompt), now),
{
    let ghost before = agents_view(snapshot.agents@);
    match find_agent(&snapshot.agents, id) {
        Some(i) => {
            let mut agent = snapshot.agents[i].duplicate();
            if same_text(agent.kind.as_str(), "agent") && !same_text(kind, "agent") {
                agent.kind = sanitize_detail(kind);
            }
            if let Some(p) = prompt {
                agent.prompt = Some(sanitize_detail(p));
            }
            agent.active = true;
            snapshot.agents.set(i, agent);
        },
        None => {
            let agent = AgentActivity {
                id: owned(id),
                kind: sanitize_detail(kind),
                started: now,
                prompt: opt_detail_text(prompt),
                message: None,
                active: true,
            };
            snapshot.agents.push(agent);
        },
    }
    assert(agents_view(snapshot.agents@) =~= upserted(before, id@, kind@, opt_str(prompt), now));
    sync_agent_counts(snapshot);
    assert(snapshot@ =~= with_upsert(old(snapshot)@, id@, kind@, opt_str(prompt), now));
}

/// Records a status (and perhaps a message) of the agent `id`.
pub fn set_agent_status(snapshot: &mut StatusSnapshot, id: &str, status: &str, message: Option<&str>, now: u64)
    ensures
        final(snapshot)@ == with_status(old(snapshot)@, id@, status@, opt_str(message), now),
{
    if find_agent(&snapshot.agents, id).is_none() {
        upsert_agent(snapshot, id, "agent", None, now);
    }
    let ghost s1 = snapshot@;
    assert(s1 == (if crate::events::agent_index(old(snapshot)@.agents, id@) < 0 {
        with_upsert(old(snapshot)@, id@, "agent"@, None, now)
    } else {
        old(snapshot)@
    }));
    let ghost j = crate::events::agent_index(s1.agents, id@);
    let ghost expected = if j >= 0 {
        s1.agents.update(j, AgentView {
            active: is_running(status@),
            message: match opt_str(message) {
                Some(m) => Some(detail_text(m)),
                None => s1.agents[j].message,
            },
            ..s1.agents[j]
        })
    } else {
        s1.agents
    };
    if let Some(i) = find_agent(&snapshot.agents, id) {
        let mut agent = snapshot.agents[i].duplicate();
        agent.active = same_text(status, "pendingInit") || same_text(status, "running") || same_text(status, "active");
        if let Some(m) = message {
            agent.message = Some(sanitize_detail(m));
        }
        snapshot.agents.set(i, agent);
        assert(agents_view(snapshot.agents@) =~= expected);
    }
    assert(snapshot@ =~= (SnapshotView { agents: expected, ..s1 }));
    sync_agent_counts(snapshot);
    assert(snapshot@ =~= with_status(old(snapshot)@, id@, status@, opt_str(message), now));
}

fn apply_receivers(ids: &Vec<Json>, prompt: Option<&str>, snapshot: &mut StatusSnapshot, now: u64)
    ensures
        final(snapshot)@ == with_receivers(old(snapshot)@, ids@, opt_str(prompt), now),
{
    let mut i: usize = 0;
    while i < ids.len()
        invariant
            i <= ids@.len(),
            snapshot@ == with_receivers(old(snapshot)@, ids@.take(i as int), opt_str(prompt), now),
        decreases ids@.len() - i,
    {
        assert(ids@.take(i as int + 1).drop_last() =~= ids@.take(i as int));
        assert(ids@.take(i as int + 1).last() == ids@[i as int]);
        if let Some(id) = ids[i].as_text() {
            upsert_agent(snapshot, id, "agent", prompt, now);
        }
        i = i + 1;
    }
    assert(ids@.take(i as int) =~= ids@);
}

fn apply_states(entries: &Vec<(String, Json)>, snapshot: &mut StatusSnapshot, now: u64)
    ensures
        final(snapshot)@ == with_states(old(snapshot)@, entries@, now),
{
    let mut i: usize = 0;
    while i < entries.len()
        invariant
            i <= entries@.len(),
            snapshot@ == with_states(old(snapshot)@, entries@.take(i as int), now),
        decreases entries@.len() - i,
    {
        assert(entries@.take(i as int + 1).drop_last() =~= entries@.take(i as int));
        assert(entries@.take(i as int + 1).last() == entries@[i as int]);
        let state = &entries[i].1;
        let status: &str = match text_field(state, "status") {
            Some(x) => x,
            None => "running",
        };
        set_agent_status(snapshot, entries[i].0.as_str(), status, text_field(state, "message"), now);
        i = i + 1;
    }
    assert(entries@.take(i as int) =~= entries@);
}

fn apply_tool_call(item: &Json, snapshot: &mut StatusSnapshot, now: u64)
    ensures
        final(snapshot)@ == with_tool_call(old(snapshot)@, *item, now),
{
    let prompt = text_field(item, "prompt");
    let receivers = match item.get("receiverThreadIds") {
        Some(v) => v.as_array(),
        None => None,
    };
    if let Some(ids) = receivers {
        apply_receivers(ids, prompt, snapshot, now);
    }
    let states = match item.get("agentsStates") {
        Some(v) => v.as_members(),
        None => None,
    };
    if let Some(entries) = states {
        apply_states(entries, snapshot, now);
    }
}

fn apply_agent_message(item: &Json, thread_id: Option<&str>, snapshot: &mut StatusSnapshot)
    ensures
        final(snapshot)@ == with_agent_message(old(snapshot)@, *item, opt_str(thread_id)),
{
    if let Some(id) = thread_id {
        if let Some(text) = text_field(item, "text") {
            if let Some(i) = find_agent(&snapshot.agents, id) {
                let mut agent = snapshot.agents[i].duplicate();
                agent.message = Some(sanitize_detail(text));
                snapshot.agents.set(i, agent);
                assert(snapshot@ =~= (SnapshotView {
                    agents: old(snapshot)@.agents.update(i as int, AgentView {
                        message: Some(detail_text(text@)),
                        ..old(snapshot)@.agents[i as int]
                    }),
                    ..old(snapshot)@
                }));
            }
        }
    }
}

/// Applies one thread item of the agent's own thread `thread_id`.
pub fn apply_agent_item(item: &Json, thread_id: Option<&str>, snapshot: &mut StatusSnapshot, now: u64)
    ensures
        final(snapshot)@ == with_agent_item(old(snapshot)@, *item, opt_str(thread_id), now),
{
    let kind = text_field(item, "type");
    let is_call = match kind {
        Some(k) => same_text(k, "collabAgentToolCall"),
        None => false,
    };
    let is_message = match kind {
        Some(k) => same_text(k, "agentMessage"),
        None => false,
    };
    if is_call {
        apply_tool_call(item, snapshot, now);
    } else if is_message {
        apply_agent_message(item, thread_id, snapshot);
    }
    sync_agent_counts(snapshot);
}

fn apply_thread_started(thread: &Json, snapshot: &mut StatusSnapshot, now: u64)
    ensures
        final(snapshot)@ == thread_started(old(snapshot)@, *thread, now),
{
    let has_parent = match thread.get("parentThreadId") {
        Some(p) => !p.is_null(),
        None => false,
    };
    if has_parent {
        if let Some(id) = text_field(thread, "id") {
            let kind_value = match thread.get("agentRole") {
                Some(v) => Some(v),
                None => thread.get("agentNickname"),
            };
            let kind: &str = match kind_value {
                Some(v) => match v.as_text() {
                    Some(k) => k,
                    None => "agent",
                },
                None => "agent",
            };
            upsert_agent(snapshot, id, kind, None, now);
        }
    }
}

#[verifier::rlimit(30)]
fn apply_notification(message: &Json, snapshot: &mut StatusSnapshot, now: u64)
    ensures
        final(snapshot)@ == notification_result(old(snapshot)@, *message, now),
{
    let method = text_field(message, "method");
    let params = message.get("params");
    let is = |name: &str| -> (r: bool)
        ensures
            r == (opt_str(method) == Some(name@)),
    {
        match method {
            Some(m) => same_text(m, name),
            None => false,
        }
    };
    if is("account/rateLimits/updated") {
        if let Some(p) = params {
            apply_rate_limits(p, snapshot);
        }
    } else if is("thread/tokenUsage/updated") {
        let usage = match params {
            Some(p) => p.get("tokenUsage"),
            None => None,
        };
        if let Some(u) = usage {
            apply_token_usage(u, snapshot);
        }
    } else if is("thread/started") {
        let thread = match params {
            Some(p) => p.get("thread"),
            None => None,
        };
        if let Some(t) = thread {
            apply_thread_started(t, snapshot, now);
        }
    } else if is("thread/status/changed") {
        let id = match params {
            Some(p) => text_field(p, "threadId"),
            None => None,
        };
        let status_value = match params {
            Some(p) => p.get("status"),
            None => None,
        };
        let status = match status_value {
            Some(v) => text_field(v, "type"),
            None => None,
        };
        if let (Some(id), Some(st)) = (id, status) {
            set_agent_status(snapshot, id, st, None, now);
        }
    } else if is("item/started") || is("item/completed") {
        let item = match params {
            Some(p) => p.get("item"),
            None => None,
        };
        let thread_id = match params {
            Some(p) => text_field(p, "threadId"),
            None => None,
        };
        if let Some(it) = item {
            apply_agent_item(it, thread_id, snapshot, now);
        }
    }
}

/// Applies one app-server message received at Unix time `now`.
pub fn apply_message(message: &Json, snapshot: &mut StatusSnapshot, now: u64)
    ensures
        final(snapshot)@ == message_result(old(snapshot)@, *message, now),
{
    let id = u64_field(message, "id");
    let result = message.get("result");
    if id == Some(1u64) && result.is_some() {
        snapshot.app_server_active = true;
        assert(snapshot@ =~= (SnapshotView { app_server_active: true, ..old(snapshot)@ }));
    }
    if id == Some(2u64) {
        if let Some(r) = result {
            apply_rate_limits(r, snapshot);
        }
        return;
    }
    apply_notification(message, snapshot, now);
}

/// Applies a message read from the app-server; `response_method` is the method
/// of the request that it answers, when it is a response. A rate-limit
/// response carries its payload under `result`.
pub fn observe_server_value(value: &Json, response_method: Option<&str>, snapshot: &mut StatusSnapshot, now: u64)
    ensures
        opt_str(response_method) == Some("account/rateLimits/read"@) ==> final(snapshot)@ == (match field(*value, "result"@) {
            Some(r) => with_rate_limits(old(snapshot)@, r),
            None => old(snapshot)@,
        }),
        opt_str(response_method) != Some("account/rateLimits/read"@) ==> final(snapshot)@ == message_result(old(snapshot)@, *value, now),
{
    let is_rate_limits = match response_method {
        Some(m) => same_text(m, "account/rateLimits/read"),
        None => false,
    };
    if is_rate_limits {
        if let Some(r) = value.get("result") {
            apply_rate_limits(r, snapshot);
        }
    } else {
        apply_message(value, snapshot, now);
    }
}

/// No two agents share an id.
pub open spec fn distinct_ids(agents: Seq<AgentView>) -> bool {
    forall|i: int, j: int| 0 <= i < j < agents.len() ==> #[trigger] agents[i].id != #[trigger] agents[j].id
}

/// A status report keeps one entry per agent id: the reporting agent (added
/// with kind `agent` when unknown) is active exactly for a running status and
/// takes the message, cleaned and cut to 160 characters; every other agent
/// keeps its entry and place; the counts are recomputed, capped at `u16::MAX`.
pub proof fn lemma_status_updates_one_agent(s: SnapshotView, id: Seq<char>, status: Seq<char>, message: Option<Seq<char>>, now: u64)
    requires
        distinct_ids(s.agents),
    ensures
        ({
            let r = with_status(s, id, status, message, now);
            &&& distinct_ids(r.agents)
            &&& exists|k: int| 0 <= k < r.agents.len() && #[trigger] r.agents[k].id == id
                && r.agents[k].active == is_running(status)
                && (message matches Some(m) ==> r.agents[k].message == Some(detail_text(m)))
                && forall|j: int| 0 <= j < r.agents.len() && j != k ==> #[trigger] r.agents[j].id != id
            &&& r.agents.len() == s.agents.len() || (r.agents.len() == s.agents.len() + 1
                && r.agents[s.agents.len() as int].kind == detail_text("agent"@))
            &&& forall|j: int| 0 <= j < s.agents.len() && s.agents[j].id != id ==> #[trigger] r.agents[j] == s.agents[j]
            &&& r.agents_active == Some(cap16(active_count(r.agents)))
            &&& r.agents_total == Some(cap16(r.agents.len()))
        }),
{
    crate::events::lemma_agent_index(s.agents, id);
    let s1 = if crate::events::agent_index(s.agents, id) < 0 { with_upsert(s, id, "agent"@, None, now) } else { s };
    if crate::events::agent_index(s.agents, id) < 0 {
        assert(s1.agents == s.agents.push(AgentView {
            id: id,
            kind: detail_text("agent"@),
            started: now,
            prompt: crate::events::opt_detail(None),
            message: None,
            active: true,
        }));
    }
    assert(distinct_ids(s1.agents)) by {
        assert forall|i: int, j: int| 0 <= i < j < s1.agents.len() implies #[trigger] s1.agents[i].id != #[trigger] s1.agents[j].id by {
            if j == s.agents.len() {
                assert(s1.agents[i] == s.agents[i]);
            } else {
                assert(s1.agents[i] == s.agents[i] && s1.agents[j] == s.agents[j]);
            }
        }
    }
    assert forall|j: int| 0 <= j < s.agents.len() implies #[trigger] s1.agents[j] == s.agents[j] by {}
    crate::events::lemma_agent_index(s1.agents, id);
    let i = crate::events::agent_index(s1.agents, id);
    if crate::events::agent_index(s.agents, id) < 0 {
        assert(s1.agents[s.agents.len() as int].id == id);
    } else {
        assert(s1.agents[crate::events::agent_index(s.agents, id)].id == id);
    }
    assert(0 <= i < s1.agents.len() && s1.agents[i].id == id);
    let r = with_status(s, id, status, message, now);
    assert(r.agents[i].id == id);
    assert forall|j: int| 0 <= j < r.agents.len() && j != i implies #[trigger] r.agents[j].id != id by {
        assert(r.agents[j] == s1.agents[j]);
        if j < i { assert(s1.agents[j].id != s1.agents[i].id); } else { assert(s1.agents[i].id != s1.agents[j].id); }
    }
    assert forall|a: int, b: int| 0 <= a < b < r.agents.len() implies #[trigger] r.agents[a].id != #[trigger] r.agents[b].id by {
        assert(r.agents[a].id == s1.agents[a].id && r.agents[b].id == s1.agents[b].id);
    }
    assert forall|j: int| 0 <= j < s.agents.len() && s.agents[j].id != id implies #[trigger] r.agents[j] == s.agents[j] by {
        assert(j != i);
    }
}

/// A rate-limit window keeps the payload's `usedPercent` as the used share,
/// capped at 100 (the HUD shows `100 - used` as what is left): for every
/// window object whose `usedPercent` is the number `p`, the stored window has
/// `used_percent == min(p, 100)`. The same holds through a whole
/// `account/rateLimits/read` response (`id` 2): its primary window becomes the
/// first stored window with that used share.
pub proof fn lemma_used_percent_is_kept(s: SnapshotView, m: Json, now: u64, w: Json, p: u64)
    ensures
        u64_of(field(w, "usedPercent"@)) == Some(p) ==> window_of(Some(w)) is Some
            && window_of(Some(w)).unwrap().used_percent == (if p > 100 { 100 } else { p }),
        ({
            let r = field(m, "result"@);
            let rate = match r { Some(x) => match field(x, "rateLimits"@) { Some(y) => y, None => x }, None => Json::Null };
            u64_of(field(m, "id"@)) == Some(2u64) && r is Some && field(rate, "primary"@) == Some(w)
                && u64_of(field(w, "usedPercent"@)) == Some(p)
                ==> message_result(s, m, now).rate_limits.len() >= 1
                    && message_result(s, m, now).rate_limits[0].used_percent == (if p > 100 { 100 } else { p })
        }),
{
    if u64_of(field(m, "id"@)) == Some(2u64) && field(m, "result"@) is Some {
        let r = field(m, "result"@).unwrap();
        let rate = match field(r, "rateLimits"@) { Some(y) => y, None => r };
        if field(rate, "primary"@) == Some(w) && u64_of(field(w, "usedPercent"@)) == Some(p) {
            let ws = windows_of(rate);
            assert(ws.len() >= 1 && ws[0] == window_of(Some(w)).unwrap());
        }
    }
}

} // verus!
