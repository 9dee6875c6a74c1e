use codexline::events::record_tool;
use codexline::state::ToolCount;
use codexline::events::{apply_event, compact_permission, compact_tool, RuntimeState};
use codexline::json::Json;
use codexline::state::StatusSnapshot;

fn obj(members: Vec<(&str, Json)>) -> Json {
    Json::Object(members.into_iter().map(|(k, v)| (k.to_string(), v)).collect())
}

fn text(s: &str) -> Json {
    Json::Str(s.to_string())
}

#[test]
fn hook_events_drive_tools_agents_and_plan() {
    let mut runtime = RuntimeState::default();
    let mut snapshot = StatusSnapshot::default();
    apply_event(
        &obj(vec![
            ("hook_event_name", text("PreToolUse")),
            ("tool_name", text("update_plan")),
            (
                "tool_input",
                obj(vec![(
                    "plan",
                    Json::Array(vec![obj(vec![("status", text("completed"))]), obj(vec![("status", text("in_progress"))])]),
                )]),
            ),
        ]),
        &mut runtime,
        &mut snapshot,
        0,
    );
    assert_eq!(snapshot.plan_completed, Some(1));
    assert_eq!(snapshot.plan_total, Some(2));

    apply_event(&obj(vec![("hook_event_name", text("PostToolUse")), ("tool_name", text("Bash"))]), &mut runtime, &mut snapshot, 0);
    assert_eq!(snapshot.tools[0].name, "exec");

    apply_event(
        &obj(vec![("hook_event_name", text("SubagentStart")), ("agent_id", text("agent-1")), ("agent_type", text("explore"))]),
        &mut runtime,
        &mut snapshot,
        0,
    );
    assert_eq!(snapshot.agents_active, Some(1));
    assert_eq!(snapshot.agents_total, Some(1));
}

#[test]
fn hook_refreshes_runtime_settings_and_invalidates_unobserved_context() {
    let mut runtime = RuntimeState::default();
    let mut snapshot = StatusSnapshot {
        model: Some("old-model".into()),
        context_percent: Some(0),
        context_used: Some(0),
        ..StatusSnapshot::default()
    };
    apply_event(
        &obj(vec![
            ("hook_event_name", text("UserPromptSubmit")),
            ("model", text("new-model")),
            ("reasoning_effort", text("high")),
            ("cwd", text("/tmp/project")),
            ("permission_mode", text("autoReview")),
        ]),
        &mut runtime,
        &mut snapshot,
        0,
    );
    assert_eq!(snapshot.model.as_deref(), Some("new-model"));
    assert!(snapshot.model_live);
    assert_eq!(snapshot.reasoning.as_deref(), Some("high"));
    assert_eq!(snapshot.cwd.as_deref(), Some("/tmp/project"));
    assert_eq!(snapshot.permission_mode.as_deref(), Some("approve for me"));
    assert!(snapshot.settings_live);
    assert_eq!(snapshot.context_percent, None);
}

#[test]
fn recent_tools_move_to_the_front_and_keep_four() {
    let mut runtime = RuntimeState::default();
    let mut snapshot = StatusSnapshot::default();
    for tool in ["a", "b", "c", "d", "e", "b"] {
        apply_event(&obj(vec![("hook_event_name", text("PostToolUse")), ("tool_name", text(tool))]), &mut runtime, &mut snapshot, 0);
    }
    let names: Vec<&str> = snapshot.tools.iter().map(|t| t.name.as_str()).collect();
    assert_eq!(names, ["b", "e", "d", "c"]);
    assert_eq!(snapshot.tools[0].count, 2);
    assert_eq!(snapshot.work.as_deref(), Some("working"));
}

#[test]
fn agents_stop_compactions_count_and_names_are_compacted() {
    let mut runtime = RuntimeState::default();
    let mut snapshot = StatusSnapshot::default();
    apply_event(&obj(vec![("hook_event_name", text("SubagentStart")), ("agent_id", text("z")), ("agent_type", text("worker"))]), &mut runtime, &mut snapshot, 3);
    apply_event(&obj(vec![("hook_event_name", text("SubagentStart")), ("agent_id", text("y")), ("agent_type", text("explore"))]), &mut runtime, &mut snapshot, 4);
    assert_eq!(snapshot.agents[0].kind, "explore");
    assert_eq!(snapshot.agents[1].started, 3);
    apply_event(
        &obj(vec![("hook_event_name", text("SubagentStop")), ("agent_id", text("z")), ("last_assistant_message", text("done\u{7}"))]),
        &mut runtime,
        &mut snapshot,
        5,
    );
    assert_eq!(snapshot.agents_active, Some(1));
    assert_eq!(snapshot.agents_total, Some(2));
    assert_eq!(snapshot.agents[1].message.as_deref(), Some("done"));
    apply_event(&obj(vec![("hook_event_name", text("PostCompact"))]), &mut runtime, &mut snapshot, 5);
    apply_event(&obj(vec![("hook_event_name", text("PostCompact"))]), &mut runtime, &mut snapshot, 5);
    assert_eq!(snapshot.compactions, Some(2));
    apply_event(&obj(vec![("hook_event_name", text("PermissionRequest")), ("tool_name", text("mcp__server__write_file"))]), &mut runtime, &mut snapshot, 5);
    assert_eq!(snapshot.work.as_deref(), Some("approval · write_file"));
    apply_event(&obj(vec![("hook_event_name", text("SessionEnd"))]), &mut runtime, &mut snapshot, 5);
    assert_eq!(snapshot.work.as_deref(), Some("ended"));
    assert!(snapshot.events_active);
    assert_eq!(compact_tool("apply_patch"), "patch");
    assert_eq!(compact_tool("a___b"), "b");
    assert_eq!(compact_tool("abcdefghijklmnopqrstuvwxyz"), "abcdefghijklmnopqrst");
    assert_eq!(compact_permission("dontAsk"), "don't ask");
    assert_eq!(compact_permission("plan"), "plan");
}

#[test]
fn recording_a_tool_moves_it_first_and_keeps_three_others_in_order() {
    let mut runtime = RuntimeState::new();
    for (name, count) in [("exec", 2u16), ("patch", 1), ("read", 4), ("grep", 1)] {
        runtime.tools.push(ToolCount { name: name.into(), count });
    }
    record_tool("read", &mut runtime);
    let names: Vec<(&str, u16)> = runtime.tools.iter().map(|t| (t.name.as_str(), t.count)).collect();
    assert_eq!(names, vec![("read", 5), ("exec", 2), ("patch", 1), ("grep", 1)]);
    record_tool("new", &mut runtime);
    let names: Vec<(&str, u16)> = runtime.tools.iter().map(|t| (t.name.as_str(), t.count)).collect();
    assert_eq!(names, vec![("new", 1), ("read", 5), ("exec", 2), ("patch", 1)]);
}
