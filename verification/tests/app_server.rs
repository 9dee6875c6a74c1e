use codexline::app_server::set_agent_status;
use codexline::state::AgentActivity;
use codexline::app_server::{apply_message, observe_server_value};
use codexline::json::Json;
use codexline::state::StatusSnapshot;

fn obj(members: Vec<(&str, Json)>) -> Json {
    Json::Object(members.into_iter().map(|(k, v)| (k.to_string(), v)).collect())
}

fn text(s: &str) -> Json {
    Json::Str(s.to_string())
}

#[test]
fn parses_rate_limits_and_token_usage_without_requiring_all_fields() {
    let mut snapshot = StatusSnapshot::default();
    apply_message(
        &obj(vec![
            ("id", Json::UInt(2)),
            (
                "result",
                obj(vec![
                    (
                        "rateLimits",
                        obj(vec![
                            ("primary", obj(vec![("usedPercent", Json::UInt(35)), ("windowDurationMins", Json::UInt(300))])),
                            ("secondary", obj(vec![("usedPercent", Json::UInt(65)), ("windowDurationMins", Json::UInt(10080))])),
                        ]),
                    ),
                    ("rateLimitResetCredits", obj(vec![("availableCount", Json::UInt(1))])),
                ]),
            ),
        ]),
        &mut snapshot,
        0,
    );
    assert_eq!(snapshot.rate_limits.len(), 2);
    assert_eq!(snapshot.reset_credits, Some(1));

    apply_message(
        &obj(vec![
            ("method", text("thread/tokenUsage/updated")),
            (
                "params",
                obj(vec![(
                    "tokenUsage",
                    obj(vec![
                        ("modelContextWindow", Json::UInt(200000)),
                        (
                            "last",
                            obj(vec![
                                ("totalTokens", Json::UInt(50000)),
                                ("inputTokens", Json::UInt(40000)),
                                ("cachedInputTokens", Json::UInt(30000)),
                                ("outputTokens", Json::UInt(10000)),
                            ]),
                        ),
                    ]),
                )]),
            ),
        ]),
        &mut snapshot,
        0,
    );
    assert_eq!(snapshot.context_percent, Some(20));
    assert_eq!(snapshot.output_tokens, Some(10000));
}

#[test]
fn tracks_spawned_agent_status_and_latest_message() {
    let mut snapshot = StatusSnapshot::default();
    apply_message(
        &obj(vec![
            ("method", text("item/completed")),
            (
                "params",
                obj(vec![
                    ("threadId", text("root")),
                    ("turnId", text("turn-1")),
                    (
                        "item",
                        obj(vec![
                            ("type", text("collabAgentToolCall")),
                            ("id", text("item-1")),
                            ("tool", text("spawnAgent")),
                            ("status", text("completed")),
                            ("senderThreadId", text("root")),
                            ("receiverThreadIds", Json::Array(vec![text("child-1")])),
                            ("prompt", text("Inspect the renderer")),
                            ("model", Json::Null),
                            ("reasoningEffort", Json::Null),
                            (
                                "agentsStates",
                                obj(vec![("child-1", obj(vec![("status", text("running")), ("message", text("Reading files"))]))]),
                            ),
                        ]),
                    ),
                ]),
            ),
        ]),
        &mut snapshot,
        0,
    );
    assert_eq!(snapshot.agents_active, Some(1));
    assert_eq!(snapshot.agents[0].prompt.as_deref(), Some("Inspect the renderer"));
    assert_eq!(snapshot.agents[0].message.as_deref(), Some("Reading files"));

    apply_message(
        &obj(vec![
            ("method", text("item/completed")),
            (
                "params",
                obj(vec![
                    ("threadId", text("child-1")),
                    ("turnId", text("turn-2")),
                    (
                        "item",
                        obj(vec![
                            ("type", text("agentMessage")),
                            ("id", text("item-2")),
                            ("text", text("Found the layout")),
                            ("phase", text("final_answer")),
                            ("memoryCitation", Json::Null),
                        ]),
                    ),
                ]),
            ),
        ]),
        &mut snapshot,
        0,
    );
    assert_eq!(snapshot.agents[0].message.as_deref(), Some("Found the layout"));
}

#[test]
fn started_threads_and_status_changes_update_agents() {
    let mut snapshot = StatusSnapshot::default();
    apply_message(
        &obj(vec![
            ("method", text("thread/started")),
            ("params", obj(vec![("thread", obj(vec![("id", text("t1")), ("parentThreadId", text("root")), ("agentRole", text("worker"))]))])),
        ]),
        &mut snapshot,
        5,
    );
    assert_eq!(snapshot.agents.len(), 1);
    assert_eq!(snapshot.agents[0].kind, "worker");
    assert_eq!(snapshot.agents[0].started, 5);
    apply_message(
        &obj(vec![
            ("method", text("thread/started")),
            ("params", obj(vec![("thread", obj(vec![("id", text("t2")), ("parentThreadId", Json::Null)]))])),
        ]),
        &mut snapshot,
        5,
    );
    assert_eq!(snapshot.agents.len(), 1);
    apply_message(
        &obj(vec![
            ("method", text("thread/status/changed")),
            ("params", obj(vec![("threadId", text("t1")), ("status", obj(vec![("type", text("idle"))]))])),
        ]),
        &mut snapshot,
        6,
    );
    assert!(!snapshot.agents[0].active);
    assert_eq!(snapshot.agents_active, Some(0));
    assert_eq!(snapshot.agents_total, Some(1));
}

#[test]
fn the_initialize_response_marks_the_app_server_active() {
    let mut snapshot = StatusSnapshot::default();
    apply_message(&obj(vec![("id", Json::UInt(1)), ("result", obj(vec![]))]), &mut snapshot, 0);
    assert!(snapshot.app_server_active);
    let mut other = StatusSnapshot::default();
    let response = obj(vec![("id", Json::UInt(9)), ("result", obj(vec![("primary", obj(vec![("usedPercent", Json::UInt(150))]))]))]);
    observe_server_value(&response, Some("account/rateLimits/read"), &mut other, 0);
    assert_eq!(other.rate_limits.len(), 1);
    assert_eq!(other.rate_limits[0].used_percent, 100);
    let mut ignored = StatusSnapshot::default();
    observe_server_value(&response, None, &mut ignored, 0);
    assert!(ignored.rate_limits.is_empty());
}

#[test]
fn a_status_report_updates_exactly_one_agent() {
    let mut snapshot = StatusSnapshot::default();
    snapshot.agents.push(AgentActivity { id: "a".into(), kind: "worker".into(), started: 1, prompt: None, message: None, active: true });
    snapshot.agents.push(AgentActivity { id: "b".into(), kind: "explore".into(), started: 2, prompt: None, message: None, active: true });
    set_agent_status(&mut snapshot, "b", "completed", Some("done\u{7}"), 9);
    assert_eq!(snapshot.agents.len(), 2);
    assert!(snapshot.agents[0].active);
    assert!(!snapshot.agents[1].active);
    assert_eq!(snapshot.agents[1].message.as_deref(), Some("done"));
    assert_eq!(snapshot.agents_active, Some(1));
    assert_eq!(snapshot.agents_total, Some(2));
    set_agent_status(&mut snapshot, "c", "running", None, 9);
    assert_eq!(snapshot.agents.len(), 3);
    assert_eq!(snapshot.agents[2].id, "c");
    assert_eq!(snapshot.agents[2].kind, "agent");
    assert!(snapshot.agents[2].active);
    assert_eq!(snapshot.agents_active, Some(2));
    assert_eq!(snapshot.agents_total, Some(3));
}
