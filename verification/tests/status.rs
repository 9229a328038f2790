use mcpls_core::json::{json_str, render, JsonObject, JsonValue};
use mcpls_core::paths::FilePath;
use mcpls_core::project::{ProjectId, ProjectStatus};
use mcpls_core::status::{
    actor_group_states, health, health_status, listed_project_json, project_event_json,
    project_events_json, project_lsp_capabilities_json, project_removed_json, project_root_paths,
    project_state_answer, project_state_json, record_value, server_status, DaemonHealth,
    DaemonPersistenceSnapshot, DaemonSnapshot, Dormancy, ProjectEventRecord, ProjectEventSnapshot,
    ProjectIdentity, ProjectQueuePressure, ProjectState, ProjectStatusCounts,
    ProjectStatusSummary, MAX_INLINE_PROJECT_EVENT_BYTES,
};
use serde_json::Value;

fn parsed(value: &JsonValue) -> Value {
    serde_json::from_str(&render(value)).unwrap()
}

fn project() -> ProjectId {
    ProjectId::new("project").unwrap()
}

fn event(kind: &str, last_error: Option<String>) -> JsonValue {
    let mut fields = JsonObject::new();
    fields.put("kind", json_str(kind));
    if let Some(last_error) = last_error {
        fields.put("last_error", json_str(&last_error));
    }
    fields.into_value()
}

fn snapshot(events: Vec<ProjectEventRecord>, truncated: bool) -> ProjectEventSnapshot {
    ProjectEventSnapshot {
        next_sequence: 1,
        truncated,
        resync_required: false,
        retention_floor: 0,
        first_sequence: events.first().map(|record| record.sequence),
        last_sequence: events.last().map(|record| record.sequence),
        events,
    }
}

fn counts() -> ProjectStatusCounts {
    ProjectStatusCounts {
        starting: 0,
        ready: 0,
        degraded: 0,
        restarting: 0,
        dormant: 0,
        stopping: 0,
        stopped: 0,
        failed: 0,
    }
}

fn daemon() -> DaemonSnapshot {
    let mut transport = JsonObject::new();
    transport.put("mode", json_str("stdio"));
    transport.put("bind", JsonValue::Null);
    transport.put("path", JsonValue::Null);
    DaemonSnapshot {
        project_counts: counts(),
        actor_groups: 0,
        project_summaries: Vec::new(),
        persistence: DaemonPersistenceSnapshot {
            configured: false,
            last_error: None,
        },
        transport: transport.into_map(),
        session_count: 0,
        queue_pressure: ProjectQueuePressure {
            queued: 0,
            capacity: 32,
        },
        shutting_down: false,
    }
}

fn identity() -> ProjectIdentity {
    ProjectIdentity {
        id: project(),
        root: FilePath::new("/workspace"),
        roots: vec![FilePath::new("/workspace"), FilePath::new("/other")],
        repository_root: None,
    }
}

fn state() -> ProjectState {
    ProjectState {
        status: ProjectStatus::Dormant,
        last_error: Some("stopped".to_owned()),
        dormancy: Some(Dormancy {
            reason: "restored".to_owned(),
            idle_for_ms: None,
        }),
        configured_language_servers: vec!["rust".to_owned()],
        active_language_servers: Vec::new(),
        open_document_count: 2,
        generation: 3,
    }
}

#[test]
fn truncated_project_event_pages_expose_a_direct_continuation_uri() {
    let first = ProjectEventRecord {
        sequence: 1,
        event: event("server_exited", None),
    };
    let payload = parsed(&project_events_json(&project(), &snapshot(vec![first], true)));

    assert_eq!(
        payload["next_uri"],
        "mcpls-project-events:///project?since=1"
    );
}

#[test]
fn oversized_project_event_body_is_referenced_without_losing_identity() {
    let record = ProjectEventRecord {
        sequence: 1,
        event: event("status_changed", Some("x".repeat(1024))),
    };
    let payload = parsed(&project_events_json(&project(), &snapshot(vec![record], false)));

    assert_eq!(payload["events"][0]["sequence"], 1);
    assert_eq!(payload["events"][0]["event"]["kind"], "status_changed");
    assert_eq!(
        payload["events"][0]["resource"]["uri"],
        "mcpls-project-event:///project?sequence=1"
    );
    assert!(
        payload["events"][0]["resource"]["total_bytes"]
            .as_u64()
            .unwrap()
            > 1024
    );
    assert!(payload["events"][0]["event"].get("last_error").is_none());
}

#[test]
fn event_pages_tell_where_they_stand() {
    let record = ProjectEventRecord {
        sequence: 4,
        event: event("server_exited", None),
    };
    assert_eq!(
        render(&record_value(&record)),
        r#"{"event":{"kind":"server_exited"},"sequence":4}"#
    );
    let expected: Value = serde_json::from_str(
        r#"{"project_id":"project","next_cursor":1,"next_uri":null,"resync_required":false,
            "truncated":false,"retention_floor":0,"returned_events":1,"first_sequence":4,
            "last_sequence":4,"events":[{"event":{"kind":"server_exited"},"sequence":4}]}"#,
    )
    .unwrap();
    assert_eq!(
        parsed(&project_events_json(&project(), &snapshot(vec![record], false))),
        expected
    );
    let empty = parsed(&project_events_json(&project(), &snapshot(Vec::new(), false)));
    assert!(empty["first_sequence"].is_null());
    assert_eq!(empty["returned_events"], 0);
}

#[test]
fn events_are_inline_up_to_the_limit() {
    let overhead = render(&event("k", Some(String::new()))).len();
    let body = "x".repeat(MAX_INLINE_PROJECT_EVENT_BYTES - overhead);
    let mut record = ProjectEventRecord {
        sequence: 1,
        event: event("k", Some(body.clone())),
    };
    assert!(project_event_json(&project(), &record).get("resource").is_none());
    record.event = event("k", Some(body + "x"));
    let entry = parsed(&project_event_json(&project(), &record));
    assert_eq!(entry["resource"]["total_bytes"], 129);
    record.event = json_str(&"x".repeat(200));
    let entry = parsed(&project_event_json(&project(), &record));
    assert!(entry["event"]["kind"].is_null());
}

#[test]
fn project_state_tells_dormancy_and_groups() {
    let groups = actor_group_states(vec![
        vec![FilePath::new("/workspace")],
        vec![FilePath::new("/other")],
    ]);
    assert_eq!(groups[1].group_id, 1);
    let expected: Value = serde_json::from_str(
        r#"{"project_id":"project","root":"/workspace","roots":["/workspace","/other"],
            "repository_root":null,"status":"Dormant","last_error":"stopped",
            "dormancy":{"reason":"restored","idle_for_ms":null},
            "configured_language_servers":["rust"],"active_language_servers":[],
            "open_document_count":2,"generation":3,"actor_group_count":2,
            "actor_groups":[{"group_id":0,"roots":["/workspace"]},
                            {"group_id":1,"roots":["/other"]}]}"#,
    )
    .unwrap();
    assert_eq!(parsed(&project_state_json(&identity(), &state(), &groups)), expected);
    let answer = parsed(&project_state_answer(
        &identity(),
        &state(),
        vec![vec![FilePath::new("/workspace")]],
        json_str("features"),
    ));
    assert_eq!(answer["cargo_features"], "features");
    assert_eq!(answer["actor_group_count"], 1);
    assert_eq!(project_root_paths(&identity()), identity().roots);
}

#[test]
fn idle_times_saturate() {
    for (millis, shown) in [(7, 7), (u128::from(u64::MAX) + 1, u64::MAX)] {
        let mut dormant = state();
        dormant.dormancy = Some(Dormancy {
            reason: "idle".to_owned(),
            idle_for_ms: Some(millis),
        });
        let json = parsed(&project_state_json(&identity(), &dormant, &Vec::new()));
        assert_eq!(json["dormancy"]["idle_for_ms"], shown);
    }
    let mut awake = state();
    awake.dormancy = None;
    let json = parsed(&project_state_json(&identity(), &awake, &Vec::new()));
    assert!(json["dormancy"].is_null());
}

#[test]
fn health_reports_a_running_daemon() {
    let report = parsed(&health(&daemon()));
    assert_eq!(report["status"], "healthy");
    assert_eq!(report["lifecycle"], "running");
    assert_eq!(report["persistence"]["configured"], false);
    assert_eq!(report["transport"]["mode"], "stdio");
    assert!(report["transport"]["bind"].is_null());
    assert_eq!(report["projects"]["starting"], 0);
    assert_eq!(report["actor_groups"], 0);
    let mut stopping = daemon();
    stopping.shutting_down = true;
    assert_eq!(parsed(&health(&stopping))["lifecycle"], "shutting_down");
}

#[test]
fn server_status_summarises_projects() {
    let mut running = daemon();
    running.project_counts.starting = 1;
    running.actor_groups = 1;
    running.project_summaries.push(ProjectStatusSummary {
        project_id: ProjectId::new("health").unwrap(),
        status: ProjectStatus::Starting,
        actor_group_count: 1,
        roots: vec![FilePath::new("/workspace")],
    });
    let status = parsed(&server_status(&running, "0.1.0", 9));
    assert_eq!(status["version"], "0.1.0");
    assert_eq!(status["uptime_seconds"], 9);
    assert_eq!(status["session_count"], 0);
    assert_eq!(status["queue_pressure"]["queued"], 0);
    assert_eq!(status["queue_pressure"]["capacity"], 32);
    assert_eq!(status["projects"]["starting"], 1);
    assert_eq!(status["project_summaries"][0]["project_id"], "health");
    assert_eq!(status["project_summaries"][0]["status"], "Starting");
    assert_eq!(status["project_summaries"][0]["actor_group_count"], 1);
    assert_eq!(status["project_summaries"][0]["roots"][0], "/workspace");
}

#[test]
fn health_tells_failed_from_degraded() {
    assert_eq!(health_status(&daemon()), DaemonHealth::Healthy);
    let mut snapshot = daemon();
    snapshot.persistence.last_error = Some("disk full".to_owned());
    assert_eq!(health_status(&snapshot), DaemonHealth::Degraded);
    assert_eq!(
        parsed(&health(&snapshot))["persistence"]["last_error"],
        "disk full"
    );
    snapshot.project_counts.failed = 1;
    assert_eq!(health_status(&snapshot), DaemonHealth::Failed);
    assert_eq!(parsed(&health(&snapshot))["status"], "failed");
    for field in ["degraded", "restarting", "stopping"] {
        let mut snapshot = daemon();
        match field {
            "degraded" => snapshot.project_counts.degraded = 1,
            "restarting" => snapshot.project_counts.restarting = 1,
            _ => snapshot.project_counts.stopping = 1,
        }
        assert_eq!(health_status(&snapshot), DaemonHealth::Degraded);
    }
    let mut snapshot = daemon();
    snapshot.project_counts.stopped = 1;
    assert_eq!(health_status(&snapshot).as_str(), "healthy");
}

#[test]
fn short_project_answers() {
    assert_eq!(
        render(&project_removed_json(&project())),
        r#"{"project_id":"project","removed":true}"#
    );
    assert_eq!(
        render(&project_lsp_capabilities_json(&project(), vec![json_str("rust")])),
        r#"{"project_id":"project","servers":["rust"]}"#
    );
    assert_eq!(
        render(&listed_project_json(&identity())),
        r#"{"project_id":"project","repository_root":null,"root":"/workspace","roots":["/workspace","/other"]}"#
    );
}
