use mcpls_core::catalog::Tool;
use mcpls_core::errors::McpError;
use mcpls_core::handlers::HandlerContext;
use mcpls_core::json::{json_str, JsonObject};
use mcpls_core::paths::FilePath;
use mcpls_core::project::{PlanId, ProjectId};
use mcpls_core::reading::{
    accepted_subscription_filter, applied_edit_result_access, attach_subscription, distinct_projects,
    edit_approval_access, edit_diff_access, json_answer, list_resources, list_tools,
    listen_scopes, page_answer, private_resource_result, read_applied_edit_result_resource,
    read_deferred_resource, read_edit_approval_resource, read_edit_diff_resource,
    read_project_event_resource, read_project_events_resource, read_resource,
    read_semantic_resource, read_source_resource, read_target, source_frame_step,
    subscription_scope, subscription_uri, supports_cache_hints, text_answer, unsubscribe,
    CacheScope, DeferredPayload, OpenDocument, SemanticResource, SourceFrame, SourceStep,
    SubscriptionScope,
};
use mcpls_core::session::{DeferredResource, SessionResource};
use mcpls_core::status::{ProjectEventRecord, ProjectEventSnapshot, ProjectIdentity};
use mcpls_core::subscriptions::{ResourceSubscriptions, SessionEventSink};

fn project() -> ProjectId {
    ProjectId::new("project").unwrap()
}

fn frame(text: String) -> SourceFrame {
    SourceFrame {
        uri: Ok("mcpls-source:///workspace/a.rs".to_owned()),
        text,
    }
}

#[test]
fn resource_cache_hints_are_private_and_protocol_gated() {
    let modern = private_resource_result(Vec::new(), true);
    assert_eq!(modern.ttl_ms, Some(0));
    assert_eq!(modern.cache_scope, Some(CacheScope::Private));

    let legacy = private_resource_result(Vec::new(), false);
    assert!(legacy.ttl_ms.is_none());
    assert!(legacy.cache_scope.is_none());
}

#[test]
fn listen_filter_accepts_only_session_resource_uris() {
    let requested = Some(vec![
        "lsp-diagnostics:///tmp/main.rs".to_owned(),
        "mcpls-project-status:///project".to_owned(),
        "https://outside.example/resource".to_owned(),
    ]);
    let accepted = accepted_subscription_filter(&requested);
    assert_eq!(
        accepted,
        Some(vec![
            "lsp-diagnostics:///tmp/main.rs".to_owned(),
            "mcpls-project-status:///project".to_owned(),
        ])
    );
}

#[test]
fn filters_without_session_resources_are_empty() {
    assert_eq!(accepted_subscription_filter(&None), None);
    assert_eq!(accepted_subscription_filter(&Some(Vec::new())), None);
    assert_eq!(
        accepted_subscription_filter(&Some(vec!["https://outside.example".to_owned()])),
        None
    );
}

#[test]
fn cache_hints_come_with_the_protocol_version() {
    assert!(!supports_cache_hints(None));
    assert!(!supports_cache_hints(Some("2025-11-25")));
    assert!(supports_cache_hints(Some("2026-07-28")));
    assert!(supports_cache_hints(Some("2026-07-29")));
}

#[test]
fn answers_hold_one_text() {
    let answer = text_answer("uri", "text".to_owned(), false);
    assert_eq!(answer.contents.len(), 1);
    assert_eq!(answer.contents[0].uri, "uri");
    assert_eq!(answer.contents[0].text, "text");
    let answer = json_answer("uri", &json_str("a\"b"), true);
    assert_eq!(answer.contents[0].text, r#""a\"b""#);
    assert_eq!(answer.ttl_ms, Some(0));
    let refused = page_answer("uri", Err(McpError::invalid_params("no")), true);
    assert_eq!(refused.unwrap_err(), McpError::invalid_params("no"));
}

#[test]
fn retained_events_are_readable_until_evicted() {
    let mut event = JsonObject::new();
    event.put("kind", json_str("status_changed"));
    let record = ProjectEventRecord {
        sequence: 1,
        event: event.into_map(),
    };
    let answer = read_project_event_resource("uri", &Some(record), false).unwrap();
    assert_eq!(
        answer.contents[0].text,
        r#"{"event":{"kind":"status_changed"},"sequence":1}"#
    );
    let error = read_project_event_resource("uri", &None, false).unwrap_err();
    assert!(error.text().contains("stale_resource:"));
}

#[test]
fn plan_resources_are_read_by_their_session() {
    let plan = PlanId::parse("plan").unwrap();
    let mut context = HandlerContext::for_session();
    assert_eq!(
        edit_diff_access(&context, &plan).unwrap_err().message,
        "edit plan is not owned by this MCP session"
    );
    assert_eq!(
        edit_approval_access(&context, &plan).unwrap_err().message,
        "edit approval is not owned by this MCP session"
    );
    assert_eq!(
        applied_edit_result_access(&context, &plan).unwrap_err().message,
        "applied edit result is not owned by this MCP session"
    );
    context.remember_plan(plan.clone());
    assert!(edit_diff_access(&context, &plan).is_ok());
    assert!(edit_approval_access(&context, &plan).is_ok());
    context.claim_plan(&plan);
    assert!(edit_diff_access(&context, &plan).is_err());
    assert!(edit_approval_access(&context, &plan).is_err());
    assert!(applied_edit_result_access(&context, &plan).is_ok());
}

#[test]
fn targets_are_named_by_uri() {
    assert_eq!(
        read_target("mcpls-project-status:///project").unwrap(),
        SessionResource::ProjectStatus(project())
    );
    assert_eq!(
        read_target("file:///a.rs").unwrap_err().message,
        "unsupported resource URI scheme"
    );
    assert!(matches!(
        read_semantic_resource("mcpls-deferred:///token").unwrap(),
        SemanticResource::Deferred(_)
    ));
    assert!(matches!(
        read_semantic_resource("mcpls-source:///workspace/a.rs").unwrap(),
        SemanticResource::Source(_)
    ));
    assert!(read_semantic_resource("mcpls-project-status:///project").is_err());
}

#[test]
fn source_frames_shrink_until_they_fit() {
    let SourceStep::Done(result) = source_frame_step(frame("{}".to_owned()), 8_192).unwrap() else {
        panic!("a short frame fits");
    };
    assert_eq!(result.mime_type, "application/json");
    assert_eq!(result.text, "{}");
    let long = "\"".repeat(10_000);
    assert_eq!(
        source_frame_step(frame(long.clone()), 8_192).unwrap(),
        SourceStep::Retry(4_096)
    );
    assert_eq!(
        source_frame_step(frame(long), 1).unwrap_err().message,
        "source resource metadata exceeds the response budget"
    );
    let broken = || SourceFrame {
        uri: Err("no uri".to_owned()),
        text: String::new(),
    };
    assert_eq!(
        source_frame_step(broken(), 8).unwrap_err(),
        McpError::internal_error("no uri")
    );
    assert_eq!(
        read_source_resource(broken(), true).unwrap_err(),
        McpError::internal_error("no uri")
    );
    let answer = read_source_resource(frame("{}".to_owned()), true).unwrap();
    assert_eq!(answer.contents[0].uri, "mcpls-source:///workspace/a.rs");
}

#[test]
fn subscriptions_have_a_scope() {
    for uri in [
        "mcpls-project-status:///project",
        "mcpls-project-events:///project?since=3",
        "mcpls-project-event:///project?sequence=3",
    ] {
        assert_eq!(
            subscription_scope(uri).unwrap(),
            SubscriptionScope::Project(project())
        );
    }
    for uri in ["lsp-diagnostics:///workspace/a.rs", "mcpls-source:///workspace/a.rs"] {
        assert_eq!(
            subscription_scope(uri).unwrap(),
            SubscriptionScope::Path(FilePath::new("/workspace/a.rs"))
        );
    }
    for (uri, message) in [
        (
            "mcpls-deferred:///token",
            "deferred semantic resources are readable but not subscribable",
        ),
        (
            "mcpls-edit-diff:///project?plan_id=plan&offset_bytes=0",
            "edit diff resources are readable but not subscribable",
        ),
        (
            "mcpls-edit-result:///project?plan_id=plan&offset_bytes=0",
            "applied edit result resources are readable but not subscribable",
        ),
        (
            "mcpls-edit-approval:///project?plan_id=plan&offset_bytes=0",
            "edit approval resources are readable but not subscribable",
        ),
        ("https://outside.example", "unsupported resource URI scheme"),
    ] {
        assert_eq!(subscription_scope(uri).unwrap_err().message, message);
    }
}

#[test]
fn event_subscriptions_share_one_uri() {
    for uri in [
        "mcpls-project-events:///project",
        "mcpls-project-events:///project?since=3",
        "mcpls-project-event:///project?sequence=3",
    ] {
        assert_eq!(
            subscription_uri(uri).unwrap(),
            "mcpls-project-events:///project"
        );
    }
    assert_eq!(
        subscription_uri("lsp-diagnostics:///a.rs").unwrap(),
        "lsp-diagnostics:///a.rs"
    );
    assert!(subscription_uri("https://outside.example").is_err());
}

#[test]
fn unsubscribing_ends_what_subscribing_began() {
    let mut subscriptions = ResourceSubscriptions::new(1);
    let mut sink = SessionEventSink::new();
    let events = "mcpls-project-events:///project".to_owned();
    attach_subscription(&mut subscriptions, &mut sink, project(), events.clone()).unwrap();
    assert!(subscriptions.contains(&events));
    let refused = attach_subscription(
        &mut subscriptions,
        &mut sink,
        project(),
        "mcpls-project-status:///project".to_owned(),
    );
    assert_eq!(
        refused.unwrap_err().message,
        "resource subscription limit reached: 1"
    );
    assert_eq!(sink.watched.len(), 1);
    let emptied = unsubscribe(
        &mut subscriptions,
        &mut sink,
        "mcpls-project-events:///project?since=4",
    );
    assert_eq!(emptied.unwrap(), vec![project()]);
    assert!(!subscriptions.contains(&events));
    assert_eq!(subscriptions.limit, 1);
    assert!(sink.watched.is_empty());
    assert!(unsubscribe(&mut subscriptions, &mut sink, "https://outside.example").is_err());
}

#[test]
fn resources_are_listed_by_kind() {
    let documents = vec![
        OpenDocument {
            project_id: project(),
            path: FilePath::new("/workspace/a.rs"),
        },
        OpenDocument {
            project_id: project(),
            path: FilePath::new("relative.rs"),
        },
    ];
    let projects = vec![ProjectIdentity {
        id: project(),
        root: FilePath::new("/workspace"),
        roots: Vec::new(),
        repository_root: None,
    }];
    let listed = list_resources(&documents, &projects, None, true).unwrap();
    let shown: Vec<(&str, &str, &str)> = listed
        .resources
        .iter()
        .map(|resource| {
            (
                resource.uri.as_str(),
                resource.name.as_str(),
                resource.description.as_str(),
            )
        })
        .collect();
    assert_eq!(
        shown,
        [
            (
                "lsp-diagnostics:///workspace/a.rs",
                "project:a.rs",
                "LSP diagnostics for project:a.rs"
            ),
            (
                "mcpls-project-status:///project",
                "project:status",
                "Lifecycle status for project project"
            ),
            (
                "mcpls-project-events:///project",
                "project:events",
                "Ordered project events for project"
            ),
        ]
    );
    assert_eq!(listed.cache_scope, Some(CacheScope::Private));
    assert_eq!(listed.next_cursor, None);
    let empty = list_resources(&Vec::new(), &Vec::new(), None, false).unwrap();
    assert!(empty.resources.is_empty());
    assert_eq!(empty.ttl_ms, None);
    assert_eq!(
        list_resources(&Vec::new(), &Vec::new(), Some("x"), false)
            .unwrap_err()
            .message,
        "invalid resources/list cursor: x"
    );
}

#[test]
fn tools_are_listed_for_everyone() {
    let tool = Tool {
        name: "inspect_symbol".to_owned(),
        description: None,
        input_schema: JsonObject::new(),
        output_schema: None,
        annotations: None,
    };
    let listed = list_tools(vec![tool], None, true).unwrap();
    assert_eq!(listed.tools.len(), 1);
    assert_eq!(listed.ttl_ms, Some(0));
    assert_eq!(listed.cache_scope, Some(CacheScope::Public));
    assert_eq!(
        list_tools(Vec::new(), Some("5"), true).unwrap_err().message,
        "tools/list cursor is outside the catalog: 5"
    );
}

fn first_text(answer: &mcpls_core::reading::ReadResourceResult) -> serde_json::Value {
    serde_json::from_str(&answer.contents[0].text).unwrap()
}

#[test]
fn plan_pages_are_answered_or_stale() {
    let plan = PlanId::parse("plan").unwrap();
    let diff = read_edit_diff_resource(
        &project(),
        &plan,
        0,
        "uri",
        Ok("-a\n+b\n".to_owned()),
        false,
    )
    .unwrap();
    assert_eq!(diff.contents[0].uri, "uri");
    assert_eq!(first_text(&diff)["text"], "-a\n+b\n");
    let lost = Err("edit plan not found: plan".to_owned());
    assert_eq!(
        read_edit_diff_resource(&project(), &plan, 0, "uri", lost, false)
            .unwrap_err()
            .message,
        "edit plan not found: plan"
    );
    let receipt =
        read_applied_edit_result_resource(&project(), &plan, 0, "uri", Some("{}".to_owned()), true)
            .unwrap();
    assert_eq!(first_text(&receipt)["text"], "{}");
    assert_eq!(
        read_applied_edit_result_resource(&project(), &plan, 0, "uri", None, true)
            .unwrap_err()
            .message,
        "stale_resource: applied edit result is no longer retained"
    );
    assert_eq!(
        read_edit_approval_resource(&project(), &plan, 0, "uri", &None, true)
            .unwrap_err()
            .message,
        "stale_resource: edit approval is no longer retained"
    );
}

#[test]
fn deferred_payloads_are_paged() {
    let deferred = DeferredResource {
        token: "token".to_owned(),
        offset_bytes: 0,
    };
    let payload = DeferredPayload {
        value: json_str("value"),
        snapshot_hash: "hash".to_owned(),
    };
    let answer = read_deferred_resource(&deferred, "uri", Ok(payload), false).unwrap();
    assert_eq!(first_text(&answer)["text"], "\"value\"");
    assert_eq!(first_text(&answer)["snapshot_hash"], "hash");
    let error = read_deferred_resource(&deferred, "uri", Err("gone".to_owned()), false);
    assert_eq!(error.unwrap_err(), McpError::invalid_params("gone"));
}

#[test]
fn event_histories_are_answered() {
    let snapshot = ProjectEventSnapshot {
        next_sequence: 5,
        truncated: false,
        resync_required: true,
        retention_floor: 3,
        events: Vec::new(),
        first_sequence: None,
        last_sequence: None,
    };
    let answer = read_project_events_resource(&project(), "uri", &snapshot, false);
    assert_eq!(first_text(&answer)["next_cursor"], 5);
    assert_eq!(first_text(&answer)["resync_required"], true);
}

#[test]
fn reads_are_decided_before_a_project_is_asked() {
    let mut context = HandlerContext::for_session();
    let diff = "mcpls-edit-diff:///project?plan_id=plan&offset_bytes=0";
    for uri in [
        diff,
        "mcpls-edit-result:///project?plan_id=plan&offset_bytes=0",
        "mcpls-edit-approval:///project?plan_id=plan&offset_bytes=0",
    ] {
        assert!(read_resource(&context, uri)
            .unwrap_err()
            .message
            .ends_with("is not owned by this MCP session"));
    }
    context.remember_plan(PlanId::parse("plan").unwrap());
    assert_eq!(
        read_resource(&context, diff).unwrap(),
        read_target(diff).unwrap()
    );
    assert!(read_resource(&context, "mcpls-project-status:///project").is_ok());
    assert!(read_resource(&context, "https://outside.example").is_err());
}

#[test]
fn listeners_follow_every_resource_or_none() {
    let uris = |list: &[&str]| list.iter().map(|uri| (*uri).to_owned()).collect::<Vec<_>>();
    assert_eq!(
        listen_scopes(&uris(&[
            "mcpls-project-events:///project",
            "lsp-diagnostics:///workspace/a.rs"
        ]))
        .unwrap(),
        vec![
            SubscriptionScope::Project(project()),
            SubscriptionScope::Path(FilePath::new("/workspace/a.rs")),
        ]
    );
    assert_eq!(
        listen_scopes(&uris(&[
            "mcpls-project-events:///project",
            "mcpls-deferred:///token",
            "https://outside.example"
        ]))
        .unwrap_err()
        .message,
        "deferred semantic resources are readable but not subscribable"
    );
}

#[test]
fn listeners_follow_each_project_once() {
    let projects = ["b", "a", "b", "c", "a"]
        .iter()
        .map(|id| ProjectId::new(id).unwrap())
        .collect::<Vec<_>>();
    let distinct = distinct_projects(&projects);
    assert_eq!(
        distinct.iter().map(ProjectId::as_str).collect::<Vec<_>>(),
        ["b", "a", "c"]
    );
    assert!(distinct_projects(&Vec::new()).is_empty());
}
