use mcpls_core::paths::FilePath;
use mcpls_core::project::{PlanId, ProjectEvent, ProjectId, ProjectStatus};
use mcpls_core::session::{
    applied_edit_result_resource_uri, deferred_resource_uri, diagnostics_resource_uri,
    edit_approval_resource_uri, edit_diff_resource_uri, event_resource_uris,
    parse_applied_edit_result_resource_uri, parse_deferred_resource_uri,
    parse_project_event_resource_uri, parse_project_events_resource_uri,
    parse_project_status_resource_uri, parse_session_resource_uri, project_event_resource_uri,
    project_events_resource_uri, project_events_since_uri, project_status_resource_uri,
    DeferredResource, SessionResource,
};

fn project() -> ProjectId {
    ProjectId::new("project").unwrap()
}

fn plan() -> PlanId {
    PlanId::parse("plan").unwrap()
}

#[test]
fn diagnostics_events_map_to_subscribable_resource_uris() {
    assert_eq!(
        diagnostics_resource_uri("file:///workspace/src/main.rs"),
        Some("lsp-diagnostics:///workspace/src/main.rs".to_string())
    );
}

#[test]
fn lifecycle_events_do_not_map_to_file_resources() {
    let project_id = ProjectId::new("a").unwrap();
    assert_eq!(
        event_resource_uris(
            &project_id,
            &ProjectEvent::StatusChanged {
                status: ProjectStatus::Ready,
                last_error: None,
            },
        ),
        vec![
            "mcpls-project-events:///a".to_string(),
            "mcpls-project-status:///a".to_string(),
        ]
    );
    assert_eq!(
        parse_project_status_resource_uri(&project_status_resource_uri(&project_id)),
        Some(project_id.clone())
    );
    assert_eq!(
        parse_session_resource_uri(&project_status_resource_uri(&ProjectId::new("a").unwrap()))
            .unwrap(),
        SessionResource::ProjectStatus(ProjectId::new("a").unwrap())
    );
    assert_eq!(
        parse_session_resource_uri("lsp-diagnostics:///workspace/a.rs").unwrap(),
        SessionResource::Diagnostics(FilePath::new("/workspace/a.rs"))
    );
    assert_eq!(
        event_resource_uris(
            &project_id,
            &ProjectEvent::ProjectRemoved {
                project_id: project_id.clone(),
                root: FilePath::new("/workspace"),
            },
        ),
        vec![
            "mcpls-project-events:///a".to_string(),
            "mcpls-project-status:///a".to_string(),
        ]
    );
    assert!(event_resource_uris(
        &project_id,
        &ProjectEvent::ProjectRemoved {
            project_id: ProjectId::new("other").unwrap(),
            root: FilePath::new("/workspace/other"),
        },
    )
    .is_empty());
}

#[test]
fn project_event_resource_uri_carries_optional_poll_cursor() {
    let project_id = ProjectId::new("a").unwrap();
    let uri = project_events_resource_uri(&project_id);
    assert_eq!(uri, "mcpls-project-events:///a");
    assert_eq!(
        parse_project_events_resource_uri("mcpls-project-events:///a?since=7"),
        Some((project_id, Some(7)))
    );
}

#[test]
fn project_uris_read_back() {
    assert_eq!(
        project_events_since_uri(&project(), 18_446_744_073_709_551_615),
        "mcpls-project-events:///project?since=18446744073709551615"
    );
    assert_eq!(
        parse_project_events_resource_uri(&project_events_since_uri(&project(), u64::MAX)),
        Some((project(), Some(u64::MAX)))
    );
    assert_eq!(
        parse_project_events_resource_uri("mcpls-project-events:///project?since="),
        None
    );
    assert_eq!(
        project_event_resource_uri(&project(), 12),
        "mcpls-project-event:///project?sequence=12"
    );
    assert_eq!(
        parse_project_event_resource_uri("mcpls-project-event:///project?sequence=12"),
        Some((project(), 12))
    );
    assert_eq!(
        parse_project_event_resource_uri("mcpls-project-event:///project"),
        None
    );
    assert_eq!(parse_project_status_resource_uri("mcpls-project-status:///"), None);
}

#[test]
fn plan_uris_read_back() {
    let diff = edit_diff_resource_uri(&project(), &plan(), 5);
    assert_eq!(diff, "mcpls-edit-diff:///project?plan_id=plan&offset_bytes=5");
    assert_eq!(
        parse_session_resource_uri(&diff).unwrap(),
        SessionResource::EditDiff {
            project_id: project(),
            plan_id: plan(),
            offset_bytes: 5,
        }
    );
    let result = applied_edit_result_resource_uri(&project(), &plan(), 0);
    assert_eq!(
        parse_applied_edit_result_resource_uri(&result),
        Some((project(), plan(), 0))
    );
    assert_eq!(
        parse_session_resource_uri(&result).unwrap(),
        SessionResource::AppliedEditResult {
            project_id: project(),
            plan_id: plan(),
            offset_bytes: 0,
        }
    );
    let approval = edit_approval_resource_uri(&project(), &plan(), 7);
    assert_eq!(
        parse_session_resource_uri(&approval).unwrap(),
        SessionResource::EditApproval {
            project_id: project(),
            plan_id: plan(),
            offset_bytes: 7,
        }
    );
    for malformed in [
        "mcpls-edit-diff:///project",
        "mcpls-edit-diff:///project?plan_id=plan",
        "mcpls-edit-diff:///project?plan_id=&offset_bytes=0",
        "mcpls-edit-diff:///project?plan_id=plan&offset_bytes=x",
    ] {
        assert!(parse_session_resource_uri(malformed).is_err());
    }
}

#[test]
fn deferred_uris_read_back() {
    let uri = deferred_resource_uri("token", 9);
    assert_eq!(uri, "mcpls-deferred:///token?offset_bytes=9");
    let deferred = DeferredResource {
        token: "token".to_owned(),
        offset_bytes: 9,
    };
    assert_eq!(parse_deferred_resource_uri(&uri), Some(deferred));
    assert_eq!(
        parse_deferred_resource_uri("mcpls-deferred:///token")
            .unwrap()
            .offset_bytes,
        0
    );
    assert_eq!(parse_deferred_resource_uri("mcpls-deferred:///"), None);
    assert!(parse_session_resource_uri("mailto:someone").is_err());
}

#[test]
fn every_event_is_announced_with_its_resources() {
    let events = "mcpls-project-events:///project".to_owned();
    let status = "mcpls-project-status:///project".to_owned();
    let uris = |event: ProjectEvent| event_resource_uris(&project(), &event);
    assert_eq!(
        uris(ProjectEvent::ServerExited { generation: 1 }),
        vec![events.clone(), status]
    );
    assert_eq!(
        uris(ProjectEvent::DiagnosticsUpdated {
            uri: "file:///workspace/a%20b.rs".to_owned(),
            version: None,
            diagnostic_count: 0,
        }),
        vec![
            events.clone(),
            "lsp-diagnostics:///workspace/a%20b.rs".to_owned()
        ]
    );
    assert_eq!(
        uris(ProjectEvent::DiagnosticsUpdated {
            uri: "untitled:one".to_owned(),
            version: None,
            diagnostic_count: 0,
        }),
        vec![events.clone()]
    );
    assert_eq!(
        uris(ProjectEvent::FilesChanged {
            paths: vec![FilePath::new("/workspace/a.rs")],
        }),
        vec![events.clone()]
    );
    assert_eq!(uris(ProjectEvent::EditApplied { plan_id: plan() }), vec![events]);
}
