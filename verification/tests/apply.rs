use mcpls_core::apply::{
    apply_value, bounded_approval_text, project_relative_paths, workspace_edit_apply_json,
    workspace_edit_apply_result, AppliedEditPlan, ApplyEditPlanOutcome, EditConflict, EditNotReady,
    ProviderSynchronization, VerificationStatus, MAX_APPROVAL_TEXT_BYTES,
    MAX_INLINE_APPLIED_DIFF_BYTES, MAX_INLINE_APPLIED_ITEMS,
};
use mcpls_core::json::{render, JsonValue};
use mcpls_core::paths::FilePath;
use mcpls_core::project::{PlanId, ProjectId};
use mcpls_core::session::applied_edit_result_resource_uri;
use mcpls_core::tools::{
    WorkspaceEditApplyResult, WorkspaceEditContention, WorkspaceEditContentionScope,
    WorkspaceEditRetry, WorkspaceEditRetryAction,
};

fn parsed(value: &JsonValue) -> serde_json::Value {
    serde_json::from_str(&render(value)).unwrap()
}

fn json(text: &str) -> serde_json::Value {
    serde_json::from_str(text).unwrap()
}

fn workspace() -> Vec<FilePath> {
    vec![FilePath::new("/workspace")]
}

#[test]
fn applied_edit_result_bounds_inline_detail_and_links_the_complete_receipt() {
    let plan_id = PlanId::parse("plan").unwrap();
    let result = workspace_edit_apply_result(
        ApplyEditPlanOutcome::Applied(AppliedEditPlan {
            plan_id: plan_id.clone(),
            operations: (0..=MAX_INLINE_APPLIED_ITEMS)
                .map(|index| {
                    format!(
                        "edit src/{index}-{}.rs",
                        "o".repeat(MAX_APPROVAL_TEXT_BYTES + 1)
                    )
                })
                .collect(),
            unified_diff: "x".repeat(MAX_INLINE_APPLIED_DIFF_BYTES + 1),
            complete_unified_diff: "complete diff".to_owned(),
            committed_files: (0..=MAX_INLINE_APPLIED_ITEMS)
                .map(|index| {
                    FilePath::new(&format!(
                        "/workspace/src/{index}-{}.rs",
                        "p".repeat(MAX_APPROVAL_TEXT_BYTES + 1)
                    ))
                })
                .collect(),
            verification: None,
            provider_synchronization: (0..=MAX_INLINE_APPLIED_ITEMS)
                .map(|index| ProviderSynchronization {
                    provider: format!(
                        "provider-{index}-{}",
                        "n".repeat(MAX_APPROVAL_TEXT_BYTES + 1)
                    ),
                    synchronized: false,
                    watched_file_notifications: index,
                    message: Some("m".repeat(MAX_APPROVAL_TEXT_BYTES + 1)),
                })
                .collect(),
        }),
        "project",
        &workspace(),
    );
    let serialized_bytes = render(&apply_value(&result)).len();
    assert!(
        serialized_bytes <= 16 * 1024,
        "applied result used {serialized_bytes} serialized bytes"
    );

    let WorkspaceEditApplyResult::Applied {
        committed_files,
        committed_file_count,
        operations,
        operation_count,
        detail_resource,
        details_truncated,
        provider_synchronization,
        provider_synchronization_count,
        ..
    } = result
    else {
        panic!("expected an applied edit result");
    };
    assert_eq!(committed_file_count, MAX_INLINE_APPLIED_ITEMS + 1);
    assert_eq!(committed_files.len(), MAX_INLINE_APPLIED_ITEMS);
    assert_eq!(operation_count, MAX_INLINE_APPLIED_ITEMS + 1);
    assert_eq!(operations.len(), MAX_INLINE_APPLIED_ITEMS);
    assert_eq!(provider_synchronization_count, MAX_INLINE_APPLIED_ITEMS + 1);
    assert_eq!(provider_synchronization.len(), MAX_INLINE_APPLIED_ITEMS);
    assert!(details_truncated);
    assert_eq!(
        detail_resource,
        Some(applied_edit_result_resource_uri(
            &ProjectId::new("project").unwrap(),
            &plan_id,
            0,
        ))
    );
}

#[test]
fn applied_edit_result_defers_one_oversized_string() {
    let plan_id = PlanId::parse("plan").unwrap();
    let result = workspace_edit_apply_result(
        ApplyEditPlanOutcome::Applied(AppliedEditPlan {
            plan_id: plan_id.clone(),
            operations: vec!["o".repeat(MAX_APPROVAL_TEXT_BYTES + 1)],
            unified_diff: "small diff".to_owned(),
            complete_unified_diff: "small diff".to_owned(),
            committed_files: vec![FilePath::new("/workspace/src/lib.rs")],
            verification: None,
            provider_synchronization: vec![ProviderSynchronization {
                provider: "p".repeat(MAX_APPROVAL_TEXT_BYTES + 1),
                synchronized: false,
                watched_file_notifications: 0,
                message: Some("m".repeat(MAX_APPROVAL_TEXT_BYTES + 1)),
            }],
        }),
        "project",
        &workspace(),
    );

    let WorkspaceEditApplyResult::Applied {
        operations,
        provider_synchronization,
        detail_resource,
        details_truncated,
        ..
    } = result
    else {
        panic!("expected an applied edit result");
    };
    assert!(details_truncated);
    assert!(detail_resource.is_some());
    assert!(operations[0].ends_with("... (truncated)"));
    assert!(provider_synchronization[0]
        .provider
        .ends_with("... (truncated)"));
    assert!(provider_synchronization[0]
        .message
        .as_ref()
        .is_some_and(|message| message.ends_with("... (truncated)")));
}

#[test]
fn workspace_edit_apply_result_uses_explicit_statuses() {
    let applied = WorkspaceEditApplyResult::Applied {
        project_id: "project".to_owned(),
        plan_id: "plan".to_owned(),
        committed: true,
        committed_files: vec!["src/lib.rs".to_owned()],
        committed_file_count: 1,
        operations: vec!["edit src/lib.rs".to_owned()],
        operation_count: 1,
        unified_diff: "diff".to_owned(),
        detail_resource: None,
        verification: None,
        provider_synchronization: Vec::new(),
        provider_synchronization_count: 0,
        details_truncated: false,
        semantic_state: None,
    };
    let not_ready = WorkspaceEditApplyResult::NotReady {
        reason: "edit_in_progress".to_owned(),
        project_id: "project".to_owned(),
        plan_id: "plan".to_owned(),
        committed: false,
        retry: WorkspaceEditRetry {
            action: WorkspaceEditRetryAction::RetryApply,
            same_plan: true,
            after_ms: Some(100),
        },
        contention: WorkspaceEditContention {
            scope: WorkspaceEditContentionScope::SameWorktree,
            blocked_paths: vec!["src/lib.rs".to_owned()],
            blocked_path_count: 1,
        },
    };
    let conflict = WorkspaceEditApplyResult::Conflict {
        reason: "snapshot_changed".to_owned(),
        project_id: "project".to_owned(),
        plan_id: "plan".to_owned(),
        committed: false,
        retry: WorkspaceEditRetry {
            action: WorkspaceEditRetryAction::PreviewAgain,
            same_plan: false,
            after_ms: None,
        },
        changed_paths: vec!["src/lib.rs".to_owned()],
    };

    assert_eq!(
        parsed(&apply_value(&applied)),
        json(
            r#"{
                "status": "applied",
                "project_id": "project",
                "plan_id": "plan",
                "committed": true,
                "committed_files": ["src/lib.rs"],
                "committed_file_count": 1,
                "operations": ["edit src/lib.rs"],
                "operation_count": 1,
                "provider_synchronization_count": 0,
                "details_truncated": false,
                "unified_diff": "diff"
            }"#
        )
    );
    assert_eq!(
        parsed(&apply_value(&not_ready)),
        json(
            r#"{
                "status": "not_ready",
                "reason": "edit_in_progress",
                "project_id": "project",
                "plan_id": "plan",
                "committed": false,
                "retry": {"action": "retry_apply", "same_plan": true, "after_ms": 100},
                "contention": {
                    "scope": "same_worktree",
                    "blocked_paths": ["src/lib.rs"],
                    "blocked_path_count": 1
                }
            }"#
        )
    );
    assert_eq!(
        parsed(&apply_value(&conflict)),
        json(
            r#"{
                "status": "conflict",
                "reason": "snapshot_changed",
                "project_id": "project",
                "plan_id": "plan",
                "committed": false,
                "retry": {"action": "preview_again", "same_plan": false},
                "changed_paths": ["src/lib.rs"]
            }"#
        )
    );
}

#[test]
fn a_small_applied_result_is_shown_whole() {
    let output = workspace_edit_apply_json(
        ApplyEditPlanOutcome::Applied(AppliedEditPlan {
            plan_id: PlanId::parse("plan").unwrap(),
            operations: vec!["edit src/lib.rs".to_owned()],
            unified_diff: "diff".to_owned(),
            complete_unified_diff: "diff".to_owned(),
            committed_files: vec![FilePath::new("/workspace/src/lib.rs")],
            verification: Some(VerificationStatus::SemanticVerified),
            provider_synchronization: Vec::new(),
        }),
        "project",
        &workspace(),
    );
    let value = parsed(&output.value);
    assert_eq!(value["status"], "applied");
    assert_eq!(value["committed_files"][0], "src/lib.rs");
    assert_eq!(value["verification"], "semantic_verified");
    assert_eq!(value["details_truncated"], false);
    assert!(value.get("detail_resource").is_none());
    assert_eq!(json(&output.legacy), value);
    assert!(output.summary.is_some());
}

#[test]
fn busy_and_conflicting_plans_say_how_to_go_on() {
    let busy = workspace_edit_apply_json(
        ApplyEditPlanOutcome::NotReady(EditNotReady {
            plan_id: PlanId::parse("plan").unwrap(),
            blocked_paths: vec![FilePath::new("/workspace/src/lib.rs")],
            retry_after_ms: 75,
        }),
        "project",
        &workspace(),
    );
    let busy = parsed(&busy.value);
    assert_eq!(busy["status"], "not_ready");
    assert_eq!(busy["retry"]["after_ms"], 75);
    assert_eq!(busy["contention"]["blocked_paths"][0], "src/lib.rs");

    let conflict = workspace_edit_apply_json(
        ApplyEditPlanOutcome::Conflict(EditConflict {
            plan_id: PlanId::parse("plan").unwrap(),
            changed_paths: vec![FilePath::new("/elsewhere/a.rs")],
            reason: "snapshot_changed".to_owned(),
        }),
        "project",
        &workspace(),
    );
    let conflict = parsed(&conflict.value);
    assert_eq!(conflict["status"], "conflict");
    assert_eq!(conflict["reason"], "snapshot_changed");
    assert_eq!(conflict["retry"]["action"], "preview_again");
}

#[test]
fn paths_are_shown_relative_to_the_root_that_holds_them() {
    let roots = vec![FilePath::new("/work/a"), FilePath::new("/work/b")];
    let paths = vec![
        FilePath::new("/work/b/src/lib.rs"),
        FilePath::new("/work/a/main.rs"),
    ];
    assert_eq!(
        project_relative_paths(&roots, &paths),
        vec!["src/lib.rs".to_owned(), "main.rs".to_owned()]
    );
}

#[test]
fn long_approval_texts_are_cut_at_a_character() {
    assert_eq!(bounded_approval_text("short"), "short");
    let exact = "x".repeat(MAX_APPROVAL_TEXT_BYTES);
    assert_eq!(bounded_approval_text(&exact), exact);
    let long = "é".repeat(MAX_APPROVAL_TEXT_BYTES);
    let shown = bounded_approval_text(&long);
    assert!(shown.len() <= MAX_APPROVAL_TEXT_BYTES + "... (truncated)".len());
    assert!(shown.ends_with("... (truncated)"));
    assert!(shown.starts_with("éé"));
}
