use mcpls_core::apply::{MAX_APPROVAL_ITEMS, MAX_APPROVAL_TEXT_BYTES};
use mcpls_core::approval::{
    approval_arguments_digest, approval_binding, approval_detail_json, approval_input_required,
    approval_summary_json, parse_approval_response, ApprovalDecision, DiffFile,
    EditPlanApprovalSummary, FileOperation,
};
use mcpls_core::json::{json_str, render, JsonObject, JsonValue};
use mcpls_core::paths::FilePath;
use mcpls_core::project::PlanId;

fn parsed(value: &JsonValue) -> serde_json::Value {
    serde_json::from_str(&render(value)).unwrap()
}

fn summary() -> EditPlanApprovalSummary {
    EditPlanApprovalSummary {
        plan_id: PlanId::parse("plan").unwrap(),
        project_id: "project".to_owned(),
        affected_files: Vec::new(),
        operations: Vec::new(),
        file_operations: Vec::new(),
        diff_files: Vec::new(),
        diff_truncated: false,
        safe_to_apply: true,
        snapshot_hashes: Vec::new(),
        versions: Vec::new(),
    }
}

fn response(action: &str, approved: Option<bool>) -> Option<JsonObject> {
    let mut answer = JsonObject::new();
    answer.put("action", json_str(action));
    if let Some(approved) = approved {
        let mut content = JsonObject::new();
        content.put("approved", JsonValue::Bool(approved));
        answer.put("content", content.into_value());
    }
    let mut responses = JsonObject::new();
    responses.put("approval", answer.into_value());
    Some(responses)
}

#[test]
fn approval_summary_bounds_inline_lists_and_links_the_complete_plan() {
    let plan_id = PlanId::parse("plan").unwrap();
    let summary = EditPlanApprovalSummary {
        plan_id: plan_id.clone(),
        project_id: "project".to_owned(),
        affected_files: (0..=MAX_APPROVAL_ITEMS)
            .map(|index| FilePath::new(&format!("src/{index}.rs")))
            .collect(),
        operations: (0..=MAX_APPROVAL_ITEMS)
            .map(|index| format!("edit src/{index}.rs"))
            .collect(),
        file_operations: Vec::new(),
        diff_files: Vec::new(),
        diff_truncated: false,
        safe_to_apply: true,
        snapshot_hashes: Vec::new(),
        versions: Vec::new(),
    };

    let value = parsed(&approval_summary_json(&summary));

    assert_eq!(value["affected_file_count"], MAX_APPROVAL_ITEMS + 1);
    assert_eq!(
        value["affected_files"].as_array().unwrap().len(),
        MAX_APPROVAL_ITEMS
    );
    assert_eq!(value["operation_count"], MAX_APPROVAL_ITEMS + 1);
    assert_eq!(
        value["operations"].as_array().unwrap().len(),
        MAX_APPROVAL_ITEMS
    );
    assert_eq!(value["details_truncated"], true);
    assert_eq!(
        value["detail_resource"]["uri"],
        format!(
            "mcpls-edit-approval:///project?plan_id={}&offset_bytes=0",
            plan_id.as_str()
        )
    );
}

#[test]
fn approval_summary_marks_a_truncated_inline_operation() {
    let summary = EditPlanApprovalSummary {
        plan_id: PlanId::parse("plan").unwrap(),
        project_id: "project".to_owned(),
        affected_files: Vec::new(),
        operations: vec!["x".repeat(MAX_APPROVAL_TEXT_BYTES + 1)],
        file_operations: Vec::new(),
        diff_files: Vec::new(),
        diff_truncated: false,
        safe_to_apply: true,
        snapshot_hashes: Vec::new(),
        versions: Vec::new(),
    };

    assert_eq!(
        parsed(&approval_summary_json(&summary))["details_truncated"],
        true
    );
}

#[test]
fn approval_summary_names_the_most_far_reaching_operation() {
    let mut plan = summary();
    assert_eq!(
        parsed(&approval_summary_json(&plan))["operation_kind"],
        "text_edit"
    );
    plan.file_operations.push(FileOperation::Create {
        path: FilePath::new("src/new.rs"),
    });
    assert_eq!(
        parsed(&approval_summary_json(&plan))["operation_kind"],
        "create"
    );
    plan.file_operations.push(FileOperation::Rename {
        from: FilePath::new("src/a.rs"),
        to: FilePath::new("src/b.rs"),
    });
    assert_eq!(
        parsed(&approval_summary_json(&plan))["operation_kind"],
        "rename"
    );
    plan.file_operations.push(FileOperation::Delete {
        path: FilePath::new("src/old.rs"),
        recursive: false,
    });
    plan.diff_truncated = true;
    plan.safe_to_apply = false;
    let value = parsed(&approval_summary_json(&plan));
    assert_eq!(value["operation_kind"], "delete");
    assert_eq!(value["created_files"][0], "src/new.rs");
    assert_eq!(value["renamed_files"][0]["from"], "src/a.rs");
    assert_eq!(value["deleted_files"][0], "src/old.rs");
    let flags: Vec<&str> = value["risk_flags"]
        .as_array()
        .unwrap()
        .iter()
        .map(|flag| flag.as_str().unwrap())
        .collect();
    assert_eq!(
        flags,
        [
            "creates_files",
            "renames_files",
            "deletes_files",
            "diff_truncated",
            "plan_not_safe_to_apply"
        ]
    );
}

#[test]
fn approval_detail_is_complete() {
    let mut plan = summary();
    plan.affected_files = (0..=MAX_APPROVAL_ITEMS)
        .map(|index| FilePath::new(&format!("src/{index}.rs")))
        .collect();
    plan.diff_files = vec![DiffFile {
        path: FilePath::new("src/0.rs"),
        additions: 2,
        deletions: 1,
    }];
    plan.snapshot_hashes = vec!["hash".to_owned()];
    plan.versions = vec![Some(-3), None];
    let value = parsed(&approval_detail_json(&plan));
    assert_eq!(
        value["affected_files"].as_array().unwrap().len(),
        MAX_APPROVAL_ITEMS + 1
    );
    assert_eq!(value["diff_files"][0]["additions"], 2);
    assert_eq!(value["diff_files"][0]["deletions"], 1);
}

#[test]
fn approval_requests_ask_one_yes_or_no_question() {
    let mut plan = summary();
    plan.affected_files = vec![FilePath::new("src/lib.rs")];
    let request = approval_input_required("sealed".to_owned(), &plan);
    assert_eq!(request.input_id, "approval");
    assert_eq!(request.request_state, "sealed");
    assert_eq!(
        request.message,
        "Approve text_edit affecting 1 workspace file(s)?"
    );
    let schema = parsed(&request.requested_schema);
    assert_eq!(schema["required"][0], "approved");
    assert_eq!(schema["properties"]["approved"]["type"], "boolean");
    assert_eq!(schema["additionalProperties"], false);
    assert_eq!(
        parsed(&request.approval_summary),
        parsed(&approval_summary_json(&plan))
    );
}

#[test]
fn approval_responses_must_be_explicit() {
    assert_eq!(
        parse_approval_response(&response("accept", Some(true))).unwrap(),
        ApprovalDecision::Accept
    );
    assert_eq!(
        parse_approval_response(&response("decline", None)).unwrap(),
        ApprovalDecision::Decline
    );
    assert_eq!(
        parse_approval_response(&response("cancel", None)).unwrap(),
        ApprovalDecision::Decline
    );
    let explicit = "approval response must explicitly set approved=true";
    assert_eq!(
        parse_approval_response(&response("accept", None))
            .unwrap_err()
            .message,
        explicit
    );
    assert_eq!(
        parse_approval_response(&response("accept", Some(false)))
            .unwrap_err()
            .message,
        explicit
    );
    assert_eq!(
        parse_approval_response(&response("later", None))
            .unwrap_err()
            .message,
        "approval response action must be accept, decline, or cancel"
    );
    assert_eq!(
        parse_approval_response(&None).unwrap_err().message,
        "approval response is required with requestState"
    );
    let mut two = response("accept", Some(true)).unwrap();
    two.put("other", JsonValue::Null);
    assert_eq!(
        parse_approval_response(&Some(two)).unwrap_err().message,
        "approval response must contain exactly one approval entry"
    );
}

#[test]
fn bindings_tell_tools_sessions_and_arguments_apart() {
    let plan = PlanId::parse("plan").unwrap();
    let digest = approval_arguments_digest("project", &plan);
    assert_eq!(digest.len(), 64);
    assert_ne!(
        digest,
        approval_arguments_digest("projectp", &PlanId::parse("lan").unwrap())
    );
    let binding = approval_binding("session", None, "tool", &digest);
    assert_eq!(
        binding,
        format!("mcpls-mrtr-v1\0tools/call\0tool\0session\0\0{digest}").into_bytes()
    );
    assert_ne!(binding, approval_binding("session", None, "other", &digest));
    assert_ne!(binding, approval_binding("other", None, "tool", &digest));
    assert_ne!(
        binding,
        approval_binding("session", Some("someone"), "tool", &digest)
    );
}

#[test]
fn approval_summary_shows_short_plans_in_full() {
    let plan = EditPlanApprovalSummary {
        plan_id: PlanId::parse("plan").unwrap(),
        project_id: "project".to_owned(),
        affected_files: vec![FilePath::new("/work/a.rs"), FilePath::new("/work/b.rs")],
        operations: vec!["edit a".to_owned(), "edit b".to_owned()],
        file_operations: Vec::new(),
        diff_files: Vec::new(),
        diff_truncated: false,
        safe_to_apply: true,
        snapshot_hashes: Vec::new(),
        versions: Vec::new(),
    };

    let value = parsed(&approval_summary_json(&plan));

    assert_eq!(value["details_truncated"], false);
    assert_eq!(value["affected_file_count"], 2);
    assert_eq!(value["affected_files"][1], "/work/b.rs");
    assert_eq!(value["operations"][0], "edit a");
    assert_eq!(
        value["detail_resource"]["uri"],
        "mcpls-edit-approval:///project?plan_id=plan&offset_bytes=0"
    );
}
