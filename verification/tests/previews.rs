use mcpls_core::approval::DiffFile;
use mcpls_core::apply::VerificationStatus;
use mcpls_core::errors::ErrorCode;
use mcpls_core::handlers::HandlerContext;
use mcpls_core::json::{render, JsonValue};
use mcpls_core::paths::FilePath;
use mcpls_core::previews::{
    bounded_structural_preview_json, compact_structural_preview_json, generated_preview_answer,
    parse_structural_dialect, path_rename_preview_json, preview_answer, preview_artifact_json,
    structural_match_inventory_json, structural_preview_json, structural_source_resource,
    supported_preview_answer, EditPlan, FileSnapshot, PathRenamePreview, PreviewArtifact,
    SnapshotSource, StructuralAnswer, StructuralDialect, StructuralMatch, StructuralMatchedFile,
    StructuralPreview,
};
use mcpls_core::project::PlanId;
use mcpls_core::tools::{DeferredResourceReference, Position, Range};
use serde_json::Value;

fn parsed(value: &JsonValue) -> Value {
    serde_json::from_str(&render(value)).unwrap()
}

fn artifact(diff_truncated: bool) -> PreviewArtifact {
    PreviewArtifact {
        plan: EditPlan {
            id: PlanId::parse("plan").unwrap(),
            files: vec![FileSnapshot {
                path: FilePath::new("src/huge.rs"),
                source: SnapshotSource::Disk,
                version: None,
                content_hash: "hash".to_owned(),
            }],
            diff_files: vec![DiffFile {
                path: FilePath::new("src/huge.rs"),
                additions: 20_000,
                deletions: 20_000,
            }],
            unified_diff: "-old line\n+new line\n".to_owned(),
            diff_truncated,
            operations: vec!["text src/huge.rs".to_owned()],
            safe_to_apply: false,
        },
        affected_files: vec![FilePath::new("src/huge.rs")],
        conflicts: vec!["conflict".to_owned()],
        unsupported: vec!["unsupported".to_owned()],
        verification: None,
        producer: None,
    }
}

fn position(line: u32) -> Position {
    Position { line, character: 1 }
}

fn structural(count: u32, with_plan: bool) -> StructuralPreview {
    StructuralPreview {
        dialect: StructuralDialect::AstGrep,
        parse_only: false,
        matches: (1..=count)
            .map(|line| StructuralMatch {
                path: FilePath::new("/workspace/src.rs"),
                range: Range {
                    start: position(line),
                    end: position(line),
                },
            })
            .collect(),
        matched_files: vec![StructuralMatchedFile {
            path: FilePath::new("/workspace/src.rs"),
            content_hash: "hash".to_owned(),
            document_version: Some(3),
            total_bytes: 99,
            source_uri: Ok("mcpls-source:///workspace/src.rs?start_line=1".to_owned()),
        }],
        artifact: with_plan.then_some(artifact(false)),
    }
}

fn reference(kind: &str) -> DeferredResourceReference {
    DeferredResourceReference {
        uri: "mcpls-deferred:///token".to_owned(),
        kind: kind.to_owned(),
        snapshot_hash: "hash".to_owned(),
        document_version: None,
        total_bytes: Some(100_000),
    }
}

#[test]
fn truncated_preview_keeps_complete_metadata() {
    let mut artifact = artifact(true);
    let lines: String = (0..20_000)
        .map(|line| format!("-old line {line}\n+new line {line}\n"))
        .collect();
    artifact.plan.unified_diff = lines[..12 * 1024].to_owned();

    let value = parsed(&preview_artifact_json(&artifact, "project"));

    let serialized_bytes = serde_json::to_vec(&value).unwrap().len();
    assert!(
        serialized_bytes <= 16 * 1024,
        "preview used {serialized_bytes} serialized bytes"
    );
    assert_eq!(value["diff_truncated"], true);
    assert_eq!(value["diff_files"][0]["additions"], 20_000);
    assert_eq!(value["diff_files"][0]["deletions"], 20_000);
    assert_eq!(value["operations"][0], "text src/huge.rs");
    assert_eq!(value["conflicts"][0], "conflict");
    assert_eq!(value["unsupported"][0], "unsupported");
    assert_eq!(value["preconditions"].as_array().unwrap().len(), 1);
    assert_eq!(value["safe_to_apply"], false);
    assert_eq!(
        value["diff_resource"]["uri"],
        format!(
            "mcpls-edit-diff:///project?plan_id={}&offset_bytes=0",
            artifact.plan.id.as_str()
        )
    );
}

#[test]
fn whole_previews_have_no_diff_link() {
    let mut whole = artifact(false);
    let value = parsed(&preview_artifact_json(&whole, "project"));
    assert!(value.get("diff_resource").is_none());
    assert!(value.get("verification").is_none());
    assert!(value.get("producer").is_none());
    assert_eq!(value["preconditions"][0]["source"], "disk");
    assert_eq!(value["preconditions"][0]["sha256"], "hash");
    assert!(value["preconditions"][0]["version"].is_null());
    whole.plan.files[0].source = SnapshotSource::OpenDocument;
    whole.plan.files[0].version = Some(-1);
    whole.verification = Some(VerificationStatus::SemanticVerified);
    whole.producer = Some("rust-analyzer".to_owned());
    let value = parsed(&preview_artifact_json(&whole, "project"));
    assert_eq!(value["preconditions"][0]["source"], "open_document");
    assert_eq!(value["preconditions"][0]["version"], -1);
    assert_eq!(value["verification"], "semantic_verified");
    assert_eq!(value["producer"], "rust-analyzer");
}

#[test]
fn previewed_plans_belong_to_the_session() {
    let plan = PlanId::parse("plan").unwrap();
    let mut context = HandlerContext::for_session();
    let output = preview_answer(&mut context, &artifact(false), "project");
    assert!(context.owns_plan(&plan));
    assert_eq!(output.value, preview_artifact_json(&artifact(false), "project"));

    let mut context = HandlerContext::for_session();
    let output = generated_preview_answer(&mut context, true, &None, "project");
    assert!(!context.owns_plan(&plan));
    assert_eq!(
        output.legacy,
        r#"{"changed":false,"project_id":"project","supported":true}"#
    );
    generated_preview_answer(&mut context, true, &Some(artifact(false)), "project");
    assert!(context.owns_plan(&plan));

    let mut context = HandlerContext::for_session();
    let output = supported_preview_answer(&mut context, false, &None, "project");
    assert_eq!(
        output.legacy,
        r#"{"changed":false,"project_id":"project","supported":false}"#
    );
    let output = supported_preview_answer(&mut context, true, &Some(artifact(false)), "project");
    assert!(context.owns_plan(&plan));
    assert_eq!(output.value.get("changed").unwrap().as_bool(), Some(true));
    assert_eq!(output.value.get("supported").unwrap().as_bool(), Some(true));
    assert_eq!(output.value.get("plan_id").unwrap().as_str(), Some("plan"));
}

#[test]
fn path_renames_name_their_providers() {
    let mut rename = PathRenamePreview {
        artifact: artifact(false),
        providers: Vec::new(),
        semantic_edit_count: 0,
    };
    let value = parsed(&path_rename_preview_json(&rename, "project"));
    assert_eq!(value["semantic_provider_available"], false);
    rename.providers.push("rust-analyzer".to_owned());
    rename.semantic_edit_count = 4;
    let value = parsed(&path_rename_preview_json(&rename, "project"));
    assert_eq!(value["semantic_provider_available"], true);
    assert_eq!(value["semantic_providers"][0], "rust-analyzer");
    assert_eq!(value["semantic_edit_count"], 4);
}

#[test]
fn dialects_are_named() {
    for dialect in [StructuralDialect::RustAnalyzerSsr, StructuralDialect::AstGrep] {
        assert_eq!(parse_structural_dialect(dialect.as_str()).unwrap(), dialect);
    }
    let error = parse_structural_dialect("regex").unwrap_err();
    assert_eq!(error.code, ErrorCode::InvalidParams);
    assert!(error.message.contains("regex"));
}

#[test]
fn short_structural_previews_are_inline() {
    let result = structural(2, false);
    let StructuralAnswer::Inline(json) =
        bounded_structural_preview_json("project", &result).unwrap()
    else {
        panic!("expected an inline preview");
    };
    assert_eq!(json, structural_preview_json(&result, "project"));
    let value = parsed(&json);
    assert_eq!(value["match_count"], 2);
    assert_eq!(value["returned_match_count"], 2);
    assert_eq!(value["remaining_match_count"], 0);
    assert_eq!(value["matched_files"][0], "/workspace/src.rs");
    assert_eq!(value["matches"][1]["range"]["start"]["line"], 2);
    assert_eq!(value["safe_to_apply"], false);
    assert_eq!(value["unsupported"].as_array().unwrap().len(), 0);
    assert!(value.get("plan_id").is_none());
}

#[test]
fn long_structural_previews_are_deferred_and_accounted() {
    let result = structural(256, true);
    let StructuralAnswer::Deferred { inventory, details } =
        bounded_structural_preview_json("project", &result).unwrap()
    else {
        panic!("expected a deferred preview");
    };
    let listed = parsed(&inventory);
    assert_eq!(listed["file_count"], 1);
    assert_eq!(listed["match_count"], 256);
    assert_eq!(listed["matches"].as_array().unwrap().len(), 256);
    assert_eq!(listed["files"][0]["snapshot_hash"], "hash");
    assert_eq!(listed["files"][0]["source_resource"]["total_bytes"], 99);
    assert_eq!(details.unwrap().get("plan_id").unwrap().as_str(), Some("plan"));

    let compact = compact_structural_preview_json(
        "project",
        &result,
        &reference("structural_matches"),
        &Some(reference("plan_details")),
    );
    assert!(render(&compact).len() <= 16 * 1024);
    let compact = parsed(&compact);
    assert_eq!(compact["match_count"], 256);
    assert_eq!(
        compact["returned_match_count"].as_u64().unwrap()
            + compact["remaining_match_count"].as_u64().unwrap(),
        256
    );
    assert_eq!(compact["matches_resource"]["kind"], "structural_matches");
    assert_eq!(compact["plan_details_resource"]["kind"], "plan_details");
    assert_eq!(compact["operation_count"], 1);
    assert_eq!(compact["precondition_count"], 1);
    assert_eq!(compact["plan_id"], "plan");

    let search = structural(256, false);
    let compact = parsed(&compact_structural_preview_json(
        "project",
        &search,
        &reference("structural_matches"),
        &None,
    ));
    assert!(compact.get("plan_id").is_none());
    assert!(compact.get("plan_details_resource").is_none());
}

#[test]
fn inventories_need_every_source() {
    let mut result = structural(2, false);
    result.matches[1].path = FilePath::new("/workspace/other.rs");
    let error = structural_match_inventory_json(&result).unwrap_err();
    assert_eq!(error.message, "structural match has no source snapshot");
    result.matched_files[0].source_uri = Err("no uri".to_owned());
    let error = structural_match_inventory_json(&result).unwrap_err();
    assert_eq!(error.message, "no uri");
    let error = structural_source_resource(&result.matched_files[0]).unwrap_err();
    assert_eq!(error.code, ErrorCode::InternalError);
    let source = structural_source_resource(&structural(1, false).matched_files[0]).unwrap();
    assert_eq!(source.kind, "source_context");
    assert_eq!(source.document_version, Some(3));
}

#[test]
fn compact_previews_stay_small() {
    let mut result = structural(5_000, true);
    let plan = &mut result.artifact.as_mut().unwrap().plan;
    plan.operations = vec!["x".repeat(1_000); 500];
    let compact = compact_structural_preview_json(
        &"p".repeat(256),
        &result,
        &reference("structural_matches"),
        &Some(reference("structural_plan_details")),
    );
    assert!(render(&compact).len() <= 16 * 1024);
    assert_eq!(compact.get("operation_count").unwrap().as_u64(), Some(500));
}
