use mcpls_core::errors::McpError;
use mcpls_core::json::{json_number, json_str, JsonNumber, JsonObject, JsonValue};
use mcpls_core::paths::FilePath;
use mcpls_core::previews::StructuralDialect;
use mcpls_core::project::{PlanId, ProjectId};
use mcpls_core::requests::{
    call_hierarchy_item_path, call_hierarchy_target, call_hierarchy_uri_path, code_action_preview, diagnostics_mode,
    first_call_item, format_preview, move_inline_module_preview, move_item_preview,
    parse_position_encoding, path_rename_preview, prepare_call_hierarchy, range_format_preview,
    references_page_offset, rename_preview, semantic_target, structural_replace_preview,
    symbol_handle_error, workspace_edit_preview, workspace_edit_request, CallItem, GeneratedEditRequest,
    PathRenameRequest, PositionEncoding,
    SemanticRoute,
};
use mcpls_core::resources::UriParts;
use mcpls_core::tools::{
    CallHierarchyCallsParams, CallHierarchyPrepareParams, CodeActionPreviewParams,
    DiagnosticsMode, FormatPreviewParams, MoveInlineModulePreviewParams, MoveItemPreviewParams,
    PathRenamePreviewParams, Position, RangeFormatPreviewParams, RenamePreviewParams,
    StructuralReplacePreviewParams, SymbolHandle, WorkspaceEditPreviewParams,
};

fn project() -> ProjectId {
    ProjectId::new("project").unwrap()
}

fn handle() -> SymbolHandle {
    SymbolHandle {
        text: "handle".to_owned(),
    }
}

fn item(uri: JsonValue) -> JsonValue {
    let mut fields = JsonObject::new();
    fields.put("name", json_str("run"));
    fields.put("uri", uri);
    fields.into_map()
}

fn refused<T: std::fmt::Debug>(result: Result<T, McpError>) -> String {
    result.unwrap_err().message
}

#[test]
fn position_encodings_are_named() {
    for (name, encoding) in [
        ("utf-8", PositionEncoding::Utf8),
        ("utf-16", PositionEncoding::Utf16),
        ("utf-32", PositionEncoding::Utf32),
    ] {
        assert_eq!(
            parse_position_encoding(&Some(name.to_owned())).unwrap(),
            encoding
        );
    }
    assert_eq!(
        parse_position_encoding(&None).unwrap(),
        PositionEncoding::Utf8
    );
    assert_eq!(
        refused(parse_position_encoding(&Some("utf-7".to_owned()))),
        "unsupported position encoding: utf-7"
    );
}

#[test]
fn renames_carry_their_position() {
    let params = |project_id: &str, encoding: Option<&str>| RenamePreviewParams {
        project_id: project_id.to_owned(),
        file_path: "/workspace/a.rs".to_owned(),
        line: 3,
        character: 4,
        new_name: "renamed".to_owned(),
        position_encoding: encoding.map(str::to_owned),
    };
    let edit = rename_preview(params("project", Some("utf-16"))).unwrap();
    assert_eq!(edit.project_id, project());
    assert_eq!(edit.encoding, PositionEncoding::Utf16);
    assert!(!edit.capability_gated);
    assert_eq!(
        edit.request,
        GeneratedEditRequest::Rename {
            file_path: "/workspace/a.rs".to_owned(),
            line: 3,
            character: 4,
            new_name: "renamed".to_owned(),
        }
    );
    assert_eq!(
        refused(rename_preview(params("", None))),
        "project id must not be empty"
    );
    assert_eq!(
        refused(rename_preview(params("project", Some("ascii")))),
        "unsupported position encoding: ascii"
    );
}

#[test]
fn formatting_is_of_a_document_or_a_range() {
    let whole = format_preview(FormatPreviewParams {
        project_id: "project".to_owned(),
        file_path: "a.rs".to_owned(),
        tab_size: 4,
        insert_spaces: true,
        position_encoding: None,
        range: None,
    })
    .unwrap();
    assert!(!whole.capability_gated);
    assert_eq!(
        whole.request,
        GeneratedEditRequest::Format {
            file_path: "a.rs".to_owned(),
            tab_size: 4,
            insert_spaces: true,
        }
    );
    let range = range_format_preview(RangeFormatPreviewParams {
        project_id: "project".to_owned(),
        file_path: "a.rs".to_owned(),
        start_line: 1,
        start_character: 2,
        end_line: 3,
        end_character: 4,
        tab_size: 8,
        insert_spaces: false,
        position_encoding: None,
    })
    .unwrap();
    assert!(range.capability_gated);
    assert_eq!(
        range.request,
        GeneratedEditRequest::RangeFormat {
            file_path: "a.rs".to_owned(),
            start: (1, 2),
            end: (3, 4),
            tab_size: 8,
            insert_spaces: false,
        }
    );
    let moved = move_item_preview(MoveItemPreviewParams {
        project_id: "project".to_owned(),
        file_path: "a.rs".to_owned(),
        start_line: 1,
        start_character: 2,
        end_line: 3,
        end_character: 4,
        direction: "up".to_owned(),
        position_encoding: None,
    })
    .unwrap();
    assert!(moved.capability_gated);
    assert_eq!(
        moved.request,
        GeneratedEditRequest::MoveItem {
            file_path: "a.rs".to_owned(),
            start: (1, 2),
            end: (3, 4),
            direction: "up".to_owned(),
        }
    );
}

fn edit_params(
    project_id: &str,
    edit: JsonValue,
    encoding: Option<&str>,
) -> WorkspaceEditPreviewParams {
    WorkspaceEditPreviewParams {
        project_id: project_id.to_owned(),
        workspace_edit: edit,
        position_encoding: encoding.map(str::to_owned),
    }
}

fn object(fields: Vec<(&str, JsonValue)>) -> JsonValue {
    let mut object = JsonObject::new();
    for (key, value) in fields {
        object.put(key, value);
    }
    JsonValue::Object(object)
}

fn position_of(line: usize, character: usize) -> JsonValue {
    object(vec![
        ("line", json_number(line)),
        ("character", json_number(character)),
    ])
}

#[test]
fn workspace_edits_are_checked_before_their_encoding() {
    assert_eq!(
        refused(workspace_edit_preview(&edit_params("", JsonValue::Null, None))),
        "project id must not be empty"
    );
    assert_eq!(
        refused(workspace_edit_preview(&edit_params(
            "project",
            JsonValue::Null,
            Some("x")
        ))),
        "invalid type: null, expected struct WorkspaceEdit"
    );
    assert_eq!(
        refused(workspace_edit_preview(&edit_params(
            "project",
            object(Vec::new()),
            Some("x")
        ))),
        "unsupported position encoding: x"
    );
    let (id, edit, encoding) =
        workspace_edit_preview(&edit_params("project", object(Vec::new()), None)).unwrap();
    assert_eq!((id, encoding), (project(), PositionEncoding::Utf8));
    assert_eq!(edit, lsp_types::WorkspaceEdit::default());
}

#[test]
fn workspace_edits_are_read_from_their_json() {
    let text_edit = object(vec![
        (
            "range",
            object(vec![("start", position_of(1, 2)), ("end", position_of(3, 4))]),
        ),
        ("newText", json_str("new \"text\"")),
    ]);
    let changes = object(vec![(
        "file:///work/a.rs",
        JsonValue::Array(vec![text_edit]),
    )]);
    let (_, edit, encoding) = workspace_edit_preview(&edit_params(
        "project",
        object(vec![("changes", changes)]),
        Some("utf-16"),
    ))
    .unwrap();
    assert_eq!(encoding, PositionEncoding::Utf16);
    let changes = edit.changes.unwrap();
    assert_eq!(changes.len(), 1);
    let (uri, edits) = changes.into_iter().next().unwrap();
    assert_eq!(uri.as_str(), "file:///work/a.rs");
    assert_eq!(edits[0].range.start.line, 1);
    assert_eq!(edits[0].range.end.character, 4);
    assert_eq!(edits[0].new_text, "new \"text\"");

    let wrong = object(vec![("changes", json_number(7))]);
    assert_eq!(
        refused(workspace_edit_preview(&edit_params("project", wrong, None))),
        "invalid type: integer `7`, expected a map"
    );
}

#[test]
fn workspace_edits_may_nest_deeply() {
    let mut deep = JsonValue::Null;
    for _ in 0..300 {
        deep = JsonValue::Array(vec![deep]);
    }
    let (_, edit, _) = workspace_edit_preview(&edit_params(
        "project",
        object(vec![("ignored", deep)]),
        None,
    ))
    .unwrap();
    assert_eq!(edit, lsp_types::WorkspaceEdit::default());

    let mut texts = JsonObject::new();
    texts.put("changes", JsonValue::Number(JsonNumber::Real("1.5".to_owned())));
    assert_eq!(
        refused(workspace_edit_preview(&edit_params(
            "project",
            JsonValue::Object(texts),
            None
        ))),
        "invalid type: floating point `1.5`, expected a map"
    );
    let negative = object(vec![(
        "changes",
        JsonValue::Number(JsonNumber::Negative(-3)),
    )]);
    assert_eq!(
        refused(workspace_edit_preview(&edit_params("project", negative, None))),
        "invalid type: integer `-3`, expected a map"
    );
}

#[test]
fn read_edits_go_on_to_their_request() {
    let edit = lsp_types::WorkspaceEdit::default();
    let (id, found, encoding) =
        workspace_edit_request("project", Ok(edit.clone()), &None).unwrap();
    assert_eq!((id, found, encoding), (project(), edit, PositionEncoding::Utf8));
    assert_eq!(
        refused(workspace_edit_request(
            "project",
            Err("no edit".to_owned()),
            &Some("x".to_owned())
        )),
        "no edit"
    );
}

#[test]
fn inline_modules_are_placed_by_both_coordinates() {
    let params = |line, character| MoveInlineModulePreviewParams {
        project_id: "project".to_owned(),
        file_path: "a.rs".to_owned(),
        module_name: "inner".to_owned(),
        module_line: line,
        module_character: character,
        position_encoding: None,
    };
    assert_eq!(
        move_inline_module_preview(params(None, None)).unwrap().position,
        None
    );
    let moved = move_inline_module_preview(params(Some(2), Some(3))).unwrap();
    assert_eq!(
        moved.position,
        Some(Position {
            line: 2,
            character: 3
        })
    );
    assert_eq!((moved.file_path.as_str(), moved.module_name.as_str()), ("a.rs", "inner"));
    for (line, character) in [(Some(2), None), (None, Some(3))] {
        assert_eq!(
            refused(move_inline_module_preview(params(line, character))),
            "module_line and module_character must be provided together"
        );
    }
}

#[test]
fn path_and_structural_requests_are_read() {
    let renamed = path_rename_preview(PathRenamePreviewParams {
        project_id: "project".to_owned(),
        old_path: "a.rs".to_owned(),
        new_path: "b.rs".to_owned(),
        position_encoding: None,
    });
    assert_eq!(
        renamed.unwrap(),
        PathRenameRequest {
            project_id: project(),
            old_path: "a.rs".to_owned(),
            new_path: "b.rs".to_owned(),
            encoding: PositionEncoding::Utf8,
        }
    );
    let params = |dialect: &str, encoding: Option<&str>| StructuralReplacePreviewParams {
        project_id: "project".to_owned(),
        file_path: "a.rs".to_owned(),
        dialect: dialect.to_owned(),
        query: "foo($A)".to_owned(),
        replacement: None,
        language_id: None,
        parse_only: false,
        position_encoding: encoding.map(str::to_owned),
    };
    let request = structural_replace_preview(params("ast_grep", None)).unwrap();
    assert_eq!(request.dialect, StructuralDialect::AstGrep);
    assert_eq!((request.file_path.as_str(), request.query.as_str()), ("a.rs", "foo($A)"));
    assert!(refused(structural_replace_preview(params("regex", Some("x")))).contains("regex"));
    assert_eq!(
        refused(structural_replace_preview(params("ast_grep", Some("x")))),
        "unsupported position encoding: x"
    );
}

#[test]
fn code_actions_are_found_by_reference() {
    let params = |project_id: &str, action_id: &str| CodeActionPreviewParams {
        project_id: project_id.to_owned(),
        action_id: action_id.to_owned(),
        position_encoding: None,
    };
    let request = code_action_preview(&params("project", "action")).unwrap();
    assert_eq!(request.action_id, PlanId::parse("action").unwrap());
    assert_eq!(
        refused(code_action_preview(&params("", ""))),
        "project id must not be empty"
    );
    assert_eq!(
        refused(code_action_preview(&params("project", ""))),
        "plan id must not be empty"
    );
}

#[test]
fn semantic_requests_are_routed() {
    assert_eq!(
        semantic_target(Some("project".to_owned()), Some(handle()), "").unwrap(),
        SemanticRoute::Handle {
            project_id: project(),
            symbol_handle: handle(),
        }
    );
    assert_eq!(
        semantic_target(Some("project".to_owned()), None, "a.rs").unwrap(),
        SemanticRoute::Project {
            project_id: project()
        }
    );
    assert_eq!(
        semantic_target(None, None, "a.rs").unwrap(),
        SemanticRoute::Path
    );
    assert_eq!(
        refused(semantic_target(None, Some(handle()), "a.rs")),
        "project_id is required with symbol_handle"
    );
    assert_eq!(
        refused(semantic_target(Some("project".to_owned()), None, "")),
        "file_path, line, and character or project_id and symbol_handle are required"
    );
    assert_eq!(
        refused(semantic_target(Some(String::new()), None, "a.rs")),
        "project id must not be empty"
    );
}

#[test]
fn page_token_does_not_require_coordinates() {
    let params = |project_id: Option<&str>| CallHierarchyPrepareParams {
        file_path: String::new(),
        line: 0,
        character: 0,
        project_id: project_id.map(str::to_owned),
        page_token: Some("mcpls-deferred:///missing".to_owned()),
        symbol_handle: None,
    };
    assert_eq!(
        prepare_call_hierarchy(params(Some("missing"))).unwrap(),
        SemanticRoute::Project {
            project_id: ProjectId::new("missing").unwrap()
        }
    );
    assert_eq!(
        refused(prepare_call_hierarchy(params(None))),
        "page_token requires project_id or file_path"
    );
    let mut first = params(Some("missing"));
    first.page_token = None;
    assert!(refused(prepare_call_hierarchy(first)).contains("file_path, line, and character"));
}

#[test]
fn stale_handles_are_told_from_invalid_ones() {
    for (message, code) in [
        ("stale_symbol_handle: file changed", "stale_symbol_handle"),
        ("cannot decode", "invalid_symbol_handle"),
    ] {
        let error = symbol_handle_error(message);
        assert_eq!(error.message, message);
        let data = error.data.unwrap();
        assert_eq!(data.get("code").unwrap().as_str(), Some(code));
        assert_eq!(
            data.get("refresh").unwrap().as_str(),
            Some("rerun symbol discovery and use the new handle")
        );
    }
}

#[test]
fn call_items_lie_in_files() {
    assert_eq!(
        call_hierarchy_item_path(&item(json_str("file:///workspace/a%20b.rs"))).unwrap(),
        FilePath::new("/workspace/a b.rs")
    );
    assert_eq!(
        refused(call_hierarchy_item_path(&item(json_str("https://example.org/a.rs")))),
        "call hierarchy item uri must be an absolute file URI"
    );
    assert_eq!(
        refused(call_hierarchy_item_path(&item(json_number(1)))),
        "call hierarchy item is missing uri"
    );
    assert_eq!(
        refused(call_hierarchy_item_path(&JsonValue::Null)),
        "call hierarchy item is missing uri"
    );
    let no_uri = refused(call_hierarchy_item_path(&item(json_str("not a uri"))));
    assert_eq!(no_uri, "not a uri".parse::<lsp_types::Uri>().unwrap_err().to_string());
    let parts = UriParts {
        scheme: Some("file".to_owned()),
        authority: Some("host".to_owned()),
        path: "/a.rs".to_owned(),
    };
    assert_eq!(
        refused(call_hierarchy_uri_path(Ok(parts))),
        "call hierarchy item uri must be an absolute file URI"
    );
    assert_eq!(
        refused(call_hierarchy_uri_path(Err("bad".to_owned()))),
        "bad"
    );
}

#[test]
fn calls_start_from_a_handle_or_an_item() {
    let params = |item, project_id: Option<&str>, symbol_handle| CallHierarchyCallsParams {
        item,
        project_id: project_id.map(str::to_owned),
        symbol_handle,
        limits: JsonValue::Null,
        page_token: None,
    };
    assert_eq!(
        call_hierarchy_target(params(None, Some("project"), Some(handle()))).unwrap(),
        CallItem::Handle(SemanticRoute::Handle {
            project_id: project(),
            symbol_handle: handle(),
        })
    );
    assert_eq!(
        call_hierarchy_target(params(Some(item(json_str("file:///a.rs"))), None, None)).unwrap(),
        CallItem::Given(FilePath::new("/a.rs"))
    );
    assert_eq!(
        refused(call_hierarchy_target(params(None, Some("project"), None))),
        "item or project_id and symbol_handle are required"
    );
    assert_eq!(
        refused(call_hierarchy_target(params(None, None, Some(handle())))),
        "project_id is required with symbol_handle"
    );
    assert_eq!(
        first_call_item(vec![json_number(1), json_number(2)]).unwrap(),
        json_number(1)
    );
    assert_eq!(
        refused(first_call_item(Vec::new())),
        "symbol handle does not resolve to a callable item"
    );
}

#[test]
fn reference_pages_have_decimal_tokens() {
    assert_eq!(references_page_offset(&None).unwrap(), 0);
    assert_eq!(references_page_offset(&Some("40".to_owned())).unwrap(), 40);
    for token in ["", "x", "-1", "99999999999999999999999"] {
        assert_eq!(
            refused(references_page_offset(&Some(token.to_owned()))),
            "page_token must be the decimal next_cursor returned by get_references"
        );
    }
}

#[test]
fn fresh_diagnostics_are_asked_for() {
    use_mode(DiagnosticsMode::CachedPreferred, None, DiagnosticsMode::CachedPreferred);
    use_mode(DiagnosticsMode::CacheOnly, None, DiagnosticsMode::CacheOnly);
    use_mode(DiagnosticsMode::Fresh, None, DiagnosticsMode::Fresh);
    use_mode(DiagnosticsMode::CachedPreferred, Some(true), DiagnosticsMode::Fresh);
    use_mode(DiagnosticsMode::CachedPreferred, Some(false), DiagnosticsMode::CacheOnly);
    for mode in [DiagnosticsMode::Fresh, DiagnosticsMode::CacheOnly] {
        assert_eq!(
            refused(diagnostics_mode(mode, Some(true))),
            "fresh cannot be combined with mode"
        );
    }
}

fn use_mode(mode: DiagnosticsMode, fresh: Option<bool>, expected: DiagnosticsMode) {
    assert_eq!(diagnostics_mode(mode, fresh).unwrap(), expected);
}
