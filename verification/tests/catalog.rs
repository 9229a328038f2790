use mcpls_core::catalog::{
    advertised_tools, advertised_tools_page, compact_advertised_description,
    compact_advertised_input_schema, compact_advertised_schema_value, project_list,
    project_list_page, resource_page, tool_catalog_rank, Resource, Tool,
    ADVERTISED_TOOL_PAGE_SIZE, PROJECT_LIST_PAGE_SIZE, RESOURCE_PAGE_SIZE,
};
use mcpls_core::json::{json_str, render, JsonObject, JsonValue};
use mcpls_core::paths::FilePath;
use mcpls_core::project::ProjectId;
use mcpls_core::status::ProjectIdentity;

const LEGACY: [&str; 7] = [
    "rename_symbol",
    "format_document",
    "get_code_actions",
    "get_cached_diagnostics",
    "workspace_symbol_search_batch",
    "inspect_symbol_batch",
    "range_format_preview",
];

const REGISTERED: [&str; 16] = [
    "get_references",
    "project_list",
    "code_action_list",
    "code_action_apply",
    "workspace_edit_apply",
    "workspace_edit_preview",
    "project_add",
    "structural_replace_preview",
    "read_semantic_resource",
    "lexical_search",
    "format_preview",
    "get_diagnostics",
    "inspect_symbol",
    "workspace_symbol_search",
    "project_activate",
    "get_hover",
];

const ALL_TOOLS: [&str; 51] = [
    "project_add",
    "project_activate",
    "project_list",
    "subscription_list",
    "health",
    "server_status",
    "project_status",
    "project_remove",
    "project_restart_lsp",
    "project_configure_cargo_features",
    "project_refresh",
    "workspace_edit_preview",
    "rename_preview",
    "format_preview",
    "move_item_preview",
    "move_inline_module_preview",
    "path_rename_preview",
    "structural_replace_preview",
    "workspace_edit_apply",
    "rename_apply",
    "format_apply",
    "code_action_apply",
    "get_hover",
    "get_definition",
    "get_declaration",
    "get_parent_module",
    "get_child_modules",
    "expand_macro",
    "get_selection_ranges",
    "discover_runnables",
    "discover_related_tests",
    "get_references",
    "get_diagnostics",
    "get_completions",
    "get_document_symbols",
    "workspace_symbol_search",
    "lexical_search",
    "inspect_symbol",
    "code_action_list",
    "code_action_preview",
    "prepare_call_hierarchy",
    "get_incoming_calls",
    "get_outgoing_calls",
    "get_server_logs",
    "get_server_messages",
    "project_lsp_capabilities",
    "get_signature_help",
    "go_to_implementation",
    "go_to_type_definition",
    "get_inlay_hints",
    "read_semantic_resource",
];

fn schema() -> JsonObject {
    let mut title = JsonObject::new();
    title.put("type", json_str("string"));
    title.put("description", json_str("a property named title"));
    let mut properties = JsonObject::new();
    properties.put("title", title.into_value());
    let mut fields = JsonObject::new();
    fields.put("$schema", json_str("draft"));
    fields.put("title", json_str("Params"));
    fields.put("type", json_str("object"));
    fields.put("properties", properties.into_value());
    fields.put("required", JsonValue::Array(vec![json_str("title")]));
    fields
}

fn tool(name: &str) -> Tool {
    Tool {
        name: name.to_owned(),
        description: Some("long description".to_owned()),
        input_schema: schema(),
        output_schema: Some(JsonObject::new()),
        annotations: Some(json_str("kept")),
    }
}

fn registered() -> Vec<Tool> {
    REGISTERED
        .iter()
        .chain(LEGACY.iter())
        .map(|name| tool(name))
        .collect()
}

fn names(tools: &[Tool]) -> Vec<&str> {
    tools.iter().map(|tool| tool.name.as_str()).collect()
}

#[test]
fn resource_pages_are_lossless_and_bounded() {
    let resources = || {
        (0..=RESOURCE_PAGE_SIZE)
            .map(|index| Resource {
                uri: format!("mcpls://resource/{index}"),
                name: index.to_string(),
                mime_type: "application/json".to_owned(),
                description: String::new(),
            })
            .collect::<Vec<_>>()
    };
    let expected = resources()
        .into_iter()
        .map(|resource| resource.uri)
        .collect::<Vec<_>>();
    let mut cursor = None;
    let mut uris = Vec::new();

    loop {
        let (page, next_cursor): (Vec<Resource>, Option<String>) =
            resource_page(resources(), cursor.as_deref()).unwrap();
        assert!(page.len() <= RESOURCE_PAGE_SIZE);
        uris.extend(page.into_iter().map(|resource| resource.uri));
        let Some(next_cursor) = next_cursor else {
            break;
        };
        cursor = Some(next_cursor);
    }

    assert_eq!(uris, expected);
    assert!(resource_page(resources(), Some("not-an-offset")).is_err());
    assert!(resource_page(resources(), Some(&expected.len().to_string())).is_err());
}

#[test]
fn catalog_pages_follow_the_rank_and_lose_nothing() {
    let (first_page, first_cursor) = advertised_tools_page(registered(), None).unwrap();
    assert_eq!(first_cursor.as_deref(), Some("12"));
    assert_eq!(
        names(&first_page),
        [
            "workspace_symbol_search",
            "inspect_symbol",
            "get_diagnostics",
            "format_preview",
            "lexical_search",
            "read_semantic_resource",
            "structural_replace_preview",
            "workspace_edit_preview",
            "workspace_edit_apply",
            "code_action_apply",
            "project_list",
            "code_action_list",
        ]
    );
    assert_eq!(first_page.len(), ADVERTISED_TOOL_PAGE_SIZE);
    let (second_page, second_cursor) =
        advertised_tools_page(registered(), first_cursor.as_deref()).unwrap();
    assert_eq!(
        names(&second_page),
        ["get_hover", "get_references", "project_activate", "project_add"]
    );
    assert_eq!(second_cursor, None);
    assert_eq!(
        advertised_tools_page(registered(), Some("not-an-offset")).unwrap_err(),
        "invalid tools/list cursor: not-an-offset"
    );
    assert_eq!(
        advertised_tools_page(registered(), Some("16")).unwrap_err(),
        "tools/list cursor is outside the catalog: 16"
    );
    assert!(advertised_tools_page(Vec::new(), None).is_err());
}

#[test]
fn legacy_tools_are_not_advertised() {
    let tools = advertised_tools(registered());
    assert_eq!(tools.len(), REGISTERED.len());
    for name in LEGACY {
        assert!(!names(&tools).contains(&name));
    }
    for tool in &tools {
        assert_eq!(tool.output_schema, None);
        assert_eq!(tool.annotations, Some(json_str("kept")));
        assert_eq!(
            tool.description.as_deref(),
            Some(compact_advertised_description(&tool.name).as_str())
        );
        assert_eq!(tool.input_schema.get("$schema"), None);
    }
}

#[test]
fn compact_schemas_keep_rules_and_names() {
    let mut compact = schema();
    compact_advertised_input_schema(&mut compact);
    assert_eq!(
        render(&compact.into_value()),
        r#"{"type":"object","properties":{"title":{"type":"string"}},"required":["title"]}"#
    );
    let once = compact_advertised_schema_value(&schema().into_value());
    assert_eq!(compact_advertised_schema_value(&once), once);
}

#[test]
fn compact_schemas_keep_literals_whole() {
    let literal = || {
        let mut titled = JsonObject::new();
        titled.put("title", json_str("x"));
        titled.into_value()
    };
    let mut fields = JsonObject::new();
    fields.put("const", literal());
    fields.put("enum", JsonValue::Array(vec![literal()]));
    fields.put("default", literal());
    fields.put("items", literal());
    compact_advertised_input_schema(&mut fields);
    assert_eq!(
        render(&fields.into_value()),
        r#"{"const":{"title":"x"},"enum":[{"title":"x"}],"default":{"title":"x"},"items":{}}"#
    );

    let mut patterns = JsonObject::new();
    patterns.put("title", literal());
    let mut fields = JsonObject::new();
    fields.put("patternProperties", patterns.into_value());
    fields.put("dependentRequired", literal());
    compact_advertised_input_schema(&mut fields);
    assert_eq!(
        render(&fields.into_value()),
        r#"{"patternProperties":{"title":{}},"dependentRequired":{"title":"x"}}"#
    );
}

/// The name of a tool and the bytes that it takes in the catalog.
fn advertised(tool: Tool) -> (String, usize) {
    let mut fields = JsonObject::new();
    fields.put("name", json_str(&tool.name));
    fields.put("description", json_str(&tool.description.unwrap()));
    fields.put("inputSchema", tool.input_schema.into_value());
    (tool.name, render(&fields.into_value()).len())
}

#[test]
fn advertised_tool_pages_are_lossless_and_bounded() {
    let tools = || -> Vec<Tool> {
        ALL_TOOLS
            .iter()
            .chain(LEGACY.iter())
            .map(|name| tool(name))
            .collect()
    };
    let full: Vec<(String, usize)> = advertised_tools(tools()).into_iter().map(advertised).collect();
    let full_bytes: usize = full.iter().map(|(_, bytes)| bytes).sum();
    for name in ["project_list", "project_add", "project_activate"] {
        assert!(
            full.iter().any(|(tool, _)| tool == name),
            "catalog pagination dropped lifecycle tool {name}"
        );
    }
    let (first_page, first_cursor) = advertised_tools_page(tools(), None).unwrap();
    assert!(first_cursor.is_some());
    assert_eq!(
        names(&first_page),
        [
            "workspace_symbol_search",
            "inspect_symbol",
            "get_diagnostics",
            "format_preview",
            "lexical_search",
            "read_semantic_resource",
            "structural_replace_preview",
            "workspace_edit_preview",
            "workspace_edit_apply",
            "code_action_apply",
            "project_list",
            "code_action_list",
        ]
    );
    assert!(
        full_bytes <= 32 * 1024,
        "full advertised catalog is {full_bytes} bytes"
    );
    let first_bytes: usize = first_page.into_iter().map(|tool| advertised(tool).1).sum();
    assert!(
        first_bytes * 2 < full_bytes,
        "default tools/list page must be less than half the full catalog"
    );
    let mut cursor = None;
    let mut names = Vec::new();

    loop {
        let (page, next_cursor): (Vec<Tool>, Option<String>) =
            advertised_tools_page(tools(), cursor.as_deref()).unwrap();
        assert!(page.len() <= ADVERTISED_TOOL_PAGE_SIZE);
        names.extend(page.into_iter().map(|tool| tool.name));
        let Some(next_cursor) = next_cursor else {
            break;
        };
        cursor = Some(next_cursor);
    }

    assert_eq!(
        names,
        full.into_iter().map(|(name, _)| name).collect::<Vec<_>>()
    );
    assert!(advertised_tools_page(tools(), Some("not-an-offset")).is_err());
    assert!(advertised_tools_page(tools(), Some(&names.len().to_string())).is_err());
}

#[test]
fn tools_are_described_by_their_name() {
    assert_eq!(
        compact_advertised_description("read_semantic_resource"),
        "MCPLS read semantic resource."
    );
    assert_eq!(tool_catalog_rank("inspect_symbol"), (1, "inspect_symbol"));
    assert_eq!(tool_catalog_rank("zzz"), (11, "zzz"));
}

#[test]
fn project_pages_list_every_project() {
    let projects: Vec<ProjectIdentity> = (0..=PROJECT_LIST_PAGE_SIZE)
        .map(|index| ProjectIdentity {
            id: ProjectId::new(&format!("project-{index}")).unwrap(),
            root: FilePath::new("/workspace"),
            roots: vec![FilePath::new("/workspace")],
            repository_root: Some(FilePath::new("/repository")),
        })
        .collect();
    let first = project_list(&projects, None).unwrap();
    assert_eq!(first.get("returned").unwrap().as_u64(), Some(32));
    assert_eq!(first.get("truncated").unwrap().as_bool(), Some(true));
    assert_eq!(first.get("next_cursor").unwrap().as_str(), Some("32"));
    let second = project_list(&projects, Some("32")).unwrap();
    assert_eq!(
        render(&second),
        r#"{"next_cursor":null,"projects":[{"project_id":"project-32","repository_root":"/repository","root":"/workspace","roots":["/workspace"]}],"returned":1,"truncated":false}"#
    );
    assert_eq!(
        project_list(&projects, Some("33")).unwrap_err().message,
        "project_list cursor is outside the project list: 33"
    );
    assert_eq!(
        project_list(&projects, Some("-1")).unwrap_err().message,
        "invalid project_list cursor: -1"
    );
    assert_eq!(project_list_page(0, None), Ok((0..0, None)));
    assert!(project_list_page(0, Some("0")).is_err());
}
