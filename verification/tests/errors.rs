use mcpls_core::errors::{
    encode_json, encode_tool_result, operation_error, parse_project_id, project_operation_error,
    project_routing_error, ErrorCode, McpError, StructuredOutput,
};
use mcpls_core::json::{json_number, json_str, json_strings, JsonObject, JsonValue};

fn line_seven() -> JsonObject {
    let mut fields = JsonObject::new();
    fields.put("line", json_number(7));
    fields.put("available", JsonValue::Bool(true));
    fields
}

fn long_result() -> JsonValue {
    let mut source = JsonObject::new();
    source.put("status", json_str("available"));
    let mut fields = line_seven();
    fields.put("optional", JsonValue::Null);
    fields.put("truncated", JsonValue::Bool(true));
    fields.put(
        "items",
        json_strings(&vec!["large-result-entry".to_owned(); 1_000]),
    );
    fields.put("source", source.into_map());
    fields.into_map()
}

#[test]
fn operation_errors_include_stable_actionable_data() {
    let error = encode_tool_result(Err("offline".to_string())).unwrap_err();
    let data = error.data.as_ref().unwrap();

    assert_eq!(data.get("code").unwrap().as_str(), Some("operation_failed"));
    assert_eq!(data.get("retryable").unwrap().as_bool(), Some(true));
    assert!(data.get("action").unwrap().as_str().is_some());
}

#[test]
fn structured_tool_result_keeps_json_out_of_default_text_content() {
    let output = encode_json(long_result());
    let result = output.into_result(false);

    assert_eq!(result.structured_content, long_result());
    assert_eq!(
        result.text,
        "Structured result available in structuredContent."
    );
}

#[test]
fn legacy_text_mode_keeps_the_previous_json_payload() {
    let output = encode_json(line_seven().into_map());
    let result = output.into_result(true);

    assert_eq!(result.text, r#"{"available":true,"line":7}"#);
    assert_eq!(
        result.structured_content.get("line").unwrap().as_u64(),
        Some(7)
    );
}

#[test]
fn summaries_stand_before_either_text() {
    for legacy_text in [false, true] {
        let output = StructuredOutput::with_summary(
            JsonValue::Null,
            "null".to_owned(),
            "summary".to_owned(),
        );
        assert_eq!(output.into_result(legacy_text).text, "summary");
    }
}

#[test]
fn results_are_encoded() {
    let output = encode_tool_result(Ok(json_number(3))).unwrap();
    assert_eq!(output.legacy, "3");
    assert_eq!(output.value.as_u64(), Some(3));
    assert_eq!(output.summary, None);
}

#[test]
fn unknown_project_routing_explains_recovery_without_activation() {
    let message = "project is not registered: missing";
    for error in [project_routing_error(message), project_operation_error(message)] {
        assert_eq!(error.code, ErrorCode::InvalidParams);
        assert!(error.text().contains("project is not registered: missing"));
        let data = error.data.as_ref().unwrap();
        assert_eq!(
            data.get("code").unwrap().as_str(),
            Some("project_not_registered")
        );
        assert_eq!(data.get("retryable").unwrap().as_bool(), Some(false));
        let action = data.get("action").unwrap().as_str().unwrap();
        assert!(action.contains("project_list"));
        assert!(action.contains("project_add"));
    }
}

#[test]
fn other_routing_and_operation_failures_differ() {
    assert_eq!(
        project_routing_error("path has no project"),
        McpError::invalid_params("path has no project")
    );
    assert_eq!(
        project_operation_error("actor stopped"),
        operation_error("actor stopped")
    );
    assert_eq!(operation_error("x").code, ErrorCode::InternalError);
}

#[test]
fn errors_read_in_one_line() {
    assert_eq!(McpError::invalid_params("no").text(), "-32602: no");
    assert_eq!(McpError::internal_error("no").text(), "-32603: no");
    let mut error = McpError::invalid_params("no");
    error.data = Some(line_seven().into_map());
    assert_eq!(error.text(), r#"-32602: no({"available":true,"line":7})"#);
}

#[test]
fn project_ids_are_not_empty() {
    assert_eq!(parse_project_id("a").unwrap().as_str(), "a");
    assert_eq!(
        parse_project_id("").unwrap_err(),
        McpError::invalid_params("project id must not be empty")
    );
}
