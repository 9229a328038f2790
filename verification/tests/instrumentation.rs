use mcpls_core::errors::McpError;
use mcpls_core::instrumentation::{
    collect_deferred_bytes, completed_tool_result_bytes, completed_tool_result_metrics, is_hex,
    is_tool_error, parse_remote_trace, request_record, resource_label, tool_call_record,
    trace_carrier, CallToolResponse, CallToolResult, InstrumentedServer, RemoteTrace,
    ToolResultMetrics, TraceContext, MAX_BAGGAGE_BYTES, MAX_TRACESTATE_BYTES,
};
use mcpls_core::json::{json_number, json_str, JsonObject, JsonValue};

const PARENT: &str = "00-0af7651916cd43dd8448eb211c80319c-00f067aa0ba902b7-01";

fn context(traceparent: &str) -> TraceContext {
    TraceContext {
        traceparent: Some(traceparent.to_owned()),
        tracestate: None,
        baggage: None,
    }
}

fn completed(content: JsonValue) -> Result<CallToolResponse, McpError> {
    let mut payload = CallToolResult::success(Vec::new());
    payload.structured_content = Some(content);
    Ok(CallToolResponse::Complete(payload))
}

fn object(fields: Vec<(&str, JsonValue)>) -> JsonValue {
    let mut object = JsonObject::new();
    for (key, value) in fields {
        object.put(key, value);
    }
    object.into_map()
}

#[test]
fn accepts_valid_traceparent_and_rejects_zero_ids() {
    assert_eq!(
        parse_remote_trace(&context(PARENT)),
        Some(RemoteTrace {
            trace_id: "0af7651916cd43dd8448eb211c80319c".into(),
            span_id: "00f067aa0ba902b7".into(),
        })
    );

    assert_eq!(
        parse_remote_trace(&context(
            "00-00000000000000000000000000000000-00f067aa0ba902b7-01"
        )),
        None
    );
}

#[test]
fn ignores_malformed_and_oversized_trace_context_without_exposing_values() {
    let mut meta = context("not-a-traceparent");
    meta.baggage = Some("secret=do-not-log".to_owned());
    assert_eq!(parse_remote_trace(&meta), None);

    meta.traceparent = Some(PARENT.to_owned());
    meta.tracestate = Some("x".repeat(MAX_TRACESTATE_BYTES + 1));
    assert_eq!(parse_remote_trace(&meta), None);
}

#[test]
fn resource_labels_drop_uri_paths() {
    assert_eq!(resource_label("file:///secret/workspace/main.rs"), "file");
    assert_eq!(resource_label("resource"), "resource");
}

#[test]
fn completed_tool_result_bytes_count_payload_without_retaining_it() {
    let payload = rmcp::model::CallToolResult::success(Vec::new());
    let result = Ok::<_, McpError>(CallToolResponse::Complete(CallToolResult::success(
        Vec::new(),
    )));

    assert_eq!(
        completed_tool_result_bytes(&result),
        Some(serde_json::to_vec(&payload).unwrap().len())
    );
}

#[test]
fn completed_tool_result_metrics_exposes_only_response_shape_metadata() {
    let result = completed(object(vec![
        ("cache_hit", JsonValue::Bool(true)),
        ("returned", json_number(3)),
        ("truncated", JsonValue::Bool(true)),
        ("next_cursor", json_str("3")),
        ("source", json_str("must never reach telemetry")),
        (
            "resource",
            object(vec![
                ("uri", json_str("mcpls-source:///workspace/src.rs")),
                ("kind", json_str("source_context")),
                ("total_bytes", json_number(55)),
            ]),
        ),
    ]));

    assert_eq!(
        completed_tool_result_metrics(&result),
        Some(ToolResultMetrics {
            cache_hit: Some(true),
            item_count: 3,
            deferred_bytes: 55,
            truncated: true,
            paginated: true,
        })
    );
}

#[test]
fn completed_tool_result_metrics_reads_nested_diagnostics_cache_hit() {
    let result = completed(object(vec![
        ("diagnostics", JsonValue::Array(Vec::new())),
        (
            "cache",
            object(vec![
                ("hit", JsonValue::Bool(true)),
                ("age_ms", json_number(1)),
                ("snapshot_identity", json_str("opaque")),
            ]),
        ),
    ]));

    assert_eq!(
        completed_tool_result_metrics(&result).unwrap().cache_hit,
        Some(true)
    );
}

#[test]
fn completed_tool_result_metrics_prefers_reported_diagnostic_count() {
    let result = completed(object(vec![
        (
            "diagnostics",
            JsonValue::Array(vec![object(vec![("occurrence_count", json_number(4))])]),
        ),
        ("returned_diagnostics", json_number(4)),
    ]));

    assert_eq!(
        completed_tool_result_metrics(&result).unwrap().item_count,
        4
    );
}

#[test]
fn completed_tool_result_metrics_reads_other_explicit_result_counts() {
    for (field, expected) in [
        ("returned_references", 2),
        ("returned_calls", 3),
        ("returned_groups", 4),
    ] {
        let result = completed(object(vec![(field, json_number(expected))]));

        assert_eq!(
            completed_tool_result_metrics(&result).unwrap().item_count,
            expected
        );
    }
}

#[test]
fn traceparents_are_read_strictly() {
    for text in [
        "ff-0af7651916cd43dd8448eb211c80319c-00f067aa0ba902b7-01",
        "00-0af7651916cd43dd8448eb211c80319c-0000000000000000-01",
        "00_0af7651916cd43dd8448eb211c80319c-00f067aa0ba902b7-01",
        "00-0af7651916cd43dd8448eb211c80319g-00f067aa0ba902b7-01",
        "00-0af7651916cd43dd8448eb211c80319c-00f067aa0ba902b7-0",
        "00-0af7651916cd43dd8448eb211c80319c-00f067aa0ba902b7-011",
    ] {
        assert_eq!(parse_remote_trace(&context(text)), None);
    }
    let mut upper = context("0A-0AF7651916CD43DD8448EB211C80319C-00F067AA0BA902B7-01");
    assert_eq!(
        parse_remote_trace(&upper).unwrap().span_id,
        "00F067AA0BA902B7"
    );
    upper.baggage = Some("b".repeat(MAX_BAGGAGE_BYTES));
    assert!(parse_remote_trace(&upper).is_some());
    upper.baggage = Some("b".repeat(MAX_BAGGAGE_BYTES + 1));
    assert_eq!(parse_remote_trace(&upper), None);
    upper.baggage = Some("é".to_owned());
    assert_eq!(parse_remote_trace(&upper), None);
    upper.traceparent = None;
    assert_eq!(parse_remote_trace(&upper), None);
}

#[test]
fn carriers_hold_what_the_request_carries() {
    let mut meta = context(PARENT);
    meta.baggage = Some("k=v".to_owned());
    assert_eq!(
        trace_carrier(&meta),
        vec![
            ("traceparent".to_owned(), PARENT.to_owned()),
            ("baggage".to_owned(), "k=v".to_owned()),
        ]
    );
}

#[test]
fn hex_takes_both_cases() {
    assert!(is_hex(b"09afAF"));
    assert!(is_hex(b""));
    assert!(!is_hex(b"0g"));
    assert!(!is_hex(b"-"));
}

#[test]
fn deferred_bytes_are_summed_at_every_depth_and_saturate() {
    let reference = |bytes: usize| {
        object(vec![
            ("uri", json_str("mcpls-deferred:///t")),
            ("total_bytes", json_number(bytes)),
        ])
    };
    let value = object(vec![
        ("list", JsonValue::Array(vec![reference(5), reference(7)])),
        ("one", object(vec![("inner", reference(11))])),
        ("no_uri", object(vec![("total_bytes", json_number(100))])),
    ]);
    assert_eq!(collect_deferred_bytes(&value, 0), 23);
    assert_eq!(collect_deferred_bytes(&value, 2), 25);
    let huge = JsonValue::Array(vec![reference(usize::MAX), reference(1)]);
    assert_eq!(collect_deferred_bytes(&huge, 0), usize::MAX);
}

#[test]
fn item_counts_fall_back_to_the_listed_items() {
    let listed = completed(object(vec![(
        "matches",
        JsonValue::Array(vec![JsonValue::Null, JsonValue::Null]),
    )]));
    let metrics = completed_tool_result_metrics(&listed).unwrap();
    assert_eq!(metrics.item_count, 2);
    assert!(!metrics.truncated);
    assert!(!metrics.paginated);
    let last = completed(object(vec![("next_cursor", JsonValue::Null)]));
    assert!(!completed_tool_result_metrics(&last).unwrap().paginated);
    assert_eq!(completed_tool_result_metrics(&completed(json_str("text"))), None);
    assert_eq!(
        completed_tool_result_metrics(&Ok(CallToolResponse::Pending)),
        None
    );
}

#[test]
fn records_tell_protocol_errors_from_tool_errors() {
    let ok = completed(object(vec![("returned", json_number(1))]));
    let record = tool_call_record(&ok, false);
    assert!(record.success && !record.tool_error && !record.protocol_error);
    assert_eq!(record.result_bytes, completed_tool_result_bytes(&ok));
    assert_eq!(record.metrics, completed_tool_result_metrics(&ok));

    let mut payload = CallToolResult::success(Vec::new());
    payload.is_error = Some(true);
    let failed = Ok(CallToolResponse::Complete(payload));
    assert!(is_tool_error(&failed));
    let record = tool_call_record(&failed, true);
    assert!(record.tool_error && !record.success && record.cancelled);

    let refused = Err(McpError::invalid_params("no"));
    let record = tool_call_record(&refused, false);
    assert!(record.protocol_error && !record.success && !record.tool_error);
    assert_eq!(record.result_bytes, None);

    let plain = request_record(true, false, false);
    assert!(plain.success);
    assert_eq!(plain.metrics, None);
}

#[test]
fn instrumented_servers_know_their_transport() {
    let server = InstrumentedServer::new(7, "stdio");
    assert_eq!(server.inner, 7);
    assert_eq!(server.transport, "stdio");
}

#[test]
fn labels_are_shared_by_resources_of_one_scheme() {
    assert_eq!(resource_label("a:b:c"), resource_label("a:d"));
    assert_eq!(resource_label(":path"), "");
}
