//! Request instrumentation: trace context, labels and result metrics.

use crate::errors::McpError;
use crate::json::{
    as_flag, as_items, as_unsigned, json_array, json_count, json_len, json_models, json_str,
    lemma_entry_pushed, member, no_fields, rendered_len, Json, JsonObject, JsonValue,
};
use crate::session::lemma_split;
use crate::text::{optional_text, split_at_first, split_once_char, utf8_len};
use vstd::prelude::*;
use vstd::string::*;
use vstd::utf8::*;

verus! {

/// The bytes of a `traceparent` value.
pub const MAX_TRACEPARENT_BYTES: usize = 55;

/// The longest `tracestate` value that is taken.
pub const MAX_TRACESTATE_BYTES: usize = 512;

/// The longest `baggage` value that is taken.
pub const MAX_BAGGAGE_BYTES: usize = 8192;

/// A result of a completed tool call.
#[derive(Debug, PartialEq, Eq)]
pub struct CallToolResult {
    pub result_type: Option<String>,
    pub content: Vec<JsonValue>,
    pub structured_content: Option<JsonValue>,
    pub is_error: Option<bool>,
    pub meta: Option<JsonValue>,
}

/// The response to a tool call.
#[derive(Debug, PartialEq, Eq)]
pub enum CallToolResponse {
    /// The call is complete.
    Complete(CallToolResult),
    /// The call waits for input or goes on as a task.
    Pending,
}

/// A tool result as it goes out; absent parts are left out.
pub open spec fn call_result_json(result: CallToolResult) -> Json {
    let fields = match result.result_type {
        Some(result_type) => no_fields().push(("resultType"@, Json::Text(result_type@))),
        None => no_fields(),
    };
    let fields = fields.push(("content"@, Json::Array(json_models(result.content@))));
    let fields = match result.structured_content {
        Some(content) => fields.push(("structuredContent"@, content@)),
        None => fields,
    };
    let fields = match result.is_error {
        Some(is_error) => fields.push(("isError"@, Json::Bool(is_error))),
        None => fields,
    };
    let fields = match result.meta {
        Some(meta) => fields.push(("_meta"@, meta@)),
        None => fields,
    };
    Json::Object(fields)
}

impl CallToolResult {
    /// A complete result without an error.
    pub fn success(content: Vec<JsonValue>) -> (result: Self)
        ensures
            optional_text(result.result_type) == Some("complete"@),
            result.content@ == content@,
            result.structured_content is None,
            result.is_error == Some(false),
            result.meta is None,
    {
        CallToolResult {
            result_type: Some("complete".to_owned()),
            content,
            structured_content: None,
            is_error: Some(false),
            meta: None,
        }
    }

    /// The result as it goes out.
    pub fn to_json(&self) -> (json: JsonValue)
        ensures
            json@ == call_result_json(*self),
    {
        let mut fields = JsonObject::new();
        if let Some(result_type) = &self.result_type {
            fields.put("resultType", json_str(result_type.as_str()));
        }
        let mut content: Vec<JsonValue> = Vec::new();
        let mut i: usize = 0;
        while i < self.content.len()
            invariant
                i <= self.content@.len(),
                content@.len() == i,
                forall|j: int| 0 <= j < i ==> (#[trigger] content@[j])@ == self.content@[j]@,
            decreases self.content@.len() - i,
        {
            content.push(self.content[i].duplicate());
            i = i + 1;
        }
        assert(json_models(content@) =~= json_models(self.content@));
        fields.put("content", json_array(content));
        if let Some(structured) = &self.structured_content {
            fields.put("structuredContent", structured.duplicate());
        }
        if let Some(is_error) = self.is_error {
            fields.put("isError", JsonValue::Bool(is_error));
        }
        if let Some(meta) = &self.meta {
            fields.put("_meta", meta.duplicate());
        }
        fields.into_value()
    }
}

/// The bytes that a completed tool result takes as JSON.
pub fn completed_tool_result_bytes(result: &Result<CallToolResponse, McpError>) -> (bytes: Option<
    usize,
>)
    ensures
        match result {
            Ok(CallToolResponse::Complete(result)) => bytes matches Some(bytes) && bytes
                == json_len(call_result_json(*result)),
            _ => bytes is None,
        },
{
    match result {
        Ok(CallToolResponse::Complete(result)) => Some(rendered_len(&result.to_json())),
        _ => None,
    }
}

/// What is recorded of a tool result: its shape, never its contents.
#[derive(Clone, Copy, Debug, PartialEq, Eq, Structural)]
pub struct ToolResultMetrics {
    pub cache_hit: Option<bool>,
    pub item_count: usize,
    pub deferred_bytes: usize,
    pub truncated: bool,
    pub paginated: bool,
}

/// The number under a key.
pub open spec fn count_under(value: Json, key: Seq<char>) -> Option<nat> {
    match member(value, key) {
        Some(found) => as_unsigned(found),
        None => None,
    }
}

/// The number of items under a key.
pub open spec fn items_under(value: Json, key: Seq<char>) -> Option<nat> {
    match member(value, key) {
        Some(found) => match as_items(found) {
            Some(items) => Some(items.len()),
            None => None,
        },
        None => None,
    }
}

/// The flag under a key.
pub open spec fn flag_under(value: Json, key: Seq<char>) -> Option<bool> {
    match member(value, key) {
        Some(found) => as_flag(found),
        None => None,
    }
}

pub open spec fn either<T>(first: Option<T>, second: Option<T>) -> Option<T> {
    match first {
        Some(found) => Some(found),
        None => second,
    }
}

/// The count that a result reports of itself, under the first of these names.
pub open spec fn reported_count(value: Json) -> Option<nat> {
    either(
        count_under(value, "returned"@),
        either(
            count_under(value, "returned_items"@),
            either(
                count_under(value, "returned_lines"@),
                either(
                    count_under(value, "returned_diagnostics"@),
                    either(
                        count_under(value, "returned_references"@),
                        either(
                            count_under(value, "returned_calls"@),
                            count_under(value, "returned_groups"@),
                        ),
                    ),
                ),
            ),
        ),
    )
}

/// The number of items in a result: the reported count, else the length of its
/// list of items, else nothing.
pub open spec fn item_count(value: Json) -> nat {
    let listed = either(
        items_under(value, "items"@),
        either(items_under(value, "matches"@), items_under(value, "diagnostics"@)),
    );
    match reported_count(value) {
        Some(count) if count <= usize::MAX => count,
        _ => match listed {
            Some(count) => count,
            None => 0,
        },
    }
}

/// The bytes that one object defers: its total, if it names a resource.
pub open spec fn own_deferred_bytes(entries: Seq<(Seq<char>, Json)>) -> nat {
    let value = Json::Object(entries);
    match (member(value, "uri"@), count_under(value, "total_bytes"@)) {
        (Some(_), Some(bytes)) => if bytes <= usize::MAX {
            bytes
        } else {
            0
        },
        _ => 0,
    }
}

/// The bytes that a value defers to resources, at any depth.
pub open spec fn deferred_bytes(value: Json) -> nat
    decreases value,
{
    match value {
        Json::Array(items) => items_deferred(items),
        Json::Object(entries) => own_deferred_bytes(entries) + entries_deferred(entries),
        _ => 0,
    }
}

pub open spec fn items_deferred(items: Seq<Json>) -> nat
    decreases items,
{
    if items.len() == 0 {
        0
    } else {
        items_deferred(items.drop_last()) + deferred_bytes(items[items.len() - 1])
    }
}

pub open spec fn entries_deferred(entries: Seq<(Seq<char>, Json)>) -> nat
    decreases entries,
{
    if entries.len() == 0 {
        0
    } else {
        entries_deferred(entries.drop_last()) + deferred_bytes(entries[entries.len() - 1].1)
    }
}

/// A count that saturates.
pub open spec fn saturated(count: nat) -> nat {
    if count <= usize::MAX {
        count
    } else {
        usize::MAX as nat
    }
}

fn read_count(value: &JsonValue, key: &str) -> (count: Option<u64>)
    ensures
        count_under(value@, key@) == match count {
            Some(count) => Some(count as nat),
            None => None,
        },
{
    match value.get(key) {
        Some(found) => found.as_u64(),
        None => None,
    }
}

fn read_items(value: &JsonValue, key: &str) -> (count: Option<usize>)
    ensures
        items_under(value@, key@) == match count {
            Some(count) => Some(count as nat),
            None => None,
        },
{
    match value.get(key) {
        Some(found) => match found {
            JsonValue::Array(items) => Some(items.len()),
            _ => None,
        },
        None => None,
    }
}

fn read_flag(value: &JsonValue, key: &str) -> (flag: Option<bool>)
    ensures
        flag == flag_under(value@, key@),
{
    match value.get(key) {
        Some(found) => found.as_bool(),
        None => None,
    }
}

fn first_of(first: Option<u64>, second: Option<u64>) -> (found: Option<u64>)
    ensures
        found == either(first, second),
{
    match first {
        Some(found) => Some(found),
        None => second,
    }
}

fn count_items(value: &JsonValue) -> (count: usize)
    ensures
        count == item_count(value@),
{
    let reported = first_of(
        read_count(value, "returned"),
        first_of(
            read_count(value, "returned_items"),
            first_of(
                read_count(value, "returned_lines"),
                first_of(
                    read_count(value, "returned_diagnostics"),
                    first_of(
                        read_count(value, "returned_references"),
                        first_of(
                            read_count(value, "returned_calls"),
                            read_count(value, "returned_groups"),
                        ),
                    ),
                ),
            ),
        ),
    );
    if let Some(count) = reported {
        if count <= usize::MAX as u64 {
            return count as usize;
        }
    }
    if let Some(count) = read_items(value, "items") {
        return count;
    }
    if let Some(count) = read_items(value, "matches") {
        return count;
    }
    match read_items(value, "diagnostics") {
        Some(count) => count,
        None => 0,
    }
}

proof fn lemma_saturated_sum(first: nat, second: nat)
    ensures
        saturated(saturated(first) + second) == saturated(first + second),
{
}

/// Adds the bytes that a value defers to a running total.
pub fn collect_deferred_bytes(value: &JsonValue, total: usize) -> (sum: usize)
    ensures
        sum == saturated(total as nat + deferred_bytes(value@)),
    decreases value,
{
    match value {
        JsonValue::Array(items) => {
            let mut sum: usize = total;
            let ghost models = value@->Array_0;
            let mut i: usize = 0;
            assert(models.take(0) =~= Seq::<Json>::empty());
            while i < items.len()
                invariant
                    i <= items@.len(),
                    *value == JsonValue::Array(*items),
                    models == value@->Array_0,
                    sum == saturated(total as nat + items_deferred(models.take(i as int))),
                decreases items@.len() - i,
            {
                assert(decreases_to!(*value => items@[i as int])) by {
                    assert(decreases_to!(*value => value->Array_0));
                    assert(decreases_to!(*items => items@));
                    assert(decreases_to!(items@ => items@[i as int]));
                }
                proof {
                    let next = models.take(i + 1);
                    assert(next.drop_last() =~= models.take(i as int));
                    assert(next[next.len() - 1] == items@[i as int]@);
                    lemma_saturated_sum(
                        total as nat + items_deferred(models.take(i as int)),
                        deferred_bytes(items@[i as int]@),
                    );
                }
                sum = collect_deferred_bytes(&items[i], sum);
                i = i + 1;
            }
            assert(models.take(i as int) =~= models);
            sum
        },
        JsonValue::Object(object) => {
            let ghost models = value@->Object_0;
            assert(models =~= object@);
            let mut sum: usize = total;
            let ghost own = own_deferred_bytes(models);
            if value.get("uri").is_some() {
                if let Some(bytes) = read_count(value, "total_bytes") {
                    if bytes <= usize::MAX as u64 {
                        sum = sum.saturating_add(bytes as usize);
                    }
                }
            }
            assert(sum == saturated(total as nat + own));
            let mut i: usize = 0;
            assert(models.take(0) =~= Seq::<(Seq<char>, Json)>::empty());
            while i < object.entries.len()
                invariant
                    i <= object.entries@.len(),
                    *value == JsonValue::Object(*object),
                    models == object@,
                    sum == saturated(
                        total as nat + own + entries_deferred(models.take(i as int)),
                    ),
                decreases object.entries@.len() - i,
            {
                proof {
                    crate::json::lemma_entry_value_is_smaller(*object, i as int);
                    assert(decreases_to!(*value => value->Object_0));
                    let next = models.take(i + 1);
                    assert(next.drop_last() =~= models.take(i as int));
                    assert(next[next.len() - 1] == models[i as int]);
                    lemma_saturated_sum(
                        total as nat + own + entries_deferred(models.take(i as int)),
                        deferred_bytes(models[i as int].1),
                    );
                }
                sum = collect_deferred_bytes(&object.entries[i].value, sum);
                i = i + 1;
            }
            assert(models.take(i as int) =~= models);
            sum
        },
        _ => total,
    }
}

pub open spec fn is_present(value: Json, key: Seq<char>) -> bool {
    match member(value, key) {
        Some(found) => found != Json::Null,
        None => false,
    }
}

/// The metrics of a structured result.
pub open spec fn metrics_of(value: Json) -> ToolResultMetrics {
    ToolResultMetrics {
        cache_hit: either(
            flag_under(value, "cache_hit"@),
            match member(value, "cache"@) {
                Some(cache) => flag_under(cache, "hit"@),
                None => None,
            },
        ),
        item_count: item_count(value) as usize,
        deferred_bytes: saturated(deferred_bytes(value)) as usize,
        truncated: flag_under(value, "truncated"@) == Some(true),
        paginated: is_present(value, "next_cursor"@) || is_present(value, "nextCursor"@),
    }
}

fn has_value(value: &JsonValue, key: &str) -> (present: bool)
    ensures
        present == is_present(value@, key@),
{
    match value.get(key) {
        Some(found) => !found.is_null(),
        None => false,
    }
}

/// The metrics of a completed tool result whose structured content is an object.
pub fn completed_tool_result_metrics(result: &Result<CallToolResponse, McpError>) -> (metrics:
    Option<ToolResultMetrics>)
    ensures
        metrics == match result {
            Ok(CallToolResponse::Complete(result)) => match result.structured_content {
                Some(value) => if value@ is Object {
                    Some(metrics_of(value@))
                } else {
                    None
                },
                None => None,
            },
            _ => None,
        },
{
    let result = match result {
        Ok(CallToolResponse::Complete(result)) => result,
        _ => {
            return None;
        },
    };
    let value = match &result.structured_content {
        Some(value) => value,
        None => {
            return None;
        },
    };
    match value {
        JsonValue::Object(_) => {},
        _ => {
            return None;
        },
    }
    let cache_hit = match read_flag(value, "cache_hit") {
        Some(hit) => Some(hit),
        None => match value.get("cache") {
            Some(cache) => read_flag(cache, "hit"),
            None => None,
        },
    };
    let truncated = match read_flag(value, "truncated") {
        Some(truncated) => truncated,
        None => false,
    };
    Some(
        ToolResultMetrics {
            cache_hit,
            item_count: count_items(value),
            deferred_bytes: collect_deferred_bytes(value, 0),
            truncated,
            paginated: has_value(value, "next_cursor") || has_value(value, "nextCursor"),
        },
    )
}

/// The trace context that a request carries.
#[derive(Debug, PartialEq, Eq)]
pub struct TraceContext {
    pub traceparent: Option<String>,
    pub tracestate: Option<String>,
    pub baggage: Option<String>,
}

/// The remote span that a request continues.
#[derive(Debug, PartialEq, Eq)]
pub struct RemoteTrace {
    pub trace_id: String,
    pub span_id: String,
}

pub open spec fn is_hex_byte(byte: u8) -> bool {
    48 <= byte <= 57 || 65 <= byte <= 70 || 97 <= byte <= 102
}

pub open spec fn all_hex(bytes: Seq<u8>) -> bool {
    forall|i: int| 0 <= i < bytes.len() ==> is_hex_byte(#[trigger] bytes[i])
}

pub open spec fn all_zero(bytes: Seq<u8>) -> bool {
    forall|i: int| 0 <= i < bytes.len() ==> #[trigger] bytes[i] == 48
}

/// Whether every byte is an ASCII hex digit.
pub fn is_hex(value: &[u8]) -> (hex: bool)
    ensures
        hex == all_hex(value@),
{
    let mut i: usize = 0;
    while i < value.len()
        invariant
            i <= value@.len(),
            forall|j: int| 0 <= j < i ==> is_hex_byte(#[trigger] value@[j]),
        decreases value@.len() - i,
    {
        let byte = value[i];
        if !(48 <= byte && byte <= 57 || 65 <= byte && byte <= 70 || 97 <= byte && byte <= 102) {
            assert(!is_hex_byte(value@[i as int]));
            return false;
        }
        i = i + 1;
    }
    true
}

fn is_zero(value: &[u8]) -> (zero: bool)
    ensures
        zero == all_zero(value@),
{
    let mut i: usize = 0;
    while i < value.len()
        invariant
            i <= value@.len(),
            forall|j: int| 0 <= j < i ==> #[trigger] value@[j] == 48,
        decreases value@.len() - i,
    {
        if value[i] != 48 {
            return false;
        }
        i = i + 1;
    }
    true
}

/// Whether a text is a `traceparent` value: version, trace, parent and flags in
/// hex, separated by dashes, with a version other than `ff` and neither trace
/// nor parent all zero.
pub open spec fn is_traceparent(text: Seq<char>) -> bool {
    let bytes = encode_utf8(text);
    &&& bytes.len() == MAX_TRACEPARENT_BYTES
    &&& is_ascii_chars(text)
    &&& bytes[2] == 45 && bytes[35] == 45 && bytes[52] == 45
    &&& !(bytes[0] == 102 && bytes[1] == 102)
    &&& all_hex(bytes.subrange(0, 2))
    &&& all_hex(bytes.subrange(3, 35))
    &&& all_hex(bytes.subrange(36, 52))
    &&& all_hex(bytes.subrange(53, 55))
    &&& !all_zero(bytes.subrange(3, 35))
    &&& !all_zero(bytes.subrange(36, 52))
}

/// Whether an optional value is ASCII and short enough.
pub open spec fn is_bounded(value: Option<Seq<char>>, max_bytes: nat) -> bool {
    match value {
        Some(text) => encode_utf8(text).len() <= max_bytes && is_ascii_chars(text),
        None => true,
    }
}

fn bounded(value: &Option<String>, max_bytes: usize) -> (fits: bool)
    ensures
        fits == is_bounded(optional_text(*value), max_bytes as nat),
{
    match value {
        Some(text) => utf8_len(text.as_str()) <= max_bytes && text.as_str().is_ascii(),
        None => true,
    }
}

/// The remote span that a request continues: none unless the whole trace
/// context is well formed.
pub open spec fn remote_trace(context: TraceContext) -> Option<(Seq<char>, Seq<char>)> {
    match context.traceparent {
        None => None,
        Some(parent) => if is_traceparent(parent@) && is_bounded(
            optional_text(context.tracestate),
            MAX_TRACESTATE_BYTES as nat,
        ) && is_bounded(optional_text(context.baggage), MAX_BAGGAGE_BYTES as nat) {
            Some((parent@.subrange(3, 35), parent@.subrange(36, 52)))
        } else {
            None
        },
    }
}

/// Reads the remote span out of a request's trace context.
pub fn parse_remote_trace(context: &TraceContext) -> (remote: Option<RemoteTrace>)
    ensures
        remote_trace(*context) == match remote {
            Some(remote) => Some((remote.trace_id@, remote.span_id@)),
            None => None,
        },
{
    let traceparent = match &context.traceparent {
        Some(text) => text.as_str(),
        None => {
            return None;
        },
    };
    if !bounded(&context.tracestate, MAX_TRACESTATE_BYTES) || !bounded(
        &context.baggage,
        MAX_BAGGAGE_BYTES,
    ) {
        return None;
    }
    let bytes = traceparent.as_bytes_vec();
    if bytes.len() != MAX_TRACEPARENT_BYTES || !traceparent.is_ascii() {
        return None;
    }
    if bytes[2] != 45 || bytes[35] != 45 || bytes[52] != 45 {
        return None;
    }
    if bytes[0] == 102 && bytes[1] == 102 {
        return None;
    }
    let all = bytes.as_slice();
    let trace = vstd::slice::slice_subrange(all, 3, 35);
    let parent = vstd::slice::slice_subrange(all, 36, 52);
    if !is_hex(vstd::slice::slice_subrange(all, 0, 2)) || !is_hex(trace) || !is_hex(parent)
        || !is_hex(vstd::slice::slice_subrange(all, 53, 55)) || is_zero(trace) || is_zero(parent) {
        return None;
    }
    proof {
        is_ascii_chars_encode_utf8(traceparent@);
    }
    Some(
        RemoteTrace {
            trace_id: traceparent.substring_ascii(3, 35).to_owned(),
            span_id: traceparent.substring_ascii(36, 52).to_owned(),
        },
    )
}

/// The entries of a trace context that propagators read.
pub open spec fn carrier_model(context: TraceContext) -> Seq<(Seq<char>, Seq<char>)> {
    let entries = match context.traceparent {
        Some(value) => Seq::empty().push(("traceparent"@, value@)),
        None => Seq::empty(),
    };
    let entries = match context.tracestate {
        Some(value) => entries.push(("tracestate"@, value@)),
        None => entries,
    };
    match context.baggage {
        Some(value) => entries.push(("baggage"@, value@)),
        None => entries,
    }
}

pub open spec fn carried(entries: Seq<(String, String)>) -> Seq<(Seq<char>, Seq<char>)> {
    Seq::new(entries.len(), |i: int| (entries[i].0@, entries[i].1@))
}

fn carry(entries: &mut Vec<(String, String)>, name: &str, value: &Option<String>)
    ensures
        carried(final(entries)@) == match value {
            Some(value) => carried(old(entries)@).push((name@, value@)),
            None => carried(old(entries)@),
        },
{
    if let Some(value) = value {
        entries.push((name.to_owned(), value.clone()));
        assert(carried(entries@) =~= carried(old(entries)@).push((name@, value@)));
    }
}

/// The entries that propagators read a remote context from.
pub fn trace_carrier(context: &TraceContext) -> (entries: Vec<(String, String)>)
    ensures
        carried(entries@) == carrier_model(*context),
{
    let mut entries: Vec<(String, String)> = Vec::new();
    assert(carried(entries@) =~= Seq::empty());
    carry(&mut entries, "traceparent", &context.traceparent);
    carry(&mut entries, "tracestate", &context.tracestate);
    carry(&mut entries, "baggage", &context.baggage);
    entries
}

/// The label of a resource: its scheme, never its path.
pub fn resource_label(uri: &str) -> (label: String)
    ensures
        label@ == match split_at_first(uri@, ':') {
            Some((scheme, _)) => scheme,
            None => "resource"@,
        },
{
    match split_once_char(uri, ':') {
        Some((scheme, _)) => scheme,
        None => "resource".to_owned(),
    }
}

/// What is recorded when a request ends.
#[derive(Clone, Copy, Debug, PartialEq, Eq, Structural)]
pub struct RequestRecord {
    pub result_bytes: Option<usize>,
    pub metrics: Option<ToolResultMetrics>,
    pub cancelled: bool,
    pub success: bool,
    pub protocol_error: bool,
    pub tool_error: bool,
}

/// Whether a response says that the tool failed.
pub fn is_tool_error(result: &Result<CallToolResponse, McpError>) -> (failed: bool)
    ensures
        failed == (result matches Ok(CallToolResponse::Complete(result)) && result.is_error
            == Some(true)),
{
    match result {
        Ok(CallToolResponse::Complete(result)) => match result.is_error {
            Some(failed) => failed,
            None => false,
        },
        _ => false,
    }
}

/// What is recorded when a request ended, or a tool call without its metrics.
pub fn request_record(succeeded: bool, tool_error: bool, cancelled: bool) -> (record: RequestRecord)
    ensures
        record == (RequestRecord {
            result_bytes: None,
            metrics: None,
            cancelled,
            success: succeeded && !tool_error,
            protocol_error: !succeeded,
            tool_error,
        }),
{
    RequestRecord {
        result_bytes: None,
        metrics: None,
        cancelled,
        success: succeeded && !tool_error,
        protocol_error: !succeeded,
        tool_error,
    }
}

/// What is recorded when a tool call ended.
pub fn tool_call_record(result: &Result<CallToolResponse, McpError>, cancelled: bool) -> (record:
    RequestRecord)
    ensures
        record.cancelled == cancelled,
        record.protocol_error == (result is Err),
        record.tool_error == (result matches Ok(CallToolResponse::Complete(result))
            && result.is_error == Some(true)),
        record.success == (!record.protocol_error && !record.tool_error),
        match result {
            Ok(CallToolResponse::Complete(result)) => {
                &&& record.result_bytes matches Some(bytes) && bytes == json_len(
                    call_result_json(*result),
                )
                &&& record.metrics == match result.structured_content {
                    Some(value) => if value@ is Object {
                        Some(metrics_of(value@))
                    } else {
                        None
                    },
                    None => None,
                }
            },
            _ => record.result_bytes is None && record.metrics is None,
        },
{
    let record = request_record(result.is_ok(), is_tool_error(result), cancelled);
    RequestRecord {
        result_bytes: completed_tool_result_bytes(result),
        metrics: completed_tool_result_metrics(result),
        ..record
    }
}

/// A server whose requests are instrumented, and the transport that it serves.
#[derive(Debug)]
pub struct InstrumentedServer<H> {
    pub inner: H,
    pub transport: &'static str,
}

impl<H> InstrumentedServer<H> {
    pub fn new(inner: H, transport: &'static str) -> (server: Self)
        ensures
            server.inner == inner,
            server.transport == transport,
    {
        InstrumentedServer { inner, transport }
    }
}

/// Labels never hold what follows the scheme: resources that differ only there
/// share a label.
pub proof fn law_label_hides_the_path(scheme: Seq<char>, path: Seq<char>, other: Seq<char>)
    requires
        !scheme.contains(':'),
    ensures
        split_at_first(scheme + seq![':'] + path, ':') == Some((scheme, path)),
        split_at_first(scheme + seq![':'] + other, ':') == Some((scheme, other)),
{
    lemma_split(scheme, ':', path);
    lemma_split(scheme, ':', other);
}

/// Whether a character is a hexadecimal digit.
pub open spec fn is_hex_char(c: char) -> bool {
    '0' <= c <= '9' || 'A' <= c <= 'F' || 'a' <= c <= 'f'
}

/// Whether the characters of a text from one place to another are hexadecimal
/// digits.
pub open spec fn hex_between(text: Seq<char>, from: int, to: int) -> bool {
    forall|i: int| from <= i < to ==> is_hex_char(#[trigger] text[i])
}

/// A remote trace is read exactly from a parent of fifty-five characters: a version
/// other than `ff`, an identifier of the trace that is not zero, one of the span
/// that is not zero, and flags, all in hexadecimal digits and parted by hyphens. The
/// state and the baggage that come with it are plain text within their bounds. The
/// identifiers are those of the parent.
pub proof fn law_remote_trace_is_that_of_the_parent(context: TraceContext)
    ensures
        remote_trace(context) is Some <==> {
            &&& context.traceparent matches Some(parent) && {
                let text = parent@;
                &&& text.len() == 55
                &&& text[2] == '-' && text[35] == '-' && text[52] == '-'
                &&& hex_between(text, 0, 2) && !(text[0] == 'f' && text[1] == 'f')
                &&& hex_between(text, 3, 35) && exists|i: int|
                    3 <= i < 35 && #[trigger] text[i] != '0'
                &&& hex_between(text, 36, 52) && exists|i: int|
                    36 <= i < 52 && #[trigger] text[i] != '0'
                &&& hex_between(text, 53, 55)
            }
            &&& context.tracestate matches Some(state) ==> state@.len() <= 512 && is_ascii_chars(
                state@,
            )
            &&& context.baggage matches Some(baggage) ==> baggage@.len() <= 8192
                && is_ascii_chars(baggage@)
        },
        remote_trace(context) matches Some((trace, span)) ==> {
            &&& trace == context.traceparent->0@.subrange(3, 35)
            &&& span == context.traceparent->0@.subrange(36, 52)
        },
{
    if let Some(state) = context.tracestate {
        if is_ascii_chars(state@) {
            is_ascii_chars_encode_utf8(state@);
        }
    }
    if let Some(baggage) = context.baggage {
        if is_ascii_chars(baggage@) {
            is_ascii_chars_encode_utf8(baggage@);
        }
    }
    if let Some(parent) = context.traceparent {
        let text = parent@;
        lemma_traceparent(text);
    }
}

/// Whether a text is written as a trace parent, character by character.
spec fn reads_as_parent(text: Seq<char>) -> bool {
    &&& text.len() == 55
    &&& text[2] == '-' && text[35] == '-' && text[52] == '-'
    &&& hex_between(text, 0, 2) && !(text[0] == 'f' && text[1] == 'f')
    &&& hex_between(text, 3, 35) && exists|i: int| 3 <= i < 35 && #[trigger] text[i] != '0'
    &&& hex_between(text, 36, 52) && exists|i: int| 36 <= i < 52 && #[trigger] text[i] != '0'
    &&& hex_between(text, 53, 55)
}

proof fn lemma_traceparent(text: Seq<char>)
    ensures
        is_traceparent(text) <==> reads_as_parent(text),
{
    let bytes = encode_utf8(text);
    if reads_as_parent(text) {
        assert forall|i: int| 0 <= i < text.len() implies 0 <= #[trigger] text[i] < 128 by {
            if i < 2 {
                assert(is_hex_char(text[i]));
            } else if 3 <= i < 35 {
                assert(is_hex_char(text[i]));
            } else if 36 <= i < 52 {
                assert(is_hex_char(text[i]));
            } else if 53 <= i {
                assert(is_hex_char(text[i]));
            }
        }
        assert(is_ascii_chars(text));
        is_ascii_chars_encode_utf8(text);
        lemma_run_of_digits(text, 0, 2);
        lemma_run_of_digits(text, 3, 35);
        lemma_run_of_digits(text, 36, 52);
        lemma_run_of_digits(text, 53, 55);
    } else if is_traceparent(text) {
        is_ascii_chars_encode_utf8(text);
        lemma_run_of_digits(text, 0, 2);
        lemma_run_of_digits(text, 3, 35);
        lemma_run_of_digits(text, 36, 52);
        lemma_run_of_digits(text, 53, 55);
    }
}

proof fn lemma_run_of_digits(text: Seq<char>, from: int, to: int)
    requires
        is_ascii_chars(text),
        0 <= from <= to <= text.len(),
    ensures
        all_hex(encode_utf8(text).subrange(from, to)) <==> hex_between(text, from, to),
        all_zero(encode_utf8(text).subrange(from, to)) <==> !exists|i: int|
            from <= i < to && #[trigger] text[i] != '0',
{
    is_ascii_chars_encode_utf8(text);
    let run = encode_utf8(text).subrange(from, to);
    assert forall|i: int| 0 <= i < run.len() implies #[trigger] run[i] == text[from + i] as u8 by {}
    if all_hex(run) {
        assert forall|i: int| from <= i < to implies is_hex_char(#[trigger] text[i]) by {
            assert(is_hex_byte(run[i - from]));
        }
    }
    if hex_between(text, from, to) {
        assert forall|i: int| 0 <= i < run.len() implies is_hex_byte(#[trigger] run[i]) by {
            assert(is_hex_char(text[from + i]));
        }
    }
    if all_zero(run) {
        assert forall|i: int| from <= i < to implies #[trigger] text[i] == '0' by {
            assert(run[i - from] == 48);
        }
    } else {
        let i = choose|i: int| 0 <= i < run.len() && #[trigger] run[i] != 48;
        assert(text[from + i] != '0');
    }
}

/// A trace is carried on under the three names, each exactly where it was given, in
/// order.
pub proof fn law_trace_is_carried_on(context: TraceContext, name: Seq<char>, value: Seq<char>)
    ensures
        ({
            let entries = carrier_model(context);
            &&& entries.contains((name, value)) <==> {
                ||| name == "traceparent"@ && (context.traceparent matches Some(given)
                    && given@ == value)
                ||| name == "tracestate"@ && (context.tracestate matches Some(given) && given@
                    == value)
                ||| name == "baggage"@ && (context.baggage matches Some(given) && given@ == value)
            }
            &&& entries.len() == (if context.traceparent is Some {
                1int
            } else {
                0
            }) + (if context.tracestate is Some {
                1int
            } else {
                0
            }) + (if context.baggage is Some {
                1int
            } else {
                0
            })
        }),
{
    let entries = carrier_model(context);
    if let Some(parent) = context.traceparent {
        assert(entries[0] == ("traceparent"@, parent@));
        if let Some(state) = context.tracestate {
            assert(entries[1] == ("tracestate"@, state@));
            if let Some(baggage) = context.baggage {
                assert(entries[2] == ("baggage"@, baggage@));
            }
        } else if let Some(baggage) = context.baggage {
            assert(entries[1] == ("baggage"@, baggage@));
        }
    } else if let Some(state) = context.tracestate {
        assert(entries[0] == ("tracestate"@, state@));
        if let Some(baggage) = context.baggage {
            assert(entries[1] == ("baggage"@, baggage@));
        }
    } else if let Some(baggage) = context.baggage {
        assert(entries[0] == ("baggage"@, baggage@));
    }
}

/// The result of a tool call is written with each of its parts under its name, and
/// without those that it does not have.
pub proof fn law_written_result_has_its_parts(result: CallToolResult)
    ensures
        ({
            let json = call_result_json(result);
            &&& member(json, "resultType"@) == match result.result_type {
                Some(kind) => Some(Json::Text(kind@)),
                None => None,
            }
            &&& member(json, "content"@) matches Some(Json::Array(items)) && items.len()
                == result.content@.len() && forall|i: int|
                0 <= i < items.len() ==> #[trigger] items[i] == result.content@[i]@
            &&& member(json, "structuredContent"@) == match result.structured_content {
                Some(content) => Some(content@),
                None => None,
            }
            &&& member(json, "isError"@) == match result.is_error {
                Some(failed) => Some(Json::Bool(failed)),
                None => None,
            }
            &&& member(json, "_meta"@) == match result.meta {
                Some(meta) => Some(meta@),
                None => None,
            }
        }),
{
    reveal_strlit("resultType");
    reveal_strlit("content");
    reveal_strlit("structuredContent");
    reveal_strlit("isError");
    reveal_strlit("_meta");
    assert("resultType"@.len() == 10);
    assert("content"@.len() == 7);
    assert("structuredContent"@.len() == 17);
    assert("isError"@.len() == 7);
    assert("_meta"@.len() == 5);
    assert("content"@[0] == 'c');
    assert("isError"@[0] == 'i');
    lemma_entry_pushed();
}

/// The metrics of a result say what the result says of itself: whether it came from
/// a cache, was cut, or goes on.
pub proof fn law_metrics_say_what_the_result_says(value: Json)
    ensures
        ({
            let metrics = metrics_of(value);
            &&& member(value, "cache_hit"@) matches Some(Json::Bool(hit)) ==> metrics.cache_hit
                == Some(hit)
            &&& !(member(value, "cache_hit"@) matches Some(Json::Bool(_))) ==> metrics.cache_hit
                == match member(value, "cache"@) {
                Some(cache) => match member(cache, "hit"@) {
                    Some(Json::Bool(hit)) => Some(hit),
                    _ => None,
                },
                None => None,
            }
            &&& metrics.truncated <==> member(value, "truncated"@) == Some(Json::Bool(true))
            &&& metrics.paginated <==> {
                ||| member(value, "next_cursor"@) is Some && member(value, "next_cursor"@) != Some(
                    Json::Null,
                )
                ||| member(value, "nextCursor"@) is Some && member(value, "nextCursor"@) != Some(
                    Json::Null,
                )
            }
            &&& item_count(value) <= usize::MAX ==> metrics.item_count == item_count(value)
            &&& deferred_bytes(value) <= usize::MAX ==> metrics.deferred_bytes == deferred_bytes(
                value,
            )
            &&& deferred_bytes(value) > usize::MAX ==> metrics.deferred_bytes == usize::MAX
        }),
{
}

/// The items of a result are counted by what it reports to have returned, under the
/// first of the names that gives a number.
pub proof fn law_reported_items_are_counted(value: Json, count: nat)
    requires
        count <= usize::MAX,
    ensures
        ({
            let none = |name: Seq<char>| member(value, name) is None;
            &&& member(value, "returned"@) == Some(json_count(count)) ==> item_count(value) == count
            &&& none("returned"@) && member(value, "returned_items"@) == Some(json_count(count))
                ==> item_count(value) == count
            &&& none("returned"@) && none("returned_items"@) && member(value, "returned_lines"@)
                == Some(json_count(count)) ==> item_count(value) == count
            &&& none("returned"@) && none("returned_items"@) && none("returned_lines"@) && member(
                value,
                "returned_diagnostics"@,
            ) == Some(json_count(count)) ==> item_count(value) == count
            &&& none("returned"@) && none("returned_items"@) && none("returned_lines"@) && none(
                "returned_diagnostics"@,
            ) && member(value, "returned_references"@) == Some(json_count(count)) ==> item_count(
                value,
            ) == count
            &&& none("returned"@) && none("returned_items"@) && none("returned_lines"@) && none(
                "returned_diagnostics"@,
            ) && none("returned_references"@) && member(value, "returned_calls"@) == Some(
                json_count(count),
            ) ==> item_count(value) == count
            &&& none("returned"@) && none("returned_items"@) && none("returned_lines"@) && none(
                "returned_diagnostics"@,
            ) && none("returned_references"@) && none("returned_calls"@) && member(
                value,
                "returned_groups"@,
            ) == Some(json_count(count)) ==> item_count(value) == count
        }),
{
}

/// The items of a result that reports no number are those that it lists; a result
/// that lists none has none.
pub proof fn law_listed_items_are_counted(value: Json, items: Seq<Json>)
    requires
        member(value, "returned"@) is None,
        member(value, "returned_items"@) is None,
        member(value, "returned_lines"@) is None,
        member(value, "returned_diagnostics"@) is None,
        member(value, "returned_references"@) is None,
        member(value, "returned_calls"@) is None,
        member(value, "returned_groups"@) is None,
    ensures
        member(value, "items"@) == Some(Json::Array(items)) ==> item_count(value) == items.len(),
        member(value, "items"@) is None && member(value, "matches"@) == Some(Json::Array(items))
            ==> item_count(value) == items.len(),
        member(value, "items"@) is None && member(value, "matches"@) is None && member(
            value,
            "diagnostics"@,
        ) == Some(Json::Array(items)) ==> item_count(value) == items.len(),
        member(value, "items"@) is None && member(value, "matches"@) is None && member(
            value,
            "diagnostics"@,
        ) is None ==> item_count(value) == 0,
{
}

/// What a result defers is the sum over all its parts: each object that links a
/// resource counts the size it gives, and everything in an array or an object
/// counts.
pub proof fn law_deferred_bytes_add_up(
    items: Seq<Json>,
    item: Json,
    entries: Seq<(Seq<char>, Json)>,
    bytes: nat,
    at: int,
)
    ensures
        deferred_bytes(Json::Array(items.push(item))) == deferred_bytes(Json::Array(items))
            + deferred_bytes(item),
        deferred_bytes(Json::Array(Seq::empty())) == 0,
        bytes <= usize::MAX && member(Json::Object(entries), "uri"@) is Some && member(
            Json::Object(entries),
            "total_bytes"@,
        ) == Some(json_count(bytes)) ==> deferred_bytes(Json::Object(entries)) == bytes
            + entries_deferred(entries),
        member(Json::Object(entries), "uri"@) is None ==> deferred_bytes(Json::Object(entries))
            == entries_deferred(entries),
        member(Json::Object(entries), "total_bytes"@) is None ==> deferred_bytes(
            Json::Object(entries),
        ) == entries_deferred(entries),
        entries_deferred(Seq::empty()) == 0,
        0 <= at < entries.len() ==> entries_deferred(entries) == entries_deferred(
            entries.remove(at),
        ) + deferred_bytes(entries[at].1),
        !(item is Array) && !(item is Object) ==> deferred_bytes(item) == 0,
{
    reveal_with_fuel(deferred_bytes, 3);
    reveal_with_fuel(items_deferred, 2);
    assert(items.push(item).drop_last() =~= items);
    assert(items.push(item)[items.push(item).len() - 1] == item);
    if 0 <= at < entries.len() {
        lemma_entries_deferred_without(entries, at);
    }
}

proof fn lemma_entries_deferred_without(entries: Seq<(Seq<char>, Json)>, at: int)
    requires
        0 <= at < entries.len(),
    ensures
        entries_deferred(entries) == entries_deferred(entries.remove(at)) + deferred_bytes(
            entries[at].1,
        ),
    decreases entries.len(),
{
    if at == entries.len() - 1 {
        assert(entries.remove(at) =~= entries.drop_last());
    } else {
        lemma_entries_deferred_without(entries.drop_last(), at);
        assert(entries.remove(at).drop_last() =~= entries.drop_last().remove(at));
        assert(entries.remove(at).last() == entries.last());
    }
}

} // verus!
