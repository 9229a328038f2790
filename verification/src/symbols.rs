//! Symbol searches and inspections: what is asked for, and within which bounds.

use crate::decimal::{decimal, decimal_text};
use crate::errors::{
    error_text, invalid_params, operation_error, operation_failure, parse_project_id,
    project_failure, project_operation_error, project_routing_error, routing_failure, ErrorModel,
    McpError,
};
use crate::json::{
    items_text, json_array, json_len, json_opt_str, json_optional_text, lemma_entry_pushed, member,
    no_fields, rendered_len, Json, JsonObject, JsonValue,
};
use crate::project::{is_empty_text, ProjectId};
use crate::requests::{optional_handle, requested_project};
use crate::sizes::{lemma_ascii_len, lemma_byte_len_concat};
use crate::text::{byte_len, chars_of, concat3, optional_text, texts, utf8_len};
use crate::tools::{
    InspectSymbolBatchParams, InspectSymbolBudget, InspectSymbolParams, InspectSymbolTarget,
    SymbolHandle, WorkspaceSymbolBatchParams, WorkspaceSymbolParams,
};
use vstd::prelude::*;
use vstd::string::*;

verus! {

/// The queries of one batch.
pub const MAX_BATCH_QUERIES: usize = 32;

/// The bytes of one query of a batch.
pub const MAX_QUERY_BYTES: usize = 1_000;

/// The items that one search returns.
pub const MAX_SYMBOL_ITEMS: u32 = 1_000;

/// The least and the greatest response budget.
pub const MIN_SEARCH_BYTES: usize = 4_096;

pub const MAX_SEARCH_BYTES: usize = 1_048_576;

/// The targets of one inspection batch.
pub const INSPECT_SYMBOL_BATCH_MAX_TARGETS: usize = 16;

/// The bytes that one target takes as JSON.
pub const MAX_TARGET_BYTES: usize = 4_096;

/// The bytes that some texts take together.
pub open spec fn total_bytes(items: Seq<Seq<char>>) -> nat
    decreases items.len(),
{
    if items.len() == 0 {
        0
    } else {
        total_bytes(items.drop_last()) + byte_len(items.last())
    }
}

/// Whether a query has a length that a batch takes.
pub open spec fn is_batch_query(query: Seq<char>) -> bool {
    0 < byte_len(query) <= MAX_QUERY_BYTES
}

/// The least budget that returns the identity of every query.
pub open spec fn identity_bytes(queries: Seq<Seq<char>>) -> nat {
    total_bytes(queries) + queries.len() * 128 + 256
}

/// Why a batch of symbol searches is refused, if it is.
pub open spec fn symbol_batch_refusal(params: WorkspaceSymbolBatchParams) -> Option<ErrorModel> {
    let queries = texts(params.queries@);
    if queries.len() == 0 || queries.len() > MAX_BATCH_QUERIES {
        Some(invalid_params("queries must contain between 1 and 32 entries"@))
    } else if exists|i: int|
        0 <= i < queries.len() && !is_batch_query(#[trigger] queries[i]) {
        Some(invalid_params("each query must contain between 1 and 1000 bytes"@))
    } else if params.max_items == 0 || params.max_items > MAX_SYMBOL_ITEMS {
        Some(invalid_params("max_items must be between 1 and 1000"@))
    } else if params.max_bytes < MIN_SEARCH_BYTES || params.max_bytes > MAX_SEARCH_BYTES {
        Some(invalid_params("max_bytes must be between 4096 and 1048576"@))
    } else if identity_bytes(queries) > params.max_bytes {
        Some(invalid_params("max_bytes is too small to return every query identity"@))
    } else {
        None
    }
}

/// Checks a batch of symbol searches.
pub fn validate_workspace_symbol_batch(params: &WorkspaceSymbolBatchParams) -> (checked: Result<
    (),
    McpError,
>)
    ensures
        match symbol_batch_refusal(*params) {
            Some(refusal) => checked matches Err(error) && error@ == refusal,
            None => checked is Ok,
        },
{
    let ghost queries = texts(params.queries@);
    assert(queries.len() == params.queries@.len());
    if params.queries.len() == 0 || params.queries.len() > MAX_BATCH_QUERIES {
        return Err(McpError::invalid_params("queries must contain between 1 and 32 entries"));
    }
    let mut sum: usize = 0;
    let mut i: usize = 0;
    assert(queries.take(0) =~= Seq::<Seq<char>>::empty());
    while i < params.queries.len()
        invariant
            i <= params.queries@.len() <= MAX_BATCH_QUERIES,
            queries == texts(params.queries@),
            sum == total_bytes(queries.take(i as int)),
            sum <= i * MAX_QUERY_BYTES,
            forall|j: int| 0 <= j < i ==> is_batch_query(#[trigger] queries[j]),
        decreases params.queries@.len() - i,
    {
        let len = utf8_len(params.queries[i].as_str());
        assert(queries[i as int] == params.queries@[i as int]@);
        if len == 0 || len > MAX_QUERY_BYTES {
            assert(!is_batch_query(queries[i as int]));
            return Err(
                McpError::invalid_params("each query must contain between 1 and 1000 bytes"),
            );
        }
        proof {
            let next = queries.take(i + 1);
            assert(next.drop_last() =~= queries.take(i as int));
            assert(next.last() == queries[i as int]);
        }
        sum = sum + len;
        i = i + 1;
    }
    assert(queries.take(i as int) =~= queries);
    if params.max_items == 0 || params.max_items > MAX_SYMBOL_ITEMS {
        return Err(McpError::invalid_params("max_items must be between 1 and 1000"));
    }
    if params.max_bytes < MIN_SEARCH_BYTES || params.max_bytes > MAX_SEARCH_BYTES {
        return Err(McpError::invalid_params("max_bytes must be between 4096 and 1048576"));
    }
    if sum + params.queries.len() * 128 + 256 > params.max_bytes {
        return Err(
            McpError::invalid_params("max_bytes is too small to return every query identity"),
        );
    }
    Ok(())
}

/// The answer to a batch whose check failed: batches fail as operations.
pub open spec fn batch_failure(reason: ErrorModel) -> ErrorModel {
    operation_failure(error_text(reason))
}

/// The answer to a batch that failed.
pub fn batch_error(reason: &McpError) -> (error: McpError)
    ensures
        error@ == batch_failure(reason@),
{
    operation_error(reason.text().as_str())
}

/// The answer to a symbol batch whose project could not be routed to.
pub fn symbol_batch_routing_error(message: &str) -> (error: McpError)
    ensures
        error@ == batch_failure(routing_failure(message@)),
{
    batch_error(&project_routing_error(message))
}

/// What the project is asked for when one query is searched for.
#[derive(Debug, PartialEq, Eq)]
pub struct WorkspaceSymbolPageRequest {
    pub query: String,
    pub kind_filter: Option<String>,
    pub match_mode: String,
    pub scope: String,
    pub include_generated: bool,
    pub max_items: usize,
    pub max_bytes: usize,
    pub page_token: Option<String>,
}

/// Whether a page request hands on all that a symbol search says.
pub open spec fn is_page_request(
    request: WorkspaceSymbolPageRequest,
    params: WorkspaceSymbolParams,
) -> bool {
    &&& Some(request.query) == params.query
    &&& request.kind_filter == params.kind_filter
    &&& request.match_mode == params.match_mode
    &&& request.scope == params.scope
    &&& request.include_generated == params.include_generated
    &&& request.max_items == params.limit
    &&& request.max_bytes == params.max_bytes
    &&& request.page_token == params.page_token
}

/// What a symbol search asks for.
#[derive(Debug, PartialEq, Eq)]
pub enum WorkspaceSymbolPlan {
    /// One query.
    One { project_id: ProjectId, request: WorkspaceSymbolPageRequest },
    /// Several queries.
    Many { project_id: ProjectId, batch: WorkspaceSymbolBatchParams },
}

/// The batch that a symbol search with several queries stands for.
pub open spec fn symbol_batch(params: WorkspaceSymbolParams) -> WorkspaceSymbolBatchParams {
    WorkspaceSymbolBatchParams {
        project_id: params.project_id,
        queries: params.queries,
        kind_filter: params.kind_filter,
        match_mode: params.match_mode,
        scope: params.scope,
        max_items: params.limit,
        max_bytes: params.max_bytes,
        include_generated: params.include_generated,
    }
}

/// Why a symbol search is refused, if it is.
pub open spec fn symbol_search_refusal(params: WorkspaceSymbolParams) -> Option<ErrorModel> {
    if params.queries@.len() > 0 {
        if params.query is Some || params.page_token is Some {
            Some(invalid_params("queries cannot be combined with query or page_token"@))
        } else {
            batch_request_refusal(symbol_batch(params))
        }
    } else if params.query is None {
        Some(invalid_params("query or queries is required"@))
    } else if params.limit == 0 || params.limit > MAX_SYMBOL_ITEMS {
        Some(invalid_params("limit must be between 1 and 1000"@))
    } else if params.max_bytes < MIN_SEARCH_BYTES || params.max_bytes > MAX_SEARCH_BYTES {
        Some(invalid_params("max_bytes must be between 4096 and 1048576"@))
    } else {
        match requested_project(params.project_id@) {
            Err(error) => Some(error),
            Ok(_) => None,
        }
    }
}

/// Why a request for a batch of symbol searches is refused, if it is.
pub open spec fn batch_request_refusal(params: WorkspaceSymbolBatchParams) -> Option<ErrorModel> {
    match symbol_batch_refusal(params) {
        Some(refusal) => Some(batch_failure(refusal)),
        None => match requested_project(params.project_id@) {
            Err(error) => Some(batch_failure(error)),
            Ok(_) => None,
        },
    }
}

/// Reads a request for a batch of symbol searches.
pub fn workspace_symbol_batch(params: &WorkspaceSymbolBatchParams) -> (project_id: Result<
    ProjectId,
    McpError,
>)
    ensures
        match batch_request_refusal(*params) {
            Some(refusal) => project_id matches Err(error) && error@ == refusal,
            None => project_id matches Ok(id) && id@ == params.project_id@,
        },
{
    if let Err(error) = validate_workspace_symbol_batch(params) {
        return Err(batch_error(&error));
    }
    match parse_project_id(params.project_id.as_str()) {
        Ok(id) => Ok(id),
        Err(error) => Err(batch_error(&error)),
    }
}

/// Reads a symbol search: one query, or several.
pub fn workspace_symbol_search(params: WorkspaceSymbolParams) -> (plan: Result<
    WorkspaceSymbolPlan,
    McpError,
>)
    ensures
        match symbol_search_refusal(params) {
            Some(refusal) => plan matches Err(error) && error@ == refusal,
            None => if params.queries@.len() > 0 {
                plan matches Ok(WorkspaceSymbolPlan::Many { project_id, batch }) && project_id@
                    == params.project_id@ && batch == symbol_batch(params)
            } else {
                plan matches Ok(WorkspaceSymbolPlan::One { project_id, request }) && project_id@
                    == params.project_id@ && is_page_request(request, params)
            },
        },
{
    if params.queries.len() > 0 {
        if params.query.is_some() || params.page_token.is_some() {
            return Err(
                McpError::invalid_params("queries cannot be combined with query or page_token"),
            );
        }
        let batch = WorkspaceSymbolBatchParams {
            project_id: params.project_id,
            queries: params.queries,
            kind_filter: params.kind_filter,
            match_mode: params.match_mode,
            scope: params.scope,
            max_items: params.limit,
            max_bytes: params.max_bytes,
            include_generated: params.include_generated,
        };
        return match workspace_symbol_batch(&batch) {
            Ok(project_id) => Ok(WorkspaceSymbolPlan::Many { project_id, batch }),
            Err(error) => Err(error),
        };
    }
    let query = match params.query {
        Some(query) => query,
        None => {
            return Err(McpError::invalid_params("query or queries is required"));
        },
    };
    if params.limit == 0 || params.limit > MAX_SYMBOL_ITEMS {
        return Err(McpError::invalid_params("limit must be between 1 and 1000"));
    }
    if params.max_bytes < MIN_SEARCH_BYTES || params.max_bytes > MAX_SEARCH_BYTES {
        return Err(McpError::invalid_params("max_bytes must be between 4096 and 1048576"));
    }
    match parse_project_id(params.project_id.as_str()) {
        Ok(project_id) => Ok(
            WorkspaceSymbolPlan::One {
                project_id,
                request: WorkspaceSymbolPageRequest {
                    query,
                    kind_filter: params.kind_filter,
                    match_mode: params.match_mode,
                    scope: params.scope,
                    include_generated: params.include_generated,
                    max_items: params.limit as usize,
                    max_bytes: params.max_bytes,
                    page_token: params.page_token,
                },
            },
        ),
        Err(error) => Err(error),
    }
}

/// Whether a character is white space.
pub open spec fn is_space(c: char) -> bool {
    let code = c as u32;
    ||| 9 <= code <= 13
    ||| code == 32
    ||| code == 133
    ||| code == 160
    ||| code == 5760
    ||| 8192 <= code <= 8202
    ||| code == 8232
    ||| code == 8233
    ||| code == 8239
    ||| code == 8287
    ||| code == 12288
}

/// Whether a text holds nothing but white space.
pub open spec fn is_blank(text: Seq<char>) -> bool {
    forall|i: int| 0 <= i < text.len() ==> is_space(#[trigger] text[i])
}

/// Whether a text holds nothing but white space.
pub fn is_blank_text(text: &str) -> (blank: bool)
    ensures
        blank == is_blank(text@),
{
    let chars = chars_of(text);
    let mut i: usize = 0;
    while i < chars.len()
        invariant
            i <= chars@.len(),
            chars@ == text@,
            forall|j: int| 0 <= j < i ==> is_space(#[trigger] chars@[j]),
        decreases chars@.len() - i,
    {
        let code = chars[i] as u32;
        let space = 9 <= code && code <= 13 || code == 32 || code == 133 || code == 160 || code
            == 5760 || 8192 <= code && code <= 8202 || code == 8232 || code == 8233 || code == 8239
            || code == 8287 || code == 12288;
        if !space {
            assert(!is_space(text@[i as int]));
            return false;
        }
        i = i + 1;
    }
    true
}

/// A target as JSON.
pub open spec fn target_json(target: InspectSymbolTarget) -> Json {
    Json::Object(
        no_fields().push(
            ("symbol_handle"@, json_optional_text(optional_handle(target.symbol_handle))),
        ).push(("query"@, json_optional_text(optional_text(target.query)))).push(
            ("kind"@, json_optional_text(optional_text(target.kind))),
        ).push(("path"@, json_optional_text(optional_text(target.path)))).push(
            ("container"@, json_optional_text(optional_text(target.container))),
        ),
    )
}

pub open spec fn targets_json(targets: Seq<InspectSymbolTarget>) -> Json {
    Json::Array(Seq::new(targets.len(), |i: int| target_json(targets[i])))
}

fn target_value(target: &InspectSymbolTarget) -> (json: JsonValue)
    ensures
        json@ == target_json(*target),
{
    let mut fields = JsonObject::new();
    match &target.symbol_handle {
        Some(handle) => fields.put("symbol_handle", crate::json::json_str(handle.text.as_str())),
        None => fields.put("symbol_handle", JsonValue::Null),
    }
    fields.put("query", json_opt_str(&target.query));
    fields.put("kind", json_opt_str(&target.kind));
    fields.put("path", json_opt_str(&target.path));
    fields.put("container", json_opt_str(&target.container));
    fields.into_value()
}

fn targets_value(targets: &Vec<InspectSymbolTarget>) -> (json: JsonValue)
    ensures
        json@ == targets_json(targets@),
{
    let mut values: Vec<JsonValue> = Vec::new();
    let mut i: usize = 0;
    while i < targets.len()
        invariant
            i <= targets@.len(),
            values@.len() == i,
            forall|j: int| 0 <= j < i ==> (#[trigger] values@[j])@ == target_json(targets@[j]),
        decreases targets@.len() - i,
    {
        values.push(target_value(&targets[i]));
        i = i + 1;
    }
    let json = json_array(values);
    assert(json@->Array_0 =~= targets_json(targets@)->Array_0);
    json
}

/// What a batch of inspections takes beside the identities of its targets.
#[derive(Clone, Copy, Debug, PartialEq, Eq, Structural)]
pub struct InspectBatchLimits {
    pub response_overhead_bytes: usize,
    pub min_bytes_per_target: usize,
}

impl InspectBatchLimits {
    /// Whether a response can hold what the limits ask for.
    pub open spec fn wf(self) -> bool {
        self.response_overhead_bytes <= MAX_SEARCH_BYTES && self.min_bytes_per_target
            <= MAX_SEARCH_BYTES
    }
}

/// Whether a target says what to inspect.
pub open spec fn is_named(target: InspectSymbolTarget) -> bool {
    target.symbol_handle is Some || (target.query is Some && !is_blank(target.query->0@))
}

/// The least budget of a batch of inspections.
pub open spec fn minimum_bytes(
    targets: Seq<InspectSymbolTarget>,
    limits: InspectBatchLimits,
) -> nat {
    json_len(targets_json(targets)) + limits.response_overhead_bytes as nat + targets.len()
        * limits.min_bytes_per_target as nat
}

/// Why a batch of inspections is refused, if it is. A later page names no
/// targets, and nothing else of it is looked at.
pub open spec fn inspect_batch_refusal(
    params: InspectSymbolBatchParams,
    limits: InspectBatchLimits,
) -> Option<ErrorModel> {
    let targets = params.targets@;
    if params.page_token is Some {
        if targets.len() > 0 {
            Some(invalid_params("targets must be empty when page_token is supplied"@))
        } else {
            None
        }
    } else if targets.len() == 0 || targets.len() > INSPECT_SYMBOL_BATCH_MAX_TARGETS {
        Some(invalid_params("targets must contain between 1 and 16 symbols"@))
    } else if exists|i: int| 0 <= i < targets.len() && !is_named(#[trigger] targets[i]) {
        Some(invalid_params("every target requires query or symbol_handle"@))
    } else if exists|i: int|
        0 <= i < targets.len() && json_len(target_json(#[trigger] targets[i]))
            > MAX_TARGET_BYTES {
        Some(invalid_params("each target identity must fit within 4096 serialized bytes"@))
    } else if params.candidate_limit == 0 || params.candidate_limit > 100 {
        Some(invalid_params("candidate_limit must be between 1 and 100"@))
    } else if params.budget.max_items < targets.len() {
        Some(invalid_params("budget.max_items must allow at least one item per target"@))
    } else if params.budget.max_bytes < minimum_bytes(targets, limits) || params.budget.max_bytes
        > MAX_SEARCH_BYTES {
        Some(
            invalid_params(
                "budget.max_bytes must be between "@ + decimal(minimum_bytes(targets, limits))
                    + " and 1048576 for these targets"@,
            ),
        )
    } else {
        None
    }
}

/// A list takes little more than its items.
proof fn lemma_items_len(items: Seq<Json>, max: nat)
    requires
        forall|i: int| 0 <= i < items.len() ==> json_len(#[trigger] items[i]) <= max,
    ensures
        byte_len(items_text(items)) <= items.len() * (max + 1),
    decreases items.len(),
{
    if items.len() == 0 {
        lemma_ascii_len(Seq::<char>::empty());
        assert(items_text(items) =~= Seq::<char>::empty());
    } else {
        let head = items.drop_last();
        let last = items[items.len() - 1];
        assert forall|i: int| 0 <= i < head.len() implies json_len(#[trigger] head[i]) <= max by {
            assert(head[i] == items[i]);
        }
        lemma_items_len(head, max);
        lemma_ascii_len(seq![',']);
        if items.len() == 1 {
            assert(items[0] == last);
        } else {
            lemma_byte_len_concat(items_text(head), seq![',']);
            lemma_byte_len_concat(
                items_text(head) + seq![','],
                crate::json::json_text(last),
            );
        }
        assert(items.len() * (max + 1) == head.len() * (max + 1) + (max + 1))
            by (nonlinear_arith)
            requires
                items.len() == head.len() + 1,
        ;
    }
}

proof fn lemma_targets_len(targets: Seq<InspectSymbolTarget>)
    requires
        targets.len() <= INSPECT_SYMBOL_BATCH_MAX_TARGETS,
        forall|i: int|
            0 <= i < targets.len() ==> json_len(target_json(#[trigger] targets[i]))
                <= MAX_TARGET_BYTES,
    ensures
        json_len(targets_json(targets)) <= 16 * 4097 + 2,
{
    let items = targets_json(targets)->Array_0;
    assert forall|i: int| 0 <= i < items.len() implies json_len(#[trigger] items[i])
        <= MAX_TARGET_BYTES by {
        assert(items[i] == target_json(targets[i]));
    }
    lemma_items_len(items, MAX_TARGET_BYTES as nat);
    lemma_ascii_len(seq!['[']);
    lemma_ascii_len(seq![']']);
    lemma_byte_len_concat(seq!['['], items_text(items));
    lemma_byte_len_concat(seq!['['] + items_text(items), seq![']']);
    assert(items.len() * (MAX_TARGET_BYTES + 1) <= 16 * 4097) by (nonlinear_arith)
        requires
            items.len() <= 16,
            MAX_TARGET_BYTES == 4096,
    ;
}

/// Checks a batch of inspections.
pub fn validate_inspect_symbol_batch(
    params: &InspectSymbolBatchParams,
    limits: InspectBatchLimits,
) -> (checked: Result<(), McpError>)
    requires
        limits.wf(),
    ensures
        match inspect_batch_refusal(*params, limits) {
            Some(refusal) => checked matches Err(error) && error@ == refusal,
            None => checked is Ok,
        },
{
    if params.page_token.is_some() {
        if params.targets.len() > 0 {
            return Err(
                McpError::invalid_params("targets must be empty when page_token is supplied"),
            );
        }
        return Ok(());
    }
    if params.targets.len() == 0 || params.targets.len() > INSPECT_SYMBOL_BATCH_MAX_TARGETS {
        return Err(McpError::invalid_params("targets must contain between 1 and 16 symbols"));
    }
    let mut i: usize = 0;
    while i < params.targets.len()
        invariant
            i <= params.targets@.len(),
            params.page_token is None,
            0 < params.targets@.len() <= INSPECT_SYMBOL_BATCH_MAX_TARGETS,
            forall|j: int| 0 <= j < i ==> is_named(#[trigger] params.targets@[j]),
        decreases params.targets@.len() - i,
    {
        let target = &params.targets[i];
        let named = target.symbol_handle.is_some() || match &target.query {
            Some(query) => !is_blank_text(query.as_str()),
            None => false,
        };
        if !named {
            assert(!is_named(params.targets@[i as int]));
            return Err(
                McpError::invalid_params("every target requires query or symbol_handle"),
            );
        }
        i = i + 1;
    }
    let mut k: usize = 0;
    while k < params.targets.len()
        invariant
            k <= params.targets@.len(),
            params.page_token is None,
            0 < params.targets@.len() <= INSPECT_SYMBOL_BATCH_MAX_TARGETS,
            forall|j: int|
                0 <= j < params.targets@.len() ==> is_named(#[trigger] params.targets@[j]),
            forall|j: int|
                0 <= j < k ==> json_len(target_json(#[trigger] params.targets@[j]))
                    <= MAX_TARGET_BYTES,
        decreases params.targets@.len() - k,
    {
        if rendered_len(&target_value(&params.targets[k])) > MAX_TARGET_BYTES {
            assert(json_len(target_json(params.targets@[k as int])) > MAX_TARGET_BYTES);
            return Err(
                McpError::invalid_params(
                    "each target identity must fit within 4096 serialized bytes",
                ),
            );
        }
        k = k + 1;
    }
    if params.candidate_limit == 0 || params.candidate_limit > 100 {
        return Err(McpError::invalid_params("candidate_limit must be between 1 and 100"));
    }
    if params.budget.max_items < params.targets.len() {
        return Err(
            McpError::invalid_params("budget.max_items must allow at least one item per target"),
        );
    }
    let identity = rendered_len(&targets_value(&params.targets));
    let count = params.targets.len();
    proof {
        lemma_targets_len(params.targets@);
        assert(count * limits.min_bytes_per_target <= 16 * 1_048_576) by (nonlinear_arith)
            requires
                count <= 16,
                limits.min_bytes_per_target <= 1_048_576,
        ;
    }
    let minimum = identity + limits.response_overhead_bytes + count * limits.min_bytes_per_target;
    if params.budget.max_bytes < minimum || params.budget.max_bytes > MAX_SEARCH_BYTES {
        let message = concat3(
            "budget.max_bytes must be between ",
            decimal_text(minimum as u64).as_str(),
            " and 1048576 for these targets",
        );
        return Err(McpError::invalid_params(message.as_str()));
    }
    Ok(())
}

/// What the project is asked for when one symbol is inspected.
#[derive(Debug, PartialEq, Eq)]
pub struct InspectSymbolRequest {
    pub symbol_handle: Option<SymbolHandle>,
    pub query: Option<String>,
    pub kind: Option<String>,
    pub path: Option<String>,
    pub container: Option<String>,
    pub candidate_limit: u32,
    pub sections: Vec<String>,
    pub budget: InspectSymbolBudget,
}

/// Whether a request hands on all that an inspection of one symbol says.
pub open spec fn is_inspect_request(
    request: InspectSymbolRequest,
    params: InspectSymbolParams,
) -> bool {
    &&& request.symbol_handle == params.symbol_handle
    &&& request.query == params.query
    &&& request.kind == params.kind
    &&& request.path == params.path
    &&& request.container == params.container
    &&& request.candidate_limit == params.candidate_limit
    &&& request.sections == params.sections
    &&& request.budget == params.budget
}

/// What an inspection asks for.
#[derive(Debug, PartialEq, Eq)]
pub enum InspectSymbolPlan {
    /// One symbol.
    One { project_id: ProjectId, request: InspectSymbolRequest },
    /// Several symbols, or a later page of them.
    Many { project_id: ProjectId, batch: InspectSymbolBatchParams },
}

/// The batch that an inspection of several symbols stands for.
pub open spec fn inspect_batch(params: InspectSymbolParams) -> InspectSymbolBatchParams {
    InspectSymbolBatchParams {
        project_id: params.project_id,
        targets: params.targets,
        candidate_limit: params.candidate_limit,
        sections: params.sections,
        budget: params.budget,
        page_token: params.page_token,
    }
}

/// Why a request for a batch of inspections is refused, if it is.
pub open spec fn inspect_request_refusal(
    params: InspectSymbolBatchParams,
    limits: InspectBatchLimits,
) -> Option<ErrorModel> {
    match inspect_batch_refusal(params, limits) {
        Some(refusal) => Some(batch_failure(refusal)),
        None => match requested_project(params.project_id@) {
            Err(error) => Some(batch_failure(error)),
            Ok(_) => None,
        },
    }
}

/// Why an inspection is refused, if it is.
pub open spec fn inspect_refusal(
    params: InspectSymbolParams,
    limits: InspectBatchLimits,
) -> Option<ErrorModel> {
    if params.targets@.len() > 0 || params.page_token is Some {
        if params.symbol_handle is Some || params.query is Some || params.kind is Some
            || params.path is Some || params.container is Some {
            Some(
                invalid_params(
                    "targets or page_token cannot be combined with a single-symbol identity"@,
                ),
            )
        } else {
            inspect_request_refusal(inspect_batch(params), limits)
        }
    } else if params.symbol_handle is None && (params.query is None || params.query->0@.len()
        == 0) {
        Some(invalid_params("query or symbol_handle is required"@))
    } else if params.budget.max_bytes < MIN_SEARCH_BYTES || params.budget.max_items == 0 {
        Some(
            invalid_params(
                "budget.max_bytes must be at least 4096 and budget.max_items must be positive"@,
            ),
        )
    } else {
        match requested_project(params.project_id@) {
            Err(error) => Some(error),
            Ok(_) => None,
        }
    }
}

/// Reads a request for a batch of inspections.
pub fn inspect_symbol_batch(
    params: &InspectSymbolBatchParams,
    limits: InspectBatchLimits,
) -> (project_id: Result<ProjectId, McpError>)
    requires
        limits.wf(),
    ensures
        match inspect_request_refusal(*params, limits) {
            Some(refusal) => project_id matches Err(error) && error@ == refusal,
            None => project_id matches Ok(id) && id@ == params.project_id@,
        },
{
    if let Err(error) = validate_inspect_symbol_batch(params, limits) {
        return Err(batch_error(&error));
    }
    match parse_project_id(params.project_id.as_str()) {
        Ok(id) => Ok(id),
        Err(error) => Err(batch_error(&error)),
    }
}

/// Reads an inspection: of one symbol, or of several.
pub fn inspect_symbol(params: InspectSymbolParams, limits: InspectBatchLimits) -> (plan: Result<
    InspectSymbolPlan,
    McpError,
>)
    requires
        limits.wf(),
    ensures
        match inspect_refusal(params, limits) {
            Some(refusal) => plan matches Err(error) && error@ == refusal,
            None => if params.targets@.len() > 0 || params.page_token is Some {
                plan matches Ok(InspectSymbolPlan::Many { project_id, batch }) && project_id@
                    == params.project_id@ && batch == inspect_batch(params)
            } else {
                plan matches Ok(InspectSymbolPlan::One { project_id, request }) && project_id@
                    == params.project_id@ && is_inspect_request(request, params)
            },
        },
{
    if params.targets.len() > 0 || params.page_token.is_some() {
        if params.symbol_handle.is_some() || params.query.is_some() || params.kind.is_some()
            || params.path.is_some() || params.container.is_some() {
            return Err(
                McpError::invalid_params(
                    "targets or page_token cannot be combined with a single-symbol identity",
                ),
            );
        }
        let batch = InspectSymbolBatchParams {
            project_id: params.project_id,
            targets: params.targets,
            candidate_limit: params.candidate_limit,
            sections: params.sections,
            budget: params.budget,
            page_token: params.page_token,
        };
        return match inspect_symbol_batch(&batch, limits) {
            Ok(project_id) => Ok(InspectSymbolPlan::Many { project_id, batch }),
            Err(error) => Err(error),
        };
    }
    let unnamed = params.symbol_handle.is_none() && match &params.query {
        Some(query) => is_empty_text(query.as_str()),
        None => true,
    };
    if unnamed {
        return Err(McpError::invalid_params("query or symbol_handle is required"));
    }
    if params.budget.max_bytes < MIN_SEARCH_BYTES || params.budget.max_items == 0 {
        return Err(
            McpError::invalid_params(
                "budget.max_bytes must be at least 4096 and budget.max_items must be positive",
            ),
        );
    }
    match parse_project_id(params.project_id.as_str()) {
        Ok(project_id) => Ok(
            InspectSymbolPlan::One {
                project_id,
                request: InspectSymbolRequest {
                    symbol_handle: params.symbol_handle,
                    query: params.query,
                    kind: params.kind,
                    path: params.path,
                    container: params.container,
                    candidate_limit: params.candidate_limit,
                    sections: params.sections,
                    budget: params.budget,
                },
            },
        ),
        Err(error) => Err(error),
    }
}

/// The answer to an inspection that failed in its project.
pub fn inspect_failure(message: &str) -> (error: McpError)
    ensures
        error@ == batch_failure(operation_failure(message@)),
{
    batch_error(&operation_error(message))
}

/// The answer to a batch of inspections whose project could not be routed to.
pub fn inspect_batch_routing_error(message: &str) -> (error: McpError)
    ensures
        error@ == batch_failure(project_failure(message@)),
{
    batch_error(&project_operation_error(message))
}

/// A batch that is not refused has room for every target: one item each, and
/// their identities within the budget.
pub proof fn law_accepted_batch_covers_every_target(
    params: InspectSymbolBatchParams,
    limits: InspectBatchLimits,
)
    requires
        params.page_token is None,
        inspect_batch_refusal(params, limits) is None,
    ensures
        0 < params.targets@.len() <= INSPECT_SYMBOL_BATCH_MAX_TARGETS,
        params.targets@.len() <= params.budget.max_items,
        json_len(targets_json(params.targets@)) <= params.budget.max_bytes,
        forall|i: int| 0 <= i < params.targets@.len() ==> is_named(#[trigger] params.targets@[i]),
{
}

/// A batch of searches that is not refused has room for every query.
pub proof fn law_accepted_search_covers_every_query(params: WorkspaceSymbolBatchParams)
    requires
        symbol_batch_refusal(params) is None,
    ensures
        0 < params.queries@.len() <= MAX_BATCH_QUERIES,
        total_bytes(texts(params.queries@)) <= params.max_bytes,
        forall|i: int|
            0 <= i < params.queries@.len() ==> is_batch_query(
                #[trigger] texts(params.queries@)[i],
            ),
{
}

/// A batch of searches is refused exactly where it has no query or more than
/// thirty-two, where a query is empty or longer than a thousand bytes, or where its
/// bounds are out of range or too tight to name every query. What is wrong is named
/// in this order.
pub proof fn law_symbol_batch_is_within_bounds(params: WorkspaceSymbolBatchParams)
    ensures
        ({
            let refusal = symbol_batch_refusal(params);
            let count = params.queries@.len();
            let counted = 1 <= count <= 32;
            let sized = forall|i: int|
                0 <= i < count ==> 1 <= byte_len((#[trigger] params.queries@[i])@) <= 1000;
            let listed = 1 <= params.max_items <= 1000;
            let bounded = 4096 <= params.max_bytes <= 1048576;
            let named = total_bytes(texts(params.queries@)) + count * 128 + 256
                <= params.max_bytes;
            &&& refusal is None <==> counted && sized && listed && bounded && named
            &&& !counted ==> refusal == Some(
                invalid_params("queries must contain between 1 and 32 entries"@),
            )
            &&& counted && !sized ==> refusal == Some(
                invalid_params("each query must contain between 1 and 1000 bytes"@),
            )
            &&& counted && sized && !listed ==> refusal == Some(
                invalid_params("max_items must be between 1 and 1000"@),
            )
            &&& counted && sized && listed && !bounded ==> refusal == Some(
                invalid_params("max_bytes must be between 4096 and 1048576"@),
            )
            &&& counted && sized && listed && bounded && !named ==> refusal == Some(
                invalid_params("max_bytes is too small to return every query identity"@),
            )
        }),
{
    let queries = texts(params.queries@);
    assert(queries.len() == params.queries@.len());
    if forall|i: int|
        0 <= i < params.queries@.len() ==> 1 <= byte_len((#[trigger] params.queries@[i])@) <= 1000 {
        assert forall|i: int| 0 <= i < queries.len() implies is_batch_query(
            #[trigger] queries[i],
        ) by {
            assert(queries[i] == params.queries@[i]@);
        }
    } else {
        let i = choose|i: int|
            0 <= i < params.queries@.len() && !(1 <= byte_len((#[trigger] params.queries@[i])@)
                <= 1000);
        assert(queries[i] == params.queries@[i]@);
        assert(!is_batch_query(queries[i]));
    }
}

/// The bytes of several texts are those of each.
pub proof fn law_total_bytes_add_up(items: Seq<Seq<char>>, item: Seq<char>)
    ensures
        total_bytes(Seq::empty()) == 0,
        total_bytes(items.push(item)) == total_bytes(items) + byte_len(item),
{
    assert(items.push(item).drop_last() =~= items);
}

/// What refuses a batch is reported as a failed operation, with the text of the
/// refusal.
pub proof fn law_refused_batch_is_a_failed_operation(params: WorkspaceSymbolBatchParams)
    ensures
        batch_request_refusal(params) is None <==> symbol_batch_refusal(params) is None
            && params.project_id@.len() > 0,
        symbol_batch_refusal(params) matches Some(refusal) ==> batch_request_refusal(params)
            == Some(operation_failure(error_text(refusal))),
        symbol_batch_refusal(params) is None && params.project_id@.len() == 0
            ==> batch_request_refusal(params) == Some(
            operation_failure(error_text(invalid_params("project id must not be empty"@))),
        ),
{
}

/// A search asks one query, within its bounds, or a list of queries and no page of
/// them.
pub proof fn law_symbol_search_asks_one_or_many(params: WorkspaceSymbolParams)
    ensures
        ({
            let refusal = symbol_search_refusal(params);
            let many = params.queries@.len() > 0;
            &&& many && (params.query is Some || params.page_token is Some) ==> refusal == Some(
                invalid_params("queries cannot be combined with query or page_token"@),
            )
            &&& many && params.query is None && params.page_token is None ==> refusal
                == batch_request_refusal(symbol_batch(params))
            &&& !many && params.query is None ==> refusal == Some(
                invalid_params("query or queries is required"@),
            )
            &&& !many && params.query is Some && !(1 <= params.limit <= 1000) ==> refusal == Some(
                invalid_params("limit must be between 1 and 1000"@),
            )
            &&& !many && params.query is Some && 1 <= params.limit <= 1000 && !(4096
                <= params.max_bytes <= 1048576) ==> refusal == Some(
                invalid_params("max_bytes must be between 4096 and 1048576"@),
            )
            &&& !many && params.query is Some && 1 <= params.limit <= 1000 && 4096
                <= params.max_bytes <= 1048576 ==> (refusal is None <==> params.project_id@.len()
                > 0)
        }),
{
}

/// A batch keeps what the search asks: the queries, the filters and the bounds.
pub proof fn law_symbol_batch_is_the_search(params: WorkspaceSymbolParams)
    ensures
        ({
            let batch = symbol_batch(params);
            &&& batch.project_id@ == params.project_id@
            &&& batch.queries@ == params.queries@
            &&& batch.kind_filter == params.kind_filter
            &&& batch.match_mode@ == params.match_mode@
            &&& batch.scope@ == params.scope@
            &&& batch.max_items == params.limit
            &&& batch.max_bytes == params.max_bytes
            &&& batch.include_generated == params.include_generated
        }),
{
}

/// A page of a search keeps what the search asks.
pub proof fn law_symbol_page_is_the_search(
    request: WorkspaceSymbolPageRequest,
    params: WorkspaceSymbolParams,
)
    requires
        is_page_request(request, params),
    ensures
        params.query matches Some(query) && request.query@ == query@,
        request.kind_filter == params.kind_filter,
        request.match_mode@ == params.match_mode@,
        request.scope@ == params.scope@,
        request.include_generated == params.include_generated,
        request.max_items == params.limit,
        request.max_bytes == params.max_bytes,
        request.page_token == params.page_token,
{
}

/// A target of an inspection is written with each of its parts, and null where it
/// has none.
pub proof fn law_target_has_its_parts(target: InspectSymbolTarget)
    ensures
        ({
            let json = target_json(target);
            &&& member(json, "symbol_handle"@) == Some(
                match target.symbol_handle {
                    Some(handle) => Json::Text(handle.text@),
                    None => Json::Null,
                },
            )
            &&& member(json, "query"@) == Some(
                match target.query {
                    Some(query) => Json::Text(query@),
                    None => Json::Null,
                },
            )
            &&& member(json, "kind"@) == Some(
                match target.kind {
                    Some(kind) => Json::Text(kind@),
                    None => Json::Null,
                },
            )
            &&& member(json, "path"@) == Some(
                match target.path {
                    Some(path) => Json::Text(path@),
                    None => Json::Null,
                },
            )
            &&& member(json, "container"@) == Some(
                match target.container {
                    Some(container) => Json::Text(container@),
                    None => Json::Null,
                },
            )
        }),
{
    reveal_strlit("symbol_handle");
    reveal_strlit("query");
    reveal_strlit("kind");
    reveal_strlit("path");
    reveal_strlit("container");
    assert("symbol_handle"@.len() == 13);
    assert("query"@.len() == 5);
    assert("kind"@.len() == 4);
    assert("path"@.len() == 4);
    assert("container"@.len() == 9);
    assert("kind"@[0] == 'k');
    assert("path"@[0] == 'p');
    lemma_entry_pushed();
}

/// A target is named by a handle, or by a query that is not blank.
pub proof fn law_target_is_named_by_handle_or_query(target: InspectSymbolTarget, c: char)
    ensures
        target.symbol_handle is Some ==> is_named(target),
        target.symbol_handle is None && target.query is None ==> !is_named(target),
        target.symbol_handle is None ==> (target.query matches Some(query) ==> (is_named(target)
            <==> exists|i: int| 0 <= i < query@.len() && !is_space(#[trigger] query@[i]))),
        is_space(' ') && is_space('\t') && is_space('\n') && is_space('\r'),
        '!' <= c <= '~' ==> !is_space(c),
{
}

/// A batch of inspections goes on from a page without targets. Else it is refused
/// exactly where it has no target or more than sixteen, where one is not named or
/// takes more than four kilobytes, or where its bounds are out of range or too tight
/// for its targets. What is wrong is named in this order.
pub proof fn law_inspect_batch_is_within_bounds(
    params: InspectSymbolBatchParams,
    limits: InspectBatchLimits,
)
    ensures
        ({
            let refusal = inspect_batch_refusal(params, limits);
            let targets = params.targets@;
            let counted = 1 <= targets.len() <= 16;
            let named = forall|i: int| 0 <= i < targets.len() ==> is_named(#[trigger] targets[i]);
            let sized = forall|i: int|
                0 <= i < targets.len() ==> json_len(target_json(#[trigger] targets[i])) <= 4096;
            let limited = 1 <= params.candidate_limit <= 100;
            let listed = targets.len() <= params.budget.max_items;
            let needed = json_len(targets_json(targets)) + limits.response_overhead_bytes
                + targets.len() * limits.min_bytes_per_target;
            let bounded = needed <= params.budget.max_bytes <= 1048576;
            &&& params.page_token is Some && targets.len() > 0 ==> refusal == Some(
                invalid_params("targets must be empty when page_token is supplied"@),
            )
            &&& params.page_token is Some && targets.len() == 0 ==> refusal is None
            &&& params.page_token is None ==> {
                &&& refusal is None <==> counted && named && sized && limited && listed && bounded
                &&& !counted ==> refusal == Some(
                    invalid_params("targets must contain between 1 and 16 symbols"@),
                )
                &&& counted && !named ==> refusal == Some(
                    invalid_params("every target requires query or symbol_handle"@),
                )
                &&& counted && named && !sized ==> refusal == Some(
                    invalid_params("each target identity must fit within 4096 serialized bytes"@),
                )
                &&& counted && named && sized && !limited ==> refusal == Some(
                    invalid_params("candidate_limit must be between 1 and 100"@),
                )
                &&& counted && named && sized && limited && !listed ==> refusal == Some(
                    invalid_params("budget.max_items must allow at least one item per target"@),
                )
                &&& counted && named && sized && limited && listed && !bounded ==> refusal == Some(
                    invalid_params(
                        "budget.max_bytes must be between "@ + decimal(needed as nat)
                            + " and 1048576 for these targets"@,
                    ),
                )
            }
        }),
{
    assert(params.targets@.len() * limits.min_bytes_per_target >= 0) by (nonlinear_arith)
        requires
            params.targets@.len() >= 0,
            limits.min_bytes_per_target >= 0,
    ;
}

/// An inspection of one symbol names it and gives it room. An inspection of several,
/// or of a further page, names no single symbol, and is checked as a batch.
pub proof fn law_inspection_names_one_or_many(
    params: InspectSymbolParams,
    limits: InspectBatchLimits,
)
    ensures
        ({
            let refusal = inspect_refusal(params, limits);
            let many = params.targets@.len() > 0 || params.page_token is Some;
            let single = params.symbol_handle is Some || params.query is Some || params.kind is Some
                || params.path is Some || params.container is Some;
            let named = params.symbol_handle is Some || (params.query matches Some(query)
                && query@.len() > 0);
            let roomy = params.budget.max_bytes >= 4096 && params.budget.max_items > 0;
            &&& many && single ==> refusal == Some(
                invalid_params(
                    "targets or page_token cannot be combined with a single-symbol identity"@,
                ),
            )
            &&& many && !single ==> {
                &&& refusal is None <==> inspect_batch_refusal(inspect_batch(params), limits) is None
                    && params.project_id@.len() > 0
                &&& inspect_batch_refusal(inspect_batch(params), limits) matches Some(reason)
                    ==> refusal == Some(operation_failure(error_text(reason)))
            }
            &&& !many && !named ==> refusal == Some(
                invalid_params("query or symbol_handle is required"@),
            )
            &&& !many && named && !roomy ==> refusal == Some(
                invalid_params(
                    "budget.max_bytes must be at least 4096 and budget.max_items must be positive"@,
                ),
            )
            &&& !many && named && roomy ==> (refusal is None <==> params.project_id@.len() > 0)
            &&& !many && named && roomy && params.project_id@.len() == 0 ==> refusal == Some(
                invalid_params("project id must not be empty"@),
            )
        }),
        ({
            let batch = inspect_batch(params);
            &&& batch.project_id@ == params.project_id@
            &&& batch.targets@ == params.targets@
            &&& batch.candidate_limit == params.candidate_limit
            &&& batch.sections@ == params.sections@
            &&& batch.budget == params.budget
            &&& batch.page_token == params.page_token
        }),
{
}

/// An inspection of one symbol keeps what was asked.
pub proof fn law_inspection_is_the_request(
    request: InspectSymbolRequest,
    params: InspectSymbolParams,
)
    requires
        is_inspect_request(request, params),
    ensures
        request.symbol_handle == params.symbol_handle,
        request.query == params.query,
        request.kind == params.kind,
        request.path == params.path,
        request.container == params.container,
        request.candidate_limit == params.candidate_limit,
        request.sections@ == params.sections@,
        request.budget == params.budget,
{
}

} // verus!
