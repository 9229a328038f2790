//! Reading, listing and subscribing to session resources.

use crate::approval::{approval_detail, approval_detail_json, EditPlanApprovalSummary};
use crate::catalog::{
    advertised_tools_page, catalog, list_page, optional_cursor, resource_page, tool_models,
    Resource, Tool, ADVERTISED_TOOL_PAGE_SIZE, RESOURCE_PAGE_SIZE,
};
use crate::decimal::{decimal, decimal_text};
use crate::digest::sha256_text;
use crate::errors::{internal_error, invalid_params, ErrorModel, McpError};
use crate::handlers::{HandlerContext, PlansModel};
use crate::json::{json_len, json_text, render, rendered_len, JsonValue};
use crate::pages::{
    applied_edit_result_resource_page, approval_page, bounded_page, deferred_resource_page,
    edit_approval_resource_page, edit_diff_resource_page, is_answer, read_json, read_result_value,
    PageKindModel, ReadModel, MAX_SEMANTIC_RESOURCE_RESULT_BYTES,
};
use crate::paths::{final_name, FilePath};
use crate::project::{PlanId, ProjectId};
use crate::resources::{diagnostics_uri, make_uri, resource_uri_error_text, SourceResource};
use crate::session::{
    events_uri, parse_session_resource_uri, project_events_resource_uri,
    project_status_resource_uri, session_reference, status_uri, DeferredResource, ResourceModel,
    SessionResource,
};
use crate::status::{
    events_page, project_events_json, record_json, record_value, ProjectEventRecord,
    ProjectEventSnapshot, ProjectIdentity,
};
use crate::subscriptions::{
    holds_project, is_watched, project_texts, without_uri, ResourceSubscriptions,
    SessionEventSink,
};
use crate::text::{byte_len, comes_before, concat2, concat3, optional_text, text_before, texts};
use crate::tools::SemanticResourceReadResult;
use vstd::prelude::*;
use vstd::string::*;

verus! {

/// The first protocol version with cache hints.
pub const CACHE_HINTS_VERSION: &'static str = "2026-07-28";

/// Who may keep an answer.
#[derive(Clone, Copy, Debug, PartialEq, Eq, Structural)]
pub enum CacheScope {
    Public,
    Private,
}

/// The text of one resource.
#[derive(Debug, PartialEq, Eq)]
pub struct ResourceContents {
    pub uri: String,
    pub text: String,
}

/// The answer to a read request, with its cache hints.
#[derive(Debug, PartialEq, Eq)]
pub struct ReadResourceResult {
    pub contents: Vec<ResourceContents>,
    pub ttl_ms: Option<u64>,
    pub cache_scope: Option<CacheScope>,
}

/// Whether a protocol version has cache hints; versions are dates.
pub fn supports_cache_hints(protocol_version: Option<&str>) -> (supported: bool)
    ensures
        supported == match protocol_version {
            Some(version) => !text_before(version@, CACHE_HINTS_VERSION@),
            None => false,
        },
{
    match protocol_version {
        Some(version) => !comes_before(version, CACHE_HINTS_VERSION),
        None => false,
    }
}

/// Whether an answer carries the hint that it goes stale at once, for a scope.
pub open spec fn is_hinted(
    ttl_ms: Option<u64>,
    cache_scope: Option<CacheScope>,
    supports_cache_hints: bool,
    scope: CacheScope,
) -> bool {
    if supports_cache_hints {
        ttl_ms == Some(0u64) && cache_scope == Some(scope)
    } else {
        ttl_ms is None && cache_scope is None
    }
}

/// A read answer that only its session may keep.
pub fn private_resource_result(
    contents: Vec<ResourceContents>,
    supports_cache_hints: bool,
) -> (result: ReadResourceResult)
    ensures
        result.contents == contents,
        is_hinted(result.ttl_ms, result.cache_scope, supports_cache_hints, CacheScope::Private),
{
    if supports_cache_hints {
        ReadResourceResult { contents, ttl_ms: Some(0), cache_scope: Some(CacheScope::Private) }
    } else {
        ReadResourceResult { contents, ttl_ms: None, cache_scope: None }
    }
}

/// Whether a read answer is one text under a URI.
pub open spec fn answers(
    result: ReadResourceResult,
    uri: Seq<char>,
    text: Seq<char>,
    supports_cache_hints: bool,
) -> bool {
    &&& result.contents@.len() == 1
    &&& result.contents@[0].uri@ == uri
    &&& result.contents@[0].text@ == text
    &&& is_hinted(result.ttl_ms, result.cache_scope, supports_cache_hints, CacheScope::Private)
}

/// A read answer of one text.
pub fn text_answer(uri: &str, text: String, supports_cache_hints: bool) -> (result:
    ReadResourceResult)
    ensures
        answers(result, uri@, text@, supports_cache_hints),
{
    let mut contents: Vec<ResourceContents> = Vec::new();
    contents.push(ResourceContents { uri: uri.to_owned(), text });
    private_resource_result(contents, supports_cache_hints)
}

/// A read answer of one JSON value.
pub fn json_answer(uri: &str, value: &JsonValue, supports_cache_hints: bool) -> (result:
    ReadResourceResult)
    ensures
        answers(result, uri@, json_text(value@), supports_cache_hints),
{
    text_answer(uri, render(value), supports_cache_hints)
}

/// A read answer of one page, or why there is none.
pub fn page_answer(
    uri: &str,
    page: Result<SemanticResourceReadResult, McpError>,
    supports_cache_hints: bool,
) -> (result: Result<ReadResourceResult, McpError>)
    ensures
        match page {
            Ok(page) => result matches Ok(result) && answers(
                result,
                uri@,
                json_text(read_json(page@)),
                supports_cache_hints,
            ),
            Err(reason) => result matches Err(error) && error@ == reason@,
        },
{
    match page {
        Ok(page) => Ok(json_answer(uri, &read_result_value(&page), supports_cache_hints)),
        Err(error) => Err(error),
    }
}

/// A read answer of one retained event, or the word that it is gone.
pub fn read_project_event_resource(
    uri: &str,
    record: &Option<ProjectEventRecord>,
    supports_cache_hints: bool,
) -> (result: Result<ReadResourceResult, McpError>)
    ensures
        match record {
            Some(record) => result matches Ok(result) && answers(
                result,
                uri@,
                json_text(record_json(*record)),
                supports_cache_hints,
            ),
            None => result matches Err(error) && error@ == invalid_params(
                "stale_resource: project event is no longer retained; reread project events"@,
            ),
        },
{
    match record {
        Some(record) => Ok(json_answer(uri, &record_value(record), supports_cache_hints)),
        None => Err(
            McpError::invalid_params(
                "stale_resource: project event is no longer retained; reread project events",
            ),
        ),
    }
}

/// Whether a read answer is one page, or the reason why there is none.
pub open spec fn answers_page(
    result: Result<ReadResourceResult, McpError>,
    uri: Seq<char>,
    page: Result<ReadModel, ErrorModel>,
    supports_cache_hints: bool,
) -> bool {
    match page {
        Ok(page) => result matches Ok(result) && answers(
            result,
            uri,
            json_text(read_json(page)),
            supports_cache_hints,
        ),
        Err(reason) => result matches Err(error) && error@ == reason,
    }
}

/// Answers with a page of a previewed diff, once the session may read it and
/// the project was asked for it.
pub fn read_edit_diff_resource(
    project_id: &ProjectId,
    plan_id: &PlanId,
    offset_bytes: usize,
    uri: &str,
    diff: Result<String, String>,
    supports_cache_hints: bool,
) -> (result: Result<ReadResourceResult, McpError>)
    ensures
        answers_page(
            result,
            uri@,
            match diff {
                Ok(diff) => bounded_page(
                    PageKindModel::EditDiff { project: project_id@, plan: plan_id@ },
                    sha256_text(diff@),
                    diff@,
                    offset_bytes as int,
                ),
                Err(reason) => Err(invalid_params(reason@)),
            },
            supports_cache_hints,
        ),
{
    match diff {
        Ok(diff) => page_answer(
            uri,
            edit_diff_resource_page(project_id, plan_id, offset_bytes, diff.as_str()),
            supports_cache_hints,
        ),
        Err(reason) => Err(McpError::invalid_params(reason.as_str())),
    }
}

/// Answers with a page of an applied edit receipt, if it is still retained.
pub fn read_applied_edit_result_resource(
    project_id: &ProjectId,
    plan_id: &PlanId,
    offset_bytes: usize,
    uri: &str,
    detail: Option<String>,
    supports_cache_hints: bool,
) -> (result: Result<ReadResourceResult, McpError>)
    ensures
        answers_page(
            result,
            uri@,
            match detail {
                Some(detail) => bounded_page(
                    PageKindModel::AppliedEditResult { project: project_id@, plan: plan_id@ },
                    sha256_text(detail@),
                    detail@,
                    offset_bytes as int,
                ),
                None => Err(
                    invalid_params("stale_resource: applied edit result is no longer retained"@),
                ),
            },
            supports_cache_hints,
        ),
{
    match detail {
        Some(detail) => page_answer(
            uri,
            applied_edit_result_resource_page(project_id, plan_id, offset_bytes, detail.as_str()),
            supports_cache_hints,
        ),
        None => Err(
            McpError::invalid_params("stale_resource: applied edit result is no longer retained"),
        ),
    }
}

/// Answers with a page of all that a client is asked to approve, if the plan is
/// still retained.
pub fn read_edit_approval_resource(
    project_id: &ProjectId,
    plan_id: &PlanId,
    offset_bytes: usize,
    uri: &str,
    summary: &Option<EditPlanApprovalSummary>,
    supports_cache_hints: bool,
) -> (result: Result<ReadResourceResult, McpError>)
    ensures
        answers_page(
            result,
            uri@,
            match summary {
                Some(summary) => approval_page(
                    project_id@,
                    plan_id@,
                    json_text(approval_detail(*summary)),
                    offset_bytes as int,
                ),
                None => Err(
                    invalid_params("stale_resource: edit approval is no longer retained"@),
                ),
            },
            supports_cache_hints,
        ),
{
    match summary {
        Some(summary) => {
            let detail = render(&approval_detail_json(summary));
            page_answer(
                uri,
                edit_approval_resource_page(project_id, plan_id, offset_bytes, detail.as_str()),
                supports_cache_hints,
            )
        },
        None => Err(
            McpError::invalid_params("stale_resource: edit approval is no longer retained"),
        ),
    }
}

/// A deferred payload and the snapshot that it was taken from.
#[derive(Debug, PartialEq, Eq)]
pub struct DeferredPayload {
    pub value: JsonValue,
    pub snapshot_hash: String,
}

/// The page of a deferred payload, or why it cannot be had.
pub open spec fn deferred_page(
    deferred: DeferredResource,
    uri: Seq<char>,
    payload: Result<DeferredPayload, String>,
) -> Result<ReadModel, ErrorModel> {
    match payload {
        Ok(payload) => bounded_page(
            PageKindModel::Deferred { uri, token: deferred.token@ },
            payload.snapshot_hash@,
            json_text(payload.value@),
            deferred.offset_bytes as int,
        ),
        Err(reason) => Err(invalid_params(reason@)),
    }
}

/// The page of a deferred payload as a tool answers it.
pub fn read_deferred_payload(
    deferred: &DeferredResource,
    uri: &str,
    payload: Result<DeferredPayload, String>,
) -> (page: Result<SemanticResourceReadResult, McpError>)
    ensures
        is_answer(page, deferred_page(*deferred, uri@, payload)),
{
    match payload {
        Ok(payload) => deferred_resource_page(
            deferred,
            uri,
            &payload.value,
            payload.snapshot_hash.as_str(),
        ),
        Err(reason) => Err(McpError::invalid_params(reason.as_str())),
    }
}

/// Answers with a page of a deferred payload.
pub fn read_deferred_resource(
    deferred: &DeferredResource,
    uri: &str,
    payload: Result<DeferredPayload, String>,
    supports_cache_hints: bool,
) -> (result: Result<ReadResourceResult, McpError>)
    ensures
        answers_page(
            result,
            uri@,
            deferred_page(*deferred, uri@, payload),
            supports_cache_hints,
        ),
{
    page_answer(uri, read_deferred_payload(deferred, uri, payload), supports_cache_hints)
}

/// Answers with the events of a project.
pub fn read_project_events_resource(
    project_id: &ProjectId,
    uri: &str,
    snapshot: &ProjectEventSnapshot,
    supports_cache_hints: bool,
) -> (result: ReadResourceResult)
    ensures
        answers(
            result,
            uri@,
            json_text(events_page(project_id@, *snapshot)),
            supports_cache_hints,
        ),
{
    json_answer(uri, &project_events_json(project_id, snapshot), supports_cache_hints)
}

/// Whether a session may read the diff of a plan: it has to own the plan.
pub fn edit_diff_access(context: &HandlerContext, plan_id: &PlanId) -> (access: Result<
    (),
    McpError,
>)
    ensures
        if context@.plans.owned.contains(plan_id@) {
            access is Ok
        } else {
            access matches Err(error) && error@ == invalid_params(
                "edit plan is not owned by this MCP session"@,
            )
        },
{
    if context.owns_plan(plan_id) {
        Ok(())
    } else {
        Err(McpError::invalid_params("edit plan is not owned by this MCP session"))
    }
}

/// Whether a session may read the receipt of a plan: it has to recognize it.
pub fn applied_edit_result_access(context: &HandlerContext, plan_id: &PlanId) -> (access: Result<
    (),
    McpError,
>)
    ensures
        if context@.plans.recognized().contains(plan_id@) {
            access is Ok
        } else {
            access matches Err(error) && error@ == invalid_params(
                "applied edit result is not owned by this MCP session"@,
            )
        },
{
    if context.recognizes_plan(plan_id) {
        Ok(())
    } else {
        Err(McpError::invalid_params("applied edit result is not owned by this MCP session"))
    }
}

/// Whether a session may read the approval summary of a plan: it has to own it.
pub fn edit_approval_access(context: &HandlerContext, plan_id: &PlanId) -> (access: Result<
    (),
    McpError,
>)
    ensures
        if context@.plans.owned.contains(plan_id@) {
            access is Ok
        } else {
            access matches Err(error) && error@ == invalid_params(
                "edit approval is not owned by this MCP session"@,
            )
        },
{
    if context.owns_plan(plan_id) {
        Ok(())
    } else {
        Err(McpError::invalid_params("edit approval is not owned by this MCP session"))
    }
}

/// The resource that a request names, or why it names none.
pub open spec fn named_resource(uri: Seq<char>) -> Result<ResourceModel, ErrorModel> {
    match session_reference(uri) {
        Ok(resource) => Ok(resource),
        Err(error) => Err(invalid_params(resource_uri_error_text(error))),
    }
}

/// Reads the resource that a request names.
pub fn read_target(uri: &str) -> (resource: Result<SessionResource, McpError>)
    ensures
        named_resource(uri@) == match resource {
            Ok(resource) => Ok::<ResourceModel, ErrorModel>(resource@),
            Err(error) => Err::<ResourceModel, ErrorModel>(error@),
        },
{
    match parse_session_resource_uri(uri) {
        Ok(resource) => Ok(resource),
        Err(error) => Err(McpError::invalid_params(error.message().as_str())),
    }
}

/// Why a session may not read a resource, if it may not: a plan that it has not
/// previewed is out of its reach, and only a plan that it still owns shows its
/// diff and what is asked for it.
pub open spec fn read_refusal(plans: PlansModel, resource: ResourceModel) -> Option<ErrorModel> {
    match resource {
        ResourceModel::EditDiff(_, plan, _) => if plans.owned.contains(plan) {
            None
        } else {
            Some(invalid_params("edit plan is not owned by this MCP session"@))
        },
        ResourceModel::AppliedEditResult(_, plan, _) => if plans.recognized().contains(plan) {
            None
        } else {
            Some(invalid_params("applied edit result is not owned by this MCP session"@))
        },
        ResourceModel::EditApproval(_, plan, _) => if plans.owned.contains(plan) {
            None
        } else {
            Some(invalid_params("edit approval is not owned by this MCP session"@))
        },
        _ => None,
    }
}

/// Decides what a read request reads, before a project is asked for it.
pub fn read_resource(context: &HandlerContext, uri: &str) -> (resource: Result<
    SessionResource,
    McpError,
>)
    ensures
        match named_resource(uri@) {
            Err(reason) => resource matches Err(error) && error@ == reason,
            Ok(named) => match read_refusal(context@.plans, named) {
                Some(refusal) => resource matches Err(error) && error@ == refusal,
                None => resource matches Ok(resource) && resource@ == named,
            },
        },
{
    let resource = match read_target(uri) {
        Ok(resource) => resource,
        Err(error) => {
            return Err(error);
        },
    };
    let access = match &resource {
        SessionResource::EditDiff { plan_id, .. } => edit_diff_access(context, plan_id),
        SessionResource::AppliedEditResult { plan_id, .. } => applied_edit_result_access(
            context,
            plan_id,
        ),
        SessionResource::EditApproval { plan_id, .. } => edit_approval_access(context, plan_id),
        _ => Ok(()),
    };
    match access {
        Ok(()) => Ok(resource),
        Err(error) => Err(error),
    }
}

/// A session reads nothing of a plan that it has not previewed.
pub proof fn law_foreign_plans_are_unreadable(plans: PlansModel, resource: ResourceModel)
    requires
        match resource {
            ResourceModel::EditDiff(_, plan, _) => !plans.recognized().contains(plan),
            ResourceModel::AppliedEditResult(_, plan, _) => !plans.recognized().contains(plan),
            ResourceModel::EditApproval(_, plan, _) => !plans.recognized().contains(plan),
            _ => false,
        },
    ensures
        read_refusal(plans, resource) is Some,
{
}

/// A resource that can be read through a tool.
#[derive(Debug, PartialEq, Eq)]
pub enum SemanticResource {
    Source(SourceResource),
    Deferred(DeferredResource),
}

/// Reads the resource that a semantic read names; it takes source and deferred
/// resources alone.
pub fn read_semantic_resource(uri: &str) -> (resource: Result<SemanticResource, McpError>)
    ensures
        match named_resource(uri@) {
            Err(reason) => resource matches Err(error) && error@ == reason,
            Ok(ResourceModel::Source(path, selectors)) => resource matches Ok(
                SemanticResource::Source(source),
            ) && source.path@ == path && source.selectors@ == selectors,
            Ok(ResourceModel::Deferred(token, offset)) => resource matches Ok(
                SemanticResource::Deferred(deferred),
            ) && deferred.token@ == token && deferred.offset_bytes == offset,
            Ok(_) => resource matches Err(error) && error@ == invalid_params(
                "read_semantic_resource accepts only mcpls-source:// or mcpls-deferred:// references"@,
            ),
        },
{
    match read_target(uri) {
        Err(error) => Err(error),
        Ok(SessionResource::Source(source)) => Ok(SemanticResource::Source(source)),
        Ok(SessionResource::Deferred(deferred)) => Ok(SemanticResource::Deferred(deferred)),
        Ok(_) => Err(
            McpError::invalid_params(
                "read_semantic_resource accepts only mcpls-source:// or mcpls-deferred:// references",
            ),
        ),
    }
}

/// A frame of source text within a budget, as its project gives it.
#[derive(Debug, PartialEq, Eq)]
pub struct SourceFrame {
    /// The URI of exactly this frame.
    pub uri: Result<String, String>,
    /// The frame as JSON text.
    pub text: String,
}

/// What comes after a frame of source text.
#[derive(Debug, PartialEq, Eq)]
pub enum SourceStep {
    /// The frame fits and is the answer.
    Done(SemanticResourceReadResult),
    /// It does not: ask for a frame within this budget.
    Retry(usize),
}

/// The answer that a frame of source text makes.
pub open spec fn frame_answer(uri: Seq<char>, text: Seq<char>) -> ReadModel {
    ReadModel {
        uri,
        mime_type: "application/json"@,
        text,
        source: None,
        next_uri: None,
        total_bytes: None,
        offset_bytes: None,
        returned_bytes: None,
        remaining_bytes: None,
        snapshot_hash: None,
    }
}

/// Decides whether a frame of source text is the answer; the budget is halved
/// until it is, or nothing is left of it.
pub fn source_frame_step(frame: SourceFrame, budget: usize) -> (step: Result<SourceStep, McpError>)
    ensures
        match frame.uri {
            Err(reason) => step matches Err(error) && error@ == internal_error(reason@),
            Ok(uri) => if json_len(read_json(frame_answer(uri@, frame.text@)))
                <= MAX_SEMANTIC_RESOURCE_RESULT_BYTES {
                step matches Ok(SourceStep::Done(result)) && result@ == frame_answer(
                    uri@,
                    frame.text@,
                )
            } else if budget / 2 == 0 {
                step matches Err(error) && error@ == internal_error(
                    "source resource metadata exceeds the response budget"@,
                )
            } else {
                step matches Ok(SourceStep::Retry(next)) && next == budget / 2
            },
        },
{
    let uri = match frame.uri {
        Ok(uri) => uri,
        Err(reason) => {
            return Err(McpError::internal_error(reason.as_str()));
        },
    };
    let result = SemanticResourceReadResult {
        uri,
        mime_type: "application/json".to_owned(),
        text: frame.text,
        source: None,
        next_uri: None,
        total_bytes: None,
        offset_bytes: None,
        returned_bytes: None,
        remaining_bytes: None,
        snapshot_hash: None,
    };
    assert(result@ =~= frame_answer(result.uri@, result.text@));
    if rendered_len(&read_result_value(&result)) <= MAX_SEMANTIC_RESOURCE_RESULT_BYTES {
        return Ok(SourceStep::Done(result));
    }
    let next = budget / 2;
    if next == 0 {
        return Err(
            McpError::internal_error("source resource metadata exceeds the response budget"),
        );
    }
    Ok(SourceStep::Retry(next))
}

/// The read answer of one frame, under the URI of exactly that frame.
pub fn read_source_resource(frame: SourceFrame, supports_cache_hints: bool) -> (result: Result<
    ReadResourceResult,
    McpError,
>)
    ensures
        match frame.uri {
            Ok(uri) => result matches Ok(result) && answers(
                result,
                uri@,
                frame.text@,
                supports_cache_hints,
            ),
            Err(reason) => result matches Err(error) && error@ == internal_error(reason@),
        },
{
    match frame.uri {
        Ok(uri) => Ok(text_answer(uri.as_str(), frame.text, supports_cache_hints)),
        Err(reason) => Err(McpError::internal_error(reason.as_str())),
    }
}

/// Why a resource cannot be subscribed to, if it cannot.
pub open spec fn subscription_refusal(resource: ResourceModel) -> Option<ErrorModel> {
    match resource {
        ResourceModel::Deferred(..) => Some(
            invalid_params("deferred semantic resources are readable but not subscribable"@),
        ),
        ResourceModel::EditDiff(..) => Some(
            invalid_params("edit diff resources are readable but not subscribable"@),
        ),
        ResourceModel::AppliedEditResult(..) => Some(
            invalid_params("applied edit result resources are readable but not subscribable"@),
        ),
        ResourceModel::EditApproval(..) => Some(
            invalid_params("edit approval resources are readable but not subscribable"@),
        ),
        _ => None,
    }
}

/// The URI under which a resource is subscribed to: the events of a project
/// share one, whatever the cursor.
pub open spec fn subscribed_uri(uri: Seq<char>, resource: ResourceModel) -> Seq<char> {
    match resource {
        ResourceModel::ProjectEvents(project, _) => events_uri(project),
        ResourceModel::ProjectEvent(project, _) => events_uri(project),
        _ => uri,
    }
}

/// Whose events a subscription follows: a project's, or those of the project
/// that owns a path.
#[derive(Debug, PartialEq, Eq)]
pub enum SubscriptionScope {
    Project(ProjectId),
    Path(FilePath),
}

/// The scope of a resource.
pub open spec fn is_scope(scope: SubscriptionScope, resource: ResourceModel) -> bool {
    match resource {
        ResourceModel::ProjectStatus(project) => scope matches SubscriptionScope::Project(id)
            && id@ == project,
        ResourceModel::ProjectEvents(project, _) => scope matches SubscriptionScope::Project(id)
            && id@ == project,
        ResourceModel::ProjectEvent(project, _) => scope matches SubscriptionScope::Project(id)
            && id@ == project,
        ResourceModel::Diagnostics(path) => scope matches SubscriptionScope::Path(found) && found@
            == path,
        ResourceModel::Source(path, _) => scope matches SubscriptionScope::Path(found) && found@
            == path,
        _ => false,
    }
}

/// Finds the scope that a subscription follows.
pub fn subscription_scope(uri: &str) -> (scope: Result<SubscriptionScope, McpError>)
    ensures
        match named_resource(uri@) {
            Err(reason) => scope matches Err(error) && error@ == reason,
            Ok(resource) => match subscription_refusal(resource) {
                Some(refusal) => scope matches Err(error) && error@ == refusal,
                None => scope matches Ok(scope) && is_scope(scope, resource),
            },
        },
{
    let resource = match read_target(uri) {
        Ok(resource) => resource,
        Err(error) => {
            return Err(error);
        },
    };
    match resource {
        SessionResource::ProjectStatus(project_id) => Ok(SubscriptionScope::Project(project_id)),
        SessionResource::ProjectEvents { project_id, .. } => Ok(
            SubscriptionScope::Project(project_id),
        ),
        SessionResource::ProjectEvent { project_id, .. } => Ok(
            SubscriptionScope::Project(project_id),
        ),
        SessionResource::Diagnostics(path) => Ok(SubscriptionScope::Path(path)),
        SessionResource::Source(source) => Ok(SubscriptionScope::Path(source.path)),
        SessionResource::Deferred(_) => Err(
            McpError::invalid_params(
                "deferred semantic resources are readable but not subscribable",
            ),
        ),
        SessionResource::EditDiff { .. } => Err(
            McpError::invalid_params("edit diff resources are readable but not subscribable"),
        ),
        SessionResource::AppliedEditResult { .. } => Err(
            McpError::invalid_params(
                "applied edit result resources are readable but not subscribable",
            ),
        ),
        SessionResource::EditApproval { .. } => Err(
            McpError::invalid_params("edit approval resources are readable but not subscribable"),
        ),
    }
}

/// Why the first of some resources that cannot be listened to cannot, if there
/// is one.
pub open spec fn listen_refusal(uris: Seq<Seq<char>>) -> Option<ErrorModel>
    decreases uris.len(),
{
    if uris.len() == 0 {
        None
    } else {
        match listen_refusal(uris.drop_last()) {
            Some(refusal) => Some(refusal),
            None => match named_resource(uris.last()) {
                Err(reason) => Some(reason),
                Ok(resource) => subscription_refusal(resource),
            },
        }
    }
}

/// Finds the scopes that a listener follows, one for each resource.
pub fn listen_scopes(uris: &Vec<String>) -> (scopes: Result<Vec<SubscriptionScope>, McpError>)
    ensures
        match listen_refusal(texts(uris@)) {
            Some(refusal) => scopes matches Err(error) && error@ == refusal,
            None => {
                &&& scopes matches Ok(scopes)
                &&& scopes@.len() == uris@.len()
                &&& forall|i: int|
                    0 <= i < uris@.len() ==> is_scope(
                        #[trigger] scopes@[i],
                        named_resource(uris@[i]@)->Ok_0,
                    )
            },
        },
{
    let ghost listened = texts(uris@);
    assert(listened.len() == uris@.len());
    let mut scopes: Vec<SubscriptionScope> = Vec::new();
    let mut i: usize = 0;
    assert(listened.take(0) =~= Seq::<Seq<char>>::empty());
    while i < uris.len()
        invariant
            i <= uris@.len(),
            listened == texts(uris@),
            scopes@.len() == i,
            listen_refusal(listened.take(i as int)) is None,
            forall|j: int|
                0 <= j < i ==> is_scope(#[trigger] scopes@[j], named_resource(uris@[j]@)->Ok_0),
        decreases uris@.len() - i,
    {
        proof {
            let next = listened.take(i + 1);
            assert(next.drop_last() =~= listened.take(i as int));
            assert(next.last() == uris@[i as int]@);
        }
        match subscription_scope(uris[i].as_str()) {
            Ok(scope) => scopes.push(scope),
            Err(error) => {
                proof {
                    lemma_refusal_stays(listened, i + 1);
                }
                return Err(error);
            },
        }
        i = i + 1;
    }
    assert(listened.take(i as int) =~= listened);
    Ok(scopes)
}

proof fn lemma_refusal_stays(uris: Seq<Seq<char>>, count: int)
    requires
        0 <= count <= uris.len(),
        listen_refusal(uris.take(count)) is Some,
    ensures
        listen_refusal(uris) == listen_refusal(uris.take(count)),
    decreases uris.len() - count,
{
    if count < uris.len() {
        let next = uris.take(count + 1);
        assert(next.drop_last() =~= uris.take(count));
        lemma_refusal_stays(uris, count + 1);
    } else {
        assert(uris.take(count) =~= uris);
    }
}

/// Texts without repetitions: each where it comes first.
pub open spec fn distinct_texts(texts: Seq<Seq<char>>) -> Seq<Seq<char>>
    decreases texts.len(),
{
    if texts.len() == 0 {
        Seq::empty()
    } else {
        let head = distinct_texts(texts.drop_last());
        if head.contains(texts.last()) {
            head
        } else {
            head.push(texts.last())
        }
    }
}

/// The projects that a listener follows, each once.
pub fn distinct_projects(projects: &Vec<ProjectId>) -> (distinct: Vec<ProjectId>)
    ensures
        project_texts(distinct@) == distinct_texts(project_texts(projects@)),
{
    let ghost all = project_texts(projects@);
    let mut distinct: Vec<ProjectId> = Vec::new();
    let mut i: usize = 0;
    assert(all.take(0) =~= Seq::<Seq<char>>::empty());
    assert(project_texts(distinct@) =~= Seq::<Seq<char>>::empty());
    while i < projects.len()
        invariant
            i <= projects@.len(),
            all == project_texts(projects@),
            project_texts(distinct@) == distinct_texts(all.take(i as int)),
        decreases projects@.len() - i,
    {
        let ghost before = project_texts(distinct@);
        proof {
            let next = all.take(i + 1);
            assert(next.drop_last() =~= all.take(i as int));
            assert(next.last() == projects@[i as int]@);
        }
        if !holds_project(&distinct, &projects[i]) {
            distinct.push(projects[i].clone());
            assert(project_texts(distinct@) =~= before.push(projects@[i as int]@));
        }
        i = i + 1;
    }
    assert(all.take(i as int) =~= all);
    distinct
}

/// A listener follows every project of its resources, and none twice.
pub proof fn law_listened_projects_are_distinct(projects: Seq<Seq<char>>)
    ensures
        distinct_texts(projects).no_duplicates(),
        forall|project: Seq<char>| #[trigger]
            distinct_texts(projects).contains(project) <==> projects.contains(project),
    decreases projects.len(),
{
    if projects.len() > 0 {
        let head = projects.drop_last();
        let last = projects.last();
        let before = distinct_texts(head);
        let after = distinct_texts(projects);
        law_listened_projects_are_distinct(head);
        assert(projects =~= head.push(last));
        assert forall|project: Seq<char>| #[trigger]
            after.contains(project) <==> projects.contains(project) by {
            if head.contains(project) {
                let i = choose|i: int| 0 <= i < head.len() && head[i] == project;
                assert(projects[i] == project);
            }
            if projects.contains(project) && project != last {
                let i = choose|i: int| 0 <= i < projects.len() && projects[i] == project;
                assert(head[i] == project);
            }
            assert(projects[projects.len() - 1] == last);
            assert(before.contains(project) <==> head.contains(project));
            if !before.contains(last) {
                assert(after[before.len() as int] == last);
                if before.contains(project) {
                    let i = choose|i: int| 0 <= i < before.len() && before[i] == project;
                    assert(after[i] == project);
                }
                if after.contains(project) && project != last {
                    let i = choose|i: int| 0 <= i < after.len() && after[i] == project;
                    assert(before[i] == project);
                }
            }
        }
    }
}

/// The URI under which a resource is subscribed to.
pub fn subscription_uri(uri: &str) -> (subscribed: Result<String, McpError>)
    ensures
        match named_resource(uri@) {
            Err(reason) => subscribed matches Err(error) && error@ == reason,
            Ok(resource) => subscribed matches Ok(subscribed) && subscribed@ == subscribed_uri(
                uri@,
                resource,
            ),
        },
{
    match read_target(uri) {
        Err(error) => Err(error),
        Ok(SessionResource::ProjectEvents { project_id, .. }) => Ok(
            project_events_resource_uri(&project_id),
        ),
        Ok(SessionResource::ProjectEvent { project_id, .. }) => Ok(
            project_events_resource_uri(&project_id),
        ),
        Ok(_) => Ok(uri.to_owned()),
    }
}

/// The answer to a subscription beyond the limit.
pub open spec fn limit_failure(limit: nat) -> ErrorModel {
    invalid_params("resource subscription limit reached: "@ + decimal(limit))
}

/// Subscribes a session to a resource of a project.
pub fn attach_subscription(
    subscriptions: &mut ResourceSubscriptions,
    sink: &mut SessionEventSink,
    project_id: ProjectId,
    uri: String,
) -> (attached: Result<(), McpError>)
    requires
        old(subscriptions).wf(),
    ensures
        final(subscriptions).wf(),
        final(subscriptions).limit == old(subscriptions).limit,
        if old(subscriptions)@.contains(uri@) || old(subscriptions).uris@.len()
            < old(subscriptions).limit {
            &&& attached is Ok
            &&& final(subscriptions)@ == old(subscriptions)@.insert(uri@)
            &&& final(sink)@ == old(sink)@.insert((project_id@, uri@))
        } else {
            &&& attached matches Err(error) && error@ == limit_failure(
                old(subscriptions).limit as nat,
            )
            &&& final(subscriptions)@ == old(subscriptions)@
            &&& final(sink)@ == old(sink)@
        },
{
    if let Err(refusal) = subscriptions.subscribe(uri.clone()) {
        let message = concat2(
            "resource subscription limit reached: ",
            decimal_text(refusal.limit as u64).as_str(),
        );
        return Err(McpError::invalid_params(message.as_str()));
    }
    sink.track_subscription(project_id, uri);
    Ok(())
}

/// Ends a session's subscription to a resource. The projects that have no
/// subscribed resource left are returned.
pub fn unsubscribe(
    subscriptions: &mut ResourceSubscriptions,
    sink: &mut SessionEventSink,
    uri: &str,
) -> (emptied: Result<Vec<ProjectId>, McpError>)
    requires
        old(subscriptions).wf(),
    ensures
        final(subscriptions).wf(),
        final(subscriptions).limit == old(subscriptions).limit,
        match named_resource(uri@) {
            Err(reason) => {
                &&& emptied matches Err(error) && error@ == reason
                &&& final(subscriptions)@ == old(subscriptions)@
                &&& final(sink)@ == old(sink)@
            },
            Ok(resource) => {
                let ended = subscribed_uri(uri@, resource);
                &&& final(subscriptions)@ == old(subscriptions)@.remove(ended)
                &&& final(sink)@ == without_uri(old(sink)@, ended)
                &&& emptied matches Ok(emptied) && project_texts(emptied@).no_duplicates()
                    && forall|project: Seq<char>| #[trigger]
                    project_texts(emptied@).contains(project) <==> old(sink)@.contains(
                        (project, ended),
                    ) && !is_watched(final(sink)@, project)
            },
        },
{
    let ended = match subscription_uri(uri) {
        Ok(ended) => ended,
        Err(error) => {
            return Err(error);
        },
    };
    let _ = subscriptions.unsubscribe(ended.as_str());
    Ok(sink.untrack_subscription(ended.as_str()))
}

/// The resources among some that name a session resource.
pub open spec fn accepted_resources(uris: Seq<Seq<char>>) -> Seq<Seq<char>>
    decreases uris.len(),
{
    if uris.len() == 0 {
        Seq::empty()
    } else {
        let head = accepted_resources(uris.drop_last());
        if session_reference(uris.last()) is Ok {
            head.push(uris.last())
        } else {
            head
        }
    }
}

/// The part of a subscription filter that a session accepts; nothing where it
/// accepts none.
pub fn accepted_subscription_filter(requested: &Option<Vec<String>>) -> (accepted: Option<
    Vec<String>,
>)
    ensures
        match requested {
            None => accepted is None,
            Some(requested) => {
                let kept = accepted_resources(texts(requested@));
                match accepted {
                    Some(accepted) => kept.len() > 0 && texts(accepted@) == kept,
                    None => kept.len() == 0,
                }
            },
        },
{
    let requested = match requested {
        Some(requested) => requested,
        None => {
            return None;
        },
    };
    let ghost all = texts(requested@);
    let mut accepted: Vec<String> = Vec::new();
    let mut i: usize = 0;
    assert(all.take(0) =~= Seq::<Seq<char>>::empty());
    assert(texts(accepted@) =~= Seq::<Seq<char>>::empty());
    while i < requested.len()
        invariant
            i <= requested@.len(),
            all == texts(requested@),
            texts(accepted@) == accepted_resources(all.take(i as int)),
        decreases requested@.len() - i,
    {
        proof {
            let next = all.take(i + 1);
            assert(next.drop_last() =~= all.take(i as int));
            assert(next.last() == requested@[i as int]@);
        }
        let ghost before = texts(accepted@);
        if parse_session_resource_uri(requested[i].as_str()).is_ok() {
            accepted.push(requested[i].clone());
            assert(texts(accepted@) =~= before.push(requested@[i as int]@));
        }
        i = i + 1;
    }
    assert(all.take(i as int) =~= all);
    assert(texts(accepted@).len() == accepted@.len());
    if accepted.len() > 0 {
        Some(accepted)
    } else {
        None
    }
}

/// Every accepted resource was asked for and names a session resource.
pub proof fn law_accepted_resources_are_readable(uris: Seq<Seq<char>>, uri: Seq<char>)
    ensures
        accepted_resources(uris).contains(uri) <==> uris.contains(uri) && session_reference(
            uri,
        ) is Ok,
    decreases uris.len(),
{
    if uris.len() > 0 {
        let head = uris.drop_last();
        let last = uris.last();
        law_accepted_resources_are_readable(head, uri);
        let kept = accepted_resources(head);
        if uris.contains(uri) {
            let i = choose|i: int| 0 <= i < uris.len() && uris[i] == uri;
            if i < head.len() {
                assert(head[i] == uri);
            }
        }
        if head.contains(uri) {
            let i = choose|i: int| 0 <= i < head.len() && head[i] == uri;
            assert(uris[i] == uri);
        }
        assert(uris[uris.len() - 1] == last);
        let after = kept.push(last);
        assert(after[kept.len() as int] == last);
        if kept.contains(uri) {
            let i = choose|i: int| 0 <= i < kept.len() && kept[i] == uri;
            assert(after[i] == uri);
        }
        if after.contains(uri) && uri != last {
            let i = choose|i: int| 0 <= i < after.len() && after[i] == uri;
            assert(kept[i] == uri);
        }
    }
}

/// A resource is unsubscribed under the URI that it was subscribed under.
pub proof fn law_unsubscribing_undoes_subscribing(
    subscriptions: Set<Seq<char>>,
    uri: Seq<char>,
    resource: ResourceModel,
)
    requires
        named_resource(uri) == Ok::<ResourceModel, ErrorModel>(resource),
        !subscriptions.contains(subscribed_uri(uri, resource)),
    ensures
        subscriptions.insert(subscribed_uri(uri, resource)).remove(subscribed_uri(uri, resource))
            =~= subscriptions,
{
}

/// A document resource in the list.
pub open spec fn document_resource(project: Seq<char>, path: Seq<char>) -> Option<
    (Seq<char>, Seq<char>, Seq<char>, Seq<char>),
> {
    let name = match final_name(path) {
        Some(name) => name,
        None => "unknown"@,
    };
    match diagnostics_uri(path) {
        Some(uri) => Some(
            (
                uri,
                project + ":"@ + name,
                "application/json"@,
                "LSP diagnostics for "@ + project + ":"@ + name,
            ),
        ),
        None => None,
    }
}

pub open spec fn status_resource(project: Seq<char>) -> (
    Seq<char>,
    Seq<char>,
    Seq<char>,
    Seq<char>,
) {
    (
        status_uri(project),
        project + ":status"@,
        "application/json"@,
        "Lifecycle status for project "@ + project,
    )
}

pub open spec fn events_resource(project: Seq<char>) -> (
    Seq<char>,
    Seq<char>,
    Seq<char>,
    Seq<char>,
) {
    (
        events_uri(project),
        project + ":events"@,
        "application/json"@,
        "Ordered project events for "@ + project,
    )
}

pub open spec fn resource_model(resource: Resource) -> (
    Seq<char>,
    Seq<char>,
    Seq<char>,
    Seq<char>,
) {
    (resource.uri@, resource.name@, resource.mime_type@, resource.description@)
}

pub open spec fn resource_models(resources: Seq<Resource>) -> Seq<
    (Seq<char>, Seq<char>, Seq<char>, Seq<char>),
> {
    Seq::new(resources.len(), |i: int| resource_model(resources[i]))
}

/// An open document and the project that owns it.
#[derive(Debug, PartialEq, Eq)]
pub struct OpenDocument {
    pub project_id: ProjectId,
    pub path: FilePath,
}

/// The resources of the open documents; a path without a URI is passed over.
pub open spec fn document_resources(documents: Seq<OpenDocument>) -> Seq<
    (Seq<char>, Seq<char>, Seq<char>, Seq<char>),
>
    decreases documents.len(),
{
    if documents.len() == 0 {
        Seq::empty()
    } else {
        let head = document_resources(documents.drop_last());
        match document_resource(documents.last().project_id@, documents.last().path@) {
            Some(resource) => head.push(resource),
            None => head,
        }
    }
}

/// All resources that a session lists: open documents, then the status of each
/// project, then the events of each project.
pub open spec fn session_resources(
    documents: Seq<OpenDocument>,
    projects: Seq<ProjectIdentity>,
) -> Seq<(Seq<char>, Seq<char>, Seq<char>, Seq<char>)> {
    document_resources(documents) + Seq::new(
        projects.len(),
        |i: int| status_resource(projects[i].id@),
    ) + Seq::new(projects.len(), |i: int| events_resource(projects[i].id@))
}

fn push_resource(
    resources: &mut Vec<Resource>,
    uri: String,
    name: String,
    description: String,
)
    ensures
        resource_models(final(resources)@) == resource_models(old(resources)@).push(
            (uri@, name@, "application/json"@, description@),
        ),
{
    let ghost before = resource_models(resources@);
    let ghost model = (uri@, name@, "application/json"@, description@);
    resources.push(
        Resource { uri, name, mime_type: "application/json".to_owned(), description },
    );
    assert(resource_models(resources@) =~= before.push(model));
}

/// Lists the resources of a session.
pub fn listed_resources(documents: &Vec<OpenDocument>, projects: &Vec<ProjectIdentity>) -> (
    resources: Vec<Resource>)
    ensures
        resource_models(resources@) == session_resources(documents@, projects@),
{
    let mut resources: Vec<Resource> = Vec::new();
    let mut i: usize = 0;
    assert(documents@.take(0) =~= Seq::<OpenDocument>::empty());
    assert(resource_models(resources@) =~= Seq::empty());
    while i < documents.len()
        invariant
            i <= documents@.len(),
            resource_models(resources@) == document_resources(documents@.take(i as int)),
        decreases documents@.len() - i,
    {
        proof {
            let next = documents@.take(i + 1);
            assert(next.drop_last() =~= documents@.take(i as int));
            assert(next.last() == documents@[i as int]);
        }
        let document = &documents[i];
        if let Ok(uri) = make_uri(&document.path) {
            let name = match document.path.file_name() {
                Some(name) => name,
                None => "unknown".to_owned(),
            };
            let label = concat3(document.project_id.as_str(), ":", name.as_str());
            let head = concat3("LSP diagnostics for ", document.project_id.as_str(), ":");
            let description = concat2(head.as_str(), name.as_str());
            push_resource(&mut resources, uri, label, description);
        }
        i = i + 1;
    }
    assert(documents@.take(i as int) =~= documents@);
    let ghost open = document_resources(documents@);
    let ghost statuses = Seq::new(
        projects@.len(),
        |i: int| status_resource(projects@[i].id@),
    );
    let ghost events = Seq::new(projects@.len(), |i: int| events_resource(projects@[i].id@));
    let mut k: usize = 0;
    assert(open + statuses.take(0) =~= open);
    while k < projects.len()
        invariant
            k <= projects@.len(),
            statuses == Seq::new(projects@.len(), |i: int| status_resource(projects@[i].id@)),
            resource_models(resources@) == open + statuses.take(k as int),
        decreases projects@.len() - k,
    {
        let id = &projects[k].id;
        push_resource(
            &mut resources,
            project_status_resource_uri(id),
            concat2(id.as_str(), ":status"),
            concat2("Lifecycle status for project ", id.as_str()),
        );
        assert(open + statuses.take(k + 1) =~= (open + statuses.take(k as int)).push(
            statuses[k as int],
        ));
        k = k + 1;
    }
    assert(statuses.take(k as int) =~= statuses);
    let mut m: usize = 0;
    assert(open + statuses + events.take(0) =~= open + statuses);
    while m < projects.len()
        invariant
            m <= projects@.len(),
            events == Seq::new(projects@.len(), |i: int| events_resource(projects@[i].id@)),
            resource_models(resources@) == open + statuses + events.take(m as int),
        decreases projects@.len() - m,
    {
        let id = &projects[m].id;
        push_resource(
            &mut resources,
            project_events_resource_uri(id),
            concat2(id.as_str(), ":events"),
            concat2("Ordered project events for ", id.as_str()),
        );
        assert(open + statuses + events.take(m + 1) =~= (open + statuses + events.take(
            m as int,
        )).push(events[m as int]));
        m = m + 1;
    }
    assert(events.take(m as int) =~= events);
    resources
}

/// A page of listed resources, with its cache hints.
#[derive(Debug, PartialEq, Eq)]
pub struct ListResourcesResult {
    pub resources: Vec<Resource>,
    pub next_cursor: Option<String>,
    pub ttl_ms: Option<u64>,
    pub cache_scope: Option<CacheScope>,
}

/// Lists one page of the resources of a session.
pub fn list_resources(
    documents: &Vec<OpenDocument>,
    projects: &Vec<ProjectIdentity>,
    cursor: Option<&str>,
    supports_cache_hints: bool,
) -> (result: Result<ListResourcesResult, McpError>)
    ensures
        match list_page(
            session_resources(documents@, projects@).len(),
            RESOURCE_PAGE_SIZE as nat,
            optional_cursor(cursor),
            "resources/list"@,
            "the catalog"@,
            true,
        ) {
            Ok(page) => {
                &&& result matches Ok(result)
                &&& resource_models(result.resources@) == session_resources(
                    documents@,
                    projects@,
                ).subrange(page.start as int, page.end as int)
                &&& optional_text(result.next_cursor) == page.next
                &&& is_hinted(
                    result.ttl_ms,
                    result.cache_scope,
                    supports_cache_hints,
                    CacheScope::Private,
                )
            },
            Err(reason) => result matches Err(error) && error@ == invalid_params(reason),
        },
{
    let all = listed_resources(documents, projects);
    assert(resource_models(all@).len() == all@.len());
    let ghost models = resource_models(all@);
    match resource_page(all, cursor) {
        Ok((resources, next_cursor)) => {
            let (ttl_ms, cache_scope) = if supports_cache_hints {
                (Some(0), Some(CacheScope::Private))
            } else {
                (None, None)
            };
            proof {
                let page = list_page(
                    models.len(),
                    RESOURCE_PAGE_SIZE as nat,
                    optional_cursor(cursor),
                    "resources/list"@,
                    "the catalog"@,
                    true,
                )->Ok_0;
                assert(resource_models(resources@) =~= models.subrange(
                    page.start as int,
                    page.end as int,
                ));
            }
            Ok(ListResourcesResult { resources, next_cursor, ttl_ms, cache_scope })
        },
        Err(message) => Err(McpError::invalid_params(message.as_str())),
    }
}

/// A page of the tool catalog, with its cache hints.
#[derive(Debug, PartialEq, Eq)]
pub struct ListToolsResult {
    pub tools: Vec<Tool>,
    pub next_cursor: Option<String>,
    pub ttl_ms: Option<u64>,
    pub cache_scope: Option<CacheScope>,
}

/// Lists one page of the tool catalog; anyone may keep it.
pub fn list_tools(registered: Vec<Tool>, cursor: Option<&str>, supports_cache_hints: bool) -> (
    result: Result<ListToolsResult, McpError>)
    ensures
        match list_page(
            catalog(tool_models(registered@)).len(),
            ADVERTISED_TOOL_PAGE_SIZE as nat,
            optional_cursor(cursor),
            "tools/list"@,
            "the catalog"@,
            false,
        ) {
            Ok(page) => {
                &&& result matches Ok(result)
                &&& tool_models(result.tools@) == catalog(tool_models(registered@)).subrange(
                    page.start as int,
                    page.end as int,
                )
                &&& optional_text(result.next_cursor) == page.next
                &&& is_hinted(
                    result.ttl_ms,
                    result.cache_scope,
                    supports_cache_hints,
                    CacheScope::Public,
                )
            },
            Err(reason) => result matches Err(error) && error@ == invalid_params(reason),
        },
{
    match advertised_tools_page(registered, cursor) {
        Ok((tools, next_cursor)) => {
            let (ttl_ms, cache_scope) = if supports_cache_hints {
                (Some(0), Some(CacheScope::Public))
            } else {
                (None, None)
            };
            Ok(ListToolsResult { tools, next_cursor, ttl_ms, cache_scope })
        },
        Err(message) => Err(McpError::invalid_params(message.as_str())),
    }
}

/// A diff and an approval can be read while the session owns the plan; a result also
/// while the plan is being applied or was settled. Every other resource can be read.
pub proof fn law_plan_resources_are_read_by_their_owner(plans: PlansModel, resource: ResourceModel)
    ensures
        match resource {
            ResourceModel::EditDiff(_, plan, _) => {
                &&& plans.owned.contains(plan) ==> read_refusal(plans, resource) is None
                &&& !plans.owned.contains(plan) ==> read_refusal(plans, resource) == Some(
                    invalid_params("edit plan is not owned by this MCP session"@),
                )
            },
            ResourceModel::EditApproval(_, plan, _) => {
                &&& plans.owned.contains(plan) ==> read_refusal(plans, resource) is None
                &&& !plans.owned.contains(plan) ==> read_refusal(plans, resource) == Some(
                    invalid_params("edit approval is not owned by this MCP session"@),
                )
            },
            ResourceModel::AppliedEditResult(_, plan, _) => {
                let known = plans.owned.contains(plan) || plans.active.contains(plan)
                    || plans.terminal.contains(plan);
                &&& known ==> read_refusal(plans, resource) is None
                &&& !known ==> read_refusal(plans, resource) == Some(
                    invalid_params("applied edit result is not owned by this MCP session"@),
                )
            },
            _ => read_refusal(plans, resource) is None,
        },
{
    if let ResourceModel::AppliedEditResult(_, plan, _) = resource {
        assert(plans.terminal.to_set().contains(plan) <==> plans.terminal.contains(plan));
    }
}

/// A client that takes hints about caching is told not to keep an answer, and for
/// whom it is; any other is told nothing.
pub proof fn law_answers_are_not_kept(
    ttl_ms: Option<u64>,
    cache_scope: Option<CacheScope>,
    scope: CacheScope,
)
    ensures
        is_hinted(ttl_ms, cache_scope, true, scope) <==> ttl_ms == Some(0u64) && cache_scope
            == Some(scope),
        is_hinted(ttl_ms, cache_scope, false, scope) <==> ttl_ms is None && cache_scope is None,
{
}

/// An answer holds one text, under the reference that was asked for, for this
/// session alone.
pub proof fn law_answer_holds_one_text(
    result: ReadResourceResult,
    uri: Seq<char>,
    text: Seq<char>,
    supports_cache_hints: bool,
)
    requires
        answers(result, uri, text, supports_cache_hints),
    ensures
        result.contents@.len() == 1,
        result.contents@[0].uri@ == uri,
        result.contents@[0].text@ == text,
        result.cache_scope == (if supports_cache_hints {
            Some(CacheScope::Private)
        } else {
            None
        }),
        result.ttl_ms == (if supports_cache_hints {
            Some(0u64)
        } else {
            None
        }),
{
}

/// A page is answered with its text; what refuses the page refuses the answer.
pub proof fn law_page_answer_is_the_page(
    result: Result<ReadResourceResult, McpError>,
    uri: Seq<char>,
    page: ReadModel,
    refusal: ErrorModel,
    supports_cache_hints: bool,
)
    ensures
        answers_page(result, uri, Ok(page), supports_cache_hints) ==> (result matches Ok(given)
            && given.contents@.len() == 1 && given.contents@[0].uri@ == uri
            && given.contents@[0].text@ == json_text(read_json(page))),
        answers_page(result, uri, Err(refusal), supports_cache_hints) ==> (result matches Err(error)
            && error@ == refusal),
{
}

/// Status, events, diagnostics and sources can be subscribed to; deferred results,
/// diffs, edit results and approvals cannot.
pub proof fn law_lasting_resources_can_be_subscribed_to(resource: ResourceModel)
    ensures
        subscription_refusal(resource) is None <==> {
            ||| resource is ProjectStatus
            ||| resource is ProjectEvents
            ||| resource is ProjectEvent
            ||| resource is Diagnostics
            ||| resource is Source
        },
        resource is Deferred ==> subscription_refusal(resource) == Some(
            invalid_params("deferred semantic resources are readable but not subscribable"@),
        ),
        resource is EditDiff ==> subscription_refusal(resource) == Some(
            invalid_params("edit diff resources are readable but not subscribable"@),
        ),
        resource is AppliedEditResult ==> subscription_refusal(resource) == Some(
            invalid_params("applied edit result resources are readable but not subscribable"@),
        ),
        resource is EditApproval ==> subscription_refusal(resource) == Some(
            invalid_params("edit approval resources are readable but not subscribable"@),
        ),
{
}

/// A subscription watches the project or the file that its resource names.
pub proof fn law_subscription_watches_what_it_names(
    scope: SubscriptionScope,
    resource: ResourceModel,
)
    requires
        is_scope(scope, resource),
    ensures
        subscription_refusal(resource) is None,
        resource matches ResourceModel::ProjectStatus(project) ==> (
        scope matches SubscriptionScope::Project(id) && id@ == project),
        resource matches ResourceModel::ProjectEvents(project, _) ==> (
        scope matches SubscriptionScope::Project(id) && id@ == project),
        resource matches ResourceModel::ProjectEvent(project, _) ==> (
        scope matches SubscriptionScope::Project(id) && id@ == project),
        resource matches ResourceModel::Diagnostics(path) ==> (
        scope matches SubscriptionScope::Path(watched) && watched@ == path),
        resource matches ResourceModel::Source(path, _) ==> (
        scope matches SubscriptionScope::Path(watched) && watched@ == path),
{
}

/// A request to listen is refused exactly where one of its references is not
/// readable or not subscribable, and then for the first of these.
pub proof fn law_listening_is_refused_for_the_first_reference(uris: Seq<Seq<char>>)
    ensures
        listen_refusal(uris) is None <==> forall|i: int|
            0 <= i < uris.len() ==> (named_resource(#[trigger] uris[i]) matches Ok(resource)
                && subscription_refusal(resource) is None),
        listen_refusal(uris) matches Some(refusal) ==> exists|i: int|
            {
                &&& 0 <= i < uris.len()
                &&& match named_resource(#[trigger] uris[i]) {
                    Err(reason) => refusal == reason,
                    Ok(resource) => subscription_refusal(resource) == Some(refusal),
                }
                &&& forall|j: int|
                    0 <= j < i ==> (named_resource(#[trigger] uris[j]) matches Ok(resource)
                        && subscription_refusal(resource) is None)
            },
    decreases uris.len(),
{
    if uris.len() > 0 {
        let head = uris.drop_last();
        law_listening_is_refused_for_the_first_reference(head);
        assert forall|i: int| 0 <= i < head.len() implies #[trigger] uris[i] == head[i] by {}
        let last = uris.len() - 1;
        assert(uris[last] == uris.last());
        if let Some(refusal) = listen_refusal(head) {
            let i = choose|i: int|
                {
                    &&& 0 <= i < head.len()
                    &&& match named_resource(#[trigger] head[i]) {
                        Err(reason) => refusal == reason,
                        Ok(resource) => subscription_refusal(resource) == Some(refusal),
                    }
                    &&& forall|j: int|
                        0 <= j < i ==> (named_resource(#[trigger] head[j]) matches Ok(resource)
                            && subscription_refusal(resource) is None)
                };
            assert(uris[i] == head[i]);
            assert forall|j: int| 0 <= j < i implies (named_resource(
                #[trigger] uris[j],
            ) matches Ok(resource) && subscription_refusal(resource) is None) by {
                assert(uris[j] == head[j]);
            }
        } else {
            assert forall|j: int| 0 <= j < last implies (named_resource(
                #[trigger] uris[j],
            ) matches Ok(resource) && subscription_refusal(resource) is None) by {
                assert(uris[j] == head[j]);
            }
        }
    }
}

/// Whoever asks for the events of a project, from whichever place on, or for one of
/// them, listens to the events of the project; any other reference is listened to as
/// it stands.
pub proof fn law_event_references_share_a_subscription(
    uri: Seq<char>,
    other: Seq<char>,
    project: Seq<char>,
    resource: ResourceModel,
    another: ResourceModel,
)
    ensures
        (resource matches ResourceModel::ProjectEvents(named, _) && named == project) && (
        another matches ResourceModel::ProjectEvent(named, _) && named == project)
            ==> subscribed_uri(uri, resource) == subscribed_uri(other, another) && subscribed_uri(
            uri,
            resource,
        ) == events_uri(project),
        resource !is ProjectEvents && resource !is ProjectEvent ==> subscribed_uri(uri, resource)
            == uri,
{
}

/// A deferred result is paged by its own text, from the place that was asked for,
/// under the digest that was kept with it. One that is gone is refused with the
/// reason.
pub proof fn law_deferred_result_is_paged(
    deferred: DeferredResource,
    uri: Seq<char>,
    payload: DeferredPayload,
    reason: String,
)
    ensures
        deferred_page(deferred, uri, Err(reason)) == Err::<ReadModel, ErrorModel>(
            invalid_params(reason@),
        ),
        deferred_page(deferred, uri, Ok(payload)) matches Ok(page) ==> {
            &&& page.snapshot_hash == Some(payload.snapshot_hash@)
            &&& page.total_bytes == Some(byte_len(json_text(payload.value@)))
            &&& page.offset_bytes == Some(deferred.offset_bytes as nat)
            &&& page.uri == uri
        },
{
}

/// A source that is given in a frame is given as it is, with no page behind it.
pub proof fn law_framed_source_is_whole(uri: Seq<char>, text: Seq<char>)
    ensures
        ({
            let answer = frame_answer(uri, text);
            &&& answer.uri == uri
            &&& answer.text == text
            &&& answer.mime_type == "application/json"@
            &&& answer.source is None
            &&& answer.next_uri is None
            &&& answer.total_bytes is None
            &&& answer.offset_bytes is None
            &&& answer.returned_bytes is None
            &&& answer.remaining_bytes is None
            &&& answer.snapshot_hash is None
        }),
{
}

/// A session lists the diagnostics of every open document that can be referred to,
/// then the status of every project, then the events of every project, in order, and
/// nothing else.
pub proof fn law_session_lists_documents_and_projects(
    documents: Seq<OpenDocument>,
    projects: Seq<ProjectIdentity>,
)
    ensures
        ({
            let listed = session_resources(documents, projects);
            let shown = document_resources(documents).len() as int;
            &&& listed.len() == shown + 2 * projects.len()
            &&& shown <= documents.len()
            &&& (forall|i: int|
                0 <= i < documents.len() ==> diagnostics_uri((#[trigger] documents[i]).path@)
                    is Some) ==> shown == documents.len()
            &&& forall|i: int|
                0 <= i < documents.len() ==> (diagnostics_uri(
                    (#[trigger] documents[i]).path@,
                ) matches Some(uri) ==> exists|k: int|
                    0 <= k < shown && (#[trigger] listed[k]).0 == uri && describes_document(
                        listed[k],
                        documents[i],
                    ))
            &&& forall|k: int|
                0 <= k < shown ==> exists|i: int|
                    0 <= i < documents.len() && describes_document(
                        #[trigger] listed[k],
                        #[trigger] documents[i],
                    )
            &&& forall|i: int|
                0 <= i < projects.len() ==> {
                    let project = (#[trigger] projects[i]).id@;
                    let status = listed[shown + i];
                    let events = listed[shown + projects.len() + i];
                    &&& status.0 == status_uri(project)
                    &&& status.1 == project + ":status"@
                    &&& status.2 == "application/json"@
                    &&& status.3 == "Lifecycle status for project "@ + project
                    &&& events.0 == events_uri(project)
                    &&& events.1 == project + ":events"@
                    &&& events.2 == "application/json"@
                    &&& events.3 == "Ordered project events for "@ + project
                }
        }),
{
    let listed = session_resources(documents, projects);
    let shown = document_resources(documents);
    lemma_document_resources(documents);
    assert forall|k: int| 0 <= k < shown.len() implies #[trigger] listed[k] == shown[k] by {}
    assert forall|i: int| 0 <= i < documents.len() implies (diagnostics_uri(
        (#[trigger] documents[i]).path@,
    ) matches Some(uri) ==> exists|k: int|
        0 <= k < shown.len() && (#[trigger] listed[k]).0 == uri && describes_document(
            listed[k],
            documents[i],
        )) by {
        if let Some(uri) = diagnostics_uri(documents[i].path@) {
            let k = choose|k: int|
                0 <= k < shown.len() && describes_document(#[trigger] shown[k], documents[i]);
            assert(listed[k] == shown[k]);
        }
    }
    assert forall|k: int| 0 <= k < shown.len() implies exists|i: int|
        0 <= i < documents.len() && describes_document(
            #[trigger] listed[k],
            #[trigger] documents[i],
        ) by {
        let i = choose|i: int|
            0 <= i < documents.len() && describes_document(shown[k], #[trigger] documents[i]);
        assert(describes_document(listed[k], documents[i]));
    }
}

/// Whether a listed resource is the diagnostics of a document: it is named by the
/// project and the file.
pub open spec fn describes_document(
    resource: (Seq<char>, Seq<char>, Seq<char>, Seq<char>),
    document: OpenDocument,
) -> bool {
    let name = match final_name(document.path@) {
        Some(name) => name,
        None => "unknown"@,
    };
    let title = document.project_id@ + ":"@ + name;
    &&& diagnostics_uri(document.path@) == Some(resource.0)
    &&& resource.1 == title
    &&& resource.2 == "application/json"@
    &&& resource.3 == "LSP diagnostics for "@ + title
}

proof fn lemma_document_resources(documents: Seq<OpenDocument>)
    ensures
        ({
            let shown = document_resources(documents);
            &&& shown.len() <= documents.len()
            &&& (forall|i: int|
                0 <= i < documents.len() ==> diagnostics_uri((#[trigger] documents[i]).path@)
                    is Some) ==> shown.len() == documents.len()
            &&& forall|i: int|
                0 <= i < documents.len() && diagnostics_uri((#[trigger] documents[i]).path@)
                    is Some ==> exists|k: int|
                    0 <= k < shown.len() && describes_document(#[trigger] shown[k], documents[i])
            &&& forall|k: int|
                0 <= k < shown.len() ==> exists|i: int|
                    0 <= i < documents.len() && describes_document(
                        #[trigger] shown[k],
                        #[trigger] documents[i],
                    )
        }),
    decreases documents.len(),
{
    if documents.len() > 0 {
        let head = documents.drop_last();
        lemma_document_resources(head);
        let shown = document_resources(documents);
        let front = document_resources(head);
        let last = documents.len() - 1;
        assert forall|i: int| 0 <= i < head.len() implies #[trigger] documents[i] == head[i] by {}
        assert(documents[last] == documents.last());
        assert forall|k: int| 0 <= k < front.len() implies #[trigger] shown[k] == front[k] by {}
        let document = documents.last();
        let name = match final_name(document.path@) {
            Some(name) => name,
            None => "unknown"@,
        };
        assert("LSP diagnostics for "@ + document.project_id@ + ":"@ + name
            =~= "LSP diagnostics for "@ + (document.project_id@ + ":"@ + name));
        if diagnostics_uri(document.path@) is Some {
            assert(describes_document(shown[front.len() as int], documents[last]));
        }
        if forall|i: int|
            0 <= i < documents.len() ==> diagnostics_uri((#[trigger] documents[i]).path@) is Some {
            assert forall|i: int| 0 <= i < head.len() implies diagnostics_uri(
                (#[trigger] head[i]).path@,
            ) is Some by {
                assert(documents[i] == head[i]);
            }
        }
        assert forall|i: int|
            0 <= i < documents.len() && diagnostics_uri((#[trigger] documents[i]).path@)
                is Some implies exists|k: int|
            0 <= k < shown.len() && describes_document(#[trigger] shown[k], documents[i]) by {
            if i < last {
                assert(head[i] == documents[i]);
                let k = choose|k: int|
                    0 <= k < front.len() && describes_document(#[trigger] front[k], head[i]);
                assert(describes_document(shown[k], documents[i]));
            }
        }
        assert forall|k: int| 0 <= k < shown.len() implies exists|i: int|
            0 <= i < documents.len() && describes_document(
                #[trigger] shown[k],
                #[trigger] documents[i],
            ) by {
            if k < front.len() {
                let i = choose|i: int|
                    0 <= i < head.len() && describes_document(front[k], #[trigger] head[i]);
                assert(describes_document(shown[k], documents[i]));
            }
        }
    }
}

/// The references that can be read are kept one by one, in order, and the others are
/// left out.
pub proof fn law_accepted_resources_stay_in_order(uris: Seq<Seq<char>>, uri: Seq<char>)
    ensures
        accepted_resources(Seq::empty()) == Seq::<Seq<char>>::empty(),
        session_reference(uri) is Ok ==> accepted_resources(uris.push(uri)) == accepted_resources(
            uris,
        ).push(uri),
        session_reference(uri) is Err ==> accepted_resources(uris.push(uri)) == accepted_resources(
            uris,
        ),
{
    assert(uris.push(uri).drop_last() =~= uris);
}

/// Projects are listened to in the order in which they were first named.
pub proof fn law_listened_projects_stay_in_order(projects: Seq<Seq<char>>, project: Seq<char>)
    ensures
        distinct_texts(Seq::empty()) == Seq::<Seq<char>>::empty(),
        projects.contains(project) ==> distinct_texts(projects.push(project)) == distinct_texts(
            projects,
        ),
        !projects.contains(project) ==> distinct_texts(projects.push(project)) == distinct_texts(
            projects,
        ).push(project),
{
    assert(projects.push(project).drop_last() =~= projects);
    law_listened_projects_are_distinct(projects);
    assert(distinct_texts(projects).contains(project) <==> projects.contains(project));
}

} // verus!
