//! What the operations promise: each law goes from what an operation is given to what
//! comes out of it.

use crate::apply::{
    apply_result, law_applied_answer_gives_the_result, law_applied_result_reports_the_plan,
    law_conflict_answer_gives_the_result, law_conflicting_plan_is_previewed_again,
    law_semantic_state_follows_the_providers, law_waiting_answer_gives_the_result,
    law_waiting_plan_is_tried_again, AppliedEditPlan, ApplyEditPlanOutcome, EditConflict,
    EditNotReady,
};
use crate::approval::{
    approval_decision, approval_detail, approval_detail_json, approval_summary_json,
    law_approval_detail_is_whole, law_approval_summary_shows_the_plan,
    law_only_an_explicit_yes_approves, law_user_is_asked_for_one_yes, parse_approval_response,
    ApprovalDecision, EditPlanApprovalSummary, InputRequired,
};
use crate::catalog::{
    catalog, compact_advertised_description, law_list_page_is_full,
    law_project_page_gives_its_projects, list_page, optional_cursor, project_list, tool_models,
    Tool,
};
use crate::decimal::{decimal, unsigned_value};
use crate::digest::sha256_text;
use crate::errors::{encode_tool_result, ErrorCode, ErrorModel, McpError, StructuredOutput};
use crate::handlers::{
    law_claimed_plan_is_being_applied, law_remembered_plan_is_owned, ClientFeatures,
    ElicitationSupport, HandlerContext,
};
use crate::instrumentation::{
    call_result_json, completed_tool_result_metrics, law_metrics_say_what_the_result_says,
    law_remote_trace_is_that_of_the_parent, parse_remote_trace, request_record, resource_label,
    tool_call_record, CallToolResponse, RemoteTrace, RequestRecord, ToolResultMetrics, TraceContext,
};
use crate::json::{
    json_count, json_len, json_text, keyed, last_under, law_texts_stay_in_place, lemma_entry_pushed,
    lemma_filled_members, lemma_last_pushed, lists_texts, member, no_fields, Json, JsonObject,
    JsonValue,
};
use crate::lexical::{
    bounded_lexical_page, effective_lexical_page_bytes, fitting_batch, fitting_page,
    law_batch_answer_shows_the_entries, law_lexical_request_is_checked,
    law_page_answer_shows_the_page, law_planned_search_runs_the_request,
    law_scan_page_gives_the_first_matches, law_scan_page_names_the_next_page, lexical_batch_answer,
    lexical_json, lexical_page_answer, match_models, plan_lexical_search, scan_accounting,
    shows_match, LexicalSearchBatchResult, LexicalSearchMatch, LexicalSearchPlan,
    LexicalSearchResult, LexicalSearchScan,
};
use crate::mutation::{
    accept_mutation_retry, apply_project_plan_direct, apply_project_plan_with_approval,
    ask_mutation_approval, finish_approved_plan, finish_claimed_plan, first_step,
    law_changed_files_make_a_retry_stale, law_outcome_settles_only_its_plan,
    law_retry_goes_through_where_nothing_changed, law_state_of_another_request_is_refused,
    prepare_mutation_approval, requested, retry_mutation_approval, step_result, ApplyStep,
    ApprovalRequest, StepModel,
};
use crate::pages::{
    PageKindModel, ReadModel, bounded_page, law_page_is_a_slice, law_page_is_labelled, read_json,
    returned,
};
use crate::paths::{path_texts, FilePath};
use crate::previews::{
    bounded_structural_preview_json, generated_preview_answer, law_preview_shows_its_plan,
    law_structural_preview_shows_its_matches, law_supported_preview_shows_its_plan,
    law_unchanged_preview_says_so, lists_matches, parse_structural_dialect, preview_answer,
    previews_plan, structural_preview_json, supported_preview_answer, PreviewArtifact,
    StructuralAnswer, StructuralDialect, StructuralPreview,
};
use crate::project::{status_name, PlanId, ProjectEvent, ProjectId};
use crate::reading::{
    accepted_resources, accepted_subscription_filter, applied_edit_result_access,
    attach_subscription, edit_approval_access, edit_diff_access,
    law_accepted_resources_are_readable, list_resources, list_tools,
    read_applied_edit_result_resource, read_edit_approval_resource, read_edit_diff_resource,
    read_project_event_resource, read_semantic_resource, resource_models, session_resources,
    source_frame_step, subscribed_uri, supports_cache_hints, unsubscribe, CacheScope,
    ListResourcesResult, ListToolsResult, OpenDocument, ReadResourceResult, SemanticResource,
    SourceFrame, SourceStep,
};
use crate::requests::{
    code_action_preview, diagnostics_mode, first_call_item, format_preview,
    move_inline_module_preview, move_item_preview, parse_position_encoding, path_rename_preview,
    range_format_preview, references_page_offset, rename_preview, semantic_target,
    structural_replace_preview, CodeActionRequest, GeneratedEdit, GeneratedEditRequest,
    InlineModuleMove, PathRenameRequest, PositionEncoding, SemanticRoute, StructuralRequest,
};
use crate::resources::{law_diagnostics_uri_round_trip, make_uri, parse_uri, ResourceUriError};
use crate::session::{
    ResourceModel, event_diagnostics, event_is_readable, event_resource_uris,
    law_event_touches_what_it_changes, session_reference,
};
use crate::state::{
    open_approval_state, seal_approval_state, sealing_request, state_payload, MutationApprovalState,
    SealingRequest,
};
use crate::status::{
    health, law_daemon_is_told, law_event_entry_keeps_identity, law_events_page_leads_on,
    law_health_follows_the_projects, law_project_state_is_told, project_events_json,
    project_removed_json, project_state_answer, record_json, server_status, state_answer,
    tells_daemon, tells_state, ActorGroupState, DaemonSnapshot, ProjectEventRecord,
    ProjectEventSnapshot, ProjectIdentity, ProjectState,
};
use crate::subscriptions::{
    starts_forwarding, subscription_list, ForwardOutcome, Forwarding, ResourceSubscriptions,
    SessionEventSink,
};
use crate::symbols::{
    inspect_symbol, workspace_symbol_search, InspectBatchLimits, InspectSymbolPlan,
    WorkspaceSymbolPlan,
};
use crate::text::{
    law_shortened_text_begins_the_text, optional_text, text_before, texts, truncate_str,
};
use crate::tools::{
    CodeActionPreviewParams, DiagnosticsMode, FormatPreviewParams, InspectSymbolParams,
    LexicalSearchParams, MoveInlineModulePreviewParams, MoveItemPreviewParams,
    PathRenamePreviewParams, RangeFormatPreviewParams, RenamePreviewParams,
    StructuralReplacePreviewParams, SymbolHandle, WorkspaceEditApplyParams, WorkspaceSymbolParams,
};
use vstd::prelude::*;
use vstd::string::*;
use vstd::utf8::*;

verus! {

/// Whether an error refuses a request with a message and nothing more.
pub open spec fn refuses(error: McpError, message: Seq<char>) -> bool {
    &&& error.code == ErrorCode::InvalidParams
    &&& error.message@ == message
    &&& error.data is None
}

/// Whether the files of a plan are not those that were approved: another number of
/// hashes or versions, or another hash or version of some file, whichever it is.
pub open spec fn has_changed(
    summary: EditPlanApprovalSummary,
    state: MutationApprovalState,
) -> bool {
    ||| summary.snapshot_hashes@.len() != state.snapshot_hashes@.len()
    ||| exists|i: int|
        0 <= i < summary.snapshot_hashes@.len() && (#[trigger] summary.snapshot_hashes@[i])@
            != state.snapshot_hashes@[i]@
    ||| summary.versions@.len() != state.versions@.len()
    ||| exists|i: int|
        0 <= i < summary.versions@.len() && #[trigger] summary.versions@[i] != state.versions@[i]
}

proof fn lemma_has_changed(summary: EditPlanApprovalSummary, state: MutationApprovalState)
    ensures
        has_changed(summary, state) <==> {
            ||| summary.snapshot_hashes@.len() != state@.snapshot_hashes.len()
            ||| exists|i: int|
                0 <= i < summary.snapshot_hashes@.len() && (#[trigger] summary.snapshot_hashes@[i])@
                    != state@.snapshot_hashes[i]
            ||| summary.versions@.len() != state@.versions.len()
            ||| exists|i: int|
                0 <= i < summary.versions@.len() && #[trigger] summary.versions@[i]
                    != state@.versions[i]
        },
{
    assert(state@.snapshot_hashes.len() == state.snapshot_hashes@.len());
    assert forall|i: int| 0 <= i < state.snapshot_hashes@.len() implies #[trigger]
        state@.snapshot_hashes[i] == state.snapshot_hashes@[i]@ by {}
}

/// A retry whose plan has changed since it was approved is refused as stale, and
/// nothing is claimed or spent for it.
pub proof fn law_changed_plan_is_not_applied(
    context: &mut HandlerContext,
    request: &ApprovalRequest,
    state: &MutationApprovalState,
    summary: EditPlanApprovalSummary,
    cancelled: bool,
    accepted: Result<(), McpError>,
)
    requires
        old(context)@.wf(),
        call_ensures(
            accept_mutation_retry,
            (context, request, state, Ok(summary), cancelled),
            accepted,
        ),
        has_changed(summary, *state),
    ensures
        accepted matches Err(error) && refuses(
            error,
            "edit plan is stale; preview the change again"@,
        ),
        final(context)@.plans == old(context)@.plans,
        final(context)@.approvals == old(context)@.approvals,
{
    lemma_has_changed(summary, *state);
    law_changed_files_make_a_retry_stale(
        old(context)@,
        request@,
        state@,
        summary,
        cancelled,
    );
}

/// A retry is let through exactly where its plan is as it was approved, it was not
/// cancelled, its approval is pending and the session knows the plan. The plan is then
/// owned no more; a refused retry changes nothing.
pub proof fn law_accepted_retry_claims_its_plan(
    context: &mut HandlerContext,
    request: &ApprovalRequest,
    state: &MutationApprovalState,
    summary: EditPlanApprovalSummary,
    cancelled: bool,
    accepted: Result<(), McpError>,
)
    requires
        old(context)@.wf(),
        call_ensures(
            accept_mutation_retry,
            (context, request, state, Ok(summary), cancelled),
            accepted,
        ),
    ensures
        ({
            let plan = request.plan_id@;
            let plans = old(context)@.plans;
            let after = final(context)@;
            &&& accepted is Ok <==> {
                &&& !has_changed(summary, *state)
                &&& !cancelled
                &&& old(context)@.approvals.contains(state.nonce@)
                &&& (plans.owned.contains(plan) || plans.active.contains(plan)
                    || plans.terminal.contains(plan))
            }
            &&& accepted is Ok ==> !after.plans.owned.contains(plan)
            &&& accepted is Ok && plans.owned.contains(plan) ==> after.plans.active.contains(plan)
            &&& accepted is Err ==> after.plans == plans
            &&& after.approvals == old(context)@.approvals
            &&& after.session_id == old(context)@.session_id
            &&& after.key == old(context)@.key
        }),
{
    lemma_has_changed(summary, *state);
    law_retry_goes_through_where_nothing_changed(
        old(context)@,
        request@,
        state@,
        Ok(summary),
        cancelled,
    );
}

/// A client that can be asked never has a plan applied before it was asked, and one
/// that hands over an answer has the seal opened first.
pub proof fn law_nothing_is_applied_unasked(
    context: &mut HandlerContext,
    tool_name: &str,
    params: &WorkspaceEditApplyParams,
    request_state: Option<String>,
    input_responses: Option<JsonObject>,
    cancelled: bool,
    step: Result<ApplyStep, McpError>,
)
    requires
        old(context)@.wf(),
        old(context)@.client.form_elicitation == Some(true),
        old(context)@.client.multi_round_trip == Some(true),
        call_ensures(
            apply_project_plan_with_approval,
            (context, tool_name, params, request_state, input_responses, cancelled),
            step,
        ),
    ensures
        step matches Ok(next) ==> next !is Apply && next !is Recheck,
        step matches Ok(ApplyStep::Inspect(request)) ==> {
            &&& request_state is None && input_responses is None && !cancelled
            &&& old(context)@.plans.owned.contains(request.plan_id@)
            &&& request.plan_id@ == params.plan_id@
            &&& request.project_id@ == params.project_id@
        },
        step matches Ok(ApplyStep::Read(request, _, _)) ==> request_state is Some
            && input_responses is Some && !cancelled && request.plan_id@ == params.plan_id@,
        cancelled ==> (step matches Err(error) && refuses(
            error,
            "mutating apply was cancelled before approval"@,
        )),
        final(context)@ == old(context)@,
{
    if !cancelled {
        match requested(tool_name@, *params) {
            Ok(request) => {
                match (request_state, input_responses) {
                    (None, None) => {
                        assert(step_result(step) == first_step(old(context)@, request));
                    },
                    (Some(sealed), Some(responses)) => {
                        if let Ok(next) = step {
                            assert(step_result(step) == Ok::<StepModel, crate::errors::ErrorModel>(
                                next@,
                            ));
                        }
                    },
                    _ => {},
                }
            },
            Err(_) => {},
        }
    }
}

/// A plan that is not safe is never put before a user, nor one that could not be
/// inspected; no approval is then pending that was not before.
pub proof fn law_unsafe_plan_is_not_put_to_approval(
    context: &mut HandlerContext,
    request: &ApprovalRequest,
    inspection: Result<EditPlanApprovalSummary, String>,
    answer: Result<InputRequired, McpError>,
)
    requires
        request.wf(old(context)@.session_id),
        inspection matches Ok(summary) ==> summary.project_id@.len() > 0,
        call_ensures(prepare_mutation_approval, (context, request, inspection), answer),
    ensures
        answer is Ok <==> (inspection matches Ok(summary) && summary.safe_to_apply),
        inspection matches Ok(summary) ==> (!summary.safe_to_apply ==> (answer matches Err(error)
            && refuses(error, "edit plan is not safe to apply"@))),
        inspection matches Err(reason) ==> (answer matches Err(error) && refuses(error, reason@)),
        answer is Err ==> final(context)@.approvals == old(context)@.approvals,
        answer is Ok ==> exists|nonce: Seq<char>|
            final(context)@.approvals == #[trigger] old(context)@.approvals.insert(nonce),
        final(context)@.plans == old(context)@.plans,
{
    if let Ok(summary) = inspection {
        if summary.safe_to_apply {
            let nonce = choose|nonce: Seq<char>|
                {
                    &&& #[trigger] crate::handlers::is_hyphenated(nonce)
                    &&& answer matches Ok(answer) && crate::mutation::asks_for_request(
                        answer,
                        old(context)@,
                        request@,
                        summary,
                        nonce,
                    )
                    &&& final(context)@ == old(context)@.with_approvals(
                        old(context)@.approvals.insert(nonce),
                    )
                };
            assert(final(context)@.approvals == old(context)@.approvals.insert(nonce));
        }
    }
}

/// A user who is asked sees the plan itself: what is asked names the files of the
/// inspected plan, and the state that goes along is that of the request.
pub proof fn law_question_shows_the_inspected_plan(
    context: &mut HandlerContext,
    request: &ApprovalRequest,
    summary: EditPlanApprovalSummary,
    nonce: String,
    answer: InputRequired,
)
    requires
        request.wf(old(context)@.session_id),
        summary.project_id@.len() > 0,
        call_ensures(ask_mutation_approval, (context, request, &summary, nonce), answer),
    ensures
        answer.input_id@ == "approval"@,
        ({
            let shown = answer.approval_summary@;
            &&& member(shown, "plan_id"@) == Some(Json::Text(summary.plan_id@))
            &&& member(shown, "project_id"@) == Some(Json::Text(summary.project_id@))
            &&& member(shown, "affected_file_count"@) == Some(
                json_count(summary.affected_files@.len()),
            )
            &&& member(shown, "safe_to_apply"@) == Some(Json::Bool(summary.safe_to_apply))
            &&& member(shown, "diff_truncated"@) == Some(Json::Bool(summary.diff_truncated))
        }),
        final(context)@.approvals == old(context)@.approvals.insert(nonce@),
        final(context)@.plans == old(context)@.plans,
{
    law_approval_summary_shows_the_plan(summary);
    law_user_is_asked_for_one_yes(answer, answer.request_state@, summary);
}

/// An answer approves only where its one entry is an explicit yes.
pub proof fn law_answer_is_read_as_it_stands(
    responses: JsonObject,
    decision: Result<ApprovalDecision, McpError>,
)
    requires
        call_ensures(parse_approval_response, (&Some(responses),), decision),
    ensures
        decision == Ok::<ApprovalDecision, McpError>(ApprovalDecision::Accept) <==> {
            &&& responses@.len() == 1
            &&& responses@[0].0 == "approval"@
            &&& member(responses@[0].1, "action"@) == Some(Json::Text("accept"@))
            &&& member(responses@[0].1, "content"@) matches Some(content) && member(
                content,
                "approved"@,
            ) == Some(Json::Bool(true))
        },
        decision == Ok::<ApprovalDecision, McpError>(ApprovalDecision::Decline) <==> {
            &&& responses@.len() == 1
            &&& responses@[0].0 == "approval"@
            &&& (member(responses@[0].1, "action"@) == Some(Json::Text("decline"@)) || member(
                responses@[0].1,
                "action"@,
            ) == Some(Json::Text("cancel"@)))
        },
{
    law_only_an_explicit_yes_approves(responses@);
}

/// State that was sealed for another request is refused, and nothing is spent on it.
pub proof fn law_foreign_state_is_refused(
    context: &mut HandlerContext,
    request: ApprovalRequest,
    state: MutationApprovalState,
    responses: JsonObject,
    step: Result<ApplyStep, McpError>,
)
    requires
        request.wf(old(context)@.session_id),
        call_ensures(retry_mutation_approval, (context, request, Ok(state), responses), step),
        ({
            ||| state.session_id@ != old(context)@.session_id
            ||| state.principal is Some
            ||| state.method@ != "tools/call"@
            ||| state.tool_name@ != request.tool_name@
            ||| state.project_id@ != request.project_id@
            ||| state.plan_id@ != request.plan_id@
            ||| state.arguments_digest@ != request.arguments_digest@
        }),
    ensures
        step matches Err(error) && refuses(
            error,
            "approval request state does not match this apply request"@,
        ),
        final(context)@ == old(context)@,
{
    law_state_of_another_request_is_refused(old(context)@, request@, state@, responses@);
}

/// Whether an answer reports a plan as applied: what it was, whether its files are
/// committed, and whether every provider took the change over.
pub open spec fn reports_applied(
    value: Json,
    plan: AppliedEditPlan,
    project: Seq<char>,
) -> bool {
    let providers = plan.provider_synchronization@;
    &&& member(value, "status"@) == Some(Json::Text("applied"@))
    &&& member(value, "project_id"@) == Some(Json::Text(project))
    &&& member(value, "plan_id"@) == Some(Json::Text(plan.plan_id@))
    &&& member(value, "committed"@) == Some(Json::Bool(true))
    &&& member(value, "committed_file_count"@) == Some(json_count(plan.committed_files@.len()))
    &&& member(value, "operation_count"@) == Some(json_count(plan.operations@.len()))
    &&& member(value, "provider_synchronization_count"@) == Some(json_count(providers.len()))
    &&& providers.len() == 0 ==> member(value, "semantic_state"@) is None
    &&& (exists|i: int| 0 <= i < providers.len() && !(#[trigger] providers[i]).synchronized)
        ==> member(value, "semantic_state"@) == Some(Json::Text("degraded"@))
    &&& providers.len() > 0 && (forall|i: int|
        0 <= i < providers.len() ==> (#[trigger] providers[i]).synchronized) ==> member(
        value,
        "semantic_state"@,
    ) == Some(Json::Text("synchronized"@))
}

proof fn lemma_reports_applied(plan: AppliedEditPlan, project: Seq<char>, roots: Seq<Seq<char>>)
    ensures
        reports_applied(
            keyed(
                crate::apply::apply_json(
                    apply_result(ApplyEditPlanOutcome::Applied(plan), project, roots),
                ),
            ),
            plan,
            project,
        ),
{
    let result = apply_result(ApplyEditPlanOutcome::Applied(plan), project, roots);
    law_applied_answer_gives_the_result(result);
    law_applied_result_reports_the_plan(plan, project, roots);
    law_semantic_state_follows_the_providers(plan, project, roots);
    crate::apply::law_applied_result_is_marked_where_cut(plan, project, roots);
}

/// An applied plan is reported as such, and the session knows it as settled; its
/// approval is spent.
pub proof fn law_applied_plan_is_reported_and_settled(
    context: &mut HandlerContext,
    request: &ApprovalRequest,
    state: &MutationApprovalState,
    plan: AppliedEditPlan,
    roots: &Vec<FilePath>,
    output: Result<StructuredOutput, McpError>,
)
    requires
        old(context)@.wf(),
        request.wf(old(context)@.session_id),
        old(context)@.plans.active.contains(request.plan_id@),
        call_ensures(
            finish_approved_plan,
            (context, request, state, Ok(ApplyEditPlanOutcome::Applied(plan)), roots),
            output,
        ),
    ensures
        output matches Ok(given) && reports_applied(given.value@, plan, request.project_id@),
        !final(context)@.plans.owned.contains(request.plan_id@),
        !final(context)@.plans.active.contains(request.plan_id@),
        final(context)@.plans.terminal.contains(request.plan_id@),
        !final(context)@.approvals.contains(state.nonce@),
{
    lemma_reports_applied(plan, request.project_id@, path_texts(roots@));
    law_outcome_settles_only_its_plan(
        old(context)@,
        request.plan_id@,
        state.nonce@,
        ApplyEditPlanOutcome::Applied(plan),
        request.plan_id@,
        state.nonce@,
    );
}

/// A plan that has to wait is reported as not committed, is owned again and keeps its
/// approval.
pub proof fn law_waiting_plan_is_reported_and_kept(
    context: &mut HandlerContext,
    request: &ApprovalRequest,
    state: &MutationApprovalState,
    waiting: EditNotReady,
    roots: &Vec<FilePath>,
    output: Result<StructuredOutput, McpError>,
)
    requires
        old(context)@.wf(),
        request.wf(old(context)@.session_id),
        old(context)@.plans.active.contains(request.plan_id@),
        call_ensures(
            finish_approved_plan,
            (context, request, state, Ok(ApplyEditPlanOutcome::NotReady(waiting)), roots),
            output,
        ),
    ensures
        output matches Ok(given) && {
            &&& member(given.value@, "status"@) == Some(Json::Text("not_ready"@))
            &&& member(given.value@, "committed"@) == Some(Json::Bool(false))
            &&& member(given.value@, "plan_id"@) == Some(Json::Text(waiting.plan_id@))
        },
        final(context)@.plans.owned.contains(request.plan_id@),
        final(context)@.approvals == old(context)@.approvals,
{
    let outcome = ApplyEditPlanOutcome::NotReady(waiting);
    let project = request.project_id@;
    law_waiting_answer_gives_the_result(apply_result(outcome, project, path_texts(roots@)));
    law_waiting_plan_is_tried_again(waiting, project, path_texts(roots@));
    law_outcome_settles_only_its_plan(
        old(context)@,
        request.plan_id@,
        state.nonce@,
        outcome,
        request.plan_id@,
        state.nonce@,
    );
}

/// A plan that met a conflict is reported as not committed and settled.
pub proof fn law_conflicting_plan_is_reported_and_settled(
    context: &mut HandlerContext,
    project_id: &ProjectId,
    plan_id: &PlanId,
    conflict: EditConflict,
    roots: &Vec<FilePath>,
    output: Result<StructuredOutput, McpError>,
)
    requires
        old(context)@.wf(),
        project_id@.len() > 0,
        old(context)@.plans.active.contains(plan_id@),
        call_ensures(
            finish_claimed_plan,
            (context, project_id, plan_id, Ok(ApplyEditPlanOutcome::Conflict(conflict)), roots),
            output,
        ),
    ensures
        output matches Ok(given) && {
            &&& member(given.value@, "status"@) == Some(Json::Text("conflict"@))
            &&& member(given.value@, "committed"@) == Some(Json::Bool(false))
            &&& member(given.value@, "reason"@) == Some(Json::Text(conflict.reason@))
            &&& member(given.value@, "plan_id"@) == Some(Json::Text(conflict.plan_id@))
        },
        !final(context)@.plans.owned.contains(plan_id@),
        final(context)@.plans.terminal.contains(plan_id@),
{
    let outcome = ApplyEditPlanOutcome::Conflict(conflict);
    law_conflict_answer_gives_the_result(
        apply_result(outcome, project_id@, path_texts(roots@)),
    );
    law_conflicting_plan_is_previewed_again(conflict, project_id@, path_texts(roots@));
    law_outcome_settles_only_its_plan(
        old(context)@,
        plan_id@,
        Seq::empty(),
        outcome,
        plan_id@,
        Seq::empty(),
    );
}

/// What failed is reported with its reason and leaves the session as it was.
pub proof fn law_failed_apply_leaves_the_session(
    context: &mut HandlerContext,
    project_id: &ProjectId,
    plan_id: &PlanId,
    reason: String,
    roots: &Vec<FilePath>,
    output: Result<StructuredOutput, McpError>,
)
    requires
        old(context)@.wf(),
        project_id@.len() > 0,
        call_ensures(
            finish_claimed_plan,
            (context, project_id, plan_id, Err(reason), roots),
            output,
        ),
    ensures
        output matches Err(error) && refuses(error, reason@),
        final(context)@ == old(context)@,
{
}

/// Whether an answer gives the first matches of a scan and says where the search
/// stands behind them.
pub open spec fn answers_search(
    value: Json,
    scan: LexicalSearchScan,
    max_bytes: nat,
    count: nat,
) -> bool {
    let next = scan.offset + count;
    &&& count <= scan.matches@.len()
    &&& member(value, "returned"@) == Some(json_count(count))
    &&& member(value, "total"@) == Some(json_count(scan.total_matches as nat))
    &&& next <= scan.total_matches ==> member(value, "remaining"@) == Some(
        json_count((scan.total_matches - next) as nat),
    )
    &&& next > scan.total_matches ==> member(value, "remaining"@) == Some(json_count(0))
    &&& member(value, "scanned_files"@) == Some(json_count(scan.scanned_files as nat))
    &&& member(value, "scanned_bytes"@) == Some(json_count(scan.scanned_bytes as nat))
    &&& member(value, "max_bytes"@) == Some(json_count(max_bytes))
    &&& member(value, "snapshot_identity"@) == Some(Json::Text(scan.snapshot_identity@))
    &&& next < scan.total_matches || count < scan.matches@.len() ==> {
        &&& member(value, "truncated"@) == Some(Json::Bool(true))
        &&& member(value, "next_cursor"@) == Some(
            Json::Text(scan.page_token@ + ":"@ + decimal(next as nat)),
        )
    }
    &&& next >= scan.total_matches && count == scan.matches@.len() ==> {
        &&& member(value, "truncated"@) == Some(Json::Bool(false))
        &&& member(value, "next_cursor"@) is None
    }
    &&& member(value, "matches"@) matches Some(Json::Array(shown)) && shown.len() == count
        && forall|i: int|
        0 <= i < count ==> gives_match(#[trigger] shown[i], scan.matches@[i])
}

/// Whether a value gives a lexical match, with its source or without.
pub open spec fn gives_match(value: Json, found: LexicalSearchMatch) -> bool {
    &&& member(value, "project_relative_path"@) == Some(Json::Text(found.project_relative_path@))
    &&& member(value, "content_hash"@) == Some(Json::Text(found.content_hash@))
    &&& member(value, "source_uri"@) == Some(Json::Text(found.source_uri@))
    &&& member(value, "byte_range"@) matches Some(range) && {
        &&& member(range, "start"@) == Some(json_count(found.byte_range.start as nat))
        &&& member(range, "end"@) == Some(json_count(found.byte_range.end as nat))
    }
    &&& member(value, "source"@) matches Some(source) ==> found.source matches Some(given)
        && source == keyed(given@)
}

/// The answer to a search gives the first matches of the scan, says how many of how many
/// these are, and names the next page exactly where something is left.
pub proof fn law_search_answer_leads_to_the_next_page(
    scan: LexicalSearchScan,
    max_bytes: usize,
    output: StructuredOutput,
)
    requires
        scan.offset + scan.matches@.len() <= usize::MAX,
        call_ensures(lexical_page_answer, (scan, max_bytes), Ok(output)),
    ensures
        exists|count: nat| #[trigger]
            answers_search(output.value@, scan, max_bytes as nat, count),
        output.legacy@ == json_text(output.value@),
{
    let fit = fitting_page(
        match_models(scan.matches@),
        scan.matches@.len(),
        scan_accounting(scan, max_bytes as nat),
    );
    assert(fit is Ok);
    let page = fit->Ok_0;
    law_scan_page_names_the_next_page(scan, max_bytes as nat);
    law_scan_page_gives_the_first_matches(scan, max_bytes as nat);
    law_page_answer_shows_the_page(page);
    let value = keyed(lexical_json(page));
    assert(output.value@ == value);
    let shown = member(value, "matches"@)->0->Array_0;
    assert forall|i: int| 0 <= i < page.returned implies gives_match(
        #[trigger] shown[i],
        scan.matches@[i],
    ) by {
        assert(shows_match(shown[i], page.matches[i]));
    }
    assert(answers_search(value, scan, max_bytes as nat, page.returned));
}

/// A search page takes no more than its caller allows, nor more than sixteen kilobytes.
pub proof fn law_search_page_is_capped(requested: usize, bytes: usize)
    requires
        call_ensures(effective_lexical_page_bytes, (requested,), bytes),
    ensures
        bytes <= requested,
        bytes <= 16384,
        bytes == requested || bytes == 16384,
{
}

/// A preview answers with its plan, and the session owns the plan from then on.
pub proof fn law_previewed_plan_is_shown_and_owned(
    context: &mut HandlerContext,
    artifact: &PreviewArtifact,
    project_id: &str,
    output: StructuredOutput,
)
    requires
        old(context)@.wf(),
        call_ensures(preview_answer, (context, artifact, project_id), output),
    ensures
        previews_plan(output.value@, *artifact, project_id@),
        output.legacy@ == json_text(output.value@),
        final(context)@.plans.owned.contains(artifact.plan.id@),
        final(context)@.approvals == old(context)@.approvals,
{
    law_preview_shows_its_plan(*artifact, project_id@);
    law_remembered_plan_is_owned(old(context)@.plans, artifact.plan.id@, artifact.plan.id@);
}

/// A preview of a generated edit answers with its plan where there is one, and the
/// session owns the plan. Where nothing changes it says so, and nothing is owned that
/// was not before.
pub proof fn law_generated_preview_is_shown_and_owned(
    context: &mut HandlerContext,
    supported: bool,
    artifact: &Option<PreviewArtifact>,
    project_id: &str,
    output: StructuredOutput,
)
    requires
        old(context)@.wf(),
        call_ensures(generated_preview_answer, (context, supported, artifact, project_id), output),
    ensures
        match *artifact {
            Some(artifact) => {
                &&& previews_plan(output.value@, artifact, project_id@)
                &&& final(context)@.plans.owned.contains(artifact.plan.id@)
            },
            None => {
                &&& member(output.value@, "supported"@) == Some(Json::Bool(supported))
                &&& member(output.value@, "changed"@) == Some(Json::Bool(false))
                &&& member(output.value@, "plan_id"@) is None
                &&& final(context)@ == old(context)@
            },
        },
{
    law_unchanged_preview_says_so(project_id@, supported);
    if let Some(artifact) = *artifact {
        law_preview_shows_its_plan(artifact, project_id@);
        law_remembered_plan_is_owned(old(context)@.plans, artifact.plan.id@, artifact.plan.id@);
    }
}

/// A preview of an edit that a server may not support says whether it does, besides the
/// plan.
pub proof fn law_supported_preview_is_shown_and_owned(
    context: &mut HandlerContext,
    supported: bool,
    artifact: &Option<PreviewArtifact>,
    project_id: &str,
    output: StructuredOutput,
)
    requires
        old(context)@.wf(),
        call_ensures(supported_preview_answer, (context, supported, artifact, project_id), output),
    ensures
        member(output.value@, "supported"@) == Some(Json::Bool(supported)),
        member(output.value@, "changed"@) == Some(Json::Bool(*artifact is Some)),
        match *artifact {
            Some(artifact) => {
                &&& previews_plan(output.value@, artifact, project_id@)
                &&& final(context)@.plans.owned.contains(artifact.plan.id@)
            },
            None => {
                &&& member(output.value@, "plan_id"@) is None
                &&& final(context)@ == old(context)@
            },
        },
{
    law_unchanged_preview_says_so(project_id@, supported);
    if let Some(artifact) = *artifact {
        law_supported_preview_shows_its_plan(artifact, project_id@, supported);
        law_remembered_plan_is_owned(old(context)@.plans, artifact.plan.id@, artifact.plan.id@);
    }
}

/// A structural preview shows every match with both of its ends, and its plan where it
/// has one.
pub proof fn law_structural_matches_are_shown(
    result: &StructuralPreview,
    project_id: &str,
    json: JsonValue,
)
    requires
        call_ensures(structural_preview_json, (result, project_id), json),
    ensures
        lists_matches(member(json@, "matches"@), result.matches@),
        result.artifact matches Some(artifact) ==> previews_plan(json@, artifact, project_id@),
        result.artifact is None ==> member(json@, "safe_to_apply"@) == Some(Json::Bool(false))
            && member(json@, "plan_id"@) is None,
{
    law_structural_preview_shows_its_matches(*result, project_id@);
}

/// A structural dialect goes by one of two names.
pub proof fn law_dialect_goes_by_its_name(
    value: &str,
    dialect: Result<StructuralDialect, McpError>,
)
    requires
        call_ensures(parse_structural_dialect, (value,), dialect),
    ensures
        dialect == Ok::<StructuralDialect, McpError>(StructuralDialect::RustAnalyzerSsr) <==> value@
            == "rust_analyzer_ssr"@,
        dialect == Ok::<StructuralDialect, McpError>(StructuralDialect::AstGrep) <==> value@
            == "ast_grep"@,
        dialect matches Err(error) ==> refuses(
            error,
            "unsupported structural dialect: "@ + value@
                + "; expected rust_analyzer_ssr or ast_grep"@,
        ),
{
    reveal_strlit("rust_analyzer_ssr");
    reveal_strlit("ast_grep");
    assert("rust_analyzer_ssr"@.len() == 17);
    assert("ast_grep"@.len() == 8);
    assert(crate::previews::dialect_name(StructuralDialect::RustAnalyzerSsr)
        == "rust_analyzer_ssr"@);
    assert(crate::previews::dialect_name(StructuralDialect::AstGrep) == "ast_grep"@);
}

/// A client takes hints about caching from the version on that has them.
pub proof fn law_cache_hints_come_with_their_version(version: Option<&str>, supported: bool)
    requires
        call_ensures(supports_cache_hints, (version,), supported),
    ensures
        version is None ==> !supported,
        version matches Some(given) ==> (supported <==> given@ == "2026-07-28"@ || text_before(
            "2026-07-28"@,
            given@,
        )),
{
    if let Some(given) = version {
        crate::text::lemma_text_before_total(given@, "2026-07-28"@);
        if text_before(given@, "2026-07-28"@) && text_before("2026-07-28"@, given@) {
            crate::text::lemma_text_before_transitive(given@, "2026-07-28"@, given@);
        }
    }
}

/// A client can be asked by a form where it supports forms, or names neither forms nor
/// links; it can be asked for an approval where it also answers in a further round.
pub proof fn law_client_is_asked_as_it_declares(
    elicitation: Option<ElicitationSupport>,
    supports_mrtr: bool,
    features: ClientFeatures,
    approves: bool,
)
    requires
        call_ensures(ClientFeatures::declared, (elicitation, supports_mrtr), features),
        call_ensures(ClientFeatures::supports_mutation_approval, (&features,), approves),
    ensures
        approves <==> supports_mrtr && (elicitation matches Some(support) && (support.form
            || !support.url)),
{
}

/// A tool call is recorded as it went: a protocol error where it was refused, a tool
/// error where the tool says so, a success where neither holds.
pub proof fn law_call_is_recorded_as_it_went(
    result: &Result<CallToolResponse, McpError>,
    cancelled: bool,
    record: RequestRecord,
)
    requires
        call_ensures(tool_call_record, (result, cancelled), record),
    ensures
        record.cancelled == cancelled,
        record.protocol_error <==> result is Err,
        record.tool_error <==> (*result matches Ok(CallToolResponse::Complete(done))
            && done.is_error == Some(true)),
        record.success <==> !record.protocol_error && !record.tool_error,
        *result matches Ok(CallToolResponse::Complete(done)) ==> (
        record.result_bytes matches Some(bytes) && bytes == json_len(call_result_json(done))),
        result is Err ==> record.result_bytes is None && record.metrics is None,
{
}

/// Any request is recorded by whether it succeeded, failed in the tool or was refused.
pub proof fn law_request_is_recorded_as_it_went(
    succeeded: bool,
    tool_error: bool,
    cancelled: bool,
    record: RequestRecord,
)
    requires
        call_ensures(request_record, (succeeded, tool_error, cancelled), record),
    ensures
        record.success <==> succeeded && !tool_error,
        record.protocol_error <==> !succeeded,
        record.tool_error == tool_error,
        record.cancelled == cancelled,
        record.result_bytes is None,
        record.metrics is None,
{
}

/// A label tells the scheme of a reference and nothing of its path.
pub proof fn law_label_is_the_scheme(scheme: Seq<char>, path: Seq<char>, uri: &str, label: String)
    requires
        call_ensures(resource_label, (uri,), label),
    ensures
        !scheme.contains(':') && uri@ == scheme + seq![':'] + path ==> label@ == scheme,
        !uri@.contains(':') ==> label@ == "resource"@,
{
    crate::text::law_text_is_parted_at_the_first_mark(uri@, ':');
    if !scheme.contains(':') && uri@ == scheme + seq![':'] + path {
        crate::session::lemma_split(scheme, ':', path);
    }
}

/// A result that is encoded is given with its text; one that failed may be retried.
pub proof fn law_tool_result_is_encoded(
    result: Result<JsonValue, String>,
    output: Result<StructuredOutput, McpError>,
)
    requires
        call_ensures(encode_tool_result, (result,), output),
    ensures
        match result {
            Ok(value) => output matches Ok(given) && given.value@ == value@ && given.legacy@
                == json_text(value@) && given.summary is None,
            Err(message) => output matches Err(error) && error.code == ErrorCode::InternalError
                && error.message@ == message@ && error.data is Some,
        },
{
}

/// A page of the project list gives thirty-two projects from its cursor on, or those
/// that are left, and names the next page exactly where more are left.
pub proof fn law_project_list_is_paged(
    projects: &Vec<ProjectIdentity>,
    cursor: Option<&str>,
    json: JsonValue,
)
    requires
        call_ensures(project_list, (projects, cursor), Ok(json)),
    ensures
        exists|start: nat, end: nat|
            {
                &&& start <= end <= projects@.len()
                &&& end < projects@.len() ==> end == start + 32
                &&& cursor is None ==> start == 0
                &&& cursor matches Some(given) ==> unsigned_value(given@, usize::MAX as nat)
                    == Some(start)
                &&& #[trigger] gives_projects(json@, projects@, start, end)
            },
{
    let bounds = list_page(
        projects@.len(),
        32,
        optional_cursor(cursor),
        "project_list"@,
        "the project list"@,
        true,
    );
    law_list_page_is_full(
        projects@.len(),
        32,
        optional_cursor(cursor),
        "project_list"@,
        "the project list"@,
        true,
    );
    assert(bounds is Ok);
    let page = bounds->Ok_0;
    assert(page.start <= page.end);
    law_project_page_gives_its_projects(projects@, page);
    let shown = member(json@, "projects"@)->0->Array_0;
    assert forall|i: int| 0 <= i < shown.len() implies member(
        #[trigger] shown[i],
        "project_id"@,
    ) == Some(Json::Text(projects@[page.start + i].id@)) by {
        crate::status::law_project_is_listed(projects@[page.start + i]);
    }
    assert(gives_projects(json@, projects@, page.start, page.end));
}

/// Whether an answer gives the projects from one place to another.
pub open spec fn gives_projects(
    value: Json,
    projects: Seq<ProjectIdentity>,
    start: nat,
    end: nat,
) -> bool {
    &&& member(value, "projects"@) matches Some(Json::Array(shown)) && shown.len() == end - start
        && forall|i: int|
        0 <= i < shown.len() ==> member(#[trigger] shown[i], "project_id"@) == Some(
            Json::Text(projects[start + i].id@),
        )
    &&& member(value, "returned"@) == Some(json_count((end - start) as nat))
    &&& end < projects.len() ==> {
        &&& member(value, "truncated"@) == Some(Json::Bool(true))
        &&& member(value, "next_cursor"@) == Some(Json::Text(decimal(end)))
    }
    &&& end >= projects.len() ==> {
        &&& member(value, "truncated"@) == Some(Json::Bool(false))
        &&& member(value, "next_cursor"@) == Some(Json::Null)
    }
}

/// The health of the daemon is told with everything else that is known of it.
pub proof fn law_health_answer_tells_the_daemon(snapshot: &DaemonSnapshot, json: JsonValue)
    requires
        call_ensures(health, (snapshot,), json),
    ensures
        tells_daemon(json@, *snapshot),
        snapshot.project_counts.failed > 0 ==> member(json@, "status"@) == Some(
            Json::Text("failed"@),
        ),
        snapshot.project_counts.failed == 0 && snapshot.project_counts.degraded == 0
            && snapshot.project_counts.restarting == 0 && snapshot.project_counts.stopping == 0
            && snapshot.persistence.last_error is None ==> member(json@, "status"@) == Some(
            Json::Text("healthy"@),
        ),
        snapshot.project_counts.failed == 0 && (snapshot.project_counts.degraded > 0
            || snapshot.project_counts.restarting > 0 || snapshot.project_counts.stopping > 0
            || snapshot.persistence.last_error is Some) ==> member(json@, "status"@) == Some(
            Json::Text("degraded"@),
        ),
{
    let status = crate::status::health_name(crate::status::health_of(*snapshot));
    let fields = no_fields().push(("status"@, Json::Text(status)));
    law_daemon_is_told(fields, *snapshot, "status"@);
    law_health_follows_the_projects(*snapshot);
    lemma_last_pushed();
}

/// The status of the server is told with its version and how long it has run.
pub proof fn law_server_status_tells_the_daemon(
    snapshot: &DaemonSnapshot,
    version: &str,
    uptime_seconds: u64,
    json: JsonValue,
)
    requires
        call_ensures(server_status, (snapshot, version, uptime_seconds), json),
    ensures
        tells_daemon(json@, *snapshot),
        member(json@, "version"@) == Some(Json::Text(version@)),
        member(json@, "uptime_seconds"@) == Some(json_count(uptime_seconds as nat)),
{
    reveal_strlit("version");
    reveal_strlit("uptime_seconds");
    assert("version"@.len() == 7);
    assert("uptime_seconds"@.len() == 14);
    let fields = no_fields().push(("version"@, Json::Text(version@))).push(
        ("uptime_seconds"@, json_count(uptime_seconds as nat)),
    );
    law_daemon_is_told(fields, *snapshot, "version"@);
    law_daemon_is_told(fields, *snapshot, "uptime_seconds"@);
    lemma_last_pushed();
}

/// The removal of a project is confirmed by its identifier.
pub proof fn law_removal_is_confirmed(project_id: &ProjectId, json: JsonValue)
    requires
        call_ensures(project_removed_json, (project_id,), json),
    ensures
        member(json@, "project_id"@) == Some(Json::Text(project_id@)),
        member(json@, "removed"@) == Some(Json::Bool(true)),
{
    reveal_strlit("project_id");
    reveal_strlit("removed");
    assert("project_id"@.len() == 10);
    assert("removed"@.len() == 7);
    lemma_last_pushed();
    lemma_filled_members(
        no_fields().push(("project_id"@, Json::Text(project_id@))).push(
            ("removed"@, Json::Bool(true)),
        ),
    );
}

/// The subscriptions of a session are listed as they are.
pub proof fn law_subscriptions_are_listed(subscriptions: &ResourceSubscriptions, json: JsonValue)
    requires
        subscriptions.wf(),
        call_ensures(subscription_list, (subscriptions,), json),
    ensures
        lists_texts(member(json@, "subscriptions"@), texts(subscriptions.uris@)),
{
    lemma_entry_pushed();
    law_texts_stay_in_place(texts(subscriptions.uris@));
}

/// A subscription is added where it is known already or the limit leaves room; it is
/// then watched for its project. Else it is refused with the limit, and nothing changes.
pub proof fn law_subscription_is_added_within_the_limit(
    subscriptions: &mut ResourceSubscriptions,
    sink: &mut SessionEventSink,
    project_id: ProjectId,
    uri: String,
    attached: Result<(), McpError>,
)
    requires
        old(subscriptions).wf(),
        call_ensures(attach_subscription, (subscriptions, sink, project_id, uri), attached),
    ensures
        attached is Ok <==> old(subscriptions)@.contains(uri@) || old(subscriptions).uris@.len()
            < old(subscriptions).limit,
        attached is Ok ==> {
            &&& final(subscriptions)@.contains(uri@)
            &&& final(sink)@.contains((project_id@, uri@))
        },
        attached matches Err(error) ==> {
            &&& refuses(
                error,
                "resource subscription limit reached: "@ + decimal(
                    old(subscriptions).limit as nat,
                ),
            )
            &&& final(subscriptions)@ == old(subscriptions)@
            &&& final(sink)@ == old(sink)@
        },
{
}

/// Forwarding starts unless it is running.
pub proof fn law_forwarding_runs_once(task_finished: Option<bool>, starts: bool)
    requires
        call_ensures(starts_forwarding, (task_finished,), starts),
    ensures
        starts <==> task_finished is None || task_finished == Some(true),
{
    if let Some(finished) = task_finished {
        assert(finished == true || finished == false);
    }
}

/// A notification that could not be delivered ends the forwarding; one that was leaves
/// it as it was.
pub proof fn law_undelivered_notification_disconnects(
    forwarding: &mut Forwarding,
    delivered: bool,
)
    requires
        call_ensures(Forwarding::notified, (forwarding, delivered), ()),
    ensures
        !delivered ==> final(forwarding).outcome == ForwardOutcome::Disconnect,
        delivered ==> final(forwarding).outcome == old(forwarding).outcome,
        final(forwarding).uris == old(forwarding).uris,
        final(forwarding).next == old(forwarding).next,
{
}

/// A source that does not fit is tried again within half the budget, until nothing is
/// left to halve; one that fits is given as it is.
pub proof fn law_source_is_halved_until_it_fits(
    frame: SourceFrame,
    budget: usize,
    step: Result<SourceStep, McpError>,
)
    requires
        call_ensures(source_frame_step, (frame, budget), step),
    ensures
        frame.uri matches Err(reason) ==> (step matches Err(error) && error.code
            == ErrorCode::InternalError && error.message@ == reason@),
        step matches Ok(SourceStep::Retry(next)) ==> next > 0 && 2 * next <= budget && budget < 2
            * next + 2,
        step matches Ok(SourceStep::Done(result)) ==> (frame.uri matches Ok(uri) && result.uri@
            == uri@ && result.text@ == frame.text@),
        frame.uri is Ok && step is Err ==> budget < 2,
{
}

/// The first item stands for a symbol that was given by its handle; without one the
/// symbol cannot be called.
pub proof fn law_first_item_is_called(items: Vec<JsonValue>, item: Result<JsonValue, McpError>)
    requires
        call_ensures(first_call_item, (items,), item),
    ensures
        items@.len() > 0 ==> (item matches Ok(given) && given@ == items@[0]@),
        items@.len() == 0 ==> (item matches Err(error) && refuses(
            error,
            "symbol handle does not resolve to a callable item"@,
        )),
{
}

/// A rename asks for what its request says, and is not gated.
pub proof fn law_rename_asks_for_its_request(
    params: RenamePreviewParams,
    edit: Result<GeneratedEdit, McpError>,
)
    requires
        call_ensures(rename_preview, (params,), edit),
    ensures
        params.project_id@.len() == 0 ==> (edit matches Err(error) && refuses(
            error,
            "project id must not be empty"@,
        )),
        params.project_id@.len() > 0 && params.position_encoding is None ==> edit is Ok,
        edit matches Ok(edit) ==> {
            &&& edit.project_id@ == params.project_id@
            &&& !edit.capability_gated
            &&& edit.request matches GeneratedEditRequest::Rename {
                file_path,
                line,
                character,
                new_name,
            } && file_path@ == params.file_path@ && line == params.line && character
                == params.character && new_name@ == params.new_name@
        },
{
}

/// A formatting asks for the range that its request names, gated, or for the whole
/// file, not gated.
pub proof fn law_formatting_asks_for_its_request(
    params: FormatPreviewParams,
    edit: Result<GeneratedEdit, McpError>,
)
    requires
        call_ensures(format_preview, (params,), edit),
    ensures
        edit matches Ok(edit) ==> {
            &&& edit.project_id@ == params.project_id@
            &&& edit.capability_gated <==> params.range is Some
            &&& match params.range {
                Some(range) => edit.request matches GeneratedEditRequest::RangeFormat {
                    file_path,
                    start,
                    end,
                    tab_size,
                    insert_spaces,
                } && file_path@ == params.file_path@ && start == (
                    range.start_line,
                    range.start_character,
                ) && end == (range.end_line, range.end_character) && tab_size == params.tab_size
                    && insert_spaces == params.insert_spaces,
                None => edit.request matches GeneratedEditRequest::Format {
                    file_path,
                    tab_size,
                    insert_spaces,
                } && file_path@ == params.file_path@ && tab_size == params.tab_size
                    && insert_spaces == params.insert_spaces,
            }
        },
{
}

/// A code action is asked for by its project and its identifier, neither of them empty.
pub proof fn law_code_action_is_named(
    params: &CodeActionPreviewParams,
    request: Result<CodeActionRequest, McpError>,
)
    requires
        call_ensures(code_action_preview, (params,), request),
    ensures
        request matches Ok(request) ==> {
            &&& request.project_id@ == params.project_id@
            &&& request.action_id@ == params.action_id@
            &&& params.project_id@.len() > 0
            &&& params.action_id@.len() > 0
        },
        params.project_id@.len() > 0 && params.action_id@.len() == 0 ==> (
        request matches Err(error) && refuses(error, "plan id must not be empty"@)),
        params.project_id@.len() == 0 ==> (request matches Err(error) && refuses(
            error,
            "project id must not be empty"@,
        )),
{
}

/// Whether the text of an answer is a page of a content: the bytes from an offset on, with
/// the digest and the size of the whole, and the next page exactly where bytes are left.
pub open spec fn is_page_text(
    text: Seq<char>,
    content: Seq<char>,
    digest: Seq<char>,
    offset: int,
) -> bool {
    exists|page: ReadModel|
        {
            &&& text == #[trigger] json_text(read_json(page))
            &&& page.snapshot_hash == Some(digest)
            &&& page.total_bytes == Some(encode_utf8(content).len())
            &&& page.offset_bytes == Some(offset as nat)
            &&& 0 <= offset <= offset + returned(page) <= encode_utf8(content).len()
            &&& returned(page) <= 8192
            &&& page.returned_bytes is Some
            &&& encode_utf8(page.text) == encode_utf8(content).subrange(
                offset,
                offset + returned(page),
            )
            &&& page.remaining_bytes == Some(
                (encode_utf8(content).len() - offset - returned(page)) as nat,
            )
            &&& page.next_uri is Some <==> offset + returned(page) < encode_utf8(content).len()
        }
}

proof fn lemma_page_text(kind: PageKindModel, hash: Seq<char>, content: Seq<char>, offset: int)
    ensures
        bounded_page(kind, hash, content, offset) matches Ok(page) ==> is_page_text(
            json_text(read_json(page)),
            content,
            hash,
            offset,
        ),
{
    law_page_is_a_slice(kind, hash, content, offset);
    law_page_is_labelled(kind, hash, content, offset);
    if let Ok(page) = bounded_page(kind, hash, content, offset) {
        assert(json_text(read_json(page)) == json_text(read_json(page)));
    }
}

/// A diff is read page by page, under its own digest; a diff that cannot be had is
/// refused with the reason.
pub proof fn law_diff_is_read_by_pages(
    project_id: &ProjectId,
    plan_id: &PlanId,
    offset_bytes: usize,
    uri: &str,
    diff: Result<String, String>,
    supports_cache_hints: bool,
    result: Result<ReadResourceResult, McpError>,
)
    requires
        call_ensures(
            read_edit_diff_resource,
            (project_id, plan_id, offset_bytes, uri, diff, supports_cache_hints),
            result,
        ),
    ensures
        result matches Ok(given) ==> {
            &&& diff matches Ok(content) && is_page_text(
                given.contents@[0].text@,
                content@,
                sha256_text(content@),
                offset_bytes as int,
            )
            &&& given.contents@.len() == 1
            &&& given.contents@[0].uri@ == uri@
        },
        diff matches Err(reason) ==> (result matches Err(error) && refuses(error, reason@)),
{
    if let Ok(content) = diff {
        lemma_page_text(
            PageKindModel::EditDiff { project: project_id@, plan: plan_id@ },
            sha256_text(content@),
            content@,
            offset_bytes as int,
        );
    }
}

/// The detail of an applied edit is read page by page while it is kept.
pub proof fn law_edit_result_is_read_by_pages(
    project_id: &ProjectId,
    plan_id: &PlanId,
    offset_bytes: usize,
    uri: &str,
    detail: Option<String>,
    supports_cache_hints: bool,
    result: Result<ReadResourceResult, McpError>,
)
    requires
        call_ensures(
            read_applied_edit_result_resource,
            (project_id, plan_id, offset_bytes, uri, detail, supports_cache_hints),
            result,
        ),
    ensures
        result matches Ok(given) ==> {
            &&& detail matches Some(content) && is_page_text(
                given.contents@[0].text@,
                content@,
                sha256_text(content@),
                offset_bytes as int,
            )
            &&& given.contents@.len() == 1
            &&& given.contents@[0].uri@ == uri@
        },
        detail is None ==> (result matches Err(error) && refuses(
            error,
            "stale_resource: applied edit result is no longer retained"@,
        )),
{
    if let Some(content) = detail {
        lemma_page_text(
            PageKindModel::AppliedEditResult { project: project_id@, plan: plan_id@ },
            sha256_text(content@),
            content@,
            offset_bytes as int,
        );
    }
}

/// The detail of an approval is read page by page while it is kept: it is the whole
/// plan as JSON text.
pub proof fn law_approval_is_read_by_pages(
    project_id: &ProjectId,
    plan_id: &PlanId,
    offset_bytes: usize,
    uri: &str,
    summary: &Option<EditPlanApprovalSummary>,
    supports_cache_hints: bool,
    result: Result<ReadResourceResult, McpError>,
)
    requires
        call_ensures(
            read_edit_approval_resource,
            (project_id, plan_id, offset_bytes, uri, summary, supports_cache_hints),
            result,
        ),
    ensures
        result matches Ok(given) ==> {
            &&& *summary matches Some(plan) && is_page_text(
                given.contents@[0].text@,
                json_text(approval_detail(plan)),
                sha256_text(json_text(approval_detail(plan))),
                offset_bytes as int,
            )
            &&& given.contents@[0].uri@ == uri@
        },
        *summary is None ==> (result matches Err(error) && refuses(
            error,
            "stale_resource: edit approval is no longer retained"@,
        )),
{
    if let Some(plan) = *summary {
        let detail = json_text(approval_detail(plan));
        lemma_page_text(
            PageKindModel::EditApproval { project: project_id@, plan: plan_id@ },
            sha256_text(detail),
            detail,
            offset_bytes as int,
        );
    }
}

/// An event that is kept is read whole; one that is not is refused as stale.
pub proof fn law_event_is_read_while_kept(
    uri: &str,
    record: &Option<ProjectEventRecord>,
    supports_cache_hints: bool,
    result: Result<ReadResourceResult, McpError>,
)
    requires
        call_ensures(read_project_event_resource, (uri, record, supports_cache_hints), result),
    ensures
        result is Ok <==> *record is Some,
        *record matches Some(kept) ==> (result matches Ok(given) && given.contents@.len() == 1
            && given.contents@[0].uri@ == uri@ && given.contents@[0].text@ == json_text(
            record_json(kept),
        )),
        *record is None ==> (result matches Err(error) && refuses(
            error,
            "stale_resource: project event is no longer retained; reread project events"@,
        )),
{
}

/// A resource that belongs to a plan is read only by a session that knows the plan.
pub proof fn law_plans_of_others_are_not_read(
    context: &HandlerContext,
    plan_id: &PlanId,
    diff: Result<(), McpError>,
    approval: Result<(), McpError>,
    applied: Result<(), McpError>,
)
    requires
        call_ensures(edit_diff_access, (context, plan_id), diff),
        call_ensures(edit_approval_access, (context, plan_id), approval),
        call_ensures(applied_edit_result_access, (context, plan_id), applied),
    ensures
        diff is Ok <==> context@.plans.owned.contains(plan_id@),
        approval is Ok <==> context@.plans.owned.contains(plan_id@),
        applied is Ok <==> {
            ||| context@.plans.owned.contains(plan_id@)
            ||| context@.plans.active.contains(plan_id@)
            ||| context@.plans.terminal.contains(plan_id@)
        },
{
    assert(context@.plans.terminal.to_set().contains(plan_id@)
        <==> context@.plans.terminal.contains(plan_id@));
}

/// A tool that reads semantic resources reads sources and deferred results, and nothing
/// else that a session can refer to.
pub proof fn law_semantic_resources_are_sources_and_results(
    uri: &str,
    resource: Result<SemanticResource, McpError>,
)
    requires
        call_ensures(read_semantic_resource, (uri,), resource),
    ensures
        resource is Ok <==> (session_reference(uri@) matches Ok(named) && (named is Source
            || named is Deferred)),
        resource matches Ok(SemanticResource::Deferred(deferred)) ==> session_reference(uri@)
            == Ok::<ResourceModel, ResourceUriError>(
            ResourceModel::Deferred(deferred.token@, deferred.offset_bytes as nat),
        ),
        resource matches Ok(SemanticResource::Source(source)) ==> session_reference(uri@) == Ok::<
            ResourceModel,
            ResourceUriError,
        >(ResourceModel::Source(source.path@, source.selectors@)),
        (session_reference(uri@) matches Ok(named) && named !is Source && named !is Deferred) ==> (
        resource matches Err(error) && refuses(
            error,
            "read_semantic_resource accepts only mcpls-source:// or mcpls-deferred:// references"@,
        )),
{
}

/// What a session stops listening to is its subscription, under the reference that it
/// subscribed with; other subscriptions stay.
pub proof fn law_unsubscribing_ends_one_subscription(
    subscriptions: &mut ResourceSubscriptions,
    sink: &mut SessionEventSink,
    uri: &str,
    emptied: Result<Vec<ProjectId>, McpError>,
    other: Seq<char>,
)
    requires
        old(subscriptions).wf(),
        call_ensures(unsubscribe, (subscriptions, sink, uri), emptied),
    ensures
        emptied is Ok <==> session_reference(uri@) is Ok,
        session_reference(uri@) matches Ok(resource) ==> {
            &&& !final(subscriptions)@.contains(subscribed_uri(uri@, resource))
            &&& other != subscribed_uri(uri@, resource) ==> (final(subscriptions)@.contains(other)
                <==> old(subscriptions)@.contains(other))
            &&& !exists|project: Seq<char>| #[trigger]
                final(sink)@.contains((project, subscribed_uri(uri@, resource)))
        },
        session_reference(uri@) is Err ==> final(subscriptions)@ == old(subscriptions)@
            && final(sink)@ == old(sink)@,
{
}

/// A request to listen is granted for the references that can be read; where none can,
/// nothing is listened to.
pub proof fn law_listening_is_granted_for_readable_references(
    requested: &Option<Vec<String>>,
    accepted: Option<Vec<String>>,
)
    requires
        call_ensures(accepted_subscription_filter, (requested,), accepted),
    ensures
        *requested is None ==> accepted is None,
        *requested matches Some(asked) ==> {
            &&& accepted matches Some(kept) ==> kept@.len() > 0 && forall|uri: Seq<char>| #[trigger]
                texts(kept@).contains(uri) <==> texts(asked@).contains(uri) && session_reference(
                    uri,
                ) is Ok
            &&& accepted is None ==> forall|i: int|
                0 <= i < asked@.len() ==> session_reference((#[trigger] asked@[i])@) is Err
        },
{
    if let Some(asked) = *requested {
        assert forall|uri: Seq<char>| #[trigger]
            accepted_resources(texts(asked@)).contains(uri) <==> texts(asked@).contains(uri)
                && session_reference(uri) is Ok by {
            law_accepted_resources_are_readable(texts(asked@), uri);
        }
        if let Some(kept) = accepted {
            assert(texts(kept@).len() == kept@.len());
        } else {
            assert forall|i: int| 0 <= i < asked@.len() implies session_reference(
                (#[trigger] asked@[i])@,
            ) is Err by {
                assert(texts(asked@)[i] == asked@[i]@);
                assert(texts(asked@).contains(asked@[i]@));
                if session_reference(asked@[i]@) is Ok {
                    assert(accepted_resources(texts(asked@)).contains(asked@[i]@));
                }
            }
        }
    }
}

/// The tools are listed twelve to a page, for everyone, and not kept; a page names the
/// next one exactly where tools are left.
pub proof fn law_tools_are_listed_by_pages(
    registered: Vec<Tool>,
    cursor: Option<&str>,
    supports_cache_hints: bool,
    result: Result<ListToolsResult, McpError>,
)
    requires
        call_ensures(list_tools, (registered, cursor, supports_cache_hints), result),
    ensures
        result matches Ok(given) ==> {
            let all = catalog(tool_models(registered@));
            &&& given.tools@.len() <= 12
            &&& given.next_cursor is Some ==> given.tools@.len() == 12
            &&& cursor is None ==> tool_models(given.tools@) == all.take(
                given.tools@.len() as int,
            ) && (given.next_cursor is Some <==> given.tools@.len() < all.len())
            &&& supports_cache_hints ==> given.cache_scope == Some(CacheScope::Public)
                && given.ttl_ms == Some(0u64)
            &&& !supports_cache_hints ==> given.cache_scope is None && given.ttl_ms is None
        },
{
    let all = catalog(tool_models(registered@));
    law_list_page_is_full(
        all.len(),
        12,
        optional_cursor(cursor),
        "tools/list"@,
        "the catalog"@,
        false,
    );
    if let Ok(given) = result {
        let page = list_page(
            all.len(),
            12,
            optional_cursor(cursor),
            "tools/list"@,
            "the catalog"@,
            false,
        )->Ok_0;
        assert(page.start <= page.end <= all.len());
        assert(tool_models(given.tools@).len() == given.tools@.len());
        assert(tool_models(given.tools@).len() == page.end - page.start);
        if cursor is None {
            assert(page.start == 0);
            assert(all.subrange(0, page.end as int) =~= all.take(page.end as int));
        }
        assert(given.next_cursor is Some <==> page.next is Some);
    }
}

/// The resources of a session are listed sixty-four to a page, for this session alone.
pub proof fn law_resources_are_listed_by_pages(
    documents: &Vec<OpenDocument>,
    projects: &Vec<ProjectIdentity>,
    cursor: Option<&str>,
    supports_cache_hints: bool,
    result: Result<ListResourcesResult, McpError>,
)
    requires
        call_ensures(list_resources, (documents, projects, cursor, supports_cache_hints), result),
    ensures
        cursor is None ==> result is Ok,
        result matches Ok(given) ==> {
            &&& given.resources@.len() <= 64
            &&& given.next_cursor is Some ==> given.resources@.len() == 64
            &&& supports_cache_hints ==> given.cache_scope == Some(CacheScope::Private)
            &&& !supports_cache_hints ==> given.cache_scope is None && given.ttl_ms is None
        },
{
    let all = session_resources(documents@, projects@);
    law_list_page_is_full(
        all.len(),
        64,
        optional_cursor(cursor),
        "resources/list"@,
        "the catalog"@,
        true,
    );
    if let Ok(given) = result {
        let page = list_page(
            all.len(),
            64,
            optional_cursor(cursor),
            "resources/list"@,
            "the catalog"@,
            true,
        )->Ok_0;
        assert(page.start <= page.end <= all.len());
        assert(resource_models(given.resources@).len() == given.resources@.len());
        assert(resource_models(given.resources@).len() == page.end - page.start);
        assert(given.next_cursor is Some <==> page.next is Some);
    }
}

/// A structural preview is shown inline exactly where it takes at most sixteen
/// kilobytes. Else its matches and the details of its plan are deferred.
pub proof fn law_long_preview_is_deferred(
    project_id: &str,
    result: &StructuralPreview,
    answer: Result<StructuralAnswer, McpError>,
)
    requires
        call_ensures(bounded_structural_preview_json, (project_id, result), answer),
    ensures
        answer matches Ok(StructuralAnswer::Inline(json)) ==> {
            &&& json_len(json@) <= 16384
            &&& lists_matches(member(json@, "matches"@), result.matches@)
        },
        answer matches Ok(StructuralAnswer::Deferred { inventory, details }) ==> {
            &&& member(inventory@, "match_count"@) == Some(json_count(result.matches@.len()))
            &&& member(inventory@, "file_count"@) == Some(json_count(result.matched_files@.len()))
            &&& details is Some <==> result.artifact is Some
            &&& result.artifact matches Some(artifact) ==> previews_plan(
                details->0@,
                artifact,
                project_id@,
            )
        },
{
    law_structural_preview_shows_its_matches(*result, project_id@);
    crate::previews::law_inventory_lists_everything(*result);
    if let Some(artifact) = result.artifact {
        law_preview_shows_its_plan(artifact, project_id@);
    }
}

/// What is sealed can be opened for five minutes, in the context it was sealed for.
pub proof fn law_seal_holds_five_minutes(
    state: &MutationApprovalState,
    associated_data: &Vec<u8>,
    request: SealingRequest,
)
    requires
        call_ensures(sealing_request, (state, associated_data), request),
    ensures
        request.ttl_seconds == 300,
        request.context@ == associated_data@,
        request.payload@ == state_payload(state@),
{
}

/// A search for symbols asks one query, or several without a page.
pub proof fn law_symbol_search_is_planned(
    params: WorkspaceSymbolParams,
    plan: Result<WorkspaceSymbolPlan, McpError>,
)
    requires
        call_ensures(workspace_symbol_search, (params,), plan),
    ensures
        plan matches Ok(WorkspaceSymbolPlan::One { project_id, request }) ==> {
            &&& project_id@ == params.project_id@
            &&& params.queries@.len() == 0
            &&& params.query matches Some(query) && request.query@ == query@
            &&& request.max_items == params.limit
            &&& request.max_bytes == params.max_bytes
            &&& 1 <= params.limit <= 1000
            &&& 4096 <= params.max_bytes <= 1048576
            &&& request.page_token == params.page_token
        },
        plan matches Ok(WorkspaceSymbolPlan::Many { project_id, batch }) ==> {
            &&& project_id@ == params.project_id@
            &&& 1 <= params.queries@.len() <= 32
            &&& params.query is None && params.page_token is None
            &&& batch.queries@ == params.queries@
            &&& batch.max_items == params.limit
            &&& batch.max_bytes == params.max_bytes
        },
        params.queries@.len() == 0 && params.query is None ==> (plan matches Err(error) && refuses(
            error,
            "query or queries is required"@,
        )),
{
    crate::symbols::law_symbol_search_asks_one_or_many(params);
    crate::symbols::law_symbol_batch_is_the_search(params);
    crate::symbols::law_symbol_batch_is_within_bounds(crate::symbols::symbol_batch(params));
    crate::symbols::law_refused_batch_is_a_failed_operation(crate::symbols::symbol_batch(params));
}

/// A lexical search is planned as it was asked.
pub proof fn law_lexical_search_is_planned(
    params: LexicalSearchParams,
    pattern_error: Option<String>,
    glob_error: Option<String>,
    plan: Result<LexicalSearchPlan, McpError>,
)
    requires
        call_ensures(plan_lexical_search, (params, pattern_error, glob_error), plan),
    ensures
        plan is Ok ==> {
            &&& params.max_files > 0 && params.max_matches > 0
            &&& 4096 <= params.max_bytes <= 1048576
            &&& params.query is Some <==> params.queries@.len() == 0
            &&& pattern_error is None && glob_error is None
            &&& params.project_id@.len() > 0
        },
        plan matches Ok(LexicalSearchPlan::One { query, page_token, scope, max_bytes, .. }) ==> {
            &&& params.query matches Some(asked) ==> query@ == asked@
            &&& params.query is None ==> query@ == params.queries@[0]@
            &&& page_token is Some <==> params.page_token is Some
            &&& scope.max_matches == params.max_matches
            &&& max_bytes <= params.max_bytes && max_bytes <= 16384
        },
        plan matches Ok(LexicalSearchPlan::Many { queries, max_bytes, .. }) ==> {
            &&& queries@.len() == params.queries@.len()
            &&& forall|i: int|
                0 <= i < queries@.len() ==> (#[trigger] queries@[i])@ == params.queries@[i]@
            &&& max_bytes <= params.max_bytes && max_bytes <= 16384
        },
{
    law_lexical_request_is_checked(
        params,
        optional_text(pattern_error),
        optional_text(glob_error),
    );
    if let Ok(planned) = plan {
        law_planned_search_runs_the_request(planned, params);
    }
}

/// The events of a project are read in order, with where to go on.
pub proof fn law_events_answer_leads_on(
    project_id: &ProjectId,
    snapshot: &ProjectEventSnapshot,
    json: JsonValue,
)
    requires
        call_ensures(project_events_json, (project_id, snapshot), json),
    ensures
        member(json@, "next_cursor"@) == Some(json_count(snapshot.next_sequence as nat)),
        member(json@, "truncated"@) == Some(Json::Bool(snapshot.truncated)),
        member(json@, "resync_required"@) == Some(Json::Bool(snapshot.resync_required)),
        member(json@, "returned_events"@) == Some(json_count(snapshot.events@.len())),
        member(json@, "events"@) matches Some(Json::Array(shown)) && shown.len()
            == snapshot.events@.len() && forall|i: int|
            0 <= i < shown.len() ==> member(#[trigger] shown[i], "sequence"@) == Some(
                json_count(snapshot.events@[i].sequence as nat),
            ),
{
    law_events_page_leads_on(project_id@, *snapshot);
    let shown = member(json@, "events"@)->0->Array_0;
    assert forall|i: int| 0 <= i < shown.len() implies member(#[trigger] shown[i], "sequence"@)
        == Some(json_count(snapshot.events@[i].sequence as nat)) by {
        law_event_entry_keeps_identity(project_id@, snapshot.events@[i]);
    }
}

/// An event is announced by what it touches: the events of the project, then its status
/// or the diagnostics of a file.
pub proof fn law_event_is_announced(
    project_id: &ProjectId,
    event: &ProjectEvent,
    uris: Vec<String>,
)
    requires
        event_is_readable(*event),
        call_ensures(event_resource_uris, (project_id, event), uris),
    ensures
        ({
            let foreign = *event matches ProjectEvent::ProjectRemoved { project_id: removed, .. }
                && removed@ != project_id@;
            &&& foreign ==> uris@.len() == 0
            &&& !foreign ==> uris@.len() >= 1 && uris@[0]@ == "mcpls-project-events:///"@
                + project_id@
            &&& *event is StatusChanged || *event is ServerExited || (*event is ProjectRemoved
                && !foreign) ==> uris@.len() == 2 && uris@[1]@ == "mcpls-project-status:///"@
                + project_id@
            &&& *event is FilesChanged || *event is EditApplied ==> uris@.len() == 1
        }),
{
    let touched = texts(uris@);
    law_event_touches_what_it_changes(project_id@, *event, event_diagnostics(*event));
    assert(touched.len() == uris@.len());
    if touched.len() >= 1 {
        assert(touched[0] == uris@[0]@);
    }
    if touched.len() >= 2 {
        assert(touched[1] == uris@[1]@);
    }
}

/// A remote trace is read from its parent, and its identifiers are the parent's.
pub proof fn law_remote_trace_is_read(context: &TraceContext, remote: Option<RemoteTrace>)
    requires
        call_ensures(parse_remote_trace, (context,), remote),
    ensures
        remote matches Some(trace) ==> (context.traceparent matches Some(parent) && {
            &&& parent@.len() == 55
            &&& trace.trace_id@ == parent@.subrange(3, 35)
            &&& trace.span_id@ == parent@.subrange(36, 52)
        }),
        context.traceparent is None ==> remote is None,
{
    law_remote_trace_is_that_of_the_parent(*context);
}

/// A new session knows no plan, waits for no approval and has not heard of its client.
pub proof fn law_new_session_is_blank(
    session_id: String,
    approval_key: Vec<u8>,
    context: HandlerContext,
    plan: Seq<char>,
)
    requires
        call_ensures(HandlerContext::new, (session_id, approval_key), context),
    ensures
        context@.session_id == session_id@,
        context@.key == approval_key@,
        !context@.plans.owned.contains(plan),
        !context@.plans.active.contains(plan),
        context@.plans.terminal.len() == 0,
        !context@.approvals.contains(plan),
        context@.client.form_elicitation is None,
        context@.client.multi_round_trip is None,
{
}

/// A session grants a plan exactly where it knows it, and lets an approval be used
/// exactly where it is pending.
pub proof fn law_session_grants_what_it_knows(
    context: &mut HandlerContext,
    plan_id: &PlanId,
    granted: bool,
)
    requires
        old(context)@.wf(),
        call_ensures(HandlerContext::claim_plan, (context, plan_id), granted),
    ensures
        granted <==> {
            ||| old(context)@.plans.owned.contains(plan_id@)
            ||| old(context)@.plans.active.contains(plan_id@)
            ||| old(context)@.plans.terminal.contains(plan_id@)
        },
        !final(context)@.plans.owned.contains(plan_id@),
        !granted ==> final(context)@ == old(context)@,
{
    law_claimed_plan_is_being_applied(old(context)@.plans, plan_id@, plan_id@);
}

/// An approval is spent by its use: it was pending exactly where its use says so, and
/// is not pending after it.
pub proof fn law_approval_is_used_once(
    context: &mut HandlerContext,
    nonce: &str,
    other: Seq<char>,
    was_pending: bool,
)
    requires
        call_ensures(HandlerContext::consume_approval, (context, nonce), was_pending),
    ensures
        was_pending <==> old(context)@.approvals.contains(nonce@),
        !final(context)@.approvals.contains(nonce@),
        other != nonce@ ==> (final(context)@.approvals.contains(other)
            <==> old(context)@.approvals.contains(other)),
        final(context)@.plans == old(context)@.plans,
{
}

/// A search page that does not fit with a single match is refused with the size that it
/// would take.
pub proof fn law_narrow_search_is_refused_with_its_size(
    scan: LexicalSearchScan,
    max_bytes: usize,
    error: McpError,
)
    requires
        scan.offset + scan.matches@.len() <= usize::MAX,
        call_ensures(lexical_page_answer, (scan, max_bytes), Err(error)),
    ensures
        scan.matches@.len() > 0,
        exists|size: nat|
            size > max_bytes && refuses(
                error,
                "max_bytes must be at least "@ + #[trigger] decimal(size)
                    + " to return one lexical match identity"@,
            ),
{
    law_scan_page_gives_the_first_matches(scan, max_bytes as nat);
    let size = fitting_page(
        match_models(scan.matches@),
        scan.matches@.len(),
        scan_accounting(scan, max_bytes as nat),
    )->Err_0;
    assert(error@ == crate::errors::invalid_params(
        "max_bytes must be at least "@ + decimal(size)
            + " to return one lexical match identity"@,
    ));
}

/// A page that is cut by its size gives the first matches, and names the place behind
/// them exactly where it is cut or more are known to follow.
pub proof fn law_page_cut_by_size_leads_on(
    matches: Vec<LexicalSearchMatch>,
    offset: usize,
    has_next_page: bool,
    max_bytes: usize,
    page: LexicalSearchResult,
)
    requires
        offset + matches@.len() < usize::MAX,
        call_ensures(
            bounded_lexical_page,
            (matches, offset, has_next_page, max_bytes),
            Ok(page),
        ),
    ensures
        page.returned == page.matches@.len(),
        page.matches@.len() <= matches@.len(),
        page.truncated <==> has_next_page || page.matches@.len() < matches@.len(),
        page.truncated ==> (page.next_cursor matches Some(cursor) && cursor@ == decimal(
            (offset + page.matches@.len()) as nat,
        )),
        !page.truncated ==> page.next_cursor is None,
        page.total == offset + matches@.len() + if has_next_page {
            1int
        } else {
            0
        },
        page.remaining == page.total - offset - page.matches@.len(),
{
    let accounting = crate::lexical::plain_accounting(
        matches@.len(),
        offset as nat,
        has_next_page,
        max_bytes as nat,
    );
    let all = match_models(matches@);
    crate::lexical::law_lexical_page_accounts(all, matches@.len(), accounting);
    crate::lexical::law_lexical_page_keeps_leading_matches(all, matches@.len(), accounting);
    assert(page@.matches.len() == page.matches@.len());
}

/// The answer to a batch of searches shows every query with what was found for it, where
/// no detail goes by the same name.
pub proof fn law_batch_answer_keeps_every_query(
    batch: LexicalSearchBatchResult,
    max_bytes: usize,
    output: StructuredOutput,
)
    requires
        call_ensures(lexical_batch_answer, (batch, max_bytes), Ok(output)),
        last_under(batch.details@, "entries"@) is None,
    ensures
        member(output.value@, "entries"@) matches Some(Json::Array(shown)) && shown.len()
            == batch.entries@.len() && forall|i: int|
            0 <= i < shown.len() && last_under(batch.entries@[i].details@, "query"@) is None
                ==> member(#[trigger] shown[i], "query"@) == Some(
                Json::Text(batch.entries@[i].query@),
            ),
{
    let fit = fitting_batch(batch@, max_bytes as nat);
    assert(fit is Ok);
    let bounded = fit->Ok_0;
    crate::lexical::law_lexical_batch_keeps_queries(batch@, max_bytes as nat);
    law_batch_answer_shows_the_entries(bounded);
    let shown = member(output.value@, "entries"@)->0->Array_0;
    assert forall|i: int|
        0 <= i < shown.len() && last_under(batch.entries@[i].details@, "query"@)
            is None implies member(#[trigger] shown[i], "query"@) == Some(
        Json::Text(batch.entries@[i].query@),
    ) by {
        assert(crate::lexical::shows_entry(shown[i], bounded.entries[i]));
        assert(crate::lexical::keeps_entry(bounded.entries[i], batch@.entries[i]));
    }
}

/// A plan that is applied at once is one that the session knows, of a request that was
/// not cancelled and hands over no approval.
pub proof fn law_direct_apply_is_of_a_known_plan(
    context: &mut HandlerContext,
    tool_name: &str,
    params: &WorkspaceEditApplyParams,
    has_state: bool,
    has_responses: bool,
    cancelled: bool,
    step: Result<ApplyStep, McpError>,
)
    requires
        old(context)@.wf(),
        call_ensures(
            apply_project_plan_direct,
            (context, tool_name, params, has_state, has_responses, cancelled),
            step,
        ),
    ensures
        step is Ok <==> {
            &&& !has_state && !has_responses && !cancelled
            &&& params.project_id@.len() > 0
            &&& params.plan_id@.len() > 0
            &&& (old(context)@.plans.owned.contains(params.plan_id@)
                || old(context)@.plans.active.contains(params.plan_id@)
                || old(context)@.plans.terminal.contains(params.plan_id@))
        },
        step matches Ok(next) ==> {
            &&& next matches ApplyStep::Apply(request) && request.plan_id@ == params.plan_id@
                && request.project_id@ == params.project_id@
            &&& !final(context)@.plans.owned.contains(params.plan_id@)
        },
        step is Err ==> final(context)@ == old(context)@,
{
    crate::mutation::law_direct_apply_claims_a_known_plan(
        old(context)@,
        tool_name@,
        *params,
        has_state,
        has_responses,
        cancelled,
        params.plan_id@,
    );
}

/// A declined approval spends its own approval and no other, and is refused.
pub proof fn law_declined_answer_spends_its_approval(
    context: &mut HandlerContext,
    request: ApprovalRequest,
    state: MutationApprovalState,
    responses: JsonObject,
    step: Result<ApplyStep, McpError>,
    other: Seq<char>,
)
    requires
        request.wf(old(context)@.session_id),
        call_ensures(retry_mutation_approval, (context, request, Ok(state), responses), step),
        state.session_id@ == old(context)@.session_id,
        state.principal is None,
        state.method@ == "tools/call"@,
        state.tool_name@ == request.tool_name@,
        state.project_id@ == request.project_id@,
        state.plan_id@ == request.plan_id@,
        state.arguments_digest@ == request.arguments_digest@,
    ensures
        step is Ok <==> approval_decision(Some(responses@)) == Ok::<ApprovalDecision, ErrorModel>(
            ApprovalDecision::Accept,
        ),
        step matches Ok(next) ==> (next matches ApplyStep::Recheck(again, held) && again.plan_id@
            == request.plan_id@ && held@ == state@),
        approval_decision(Some(responses@)) == Ok::<ApprovalDecision, ErrorModel>(
            ApprovalDecision::Decline,
        ) ==> {
            &&& step matches Err(error) && refuses(
                error,
                "approval declined or cancelled; no files were changed"@,
            )
            &&& !final(context)@.approvals.contains(state.nonce@)
            &&& other != state.nonce@ ==> (final(context)@.approvals.contains(other)
                <==> old(context)@.approvals.contains(other))
        },
        final(context)@.plans == old(context)@.plans,
{
    crate::mutation::law_answer_decides_the_retry(
        old(context)@,
        request@,
        state@,
        responses@,
        Seq::empty(),
        other,
    );
    crate::mutation::law_answer_decides_the_retry(
        old(context)@,
        request@,
        state@,
        responses@,
        Seq::empty(),
        state.nonce@,
    );
}

/// A seal opens to what was sealed under the same key and in the same context, unless
/// it has expired.
pub proof fn law_sealed_state_is_opened(
    key: &Vec<u8>,
    state: &MutationApprovalState,
    associated_data: &Vec<u8>,
    sealed: String,
    text: &str,
    payload: Result<Vec<u8>, String>,
)
    requires
        call_ensures(seal_approval_state, (key, state, associated_data), sealed),
        text@ == sealed@,
        call_ensures(open_approval_state, (key, text, associated_data), payload),
    ensures
        payload matches Ok(bytes) ==> bytes@ == state_payload(state@),
        payload matches Err(reason) ==> reason@ == "request state has expired"@,
{
}

/// Positions are counted as the request says.
pub proof fn law_encoding_is_read(
    value: &Option<String>,
    encoding: Result<PositionEncoding, McpError>,
)
    requires
        call_ensures(parse_position_encoding, (value,), encoding),
    ensures
        *value is None ==> encoding == Ok::<PositionEncoding, McpError>(PositionEncoding::Utf8),
        *value matches Some(name) ==> {
            &&& encoding == Ok::<PositionEncoding, McpError>(PositionEncoding::Utf8) <==> name@
                == "utf-8"@
            &&& encoding == Ok::<PositionEncoding, McpError>(PositionEncoding::Utf16) <==> name@
                == "utf-16"@
            &&& encoding == Ok::<PositionEncoding, McpError>(PositionEncoding::Utf32) <==> name@
                == "utf-32"@
            &&& encoding matches Err(error) ==> refuses(
                error,
                "unsupported position encoding: "@ + name@,
            )
        },
{
    reveal_strlit("utf-8");
    reveal_strlit("utf-16");
    reveal_strlit("utf-32");
    assert("utf-8"@.len() == 5);
    assert("utf-16"@.len() == 6);
    assert("utf-32"@.len() == 6);
    assert("utf-16"@[4] == '1');
    assert("utf-32"@[4] == '3');
    if let Some(name) = *value {
        crate::requests::law_position_encoding_is_named(name@);
    }
}

/// A path is renamed as its request says.
pub proof fn law_path_rename_is_the_request(
    params: PathRenamePreviewParams,
    request: Result<PathRenameRequest, McpError>,
)
    requires
        call_ensures(path_rename_preview, (params,), request),
    ensures
        request matches Ok(request) ==> {
            &&& request.project_id@ == params.project_id@
            &&& request.old_path@ == params.old_path@
            &&& request.new_path@ == params.new_path@
        },
        params.project_id@.len() > 0 && params.position_encoding is None ==> request is Ok,
        params.project_id@.len() == 0 ==> (request matches Err(error) && refuses(
            error,
            "project id must not be empty"@,
        )),
{
}

/// A module is moved from the place that its request names, or by its name alone.
pub proof fn law_module_move_is_the_request(
    params: MoveInlineModulePreviewParams,
    request: Result<InlineModuleMove, McpError>,
)
    requires
        call_ensures(move_inline_module_preview, (params,), request),
    ensures
        request matches Ok(request) ==> {
            &&& request.project_id@ == params.project_id@
            &&& request.file_path@ == params.file_path@
            &&& request.module_name@ == params.module_name@
            &&& params.module_line is Some <==> params.module_character is Some
            &&& params.module_line matches Some(line) ==> (request.position matches Some(position)
                && position.line == line && Some(position.character) == params.module_character)
            &&& params.module_line is None ==> request.position is None
        },
        params.project_id@.len() > 0 && params.position_encoding is None && (params.module_line
            is Some != params.module_character is Some) ==> (request matches Err(error) && refuses(
            error,
            "module_line and module_character must be provided together"@,
        )),
{
}

/// An item is moved as its request says, where the server supports it.
pub proof fn law_item_move_is_the_request(
    params: MoveItemPreviewParams,
    edit: Result<GeneratedEdit, McpError>,
)
    requires
        call_ensures(move_item_preview, (params,), edit),
    ensures
        edit matches Ok(edit) ==> {
            &&& edit.project_id@ == params.project_id@
            &&& edit.capability_gated
            &&& edit.request matches GeneratedEditRequest::MoveItem {
                file_path,
                start,
                end,
                direction,
            } && file_path@ == params.file_path@ && start == (
                params.start_line,
                params.start_character,
            ) && end == (params.end_line, params.end_character) && direction@ == params.direction@
        },
{
}

/// A range is formatted as its request says, where the server supports it.
pub proof fn law_range_format_is_the_request(
    params: RangeFormatPreviewParams,
    edit: Result<GeneratedEdit, McpError>,
)
    requires
        call_ensures(range_format_preview, (params,), edit),
    ensures
        edit matches Ok(edit) ==> {
            &&& edit.project_id@ == params.project_id@
            &&& edit.capability_gated
            &&& edit.request matches GeneratedEditRequest::RangeFormat {
                file_path,
                start,
                end,
                tab_size,
                insert_spaces,
            } && file_path@ == params.file_path@ && start == (
                params.start_line,
                params.start_character,
            ) && end == (params.end_line, params.end_character) && tab_size == params.tab_size
                && insert_spaces == params.insert_spaces
        },
{
}

/// A structural replacement is asked for as its request says.
pub proof fn law_structural_request_is_the_request(
    params: StructuralReplacePreviewParams,
    request: Result<StructuralRequest, McpError>,
)
    requires
        call_ensures(structural_replace_preview, (params,), request),
    ensures
        request matches Ok(request) ==> {
            &&& request.project_id@ == params.project_id@
            &&& params.dialect@ == "rust_analyzer_ssr"@ || params.dialect@ == "ast_grep"@
            &&& request.dialect is RustAnalyzerSsr <==> params.dialect@ == "rust_analyzer_ssr"@
            &&& request.file_path@ == params.file_path@
            &&& request.query@ == params.query@
            &&& request.replacement == params.replacement
            &&& request.language_id == params.language_id
            &&& request.parse_only == params.parse_only
        },
{
    reveal_strlit("rust_analyzer_ssr");
    reveal_strlit("ast_grep");
    assert("rust_analyzer_ssr"@.len() == 17);
    assert("ast_grep"@.len() == 8);
    assert(crate::previews::dialect_name(StructuralDialect::RustAnalyzerSsr)
        == "rust_analyzer_ssr"@);
    assert(crate::previews::dialect_name(StructuralDialect::AstGrep) == "ast_grep"@);
}

/// A symbol is routed by its handle or by its place.
pub proof fn law_symbol_is_routed(
    project_id: Option<String>,
    symbol_handle: Option<SymbolHandle>,
    file_path: &str,
    route: Result<SemanticRoute, McpError>,
)
    requires
        call_ensures(semantic_target, (project_id, symbol_handle, file_path), route),
    ensures
        route matches Ok(SemanticRoute::Handle { project_id: project, symbol_handle: handle }) ==> (
        project_id matches Some(named) && project@ == named@ && (symbol_handle matches Some(given)
            && handle.text@ == given.text@)),
        symbol_handle matches Some(given) ==> (project_id matches Some(named) ==> (named@.len() > 0
            ==> route is Ok && route->Ok_0 is Handle)),
        symbol_handle is Some && project_id is None ==> (route matches Err(error) && refuses(
            error,
            "project_id is required with symbol_handle"@,
        )),
        symbol_handle is None && file_path@.len() > 0 && project_id is None ==> (
        route matches Ok(found) && found is Path),
        symbol_handle is None && file_path@.len() == 0 ==> (route matches Err(error) && refuses(
            error,
            "file_path, line, and character or project_id and symbol_handle are required"@,
        )),
{
}

/// A page of references starts at its cursor.
pub proof fn law_references_start_at_their_cursor(
    page_token: &Option<String>,
    offset: Result<usize, McpError>,
)
    requires
        call_ensures(references_page_offset, (page_token,), offset),
    ensures
        *page_token is None ==> offset == Ok::<usize, McpError>(0usize),
        *page_token matches Some(token) ==> {
            &&& offset matches Ok(start) ==> unsigned_value(token@, usize::MAX as nat) == Some(
                start as nat,
            )
            &&& unsigned_value(token@, usize::MAX as nat) is Some ==> offset is Ok
            &&& offset matches Err(error) ==> refuses(
                error,
                "page_token must be the decimal next_cursor returned by get_references"@,
            )
        },
{
}

/// Diagnostics are taken in the mode that is asked for.
pub proof fn law_diagnostics_mode_is_read(
    mode: DiagnosticsMode,
    fresh: Option<bool>,
    found: Result<DiagnosticsMode, McpError>,
)
    requires
        call_ensures(diagnostics_mode, (mode, fresh), found),
    ensures
        fresh is None ==> found == Ok::<DiagnosticsMode, McpError>(mode),
        mode == DiagnosticsMode::CachedPreferred && fresh == Some(true) ==> found == Ok::<
            DiagnosticsMode,
            McpError,
        >(DiagnosticsMode::Fresh),
        mode == DiagnosticsMode::CachedPreferred && fresh == Some(false) ==> found == Ok::<
            DiagnosticsMode,
            McpError,
        >(DiagnosticsMode::CacheOnly),
        mode != DiagnosticsMode::CachedPreferred && fresh is Some ==> (found matches Err(error)
            && refuses(error, "fresh cannot be combined with mode"@)),
{
    if let Some(flag) = fresh {
        assert(flag == true || flag == false);
    }
}

/// The reference to the diagnostics of a path leads back to the path.
pub proof fn law_diagnostics_reference_leads_back(
    path: &FilePath,
    uri: String,
    text: &str,
    back: Result<FilePath, ResourceUriError>,
)
    requires
        call_ensures(make_uri, (path,), Ok(uri)),
        text@ == uri@,
        call_ensures(parse_uri, (text,), back),
    ensures
        back matches Ok(found) && found@ == path@,
{
    law_diagnostics_uri_round_trip(path@);
}

/// Only an absolute path has a reference to its diagnostics.
pub proof fn law_only_absolute_paths_have_diagnostics(
    path: &FilePath,
    uri: Result<String, ResourceUriError>,
)
    requires
        call_ensures(make_uri, (path,), uri),
    ensures
        uri is Ok <==> path@.len() > 0 && path@[0] == '/',
        uri matches Err(error) ==> error == ResourceUriError::NotAbsolute,
{
}

/// The metrics of a call are those of its structured content, where that is an object.
pub proof fn law_metrics_are_taken_from_the_content(
    result: &Result<CallToolResponse, McpError>,
    metrics: Option<ToolResultMetrics>,
)
    requires
        call_ensures(completed_tool_result_metrics, (result,), metrics),
    ensures
        metrics is Some <==> (*result matches Ok(CallToolResponse::Complete(done)) && (
        done.structured_content matches Some(content) && content@ is Object)),
        *result matches Ok(CallToolResponse::Complete(done)) ==> (
        done.structured_content matches Some(content) ==> (metrics matches Some(taken) ==> {
            &&& taken.truncated <==> member(content@, "truncated"@) == Some(Json::Bool(true))
            &&& member(content@, "cache_hit"@) matches Some(Json::Bool(hit)) ==> taken.cache_hit
                == Some(hit)
        })),
{
    if let Ok(CallToolResponse::Complete(done)) = *result {
        if let Some(content) = done.structured_content {
            law_metrics_say_what_the_result_says(content@);
        }
    }
}

/// The state of a project is answered with its groups numbered in order.
pub proof fn law_project_state_is_answered(
    identity: &ProjectIdentity,
    state: &ProjectState,
    actor_group_roots: Vec<Vec<FilePath>>,
    cargo_features: JsonValue,
    json: JsonValue,
)
    requires
        call_ensures(
            project_state_answer,
            (identity, state, actor_group_roots, cargo_features),
            json,
        ),
    ensures
        member(json@, "project_id"@) == Some(Json::Text(identity.id@)),
        member(json@, "status"@) == Some(Json::Text(status_name(state.status))),
        member(json@, "generation"@) == Some(json_count(state.generation as nat)),
        member(json@, "actor_group_count"@) == Some(json_count(actor_group_roots@.len())),
        member(json@, "cargo_features"@) == Some(cargo_features@),
        exists|groups: Seq<ActorGroupState>|
            {
                &&& #[trigger] tells_state(json@, *identity, *state, groups)
                &&& groups.len() == actor_group_roots@.len()
                &&& forall|i: int|
                    0 <= i < groups.len() ==> (#[trigger] groups[i]).group_id == i
                        && groups[i].roots == actor_group_roots@[i]
            },
{
    let groups = choose|groups: Seq<ActorGroupState>|
        {
            &&& groups.len() == actor_group_roots@.len()
            &&& forall|i: int|
                0 <= i < groups.len() ==> (#[trigger] groups[i]).group_id == i && groups[i].roots
                    == actor_group_roots@[i]
            &&& json@ == #[trigger] state_answer(*identity, *state, groups, cargo_features@)
        };
    law_project_state_is_told(*identity, *state, groups, cargo_features@);
    assert(tells_state(json@, *identity, *state, groups));
}

/// A symbol is inspected as asked: one by its handle or query, or several in a batch.
pub proof fn law_inspection_is_planned(
    params: InspectSymbolParams,
    limits: InspectBatchLimits,
    plan: Result<InspectSymbolPlan, McpError>,
)
    requires
        limits.wf(),
        call_ensures(inspect_symbol, (params, limits), plan),
    ensures
        plan matches Ok(InspectSymbolPlan::One { project_id, request }) ==> {
            &&& project_id@ == params.project_id@
            &&& params.targets@.len() == 0 && params.page_token is None
            &&& request.symbol_handle == params.symbol_handle
            &&& request.query == params.query
            &&& request.symbol_handle is Some || request.query is Some
            &&& request.budget == params.budget
            &&& params.budget.max_bytes >= 4096 && params.budget.max_items > 0
        },
        plan matches Ok(InspectSymbolPlan::Many { project_id, batch }) ==> {
            &&& project_id@ == params.project_id@
            &&& params.targets@.len() <= 16
            &&& params.symbol_handle is None && params.query is None
            &&& batch.targets@ == params.targets@
            &&& batch.page_token == params.page_token
            &&& batch.budget == params.budget
        },
        plan is Ok ==> params.project_id@.len() > 0,
{
    crate::symbols::law_inspection_names_one_or_many(params, limits);
    crate::symbols::law_inspect_batch_is_within_bounds(
        crate::symbols::inspect_batch(params),
        limits,
    );
}

/// A text that is cut begins the text and says that it was cut; one that fits is kept.
pub proof fn law_cut_text_says_so(text: &str, max_bytes: usize, result: String)
    requires
        call_ensures(truncate_str, (text, max_bytes), result),
    ensures
        encode_utf8(text@).len() <= max_bytes ==> result@ == text@,
        encode_utf8(text@).len() > max_bytes ==> exists|cut: int|
            0 <= cut <= max_bytes && encode_utf8(result@) == #[trigger] encode_utf8(text@).subrange(
                0,
                cut,
            ) + encode_utf8("... (truncated)"@),
{
    law_shortened_text_begins_the_text(text@, max_bytes as nat);
    if encode_utf8(text@).len() > max_bytes {
        let cut = choose|cut: int|
            {
                &&& #[trigger] is_char_boundary(encode_utf8(text@), cut)
                &&& 0 <= cut <= max_bytes
                &&& forall|later: int|
                    cut < later <= max_bytes ==> !#[trigger] is_char_boundary(
                        encode_utf8(text@),
                        later,
                    )
                &&& encode_utf8(crate::text::shortened(text@, max_bytes as nat)) == encode_utf8(
                    text@,
                ).subrange(0, cut) + encode_utf8("... (truncated)"@)
            };
        assert(encode_utf8(result@) == encode_utf8(text@).subrange(0, cut) + encode_utf8(
            "... (truncated)"@,
        ));
    }
}

/// A tool is described by its name in words.
pub proof fn law_description_is_made_of_the_name(name: &str, description: String, at: int)
    requires
        call_ensures(compact_advertised_description, (name,), description),
    ensures
        description@.len() == name@.len() + 7,
        description@.last() == '.',
        description@.take(6) == "MCPLS "@,
        0 <= at < name@.len() && name@[at] == '_' ==> description@[at + 6] == ' ',
        0 <= at < name@.len() && name@[at] != '_' ==> description@[at + 6] == name@[at],
{
    reveal_strlit("MCPLS ");
    reveal_strlit(".");
    assert("MCPLS "@.len() == 6);
    assert("."@.len() == 1);
    assert(description@.take(6) =~= "MCPLS "@);
}

/// The detail and the summary of an approval are of the same plan.
pub proof fn law_detail_and_summary_agree(
    summary: &EditPlanApprovalSummary,
    short: JsonValue,
    long: JsonValue,
)
    requires
        summary.project_id@.len() > 0,
        call_ensures(approval_summary_json, (summary,), short),
        call_ensures(approval_detail_json, (summary,), long),
    ensures
        member(short@, "plan_id"@) == member(long@, "plan_id"@),
        member(short@, "project_id"@) == member(long@, "project_id"@),
        member(short@, "safe_to_apply"@) == member(long@, "safe_to_apply"@),
        member(short@, "diff_truncated"@) == member(long@, "diff_truncated"@),
        member(long@, "plan_id"@) == Some(Json::Text(summary.plan_id@)),
        lists_texts(member(long@, "affected_files"@), path_texts(summary.affected_files@)),
        lists_texts(member(long@, "snapshot_hashes"@), texts(summary.snapshot_hashes@)),
{
    law_approval_summary_shows_the_plan(*summary);
    law_approval_detail_is_whole(*summary);
}

} // verus!
