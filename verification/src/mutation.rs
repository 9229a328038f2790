//! Applying edit plans: approval rounds, claims and their outcomes.
//!
//! An apply request runs in steps. `apply_project_plan_with_approval` decides
//! what comes first: apply the claimed plan, or inspect it and ask for approval,
//! or inspect it again for an accepted answer. The caller inspects or applies
//! the plan and hands the result to `prepare_mutation_approval`,
//! `accept_mutation_retry`, `finish_claimed_plan` or `finish_approved_plan`.

use crate::apply::{
    apply_result, is_apply_output, workspace_edit_apply_json, ApplyEditPlanOutcome,
};
use crate::approval::{
    approval_arguments_digest, approval_binding, approval_decision, approval_input_required,
    asks_approval, binding_text, digest_input, parse_approval_response, ApprovalDecision,
    EditPlanApprovalSummary, InputRequired, APPROVAL_METHOD,
};
use crate::digest::sha256_text;
use crate::errors::{invalid_params, parse_project_id, ErrorModel, McpError, StructuredOutput};
use crate::handlers::{is_hyphenated, lemma_without, random_text, ContextModel, HandlerContext};
use crate::json::{Json, JsonObject};
use crate::paths::{path_texts, FilePath};
use crate::project::{identifier_error_text, IdentifierError, PlanId, ProjectId};
use crate::state::{
    may_open_as, open_approval_state, opened_model, payload_model, payload_reading,
    read_opened_state, seal_approval_state, sealed_payload, state_payload, MutationApprovalState,
    StateModel,
};
use crate::text::{concat2, contains_text, copy_texts, has_text, same_text, texts};
use crate::tools::WorkspaceEditApplyParams;
use vstd::prelude::*;
use vstd::string::*;
use vstd::utf8::*;

verus! {

/// How long an apply waits for a contending edit unless it is told, in
/// milliseconds.
pub const DEFAULT_APPLY_WAIT_MS: u64 = 250;

/// One well-formed request to apply a plan.
#[derive(Debug)]
pub struct ApprovalRequest {
    pub tool_name: String,
    pub project_id: ProjectId,
    pub plan_id: PlanId,
    pub wait_timeout_ms: u64,
    pub arguments_digest: String,
    pub binding: Vec<u8>,
}

/// The model of an apply request.
#[verifier::ext_equal]
pub struct RequestModel {
    pub tool_name: Seq<char>,
    pub project_id: Seq<char>,
    pub plan_id: Seq<char>,
    pub wait_timeout_ms: nat,
}

impl View for ApprovalRequest {
    type V = RequestModel;

    open spec fn view(&self) -> RequestModel {
        RequestModel {
            tool_name: self.tool_name@,
            project_id: self.project_id@,
            plan_id: self.plan_id@,
            wait_timeout_ms: self.wait_timeout_ms as nat,
        }
    }
}

impl RequestModel {
    /// The digest of the request's arguments.
    pub open spec fn digest(self) -> Seq<char> {
        sha256_text(digest_input(self.project_id, self.plan_id))
    }

    /// What approval state of the request is bound to in one session.
    pub open spec fn binding(self, session_id: Seq<char>) -> Seq<u8> {
        encode_utf8(binding_text(session_id, seq![], self.tool_name, self.digest()))
    }
}

impl ApprovalRequest {
    /// Whether the digest and the binding are those of the request.
    pub open spec fn wf(self, session_id: Seq<char>) -> bool {
        &&& self.project_id@.len() > 0
        &&& self.plan_id@.len() > 0
        &&& self.arguments_digest@ == self@.digest()
        &&& self.binding@ == self@.binding(session_id)
    }
}

/// What comes next for an apply request.
#[derive(Debug)]
pub enum ApplyStep {
    /// The plan is claimed: apply it.
    Apply(ApprovalRequest),
    /// Inspect the plan, then ask for approval.
    Inspect(ApprovalRequest),
    /// The sealed state of an answered request was opened: hand its payload to the
    /// typed reader, then read the answer.
    Read(ApprovalRequest, Vec<u8>, JsonObject),
    /// The client accepted: inspect the plan again, then apply it.
    Recheck(ApprovalRequest, MutationApprovalState),
}

/// The model of what comes next.
pub enum StepModel {
    Apply(RequestModel),
    Inspect(RequestModel),
    Read(RequestModel, Seq<u8>, Seq<(Seq<char>, Json)>),
    Recheck(RequestModel, StateModel),
}

impl View for ApplyStep {
    type V = StepModel;

    open spec fn view(&self) -> StepModel {
        match self {
            ApplyStep::Apply(request) => StepModel::Apply(request@),
            ApplyStep::Inspect(request) => StepModel::Inspect(request@),
            ApplyStep::Read(request, payload, responses) => StepModel::Read(
                request@,
                payload@,
                responses@,
            ),
            ApplyStep::Recheck(request, state) => StepModel::Recheck(request@, state@),
        }
    }
}

impl ApplyStep {
    pub open spec fn wf(self, session_id: Seq<char>) -> bool {
        match self {
            ApplyStep::Apply(request) => request.wf(session_id),
            ApplyStep::Inspect(request) => request.wf(session_id),
            ApplyStep::Read(request, _, _) => request.wf(session_id),
            ApplyStep::Recheck(request, _) => request.wf(session_id),
        }
    }
}

pub open spec fn not_owned() -> ErrorModel {
    invalid_params("edit plan is not owned by this MCP session"@)
}

/// The request that some parameters make, or the reason why they make none.
pub open spec fn requested(tool_name: Seq<char>, params: WorkspaceEditApplyParams) -> Result<
    RequestModel,
    ErrorModel,
> {
    if params.project_id@.len() == 0 {
        Err(invalid_params(identifier_error_text(IdentifierError::EmptyProjectId)))
    } else if params.plan_id@.len() == 0 {
        Err(invalid_params(identifier_error_text(IdentifierError::EmptyPlanId)))
    } else {
        Ok(
            RequestModel {
                tool_name,
                project_id: params.project_id@,
                plan_id: params.plan_id@,
                wait_timeout_ms: match params.wait_timeout_ms {
                    Some(wait) => wait as nat,
                    None => DEFAULT_APPLY_WAIT_MS as nat,
                },
            },
        )
    }
}

fn read_request(
    session_id: &str,
    tool_name: &str,
    params: &WorkspaceEditApplyParams,
) -> (request: Result<ApprovalRequest, McpError>)
    ensures
        match request {
            Ok(request) => requested(tool_name@, *params) == Ok::<RequestModel, ErrorModel>(
                request@,
            ) && request.wf(session_id@),
            Err(error) => requested(tool_name@, *params) == Err::<RequestModel, ErrorModel>(error@),
        },
{
    let project_id = match parse_project_id(params.project_id.as_str()) {
        Ok(id) => id,
        Err(error) => {
            return Err(error);
        },
    };
    let plan_id = match PlanId::parse(params.plan_id.as_str()) {
        Ok(id) => id,
        Err(error) => {
            return Err(McpError::invalid_params(error.message().as_str()));
        },
    };
    let wait_timeout_ms: u64 = match params.wait_timeout_ms {
        Some(wait) => wait,
        None => DEFAULT_APPLY_WAIT_MS,
    };
    let arguments_digest = approval_arguments_digest(project_id.as_str(), &plan_id);
    let binding = approval_binding(session_id, None, tool_name, arguments_digest.as_str());
    Ok(
        ApprovalRequest {
            tool_name: tool_name.to_owned(),
            project_id,
            plan_id,
            wait_timeout_ms,
            arguments_digest,
            binding,
        },
    )
}

/// What comes next for a client that cannot answer approval requests: the plan
/// is claimed at once.
pub open spec fn direct_step(
    context: ContextModel,
    tool_name: Seq<char>,
    params: WorkspaceEditApplyParams,
    has_state: bool,
    has_responses: bool,
    cancelled: bool,
) -> Result<StepModel, ErrorModel> {
    if !has_state && has_responses {
        Err(invalid_params("inputResponses requires the matching requestState"@))
    } else if has_state && !has_responses {
        Err(invalid_params("requestState requires inputResponses"@))
    } else if has_state && has_responses {
        Err(
            invalid_params(
                "this client does not support elicitation retries; call apply without requestState"@,
            ),
        )
    } else if cancelled {
        Err(invalid_params("mutating apply was cancelled before filesystem changes"@))
    } else {
        match requested(tool_name, params) {
            Err(error) => Err(error),
            Ok(request) => if context.plans.claimable(request.plan_id) {
                Ok(StepModel::Apply(request))
            } else {
                Err(not_owned())
            },
        }
    }
}

/// The session's state after a step: a plan that is to be applied is claimed.
pub open spec fn stepped(context: ContextModel, step: Result<StepModel, ErrorModel>) -> ContextModel {
    match step {
        Ok(StepModel::Apply(request)) => context.with_plans(
            context.plans.claiming(request.plan_id),
        ),
        _ => context,
    }
}

pub open spec fn step_result(step: Result<ApplyStep, McpError>) -> Result<StepModel, ErrorModel> {
    match step {
        Ok(step) => Ok(step@),
        Err(error) => Err(error@),
    }
}

/// Claims a plan for a client that cannot answer approval requests.
pub fn apply_project_plan_direct(
    context: &mut HandlerContext,
    tool_name: &str,
    params: &WorkspaceEditApplyParams,
    has_state: bool,
    has_responses: bool,
    cancelled: bool,
) -> (step: Result<ApplyStep, McpError>)
    requires
        old(context)@.wf(),
    ensures
        step_result(step) == direct_step(
            old(context)@,
            tool_name@,
            *params,
            has_state,
            has_responses,
            cancelled,
        ),
        final(context)@ == stepped(old(context)@, step_result(step)),
        final(context)@.wf(),
        step matches Ok(step) ==> step.wf(old(context)@.session_id),
{
    if !has_state && has_responses {
        return Err(
            McpError::invalid_params("inputResponses requires the matching requestState"),
        );
    }
    if has_state && !has_responses {
        return Err(McpError::invalid_params("requestState requires inputResponses"));
    }
    if has_state {
        return Err(
            McpError::invalid_params(
                "this client does not support elicitation retries; call apply without requestState",
            ),
        );
    }
    if cancelled {
        return Err(
            McpError::invalid_params("mutating apply was cancelled before filesystem changes"),
        );
    }
    let request = match read_request(context.session_id(), tool_name, params) {
        Ok(request) => request,
        Err(error) => {
            return Err(error);
        },
    };
    if !context.claim_plan(&request.plan_id) {
        proof {
            assert(old(context)@.plans.claiming(request.plan_id@) == old(context)@.plans);
        }
        return Err(McpError::invalid_params("edit plan is not owned by this MCP session"));
    }
    Ok(ApplyStep::Apply(request))
}

/// Whether opened state belongs to a request of a session.
pub open spec fn state_matches(
    state: StateModel,
    session_id: Seq<char>,
    request: RequestModel,
) -> bool {
    &&& state.session_id == session_id
    &&& state.principal is None
    &&& state.method == APPROVAL_METHOD@
    &&& state.tool_name == request.tool_name
    &&& state.project_id == request.project_id
    &&& state.plan_id == request.plan_id
    &&& state.arguments_digest == request.digest()
}

/// The answer to a retry whose state cannot be opened or read.
pub open spec fn unopened(reason: Seq<char>) -> ErrorModel {
    invalid_params("invalid or expired approval request state: "@ + reason)
}

fn unopened_error(reason: &str) -> (error: McpError)
    ensures
        error@ == unopened(reason@),
{
    let message = concat2("invalid or expired approval request state: ", reason);
    McpError::invalid_params(message.as_str())
}

/// What comes next for an answered request once its sealed state was opened, or
/// could not be.
pub open spec fn opened_step(
    request: RequestModel,
    opened: Result<Seq<u8>, Seq<char>>,
    responses: Seq<(Seq<char>, Json)>,
) -> Result<StepModel, ErrorModel> {
    match opened {
        Ok(payload) => Ok(StepModel::Read(request, payload, responses)),
        Err(reason) => Err(unopened(reason)),
    }
}

/// What comes next once the state of a retry was read, or could not be.
pub open spec fn retry_step(
    context: ContextModel,
    request: RequestModel,
    opened: Result<StateModel, Seq<char>>,
    responses: Seq<(Seq<char>, Json)>,
) -> Result<StepModel, ErrorModel> {
    match opened {
        Err(reason) => Err(unopened(reason)),
        Ok(state) => if !state_matches(state, context.session_id, request) {
            Err(invalid_params("approval request state does not match this apply request"@))
        } else {
            match approval_decision(Some(responses)) {
                Err(error) => Err(error),
                Ok(ApprovalDecision::Decline) => Err(
                    invalid_params("approval declined or cancelled; no files were changed"@),
                ),
                Ok(ApprovalDecision::Accept) => Ok(StepModel::Recheck(request, state)),
            }
        },
    }
}

/// The session's state once the state of a retry was read: a declined
/// approval is no longer pending.
pub open spec fn after_retry(
    context: ContextModel,
    request: RequestModel,
    opened: Result<StateModel, Seq<char>>,
    responses: Seq<(Seq<char>, Json)>,
) -> ContextModel {
    match opened {
        Ok(state) => if state_matches(state, context.session_id, request) && approval_decision(
            Some(responses),
        ) == Ok::<ApprovalDecision, ErrorModel>(ApprovalDecision::Decline) {
            context.with_approvals(context.approvals.remove(state.nonce))
        } else {
            context
        },
        Err(_) => context,
    }
}

/// Reads the answer of a retry whose state was read, or could not be.
pub fn retry_mutation_approval(
    context: &mut HandlerContext,
    request: ApprovalRequest,
    opened: Result<MutationApprovalState, String>,
    input_responses: JsonObject,
) -> (step: Result<ApplyStep, McpError>)
    requires
        request.wf(old(context)@.session_id),
    ensures
        step_result(step) == retry_step(
            old(context)@,
            request@,
            opened_model(opened),
            input_responses@,
        ),
        final(context)@ == after_retry(
            old(context)@,
            request@,
            opened_model(opened),
            input_responses@,
        ),
        step matches Ok(step) ==> step.wf(old(context)@.session_id),
{
    let state = match opened {
        Ok(state) => state,
        Err(reason) => {
            return Err(unopened_error(reason.as_str()));
        },
    };
    if !same_text(state.session_id.as_str(), context.session_id()) || state.principal.is_some()
        || !same_text(state.method.as_str(), APPROVAL_METHOD) || !same_text(
        state.tool_name.as_str(),
        request.tool_name.as_str(),
    ) || !same_text(state.project_id.as_str(), request.project_id.as_str()) || !same_text(
        state.plan_id.as_str(),
        request.plan_id.as_str(),
    ) || !same_text(state.arguments_digest.as_str(), request.arguments_digest.as_str()) {
        return Err(
            McpError::invalid_params("approval request state does not match this apply request"),
        );
    }
    match parse_approval_response(&Some(input_responses)) {
        Err(error) => Err(error),
        Ok(ApprovalDecision::Decline) => {
            let _ = context.consume_approval(state.nonce.as_str());
            Err(McpError::invalid_params("approval declined or cancelled; no files were changed"))
        },
        Ok(ApprovalDecision::Accept) => Ok(ApplyStep::Recheck(request, state)),
    }
}

/// Reads the answer of a retry out of its opened payload, given what the typed
/// reader made of that payload. State that was sealed comes back as it was.
pub fn read_mutation_approval(
    context: &mut HandlerContext,
    request: ApprovalRequest,
    payload: &Vec<u8>,
    typed: Result<MutationApprovalState, String>,
    input_responses: JsonObject,
) -> (step: Result<ApplyStep, McpError>)
    requires
        request.wf(old(context)@.session_id),
    ensures
        ({
            let state = payload_reading(payload@, opened_model(typed));
            &&& step_result(step) == retry_step(
                old(context)@,
                request@,
                state,
                input_responses@,
            )
            &&& final(context)@ == after_retry(
                old(context)@,
                request@,
                state,
                input_responses@,
            )
        }),
        forall|written: StateModel|
            payload@ == #[trigger] state_payload(written) && typed is Ok ==> step_result(step)
                == retry_step(old(context)@, request@, Ok(written), input_responses@),
        step matches Ok(step) ==> step.wf(old(context)@.session_id),
{
    let state = read_opened_state(payload, typed);
    retry_mutation_approval(context, request, state, input_responses)
}

/// What comes first for a well-formed request of a client that answers approval
/// requests and sends no answer yet.
pub open spec fn first_step(context: ContextModel, request: RequestModel) -> Result<
    StepModel,
    ErrorModel,
> {
    if context.plans.owned.contains(request.plan_id) {
        Ok(StepModel::Inspect(request))
    } else {
        Err(not_owned())
    }
}

/// Decides what comes first for an apply request.
pub fn apply_project_plan_with_approval(
    context: &mut HandlerContext,
    tool_name: &str,
    params: &WorkspaceEditApplyParams,
    request_state: Option<String>,
    input_responses: Option<JsonObject>,
    cancelled: bool,
) -> (step: Result<ApplyStep, McpError>)
    requires
        old(context)@.wf(),
    ensures
        final(context)@.wf(),
        step matches Ok(step) ==> step.wf(old(context)@.session_id),
        !old(context)@.approves_mutations() ==> {
            &&& step_result(step) == direct_step(
                old(context)@,
                tool_name@,
                *params,
                request_state is Some,
                input_responses is Some,
                cancelled,
            )
            &&& final(context)@ == stepped(old(context)@, step_result(step))
        },
        old(context)@.approves_mutations() && cancelled ==> {
            &&& step_result(step) == Err::<StepModel, ErrorModel>(
                invalid_params("mutating apply was cancelled before approval"@),
            )
            &&& final(context)@ == old(context)@
        },
        old(context)@.approves_mutations() && !cancelled ==> match requested(tool_name@, *params) {
            Err(error) => {
                &&& step_result(step) == Err::<StepModel, ErrorModel>(error)
                &&& final(context)@ == old(context)@
            },
            Ok(request) => match (request_state, input_responses) {
                (None, None) => {
                    &&& step_result(step) == first_step(old(context)@, request)
                    &&& final(context)@ == old(context)@
                },
                (None, Some(_)) => {
                    &&& step_result(step) == Err::<StepModel, ErrorModel>(
                        invalid_params("inputResponses requires the matching requestState"@),
                    )
                    &&& final(context)@ == old(context)@
                },
                (Some(_), None) => {
                    &&& step_result(step) == Err::<StepModel, ErrorModel>(
                        invalid_params("requestState requires inputResponses"@),
                    )
                    &&& final(context)@ == old(context)@
                },
                (Some(sealed), Some(responses)) => {
                    &&& exists|opened: Result<Seq<u8>, Seq<char>>|
                        {
                            &&& #[trigger] may_open(old(context)@, request, sealed@, opened)
                            &&& step_result(step) == opened_step(request, opened, responses@)
                        }
                    &&& final(context)@ == old(context)@
                },
            },
        },
{
    if !context.supports_mutation_approval() {
        return apply_project_plan_direct(
            context,
            tool_name,
            params,
            request_state.is_some(),
            input_responses.is_some(),
            cancelled,
        );
    }
    if cancelled {
        return Err(McpError::invalid_params("mutating apply was cancelled before approval"));
    }
    let request = match read_request(context.session_id(), tool_name, params) {
        Ok(request) => request,
        Err(error) => {
            return Err(error);
        },
    };
    match (request_state, input_responses) {
        (None, None) => {
            if context.owns_plan(&request.plan_id) {
                Ok(ApplyStep::Inspect(request))
            } else {
                Err(McpError::invalid_params("edit plan is not owned by this MCP session"))
            }
        },
        (Some(sealed), Some(responses)) => {
            let opened = open_approval_state(
                &context.approval_key,
                sealed.as_str(),
                &request.binding,
            );
            assert(may_open(old(context)@, request@, sealed@, payload_model(opened)));
            match opened {
                Ok(payload) => Ok(ApplyStep::Read(request, payload, responses)),
                Err(reason) => Err(unopened_error(reason.as_str())),
            }
        },
        (None, Some(_)) => Err(
            McpError::invalid_params("inputResponses requires the matching requestState"),
        ),
        (Some(_), None) => Err(McpError::invalid_params("requestState requires inputResponses")),
    }
}

/// What opening sealed state can give for a request, with the session's key and
/// the request's binding.
pub open spec fn may_open(
    context: ContextModel,
    request: RequestModel,
    sealed: Seq<char>,
    opened: Result<Seq<u8>, Seq<char>>,
) -> bool {
    may_open_as(context.key, sealed, request.binding(context.session_id), opened)
}

/// The state that is sealed when a request asks for approval.
pub open spec fn approval_state(
    session_id: Seq<char>,
    request: RequestModel,
    summary: EditPlanApprovalSummary,
    nonce: Seq<char>,
) -> StateModel {
    StateModel {
        session_id,
        principal: None,
        method: APPROVAL_METHOD@,
        tool_name: request.tool_name,
        project_id: request.project_id,
        plan_id: request.plan_id,
        arguments_digest: request.digest(),
        snapshot_hashes: texts(summary.snapshot_hashes@),
        versions: summary.versions@,
        nonce,
    }
}

/// Whether an answer asks for approval and carries the state of this request,
/// sealed for the session's key and the request's binding.
pub open spec fn asks_for_request(
    answer: InputRequired,
    context: ContextModel,
    request: RequestModel,
    summary: EditPlanApprovalSummary,
    nonce: Seq<char>,
) -> bool {
    &&& asks_approval(answer, answer.request_state@, summary)
    &&& sealed_payload(
        context.key,
        answer.request_state@,
        request.binding(context.session_id),
    ) == Ok::<Seq<u8>, Seq<char>>(
        state_payload(approval_state(context.session_id, request, summary, nonce)),
    )
}

/// Asks for approval of an inspected plan, under a given nonce.
pub fn ask_mutation_approval(
    context: &mut HandlerContext,
    request: &ApprovalRequest,
    summary: &EditPlanApprovalSummary,
    nonce: String,
) -> (answer: InputRequired)
    requires
        request.wf(old(context)@.session_id),
        summary.project_id@.len() > 0,
    ensures
        asks_for_request(answer, old(context)@, request@, *summary, nonce@),
        final(context)@ == old(context)@.with_approvals(old(context)@.approvals.insert(nonce@)),
{
    let state = MutationApprovalState {
        session_id: context.session_id().to_owned(),
        principal: None,
        method: APPROVAL_METHOD.to_owned(),
        tool_name: request.tool_name.clone(),
        project_id: request.project_id.as_str().to_owned(),
        plan_id: request.plan_id.as_str().to_owned(),
        arguments_digest: request.arguments_digest.clone(),
        snapshot_hashes: copy_texts(&summary.snapshot_hashes),
        versions: copy_versions(&summary.versions),
        nonce: nonce.clone(),
    };
    let sealed = seal_approval_state(&context.approval_key, &state, &request.binding);
    context.remember_approval(nonce);
    approval_input_required(sealed, summary)
}

fn copy_versions(versions: &Vec<Option<i32>>) -> (copy: Vec<Option<i32>>)
    ensures
        copy@ == versions@,
{
    let mut copy: Vec<Option<i32>> = Vec::new();
    let mut i: usize = 0;
    while i < versions.len()
        invariant
            i <= versions@.len(),
            copy@ == versions@.take(i as int),
        decreases versions@.len() - i,
    {
        copy.push(versions[i]);
        assert(copy@ =~= versions@.take(i + 1));
        i = i + 1;
    }
    assert(versions@.take(i as int) =~= versions@);
    copy
}

/// Asks for approval of a plan that was inspected, or reports why it could not
/// be.
pub fn prepare_mutation_approval(
    context: &mut HandlerContext,
    request: &ApprovalRequest,
    inspection: Result<EditPlanApprovalSummary, String>,
) -> (answer: Result<InputRequired, McpError>)
    requires
        request.wf(old(context)@.session_id),
        inspection matches Ok(summary) ==> summary.project_id@.len() > 0,
    ensures
        match inspection {
            Err(reason) => {
                &&& answer matches Err(error) && error@ == invalid_params(reason@)
                &&& final(context)@ == old(context)@
            },
            Ok(summary) => if !summary.safe_to_apply {
                &&& answer matches Err(error) && error@ == invalid_params(
                    "edit plan is not safe to apply"@,
                )
                &&& final(context)@ == old(context)@
            } else {
                exists|nonce: Seq<char>|
                    {
                        &&& #[trigger] is_hyphenated(nonce)
                        &&& answer matches Ok(answer) && asks_for_request(
                            answer,
                            old(context)@,
                            request@,
                            summary,
                            nonce,
                        )
                        &&& final(context)@ == old(context)@.with_approvals(
                            old(context)@.approvals.insert(nonce),
                        )
                    }
            },
        },
{
    let summary = match inspection {
        Ok(summary) => summary,
        Err(reason) => {
            return Err(McpError::invalid_params(reason.as_str()));
        },
    };
    if !summary.safe_to_apply {
        return Err(McpError::invalid_params("edit plan is not safe to apply"));
    }
    let nonce = random_text();
    Ok(ask_mutation_approval(context, request, &summary, nonce))
}

/// Why an accepted retry cannot go on, if it cannot.
pub open spec fn retry_refusal(
    context: ContextModel,
    request: RequestModel,
    state: StateModel,
    inspection: Result<EditPlanApprovalSummary, String>,
    cancelled: bool,
) -> Option<ErrorModel> {
    if inspection matches Ok(summary) && (texts(summary.snapshot_hashes@)
        != state.snapshot_hashes || summary.versions@ != state.versions) {
        Some(invalid_params("edit plan is stale; preview the change again"@))
    } else if inspection matches Err(reason) && !has_text(reason@, "edit plan not found"@) {
        Some(invalid_params(inspection->Err_0@))
    } else if cancelled {
        Some(invalid_params("mutating apply was cancelled before filesystem changes"@))
    } else if !context.approvals.contains(state.nonce) {
        Some(invalid_params("approval request has already been consumed"@))
    } else if !context.plans.claimable(request.plan_id) {
        Some(not_owned())
    } else {
        None
    }
}

fn same_texts(left: &Vec<String>, right: &Vec<String>) -> (same: bool)
    ensures
        same == (texts(left@) == texts(right@)),
{
    if left.len() != right.len() {
        assert(texts(left@).len() != texts(right@).len());
        return false;
    }
    let mut i: usize = 0;
    while i < left.len()
        invariant
            i <= left@.len(),
            left@.len() == right@.len(),
            forall|j: int| 0 <= j < i ==> (#[trigger] texts(left@)[j]) == texts(right@)[j],
        decreases left@.len() - i,
    {
        if !same_text(left[i].as_str(), right[i].as_str()) {
            assert(texts(left@)[i as int] != texts(right@)[i as int]);
            return false;
        }
        i = i + 1;
    }
    assert(texts(left@) =~= texts(right@));
    true
}

fn same_versions(left: &Vec<Option<i32>>, right: &Vec<Option<i32>>) -> (same: bool)
    ensures
        same == (left@ == right@),
{
    if left.len() != right.len() {
        return false;
    }
    let mut i: usize = 0;
    while i < left.len()
        invariant
            i <= left@.len(),
            left@.len() == right@.len(),
            forall|j: int| 0 <= j < i ==> (#[trigger] left@[j]) == right@[j],
        decreases left@.len() - i,
    {
        let equal = match (left[i], right[i]) {
            (Some(a), Some(b)) => a == b,
            (None, None) => true,
            _ => false,
        };
        if !equal {
            assert(left@[i as int] != right@[i as int]);
            return false;
        }
        i = i + 1;
    }
    assert(left@ =~= right@);
    true
}

/// Checks an accepted retry against the plan as it is now, and claims the plan.
/// A plan that is no longer stored may have been claimed by another accepted
/// retry: the duplicate joins it.
pub fn accept_mutation_retry(
    context: &mut HandlerContext,
    request: &ApprovalRequest,
    state: &MutationApprovalState,
    inspection: Result<EditPlanApprovalSummary, String>,
    cancelled: bool,
) -> (accepted: Result<(), McpError>)
    requires
        old(context)@.wf(),
    ensures
        final(context)@.wf(),
        match retry_refusal(old(context)@, request@, state@, inspection, cancelled) {
            Some(refusal) => {
                &&& accepted matches Err(error) && error@ == refusal
                &&& final(context)@ == old(context)@
            },
            None => {
                &&& accepted is Ok
                &&& final(context)@ == old(context)@.with_plans(
                    old(context)@.plans.claiming(request.plan_id@),
                )
            },
        },
{
    match inspection {
        Ok(summary) => {
            if !same_texts(&summary.snapshot_hashes, &state.snapshot_hashes) || !same_versions(
                &summary.versions,
                &state.versions,
            ) {
                return Err(
                    McpError::invalid_params("edit plan is stale; preview the change again"),
                );
            }
        },
        Err(reason) => {
            if !contains_text(reason.as_str(), "edit plan not found") {
                return Err(McpError::invalid_params(reason.as_str()));
            }
        },
    }
    if cancelled {
        return Err(
            McpError::invalid_params("mutating apply was cancelled before filesystem changes"),
        );
    }
    if !context.has_approval(state.nonce.as_str()) {
        return Err(McpError::invalid_params("approval request has already been consumed"));
    }
    if !context.claim_plan(&request.plan_id) {
        proof {
            assert(old(context)@.plans.claiming(request.plan_id@) == old(context)@.plans);
        }
        return Err(McpError::invalid_params("edit plan is not owned by this MCP session"));
    }
    Ok(())
}

/// The session's state after a claimed plan was applied: a plan that another
/// edit keeps waiting is owned again, any other is finished.
pub open spec fn after_outcome(
    context: ContextModel,
    plan: Seq<char>,
    outcome: ApplyEditPlanOutcome,
) -> ContextModel {
    if outcome is NotReady {
        context.with_plans(context.plans.remembering(plan))
    } else {
        context.with_plans(context.plans.finishing(plan))
    }
}

/// Reports the outcome of applying a claimed plan; a failed attempt leaves the
/// plan claimed.
pub fn finish_claimed_plan(
    context: &mut HandlerContext,
    project_id: &ProjectId,
    plan_id: &PlanId,
    outcome: Result<ApplyEditPlanOutcome, String>,
    roots: &Vec<FilePath>,
) -> (output: Result<StructuredOutput, McpError>)
    requires
        old(context)@.wf(),
        project_id@.len() > 0,
    ensures
        final(context)@.wf(),
        match outcome {
            Ok(outcome) => {
                &&& output matches Ok(output) && is_apply_output(
                    output,
                    apply_result(outcome, project_id@, path_texts(roots@)),
                )
                &&& final(context)@ == after_outcome(old(context)@, plan_id@, outcome)
            },
            Err(reason) => {
                &&& output matches Err(error) && error@ == invalid_params(reason@)
                &&& final(context)@ == old(context)@
            },
        },
{
    let outcome = match outcome {
        Ok(outcome) => outcome,
        Err(reason) => {
            return Err(McpError::invalid_params(reason.as_str()));
        },
    };
    match &outcome {
        ApplyEditPlanOutcome::NotReady(_) => context.remember_plan(plan_id.clone()),
        _ => context.finish_plan(plan_id),
    }
    Ok(workspace_edit_apply_json(outcome, project_id.as_str(), roots))
}

/// The session's state after an approved plan was applied: the approval is
/// consumed unless another edit keeps the plan waiting.
pub open spec fn after_approved(
    context: ContextModel,
    plan: Seq<char>,
    nonce: Seq<char>,
    outcome: ApplyEditPlanOutcome,
) -> ContextModel {
    let applied = after_outcome(context, plan, outcome);
    if outcome is NotReady {
        applied
    } else {
        applied.with_approvals(applied.approvals.remove(nonce))
    }
}

/// Reports the outcome of applying an approved plan.
pub fn finish_approved_plan(
    context: &mut HandlerContext,
    request: &ApprovalRequest,
    state: &MutationApprovalState,
    outcome: Result<ApplyEditPlanOutcome, String>,
    roots: &Vec<FilePath>,
) -> (output: Result<StructuredOutput, McpError>)
    requires
        old(context)@.wf(),
        request.wf(old(context)@.session_id),
    ensures
        final(context)@.wf(),
        match outcome {
            Ok(outcome) => {
                &&& output matches Ok(output) && is_apply_output(
                    output,
                    apply_result(outcome, request.project_id@, path_texts(roots@)),
                )
                &&& final(context)@ == after_approved(
                    old(context)@,
                    request.plan_id@,
                    state.nonce@,
                    outcome,
                )
            },
            Err(reason) => {
                &&& output matches Err(error) && error@ == invalid_params(reason@)
                &&& final(context)@ == old(context)@
            },
        },
{
    let settled = match &outcome {
        Ok(ApplyEditPlanOutcome::NotReady(_)) => false,
        Ok(_) => true,
        Err(_) => false,
    };
    let output = finish_claimed_plan(
        context,
        &request.project_id,
        &request.plan_id,
        outcome,
        roots,
    );
    if settled {
        let _ = context.consume_approval(state.nonce.as_str());
    }
    output
}

/// An approval applies once: after the plan was applied or refused for good, a
/// retry under the same nonce is refused, whatever the plan looks like then.
pub proof fn law_accepted_approval_applies_once(
    context: ContextModel,
    request: RequestModel,
    state: StateModel,
    outcome: ApplyEditPlanOutcome,
    inspection: Result<EditPlanApprovalSummary, String>,
    cancelled: bool,
)
    requires
        context.wf(),
        outcome !is NotReady,
    ensures
        retry_refusal(
            after_approved(context, request.plan_id, state.nonce, outcome),
            request,
            state,
            inspection,
            cancelled,
        ) is Some,
{
}

/// What a retry with opened state is refused with, whether its answer or the plan
/// as it is now stands against it; nothing if the plan is applied.
pub open spec fn retry_error(
    context: ContextModel,
    request: RequestModel,
    opened: Result<StateModel, Seq<char>>,
    responses: Seq<(Seq<char>, Json)>,
    inspection: Result<EditPlanApprovalSummary, String>,
    cancelled: bool,
) -> Option<ErrorModel> {
    match retry_step(context, request, opened, responses) {
        Err(error) => Some(error),
        Ok(StepModel::Recheck(request, state)) => retry_refusal(
            after_retry(context, request, opened, responses),
            request,
            state,
            inspection,
            cancelled,
        ),
        Ok(_) => None,
    }
}

/// State whose approval is no longer pending is refused, whatever the request
/// and its answer say and whatever the plan looks like.
pub proof fn law_consumed_approval_is_refused(
    context: ContextModel,
    request: RequestModel,
    state: StateModel,
    responses: Seq<(Seq<char>, Json)>,
    inspection: Result<EditPlanApprovalSummary, String>,
    cancelled: bool,
)
    requires
        !context.approvals.contains(state.nonce),
    ensures
        retry_error(
            context,
            request,
            Ok(state),
            responses,
            inspection,
            cancelled,
        ) is Some,
{
}

/// A declined or cancelled approval changes no plan and is spent: every later
/// retry with the same state is refused, whatever it says.
pub proof fn law_declined_approval_is_spent(
    context: ContextModel,
    request: RequestModel,
    state: StateModel,
    responses: Seq<(Seq<char>, Json)>,
    later: RequestModel,
    later_responses: Seq<(Seq<char>, Json)>,
    inspection: Result<EditPlanApprovalSummary, String>,
    cancelled: bool,
)
    requires
        state_matches(state, context.session_id, request),
        approval_decision(Some(responses)) == Ok::<ApprovalDecision, ErrorModel>(
            ApprovalDecision::Decline,
        ),
    ensures
        retry_step(context, request, Ok(state), responses) is Err,
        after_retry(context, request, Ok(state), responses).plans == context.plans,
        retry_error(
            after_retry(context, request, Ok(state), responses),
            later,
            Ok(state),
            later_responses,
            inspection,
            cancelled,
        ) is Some,
{
    law_consumed_approval_is_refused(
        after_retry(context, request, Ok(state), responses),
        later,
        state,
        later_responses,
        inspection,
        cancelled,
    );
}

/// An approval whose plan was applied, or refused for good, is spent: every later
/// retry with the same state is refused, whatever it says.
pub proof fn law_settled_approval_is_spent(
    context: ContextModel,
    plan: Seq<char>,
    state: StateModel,
    outcome: ApplyEditPlanOutcome,
    later: RequestModel,
    later_responses: Seq<(Seq<char>, Json)>,
    inspection: Result<EditPlanApprovalSummary, String>,
    cancelled: bool,
)
    requires
        outcome !is NotReady,
    ensures
        retry_error(
            after_approved(context, plan, state.nonce, outcome),
            later,
            Ok(state),
            later_responses,
            inspection,
            cancelled,
        ) is Some,
{
    law_consumed_approval_is_refused(
        after_approved(context, plan, state.nonce, outcome),
        later,
        state,
        later_responses,
        inspection,
        cancelled,
    );
}

/// A spent approval stays spent: no step of a retry, and no request for approval
/// under another nonce, makes it pending again.
pub proof fn law_spent_approval_stays_spent(
    context: ContextModel,
    nonce: Seq<char>,
    request: RequestModel,
    opened: Result<StateModel, Seq<char>>,
    responses: Seq<(Seq<char>, Json)>,
    outcome: ApplyEditPlanOutcome,
    other: Seq<char>,
)
    requires
        !context.approvals.contains(nonce),
        other != nonce,
    ensures
        !after_retry(context, request, opened, responses).approvals.contains(nonce),
        !context.with_plans(context.plans.claiming(request.plan_id)).approvals.contains(nonce),
        !after_outcome(context, request.plan_id, outcome).approvals.contains(nonce),
        !after_approved(context, request.plan_id, other, outcome).approvals.contains(nonce),
        !context.with_approvals(context.approvals.insert(other)).approvals.contains(nonce),
{
}

/// A plan that another edit keeps waiting can be retried under the same
/// approval: nothing but a change of the plan stands against it.
pub proof fn law_busy_plan_keeps_its_approval(
    context: ContextModel,
    request: RequestModel,
    state: StateModel,
    outcome: ApplyEditPlanOutcome,
    summary: EditPlanApprovalSummary,
)
    requires
        context.wf(),
        outcome is NotReady,
        context.approvals.contains(state.nonce),
        texts(summary.snapshot_hashes@) == state.snapshot_hashes,
        summary.versions@ == state.versions,
    ensures
        retry_refusal(
            after_approved(
                context.with_plans(context.plans.claiming(request.plan_id)),
                request.plan_id,
                state.nonce,
                outcome,
            ),
            request,
            state,
            Ok(summary),
            false,
        ) is None,
{
}

/// An approval that was asked for and accepted leads to the plan being applied:
/// state that was sealed for a request, once opened for the same request, is
/// matched, and nothing stands against the retry as long as the plan is the one
/// that was inspected.
pub proof fn law_accepted_approval_goes_on(
    context: ContextModel,
    request: RequestModel,
    summary: EditPlanApprovalSummary,
    nonce: Seq<char>,
    responses: Seq<(Seq<char>, Json)>,
)
    requires
        context.wf(),
        context.plans.owned.contains(request.plan_id),
        approval_decision(Some(responses)) == Ok::<ApprovalDecision, ErrorModel>(
            ApprovalDecision::Accept,
        ),
    ensures
        ({
            let asked = context.with_approvals(context.approvals.insert(nonce));
            let state = approval_state(context.session_id, request, summary, nonce);
            &&& retry_step(asked, request, Ok(state), responses) == Ok::<StepModel, ErrorModel>(
                StepModel::Recheck(request, state),
            )
            &&& after_retry(asked, request, Ok(state), responses) == asked
            &&& retry_refusal(asked, request, state, Ok(summary), false) is None
        }),
{
}

/// A declined, unreadable or foreign retry changes no plan, and at most uses up
/// the approval that was declined.
pub proof fn law_refused_retry_changes_no_plan(
    context: ContextModel,
    request: RequestModel,
    opened: Result<StateModel, Seq<char>>,
    responses: Seq<(Seq<char>, Json)>,
)
    requires
        retry_step(context, request, opened, responses) is Err,
    ensures
        after_retry(context, request, opened, responses).plans == context.plans,
        opened is Err ==> after_retry(context, request, opened, responses) == context,
        after_retry(context, request, opened, responses).approvals.subset_of(context.approvals),
{
}

/// A retry is stale where the plan's files have changed since it was approved: the
/// numbers of hashes differ, or the hash of one file does, whichever it is; and
/// likewise for the versions. A stale retry is refused as such, whatever else is
/// the case, and no plan is claimed for it.
pub proof fn law_changed_files_make_a_retry_stale(
    context: ContextModel,
    request: RequestModel,
    state: StateModel,
    summary: EditPlanApprovalSummary,
    cancelled: bool,
)
    requires
        ({
            ||| summary.snapshot_hashes@.len() != state.snapshot_hashes.len()
            ||| exists|i: int|
                0 <= i < summary.snapshot_hashes@.len() && (
                #[trigger] summary.snapshot_hashes@[i])@ != state.snapshot_hashes[i]
            ||| summary.versions@.len() != state.versions.len()
            ||| exists|i: int|
                0 <= i < summary.versions@.len() && #[trigger] summary.versions@[i]
                    != state.versions[i]
        }),
    ensures
        retry_refusal(context, request, state, Ok(summary), cancelled) == Some(
            invalid_params("edit plan is stale; preview the change again"@),
        ),
{
    let hashes = texts(summary.snapshot_hashes@);
    if hashes == state.snapshot_hashes && summary.versions@ == state.versions {
        assert forall|i: int| 0 <= i < summary.snapshot_hashes@.len() implies (
        #[trigger] summary.snapshot_hashes@[i])@ == state.snapshot_hashes[i] by {
            assert(hashes[i] == summary.snapshot_hashes@[i]@);
        }
    }
}

/// A retry goes through exactly where every file has the hash and the version that
/// were approved, or the plan is gone; the request was not cancelled; its approval
/// is pending; and the session knows the plan. The reasons against it are given in
/// this order.
pub proof fn law_retry_goes_through_where_nothing_changed(
    context: ContextModel,
    request: RequestModel,
    state: StateModel,
    inspection: Result<EditPlanApprovalSummary, String>,
    cancelled: bool,
)
    ensures
        ({
            let refusal = retry_refusal(context, request, state, inspection, cancelled);
            let unchanged = match inspection {
                Ok(summary) => {
                    &&& summary.snapshot_hashes@.len() == state.snapshot_hashes.len()
                    &&& forall|i: int|
                        0 <= i < summary.snapshot_hashes@.len() ==> (
                        #[trigger] summary.snapshot_hashes@[i])@ == state.snapshot_hashes[i]
                    &&& summary.versions@.len() == state.versions.len()
                    &&& forall|i: int|
                        0 <= i < summary.versions@.len() ==> #[trigger] summary.versions@[i]
                            == state.versions[i]
                },
                Err(reason) => has_text(reason@, "edit plan not found"@),
            };
            let known = {
                ||| context.plans.owned.contains(request.plan_id)
                ||| context.plans.active.contains(request.plan_id)
                ||| context.plans.terminal.contains(request.plan_id)
            };
            &&& refusal is None <==> {
                &&& unchanged
                &&& !cancelled
                &&& context.approvals.contains(state.nonce)
                &&& known
            }
            &&& !unchanged ==> refusal == Some(
                invalid_params(
                    match inspection {
                        Ok(_) => "edit plan is stale; preview the change again"@,
                        Err(reason) => reason@,
                    },
                ),
            )
            &&& unchanged && cancelled ==> refusal == Some(
                invalid_params("mutating apply was cancelled before filesystem changes"@),
            )
            &&& unchanged && !cancelled && !context.approvals.contains(state.nonce) ==> refusal
                == Some(invalid_params("approval request has already been consumed"@))
            &&& unchanged && !cancelled && context.approvals.contains(state.nonce) && !known
                ==> refusal == Some(invalid_params("edit plan is not owned by this MCP session"@))
        }),
{
    if let Ok(summary) = inspection {
        let hashes = texts(summary.snapshot_hashes@);
        assert forall|i: int| 0 <= i < hashes.len() implies #[trigger] hashes[i]
            == summary.snapshot_hashes@[i]@ by {}
        if {
            &&& summary.snapshot_hashes@.len() == state.snapshot_hashes.len()
            &&& forall|i: int|
                0 <= i < summary.snapshot_hashes@.len() ==> (#[trigger] summary.snapshot_hashes@[i])@
                    == state.snapshot_hashes[i]
        } {
            assert(hashes =~= state.snapshot_hashes);
        } else if summary.snapshot_hashes@.len() == state.snapshot_hashes.len() {
            let i = choose|i: int|
                0 <= i < summary.snapshot_hashes@.len() && (#[trigger] summary.snapshot_hashes@[i])@
                    != state.snapshot_hashes[i];
            assert(hashes[i] != state.snapshot_hashes[i]);
        }
        if summary.versions@.len() == state.versions.len() && forall|i: int|
            0 <= i < summary.versions@.len() ==> #[trigger] summary.versions@[i]
                == state.versions[i] {
            assert(summary.versions@ =~= state.versions);
        }
    }
    assert(context.plans.terminal.to_set().contains(request.plan_id) <==> context.plans.terminal.contains(
        request.plan_id,
    ));
}

/// State that was sealed for another session, principal, method, tool, project,
/// plan or set of arguments is refused as such, and nothing is spent on it.
pub proof fn law_state_of_another_request_is_refused(
    context: ContextModel,
    request: RequestModel,
    state: StateModel,
    responses: Seq<(Seq<char>, Json)>,
)
    requires
        ({
            ||| state.session_id != context.session_id
            ||| state.principal is Some
            ||| state.method != "tools/call"@
            ||| state.tool_name != request.tool_name
            ||| state.project_id != request.project_id
            ||| state.plan_id != request.plan_id
            ||| state.arguments_digest != sha256_text(
                request.project_id + "\0"@ + request.plan_id,
            )
        }),
    ensures
        retry_step(context, request, Ok(state), responses) == Err::<StepModel, ErrorModel>(
            invalid_params("approval request state does not match this apply request"@),
        ),
        after_retry(context, request, Ok(state), responses) == context,
{
}

/// State that was sealed for this very request is read by its answer. An accepted
/// one is checked again and nothing is spent; a declined one is refused, and of all
/// pending approvals only its own is spent; any other answer is refused and nothing
/// is spent. State that could not be opened is refused with the reason.
pub proof fn law_answer_decides_the_retry(
    context: ContextModel,
    request: RequestModel,
    state: StateModel,
    responses: Seq<(Seq<char>, Json)>,
    reason: Seq<char>,
    nonce: Seq<char>,
)
    requires
        state.session_id == context.session_id,
        state.principal is None,
        state.method == "tools/call"@,
        state.tool_name == request.tool_name,
        state.project_id == request.project_id,
        state.plan_id == request.plan_id,
        state.arguments_digest == sha256_text(request.project_id + "\0"@ + request.plan_id),
    ensures
        ({
            let step = retry_step(context, request, Ok(state), responses);
            let after = after_retry(context, request, Ok(state), responses);
            match approval_decision(Some(responses)) {
                Ok(ApprovalDecision::Accept) => {
                    &&& step == Ok::<StepModel, ErrorModel>(StepModel::Recheck(request, state))
                    &&& after == context
                },
                Ok(ApprovalDecision::Decline) => {
                    &&& step == Err::<StepModel, ErrorModel>(
                        invalid_params("approval declined or cancelled; no files were changed"@),
                    )
                    &&& after.plans == context.plans
                    &&& after.session_id == context.session_id
                    &&& after.key == context.key
                    &&& after.client == context.client
                    &&& after.approvals.contains(nonce) <==> context.approvals.contains(nonce)
                        && nonce != state.nonce
                },
                Err(error) => {
                    &&& step == Err::<StepModel, ErrorModel>(error)
                    &&& after == context
                },
            }
        }),
        retry_step(context, request, Err(reason), responses) == Err::<StepModel, ErrorModel>(
            invalid_params("invalid or expired approval request state: "@ + reason),
        ),
        after_retry(context, request, Err(reason), responses) == context,
{
}

/// The state that is sealed for a request holds what the request and the inspected
/// plan say: it is accepted for this request, and the hashes and versions are those
/// of the plan, file by file.
pub proof fn law_sealed_state_describes_its_request(
    session_id: Seq<char>,
    request: RequestModel,
    summary: EditPlanApprovalSummary,
    nonce: Seq<char>,
)
    ensures
        ({
            let state = approval_state(session_id, request, summary, nonce);
            &&& state.session_id == session_id
            &&& state.principal is None
            &&& state.method == "tools/call"@
            &&& state.tool_name == request.tool_name
            &&& state.project_id == request.project_id
            &&& state.plan_id == request.plan_id
            &&& state.arguments_digest == sha256_text(
                request.project_id + "\0"@ + request.plan_id,
            )
            &&& state.nonce == nonce
            &&& state.snapshot_hashes.len() == summary.snapshot_hashes@.len()
            &&& forall|i: int|
                0 <= i < state.snapshot_hashes.len() ==> #[trigger] state.snapshot_hashes[i]
                    == summary.snapshot_hashes@[i]@
            &&& state.versions.len() == summary.versions@.len()
            &&& forall|i: int|
                0 <= i < state.versions.len() ==> #[trigger] state.versions[i]
                    == summary.versions@[i]
        }),
{
}

/// A request names a project and a plan, neither of them empty, and waits as long
/// as it says, or a quarter of a second where it says nothing.
pub proof fn law_request_names_project_and_plan(
    tool_name: Seq<char>,
    params: WorkspaceEditApplyParams,
)
    ensures
        requested(tool_name, params) is Ok <==> params.project_id@.len() > 0
            && params.plan_id@.len() > 0,
        requested(tool_name, params) matches Ok(request) ==> {
            &&& request.tool_name == tool_name
            &&& request.project_id == params.project_id@
            &&& request.plan_id == params.plan_id@
            &&& params.wait_timeout_ms matches Some(wait) ==> request.wait_timeout_ms == wait
            &&& params.wait_timeout_ms is None ==> request.wait_timeout_ms == 250
        },
{
}

/// A client that cannot be asked has its plan applied at once, exactly where it
/// hands over no approval, was not cancelled, names its project and its plan, and
/// the session knows the plan. The plan is then claimed and no other is; else
/// nothing changes.
pub proof fn law_direct_apply_claims_a_known_plan(
    context: ContextModel,
    tool_name: Seq<char>,
    params: WorkspaceEditApplyParams,
    has_state: bool,
    has_responses: bool,
    cancelled: bool,
    other: Seq<char>,
)
    requires
        context.wf(),
    ensures
        ({
            let step = direct_step(context, tool_name, params, has_state, has_responses, cancelled);
            let after = stepped(context, step);
            let plan = params.plan_id@;
            &&& step is Ok <==> {
                &&& !has_state
                &&& !has_responses
                &&& !cancelled
                &&& params.project_id@.len() > 0
                &&& plan.len() > 0
                &&& (context.plans.owned.contains(plan) || context.plans.active.contains(plan)
                    || context.plans.terminal.contains(plan))
            }
            &&& step matches Ok(step) ==> {
                &&& step matches StepModel::Apply(request) && request.plan_id == plan
                    && request.project_id == params.project_id@ && request.tool_name == tool_name
                &&& !after.plans.owned.contains(plan)
                &&& after.plans.active.contains(plan) || after.plans.terminal.contains(plan)
                &&& after.approvals == context.approvals
                &&& after.plans.terminal == context.plans.terminal
                &&& other != plan ==> {
                    &&& after.plans.owned.contains(other) <==> context.plans.owned.contains(other)
                    &&& after.plans.active.contains(other) <==> context.plans.active.contains(
                        other,
                    )
                }
            }
            &&& step is Err ==> after == context
            &&& has_responses && !has_state ==> step == Err::<StepModel, ErrorModel>(
                invalid_params("inputResponses requires the matching requestState"@),
            )
            &&& has_state && !has_responses ==> step == Err::<StepModel, ErrorModel>(
                invalid_params("requestState requires inputResponses"@),
            )
            &&& has_state && has_responses ==> step == Err::<StepModel, ErrorModel>(
                invalid_params(
                    "this client does not support elicitation retries; call apply without requestState"@,
                ),
            )
            &&& !has_state && !has_responses && cancelled ==> step == Err::<StepModel, ErrorModel>(
                invalid_params("mutating apply was cancelled before filesystem changes"@),
            )
        }),
{
    assert(context.plans.terminal.to_set().contains(params.plan_id@) <==> context.plans.terminal.contains(
        params.plan_id@,
    ));
}

/// The first round of an apply that is to be approved looks at a plan that the
/// session owns, and at no other.
pub proof fn law_first_round_looks_at_an_owned_plan(context: ContextModel, request: RequestModel)
    ensures
        context.plans.owned.contains(request.plan_id) ==> first_step(context, request) == Ok::<
            StepModel,
            ErrorModel,
        >(StepModel::Inspect(request)),
        !context.plans.owned.contains(request.plan_id) ==> first_step(context, request) == Err::<
            StepModel,
            ErrorModel,
        >(invalid_params("edit plan is not owned by this MCP session"@)),
{
}

/// A claimed plan that has to wait is owned again; any other outcome settles it.
/// Other plans that are owned or being applied stay so, and an approval is spent
/// only where its own plan is settled.
pub proof fn law_outcome_settles_only_its_plan(
    context: ContextModel,
    plan: Seq<char>,
    nonce: Seq<char>,
    outcome: ApplyEditPlanOutcome,
    other: Seq<char>,
    kept: Seq<char>,
)
    requires
        context.wf(),
        context.plans.active.contains(plan),
    ensures
        ({
            let after = after_approved(context, plan, nonce, outcome);
            let plain = after_outcome(context, plan, outcome);
            &&& plain.plans == after.plans
            &&& plain.approvals == context.approvals
            &&& !after.plans.active.contains(plan)
            &&& after.plans.owned.contains(plan) <==> outcome is NotReady
            &&& after.plans.terminal.contains(plan) <==> outcome !is NotReady
            &&& other != plan ==> {
                &&& after.plans.owned.contains(other) <==> context.plans.owned.contains(other)
                &&& after.plans.active.contains(other) <==> context.plans.active.contains(other)
            }
            &&& after.approvals.contains(kept) <==> context.approvals.contains(kept) && (outcome
                is NotReady || kept != nonce)
        }),
{
    assert(context.plans.terminal.to_set().contains(plan) <==> context.plans.terminal.contains(
        plan,
    ));
    let terminal = context.plans.terminal;
    lemma_without(terminal, plan);
    assert(terminal.push(plan).last() == plan);
    assert(terminal.skip(1).push(plan).last() == plan);
    assert(terminal.push(plan)[terminal.len() as int] == plan);
    if terminal.len() >= 1 {
        assert(terminal.skip(1).push(plan)[terminal.len() - 1] == plan);
    }
}

} // verus!
