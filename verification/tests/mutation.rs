use mcpls_core::apply::{AppliedEditPlan, ApplyEditPlanOutcome, EditNotReady};
use mcpls_core::approval::{EditPlanApprovalSummary, InputRequired};
use mcpls_core::errors::McpError;
use mcpls_core::handlers::{ElicitationSupport, HandlerContext};
use mcpls_core::json::{json_str, JsonObject, JsonValue};
use mcpls_core::mutation::{
    accept_mutation_retry, apply_project_plan_with_approval, ask_mutation_approval,
    finish_approved_plan, finish_claimed_plan, prepare_mutation_approval, read_mutation_approval,
    retry_mutation_approval,
    ApplyStep, ApprovalRequest,
};
use mcpls_core::paths::FilePath;
use mcpls_core::project::PlanId;
use mcpls_core::state::{open_approval_state, read_opened_state, MutationApprovalState};
use mcpls_core::tools::WorkspaceEditApplyParams;

const TOOL: &str = "workspace_edit_apply";

fn approving() -> HandlerContext {
    let mut context = HandlerContext::for_session();
    context.set_client_capabilities(
        Some(ElicitationSupport {
            form: true,
            url: false,
        }),
        true,
    );
    context.remember_plan(PlanId::parse("plan").unwrap());
    context
}

fn params() -> WorkspaceEditApplyParams {
    WorkspaceEditApplyParams {
        project_id: "project".to_owned(),
        plan_id: "plan".to_owned(),
        wait_timeout_ms: None,
    }
}

fn summary() -> EditPlanApprovalSummary {
    EditPlanApprovalSummary {
        plan_id: PlanId::parse("plan").unwrap(),
        project_id: "project".to_owned(),
        affected_files: vec![FilePath::new("src/lib.rs")],
        operations: vec!["edit src/lib.rs".to_owned()],
        file_operations: Vec::new(),
        diff_files: Vec::new(),
        diff_truncated: false,
        safe_to_apply: true,
        snapshot_hashes: vec!["hash".to_owned()],
        versions: vec![Some(1)],
    }
}

fn answer(action: &str) -> JsonObject {
    let mut content = JsonObject::new();
    content.put("approved", JsonValue::Bool(true));
    let mut entry = JsonObject::new();
    entry.put("action", json_str(action));
    entry.put("content", content.into_value());
    let mut responses = JsonObject::new();
    responses.put("approval", entry.into_value());
    responses
}

fn applied() -> ApplyEditPlanOutcome {
    ApplyEditPlanOutcome::Applied(AppliedEditPlan {
        plan_id: PlanId::parse("plan").unwrap(),
        operations: vec!["edit src/lib.rs".to_owned()],
        unified_diff: "diff".to_owned(),
        complete_unified_diff: "diff".to_owned(),
        committed_files: vec![FilePath::new("/workspace/src/lib.rs")],
        verification: None,
        provider_synchronization: Vec::new(),
    })
}

fn busy() -> ApplyEditPlanOutcome {
    ApplyEditPlanOutcome::NotReady(EditNotReady {
        plan_id: PlanId::parse("plan").unwrap(),
        blocked_paths: Vec::new(),
        retry_after_ms: 10,
    })
}

/// State that no test seals: what was sealed comes back in its place.
fn other_state() -> MutationApprovalState {
    MutationApprovalState {
        session_id: "other".to_owned(),
        principal: None,
        method: String::new(),
        tool_name: String::new(),
        project_id: String::new(),
        plan_id: String::new(),
        arguments_digest: String::new(),
        snapshot_hashes: Vec::new(),
        versions: Vec::new(),
        nonce: String::new(),
    }
}

fn begin(context: &mut HandlerContext) -> ApprovalRequest {
    match apply_project_plan_with_approval(context, TOOL, &params(), None, None, false).unwrap() {
        ApplyStep::Inspect(request) => request,
        other => panic!("expected an inspection, got {other:?}"),
    }
}

fn ask(context: &mut HandlerContext) -> InputRequired {
    let request = begin(context);
    prepare_mutation_approval(context, &request, Ok(summary())).unwrap()
}

fn retry(
    context: &mut HandlerContext,
    sealed: &str,
    action: &str,
) -> Result<(ApprovalRequest, MutationApprovalState), McpError> {
    let step = apply_project_plan_with_approval(
        context,
        TOOL,
        &params(),
        Some(sealed.to_owned()),
        Some(answer(action)),
        false,
    )?;
    let ApplyStep::Read(request, payload, responses) = step else {
        panic!("expected a payload, got {step:?}");
    };
    match read_mutation_approval(context, request, &payload, Ok(other_state()), responses)? {
        ApplyStep::Recheck(request, state) => Ok((request, state)),
        other => panic!("expected a recheck, got {other:?}"),
    }
}

fn roots() -> Vec<FilePath> {
    vec![FilePath::new("/workspace")]
}

#[test]
fn first_round_asks_for_approval_and_changes_no_plan() {
    let mut context = approving();
    let request = ask(&mut context);
    assert_eq!(request.input_id, "approval");
    assert_eq!(
        request.message,
        "Approve text_edit affecting 1 workspace file(s)?"
    );
    assert!(context.owns_plan(&PlanId::parse("plan").unwrap()));
    assert_eq!(context.pending_approvals.nonces.len(), 1);
}

#[test]
fn acceptance_applies_once_and_a_replay_is_refused() {
    let mut context = approving();
    let sealed = ask(&mut context).request_state;
    let (request, state) = retry(&mut context, &sealed, "accept").unwrap();
    accept_mutation_retry(&mut context, &request, &state, Ok(summary()), false).unwrap();
    let output =
        finish_approved_plan(&mut context, &request, &state, Ok(applied()), &roots()).unwrap();
    assert_eq!(
        output.value.get("status").unwrap().as_str(),
        Some("applied")
    );

    let (request, state) = retry(&mut context, &sealed, "accept").unwrap();
    let gone = Err("edit plan not found: plan".to_owned());
    let error = accept_mutation_retry(&mut context, &request, &state, gone, false).unwrap_err();
    assert_eq!(error.message, "approval request has already been consumed");
}

#[test]
fn a_busy_plan_can_be_retried_under_the_same_approval() {
    let mut context = approving();
    let sealed = ask(&mut context).request_state;
    let (request, state) = retry(&mut context, &sealed, "accept").unwrap();
    accept_mutation_retry(&mut context, &request, &state, Ok(summary()), false).unwrap();
    let output =
        finish_approved_plan(&mut context, &request, &state, Ok(busy()), &roots()).unwrap();
    assert_eq!(
        output.value.get("status").unwrap().as_str(),
        Some("not_ready")
    );
    assert!(context.has_approval(&state.nonce));
    assert!(context.owns_plan(&request.plan_id));

    let (request, state) = retry(&mut context, &sealed, "accept").unwrap();
    accept_mutation_retry(&mut context, &request, &state, Ok(summary()), false).unwrap();
}

#[test]
fn declining_or_tampering_leaves_the_plan_alone() {
    let mut context = approving();
    let sealed = ask(&mut context).request_state;
    let tampered = format!("{sealed}x");
    let error = retry(&mut context, &tampered, "accept").unwrap_err();
    assert!(error
        .message
        .starts_with("invalid or expired approval request state: "));
    assert_eq!(context.pending_approvals.nonces.len(), 1);

    let error = retry(&mut context, &sealed, "decline").unwrap_err();
    assert_eq!(
        error.message,
        "approval declined or cancelled; no files were changed"
    );
    assert_eq!(context.pending_approvals.nonces.len(), 0);
    assert!(context.owns_plan(&PlanId::parse("plan").unwrap()));
}

#[test]
fn sealed_state_of_another_tool_is_refused() {
    let mut context = approving();
    let sealed = ask(&mut context).request_state;
    let error = apply_project_plan_with_approval(
        &mut context,
        "rename_apply",
        &params(),
        Some(sealed),
        Some(answer("accept")),
        false,
    )
    .unwrap_err();
    assert!(error
        .message
        .starts_with("invalid or expired approval request state: "));
}

#[test]
fn state_that_does_not_match_the_request_is_refused() {
    let mut context = approving();
    let request = begin(&mut context);
    let asked = ask_mutation_approval(&mut context, &request, &summary(), "nonce".to_owned());
    let payload = open_approval_state(
        &context.approval_key,
        &asked.request_state,
        &request.binding,
    )
    .unwrap();
    let mut state = read_opened_state(&payload, Ok(other_state())).unwrap();
    assert_eq!(state.nonce, "nonce");
    assert_eq!(state.snapshot_hashes, vec!["hash".to_owned()]);
    state.plan_id = "other".to_owned();
    let error = retry_mutation_approval(&mut context, request, Ok(state), answer("accept"))
        .unwrap_err();
    assert_eq!(
        error.message,
        "approval request state does not match this apply request"
    );
}

#[test]
fn accepted_retries_are_checked_against_the_plan() {
    let mut context = approving();
    let sealed = ask(&mut context).request_state;
    let (request, state) = retry(&mut context, &sealed, "accept").unwrap();

    let mut stale = summary();
    stale.snapshot_hashes = vec!["other".to_owned()];
    let error =
        accept_mutation_retry(&mut context, &request, &state, Ok(stale), false).unwrap_err();
    assert_eq!(error.message, "edit plan is stale; preview the change again");
    let mut stale = summary();
    stale.versions = vec![None];
    let error =
        accept_mutation_retry(&mut context, &request, &state, Ok(stale), false).unwrap_err();
    assert_eq!(error.message, "edit plan is stale; preview the change again");

    let failed = Err("actor stopped".to_owned());
    let error = accept_mutation_retry(&mut context, &request, &state, failed, false).unwrap_err();
    assert_eq!(error.message, "actor stopped");

    let error =
        accept_mutation_retry(&mut context, &request, &state, Ok(summary()), true).unwrap_err();
    assert_eq!(
        error.message,
        "mutating apply was cancelled before filesystem changes"
    );

    let gone = Err("edit plan not found: plan".to_owned());
    accept_mutation_retry(&mut context, &request, &state, gone, false).unwrap();
}

#[test]
fn malformed_rounds_are_refused() {
    let mut context = approving();
    let call = |context: &mut HandlerContext, state: Option<&str>, has_answer: bool, cancelled| {
        apply_project_plan_with_approval(
            context,
            TOOL,
            &params(),
            state.map(str::to_owned),
            has_answer.then_some(answer("accept")),
            cancelled,
        )
        .unwrap_err()
        .message
    };
    assert_eq!(
        call(&mut context, None, true, false),
        "inputResponses requires the matching requestState"
    );
    assert_eq!(
        call(&mut context, Some("state"), false, false),
        "requestState requires inputResponses"
    );
    assert_eq!(
        call(&mut context, None, false, true),
        "mutating apply was cancelled before approval"
    );

    let mut unowned = HandlerContext::for_session();
    unowned.client = context.client;
    assert_eq!(
        call(&mut unowned, None, false, false),
        "edit plan is not owned by this MCP session"
    );
    let mut unnamed = params();
    unnamed.plan_id = String::new();
    let error =
        apply_project_plan_with_approval(&mut context, TOOL, &unnamed, None, None, false)
            .unwrap_err();
    assert_eq!(error.message, "plan id must not be empty");
    unnamed.project_id = String::new();
    let error =
        apply_project_plan_with_approval(&mut context, TOOL, &unnamed, None, None, false)
            .unwrap_err();
    assert_eq!(error.message, "project id must not be empty");
}

#[test]
fn inspections_can_stop_an_approval_round() {
    let mut context = approving();
    let request = begin(&mut context);
    let error = prepare_mutation_approval(&mut context, &request, Err("actor stopped".to_owned()))
        .unwrap_err();
    assert_eq!(error.message, "actor stopped");
    let mut unsafe_plan = summary();
    unsafe_plan.safe_to_apply = false;
    let error = prepare_mutation_approval(&mut context, &request, Ok(unsafe_plan)).unwrap_err();
    assert_eq!(error.message, "edit plan is not safe to apply");
    assert_eq!(context.pending_approvals.nonces.len(), 0);
}

#[test]
fn clients_without_elicitation_apply_at_once() {
    let mut context = HandlerContext::for_session();
    context.remember_plan(PlanId::parse("plan").unwrap());
    let direct = |context: &mut HandlerContext, state: Option<&str>, has_answer: bool, cancelled| {
        apply_project_plan_with_approval(
            context,
            TOOL,
            &params(),
            state.map(str::to_owned),
            has_answer.then_some(answer("accept")),
            cancelled,
        )
    };
    assert_eq!(
        direct(&mut context, Some("state"), true, false)
            .unwrap_err()
            .message,
        "this client does not support elicitation retries; call apply without requestState"
    );
    assert_eq!(
        direct(&mut context, None, true, false).unwrap_err().message,
        "inputResponses requires the matching requestState"
    );
    assert_eq!(
        direct(&mut context, Some("state"), false, false)
            .unwrap_err()
            .message,
        "requestState requires inputResponses"
    );
    assert_eq!(
        direct(&mut context, None, false, true).unwrap_err().message,
        "mutating apply was cancelled before filesystem changes"
    );

    let ApplyStep::Apply(request) = direct(&mut context, None, false, false).unwrap() else {
        panic!("expected the plan to be claimed");
    };
    assert_eq!(request.wait_timeout_ms, 250);
    assert!(!context.owns_plan(&request.plan_id));
    let failed = finish_claimed_plan(
        &mut context,
        &request.project_id,
        &request.plan_id,
        Err("disk full".to_owned()),
        &roots(),
    );
    assert_eq!(failed.unwrap_err().message, "disk full");
    let output = finish_claimed_plan(
        &mut context,
        &request.project_id,
        &request.plan_id,
        Ok(applied()),
        &roots(),
    )
    .unwrap();
    assert_eq!(
        output.value.get("status").unwrap().as_str(),
        Some("applied")
    );
    assert!(context.recognizes_plan(&request.plan_id));
    assert!(direct(&mut context, None, false, false).is_ok());

    let mut other = HandlerContext::for_session();
    assert_eq!(
        direct(&mut other, None, false, false).unwrap_err().message,
        "edit plan is not owned by this MCP session"
    );
}

#[test]
fn a_declined_approval_is_spent() {
    let mut context = approving();
    let sealed = ask(&mut context).request_state;
    retry(&mut context, &sealed, "decline").unwrap_err();

    let error = retry(&mut context, &sealed, "cancel").unwrap_err();
    assert_eq!(
        error.message,
        "approval declined or cancelled; no files were changed"
    );
    let (request, state) = retry(&mut context, &sealed, "accept").unwrap();
    let error =
        accept_mutation_retry(&mut context, &request, &state, Ok(summary()), false).unwrap_err();
    assert_eq!(error.message, "approval request has already been consumed");
    assert!(context.owns_plan(&request.plan_id));
}

#[test]
fn unreadable_state_is_refused_in_the_words_of_its_reader() {
    let mut context = approving();
    let sealed = ask(&mut context).request_state;
    let step = apply_project_plan_with_approval(
        &mut context,
        TOOL,
        &params(),
        Some(sealed),
        Some(answer("accept")),
        false,
    )
    .unwrap();
    let ApplyStep::Read(request, payload, responses) = step else {
        panic!("expected a payload, got {step:?}");
    };
    let words = Err("duplicate field `nonce` at line 1 column 9".to_owned());
    let error =
        read_mutation_approval(&mut context, request, &payload, words, responses).unwrap_err();
    assert_eq!(
        error.message,
        "invalid or expired approval request state: failed to deserialize request state payload: \
         duplicate field `nonce` at line 1 column 9"
    );
    assert_eq!(context.pending_approvals.nonces.len(), 1);
}
