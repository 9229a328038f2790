use mcpls_core::handlers::{
    ClientFeatures, ElicitationSupport, HandlerContext, PendingApprovals, SessionEditPlans,
    MAX_CLAIMED_PLAN_IDS,
};
use mcpls_core::project::PlanId;

fn plan(text: &str) -> PlanId {
    PlanId::parse(text).unwrap()
}

#[test]
fn plans_belong_to_the_session_that_previewed_them() {
    let mut first = SessionEditPlans::new();
    let mut second = SessionEditPlans::new();
    first.remember(plan("plan"));

    assert!(first.owns(&plan("plan")));
    assert!(!second.owns(&plan("plan")));
    assert!(!second.claim(&plan("plan")));
    assert!(first.claim(&plan("plan")));
    assert!(!first.owns(&plan("plan")));
    assert!(first.recognizes(&plan("plan")));
}

#[test]
fn claims_can_be_repeated_until_the_plan_is_forgotten() {
    let mut plans = SessionEditPlans::new();
    plans.remember(plan("plan"));
    assert!(plans.claim(&plan("plan")));
    assert!(plans.claim(&plan("plan")));
    plans.finish(&plan("plan"));
    assert!(plans.claim(&plan("plan")));

    for index in 0..MAX_CLAIMED_PLAN_IDS {
        let other = plan(&format!("other-{index}"));
        plans.remember(other.clone());
        assert!(plans.claim(&other));
        plans.finish(&other);
    }
    assert!(!plans.recognizes(&plan("plan")));
    assert!(!plans.claim(&plan("plan")));
    assert!(plans.recognizes(&plan("other-0")));
    assert_eq!(plans.terminal.len(), MAX_CLAIMED_PLAN_IDS);
}

#[test]
fn finishing_needs_a_claim() {
    let mut plans = SessionEditPlans::new();
    plans.remember(plan("plan"));
    plans.finish(&plan("plan"));
    assert!(plans.owns(&plan("plan")));
    plans.finish(&plan("unknown"));
    assert!(!plans.recognizes(&plan("unknown")));
}

#[test]
fn a_busy_plan_goes_back_to_its_owner() {
    let mut plans = SessionEditPlans::new();
    plans.remember(plan("plan"));
    assert!(plans.claim(&plan("plan")));
    plans.remember(plan("plan"));
    assert!(plans.owns(&plan("plan")));
    assert_eq!(plans.active.len(), 0);
    assert!(plans.claim(&plan("plan")));
    plans.finish(&plan("plan"));
    plans.remember(plan("plan"));
    assert_eq!(plans.terminal.len(), 0);
}

#[test]
fn approvals_are_consumed_once() {
    let mut approvals = PendingApprovals::new();
    assert!(!approvals.has("nonce"));
    approvals.remember("nonce".to_owned());
    approvals.remember("nonce".to_owned());
    assert!(approvals.has("nonce"));
    assert!(approvals.consume("nonce"));
    assert!(!approvals.consume("nonce"));
    assert!(!approvals.has("nonce"));
}

#[test]
fn forms_are_supported_when_named_or_when_nothing_is() {
    let cases = [
        (None, None),
        (Some((true, false)), Some(true)),
        (Some((true, true)), Some(true)),
        (Some((false, false)), Some(true)),
        (Some((false, true)), Some(false)),
    ];
    for (declared, expected) in cases {
        let declared = declared.map(|(form, url)| ElicitationSupport { form, url });
        let features = ClientFeatures::declared(declared, true);
        assert_eq!(features.form_elicitation, expected);
        assert_eq!(features.supports_mutation_approval(), expected == Some(true));
        let old = ClientFeatures::declared(declared, false);
        assert!(!old.supports_mutation_approval());
    }
    assert!(!ClientFeatures::unknown().supports_form_elicitation());
}

#[test]
fn sessions_have_identities_of_their_own() {
    let first = HandlerContext::for_session();
    let second = HandlerContext::for_session();
    assert_eq!(first.session_id().len(), 36);
    assert_eq!(first.session_id().as_bytes()[8], b'-');
    assert_eq!(first.approval_key.len(), 32);
    assert_ne!(first.session_id(), second.session_id());
    assert_ne!(first.approval_key, second.approval_key);
    assert!(!first.supports_mutation_approval());
    assert_eq!(
        first.client,
        ClientFeatures {
            form_elicitation: None,
            multi_round_trip: None,
        }
    );
    let digits = first.session_id().as_bytes();
    assert_eq!(digits[14], b'4');
    assert!(b"89ab".contains(&digits[19]));
    for half in first.approval_key.chunks(16) {
        assert_eq!(half[6] >> 4, 4);
        assert_eq!(half[8] >> 6, 2);
    }
}

#[test]
fn contexts_keep_plans_and_approvals() {
    let mut context = HandlerContext::new("session".to_owned(), vec![0; 32]);
    context.remember_plan(plan("plan"));
    assert!(context.owns_plan(&plan("plan")));
    assert!(context.claim_plan(&plan("plan")));
    assert!(!context.owns_plan(&plan("plan")));
    context.finish_plan(&plan("plan"));
    assert!(context.recognizes_plan(&plan("plan")));
    context.remember_approval("nonce".to_owned());
    assert!(context.has_approval("nonce"));
    assert!(context.consume_approval("nonce"));
    assert!(!context.has_approval("nonce"));
    context.set_client_capabilities(
        Some(ElicitationSupport {
            form: true,
            url: false,
        }),
        true,
    );
    assert!(context.supports_form_elicitation());
    assert!(context.supports_mutation_approval());
    context.set_client_capabilities(None, true);
    assert!(!context.supports_form_elicitation());
}

#[test]
fn edit_plan_ownership_is_local_to_one_session() {
    let mut context = HandlerContext::for_session();
    let mut session = HandlerContext::for_session();
    let plan_id = plan("plan");

    context.remember_plan(plan_id.clone());

    assert!(context.claim_plan(&plan_id));
    assert!(context.claim_plan(&plan_id));
    assert!(!session.claim_plan(&plan_id));
}
