use mcpls_core::json::{json_str, JsonObject, JsonValue};
use mcpls_core::state::{
    open_approval_state, read_approval_state, read_opened_state, seal_approval_state,
    sealing_request, versions_value, MutationApprovalState, APPROVAL_TTL_SECONDS, EXPIRED_STATE,
    UNREADABLE_STATE,
};
use rmcp::model::{RequestStateCodec, SealOptions};
use std::time::{Duration, Instant};

fn state() -> MutationApprovalState {
    MutationApprovalState {
        session_id: "session".to_owned(),
        principal: None,
        method: "tools/call".to_owned(),
        tool_name: "workspace_edit_apply".to_owned(),
        project_id: "project \"quoted\" \u{1}".to_owned(),
        plan_id: "plan".to_owned(),
        arguments_digest: "digest".to_owned(),
        snapshot_hashes: vec!["first".to_owned(), "sécond".to_owned()],
        versions: vec![Some(-7), None, Some(i32::MAX)],
        nonce: "nonce".to_owned(),
    }
}

fn other() -> MutationApprovalState {
    let mut other = state();
    other.session_id = "other".to_owned();
    other
}

fn key() -> Vec<u8> {
    (0..32).collect()
}

#[test]
fn sealed_state_opens_to_what_was_sealed() {
    let binding = b"binding".to_vec();
    let sealed = seal_approval_state(&key(), &state(), &binding);
    assert_ne!(sealed, "");
    let payload = open_approval_state(&key(), &sealed, &binding).unwrap();
    assert_eq!(read_opened_state(&payload, Ok(other())).unwrap(), state());
    let mut owned = state();
    owned.principal = Some("someone".to_owned());
    let sealed = seal_approval_state(&key(), &owned, &binding);
    let payload = open_approval_state(&key(), &sealed, &binding).unwrap();
    assert_eq!(read_opened_state(&payload, Ok(other())).unwrap(), owned);
}

#[test]
fn sealed_state_is_bound_to_key_and_binding() {
    let binding = b"binding".to_vec();
    let sealed = seal_approval_state(&key(), &state(), &binding);
    assert!(open_approval_state(&key(), &sealed, &b"other".to_vec()).is_err());
    let other_key: Vec<u8> = (1..33).collect();
    assert!(open_approval_state(&other_key, &sealed, &binding).is_err());
    assert!(open_approval_state(&key(), "rs1.bad", &binding).is_err());
    let mut tampered = sealed.clone();
    tampered.push('A');
    assert!(open_approval_state(&key(), &tampered, &binding).is_err());
}

#[test]
fn state_needs_every_field() {
    let mut fields = JsonObject::new();
    for key in [
        "session_id",
        "method",
        "tool_name",
        "project_id",
        "plan_id",
        "arguments_digest",
        "nonce",
    ] {
        fields.put(key, json_str(key));
    }
    fields.put("snapshot_hashes", JsonValue::Array(Vec::new()));
    assert!(read_approval_state(&JsonValue::Object(fields)).is_none());
    assert!(read_approval_state(&JsonValue::Null).is_none());
}

#[test]
fn state_reads_absent_principals_as_none() {
    let mut fields = JsonObject::new();
    for key in [
        "session_id",
        "method",
        "tool_name",
        "project_id",
        "plan_id",
        "arguments_digest",
        "nonce",
    ] {
        fields.put(key, json_str(key));
    }
    fields.put("snapshot_hashes", JsonValue::Array(vec![json_str("hash")]));
    fields.put("versions", versions_value(&vec![Some(1), None]));
    let state = read_approval_state(&JsonValue::Object(fields)).unwrap();
    assert_eq!(state.principal, None);
    assert_eq!(state.session_id, "session_id");
    assert_eq!(state.snapshot_hashes, vec!["hash".to_owned()]);
    assert_eq!(state.versions, vec![Some(1), None]);
}

#[test]
fn opened_payloads_are_read_or_refused() {
    let words = Err("missing field `nonce` at line 1 column 2".to_owned());
    assert_eq!(
        read_opened_state(&b"{}".to_vec(), words).unwrap_err(),
        "failed to deserialize request state payload: missing field `nonce` at line 1 column 2"
    );
    let payload = r#"{"session_id":"s","principal":null,"method":"m","tool_name":"t",
        "project_id":"p","plan_id":"l","arguments_digest":"d","snapshot_hashes":["h"],
        "versions":[1,null],"nonce":"n"}"#;
    let state = read_opened_state(&payload.as_bytes().to_vec(), Ok(other())).unwrap();
    assert_eq!(state.nonce, "n");
    assert_eq!(state.versions, vec![Some(1), None]);
    let deep = format!("{}{}", "[".repeat(1_000), "]".repeat(1_000));
    assert_eq!(
        read_opened_state(&deep.into_bytes(), Ok(other())).unwrap(),
        other()
    );
}

#[test]
fn refused_texts_name_their_reason() {
    let binding = b"binding".to_vec();
    let sealed = seal_approval_state(&key(), &state(), &binding);
    let refusal = |text: &str, binding: &[u8]| {
        open_approval_state(&key(), text, &binding.to_vec()).unwrap_err()
    };
    assert_eq!(
        refusal(&sealed, b"other"),
        "request state failed integrity verification"
    );
    assert_eq!(
        refusal("rs1.bad", &binding),
        "request state is malformed or uses an unsupported format"
    );
    assert_eq!(
        refusal("rs1.!.!", &binding),
        "request state is not valid base64url"
    );
}

#[test]
fn expired_texts_are_refused_as_expired() {
    let options = SealOptions::new()
        .associated_data(b"binding")
        .ttl(Duration::from_millis(1));
    let sealed = RequestStateCodec::new_unchecked(key()).seal_with(b"{}", &options);
    let start = Instant::now();
    while start.elapsed() < Duration::from_millis(20) {}
    assert_eq!(
        open_approval_state(&key(), &sealed, &b"binding".to_vec()).unwrap_err(),
        EXPIRED_STATE
    );
}

#[test]
fn authentic_texts_give_their_payload() {
    let options = SealOptions::new().associated_data(b"binding");
    let sealed = RequestStateCodec::new_unchecked(key()).seal_with(b"{}", &options);
    assert_eq!(
        open_approval_state(&key(), &sealed, &b"binding".to_vec()).unwrap(),
        b"{}".to_vec()
    );
}

#[test]
fn state_is_sealed_for_the_approval_time() {
    let request = sealing_request(&state(), &b"binding".to_vec());
    assert_eq!(request.ttl_seconds, APPROVAL_TTL_SECONDS);
    assert_eq!(request.ttl_seconds, 300);
    assert_eq!(request.context, b"binding".to_vec());
    assert_eq!(
        read_opened_state(&request.payload, Ok(other())).unwrap(),
        state()
    );
}

#[test]
fn listed_state_is_read_in_order() {
    let listed = r#"["s","someone","m","t","p","l","d",["h"],[1,null],"n"]"#;
    let state = read_opened_state(&listed.as_bytes().to_vec(), Ok(other())).unwrap();
    assert_eq!(state.principal.as_deref(), Some("someone"));
    assert_eq!(state.plan_id, "l");
    assert_eq!(state.versions, vec![Some(1), None]);
    assert_eq!(state.nonce, "n");
    let short = r#"["s",null,"m","t","p","l","d",["h"],[1,null]]"#;
    assert!(read_approval_state(&JsonValue::Array(Vec::new())).is_none());
    let words = Err("invalid length 9".to_owned());
    assert_eq!(
        read_opened_state(&short.as_bytes().to_vec(), words).unwrap_err(),
        format!("{UNREADABLE_STATE}invalid length 9")
    );
}
