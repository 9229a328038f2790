use mcpls_core::digest::sha256_hex;
use mcpls_core::json::{json_str, json_strings, render, JsonObject, JsonValue};
use mcpls_core::pages::{
    applied_edit_result_resource_page, deferred_resource_page, edit_approval_resource_page,
    edit_diff_resource_page, read_result_value, MAX_SEMANTIC_RESOURCE_RESULT_BYTES,
};
use mcpls_core::project::{PlanId, ProjectId};
use mcpls_core::session::{parse_session_resource_uri, DeferredResource, SessionResource};
use mcpls_core::tools::SemanticResourceReadResult;

fn page_bytes(page: &SemanticResourceReadResult) -> usize {
    render(&read_result_value(page)).len()
}

fn one_list(key: &str, items: Vec<String>) -> JsonValue {
    let mut fields = JsonObject::new();
    fields.put(key, json_strings(&items));
    fields.into_map()
}

#[test]
fn deferred_resource_pages_are_bounded_and_lossless() {
    const PAGE_LIMIT: usize = 16 * 1024;
    let value = one_list(
        "references",
        vec!["λ\"".repeat(MAX_SEMANTIC_RESOURCE_RESULT_BYTES)],
    );
    let expected = render(&value);
    let mut offset_bytes = 0;
    let mut actual = String::new();

    loop {
        let deferred = DeferredResource {
            token: "token".to_owned(),
            offset_bytes,
        };
        let result = deferred_resource_page(
            &deferred,
            &format!("mcpls-deferred:///token?offset_bytes={offset_bytes}"),
            &value,
            "snapshot",
        )
        .unwrap();
        assert!(page_bytes(&result) <= PAGE_LIMIT);
        assert_eq!(result.total_bytes, Some(expected.len()));
        assert_eq!(result.offset_bytes, Some(offset_bytes));
        assert_eq!(result.returned_bytes, Some(result.text.len()));
        assert_eq!(result.snapshot_hash.as_deref(), Some("snapshot"));
        assert_eq!(
            result.remaining_bytes,
            Some(expected.len() - offset_bytes - result.text.len())
        );
        actual.push_str(&result.text);
        let Some(next_uri) = result.next_uri else {
            break;
        };
        let SessionResource::Deferred(next) = parse_session_resource_uri(&next_uri).unwrap() else {
            panic!("continuation must remain a deferred resource");
        };
        offset_bytes = next.offset_bytes;
    }

    assert_eq!(actual, expected);
}

#[test]
fn approval_detail_resource_pages_complete_json() {
    let project_id = ProjectId::new("project").unwrap();
    let plan_id = PlanId::parse("plan").unwrap();
    let detail = render(&one_list(
        "operations",
        vec!["x".repeat(MAX_SEMANTIC_RESOURCE_RESULT_BYTES)],
    ));
    let mut offset_bytes = 0;
    let mut recovered = String::new();
    for _ in 0..8 {
        let page =
            edit_approval_resource_page(&project_id, &plan_id, offset_bytes, &detail).unwrap();
        assert_eq!(page.mime_type, "application/json");
        assert!(page_bytes(&page) <= MAX_SEMANTIC_RESOURCE_RESULT_BYTES);
        recovered.push_str(&page.text);
        let Some(next_uri) = page.next_uri else { break };
        let SessionResource::EditApproval {
            offset_bytes: next, ..
        } = parse_session_resource_uri(&next_uri).unwrap()
        else {
            panic!("continuation must remain an approval resource");
        };
        offset_bytes = next;
    }
    assert_eq!(recovered, detail);
}

#[test]
fn applied_edit_result_resource_pages_complete_json() {
    let project_id = ProjectId::new("project").unwrap();
    let plan_id = PlanId::parse("plan").unwrap();
    let detail = render(&one_list(
        "operations",
        vec!["x".repeat(MAX_SEMANTIC_RESOURCE_RESULT_BYTES)],
    ));
    let mut offset_bytes = 0;
    let mut recovered = String::new();
    for _ in 0..8 {
        let page = applied_edit_result_resource_page(&project_id, &plan_id, offset_bytes, &detail)
            .unwrap();
        assert_eq!(page.mime_type, "application/json");
        assert!(page_bytes(&page) <= MAX_SEMANTIC_RESOURCE_RESULT_BYTES);
        recovered.push_str(&page.text);
        let Some(next_uri) = page.next_uri else {
            break;
        };
        let SessionResource::AppliedEditResult {
            offset_bytes: next, ..
        } = parse_session_resource_uri(&next_uri).unwrap()
        else {
            panic!("continuation must remain an applied edit result resource");
        };
        offset_bytes = next;
    }
    assert_eq!(recovered, detail);
    assert!(serde_json::from_str::<serde_json::Value>(&recovered).is_ok());
}

#[test]
fn diff_pages_carry_the_digest_of_the_whole_diff() {
    let project_id = ProjectId::new("project").unwrap();
    let plan_id = PlanId::parse("plan").unwrap();
    let diff = "+é\n".repeat(9_000);
    let mut offset_bytes = 0;
    let mut recovered = String::new();
    loop {
        let page = edit_diff_resource_page(&project_id, &plan_id, offset_bytes, &diff).unwrap();
        assert_eq!(page.mime_type, "text/x-diff");
        assert_eq!(page.snapshot_hash, Some(sha256_hex(&diff)));
        assert!(page_bytes(&page) <= MAX_SEMANTIC_RESOURCE_RESULT_BYTES);
        recovered.push_str(&page.text);
        let Some(next_uri) = page.next_uri else { break };
        assert_eq!(
            next_uri,
            format!(
                "mcpls-edit-diff:///project?plan_id=plan&offset_bytes={}",
                recovered.len()
            )
        );
        offset_bytes = recovered.len();
    }
    assert_eq!(recovered, diff);
}

#[test]
fn page_offsets_must_lie_on_a_character() {
    let project_id = ProjectId::new("project").unwrap();
    let plan_id = PlanId::parse("plan").unwrap();
    for offset in [1, 3] {
        let error = edit_diff_resource_page(&project_id, &plan_id, offset, "é").unwrap_err();
        assert_eq!(
            error.message,
            "invalid edit diff offset; restart from the original URI"
        );
        let error =
            applied_edit_result_resource_page(&project_id, &plan_id, offset, "é").unwrap_err();
        assert_eq!(
            error.message,
            "invalid applied edit result offset; restart from the original URI"
        );
    }
    let end = edit_diff_resource_page(&project_id, &plan_id, 2, "é").unwrap();
    assert_eq!(end.text, "");
    assert_eq!(end.next_uri, None);
}

#[test]
fn a_page_whose_address_fills_the_budget_is_refused() {
    let deferred = DeferredResource {
        token: "token".to_owned(),
        offset_bytes: 0,
    };
    let error = deferred_resource_page(
        &deferred,
        &"u".repeat(MAX_SEMANTIC_RESOURCE_RESULT_BYTES),
        &json_str("payload"),
        "snapshot",
    )
    .unwrap_err();
    assert_eq!(
        error.message,
        "deferred resource metadata exceeds the response budget"
    );
}

#[test]
fn approval_pages_are_fitted_under_their_own_uris() {
    let project_id = ProjectId::new("project").unwrap();
    let plan_id = PlanId::parse("plan").unwrap();
    let mut met = false;
    for quotes in 7_500..8_192 {
        let detail = format!("{}{}", "\"".repeat(quotes), "x".repeat(20_000 - quotes));
        let receipt =
            applied_edit_result_resource_page(&project_id, &plan_id, 0, &detail).unwrap();
        let approval = edit_approval_resource_page(&project_id, &plan_id, 0, &detail).unwrap();
        assert!(page_bytes(&receipt) <= MAX_SEMANTIC_RESOURCE_RESULT_BYTES);
        assert!(page_bytes(&approval) <= MAX_SEMANTIC_RESOURCE_RESULT_BYTES);
        if page_bytes(&receipt) == MAX_SEMANTIC_RESOURCE_RESULT_BYTES {
            met = true;
            assert_eq!(receipt.returned_bytes, Some(8_192));
            assert_eq!(approval.returned_bytes, Some(4_096));
            assert_eq!(
                approval.next_uri.as_deref(),
                Some("mcpls-edit-approval:///project?plan_id=plan&offset_bytes=4096")
            );
        }
    }
    assert!(met);
}

#[test]
fn approval_pages_refuse_offsets_like_receipts() {
    let project_id = ProjectId::new("project").unwrap();
    let plan_id = PlanId::parse("plan").unwrap();
    assert_eq!(
        edit_approval_resource_page(&project_id, &plan_id, 3, "{}")
            .unwrap_err()
            .message,
        "invalid applied edit result offset; restart from the original URI"
    );
    let long = PlanId::parse(&"p".repeat(20_000)).unwrap();
    assert_eq!(
        edit_approval_resource_page(&project_id, &long, 0, "{}")
            .unwrap_err()
            .message,
        "applied edit result resource metadata exceeds the response budget"
    );
}

#[test]
fn plan_details_are_read_in_full() {
    let project_id = ProjectId::new("project").unwrap();
    let plan_id = PlanId::parse("plan").unwrap();
    let detail = "{\"é\":\"\n\"}".repeat(4_000);
    assert_eq!(sha256_hex(&detail).len(), 64);
    let mut offset = 0;
    let mut read = String::new();
    while offset < detail.len() {
        let page = edit_approval_resource_page(&project_id, &plan_id, offset, &detail).unwrap();
        let returned = page.returned_bytes.unwrap();
        assert!((1..=8_192).contains(&returned));
        read.push_str(&page.text);
        offset += returned;
        assert_eq!(page.next_uri.is_some(), offset < detail.len());
    }
    assert_eq!(read, detail);
}
