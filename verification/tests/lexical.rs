use mcpls_core::json::{json_str, render, JsonObject};
use mcpls_core::lexical::{
    batch_value, bounded_lexical_batch, bounded_lexical_page, bounded_lexical_page_with_accounting,
    effective_lexical_page_bytes, lexical_batch_answer, lexical_page_answer, lexical_queries,
    lexical_value, plan_lexical_search, LexicalAccounting, LexicalBatchEntry,
    LexicalSearchBatchResult, LexicalSearchMatch, LexicalSearchPlan, LexicalSearchScan,
};
use mcpls_core::tools::LexicalSearchParams;

fn found(path: String, uri: String) -> LexicalSearchMatch {
    LexicalSearchMatch {
        project_relative_path: path,
        document_version: None,
        content_hash: "a".repeat(64),
        source_uri: uri,
        source: None,
        byte_range: 0..1,
    }
}

fn params() -> LexicalSearchParams {
    LexicalSearchParams {
        project_id: "project".to_owned(),
        query: Some("needle".to_owned()),
        queries: Vec::new(),
        mode: "literal".to_owned(),
        case: "sensitive".to_owned(),
        multiline: false,
        max_files: 10,
        max_matches: 10,
        max_bytes: 8 * 1024,
        page_token: None,
        context_lines: 0,
        include_generated: false,
        include_paths: Vec::new(),
        exclude_paths: Vec::new(),
    }
}

#[test]
fn lexical_page_caps_transcript_sized_caller_budgets() {
    assert_eq!(effective_lexical_page_bytes(50_000), 16 * 1024);
    assert_eq!(effective_lexical_page_bytes(6_000), 6_000);

    let matches = (0..100)
        .map(|index| {
            found(
                format!("swift/RideMapState{index:03}.swift"),
                format!("mcpls-source:///swift/RideMapState{index:03}.swift"),
            )
        })
        .collect();
    let page =
        bounded_lexical_page(matches, 0, false, effective_lexical_page_bytes(50_000)).unwrap();

    assert_eq!(page.max_bytes, 16 * 1024);
    assert!(render(&lexical_value(&page)).len() <= page.max_bytes);
    assert!(page.next_cursor.is_some());
}

#[test]
fn lexical_page_respects_its_serialized_byte_budget() {
    let matches = (0..2)
        .map(|index| {
            found(
                format!("src/{index:0200}.rs"),
                format!("mcpls-source:///src/{index:0200}.rs"),
            )
        })
        .collect();

    let page = bounded_lexical_page(matches, 0, false, 800).unwrap();

    assert!(render(&lexical_value(&page)).len() <= 800);
    assert_eq!(page.returned, 1);
    assert!(page.truncated);
    assert_eq!(page.next_cursor.as_deref(), Some("1"));
}

#[test]
fn lexical_page_rejects_a_budget_that_cannot_return_one_identity() {
    let matches = vec![found(
        format!("src/{}.rs", "a".repeat(8_000)),
        "mcpls-source:///src/too-long.rs".to_owned(),
    )];

    assert!(bounded_lexical_page(matches, 0, false, 4 * 1024).is_err());
}

#[test]
fn lexical_page_drops_source_before_it_drops_matches() {
    let matches = (0..2)
        .map(|index| {
            let mut entry = found(
                format!("src/{index}.rs"),
                format!("mcpls-source:///src/{index}.rs"),
            );
            entry.source = Some(json_str(&"s".repeat(400)));
            entry
        })
        .collect();
    let page = bounded_lexical_page(matches, 0, false, 1_200).unwrap();

    assert_eq!(page.returned, 2);
    assert!(page.matches[0].source.is_some());
    assert!(page.matches[1].source.is_none());
    assert!(!page.truncated);
    assert_eq!(page.next_cursor, None);
}

#[test]
fn lexical_page_accounts_for_the_matches_it_leaves_out() {
    let page = bounded_lexical_page_with_accounting(
        vec![found("a.rs".to_owned(), "mcpls-source:///a.rs".to_owned())],
        LexicalAccounting {
            offset: 5,
            has_next_page: true,
            max_bytes: 4_096,
            total_matches: 9,
            scanned_files: 3,
            scanned_bytes: 70,
            cursor_token: Some("token".to_owned()),
            snapshot_identity: "snapshot".to_owned(),
        },
    )
    .unwrap();
    assert_eq!(page.total, 9);
    assert_eq!(page.returned, 1);
    assert_eq!(page.remaining, 3);
    assert_eq!(page.scanned_files, 3);
    assert_eq!(page.scanned_bytes, 70);
    assert_eq!(page.next_cursor.as_deref(), Some("token:6"));
}

#[test]
fn lexical_batch_is_bounded_and_keeps_every_query() {
    let entry = |query: &str| LexicalBatchEntry {
        query: query.to_owned(),
        result: Some(
            bounded_lexical_page(
                (0..4)
                    .map(|index| {
                        found(
                            format!("src/{query}{index}.rs"),
                            format!("mcpls-source:///src/{query}{index}.rs"),
                        )
                    })
                    .collect(),
                0,
                false,
                16 * 1024,
            )
            .unwrap(),
        ),
        details: JsonObject::new(),
    };
    let batch = LexicalSearchBatchResult {
        entries: vec![entry("one"), entry("two")],
        returned: 0,
        truncated: false,
        details: JsonObject::new(),
    };
    let bounded = bounded_lexical_batch(batch, 1_500).unwrap();
    assert!(render(&batch_value(&bounded)).len() <= 1_500);
    assert_eq!(bounded.entries.len(), 2);
    assert_eq!(bounded.entries[0].query, "one");
    assert_eq!(bounded.entries[1].query, "two");
    assert!(bounded.truncated);
    let shown: usize = bounded
        .entries
        .iter()
        .map(|entry| entry.result.as_ref().unwrap().matches.len())
        .sum();
    assert_eq!(bounded.returned, shown);
    assert!(shown < 8);

    let empty = LexicalSearchBatchResult {
        entries: Vec::new(),
        returned: 0,
        truncated: false,
        details: JsonObject::new(),
    };
    let required = render(&batch_value(&empty)).len();
    assert_eq!(bounded_lexical_batch(empty, 1).unwrap_err(), required);
}

#[test]
fn lexical_requests_are_checked_in_order() {
    let refused = |change: fn(&mut LexicalSearchParams)| {
        let mut params = params();
        change(&mut params);
        lexical_queries(&params).unwrap_err().message
    };
    assert_eq!(
        refused(|params| params.max_files = 0),
        "max_files and max_matches must be greater than zero"
    );
    assert_eq!(
        refused(|params| params.max_matches = 0),
        "max_files and max_matches must be greater than zero"
    );
    assert_eq!(
        refused(|params| params.max_bytes = 4_095),
        "max_bytes must be between 4096 and 1048576"
    );
    assert_eq!(
        refused(|params| params.max_bytes = 1_048_577),
        "max_bytes must be between 4096 and 1048576"
    );
    assert_eq!(
        refused(|params| params.queries = vec!["other".to_owned()]),
        "query cannot be combined with queries"
    );
    assert_eq!(
        refused(|params| params.query = None),
        "query or queries is required"
    );
    assert_eq!(
        refused(|params| {
            params.query = None;
            params.queries = vec!["a".to_owned(), "b".to_owned()];
            params.page_token = Some("token:1".to_owned());
        }),
        "page_token requires one query"
    );
    assert_eq!(lexical_queries(&params()).unwrap(), vec!["needle".to_owned()]);
}

#[test]
fn lexical_plans_tell_one_query_from_many() {
    let one = plan_lexical_search(params(), None, None).unwrap();
    assert!(matches!(one, LexicalSearchPlan::One { .. }));
    let mut several = params();
    several.query = None;
    several.queries = vec!["a".to_owned(), "b".to_owned()];
    let many = plan_lexical_search(several, None, None).unwrap();
    assert!(matches!(many, LexicalSearchPlan::Many { .. }));

    let pattern = plan_lexical_search(params(), Some("bad pattern".to_owned()), None);
    assert_eq!(pattern.unwrap_err().message, "bad pattern");
    let glob = plan_lexical_search(params(), None, Some("bad glob".to_owned()));
    assert_eq!(glob.unwrap_err().message, "bad glob");
    let mut unnamed = params();
    unnamed.project_id = String::new();
    let project = plan_lexical_search(unnamed, None, None);
    assert_eq!(project.unwrap_err().message, "project id must not be empty");
}

#[test]
fn lexical_answers_report_the_budget_that_they_need() {
    let scan = |path: String| LexicalSearchScan {
        matches: vec![found(path, "mcpls-source:///a.rs".to_owned())],
        offset: 0,
        total_matches: 1,
        scanned_files: 1,
        scanned_bytes: 10,
        page_token: "token".to_owned(),
        snapshot_identity: "snapshot".to_owned(),
    };
    let answer = lexical_page_answer(scan("a.rs".to_owned()), 4_096).unwrap();
    let value: serde_json::Value = serde_json::from_str(&answer.legacy).unwrap();
    assert_eq!(value["returned"], 1);
    assert_eq!(value["truncated"], false);

    let error = lexical_page_answer(scan("a".repeat(8_000)), 4_096).unwrap_err();
    assert!(error.message.starts_with("max_bytes must be at least "));
    assert!(error.message.ends_with(" to return one lexical match identity"));

    let batch = LexicalSearchBatchResult {
        entries: vec![LexicalBatchEntry {
            query: "q".repeat(5_000),
            result: None,
            details: JsonObject::new(),
        }],
        returned: 0,
        truncated: false,
        details: JsonObject::new(),
    };
    let error = lexical_batch_answer(batch, 4_096).unwrap_err();
    assert!(error.message.ends_with(" for lexical batch metadata"));
}
