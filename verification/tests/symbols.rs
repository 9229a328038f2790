use mcpls_core::errors::{ErrorCode, McpError};
use mcpls_core::symbols::{
    batch_error, inspect_batch_routing_error, inspect_failure, inspect_symbol,
    inspect_symbol_batch, is_blank_text, symbol_batch_routing_error,
    validate_inspect_symbol_batch, validate_workspace_symbol_batch, workspace_symbol_batch,
    workspace_symbol_search, InspectBatchLimits, InspectSymbolPlan, InspectSymbolRequest,
    WorkspaceSymbolPageRequest, WorkspaceSymbolPlan,
};
use mcpls_core::tools::{
    InspectSymbolBatchParams, InspectSymbolBudget, InspectSymbolParams, InspectSymbolTarget,
    SymbolHandle, WorkspaceSymbolBatchParams, WorkspaceSymbolParams,
};

const LIMITS: InspectBatchLimits = InspectBatchLimits {
    response_overhead_bytes: 1_024,
    min_bytes_per_target: 2_048,
};

fn refused<T: std::fmt::Debug>(result: Result<T, McpError>) -> String {
    result.unwrap_err().message
}

fn batch(queries: &[&str]) -> WorkspaceSymbolBatchParams {
    WorkspaceSymbolBatchParams {
        project_id: "project".to_owned(),
        queries: queries.iter().map(|query| (*query).to_owned()).collect(),
        kind_filter: None,
        match_mode: "fuzzy".to_owned(),
        scope: "project".to_owned(),
        max_items: 100,
        max_bytes: 16 * 1024,
        include_generated: false,
    }
}

fn search() -> WorkspaceSymbolParams {
    WorkspaceSymbolParams {
        project_id: "project".to_owned(),
        query: Some("needle".to_owned()),
        queries: Vec::new(),
        kind_filter: None,
        match_mode: "fuzzy".to_owned(),
        scope: "project".to_owned(),
        limit: 1,
        max_bytes: 4_096,
        page_token: None,
        include_generated: false,
    }
}

fn target() -> InspectSymbolTarget {
    InspectSymbolTarget {
        symbol_handle: None,
        query: Some("run".to_owned()),
        kind: None,
        path: None,
        container: None,
    }
}

fn inspections(targets: Vec<InspectSymbolTarget>) -> InspectSymbolBatchParams {
    InspectSymbolBatchParams {
        project_id: "project".to_owned(),
        targets,
        candidate_limit: 10,
        sections: Vec::new(),
        budget: InspectSymbolBudget {
            max_bytes: 16 * 1024,
            max_items: 20,
        },
        page_token: None,
    }
}

fn inspection() -> InspectSymbolParams {
    InspectSymbolParams {
        project_id: "project".to_owned(),
        symbol_handle: None,
        targets: Vec::new(),
        query: Some("run".to_owned()),
        kind: None,
        path: None,
        container: None,
        candidate_limit: 10,
        sections: Vec::new(),
        budget: InspectSymbolBudget {
            max_bytes: 16 * 1024,
            max_items: 20,
        },
        page_token: None,
    }
}

#[test]
fn symbol_batches_are_bounded() {
    assert!(validate_workspace_symbol_batch(&batch(&["a", "b"])).is_ok());
    let many = vec!["q"; 33];
    for queries in [&[][..], &many[..]] {
        assert_eq!(
            refused(validate_workspace_symbol_batch(&batch(queries))),
            "queries must contain between 1 and 32 entries"
        );
    }
    let long = "q".repeat(1_001);
    for query in ["", long.as_str()] {
        assert_eq!(
            refused(validate_workspace_symbol_batch(&batch(&["a", query]))),
            "each query must contain between 1 and 1000 bytes"
        );
    }
    for max_items in [0, 1_001] {
        let mut params = batch(&["a"]);
        params.max_items = max_items;
        assert_eq!(
            refused(validate_workspace_symbol_batch(&params)),
            "max_items must be between 1 and 1000"
        );
    }
    for max_bytes in [4_095, 1_048_577] {
        let mut params = batch(&["a"]);
        params.max_bytes = max_bytes;
        assert_eq!(
            refused(validate_workspace_symbol_batch(&params)),
            "max_bytes must be between 4096 and 1048576"
        );
    }
}

#[test]
fn symbol_batches_have_room_for_every_identity() {
    let query = "q".repeat(1_000);
    let mut params = batch(&[&query, &query, &query, &query]);
    params.max_bytes = 4_000 + 4 * 128 + 256;
    assert!(validate_workspace_symbol_batch(&params).is_ok());
    params.max_bytes -= 1;
    assert_eq!(
        refused(validate_workspace_symbol_batch(&params)),
        "max_bytes is too small to return every query identity"
    );
}

#[test]
fn batches_fail_as_operations() {
    let error = workspace_symbol_batch(&batch(&[])).unwrap_err();
    assert_eq!(error.code, ErrorCode::InternalError);
    assert_eq!(
        error.message,
        "-32602: queries must contain between 1 and 32 entries"
    );
    assert_eq!(
        error.data.unwrap().get("code").unwrap().as_str(),
        Some("operation_failed")
    );
    let mut unnamed = batch(&["a"]);
    unnamed.project_id = String::new();
    assert_eq!(
        refused(workspace_symbol_batch(&unnamed)),
        "-32602: project id must not be empty"
    );
    assert_eq!(
        batch_error(&McpError::internal_error("no")).message,
        "-32603: no"
    );
    for message in [
        symbol_batch_routing_error("project is not registered: x").message,
        inspect_batch_routing_error("project is not registered: x").message,
    ] {
        assert!(message.starts_with("-32602: project is not registered: x("));
        assert!(message.contains("project_not_registered"));
    }
    assert!(inspect_failure("stopped").message.starts_with("-32603: stopped("));
}

#[test]
fn searches_have_one_query_or_many() {
    let mut one = search();
    one.kind_filter = Some("function".to_owned());
    one.page_token = Some("token".to_owned());
    one.limit = 9;
    one.include_generated = true;
    let WorkspaceSymbolPlan::One {
        project_id,
        request,
    } = workspace_symbol_search(one).unwrap()
    else {
        panic!("expected one query");
    };
    assert_eq!(project_id.as_str(), "project");
    assert_eq!(
        request,
        WorkspaceSymbolPageRequest {
            query: "needle".to_owned(),
            kind_filter: Some("function".to_owned()),
            match_mode: "fuzzy".to_owned(),
            scope: "project".to_owned(),
            include_generated: true,
            max_items: 9,
            max_bytes: 4_096,
            page_token: Some("token".to_owned()),
        }
    );

    let mut many = search();
    many.query = None;
    many.queries = vec!["a".to_owned(), "b".to_owned()];
    many.limit = 7;
    let WorkspaceSymbolPlan::Many { batch, .. } = workspace_symbol_search(many).unwrap() else {
        panic!("expected several queries");
    };
    assert_eq!(batch.max_items, 7);
    assert_eq!(batch.queries.len(), 2);

    let mut both = search();
    both.queries = vec!["a".to_owned()];
    assert_eq!(
        refused(workspace_symbol_search(both)),
        "queries cannot be combined with query or page_token"
    );
    let mut none = search();
    none.query = None;
    assert_eq!(
        refused(workspace_symbol_search(none)),
        "query or queries is required"
    );
    let mut limitless = search();
    limitless.limit = 0;
    assert_eq!(
        refused(workspace_symbol_search(limitless)),
        "limit must be between 1 and 1000"
    );
    let mut small = search();
    small.max_bytes = 10;
    assert_eq!(
        refused(workspace_symbol_search(small)),
        "max_bytes must be between 4096 and 1048576"
    );
    let mut unnamed = search();
    unnamed.project_id = String::new();
    assert_eq!(
        refused(workspace_symbol_search(unnamed)),
        "project id must not be empty"
    );
}

#[test]
fn inspect_symbol_batch_rejects_a_budget_that_cannot_cover_every_target() {
    let mut params = inspections(vec![target(), target()]);
    params.budget = InspectSymbolBudget {
        max_bytes: 16 * 1024,
        max_items: 1,
    };
    let error = inspect_symbol_batch(&params, LIMITS).unwrap_err();

    assert!(error.message.contains("at least one item per target"));
}

#[test]
fn inspection_batches_are_bounded() {
    assert!(validate_inspect_symbol_batch(&inspections(vec![target()]), LIMITS).is_ok());
    let seventeen = (0..17).map(|_| target()).collect();
    for targets in [Vec::new(), seventeen] {
        assert_eq!(
            refused(validate_inspect_symbol_batch(&inspections(targets), LIMITS)),
            "targets must contain between 1 and 16 symbols"
        );
    }
    let mut blank = target();
    blank.query = Some(" \u{3000}\t".to_owned());
    assert_eq!(
        refused(validate_inspect_symbol_batch(&inspections(vec![blank]), LIMITS)),
        "every target requires query or symbol_handle"
    );
    let mut long = target();
    long.path = Some("p".repeat(4_096));
    assert_eq!(
        refused(validate_inspect_symbol_batch(&inspections(vec![long]), LIMITS)),
        "each target identity must fit within 4096 serialized bytes"
    );
    for candidate_limit in [0, 101] {
        let mut params = inspections(vec![target()]);
        params.candidate_limit = candidate_limit;
        assert_eq!(
            refused(validate_inspect_symbol_batch(&params, LIMITS)),
            "candidate_limit must be between 1 and 100"
        );
    }
}

#[test]
fn inspection_budgets_name_their_minimum() {
    let identity =
        r#"[{"symbol_handle":null,"query":"run","kind":null,"path":null,"container":null}]"#;
    let minimum = identity.len() + 1_024 + 2_048;
    let mut params = inspections(vec![target()]);
    params.budget.max_bytes = minimum;
    assert!(validate_inspect_symbol_batch(&params, LIMITS).is_ok());
    for max_bytes in [minimum - 1, 1_048_577] {
        params.budget.max_bytes = max_bytes;
        assert_eq!(
            refused(validate_inspect_symbol_batch(&params, LIMITS)),
            format!("budget.max_bytes must be between {minimum} and 1048576 for these targets")
        );
    }
}

#[test]
fn later_inspection_pages_name_no_targets() {
    let mut params = inspections(Vec::new());
    params.page_token = Some("token".to_owned());
    params.candidate_limit = 0;
    assert!(validate_inspect_symbol_batch(&params, LIMITS).is_ok());
    params.targets.push(target());
    assert_eq!(
        refused(validate_inspect_symbol_batch(&params, LIMITS)),
        "targets must be empty when page_token is supplied"
    );
}

#[test]
fn inspections_are_of_one_symbol_or_many() {
    let mut one = inspection();
    one.kind = Some("function".to_owned());
    one.sections = vec!["references".to_owned()];
    let InspectSymbolPlan::One {
        project_id,
        request,
    } = inspect_symbol(one, LIMITS).unwrap()
    else {
        panic!("expected one symbol");
    };
    assert_eq!(project_id.as_str(), "project");
    let given = inspection();
    assert_eq!(
        request,
        InspectSymbolRequest {
            symbol_handle: given.symbol_handle,
            query: given.query,
            kind: Some("function".to_owned()),
            path: given.path,
            container: given.container,
            candidate_limit: given.candidate_limit,
            sections: vec!["references".to_owned()],
            budget: given.budget,
        }
    );

    let mut many = inspection();
    many.query = None;
    many.targets = vec![target(), target()];
    let InspectSymbolPlan::Many { batch, .. } = inspect_symbol(many, LIMITS).unwrap() else {
        panic!("expected several symbols");
    };
    assert_eq!(batch.targets.len(), 2);

    let mut both = inspection();
    both.targets = vec![target()];
    assert_eq!(
        refused(inspect_symbol(both, LIMITS)),
        "targets or page_token cannot be combined with a single-symbol identity"
    );
    let mut none = inspection();
    none.query = Some(String::new());
    assert_eq!(
        refused(inspect_symbol(none, LIMITS)),
        "query or symbol_handle is required"
    );
    let mut by_handle = inspection();
    by_handle.query = None;
    by_handle.symbol_handle = Some(SymbolHandle {
        text: "handle".to_owned(),
    });
    assert!(inspect_symbol(by_handle, LIMITS).is_ok());
    for (max_bytes, max_items) in [(4_095, 1), (4_096, 0)] {
        let mut small = inspection();
        small.budget = InspectSymbolBudget {
            max_bytes,
            max_items,
        };
        assert_eq!(
            refused(inspect_symbol(small, LIMITS)),
            "budget.max_bytes must be at least 4096 and budget.max_items must be positive"
        );
    }
}

#[test]
fn blank_texts_hold_only_white_space() {
    for (text, blank) in [("", true), (" \n\u{a0}", true), ("\u{200b}", false), (" a ", false)] {
        assert_eq!(is_blank_text(text), blank);
        assert_eq!(text.trim().is_empty(), blank);
    }
}
