use mcpls_core::tools::{
    default_insert_spaces, default_inspect_batch_budget, default_inspect_candidates,
    default_lexical_max_bytes, default_lexical_max_files, default_lexical_max_matches,
    default_log_limit, default_max_results, default_message_limit, default_tab_size,
    default_workspace_symbol_batch_bytes, InspectSymbolBudget, LEXICAL_PAGE_BYTES,
};

#[test]
fn requests_have_bounded_defaults() {
    assert_eq!(default_tab_size(), 4);
    assert!(default_insert_spaces());
    assert_eq!(default_lexical_max_files(), 1_024);
    assert_eq!(default_lexical_max_matches(), 100);
    assert_eq!(default_lexical_max_bytes(), LEXICAL_PAGE_BYTES);
    assert_eq!(default_inspect_candidates(), 10);
    assert_eq!(
        default_inspect_batch_budget(),
        InspectSymbolBudget {
            max_bytes: 128 * 1024,
            max_items: 20,
        }
    );
    assert_eq!(default_max_results(), 100);
    assert_eq!(default_workspace_symbol_batch_bytes(), 16 * 1024);
    assert_eq!(default_log_limit(), 50);
    assert_eq!(default_message_limit(), 20);
}
