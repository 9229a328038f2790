//! Tool parameters, results and their defaults.

use crate::json::JsonValue;
use vstd::prelude::*;

verus! {

/// An opaque snapshot-bound symbol reference.
#[derive(Debug, PartialEq, Eq)]
pub struct SymbolHandle {
    pub text: String,
}

/// A position by line and character.
#[derive(Clone, Copy, Debug, PartialEq, Eq, Structural)]
pub struct Position {
    pub line: u32,
    pub character: u32,
}

/// A range between two positions.
#[derive(Clone, Copy, Debug, PartialEq, Eq, Structural)]
pub struct Range {
    pub start: Position,
    pub end: Position,
}

/// A reference to a payload kept out of a response.
#[derive(Debug, PartialEq, Eq)]
pub struct DeferredResourceReference {
    pub uri: String,
    pub kind: String,
    pub snapshot_hash: String,
    pub document_version: Option<i32>,
    pub total_bytes: Option<usize>,
}

/// Bounds of a symbol inspection.
#[derive(Clone, Copy, Debug, PartialEq, Eq, Structural)]
pub struct InspectSymbolBudget {
    pub max_bytes: usize,
    pub max_items: usize,
}

/// One symbol to inspect: a handle, or a query with its disambiguators.
#[derive(Debug, PartialEq, Eq)]
pub struct InspectSymbolTarget {
    pub symbol_handle: Option<SymbolHandle>,
    pub query: Option<String>,
    pub kind: Option<String>,
    pub path: Option<String>,
    pub container: Option<String>,
}

/// Parameters for the `get_hover` tool.
#[derive(Debug, PartialEq, Eq)]
pub struct HoverParams {
    /// Absolute path to the file.
    pub file_path: String,
    /// Line number (1-based).
    pub line: u32,
    /// Character/column number (1-based).
    pub character: u32,
    /// Project owning `symbol_handle` when coordinates are omitted.
    /// Reuse the handle from a source-bearing discovery result; refresh discovery on stale handles.
    pub project_id: Option<String>,
    /// Snapshot-bound handle returned by a prior semantic result; safer than copying coordinates.
    pub symbol_handle: Option<SymbolHandle>,
}

/// Parameters for the `get_definition` tool.
#[derive(Debug, PartialEq, Eq)]
pub struct DefinitionParams {
    /// Absolute path to the file.
    pub file_path: String,
    /// Line number (1-based).
    pub line: u32,
    /// Character/column number (1-based).
    pub character: u32,
    /// Project owning `symbol_handle` when coordinates are omitted.
    pub project_id: Option<String>,
    /// Snapshot-bound handle returned by a source-bearing result; refresh discovery if stale.
    pub symbol_handle: Option<SymbolHandle>,
    /// Snapshot-bound continuation returned by a prior definition response.
    pub page_token: Option<String>,
}

/// Project-scoped position for read-only semantic discovery.
#[derive(Debug, PartialEq, Eq)]
pub struct SemanticPositionParams {
    /// Registered project that owns the file.
    pub project_id: String,
    /// Absolute path within that project.
    pub file_path: String,
    /// One-based line number.
    pub line: u32,
    /// One-based character offset in the active server's negotiated encoding.
    pub character: u32,
    /// Snapshot-bound handle returned by a source-bearing result; refresh discovery if stale.
    pub symbol_handle: Option<SymbolHandle>,
    /// Snapshot-bound continuation returned by a prior discovery response.
    pub page_token: Option<String>,
}

/// Parameters for the `get_references` tool.
#[derive(Debug, PartialEq, Eq)]
pub struct ReferencesParams {
    /// Absolute path to the file.
    pub file_path: String,
    /// Line number (1-based).
    pub line: u32,
    /// Character/column number (1-based).
    pub character: u32,
    /// Project owning `symbol_handle` when coordinates are omitted.
    pub project_id: Option<String>,
    /// Snapshot-bound handle returned by a source-bearing result; refresh discovery if stale.
    pub symbol_handle: Option<SymbolHandle>,
    /// Whether to include the declaration in the results.
    pub include_declaration: bool,
    /// Bounds applied to references and groups.
    pub limits: JsonValue,
    /// Decimal offset returned by a prior response's `next_cursor`.
    pub page_token: Option<String>,
}

/// Parameters for the `get_diagnostics` tool.
#[derive(Debug, PartialEq, Eq)]
pub struct DiagnosticsParams {
    /// Absolute path to the file.
    pub file_path: String,
    /// Whether to prefer cached diagnostics, force fresh analysis, or only read the cache.
    pub mode: DiagnosticsMode,
    /// Backward-compatible alias for `mode=fresh`; omitted from the canonical schema.
    pub fresh: Option<bool>,
    /// Filters, grouping behavior, and response bounds.
    pub options: JsonValue,
}

/// Source policy for `get_diagnostics`.
#[derive(Clone, Copy, Debug, PartialEq, Eq, Structural)]
pub enum DiagnosticsMode {
    /// Use the cached-notification behavior that existing `get_diagnostics` callers receive.
    CachedPreferred,
    /// Always request fresh analysis from the routed language server.
    Fresh,
    /// Read only server-notification diagnostics without requesting analysis.
    CacheOnly,
}

/// Parameters for the `rename_symbol` tool.
#[derive(Debug, PartialEq, Eq)]
pub struct RenameParams {
    /// Absolute path to the file.
    pub file_path: String,
    /// Line number (1-based).
    pub line: u32,
    /// Character/column number (1-based).
    pub character: u32,
    /// New name for the symbol.
    pub new_name: String,
}

/// Parameters for previewing an LSP rename as a generic workspace edit plan.
#[derive(Debug, PartialEq, Eq)]
pub struct RenamePreviewParams {
    /// Registered project that owns the file.
    pub project_id: String,
    /// Absolute path to the file.
    pub file_path: String,
    /// Line number (1-based).
    pub line: u32,
    /// Character/column number (1-based).
    pub character: u32,
    /// New name for the symbol.
    pub new_name: String,
    /// Optional negotiated LSP position encoding.
    pub position_encoding: Option<String>,
}

/// Parameters for the `get_completions` tool.
#[derive(Debug, PartialEq, Eq)]
pub struct CompletionsParams {
    /// Absolute path to the file.
    pub file_path: String,
    /// Line number (1-based).
    pub line: u32,
    /// Character/column number (1-based).
    pub character: u32,
    /// Optional trigger character (e.g., '.', ':', '->').
    pub trigger: Option<String>,
    /// Snapshot-bound continuation returned by a prior response.
    pub page_token: Option<String>,
}

/// Parameters for the `get_document_symbols` tool.
#[derive(Debug, PartialEq, Eq)]
pub struct DocumentSymbolsParams {
    /// Absolute path to the file.
    pub file_path: String,
    /// Optional query, filters, hierarchy bounds, and body controls.
    pub options: JsonValue,
    /// Maximum serialized bytes returned on this page.
    pub max_bytes: usize,
    /// Snapshot-owned continuation returned by a prior response.
    pub page_token: Option<String>,
}

/// Parameters for the `format_document` tool.
#[derive(Debug, PartialEq, Eq)]
pub struct FormatDocumentParams {
    /// Absolute path to the file.
    pub file_path: String,
    /// Tab size for formatting (default: 4).
    pub tab_size: u32,
    /// Whether to use spaces instead of tabs (default: true).
    pub insert_spaces: bool,
}

/// Parameters for previewing document formatting as a generic workspace edit plan.
#[derive(Debug, PartialEq, Eq)]
pub struct FormatPreviewParams {
    /// Registered project that owns the file.
    pub project_id: String,
    /// Absolute path to the file.
    pub file_path: String,
    /// Tab size for formatting (default: 4).
    pub tab_size: u32,
    /// Whether to use spaces instead of tabs (default: true).
    pub insert_spaces: bool,
    /// Optional negotiated LSP position encoding.
    pub position_encoding: Option<String>,
    /// Optional one-based range for capability-gated LSP range formatting.
    pub range: Option<FormatRange>,
}

/// One-based range used by `format_preview`.
#[derive(Debug, PartialEq, Eq)]
pub struct FormatRange {
    /// One-based start line.
    pub start_line: u32,
    /// One-based start character in UTF-16 code units.
    pub start_character: u32,
    /// One-based end line.
    pub end_line: u32,
    /// One-based end character in UTF-16 code units.
    pub end_character: u32,
}

/// Parameters for previewing standard LSP range formatting.
#[derive(Debug, PartialEq, Eq)]
pub struct RangeFormatPreviewParams {
    /// Registered project that owns the file.
    pub project_id: String,
    /// Absolute path to format.
    pub file_path: String,
    /// One-based start line.
    pub start_line: u32,
    /// One-based start character in UTF-16 code units.
    pub start_character: u32,
    /// One-based end line.
    pub end_line: u32,
    /// One-based end character in UTF-16 code units.
    pub end_character: u32,
    /// Formatting tab size.
    pub tab_size: u32,
    /// Whether indentation uses spaces.
    pub insert_spaces: bool,
    /// Optional negotiated LSP position encoding.
    pub position_encoding: Option<String>,
}

/// Parameters for previewing rust-analyzer item movement.
#[derive(Debug, PartialEq, Eq)]
pub struct MoveItemPreviewParams {
    /// Registered project that owns the file.
    pub project_id: String,
    /// Absolute Rust source path.
    pub file_path: String,
    /// One-based selection start line.
    pub start_line: u32,
    /// One-based selection start character.
    pub start_character: u32,
    /// One-based selection end line.
    pub end_line: u32,
    /// One-based selection end character.
    pub end_character: u32,
    /// `up` or `down`.
    pub direction: String,
    /// Optional negotiated LSP position encoding.
    pub position_encoding: Option<String>,
}

/// Parameters for previewing a Rust inline-module move.
#[derive(Debug, PartialEq, Eq)]
pub struct MoveInlineModulePreviewParams {
    /// Registered project that owns the source file.
    pub project_id: String,
    /// Absolute path to the Rust source containing the inline module.
    pub file_path: String,
    /// Inline module name to move.
    pub module_name: String,
    /// Optional zero-based LSP line containing the selected module declaration.
    pub module_line: Option<u32>,
    /// Optional zero-based LSP character within the selected module declaration.
    pub module_character: Option<u32>,
    /// Optional negotiated LSP position encoding.
    pub position_encoding: Option<String>,
}

/// Parameters for previewing one filesystem path rename with semantic updates.
#[derive(Debug, PartialEq, Eq)]
pub struct PathRenamePreviewParams {
    /// Registered project that owns both paths and the resulting plan.
    pub project_id: String,
    /// Existing absolute file or directory path.
    pub old_path: String,
    /// Non-existing absolute destination path.
    pub new_path: String,
    /// Position encoding for language-server text edits.
    pub position_encoding: Option<String>,
}

/// Parameters for structural search and replacement preview.
#[derive(Debug, PartialEq, Eq)]
pub struct StructuralReplacePreviewParams {
    /// Registered project that owns the context file and resulting plan.
    pub project_id: String,
    /// Absolute context file used for project containment and rust-analyzer selection.
    pub file_path: String,
    /// Exact syntax dialect: `rust_analyzer_ssr` or `ast_grep`.
    pub dialect: String,
    /// Exact query in the selected dialect; MCPLS never translates it.
    pub query: String,
    /// ast-grep replacement template. Omit for search-only requests.
    pub replacement: Option<String>,
    /// Explicit ast-grep language ID. Required only for the `ast_grep` dialect.
    pub language_id: Option<String>,
    /// Validate dialect syntax without searching or constructing a plan.
    pub parse_only: bool,
    /// Position encoding for ast-grep ranges and workspace-edit planning.
    pub position_encoding: Option<String>,
}

pub fn default_tab_size() -> (value: u32)
    ensures
        value == 4,
{
    4
}

pub fn default_insert_spaces() -> (value: bool)
    ensures
        value == true,
{
    true
}

/// Parameters for the `workspace_symbol_search` tool.
#[derive(Debug, PartialEq, Eq)]
pub struct WorkspaceSymbolParams {
    /// Stable project identifier whose workspace should be searched.
    pub project_id: String,
    /// Search query for symbol names (supports partial matching).
    pub query: Option<String>,
    /// Caller-ordered queries. Exact duplicates reuse the first provider result.
    pub queries: Vec<String>,
    /// Optional filter by symbol kind (function, class, variable, etc.).
    pub kind_filter: Option<String>,
    /// Name matching behavior; defaults to exact-first fuzzy search.
    pub match_mode: String,
    /// Source scope; dependencies and external symbols require explicit `all`.
    pub scope: String,
    /// Maximum results to return on one page (default: 100).
    pub limit: u32,
    /// Maximum serialized response bytes (default: 16384).
    pub max_bytes: usize,
    /// Snapshot-owned continuation returned by the preceding page.
    pub page_token: Option<String>,
    /// Include symbols under generated/build-output directories (default: false).
    pub include_generated: bool,
}

/// Parameters for bounded project-scoped lexical search.
#[derive(Debug, PartialEq, Eq)]
pub struct LexicalSearchParams {
    /// Registered project identifier whose snapshots should be searched.
    pub project_id: String,
    /// Literal text or Rust regex to find.
    pub query: Option<String>,
    /// Caller-ordered queries sharing one source scan and response budget.
    pub queries: Vec<String>,
    /// Interpret `query` literally or as a Rust regex.
    pub mode: String,
    /// Case sensitivity behavior.
    pub case: String,
    /// Enable multiline regex anchors.
    pub multiline: bool,
    /// Maximum project files inspected (default: 1024).
    pub max_files: usize,
    /// Maximum matches returned (default: 100).
    pub max_matches: usize,
    /// Caller byte ceiling; the server returns at most 16384 bytes per page.
    pub max_bytes: usize,
    /// Opaque snapshot-owned cursor returned by a prior lexical-search response.
    pub page_token: Option<String>,
    /// Context lines around each match; zero returns references only.
    pub context_lines: usize,
    /// Include generated/build-output files.
    pub include_generated: bool,
    /// Optional project-relative globs to include.
    pub include_paths: Vec<String>,
    /// Project-relative globs to exclude after inclusion.
    pub exclude_paths: Vec<String>,
}

pub fn default_lexical_max_files() -> (value: usize)
    ensures
        value == 1024,
{
    1024
}
pub fn default_lexical_max_matches() -> (value: usize)
    ensures
        value == 100,
{
    100
}
pub fn default_lexical_max_bytes() -> (value: usize)
    ensures
        value == LEXICAL_PAGE_BYTES,
{
    LEXICAL_PAGE_BYTES
}

/// The byte ceiling of one lexical page.
pub const LEXICAL_PAGE_BYTES: usize = 16 * 1024;

/// Parameters for one bounded batch of workspace-symbol searches.
#[derive(Debug, PartialEq, Eq)]
pub struct WorkspaceSymbolBatchParams {
    /// Stable project identifier whose workspace should be searched.
    pub project_id: String,
    /// Caller-ordered queries. Exact duplicates reuse the first result.
    pub queries: Vec<String>,
    /// Optional symbol-kind filter shared by every query.
    pub kind_filter: Option<String>,
    /// Name matching behavior shared by every query.
    pub match_mode: String,
    /// Source scope shared by every query.
    pub scope: String,
    /// Maximum symbols returned across the batch.
    pub max_items: u32,
    /// Maximum serialized response bytes.
    pub max_bytes: usize,
    /// Include symbols under generated/build-output directories.
    pub include_generated: bool,
}

/// Parameters for a bounded, project-scoped symbol inspection bundle.
#[derive(Debug, PartialEq, Eq)]
pub struct InspectSymbolParams {
    /// Stable project identifier whose symbol should be inspected.
    pub project_id: String,
    /// Snapshot-bound handle returned by symbol discovery; preferred over repeating coordinates.
    pub symbol_handle: Option<SymbolHandle>,
    /// Caller-ordered symbol identities. Use this instead of a single query or handle for 1-16 inspections.
    pub targets: Vec<InspectSymbolTarget>,
    /// Exact symbol name to resolve when no handle is supplied.
    pub query: Option<String>,
    /// Optional symbol-kind disambiguator.
    pub kind: Option<String>,
    /// Optional project-relative path disambiguator for duplicate names.
    pub path: Option<String>,
    /// Optional container-name disambiguator for duplicate names.
    pub container: Option<String>,
    /// Maximum ranked source-bearing candidates returned for ambiguous queries.
    pub candidate_limit: u32,
    /// Sections to include; empty returns only the declaration source frame.
    pub sections: Vec<String>,
    /// Caller upper bounds for the complete bundle; standalone responses are capped at 16 KiB.
    pub budget: InspectSymbolBudget,
    /// Opaque cursor returned by a previous multi-symbol inspection page.
    pub page_token: Option<String>,
}

/// Parameters for one bounded batch of symbol inspections.
#[derive(Debug, PartialEq, Eq)]
pub struct InspectSymbolBatchParams {
    /// Stable project identifier whose symbols should be inspected.
    pub project_id: String,
    /// Caller-ordered symbol identities; every target is retained in the response.
    pub targets: Vec<InspectSymbolTarget>,
    /// Maximum ranked candidates returned for each ambiguous query.
    pub candidate_limit: u32,
    /// Sections requested for every target.
    pub sections: Vec<String>,
    /// Shared collection bounds; serialized result pages are capped at 16 KiB.
    pub budget: InspectSymbolBudget,
    /// Opaque cursor returned by the previous batch page; omit targets when continuing.
    pub page_token: Option<String>,
}

pub fn default_inspect_candidates() -> (value: u32)
    ensures
        value == 10,
{
    10
}

pub fn default_inspect_batch_budget() -> (value: InspectSymbolBudget)
    ensures
        value.max_bytes == 128 * 1024,
        value.max_items == 20,
{
    InspectSymbolBudget { max_bytes: 128 * 1024, max_items: 20 }
}

pub fn default_max_results() -> (value: u32)
    ensures
        value == 100,
{
    100
}

pub fn default_workspace_symbol_batch_bytes() -> (value: usize)
    ensures
        value == 16 * 1024,
{
    16 * 1024
}

/// Parameters for the `get_code_actions` tool.
#[derive(Debug, PartialEq, Eq)]
pub struct CodeActionsParams {
    /// Absolute path to the file.
    pub file_path: String,
    /// Start line (1-based).
    pub start_line: u32,
    /// Start character (1-based).
    pub start_character: u32,
    /// End line (1-based).
    pub end_line: u32,
    /// End character (1-based).
    pub end_character: u32,
    /// Optional filter by action kind (quickfix, refactor, source, etc.).
    pub kind_filter: Option<String>,
    /// Snapshot-bound continuation returned by a prior response.
    pub page_token: Option<String>,
}

/// Parameters for listing project-scoped code actions with reusable references.
#[derive(Debug, PartialEq, Eq)]
pub struct CodeActionListParams {
    /// Registered project that owns the file.
    pub project_id: String,
    /// Absolute path to the file.
    pub file_path: String,
    /// Start line (1-based).
    pub start_line: u32,
    /// Start character (1-based).
    pub start_character: u32,
    /// End line (1-based).
    pub end_line: u32,
    /// End character (1-based).
    pub end_character: u32,
    /// Optional filter by action kind.
    pub kind_filter: Option<String>,
    /// Snapshot-bound continuation returned by a prior response.
    pub page_token: Option<String>,
}

/// Parameters for previewing one project-scoped code action.
#[derive(Debug, PartialEq, Eq)]
pub struct CodeActionPreviewParams {
    /// Registered project that owns the action.
    pub project_id: String,
    /// Opaque action reference returned by `get_code_actions`.
    pub action_id: String,
    /// Position encoding used by the language server.
    pub position_encoding: Option<String>,
}

/// Parameters for applying a code-action preview plan.
#[derive(Debug, PartialEq, Eq)]
pub struct CodeActionApplyParams {
    /// Registered project that owns the plan.
    pub project_id: String,
    /// Opaque plan ID returned by `code_action_preview`.
    pub plan_id: String,
    /// Optional time to wait for a contending edit before returning `not_ready`.
    pub wait_timeout_ms: Option<u64>,
}

/// Parameters for the `prepare_call_hierarchy` tool.
#[derive(Debug, PartialEq, Eq)]
pub struct CallHierarchyPrepareParams {
    /// Absolute path to the file.
    pub file_path: String,
    /// Line number (1-based).
    pub line: u32,
    /// Character/column number (1-based).
    pub character: u32,
    /// Project owning `symbol_handle` when coordinates are omitted.
    pub project_id: Option<String>,
    /// Snapshot-bound cursor returned by a previous page.
    pub page_token: Option<String>,
    /// Snapshot-bound handle returned by a prior semantic result.
    pub symbol_handle: Option<SymbolHandle>,
}

/// Parameters for the `get_incoming_calls` and `get_outgoing_calls` tools.
#[derive(Debug, PartialEq, Eq)]
pub struct CallHierarchyCallsParams {
    /// The call hierarchy item to get calls for (from prepare response).
    pub item: Option<JsonValue>,
    /// Project owning `symbol_handle` when `item` is omitted.
    pub project_id: Option<String>,
    /// Snapshot-bound handle returned by a prior semantic result.
    pub symbol_handle: Option<SymbolHandle>,
    /// Bounds applied to call groups and call sites.
    pub limits: JsonValue,
    /// Snapshot-bound continuation cursor returned by a prior page.
    pub page_token: Option<String>,
}

/// Parameters for the `get_cached_diagnostics` tool.
#[derive(Debug, PartialEq, Eq)]
pub struct CachedDiagnosticsParams {
    /// Absolute path to the file.
    pub file_path: String,
    /// Filters, grouping behavior, and response bounds.
    pub options: JsonValue,
}

/// Parameters for the `get_server_logs` tool.
#[derive(Debug, PartialEq, Eq)]
pub struct ServerLogsParams {
    /// Registered project whose language-server logs should be returned.
    pub project_id: String,
    /// Maximum number of log entries to return (default: 50).
    pub limit: usize,
    /// Minimum log level to include: error, warning, info, debug.
    pub min_level: Option<String>,
    /// Snapshot-bound continuation cursor returned by a prior page.
    pub cursor: Option<String>,
}

pub fn default_log_limit() -> (value: usize)
    ensures
        value == 50,
{
    50
}

/// Parameters for the `get_server_messages` tool.
#[derive(Debug, PartialEq, Eq)]
pub struct ServerMessagesParams {
    /// Registered project whose language-server messages should be returned.
    pub project_id: String,
    /// Maximum number of messages to return (default: 20).
    pub limit: usize,
    /// Snapshot-bound continuation cursor returned by a prior page.
    pub cursor: Option<String>,
}

/// Parameters for inspecting negotiated language-server capabilities.
#[derive(Debug, PartialEq, Eq)]
pub struct ProjectLspCapabilitiesParams {
    /// Registered project whose capabilities should be returned.
    pub project_id: String,
    /// Optional language-server identity to filter by.
    pub language_id: Option<String>,
}

pub fn default_message_limit() -> (value: usize)
    ensures
        value == 20,
{
    20
}

/// Parameters for the `get_signature_help` tool.
#[derive(Debug, PartialEq, Eq)]
pub struct SignatureHelpParams {
    /// Absolute path to the file.
    pub file_path: String,
    /// Line number (1-based).
    pub line: u32,
    /// Character/column number (1-based).
    pub character: u32,
    /// Snapshot-bound continuation returned by a prior response.
    pub page_token: Option<String>,
}

/// Parameters for the `go_to_implementation` tool.
#[derive(Debug, PartialEq, Eq)]
pub struct GoToImplementationParams {
    /// Absolute path to the file.
    pub file_path: String,
    /// Line number (1-based).
    pub line: u32,
    /// Character/column number (1-based).
    pub character: u32,
    /// Project owning `symbol_handle` when coordinates are omitted.
    pub project_id: Option<String>,
    /// Snapshot-bound handle returned by a prior semantic result.
    pub symbol_handle: Option<SymbolHandle>,
    /// Snapshot-bound continuation returned by a prior implementation response.
    pub page_token: Option<String>,
}

/// Parameters for the `go_to_type_definition` tool.
#[derive(Debug, PartialEq, Eq)]
pub struct GoToTypeDefinitionParams {
    /// Absolute path to the file.
    pub file_path: String,
    /// Line number (1-based).
    pub line: u32,
    /// Character/column number (1-based).
    pub character: u32,
    /// Project owning `symbol_handle` when coordinates are omitted.
    pub project_id: Option<String>,
    /// Snapshot-bound handle returned by a prior semantic result.
    pub symbol_handle: Option<SymbolHandle>,
    /// Snapshot-bound continuation returned by a prior type-definition response.
    pub page_token: Option<String>,
}

/// Parameters for the `get_inlay_hints` tool.
#[derive(Debug, PartialEq, Eq)]
pub struct InlayHintsParams {
    /// Absolute path to the file.
    pub file_path: String,
    /// Start line (1-based).
    pub start_line: u32,
    /// Start character (1-based).
    pub start_character: u32,
    /// End line (1-based).
    pub end_line: u32,
    /// End character (1-based).
    pub end_character: u32,
    /// Snapshot-bound continuation returned by a prior inlay-hints response.
    pub page_token: Option<String>,
}

/// Parameters for registering a project with the long-lived daemon.
#[derive(Debug, PartialEq, Eq)]
pub struct ProjectAddParams {
    /// Stable project identifier used by subsequent lifecycle tools.
    pub project_id: String,
    /// Existing directory to register as the project root.
    pub root: String,
    /// Optional project-specific actor configuration. Supported fields are
    /// `lsp_servers` and `heuristics_max_depth`; omitted fields inherit daemon
    /// defaults.
    pub config: Option<JsonValue>,
}

/// Parameters selecting a registered project.
#[derive(Debug, PartialEq, Eq)]
pub struct ProjectIdParams {
    /// Stable project identifier.
    pub project_id: String,
}

/// Parameters for replacing one project's Rust Cargo feature profile.
#[derive(Debug, PartialEq, Eq)]
pub struct ProjectCargoFeaturesParams {
    /// Stable project identifier.
    pub project_id: String,
    /// Explicit Cargo feature names.
    pub features: Vec<String>,
    /// Ask Cargo to enable every feature.
    pub all_features: bool,
    /// Ask Cargo to disable default features.
    pub no_default_features: bool,
}

/// Parameters previewing an LSP workspace edit for one project.
#[derive(Debug, PartialEq, Eq)]
pub struct WorkspaceEditPreviewParams {
    /// Stable project identifier that owns the workspace roots and plan.
    pub project_id: String,
    /// LSP `WorkspaceEdit` object returned by a language server.
    pub workspace_edit: JsonValue,
    /// Negotiated LSP position encoding, defaulting to UTF-8 for this API.
    pub position_encoding: Option<String>,
}

/// Parameters applying one project-owned workspace edit plan.
#[derive(Debug, PartialEq, Eq)]
pub struct WorkspaceEditApplyParams {
    /// Stable project identifier that owns the plan.
    pub project_id: String,
    /// Opaque plan identifier returned by the preview flow.
    pub plan_id: String,
    /// Optional time to wait for a contending edit before returning `not_ready`.
    pub wait_timeout_ms: Option<u64>,
}

/// Outcome of applying a project-owned workspace edit plan.
#[derive(Debug, PartialEq, Eq)]
pub enum WorkspaceEditApplyResult {
    /// The plan was committed atomically.
    Applied {
        /// Stable project identifier that owned the plan.
        project_id: String,
        /// Opaque identifier of the committed plan.
        plan_id: String,
        /// Whether the edit reached the filesystem commit point.
        committed: bool,
        /// Project-relative paths committed by the edit.
        committed_files: Vec<String>,
        /// Total committed file count, including paths omitted from this response.
        committed_file_count: usize,
        /// Human-readable operations captured by the preview.
        operations: Vec<String>,
        /// Total operation count, including operations omitted from this response.
        operation_count: usize,
        /// Unified diff captured by the preview.
        unified_diff: String,
        /// Session-private resource for complete applied detail when the inline diff is bounded.
        detail_resource: Option<String>,
        /// Optional semantic verification outcome.
        verification: Option<String>,
        /// Optional post-commit provider convergence details.
        provider_synchronization: Vec<WorkspaceEditProviderSynchronization>,
        /// Total provider synchronization result count, including omitted results.
        provider_synchronization_count: usize,
        /// Whether complete committed detail is available from `detail_resource`.
        details_truncated: bool,
        /// Aggregate provider state when synchronization details are present.
        semantic_state: Option<String>,
    },
    /// Another edit currently owns at least one required path.
    NotReady {
        /// Stable machine-readable reason.
        reason: String,
        /// Stable project identifier that owns the plan.
        project_id: String,
        /// Opaque identifier of the unconsumed plan.
        plan_id: String,
        /// Whether the edit reached the filesystem commit point.
        committed: bool,
        /// Instructions for an idempotent retry.
        retry: WorkspaceEditRetry,
        /// Safe details about the overlapping edit scope.
        contention: WorkspaceEditContention,
    },
    /// The plan snapshot no longer matches one or more files.
    Conflict {
        /// Stable machine-readable reason.
        reason: String,
        /// Stable project identifier that owns the plan.
        project_id: String,
        /// Opaque identifier of the rejected plan.
        plan_id: String,
        /// Whether the edit reached the filesystem commit point.
        committed: bool,
        /// Instructions for producing a fresh plan.
        retry: WorkspaceEditRetry,
        /// Project-relative paths whose snapshots changed.
        changed_paths: Vec<String>,
    },
}

/// Post-commit convergence status for one language server.
#[derive(Debug, PartialEq, Eq)]
pub struct WorkspaceEditProviderSynchronization {
    /// Stable routing identity of the provider.
    pub provider: String,
    /// Whether watched files, document lifecycle, and VFS probes converged.
    pub synchronized: bool,
    /// Number of watched-file notifications flushed to the provider.
    pub watched_file_notifications: usize,
    /// Failure or degradation detail when synchronization was not proven.
    pub message: Option<String>,
}

/// Retry instructions attached to a non-applied workspace edit result.
#[derive(Debug, PartialEq, Eq)]
pub struct WorkspaceEditRetry {
    /// Next operation the client should perform.
    pub action: WorkspaceEditRetryAction,
    /// Whether retrying with the current plan ID is safe.
    pub same_plan: bool,
    /// Suggested delay before retrying, when useful.
    pub after_ms: Option<u64>,
}

/// Client action recommended after a non-applied workspace edit result.
#[derive(Clone, Copy, Debug, PartialEq, Eq, Structural)]
pub enum WorkspaceEditRetryAction {
    /// Retry applying the same plan.
    RetryApply,
    /// Preview the edit again and apply the new plan.
    PreviewAgain,
}

/// Non-sensitive description of paths held by a contending edit.
#[derive(Debug, PartialEq, Eq)]
pub struct WorkspaceEditContention {
    /// Scope in which the edit overlaps another operation.
    pub scope: WorkspaceEditContentionScope,
    /// Bounded project-relative paths blocking this edit.
    pub blocked_paths: Vec<String>,
    /// Total number of paths blocking this edit, including omitted paths.
    pub blocked_path_count: usize,
}

/// Scope in which workspace edit contention was detected.
#[derive(Clone, Copy, Debug, PartialEq, Eq, Structural)]
pub enum WorkspaceEditContentionScope {
    /// Contention between sessions editing one canonical worktree.
    SameWorktree,
}

/// Parameters for listing all registered projects.
#[derive(Debug, PartialEq, Eq)]
pub struct ProjectListParams {
    /// Snapshot-bound cursor returned by a prior `project_list` response.
    pub cursor: Option<String>,
}

/// Empty parameters for daemon health and status snapshots.
#[derive(Debug, PartialEq, Eq)]
pub struct DaemonStatusParams {}

/// Parameters for listing this MCP session's resource subscriptions.
#[derive(Debug, PartialEq, Eq)]
pub struct SubscriptionListParams {
    /// Snapshot-bound continuation cursor returned by a prior page.
    pub cursor: Option<String>,
}

/// Parameters for reading source or deferred semantic context through a tool call.
#[derive(Debug, PartialEq, Eq)]
pub struct SemanticResourceReadParams {
    /// `mcpls-source://` or `mcpls-deferred://` URI returned by another MCPLS tool.
    pub uri: String,
}

/// Tool-call representation of one semantic resource page.
#[derive(Debug, PartialEq, Eq)]
pub struct SemanticResourceReadResult {
    /// Resource URI that was read.
    pub uri: String,
    /// MIME type of `text`. Source resources use a text MIME type; deferred resources use JSON.
    pub mime_type: String,
    /// Raw source text for a source resource, or an ordered UTF-8 JSON fragment for a deferred resource.
    pub text: String,
    /// Structured metadata for a source resource. Absent for deferred JSON resources.
    pub source: Option<SemanticSourceMetadata>,
    /// URI for the next fragment, when this response is not the complete payload.
    pub next_uri: Option<String>,
    /// Total byte length of the complete payload when this is a fragment.
    pub total_bytes: Option<usize>,
    /// Byte offset of this fragment in the complete payload.
    pub offset_bytes: Option<usize>,
    /// Number of payload bytes returned in this fragment.
    pub returned_bytes: Option<usize>,
    /// Number of payload bytes still available after this fragment.
    pub remaining_bytes: Option<usize>,
    /// Snapshot identity of the immutable deferred payload.
    pub snapshot_hash: Option<String>,
}

/// Metadata accompanying raw source text returned by `read_semantic_resource`.
#[derive(Debug, PartialEq, Eq)]
pub struct SemanticSourceMetadata {
    pub path: String,
    pub uri: String,
    pub range: Range,
    pub highlighted_range: Range,
    pub language_id: Option<String>,
    pub document_version: Option<i32>,
    pub content_hash: String,
    pub returned_lines: usize,
    pub total_lines: usize,
    pub returned_bytes: usize,
    pub total_bytes: usize,
    pub truncated: bool,
    pub resource: Option<DeferredResourceReference>,
}

impl Default for DiagnosticsMode {
    fn default() -> (mode: Self)
        ensures
            mode == DiagnosticsMode::CachedPreferred,
    {
        DiagnosticsMode::CachedPreferred
    }
}

} // verus!
