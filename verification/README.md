# mcpls_core

The core of an MCP server that puts language servers behind tools, resources
and approved workspace edits. The library in `src/` holds the rules: what a
request asks of a project, how an answer is cut to its byte budget, which
resources a session may read, and when an approved edit may be applied. Each
function carries a contract that Verus proves.

- `src/json.rs`, `text.rs`, `decimal.rs`, `digest.rs`, `sizes.rs`, `paths.rs`:
  values and their encodings.
- `src/resources.rs`, `session.rs`, `pages.rs`, `reading.rs`: resource URIs and
  what a read of one gives back.
- `src/handlers.rs`, `approval.rs`, `state.rs`, `mutation.rs`, `apply.rs`,
  `previews.rs`: edit plans, their approval and their results.
- `src/lexical.rs`, `symbols.rs`, `requests.rs`, `tools.rs`, `catalog.rs`: the
  tools.
- `src/project.rs`, `status.rs`, `subscriptions.rs`, `instrumentation.rs`,
  `errors.rs`: projects, events, notifications, measurements and failures.

The laws that relate several functions are public proof functions named
`law_*`. `tests/` runs the library on concrete values. `app/` is the ordinary
Rust around it: the async server, its transport types and tracing.
