[package]
name = "mcpls_core"
version = "0.1.0"
edition = "2021"
publish = false

[dependencies]
async-trait = "0.1"
lsp-types = "0.97"
opentelemetry = "*"
opentelemetry_sdk = "*"
rmcp = { version = "*", features = ["server", "macros", "schemars", "request-state"] }
schemars = "1"
serde = { version = "1", features = ["derive"] }
serde_json = "1"
sha2 = "0.10"
tokio = { version = "1", features = ["macros", "rt", "sync", "time"] }
tokio-util = "0.7"
tracing = "0.1"
tracing-opentelemetry = "*"
uuid = { version = "1", features = ["v4"] }
