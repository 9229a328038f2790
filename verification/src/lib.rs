//! Decision core of the MCP front end of a language-server daemon.

pub mod apply;
pub mod approval;
pub mod catalog;
pub mod decimal;
pub mod digest;
pub mod errors;
pub mod handlers;
pub mod instrumentation;
pub mod json;
pub mod lexical;
pub mod mutation;
pub mod pages;
pub mod paths;
pub mod previews;
pub mod project;
pub mod promises;
pub mod reading;
pub mod requests;
pub mod resources;
pub mod session;
pub mod sizes;
pub mod state;
pub mod status;
pub mod subscriptions;
pub mod symbols;
pub mod text;
pub mod tools;
