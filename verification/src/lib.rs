//! Session and tool-dispatch engine for a headless coding-agent server.
//!
//! A client creates a long-lived session pinned to a project directory,
//! posts messages, and asks the session to execute tools against that
//! project.  This crate holds the verified core: the path sandbox, the
//! host allowlist, layered settings resolution, the session store model,
//! the tool registry, and the per-tool decision logic.  Filesystem,
//! network and database effects live outside the crate and hand plain
//! values in and out.

pub mod engine;
pub mod errors;
pub mod hosts;
pub mod models;
pub mod paths;
pub mod registry;
pub mod settings;
pub mod store;
pub mod text;
pub mod tools;
