//! Aura: the verified core of a minimal coding agent.
//!
//! The library holds the agent's pure logic: task and decision validation,
//! the agent state machine and budgets, command risk analysis, path and
//! capability policy, the SSE stream parser, plugin lifecycle and manifest
//! rules, secret template substitution, context truncation and compaction,
//! and the bench report helpers. Input/output lives in the application crate.

pub mod error;
pub mod text;
pub mod state;
pub mod plugin;
pub mod sse;
pub mod path;
pub mod paths;
pub mod policy;
pub mod precheck;
pub mod clock;
pub mod domain;
pub mod children;
pub mod context;
pub mod compaction;
pub mod setup;
pub mod bench;
pub mod event;
pub mod tool;
pub mod reminders;
pub mod agent;
pub mod output;
pub mod tools;
pub mod config;
pub mod model;
pub mod model_http;
pub mod session;
pub mod cli;
