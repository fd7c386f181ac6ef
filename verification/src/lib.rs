//! A declarative local build and deployment orchestrator.
//!
//! A rune names blueprints (image builds, container runs, shell scripts),
//! environment bundles and flows of tasks. This library holds the decisions
//! of the flow execution engine: how a command line is put together, when a
//! task may start, which task is blocked, and what a flow's result is. The
//! processes themselves are started by the caller.

pub mod desktop;
pub mod engine;
pub mod model;
pub mod start_up;
