//! The flow execution engine: command synthesis, dependency checks, task
//! dispatch and the bookkeeping of a running flow.

pub mod error;
pub mod text;
pub mod job;
pub mod graph;
pub mod state;
pub mod task;
pub mod executor;
pub mod extractor;
