//! Execution mechanics: cooperative run control, compute admission, task
//! scheduling decisions, progress lifecycles, and completion summaries.

pub mod compute;
pub mod control;
pub mod error;
pub mod execution;
pub mod execution_plan;
pub mod graph;
pub mod members;
pub mod output;
pub mod phase;
pub mod phase_builder;
pub mod report_lines;
pub mod reporting;
pub mod resource;
pub mod reuse;
pub mod scheduler;
pub mod selector;
pub mod summary;
pub mod telemetry;
