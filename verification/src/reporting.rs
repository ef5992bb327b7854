//! Centralized progress registries for application-registered tasks, and
//! the failures they report.

pub mod error;
pub mod phase;
pub mod progress;
pub mod lines;
pub mod configured;
