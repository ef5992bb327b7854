//! Phase and task identities as the reporting layer names them.

pub use crate::runtime::phase::{PhaseId, TaskId, TaskKey, TaskDisplayKind};
