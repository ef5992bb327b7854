//! Scientific observation plans: named streams of selected state fields,
//! their sampling cadence, binding to a state schema, and per-session
//! selection of the streams due at each observed iteration.

pub mod error;
pub mod sampling;
pub mod stream;
pub mod plan;
pub mod session;
