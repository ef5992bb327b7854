//! Persistence policy and the deterministic bookkeeping of local
//! recordings: stream storage settings, queue admission, chunk
//! accumulation, and recording timing.

pub mod error;
pub mod storage;
pub mod decoder;
pub mod queue;
pub mod chunk;
pub mod reuse;
