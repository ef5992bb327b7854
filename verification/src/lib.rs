//! Verified core of a scientific workflow runtime: observation plans, state
//! schemas, progress lifecycles, resource admission, run control, and the
//! deterministic bookkeeping around recordings and replicate seeds.

pub mod text;
pub mod handle;
pub mod runtime;
pub mod clock;
pub mod digest;
pub mod state;
pub mod observation;
pub mod persistence;
pub mod reporting;
pub mod rng_record;
