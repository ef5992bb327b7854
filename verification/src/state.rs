//! Template-defined scientific state layouts.

pub mod error;
pub mod field;
pub mod schema;
