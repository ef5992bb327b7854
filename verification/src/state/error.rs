//! State schema failures.
use vstd::prelude::*;

verus! {

/// A failure while loading or querying a state schema.
#[derive(Debug)]
pub enum StateError {
    /// The template file could not be read.
    TemplateRead { path: String, reason: String },
    /// The template is not valid JSON of the accepted shape.
    TemplateParse { path: String, reason: String },
    /// The field at `index` has an empty normalized name.
    EmptyFieldName { index: usize },
    /// A normalized field name is declared more than once.
    DuplicateField { field: String },
    /// A lookup named a field the schema does not declare.
    UnknownField { field: String },
}

} // verus!
