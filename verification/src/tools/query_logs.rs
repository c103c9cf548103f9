//! Querying logs with a DSL search.
use vstd::prelude::*;

verus! {

/// The index to search and the DSL query text.
#[derive(Debug, Clone)]
pub struct QueryLogsInput {
    pub index: String,
    pub dsl_query: String,
}

} // verus!
