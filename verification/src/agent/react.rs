//! The agent's settings and how its search errors read.
use vstd::prelude::*;
use crate::elasticsearch::dsl_validator::{DslValidator, is_dsl_result, dsl_outcome, check_value, MAX_QUERY_SIZE, MAX_QUERY_DEPTH, MAX_TERMS_COUNT,
    MAX_BOOL_CLAUSES};
use crate::elasticsearch::EsError;
use crate::json::JsonValue;
use crate::text::{decimal, own, push_str, u64_text};

verus! {

/// The agent's settings: how many reasoning turns it may take and the
/// validator its searches pass, if any.
#[derive(Debug, Clone)]
pub struct DevOpsAgentConfig {
    pub max_turns: usize,
    pub dsl_validator: Option<DslValidator>,
}

impl Default for DevOpsAgentConfig {
    fn default() -> (r: Self)
        ensures
            r.max_turns == 10,
            r.dsl_validator matches Some(v) && v.max_size == MAX_QUERY_SIZE && v.max_depth == MAX_QUERY_DEPTH
                && v.max_terms_count == MAX_TERMS_COUNT && v.max_bool_clauses == MAX_BOOL_CLAUSES,
    {
        DevOpsAgentConfig { max_turns: 10, dsl_validator: Some(DslValidator::new()) }
    }
}

impl DevOpsAgentConfig {
    /// Validates a search with the configured validator; without one every
    /// search passes. `parsed` is the search parsed as JSON, or the
    /// parser's message.
    pub fn validate_dsl(&self, dsl_query: &str, parsed: &Result<JsonValue, String>) -> (r: Result<(), EsError>)
        ensures
            match self.dsl_validator {
                None => r is Ok,
                Some(v) => is_dsl_result(r) && dsl_outcome(r) == (if dsl_query.len() > v.max_size * 10 {
                    Some("Query exceeds maximum size limit"@)
                } else {
                    match *parsed {
                        Err(e) => Some("Invalid JSON in DSL query: "@ + e@),
                        Ok(j) => check_value(j@, 0, v.max_depth as nat),
                    }
                }),
            },
    {
        match &self.dsl_validator {
            Some(v) => v.validate(dsl_query, parsed),
            None => Ok(()),
        }
    }
}

/// The turn limit of a reasoning loop: as requested, but at least one.
pub fn react_max_turns(requested: usize) -> (r: usize)
    ensures
        r == (if requested < 1 { 1 } else { requested }),
{
    if requested < 1 {
        1
    } else {
        requested
    }
}

/// How a search error reads when the agent's reasoning loop reports it.
pub open spec fn agent_error_text(e: EsError) -> Seq<char> {
    match e {
        EsError::InvalidDsl(m) => "DSL validation failed: "@ + m@,
        EsError::HttpError { status, message, .. } => "HTTP error "@ + decimal(status as nat) + ": "@ + message@,
        EsError::TimeoutError { timeout_ms } => "Timeout error: "@ + decimal(timeout_ms as nat) + "ms"@,
        EsError::NetworkError(m) => "Network error: "@ + m@,
        EsError::SerializationError(m) => "Serialization error: "@ + m@,
        EsError::ValidationError(m) => "Validation error: "@ + m@,
    }
}

/// The message of a search error in the agent's reasoning loop.
pub fn agent_error_message(e: &EsError) -> (r: String)
    ensures
        r@ == agent_error_text(*e),
{
    match e {
        EsError::InvalidDsl(m) => {
            let mut r = own("DSL validation failed: ");
            push_str(&mut r, m.as_str());
            r
        },
        EsError::HttpError { status, message, .. } => {
            let mut r = own("HTTP error ");
            push_str(&mut r, u64_text(*status as u64).as_str());
            push_str(&mut r, ": ");
            push_str(&mut r, message.as_str());
            r
        },
        EsError::TimeoutError { timeout_ms } => {
            let mut r = own("Timeout error: ");
            push_str(&mut r, u64_text(*timeout_ms).as_str());
            push_str(&mut r, "ms");
            r
        },
        EsError::NetworkError(m) => {
            let mut r = own("Network error: ");
            push_str(&mut r, m.as_str());
            r
        },
        EsError::SerializationError(m) => {
            let mut r = own("Serialization error: ");
            push_str(&mut r, m.as_str());
            r
        },
        EsError::ValidationError(m) => {
            let mut r = own("Validation error: ");
            push_str(&mut r, m.as_str());
            r
        },
    }
}

} // verus!
