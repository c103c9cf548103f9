//! Elasticsearch client settings, errors and the DSL guard.
use vstd::prelude::*;
use crate::json::JsonValue;
use crate::text::{push_str, u64_text, decimal};

pub mod dsl_validator;
pub mod queries;

pub use dsl_validator::DslValidator;
pub use queries::EsSearchRequest;

verus! {

/// Elasticsearch client configuration.
#[derive(Debug, Clone)]
pub struct EsClientConfig {
    pub url: String,
    pub username: Option<String>,
    pub password: Option<String>,
    pub api_key: Option<String>,
    pub timeout_seconds: u64,
    pub tls_insecure_skip_verify: bool,
}

impl Default for EsClientConfig {
    fn default() -> (r: Self)
        ensures
            r.url@ == "http://localhost:9200"@,
            r.username is None,
            r.password is None,
            r.api_key is None,
            r.timeout_seconds == 30,
            !r.tls_insecure_skip_verify,
    {
        EsClientConfig {
            url: String::from_str("http://localhost:9200"),
            username: None,
            password: None,
            api_key: None,
            timeout_seconds: 30,
            tls_insecure_skip_verify: false,
        }
    }
}

/// Errors of Elasticsearch queries.
#[derive(Debug)]
pub enum EsError {
    HttpError { status: u16, message: String, details: Option<JsonValue> },
    ValidationError(String),
    TimeoutError { timeout_ms: u64 },
    NetworkError(String),
    SerializationError(String),
    InvalidDsl(String),
}

/// The message an error displays.
pub open spec fn es_error_text(e: EsError) -> Seq<char> {
    match e {
        EsError::HttpError { status, message, .. } => "HTTP error: "@ + decimal(status as nat)
            + " - "@ + message@,
        EsError::ValidationError(m) => "Validation error: "@ + m@,
        EsError::TimeoutError { timeout_ms } => "Timeout error: query exceeded "@ + decimal(
            timeout_ms as nat,
        ) + "ms"@,
        EsError::NetworkError(m) => "Network error: "@ + m@,
        EsError::SerializationError(m) => "Serialization error: "@ + m@,
        EsError::InvalidDsl(m) => "Invalid DSL: "@ + m@,
    }
}

impl EsError {
    /// The error's message.
    pub fn to_string(&self) -> (r: String)
        ensures
            r@ == es_error_text(*self),
    {
        let mut r = String::new();
        match self {
            EsError::HttpError { status, message, .. } => {
                push_str(&mut r, "HTTP error: ");
                let d = u64_text(*status as u64);
                push_str(&mut r, d.as_str());
                push_str(&mut r, " - ");
                push_str(&mut r, message.as_str());
            },
            EsError::ValidationError(m) => {
                push_str(&mut r, "Validation error: ");
                push_str(&mut r, m.as_str());
            },
            EsError::TimeoutError { timeout_ms } => {
                push_str(&mut r, "Timeout error: query exceeded ");
                let d = u64_text(*timeout_ms);
                push_str(&mut r, d.as_str());
                push_str(&mut r, "ms");
            },
            EsError::NetworkError(m) => {
                push_str(&mut r, "Network error: ");
                push_str(&mut r, m.as_str());
            },
            EsError::SerializationError(m) => {
                push_str(&mut r, "Serialization error: ");
                push_str(&mut r, m.as_str());
            },
            EsError::InvalidDsl(m) => {
                push_str(&mut r, "Invalid DSL: ");
                push_str(&mut r, m.as_str());
            },
        }
        r
    }
}

} // verus!
