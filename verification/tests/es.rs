use devops_agent::elasticsearch::{EsClientConfig, EsError};

#[test]
fn test_es_client_config_default() {
    let config = EsClientConfig::default();
    assert_eq!(config.url, "http://localhost:9200");
    assert_eq!(config.timeout_seconds, 30);
    assert!(!config.tls_insecure_skip_verify);
    assert!(config.username.is_none());
    assert!(config.password.is_none());
    assert!(config.api_key.is_none());
}

#[test]
fn test_es_error_display() {
    let error = EsError::ValidationError("invalid query".to_string());
    let error_str = error.to_string();
    assert!(error_str.contains("Validation error"));
    assert!(error_str.contains("invalid query"));
}

#[test]
fn es_error_texts() {
    let http = EsError::HttpError { status: 400, message: "bad request".to_string(), details: None };
    assert_eq!(http.to_string(), "HTTP error: 400 - bad request");
    assert_eq!(EsError::TimeoutError { timeout_ms: 1500 }.to_string(), "Timeout error: query exceeded 1500ms");
    assert_eq!(EsError::NetworkError("down".to_string()).to_string(), "Network error: down");
    assert_eq!(EsError::SerializationError("eof".to_string()).to_string(), "Serialization error: eof");
    assert_eq!(EsError::InvalidDsl("invalid dsl".to_string()).to_string(), "Invalid DSL: invalid dsl");
}
