use devops_agent::agent::react::{agent_error_message, react_max_turns, DevOpsAgentConfig};
use devops_agent::elasticsearch::dsl_validator::DslValidator;
use devops_agent::elasticsearch::queries::EsSearchRequest;
use devops_agent::elasticsearch::EsError;
use devops_agent::json::{JsonNumber, JsonValue};

fn to_json(v: &serde_json::Value) -> JsonValue {
    match v {
        serde_json::Value::Null => JsonValue::Null,
        serde_json::Value::Bool(b) => JsonValue::Bool(*b),
        serde_json::Value::Number(n) => {
            if let Some(u) = n.as_u64() {
                JsonValue::Number(JsonNumber::PosInt(u))
            } else if let Some(i) = n.as_i64() {
                JsonValue::Number(JsonNumber::NegInt(i))
            } else {
                JsonValue::Number(JsonNumber::Float(n.to_string()))
            }
        }
        serde_json::Value::String(s) => JsonValue::String(s.clone()),
        serde_json::Value::Array(a) => JsonValue::Array(a.iter().map(to_json).collect()),
        serde_json::Value::Object(m) => JsonValue::Object(m.iter().map(|(k, v)| (k.clone(), to_json(v))).collect()),
    }
}

fn parsed(query: &str) -> Result<JsonValue, String> {
    serde_json::from_str::<serde_json::Value>(query).map(|v| to_json(&v)).map_err(|e| e.to_string())
}

fn validate(validator: &DslValidator, query: &str) -> Result<(), EsError> {
    validator.validate(query, &parsed(query))
}

#[test]
fn test_devops_agent_config_creation() {
    let config = DevOpsAgentConfig::default();
    assert_eq!(config.max_turns, 10);
    assert!(config.dsl_validator.is_some());
}

#[test]
fn test_react_executor_max_turns_enforced() {
    let config = DevOpsAgentConfig { max_turns: 3, dsl_validator: Some(DslValidator::new()) };
    assert_eq!(config.max_turns, 3);
}

#[test]
fn test_dsl_validator_validates_safe_query() {
    let validator = DslValidator::new();
    let safe_query = r#"{"query": {"match_all": {}}}"#;
    assert!(validate(&validator, safe_query).is_ok());
}

#[test]
fn test_dsl_validator_blocks_script_injection() {
    let validator = DslValidator::new();
    let script_query = r#"{"query": {"script_score": {"script": "ctx._source.score * 2"}}}"#;
    let result = validate(&validator, script_query);
    assert!(result.is_err());
    assert!(result.unwrap_err().to_string().contains("Dangerous field or query type detected"));
}

#[test]
fn test_dsl_validator_blocks_update_by_query() {
    let validator = DslValidator::new();
    let update_query = r#"{"_update_by_query": {"query": {"match_all": {}}}}"#;
    let result = validate(&validator, update_query);
    assert!(result.is_err());
    assert!(result.unwrap_err().to_string().contains("Dangerous field or query type detected"));
}

#[test]
fn test_es_dsl_validator_sanitizes_size_limit() {
    let validator = DslValidator::new();
    let request = EsSearchRequest { query: None, size: Some(5000), from: None, sort: None, aggs: None, _source: None };
    let sanitized = validator.sanitize(request).unwrap();
    assert_eq!(sanitized.size, Some(1000));
}

#[test]
fn test_es_dsl_validator_sanitizes_from_limit() {
    let validator = DslValidator::new();
    let request = EsSearchRequest { query: None, size: None, from: Some(20000), sort: None, aggs: None, _source: None };
    let sanitized = validator.sanitize(request).unwrap();
    assert_eq!(sanitized.from, Some(10000));
}

#[test]
fn agent_validation_follows_the_validator() {
    let q = r#"{"query": {"script": {"script": "x"}}}"#;
    let with = DevOpsAgentConfig::default();
    assert!(with.validate_dsl(q, &parsed(q)).is_err());
    let without = DevOpsAgentConfig { max_turns: 10, dsl_validator: None };
    assert!(without.validate_dsl(q, &parsed(q)).is_ok());
}

#[test]
fn agent_error_messages_and_turns() {
    assert_eq!(agent_error_message(&EsError::InvalidDsl("invalid dsl".to_string())), "DSL validation failed: invalid dsl");
    assert_eq!(
        agent_error_message(&EsError::HttpError { status: 400, message: "bad request".to_string(), details: None }),
        "HTTP error 400: bad request"
    );
    assert_eq!(agent_error_message(&EsError::TimeoutError { timeout_ms: 250 }), "Timeout error: 250ms");
    assert_eq!(react_max_turns(0), 1);
    assert_eq!(react_max_turns(8), 8);
}
