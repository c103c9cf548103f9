use devops_agent::elasticsearch::dsl_validator::{
    DslValidator, MAX_BOOL_CLAUSES, MAX_QUERY_DEPTH, MAX_QUERY_SIZE, MAX_TERMS_COUNT,
};
use devops_agent::elasticsearch::queries::{EsSearchRequest, QueryType, SourceConfig};
use devops_agent::elasticsearch::EsError;
use devops_agent::json::{JsonNumber, JsonValue};

fn to_json(v: &serde_json::Value) -> JsonValue {
    match v {
        serde_json::Value::Null => JsonValue::Null,
        serde_json::Value::Bool(b) => JsonValue::Bool(*b),
        serde_json::Value::Number(n) => {
            if let Some(u) = n.as_u64() {
                JsonValue::Number(JsonNumber::PosInt(u))
            } else if let Some(i) = n.as_i64() {
                JsonValue::Number(JsonNumber::NegInt(i))
            } else {
                JsonValue::Number(JsonNumber::Float(n.to_string()))
            }
        }
        serde_json::Value::String(s) => JsonValue::String(s.clone()),
        serde_json::Value::Array(a) => JsonValue::Array(a.iter().map(to_json).collect()),
        serde_json::Value::Object(m) => {
            JsonValue::Object(m.iter().map(|(k, v)| (k.clone(), to_json(v))).collect())
        }
    }
}

fn validate(validator: &DslValidator, query: &str) -> Result<(), EsError> {
    let parsed = serde_json::from_str::<serde_json::Value>(query)
        .map(|v| to_json(&v))
        .map_err(|e| e.to_string());
    validator.validate(query, &parsed)
}

fn empty_request() -> EsSearchRequest {
    EsSearchRequest { query: None, size: None, from: None, sort: None, aggs: None, _source: None }
}

#[test]
fn test_dsl_validator_new() {
    let validator = DslValidator::new();
    assert_eq!(validator.max_size, MAX_QUERY_SIZE);
    assert_eq!(validator.max_depth, MAX_QUERY_DEPTH);
    assert_eq!(validator.max_terms_count, MAX_TERMS_COUNT);
    assert_eq!(validator.max_bool_clauses, MAX_BOOL_CLAUSES);
}

#[test]
fn test_validate_valid_json() {
    let validator = DslValidator::new();
    let valid_query = r#"{"query": {"match_all": {}}}"#;
    assert!(validate(&validator, valid_query).is_ok());
}

#[test]
fn test_validate_invalid_json() {
    let validator = DslValidator::new();
    let invalid_query = r#"{"query": {"match_all": {}}"#;
    assert!(validate(&validator, invalid_query).is_err());
}

#[test]
fn test_validate_script_injection() {
    let validator = DslValidator::new();
    let script_query = r#"{"query": {"script_score": {"script": "ctx._source.score * 2"}}}"#;
    let result = validate(&validator, script_query);
    assert!(result.is_err());
    assert!(result.unwrap_err().to_string().contains("Dangerous field or query type detected"));
}

#[test]
fn test_validate_update_by_query() {
    let validator = DslValidator::new();
    let update_query = r#"{"_update_by_query": {"query": {"match_all": {}}}}"#;
    let result = validate(&validator, update_query);
    assert!(result.is_err());
    assert!(result.unwrap_err().to_string().contains("Dangerous field or query type detected"));
}

#[test]
fn test_sanitize_size_limit() {
    let validator = DslValidator::new();
    let mut request = empty_request();
    request.size = Some(5000);
    let sanitized = validator.sanitize(request).unwrap();
    assert_eq!(sanitized.size, Some(1000));
}

#[test]
fn test_sanitize_from_limit() {
    let validator = DslValidator::new();
    let mut request = empty_request();
    request.from = Some(20000);
    let sanitized = validator.sanitize(request).unwrap();
    assert_eq!(sanitized.from, Some(10000));
}

#[test]
fn test_sanitize_terms_limit() {
    let validator = DslValidator::new();
    let mut values: Vec<String> = Vec::new();
    for i in 0..200 {
        values.push(format!("value_{}", i));
    }
    let mut request = empty_request();
    request.query = Some(QueryType::Terms { field: "status".to_string(), values });
    let sanitized = validator.sanitize(request).unwrap();
    if let QueryType::Terms { values: sanitized_values, .. } = sanitized.query.unwrap() {
        assert_eq!(sanitized_values.len(), 100);
    } else {
        panic!("Expected Terms query");
    }
}

#[test]
fn test_sanitize_field_name_invalid() {
    let validator = DslValidator::new();
    let invalid_field = "field..name";
    let result = validator.sanitize_field_name(invalid_field);
    assert!(result.is_err());
}

#[test]
fn test_sanitize_wildcard_too_complex() {
    let validator = DslValidator::new();
    let complex_wildcard = "field*value*other*more";
    let result = validator.sanitize_wildcard_value(complex_wildcard);
    assert!(result.is_err());
}

#[test]
fn field_names_keep_only_safe_characters() {
    let validator = DslValidator::new();
    assert_eq!(validator.sanitize_field_name("user name;drop").unwrap(), "usernamedrop");
    assert_eq!(validator.sanitize_field_name("client.ip-v4_x").unwrap(), "client.ip-v4_x");
    match validator.sanitize_field_name("$%^") {
        Err(EsError::InvalidDsl(m)) => assert_eq!(m, "Invalid field name"),
        _ => panic!("expected invalid field name"),
    }
    match validator.sanitize_field_name("a..b") {
        Err(EsError::InvalidDsl(m)) => assert_eq!(m, "Invalid field name pattern"),
        _ => panic!("expected invalid pattern"),
    }
    let once = validator.sanitize_field_name("héllo wörld!").unwrap();
    assert_eq!(validator.sanitize_field_name(&once).unwrap(), once);
}

#[test]
fn wildcard_limits() {
    let validator = DslValidator::new();
    assert_eq!(validator.sanitize_wildcard_value("a*b*c").unwrap(), "a*b*c");
    assert!(validator.sanitize_wildcard_value("??????").is_err());
    assert_eq!(validator.sanitize_wildcard_value("?????").unwrap(), "?????");
}

#[test]
fn depth_limit_is_enforced() {
    let validator = DslValidator::with_settings(1000, 2, 100, 32);
    assert!(validate(&validator, r#"{"a": {"b": 1}}"#).is_ok());
    let err = validate(&validator, r#"{"a": {"b": {"c": {"d": 1}}}}"#).unwrap_err();
    assert_eq!(err.to_string(), "Invalid DSL: Query depth exceeds maximum limit of 2");
}

#[test]
fn strings_and_source_wildcards() {
    let validator = DslValidator::new();
    let err = validate(&validator, r#"{"q": "use painless here"}"#).unwrap_err();
    assert_eq!(err.to_string(), "Invalid DSL: Potentially dangerous string pattern detected");
    assert!(validate(&validator, r#"{"q": "_source only"}"#).is_ok());
    let err = validate(&validator, r#"{"_source": {"includes": ["a*b*c*d"]}}"#).unwrap_err();
    assert_eq!(err.to_string(), "Invalid DSL: Too many wildcards in _source includes");
    assert!(validate(&validator, r#"{"_source": {"includes": ["a*b*c"]}}"#).is_ok());
    let err = validate(&validator, "x".repeat(10001).as_str()).unwrap_err();
    assert_eq!(err.to_string(), "Invalid DSL: Query exceeds maximum size limit");
}

#[test]
fn nested_dangerous_key_reports_path() {
    let validator = DslValidator::new();
    let err = validate(&validator, r#"{"aggs": {"x": {"Matrix_Stats": {}}}}"#).unwrap_err();
    assert_eq!(err.to_string(), "Invalid DSL: Dangerous field or query type detected: aggs.x.Matrix_Stats");
}

#[test]
fn sanitize_value_clamps_and_is_idempotent() {
    let validator = DslValidator::new();
    let mut body = to_json(&serde_json::from_str(r#"{"size": 5000, "from": 20000, "query": {}}"#).unwrap());
    validator.sanitize_value(&mut body);
    assert_eq!(body.get("size").and_then(|v| v.as_u64()), Some(1000));
    assert_eq!(body.get("from").and_then(|v| v.as_u64()), Some(10000));
    let once = body.duplicate();
    validator.sanitize_value(&mut body);
    assert_eq!(body, once);
    let mut small = to_json(&serde_json::from_str(r#"{"size": 10, "from": "x"}"#).unwrap());
    validator.sanitize_value(&mut small);
    assert_eq!(small.get("size").and_then(|v| v.as_u64()), Some(10));
    assert_eq!(small.get("from").and_then(|v| v.as_str()), Some("x"));
}

#[test]
fn bool_clauses_are_limited_and_failures_dropped() {
    let validator = DslValidator::with_settings(1000, 10, 100, 2);
    let must = vec![
        QueryType::Match { field: "***".to_string(), value: "x".to_string() },
        QueryType::Term { field: "status".to_string(), value: "401".to_string() },
        QueryType::MatchAll,
    ];
    let q = QueryType::Bool { must: Some(must), must_not: Some(vec![]), should: None };
    match validator.sanitize_query_type(q, 0).unwrap() {
        QueryType::Bool { must, must_not, should } => {
            let must = must.unwrap();
            assert_eq!(must.len(), 1);
            assert!(matches!(&must[0], QueryType::Term { field, .. } if field == "status"));
            assert!(must_not.is_none());
            assert!(should.is_none());
        }
        _ => panic!("expected bool"),
    }
}

#[test]
fn source_config_limits_patterns() {
    let validator = DslValidator::new();
    let includes: Vec<String> = (0..60).map(|i| format!("f{}", i)).collect();
    let excludes = vec!["a*/b".to_string(), "c".to_string()];
    let out = validator.sanitize_source_config(SourceConfig { includes: Some(includes), excludes: Some(excludes) });
    assert_eq!(out.includes.unwrap().len(), 50);
    assert_eq!(out.excludes.unwrap(), vec!["c".to_string()]);
}

#[test]
fn sanitize_reports_query_errors() {
    let validator = DslValidator::new();
    let mut request = empty_request();
    request.query = Some(QueryType::Wildcard { field: "path".to_string(), value: "*a*b*c".to_string() });
    match validator.sanitize(request) {
        Err(EsError::InvalidDsl(m)) => assert_eq!(m, "Wildcard pattern too complex"),
        _ => panic!("expected error"),
    }
}

#[test]
fn dangerous_key_is_refused_in_any_case_and_nesting() {
    let validator = DslValidator::new();
    let nested = r#"{"query": {"bool": {"filter": {"Script": {"source": "x"}}}}}"#;
    match validate(&validator, nested) {
        Err(EsError::InvalidDsl(m)) => {
            assert_eq!(m, "Dangerous field or query type detected: query.bool.filter.Script")
        }
        other => panic!("expected the dangerous-field error, got {:?}", other),
    }
    let deep = r#"{"_reindex": {}}"#;
    assert!(matches!(validate(&validator, deep), Err(EsError::InvalidDsl(_))));
}
