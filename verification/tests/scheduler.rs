use devops_agent::config::models::SchedulerConfig;
use devops_agent::json::{JsonNumber, JsonValue};
use devops_agent::scheduler::{build_incident_details, incident_candidates};

fn to_json(v: &serde_json::Value) -> JsonValue {
    match v {
        serde_json::Value::Null => JsonValue::Null,
        serde_json::Value::Bool(b) => JsonValue::Bool(*b),
        serde_json::Value::Number(n) => {
            if let Some(u) = n.as_u64() {
                JsonValue::Number(JsonNumber::PosInt(u))
            } else if let Some(i) = n.as_i64() {
                JsonValue::Number(JsonNumber::NegInt(i))
            } else {
                JsonValue::Number(JsonNumber::Float(n.to_string()))
            }
        }
        serde_json::Value::String(s) => JsonValue::String(s.clone()),
        serde_json::Value::Array(a) => JsonValue::Array(a.iter().map(to_json).collect()),
        serde_json::Value::Object(m) => JsonValue::Object(m.iter().map(|(k, v)| (k.clone(), to_json(v))).collect()),
    }
}

#[test]
fn sources_over_threshold_become_incidents() {
    let response = to_json(&serde_json::from_str(r#"{"aggregations": {"source_ips": {"buckets": [
        {"key": "203.0.113.10", "doc_count": 42, "by_status": {"buckets": [{"key": 401, "doc_count": 40}, {"key": "403", "doc_count": 2}]},
         "last_seen": {"value_as_string": "2026-07-03T11:59:00Z"}},
        {"key": "198.51.100.1", "doc_count": 3},
        {"key": 5, "doc_count": 100}
    ]}}}"#).unwrap());
    let config = SchedulerConfig::default();
    let candidates = incident_candidates(&config, &response, &Vec::new());
    assert_eq!(candidates.len(), 1);
    assert_eq!(candidates[0].incident_id, "incident-203.0.113.10");
    assert_eq!(candidates[0].failure_count, 42);
    let details = &candidates[0].details;
    assert_eq!(
        details.to_json_text(),
        "{\"window_minutes\":60,\"failure_count\":42,\"status_breakdown\":[[\"401\",40],[\"403\",2]],\"methods\":[],\"top_paths\":[],\"target_hosts\":[],\"last_seen\":\"2026-07-03T11:59:00Z\"}"
    );
}

#[test]
fn details_without_metrics() {
    let config = SchedulerConfig::default();
    let details = build_incident_details(&config, &JsonValue::Null, 7);
    assert_eq!(
        details.to_json_text(),
        "{\"window_minutes\":60,\"failure_count\":7,\"status_breakdown\":[],\"methods\":[],\"top_paths\":[],\"target_hosts\":[],\"last_seen\":null}"
    );
}

#[test]
fn json_text_escapes_strings() {
    let v = JsonValue::Array(vec![
        JsonValue::String("a\"b\\c\n\u{1}".to_string()),
        JsonValue::Number(JsonNumber::NegInt(-3)),
        JsonValue::Bool(false),
    ]);
    assert_eq!(v.to_json_text(), "[\"a\\\"b\\\\c\\n\\u0001\",-3,false]");
}

#[test]
fn test_scheduler_error_from_es_error() {
    let es_error = devops_agent::elasticsearch::EsError::InvalidDsl("invalid dsl".to_string());
    let scheduler_error: devops_agent::scheduler::SchedulerError = es_error.into();
    assert!(matches!(scheduler_error, devops_agent::scheduler::SchedulerError::Es(_)));
    assert_eq!(scheduler_error.to_string(), "Elasticsearch error: Invalid DSL: invalid dsl");
}

#[test]
fn test_scheduler_error_from_db_error() {
    let db_error = sqlx::Error::PoolTimedOut;
    let scheduler_error: devops_agent::scheduler::SchedulerError = db_error.into();
    assert!(matches!(scheduler_error, devops_agent::scheduler::SchedulerError::Db(_)));
    assert!(scheduler_error.to_string().starts_with("Database error: "));
}

#[test]
fn detection_query_text() {
    let q = devops_agent::scheduler::detection_query(&SchedulerConfig::default());
    assert_eq!(
        q.to_json_text(),
        [
            r#"{"aggs":{"source_ips":{"aggs":{"by_status":{"terms":{"field":"DownstreamStatus"}},"#,
            r#""last_seen":{"max":{"field":"StartLocal","format":"strict_date_optional_time"}},"#,
            r#""methods":{"terms":{"field":"RequestMethod.keyword","size":5}},"#,
            r#""top_hosts":{"terms":{"field":"RequestHost.keyword","size":5}},"#,
            r#""top_paths":{"terms":{"field":"RequestPath.keyword","size":8}}},"#,
            r#""terms":{"field":"ClientHost.keyword","size":50}}},"#,
            r#""query":{"bool":{"minimum_should_match":1,"must":[{"range":{"StartLocal":{"gte":"now-60m"}}}],"#,
            r#""should":[{"term":{"DownstreamStatus":401}},{"term":{"DownstreamStatus":403}}]}},"size":0}"#,
        ]
        .join("")
    );
}

#[test]
fn allowlisted_sources_never_become_incidents() {
    let response = to_json(&serde_json::from_str(r#"{"aggregations": {"source_ips": {"buckets": [
        {"key": "203.0.113.10", "doc_count": 42},
        {"key": "198.51.100.7", "doc_count": 50}
    ]}}}"#).unwrap());
    let config = SchedulerConfig::default();
    let candidates = incident_candidates(&config, &response, &vec!["203.0.113.10".to_string()]);
    assert_eq!(candidates.len(), 1);
    assert_eq!(candidates[0].source_ip, "198.51.100.7");
}
