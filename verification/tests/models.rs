use devops_agent::models::{Action, Incident, Recommendation};

fn object(fields: &[(&str, &str)]) -> serde_json::Value {
    let mut m = serde_json::Map::new();
    for (k, v) in fields {
        m.insert(k.to_string(), serde_json::Value::String(v.to_string()));
    }
    serde_json::Value::Object(m)
}

fn field(v: &serde_json::Value, k: &str) -> String {
    v.get(k).and_then(|x| x.as_str()).unwrap().to_string()
}

fn action_value(a: &Action) -> serde_json::Value {
    object(&[("id", &a.id), ("incident_id", &a.incident_id), ("action_type", &a.action_type), ("status", &a.status)])
}

fn action_of(v: &serde_json::Value) -> Action {
    Action {
        id: field(v, "id"),
        incident_id: field(v, "incident_id"),
        action_type: field(v, "action_type"),
        status: field(v, "status"),
    }
}

fn incident_value(i: &Incident) -> serde_json::Value {
    object(&[("id", &i.id), ("source_ip", &i.source_ip), ("detected_at", &i.detected_at), ("status", &i.status)])
}

fn incident_of(v: &serde_json::Value) -> Incident {
    Incident {
        id: field(v, "id"),
        source_ip: field(v, "source_ip"),
        detected_at: field(v, "detected_at"),
        status: field(v, "status"),
    }
}

fn recommendation_value(r: &Recommendation) -> serde_json::Value {
    object(&[
        ("incident_id", &r.incident_id),
        ("recommendation", &r.recommendation),
        ("action_type", &r.action_type),
    ])
}

fn recommendation_of(v: &serde_json::Value) -> Recommendation {
    Recommendation {
        incident_id: field(v, "incident_id"),
        recommendation: field(v, "recommendation"),
        action_type: field(v, "action_type"),
    }
}

fn sample_action() -> Action {
    Action {
        id: "act-456".to_string(),
        incident_id: "inc-123".to_string(),
        action_type: "block_ip".to_string(),
        status: "pending".to_string(),
    }
}

fn sample_incident() -> Incident {
    Incident {
        id: "inc-123".to_string(),
        source_ip: "192.168.1.100".to_string(),
        detected_at: "2026-07-01T12:00:00Z".to_string(),
        status: "detected".to_string(),
    }
}

fn sample_recommendation() -> Recommendation {
    Recommendation {
        incident_id: "inc-123".to_string(),
        recommendation: "Block IP 192.168.1.100 due to secrets scanning activity".to_string(),
        action_type: "block".to_string(),
    }
}

#[test]
fn test_action_json_serialize_deserialize() {
    let action = sample_action();
    let json = serde_json::to_string(&action_value(&action)).unwrap();
    let deserialized = action_of(&serde_json::from_str::<serde_json::Value>(&json).unwrap());
    assert_eq!(action.id, deserialized.id);
    assert_eq!(action.incident_id, deserialized.incident_id);
    assert_eq!(action.action_type, deserialized.action_type);
    assert_eq!(action.status, deserialized.status);
}

#[test]
fn test_action_yaml_serialize_deserialize() {
    let action = sample_action();
    let yaml = serde_yaml::to_string(&action_value(&action)).unwrap();
    let deserialized = action_of(&serde_yaml::from_str::<serde_json::Value>(&yaml).unwrap());
    assert_eq!(action.id, deserialized.id);
    assert_eq!(action.incident_id, deserialized.incident_id);
    assert_eq!(action.action_type, deserialized.action_type);
    assert_eq!(action.status, deserialized.status);
}

#[test]
fn test_incident_json_serialize_deserialize() {
    let incident = sample_incident();
    let json = serde_json::to_string(&incident_value(&incident)).unwrap();
    let deserialized = incident_of(&serde_json::from_str::<serde_json::Value>(&json).unwrap());
    assert_eq!(incident.id, deserialized.id);
    assert_eq!(incident.source_ip, deserialized.source_ip);
    assert_eq!(incident.detected_at, deserialized.detected_at);
    assert_eq!(incident.status, deserialized.status);
}

#[test]
fn test_incident_yaml_serialize_deserialize() {
    let incident = sample_incident();
    let yaml = serde_yaml::to_string(&incident_value(&incident)).unwrap();
    let deserialized = incident_of(&serde_yaml::from_str::<serde_json::Value>(&yaml).unwrap());
    assert_eq!(incident.id, deserialized.id);
    assert_eq!(incident.source_ip, deserialized.source_ip);
    assert_eq!(incident.detected_at, deserialized.detected_at);
    assert_eq!(incident.status, deserialized.status);
}

#[test]
fn test_recommendation_json_serialize_deserialize() {
    let rec = sample_recommendation();
    let json = serde_json::to_string(&recommendation_value(&rec)).unwrap();
    let deserialized = recommendation_of(&serde_json::from_str::<serde_json::Value>(&json).unwrap());
    assert_eq!(rec.incident_id, deserialized.incident_id);
    assert_eq!(rec.recommendation, deserialized.recommendation);
    assert_eq!(rec.action_type, deserialized.action_type);
}

#[test]
fn test_recommendation_yaml_serialize_deserialize() {
    let rec = sample_recommendation();
    let yaml = serde_yaml::to_string(&recommendation_value(&rec)).unwrap();
    let deserialized = recommendation_of(&serde_yaml::from_str::<serde_json::Value>(&yaml).unwrap());
    assert_eq!(rec.incident_id, deserialized.incident_id);
    assert_eq!(rec.recommendation, deserialized.recommendation);
    assert_eq!(rec.action_type, deserialized.action_type);
}
