use devops_agent::config::models::SchedulerConfig;
use devops_agent::db::queries::{ActionDb, IncidentDb};
use devops_agent::elasticsearch::queries::Hit;
use devops_agent::email::{EmailError, EmailSendResult};
use devops_agent::json::{JsonNumber, JsonValue};
use devops_agent::web::evidence::{
    abuse_evidence_query, dotted_value, evidence_source_fields, evidence_time_range, evidence_window,
    json_value_to_string, log_evidence_event_from_hit, source_lookup_field, source_string,
};
use devops_agent::web::report::{advance, begin_abuse_report, ReportCommand, ReportEvent, ReportFlow, SendAbuseReportRequest};
use devops_agent::whois::{AbuseContact, WhoisInfo};

fn to_json(v: &serde_json::Value) -> JsonValue {
    match v {
        serde_json::Value::Null => JsonValue::Null,
        serde_json::Value::Bool(b) => JsonValue::Bool(*b),
        serde_json::Value::Number(n) => {
            if let Some(u) = n.as_u64() {
                JsonValue::Number(JsonNumber::PosInt(u))
            } else if let Some(i) = n.as_i64() {
                JsonValue::Number(JsonNumber::NegInt(i))
            } else {
                JsonValue::Number(JsonNumber::Float(n.to_string()))
            }
        }
        serde_json::Value::String(s) => JsonValue::String(s.clone()),
        serde_json::Value::Array(a) => JsonValue::Array(a.iter().map(to_json).collect()),
        serde_json::Value::Object(m) => JsonValue::Object(m.iter().map(|(k, v)| (k.clone(), to_json(v))).collect()),
    }
}

fn parse(text: &str) -> JsonValue {
    to_json(&serde_json::from_str::<serde_json::Value>(text).unwrap())
}

fn incident() -> IncidentDb {
    IncidentDb {
        id: "incident-203.0.113.10".to_string(),
        source_ip: "203.0.113.10".to_string(),
        detected_at: "2026-07-03T12:00:00Z".to_string(),
        status: "detected".to_string(),
        failure_count: 42,
        details: None,
        created_at: "2026-07-03T12:00:00Z".to_string(),
        updated_at: "2026-07-03T12:00:00Z".to_string(),
    }
}

fn whois(emails: Vec<&str>) -> WhoisInfo {
    WhoisInfo {
        ip: "203.0.113.10".to_string(),
        registry_url: None,
        network_name: None,
        handle: None,
        country: None,
        start_address: None,
        end_address: None,
        organization: None,
        abuse_contacts: vec![AbuseContact {
            name: None,
            role: Some("abuse".to_string()),
            emails: emails.into_iter().map(|e| e.to_string()).collect(),
        }],
    }
}

fn completed_action() -> ActionDb {
    ActionDb {
        id: "a1".to_string(),
        incident_id: "incident-203.0.113.10".to_string(),
        action_type: "report_abuse".to_string(),
        status: "completed".to_string(),
        created_at: "2026-07-03T12:04:00Z".to_string(),
        updated_at: "2026-07-03T12:05:00Z".to_string(),
    }
}

fn start(force: bool) -> ReportFlow {
    let (flow, command) = begin_abuse_report(
        "incident-203.0.113.10",
        Ok(SendAbuseReportRequest { force, ai_inspection: None }),
        "mailjet".to_string(),
        "Ops".to_string(),
        SchedulerConfig::default(),
    );
    assert!(matches!(command, ReportCommand::LoadIncident(ref id) if id == "incident-203.0.113.10"));
    let (flow, command) = advance(flow, ReportEvent::IncidentLoaded(Ok(Some((incident(), None)))));
    assert!(matches!(command, ReportCommand::CheckPriorReport(_)));
    flow
}

#[test]
fn bad_body_is_refused() {
    let (flow, command) = begin_abuse_report(
        "x",
        Err("expected value".to_string()),
        "mailjet".to_string(),
        "Ops".to_string(),
        SchedulerConfig::default(),
    );
    assert!(matches!(flow, ReportFlow::Finished));
    match command {
        ReportCommand::Reply { failed_action, reply } => {
            assert!(failed_action.is_none());
            assert_eq!(reply.status, 400);
            assert_eq!(reply.body.message.as_deref(), Some("Invalid abuse-report request body: expected value"));
        }
        _ => panic!("expected a reply"),
    }
}

#[test]
fn missing_incident_is_not_found() {
    let (flow, _) = begin_abuse_report(
        "x",
        Ok(SendAbuseReportRequest { force: false, ai_inspection: None }),
        "mailjet".to_string(),
        "Ops".to_string(),
        SchedulerConfig::default(),
    );
    let (_, command) = advance(flow, ReportEvent::IncidentLoaded(Ok(None)));
    match command {
        ReportCommand::Reply { reply, .. } => {
            assert_eq!(reply.status, 404);
            assert_eq!(reply.body.message.as_deref(), Some("Incident not found"));
        }
        _ => panic!("expected a reply"),
    }
}

#[test]
fn sent_report_is_not_sent_again() {
    let flow = start(false);
    let (flow, command) = advance(flow, ReportEvent::PriorChecked(Ok(Some(completed_action())), 1000));
    assert!(matches!(flow, ReportFlow::Finished));
    match command {
        ReportCommand::Reply { failed_action, reply } => {
            assert!(failed_action.is_none());
            assert_eq!(reply.status, 409);
            assert_eq!(
                reply.body.message.as_deref(),
                Some("Abuse report was already sent for this incident at 2026-07-03T12:05:00Z. Use Send Again to override.")
            );
            let data = reply.body.data.unwrap();
            assert!(data.already_sent);
            assert_eq!(data.sent_at.as_deref(), Some("2026-07-03T12:05:00Z"));
            assert_eq!(data.provider, "mailjet");
        }
        _ => panic!("expected a conflict"),
    }
}

#[test]
fn forced_report_goes_through_and_marks_failures() {
    let flow = start(true);
    let (flow, command) = advance(flow, ReportEvent::PriorChecked(Ok(Some(completed_action())), 1234));
    match &command {
        ReportCommand::RecordAction { action_id, incident_id } => {
            assert_eq!(action_id, "action-report-abuse-203.0.113.10-1234");
            assert_eq!(incident_id, "incident-203.0.113.10");
        }
        _ => panic!("expected the action to be recorded"),
    }
    let (flow, command) = advance(flow, ReportEvent::ActionRecorded(Ok(())));
    assert!(matches!(command, ReportCommand::LookupWhois(ref ip) if ip == "203.0.113.10"));
    let (_, command) = advance(flow, ReportEvent::WhoisLooked(Ok(whois(vec!["no-at-sign"]))));
    match command {
        ReportCommand::Reply { failed_action, reply } => {
            assert_eq!(failed_action.as_deref(), Some("action-report-abuse-203.0.113.10-1234"));
            assert_eq!(reply.status, 400);
            assert_eq!(reply.body.message.as_deref(), Some("No abuse-report recipient found in WHOIS/RDAP data"));
        }
        _ => panic!("expected a reply"),
    }
}

#[test]
fn report_runs_to_the_end() {
    let flow = start(false);
    let (flow, _) = advance(flow, ReportEvent::PriorChecked(Ok(None), 5));
    let (flow, _) = advance(flow, ReportEvent::ActionRecorded(Ok(())));
    let (flow, command) = advance(flow, ReportEvent::WhoisLooked(Ok(whois(vec![" Abuse@Example.NET "]))));
    match &command {
        ReportCommand::FetchEvidence(q) => {
            let text = q.to_json_text();
            assert!(text.contains("\"ClientHost.keyword\":\"203.0.113.10\""));
            assert!(text.contains("\"size\":10"));
        }
        _ => panic!("expected an evidence search"),
    }
    let hit = Hit {
        index: "filebeat-1".to_string(),
        id: "h1".to_string(),
        source: parse(r#"{"StartLocal":"2026-07-03T11:59:00Z","ClientHost":"203.0.113.10","DownstreamStatus":401,"RequestMethod":"GET","RequestHost":"example.com","RequestPath":"/.env?x=1","RequestUserAgent":"scanner"}"#),
        highlight: None,
    };
    let (flow, command) = advance(flow, ReportEvent::EvidenceFetched(Ok(vec![hit])));
    match &command {
        ReportCommand::Send(report) => {
            assert_eq!(report.recipients, vec!["abuse@example.net".to_string()]);
            assert!(report.text_body.contains("path=/.env"));
        }
        _ => panic!("expected a send"),
    }
    let (flow, command) = advance(
        flow,
        ReportEvent::Delivered(Ok(EmailSendResult {
            provider: "mailjet".to_string(),
            recipients: vec!["abuse@example.net".to_string()],
            sandbox_mode: true,
            provider_response: JsonValue::Null,
        })),
    );
    assert!(matches!(command, ReportCommand::ConfirmSent { ref action_id, .. } if action_id == "action-report-abuse-203.0.113.10-5"));
    let (_, command) = advance(flow, ReportEvent::SentAtLoaded(Some("2026-07-03T12:10:00Z".to_string())));
    match command {
        ReportCommand::Reply { failed_action, reply } => {
            assert!(failed_action.is_none());
            assert_eq!(reply.status, 200);
            assert!(reply.body.success);
            assert_eq!(
                reply.body.message.as_deref(),
                Some("Mailjet accepted abuse report in sandbox mode; no email was delivered.")
            );
            let data = reply.body.data.unwrap();
            assert_eq!(data.evidence_count, 1);
            assert_eq!(data.sent_at.as_deref(), Some("2026-07-03T12:10:00Z"));
        }
        _ => panic!("expected a reply"),
    }
}

#[test]
fn delivery_failure_marks_the_action() {
    let flow = start(false);
    let (flow, _) = advance(flow, ReportEvent::PriorChecked(Ok(None), 5));
    let (flow, _) = advance(flow, ReportEvent::ActionRecorded(Ok(())));
    let (flow, _) = advance(flow, ReportEvent::WhoisLooked(Ok(whois(vec!["abuse@example.net"]))));
    let (flow, _) = advance(flow, ReportEvent::EvidenceFetched(Err("timeout".to_string())));
    let (_, command) = advance(
        flow,
        ReportEvent::Delivered(Err(EmailError::MissingCredentials("Mailjet".to_string()))),
    );
    match command {
        ReportCommand::Reply { failed_action, reply } => {
            assert!(failed_action.is_some());
            assert_eq!(reply.status, 503);
            assert_eq!(reply.body.message.as_deref(), Some("Mailjet credentials are not configured"));
        }
        _ => panic!("expected a reply"),
    }
}

#[test]
fn evidence_fields_and_lookup() {
    assert_eq!(source_lookup_field("ClientHost.keyword"), "ClientHost");
    assert_eq!(source_lookup_field("StartLocal"), "StartLocal");
    let fields = evidence_source_fields(&SchedulerConfig::default());
    assert_eq!(
        fields,
        vec![
            "ClientHost", "DownstreamStatus", "OriginStatus", "RequestAddr", "RequestHost", "RequestMethod",
            "RequestPath", "RequestUserAgent", "RouterName", "ServiceName", "StartLocal", "UserAgent"
        ]
    );
    let source = parse(r#"{"a":{"b":{"c":7}},"flag":true,"x":{"y":1}}"#);
    assert_eq!(dotted_value(&source, "a.b.c").and_then(json_value_to_string), Some("7".to_string()));
    assert!(dotted_value(&source, "a.z").is_none());
    assert_eq!(source_string(&source, "flag"), Some("true".to_string()));
    assert_eq!(source_string(&source, "x"), None);
}

#[test]
fn evidence_window_and_range() {
    let details = parse(r#"{"window_minutes":30,"last_seen":"2026-07-03T12:00:00Z"}"#);
    assert_eq!(evidence_window(Some(&details), 60), 30);
    assert_eq!(evidence_window(Some(&parse(r#"{"window_minutes":0}"#)), 60), 60);
    assert_eq!(evidence_window(None, 45), 45);
    let (gte, lte) = evidence_time_range(&incident(), Some(&details), 30);
    assert_eq!(gte, "2026-07-03T11:29:00+00:00");
    assert_eq!(lte.as_deref(), Some("2026-07-03T12:01:00+00:00"));
    let mut bad = incident();
    bad.detected_at = "yesterday".to_string();
    assert_eq!(evidence_time_range(&bad, None, 0), ("now-1m".to_string(), None));
}

#[test]
fn evidence_query_text() {
    let q = abuse_evidence_query(&SchedulerConfig::default(), &incident(), None);
    assert_eq!(
        q.to_json_text(),
        r#"{"_source":["ClientHost","DownstreamStatus","OriginStatus","RequestAddr","RequestHost","RequestMethod","RequestPath","RequestUserAgent","RouterName","ServiceName","StartLocal","UserAgent"],"query":{"bool":{"minimum_should_match":1,"must":[{"term":{"ClientHost.keyword":"203.0.113.10"}},{"range":{"StartLocal":{"gte":"2026-07-03T10:59:00+00:00","lte":"2026-07-03T12:01:00+00:00"}}}],"should":[{"term":{"DownstreamStatus":401}},{"term":{"DownstreamStatus":403}}]}},"size":10,"sort":[{"StartLocal":{"order":"desc"}}]}"#
    );
}

#[test]
fn hit_becomes_event() {
    let hit = Hit {
        index: "idx".to_string(),
        id: "1".to_string(),
        source: parse(r#"{"StartLocal":"t","ClientHost":"1.2.3.4","UserAgent":"  curl \n 8 "}"#),
        highlight: None,
    };
    let e = log_evidence_event_from_hit(&hit, &SchedulerConfig::default());
    assert_eq!(e.timestamp, "t");
    assert_eq!(e.source_ip, "1.2.3.4");
    assert_eq!(e.status, "unknown");
    assert_eq!(e.path, "unknown");
    assert_eq!(e.user_agent.as_deref(), Some("curl 8"));
    assert_eq!(e.index, "idx");
}
