use devops_agent::db::queries::IncidentDb;
use devops_agent::json::{JsonNumber, JsonValue};
use devops_agent::web::api::{
    abuse_report_recipients, build_abuse_report_email, build_recommendation, compact_log_value,
    compact_multiline_value, csv_escape, html_escape, ip_from_cidr, markdown_escape, render_block_list_csv,
    render_block_list_markdown, render_block_list_xlsx, block_list_workbook, check_allowlist_ip, AllowlistIpResponse, ApiResponse,
    AiInspectionReportContext, BlockListEntry, BlockListExportFormat, LogEvidenceEvent,
};
use devops_agent::whois::{AbuseContact, WhoisInfo};
use devops_agent::k8s::blocker::IpFamily;

fn to_json(v: &serde_json::Value) -> JsonValue {
    match v {
        serde_json::Value::Null => JsonValue::Null,
        serde_json::Value::Bool(b) => JsonValue::Bool(*b),
        serde_json::Value::Number(n) => {
            if let Some(u) = n.as_u64() {
                JsonValue::Number(JsonNumber::PosInt(u))
            } else if let Some(i) = n.as_i64() {
                JsonValue::Number(JsonNumber::NegInt(i))
            } else {
                JsonValue::Number(JsonNumber::Float(n.to_string()))
            }
        }
        serde_json::Value::String(s) => JsonValue::String(s.clone()),
        serde_json::Value::Array(a) => JsonValue::Array(a.iter().map(to_json).collect()),
        serde_json::Value::Object(m) => JsonValue::Object(m.iter().map(|(k, v)| (k.clone(), to_json(v))).collect()),
    }
}

fn sample_block_entry() -> BlockListEntry {
    BlockListEntry {
        ip: "203.0.113.10".to_string(),
        cidr: "203.0.113.10/32".to_string(),
        source: "cluster".to_string(),
        cluster_blocked: Some(true),
        block_applied: true,
        incident_id: Some("incident-203.0.113.10".to_string()),
        incident_status: Some("approved".to_string()),
        failure_count: Some(42),
        detected_at: Some("2026-07-03T12:00:00Z".to_string()),
        block_action_status: Some("completed".to_string()),
        report_sent_at: Some("2026-07-03T12:05:00Z".to_string()),
        evidence_summary: "hosts: example.com (40); paths: /admin|login (2), /env (1)".to_string(),
    }
}

fn sample_incident(details: &str) -> IncidentDb {
    IncidentDb {
        id: "incident-203.0.113.10".to_string(),
        source_ip: "203.0.113.10".to_string(),
        detected_at: "2026-07-03T12:00:00Z".to_string(),
        status: "detected".to_string(),
        failure_count: 42,
        details: Some(details.to_string()),
        created_at: "2026-07-03T12:00:00Z".to_string(),
        updated_at: "2026-07-03T12:00:00Z".to_string(),
    }
}

#[test]
fn renders_block_list_csv_with_escaping() {
    let csv = render_block_list_csv(&[sample_block_entry()]);

    assert!(csv.starts_with("ip,cidr,source,cluster_blocked"));
    assert!(csv.contains("203.0.113.10,203.0.113.10/32,cluster,true,true"));
    assert!(csv.contains("\"hosts: example.com (40); paths: /admin|login (2), /env (1)\""));
}

#[test]
fn renders_block_list_markdown_with_pipe_escaping() {
    let markdown = render_block_list_markdown(&[sample_block_entry()], "2026-07-03T12:10:00+00:00");

    assert!(markdown.contains("# DevOps Agent Block List"));
    assert!(markdown.contains("/admin\\|login"));
}

#[test]
fn abuse_report_email_includes_ai_inspection_and_raw_logs() {
    let details_text = r#"{"window_minutes": 60, "status_breakdown": [["401", 42]], "methods": [["GET", 42]], "target_hosts": [["example.com", 42]], "top_paths": [["/.env", 12]]}"#;
    let incident = sample_incident(details_text);
    let details = to_json(&serde_json::from_str(details_text).unwrap());
    let whois = WhoisInfo {
        ip: "203.0.113.10".to_string(),
        registry_url: Some("https://rdap.example/ip/203.0.113.10".to_string()),
        network_name: Some("Example Net".to_string()),
        handle: None,
        country: Some("US".to_string()),
        start_address: Some("203.0.113.0".to_string()),
        end_address: Some("203.0.113.255".to_string()),
        organization: Some("Example Org".to_string()),
        abuse_contacts: Vec::new(),
    };
    let logs = vec![LogEvidenceEvent {
        timestamp: "2026-07-03T11:59:00Z".to_string(),
        source_ip: "203.0.113.10".to_string(),
        status: "401".to_string(),
        method: "GET".to_string(),
        host: "example.com".to_string(),
        path: "/.env".to_string(),
        user_agent: Some("scanner".to_string()),
        index: "filebeat-2026.07.03".to_string(),
    }];
    let ai_inspection = AiInspectionReportContext {
        analysis: "Assessment: credential probing.\nRecommended Action: block and report.".to_string(),
        evidence_count: Some(1),
        done: Some(true),
    };

    let email = build_abuse_report_email(
        &incident,
        Some(&details),
        &whois,
        vec!["abuse@example.net".to_string()],
        "DevOps Agent Abuse Reports",
        &logs,
        Some(&ai_inspection),
    );

    assert!(email.text_body.contains("AI inspection:"));
    assert!(email.text_body.contains("credential probing"));
    assert!(email.text_body.contains("Raw log sample:"));
    assert!(email.text_body.contains("path=/.env"));
    assert!(email.html_body.contains("<h3>AI inspection</h3>"));
    assert!(email.html_body.contains("credential probing"));
    assert!(email.html_body.contains("<h3>Raw log sample</h3>"));
    assert!(email.text_body.contains("Address range: 203.0.113.0 - 203.0.113.255\n"));
    assert!(email.text_body.contains("Status breakdown:\n- 401: 42\n"));
    assert_eq!(email.subject, "Abuse report: suspicious traffic from 203.0.113.10 toward monitored services");
    assert_eq!(email.custom_id.as_deref(), Some("incident-203.0.113.10"));
}

#[test]
fn escapes() {
    assert_eq!(csv_escape("plain"), "plain");
    assert_eq!(csv_escape("a,\"b\""), "\"a,\"\"b\"\"\"");
    assert_eq!(markdown_escape("a|b\\c\nd\re"), "a\\|b\\\\c<br>de");
    assert_eq!(html_escape("<a href='x'>&\"</a>"), "&lt;a href=&#39;x&#39;&gt;&amp;&quot;&lt;/a&gt;");
}

#[test]
fn export_formats() {
    assert_eq!(BlockListExportFormat::parse(" Markdown "), Some(BlockListExportFormat::Markdown));
    assert_eq!(BlockListExportFormat::parse("MD"), Some(BlockListExportFormat::Markdown));
    assert_eq!(BlockListExportFormat::parse("xlsx").map(|f| f.extension()), Some("xlsx"));
    assert_eq!(BlockListExportFormat::parse("pdf"), None);
    assert_eq!(BlockListExportFormat::Csv.content_type(), "text/csv; charset=utf-8");
}

#[test]
fn cidr_addresses() {
    assert_eq!(ip_from_cidr("10.0.0.1/32"), "10.0.0.1");
    assert_eq!(ip_from_cidr("2001:db8::1/128"), "2001:db8::1");
    assert_eq!(ip_from_cidr("10.0.0.0/8"), "10.0.0.0/8");
}

#[test]
fn compacting_values() {
    assert_eq!(compact_log_value("  a \t b\r\nc  ", 10), "a b c");
    assert_eq!(compact_log_value("abcdef", 3), "abc...");
    assert_eq!(compact_multiline_value("a  \r\n\tb\n", 100), "a\n\n b");
    assert_eq!(compact_multiline_value("abcdef", 4), "abcd...");
}

#[test]
fn recommendations() {
    let probing = to_json(&serde_json::from_str(r#"{"top_paths": [["/.ENV", 3], ["/x", 1]]}"#).unwrap());
    let r = build_recommendation(&sample_incident("{}"), Some(&probing));
    assert_eq!(r.action_type, "block");
    assert!(r.recommendation.contains("probing sensitive paths (/.ENV, /x)"));
    let mut many = sample_incident("{}");
    many.failure_count = 150;
    let r = build_recommendation(&many, None);
    assert_eq!(r.action_type, "block");
    assert_eq!(
        r.recommendation,
        "203.0.113.10 generated 150 authentication failures — high-volume brute force. Recommend blocking the IP."
    );
    let r = build_recommendation(&sample_incident("{}"), None);
    assert_eq!(r.action_type, "review");
}

#[test]
fn report_recipients_are_normalised_and_distinct() {
    let mut whois = WhoisInfo {
        ip: "1.2.3.4".to_string(),
        registry_url: None,
        network_name: None,
        handle: None,
        country: None,
        start_address: None,
        end_address: None,
        organization: None,
        abuse_contacts: vec![],
    };
    whois.abuse_contacts.push(AbuseContact {
        name: None,
        role: None,
        emails: vec![" Abuse@Example.net ".to_string(), "nope".to_string()],
    });
    whois.abuse_contacts.push(AbuseContact { name: None, role: None, emails: vec!["abuse@example.net".to_string(), "b@c.d".to_string()] });
    assert_eq!(abuse_report_recipients(&whois), vec!["abuse@example.net".to_string(), "b@c.d".to_string()]);
}

#[test]
fn renders_block_list_xlsx_workbook() {
    let bytes = render_block_list_xlsx(&[sample_block_entry()]).unwrap();

    assert!(bytes.starts_with(b"PK"));
    assert!(bytes.len() > 1024);
}

#[test]
fn block_list_workbook_has_one_named_sheet() {
    let mut book = block_list_workbook(&[sample_block_entry(), sample_block_entry()]).unwrap();
    let sheets = book.worksheets();
    assert_eq!(sheets.len(), 1);
    assert_eq!(sheets[0].name(), "Block list");
}

#[test]
fn block_list_workbook_refuses_an_oversized_cell() {
    let mut entry = sample_block_entry();
    entry.ip = "y".repeat(32768);
    assert!(block_list_workbook(&[entry]).is_err());
}

#[test]
fn xlsx_refuses_an_oversized_cell() {
    let mut entry = sample_block_entry();
    entry.evidence_summary = "x".repeat(40000);
    assert!(render_block_list_xlsx(&[entry]).is_err());
}

#[test]
fn allowlist_response_copies_the_record() {
    let record = devops_agent::db::queries::AllowlistIp {
        id: 7,
        ip: "198.51.100.4".to_string(),
        description: Some("office".to_string()),
        created_at: "2026-01-01T00:00:00Z".to_string(),
        updated_at: "2026-01-02T00:00:00Z".to_string(),
    };
    let r: AllowlistIpResponse = record.into();
    assert_eq!(r.id, 7);
    assert_eq!(r.ip, "198.51.100.4");
    assert_eq!(r.description.as_deref(), Some("office"));
    assert_eq!(r.updated_at, "2026-01-02T00:00:00Z");
    let wrapped = ApiResponse::new(r);
    assert!(wrapped.success);
    assert!(wrapped.message.is_none());
}

#[test]
fn allowlist_ip_checks() {
    assert_eq!(check_allowlist_ip("", None), Err("IP address is required".to_string()));
    assert_eq!(check_allowlist_ip("not-an-ip", None), Err("Invalid IP address format".to_string()));
    assert_eq!(check_allowlist_ip("10.0.0.1", Some(IpFamily::V4)), Ok(()));
}
