//! AI inspection of an incident: the prompt the agent is given and the
//! answer the console shows.
use vstd::prelude::*;
use crate::config::models::SchedulerConfig;
use crate::db::queries::IncidentDb;
use crate::json::JsonValue;
use crate::text::{decimal_int, i64_text, own, push_str, truncated, collapse_ws};
use crate::web::api::{LogEvidenceEvent, compact_log_value, raw_log_evidence_text, raw_log_text};

verus! {

/// What the console shows of an AI inspection.
#[derive(Debug)]
pub struct AiInspectResponse {
    pub incident_id: String,
    pub source_ip: String,
    pub analysis: String,
    pub evidence_count: usize,
    pub tool_calls: JsonValue,
    pub done: bool,
}

/// Why the agent cannot answer: no provider is configured, or it failed to
/// start with `error`. `feature` names what is unavailable.
pub open spec fn unavailable_text(feature: Seq<char>, error: Option<Seq<char>>) -> Seq<char> {
    match error {
        Some(e) => feature + " is unavailable: "@ + e,
        None => feature + " is unavailable because no LLM provider is configured"@,
    }
}

/// The message of an unavailable agent feature (`AI inspection`,
/// `Agent chat`).
pub fn unavailable_message(feature: &str, agent_error: Option<&str>) -> (r: String)
    ensures
        r@ == unavailable_text(feature@, match agent_error { Some(e) => Some(e@), None => None }),
{
    let mut m = own(feature);
    match agent_error {
        Some(e) => {
            push_str(&mut m, " is unavailable: ");
            push_str(&mut m, e);
        },
        None => push_str(&mut m, " is unavailable because no LLM provider is configured"),
    }
    m
}

/// The prompt for inspecting an incident: the task, the incident's facts,
/// the search fields, its details (pretty JSON cut to 5000 characters, or a
/// note that none were recorded), a warning when the evidence search
/// failed, and the raw log sample cut to 7000 characters.
pub open spec fn ai_prompt(
    incident: IncidentDb,
    index_pattern: Seq<char>,
    cfg: SchedulerConfig,
    logs: Seq<LogEvidenceEvent>,
    evidence_error: Option<Seq<char>>,
    details_pretty: Option<Seq<char>>,
) -> Seq<char> {
    let details = match details_pretty {
        Some(d) => truncated(collapse_ws(d), 5000),
        None => "No structured detection details were recorded."@,
    };
    let note = match evidence_error {
        Some(e) => "Evidence fetch warning: "@ + e + "\n"@,
        None => seq![],
    };
    "You are assisting a security operator reviewing a suspicious edge-traffic incident.\n"@
        + "Analyze the incident and available Elasticsearch log evidence. You may use the query_logs tool for read-only follow-up queries if the provided sample is not enough.\n"@
        + "Do not recommend irreversible actions without evidence. Keep the response concise and use these sections exactly: Assessment, Evidence, Recommended Action, Reporting Notes, Unknowns.\n\n"@
        + "Incident:\n- id: "@ + incident.id@ + "\n- source_ip: "@ + incident.source_ip@ + "\n- detected_at: "@
        + incident.detected_at@ + "\n- status: "@ + incident.status@ + "\n- failure_count: "@ + decimal_int(
        incident.failure_count as int,
    ) + "\n\nElasticsearch context:\n- index_pattern: "@ + index_pattern + "\n- time_field: "@ + cfg.time_field@
        + "\n- status_field: "@ + cfg.status_field@ + "\n- client_host_field: "@ + cfg.client_host_field@
        + "\n- request_method_field: "@ + cfg.request_method_field@ + "\n- request_host_field: "@
        + cfg.request_host_field@ + "\n- request_path_field: "@ + cfg.request_path_field@
        + "\n\nStructured detection details:\n"@ + details + "\n\n"@ + note + "Raw log sample:\n"@ + truncated(
        collapse_ws(raw_log_text(logs)),
        7000,
    )
}

/// The prompt for inspecting an incident whose details were written as
/// pretty JSON `details_pretty`.
pub fn build_ai_inspection_prompt(
    incident: &IncidentDb,
    index_pattern: &str,
    cfg: &SchedulerConfig,
    log_evidence: &[LogEvidenceEvent],
    evidence_error: Option<&str>,
    details_pretty: Option<&str>,
) -> (r: String)
    ensures
        r@ == ai_prompt(
            *incident,
            index_pattern@,
            *cfg,
            log_evidence@,
            match evidence_error { Some(e) => Some(e@), None => None },
            match details_pretty { Some(d) => Some(d@), None => None },
        ),
{
    let details = match details_pretty {
        Some(d) => compact_log_value(d, 5000),
        None => own("No structured detection details were recorded."),
    };
    let raw = raw_log_evidence_text(log_evidence);
    let evidence = compact_log_value(raw.as_str(), 7000);
    let mut p = own("You are assisting a security operator reviewing a suspicious edge-traffic incident.\n");
    push_str(&mut p, "Analyze the incident and available Elasticsearch log evidence. You may use the query_logs tool for read-only follow-up queries if the provided sample is not enough.\n");
    push_str(&mut p, "Do not recommend irreversible actions without evidence. Keep the response concise and use these sections exactly: Assessment, Evidence, Recommended Action, Reporting Notes, Unknowns.\n\n");
    push_str(&mut p, "Incident:\n- id: ");
    push_str(&mut p, incident.id.as_str());
    push_str(&mut p, "\n- source_ip: ");
    push_str(&mut p, incident.source_ip.as_str());
    push_str(&mut p, "\n- detected_at: ");
    push_str(&mut p, incident.detected_at.as_str());
    push_str(&mut p, "\n- status: ");
    push_str(&mut p, incident.status.as_str());
    push_str(&mut p, "\n- failure_count: ");
    push_str(&mut p, i64_text(incident.failure_count).as_str());
    push_str(&mut p, "\n\nElasticsearch context:\n- index_pattern: ");
    push_str(&mut p, index_pattern);
    push_str(&mut p, "\n- time_field: ");
    push_str(&mut p, cfg.time_field.as_str());
    push_str(&mut p, "\n- status_field: ");
    push_str(&mut p, cfg.status_field.as_str());
    push_str(&mut p, "\n- client_host_field: ");
    push_str(&mut p, cfg.client_host_field.as_str());
    push_str(&mut p, "\n- request_method_field: ");
    push_str(&mut p, cfg.request_method_field.as_str());
    push_str(&mut p, "\n- request_host_field: ");
    push_str(&mut p, cfg.request_host_field.as_str());
    push_str(&mut p, "\n- request_path_field: ");
    push_str(&mut p, cfg.request_path_field.as_str());
    push_str(&mut p, "\n\nStructured detection details:\n");
    push_str(&mut p, details.as_str());
    push_str(&mut p, "\n\n");
    match evidence_error {
        Some(e) => {
            push_str(&mut p, "Evidence fetch warning: ");
            push_str(&mut p, e);
            push_str(&mut p, "\n");
        },
        None => {},
    }
    push_str(&mut p, "Raw log sample:\n");
    push_str(&mut p, evidence.as_str());
    p
}

} // verus!
