//! Sending an abuse report for an incident, as a state machine: each step
//! takes what the last command brought back and says what to do next. The
//! caller performs the commands (database, registry, search and email) and
//! answers with the matching event.
use vstd::prelude::*;
use crate::config::models::SchedulerConfig;
use crate::db::queries::{ActionDb, IncidentDb};
use crate::elasticsearch::queries::{Hit, texts};
use crate::email::{AbuseReportEmail, EmailError, EmailSendResult, email_error_status, email_error_text};
use crate::json::{Json, JsonValue};
use crate::text::{decimal_int, i64_text, own, push_str};
use crate::web::api::{contact_emails, recipient_list, AiInspectionReportContext, ApiResponse, LogEvidenceEvent,
    abuse_report_recipients, build_abuse_report_email, email_provider_label, opt_chars, report_html_body,
    report_sender, report_text_body};
use crate::web::evidence::{MAX_DELTA_MINUTES, abuse_evidence_query, evidence_end, evidence_fields,
    evidence_query_json, evidence_range, hit_event, log_evidence_event_from_hit, window_of_details, evidence_window};
use crate::k8s::blocker::strictly_sorted;
use crate::whois::WhoisInfo;

verus! {

/// What the operator asked for: `force` sends again over an earlier report.
#[derive(Debug, Clone)]
pub struct SendAbuseReportRequest {
    pub force: bool,
    pub ai_inspection: Option<AiInspectionReportContext>,
}

/// The outcome of a report request.
#[derive(Debug)]
pub struct AbuseReportResponse {
    pub incident_id: String,
    pub source_ip: String,
    pub provider: String,
    pub recipients: Vec<String>,
    pub sandbox_mode: bool,
    pub already_sent: bool,
    pub sent_at: Option<String>,
    pub evidence_count: usize,
    pub provider_response: JsonValue,
}

/// The HTTP status and body the console answers with.
#[derive(Debug)]
pub struct ReportReply {
    pub status: u16,
    pub body: ApiResponse<AbuseReportResponse>,
}

/// The fixed inputs of one report: the request, the configured provider and
/// sender, and the search settings.
#[derive(Debug)]
pub struct ReportJob {
    pub request: SendAbuseReportRequest,
    pub provider: String,
    pub sender_name: String,
    pub scheduler: SchedulerConfig,
}

/// Where a report stands.
#[derive(Debug)]
pub enum ReportFlow {
    LoadingIncident { job: ReportJob },
    CheckingPrior { job: ReportJob, incident: IncidentDb, details: Option<JsonValue> },
    Recording { job: ReportJob, incident: IncidentDb, details: Option<JsonValue>, action_id: String },
    LookingUp { job: ReportJob, incident: IncidentDb, details: Option<JsonValue>, action_id: String },
    Gathering {
        job: ReportJob,
        incident: IncidentDb,
        details: Option<JsonValue>,
        action_id: String,
        whois: WhoisInfo,
    },
    Sending { incident: IncidentDb, action_id: String, evidence_count: usize },
    Confirming { incident: IncidentDb, evidence_count: usize, result: EmailSendResult },
    Finished,
}

/// What a command brought back.
#[derive(Debug)]
pub enum ReportEvent {
    /// The incident and its details parsed as JSON, or none with that id.
    IncidentLoaded(Result<Option<(IncidentDb, Option<JsonValue>)>, String>),
    /// The latest completed report of the incident, and the time in
    /// milliseconds.
    PriorChecked(Result<Option<ActionDb>, String>, i64),
    ActionRecorded(Result<(), String>),
    WhoisLooked(Result<WhoisInfo, String>),
    EvidenceFetched(Result<Vec<Hit>, String>),
    Delivered(Result<EmailSendResult, EmailError>),
    /// When the completed report was recorded.
    SentAtLoaded(Option<String>),
}

/// What to do next.
#[derive(Debug)]
pub enum ReportCommand {
    LoadIncident(String),
    /// Find the latest completed report of the incident.
    CheckPriorReport(String),
    RecordAction { action_id: String, incident_id: String },
    LookupWhois(String),
    /// Run the search in the evidence index.
    FetchEvidence(JsonValue),
    Send(AbuseReportEmail),
    /// Mark the action completed, then read when the completed report was
    /// recorded.
    ConfirmSent { action_id: String, incident_id: String },
    /// Mark the named action failed, if any, then answer.
    Reply { failed_action: Option<String>, reply: ReportReply },
}

/// The event that answers the command a flow waits on.
pub open spec fn accepts(f: ReportFlow, e: ReportEvent) -> bool {
    match f {
        ReportFlow::LoadingIncident { .. } => e is IncidentLoaded,
        ReportFlow::CheckingPrior { .. } => e is PriorChecked,
        ReportFlow::Recording { .. } => e is ActionRecorded,
        ReportFlow::LookingUp { .. } => e is WhoisLooked,
        ReportFlow::Gathering { .. } => e is EvidenceFetched,
        ReportFlow::Sending { .. } => e is Delivered,
        ReportFlow::Confirming { .. } => e is SentAtLoaded,
        ReportFlow::Finished => false,
    }
}

/// `c` answers `status` with the failure `msg`, after marking `failed`.
pub open spec fn is_error_reply(c: ReportCommand, failed: Option<Seq<char>>, status: u16, msg: Seq<char>) -> bool {
    &&& c matches ReportCommand::Reply { failed_action, reply }
    &&& opt_chars(c->failed_action) == failed
    &&& c->reply.status == status
    &&& !c->reply.body.success
    &&& c->reply.body.data is None
    &&& c->reply.body.message matches Some(m) && m@ == msg
}

/// The status an email error is answered with.
pub open spec fn email_status(e: EmailError) -> u16 {
    match e {
        EmailError::MissingCredentials(_) => 503u16,
        EmailError::InvalidSender(_) | EmailError::NoRecipients | EmailError::UnsupportedProvider(_) => 400u16,
        _ => 502u16,
    }
}

/// The recipients the registry data yields.
pub open spec fn whois_recipients(w: WhoisInfo) -> Seq<Seq<char>> {
    let all = contact_emails(w.abuse_contacts@, w.abuse_contacts@.len() as int);
    recipient_list(all, all.len() as int)
}

/// `r` is the abuse report of `incident` to the registry's recipients with
/// the given raw log sample.
pub open spec fn report_of(
    r: AbuseReportEmail,
    incident: IncidentDb,
    details: Option<Json>,
    whois: WhoisInfo,
    sender: Seq<char>,
    logs: Seq<LogEvidenceEvent>,
    ai: Option<AiInspectionReportContext>,
) -> bool {
    &&& texts(r.recipients@) == whois_recipients(whois)
    &&& r.subject@ == "Abuse report: suspicious traffic from "@ + incident.source_ip@ + " toward monitored services"@
    &&& r.text_body@ == report_text_body(report_sender(sender), incident, details, whois, logs, ai)
    &&& r.html_body@ == report_html_body(report_sender(sender), incident, details, whois, logs, ai)
    &&& r.custom_id matches Some(c) && c@ == incident.id@
}

/// The view of optional details.
pub open spec fn details_view(d: Option<JsonValue>) -> Option<Json> {
    match d {
        Some(v) => Some(v@),
        None => None,
    }
}

/// The evidence window fits chrono's minute range.
pub open spec fn window_fits(details: Option<JsonValue>, cfg: SchedulerConfig) -> bool {
    window_of_details(details_view(details), cfg.lookback_minutes) < MAX_DELTA_MINUTES
}

/// `q` is the evidence search of the incident.
pub open spec fn is_evidence_query(q: Json, cfg: SchedulerConfig, incident: IncidentDb, details: Option<JsonValue>) -> bool {
    exists|f: Seq<Seq<char>>|
        #![auto]
        strictly_sorted(f) && (forall|x: Seq<char>| f.contains(x) <==> evidence_fields(cfg).contains(x)) && q
            == evidence_query_json(
            cfg,
            incident.source_ip@,
            evidence_range(
                evidence_end(incident, details_view(details)),
                window_of_details(details_view(details), cfg.lookback_minutes),
            ),
            f,
        )
}

fn error_reply(failed_action: Option<String>, status: u16, message: String) -> (c: ReportCommand)
    ensures
        is_error_reply(c, opt_chars(failed_action), status, message@),
{
    ReportCommand::Reply {
        failed_action,
        reply: ReportReply { status, body: ApiResponse { success: false, data: None, message: Some(message) } },
    }
}

fn prefixed(prefix: &str, text: &str) -> (r: String)
    ensures
        r@ == prefix@ + text@,
{
    let mut r = own(prefix);
    push_str(&mut r, text);
    r
}

/// Starts a report for incident `incident_id`; a request body that did not
/// parse (`Err` with the parser's message) is answered 400.
pub fn begin_abuse_report(
    incident_id: &str,
    request: Result<SendAbuseReportRequest, String>,
    provider: String,
    sender_name: String,
    scheduler: SchedulerConfig,
) -> (r: (ReportFlow, ReportCommand))
    ensures
        match request {
            Err(m) => r.0 is Finished && is_error_reply(
                r.1,
                None,
                400,
                "Invalid abuse-report request body: "@ + m@,
            ),
            Ok(req) => {
                &&& r.1 matches ReportCommand::LoadIncident(id) && id@ == incident_id@
                &&& r.0 matches ReportFlow::LoadingIncident { job } && job.request == req && job.provider == provider
                    && job.sender_name == sender_name && job.scheduler == scheduler
            },
        },
{
    match request {
        Err(m) => (ReportFlow::Finished, error_reply(None, 400, prefixed("Invalid abuse-report request body: ", m.as_str()))),
        Ok(req) => (
            ReportFlow::LoadingIncident { job: ReportJob { request: req, provider, sender_name, scheduler } },
            ReportCommand::LoadIncident(own(incident_id)),
        ),
    }
}

fn events_from_hits(hits: &Vec<Hit>, cfg: &SchedulerConfig) -> (r: Vec<LogEvidenceEvent>)
    ensures
        r@.len() == hits@.len(),
        forall|i: int| 0 <= i < hits@.len() ==> hit_event(hits@[i], *cfg, #[trigger] r@[i]),
{
    let mut r: Vec<LogEvidenceEvent> = Vec::new();
    let mut i: usize = 0;
    while i < hits.len()
        invariant
            i <= hits@.len(),
            r@.len() == i,
            forall|k: int| 0 <= k < i ==> hit_event(hits@[k], *cfg, #[trigger] r@[k]),
        decreases hits@.len() - i,
    {
        r.push(log_evidence_event_from_hit(&hits[i], cfg));
        i = i + 1;
    }
    r
}

fn compose_report(
    job: &ReportJob,
    incident: &IncidentDb,
    details: &Option<JsonValue>,
    whois: &WhoisInfo,
    logs: &Vec<LogEvidenceEvent>,
) -> (r: AbuseReportEmail)
    ensures
        report_of(r, *incident, details_view(*details), *whois, job.sender_name@, logs@, job.request.ai_inspection),
{
    let recipients = abuse_report_recipients(whois);
    let d = match details {
        Some(v) => Some(v),
        None => None,
    };
    let ai = match &job.request.ai_inspection {
        Some(c) => Some(c),
        None => None,
    };
    build_abuse_report_email(incident, d, whois, recipients, job.sender_name.as_str(), logs.as_slice(), ai)
}


/// The sandbox or delivery message of a sent report.
pub open spec fn sent_message(provider: Seq<char>, sandbox: bool) -> Seq<char> {
    let label = if provider == "mailjet"@ {
        "Mailjet"@
    } else if provider == "postmark"@ {
        "Postmark"@
    } else {
        "email provider"@
    };
    if sandbox {
        label + " accepted abuse report in sandbox mode; no email was delivered."@
    } else {
        "Abuse report sent via "@ + label
    }
}

/// The id of the report action recorded for `ip` at `now` milliseconds.
pub open spec fn report_action_id(ip: Seq<char>, now: i64) -> Seq<char> {
    "action-report-abuse-"@ + ip + "-"@ + decimal_int(now as int)
}

/// Takes one step: from where the report stands and what the last command
/// brought back, the next stand and command. A report completed before is
/// not sent again unless the request forces it; once the report action is
/// recorded, every failure marks it failed.
pub fn advance(flow: ReportFlow, event: ReportEvent) -> (r: (ReportFlow, ReportCommand))
    requires
        accepts(flow, event),
    ensures
        match flow {
            ReportFlow::LoadingIncident { job } => match event {
                ReportEvent::IncidentLoaded(Err(e)) => r.0 is Finished && is_error_reply(
                    r.1,
                    None,
                    500,
                    "Failed to get incident: "@ + e@,
                ),
                ReportEvent::IncidentLoaded(Ok(None)) => r.0 is Finished && is_error_reply(
                    r.1,
                    None,
                    404,
                    "Incident not found"@,
                ),
                ReportEvent::IncidentLoaded(Ok(Some((inc, d)))) => {
                    &&& r.1 matches ReportCommand::CheckPriorReport(id) && id@ == inc.id@
                    &&& r.0 == ReportFlow::CheckingPrior { job, incident: inc, details: d }
                },
                _ => false,
            },
            ReportFlow::CheckingPrior { job, incident, details } => match event {
                ReportEvent::PriorChecked(Err(e), _) => r.0 is Finished && is_error_reply(
                    r.1,
                    None,
                    500,
                    "Failed to check prior abuse report: "@ + e@,
                ),
                ReportEvent::PriorChecked(Ok(prior), now) => if prior is Some && !job.request.force {
                    let a = prior->0;
                    &&& r.0 is Finished
                    &&& r.1 matches ReportCommand::Reply { failed_action, reply }
                    &&& r.1->failed_action is None
                    &&& r.1->reply.status == 409
                    &&& !r.1->reply.body.success
                    &&& r.1->reply.body.message matches Some(m) && m@ == "Abuse report was already sent for this incident at "@
                        + a.updated_at@ + ". Use Send Again to override."@
                    &&& r.1->reply.body.data is Some
                    &&& ({
                        let d = r.1->reply.body.data->0;
                        &&& d.incident_id == incident.id
                        &&& d.source_ip == incident.source_ip
                        &&& d.provider == job.provider
                        &&& d.recipients@.len() == 0
                        &&& !d.sandbox_mode
                        &&& d.already_sent
                        &&& d.sent_at is Some
                        &&& d.sent_at->0@ == a.updated_at@
                        &&& d.evidence_count == 0
                        &&& d.provider_response@ == Json::Obj(seq![])
                    })
                } else {
                    &&& r.1 matches ReportCommand::RecordAction { action_id, incident_id } && action_id@
                        == report_action_id(incident.source_ip@, now) && incident_id@ == incident.id@
                    &&& r.0 matches ReportFlow::Recording { job: j, incident: i, details: d, action_id } && j == job
                        && i == incident && d == details && action_id@ == report_action_id(incident.source_ip@, now)
                },
                _ => false,
            },
            ReportFlow::Recording { job, incident, details, action_id } => match event {
                ReportEvent::ActionRecorded(Err(e)) => r.0 is Finished && is_error_reply(
                    r.1,
                    None,
                    500,
                    "Failed to record abuse-report action: "@ + e@,
                ),
                ReportEvent::ActionRecorded(Ok(())) => {
                    &&& r.1 matches ReportCommand::LookupWhois(ip) && ip@ == incident.source_ip@
                    &&& r.0 == ReportFlow::LookingUp { job, incident, details, action_id }
                },
                _ => false,
            },
            ReportFlow::LookingUp { job, incident, details, action_id } => match event {
                ReportEvent::WhoisLooked(Err(e)) => r.0 is Finished && is_error_reply(
                    r.1,
                    Some(action_id@),
                    502,
                    "WHOIS/RDAP lookup failed: "@ + e@,
                ),
                ReportEvent::WhoisLooked(Ok(w)) => if whois_recipients(w).len() == 0 {
                    r.0 is Finished && is_error_reply(
                        r.1,
                        Some(action_id@),
                        400,
                        "No abuse-report recipient found in WHOIS/RDAP data"@,
                    )
                } else if window_fits(details, job.scheduler) {
                    &&& r.1 matches ReportCommand::FetchEvidence(q) && is_evidence_query(
                        q@,
                        job.scheduler,
                        incident,
                        details,
                    )
                    &&& r.0 == ReportFlow::Gathering { job, incident, details, action_id, whois: w }
                } else {
                    &&& r.1 matches ReportCommand::Send(report) && report_of(
                        report,
                        incident,
                        details_view(details),
                        w,
                        job.sender_name@,
                        seq![],
                        job.request.ai_inspection,
                    )
                    &&& r.0 == ReportFlow::Sending { incident, action_id, evidence_count: 0 }
                },
                _ => false,
            },
            ReportFlow::Gathering { job, incident, details, action_id, whois } => match event {
                ReportEvent::EvidenceFetched(found) => {
                    let n: usize = match found {
                        Ok(hits) => hits@.len() as usize,
                        Err(_) => 0usize,
                    };
                    &&& r.1 matches ReportCommand::Send(report) && exists|logs: Seq<LogEvidenceEvent>|
                        #![auto]
                        logs.len() == n && (found matches Ok(hits) ==> forall|i: int|
                            0 <= i < hits@.len() ==> hit_event(hits@[i], job.scheduler, logs[i])) && report_of(
                            report,
                            incident,
                            details_view(details),
                            whois,
                            job.sender_name@,
                            logs,
                            job.request.ai_inspection,
                        )
                    &&& r.0 == ReportFlow::Sending { incident, action_id, evidence_count: n }
                },
                _ => false,
            },
            ReportFlow::Sending { incident, action_id, evidence_count } => match event {
                ReportEvent::Delivered(Err(e)) => r.0 is Finished && is_error_reply(
                    r.1,
                    Some(action_id@),
                    email_status(e),
                    email_error_text(e),
                ),
                ReportEvent::Delivered(Ok(res)) => {
                    &&& r.1 matches ReportCommand::ConfirmSent { action_id: a, incident_id } && a@ == action_id@
                        && incident_id@ == incident.id@
                    &&& r.0 == ReportFlow::Confirming { incident, evidence_count, result: res }
                },
                _ => false,
            },
            ReportFlow::Confirming { incident, evidence_count, result } => match event {
                ReportEvent::SentAtLoaded(sent_at) => {
                    &&& r.0 is Finished
                    &&& r.1 matches ReportCommand::Reply { failed_action, reply }
                    &&& r.1->failed_action is None
                    &&& r.1->reply.status == 200
                    &&& r.1->reply.body.success
                    &&& r.1->reply.body.message matches Some(m) && m@ == sent_message(
                        result.provider@,
                        result.sandbox_mode,
                    )
                    &&& r.1->reply.body.data is Some
                    &&& ({
                        let d = r.1->reply.body.data->0;
                        &&& d.incident_id == incident.id
                        &&& d.source_ip == incident.source_ip
                        &&& d.provider == result.provider
                        &&& d.recipients == result.recipients
                        &&& d.sandbox_mode == result.sandbox_mode
                        &&& !d.already_sent
                        &&& d.sent_at == sent_at
                        &&& d.evidence_count == evidence_count
                        &&& d.provider_response == result.provider_response
                    })
                },
                _ => false,
            },
            ReportFlow::Finished => false,
        },
{
    match flow {
        ReportFlow::LoadingIncident { job } => match event {
            ReportEvent::IncidentLoaded(Err(e)) => (
                ReportFlow::Finished,
                error_reply(None, 500, prefixed("Failed to get incident: ", e.as_str())),
            ),
            ReportEvent::IncidentLoaded(Ok(None)) => (
                ReportFlow::Finished,
                error_reply(None, 404, own("Incident not found")),
            ),
            ReportEvent::IncidentLoaded(Ok(Some((incident, details)))) => {
                let id = incident.id.clone();
                (ReportFlow::CheckingPrior { job, incident, details }, ReportCommand::CheckPriorReport(id))
            },
            _ => (ReportFlow::Finished, error_reply(None, 500, String::new())),
        },
        ReportFlow::CheckingPrior { job, incident, details } => match event {
            ReportEvent::PriorChecked(Err(e), _) => (
                ReportFlow::Finished,
                error_reply(None, 500, prefixed("Failed to check prior abuse report: ", e.as_str())),
            ),
            ReportEvent::PriorChecked(Ok(prior), now) => {
                match prior {
                    Some(a) => {
                        if !job.request.force {
                            let mut message = prefixed(
                                "Abuse report was already sent for this incident at ",
                                a.updated_at.as_str(),
                            );
                            push_str(&mut message, ". Use Send Again to override.");
                            let response = AbuseReportResponse {
                                incident_id: incident.id,
                                source_ip: incident.source_ip,
                                provider: job.provider,
                                recipients: Vec::new(),
                                sandbox_mode: false,
                                already_sent: true,
                                sent_at: Some(a.updated_at),
                                evidence_count: 0,
                                provider_response: JsonValue::Object(Vec::new()),
                            };
                            proof {
                                crate::json::lemma_entries_view(Seq::<(String, JsonValue)>::empty(), 0);
                            }
                            let reply = ReportReply {
                                status: 409,
                                body: ApiResponse { success: false, data: Some(response), message: Some(message) },
                            };
                            return (ReportFlow::Finished, ReportCommand::Reply { failed_action: None, reply });
                        }
                    },
                    None => {},
                }
                let mut action_id = prefixed("action-report-abuse-", incident.source_ip.as_str());
                push_str(&mut action_id, "-");
                push_str(&mut action_id, i64_text(now).as_str());
                let command = ReportCommand::RecordAction { action_id: action_id.clone(), incident_id: incident.id.clone() };
                (ReportFlow::Recording { job, incident, details, action_id }, command)
            },
            _ => (ReportFlow::Finished, error_reply(None, 500, String::new())),
        },
        ReportFlow::Recording { job, incident, details, action_id } => match event {
            ReportEvent::ActionRecorded(Err(e)) => (
                ReportFlow::Finished,
                error_reply(None, 500, prefixed("Failed to record abuse-report action: ", e.as_str())),
            ),
            ReportEvent::ActionRecorded(Ok(())) => {
                let ip = incident.source_ip.clone();
                (ReportFlow::LookingUp { job, incident, details, action_id }, ReportCommand::LookupWhois(ip))
            },
            _ => (ReportFlow::Finished, error_reply(None, 500, String::new())),
        },
        ReportFlow::LookingUp { job, incident, details, action_id } => match event {
            ReportEvent::WhoisLooked(Err(e)) => (
                ReportFlow::Finished,
                error_reply(Some(action_id), 502, prefixed("WHOIS/RDAP lookup failed: ", e.as_str())),
            ),
            ReportEvent::WhoisLooked(Ok(whois)) => {
                let recipients = abuse_report_recipients(&whois);
                if recipients.len() == 0 {
                    assert(texts(recipients@).len() == 0);
                    return (
                        ReportFlow::Finished,
                        error_reply(Some(action_id), 400, own("No abuse-report recipient found in WHOIS/RDAP data")),
                    );
                }
                let d = match &details {
                    Some(v) => Some(v),
                    None => None,
                };
                let window = evidence_window(d, job.scheduler.lookback_minutes);
                if window < MAX_DELTA_MINUTES {
                    let query = abuse_evidence_query(&job.scheduler, &incident, d);
                    (ReportFlow::Gathering { job, incident, details, action_id, whois }, ReportCommand::FetchEvidence(query))
                } else {
                    let logs: Vec<LogEvidenceEvent> = Vec::new();
                    let report = compose_report(&job, &incident, &details, &whois, &logs);
                    assert(logs@ =~= Seq::<LogEvidenceEvent>::empty());
                    (ReportFlow::Sending { incident, action_id, evidence_count: 0 }, ReportCommand::Send(report))
                }
            },
            _ => (ReportFlow::Finished, error_reply(None, 500, String::new())),
        },
        ReportFlow::Gathering { job, incident, details, action_id, whois } => match event {
            ReportEvent::EvidenceFetched(found) => {
                let logs = match &found {
                    Ok(hits) => events_from_hits(hits, &job.scheduler),
                    Err(_) => Vec::new(),
                };
                let report = compose_report(&job, &incident, &details, &whois, &logs);
                let n = logs.len();
                proof {
                    assert(logs@.len() == n);
                }
                (ReportFlow::Sending { incident, action_id, evidence_count: n }, ReportCommand::Send(report))
            },
            _ => (ReportFlow::Finished, error_reply(None, 500, String::new())),
        },
        ReportFlow::Sending { incident, action_id, evidence_count } => match event {
            ReportEvent::Delivered(Err(e)) => {
                let status = email_error_status(&e);
                (ReportFlow::Finished, error_reply(Some(action_id), status, e.to_string()))
            },
            ReportEvent::Delivered(Ok(result)) => {
                let command = ReportCommand::ConfirmSent { action_id, incident_id: incident.id.clone() };
                (ReportFlow::Confirming { incident, evidence_count, result }, command)
            },
            _ => (ReportFlow::Finished, error_reply(None, 500, String::new())),
        },
        ReportFlow::Confirming { incident, evidence_count, result } => match event {
            ReportEvent::SentAtLoaded(sent_at) => {
                let label = email_provider_label(result.provider.as_str());
                let message = if result.sandbox_mode {
                    let mut m = own(label);
                    push_str(&mut m, " accepted abuse report in sandbox mode; no email was delivered.");
                    m
                } else {
                    prefixed("Abuse report sent via ", label)
                };
                let response = AbuseReportResponse {
                    incident_id: incident.id,
                    source_ip: incident.source_ip,
                    provider: result.provider,
                    recipients: result.recipients,
                    sandbox_mode: result.sandbox_mode,
                    already_sent: false,
                    sent_at,
                    evidence_count,
                    provider_response: result.provider_response,
                };
                let reply = ReportReply {
                    status: 200,
                    body: ApiResponse { success: true, data: Some(response), message: Some(message) },
                };
                (ReportFlow::Finished, ReportCommand::Reply { failed_action: None, reply })
            },
            _ => (ReportFlow::Finished, error_reply(None, 500, String::new())),
        },
        ReportFlow::Finished => (ReportFlow::Finished, error_reply(None, 500, String::new())),
    }
}

} // verus!
