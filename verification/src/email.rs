//! Abuse-report email: recipients, senders and the provider payloads.
use vstd::prelude::*;
use crate::config::models::EmailConfig;
use crate::elasticsearch::queries::{texts, lemma_texts_push};
use crate::json::{Json, JsonValue, entries_view, items_view, push_entry, push_item, str_value, lemma_items_view};
use crate::text::{decimal, u64_text, contains_char, string_of_range, trim, is_ws, occurrence_from, lemma_occurrence_from, lower_ascii_str, collapse_ws, contains,
    trim_str, to_ascii_lowercase, chars_of, find_after, is_whitespace, str_eq, own, push_str, push_char,
    collapse_whitespace, lower_ascii};

verus! {

/// An HTTP client, carried through unopened.
#[verifier::external_type_specification]
#[verifier::external_body]
pub struct ExHttpClient(reqwest::Client);

/// The abuse report to send.
#[derive(Debug, Clone, PartialEq, Eq)]
pub struct AbuseReportEmail {
    pub recipients: Vec<String>,
    pub subject: String,
    pub text_body: String,
    pub html_body: String,
    pub custom_id: Option<String>,
}

/// Email delivery errors; a failed request carries the client error's
/// message and a refused one its HTTP status code and body.
#[derive(Debug, Clone)]
pub enum EmailError {
    MissingCredentials(String),
    InvalidSender(String),
    NoRecipients,
    UnsupportedProvider(String),
    Request { provider: String, source: String },
    Http { provider: String, status: u16, body: String },
}

/// The HTTP status the console answers an email error with: 503 for
/// missing credentials, 400 for a bad sender, no recipients or an unknown
/// provider, 502 for a failed or refused provider call.
pub fn email_error_status(error: &EmailError) -> (r: u16)
    ensures
        r == (match error {
            EmailError::MissingCredentials(_) => 503u16,
            EmailError::InvalidSender(_) | EmailError::NoRecipients | EmailError::UnsupportedProvider(_) => 400u16,
            _ => 502u16,
        }),
{
    match error {
        EmailError::MissingCredentials(_) => 503,
        EmailError::InvalidSender(_) | EmailError::NoRecipients | EmailError::UnsupportedProvider(_) => 400,
        EmailError::Request { .. } | EmailError::Http { .. } => 502,
    }
}

/// The message an email error displays.
pub open spec fn email_error_text(e: EmailError) -> Seq<char> {
    match e {
        EmailError::MissingCredentials(p) => p@ + " credentials are not configured"@,
        EmailError::InvalidSender(m) => "Email sender is invalid: "@ + m@,
        EmailError::NoRecipients => "No valid abuse-report recipients were found"@,
        EmailError::UnsupportedProvider(p) => "Unsupported email provider: "@ + p@,
        EmailError::Request { provider, source } => provider@ + " request failed: "@ + source@,
        EmailError::Http { provider, status, body } => provider@ + " returned HTTP "@ + decimal(status as nat)
            + ": "@ + body@,
    }
}

impl EmailError {
    /// The error's message.
    pub fn to_string(&self) -> (r: String)
        ensures
            r@ == email_error_text(*self),
    {
        match self {
            EmailError::MissingCredentials(p) => {
                let mut r = p.clone();
                push_str(&mut r, " credentials are not configured");
                r
            },
            EmailError::InvalidSender(m) => {
                let mut r = own("Email sender is invalid: ");
                push_str(&mut r, m.as_str());
                r
            },
            EmailError::NoRecipients => own("No valid abuse-report recipients were found"),
            EmailError::UnsupportedProvider(p) => {
                let mut r = own("Unsupported email provider: ");
                push_str(&mut r, p.as_str());
                r
            },
            EmailError::Request { provider, source } => {
                let mut r = provider.clone();
                push_str(&mut r, " request failed: ");
                push_str(&mut r, source.as_str());
                r
            },
            EmailError::Http { provider, status, body } => {
                let mut r = provider.clone();
                push_str(&mut r, " returned HTTP ");
                let t = u64_text(*status as u64);
                push_str(&mut r, t.as_str());
                push_str(&mut r, ": ");
                push_str(&mut r, body.as_str());
                r
            },
        }
    }
}

/// What a provider answered to a delivered report.
#[derive(Debug)]
pub struct EmailSendResult {
    pub provider: String,
    pub recipients: Vec<String>,
    pub sandbox_mode: bool,
    pub provider_response: JsonValue,
}

/// An email address as this service accepts it: after trimming, a non-empty
/// part before the first `@`, a domain after it that contains a dot but
/// neither starts nor ends with one, and no whitespace anywhere.
pub open spec fn valid_email(e: Seq<char>) -> bool {
    let t = trim(e);
    match occurrence_from(t, "@"@, 0) {
        Some(i) => {
            let local = t.take(i);
            let domain = t.skip(i + 1);
            &&& local.len() > 0
            &&& domain.contains('.')
            &&& domain[0] != '.'
            &&& domain.last() != '.'
            &&& forall|j: int| 0 <= j < t.len() ==> !is_ws(#[trigger] t[j])
        },
        None => false,
    }
}

/// Whether `email` is an acceptable address.
pub fn is_valid_email(email: &str) -> (r: bool)
    ensures
        r == valid_email(email@),
{
    let t = trim_str(email);
    let v = chars_of(t.as_str());
    let at = chars_of("@");
    proof {
        reveal_strlit("@");
        lemma_occurrence_from(v@, at@, 0);
    }
    assert(at@.len() == 1);
    let i = match find_after(&v, &at, 0) {
        Some(i) => i,
        None => return false,
    };
    assert(i + 1 <= v.len());
    if i == 0 {
        return false;
    }
    let n = v.len();
    let d = string_of_range(&v, i + 1, n);
    let has_dot = contains_char(d.as_str(), '.');
    assert(d@ =~= v@.skip(i + 1));
    if !has_dot {
        return false;
    }
    if v[i + 1] == '.' || v[n - 1] == '.' {
        return false;
    }
    assert(valid_email(email@) == forall|m: int| 0 <= m < n ==> !is_ws(#[trigger] v@[m]));
    let mut j: usize = 0;
    while j < n
        invariant
            n == v.len(),
            j <= n,
            valid_email(email@) == forall|m: int| 0 <= m < n ==> !is_ws(#[trigger] v@[m]),
            forall|m: int| 0 <= m < j ==> !is_ws(#[trigger] v@[m]),
        decreases n - j,
    {
        if is_whitespace(v[j]) {
            return false;
        }
        j = j + 1;
    }
    true
}

/// The distinct acceptable addresses among the first `n` recipients, each
/// trimmed and in ASCII lower case, in first-seen order.
pub open spec fn valid_recipient_list(rs: Seq<Seq<char>>, n: int) -> Seq<Seq<char>>
    decreases n,
{
    if n <= 0 || n > rs.len() {
        seq![]
    } else {
        let prev = valid_recipient_list(rs, n - 1);
        let e = lower_ascii_str(trim(rs[n - 1]));
        if valid_email(e) && !prev.contains(e) {
            prev.push(e)
        } else {
            prev
        }
    }
}

/// The sender as `Name <email>`: the name trimmed, without `<` and `>`, its
/// whitespace runs collapsed; the bare address when the name is blank.
pub open spec fn sender_text(name: Seq<char>, email: Seq<char>) -> Seq<char> {
    let n = trim(name);
    if n.len() == 0 {
        email
    } else {
        collapse_ws(n.filter(|c: char| c != '<' && c != '>')) + " <"@ + email + ">"@
    }
}

/// Formats a sender for a `From` header.
pub fn format_sender(name: &str, email: &str) -> (r: String)
    ensures
        r@ == sender_text(name@, email@),
{
    let n = trim_str(name);
    let v = chars_of(n.as_str());
    if v.len() == 0 {
        return own(email);
    }
    let mut kept = String::new();
    let mut i: usize = 0;
    while i < v.len()
        invariant
            v@ == trim(name@),
            i <= v.len(),
            kept@ == v@.subrange(0, i as int).filter(|c: char| c != '<' && c != '>'),
        decreases v.len() - i,
    {
        proof {
            reveal(Seq::filter);
            assert(v@.subrange(0, i + 1).drop_last() =~= v@.subrange(0, i as int));
        }
        if v[i] != '<' && v[i] != '>' {
            push_char(&mut kept, v[i]);
        }
        i = i + 1;
    }
    assert(v@.subrange(0, v.len() as int) =~= v@);
    let mut r = collapse_whitespace(kept.as_str());
    push_str(&mut r, " <");
    push_str(&mut r, email);
    push_str(&mut r, ">");
    r
}

impl AbuseReportEmail {
    /// The distinct acceptable recipients, trimmed and in ASCII lower case.
    pub fn valid_recipients(&self) -> (r: Vec<String>)
        ensures
            texts(r@) == valid_recipient_list(texts(self.recipients@), self.recipients@.len() as int),
    {
        let ghost rs = texts(self.recipients@);
        let mut out: Vec<String> = Vec::new();
        let mut i: usize = 0;
        while i < self.recipients.len()
            invariant
                rs == texts(self.recipients@),
                i <= self.recipients.len(),
                texts(out@) == valid_recipient_list(rs, i as int),
            decreases self.recipients.len() - i,
        {
            let t = trim_str(self.recipients[i].as_str());
            let e = to_ascii_lowercase(t.as_str());
            assert(rs[i as int] == self.recipients@[i as int]@);
            if is_valid_email(e.as_str()) {
                let mut seen = false;
                let mut k: usize = 0;
                while k < out.len()
                    invariant
                        k <= out.len(),
                        seen <==> exists|m: int| 0 <= m < k && #[trigger] texts(out@)[m] == e@,
                    decreases out.len() - k,
                {
                    assert(texts(out@)[k as int] == out@[k as int]@);
                    if str_eq(out[k].as_str(), e.as_str()) {
                        seen = true;
                    }
                    k = k + 1;
                }
                if !seen {
                    let ghost before = out@;
                    out.push(e);
                    proof {
                        lemma_texts_push(before, e);
                    }
                }
            }
            i = i + 1;
        }
        out
    }
}

/// Email delivery client: an HTTP client and the email settings.
#[derive(Debug)]
pub struct EmailClient {
    pub client: reqwest::Client,
    pub config: EmailConfig,
}

/// A Mailjet message to one recipient.
pub open spec fn mailjet_message(sender: Seq<char>, from_name: Seq<char>, to: Seq<char>, r: AbuseReportEmail) -> Json {
    Json::Obj(seq![
        ("From"@, Json::Obj(seq![("Email"@, Json::Str(sender)), ("Name"@, Json::Str(from_name))])),
        ("To"@, Json::Arr(seq![Json::Obj(seq![("Email"@, Json::Str(to))])])),
        ("Subject"@, Json::Str(r.subject@)),
        ("TextPart"@, Json::Str(r.text_body@)),
        ("HTMLPart"@, Json::Str(r.html_body@)),
    ] + match r.custom_id {
        Some(c) => seq![("CustomID"@, Json::Str(c@))],
        None => seq![],
    })
}

/// The Mailjet messages, one per recipient.
pub open spec fn mailjet_messages(sender: Seq<char>, from_name: Seq<char>, rs: Seq<Seq<char>>, r: AbuseReportEmail) -> Seq<Json> {
    Seq::new(rs.len(), |i: int| mailjet_message(sender, from_name, rs[i], r))
}

/// A Postmark message to one recipient.
pub open spec fn postmark_message(from: Seq<char>, to: Seq<char>, stream: Seq<char>, r: AbuseReportEmail) -> Json {
    Json::Obj(seq![
        ("From"@, Json::Str(from)),
        ("To"@, Json::Str(to)),
        ("Subject"@, Json::Str(r.subject@)),
        ("TextBody"@, Json::Str(r.text_body@)),
        ("HtmlBody"@, Json::Str(r.html_body@)),
        ("MessageStream"@, Json::Str(stream)),
        ("Tag"@, Json::Str("devops-agent-abuse-report"@)),
    ] + match r.custom_id {
        Some(c) => seq![("Metadata"@, Json::Obj(seq![("incident_id"@, Json::Str(c@))]))],
        None => seq![],
    })
}

/// The Postmark messages, one per recipient.
pub open spec fn postmark_messages(from: Seq<char>, rs: Seq<Seq<char>>, stream: Seq<char>, r: AbuseReportEmail) -> Seq<Json> {
    Seq::new(rs.len(), |i: int| postmark_message(from, rs[i], stream, r))
}

/// A configured credential, trimmed; absent when blank.
pub open spec fn credential(o: Option<String>) -> Option<Seq<char>> {
    match o {
        Some(s) => if trim(s@).len() > 0 {
            Some(trim(s@))
        } else {
            None
        },
        None => None,
    }
}

fn credential_of(o: &Option<String>) -> (r: Option<String>)
    ensures
        (match r { Some(s) => Some(s@), None => None }) == credential(*o),
{
    match o {
        Some(s) => {
            let t = trim_str(s.as_str());
            if t.as_str().unicode_len() > 0 {
                Some(t)
            } else {
                None
            }
        },
        None => None,
    }
}

impl EmailClient {
    /// A client for the given settings that sends with `client`.
    pub fn new(config: EmailConfig, client: reqwest::Client) -> (r: Self)
        ensures
            r.config == config,
            r.client == client,
    {
        EmailClient { client, config }
    }

    /// The configured provider, trimmed and in ASCII lower case.
    pub fn provider_name(&self) -> (r: String)
        ensures
            r@ == lower_ascii_str(trim(self.config.provider@)),
    {
        self.config.normalized_provider()
    }

    /// The sender's display name, trimmed.
    pub fn sender_name(&self) -> (r: String)
        ensures
            r@ == trim(self.config.from_name@),
    {
        trim_str(self.config.from_name.as_str())
    }

    /// The Mailjet API key and secret, each trimmed; both must be set.
    pub fn mailjet_credentials(&self) -> (r: Result<(String, String), EmailError>)
        ensures
            match (credential(self.config.mailjet.api_key), credential(self.config.mailjet.api_secret)) {
                (Some(k), Some(s)) => r matches Ok((a, b)) && a@ == k && b@ == s,
                _ => r matches Err(EmailError::MissingCredentials(m)) && m@
                    == "Mailjet; set MAILJET_API_KEY and MAILJET_API_SECRET"@,
            },
    {
        let key = credential_of(&self.config.mailjet.api_key);
        let secret = credential_of(&self.config.mailjet.api_secret);
        match (key, secret) {
            (Some(k), Some(s)) => Ok((k, s)),
            _ => Err(EmailError::MissingCredentials(own("Mailjet; set MAILJET_API_KEY and MAILJET_API_SECRET"))),
        }
    }

    /// The Postmark server token: the test token in sandbox mode, else the
    /// configured token, trimmed, which must be set.
    pub fn postmark_token(&self) -> (r: Result<String, EmailError>)
        ensures
            self.config.sandbox_mode ==> (r matches Ok(t) && t@ == "POSTMARK_API_TEST"@),
            !self.config.sandbox_mode ==> match credential(self.config.postmark.server_token) {
                Some(t) => r matches Ok(x) && x@ == t,
                None => r matches Err(EmailError::MissingCredentials(m)) && m@
                    == "Postmark; set POSTMARK_SERVER_TOKEN or enable EMAIL_SANDBOX_MODE"@,
            },
    {
        if self.config.sandbox_mode {
            return Ok(own("POSTMARK_API_TEST"));
        }
        match credential_of(&self.config.postmark.server_token) {
            Some(t) => Ok(t),
            None => Err(EmailError::MissingCredentials(own("Postmark; set POSTMARK_SERVER_TOKEN or enable EMAIL_SANDBOX_MODE"))),
        }
    }

    /// The Mailjet send payload: one message per valid recipient, from the
    /// configured sender, with the report's custom id and the sandbox flag.
    pub fn build_mailjet_payload(&self, report: &AbuseReportEmail) -> (r: Result<JsonValue, EmailError>)
        ensures
            !valid_email(trim(self.config.from_email@)) ==> (r matches Err(EmailError::InvalidSender(s)) && s@
                == trim(self.config.from_email@)),
            valid_email(trim(self.config.from_email@)) ==> {
                let rs = valid_recipient_list(texts(report.recipients@), report.recipients@.len() as int);
                if rs.len() == 0 {
                    r matches Err(EmailError::NoRecipients)
                } else {
                    r matches Ok(p) && p@ == Json::Obj(seq![("Messages"@, Json::Arr(mailjet_messages(trim(self.config.from_email@), self.config.from_name@, rs, *report)))] + if self.config.sandbox_mode {
                        seq![("SandboxMode"@, Json::Bool(true))]
                    } else {
                        seq![]
                    })
                }
            },
    {
        let sender = trim_str(self.config.from_email.as_str());
        if !is_valid_email(sender.as_str()) {
            return Err(EmailError::InvalidSender(sender));
        }
        let recipients = report.valid_recipients();
        if recipients.len() == 0 {
            return Err(EmailError::NoRecipients);
        }
        let ghost rs = texts(recipients@);
        let ghost all = mailjet_messages(sender@, self.config.from_name@, rs, *report);
        let mut messages: Vec<JsonValue> = Vec::new();
        let mut i: usize = 0;
        while i < recipients.len()
            invariant
                rs == texts(recipients@),
                i <= recipients.len(),
                all == mailjet_messages(sender@, self.config.from_name@, rs, *report),
                all.len() == recipients.len(),
                items_view(messages@, messages@.len() as int) == all.take(i as int),
            decreases recipients.len() - i,
        {
            let mut from: Vec<(String, JsonValue)> = Vec::new();
            push_entry(&mut from, "Email", str_value(sender.as_str()));
            push_entry(&mut from, "Name", str_value(self.config.from_name.as_str()));
            assert(entries_view(from@, from@.len() as int) =~= seq![("Email"@, Json::Str(sender@)), ("Name"@, Json::Str(self.config.from_name@))]);
            let mut to_entry: Vec<(String, JsonValue)> = Vec::new();
            push_entry(&mut to_entry, "Email", str_value(recipients[i].as_str()));
            assert(entries_view(to_entry@, to_entry@.len() as int) =~= seq![("Email"@, Json::Str(recipients@[i as int]@))]);
            let mut to: Vec<JsonValue> = Vec::new();
            push_item(&mut to, JsonValue::Object(to_entry));
            assert(items_view(to@, to@.len() as int) =~= seq![Json::Obj(seq![("Email"@, Json::Str(recipients@[i as int]@))])]);
            let mut m: Vec<(String, JsonValue)> = Vec::new();
            push_entry(&mut m, "From", JsonValue::Object(from));
            push_entry(&mut m, "To", JsonValue::Array(to));
            push_entry(&mut m, "Subject", str_value(report.subject.as_str()));
            push_entry(&mut m, "TextPart", str_value(report.text_body.as_str()));
            push_entry(&mut m, "HTMLPart", str_value(report.html_body.as_str()));
            let ghost base = entries_view(m@, m@.len() as int);
            match &report.custom_id {
                Some(c) => {
                    push_entry(&mut m, "CustomID", str_value(c.as_str()));
                },
                None => {
                    assert(entries_view(m@, m@.len() as int) =~= base + seq![]);
                },
            }
            proof {
                assert(rs[i as int] == recipients@[i as int]@);
                assert(entries_view(m@, m@.len() as int) =~= all[i as int]->Obj_0);
            }
            push_item(&mut messages, JsonValue::Object(m));
            proof {
                assert(all.take(i + 1) =~= all.take(i as int).push(all[i as int]));
            }
            i = i + 1;
        }
        assert(all.take(all.len() as int) =~= all);
        let mut payload: Vec<(String, JsonValue)> = Vec::new();
        push_entry(&mut payload, "Messages", JsonValue::Array(messages));
        let ghost base = entries_view(payload@, payload@.len() as int);
        assert(base =~= seq![("Messages"@, Json::Arr(all))]);
        if self.config.sandbox_mode {
            push_entry(&mut payload, "SandboxMode", JsonValue::Bool(true));
            assert(entries_view(payload@, payload@.len() as int) =~= base + seq![("SandboxMode"@, Json::Bool(true))]);
        } else {
            assert(entries_view(payload@, payload@.len() as int) =~= base + seq![]);
        }
        assert(all.take(all.len() as int) =~= all);
        Ok(JsonValue::Object(payload))
    }

    /// The Postmark payloads: one message per valid recipient, from the
    /// formatted sender, on the configured stream (`outbound` when blank),
    /// with the report's id as metadata.
    pub fn build_postmark_payloads(&self, report: &AbuseReportEmail) -> (r: Result<Vec<JsonValue>, EmailError>)
        ensures
            !valid_email(trim(self.config.from_email@)) ==> (r matches Err(EmailError::InvalidSender(s)) && s@
                == trim(self.config.from_email@)),
            valid_email(trim(self.config.from_email@)) ==> {
                let rs = valid_recipient_list(texts(report.recipients@), report.recipients@.len() as int);
                let stream = if trim(self.config.postmark.message_stream@).len() == 0 {
                    "outbound"@
                } else {
                    trim(self.config.postmark.message_stream@)
                };
                if rs.len() == 0 {
                    r matches Err(EmailError::NoRecipients)
                } else {
                    r matches Ok(ps) && items_view(ps@, ps@.len() as int) == postmark_messages(sender_text(self.config.from_name@, trim(self.config.from_email@)), rs, stream, *report)
                }
            },
    {
        let sender = trim_str(self.config.from_email.as_str());
        if !is_valid_email(sender.as_str()) {
            return Err(EmailError::InvalidSender(sender));
        }
        let recipients = report.valid_recipients();
        if recipients.len() == 0 {
            return Err(EmailError::NoRecipients);
        }
        let from = format_sender(self.config.from_name.as_str(), sender.as_str());
        let st = trim_str(self.config.postmark.message_stream.as_str());
        let stream = if st.as_str().unicode_len() == 0 {
            own("outbound")
        } else {
            st
        };
        let ghost rs = texts(recipients@);
        let ghost all = postmark_messages(from@, rs, stream@, *report);
        let mut payloads: Vec<JsonValue> = Vec::new();
        let mut i: usize = 0;
        while i < recipients.len()
            invariant
                rs == texts(recipients@),
                i <= recipients.len(),
                all == postmark_messages(from@, rs, stream@, *report),
                all.len() == recipients.len(),
                items_view(payloads@, payloads@.len() as int) == all.take(i as int),
            decreases recipients.len() - i,
        {
            let mut m: Vec<(String, JsonValue)> = Vec::new();
            push_entry(&mut m, "From", str_value(from.as_str()));
            push_entry(&mut m, "To", str_value(recipients[i].as_str()));
            push_entry(&mut m, "Subject", str_value(report.subject.as_str()));
            push_entry(&mut m, "TextBody", str_value(report.text_body.as_str()));
            push_entry(&mut m, "HtmlBody", str_value(report.html_body.as_str()));
            push_entry(&mut m, "MessageStream", str_value(stream.as_str()));
            push_entry(&mut m, "Tag", str_value("devops-agent-abuse-report"));
            let ghost base = entries_view(m@, m@.len() as int);
            match &report.custom_id {
                Some(c) => {
                    let mut meta: Vec<(String, JsonValue)> = Vec::new();
                    push_entry(&mut meta, "incident_id", str_value(c.as_str()));
                    proof {
                        assert(entries_view(meta@, meta@.len() as int) =~= seq![("incident_id"@, Json::Str(c@))]);
                    }
                    push_entry(&mut m, "Metadata", JsonValue::Object(meta));
                },
                None => {
                    assert(entries_view(m@, m@.len() as int) =~= base + seq![]);
                },
            }
            proof {
                assert(rs[i as int] == recipients@[i as int]@);
                assert(entries_view(m@, m@.len() as int) =~= all[i as int]->Obj_0);
            }
            push_item(&mut payloads, JsonValue::Object(m));
            proof {
                assert(all.take(i + 1) =~= all.take(i as int).push(all[i as int]));
            }
            i = i + 1;
        }
        assert(all.take(all.len() as int) =~= all);
        Ok(payloads)
    }
}

} // verus!
