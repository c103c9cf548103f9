//! Configuration sections and their defaults.
use vstd::prelude::*;
use crate::text::{trim, lower_ascii_str, trim_str, to_ascii_lowercase, own, push_str, lower_ascii, lemma_trim_idempotent,
    lemma_trim_fixed, lemma_lower_ascii_char};

verus! {

/// Blocking enforcement settings.
#[derive(Debug, Clone)]
pub struct EnforcementConfig {
    pub enabled: bool,
    pub namespace: String,
    pub edge_ingressroute_name: String,
    pub edge_deny_service_name: String,
    pub edge_deny_service_port: u16,
}

impl Default for EnforcementConfig {
    fn default() -> (r: Self)
        ensures
            r.enabled,
            r.namespace@ == "traefik"@,
            r.edge_ingressroute_name@ == "edge-ip-deny"@,
            r.edge_deny_service_name@ == "edge-deny"@,
            r.edge_deny_service_port == 80,
    {
        EnforcementConfig {
            enabled: true,
            namespace: own("traefik"),
            edge_ingressroute_name: own("edge-ip-deny"),
            edge_deny_service_name: own("edge-deny"),
            edge_deny_service_port: 80,
        }
    }
}

/// Operation mode.
#[derive(Debug, Clone, Copy, PartialEq, Eq, Structural)]
pub enum Mode {
    Analyze,
    ServeSpa,
}

impl Default for Mode {
    fn default() -> (r: Self)
        ensures
            r == Mode::Analyze,
    {
        Mode::Analyze
    }
}

/// Legacy Mailjet settings.
#[derive(Debug, Clone)]
pub struct MailjetConfig {
    pub api_key: Option<String>,
    pub api_secret: Option<String>,
    pub from_email: String,
    pub from_name: String,
    pub endpoint: String,
    pub sandbox_mode: bool,
}

impl Default for MailjetConfig {
    fn default() -> (r: Self)
        ensures
            r.api_key is None,
            r.api_secret is None,
            r.from_email@ == "abuse@example.com"@,
            r.from_name@ == "DevOps Agent Abuse Reports"@,
            r.endpoint@ == "https://api.mailjet.com/v3.1/send"@,
            !r.sandbox_mode,
    {
        MailjetConfig {
            api_key: None,
            api_secret: None,
            from_email: own("abuse@example.com"),
            from_name: own("DevOps Agent Abuse Reports"),
            endpoint: own("https://api.mailjet.com/v3.1/send"),
            sandbox_mode: false,
        }
    }
}

/// Email delivery settings.
#[derive(Debug, Clone)]
pub struct EmailConfig {
    pub provider: String,
    pub from_email: String,
    pub from_name: String,
    pub sandbox_mode: bool,
    pub mailjet: MailjetEmailConfig,
    pub postmark: PostmarkEmailConfig,
}

/// Mailjet delivery settings.
#[derive(Debug, Clone)]
pub struct MailjetEmailConfig {
    pub api_key: Option<String>,
    pub api_secret: Option<String>,
    pub endpoint: String,
}

/// Postmark delivery settings.
#[derive(Debug, Clone)]
pub struct PostmarkEmailConfig {
    pub server_token: Option<String>,
    pub endpoint: String,
    pub message_stream: String,
}

impl Default for EmailConfig {
    fn default() -> (r: Self)
        ensures
            r.provider@ == "mailjet"@,
            r.from_email@ == "abuse@example.com"@,
            r.from_name@ == "DevOps Agent Abuse Reports"@,
            !r.sandbox_mode,
            r.mailjet.api_key is None,
            r.mailjet.api_secret is None,
            r.mailjet.endpoint@ == "https://api.mailjet.com/v3.1/send"@,
            r.postmark.server_token is None,
            r.postmark.endpoint@ == "https://api.postmarkapp.com/email"@,
            r.postmark.message_stream@ == "outbound"@,
    {
        EmailConfig {
            provider: own("mailjet"),
            from_email: own("abuse@example.com"),
            from_name: own("DevOps Agent Abuse Reports"),
            sandbox_mode: false,
            mailjet: MailjetEmailConfig::default(),
            postmark: PostmarkEmailConfig::default(),
        }
    }
}

impl EmailConfig {
    /// The provider name trimmed and in ASCII lower case.
    pub fn normalized_provider(&self) -> (r: String)
        ensures
            r@ == lower_ascii_str(trim(self.provider@)),
    {
        let t = trim_str(self.provider.as_str());
        to_ascii_lowercase(t.as_str())
    }
}

/// Normalizing the email provider twice gives what normalizing once does:
/// the normalized name has no surrounding whitespace and no ASCII capital,
/// so trimming and lower-casing it again changes nothing.
pub proof fn law_normalized_provider_idempotent(provider: Seq<char>)
    ensures
        lower_ascii_str(trim(lower_ascii_str(trim(provider)))) == lower_ascii_str(trim(provider)),
{
    let t = trim(provider);
    lemma_trim_idempotent(provider);
    let l = lower_ascii_str(t);
    if t.len() > 0 {
        lemma_lower_ascii_char(t[0]);
        lemma_lower_ascii_char(t.last());
        assert(l[0] == lower_ascii(t[0]));
        assert(l.last() == lower_ascii(t.last()));
    }
    lemma_trim_fixed(l);
    assert forall|i: int| 0 <= i < l.len() implies #[trigger] lower_ascii_str(l)[i] == l[i] by {
        lemma_lower_ascii_char(t[i]);
    }
    assert(lower_ascii_str(l) =~= l);
}

impl Default for MailjetEmailConfig {
    fn default() -> (r: Self)
        ensures
            r.api_key is None,
            r.api_secret is None,
            r.endpoint@ == "https://api.mailjet.com/v3.1/send"@,
    {
        MailjetEmailConfig { api_key: None, api_secret: None, endpoint: own("https://api.mailjet.com/v3.1/send") }
    }
}

impl Default for PostmarkEmailConfig {
    fn default() -> (r: Self)
        ensures
            r.server_token is None,
            r.endpoint@ == "https://api.postmarkapp.com/email"@,
            r.message_stream@ == "outbound"@,
    {
        PostmarkEmailConfig {
            server_token: None,
            endpoint: own("https://api.postmarkapp.com/email"),
            message_stream: own("outbound"),
        }
    }
}

/// Elasticsearch connection settings.
#[derive(Debug, Clone)]
pub struct ElasticsearchConfig {
    pub url: String,
    pub username: Option<String>,
    pub password: Option<String>,
    pub api_key: Option<String>,
    pub index_prefix: String,
    pub index_pattern: Option<String>,
    pub timeout_seconds: u64,
    pub tls_insecure_skip_verify: bool,
}

impl Default for ElasticsearchConfig {
    fn default() -> (r: Self)
        ensures
            r.url@ == "http://localhost:9200"@,
            r.username is None,
            r.password is None,
            r.api_key is None,
            r.index_prefix@ == "traefik-"@,
            r.index_pattern is None,
            r.timeout_seconds == 30,
            !r.tls_insecure_skip_verify,
    {
        ElasticsearchConfig {
            url: own("http://localhost:9200"),
            username: None,
            password: None,
            api_key: None,
            index_prefix: own("traefik-"),
            index_pattern: None,
            timeout_seconds: 30,
            tls_insecure_skip_verify: false,
        }
    }
}

impl ElasticsearchConfig {
    /// The index pattern to search: the configured one unless blank, else
    /// the index prefix followed by `*`.
    pub fn effective_index_pattern(&self) -> (r: String)
        ensures
            r@ == (match self.index_pattern {
                Some(p) => if trim(p@).len() > 0 {
                    p@
                } else {
                    self.index_prefix@ + "*"@
                },
                None => self.index_prefix@ + "*"@,
            }),
    {
        match &self.index_pattern {
            Some(p) => {
                let t = trim_str(p.as_str());
                if t.as_str().unicode_len() > 0 {
                    return p.clone();
                }
            },
            None => {},
        }
        let mut r = self.index_prefix.clone();
        push_str(&mut r, "*");
        r
    }
}

/// Kubernetes access settings.
#[derive(Debug, Clone)]
pub struct KubernetesConfig {
    pub context: Option<String>,
    pub kubeconfig: Option<String>,
    pub namespace: String,
    pub service_account_token: Option<String>,
    pub timeout_seconds: u64,
}

impl Default for KubernetesConfig {
    fn default() -> (r: Self)
        ensures
            r.context is None,
            r.kubeconfig is None,
            r.namespace@ == "traefik"@,
            r.service_account_token is None,
            r.timeout_seconds == 30,
    {
        KubernetesConfig {
            context: None,
            kubeconfig: None,
            namespace: own("traefik"),
            service_account_token: None,
            timeout_seconds: 30,
        }
    }
}

/// Database settings; `path` is a filesystem path.
#[derive(Debug, Clone)]
pub struct DatabaseConfig {
    pub path: String,
    pub pool_size: u32,
}

impl Default for DatabaseConfig {
    fn default() -> (r: Self)
        ensures
            r.path@ == "data/devops-agent.db"@,
            r.pool_size == 5,
    {
        DatabaseConfig { path: own("data/devops-agent.db"), pool_size: 5 }
    }
}

/// Web server settings; `static_dir` is a filesystem path.
#[derive(Debug, Clone)]
pub struct WebConfig {
    pub host: String,
    pub port: u16,
    pub static_dir: String,
}

impl Default for WebConfig {
    fn default() -> (r: Self)
        ensures
            r.host@ == "127.0.0.1"@,
            r.port == 8080,
            r.static_dir@ == "src/web/static"@,
    {
        WebConfig { host: own("127.0.0.1"), port: 8080, static_dir: own("src/web/static") }
    }
}

/// Incident scheduler settings.
#[derive(Debug, Clone)]
pub struct SchedulerConfig {
    pub interval_seconds: u64,
    pub lookback_minutes: u64,
    pub failure_threshold: u64,
    pub time_field: String,
    pub status_field: String,
    pub client_host_field: String,
    pub request_method_field: String,
    pub request_path_field: String,
    pub request_host_field: String,
}

impl Default for SchedulerConfig {
    fn default() -> (r: Self)
        ensures
            r.interval_seconds == 300,
            r.lookback_minutes == 60,
            r.failure_threshold == 10,
            r.time_field@ == "StartLocal"@,
            r.status_field@ == "DownstreamStatus"@,
            r.client_host_field@ == "ClientHost.keyword"@,
            r.request_method_field@ == "RequestMethod.keyword"@,
            r.request_path_field@ == "RequestPath.keyword"@,
            r.request_host_field@ == "RequestHost.keyword"@,
    {
        SchedulerConfig {
            interval_seconds: 300,
            lookback_minutes: 60,
            failure_threshold: 10,
            time_field: own("StartLocal"),
            status_field: own("DownstreamStatus"),
            client_host_field: own("ClientHost.keyword"),
            request_method_field: own("RequestMethod.keyword"),
            request_path_field: own("RequestPath.keyword"),
            request_host_field: own("RequestHost.keyword"),
        }
    }
}

} // verus!
