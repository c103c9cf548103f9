//! Configuration: the rules that merge file settings, legacy settings and
//! environment overrides.
use vstd::prelude::*;
use crate::config::models::{EmailConfig, MailjetConfig, Mode, EnforcementConfig, ElasticsearchConfig,
    KubernetesConfig};
use crate::text::{trim, lower_ascii_str, trim_str, to_ascii_lowercase, own, push_str, str_eq, has_prefix,
    has_suffix, chars_of, string_of_range, starts_with, ends_with};
use crate::elasticsearch::queries::texts;

pub mod models;

verus! {

/// The boolean an environment value spells: `1/true/yes/on` or
/// `0/false/no/off`, ignoring surrounding space and ASCII case.
pub open spec fn bool_env_value(v: Seq<char>) -> Option<bool> {
    let l = lower_ascii_str(trim(v));
    if l == "1"@ || l == "true"@ || l == "yes"@ || l == "on"@ {
        Some(true)
    } else if l == "0"@ || l == "false"@ || l == "no"@ || l == "off"@ {
        Some(false)
    } else {
        None
    }
}

/// Parses the boolean value of environment variable `name`.
pub fn parse_bool_env(name: &str, value: &str) -> (r: Result<bool, String>)
    ensures
        match bool_env_value(value@) {
            Some(b) => r == Ok::<bool, String>(b),
            None => r matches Err(m) && m@ == name@ + " must be one of true/false, yes/no, on/off, or 1/0"@,
        },
{
    let t = trim_str(value);
    let l = to_ascii_lowercase(t.as_str());
    let l = l.as_str();
    if str_eq(l, "1") || str_eq(l, "true") || str_eq(l, "yes") || str_eq(l, "on") {
        Ok(true)
    } else if str_eq(l, "0") || str_eq(l, "false") || str_eq(l, "no") || str_eq(l, "off") {
        Ok(false)
    } else {
        let mut m = own(name);
        push_str(&mut m, " must be one of true/false, yes/no, on/off, or 1/0");
        Err(m)
    }
}

/// The variable named by a `${NAME}` reference.
pub open spec fn env_reference(v: Seq<char>) -> Option<Seq<char>> {
    if has_prefix(v, "${"@) && has_suffix(v, "}"@) && v.len() >= 3 {
        Some(v.subrange(2, v.len() - 1))
    } else {
        None
    }
}

/// The name of the environment variable a `${NAME}` setting refers to;
/// `None` for a literal setting.
pub fn env_var_reference(value: &str) -> (r: Option<String>)
    ensures
        match r {
            Some(n) => env_reference(value@) == Some(n@),
            None => env_reference(value@) is None,
        },
{
    let v = chars_of(value);
    if v.len() >= 3 && starts_with(value, "${") && ends_with(value, "}") {
        Some(string_of_range(&v, 2, v.len() - 1))
    } else {
        proof {
            reveal_strlit("${");
            reveal_strlit("}");
        }
        None
    }
}

/// Takes the legacy Mailjet section over as the email settings when it has
/// credentials.
pub fn apply_legacy_mailjet_config(email: &mut EmailConfig, mailjet: &MailjetConfig)
    ensures
        if mailjet.api_key is None && mailjet.api_secret is None {
            *final(email) == *old(email)
        } else {
            &&& final(email).provider@ == "mailjet"@
            &&& final(email).from_email == mailjet.from_email
            &&& final(email).from_name == mailjet.from_name
            &&& final(email).sandbox_mode == mailjet.sandbox_mode
            &&& final(email).mailjet.api_key == mailjet.api_key
            &&& final(email).mailjet.api_secret == mailjet.api_secret
            &&& final(email).mailjet.endpoint == mailjet.endpoint
            &&& final(email).postmark == old(email).postmark
        },
{
    if mailjet.api_key.is_none() && mailjet.api_secret.is_none() {
        return;
    }
    email.provider = own("mailjet");
    email.from_email = mailjet.from_email.clone();
    email.from_name = mailjet.from_name.clone();
    email.sandbox_mode = mailjet.sandbox_mode;
    email.mailjet.api_key = mailjet.api_key.clone();
    email.mailjet.api_secret = mailjet.api_secret.clone();
    email.mailjet.endpoint = mailjet.endpoint.clone();
}


/// The command-line options of the agent.
#[derive(Debug, Clone)]
pub struct CliArgs {
    /// Path to the configuration file.
    pub config: Option<String>,
    /// Operation mode.
    pub mode: Option<Mode>,
    /// Serve the single-page web application.
    pub serve_spa: bool,
    pub llm_url: Option<String>,
    pub llm_provider: Option<String>,
    pub llm_api_key: Option<String>,
    /// Apply approved blocks to the cluster.
    pub enforce: bool,
    /// Record approvals only.
    pub dry_run: bool,
}

/// The environment variables that override settings, each `None` when unset.
#[derive(Debug, Clone)]
pub struct EnvOverrides {
    pub es_username: Option<String>,
    pub es_password: Option<String>,
    pub es_api_key: Option<String>,
    pub k8s_kubeconfig: Option<String>,
    pub k8s_context: Option<String>,
    pub k8s_service_account_token: Option<String>,
    pub llm_api_key: Option<String>,
    pub mailjet_api_key: Option<String>,
    pub mailjet_api_secret: Option<String>,
    pub email_provider: Option<String>,
    pub mailjet_from_email: Option<String>,
    pub mailjet_from_name: Option<String>,
    pub mailjet_endpoint: Option<String>,
    pub mailjet_sandbox_mode: Option<String>,
    pub email_from_email: Option<String>,
    pub email_from_name: Option<String>,
    pub email_sandbox_mode: Option<String>,
    pub postmark_server_token: Option<String>,
    pub postmark_endpoint: Option<String>,
    pub postmark_message_stream: Option<String>,
}

/// The part of the configuration that command-line options and environment
/// variables override.
#[derive(Debug, Clone)]
pub struct Settings {
    pub mode: Mode,
    pub llm_provider: String,
    pub llm_url: String,
    pub llm_api_key: Option<String>,
    pub enforcement: EnforcementConfig,
    pub elasticsearch: ElasticsearchConfig,
    pub kubernetes: KubernetesConfig,
    pub email: EmailConfig,
    pub mailjet: MailjetConfig,
}

/// `o` when it is set, else `prev`.
pub open spec fn set_or(o: Option<String>, prev: Option<String>) -> Option<String> {
    match o {
        Some(v) => Some(v),
        None => prev,
    }
}

/// The text of `o` when it is set, else `prev`.
pub open spec fn text_or(o: Option<String>, prev: String) -> String {
    match o {
        Some(v) => v,
        None => prev,
    }
}

fn override_opt(target: &mut Option<String>, value: &Option<String>)
    ensures
        *final(target) == set_or(*value, *old(target)),
{
    match value {
        Some(v) => {
            *target = Some(v.clone());
        },
        None => {},
    }
}

fn override_text(target: &mut String, value: &Option<String>)
    ensures
        *final(target) == text_or(*value, *old(target)),
{
    match value {
        Some(v) => {
            *target = v.clone();
        },
        None => {},
    }
}

/// Applies the command-line options: an explicit mode, then `--serve-spa`,
/// the LLM options, and the enforcement switches (`--dry-run` wins).
pub fn apply_cli_overrides(settings: &mut Settings, cli: &CliArgs)
    ensures
        final(settings).mode == (if cli.serve_spa {
            Mode::ServeSpa
        } else {
            match cli.mode {
                Some(m) => m,
                None => old(settings).mode,
            }
        }),
        final(settings).llm_url == text_or(cli.llm_url, old(settings).llm_url),
        final(settings).llm_provider == text_or(cli.llm_provider, old(settings).llm_provider),
        final(settings).llm_api_key == set_or(cli.llm_api_key, old(settings).llm_api_key),
        final(settings).enforcement.enabled == (if cli.dry_run {
            false
        } else if cli.enforce {
            true
        } else {
            old(settings).enforcement.enabled
        }),
        final(settings).enforcement.namespace == old(settings).enforcement.namespace,
        final(settings).enforcement.edge_ingressroute_name == old(settings).enforcement.edge_ingressroute_name,
        final(settings).enforcement.edge_deny_service_name == old(settings).enforcement.edge_deny_service_name,
        final(settings).enforcement.edge_deny_service_port == old(settings).enforcement.edge_deny_service_port,
        final(settings).elasticsearch == old(settings).elasticsearch,
        final(settings).kubernetes == old(settings).kubernetes,
        final(settings).email == old(settings).email,
        final(settings).mailjet == old(settings).mailjet,
{
    match cli.mode {
        Some(m) => {
            settings.mode = m;
        },
        None => {},
    }
    if cli.serve_spa {
        settings.mode = Mode::ServeSpa;
    }
    override_text(&mut settings.llm_url, &cli.llm_url);
    override_text(&mut settings.llm_provider, &cli.llm_provider);
    override_opt(&mut settings.llm_api_key, &cli.llm_api_key);
    if cli.enforce {
        settings.enforcement.enabled = true;
    }
    if cli.dry_run {
        settings.enforcement.enabled = false;
    }
}

/// The message for a sandbox variable that spells no boolean.
pub open spec fn bool_env_error(name: Seq<char>) -> Seq<char> {
    name + " must be one of true/false, yes/no, on/off, or 1/0"@
}

/// The error the environment overrides end in, if any: a sandbox-mode
/// variable (Mailjet's first) that spells no boolean.
pub open spec fn env_overrides_error(env: EnvOverrides) -> Option<Seq<char>> {
    if env.mailjet_sandbox_mode is Some && bool_env_value(env.mailjet_sandbox_mode->0@) is None {
        Some(bool_env_error("MAILJET_SANDBOX_MODE"@))
    } else if env.email_sandbox_mode is Some && bool_env_value(env.email_sandbox_mode->0@) is None {
        Some(bool_env_error("EMAIL_SANDBOX_MODE"@))
    } else {
        None
    }
}

/// Mailjet is the email provider once `EMAIL_PROVIDER` has been applied.
pub open spec fn mailjet_active(env: EnvOverrides, email: EmailConfig) -> bool {
    lower_ascii_str(trim(text_or(env.email_provider, email.provider)@)) == "mailjet"@
}

/// Applies the environment overrides. Credentials and endpoints replace the
/// settings; the Mailjet sender and sandbox variables reach the email
/// settings only while Mailjet is the provider, and the `EMAIL_*` variables
/// win over them.
pub fn apply_env_overrides(settings: &mut Settings, env: &EnvOverrides) -> (r: Result<(), String>)
    ensures
        r is Err <==> env_overrides_error(*env) is Some,
        r matches Err(m) ==> env_overrides_error(*env) == Some(m@),
        r is Ok ==> {
            let o = *old(settings);
            let f = *final(settings);
            let active = mailjet_active(*env, o.email);
            &&& f.mode == o.mode
            &&& f.llm_provider == o.llm_provider
            &&& f.llm_url == o.llm_url
            &&& f.enforcement == o.enforcement
            &&& f.llm_api_key == set_or(env.llm_api_key, o.llm_api_key)
            &&& f.elasticsearch.username == set_or(env.es_username, o.elasticsearch.username)
            &&& f.elasticsearch.password == set_or(env.es_password, o.elasticsearch.password)
            &&& f.elasticsearch.api_key == set_or(env.es_api_key, o.elasticsearch.api_key)
            &&& f.elasticsearch.url == o.elasticsearch.url
            &&& f.elasticsearch.index_prefix == o.elasticsearch.index_prefix
            &&& f.elasticsearch.index_pattern == o.elasticsearch.index_pattern
            &&& f.elasticsearch.timeout_seconds == o.elasticsearch.timeout_seconds
            &&& f.elasticsearch.tls_insecure_skip_verify == o.elasticsearch.tls_insecure_skip_verify
            &&& f.kubernetes.kubeconfig == set_or(env.k8s_kubeconfig, o.kubernetes.kubeconfig)
            &&& f.kubernetes.context == set_or(env.k8s_context, o.kubernetes.context)
            &&& f.kubernetes.service_account_token == set_or(
                env.k8s_service_account_token,
                o.kubernetes.service_account_token,
            )
            &&& f.kubernetes.namespace == o.kubernetes.namespace
            &&& f.kubernetes.timeout_seconds == o.kubernetes.timeout_seconds
            &&& f.email.mailjet.api_key == set_or(env.mailjet_api_key, o.email.mailjet.api_key)
            &&& f.mailjet.api_key == set_or(env.mailjet_api_key, o.mailjet.api_key)
            &&& f.email.mailjet.api_secret == set_or(env.mailjet_api_secret, o.email.mailjet.api_secret)
            &&& f.mailjet.api_secret == set_or(env.mailjet_api_secret, o.mailjet.api_secret)
            &&& f.email.provider == text_or(env.email_provider, o.email.provider)
            &&& f.email.from_email == text_or(
                env.email_from_email,
                if active { text_or(env.mailjet_from_email, o.email.from_email) } else { o.email.from_email },
            )
            &&& f.mailjet.from_email == text_or(env.mailjet_from_email, o.mailjet.from_email)
            &&& f.email.from_name == text_or(
                env.email_from_name,
                if active { text_or(env.mailjet_from_name, o.email.from_name) } else { o.email.from_name },
            )
            &&& f.mailjet.from_name == text_or(env.mailjet_from_name, o.mailjet.from_name)
            &&& f.email.mailjet.endpoint == text_or(env.mailjet_endpoint, o.email.mailjet.endpoint)
            &&& f.mailjet.endpoint == text_or(env.mailjet_endpoint, o.mailjet.endpoint)
            &&& f.email.sandbox_mode == (match env.email_sandbox_mode {
                Some(v) => bool_env_value(v@).unwrap(),
                None => match env.mailjet_sandbox_mode {
                    Some(v) => if active { bool_env_value(v@).unwrap() } else { o.email.sandbox_mode },
                    None => o.email.sandbox_mode,
                },
            })
            &&& f.mailjet.sandbox_mode == (match env.mailjet_sandbox_mode {
                Some(v) => bool_env_value(v@).unwrap(),
                None => o.mailjet.sandbox_mode,
            })
            &&& f.email.postmark.server_token == set_or(env.postmark_server_token, o.email.postmark.server_token)
            &&& f.email.postmark.endpoint == text_or(env.postmark_endpoint, o.email.postmark.endpoint)
            &&& f.email.postmark.message_stream == text_or(
                env.postmark_message_stream,
                o.email.postmark.message_stream,
            )
        },
{
    proof {
        reveal_strlit("MAILJET_SANDBOX_MODE");
        reveal_strlit("EMAIL_SANDBOX_MODE");
    }
    override_opt(&mut settings.elasticsearch.username, &env.es_username);
    override_opt(&mut settings.elasticsearch.password, &env.es_password);
    override_opt(&mut settings.elasticsearch.api_key, &env.es_api_key);
    override_opt(&mut settings.kubernetes.kubeconfig, &env.k8s_kubeconfig);
    override_opt(&mut settings.kubernetes.context, &env.k8s_context);
    override_opt(&mut settings.kubernetes.service_account_token, &env.k8s_service_account_token);
    override_opt(&mut settings.llm_api_key, &env.llm_api_key);
    override_opt(&mut settings.email.mailjet.api_key, &env.mailjet_api_key);
    override_opt(&mut settings.mailjet.api_key, &env.mailjet_api_key);
    override_opt(&mut settings.email.mailjet.api_secret, &env.mailjet_api_secret);
    override_opt(&mut settings.mailjet.api_secret, &env.mailjet_api_secret);
    override_text(&mut settings.email.provider, &env.email_provider);
    let provider = settings.email.normalized_provider();
    let active = str_eq(provider.as_str(), "mailjet");
    match &env.mailjet_from_email {
        Some(v) => {
            if active {
                settings.email.from_email = v.clone();
            }
            settings.mailjet.from_email = v.clone();
        },
        None => {},
    }
    match &env.mailjet_from_name {
        Some(v) => {
            if active {
                settings.email.from_name = v.clone();
            }
            settings.mailjet.from_name = v.clone();
        },
        None => {},
    }
    override_text(&mut settings.email.mailjet.endpoint, &env.mailjet_endpoint);
    override_text(&mut settings.mailjet.endpoint, &env.mailjet_endpoint);
    match &env.mailjet_sandbox_mode {
        Some(v) => {
            let sandbox = match parse_bool_env("MAILJET_SANDBOX_MODE", v.as_str()) {
                Ok(b) => b,
                Err(m) => {
                    return Err(m);
                },
            };
            if active {
                settings.email.sandbox_mode = sandbox;
            }
            settings.mailjet.sandbox_mode = sandbox;
        },
        None => {},
    }
    override_text(&mut settings.email.from_email, &env.email_from_email);
    override_text(&mut settings.email.from_name, &env.email_from_name);
    match &env.email_sandbox_mode {
        Some(v) => {
            let sandbox = match parse_bool_env("EMAIL_SANDBOX_MODE", v.as_str()) {
                Ok(b) => b,
                Err(m) => {
                    return Err(m);
                },
            };
            settings.email.sandbox_mode = sandbox;
        },
        None => {},
    }
    override_opt(&mut settings.email.postmark.server_token, &env.postmark_server_token);
    override_text(&mut settings.email.postmark.endpoint, &env.postmark_endpoint);
    override_text(&mut settings.email.postmark.message_stream, &env.postmark_message_stream);
    Ok(())
}


/// The text of an optional setting.
pub open spec fn opt_view(o: Option<String>) -> Option<Seq<char>> {
    match o {
        Some(v) => Some(v@),
        None => None,
    }
}

/// The value listed for variable `name` from entry `i` of `values` on: that
/// of its first entry; `None` when it is unset or not listed.
pub open spec fn env_value_from(values: Seq<(String, Option<String>)>, i: int, name: Seq<char>) -> Option<Seq<char>>
    decreases values.len() - i,
{
    if i < 0 || i >= values.len() {
        None
    } else if values[i].0@ == name {
        opt_view(values[i].1)
    } else {
        env_value_from(values, i + 1, name)
    }
}

/// The value listed for variable `name` in `values`.
pub open spec fn env_value(values: Seq<(String, Option<String>)>, name: Seq<char>) -> Option<Seq<char>> {
    env_value_from(values, 0, name)
}

/// An optional setting after substitution: a `${NAME}` reference becomes
/// the variable's value, or `None` when it is unset; anything else stays.
pub open spec fn substituted_opt(o: Option<Seq<char>>, values: Seq<(String, Option<String>)>) -> Option<Seq<char>> {
    match o {
        Some(v) => match env_reference(v) {
            Some(n) => env_value(values, n),
            None => Some(v),
        },
        None => None,
    }
}

/// A text setting after substitution: a `${NAME}` reference becomes the
/// variable's value, or empty text when it is unset; anything else stays.
pub open spec fn substituted_text(v: Seq<char>, values: Seq<(String, Option<String>)>) -> Seq<char> {
    match env_reference(v) {
        Some(n) => match env_value(values, n) {
            Some(x) => x,
            None => seq![],
        },
        None => v,
    }
}

/// The variable a setting refers to, as a list of none or one name.
pub open spec fn ref_of(f: Option<Seq<char>>) -> Seq<Seq<char>> {
    match f {
        Some(v) => match env_reference(v) {
            Some(n) => seq![n],
            None => seq![],
        },
        None => seq![],
    }
}

/// The variables that the settings read from the configuration file refer
/// to, field by field in the order they are substituted.
pub open spec fn env_refs(s: Settings) -> Seq<Seq<char>> {
    ref_of(opt_view(s.elasticsearch.username)) + ref_of(opt_view(s.elasticsearch.password)) + ref_of(opt_view(s.elasticsearch.api_key)) + ref_of(opt_view(s.kubernetes.kubeconfig)) + ref_of(opt_view(s.kubernetes.context)) + ref_of(opt_view(s.kubernetes.service_account_token)) + ref_of(opt_view(s.llm_api_key)) + ref_of(Some(s.email.provider@)) + ref_of(Some(s.email.from_email@)) + ref_of(Some(s.email.from_name@)) + ref_of(opt_view(s.email.mailjet.api_key)) + ref_of(opt_view(s.email.mailjet.api_secret)) + ref_of(Some(s.email.mailjet.endpoint@)) + ref_of(opt_view(s.email.postmark.server_token)) + ref_of(Some(s.email.postmark.endpoint@)) + ref_of(Some(s.email.postmark.message_stream@)) + ref_of(opt_view(s.mailjet.api_key)) + ref_of(opt_view(s.mailjet.api_secret)) + ref_of(Some(s.mailjet.from_email@)) + ref_of(Some(s.mailjet.from_name@)) + ref_of(Some(s.mailjet.endpoint@))
}

/// The value listed for `name` in `values`.
fn listed_value(values: &Vec<(String, Option<String>)>, name: &str) -> (r: Option<String>)
    ensures
        opt_view(r) == env_value(values@, name@),
{
    let mut i: usize = 0;
    while i < values.len()
        invariant
            i <= values.len(),
            env_value(values@, name@) == env_value_from(values@, i as int, name@),
        decreases values.len() - i,
    {
        if str_eq(values[i].0.as_str(), name) {
            return match &values[i].1 {
                Some(v) => Some(v.clone()),
                None => None,
            };
        }
        i = i + 1;
    }
    None
}

fn substituted_opt_value(o: &Option<String>, values: &Vec<(String, Option<String>)>) -> (r: Option<String>)
    ensures
        opt_view(r) == substituted_opt(opt_view(*o), values@),
{
    match o {
        Some(v) => match env_var_reference(v.as_str()) {
            Some(n) => listed_value(values, n.as_str()),
            None => Some(v.clone()),
        },
        None => None,
    }
}

fn substituted_text_value(v: &String, values: &Vec<(String, Option<String>)>) -> (r: String)
    ensures
        r@ == substituted_text(v@, values@),
{
    match env_var_reference(v.as_str()) {
        Some(n) => match listed_value(values, n.as_str()) {
            Some(x) => x,
            None => String::new(),
        },
        None => v.clone(),
    }
}

fn push_reference(out: &mut Vec<String>, v: &str)
    ensures
        texts(final(out)@) == texts(old(out)@) + ref_of(Some(v@)),
{
    let ghost before = texts(out@);
    match env_var_reference(v) {
        Some(n) => {
            out.push(n);
            assert(texts(out@) =~= before + ref_of(Some(v@)));
        },
        None => {
            assert(texts(out@) =~= before + ref_of(Some(v@)));
        },
    }
}

fn push_opt_reference(out: &mut Vec<String>, o: &Option<String>)
    ensures
        texts(final(out)@) == texts(old(out)@) + ref_of(opt_view(*o)),
{
    match o {
        Some(v) => push_reference(out, v.as_str()),
        None => {
            assert(texts(out@) =~= texts(out@) + ref_of(opt_view(*o)));
        },
    }
}

/// The names of the environment variables that `${NAME}` settings refer
/// to, field by field in the order `substitute_env` replaces them.
pub fn env_references(s: &Settings) -> (r: Vec<String>)
    ensures
        texts(r@) == env_refs(*s),
{
    let mut out: Vec<String> = Vec::new();
    assert(texts(out@) =~= Seq::<Seq<char>>::empty());
    push_opt_reference(&mut out, &s.elasticsearch.username);
    push_opt_reference(&mut out, &s.elasticsearch.password);
    push_opt_reference(&mut out, &s.elasticsearch.api_key);
    push_opt_reference(&mut out, &s.kubernetes.kubeconfig);
    push_opt_reference(&mut out, &s.kubernetes.context);
    push_opt_reference(&mut out, &s.kubernetes.service_account_token);
    push_opt_reference(&mut out, &s.llm_api_key);
    push_reference(&mut out, s.email.provider.as_str());
    push_reference(&mut out, s.email.from_email.as_str());
    push_reference(&mut out, s.email.from_name.as_str());
    push_opt_reference(&mut out, &s.email.mailjet.api_key);
    push_opt_reference(&mut out, &s.email.mailjet.api_secret);
    push_reference(&mut out, s.email.mailjet.endpoint.as_str());
    push_opt_reference(&mut out, &s.email.postmark.server_token);
    push_reference(&mut out, s.email.postmark.endpoint.as_str());
    push_reference(&mut out, s.email.postmark.message_stream.as_str());
    push_opt_reference(&mut out, &s.mailjet.api_key);
    push_opt_reference(&mut out, &s.mailjet.api_secret);
    push_reference(&mut out, s.mailjet.from_email.as_str());
    push_reference(&mut out, s.mailjet.from_name.as_str());
    push_reference(&mut out, s.mailjet.endpoint.as_str());
    assert(texts(out@) =~= env_refs(*s));
    out
}

/// Replaces each `${NAME}` setting read from the configuration file by the
/// value `values` lists for `NAME`: a credential or other optional setting
/// becomes that value, or `None` when the variable is unset; a text setting
/// becomes the value, or empty text. Settings without a reference, and the
/// fields that are never substituted, stay as they are.
pub fn substitute_env(s: &mut Settings, values: &Vec<(String, Option<String>)>)
    ensures
        opt_view(final(s).elasticsearch.username) == substituted_opt(opt_view(old(s).elasticsearch.username), values@),
        opt_view(final(s).elasticsearch.password) == substituted_opt(opt_view(old(s).elasticsearch.password), values@),
        opt_view(final(s).elasticsearch.api_key) == substituted_opt(opt_view(old(s).elasticsearch.api_key), values@),
        opt_view(final(s).kubernetes.kubeconfig) == substituted_opt(opt_view(old(s).kubernetes.kubeconfig), values@),
        opt_view(final(s).kubernetes.context) == substituted_opt(opt_view(old(s).kubernetes.context), values@),
        opt_view(final(s).kubernetes.service_account_token) == substituted_opt(opt_view(old(s).kubernetes.service_account_token), values@),
        opt_view(final(s).llm_api_key) == substituted_opt(opt_view(old(s).llm_api_key), values@),
        final(s).email.provider@ == substituted_text(old(s).email.provider@, values@),
        final(s).email.from_email@ == substituted_text(old(s).email.from_email@, values@),
        final(s).email.from_name@ == substituted_text(old(s).email.from_name@, values@),
        opt_view(final(s).email.mailjet.api_key) == substituted_opt(opt_view(old(s).email.mailjet.api_key), values@),
        opt_view(final(s).email.mailjet.api_secret) == substituted_opt(opt_view(old(s).email.mailjet.api_secret), values@),
        final(s).email.mailjet.endpoint@ == substituted_text(old(s).email.mailjet.endpoint@, values@),
        opt_view(final(s).email.postmark.server_token) == substituted_opt(opt_view(old(s).email.postmark.server_token), values@),
        final(s).email.postmark.endpoint@ == substituted_text(old(s).email.postmark.endpoint@, values@),
        final(s).email.postmark.message_stream@ == substituted_text(old(s).email.postmark.message_stream@, values@),
        opt_view(final(s).mailjet.api_key) == substituted_opt(opt_view(old(s).mailjet.api_key), values@),
        opt_view(final(s).mailjet.api_secret) == substituted_opt(opt_view(old(s).mailjet.api_secret), values@),
        final(s).mailjet.from_email@ == substituted_text(old(s).mailjet.from_email@, values@),
        final(s).mailjet.from_name@ == substituted_text(old(s).mailjet.from_name@, values@),
        final(s).mailjet.endpoint@ == substituted_text(old(s).mailjet.endpoint@, values@),
        final(s).mode == old(s).mode,
        final(s).llm_provider == old(s).llm_provider,
        final(s).llm_url == old(s).llm_url,
        final(s).enforcement == old(s).enforcement,
        final(s).elasticsearch.url == old(s).elasticsearch.url,
        final(s).elasticsearch.index_prefix == old(s).elasticsearch.index_prefix,
        final(s).elasticsearch.index_pattern == old(s).elasticsearch.index_pattern,
        final(s).elasticsearch.timeout_seconds == old(s).elasticsearch.timeout_seconds,
        final(s).elasticsearch.tls_insecure_skip_verify == old(s).elasticsearch.tls_insecure_skip_verify,
        final(s).kubernetes.namespace == old(s).kubernetes.namespace,
        final(s).kubernetes.timeout_seconds == old(s).kubernetes.timeout_seconds,
        final(s).email.sandbox_mode == old(s).email.sandbox_mode,
        final(s).mailjet.sandbox_mode == old(s).mailjet.sandbox_mode,
{
    s.elasticsearch.username = substituted_opt_value(&s.elasticsearch.username, values);
    s.elasticsearch.password = substituted_opt_value(&s.elasticsearch.password, values);
    s.elasticsearch.api_key = substituted_opt_value(&s.elasticsearch.api_key, values);
    s.kubernetes.kubeconfig = substituted_opt_value(&s.kubernetes.kubeconfig, values);
    s.kubernetes.context = substituted_opt_value(&s.kubernetes.context, values);
    s.kubernetes.service_account_token = substituted_opt_value(&s.kubernetes.service_account_token, values);
    s.llm_api_key = substituted_opt_value(&s.llm_api_key, values);
    s.email.provider = substituted_text_value(&s.email.provider, values);
    s.email.from_email = substituted_text_value(&s.email.from_email, values);
    s.email.from_name = substituted_text_value(&s.email.from_name, values);
    s.email.mailjet.api_key = substituted_opt_value(&s.email.mailjet.api_key, values);
    s.email.mailjet.api_secret = substituted_opt_value(&s.email.mailjet.api_secret, values);
    s.email.mailjet.endpoint = substituted_text_value(&s.email.mailjet.endpoint, values);
    s.email.postmark.server_token = substituted_opt_value(&s.email.postmark.server_token, values);
    s.email.postmark.endpoint = substituted_text_value(&s.email.postmark.endpoint, values);
    s.email.postmark.message_stream = substituted_text_value(&s.email.postmark.message_stream, values);
    s.mailjet.api_key = substituted_opt_value(&s.mailjet.api_key, values);
    s.mailjet.api_secret = substituted_opt_value(&s.mailjet.api_secret, values);
    s.mailjet.from_email = substituted_text_value(&s.mailjet.from_email, values);
    s.mailjet.from_name = substituted_text_value(&s.mailjet.from_name, values);
    s.mailjet.endpoint = substituted_text_value(&s.mailjet.endpoint, values);
}

} // verus!
