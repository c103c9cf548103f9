use devops_agent::config::models::{ElasticsearchConfig, EmailConfig, MailjetConfig, SchedulerConfig as ConfigModel};
use devops_agent::config::models::{EnforcementConfig, KubernetesConfig, Mode};
use devops_agent::config::{
    apply_cli_overrides, apply_env_overrides, apply_legacy_mailjet_config, env_var_reference, parse_bool_env, CliArgs,
    EnvOverrides, Settings, substitute_env,
};

#[test]
fn test_scheduler_config_default() {
    let config = ConfigModel::default();
    assert_eq!(config.interval_seconds, 300);
}

#[test]
fn test_scheduler_config_custom_interval() {
    let config = ConfigModel {
        interval_seconds: 60,
        lookback_minutes: 60,
        failure_threshold: 10,
        time_field: "StartLocal".to_string(),
        status_field: "DownstreamStatus".to_string(),
        client_host_field: "ClientHost.keyword".to_string(),
        request_method_field: "RequestMethod.keyword".to_string(),
        request_path_field: "RequestPath.keyword".to_string(),
        request_host_field: "RequestHost.keyword".to_string(),
    };
    assert_eq!(config.interval_seconds, 60);
}

#[test]
fn bool_env_values() {
    assert_eq!(parse_bool_env("X", " Yes "), Ok(true));
    assert_eq!(parse_bool_env("X", "0"), Ok(false));
    assert_eq!(parse_bool_env("X", "OFF"), Ok(false));
    assert_eq!(
        parse_bool_env("MAILJET_SANDBOX_MODE", "maybe"),
        Err("MAILJET_SANDBOX_MODE must be one of true/false, yes/no, on/off, or 1/0".to_string())
    );
}

#[test]
fn env_references() {
    assert_eq!(env_var_reference("${ES_PASSWORD}"), Some("ES_PASSWORD".to_string()));
    assert_eq!(env_var_reference("plain"), None);
    assert_eq!(env_var_reference("${}"), Some(String::new()));
    assert_eq!(env_var_reference("${"), None);
}

#[test]
fn index_pattern_and_provider() {
    let mut es = ElasticsearchConfig::default();
    assert_eq!(es.effective_index_pattern(), "traefik-*");
    es.index_pattern = Some("  ".to_string());
    assert_eq!(es.effective_index_pattern(), "traefik-*");
    es.index_pattern = Some("logs-*".to_string());
    assert_eq!(es.effective_index_pattern(), "logs-*");
    let mut email = EmailConfig::default();
    email.provider = "  PostMark ".to_string();
    assert_eq!(email.normalized_provider(), "postmark");
}

#[test]
fn legacy_mailjet_settings_take_over_when_credentialed() {
    let mut email = EmailConfig::default();
    email.provider = "postmark".to_string();
    let mut legacy = MailjetConfig::default();
    apply_legacy_mailjet_config(&mut email, &legacy);
    assert_eq!(email.provider, "postmark");
    legacy.api_key = Some("k".to_string());
    legacy.from_name = "Ops".to_string();
    legacy.sandbox_mode = true;
    apply_legacy_mailjet_config(&mut email, &legacy);
    assert_eq!(email.provider, "mailjet");
    assert_eq!(email.from_name, "Ops");
    assert!(email.sandbox_mode);
    assert_eq!(email.mailjet.api_key.as_deref(), Some("k"));
}

fn sample_settings() -> Settings {
    Settings {
        mode: Mode::Analyze,
        llm_provider: "openai".to_string(),
        llm_url: "https://api.openai.com/v1".to_string(),
        llm_api_key: None,
        enforcement: EnforcementConfig::default(),
        elasticsearch: ElasticsearchConfig::default(),
        kubernetes: KubernetesConfig::default(),
        email: EmailConfig::default(),
        mailjet: MailjetConfig::default(),
    }
}

fn no_env() -> EnvOverrides {
    EnvOverrides {
        es_username: None,
        es_password: None,
        es_api_key: None,
        k8s_kubeconfig: None,
        k8s_context: None,
        k8s_service_account_token: None,
        llm_api_key: None,
        mailjet_api_key: None,
        mailjet_api_secret: None,
        email_provider: None,
        mailjet_from_email: None,
        mailjet_from_name: None,
        mailjet_endpoint: None,
        mailjet_sandbox_mode: None,
        email_from_email: None,
        email_from_name: None,
        email_sandbox_mode: None,
        postmark_server_token: None,
        postmark_endpoint: None,
        postmark_message_stream: None,
    }
}

#[test]
fn cli_overrides_apply_in_order() {
    let mut s = sample_settings();
    let cli = CliArgs {
        config: None,
        mode: Some(Mode::Analyze),
        serve_spa: true,
        llm_url: Some("http://localhost:11434".to_string()),
        llm_provider: Some("ollama".to_string()),
        llm_api_key: None,
        enforce: true,
        dry_run: true,
    };
    apply_cli_overrides(&mut s, &cli);
    assert_eq!(s.mode, Mode::ServeSpa);
    assert_eq!(s.llm_url, "http://localhost:11434");
    assert_eq!(s.llm_provider, "ollama");
    assert!(s.llm_api_key.is_none());
    assert!(!s.enforcement.enabled);
}

#[test]
fn env_overrides_follow_the_active_provider() {
    let mut s = sample_settings();
    let mut env = no_env();
    env.email_provider = Some("postmark".to_string());
    env.mailjet_from_email = Some("mj@example.com".to_string());
    env.mailjet_sandbox_mode = Some("yes".to_string());
    env.es_username = Some("elastic".to_string());
    assert_eq!(apply_env_overrides(&mut s, &env), Ok(()));
    assert_eq!(s.email.provider, "postmark");
    assert_eq!(s.email.from_email, "abuse@example.com");
    assert_eq!(s.mailjet.from_email, "mj@example.com");
    assert!(!s.email.sandbox_mode);
    assert!(s.mailjet.sandbox_mode);
    assert_eq!(s.elasticsearch.username.as_deref(), Some("elastic"));

    let mut s = sample_settings();
    let mut env = no_env();
    env.mailjet_from_email = Some("mj@example.com".to_string());
    env.email_from_name = Some("Ops".to_string());
    assert_eq!(apply_env_overrides(&mut s, &env), Ok(()));
    assert_eq!(s.email.from_email, "mj@example.com");
    assert_eq!(s.email.from_name, "Ops");
}

#[test]
fn env_overrides_refuse_a_bad_sandbox_flag() {
    let mut s = sample_settings();
    let mut env = no_env();
    env.email_sandbox_mode = Some("maybe".to_string());
    assert_eq!(
        apply_env_overrides(&mut s, &env),
        Err("EMAIL_SANDBOX_MODE must be one of true/false, yes/no, on/off, or 1/0".to_string())
    );
}

#[test]
fn substitutes_env_references_in_settings() {
    let mut s = sample_settings();
    s.elasticsearch.username = Some("${ES_USER}".to_string());
    s.elasticsearch.password = Some("${ES_PASS}".to_string());
    s.email.from_email = "${FROM}".to_string();
    s.mailjet.endpoint = "${MISSING}".to_string();
    s.llm_api_key = Some("literal".to_string());
    assert_eq!(devops_agent::config::env_references(&s), vec!["ES_USER", "ES_PASS", "FROM", "MISSING"]);
    let values = vec![
        ("ES_USER".to_string(), Some("elastic".to_string())),
        ("ES_PASS".to_string(), None),
        ("FROM".to_string(), Some("abuse@example.org".to_string())),
    ];
    substitute_env(&mut s, &values);
    assert_eq!(s.elasticsearch.username.as_deref(), Some("elastic"));
    assert_eq!(s.elasticsearch.password, None);
    assert_eq!(s.email.from_email, "abuse@example.org");
    assert_eq!(s.mailjet.endpoint, "");
    assert_eq!(s.llm_api_key.as_deref(), Some("literal"));
    assert_eq!(s.elasticsearch.url, "http://localhost:9200");
}

#[test]
fn normalizing_the_provider_twice_changes_nothing() {
    let mut email = EmailConfig::default();
    email.provider = "  PostMark \t".to_string();
    let once = email.normalized_provider();
    assert_eq!(once, "postmark");
    email.provider = once.clone();
    assert_eq!(email.normalized_provider(), once);
}
