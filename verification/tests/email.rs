use devops_agent::config::models::{EmailConfig, MailjetEmailConfig, PostmarkEmailConfig};
use devops_agent::email::{format_sender, is_valid_email, AbuseReportEmail, EmailClient, EmailError};

fn test_report() -> AbuseReportEmail {
    AbuseReportEmail {
        recipients: vec![
            "abuse@example.net".to_string(),
            "ABUSE@example.net".to_string(),
            "bad-address".to_string(),
            "soc@example.org".to_string(),
        ],
        subject: "Abuse report".to_string(),
        text_body: "text".to_string(),
        html_body: "<p>text</p>".to_string(),
        custom_id: Some("incident-1".to_string()),
    }
}

fn test_config(provider: &str, sandbox_mode: bool) -> EmailConfig {
    EmailConfig {
        provider: provider.to_string(),
        from_email: "abuse@example.com".to_string(),
        from_name: "DevOps Agent Abuse Reports".to_string(),
        sandbox_mode,
        mailjet: MailjetEmailConfig {
            api_key: Some("key".to_string()),
            api_secret: Some("secret".to_string()),
            endpoint: "https://api.mailjet.com/v3.1/send".to_string(),
        },
        postmark: PostmarkEmailConfig {
            server_token: Some("server-token".to_string()),
            endpoint: "https://api.postmarkapp.com/email".to_string(),
            message_stream: "outbound".to_string(),
        },
    }
}

fn test_client(provider: &str, sandbox_mode: bool) -> EmailClient {
    EmailClient::new(test_config(provider, sandbox_mode), reqwest::Client::new())
}

#[test]
fn mailjet_builds_one_message_per_valid_recipient() {
    let payload = test_client("mailjet", true).build_mailjet_payload(&test_report()).unwrap();
    assert_eq!(payload.get("SandboxMode").and_then(|v| match v {
        devops_agent::json::JsonValue::Bool(b) => Some(*b),
        _ => None,
    }), Some(true));
    let messages = payload.get("Messages").and_then(|m| m.as_array()).unwrap();
    assert_eq!(messages.len(), 2);
    let to = |i: usize| messages[i].get("To").and_then(|t| t.at(0)).and_then(|t| t.get("Email")).and_then(|e| e.as_str());
    assert_eq!(to(0), Some("abuse@example.net"));
    assert_eq!(to(1), Some("soc@example.org"));
    assert_eq!(
        messages[0].get("From").and_then(|f| f.get("Email")).and_then(|e| e.as_str()),
        Some("abuse@example.com")
    );
    assert_eq!(messages[0].get("CustomID").and_then(|c| c.as_str()), Some("incident-1"));
}

#[test]
fn postmark_builds_single_email_payloads() {
    let payloads = test_client("postmark", false).build_postmark_payloads(&test_report()).unwrap();
    assert_eq!(payloads.len(), 2);
    assert_eq!(
        payloads[0].get("From").and_then(|f| f.as_str()),
        Some("DevOps Agent Abuse Reports <abuse@example.com>")
    );
    assert_eq!(payloads[0].get("To").and_then(|f| f.as_str()), Some("abuse@example.net"));
    assert_eq!(payloads[0].get("MessageStream").and_then(|f| f.as_str()), Some("outbound"));
    assert_eq!(
        payloads[0].get("Metadata").and_then(|m| m.get("incident_id")).and_then(|f| f.as_str()),
        Some("incident-1")
    );
    assert_eq!(payloads[1].get("To").and_then(|f| f.as_str()), Some("soc@example.org"));
}

#[test]
fn postmark_sandbox_uses_test_token_without_secret() {
    let mut config = test_config("postmark", true);
    config.postmark.server_token = None;
    let client = EmailClient::new(config, reqwest::Client::new());
    assert_eq!(client.postmark_token().unwrap(), "POSTMARK_API_TEST");
}

#[test]
fn rejects_payload_without_valid_recipients() {
    let report = AbuseReportEmail {
        recipients: vec!["not-email".to_string()],
        subject: "Abuse report".to_string(),
        text_body: "text".to_string(),
        html_body: "<p>text</p>".to_string(),
        custom_id: None,
    };
    assert!(matches!(test_client("mailjet", false).build_mailjet_payload(&report), Err(EmailError::NoRecipients)));
    assert!(matches!(test_client("postmark", false).build_postmark_payloads(&report), Err(EmailError::NoRecipients)));
}

#[test]
fn email_address_rules() {
    assert!(is_valid_email(" a@b.c "));
    assert!(!is_valid_email("@b.c"));
    assert!(!is_valid_email("a@bc"));
    assert!(!is_valid_email("a@.bc"));
    assert!(!is_valid_email("a@bc."));
    assert!(!is_valid_email("a b@c.d"));
    assert_eq!(format_sender("  Ops <Team>\n Desk ", "x@y.z"), "Ops Team Desk <x@y.z>");
    assert_eq!(format_sender("   ", "x@y.z"), "x@y.z");
}

#[test]
fn credentials_and_sender_checks() {
    let mut config = test_config("mailjet", false);
    config.mailjet.api_secret = Some("  ".to_string());
    let client = EmailClient::new(config, reqwest::Client::new());
    assert!(matches!(client.mailjet_credentials(), Err(EmailError::MissingCredentials(_))));
    let mut config = test_config("mailjet", false);
    config.from_email = "nobody".to_string();
    let client = EmailClient::new(config, reqwest::Client::new());
    assert!(matches!(client.build_mailjet_payload(&test_report()), Err(EmailError::InvalidSender(s)) if s == "nobody"));
    assert_eq!(test_client(" Mailjet ", false).provider_name(), "mailjet");
    assert_eq!(test_client("x", false).mailjet_credentials().unwrap(), ("key".to_string(), "secret".to_string()));
}
