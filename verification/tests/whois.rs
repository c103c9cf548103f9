use devops_agent::json::{JsonNumber, JsonValue};
use devops_agent::whois::{dedup, likely_ripe_ipv4, rdap_urls, WhoisClient};

fn to_json(v: &serde_json::Value) -> JsonValue {
    match v {
        serde_json::Value::Null => JsonValue::Null,
        serde_json::Value::Bool(b) => JsonValue::Bool(*b),
        serde_json::Value::Number(n) => {
            if let Some(u) = n.as_u64() {
                JsonValue::Number(JsonNumber::PosInt(u))
            } else if let Some(i) = n.as_i64() {
                JsonValue::Number(JsonNumber::NegInt(i))
            } else {
                JsonValue::Number(JsonNumber::Float(n.to_string()))
            }
        }
        serde_json::Value::String(s) => JsonValue::String(s.clone()),
        serde_json::Value::Array(a) => JsonValue::Array(a.iter().map(to_json).collect()),
        serde_json::Value::Object(m) => JsonValue::Object(m.iter().map(|(k, v)| (k.clone(), to_json(v))).collect()),
    }
}

fn parse(text: &str) -> JsonValue {
    to_json(&serde_json::from_str(text).unwrap())
}

#[test]
fn parses_abuse_contacts_from_rdap_entities() {
    let body = parse(r#"{
        "name": "EXAMPLE-NET",
        "handle": "NET-192-0-2-0-1",
        "country": "US",
        "startAddress": "192.0.2.0",
        "endAddress": "192.0.2.255",
        "links": [ { "rel": "self", "href": "https://rdap.example/ip/192.0.2.1" } ],
        "entities": [
            { "roles": ["registrant"], "vcardArray": ["vcard", [ ["fn", {}, "text", "Example Networks LLC"] ]] },
            { "roles": ["abuse"], "vcardArray": ["vcard", [
                ["fn", {}, "text", "Example Abuse Desk"],
                ["email", { "type": "abuse" }, "text", "abuse@example.net"]
            ]] }
        ]
    }"#);

    let info = WhoisClient::parse_rdap_response("192.0.2.1", &body);

    assert_eq!(info.network_name.as_deref(), Some("EXAMPLE-NET"));
    assert_eq!(info.organization.as_deref(), Some("Example Networks LLC"));
    assert_eq!(info.abuse_contacts.len(), 1);
    assert_eq!(info.abuse_contacts[0].emails, vec!["abuse@example.net".to_string()]);
    assert_eq!(info.registry_url.as_deref(), Some("https://rdap.example/ip/192.0.2.1"));
    assert_eq!(info.abuse_contacts[0].role.as_deref(), Some("abuse"));
    assert_eq!(info.abuse_contacts[0].name.as_deref(), Some("Example Abuse Desk"));
}

#[test]
fn parses_nested_abuse_contacts() {
    let body = parse(r#"{
        "entities": [{
            "roles": ["registrant"],
            "entities": [{
                "roles": ["abuse"],
                "vcardArray": ["vcard", [
                    ["fn", {}, "text", "Nested Abuse Desk"],
                    ["email", { "type": ["internet", "abuse"] }, "text", "abuse@example.org"]
                ]]
            }]
        }]
    }"#);

    let info = WhoisClient::parse_rdap_response("203.0.113.4", &body);

    assert_eq!(info.abuse_contacts.len(), 1);
    assert_eq!(info.abuse_contacts[0].emails, vec!["abuse@example.org".to_string()]);
}

#[test]
fn prefers_non_maintainer_registrant_as_organization() {
    let body = parse(r#"{
        "entities": [
            { "roles": ["registrant"], "vcardArray": ["vcard", [ ["fn", {}, "text", "example-mnt"] ]] },
            { "roles": ["registrant"], "vcardArray": ["vcard", [ ["fn", {}, "text", "Example Networks LLC"] ]] }
        ]
    }"#);

    let info = WhoisClient::parse_rdap_response("203.0.113.5", &body);

    assert_eq!(info.organization.as_deref(), Some("Example Networks LLC"));
}

#[test]
fn contacts_are_merged_by_addresses_and_sorted() {
    let body = parse(r#"{
        "entities": [
            { "roles": ["abuse"], "vcardArray": ["vcard", [ ["fn", {}, "text", "Z Desk"], ["email", {}, "text", "z@x.org"] ]] },
            { "roles": ["abuse"], "vcardArray": ["vcard", [ ["fn", {}, "text", "A Desk"], ["email", {}, "text", "a@x.org"], ["email", {}, "text", "A@X.org"] ]] },
            { "roles": ["ABUSE", "tech"], "vcardArray": ["vcard", [ ["fn", {}, "text", "Second Z"], ["email", {}, "text", "z@x.org"] ]] },
            { "roles": ["tech"], "vcardArray": ["vcard", [ ["email", {}, "text", "t@x.org"] ]] }
        ]
    }"#);
    let info = WhoisClient::parse_rdap_response("198.51.100.7", &body);
    assert_eq!(info.abuse_contacts.len(), 2);
    assert_eq!(info.abuse_contacts[0].emails, vec!["a@x.org".to_string()]);
    assert_eq!(info.abuse_contacts[1].name.as_deref(), Some("Z Desk"));
    assert_eq!(info.organization.as_deref(), Some("Z Desk"));
}

#[test]
fn registries_and_dedup() {
    assert!(likely_ripe_ipv4(85));
    assert!(!likely_ripe_ipv4(8));
    let urls = rdap_urls("85.1.2.3", Some(85));
    assert_eq!(urls[0], "https://rdap.db.ripe.net/ip/85.1.2.3");
    assert_eq!(urls.len(), 6);
    let urls = rdap_urls("2001:db8::1", None);
    assert_eq!(urls[0], "https://rdap.arin.net/registry/ip/2001:db8::1");
    assert_eq!(urls[5], "https://rdap.org/ip/2001:db8::1");
    assert_eq!(
        dedup(vec!["A@x".to_string(), "a@x".to_string(), "b@x".to_string()]),
        vec!["A@x".to_string(), "b@x".to_string()]
    );
}
