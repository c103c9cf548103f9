use devops_agent::json::{JsonNumber, JsonValue};
use devops_agent::k8s::blocker::{
    extract_client_ip_match_values, extract_quoted_match_args, edge_blocked_cidrs, is_kube_conflict,
    routes_block_rule, BlockerError, DenyIpBlockConfig, IpDenyListConfig, IpFamily, KubeFailure,
    MiddlewareBlockConfig, TraefikBlocker, TraefikMiddlewareApiGroup,
};

fn s(v: &str) -> JsonValue {
    JsonValue::String(v.to_string())
}

fn obj(entries: Vec<(&str, JsonValue)>) -> JsonValue {
    JsonValue::Object(entries.into_iter().map(|(k, v)| (k.to_string(), v)).collect())
}

fn route_data(routes: Vec<JsonValue>) -> JsonValue {
    obj(vec![("spec", obj(vec![("entryPoints", JsonValue::Array(vec![s("web")])), ("routes", JsonValue::Array(routes))]))])
}

#[test]
fn test_blocker_error_display() {
    let rbac_err = BlockerError::RbacPermissionDenied("no permissions to create middlewares".to_string());
    assert!(rbac_err.to_string().contains("RBAC permission denied"));
    assert!(rbac_err.to_string().contains("no permissions to create middlewares"));

    let conflict_err = BlockerError::ResourceConflict("middleware already exists".to_string());
    assert!(conflict_err.to_string().contains("Resource conflict"));
    assert!(conflict_err.to_string().contains("middleware already exists"));

    let not_found_err = BlockerError::CrdNotFound("middlewares.traefik.io".to_string());
    assert!(not_found_err.to_string().contains("CRD not found"));
    assert!(not_found_err.to_string().contains("middlewares.traefik.io"));

    let api_deprecated_err = BlockerError::ApiVersionDeprecated("v1alpha1 deprecated".to_string());
    assert!(api_deprecated_err.to_string().contains("API version deprecated or not available"));

    let generic_err = BlockerError::Generic("generic error".to_string());
    assert!(generic_err.to_string().contains("Blocker error: generic error"));
}

#[test]
fn test_traefik_middleware_api_group_names() {
    let traefik_io = TraefikMiddlewareApiGroup::TraefikIoV1Alpha1;
    assert_eq!(traefik_io.group(), "traefik.io");
    assert_eq!(traefik_io.version(), "v1alpha1");
    assert_eq!(traefik_io.crd_name(), "middlewares.traefik.io");

    let containous = TraefikMiddlewareApiGroup::TraefikContainousV1Alpha1;
    assert_eq!(containous.group(), "traefik.containo.us");
    assert_eq!(containous.version(), "v1alpha1");
    assert_eq!(containous.crd_name(), "middlewares.traefik.containo.us");
}

#[test]
fn test_extract_client_ip_match_values() {
    let values = extract_client_ip_match_values(
        "Host(`example.com`) || ClientIP(`203.0.113.10/32`) || ClientIP(\"2001:db8::1/128\")",
    );
    assert_eq!(values, vec!["203.0.113.10/32", "2001:db8::1/128"]);
}

#[test]
fn test_ip_deny_list_config() {
    let config = IpDenyListConfig { ips: vec!["192.168.1.100".to_string(), "10.0.0.50".to_string()] };
    assert_eq!(config.ips.len(), 2);
    assert_eq!(config.ips[0], "192.168.1.100");
    assert_eq!(config.ips[1], "10.0.0.50");
}

#[test]
fn test_deny_ip_block_config() {
    let ip_deny_list = IpDenyListConfig { ips: vec!["192.168.1.100".to_string()] };
    let config = DenyIpBlockConfig { ip_deny_list: Some(ip_deny_list) };
    assert!(config.ip_deny_list.is_some());
    assert_eq!(config.ip_deny_list.unwrap().ips.len(), 1);
}

#[test]
fn test_middleware_block_config_defaults() {
    let config = MiddlewareBlockConfig::default();
    assert!(config.plugin.is_none());
}

#[test]
fn test_generate_middleware_name() {
    let name = TraefikBlocker::generate_middleware_name("block-192.168.1.100");
    assert!(name.starts_with("denyip-block-"));
    assert!(name.contains("192-168-1-100"));
}

#[test]
fn test_cidr_for_ip() {
    assert_eq!(TraefikBlocker::cidr_for_ip("192.168.1.100", Some(IpFamily::V4)).unwrap(), "192.168.1.100/32");
    assert_eq!(TraefikBlocker::cidr_for_ip("2001:db8::1", Some(IpFamily::V6)).unwrap(), "2001:db8::1/128");
    assert!(TraefikBlocker::cidr_for_ip("not-an-ip", None).is_err());
}

#[test]
fn test_blocker_error_from_kube_error_rbac() {
    let kube_err = KubeFailure::Api {
        code: 403,
        message: "middlewares.traefik.io is forbidden: User \"system:serviceaccount:default:devops-agent-sa\" cannot create resource \"middlewares\" in API group \"traefik.io\" in the namespace \"default\"".to_string(),
    };
    let blocker_err = BlockerError::from_kube_error(&kube_err, "create");
    assert!(matches!(blocker_err, BlockerError::RbacPermissionDenied(_)));
}

#[test]
fn test_blocker_error_from_kube_error_conflict() {
    let kube_err = KubeFailure::Api {
        code: 409,
        message: "Operation cannot be fulfilled on middlewares.traefik.io \"denyip-block-192-168-1-100\": the object has been modified; please apply your changes to the latest version and try again".to_string(),
    };
    let blocker_err = BlockerError::from_kube_error(&kube_err, "update");
    assert!(matches!(blocker_err, BlockerError::ResourceConflict(_)));
}

#[test]
fn test_blocker_error_from_kube_error_not_found() {
    let kube_err = KubeFailure::Api {
        code: 404,
        message: "customresourcedefinitions.apiextensions.k8s.io \"middlewares.traefik.io\" not found".to_string(),
    };
    let blocker_err = BlockerError::from_kube_error(&kube_err, "create");
    assert!(matches!(blocker_err, BlockerError::CrdNotFound(_)));
}

#[test]
fn test_blocker_error_from_kube_error_deprecated() {
    let kube_err = KubeFailure::Api {
        code: 410,
        message: "the server is currently unable to handle the request (get middlewares.traefik.io)".to_string(),
    };
    let blocker_err = BlockerError::from_kube_error(&kube_err, "create");
    assert!(matches!(blocker_err, BlockerError::ApiVersionDeprecated(_)));
}

#[test]
fn kube_error_messages() {
    let e = BlockerError::from_kube_error(&KubeFailure::Api { code: 404, message: "pods \"x\" not found".to_string() }, "get");
    assert_eq!(e, BlockerError::Generic("get failed: resource not found - pods \"x\" not found".to_string()));
    let e = BlockerError::from_kube_error(&KubeFailure::Api { code: 500, message: "boom".to_string() }, "patch");
    assert_eq!(e, BlockerError::Generic("patch failed with HTTP 500: boom".to_string()));
    let e = BlockerError::from_kube_error(&KubeFailure::Other("Connect(timeout)".to_string()), "list");
    assert_eq!(e.to_string(), "K8s API connection failed: list failed: Connect(timeout)");
    assert!(is_kube_conflict(&KubeFailure::Api { code: 409, message: String::new() }));
    assert!(!is_kube_conflict(&KubeFailure::Other("409".to_string())));
}

#[test]
fn quoted_args_are_trimmed_and_blank_ones_skipped() {
    assert_eq!(extract_quoted_match_args("` a `, \"\", 'b'"), vec!["a".to_string(), "b".to_string()]);
    assert!(extract_quoted_match_args("no quotes").is_empty());
    assert!(extract_client_ip_match_values("ClientIP(`1.2.3.4/32`").is_empty());
}

#[test]
fn edge_block_plan_creates_route_when_none() {
    let data = route_data(vec![]);
    let rule = TraefikBlocker::client_ip_rule("203.0.113.10/32");
    assert_eq!(rule, "ClientIP(`203.0.113.10/32`)");
    let patch = TraefikBlocker::plan_edge_block(&data, Some("42".to_string()), &rule, "edge-deny", 80).unwrap();
    let routes = patch.get("spec").and_then(|s| s.get("routes")).and_then(|r| r.as_array()).unwrap();
    assert_eq!(routes.len(), 1);
    assert_eq!(routes[0].get("match").and_then(|m| m.as_str()), Some("ClientIP(`203.0.113.10/32`)"));
    assert_eq!(routes[0].get("priority").and_then(|p| p.as_u64()), Some(100001));
    assert_eq!(
        patch.get("metadata").and_then(|m| m.get("resourceVersion")).and_then(|v| v.as_str()),
        Some("42")
    );
    let applied = route_data(routes.iter().map(|r| r.duplicate()).collect());
    assert!(routes_block_rule(&applied, &rule));
    assert!(TraefikBlocker::plan_edge_block(&applied, None, &rule, "edge-deny", 80).is_none());
}

#[test]
fn edge_block_plan_appends_to_existing_match() {
    let route = obj(vec![
        ("kind", s("Rule")),
        ("match", s("ClientIP(`198.51.100.1/32`)")),
        ("priority", JsonValue::Number(JsonNumber::PosInt(5))),
        ("services", JsonValue::Array(vec![])),
    ]);
    let data = route_data(vec![route]);
    let rule = "ClientIP(`203.0.113.10/32`)";
    assert!(!routes_block_rule(&data, rule));
    let patch = TraefikBlocker::plan_edge_block(&data, None, rule, "edge-deny", 80).unwrap();
    assert!(patch.get("metadata").is_none());
    let routes = patch.get("spec").and_then(|s| s.get("routes")).and_then(|r| r.as_array()).unwrap();
    assert_eq!(
        routes[0].get("match").and_then(|m| m.as_str()),
        Some("ClientIP(`198.51.100.1/32`) || ClientIP(`203.0.113.10/32`)")
    );
    assert_eq!(routes[0].get("priority").and_then(|p| p.as_u64()), Some(5));
    let applied = route_data(routes.iter().map(|r| r.duplicate()).collect());
    assert_eq!(edge_blocked_cidrs(&applied), vec!["198.51.100.1/32".to_string(), "203.0.113.10/32".to_string()]);
}

#[test]
fn blocked_cidrs_are_sorted_and_distinct() {
    let data = route_data(vec![
        obj(vec![("match", s("ClientIP(`b`, `a`)"))]),
        obj(vec![("match", s("ClientIP(`a`) || Host(`x`)"))]),
        obj(vec![("kind", s("Rule"))]),
    ]);
    assert_eq!(edge_blocked_cidrs(&data), vec!["a".to_string(), "b".to_string()]);
    assert!(edge_blocked_cidrs(&JsonValue::Null).is_empty());
}

#[test]
fn edge_routes_updatable_first_route() {
    let empty = JsonValue::Object(vec![]);
    assert!(devops_agent::k8s::blocker::edge_routes_updatable(&empty));
    let text_route = JsonValue::Object(vec![(
        "spec".to_string(),
        JsonValue::Object(vec![("routes".to_string(), JsonValue::Array(vec![JsonValue::String("x".to_string())]))]),
    )]);
    assert!(!devops_agent::k8s::blocker::edge_routes_updatable(&text_route));
}
