use devops_agent::json::JsonValue;
use devops_agent::k8s::inspector::{
    DenyIpConfig, IngressRouteApiGroup, IngressRoutePathConfig, IpAllowListConfig, K8sError,
    MiddlewareApiGroup, MiddlewareConfig, PathRegexpConfig,
};

#[test]
fn test_middleware_api_group_names() {
    let traefik_io = MiddlewareApiGroup::TraefikIoV1Alpha1;
    assert_eq!(traefik_io.group(), "traefik.io");
    assert_eq!(traefik_io.version(), "v1alpha1");
    assert_eq!(traefik_io.crd_name(), "middlewares.traefik.io");

    let containous = MiddlewareApiGroup::TraefikContainousV1Alpha1;
    assert_eq!(containous.group(), "traefik.containo.us");
    assert_eq!(containous.version(), "v1alpha1");
    assert_eq!(containous.crd_name(), "middlewares.traefik.containo.us");
}

#[test]
fn test_ingressroute_api_group_names() {
    let traefik_io = IngressRouteApiGroup::TraefikIoV1Alpha1;
    assert_eq!(traefik_io.group(), "traefik.io");
    assert_eq!(traefik_io.version(), "v1alpha1");
    assert_eq!(traefik_io.crd_name(), "ingressroutes.traefik.io");

    let containous = IngressRouteApiGroup::TraefikContainousV1Alpha1;
    assert_eq!(containous.group(), "traefik.containo.us");
    assert_eq!(containous.version(), "v1alpha1");
    assert_eq!(containous.crd_name(), "ingressroutes.traefik.containo.us");
}

#[test]
fn test_k8s_error_display() {
    let conn_err = K8sError::ConnectionFailed("connection refused".to_string());
    assert!(conn_err.to_string().contains("connection refused"));

    let crd_err = K8sError::CrdNotFound("middlewares.traefik.io".to_string());
    assert!(crd_err.to_string().contains("CRD not found: middlewares.traefik.io"));

    let deprec_err = K8sError::ApiVersionDeprecated("v1alpha1 deprecated".to_string());
    assert!(deprec_err.to_string().contains("API version deprecated or not available"));

    let generic_err = K8sError::Generic("generic error".to_string());
    assert!(generic_err.to_string().contains("K8s error: generic error"));
}

#[test]
fn test_middleware_config_defaults() {
    let config = MiddlewareConfig::default();
    assert!(config.ip_allowlist.is_none());
    assert!(config.denyip.is_none());
}

#[test]
fn test_path_regexp_config() {
    let regexp = PathRegexpConfig {
        name: "scannerDetection".to_string(),
        pattern: "/(wp-login|xmlrpc|\\.env|\\.git)".to_string(),
    };
    assert_eq!(regexp.name, "scannerDetection");
    assert_eq!(regexp.pattern, "/(wp-login|xmlrpc|\\.env|\\.git)");
}

#[test]
fn test_ip_allowlist_config() {
    let config = IpAllowListConfig { source_range: vec!["192.168.1.0/24".to_string(), "10.0.0.0/8".to_string()] };
    assert_eq!(config.source_range.len(), 2);
    assert_eq!(config.source_range[0], "192.168.1.0/24");
}

#[test]
fn test_denyip_config() {
    let config = DenyIpConfig { source_range: vec!["0.0.0.0/0".to_string()] };
    assert_eq!(config.source_range.len(), 1);
    assert_eq!(config.source_range[0], "0.0.0.0/0");
}

#[test]
fn test_extract_path_prefix() {
    let match_str = "PathPrefix(/api)";
    let route = IngressRoutePathConfig::from_match_rule(match_str);
    assert_eq!(route.path, "/api");
    assert_eq!(route.path_type, "PathPrefix");
}

#[test]
fn test_extract_path_regexp() {
    let match_str = "PathRegexp(scanner,/(wp-login|xmlrpc|\\.env|\\.git))";
    let route = IngressRoutePathConfig::from_match_rule(match_str);
    assert_eq!(route.path, "scanner,/(wp-login|xmlrpc|\\.env|\\.git)");
    assert_eq!(route.path_type, "PathRegexp");
    assert!(match_str.contains("PathRegexp"));
    assert!(route.path_regexp.is_some());
    let regexp = route.path_regexp.unwrap();
    assert_eq!(regexp.name, "scanner");
    assert_eq!(regexp.pattern, "/(wp-login|xmlrpc|\\.env|\\.git)");
}

#[test]
fn route_rules_of_other_shapes() {
    let plain = IngressRoutePathConfig::from_match_rule("Path(/health)");
    assert_eq!(plain.path, "/health");
    assert_eq!(plain.path_type, "Path");
    assert!(plain.path_regexp.is_none());
    let host = IngressRoutePathConfig::from_match_rule("Host(`a.example`)");
    assert_eq!(host.path, "");
    assert_eq!(host.path_type, "");
    assert_eq!(host.match_rule.as_deref(), Some("Host(`a.example`)"));
    let open = IngressRoutePathConfig::from_match_rule("PathPrefix(/api");
    assert_eq!(open.path, "");
    let no_comma = IngressRoutePathConfig::from_match_rule("PathRegexp(onlyname)");
    assert_eq!(no_comma.path, "onlyname");
    assert!(no_comma.path_regexp.is_none());
    let _ = JsonValue::Null;
}
