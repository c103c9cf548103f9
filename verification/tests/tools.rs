use devops_agent::k8s::inspector::{
    DenyIpConfig, IngressRouteConfig, IngressRouteDiscovery, IngressRoutePathConfig, InspectorResults, MiddlewareConfig,
    MiddlewareDiscovery, PathRegexpConfig,
};
use devops_agent::tools::apply_block::{apply_block_result, block_tool_action, tool_namespace, BlockToolAction};
use devops_agent::tools::check_allowlist::allowlist_check_result;
use devops_agent::tools::inspect_patterns::inspection_result;
use devops_agent::tools::tool_failure;

#[test]
fn apply_block_actions() {
    assert_eq!(block_tool_action("block").unwrap(), BlockToolAction::Block);
    assert_eq!(block_tool_action("unblock").unwrap(), BlockToolAction::Unblock);
    let refused = block_tool_action("ban").unwrap_err();
    assert_eq!(
        refused.to_json_text(),
        r#"{"error":"Invalid action: ban. Must be 'block' or 'unblock'","success":false}"#
    );
    assert_eq!(tool_namespace(&None, "default"), "default");
    assert_eq!(tool_namespace(&Some("edge".to_string()), "default"), "edge");
}

#[test]
fn apply_block_results() {
    let ok = apply_block_result("1.2.3.4", BlockToolAction::Block, Ok("block-1-2-3-4".to_string()));
    assert_eq!(
        ok.to_json_text(),
        r#"{"action":"block","ip":"1.2.3.4","middleware_name":"block-1-2-3-4","success":true}"#
    );
    let un = apply_block_result("1.2.3.4", BlockToolAction::Unblock, Ok(String::new()));
    assert_eq!(un.to_json_text(), r#"{"action":"unblock","ip":"1.2.3.4","success":true}"#);
    let err = apply_block_result("1.2.3.4", BlockToolAction::Block, Err("denied".to_string()));
    assert_eq!(err.to_json_text(), r#"{"action":"block","error":"denied","ip":"1.2.3.4","success":false}"#);
}

#[test]
fn allowlist_and_failure_results() {
    assert_eq!(
        allowlist_check_result("10.0.0.1", Ok(true)).to_json_text(),
        r#"{"ip":"10.0.0.1","is_allowlisted":true,"success":true}"#
    );
    assert_eq!(
        allowlist_check_result("10.0.0.1", Err("db down".to_string())).to_json_text(),
        r#"{"error":"db down","ip":"10.0.0.1","success":false}"#
    );
    assert_eq!(tool_failure("boom").to_json_text(), r#"{"error":"boom","success":false}"#);
}

#[test]
fn inspection_report() {
    let results = InspectorResults {
        middlewares: vec![MiddlewareDiscovery {
            name: "deny".to_string(),
            namespace: "traefik".to_string(),
            config: MiddlewareConfig {
                ip_allowlist: None,
                denyip: Some(DenyIpConfig { source_range: vec!["1.2.3.4/32".to_string()] }),
            },
        }],
        ingress_routes: vec![IngressRouteDiscovery {
            name: "web".to_string(),
            namespace: "default".to_string(),
            config: IngressRouteConfig {
                name: "web".to_string(),
                namespace: "default".to_string(),
                entry_points: vec!["websecure".to_string()],
                routes: vec![IngressRoutePathConfig {
                    path: "/api".to_string(),
                    path_type: "PathPrefix".to_string(),
                    match_rule: Some("PathPrefix(`/api`)".to_string()),
                    path_regexp: Some(PathRegexpConfig { name: "r".to_string(), pattern: "^/a".to_string() }),
                }],
            },
        }],
        api_group_used: Some("traefik.io/v1alpha1".to_string()),
    };
    assert_eq!(
        inspection_result(&results).to_json_text(),
        concat_parts(&[
            r#"{"api_group_used":"traefik.io/v1alpha1","ingress_routes":[{"entry_points":["websecure"],"name":"web","namespace":"default","#,
            r#""routes":[{"match_rule":"PathPrefix(`/api`)","path":"/api","path_regexp":{"name":"r","pattern":"^/a"},"path_type":"PathPrefix"}]}],"#,
            r#""middlewares":[{"denyip":{"source_range":["1.2.3.4/32"]},"ip_allowlist":null,"name":"deny","namespace":"traefik"}],"success":true}"#,
        ])
    );
}

fn concat_parts(parts: &[&str]) -> String {
    parts.join("")
}
