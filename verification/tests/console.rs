use devops_agent::config::models::SchedulerConfig;
use devops_agent::db::queries::{ActionDb, IncidentDb};
use devops_agent::k8s::blocker::IpFamily;
use devops_agent::web::api::{cluster_only_block_entry, BlockListEntry};
use devops_agent::web::blocklist::{local_block_entry, merge_block_list, sort_entries_by_ip};
use devops_agent::web::enforce::{approval_succeeded, block_action_id, block_outcome, block_precheck, BlockAttempt};
use devops_agent::web::inspect::{build_ai_inspection_prompt, unavailable_message};

fn incident(id: &str, ip: &str, status: &str) -> IncidentDb {
    IncidentDb {
        id: id.to_string(),
        source_ip: ip.to_string(),
        detected_at: "2026-07-03T12:00:00Z".to_string(),
        status: status.to_string(),
        failure_count: 12,
        details: None,
        created_at: "2026-07-03T12:00:00Z".to_string(),
        updated_at: "2026-07-03T12:00:00Z".to_string(),
    }
}

fn action(status: &str) -> ActionDb {
    ActionDb {
        id: "action-block-x".to_string(),
        incident_id: "i".to_string(),
        action_type: "block_ip".to_string(),
        status: status.to_string(),
        created_at: "t0".to_string(),
        updated_at: "t1".to_string(),
    }
}

#[test]
fn enforcement_messages() {
    assert_eq!(block_action_id("1.2.3.4"), "action-block-1.2.3.4");
    assert!(matches!(block_precheck(false, true), Some(BlockAttempt::Disabled)));
    assert!(matches!(block_precheck(true, false), Some(BlockAttempt::NoClient)));
    assert!(block_precheck(true, true).is_none());
    let dry = block_outcome("1.2.3.4", &BlockAttempt::Disabled);
    assert_eq!(dry.message, "Block approved. Enforcement is disabled — no block applied to 1.2.3.4 (dry-run).");
    assert!(dry.dry_run && !dry.applied);
    assert_eq!(dry.action_status, "dry_run");
    assert!(approval_succeeded(&dry, false));
    assert!(!approval_succeeded(&dry, true));
    let done = block_outcome("1.2.3.4", &BlockAttempt::Blocked("edge-ip-deny".to_string()));
    assert_eq!(done.message, "Block approved and 1.2.3.4 blocked via Traefik edge route 'edge-ip-deny'.");
    assert_eq!(done.action_status, "completed");
    let none = block_outcome("1.2.3.4", &BlockAttempt::NoClient);
    assert_eq!(none.message, "Block approved, but no Kubernetes client is available — 1.2.3.4 was not blocked.");
    let failed = block_outcome("1.2.3.4", &BlockAttempt::Failed("forbidden".to_string()));
    assert_eq!(failed.message, "Block approved, but blocking 1.2.3.4 failed: forbidden");
    assert_eq!(failed.action_status, "failed");
}

#[test]
fn unavailable_agent_messages() {
    assert_eq!(
        unavailable_message("AI inspection", None),
        "AI inspection is unavailable because no LLM provider is configured"
    );
    assert_eq!(unavailable_message("Agent chat", Some("bad key")), "Agent chat is unavailable: bad key");
}

#[test]
fn inspection_prompt_lists_the_incident() {
    let prompt = build_ai_inspection_prompt(
        &incident("inc-1", "203.0.113.10", "detected"),
        "traefik-*",
        &SchedulerConfig::default(),
        &[],
        Some("timeout"),
        None,
    );
    assert!(prompt.starts_with("You are assisting a security operator"));
    assert!(prompt.contains("- source_ip: 203.0.113.10\n"));
    assert!(prompt.contains("- failure_count: 12\n"));
    assert!(prompt.contains("- index_pattern: traefik-*\n"));
    assert!(prompt.contains("No structured detection details were recorded.\n\nEvidence fetch warning: timeout\nRaw log sample:\n"));
}

#[test]
fn local_entries_follow_approval() {
    assert!(local_block_entry(&incident("a", "10.0.0.1", "detected"), None, Some(IpFamily::V4), None, None).is_none());
    let e = local_block_entry(
        &incident("a", "10.0.0.1", "detected"),
        None,
        Some(IpFamily::V4),
        Some(&action("completed")),
        Some(&action("completed")),
    )
    .unwrap();
    assert_eq!(e.cidr, "10.0.0.1/32");
    assert_eq!(e.source, "local_db");
    assert!(e.block_applied);
    assert_eq!(e.report_sent_at.as_deref(), Some("t1"));
    let approved = local_block_entry(&incident("b", "::1", "approved"), None, Some(IpFamily::V6), None, None).unwrap();
    assert_eq!(approved.cidr, "::1/128");
    assert!(!approved.block_applied);
}

fn local(ip: &str, id: &str) -> BlockListEntry {
    local_block_entry(&incident(id, ip, "approved"), None, Some(IpFamily::V4), None, None).unwrap()
}

#[test]
fn merge_keeps_address_order() {
    let sorted = sort_entries_by_ip(vec![local("10.0.0.2", "b"), local("10.0.0.1", "a"), local("10.0.0.2", "c")]);
    let ids: Vec<_> = sorted.iter().map(|e| e.incident_id.clone().unwrap()).collect();
    assert_eq!(ids, vec!["a", "b", "c"]);

    let merged = merge_block_list(
        vec![local("10.0.0.2", "b"), local("10.0.0.1", "a"), local("10.0.0.2", "c")],
        Some(vec!["10.0.0.9/32".to_string(), "10.0.0.2/32".to_string(), "10.0.0.2".to_string()]),
    );
    assert_eq!(merged.len(), 3);
    assert_eq!(merged[0].ip, "10.0.0.2");
    assert_eq!(merged[0].incident_id.as_deref(), Some("c"));
    assert_eq!(merged[0].cidr, "10.0.0.2/32");
    assert_eq!(merged[0].source, "cluster");
    assert_eq!(merged[1].ip, "10.0.0.2");
    assert!(merged[1].incident_id.is_none());
    assert_eq!(merged[2].ip, "10.0.0.9");
    assert!(merged.iter().all(|e| e.block_applied && e.cluster_blocked == Some(true)));
    let only = cluster_only_block_entry("10.0.0.9", "10.0.0.9/32");
    assert_eq!(merged[2].cidr, only.cidr);
}
