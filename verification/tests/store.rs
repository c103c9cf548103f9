use devops_agent::db::queries::{classify_claim, sql_placeholders, ActionClaimResult, ActionDb};

fn action(status: &str) -> ActionDb {
    ActionDb {
        id: "a".to_string(),
        incident_id: "i".to_string(),
        action_type: "report_abuse".to_string(),
        status: status.to_string(),
        created_at: "t0".to_string(),
        updated_at: "t1".to_string(),
    }
}

#[test]
fn claims_are_classified_by_status() {
    assert!(matches!(classify_claim(true, action("completed")), ActionClaimResult::Claimed(_)));
    assert!(matches!(classify_claim(false, action("completed")), ActionClaimResult::AlreadyCompleted(_)));
    assert!(matches!(classify_claim(false, action("pending")), ActionClaimResult::AlreadyInProgress(_)));
}

#[test]
fn placeholder_lists() {
    assert_eq!(sql_placeholders(0), "");
    assert_eq!(sql_placeholders(1), "?");
    assert_eq!(sql_placeholders(3), "?, ?, ?");
}
