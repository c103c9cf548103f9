//! The records the database holds.
use vstd::prelude::*;
use crate::text::{push_str, str_eq};

verus! {

/// An allowlisted address.
#[derive(Debug, Clone)]
pub struct AllowlistIp {
    pub id: i64,
    pub ip: String,
    pub description: Option<String>,
    pub created_at: String,
    pub updated_at: String,
}

/// A detected incident; `details` is its metrics as JSON text.
#[derive(Debug, Clone)]
pub struct IncidentDb {
    pub id: String,
    pub source_ip: String,
    pub detected_at: String,
    pub status: String,
    pub failure_count: i64,
    pub details: Option<String>,
    pub created_at: String,
    pub updated_at: String,
}

/// An action taken on an incident.
#[derive(Debug, Clone)]
pub struct ActionDb {
    pub id: String,
    pub incident_id: String,
    pub action_type: String,
    pub status: String,
    pub created_at: String,
    pub updated_at: String,
}

/// The outcome of claiming an action.
#[derive(Debug, Clone)]
pub enum ActionClaimResult {
    Claimed(ActionDb),
    AlreadyCompleted(ActionDb),
    AlreadyInProgress(ActionDb),
}


/// How a claim on an action ended: claimed when the upsert took it,
/// otherwise already completed or still in progress by its stored status.
pub fn classify_claim(claimed: bool, action: ActionDb) -> (r: ActionClaimResult)
    ensures
        claimed ==> r == ActionClaimResult::Claimed(action),
        !claimed && action.status@ == "completed"@ ==> r == ActionClaimResult::AlreadyCompleted(action),
        !claimed && action.status@ != "completed"@ ==> r == ActionClaimResult::AlreadyInProgress(action),
{
    if claimed {
        ActionClaimResult::Claimed(action)
    } else if str_eq(action.status.as_str(), "completed") {
        ActionClaimResult::AlreadyCompleted(action)
    } else {
        ActionClaimResult::AlreadyInProgress(action)
    }
}

/// `n` SQL placeholders separated by commas.
pub open spec fn placeholders_text(n: nat) -> Seq<char>
    decreases n,
{
    if n == 0 {
        seq![]
    } else if n == 1 {
        seq!['?']
    } else {
        placeholders_text((n - 1) as nat) + ", ?"@
    }
}

/// The placeholder list of an SQL `IN (...)` with `n` values.
pub fn sql_placeholders(n: usize) -> (r: String)
    ensures
        r@ == placeholders_text(n as nat),
{
    let mut r = String::new();
    let mut i: usize = 0;
    while i < n
        invariant
            i <= n,
            r@ == placeholders_text(i as nat),
        decreases n - i,
    {
        if i == 0 {
            push_str(&mut r, "?");
            proof {
                reveal_strlit("?");
            }
        } else {
            push_str(&mut r, ", ?");
        }
        i = i + 1;
    }
    r
}

} // verus!
