//! Enforcement of an approved incident's block: what is recorded and what
//! the operator is told.
use vstd::prelude::*;
use crate::text::{own, push_str};

verus! {

/// What became of the attempt to block an address.
#[derive(Debug, Clone)]
pub enum BlockAttempt {
    /// Enforcement is off: the approval is recorded only.
    Disabled,
    /// No cluster client is configured.
    NoClient,
    /// Blocked through the named edge route.
    Blocked(String),
    /// The cluster refused or failed, with the error's message.
    Failed(String),
}

/// The outcome reported for an approval, and the status the block action
/// is given.
#[derive(Debug, Clone)]
pub struct BlockOutcome {
    pub message: String,
    pub applied: bool,
    pub dry_run: bool,
    pub action_status: String,
}

/// The id of the block action of `ip`.
pub fn block_action_id(ip: &str) -> (r: String)
    ensures
        r@ == "action-block-"@ + ip@,
{
    let mut r = own("action-block-");
    push_str(&mut r, ip);
    r
}

/// Whether the block goes to the cluster: `None` when it does, else the
/// attempt as it stands (enforcement off wins over a missing client).
pub fn block_precheck(apply_to_cluster: bool, has_client: bool) -> (r: Option<BlockAttempt>)
    ensures
        !apply_to_cluster ==> r matches Some(BlockAttempt::Disabled),
        apply_to_cluster && !has_client ==> r matches Some(BlockAttempt::NoClient),
        apply_to_cluster && has_client ==> r is None,
{
    if !apply_to_cluster {
        Some(BlockAttempt::Disabled)
    } else if !has_client {
        Some(BlockAttempt::NoClient)
    } else {
        None
    }
}

/// The message and flags for an attempt to block `ip`.
pub open spec fn outcome_message(ip: Seq<char>, attempt: BlockAttempt) -> Seq<char> {
    match attempt {
        BlockAttempt::Disabled => "Block approved. Enforcement is disabled — no block applied to "@ + ip
            + " (dry-run)."@,
        BlockAttempt::NoClient => "Block approved, but no Kubernetes client is available — "@ + ip
            + " was not blocked."@,
        BlockAttempt::Blocked(route) => "Block approved and "@ + ip + " blocked via Traefik edge route '"@
            + route@ + "'."@,
        BlockAttempt::Failed(e) => "Block approved, but blocking "@ + ip + " failed: "@ + e@,
    }
}

/// The status the block action ends in.
pub open spec fn outcome_status(attempt: BlockAttempt) -> Seq<char> {
    match attempt {
        BlockAttempt::Disabled => "dry_run"@,
        BlockAttempt::Blocked(_) => "completed"@,
        _ => "failed"@,
    }
}

/// The outcome of an attempt to block `ip`: applied only when blocked, a
/// dry run only when enforcement is off.
pub fn block_outcome(ip: &str, attempt: &BlockAttempt) -> (r: BlockOutcome)
    ensures
        r.message@ == outcome_message(ip@, *attempt),
        r.applied == (attempt is Blocked),
        r.dry_run == (attempt is Disabled),
        r.action_status@ == outcome_status(*attempt),
{
    match attempt {
        BlockAttempt::Disabled => {
            let mut m = own("Block approved. Enforcement is disabled — no block applied to ");
            push_str(&mut m, ip);
            push_str(&mut m, " (dry-run).");
            BlockOutcome { message: m, applied: false, dry_run: true, action_status: own("dry_run") }
        },
        BlockAttempt::NoClient => {
            let mut m = own("Block approved, but no Kubernetes client is available — ");
            push_str(&mut m, ip);
            push_str(&mut m, " was not blocked.");
            BlockOutcome { message: m, applied: false, dry_run: false, action_status: own("failed") }
        },
        BlockAttempt::Blocked(route) => {
            let mut m = own("Block approved and ");
            push_str(&mut m, ip);
            push_str(&mut m, " blocked via Traefik edge route '");
            push_str(&mut m, route.as_str());
            push_str(&mut m, "'.");
            BlockOutcome { message: m, applied: true, dry_run: false, action_status: own("completed") }
        },
        BlockAttempt::Failed(e) => {
            let mut m = own("Block approved, but blocking ");
            push_str(&mut m, ip);
            push_str(&mut m, " failed: ");
            push_str(&mut m, e.as_str());
            BlockOutcome { message: m, applied: false, dry_run: false, action_status: own("failed") }
        },
    }
}

/// Whether an approval succeeded: a forced block only when applied, a plain
/// approval also as a dry run.
pub fn approval_succeeded(outcome: &BlockOutcome, forced: bool) -> (r: bool)
    ensures
        r == (outcome.applied || (!forced && outcome.dry_run)),
{
    outcome.applied || (!forced && outcome.dry_run)
}

} // verus!
