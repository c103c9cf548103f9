//! The records exchanged with operators and the agent.
use vstd::prelude::*;

verus! {

/// An action taken, or proposed, on an incident.
#[derive(Debug, Clone)]
pub struct Action {
    pub id: String,
    pub incident_id: String,
    pub action_type: String,
    pub status: String,
}

/// A detected incident.
#[derive(Debug, Clone)]
pub struct Incident {
    pub id: String,
    pub source_ip: String,
    pub detected_at: String,
    pub status: String,
}

/// A recommendation for an incident.
#[derive(Debug, Clone)]
pub struct Recommendation {
    pub incident_id: String,
    pub recommendation: String,
    pub action_type: String,
}

} // verus!
