//! Stored records of incidents, actions and allowlisted addresses.
pub mod queries;
