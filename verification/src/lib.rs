//! Verified core of the DevOps network monitoring agent: query validation,
//! Traefik edge-block planning, RDAP parsing, abuse-report assembly and the
//! text renderings shown to operators.

pub mod agent;
pub mod config;
pub mod db;
pub mod elasticsearch;
pub mod email;
pub mod json;
pub mod k8s;
pub mod llm;
pub mod models;
pub mod scheduler;
pub mod text;
pub mod tools;
pub mod web;
pub mod whois;
