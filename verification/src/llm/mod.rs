//! Language-model provider selection.
pub mod provider;
