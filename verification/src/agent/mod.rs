//! Agent hooks: prompt-injection screening and audit lines.
pub mod hooks;
pub mod react;
