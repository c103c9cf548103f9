//! The operator console's server-side logic: block-list exports, abuse
//! reports and recommendations.
pub mod api;
pub mod evidence;
pub mod report;
pub mod enforce;
pub mod inspect;
pub mod blocklist;
