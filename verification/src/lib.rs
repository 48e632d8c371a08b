//! Notification construction for a node-monitoring service.
//!
//! The crate validates recipient email addresses, decodes a hex-encoded
//! secret into HMAC-SHA256 key material, splits rendered template text into
//! structured message fields, and builds action links with URL-encoded query
//! parameters.

pub mod address;
pub mod compose;
pub mod hexcode;
pub mod link;
pub mod search;
pub mod signing;
pub mod strconv;
