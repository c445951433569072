//! Bounded-duration discovery of servers advertised over a local-network
//! service-advertisement protocol.
//!
//! One call to [`session::discover`] opens a subscription for a service
//! type, drains asynchronously arriving resolution events under a
//! wall-clock deadline, normalizes each event into a canonical endpoint
//! record, and returns a deduplicated snapshot: the first-seen record of
//! each distinct fully-qualified service instance name, in order of first
//! appearance.

pub mod collector;
pub mod record;
pub mod session;
