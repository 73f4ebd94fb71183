//! Auditing a batch of URLs: one GET per URL, at most a configured number in
//! flight, each outcome normalised into a record, and exactly one record per
//! URL once every request has settled.
//!
//! The network exchange itself is performed by the caller; this crate holds
//! the decisions around it: which URL goes next for fetching,
//! how an outcome becomes a record, and when the run is complete.
pub mod content_length;
pub mod dispatch;
pub mod input;
pub mod record;
pub mod worker;
