//! Connectivity supervision and calendar ingestion for a municipal
//! waste-collection pickup calendar.
//!
//! The crate holds the deterministic core of a small network-connected
//! appliance: a codec for 8-digit calendar dates, a line-oriented parser
//! that turns a fetched calendar document into typed pickup events, the
//! decision logic of the wireless link supervisor and of the address
//! acquisition wait, and the bounded-buffer handling of the one-shot
//! HTTP fetch. All I/O stays outside; every function here is verified.

pub mod acquire;
pub mod calendar;
pub mod date;
pub mod fetch;
pub mod link;
pub mod pipeline;
