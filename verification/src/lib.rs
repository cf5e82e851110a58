//! A verified internet-outage ledger: a state machine that detects
//! connectivity transitions, durable storage of closed outage intervals,
//! and aggregation / cost reporting over the recorded history.

pub mod aggregate;
pub mod calendar;
pub mod cost;
pub mod csv;
pub mod ledger;
pub mod monitor;
pub mod monthly;
pub mod record;
pub mod rfc3339;
pub mod timestamp;
