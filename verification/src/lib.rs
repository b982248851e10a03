//! Dynamic DNS reconciliation: keep one managed A record pointed at the
//! operator's current public IPv4 address.
//!
//! The crate holds the decision core of a single reconciliation pass: parsing
//! the discovered address, extracting the currently resolved addresses,
//! deciding whether an update is owed, and driving the pass from stage to
//! stage. All network traffic (the address-check request, the DNS query, the
//! record-store upsert) is performed by the surrounding program, which feeds
//! each response back into the pass as a plain value.

pub mod addr;
pub mod config;
pub mod decision;
pub mod errors;
pub mod lookup;
pub mod pass;
