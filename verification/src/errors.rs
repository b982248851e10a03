//! The closed error taxonomy of a reconciliation pass.
//!
//! One condition — a lookup that fails outright — is recoverable: the
//! decision step treats it as "record stale" and the pass proceeds to
//! update. Every other error is fatal and aborts the pass at the stage
//! its variant names.

use vstd::prelude::*;

verus! {

/// A lookup that failed outright: the managed record's current value could
/// not be determined at all. The decision step recovers from this condition
/// by treating the record as stale; it never aborts the pass.
#[derive(Debug, PartialEq, Eq)]
pub struct DnsResolutionFailure {
    /// The hostname whose record could not be resolved.
    pub hostname: String,
}

/// A fatal condition. Each variant aborts the pass at the stage it names and
/// carries the underlying cause's description.
#[derive(Debug, PartialEq, Eq)]
pub enum AddressResolutionError {
    /// The address-check request itself failed: connection, timeout, or a
    /// non-success status.
    DiscoveryUnreachable(String),
    /// The address-check response body, trimmed of surrounding whitespace,
    /// does not read as a dotted-quad IPv4 address. Carries the trimmed body.
    InvalidAddressFormat(Vec<u8>),
    /// The resolver endpoint's host and port do not name a usable socket
    /// address.
    InvalidResolverAddress(String),
    /// A record lookup failed in some way other than plain irresolution: a
    /// malformed name, a protocol error, a malformed response.
    QueryFailure(String),
    /// The record store rejected the upsert change.
    UpdateRejected(String),
}

} // verus!
