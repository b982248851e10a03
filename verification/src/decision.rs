//! The reconciliation decision: does the managed record need an update?
//!
//! The policy, evaluated in order: the force override dominates; a lookup
//! that failed outright is treated as "assume stale"; an empty resolved set
//! means the record is absent and needs correction; otherwise the discovered
//! address must stand, byte for byte, among the resolved addresses — exact
//! membership, not first-answer equality, since a name may legitimately
//! resolve to several A records.

use vstd::prelude::*;

use crate::addr::Ipv4Address;
use crate::errors::AddressResolutionError;
use crate::errors::DnsResolutionFailure;
use crate::lookup::LookupFailure;

verus! {

/// Whether the pass must issue an update.
#[derive(Debug, PartialEq, Eq, Structural, Clone, Copy)]
pub enum ReconciliationVerdict {
    UpToDate,
    NeedsUpdate,
}

/// The discovered address stands, byte for byte, among the resolved ones.
pub open spec fn resolved_contains(s: Seq<Ipv4Address>, a: Ipv4Address) -> bool {
    exists|i: int| 0 <= i < s.len() && s[i] == a
}

/// The reconciliation policy over the lookup's outcome; `None` stands for a
/// lookup that failed outright.
pub open spec fn spec_decide(
    discovered: Ipv4Address,
    resolved: Option<Seq<Ipv4Address>>,
    force: bool,
) -> ReconciliationVerdict {
    if force {
        ReconciliationVerdict::NeedsUpdate
    } else {
        match resolved {
            None => ReconciliationVerdict::NeedsUpdate,
            Some(s) => if resolved_contains(s, discovered) {
                ReconciliationVerdict::UpToDate
            } else {
                ReconciliationVerdict::NeedsUpdate
            },
        }
    }
}

/// A lookup outcome as the decision sees it: the resolved addresses, or
/// nothing when resolution failed outright.
pub open spec fn resolved_view(
    r: Result<Vec<Ipv4Address>, DnsResolutionFailure>,
) -> Option<Seq<Ipv4Address>> {
    match r {
        Ok(v) => Some(v@),
        Err(_) => None,
    }
}

/// Same reading for the richer lookup result that still carries the fatal
/// failure shape.
pub open spec fn lookup_view(
    r: Result<Vec<Ipv4Address>, LookupFailure>,
) -> Option<Seq<Ipv4Address>> {
    match r {
        Ok(v) => Some(v@),
        Err(_) => None,
    }
}

/// Whether `target` stands among `addrs`.
pub fn contains_address(addrs: &Vec<Ipv4Address>, target: &Ipv4Address) -> (r: bool)
    ensures
        r == resolved_contains(addrs@, *target),
{
    let n = addrs.len();
    let mut i: usize = 0;
    while i < n
        invariant
            i <= n,
            n == addrs@.len(),
            forall|k: int| 0 <= k < i ==> addrs@[k] != *target,
        decreases n - i,
    {
        if addrs[i] == *target {
            return true;
        }
        i = i + 1;
    }
    false
}

/// The reconciliation decision. Force dominates; an unresolvable or absent
/// record always reads as needing correction; otherwise membership of the
/// discovered address among the resolved addresses decides.
pub fn decide(
    discovered: &Ipv4Address,
    resolved: &Result<Vec<Ipv4Address>, DnsResolutionFailure>,
    force: bool,
) -> (v: ReconciliationVerdict)
    ensures
        v == spec_decide(*discovered, resolved_view(*resolved), force),
        force ==> v is NeedsUpdate,
        !force && resolved is Err ==> v is NeedsUpdate,
        resolved is Ok && !force ==> (v is UpToDate <==> resolved_contains(
            resolved->Ok_0@,
            *discovered,
        )),
        resolved is Ok && resolved->Ok_0@.len() == 0 && !force ==> v is NeedsUpdate,
{
    if force {
        return ReconciliationVerdict::NeedsUpdate;
    }
    match resolved {
        Err(_) => ReconciliationVerdict::NeedsUpdate,
        Ok(addrs) => {
            if contains_address(addrs, discovered) {
                ReconciliationVerdict::UpToDate
            } else {
                ReconciliationVerdict::NeedsUpdate
            }
        },
    }
}

/// The lookup-and-compare answer: whether one lookup outcome shows the
/// record already current. An outright resolution failure and an empty
/// answer set both answer no; any other lookup failure is fatal.
pub fn is_current_address(lookup: Result<Vec<Ipv4Address>, LookupFailure>, ip: &Ipv4Address) -> (r:
    Result<bool, AddressResolutionError>)
    ensures
        match r {
            Ok(b) => {
                &&& !(lookup matches Err(LookupFailure::Fatal(_)))
                &&& b == (lookup matches Ok(s) && resolved_contains(s@, *ip))
                &&& b == (spec_decide(*ip, lookup_view(lookup), false) is UpToDate)
            },
            Err(e) => lookup matches Err(LookupFailure::Fatal(m)) && e
                == AddressResolutionError::QueryFailure(m),
        },
{
    match lookup {
        Err(LookupFailure::Unresolvable(_)) => Ok(false),
        Err(LookupFailure::Fatal(m)) => Err(AddressResolutionError::QueryFailure(m)),
        Ok(addrs) => Ok(contains_address(&addrs, ip)),
    }
}

/// With the force override off, two passes in a row with no outside change
/// in between issue at most one update. If the first pass found the record
/// stale, unresolvable or absent, it updated it to the discovered address,
/// and the second pass reads that address back and is idle; if the first
/// pass was already idle, nothing changed and the second is idle too.
pub proof fn lemma_pass_idempotent(
    a: Ipv4Address,
    first: Option<Seq<Ipv4Address>>,
    second: Option<Seq<Ipv4Address>>,
)
    requires
        spec_decide(a, first, false) is NeedsUpdate ==> second == Some(seq![a]),
        spec_decide(a, first, false) is UpToDate ==> second == first,
    ensures
        spec_decide(a, second, false) is UpToDate,
{
    if spec_decide(a, first, false) is NeedsUpdate {
        assert(seq![a][0] == a);
        assert(resolved_contains(seq![a], a));
    }
}

} // verus!
