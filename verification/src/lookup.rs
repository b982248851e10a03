//! Reading the managed record's current value out of a DNS answer.
//!
//! The query itself travels over the wire outside this crate; what arrives
//! here is the answer section as plain values, one entry per answer record.
//! Only direct A records contribute addresses to the resolved set; answer
//! order is kept.

use vstd::prelude::*;

use crate::addr::Ipv4Address;
use crate::errors::DnsResolutionFailure;

verus! {

/// What the pass reads of one DNS answer record: a direct A record's
/// address, or any other answer (a CNAME link, other record data), which
/// contributes nothing to the resolved set.
#[derive(Debug, PartialEq, Eq, Structural, Clone, Copy)]
pub enum AnswerData {
    A(Ipv4Address),
    Other,
}

/// How a lookup can fail.
#[derive(Debug, PartialEq, Eq)]
pub enum LookupFailure {
    /// The host could not be resolved at all. The decision step recovers
    /// from this by treating the record as stale.
    Unresolvable(DnsResolutionFailure),
    /// Any other query error — a malformed name, a protocol error, a
    /// malformed response. Fatal for the pass.
    Fatal(String),
}

/// The addresses of the direct A records among `answers`, in answer order.
pub open spec fn spec_a_records(answers: Seq<AnswerData>) -> Seq<Ipv4Address>
    decreases answers.len(),
{
    if answers.len() == 0 {
        Seq::empty()
    } else {
        spec_a_records(answers.drop_last()) + (match answers.last() {
            AnswerData::A(a) => seq![a],
            AnswerData::Other => Seq::empty(),
        })
    }
}

/// Collects the A-record addresses out of a query's answers, keeping answer
/// order and passing over every other answer.
pub fn extract_a_records(answers: &Vec<AnswerData>) -> (r: Vec<Ipv4Address>)
    ensures
        r@ == spec_a_records(answers@),
{
    let mut out: Vec<Ipv4Address> = Vec::new();
    let n = answers.len();
    let mut i: usize = 0;
    while i < n
        invariant
            i <= n,
            n == answers@.len(),
            out@ == spec_a_records(answers@.take(i as int)),
        decreases n - i,
    {
        match answers[i] {
            AnswerData::A(a) => out.push(a),
            AnswerData::Other => (),
        }
        proof {
            assert(answers@.take(i + 1).drop_last() =~= answers@.take(i as int));
            assert(answers@.take(i + 1).last() == answers@[i as int]);
        }
        i = i + 1;
    }
    proof {
        assert(answers@.take(n as int) =~= answers@);
    }
    out
}

} // verus!
