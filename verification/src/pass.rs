//! One reconciliation pass, driven stage by stage.
//!
//! The pass itself performs no network traffic. It is a state machine: the
//! surrounding program performs each requested action — fetch the
//! address-check body, query the resolver, submit the upsert, await
//! propagation — and hands the response back as an event. Every decision in
//! between stands here, verified: how a response is read, whether an update
//! is owed, what the pass's result is.

use vstd::prelude::*;

use crate::addr::Ipv4Address;
use crate::addr::parse_discovered;
use crate::addr::spec_ipv4_text;
use crate::addr::spec_trim;
use crate::config::Config;
use crate::decision::ReconciliationVerdict;
use crate::decision::decide;
use crate::decision::spec_decide;
use crate::errors::AddressResolutionError;
use crate::errors::DnsResolutionFailure;
use crate::lookup::AnswerData;
use crate::lookup::LookupFailure;
use crate::lookup::extract_a_records;
use crate::lookup::spec_a_records;

verus! {

/// The payload of one upsert: the managed record as it should stand.
#[derive(Debug, PartialEq, Eq)]
pub struct ManagedRecord {
    /// The record's name.
    pub hostname: String,
    /// TTL, in seconds.
    pub ttl: i64,
    /// The address the record is set to.
    pub target: Ipv4Address,
}

/// How awaiting propagation of an accepted change ended.
#[derive(Debug, PartialEq, Eq, Structural, Clone, Copy)]
pub enum PropagationStatus {
    /// The store reported the change applied within the bound.
    Confirmed,
    /// The bound elapsed first.
    TimedOut,
    /// The store reported a failed or non-terminal state.
    Failed,
}

/// How a finished pass ended, short of a fatal error.
#[derive(Debug, PartialEq, Eq, Structural, Clone, Copy)]
pub enum PassOutcome {
    /// The record already held the discovered address; nothing was sent.
    UpToDate,
    /// An update was submitted and confirmed applied.
    Updated,
    /// An update was accepted, but its landing could not be confirmed
    /// within the bound: a warning, not a failure.
    UpdatedUnconfirmed,
}

/// Where the pass stands: which response it is waiting for, or how it ended.
#[derive(Debug)]
pub enum PassState {
    AwaitingDiscovery,
    AwaitingLookup { discovered: Ipv4Address },
    AwaitingSubmission { discovered: Ipv4Address },
    AwaitingPropagation,
    Finished(Result<PassOutcome, AddressResolutionError>),
}

/// The response the surrounding program hands back for the stage just run.
#[derive(Debug)]
pub enum PassEvent {
    /// The address-check response body, or the transport failure's
    /// description.
    DiscoveryResponse(Result<Vec<u8>, String>),
    /// The answer section of the A-record query, or how the lookup failed.
    LookupResponse(Result<Vec<AnswerData>, LookupFailure>),
    /// The change token of an accepted upsert, or the rejection's
    /// description.
    SubmissionResponse(Result<String, String>),
    /// How awaiting propagation ended.
    PropagationResponse(PropagationStatus),
}

/// What the surrounding program must do next.
#[derive(Debug)]
pub enum PassAction {
    /// Request the address-check body from `url`.
    FetchAddress { url: String },
    /// Query the resolver for `hostname`'s A records.
    QueryRecord { hostname: String },
    /// Submit `record` as one upsert change.
    SubmitUpsert { record: ManagedRecord },
    /// Await propagation of the accepted change, under the pass's bound.
    AwaitPropagation { change_token: String },
    /// The pass is finished; report its result.
    Report,
}

/// The event answers the stage the state awaits.
pub open spec fn event_fits(state: PassState, event: PassEvent) -> bool {
    match (state, event) {
        (PassState::AwaitingDiscovery, PassEvent::DiscoveryResponse(_)) => true,
        (PassState::AwaitingLookup { .. }, PassEvent::LookupResponse(_)) => true,
        (PassState::AwaitingSubmission { .. }, PassEvent::SubmissionResponse(_)) => true,
        (PassState::AwaitingPropagation, PassEvent::PropagationResponse(_)) => true,
        _ => false,
    }
}

/// The action submits exactly the record the pass owes: the configured name
/// and TTL, targeting the discovered address.
pub open spec fn submits(action: PassAction, config: Config, target: Ipv4Address) -> bool {
    &&& action matches PassAction::SubmitUpsert { record }
    &&& record.hostname@ == config.record_name@
    &&& record.ttl == config.ttl
    &&& record.target == target
}

/// The pass holds the discovered address and asks for the record's current
/// value.
pub open spec fn proceeds_to_lookup(
    r: (PassState, PassAction),
    config: Config,
    a: Ipv4Address,
) -> bool {
    &&& r.0 matches PassState::AwaitingLookup { discovered } && discovered == a
    &&& r.1 matches PassAction::QueryRecord { hostname } && hostname@ == config.record_name@
}

/// The pass holds the discovered address and submits the owed upsert.
pub open spec fn proceeds_to_submission(
    r: (PassState, PassAction),
    config: Config,
    a: Ipv4Address,
) -> bool {
    &&& r.0 matches PassState::AwaitingSubmission { discovered } && discovered == a
    &&& submits(r.1, config, a)
}

/// A lookup response as the decision sees it: the A-record addresses, or
/// nothing when resolution failed outright.
pub open spec fn lookup_result_view(
    res: Result<Vec<AnswerData>, LookupFailure>,
) -> Option<Seq<Ipv4Address>> {
    match res {
        Ok(answers) => Some(spec_a_records(answers@)),
        Err(_) => None,
    }
}

/// An owned copy of a string, for handing configured text into an action.
fn copy_string(s: &String) -> (r: String)
    ensures
        r@ == s@,
{
    s.as_str().to_owned()
}

/// Opens a pass: the first thing to do is fetch the address-check body from
/// the configured service.
pub fn start_pass(config: &Config) -> (r: (PassState, PassAction))
    ensures
        r.0 is AwaitingDiscovery,
        r.1 matches PassAction::FetchAddress { url } && url@ == config.ip_check@,
{
    (PassState::AwaitingDiscovery, PassAction::FetchAddress { url: copy_string(&config.ip_check) })
}

/// Advances the pass by one stage. Every transition is pinned down:
/// a failed fetch aborts as unreachable discovery; a body that does not trim
/// to a dotted quad aborts as a malformed address; a fatal lookup error
/// aborts the pass while an outright resolution failure only forces the
/// update; the reconciliation decision gates the one upsert; a rejected
/// upsert aborts; and however awaiting propagation ends, an accepted update
/// leaves the pass successful — unconfirmed landing is a warning, not a
/// failure.
pub fn step_pass(config: &Config, state: PassState, event: PassEvent) -> (r: (
    PassState,
    PassAction,
))
    requires
        event_fits(state, event),
    ensures
        ({
            let force = config.always_update_record;
            match (state, event) {
                (PassState::AwaitingDiscovery, PassEvent::DiscoveryResponse(res)) => match res {
                    Result::Err(m) => r.0 == PassState::Finished(
                        Result::Err(AddressResolutionError::DiscoveryUnreachable(m)),
                    ) && r.1 is Report,
                    Result::Ok(body) => {
                        &&& (forall|a: Ipv4Address| spec_trim(body@) != spec_ipv4_text(a)) ==> {
                            &&& r.0 matches PassState::Finished(f) && f matches Result::Err(e) && e
                                matches AddressResolutionError::InvalidAddressFormat(t) && t@
                                == spec_trim(body@)
                            &&& r.1 is Report
                        }
                        &&& (forall|a: Ipv4Address|
                            spec_trim(body@) == spec_ipv4_text(a) ==> (if force {
                                proceeds_to_submission(r, *config, a)
                            } else {
                                proceeds_to_lookup(r, *config, a)
                            }))
                    },
                },
                (
                    PassState::AwaitingLookup { discovered },
                    PassEvent::LookupResponse(res),
                ) => {
                    &&& res matches Result::Err(LookupFailure::Fatal(m)) ==> (r.0
                        == PassState::Finished(
                        Result::Err(AddressResolutionError::QueryFailure(m)),
                    ) && r.1 is Report)
                    &&& !(res matches Result::Err(LookupFailure::Fatal(_))) ==> {
                        let verdict = spec_decide(discovered, lookup_result_view(res), force);
                        &&& verdict is UpToDate ==> (r.0 == PassState::Finished(
                            Result::Ok(PassOutcome::UpToDate),
                        ) && r.1 is Report)
                        &&& verdict is NeedsUpdate ==> proceeds_to_submission(
                            r,
                            *config,
                            discovered,
                        )
                    }
                },
                (
                    PassState::AwaitingSubmission { discovered },
                    PassEvent::SubmissionResponse(res),
                ) => match res {
                    Result::Err(m) => r.0 == PassState::Finished(
                        Result::Err(AddressResolutionError::UpdateRejected(m)),
                    ) && r.1 is Report,
                    Result::Ok(token) => {
                        &&& r.0 is AwaitingPropagation
                        &&& r.1 matches PassAction::AwaitPropagation { change_token }
                            && change_token == token
                    },
                },
                (PassState::AwaitingPropagation, PassEvent::PropagationResponse(st)) => {
                    &&& r.1 is Report
                    &&& st is Confirmed ==> r.0 == PassState::Finished(
                        Result::Ok(PassOutcome::Updated),
                    )
                    &&& !(st is Confirmed) ==> r.0 == PassState::Finished(
                        Result::Ok(PassOutcome::UpdatedUnconfirmed),
                    )
                },
                _ => true,
            }
        }),
{
    match (state, event) {
        (PassState::AwaitingDiscovery, PassEvent::DiscoveryResponse(res)) => match res {
            Err(m) => (
                PassState::Finished(Err(AddressResolutionError::DiscoveryUnreachable(m))),
                PassAction::Report,
            ),
            Ok(body) => match parse_discovered(body.as_slice()) {
                Err(e) => (PassState::Finished(Err(e)), PassAction::Report),
                Ok(a) => {
                    proof {
                        assert forall|a2: Ipv4Address|
                            spec_trim(body@) == spec_ipv4_text(a2) implies a2 == a by {
                            crate::addr::lemma_text_injective(a2, a);
                        }
                    }
                    if config.always_update_record {
                        (
                            PassState::AwaitingSubmission { discovered: a },
                            PassAction::SubmitUpsert {
                                record: ManagedRecord {
                                    hostname: copy_string(&config.record_name),
                                    ttl: config.ttl,
                                    target: a,
                                },
                            },
                        )
                    } else {
                        (
                            PassState::AwaitingLookup { discovered: a },
                            PassAction::QueryRecord {
                                hostname: copy_string(&config.record_name),
                            },
                        )
                    }
                },
            },
        },
        (PassState::AwaitingLookup { discovered }, PassEvent::LookupResponse(res)) => match res {
            Err(LookupFailure::Fatal(m)) => (
                PassState::Finished(Err(AddressResolutionError::QueryFailure(m))),
                PassAction::Report,
            ),
            Err(LookupFailure::Unresolvable(_)) => (
                PassState::AwaitingSubmission { discovered },
                PassAction::SubmitUpsert {
                    record: ManagedRecord {
                        hostname: copy_string(&config.record_name),
                        ttl: config.ttl,
                        target: discovered,
                    },
                },
            ),
            Ok(answers) => {
                let addrs = extract_a_records(&answers);
                let resolved: Result<Vec<Ipv4Address>, DnsResolutionFailure> = Ok(addrs);
                let verdict = decide(&discovered, &resolved, config.always_update_record);
                match verdict {
                    ReconciliationVerdict::UpToDate => (
                        PassState::Finished(Ok(PassOutcome::UpToDate)),
                        PassAction::Report,
                    ),
                    ReconciliationVerdict::NeedsUpdate => (
                        PassState::AwaitingSubmission { discovered },
                        PassAction::SubmitUpsert {
                            record: ManagedRecord {
                                hostname: copy_string(&config.record_name),
                                ttl: config.ttl,
                                target: discovered,
                            },
                        },
                    ),
                }
            },
        },
        (PassState::AwaitingSubmission { discovered: _ }, PassEvent::SubmissionResponse(res)) => {
            match res {
                Err(m) => (
                    PassState::Finished(Err(AddressResolutionError::UpdateRejected(m))),
                    PassAction::Report,
                ),
                Ok(token) => (
                    PassState::AwaitingPropagation,
                    PassAction::AwaitPropagation { change_token: token },
                ),
            }
        },
        (PassState::AwaitingPropagation, PassEvent::PropagationResponse(st)) => match st {
            PropagationStatus::Confirmed => (
                PassState::Finished(Ok(PassOutcome::Updated)),
                PassAction::Report,
            ),
            PropagationStatus::TimedOut => (
                PassState::Finished(Ok(PassOutcome::UpdatedUnconfirmed)),
                PassAction::Report,
            ),
            PropagationStatus::Failed => (
                PassState::Finished(Ok(PassOutcome::UpdatedUnconfirmed)),
                PassAction::Report,
            ),
        },
        _ => vstd::pervasive::unreached(),
    }
}

/// The process exit code a finished pass owes: zero exactly on success —
/// including the warning-level unconfirmed-propagation outcome — and
/// non-zero on every fatal error.
pub fn exit_code(result: &Result<PassOutcome, AddressResolutionError>) -> (r: i32)
    ensures
        result is Ok <==> r == 0,
        result is Err ==> r == 1,
{
    match result {
        Ok(_) => 0,
        Err(_) => 1,
    }
}

} // verus!
