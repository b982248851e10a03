use dynamic_route53::addr::Ipv4Address;
use dynamic_route53::config::Config;
use dynamic_route53::config::DnsProtocol;
use dynamic_route53::config::DnsServerConfig;
use dynamic_route53::config::default_dns_port;
use dynamic_route53::config::default_dns_server;
use dynamic_route53::config::default_force_set;
use dynamic_route53::config::default_ip_service;
use dynamic_route53::config::default_ttl;
use dynamic_route53::errors::AddressResolutionError;
use dynamic_route53::errors::DnsResolutionFailure;
use dynamic_route53::lookup::AnswerData;
use dynamic_route53::lookup::LookupFailure;
use dynamic_route53::pass::PassAction;
use dynamic_route53::pass::PassEvent;
use dynamic_route53::pass::PassOutcome;
use dynamic_route53::pass::PassState;
use dynamic_route53::pass::PropagationStatus;
use dynamic_route53::pass::exit_code;
use dynamic_route53::pass::start_pass;
use dynamic_route53::pass::step_pass;

fn addr(o1: u8, o2: u8, o3: u8, o4: u8) -> Ipv4Address {
    Ipv4Address { o1, o2, o3, o4 }
}

fn config(force: bool) -> Config {
    Config {
        hosted_zone_id: "Z0000000000000000000".to_string(),
        record_name: "host.example.".to_string(),
        ttl: 300,
        ip_check: "https://checkip.amazonaws.com".to_string(),
        always_update_record: force,
        dns_server: DnsServerConfig {
            host: "1.1.1.1".to_string(),
            port: 53,
            protocol: DnsProtocol::UDP,
        },
    }
}

/// Runs one full pass, with the world simulated by the arguments: the
/// discovery response, the lookup response, and the propagation status.
/// Returns the submitted records and the pass's result.
fn run_pass(
    cfg: &Config,
    discovery: Result<Vec<u8>, String>,
    lookup: Result<Vec<AnswerData>, LookupFailure>,
    propagation: PropagationStatus,
) -> (Vec<dynamic_route53::pass::ManagedRecord>, Result<PassOutcome, AddressResolutionError>) {
    let mut submitted = Vec::new();
    let (mut state, mut action) = start_pass(cfg);
    assert!(matches!(action, PassAction::FetchAddress { .. }));
    let mut event = Some(PassEvent::DiscoveryResponse(discovery));
    let mut lookup = Some(lookup);
    loop {
        let e = event.take().expect("the pass asked for a response it was not given");
        let (next_state, next_action) = step_pass(cfg, state, e);
        state = next_state;
        action = next_action;
        match &action {
            PassAction::FetchAddress { .. } => {
                panic!("discovery requested twice");
            }
            PassAction::QueryRecord { hostname } => {
                assert_eq!(hostname, &cfg.record_name);
                event = Some(PassEvent::LookupResponse(
                    lookup.take().expect("lookup requested twice"),
                ));
            }
            PassAction::SubmitUpsert { record } => {
                submitted.push(dynamic_route53::pass::ManagedRecord {
                    hostname: record.hostname.clone(),
                    ttl: record.ttl,
                    target: record.target,
                });
                event = Some(PassEvent::SubmissionResponse(Ok("change-0001".to_string())));
            }
            PassAction::AwaitPropagation { change_token } => {
                assert_eq!(change_token, "change-0001");
                event = Some(PassEvent::PropagationResponse(propagation));
            }
            PassAction::Report => {
                match state {
                    PassState::Finished(result) => return (submitted, result),
                    _ => panic!("report requested before the pass finished"),
                }
            }
        }
    }
}

#[test]
fn matching_record_makes_no_update() {
    let cfg = config(false);
    let (submitted, result) = run_pass(
        &cfg,
        Ok(b"203.0.113.9\n".to_vec()),
        Ok(vec![AnswerData::A(addr(203, 0, 113, 9))]),
        PropagationStatus::Confirmed,
    );
    assert_eq!(submitted.len(), 0);
    assert_eq!(result, Ok(PassOutcome::UpToDate));
    assert_eq!(exit_code(&result), 0);
}

#[test]
fn stale_record_gets_one_upsert() {
    let cfg = config(false);
    let (submitted, result) = run_pass(
        &cfg,
        Ok(b"203.0.113.9\n".to_vec()),
        Ok(vec![AnswerData::A(addr(198, 51, 100, 1))]),
        PropagationStatus::Confirmed,
    );
    assert_eq!(submitted.len(), 1);
    assert_eq!(submitted[0].hostname, "host.example.");
    assert_eq!(submitted[0].ttl, 300);
    assert_eq!(submitted[0].target, addr(203, 0, 113, 9));
    assert_eq!(result, Ok(PassOutcome::Updated));
    assert_eq!(exit_code(&result), 0);
}

#[test]
fn resolution_failure_still_updates_and_succeeds() {
    let cfg = config(false);
    let (submitted, result) = run_pass(
        &cfg,
        Ok(b"203.0.113.9\n".to_vec()),
        Err(LookupFailure::Unresolvable(DnsResolutionFailure {
            hostname: "host.example.".to_string(),
        })),
        PropagationStatus::Confirmed,
    );
    assert_eq!(submitted.len(), 1);
    assert_eq!(submitted[0].target, addr(203, 0, 113, 9));
    assert_eq!(result, Ok(PassOutcome::Updated));
    assert_eq!(exit_code(&result), 0);
}

#[test]
fn malformed_body_aborts_before_any_query() {
    let cfg = config(false);
    let (state, _) = start_pass(&cfg);
    let (next, action) = step_pass(
        &cfg,
        state,
        PassEvent::DiscoveryResponse(Ok(b"not-an-ip\n".to_vec())),
    );
    assert!(matches!(action, PassAction::Report));
    match next {
        PassState::Finished(result) => {
            assert_eq!(
                result,
                Err(AddressResolutionError::InvalidAddressFormat(b"not-an-ip".to_vec()))
            );
            assert_eq!(exit_code(&result), 1);
        }
        _ => panic!("the pass should have finished"),
    }
}

#[test]
fn propagation_timeout_is_a_warning_not_a_failure() {
    let cfg = config(false);
    let (submitted, result) = run_pass(
        &cfg,
        Ok(b"203.0.113.9\n".to_vec()),
        Ok(vec![AnswerData::A(addr(198, 51, 100, 1))]),
        PropagationStatus::TimedOut,
    );
    assert_eq!(submitted.len(), 1);
    assert_eq!(result, Ok(PassOutcome::UpdatedUnconfirmed));
    assert_eq!(exit_code(&result), 0);
}

#[test]
fn two_passes_without_outside_change_issue_one_update() {
    let cfg = config(false);
    let discovered = addr(203, 0, 113, 9);
    // The record starts stale; the store then holds whatever was submitted.
    let mut record_value = vec![addr(198, 51, 100, 1)];
    let mut updates = 0;
    for _ in 0..2 {
        let answers = record_value.iter().map(|a| AnswerData::A(*a)).collect();
        let (submitted, result) = run_pass(
            &cfg,
            Ok(b"203.0.113.9\n".to_vec()),
            Ok(answers),
            PropagationStatus::Confirmed,
        );
        for record in &submitted {
            record_value = vec![record.target];
        }
        updates += submitted.len();
        assert_eq!(exit_code(&result), 0);
    }
    assert_eq!(updates, 1);
    assert_eq!(record_value, vec![discovered]);
}

#[test]
fn forced_update_skips_the_lookup() {
    let cfg = config(true);
    let (state, _) = start_pass(&cfg);
    let (next, action) = step_pass(
        &cfg,
        state,
        PassEvent::DiscoveryResponse(Ok(b"203.0.113.9\n".to_vec())),
    );
    match action {
        PassAction::SubmitUpsert { record } => {
            assert_eq!(record.target, addr(203, 0, 113, 9));
        }
        other => panic!("expected an immediate upsert, got {:?}", other),
    }
    assert!(matches!(next, PassState::AwaitingSubmission { .. }));
}

#[test]
fn discovery_transport_failure_is_fatal() {
    let cfg = config(false);
    let (state, _) = start_pass(&cfg);
    let (next, _) = step_pass(
        &cfg,
        state,
        PassEvent::DiscoveryResponse(Err("connection refused".to_string())),
    );
    match next {
        PassState::Finished(result) => {
            assert_eq!(
                result,
                Err(AddressResolutionError::DiscoveryUnreachable(
                    "connection refused".to_string()
                ))
            );
            assert_eq!(exit_code(&result), 1);
        }
        _ => panic!("the pass should have finished"),
    }
}

#[test]
fn fatal_lookup_error_aborts_the_pass() {
    let cfg = config(false);
    let (next, _) = step_pass(
        &cfg,
        PassState::AwaitingLookup { discovered: addr(203, 0, 113, 9) },
        PassEvent::LookupResponse(Err(LookupFailure::Fatal("protocol error".to_string()))),
    );
    match next {
        PassState::Finished(result) => {
            assert_eq!(
                result,
                Err(AddressResolutionError::QueryFailure("protocol error".to_string()))
            );
            assert_eq!(exit_code(&result), 1);
        }
        _ => panic!("the pass should have finished"),
    }
}

#[test]
fn rejected_upsert_aborts_the_pass() {
    let cfg = config(false);
    let (next, _) = step_pass(
        &cfg,
        PassState::AwaitingSubmission { discovered: addr(203, 0, 113, 9) },
        PassEvent::SubmissionResponse(Err("not authorized".to_string())),
    );
    match next {
        PassState::Finished(result) => {
            assert_eq!(
                result,
                Err(AddressResolutionError::UpdateRejected("not authorized".to_string()))
            );
            assert_eq!(exit_code(&result), 1);
        }
        _ => panic!("the pass should have finished"),
    }
}

#[test]
fn defaults_match_the_documented_values() {
    assert_eq!(default_ip_service(), "https://checkip.amazonaws.com");
    assert_eq!(default_ttl(), 300);
    assert!(!default_force_set());
    assert_eq!(default_dns_port(), 53);
    let server = default_dns_server();
    assert_eq!(server.host, "1.1.1.1");
    assert_eq!(server.port, 53);
    assert_eq!(server.protocol, DnsProtocol::UDP);
}

#[test]
fn endpoint_text_joins_host_and_port() {
    let server = DnsServerConfig {
        host: "1.1.1.1".to_string(),
        port: 53,
        protocol: DnsProtocol::UDP,
    };
    assert_eq!(server.endpoint_text(), "1.1.1.1:53");
    let server = DnsServerConfig {
        host: "resolver.example".to_string(),
        port: 65535,
        protocol: DnsProtocol::TCP,
    };
    assert_eq!(server.endpoint_text(), "resolver.example:65535");
    let server = DnsServerConfig {
        host: "h".to_string(),
        port: 0,
        protocol: DnsProtocol::UDP,
    };
    assert_eq!(server.endpoint_text(), "h:0");
}
