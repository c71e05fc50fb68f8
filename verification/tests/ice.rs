//! Candidates, pairs, connectivity checks, STUN and TURN.
#![allow(unused_mut)]

use bytes::{BufMut, BytesMut};
use rsiprtp::ice::agent::{
    credential_from, generate_ice_pwd, generate_ice_ufrag, local_addresses, CheckStep,
    ConnectivityCheck, IceAgent, IceConfig, IceError, IceRole, IceState,
};
use rsiprtp::ice::candidate::{calculate_pair_priority, Candidate, CandidateType, Transport};
use rsiprtp::ice::check::{build_check, is_check_answer, on_check_event, CheckEvent, CHECK_ATTEMPTS};
use rsiprtp::ice::pairs::{unfreeze_related_pairs, CandidatePair, PairState};
use rsiprtp::ice::stun::{
    build_binding_request, is_whole, parse_binding_response, StunError, StunServer,
};
use rsiprtp::ice::turn::{
    build_send_indication, generate_transaction_id, is_cut_short, parse_allocate_response,
    AllocateResult, TurnError, TurnServer, ALLOCATE_ERROR, ALLOCATE_REQUEST, ALLOCATE_RESPONSE,
    ATTR_DATA, ATTR_ERROR_CODE, ATTR_LIFETIME, ATTR_NONCE, ATTR_REALM, ATTR_USERNAME,
    ATTR_XOR_MAPPED_ADDRESS, ATTR_XOR_PEER_ADDRESS, ATTR_XOR_RELAYED_ADDRESS,
    CREATE_PERMISSION_RESPONSE, DATA_INDICATION, REFRESH_RESPONSE, SEND_INDICATION,
};
use rsiprtp::ice::turn_client::{AllocateStep, SendEvent, SendStep, TurnClient};
use rsiprtp::ice::wire::{
    encode_xor_address, message, pad_to_4_bytes, parse_xor_address, put_attr, MAGIC_COOKIE,
};
use rsiprtp::net::{IpAddr, SocketAddr};

/// The addresses that sockets are bound to.
fn bound() -> Vec<SocketAddr> {
    vec![SocketAddr::new(IpAddr::v4(127, 0, 0, 1), 40000)]
}

fn finished(step: CheckStep) -> Result<(), IceError> {
    match step {
        CheckStep::Finished(result) => result,
        CheckStep::Check(_) => panic!("a check is left"),
    }
}

/// Runs the checks to their end, each with the outcome that is given for it.
fn run_checks(
    agent: &mut IceAgent,
    outcome: impl Fn(&ConnectivityCheck) -> bool,
) -> Result<(), IceError> {
    let mut step = agent.start_checks();
    loop {
        match step {
            CheckStep::Finished(result) => return result,
            CheckStep::Check(check) => step = agent.on_check_result(outcome(&check)),
        }
    }
}

/// An agent with one socket and one remote candidate.
fn ready_agent(role: IceRole) -> IceAgent {
    let config = IceConfig {
        stun_servers: vec![],
        local_ufrag: "localusr".to_string(),
        local_pwd: "localpwd".to_string(),
        ..Default::default()
    };
    let mut agent = IceAgent::new(config, role);
    agent.gather_candidates(&bound(), &Vec::new());
    let remote = Candidate::host(SocketAddr::new(IpAddr::v4(127, 0, 0, 1), 50000), 1);
    agent.add_remote_candidates(vec![remote]);
    agent.set_remote_credentials("remoteusr", "remotepwd");
    agent
}

fn first_check(agent: &mut IceAgent) -> ConnectivityCheck {
    match agent.start_checks() {
        CheckStep::Check(check) => check,
        CheckStep::Finished(_) => panic!("no check"),
    }
}

/// A STUN message with the given attributes.
fn stun_message(kind: u16, cookie: u32, txn_id: &[u8; 12], attrs: &[u8]) -> Vec<u8> {
    let mut msg = BytesMut::new();
    msg.put_u16(kind);
    msg.put_u16(attrs.len() as u16);
    msg.put_u32(cookie);
    msg.put_slice(txn_id);
    msg.put_slice(attrs);
    msg.to_vec()
}

/// A binding response that tells a mapped IPv4 address.
fn build_binding_response(txn_id: &[u8; 12], mapped: SocketAddr) -> Vec<u8> {
    let IpAddr::V4(ip) = mapped.ip else {
        panic!("IPv6 not implemented in mock");
    };
    let mut attrs = BytesMut::new();
    attrs.put_u16(0x0020);
    attrs.put_u16(8);
    attrs.put_u8(0);
    attrs.put_u8(0x01);
    attrs.put_u16(mapped.port ^ 0x2112);
    attrs.put_u32(ip ^ 0x2112A442);
    stun_message(0x0101, 0x2112A442, txn_id, &attrs)
}

fn build_connectivity_check_response(txn_id: &[u8; 12]) -> Vec<u8> {
    stun_message(0x0101, 0x2112A442, txn_id, &[])
}

#[test]
fn test_ice_error_io() {
    let err = IceError::Io("test".to_string());
    assert!(err.describe().contains("IO error"));
}

#[test]
fn test_ice_error_no_candidates() {
    let err = IceError::NoCandidates;
    assert!(err.describe().contains("No candidates"));
}

#[test]
fn test_ice_error_failed() {
    let err = IceError::Failed("test reason".to_string());
    assert!(err.describe().contains("test reason"));
}

#[test]
fn test_ice_error_debug() {
    let err = IceError::NoCandidates;
    let debug = format!("{:?}", err);
    assert!(debug.contains("NoCandidates"));
}

#[test]
fn test_ice_role_debug() {
    assert!(format!("{:?}", IceRole::Controlling).contains("Controlling"));
    assert!(format!("{:?}", IceRole::Controlled).contains("Controlled"));
}

#[test]
fn test_ice_role_clone() {
    let role = IceRole::Controlling;
    let cloned = role;
    assert_eq!(role, cloned);
}

#[test]
fn test_ice_role_eq() {
    assert_eq!(IceRole::Controlling, IceRole::Controlling);
    assert_ne!(IceRole::Controlling, IceRole::Controlled);
}

#[test]
fn test_ice_state_debug() {
    assert!(format!("{:?}", IceState::New).contains("New"));
    assert!(format!("{:?}", IceState::Gathering).contains("Gathering"));
    assert!(format!("{:?}", IceState::Checking).contains("Checking"));
    assert!(format!("{:?}", IceState::Connected).contains("Connected"));
    assert!(format!("{:?}", IceState::Completed).contains("Completed"));
    assert!(format!("{:?}", IceState::Failed).contains("Failed"));
    assert!(format!("{:?}", IceState::Closed).contains("Closed"));
}

#[test]
fn test_ice_state_clone() {
    let state = IceState::Connected;
    let cloned = state;
    assert_eq!(state, cloned);
}

#[test]
fn test_ice_state_eq() {
    assert_eq!(IceState::New, IceState::New);
    assert_ne!(IceState::New, IceState::Closed);
}

#[test]
fn test_pair_state_debug() {
    assert!(format!("{:?}", PairState::Waiting).contains("Waiting"));
    assert!(format!("{:?}", PairState::InProgress).contains("InProgress"));
    assert!(format!("{:?}", PairState::Succeeded).contains("Succeeded"));
    assert!(format!("{:?}", PairState::Failed).contains("Failed"));
    assert!(format!("{:?}", PairState::Frozen).contains("Frozen"));
}

#[test]
fn test_pair_state_clone() {
    let state = PairState::Succeeded;
    let cloned = state;
    assert_eq!(state, cloned);
}

#[test]
fn test_pair_state_eq() {
    assert_eq!(PairState::Waiting, PairState::Waiting);
    assert_ne!(PairState::Waiting, PairState::Failed);
}

#[test]
fn test_candidate_pair_debug() {
    let local = Candidate::host(
        SocketAddr::new(IpAddr::v4(127, 0, 0, 1), 5000),
        1,
    );
    let remote = Candidate::host(
        SocketAddr::new(IpAddr::v4(192, 168, 1, 1), 5001),
        1,
    );
    let pair = CandidatePair {
        local,
        remote,
        priority: 1000,
        state: PairState::Waiting,
        nominated: false,
    };
    let debug = format!("{:?}", pair);
    assert!(debug.contains("CandidatePair"));
}

#[test]
fn test_candidate_pair_clone() {
    let local = Candidate::host(
        SocketAddr::new(IpAddr::v4(127, 0, 0, 1), 5000),
        1,
    );
    let remote = Candidate::host(
        SocketAddr::new(IpAddr::v4(192, 168, 1, 1), 5001),
        1,
    );
    let pair = CandidatePair {
        local,
        remote,
        priority: 1000,
        state: PairState::Waiting,
        nominated: false,
    };
    let cloned = pair.clone();
    assert_eq!(cloned.priority, pair.priority);
    assert_eq!(cloned.state, pair.state);
}

#[test]
fn test_ice_config_default() {
    let config = IceConfig::default();
    assert!(!config.stun_servers.is_empty());
    assert_eq!(config.local_ufrag.len(), 8);
    assert_eq!(config.local_pwd.len(), 24);
    assert_eq!(config.gather_timeout_ms, 5000);
    assert_eq!(config.check_timeout_ms, 3000);
}

#[test]
fn test_ice_config_custom() {
    let config = IceConfig {
        stun_servers: vec![],
        local_ufrag: "myufrag1".to_string(),
        local_pwd: "mypasswordisverysecret1!".to_string(),
        gather_timeout_ms: 10000,
        check_timeout_ms: 5000,
    };
    assert!(config.stun_servers.is_empty());
    assert_eq!(config.local_ufrag, "myufrag1");
    assert_eq!(config.gather_timeout_ms, 10000);
}

#[test]
fn test_ice_config_debug() {
    let config = IceConfig::default();
    let debug = format!("{:?}", config);
    assert!(debug.contains("IceConfig"));
}

#[test]
fn test_ice_config_clone() {
    let config = IceConfig::default();
    let cloned = config.clone();
    assert_eq!(cloned.gather_timeout_ms, config.gather_timeout_ms);
}

#[test]
fn test_generate_ufrag() {
    let ufrag = generate_ice_ufrag();
    assert_eq!(ufrag.len(), 8);
    assert!(ufrag.chars().all(|c| c.is_ascii_alphanumeric()));
}

#[test]
fn test_generate_pwd() {
    let pwd = generate_ice_pwd();
    assert_eq!(pwd.len(), 24);
    assert!(pwd.chars().all(|c| c.is_ascii_alphanumeric()));
}

#[test]
fn test_generate_ufrag_uniqueness() {
    let ufrag1 = generate_ice_ufrag();
    let ufrag2 = generate_ice_ufrag();
    assert_ne!(ufrag1, ufrag2);
}

#[test]
fn test_generate_pwd_uniqueness() {
    let pwd1 = generate_ice_pwd();
    let pwd2 = generate_ice_pwd();
    assert_ne!(pwd1, pwd2);
}

#[test]
fn test_ice_agent_creation() {
    let config = IceConfig::default();
    let mut agent = IceAgent::new(config, IceRole::Controlling);

    assert_eq!(agent.state(), IceState::New);
}

#[test]
fn test_ice_agent_controlled_role() {
    let config = IceConfig::default();
    let mut agent = IceAgent::new(config, IceRole::Controlled);

    assert_eq!(agent.role, IceRole::Controlled);
    assert_eq!(agent.state(), IceState::New);
}

#[test]
fn test_local_credentials() {
    let config = IceConfig {
        stun_servers: vec![],
        local_ufrag: "testufrag".to_string(),
        local_pwd: "testpasswordverysecure".to_string(),
        ..Default::default()
    };
    let mut agent = IceAgent::new(config, IceRole::Controlling);

    let (ufrag, pwd) = agent.local_credentials();
    assert_eq!(ufrag, "testufrag");
    assert_eq!(pwd, "testpasswordverysecure");
}

#[test]
fn test_gather_host_candidates() {
    // Use empty STUN servers to avoid network calls
    let config = IceConfig {
        stun_servers: vec![],
        ..Default::default()
    };
    let mut agent = IceAgent::new(config, IceRole::Controlling);

    let candidates = agent.gather_candidates(&bound(), &Vec::new());

    // Should have at least one host candidate
    assert!(!candidates.is_empty());
    assert!(candidates
        .iter()
        .any(|c| c.candidate_type == CandidateType::Host));
}

#[test]
fn test_local_candidates_accessor() {
    let config = IceConfig {
        stun_servers: vec![],
        ..Default::default()
    };
    let mut agent = IceAgent::new(config, IceRole::Controlling);

    // Initially empty
    assert!(agent.local_candidates().is_empty());

    // After gathering
    let _ = agent.gather_candidates(&bound(), &Vec::new());
    assert!(!agent.local_candidates().is_empty());
}

#[test]
fn test_form_candidate_pairs() {
    let config = IceConfig {
        stun_servers: vec![],
        ..Default::default()
    };
    let mut agent = IceAgent::new(config, IceRole::Controlling);

    // Directly add local and remote candidates without network
    let local = Candidate::host(
        SocketAddr::new(IpAddr::v4(192, 168, 1, 1), 5001),
        1,
    );
    agent.local_candidates.push(local);

    let remote = Candidate::host(
        SocketAddr::new(IpAddr::v4(192, 168, 1, 100), 5000),
        1,
    );
    agent.add_remote_candidates(vec![remote]);

    // Check that pairs were formed
    let pairs = &agent.candidate_pairs;
    assert_eq!(pairs.len(), 1);
    assert_eq!(pairs[0].state, PairState::Waiting);
}

#[test]
fn test_form_candidate_pairs_different_components() {
    let config = IceConfig {
        stun_servers: vec![],
        ..Default::default()
    };
    let mut agent = IceAgent::new(config, IceRole::Controlling);

    // Add local candidate for component 1
    let local = Candidate::host(
        SocketAddr::new(IpAddr::v4(192, 168, 1, 1), 5001),
        1,
    );
    agent.local_candidates.push(local);

    // Add remote candidate for component 2 (shouldn't pair)
    let remote = Candidate::host(
        SocketAddr::new(IpAddr::v4(192, 168, 1, 100), 5000),
        2, // Different component
    );
    agent.add_remote_candidates(vec![remote]);

    // No pairs should be formed due to component mismatch
    let pairs = &agent.candidate_pairs;
    assert_eq!(pairs.len(), 0);
}

#[test]
fn test_form_candidate_pairs_skips_mismatched_transport() {
    let config = IceConfig {
        stun_servers: vec![],
        ..Default::default()
    };
    let mut agent = IceAgent::new(config, IceRole::Controlling);

    let mut local = Candidate::host(
        SocketAddr::new(IpAddr::v4(192, 168, 1, 1), 5001),
        1,
    );
    local.transport = Transport::Tcp;
    agent.local_candidates.push(local);

    let remote = Candidate::host(
        SocketAddr::new(IpAddr::v4(192, 168, 1, 100), 5000),
        1,
    );
    agent.remote_candidates.push(remote);

    agent.form_candidate_pairs();

    let pairs = &agent.candidate_pairs;
    assert!(pairs.is_empty());
}

#[test]
fn test_set_remote_credentials() {
    let config = IceConfig {
        stun_servers: vec![],
        ..Default::default()
    };
    let mut agent = IceAgent::new(config, IceRole::Controlling);

    // Initially no remote credentials
    assert!(agent.remote_credentials().is_none());

    // Set credentials
    agent.set_remote_credentials("abc123", "password456");

    // Verify they're set
    let creds = agent.remote_credentials();
    assert!(creds.is_some());
    let (ufrag, pwd) = creds.unwrap();
    assert_eq!(ufrag, "abc123");
    assert_eq!(pwd, "password456");
}

#[test]
fn test_selected_pair_initially_none() {
    let config = IceConfig {
        stun_servers: vec![],
        ..Default::default()
    };
    let mut agent = IceAgent::new(config, IceRole::Controlling);

    assert!(agent.selected_pair().is_none());
}

#[test]
fn test_start_checks_missing_socket_falls_back() {
    let config = IceConfig {
        stun_servers: vec![],
        ..Default::default()
    };
    let mut agent = IceAgent::new(config, IceRole::Controlling);

    let local = Candidate::host(
        SocketAddr::new(IpAddr::v4(192, 168, 1, 1), 5001),
        1,
    );
    agent.local_candidates.push(local);

    let remote = Candidate::host(
        SocketAddr::new(IpAddr::v4(192, 168, 1, 100), 5000),
        1,
    );
    agent.add_remote_candidates(vec![remote]);
    agent.set_remote_credentials("remufrag", "rempwd");

    let result = run_checks(&mut agent, |_| false);
    assert!(result.is_ok());
    assert_eq!(agent.state(), IceState::Connected);
}

#[test]
fn test_fallback_selection_non_host_pair() {
    let config = IceConfig {
        stun_servers: vec![],
        ..Default::default()
    };
    let mut agent = IceAgent::new(config, IceRole::Controlling);

    let base = SocketAddr::new(IpAddr::v4(192, 168, 1, 1), 5001);
    let mapped = SocketAddr::new(IpAddr::v4(192, 168, 1, 2), 5002);
    let remote_mapped =
        SocketAddr::new(IpAddr::v4(192, 168, 1, 3), 5003);

    let local_host = Candidate::host(base, 1);
    let remote_srflx = Candidate::server_reflexive(remote_mapped, base, 1);
    let local_srflx = Candidate::server_reflexive(mapped, base, 1);
    let remote_host = Candidate::host(
        SocketAddr::new(IpAddr::v4(192, 168, 1, 100), 5000),
        1,
    );

    let pair1 = CandidatePair {
        local: local_host.clone(),
        remote: remote_srflx,
        priority: 1000,
        state: PairState::Waiting,
        nominated: false,
    };
    let pair2 = CandidatePair {
        local: local_srflx,
        remote: remote_host,
        priority: 900,
        state: PairState::Waiting,
        nominated: false,
    };
    {
        let pairs = &mut agent.candidate_pairs;
        pairs.push(pair1);
        pairs.push(pair2);
    }

    let result = finished(agent.fallback_selection());
    assert!(result.is_ok());

    let selected = agent.selected_pair();
    assert!(selected.is_some());
    let selected = selected.unwrap();
    assert_eq!(selected.local.candidate_type, CandidateType::Host);
    assert_eq!(
        selected.remote.candidate_type,
        CandidateType::ServerReflexive
    );
}

#[test]
fn test_fallback_no_candidates() {
    let config = IceConfig {
        stun_servers: vec![],
        ..Default::default()
    };
    let mut agent = IceAgent::new(config, IceRole::Controlling);

    // No candidates added, should fail
    let result = run_checks(&mut agent, |_| false);
    assert!(result.is_err());
    assert!(agent.state() == IceState::Failed);
}

#[test]
fn test_ice_state_transitions() {
    let config = IceConfig {
        stun_servers: vec![],
        ..Default::default()
    };
    let mut agent = IceAgent::new(config, IceRole::Controlling);

    // Initial state
    assert_eq!(agent.state(), IceState::New);

    // After gathering
    let _ = agent.gather_candidates(&bound(), &Vec::new());
    assert_eq!(agent.state(), IceState::Gathering);

    // Close
    agent.close();
    assert_eq!(agent.state(), IceState::Closed);
}

#[test]
fn test_close_clears_sockets() {
    let config = IceConfig {
        stun_servers: vec![],
        ..Default::default()
    };
    let mut agent = IceAgent::new(config, IceRole::Controlling);

    // Gather to create sockets
    let _ = agent.gather_candidates(&bound(), &Vec::new());
    assert!(!agent.sockets.is_empty());

    // Close should clear sockets
    agent.close();
    assert!(agent.sockets.is_empty());
}

#[test]
fn test_multiple_remote_candidates() {
    let config = IceConfig {
        stun_servers: vec![],
        ..Default::default()
    };
    let mut agent = IceAgent::new(config, IceRole::Controlling);

    // Add local candidate
    let local = Candidate::host(
        SocketAddr::new(IpAddr::v4(192, 168, 1, 1), 5001),
        1,
    );
    agent.local_candidates.push(local);

    // Add multiple remote candidates
    let remote1 = Candidate::host(
        SocketAddr::new(IpAddr::v4(192, 168, 1, 100), 5000),
        1,
    );
    let remote2 = Candidate::host(
        SocketAddr::new(IpAddr::v4(192, 168, 1, 101), 5000),
        1,
    );
    agent.add_remote_candidates(vec![remote1, remote2]);

    // Should have 2 pairs
    let pairs = &agent.candidate_pairs;
    assert_eq!(pairs.len(), 2);
}

#[test]
fn test_controlling_agent_nominates_pair() {
    let config = IceConfig {
        stun_servers: vec![],
        ..Default::default()
    };
    let mut agent = IceAgent::new(config, IceRole::Controlling);

    // Create a pair and simulate successful check
    let local = Candidate::host(
        SocketAddr::new(IpAddr::v4(192, 168, 1, 1), 5001),
        1,
    );
    let remote = Candidate::host(
        SocketAddr::new(IpAddr::v4(192, 168, 1, 100), 5000),
        1,
    );

    agent.local_candidates.push(local.clone());
    agent.add_remote_candidates(vec![remote.clone()]);

    // Manually mark pair as succeeded (simulating successful check)
    {
        let pairs = &mut agent.candidate_pairs;
        let pair = pairs.get_mut(0).unwrap();
        pair.state = PairState::Succeeded;
        pair.nominated = true;

        // Select the pair
        agent.selected_pair = Some(pair.clone());
        agent.state = IceState::Connected;
    }

    // Verify controlling agent nominated the pair
    let selected = agent.selected_pair().unwrap();
    assert!(selected.nominated);
    assert_eq!(selected.state, PairState::Succeeded);
    assert_eq!(agent.state(), IceState::Connected);
}

#[test]
fn test_controlled_agent_does_not_nominate() {
    let config = IceConfig {
        stun_servers: vec![],
        ..Default::default()
    };
    let mut agent = IceAgent::new(config, IceRole::Controlled);

    let local = Candidate::host(
        SocketAddr::new(IpAddr::v4(192, 168, 1, 1), 5001),
        1,
    );
    let remote = Candidate::host(
        SocketAddr::new(IpAddr::v4(192, 168, 1, 100), 5000),
        1,
    );

    agent.local_candidates.push(local);
    agent.add_remote_candidates(vec![remote]);

    // Manually mark pair as succeeded
    {
        let pairs = &mut agent.candidate_pairs;
        let pair = pairs.get_mut(0).unwrap();
        pair.state = PairState::Succeeded;
        pair.nominated = false;

        agent.selected_pair = Some(pair.clone());
        agent.state = IceState::Connected;
    }

    // Verify controlled agent did not nominate
    let selected = agent.selected_pair().unwrap();
    assert!(!selected.nominated);
}

#[test]
fn test_pair_prioritization() {
    let config = IceConfig {
        stun_servers: vec![],
        ..Default::default()
    };
    let mut agent = IceAgent::new(config, IceRole::Controlling);

    // Add multiple local candidates with different priorities
    let local1 = Candidate::host(
        SocketAddr::new(IpAddr::v4(192, 168, 1, 1), 5001),
        1,
    );
    let local2 = Candidate::server_reflexive(
        SocketAddr::new(IpAddr::v4(1, 2, 3, 4), 5002),
        SocketAddr::new(IpAddr::v4(192, 168, 1, 1), 5001),
        1,
    );

    agent.local_candidates.push(local1);
    agent.local_candidates.push(local2);

    // Add remote candidate
    let remote = Candidate::host(
        SocketAddr::new(IpAddr::v4(192, 168, 1, 100), 5000),
        1,
    );
    agent.add_remote_candidates(vec![remote]);

    // Check pairs are sorted by priority (highest first)
    let pairs = &agent.candidate_pairs;
    assert_eq!(pairs.len(), 2);

    // Host candidates have higher priority than srflx
    // So first pair should have host local candidate
    assert!(pairs[0].priority >= pairs[1].priority);
}

#[test]
fn test_unfreeze_related_pairs() {
    let config = IceConfig {
        stun_servers: vec![],
        ..Default::default()
    };
    let mut agent = IceAgent::new(config, IceRole::Controlling);

    // Create candidates with same foundation
    let local1 = Candidate::host(
        SocketAddr::new(IpAddr::v4(192, 168, 1, 1), 5001),
        1,
    );
    let local2 = Candidate::host(
        SocketAddr::new(IpAddr::v4(192, 168, 1, 1), 5002),
        1,
    );

    let remote1 = Candidate::host(
        SocketAddr::new(IpAddr::v4(192, 168, 1, 100), 5000),
        1,
    );
    let remote2 = Candidate::host(
        SocketAddr::new(IpAddr::v4(192, 168, 1, 101), 5001),
        1,
    );

    agent.local_candidates.push(local1.clone());
    agent.local_candidates.push(local2);
    agent
        .add_remote_candidates(vec![remote1.clone(), remote2]);

    // Set all pairs to Frozen except first
    {
        let pairs = &mut agent.candidate_pairs;
        for (i, pair) in pairs.iter_mut().enumerate() {
            if i == 0 {
                pair.state = PairState::Succeeded;
            } else {
                pair.state = PairState::Frozen;
            }
        }
    }

    // Create a succeeded pair for unfreezing
    let succeeded_pair = CandidatePair {
        local: local1,
        remote: remote1,
        priority: 1000,
        state: PairState::Succeeded,
        nominated: false,
    };

    // Unfreeze related pairs
    unfreeze_related_pairs(&mut agent.candidate_pairs, 0, &succeeded_pair);

    // Check that pairs with same foundation are now Waiting
    let pairs = &agent.candidate_pairs;
    let unfrozen_count = pairs
        .iter()
        .filter(|p| p.state == PairState::Waiting)
        .count();
    assert!(unfrozen_count > 0);
}

#[test]
fn test_unfreeze_related_pairs_skips_mismatched() {
    let config = IceConfig {
        stun_servers: vec![],
        ..Default::default()
    };
    let mut agent = IceAgent::new(config, IceRole::Controlling);

    let local_base = Candidate::host(
        SocketAddr::new(IpAddr::v4(10, 0, 0, 1), 5001),
        1,
    );
    let local_other = Candidate::host(
        SocketAddr::new(IpAddr::v4(10, 0, 0, 2), 5002),
        1,
    );
    let remote = Candidate::host(
        SocketAddr::new(IpAddr::v4(10, 0, 0, 100), 5000),
        1,
    );

    let succeeded = CandidatePair {
        local: local_base.clone(),
        remote: remote.clone(),
        priority: 1000,
        state: PairState::Succeeded,
        nominated: false,
    };

    let frozen_match = CandidatePair {
        local: local_base.clone(),
        remote: remote.clone(),
        priority: 900,
        state: PairState::Frozen,
        nominated: false,
    };

    let waiting_match = CandidatePair {
        local: local_base.clone(),
        remote: remote.clone(),
        priority: 800,
        state: PairState::Waiting,
        nominated: false,
    };

    let frozen_other = CandidatePair {
        local: local_other,
        remote,
        priority: 700,
        state: PairState::Frozen,
        nominated: false,
    };

    {
        let pairs = &mut agent.candidate_pairs;
        pairs.clear();
        pairs.push(succeeded.clone());
        pairs.push(frozen_match);
        pairs.push(waiting_match);
        pairs.push(frozen_other);
    }

    unfreeze_related_pairs(&mut agent.candidate_pairs, 0, &succeeded);

    let pairs = &agent.candidate_pairs;
    assert_eq!(pairs[1].state, PairState::Waiting);
    assert_eq!(pairs[2].state, PairState::Waiting);
    assert_eq!(pairs[3].state, PairState::Frozen);
}

#[test]
fn test_fallback_prefers_host_to_host() {
    let config = IceConfig {
        stun_servers: vec![],
        ..Default::default()
    };
    let mut agent = IceAgent::new(config, IceRole::Controlling);

    // Add srflx local candidate
    let local_srflx = Candidate::server_reflexive(
        SocketAddr::new(IpAddr::v4(1, 2, 3, 4), 5001),
        SocketAddr::new(IpAddr::v4(192, 168, 1, 1), 5001),
        1,
    );

    // Add host local candidate
    let local_host = Candidate::host(
        SocketAddr::new(IpAddr::v4(192, 168, 1, 2), 5002),
        1,
    );

    agent.local_candidates.push(local_srflx);
    agent.local_candidates.push(local_host);

    // Add host remote candidate
    let remote_host = Candidate::host(
        SocketAddr::new(IpAddr::v4(192, 168, 1, 100), 5000),
        1,
    );
    agent.add_remote_candidates(vec![remote_host]);

    // Fallback selection
    let result = finished(agent.fallback_selection());
    assert!(result.is_ok());

    // Should prefer host-to-host
    let selected = agent.selected_pair().unwrap();
    assert_eq!(selected.local.candidate_type, CandidateType::Host);
    assert_eq!(selected.remote.candidate_type, CandidateType::Host);
}

#[test]
fn test_form_candidate_pairs_no_duplicates() {
    let config = IceConfig {
        stun_servers: vec![],
        ..Default::default()
    };
    let mut agent = IceAgent::new(config, IceRole::Controlling);

    let local = Candidate::host(
        SocketAddr::new(IpAddr::v4(192, 168, 1, 1), 5001),
        1,
    );
    agent.local_candidates.push(local);

    let remote = Candidate::host(
        SocketAddr::new(IpAddr::v4(192, 168, 1, 100), 5000),
        1,
    );

    // Add same remote candidate twice
    agent.add_remote_candidates(vec![remote.clone()]);
    agent.add_remote_candidates(vec![remote]);

    // Should only have 1 pair (no duplicates)
    let pairs = &agent.candidate_pairs;
    assert_eq!(pairs.len(), 1);
}

#[test]
fn test_form_candidate_pairs_frozen_state() {
    let config = IceConfig {
        stun_servers: vec![],
        ..Default::default()
    };
    let mut agent = IceAgent::new(config, IceRole::Controlling);

    // Add multiple local candidates with different foundations
    let local1 = Candidate::host(
        SocketAddr::new(IpAddr::v4(192, 168, 1, 1), 5001),
        1,
    );
    let local2 = Candidate::host(
        SocketAddr::new(IpAddr::v4(192, 168, 1, 2), 5002),
        1,
    );

    agent.local_candidates.push(local1);
    agent.local_candidates.push(local2);

    let remote = Candidate::host(
        SocketAddr::new(IpAddr::v4(192, 168, 1, 100), 5000),
        1,
    );
    agent.add_remote_candidates(vec![remote]);

    let pairs = &agent.candidate_pairs;

    // First pair of each foundation should be Waiting, others Frozen
    let waiting_count = pairs
        .iter()
        .filter(|p| p.state == PairState::Waiting)
        .count();
    assert!(waiting_count > 0);
}

#[test]
fn test_update_remote_credentials() {
    let config = IceConfig {
        stun_servers: vec![],
        ..Default::default()
    };
    let mut agent = IceAgent::new(config, IceRole::Controlling);

    // Set initial credentials
    agent.set_remote_credentials("user1", "pass1");
    let (ufrag, pwd) = agent.remote_credentials().unwrap();
    assert_eq!(ufrag, "user1");
    assert_eq!(pwd, "pass1");

    // Update credentials
    agent.set_remote_credentials("user2", "pass2");
    let (ufrag, pwd) = agent.remote_credentials().unwrap();
    assert_eq!(ufrag, "user2");
    assert_eq!(pwd, "pass2");
}

#[test]
fn test_remote_credentials_missing_password() {
    let config = IceConfig {
        stun_servers: vec![],
        ..Default::default()
    };
    let mut agent = IceAgent::new(config, IceRole::Controlling);

    agent.remote_ufrag = Some("user".to_string());
    let creds = agent.remote_credentials();
    assert!(creds.is_none());
}

#[test]
fn test_pair_priority_role_difference() {
    let config_controlling = IceConfig {
        stun_servers: vec![],
        ..Default::default()
    };
    let mut agent_controlling = IceAgent::new(config_controlling, IceRole::Controlling);

    let config_controlled = IceConfig {
        stun_servers: vec![],
        ..Default::default()
    };
    let mut agent_controlled = IceAgent::new(config_controlled, IceRole::Controlled);

    // Add same candidates to both agents
    let local = Candidate::host(
        SocketAddr::new(IpAddr::v4(192, 168, 1, 1), 5001),
        1,
    );
    let remote = Candidate::host(
        SocketAddr::new(IpAddr::v4(192, 168, 1, 100), 5000),
        1,
    );

    agent_controlling
        .local_candidates
        .push(local.clone());
    agent_controlling
        .add_remote_candidates(vec![remote.clone()]);

    agent_controlled.local_candidates.push(local);
    agent_controlled.add_remote_candidates(vec![remote]);

    // Both should compute same priority for the pair
    let pairs_controlling = &agent_controlling.candidate_pairs;
    let pairs_controlled = &agent_controlled.candidate_pairs;

    assert_eq!(pairs_controlling[0].priority, pairs_controlled[0].priority);
}

#[test]
fn test_gather_candidates_state() {
    let config = IceConfig {
        stun_servers: vec![],
        ..Default::default()
    };
    let mut agent = IceAgent::new(config, IceRole::Controlling);

    assert_eq!(agent.state(), IceState::New);

    let _ = agent.gather_candidates(&bound(), &Vec::new());

    // State should be Gathering (remains after gathering completes)
    assert_eq!(agent.state(), IceState::Gathering);
}

#[test]
fn test_start_checks_state() {
    let config = IceConfig {
        stun_servers: vec![],
        ..Default::default()
    };
    let mut agent = IceAgent::new(config, IceRole::Controlling);

    // Add minimal setup for checks
    let local = Candidate::host(
        SocketAddr::new(IpAddr::v4(192, 168, 1, 1), 5001),
        1,
    );
    agent.local_candidates.push(local);

    let remote = Candidate::host(
        SocketAddr::new(IpAddr::v4(192, 168, 1, 100), 5000),
        1,
    );
    agent.add_remote_candidates(vec![remote]);

    // Without remote credentials, will use fallback
    let _ = run_checks(&mut agent, |_| false);

    // Should end up in Connected state (via fallback)
    assert_eq!(agent.state(), IceState::Connected);
}

#[test]
fn test_get_local_addresses() {
    let addrs = local_addresses(Some(IpAddr::v4(192, 168, 1, 7)));
    // Should at least contain localhost
    assert!(!addrs.is_empty());
    assert!(addrs.contains(&IpAddr::v4(127, 0, 0, 1)));
    assert!(addrs.contains(&IpAddr::v4(192, 168, 1, 7)));
}

#[test]
fn test_get_local_addresses_with_bind_error() {
    let addrs = local_addresses(None);
    assert_eq!(addrs, vec![IpAddr::v4(127, 0, 0, 1)]);
}

#[test]
fn test_get_local_addresses_with_success() {
    let addrs = local_addresses(Some(IpAddr::v4(127, 0, 0, 1)));
    assert_eq!(addrs, vec![IpAddr::v4(127, 0, 0, 1)]);
}

#[test]
fn test_credentials_from_chosen_characters() {
    assert_eq!(credential_from(&vec![0, 9, 10, 35]).len(), 4);
    assert_ne!(credential_from(&vec![0]), credential_from(&vec![1]));
}

#[test]
fn test_start_checks_success() {
    let mut agent = ready_agent(IceRole::Controlling);
    let result = run_checks(&mut agent, |_| true);
    assert!(result.is_ok());
    let selected = agent.selected_pair().unwrap();
    assert_eq!(selected.state, PairState::Succeeded);
    assert!(selected.nominated);
}

#[test]
fn test_start_checks_pair_state_progression() {
    let mut agent = ready_agent(IceRole::Controlling);
    assert_eq!(agent.candidate_pairs[0].state, PairState::Waiting);
    let _ = first_check(&mut agent);
    assert_eq!(agent.state(), IceState::Checking);
    assert_eq!(agent.candidate_pairs[0].state, PairState::InProgress);
    let _ = agent.on_check_result(false);
    assert!(agent.candidate_pairs.iter().any(|p| p.state == PairState::Failed));
}

#[test]
fn test_start_checks_success_controlling() {
    let mut agent = ready_agent(IceRole::Controlling);
    assert!(run_checks(&mut agent, |_| true).is_ok());
    let selected = agent.selected_pair();
    assert!(selected.is_some());
    assert!(selected.unwrap().nominated);
}

#[test]
fn test_start_checks_success_controlled() {
    let mut agent = ready_agent(IceRole::Controlled);
    assert!(run_checks(&mut agent, |_| true).is_ok());
    let selected = agent.selected_pair();
    assert!(selected.is_some());
    assert!(!selected.unwrap().nominated);
}

#[test]
fn test_controlled_agent_ice_attribute() {
    let mut agent = ready_agent(IceRole::Controlled);
    let check = first_check(&mut agent);
    // Check for ICE-CONTROLLED attribute (0x8029)
    assert!(check.request.windows(2).any(|w| w[0] == 0x80 && w[1] == 0x29));
    let mut agent = ready_agent(IceRole::Controlling);
    let check = first_check(&mut agent);
    assert!(check.request.windows(2).any(|w| w[0] == 0x80 && w[1] == 0x2a));
}

#[test]
fn test_connectivity_check_username_format() {
    let mut agent = ready_agent(IceRole::Controlling);
    let check = first_check(&mut agent);
    let payload = String::from_utf8_lossy(&check.request).into_owned();
    assert!(payload.contains("remoteusr:localusr"));
    assert_eq!(check.socket, bound()[0]);
    assert_eq!(check.target, SocketAddr::new(IpAddr::v4(127, 0, 0, 1), 50000));
    assert_eq!(&check.request[8..20], &check.transaction_id);
}

#[test]
fn test_fallback_selection() {
    let config = IceConfig {
        stun_servers: vec![],
        ..Default::default()
    };
    let mut agent = IceAgent::new(config, IceRole::Controlling);
    agent.gather_candidates(
        &vec![SocketAddr::new(IpAddr::v4(192, 168, 1, 1), 5001)],
        &Vec::new(),
    );
    let remote = Candidate::host(SocketAddr::new(IpAddr::v4(192, 168, 1, 100), 5000), 1);
    agent.add_remote_candidates(vec![remote]);

    // Without remote credentials, should use fallback
    let result = run_checks(&mut agent, |_| false);
    assert!(result.is_ok());

    // Should have selected the host-to-host pair
    let selected = agent.selected_pair();
    assert!(selected.is_some());
    let pair = selected.unwrap();
    assert_eq!(pair.local.candidate_type, CandidateType::Host);
    assert_eq!(pair.remote.candidate_type, CandidateType::Host);
}

#[test]
fn test_perform_connectivity_check_success() {
    let txn_id = [7u8; 12];
    let response = build_connectivity_check_response(&txn_id);
    let progress = on_check_event(&txn_id, 0, CheckEvent::Received(&response));
    assert_eq!(progress.outcome, Some(true));
    assert!(!progress.retransmit);
}

#[test]
fn test_perform_connectivity_check_timeout() {
    let txn_id = [7u8; 12];
    for attempt in 0..CHECK_ATTEMPTS {
        let progress = on_check_event(&txn_id, attempt, CheckEvent::TimedOut);
        assert!(progress.retransmit);
        let last = attempt + 1 == CHECK_ATTEMPTS;
        assert_eq!(progress.outcome, if last { Some(false) } else { None });
    }
}

#[test]
fn test_perform_connectivity_check_send_error() {
    let txn_id = [7u8; 12];
    for attempt in 0..CHECK_ATTEMPTS {
        let progress = on_check_event(&txn_id, attempt, CheckEvent::ReceiveFailed);
        assert!(!progress.retransmit);
        let last = attempt + 1 == CHECK_ATTEMPTS;
        assert_eq!(progress.outcome, if last { Some(false) } else { None });
    }
}

#[test]
fn test_perform_connectivity_check_invalid_response() {
    // Too short
    assert!(!is_check_answer(&[0, 1, 2, 3], &[7u8; 12]));
}

#[test]
fn test_perform_connectivity_check_bad_message_type() {
    let txn_id = [7u8; 12];
    // Not a response
    assert!(!is_check_answer(&stun_message(0x0001, 0x2112A442, &txn_id, &[]), &txn_id));
}

#[test]
fn test_perform_connectivity_check_bad_cookie() {
    let txn_id = [7u8; 12];
    assert!(!is_check_answer(&stun_message(0x0101, 0xDEADBEEF, &txn_id, &[]), &txn_id));
}

#[test]
fn test_perform_connectivity_check_wrong_transaction_id() {
    let wrong_txn_id = [9u8; 12];
    let response = build_connectivity_check_response(&wrong_txn_id);
    assert!(!is_check_answer(&response, &[7u8; 12]));
}

/// Message integrity of a known request: the HMAC-SHA1 of what stands before it, under the
/// remote password.
#[test]
fn test_check_carries_its_integrity() {
    let request = build_check(
        &[1u8; 12],
        "a:b",
        0x6e0001ff,
        IceRole::Controlling,
        &[2u8; 8],
        "secret",
    );
    let text: String = request.iter().map(|b| format!("{b:02x}")).collect();
    assert_eq!(&text[..40], "000100342112a442010101010101010101010101");
    let integrity = request.len() - 20;
    assert_eq!(&request[integrity - 4..integrity], &[0x00, 0x08, 0x00, 0x14]);
    assert_eq!(&text[2 * integrity..], "afddd6a5b3422485b35fb6a04c661e7dbe8b3292");
    let other = build_check(
        &[1u8; 12],
        "a:b",
        0x6e0001ff,
        IceRole::Controlling,
        &[2u8; 8],
        "other",
    );
    assert_eq!(request[..integrity], other[..integrity]);
    assert_ne!(request[integrity..], other[integrity..]);
}

#[test]
fn test_stun_binding_request_success() {
    let txn_id = [3u8; 12];
    let request = build_binding_request(&txn_id);
    assert_eq!(request.to_vec(), stun_message(0x0001, 0x2112A442, &txn_id, &[]));
    let mapped_addr = SocketAddr::new(IpAddr::v4(1, 2, 3, 4), 5678);
    let response = build_binding_response(&txn_id, mapped_addr);
    assert!(is_whole(&response));
    let result = parse_binding_response(&response);
    assert!(result.is_ok());
    assert_eq!(result.unwrap(), mapped_addr);
}

#[test]
fn test_stun_binding_request_too_short() {
    assert!(is_whole(&[0u8; 8]));
    let result = parse_binding_response(&[0u8; 8]);
    assert!(result.is_err());
}

#[test]
fn test_stun_binding_request_not_response() {
    // Not a response
    let msg = stun_message(0x0001, 0x2112A442, &[3u8; 12], &[]);
    assert!(matches!(parse_binding_response(&msg), Err(StunError::InvalidResponse(_))));
}

#[test]
fn test_stun_binding_request_non_xor_attribute() {
    let mut attrs = BytesMut::new();
    attrs.put_u16(0x0001); // Dummy attribute
    attrs.put_u16(4);
    attrs.put_u32(0x01020304);
    let msg = stun_message(0x0101, 0x2112A442, &[3u8; 12], &attrs);
    assert!(is_whole(&msg));
    assert!(matches!(parse_binding_response(&msg), Err(StunError::NoMappedAddress)));
}

#[test]
fn test_stun_binding_request_non_ipv4_family() {
    let mut attrs = BytesMut::new();
    attrs.put_u16(0x0020); // XOR-MAPPED-ADDRESS
    attrs.put_u16(8);
    attrs.put_u8(0);
    attrs.put_u8(0x02); // IPv6 family
    attrs.put_u16(0x1234);
    attrs.put_u32(0x01020304);
    let msg = stun_message(0x0101, 0x2112A442, &[3u8; 12], &attrs);
    assert!(is_whole(&msg));
    assert!(parse_binding_response(&msg).is_err());
}

#[test]
fn test_stun_binding_request_short_xor_attribute() {
    let mut attrs = BytesMut::new();
    attrs.put_u16(0x0020); // XOR-MAPPED-ADDRESS
    attrs.put_u16(4); // Too short
    attrs.put_u32(0x01020304);
    let msg = stun_message(0x0101, 0x2112A442, &[3u8; 12], &attrs);
    assert!(is_whole(&msg));
    assert!(parse_binding_response(&msg).is_err());
}

#[test]
fn test_stun_binding_request_timeout() {
    let err = StunError::Timeout;
    assert_eq!(err.describe(), "Request timeout");
}

#[test]
fn test_stun_binding_request_recv_error() {
    let err = StunError::Io("forced recv_from error".to_string());
    assert_eq!(err.describe(), "IO error: forced recv_from error");
}

#[test]
fn test_stun_binding_request_bad_magic_cookie() {
    // Wrong magic cookie
    let msg = stun_message(0x0101, 0xDEADBEEF, &[3u8; 12], &[]);
    let result = parse_binding_response(&msg);
    assert!(result.is_err());
}

#[test]
fn test_stun_binding_request_no_mapped_address() {
    // No attributes
    let msg = stun_message(0x0101, 0x2112A442, &[3u8; 12], &[]);
    let result = parse_binding_response(&msg);
    assert!(result.is_err());
}

#[test]
fn test_gather_srflx_candidates() {
    let mut agent = IceAgent::new(IceConfig::default(), IceRole::Controlling);
    let base = bound()[0];
    let mapped_addr = SocketAddr::new(IpAddr::v4(1, 2, 3, 4), 9999);
    let candidates = agent.gather_candidates(&bound(), &vec![(base, mapped_addr)]);
    assert_eq!(candidates.len(), 2);
    assert_eq!(candidates[1].candidate_type, CandidateType::ServerReflexive);
    assert_eq!(candidates[1].address, mapped_addr);
    assert_eq!(candidates[1].related_address, Some(base));
    assert_eq!(candidates[1].socket_addr(), base);
}

#[test]
fn test_gather_srflx_candidates_ignores_base_address() {
    let mut agent = IceAgent::new(IceConfig::default(), IceRole::Controlling);
    let base = bound()[0];
    let candidates = agent.gather_candidates(&bound(), &vec![(base, base)]);
    assert!(candidates.iter().all(|c| c.candidate_type == CandidateType::Host));
}

#[test]
fn test_candidate_priorities() {
    let base = bound()[0];
    let host = Candidate::host(base, 1);
    let srflx = Candidate::server_reflexive(SocketAddr::new(IpAddr::v4(1, 2, 3, 4), 1), base, 1);
    assert_eq!(host.priority, (126 << 24) + (65535 << 8) + 255);
    assert_eq!(srflx.priority, (100 << 24) + (65535 << 8) + 255);
    assert_eq!(
        calculate_pair_priority(true, 10, 20),
        (10u64 << 32) + 2 * 20
    );
    assert_eq!(
        calculate_pair_priority(true, 20, 10),
        (10u64 << 32) + 2 * 20 + 1
    );
    assert_eq!(calculate_pair_priority(false, 10, 20), calculate_pair_priority(true, 20, 10));
}

#[test]
fn test_google_stun_server() {
    let server = StunServer::google();
    assert_eq!(server.name, "stun.l.google.com");
    assert_eq!(server.addr.port, 19302);
}

#[test]
fn test_generate_transaction_id() {
    let id1 = generate_transaction_id();
    let id2 = generate_transaction_id();
    assert_ne!(id1, id2);
    assert_eq!(id1.len(), 12);
}

#[test]
fn test_xor_address_encode_decode_ipv4() {
    let txn_id = [0x11u8; 12];
    let addr = SocketAddr::new(IpAddr::v4(192, 168, 1, 100), 12345);

    let mut buf = BytesMut::new();
    encode_xor_address(&mut buf, ATTR_XOR_PEER_ADDRESS, addr, &txn_id);

    // Skip type and length
    let encoded = &buf[4..];
    let decoded = parse_xor_address(encoded, &txn_id).unwrap();

    assert_eq!(decoded, addr);
}

#[test]
fn test_xor_address_encode_decode_ipv6() {
    let txn_id = [0x42u8; 12];
    let addr = SocketAddr::new(IpAddr::V6(0x20010db8, 0, 0, 1), 443);
    let mut buf = BytesMut::new();
    encode_xor_address(&mut buf, ATTR_XOR_PEER_ADDRESS, addr, &txn_id);
    assert_eq!(buf.len(), 24);
    assert_eq!(parse_xor_address(&buf[4..], &txn_id), Some(addr));
    assert_ne!(parse_xor_address(&buf[4..], &[0x43u8; 12]), Some(addr));
    assert_eq!(parse_xor_address(&[0, 1, 2], &txn_id), None);
}

#[test]
fn test_turn_server_new() {
    let server = TurnServer::new(
        SocketAddr::new(IpAddr::v4(1, 2, 3, 4), 3478),
        "user",
        "pass",
    );

    assert_eq!(server.username, "user");
    assert_eq!(server.password, "pass");
    assert_eq!(server.addr.port, 3478);
}

#[test]
fn test_pad_to_4_bytes() {
    let mut buf = BytesMut::new();
    buf.put_slice(b"abc");
    pad_to_4_bytes(&mut buf, 3);
    assert_eq!(buf.len(), 4);

    let mut buf = BytesMut::new();
    buf.put_slice(b"abcd");
    pad_to_4_bytes(&mut buf, 4);
    assert_eq!(buf.len(), 4);

    let mut buf = BytesMut::new();
    buf.put_slice(b"ab");
    pad_to_4_bytes(&mut buf, 2);
    assert_eq!(buf.len(), 4);
}

fn turn_client() -> TurnClient {
    let addr = SocketAddr::new(IpAddr::v4(1, 2, 3, 4), 3478);
    TurnClient::new(TurnServer::new(addr, "user", "pass"))
}

fn allocation_reply(txn_id: &[u8; 12]) -> Vec<u8> {
    let mut attrs = BytesMut::new();
    let relayed = SocketAddr::new(IpAddr::v4(5, 6, 7, 8), 49152);
    let mapped = SocketAddr::new(IpAddr::v4(9, 9, 9, 9), 1234);
    encode_xor_address(&mut attrs, ATTR_XOR_RELAYED_ADDRESS, relayed, txn_id);
    encode_xor_address(&mut attrs, ATTR_XOR_MAPPED_ADDRESS, mapped, txn_id);
    put_attr(&mut attrs, ATTR_LIFETIME, &300u32.to_be_bytes());
    message(ALLOCATE_RESPONSE, txn_id, &attrs).to_vec()
}

fn challenge(txn_id: &[u8; 12]) -> Vec<u8> {
    let mut attrs = BytesMut::new();
    put_attr(&mut attrs, ATTR_ERROR_CODE, &[0, 0, 4, 1, b'U', b'n', b'a', b'u']);
    put_attr(&mut attrs, ATTR_REALM, b"example.org");
    put_attr(&mut attrs, ATTR_NONCE, b"nonce");
    message(ALLOCATE_ERROR, txn_id, &attrs).to_vec()
}

#[test]
fn test_turn_allocation_with_authentication() {
    let mut client = turn_client();
    assert!(client.relayed_addr().is_none());
    let request = client.allocate();
    assert_eq!(&request[0..2], &ALLOCATE_REQUEST.to_be_bytes());
    assert_eq!(&request[8..20], &client.transaction_id);
    let reply = challenge(&client.transaction_id);
    assert!(!is_cut_short(&reply));
    let (realm, nonce) = match client.on_allocate_reply(&reply) {
        AllocateStep::Challenged { realm, nonce } => (realm, nonce),
        AllocateStep::Finished(_) => panic!("expected a challenge"),
    };
    assert_eq!((realm.as_str(), nonce.as_str()), ("example.org", "nonce"));
    let request = client.authenticate(&realm, &nonce);
    let holds = |kind: u16, value: &[u8]| {
        let mut attr = kind.to_be_bytes().to_vec();
        attr.extend_from_slice(&(value.len() as u16).to_be_bytes());
        attr.extend_from_slice(value);
        request.windows(attr.len()).any(|w| w == attr)
    };
    assert!(holds(ATTR_USERNAME, b"user"));
    assert!(holds(ATTR_REALM, b"example.org"));
    assert!(holds(ATTR_NONCE, b"nonce"));
    let reply = allocation_reply(&client.transaction_id);
    let allocation = client.on_authenticated_reply(&reply, realm, nonce).unwrap();
    assert_eq!(allocation.lifetime, 300);
    assert_eq!(allocation.realm, "example.org");
    let relayed = SocketAddr::new(IpAddr::v4(5, 6, 7, 8), 49152);
    assert_eq!(client.relayed_addr(), Some(relayed));
    assert_eq!(client.allocation().unwrap().mapped_addr.port, 1234);
}

#[test]
fn test_turn_needs_an_allocation() {
    let mut client = turn_client();
    let peer = SocketAddr::new(IpAddr::v4(1, 1, 1, 1), 1);
    let transaction_id = client.transaction_id;
    assert!(matches!(client.refresh(600), Err(TurnError::NotAllocated)));
    assert!(matches!(client.create_permission(peer), Err(TurnError::NotAllocated)));
    assert_eq!(client.transaction_id, transaction_id);
    assert!(matches!(client.send_data(peer, b"x"), Err(TurnError::NotAllocated)));
}

#[test]
fn test_turn_refresh_and_permission() {
    let mut client = turn_client();
    client.allocate();
    let reply = allocation_reply(&client.transaction_id);
    assert!(matches!(client.on_allocate_reply(&reply), AllocateStep::Finished(Ok(_))));
    client.refresh(900).unwrap();
    let mut attrs = BytesMut::new();
    put_attr(&mut attrs, ATTR_LIFETIME, &900u32.to_be_bytes());
    let reply = message(REFRESH_RESPONSE, &client.transaction_id, &attrs).to_vec();
    assert_eq!(client.on_refresh_reply(&reply).unwrap(), 900);
    let peer = SocketAddr::new(IpAddr::v4(1, 1, 1, 1), 1);
    client.create_permission(peer).unwrap();
    let reply = message(CREATE_PERMISSION_RESPONSE, &client.transaction_id, &BytesMut::new());
    assert!(client.on_permission_reply(&reply).is_ok());
    assert!(client.on_permission_reply(&[0; 20]).is_err());
}

#[test]
fn test_turn_data_goes_through() {
    let txn_id = [5u8; 12];
    let peer = SocketAddr::new(IpAddr::v4(10, 0, 0, 9), 4321);
    let sent = build_send_indication(&txn_id, peer, b"hello");
    assert_eq!(&sent[0..2], &SEND_INDICATION.to_be_bytes());
    let mut attrs = BytesMut::new();
    encode_xor_address(&mut attrs, ATTR_XOR_PEER_ADDRESS, peer, &txn_id);
    put_attr(&mut attrs, ATTR_DATA, b"hello");
    assert_eq!(&sent[20..], &attrs[..]);
    let received = message(DATA_INDICATION, &txn_id, &attrs).to_vec();
    let client = turn_client();
    assert_eq!(client.recv_data(&received).unwrap(), (peer, b"hello".to_vec()));
    assert!(client.recv_data(&sent).is_err());
}

#[test]
fn test_turn_errors() {
    let txn_id = [5u8; 12];
    let other = allocation_reply(&[6u8; 12]);
    assert!(matches!(
        parse_allocate_response(&other, &txn_id),
        Err(TurnError::InvalidResponse(_))
    ));
    assert!(matches!(
        parse_allocate_response(&[0; 3], &txn_id),
        Err(TurnError::InvalidResponse(_))
    ));
    let empty = message(ALLOCATE_RESPONSE, &txn_id, &BytesMut::new()).to_vec();
    assert!(matches!(
        parse_allocate_response(&empty, &txn_id),
        Err(TurnError::NoRelayAddress)
    ));
    let mut attrs = BytesMut::new();
    put_attr(&mut attrs, ATTR_ERROR_CODE, &[0, 0, 4, 37, b'M', b'i', b's', b's']);
    let refused = message(ALLOCATE_ERROR, &txn_id, &attrs).to_vec();
    match parse_allocate_response(&refused, &txn_id) {
        Err(TurnError::ErrorResponse { code, reason }) => {
            assert_eq!(code, 437);
            assert_eq!(reason, "Miss");
        }
        _ => panic!("expected an error response"),
    }
    let good = parse_allocate_response(&allocation_reply(&txn_id), &txn_id);
    assert!(matches!(good, Ok(AllocateResult::Success(_))));
    let cut = {
        let mut reply = allocation_reply(&txn_id);
        reply.truncate(30);
        reply
    };
    assert!(is_cut_short(&cut));
}

#[test]
fn test_turn_retransmits_and_gives_up() {
    let client = turn_client();
    assert!(matches!(client.first_send(), SendStep::Send(0)));
    assert!(matches!(client.after_send(0, SendEvent::TimedOut), SendStep::Send(1)));
    assert!(matches!(client.after_send(0, SendEvent::Received), SendStep::Deliver));
    let last = client.retries - 1;
    assert!(matches!(
        client.after_send(last, SendEvent::TimedOut),
        SendStep::GiveUp(TurnError::Timeout)
    ));
    assert!(matches!(
        client.after_send(0, SendEvent::Failed("gone".to_string())),
        SendStep::GiveUp(TurnError::Io(_))
    ));
}

#[test]
fn test_magic_cookie() {
    assert_eq!(MAGIC_COOKIE, 0x2112A442);
}

#[test]
fn test_form_candidate_pairs_complete() {
    let config = IceConfig { stun_servers: vec![], ..Default::default() };
    let mut agent = IceAgent::new(config, IceRole::Controlling);
    let host = |last: u8, component: u8| {
        Candidate::host(SocketAddr::new(IpAddr::v4(192, 168, 1, last), 5000), component)
    };
    for c in [host(1, 1), host(2, 1), host(3, 2)] {
        agent.local_candidates.push(c);
    }
    agent.add_remote_candidates(vec![host(101, 1), host(102, 2), host(103, 1)]);
    assert_eq!(agent.candidate_pairs.len(), 5);
    let before: Vec<_> = agent
        .candidate_pairs
        .iter()
        .map(|p| (p.local.address, p.remote.address, p.priority, p.state))
        .collect();
    agent.form_candidate_pairs();
    let after: Vec<_> = agent
        .candidate_pairs
        .iter()
        .map(|p| (p.local.address, p.remote.address, p.priority, p.state))
        .collect();
    assert!(before == after);
}

#[test]
fn test_check_that_is_not_sent_has_failed() {
    let progress = on_check_event(&[7; 12], 0, CheckEvent::SendFailed);
    assert_eq!(progress.outcome, Some(false));
    assert!(!progress.retransmit);
}

#[test]
fn test_data_indication_in_either_order() {
    let server = TurnServer::new(SocketAddr::new(IpAddr::v4(127, 0, 0, 1), 3478), "u", "p");
    let client = TurnClient::new(server);
    let txn = [9u8; 12];
    let peer = SocketAddr::new(IpAddr::v4(192, 0, 2, 7), 5000);
    for len in [0, 1, 5, 65512, 65516] {
        let data = vec![0xab; len];
        let mut address_first = BytesMut::new();
        encode_xor_address(&mut address_first, ATTR_XOR_PEER_ADDRESS, peer, &txn);
        put_attr(&mut address_first, ATTR_DATA, &data);
        let mut data_first = BytesMut::new();
        put_attr(&mut data_first, ATTR_DATA, &data);
        encode_xor_address(&mut data_first, ATTR_XOR_PEER_ADDRESS, peer, &txn);
        for attrs in [address_first, data_first] {
            let indication = message(DATA_INDICATION, &txn, &attrs);
            assert!(!is_cut_short(&indication));
            let (from, payload) = client.recv_data(&indication).unwrap();
            assert_eq!(from, peer);
            assert_eq!(payload, data);
        }
    }
}
