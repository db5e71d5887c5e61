use ens_rest::engine::{Ens, ResolveAction, Resolution};
use ens_rest::errors::{ResolutionError, TransportError};
use ens_rest::namehash::namehash;
use ens_rest::Address;

fn test_address() -> Address {
    let bytes = hex::decode("6518c695cdcbefa272a4e5ef73bd46e801983e19").unwrap();
    Address::from_bytes(bytes)
}

fn resolver_reply_body() -> String {
    format!("0x{}a2c122be93b0074270ebee7f6b7292c7deb45047", "0".repeat(24))
}

fn name_reply_body() -> String {
    // Offset word, length word (17), then "enormouscloud.eth" padded.
    let offset_word = format!("{}20", "0".repeat(62));
    let length_word = format!("{}11", "0".repeat(62));
    let data_word = format!("{}{}", hex::encode("enormouscloud.eth"), "00".repeat(15));
    format!("0x{}{}{}", offset_word, length_word, data_word)
}

fn expected_payload(selector: &str, address: &Address, to_hex: &str) -> String {
    let domain = format!("{}.addr.reverse", hex::encode(&address.bytes));
    let node = namehash(&domain);
    format!(
        "{{\"jsonrpc\":\"2.0\",\"id\":1,\"method\":\"eth_call\",\"params\":[{{\"from\":\"0x0000000000000000000000000000000000000000\",\"data\":\"{}{}\",\"to\":\"0x{}\"}},\"latest\"]}}",
        selector,
        hex::encode(&node),
        to_hex
    )
}

#[test]
fn new_engine_uses_the_wellknown_registry() {
    let ens = Ens::new("http://localhost:8545");
    assert_eq!(
        hex::encode(&ens.contract.bytes),
        "00000000000c2e074ec69a0dfb2997ba6c7d2e1e"
    );
    assert_eq!(ens.endpoint, "http://localhost:8545");
}

#[test]
fn engine_from_contract_keeps_the_override() {
    let registry = Address::from_bytes(vec![0x42u8; 20]);
    let ens = Ens::from_contract("http://localhost:8545", &registry);
    assert_eq!(ens.contract.bytes, vec![0x42u8; 20]);
}

#[test]
fn resolver_call_builds_the_registry_request() {
    let ens = Ens::new("http://localhost:8545");
    let address = test_address();
    let payload = ens.resolver_call(&address);
    let expected = expected_payload(
        "0x0178b8bf",
        &address,
        "00000000000c2e074ec69a0dfb2997ba6c7d2e1e",
    );
    assert_eq!(payload, expected);
}

#[test]
fn name_call_targets_the_resolver() {
    let ens = Ens::new("http://localhost:8545");
    let address = test_address();
    let resolver = Address::from_bytes(
        hex::decode("a2c122be93b0074270ebee7f6b7292c7deb45047").unwrap(),
    );
    let payload = ens.name_call(&address, &resolver);
    let expected = expected_payload(
        "0x691f3431",
        &address,
        "a2c122be93b0074270ebee7f6b7292c7deb45047",
    );
    assert_eq!(payload, expected);
}

#[test]
fn stubbed_replies_resolve_the_expected_name() {
    // The end-to-end scenario against a stubbed node.
    let ens = Ens::new("http://localhost:8545");
    let address = test_address();

    let (state, action) = ens.begin_resolve(address.clone());
    let first_payload = match action {
        ResolveAction::Send { payload } => payload,
        _ => panic!("expected a request to send"),
    };
    assert_eq!(
        first_payload,
        expected_payload("0x0178b8bf", &address, "00000000000c2e074ec69a0dfb2997ba6c7d2e1e")
    );

    let (state, action) = ens.resume_resolve(state, &Ok(resolver_reply_body()));
    let second_payload = match action {
        ResolveAction::Send { payload } => payload,
        _ => panic!("expected a second request"),
    };
    assert_eq!(
        second_payload,
        expected_payload("0x691f3431", &address, "a2c122be93b0074270ebee7f6b7292c7deb45047")
    );
    assert!(matches!(state, Resolution::AwaitingName { .. }));

    let (state, action) = ens.resume_resolve(state, &Ok(name_reply_body()));
    match action {
        ResolveAction::Stop { outcome } => {
            assert_eq!(outcome.unwrap(), "enormouscloud.eth");
        },
        _ => panic!("expected the resolution to settle"),
    }
    match state {
        Resolution::Finished { outcome } => assert_eq!(outcome.unwrap(), "enormouscloud.eth"),
        _ => panic!("expected a finished resolution"),
    }
}

#[test]
fn failed_registry_call_stops_without_a_second_request() {
    let ens = Ens::new("http://localhost:8545");
    let (state, _) = ens.begin_resolve(test_address());
    let reply = Err(TransportError { message: "connection refused".to_string() });
    let (state, action) = ens.resume_resolve(state, &reply);
    match action {
        ResolveAction::Stop { outcome } => {
            assert_eq!(outcome, Err(ResolutionError::ResolverLookupFailed));
        },
        ResolveAction::Send { .. } => panic!("no second request may be attempted"),
    }
    assert!(matches!(
        state,
        Resolution::Finished { outcome: Err(ResolutionError::ResolverLookupFailed) }
    ));
}

#[test]
fn undecodable_registry_reply_is_a_resolver_lookup_failure() {
    let ens = Ens::new("http://localhost:8545");
    let (state, _) = ens.begin_resolve(test_address());
    let (_, action) = ens.resume_resolve(state, &Ok("0xnothex".to_string()));
    match action {
        ResolveAction::Stop { outcome } => {
            assert_eq!(outcome, Err(ResolutionError::ResolverLookupFailed));
        },
        ResolveAction::Send { .. } => panic!("no second request may be attempted"),
    }
}

#[test]
fn failed_name_call_is_a_name_lookup_failure() {
    let ens = Ens::new("http://localhost:8545");
    let (state, _) = ens.begin_resolve(test_address());
    let (state, _) = ens.resume_resolve(state, &Ok(resolver_reply_body()));
    let reply = Err(TransportError { message: "timed out".to_string() });
    let (_, action) = ens.resume_resolve(state, &reply);
    match action {
        ResolveAction::Stop { outcome } => {
            assert_eq!(outcome, Err(ResolutionError::NameLookupFailed));
        },
        ResolveAction::Send { .. } => panic!("the resolution must settle"),
    }
}

#[test]
fn empty_resolver_name_is_a_legitimate_outcome() {
    // A resolver that answers with only a header yields the empty name.
    let ens = Ens::new("http://localhost:8545");
    let (state, _) = ens.begin_resolve(test_address());
    let (state, _) = ens.resume_resolve(state, &Ok(resolver_reply_body()));
    let header_only = format!("0x{}20", "0".repeat(62));
    let (_, action) = ens.resume_resolve(state, &Ok(header_only));
    match action {
        ResolveAction::Stop { outcome } => assert_eq!(outcome.unwrap(), ""),
        _ => panic!("expected the resolution to settle"),
    }
}
