use fleet_application::node::{
    challenge_expiry, node_actor, proof_message, token_rejection, token_ttl, unknown_machine, validate_enrollment,
    validate_public_key, ChallengePurpose, NodeUseCaseError, CHALLENGE_TTL_MILLIS,
};

fn invalid_detail(error: NodeUseCaseError) -> String {
    match error {
        NodeUseCaseError::Invalid { detail } => detail,
        other => panic!("expected an invalid request, got {other:?}"),
    }
}

#[test]
fn the_proof_message_is_domain_separated_and_binds_every_part() {
    let message = proof_message("ch-1", "m-1", ChallengePurpose::Rotate, Some("ab"));
    assert_eq!(message, b"fleet-node-proof/v1\0ch-1\0m-1\0rotate\0ab".to_vec());
    let session = proof_message("ch-1", "m-1", ChallengePurpose::Session, None);
    assert_eq!(session, b"fleet-node-proof/v1\0ch-1\0m-1\0session\0".to_vec());
    assert_ne!(
        proof_message("ch-1", "m-2", ChallengePurpose::Session, None),
        session,
        "a proof for one machine is not a proof for another"
    );
}

#[test]
fn public_keys_are_lowercase_hex() {
    assert!(validate_public_key(&"a1".repeat(32)).is_ok());
    assert_eq!(
        invalid_detail(validate_public_key(&"A1".repeat(32)).unwrap_err()),
        "the public key must be 64 lowercase hex characters (32 bytes)"
    );
    assert!(validate_public_key("abc").is_err());
}

#[test]
fn enrollment_facts_are_bounded() {
    let key = "0f".repeat(32);
    assert!(validate_enrollment(&key, "linux", "x86_64", "1.2.3").is_ok());
    assert_eq!(
        invalid_detail(validate_enrollment(&key, &"o".repeat(65), "x86_64", "1").unwrap_err()),
        "os must be at most 64 characters"
    );
    assert_eq!(
        invalid_detail(validate_enrollment(&key, "linux", "x86_64", &"v".repeat(65)).unwrap_err()),
        "node version must be at most 64 characters"
    );
}

#[test]
fn token_lifetimes_are_bounded() {
    assert_eq!(token_ttl(None).unwrap(), 3_600_000);
    assert_eq!(token_ttl(Some(60_000)).unwrap(), 60_000);
    assert_eq!(
        invalid_detail(token_ttl(Some(59_999)).unwrap_err()),
        "the token TTL must be 60000..=86400000 ms"
    );
    assert!(token_ttl(Some(86_400_001)).is_err());
}

#[test]
fn node_refusals_name_what_failed() {
    assert_eq!(node_actor("m-1"), "node:m-1");
    assert_eq!(challenge_expiry(1_000), 1_000 + CHALLENGE_TTL_MILLIS);
    assert!(matches!(
        token_rejection("credential", "bad signature"),
        NodeUseCaseError::Unauthorized { ref detail } if detail == "the node credential is not valid: bad signature"
    ));
    assert!(matches!(
        unknown_machine("m\"1"),
        NodeUseCaseError::NotFound { ref what } if what == "machine \"m\\\"1\""
    ));
    assert_eq!(ChallengePurpose::from_id("rotate"), Some(ChallengePurpose::Rotate));
    assert_eq!(ChallengePurpose::from_id("other"), None);
}
