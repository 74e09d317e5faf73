use fleet_application::machine::{Machine, MachineView};
use fleet_application::proxmox::{
    associate_guests, confirmation_check, creation_failure, normalize_fingerprint, page, pin_verdict, trust_gate,
    validate_host, validate_name, validate_token_id, ProviderGuest, ProxmoxAccount, ProxmoxUseCaseError,
    RawGuestDiscovery,
};

fn invalid_detail(error: ProxmoxUseCaseError) -> String {
    match error {
        ProxmoxUseCaseError::Invalid { detail } => detail,
        other => panic!("expected an invalid request, got {other:?}"),
    }
}

fn account(id: &str) -> ProxmoxAccount {
    ProxmoxAccount {
        id: id.to_owned(),
        name: format!("pve-{id}"),
        host: "192.168.68.223".to_owned(),
        port: 8006,
        token_id: "root@pam!fleet".to_owned(),
        fingerprint: None,
        observed_fingerprint: None,
        created_at: 0,
    }
}

#[test]
fn fingerprints_normalize_for_comparison() {
    assert_eq!(normalize_fingerprint("dc:2c:11"), "DC2C11");
    assert_eq!(normalize_fingerprint("ABCD"), "ABCD");
}

#[test]
fn token_ids_require_the_user_realm_token_shape() {
    assert!(validate_token_id("root@pam!GLM-AGENT").is_ok());
    assert!(validate_token_id("root@pam").is_err());
    assert!(validate_token_id("GLM-AGENT").is_err());
    assert!(validate_token_id("").is_err());
}

#[test]
fn hosts_are_bare_not_urls() {
    assert!(validate_host("192.168.68.223").is_ok());
    assert!(validate_host("pve.localdomain").is_ok());
    assert!(validate_host("https://pve:8006").is_err());
    assert!(validate_host("").is_err());
}

#[test]
fn host_refusals_say_why() {
    assert_eq!(
        invalid_detail(validate_host("https://pve:8006").unwrap_err()),
        "the host is a bare host or IP, not a URL"
    );
    assert_eq!(invalid_detail(validate_host("").unwrap_err()), "the host must be 1..=253 characters");
    assert_eq!(
        invalid_detail(validate_token_id("root@pam").unwrap_err()),
        "the token id must look like user@realm!tokenname"
    );
    assert_eq!(invalid_detail(validate_name("").unwrap_err()), "the name must be 1..=128 characters");
}

#[test]
fn a_pin_needs_a_digest_an_observation_and_agreement() {
    let digest = "AB".repeat(32);
    assert_eq!(
        invalid_detail(pin_verdict("ABCD", Some("ABCD")).unwrap_err()),
        "the fingerprint must be a SHA-256 digest (colons optional)"
    );
    assert_eq!(
        invalid_detail(pin_verdict(&digest, None).unwrap_err()),
        "observe the host's fingerprint first; confirm pins only what the probe saw"
    );
    let other = "CD".repeat(32);
    assert_eq!(
        invalid_detail(pin_verdict(&digest, Some(&other)).unwrap_err()),
        "the supplied fingerprint does not match the observed one; observe again if the host changed"
    );
    assert!(pin_verdict(&digest, Some(&digest)).is_ok());
}

#[test]
fn lowercase_colon_fingerprints_normalize_to_the_pinned_form() {
    let colons = ["ab"; 32].join(":");
    assert_eq!(normalize_fingerprint(&colons), "AB".repeat(32));
}

#[test]
fn an_unconfirmed_account_is_refused_before_any_call() {
    let mut unconfirmed = account("a");
    assert!(matches!(
        trust_gate(&unconfirmed),
        Err(ProxmoxUseCaseError::UnconfirmedTrust { ref account }) if account == "pve-a"
    ));
    unconfirmed.fingerprint = Some("AB".repeat(32));
    assert!(trust_gate(&unconfirmed).is_ok());
}

#[test]
fn pages_start_after_the_cursor() {
    let accounts = vec![account("c"), account("b"), account("a")];
    let first = page(accounts.clone(), 2, None).unwrap();
    assert_eq!(first.iter().map(|a| a.id.as_str()).collect::<Vec<_>>(), ["c", "b"]);
    let second = page(accounts.clone(), 2, Some("b")).unwrap();
    assert_eq!(second.iter().map(|a| a.id.as_str()).collect::<Vec<_>>(), ["a"]);
    assert_eq!(
        invalid_detail(page(accounts, 2, Some("zz")).unwrap_err()),
        "the cursor names no account in the list"
    );
}

#[test]
fn a_taken_name_is_a_conflict() {
    assert!(matches!(
        creation_failure("UNIQUE constraint failed".to_owned()),
        ProxmoxUseCaseError::Conflict { .. }
    ));
    assert!(matches!(
        creation_failure("disk full".to_owned()),
        ProxmoxUseCaseError::Backend { context: "accounts", .. }
    ));
}

fn named_machine(id: &str, name: &str) -> MachineView {
    let machine = Machine {
        id: id.to_owned(),
        name: name.to_owned(),
        description: String::new(),
        endpoints: vec![],
        tags: vec![],
        groups: vec![],
        capabilities: vec![],
        last_observation: None,
        node: None,
        created_at: 0,
        updated_at: 0,
    };
    MachineView::assemble(machine, 0, true)
}

fn guest(name: &str) -> ProviderGuest {
    ProviderGuest {
        kind: "qemu".to_owned(),
        id: "qemu/101".to_owned(),
        node: Some("pve1".to_owned()),
        vmid: Some(101),
        name: Some(name.to_owned()),
        status: Some("running".to_owned()),
        macs: vec![],
        agent: None,
        warnings: vec![],
    }
}

#[test]
fn association_candidates_need_the_sensitive_read() {
    let views = vec![named_machine("m-1", "web"), named_machine("m-2", "db")];
    let raw = RawGuestDiscovery { version: "8.2".to_owned(), guests: vec![guest("WEB")], warnings: vec![] };
    let readable = associate_guests("acct", raw.clone(), &views, &vec![true, true], 5);
    assert_eq!(readable.guests.len(), 1);
    assert_eq!(readable.guests[0].candidates.len(), 1);
    assert_eq!(readable.guests[0].candidates[0].machine_id, "m-1");
    assert_eq!(readable.guests[0].candidates[0].kind, "name_match");
    assert_eq!(readable.guests[0].observed_at, 5);
    let unreadable = associate_guests("acct", raw, &views, &vec![false, true], 5);
    assert!(unreadable.guests[0].candidates.is_empty());
}

#[test]
fn confirmation_pins_the_normalized_observation_only() {
    let mut observed = account("a");
    let colons = ["ab"; 32].join(":");
    assert!(confirmation_check(&observed, &colons).is_err());
    observed.observed_fingerprint = Some(colons.clone());
    assert_eq!(confirmation_check(&observed, &"AB".repeat(32)).unwrap(), "AB".repeat(32));
    assert!(confirmation_check(&observed, &"CD".repeat(32)).is_err());
}

#[test]
fn a_normalized_fingerprint_normalizes_to_itself() {
    let once = normalize_fingerprint("a1:b2:Cc:9f");
    assert_eq!(once, "A1B2CC9F");
    assert!(!once.contains(':'));
    assert_eq!(normalize_fingerprint(&once), once);
}
