use fleet_application::capability::{CapabilityFact, CapabilityStatus};
use fleet_application::machine::{
    redact_userinfo, validate_endpoints, validate_label, Endpoint, EndpointKind, Machine, MachineStatus,
    MachineUseCaseError, MachineView, NewEndpoint, NodeLink,
};
use fleet_application::node::{GatewayState, NodeStatus};
use fleet_application::onboarding::{
    draft_list_limit, endpoint_reference_matches, profile_hint, reference_host, reference_port, scoped_key,
    DraftEndpoint,
};
use fleet_application::tailnet::{
    config_intent, correlate, is_dotted_quad, status_of, validate_client, CorrelationKind, TailnetDevice,
    TailnetUseCaseError,
};

fn machine(id: &str, reference: &str) -> Machine {
    Machine {
        id: id.to_owned(),
        name: format!("name-{id}"),
        description: String::new(),
        endpoints: vec![Endpoint {
            id: format!("e-{id}"),
            kind: EndpointKind::Ssh,
            reference: reference.to_owned(),
        }],
        tags: vec![],
        groups: vec![],
        capabilities: vec![CapabilityFact {
            namespace: "tool".to_owned(),
            name: "git".to_owned(),
            value: None,
            status: CapabilityStatus::Known,
            observed_at: 0,
            source: "agentless/1".to_owned(),
        }],
        last_observation: None,
        node: None,
        created_at: 0,
        updated_at: 0,
    }
}

fn device(addresses: &[&str], name: &str) -> TailnetDevice {
    TailnetDevice {
        node_id: "n-1".to_owned(),
        id: None,
        name: name.to_owned(),
        hostname: "box".to_owned(),
        os: "linux".to_owned(),
        addresses: addresses.iter().map(|a| (*a).to_owned()).collect(),
        tags: vec![],
        user: "u".to_owned(),
        online: Some(true),
        connected_to_control: None,
        last_seen: None,
    }
}

#[test]
fn userinfo_is_redacted_for_readers_without_sensitive_access() {
    assert_eq!(redact_userinfo("root@host:22"), "***@host:22");
    assert_eq!(redact_userinfo("host:22"), "host:22");
    let view = MachineView::assemble(machine("m-1", "root@10.0.0.2:22"), 0, false);
    assert_eq!(view.endpoints[0].reference, "***@10.0.0.2:22");
    let sensitive = MachineView::assemble(machine("m-1", "root@10.0.0.2:22"), 0, true);
    assert_eq!(sensitive.endpoints[0].reference, "root@10.0.0.2:22");
    assert_eq!(sensitive.machine_status, MachineStatus::Agentless);
}

#[test]
fn old_facts_read_as_stale() {
    let view = MachineView::assemble(machine("m-1", "root@h:22"), 86_400_001, true);
    assert_eq!(view.capabilities[0].status, CapabilityStatus::Stale);
    let fresh = MachineView::assemble(machine("m-1", "root@h:22"), 86_400_000, true);
    assert_eq!(fresh.capabilities[0].status, CapabilityStatus::Known);
}

#[test]
fn machine_status_derives_from_the_node_link() {
    let link = NodeLink {
        gateway_state: GatewayState::Stale,
        identity_status: NodeStatus::Active,
        last_seen_at: Some(5),
    };
    assert_eq!(MachineStatus::derive(Some(&link)), MachineStatus::Stale);
    let revoked = NodeLink {
        identity_status: NodeStatus::Revoked,
        ..link.clone()
    };
    assert_eq!(MachineStatus::derive(Some(&revoked)), MachineStatus::Offline);
    assert_eq!(MachineStatus::derive(None), MachineStatus::Agentless);
    assert_eq!(MachineStatus::from_id("stale"), Some(MachineStatus::Stale));
}

#[test]
fn endpoints_and_labels_are_validated() {
    assert!(matches!(
        validate_endpoints(&[]),
        Err(MachineUseCaseError::Invalid { ref detail }) if detail == "a machine needs at least one endpoint"
    ));
    let ok = NewEndpoint {
        kind: EndpointKind::Ssh,
        reference: "root@h:22".to_owned(),
    };
    assert!(validate_endpoints(&[ok]).is_ok());
    assert!(matches!(
        validate_label("tag", ""),
        Err(MachineUseCaseError::Invalid { ref detail }) if detail == "tag names must be 1..=64 characters"
    ));
}

#[test]
fn references_split_into_host_and_port() {
    assert_eq!(reference_host("root@10.0.0.2:22"), Some("10.0.0.2"));
    assert_eq!(reference_port("root@10.0.0.2:22"), Some("22"));
    assert_eq!(reference_host("root@[fd7a::1]:22"), Some("fd7a::1"));
    assert_eq!(reference_host("no-at-sign"), None);
    assert_eq!(scoped_key("alice", "k"), "alice:k");
    assert_eq!(draft_list_limit(0), 1);
}

#[test]
fn devices_correlate_by_address_then_name_and_only_for_sensitive_readers() {
    let views = vec![
        MachineView::assemble(machine("m-1", "root@100.64.0.1:22"), 0, true),
        MachineView::assemble(machine("m-2", "root@box:22"), 0, true),
    ];
    let candidates = correlate(&device(&["100.64.0.1"], "box.tail.ts.net."), &views, &vec![true, true]);
    assert_eq!(candidates.len(), 2);
    assert_eq!(candidates[0].machine_id, "m-1");
    assert_eq!(candidates[0].kind, CorrelationKind::AddressMatch);
    assert_eq!(candidates[1].machine_id, "m-2");
    assert_eq!(candidates[1].kind, CorrelationKind::NameMatch);
    let hidden = correlate(&device(&["100.64.0.1"], "box"), &views, &vec![false, false]);
    assert!(hidden.is_empty(), "no candidates without sensitive access");
}

#[test]
fn the_integration_status_follows_its_client() {
    assert!(validate_client("client", "secret").is_ok());
    assert!(validate_client("", "secret").is_err());
    assert!(validate_client("client", "").is_err());
    let unconfigured = status_of(None);
    assert!(!unconfigured.configured);
    assert_eq!(unconfigured.scope, "devices:core:read");
    let configured = status_of(Some("client".to_owned()));
    assert!(configured.configured);
    assert_eq!(configured.client_id.as_deref(), Some("client"));
    let device = device(&["100.64.0.1"], "box");
    assert!(device.validate().is_ok());
    let too_many = TailnetDevice {
        addresses: vec!["a".to_owned(); 5],
        ..device
    };
    assert_eq!(too_many.validate().unwrap_err(), "a device carries at most 4 addresses");
}

#[test]
fn the_first_real_ipv4_address_is_the_import_host() {
    let d = device(&["fd7a:115c:a1e0::1", "100.64.0.07", "100.64.0.7", "10.0.0.1"], "box");
    assert_eq!(d.ipv4(), Some("100.64.0.7"));
    let v6_only = device(&["fd7a:115c:a1e0::1"], "box");
    assert_eq!(v6_only.ipv4(), None);
}

#[test]
fn dotted_quads_are_parsed_not_prefix_guessed() {
    assert!(is_dotted_quad("0.0.0.0"));
    assert!(is_dotted_quad("255.255.255.255"));
    assert!(is_dotted_quad("100.101.102.103"));
    assert!(!is_dotted_quad("256.1.1.1"));
    assert!(!is_dotted_quad("1.2.3"));
    assert!(!is_dotted_quad("1.2.3.4.5"));
    assert!(!is_dotted_quad("01.2.3.4"));
    assert!(!is_dotted_quad("1.2.3.4 "));
    assert!(!is_dotted_quad("1..3.4"));
    assert!(!is_dotted_quad("1.2.3.1000"));
    assert!(!is_dotted_quad("+1.2.3.4"));
    assert!(!is_dotted_quad(""));
}

#[test]
fn configuration_intents_carry_the_client_id_and_refuse_oversized_events() {
    let intent = config_intent("alice", "tailscale_configured", Some("client-1")).unwrap();
    assert_eq!(intent.actor, "alice");
    assert_eq!(intent.action, "tailscale.config");
    assert_eq!(intent.resource, None);
    let long = "e".repeat(3000);
    match config_intent("alice", &long, None) {
        Err(TailnetUseCaseError::Backend { context, detail }) => {
            assert_eq!(context, "audit");
            assert_eq!(detail, "audit metadata value for \"event\" is 3000 bytes, over the 2048-byte bound");
        }
        other => panic!("unexpected {other:?}"),
    }
}

fn known_fact(namespace: &str, name: &str, value: &str) -> CapabilityFact {
    CapabilityFact {
        namespace: namespace.to_owned(),
        name: name.to_owned(),
        value: Some(value.to_owned()),
        status: CapabilityStatus::Known,
        observed_at: 0,
        source: "agentless/1".to_owned(),
    }
}

#[test]
fn the_profile_hint_joins_what_the_probe_answered() {
    let facts = vec![
        known_fact("os", "family", "linux"),
        known_fact("os", "distribution", "debian"),
        known_fact("os", "distribution_version", "12"),
        known_fact("host", "architecture", "x86_64"),
    ];
    assert_eq!(profile_hint(&facts).as_deref(), Some("linux/debian/12/x86_64"));
    assert_eq!(profile_hint(&[]), None);
    assert_eq!(profile_hint(&facts[..1]).as_deref(), Some("linux"));
}

#[test]
fn a_reference_matches_its_own_endpoint_whatever_the_userinfo() {
    let endpoint = DraftEndpoint { user: "deploy".to_owned(), host: "Build-01.lan".to_owned(), port: 2222 };
    let written = format!("{}@{}:{}", endpoint.user, endpoint.host, endpoint.port);
    assert!(endpoint_reference_matches(&written, &endpoint));
    assert!(endpoint_reference_matches("***@build-01.LAN:2222", &endpoint));
    assert!(endpoint_reference_matches("a@b@build-01.lan:2222", &endpoint));
    assert!(!endpoint_reference_matches("deploy@build-01.lan:22", &endpoint));
    assert!(!endpoint_reference_matches("build-01.lan:2222", &endpoint));
}
