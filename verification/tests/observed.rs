use fleet_application::capability::{CapabilityFact, CapabilityStatus};
use fleet_application::difference::DifferenceState;
use fleet_application::observed::{
    compare, normalize_checkouts, normalize_skills, normalize_tools, CheckoutObservation, DesiredState,
    ObservedCheckout, ObservedSkill, ObservedState, ObservedTool,
};

fn fact(namespace: &str, name: &str, value: Option<&str>) -> CapabilityFact {
    CapabilityFact {
        namespace: namespace.to_owned(),
        name: name.to_owned(),
        value: value.map(std::borrow::ToOwned::to_owned),
        status: CapabilityStatus::Known,
        observed_at: 1_000,
        source: "test/1".to_owned(),
    }
}

#[test]
fn tool_facts_normalize_with_their_versions() {
    let facts = vec![
        fact("tool", "git", None),
        fact("tool-version", "git", Some("git version 2.43.0")),
        fact("tool", "docker", None),
    ];
    let tools = normalize_tools(&facts);
    assert_eq!(tools.len(), 2);
    let git = tools.iter().find(|tool| tool.tool == "git").unwrap();
    assert_eq!(git.version.as_deref(), Some("git version 2.43.0"));
    let docker = tools.iter().find(|tool| tool.tool == "docker").unwrap();
    assert_eq!(docker.version, None, "a present tool without a version is an honest gap");
}

#[test]
fn a_tool_version_fact_for_an_unlisted_tool_still_normalizes() {
    let facts = vec![fact("tool-version", "mise", Some("mise 2026.1.2"))];
    let tools = normalize_tools(&facts);
    assert_eq!(tools.len(), 1);
    assert_eq!(tools[0].tool, "mise");
}

#[test]
fn checkouts_normalize_only_known_observations() {
    let checkouts = vec![
        CheckoutObservation {
            root: "/srv/repo".to_owned(),
            branch: Some("main".to_owned()),
            remote: Some("github.com/Frogbyte-io/fleet-manager".to_owned()),
            status: "known".to_owned(),
        },
        CheckoutObservation {
            root: "/srv/broken".to_owned(),
            branch: None,
            remote: None,
            status: "unavailable".to_owned(),
        },
    ];
    let normalized = normalize_checkouts(&checkouts);
    assert_eq!(normalized.len(), 1, "an unavailable checkout is not an observation");
    assert_eq!(normalized[0].root, "/srv/repo");
}

#[test]
fn skills_normalize_per_agent() {
    let skills = normalize_skills("db", &["claude_code", "codex"]);
    assert_eq!(skills.len(), 2);
    assert_eq!(skills[0].skill_id, "db");
    assert_eq!(skills[1].agent, "codex");
}

#[test]
fn comparison_covers_match_change_missing_and_extra() {
    let desired = DesiredState {
        tools: vec![
            ("node".to_owned(), "20.11.0".to_owned()),
            ("python".to_owned(), "3.12.1".to_owned()),
        ],
        skills: vec![("db".to_owned(), "claude_code".to_owned())],
        checkout: Some(("github.com/Frogbyte-io/fleet-manager".to_owned(), "/srv/repo".to_owned())),
    };
    let observed = ObservedState {
        tools: vec![
            ObservedTool {
                tool: "node".to_owned(),
                version: Some("18.0.0".to_owned()),
            },
            ObservedTool {
                tool: "nginx".to_owned(),
                version: Some("1.27.0".to_owned()),
            },
        ],
        skills: vec![],
        checkouts: vec![],
        mise_answered: Some(true),
    };
    let set = compare(&desired, &observed);
    let node = set.fields.iter().find(|field| field.identity == "tool:node").unwrap();
    assert_eq!(node.state, DifferenceState::Changed);
    let python = set.fields.iter().find(|field| field.identity == "tool:python").unwrap();
    assert_eq!(python.state, DifferenceState::Missing);
    let db = set
        .fields
        .iter()
        .find(|field| field.identity == "skill:db/claude_code")
        .unwrap();
    assert_eq!(db.state, DifferenceState::Missing);
    let checkout = set
        .fields
        .iter()
        .find(|field| field.identity.starts_with("checkout:"))
        .unwrap();
    assert_eq!(checkout.state, DifferenceState::Missing);
    assert!(
        !set.fields.iter().any(|field| field.identity == "tool:nginx"),
        "desired tool sets are additive, not exclusive"
    );
}

#[test]
fn an_unanswered_inventory_is_an_honest_unknown() {
    let desired = DesiredState {
        tools: vec![("node".to_owned(), "20.11.0".to_owned())],
        ..DesiredState::default()
    };
    let observed = ObservedState {
        mise_answered: None,
        ..ObservedState::default()
    };
    let set = compare(&desired, &observed);
    let node = set.fields.iter().find(|field| field.identity == "tool:node").unwrap();
    assert_eq!(node.state, DifferenceState::Unknown);
    assert!(node.reason.as_deref().is_some_and(|reason| !reason.is_empty()));
    assert!(!node.actionable(), "an unknown is never actionable");
}

#[test]
fn a_converged_machine_yields_an_empty_set() {
    let desired = DesiredState {
        tools: vec![("node".to_owned(), "20.11.0".to_owned())],
        skills: vec![("db".to_owned(), "claude_code".to_owned())],
        checkout: Some(("github.com/Frogbyte-io/fleet-manager".to_owned(), "/srv/repo".to_owned())),
    };
    let observed = ObservedState {
        tools: vec![ObservedTool {
            tool: "node".to_owned(),
            version: Some("20.11.0".to_owned()),
        }],
        skills: vec![ObservedSkill {
            skill_id: "db".to_owned(),
            agent: "claude_code".to_owned(),
        }],
        checkouts: vec![ObservedCheckout {
            root: "/srv/repo".to_owned(),
            remote: Some("github.com/Frogbyte-io/fleet-manager".to_owned()),
            branch: Some("main".to_owned()),
        }],
        mise_answered: Some(true),
    };
    let set = compare(&desired, &observed);
    assert!(set.fields.is_empty(), "a converged machine has no differences: {:?}", set.fields);
}

#[test]
fn a_checkout_at_another_root_is_changed() {
    let desired = DesiredState {
        checkout: Some(("github.com/x/y".to_owned(), "/srv/y".to_owned())),
        ..DesiredState::default()
    };
    let observed = ObservedState {
        checkouts: vec![ObservedCheckout {
            root: "/home/y".to_owned(),
            remote: Some("github.com/x/y".to_owned()),
            branch: None,
        }],
        mise_answered: Some(true),
        ..ObservedState::default()
    };
    let set = compare(&desired, &observed);
    assert_eq!(set.fields.len(), 1);
    assert_eq!(set.fields[0].identity, "checkout:github.com/x/y");
    assert_eq!(set.fields[0].state, DifferenceState::Changed);
    assert_eq!(set.fields[0].desired.as_deref(), Some("/srv/y"));
    assert_eq!(set.fields[0].observed.as_deref(), Some("/home/y"));
}

#[test]
fn the_unanswered_reason_is_stated() {
    let desired = DesiredState {
        tools: vec![("node".to_owned(), "20.11.0".to_owned())],
        ..DesiredState::default()
    };
    let set = compare(&desired, &ObservedState::default());
    assert_eq!(
        set.fields[0].reason.as_deref(),
        Some("the tool inventory did not answer; the machine's tool state is unknown")
    );
}

#[test]
fn every_unmatched_desire_is_reported_by_its_identity() {
    let desired = DesiredState {
        tools: vec![("node".to_owned(), "20.11.0".to_owned()), ("python".to_owned(), "3.12.1".to_owned())],
        skills: vec![("db".to_owned(), "claude_code".to_owned()), ("db".to_owned(), "codex".to_owned())],
        checkout: Some(("github.com/x/y".to_owned(), "/srv/y".to_owned())),
    };
    let observed = ObservedState {
        tools: vec![ObservedTool { tool: "node".to_owned(), version: Some("20.11.0".to_owned()) }],
        skills: vec![ObservedSkill { skill_id: "db".to_owned(), agent: "claude_code".to_owned() }],
        checkouts: vec![ObservedCheckout {
            root: "/home/y".to_owned(),
            remote: Some("github.com/x/y".to_owned()),
            branch: None,
        }],
        mise_answered: Some(true),
    };
    let set = compare(&desired, &observed);
    let identities: Vec<&str> = set.fields.iter().map(|field| field.identity.as_str()).collect();
    assert_eq!(identities, ["checkout:github.com/x/y", "skill:db/codex", "tool:python"]);
    assert_eq!(set.fields[0].state, DifferenceState::Changed);
    assert_eq!(set.fields[1].state, DifferenceState::Missing);
    assert_eq!(set.fields[2].state, DifferenceState::Missing);
}
