use fleet_application::composition::{compose_profile, CompositionError, ProfileResource, RequirementValue};

fn profile(name: &str, extends: &[&str], requirements: Vec<RequirementValue>, deny: &[&str]) -> ProfileResource {
    ProfileResource {
        id: format!("01890f3e-9b4a-7cc2-98c3-d24e8f58f2{name:0>4}"),
        name: name.to_owned(),
        extends: extends.iter().map(|entry| (*entry).to_owned()).collect(),
        requirements,
        deny: deny.iter().map(|entry| (*entry).to_owned()).collect(),
    }
}

fn tool(name: &str, version: &str) -> RequirementValue {
    RequirementValue::Tool {
        tool: name.to_owned(),
        version: version.to_owned(),
    }
}

fn skill(id: &str, agents: &[&str]) -> RequirementValue {
    RequirementValue::Skill {
        skill_id: id.to_owned(),
        deploy_to: agents.iter().map(|agent| (*agent).to_owned()).collect(),
    }
}

fn capability(namespace: &str, name: &str) -> RequirementValue {
    RequirementValue::Capability {
        namespace: namespace.to_owned(),
        name: name.to_owned(),
    }
}

#[test]
fn composition_is_deterministic_and_records_provenance() {
    let profiles = vec![profile("rust-dev", &[], vec![tool("node", "20.11.0")], &[])];
    let composed = compose_profile("rust-dev", &profiles).unwrap();
    let entry = composed.get("tool:node").unwrap();
    assert_eq!(entry.provenance.resource_name, "rust-dev");
    assert_eq!(entry.provenance.path, "/spec/requirements/0");
    // The same input composes identically.
    let again = compose_profile("rust-dev", &profiles).unwrap();
    assert_eq!(composed, again);
}

#[test]
fn extends_compose_depth_first() {
    let profiles = vec![
        profile("base", &[], vec![tool("git", "2.43.0")], &[]),
        profile("rust-dev", &["base"], vec![tool("node", "20.11.0")], &[]),
    ];
    let composed = compose_profile("rust-dev", &profiles).unwrap();
    assert_eq!(composed.requirements.len(), 2);
    assert_eq!(composed.get("tool:git").unwrap().provenance.resource_name, "base");
    assert_eq!(composed.get("tool:node").unwrap().provenance.resource_name, "rust-dev");
}

#[test]
fn a_cycle_fails_with_the_chain() {
    let profiles = vec![profile("a", &["b"], vec![], &[]), profile("b", &["a"], vec![], &[])];
    let error = compose_profile("a", &profiles).unwrap_err();
    assert!(
        matches!(error, CompositionError::Cycle { ref chain } if chain.len() == 3),
        "{}",
        error.message()
    );
}

#[test]
fn an_unknown_reference_fails_with_both_names() {
    let profiles = vec![profile("a", &["ghost"], vec![], &[])];
    let error = compose_profile("a", &profiles).unwrap_err();
    assert!(
        matches!(error, CompositionError::UnknownProfile { ref name, ref referenced_by }
            if name == "ghost" && referenced_by.as_deref() == Some("a")),
        "{}",
        error.message()
    );
}

#[test]
fn a_conflicting_requirement_is_rejected_not_last_write_wins() {
    let profiles = vec![
        profile("base", &[], vec![tool("node", "20.11.0")], &[]),
        profile("other", &[], vec![tool("node", "22.0.0")], &[]),
        profile("combined", &["base", "other"], vec![], &[]),
    ];
    let error = compose_profile("combined", &profiles).unwrap_err();
    assert!(
        matches!(error, CompositionError::Conflict { ref identity, .. } if identity == "tool:node"),
        "{}",
        error.message()
    );
}

#[test]
fn an_identical_requirement_from_two_profiles_is_not_a_conflict() {
    let profiles = vec![
        profile("base", &[], vec![tool("node", "20.11.0")], &[]),
        profile("other", &[], vec![tool("node", "20.11.0")], &[]),
        profile("combined", &["base", "other"], vec![], &[]),
    ];
    let composed = compose_profile("combined", &profiles).unwrap();
    assert_eq!(composed.requirements.len(), 1);
}

#[test]
fn deny_wins_over_include() {
    let profiles = vec![
        profile("base", &[], vec![skill("db", &["claude_code"])], &[]),
        profile("trimmed", &["base"], vec![], &["skill:db"]),
    ];
    let composed = compose_profile("trimmed", &profiles).unwrap();
    assert!(!composed.contains_key("skill:db"), "deny removes the requirement");
}

#[test]
fn a_later_include_cannot_reintroduce_a_denied_identity() {
    let profiles = vec![
        profile("denier", &[], vec![], &["tool:node"]),
        profile("includer", &[], vec![tool("node", "20.11.0")], &[]),
        profile("combined", &["includer", "denier"], vec![], &[]),
    ];
    let composed = compose_profile("combined", &profiles).unwrap();
    assert!(!composed.contains_key("tool:node"), "deny survives a later include");
    // The mirror order composes identically.
    let mirrored = vec![
        profile("denier", &[], vec![], &["tool:node"]),
        profile("includer", &[], vec![tool("node", "20.11.0")], &[]),
        profile("combined", &["denier", "includer"], vec![], &[]),
    ];
    let composed_mirrored = compose_profile("combined", &mirrored).unwrap();
    assert_eq!(composed, composed_mirrored);
}

#[test]
fn skill_requirements_compare_as_sets() {
    let profiles = vec![
        profile("base", &[], vec![skill("db", &["claude_code", "codex"])], &[]),
        profile("other", &[], vec![skill("db", &["codex", "claude_code"])], &[]),
        profile("combined", &["base", "other"], vec![], &[]),
    ];
    let composed = compose_profile("combined", &profiles).unwrap();
    assert_eq!(
        composed.requirements.len(),
        1,
        "the same agent set in a different order is one requirement"
    );
}

#[test]
fn a_profile_cannot_deny_its_own_requirement_into_existence() {
    let profiles = vec![profile("mixed", &[], vec![tool("node", "20.11.0")], &["tool:node"])];
    let composed = compose_profile("mixed", &profiles).unwrap();
    assert!(composed.requirements.is_empty());
}

#[test]
fn capabilities_compose_with_their_own_identity() {
    let profiles = vec![profile("observing", &[], vec![capability("tool", "git")], &[])];
    let composed = compose_profile("observing", &profiles).unwrap();
    assert!(composed.contains_key("capability:tool%2Fgit"));
}

#[test]
fn the_cycle_message_names_the_chain() {
    let profiles = vec![profile("a", &["b"], vec![], &[]), profile("b", &["a"], vec![], &[])];
    let error = compose_profile("a", &profiles).unwrap_err();
    assert_eq!(error.message(), "profile extends cycle: a -> b -> a");
}

#[test]
fn an_unknown_root_fails_without_a_referrer() {
    let error = compose_profile("nobody", &[]).unwrap_err();
    assert_eq!(
        error,
        CompositionError::UnknownProfile {
            name: "nobody".to_owned(),
            referenced_by: None,
        }
    );
    assert_eq!(error.message(), "unknown profile \"nobody\"");
}

#[test]
fn the_conflict_message_names_both_profiles() {
    let profiles = vec![
        profile("base", &[], vec![tool("node", "20.11.0")], &[]),
        profile("other", &[], vec![tool("node", "22.0.0")], &[]),
        profile("combined", &["base", "other"], vec![], &[]),
    ];
    let error = compose_profile("combined", &profiles).unwrap_err();
    assert_eq!(
        error.message(),
        "conflicting requirement tool:node: \"base\" and \"other\" require different values"
    );
}

#[test]
fn composed_keys_come_in_ascending_order() {
    let profiles = vec![profile(
        "mixed",
        &[],
        vec![tool("node", "20.11.0"), tool("git", "2.43.0"), skill("db", &["codex"])],
        &[],
    )];
    let composed = compose_profile("mixed", &profiles).unwrap();
    let keys: Vec<&str> = composed.requirements.iter().map(|(k, _)| k.as_str()).collect();
    assert_eq!(keys, vec!["skill:db", "tool:git", "tool:node"]);
    assert_eq!(composed.get("tool:git").unwrap().provenance.path, "/spec/requirements/1");
}

#[test]
fn two_values_in_one_profile_conflict_and_a_parent_value_is_never_overwritten() {
    let within = vec![profile("solo", &[], vec![tool("node", "20.11.0"), tool("node", "22.0.0")], &[])];
    let error = compose_profile("solo", &within).unwrap_err();
    assert!(matches!(error, CompositionError::Conflict { ref identity, .. } if identity == "tool:node"));
    let inherited = vec![
        profile("base", &[], vec![tool("node", "20.11.0")], &[]),
        profile("child", &["base"], vec![tool("node", "22.0.0")], &[]),
    ];
    let error = compose_profile("child", &inherited).unwrap_err();
    assert!(matches!(error, CompositionError::Conflict { ref identity, .. } if identity == "tool:node"));
}

#[test]
fn a_deny_holds_whatever_the_order_of_extends() {
    let profiles = vec![
        profile("base", &[], vec![tool("node", "20.11.0")], &[]),
        profile("other", &[], vec![tool("node", "22.0.0")], &[]),
        profile("denier", &[], vec![], &["tool:node"]),
        profile("c1", &["denier", "base", "other"], vec![], &[]),
        profile("c2", &["base", "other", "denier"], vec![], &[]),
    ];
    let first = compose_profile("c1", &profiles).unwrap();
    let second = compose_profile("c2", &profiles).unwrap();
    assert!(first.requirements.is_empty());
    assert!(second.requirements.is_empty());
}

#[test]
fn identities_name_the_subject_and_escape_delimiters() {
    assert_eq!(tool("node", "20").identity(), tool("node", "22").identity());
    assert_ne!(tool("a:b", "1").identity(), tool("a%3Ab", "1").identity());
    assert_eq!(capability("os", "family").identity(), "capability:os%2Ffamily");
    assert_ne!(capability("os", "family").identity(), capability("os", "fam").identity());
    assert_eq!(skill("db", &["x"]).identity(), skill("db", &["y"]).identity());
}
