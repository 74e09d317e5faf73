use fleet_application::ready::{plan_ready, ObservedState, ReadyStep, ToolRequest};

fn tool(tool: &str, version: &str) -> ToolRequest {
    ToolRequest {
        tool: tool.to_owned(),
        version: version.to_owned(),
    }
}

#[test]
fn a_fresh_machine_plans_every_step() {
    let agents = ["claude_code".to_owned()];
    let steps = plan_ready(
        "/srv/repo",
        &[tool("node", "20.11.0")],
        Some(("db", &agents[..])),
        &ObservedState::default(),
    );
    let names: Vec<&str> = steps.iter().map(ReadyStep::name).collect();
    assert_eq!(names, ["clone", "mise_install", "frogenv_setup", "skills_deploy", "verify"]);
}

#[test]
fn a_re_run_plans_only_the_remainder() {
    let observed = ObservedState {
        matching_checkout: Some("/srv/repo".to_owned()),
        mise_installed: vec![("node".to_owned(), "20.11.0".to_owned())],
        frogenv_configured: Some(true),
        skills_deployed: vec![("db".to_owned(), "claude_code".to_owned())],
    };
    let agents = ["claude_code".to_owned()];
    let steps = plan_ready("/srv/repo", &[tool("node", "20.11.0")], Some(("db", &agents[..])), &observed);
    let names: Vec<&str> = steps.iter().map(ReadyStep::name).collect();
    assert_eq!(names, ["verify"], "an already-ready machine only verifies");
}

#[test]
fn a_partially_ready_machine_skips_completed_steps() {
    let observed = ObservedState {
        matching_checkout: Some("/srv/repo".to_owned()),
        mise_installed: vec![],
        frogenv_configured: Some(true),
        skills_deployed: vec![],
    };
    let steps = plan_ready("/srv/repo", &[], None, &observed);
    let names: Vec<&str> = steps.iter().map(ReadyStep::name).collect();
    assert_eq!(names, ["verify"], "clone and frogenv are skipped");
}

#[test]
fn a_version_mismatch_installs_but_a_match_skips() {
    let observed = ObservedState {
        mise_installed: vec![("node".to_owned(), "18.0.0".to_owned())],
        ..ObservedState::default()
    };
    let steps = plan_ready("/srv/repo", &[tool("node", "20.11.0")], None, &observed);
    assert!(
        steps
            .iter()
            .any(|step| matches!(step, ReadyStep::MiseInstall { version, .. } if version == "20.11.0")),
        "a different installed version is not a match"
    );
}

#[test]
fn a_deployment_of_another_skill_does_not_skip() {
    let observed = ObservedState {
        skills_deployed: vec![("other".to_owned(), "claude_code".to_owned())],
        ..ObservedState::default()
    };
    let agents = ["claude_code".to_owned()];
    let steps = plan_ready("/srv/repo", &[], Some(("db", &agents[..])), &observed);
    assert!(steps.iter().any(|step| step.name() == "skills_deploy"));
}

#[test]
fn an_unavailable_observation_makes_the_step_run() {
    let observed = ObservedState {
        frogenv_configured: None,
        ..ObservedState::default()
    };
    let steps = plan_ready("/srv/repo", &[], None, &observed);
    assert!(steps.iter().any(|step| step.name() == "frogenv_setup"));
}

#[test]
fn the_same_observation_yields_the_same_plan() {
    let observed = ObservedState {
        matching_checkout: Some("/srv/repo".to_owned()),
        ..ObservedState::default()
    };
    let first = plan_ready("/srv/repo", &[], None, &observed);
    let second = plan_ready("/srv/repo", &[], None, &observed);
    assert_eq!(first, second, "planning is a pure function of observation");
}

#[test]
fn steps_map_to_operation_kinds() {
    let steps = plan_ready("/srv/repo", &[], None, &ObservedState::default());
    for step in &steps {
        assert!(!step.operation_kind().is_empty());
    }
    let clone = steps.first().unwrap();
    assert_eq!(clone.operation_kind(), "projects.clone");
    assert_eq!(steps.last().unwrap().operation_kind(), "tools.inventory");
}

#[test]
fn steps_render_human_names() {
    let steps = plan_ready("/srv/repo", &[tool("node", "20.11.0")], None, &ObservedState::default());
    assert_eq!(steps[0].describe(), "clone into /srv/repo");
    assert_eq!(steps[1].describe(), "install node@20.11.0");
    assert_eq!(steps.last().unwrap().describe(), "verify readiness");
}

#[test]
fn a_matching_version_skips_the_install() {
    let observed = ObservedState {
        mise_installed: vec![("node".to_owned(), "20.11.0".to_owned())],
        ..ObservedState::default()
    };
    let steps = plan_ready("/srv/repo", &[tool("node", "20.11.0")], None, &observed);
    assert!(!steps.iter().any(|step| step.name() == "mise_install"));
}

#[test]
fn an_unconfigured_frogenv_runs_its_setup() {
    let observed = ObservedState {
        frogenv_configured: Some(false),
        ..ObservedState::default()
    };
    let steps = plan_ready("/srv/repo", &[], None, &observed);
    assert!(steps.iter().any(|step| step.name() == "frogenv_setup"));
}

#[test]
fn a_later_observation_drops_exactly_the_steps_it_satisfies() {
    let agents = ["claude_code".to_owned()];
    let tools = [tool("node", "20.11.0"), tool("python", "3.12.1")];
    let before = plan_ready("/srv/repo", &tools, Some(("db", &agents[..])), &ObservedState::default());
    let later = ObservedState {
        matching_checkout: None,
        mise_installed: vec![("python".to_owned(), "3.12.1".to_owned())],
        frogenv_configured: Some(true),
        skills_deployed: vec![],
    };
    let after = plan_ready("/srv/repo", &tools, Some(("db", &agents[..])), &later);
    let before_names: Vec<&str> = before.iter().map(ReadyStep::name).collect();
    let after_names: Vec<&str> = after.iter().map(ReadyStep::name).collect();
    assert_eq!(before_names, ["clone", "mise_install", "mise_install", "frogenv_setup", "skills_deploy", "verify"]);
    assert_eq!(after_names, ["clone", "mise_install", "skills_deploy", "verify"]);
    assert!(matches!(&after[1], ReadyStep::MiseInstall { tool, .. } if tool == "node"));
}
