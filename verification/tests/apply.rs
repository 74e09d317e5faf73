use fleet_application::apply::{requires_approval, unapproved_actions, verified, Approval, Compensation};
use fleet_application::difference::{DifferenceSet, FieldDifference};
use fleet_application::planner::PlannedAction;

fn action(order: u32, kind: &str, identity: &str) -> PlannedAction {
    PlannedAction {
        order,
        kind: kind.to_owned(),
        difference: FieldDifference::missing(identity, "desired"),
        reason: "test".to_owned(),
    }
}

#[test]
fn risky_kinds_require_approval_and_safe_ones_do_not() {
    assert!(requires_approval("mise.install"));
    assert!(requires_approval("skills.deploy"));
    assert!(requires_approval("skills.undeploy"));
    assert!(requires_approval("skills.catalog-rollout"));
    // The clone's catalog permission (projects.git.write) is risky, so the
    // gate covers it too.
    assert!(requires_approval("projects.clone"));
}

#[test]
fn an_unapproved_risky_action_blocks_the_plan() {
    let actions = vec![action(1, "mise.install", "tool:node")];
    let unapproved = unapproved_actions("plan-1", &actions, &[]);
    assert_eq!(unapproved.len(), 1);
    assert_eq!(unapproved[0].kind, "mise.install");
}

#[test]
fn an_approval_bound_to_another_plan_does_not_authorize() {
    let actions = vec![action(1, "mise.install", "tool:node")];
    let approvals = vec![Approval {
        plan_id: "plan-2".to_owned(),
        action_order: 1,
        kind: "mise.install".to_owned(),
    }];
    let unapproved = unapproved_actions("plan-1", &actions, &approvals);
    assert_eq!(unapproved.len(), 1, "a foreign plan's approval is not ours");
}

#[test]
fn an_approval_bound_to_another_action_does_not_authorize() {
    let actions = vec![
        action(1, "mise.install", "tool:node"),
        action(2, "mise.install", "tool:python"),
    ];
    let approvals = vec![Approval {
        plan_id: "plan-1".to_owned(),
        action_order: 1,
        kind: "mise.install".to_owned(),
    }];
    let unapproved = unapproved_actions("plan-1", &actions, &approvals);
    assert_eq!(unapproved.len(), 1);
    assert_eq!(unapproved[0].difference.identity, "tool:python");
}

#[test]
fn a_fully_approved_plan_executes() {
    let actions = vec![
        action(1, "mise.install", "tool:node"),
        action(2, "skills.deploy", "skill:db/claude_code"),
    ];
    let approvals = vec![
        Approval {
            plan_id: "plan-1".to_owned(),
            action_order: 1,
            kind: "mise.install".to_owned(),
        },
        Approval {
            plan_id: "plan-1".to_owned(),
            action_order: 2,
            kind: "skills.deploy".to_owned(),
        },
    ];
    assert!(unapproved_actions("plan-1", &actions, &approvals).is_empty());
}

#[test]
fn compensations_match_the_step_semantics() {
    let install = Compensation::for_step("mise.install", &FieldDifference::missing("tool:node", "20.11.0"));
    assert_eq!(install, Compensation::Idempotent);
    let deploy = Compensation::for_step(
        "skills.deploy",
        &FieldDifference::missing("skill:db/claude_code", "deployed"),
    );
    assert_eq!(
        deploy,
        Compensation::Undeploy {
            skill_id: "db".to_owned(),
            agent: "claude_code".to_owned(),
        }
    );
    let clone = Compensation::for_step(
        "projects.clone",
        &FieldDifference::missing("checkout:github.com/x/y", "/srv/y"),
    );
    assert_eq!(clone, Compensation::Idempotent);
    let unknown_kind = Compensation::for_step("mystery.kind", &FieldDifference::missing("mystery:x", "y"));
    assert_eq!(unknown_kind, Compensation::NoCompensation);
}

#[test]
fn post_apply_verification_requires_no_actionable_or_unknown_fields() {
    let mut set = DifferenceSet::new();
    set.push(FieldDifference::unsupported("tool:exotic", Some("1.0"), "no path"));
    assert!(verified(&set).is_ok(), "an unsupported field is reported without blocking");
    set.push(FieldDifference::missing("tool:node", "20.11.0"));
    assert!(verified(&set).is_err(), "an actionable difference blocks");
    let mut set = DifferenceSet::new();
    set.push(FieldDifference::unknown("tool:node", Some("20.11.0"), "no answer"));
    assert!(verified(&set).is_err(), "an unknown blocks the claim");
}

#[test]
fn safe_kinds_need_no_approval() {
    assert!(!requires_approval("noop"));
    assert!(!requires_approval("mystery.kind"));
}

#[test]
fn a_safe_action_never_waits_for_approval() {
    let actions = vec![action(1, "noop", "noop:x")];
    assert!(unapproved_actions("plan-1", &actions, &[]).is_empty());
}

#[test]
fn an_approval_for_another_kind_does_not_authorize() {
    let actions = vec![action(1, "mise.install", "tool:node")];
    let approvals = vec![Approval {
        plan_id: "plan-1".to_owned(),
        action_order: 1,
        kind: "skills.deploy".to_owned(),
    }];
    assert_eq!(unapproved_actions("plan-1", &actions, &approvals).len(), 1);
}

#[test]
fn the_verification_refusal_names_every_blocker() {
    let mut set = DifferenceSet::new();
    set.push(FieldDifference::missing("tool:node", "20.11.0"));
    set.push(FieldDifference::unknown("tool:go", None, "no answer"));
    assert_eq!(
        verified(&set).unwrap_err(),
        "tool:go (unknown); tool:node (missing)"
    );
}
