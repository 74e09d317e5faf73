use fleet_application::difference::{DifferenceSet, FieldDifference};
use fleet_application::planner::plan;

fn set_with(fields: Vec<FieldDifference>) -> DifferenceSet {
    let mut set = DifferenceSet::new();
    for field in fields {
        set.push(field);
    }
    set.canonicalize();
    set
}

#[test]
fn a_fresh_machine_plans_in_dependency_order() {
    let set = set_with(vec![
        FieldDifference::missing("skill:db/claude_code", "deployed"),
        FieldDifference::missing("tool:node", "20.11.0"),
        FieldDifference::missing("checkout:github.com/x/y", "/srv/y"),
    ]);
    let plan = plan(&set);
    let kinds: Vec<&str> = plan.actions.iter().map(|action| action.kind.as_str()).collect();
    assert_eq!(
        kinds,
        ["projects.clone", "mise.install", "skills.deploy"],
        "clone before install before skills"
    );
    assert!(plan.unactionable.is_empty());
}

#[test]
fn the_plan_orders_are_contiguous_from_one() {
    let set = set_with(vec![
        FieldDifference::missing("skill:db/claude_code", "deployed"),
        FieldDifference::missing("tool:node", "20.11.0"),
    ]);
    let plan = plan(&set);
    let orders: Vec<u32> = plan.actions.iter().map(|action| action.order).collect();
    assert_eq!(orders, [1, 2]);
}

#[test]
fn unknown_and_unsupported_are_never_planned() {
    let set = set_with(vec![
        FieldDifference::unknown("tool:node", None, "the inventory did not answer"),
        FieldDifference::unsupported("tool:exotic", None, "no path"),
        FieldDifference::missing("tool:git", "2.43.0"),
    ]);
    let plan = plan(&set);
    assert_eq!(plan.actions.len(), 1);
    assert_eq!(plan.actions[0].kind, "mise.install");
    assert_eq!(plan.unactionable.len(), 2);
    assert!(
        plan.unactionable.iter().all(|difference| !difference.actionable()),
        "the unactionable list carries only honest states"
    );
}

#[test]
fn a_converged_machine_yields_an_empty_plan() {
    let set = DifferenceSet::new();
    let plan = plan(&set);
    assert!(plan.is_empty());
    assert!(plan.unactionable.is_empty());
}

#[test]
fn the_same_set_always_yields_the_same_plan() {
    let build = || {
        set_with(vec![
            FieldDifference::missing("tool:node", "20.11.0"),
            FieldDifference::missing("skill:db/claude_code", "deployed"),
            FieldDifference::extra("checkout:github.com/x/y", "/elsewhere"),
        ])
    };
    let first = plan(&build());
    let second = plan(&build());
    assert_eq!(first, second, "planning is a pure function");
}

#[test]
fn an_extra_checkout_plans_a_clone() {
    let set = set_with(vec![FieldDifference::extra("checkout:github.com/x/y", "/elsewhere")]);
    let plan = plan(&set);
    assert_eq!(plan.actions[0].kind, "projects.clone");
}

#[test]
fn each_action_states_why_it_sits_where_it_does() {
    let set = set_with(vec![
        FieldDifference::missing("tool:node", "20.11.0"),
        FieldDifference::missing("checkout:github.com/x/y", "/srv/y"),
    ]);
    let plan = plan(&set);
    assert_eq!(
        plan.actions[0].reason,
        "the checkout is the root every project-scoped step sits in"
    );
    assert_eq!(plan.actions[1].reason, "tools install before anything uses them");
    assert_eq!(plan.actions[1].difference.identity, "tool:node");
}

#[test]
fn equal_ranks_plan_in_identity_order() {
    let set = set_with(vec![
        FieldDifference::missing("tool:python", "3.12.1"),
        FieldDifference::missing("tool:git", "2.43.0"),
    ]);
    let plan = plan(&set);
    let identities: Vec<&str> = plan
        .actions
        .iter()
        .map(|action| action.difference.identity.as_str())
        .collect();
    assert_eq!(identities, ["tool:git", "tool:python"]);
}

#[test]
fn an_unresolvable_identity_plans_nothing() {
    let set = set_with(vec![FieldDifference::missing("mystery:x", "y")]);
    let plan = plan(&set);
    assert!(plan.is_empty());
    assert!(plan.unactionable.is_empty());
}
