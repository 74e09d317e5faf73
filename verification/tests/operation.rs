use fleet_application::audit::AuditOutcome;
use fleet_application::authz::{AccessRequest, Authorizer, Decision, Permission, ReasonId};
use fleet_application::operation::{
    admission, admit_creation, cancellation_gate, cancellation_intent, creatable_kinds, creation_intent, creation_request, map_port_failure,
    outcome_for_state, scoped_request,
    validate_new_operation, NewOperation, OperationUseCaseError, PortFailure,
};

struct AllowAll;
impl Authorizer for AllowAll {
    fn spec_decide(&self, request: AccessRequest<'_>) -> Decision {
        self.decide(request)
    }
    fn decide(&self, _request: AccessRequest<'_>) -> Decision {
        Decision::allow()
    }
}

struct DenySkills;
impl Authorizer for DenySkills {
    fn spec_decide(&self, request: AccessRequest<'_>) -> Decision {
        self.decide(request)
    }
    fn decide(&self, request: AccessRequest<'_>) -> Decision {
        if request.action == Permission::SkillsDeploy {
            Decision::deny(ReasonId::UnknownPrincipal)
        } else {
            Decision::allow()
        }
    }
}

fn new_operation(kind: &str, payload: Option<&str>) -> NewOperation {
    NewOperation {
        kind: kind.to_owned(),
        payload_json: payload.map(str::to_owned),
        ..NewOperation::default()
    }
}

fn invalid_detail(error: OperationUseCaseError) -> String {
    match error {
        OperationUseCaseError::Invalid { detail } => detail,
        other => panic!("expected an invalid request, got {other:?}"),
    }
}

#[test]
fn the_creatable_kinds_are_listed_in_order() {
    let kinds = creatable_kinds();
    assert_eq!(kinds.first(), Some(&"noop"));
    assert_eq!(kinds.last(), Some(&"skills.undeploy"));
    assert_eq!(kinds.len(), 17);
}

#[test]
fn an_unknown_kind_is_refused_with_the_known_ones() {
    let detail = invalid_detail(validate_new_operation(&new_operation("mystery", None)).unwrap_err());
    assert!(detail.starts_with("kind \"mystery\" is not accepted; known kinds: noop, ssh.exec,"), "{detail}");
    assert!(detail.ends_with("skills.deploy, skills.undeploy"), "{detail}");
}

#[test]
fn a_machine_scoped_kind_reads_the_machine_from_its_payload() {
    let scope = validate_new_operation(&new_operation(
        "skills.deploy",
        Some(r#"{"machineId":"m-1","skillId":"db"}"#),
    ))
    .unwrap();
    assert_eq!(scope, Some((Permission::SkillsDeploy, "m-1".to_owned())));
}

#[test]
fn a_machine_scoped_kind_without_a_machine_is_refused() {
    let detail = invalid_detail(
        validate_new_operation(&new_operation("projects.clone", Some(r#"{"machineId":7}"#))).unwrap_err(),
    );
    assert_eq!(detail, "the projects.clone payload must carry a machineId");
    let detail = invalid_detail(validate_new_operation(&new_operation("projects.clone", Some("not json"))).unwrap_err());
    assert_eq!(detail, "the projects.clone payload must carry a machineId");
}

#[test]
fn an_unscoped_kind_needs_nothing_more() {
    assert_eq!(validate_new_operation(&new_operation("noop", Some("{}"))).unwrap(), None);
}

#[test]
fn an_oversized_payload_is_refused() {
    let payload = "x".repeat(131_073);
    let detail = invalid_detail(validate_new_operation(&new_operation("noop", Some(&payload))).unwrap_err());
    assert_eq!(detail, "the payload exceeds 131072 bytes");
}

#[test]
fn creation_checks_the_machine_scoped_permission() {
    let new = new_operation("skills.deploy", Some(r#"{"machineId":"m-1"}"#));
    assert!(admit_creation(&AllowAll, "p", &new).is_ok());
    assert!(matches!(
        admit_creation(&DenySkills, "p", &new),
        Err(OperationUseCaseError::Denied(decision)) if !decision.allowed
    ));
}

#[test]
fn the_creation_intent_carries_the_kind() {
    let mut new = new_operation("noop", None);
    new.correlation_id = Some("corr-1".to_owned());
    let intent = creation_intent("p", &new, "op-1").unwrap();
    assert_eq!(intent.action, "operation.create");
    assert_eq!(intent.resource.as_deref(), Some("op-1"));
    assert_eq!(intent.operation_id.as_deref(), Some("op-1"));
    assert_eq!(intent.correlation_id.as_deref(), Some("corr-1"));
    assert_eq!(intent.metadata.entries(), [("kind".to_owned(), "noop".to_owned())]);
}

#[test]
fn a_terminal_operation_is_no_longer_cancellable() {
    assert!(cancellation_gate("op-1", "running").is_ok());
    assert!(matches!(
        cancellation_gate("op-1", "timed_out"),
        Err(OperationUseCaseError::NotFound { ref what }) if what == "live operation op-1"
    ));
}

#[test]
fn terminal_states_map_to_audit_outcomes() {
    assert_eq!(outcome_for_state("succeeded"), AuditOutcome::Succeeded);
    assert_eq!(outcome_for_state("cancelled"), AuditOutcome::Cancelled);
    assert_eq!(outcome_for_state("timed_out"), AuditOutcome::Failed);
    assert_eq!(outcome_for_state("failed"), AuditOutcome::Failed);
}

#[test]
fn a_port_conflict_is_an_invalid_request() {
    let error = map_port_failure("create", PortFailure::Conflict { detail: "dup".to_owned() });
    assert_eq!(invalid_detail(error), "dup");
    let error = map_port_failure("create", PortFailure::Backend { detail: "down".to_owned() });
    assert_eq!(error.message(), "operation create failed: down");
}

#[test]
fn admission_decides_from_the_authorizers_answers() {
    let scoped = new_operation("skills.deploy", Some(r#"{"machineId":"m-1"}"#));
    let deny = Decision::deny(ReasonId::UnknownPrincipal);
    assert!(admission(&scoped, Decision::allow(), Decision::allow()).is_ok());
    assert!(matches!(admission(&scoped, deny, Decision::allow()), Err(OperationUseCaseError::Denied(d)) if d == deny));
    assert!(matches!(admission(&scoped, Decision::allow(), deny), Err(OperationUseCaseError::Denied(d)) if d == deny));
    let unscoped = new_operation("noop", None);
    assert!(admission(&unscoped, Decision::allow(), deny).is_ok());
    let request = scoped_request("p", Permission::SkillsDeploy, "m-1");
    assert_eq!(request.resource, Some("m-1"));
    assert_eq!(request.action, Permission::SkillsDeploy);
    let first = creation_request("p");
    assert_eq!(first.action, Permission::OperationCreate);
    assert_eq!(first.resource, None);
}

#[test]
fn the_cancellation_intent_names_the_operation() {
    let intent = cancellation_intent("p", "op-7", &Some("corr-7".to_owned()));
    assert_eq!(intent.actor, "p");
    assert_eq!(intent.action, "operation.cancel");
    assert_eq!(intent.resource.as_deref(), Some("op-7"));
    assert_eq!(intent.operation_id.as_deref(), Some("op-7"));
    assert_eq!(intent.correlation_id.as_deref(), Some("corr-7"));
    assert!(intent.decision.allowed);
    assert!(intent.metadata.is_empty());
}
