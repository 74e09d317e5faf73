use fleet_application::authz::Permission;
use fleet_application::images::{
    promotion_gate, recipe_creation_failure, recipe_intent, recipe_read_failure, recipe_update_failure,
    version_id_for, version_read_failure, BuildEvidence, RecipeUseCaseError,
};
use fleet_application::lab::{
    attach_outcome, extension_deadline, extension_outcome, lab_intent, lease_admission, link_gate,
    new_provision, pin_lookup_failure, pin_verdict, provision_key, provision_resource, read_failure,
    release_event, release_gate, release_permission, replay_gate, template_write_failure, validate_purpose,
    LabUseCaseError,
};

fn evidence(version: &str, state: &str, artifact: Option<&str>) -> Option<BuildEvidence> {
    Some(BuildEvidence {
        version_id: version.to_owned(),
        state: state.to_owned(),
        artifact_id: artifact.map(str::to_owned),
    })
}

fn recipe_invalid(error: RecipeUseCaseError) -> String {
    match error {
        RecipeUseCaseError::Invalid { detail } => detail,
        other => panic!("expected an invalid request, got {other:?}"),
    }
}

#[test]
fn promotion_needs_a_successful_build_with_an_artifact() {
    assert_eq!(
        recipe_invalid(promotion_gate("v1", &None).unwrap_err()),
        "the version has no build operation; build it before promoting"
    );
    assert_eq!(
        recipe_invalid(promotion_gate("v1", &evidence("v1", "failed", Some("a"))).unwrap_err()),
        "the version's latest build is v1 (failed); only a successful build can be promoted"
    );
    assert_eq!(
        recipe_invalid(promotion_gate("v1", &evidence("v0", "succeeded", Some("a"))).unwrap_err()),
        "the version's latest build is v0 (succeeded); only a successful build can be promoted"
    );
    assert_eq!(
        recipe_invalid(promotion_gate("v1", &evidence("v1", "succeeded", None)).unwrap_err()),
        "the version's build recorded no artifact; promotion requires one"
    );
    assert!(promotion_gate("v1", &evidence("v1", "succeeded", Some("a"))).is_ok());
}

#[test]
fn a_version_is_named_by_its_recipe_and_digest_prefix() {
    let digest = "0123456789abcdef0123456789abcdef";
    assert_eq!(version_id_for("recipe-1", digest), "recipe-1@0123456789abcdef");
    assert_eq!(version_id_for("recipe-1", digest), version_id_for("recipe-1", digest));
}

#[test]
fn recipe_failures_classify_by_their_detail() {
    assert!(matches!(
        recipe_read_failure("r-1", "row not found".to_owned()),
        RecipeUseCaseError::NotFound { ref what } if what == "recipe r-1"
    ));
    assert!(matches!(
        version_read_failure("v-1", "io".to_owned()),
        RecipeUseCaseError::Backend { context: "versions", ref detail } if detail == "io"
    ));
    assert!(matches!(
        recipe_creation_failure("name taken".to_owned()),
        RecipeUseCaseError::Conflict { .. }
    ));
    assert!(matches!(
        recipe_update_failure("r-1", "not found".to_owned()),
        RecipeUseCaseError::NotFound { .. }
    ));
    assert_eq!(
        recipe_update_failure("r-1", "disk".to_owned()).message(),
        "images recipes failed: disk"
    );
}

#[test]
fn a_recipe_intent_is_recorded_before_the_change() {
    let intent = recipe_intent("p", Permission::ImagesConfig, None, "image_recipe_creating", Some(("name", "base")))
        .unwrap();
    assert_eq!(intent.action, "images.config");
    assert!(intent.resource.is_none());
}

fn lab_detail(error: LabUseCaseError) -> String {
    error.message()
}

#[test]
fn a_lease_is_admitted_only_while_awaiting_provisioning() {
    assert!(lease_admission("l-1", "tv-1", "tv-1", true, false).is_ok());
    assert!(lease_admission("l-1", "tv-1", "tv-1", false, true).is_ok());
    assert_eq!(
        lab_detail(lease_admission("l-1", "tv-1", "tv-2", true, false).unwrap_err()),
        "invalid request: the lease uses a different template version"
    );
    assert_eq!(
        lab_detail(lease_admission("l-1", "tv-1", "tv-1", false, false).unwrap_err()),
        "conflict: lease l-1 is not awaiting provisioning"
    );
}

#[test]
fn provisioning_keys_are_scoped_to_the_caller() {
    assert_eq!(provision_key("alice", Some("l-1"), Some("k")).as_deref(), Some("alice:lab-lease:l-1"));
    assert_eq!(provision_key("alice", None, Some("k")).as_deref(), Some("alice:k"));
    assert_eq!(provision_key("alice", None, None), None);
    assert_eq!(provision_resource("tv-1", Some("l-1")), "l-1");
    assert_eq!(provision_resource("tv-1", None), "tv-1");
}

#[test]
fn a_replay_must_belong_to_the_same_lease() {
    assert!(replay_gate(Some("l-1"), Some("l-1")).is_ok());
    assert!(replay_gate(None, None).is_ok());
    assert_eq!(
        lab_detail(replay_gate(Some("l-2"), Some("l-1")).unwrap_err()),
        "conflict: the idempotency key is already attached to another lease"
    );
    assert!(link_gate(Some("l-1"), "l-1").is_ok());
    assert!(link_gate(None, "l-1").is_err());
    assert_eq!(
        lab_detail(attach_outcome("l-1", false).unwrap_err()),
        "conflict: lease l-1 changed before provisioning started"
    );
    assert!(attach_outcome("l-1", true).is_ok());
}

#[test]
fn a_new_provision_carries_its_lease_and_key() {
    let new = new_provision("tv-1", Some("l-1"), Some("alice:lab-lease:l-1".to_owned()));
    assert_eq!(new.template_version_id, "tv-1");
    assert_eq!(new.lease_id.as_deref(), Some("l-1"));
    assert_eq!(new.idempotency_key.as_deref(), Some("alice:lab-lease:l-1"));
}

#[test]
fn pins_must_name_promoted_versions() {
    assert_eq!(
        lab_detail(pin_lookup_failure("iv-1", "not found".to_owned())),
        "the image pin was refused: the image version iv-1 does not exist; only promoted versions can be pinned"
    );
    assert_eq!(lab_detail(pin_lookup_failure("iv-1", "io".to_owned())), "lab image_pins failed: io");
    assert_eq!(
        lab_detail(pin_verdict::<u8>("iv-1", None).unwrap_err()),
        "the image pin was refused: the image version iv-1 is not promoted; only promoted versions can be pinned"
    );
    assert_eq!(pin_verdict("iv-1", Some(7u8)).unwrap(), 7);
}

#[test]
fn keeping_a_guest_is_the_elevated_release() {
    assert_eq!(release_permission(true), Permission::LabKeep);
    assert_eq!(release_permission(false), Permission::LabLease);
    assert_eq!(release_event(true), "lab_lease_keeping");
    assert_eq!(release_event(false), "lab_lease_releasing");
    assert_eq!(
        lab_detail(release_gate("l-1", true, "released").unwrap_err()),
        "invalid request: the lease l-1 is already released"
    );
    assert!(release_gate("l-1", false, "ready").is_ok());
}

#[test]
fn only_ready_leases_extend() {
    assert_eq!(extension_deadline(Some(5)).unwrap(), 5);
    assert_eq!(
        lab_detail(extension_deadline(None).unwrap_err()),
        "invalid request: only ready leases with a TTL deadline can be extended"
    );
    assert_eq!(
        lab_detail(extension_outcome(false).unwrap_err()),
        "conflict: the lease changed state or expiry before it could be extended"
    );
}

#[test]
fn lab_inputs_and_failures_are_checked() {
    assert!(validate_purpose("ci").is_ok());
    assert!(validate_purpose("").is_err());
    assert!(validate_purpose(&"é".repeat(512)).is_ok());
    assert!(validate_purpose(&"é".repeat(513)).is_err());
    assert_eq!(
        lab_detail(read_failure("lease", "l-1", "leases", "not found".to_owned())),
        "not found: lease l-1"
    );
    assert_eq!(
        lab_detail(read_failure("lease", "l-1", "leases", "io".to_owned())),
        "lab leases failed: io"
    );
    assert_eq!(
        lab_detail(template_write_failure(Some("t-1"), "not found".to_owned())),
        "not found: template t-1"
    );
    assert_eq!(
        lab_detail(template_write_failure(None, "not found".to_owned())),
        "lab templates failed: not found"
    );
    assert_eq!(lab_detail(template_write_failure(None, "UNIQUE".to_owned())), "conflict: UNIQUE");
    let intent = lab_intent("p", Permission::LabProvision, Some("tv-1"), "lab_provision_starting", None).unwrap();
    assert_eq!(intent.action, "lab.provision");
}
