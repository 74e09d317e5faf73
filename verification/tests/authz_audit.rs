use fleet_application::audit::{
    event_intent, is_forbidden_key, AuditMetadata, MetadataError, MAX_METADATA_ENTRIES, MAX_METADATA_VALUE_BYTES,
};
use fleet_application::authz::{authorize, authorize_with, AccessRequest, Authorizer, Decision, Permission, ReasonId};

struct AllowAll;
impl Authorizer for AllowAll {
    fn spec_decide(&self, request: AccessRequest<'_>) -> Decision {
        self.decide(request)
    }
    fn decide(&self, _request: AccessRequest<'_>) -> Decision {
        Decision::allow()
    }
}

#[test]
fn the_catalog_lists_every_action_once() {
    let all = Permission::all();
    for (i, a) in all.iter().enumerate() {
        for b in &all[i + 1..] {
            assert_ne!(a.id(), b.id());
        }
    }
    assert_eq!(all[0].id(), "system.read");
    assert!(all.contains(&Permission::LabKeep));
}

#[test]
fn a_resource_scoped_action_without_a_resource_is_denied() {
    let request = AccessRequest {
        principal_id: "p",
        action: Permission::MachineUpdate,
        resource: None,
    };
    assert_eq!(authorize(&AllowAll, request), Err(Decision::deny(ReasonId::MissingResource)));
    let scoped = AccessRequest {
        resource: Some("m-1"),
        ..request
    };
    assert_eq!(authorize(&AllowAll, scoped), Ok(Decision::allow()));
}

#[test]
fn a_denial_passes_through() {
    let request = AccessRequest {
        principal_id: "p",
        action: Permission::SystemRead,
        resource: None,
    };
    let denied = Decision::deny(ReasonId::UnknownPrincipal);
    assert_eq!(authorize_with(request, denied), Err(denied));
    assert_eq!(denied.describe(), "policy.unknown_principal denied");
    assert_eq!(Decision::allow().describe(), "policy.allow allowed");
}

#[test]
fn reads_are_safe_and_mutations_risky() {
    assert!(!Permission::MachineRead.is_risky());
    assert!(Permission::MachineCreate.is_risky());
    assert!(Permission::ProjectsGitWrite.is_risky());
    assert!(Permission::LabKeep.requires_resource());
    assert!(!Permission::LabLease.requires_resource());
}

#[test]
fn credential_bearing_keys_are_forbidden() {
    assert!(is_forbidden_key("Authorization"));
    assert!(is_forbidden_key("x-api-token"));
    assert!(is_forbidden_key("HEADERS"));
    assert!(!is_forbidden_key("event"));
    assert!(!is_forbidden_key("commitSha"));
}

#[test]
fn metadata_keeps_keys_in_order_and_refuses_forbidden_material() {
    let mut metadata = AuditMetadata::new();
    metadata.insert("zeta", "1").unwrap();
    metadata.insert("alpha", "2").unwrap();
    metadata.insert("zeta", "3").unwrap();
    assert_eq!(
        metadata.entries(),
        [("alpha".to_owned(), "2".to_owned()), ("zeta".to_owned(), "3".to_owned())]
    );
    assert_eq!(
        metadata.insert("password", "hunter2"),
        Err(MetadataError::ForbiddenKey {
            key: "password".to_owned()
        })
    );
    let big = "x".repeat(MAX_METADATA_VALUE_BYTES + 1);
    assert_eq!(
        metadata.insert("blob", &big),
        Err(MetadataError::ValueTooLarge {
            key: "blob".to_owned(),
            size: MAX_METADATA_VALUE_BYTES + 1,
            limit: MAX_METADATA_VALUE_BYTES,
        })
    );
    assert_eq!(metadata.entries().len(), 2, "a refused insertion changes nothing");
}

#[test]
fn metadata_is_bounded_in_entries() {
    let mut metadata = AuditMetadata::new();
    for i in 0..MAX_METADATA_ENTRIES {
        metadata.insert(&format!("k{i:02}"), "v").unwrap();
    }
    let refused = metadata.insert("one-more", "v").unwrap_err();
    assert_eq!(refused, MetadataError::TooManyEntries { limit: MAX_METADATA_ENTRIES });
    assert_eq!(refused.message(), "audit metadata exceeds 32 entries");
}

#[test]
fn an_event_intent_carries_the_event_and_its_fact() {
    let intent = event_intent("p", Permission::ImagesConfig, Some("r-1"), "image_recipe_creating", Some(("name", "base")))
        .unwrap();
    assert_eq!(intent.actor, "p");
    assert_eq!(intent.action, "images.config");
    assert_eq!(intent.resource.as_deref(), Some("r-1"));
    assert_eq!(intent.decision, Decision::allow());
    assert_eq!(
        intent.metadata.entries(),
        [
            ("event".to_owned(), "image_recipe_creating".to_owned()),
            ("name".to_owned(), "base".to_owned())
        ]
    );
    assert!(event_intent("p", Permission::ImagesConfig, None, "e", Some(("token", "x"))).is_err());
}

#[test]
fn refusals_name_the_key_in_its_debug_form() {
    let mut metadata = AuditMetadata::new();
    let refused = metadata.insert("Api\"Token", "x").unwrap_err();
    assert_eq!(
        refused.message(),
        "audit metadata key \"Api\\\"Token\" is forbidden; raw request or credential material must never be recorded"
    );
    let oversized = metadata.insert("note", &"v".repeat(MAX_METADATA_VALUE_BYTES + 1)).unwrap_err();
    assert_eq!(oversized.message(), "audit metadata value for \"note\" is 2049 bytes, over the 2048-byte bound");
    assert!(matches!(refused, MetadataError::ForbiddenKey { .. }));
}

#[test]
fn metadata_keeps_one_entry_per_key_in_key_order() {
    let mut metadata = AuditMetadata::new();
    metadata.insert("zeta", "1").unwrap();
    metadata.insert("alpha", "2").unwrap();
    metadata.insert("zeta", "3").unwrap();
    assert_eq!(
        metadata.entries(),
        vec![("alpha".to_owned(), "2".to_owned()), ("zeta".to_owned(), "3".to_owned())]
    );
    assert_eq!(metadata.to_json(), r#"{"alpha":"2","zeta":"3"}"#);
}

#[test]
fn every_catalog_id_names_one_action() {
    let all = Permission::all();
    assert_eq!(all.len(), 47);
    let ids: std::collections::BTreeSet<&str> = all.iter().map(|p| p.id()).collect();
    assert_eq!(ids.len(), all.len());
}

#[test]
fn metadata_keeps_the_latest_accepted_value_of_each_key_in_key_order() {
    let mut metadata = AuditMetadata::default();
    assert!(metadata.is_empty());
    assert!(metadata.insert("zone", "b").is_ok());
    assert!(metadata.insert("kind", "noop").is_ok());
    assert!(metadata.insert("password", "hunter2").is_err());
    assert!(metadata.insert("zone", "c").is_ok());
    assert!(metadata.insert("kind", &"x".repeat(MAX_METADATA_VALUE_BYTES + 1)).is_err());
    assert_eq!(
        metadata.entries(),
        [("kind".to_owned(), "noop".to_owned()), ("zone".to_owned(), "c".to_owned())]
    );
    assert!(!metadata.is_empty());
}
