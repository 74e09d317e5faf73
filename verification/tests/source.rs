use fleet_application::authz::{authorize, AccessRequest, Authorizer, Decision, Permission, ReasonId};
use fleet_application::project::ProjectUseCaseError;
use fleet_application::source::{
    activation_gate, activation_intent, revision_to_record, ActiveRevision, CandidateDigest, ConflictReport,
    FetchOutcome,
};

struct DenyAll;
impl Authorizer for DenyAll {
    fn spec_decide(&self, request: AccessRequest<'_>) -> Decision {
        self.decide(request)
    }
    fn decide(&self, _request: AccessRequest<'_>) -> Decision {
        Decision::deny(ReasonId::UnknownPrincipal)
    }
}

fn digest(sha: &str, content: &str) -> CandidateDigest {
    CandidateDigest {
        commit_sha: sha.to_owned(),
        content_digest: content.to_owned(),
    }
}

fn revision(sha: &str, content: &str) -> ActiveRevision {
    ActiveRevision {
        commit_sha: sha.to_owned(),
        content_digest: content.to_owned(),
    }
}

fn invalid_detail(error: ProjectUseCaseError) -> String {
    match error {
        ProjectUseCaseError::Invalid { detail } => detail,
        other => panic!("expected an invalid request, got {other:?}"),
    }
}

#[test]
fn a_valid_candidate_is_recorded_for_rollback() {
    let outcome = FetchOutcome::Candidate {
        digest: digest("abc", "digest-1"),
        diagnostics: vec![],
    };
    assert_eq!(revision_to_record(&outcome), Some(revision("abc", "digest-1")));
}

#[test]
fn a_candidate_with_diagnostics_is_reported_and_forgotten() {
    let outcome = FetchOutcome::Candidate {
        digest: digest("abc", "digest-bad"),
        diagnostics: vec!["the document does not match".to_owned()],
    };
    assert_eq!(revision_to_record(&outcome), None, "an invalid candidate is never a rollback point");
    let failed = FetchOutcome::TransportFailed {
        detail: "clone failed".to_owned(),
    };
    assert_eq!(revision_to_record(&failed), None);
}

#[test]
fn activation_refuses_an_invalid_candidate() {
    let recorded = vec![revision("abc", "bad")];
    let error = activation_gate(&recorded, &digest("abc", "bad"), false, true).unwrap_err();
    assert_eq!(
        invalid_detail(error),
        "the candidate carries validation diagnostics and cannot become active"
    );
}

#[test]
fn activation_refuses_an_unknown_candidate() {
    let error = activation_gate(&vec![], &digest("abc", "d"), true, false).unwrap_err();
    assert!(invalid_detail(error).contains("never fetched"));
    // A caller's claim of a known candidate is checked against the record.
    let error = activation_gate(&vec![revision("other", "d")], &digest("abc", "d"), true, true).unwrap_err();
    assert_eq!(
        invalid_detail(error),
        "the candidate was never fetched as valid; fetch it before activating"
    );
}

#[test]
fn activation_is_audited_and_durable() {
    let recorded = vec![revision_to_record(&FetchOutcome::Candidate {
        digest: digest("abc", "digest-1"),
        diagnostics: vec![],
    })
    .unwrap()];
    let activated = activation_gate(&recorded, &digest("abc", "digest-1"), true, true).unwrap();
    assert_eq!(activated.commit_sha, "abc");
    assert_eq!(activated.content_digest, "digest-1");
    let intent = activation_intent("anonymous-lan-admin", "abc", Some("op-1")).unwrap();
    assert_eq!(intent.action, "source.activate");
    assert_eq!(intent.actor, "anonymous-lan-admin");
    assert!(
        intent
            .metadata
            .entries()
            .iter()
            .any(|(key, value)| key == "commitSha" && value == "abc"),
        "the intent carries the commit SHA"
    );
    assert_eq!(intent.operation_id.as_deref(), Some("op-1"));
}

#[test]
fn a_denied_fetch_or_activation_never_touches_state() {
    for action in [Permission::SourceFetch, Permission::SourceActivate] {
        let request = AccessRequest {
            principal_id: "x",
            action,
            resource: None,
        };
        assert!(authorize(&DenyAll, request).is_err());
    }
}

#[test]
fn conflicts_report_each_divergent_file_once_in_order() {
    let files = vec!["b.yaml".to_owned(), "a.yaml".to_owned(), "b.yaml".to_owned()];
    let mut report = ConflictReport::new(revision("abc", "1"), revision("def", "2"), &files);
    assert_eq!(report.divergent_files(), ["a.yaml", "b.yaml"]);
    report.add_file(&"0.yaml".to_owned());
    report.add_file(&"a.yaml".to_owned());
    assert_eq!(report.divergent_files(), ["0.yaml", "a.yaml", "b.yaml"]);
    assert_eq!(report.active.commit_sha, "abc");
    assert_eq!(report.fetched.commit_sha, "def");
}

#[test]
fn activation_needs_the_recorded_digest_too() {
    let recorded = vec![revision("abc", "digest-1")];
    let error = activation_gate(&recorded, &digest("abc", "other"), true, true).unwrap_err();
    assert_eq!(
        invalid_detail(error),
        "the candidate was never fetched as valid; fetch it before activating"
    );
    assert!(activation_gate(&recorded, &digest("abc", "digest-1"), true, true).is_ok());
}
