use fleet_application::authz::Decision;
use fleet_application::project::{project_intent, remote_conflict, validate_description, validate_name, ProjectUseCaseError};
use fleet_application::skill_catalog::{
    catalog_intent, catalog_read_failure, catalog_version_id, catalog_write_failure, SkillCatalogError,
};
use fleet_application::skills::{is_stale, MatrixScan, RowVerdict, SkillsError, MAX_SKILLS_MATRIX_PAGE, SKILLS_FRESHNESS_MS};
use fleet_application::worker::{
    expired_claim_error, next_execution_step, step_failure_error, ExecutionEvent, ExecutionStep, TickReport,
};

#[test]
fn observations_go_stale_after_a_day() {
    assert_eq!(SKILLS_FRESHNESS_MS, 86_400_000);
    assert!(!is_stale(86_400_000, 0));
    assert!(is_stale(86_400_001, 0));
    assert!(!is_stale(i64::MIN, i64::MAX));
    assert!(is_stale(i64::MAX, i64::MIN));
}

#[test]
fn the_page_size_is_clamped() {
    assert_eq!(MatrixScan::new(None, 0).limit(), 1);
    assert_eq!(MatrixScan::new(None, 50).limit(), 50);
    assert_eq!(MatrixScan::new(None, 10_000).limit(), MAX_SKILLS_MATRIX_PAGE);
    assert_eq!(MatrixScan::new(None, 50).fetch_limit(), 51);
}

#[test]
fn hidden_rows_never_name_the_next_cursor() {
    let mut scan = MatrixScan::new(Some("a"), 1);
    assert_eq!(scan.cursor(), Some("a"));
    scan.advance("b").unwrap();
    assert_eq!(scan.take_row(true), RowVerdict::Shown);
    scan.advance("c").unwrap();
    assert_eq!(scan.take_row(false), RowVerdict::Hidden);
    scan.advance("d").unwrap();
    assert_eq!(scan.take_row(true), RowVerdict::PageFull);
    assert!(scan.stops_after(2));
    assert_eq!(scan.next_cursor().as_deref(), Some("b"));
    assert_eq!(scan.cursor(), Some("d"));
}

#[test]
fn a_short_batch_ends_the_scan_without_a_cursor() {
    let mut scan = MatrixScan::new(None, 2);
    scan.advance("a").unwrap();
    assert_eq!(scan.take_row(true), RowVerdict::Shown);
    assert!(scan.stops_after(1));
    assert!(!scan.stops_after(3));
    assert_eq!(scan.next_cursor(), None);
}

#[test]
fn rows_out_of_order_are_a_backend_failure() {
    let mut scan = MatrixScan::new(Some("m"), 5);
    assert!(matches!(scan.advance("m"), Err(SkillsError::Backend)));
    assert!(matches!(scan.advance("a"), Err(SkillsError::Backend)));
    assert_eq!(scan.cursor(), Some("m"), "a refused row does not move the cursor");
    assert!(scan.advance("n").is_ok());
}

#[test]
fn catalog_failures_classify_by_their_detail() {
    assert!(matches!(
        catalog_read_failure("catalog entry", "s-1", "not found".to_owned()),
        SkillCatalogError::NotFound(ref what) if what == "catalog entry s-1"
    ));
    assert!(matches!(
        catalog_read_failure("catalog version", "s-1@d", "io".to_owned()),
        SkillCatalogError::Backend(ref detail) if detail == "io"
    ));
    assert!(matches!(catalog_write_failure(None, "taken".to_owned()), SkillCatalogError::Conflict(_)));
    assert!(matches!(
        catalog_write_failure(Some("s-1"), "not found".to_owned()),
        SkillCatalogError::NotFound(ref what) if what == "catalog entry s-1"
    ));
    assert_eq!(catalog_write_failure(None, "io".to_owned()).message(), "skill catalog failed: io");
    assert_eq!(SkillCatalogError::Denied(Decision::allow()).message(), "denied: policy.allow allowed");
}

#[test]
fn a_catalog_version_is_content_addressed() {
    assert_eq!(catalog_version_id("s-1", "abc"), "s-1@abc");
    let intent = catalog_intent("p", Some("s-1"), "skill_catalog_published").unwrap();
    assert_eq!(intent.action, "skills.modify");
    assert_eq!(intent.resource.as_deref(), Some("s-1"));
    assert_eq!(
        intent.metadata.entries(),
        [("event".to_owned(), "skill_catalog_published".to_owned())]
    );
}

#[test]
fn a_dead_worker_fails_its_operation_honestly() {
    assert_eq!(
        expired_claim_error("noop"),
        r#"{"detail":"worker lease expired; the result of noop work is unknown","reason":"worker_lease_expired"}"#
    );
    assert_eq!(
        step_failure_error("exit \"1\""),
        r#"{"detail":"exit \"1\"","reason":"step_failed"}"#
    );
}

#[test]
fn a_tick_report_starts_empty() {
    let report = TickReport::default();
    assert_eq!(report.recovered, 0);
    assert_eq!(report.timed_out, 0);
    assert!(!report.claimed);
    assert!(!report.completed);
    assert_eq!(report.pending, 0);
    assert_eq!(report.running, 0);
}

#[test]
fn project_names_and_descriptions_are_bounded() {
    assert!(validate_name("fleet").is_ok());
    assert!(validate_name("").is_err());
    assert!(validate_name(&"n".repeat(129)).is_err());
    assert!(validate_description(&"d".repeat(512)).is_ok());
    assert!(validate_description(&"d".repeat(513)).is_err());
}

#[test]
fn a_remote_registered_under_another_spelling_is_refused() {
    let error = remote_conflict("https://github.com/x/y.git", "y", "github.com/x/y");
    assert!(matches!(
        error,
        ProjectUseCaseError::Conflict { ref detail }
            if detail == "the remote https://github.com/x/y.git is already registered as \"y\" (normalized: github.com/x/y)"
    ));
    let intent = project_intent("p", fleet_application::authz::Permission::ProjectsCreate, "github.com/x/y", Some(("remote", "github.com/x/y")))
        .unwrap();
    assert_eq!(intent.resource.as_deref(), Some("github.com/x/y"));
    assert_eq!(
        intent.metadata.entries(),
        [
            ("event".to_owned(), "project_mutation".to_owned()),
            ("remote".to_owned(), "github.com/x/y".to_owned())
        ]
    );
}

#[test]
fn the_worker_cancels_requested_work_and_fails_a_failed_step() {
    assert!(matches!(next_execution_step(ExecutionEvent::Claimed { cancel_requested: true }), ExecutionStep::BeginCancel));
    assert!(matches!(next_execution_step(ExecutionEvent::Claimed { cancel_requested: false }), ExecutionStep::Execute));
    assert!(matches!(
        next_execution_step(ExecutionEvent::CancellingRecorded(true)),
        ExecutionStep::Complete { state: "cancelled", error_json: None }
    ));
    assert!(matches!(next_execution_step(ExecutionEvent::CancellingRecorded(false)), ExecutionStep::Done(false)));
    assert!(matches!(next_execution_step(ExecutionEvent::Executed(Ok(()))), ExecutionStep::Done(true)));
    match next_execution_step(ExecutionEvent::Executed(Err("boom".to_owned()))) {
        ExecutionStep::Complete { state, error_json } => {
            assert_eq!(state, "failed");
            assert_eq!(error_json.as_deref(), Some(r#"{"detail":"boom","reason":"step_failed"}"#));
        }
        other => panic!("unexpected {other:?}"),
    }
    assert!(matches!(next_execution_step(ExecutionEvent::Completed(false)), ExecutionStep::Done(false)));
}
