//! The desired source: candidate fetching, activation gating, and explicit
//! rollback.
//!
//! A candidate carrying diagnostics can never become active; only a
//! candidate the fetch path recorded as valid may activate; the last valid
//! revision stays active on failure; rollback is an explicit activation of a
//! prior valid revision, never automatic.

use vstd::prelude::*;

use crate::authz::Decision;
use crate::machine::MachineErrorSpec;
use crate::operation::opt_view;
use crate::project::ProjectUseCaseError;
use crate::text::{text_eq, to_owned_string};

verus! {

/// One active revision: the commit and content digest that were activated.
#[derive(Clone, Debug, Default, PartialEq, Eq)]
pub struct ActiveRevision {
    /// The commit SHA of the revision.
    pub commit_sha: String,
    /// The content digest of the revision.
    pub content_digest: String,
}

/// The identity of a fetched candidate: its commit and its content digest.
#[derive(Clone, Debug, Default, PartialEq, Eq)]
pub struct CandidateDigest {
    /// The commit SHA of the candidate.
    pub commit_sha: String,
    /// The content digest of the candidate.
    pub content_digest: String,
}

/// The outcome of one fetch.
#[derive(Clone, Debug, PartialEq, Eq)]
pub enum FetchOutcome {
    /// The candidate was fetched and validated; no diagnostics means it may
    /// be activated.
    Candidate {
        /// The candidate's digest.
        digest: CandidateDigest,
        /// The validation diagnostics, empty when valid.
        diagnostics: Vec<String>,
    },
    /// The fetch failed at the transport level; nothing changes.
    TransportFailed {
        /// The bounded, redacted failure detail.
        detail: String,
    },
}

/// The revision a fetch outcome records as a prior valid revision: a valid
/// candidate's, none for a candidate with diagnostics or a failed fetch.
pub fn revision_to_record(outcome: &FetchOutcome) -> (revision: Option<ActiveRevision>)
    ensures
        match outcome {
            FetchOutcome::Candidate { digest, diagnostics } => if diagnostics@.len() == 0 {
                revision matches Some(r) && r.commit_sha@ == digest.commit_sha@
                    && r.content_digest@ == digest.content_digest@
            } else {
                revision is None
            },
            FetchOutcome::TransportFailed { .. } => revision is None,
        },
{
    match outcome {
        FetchOutcome::Candidate { digest, diagnostics } => {
            if diagnostics.len() == 0 {
                Some(
                    ActiveRevision {
                        commit_sha: digest.commit_sha.clone(),
                        content_digest: digest.content_digest.clone(),
                    },
                )
            } else {
                None
            }
        },
        FetchOutcome::TransportFailed { .. } => None,
    }
}

/// Whether a candidate, by its commit and its content digest, is among the
/// recorded valid revisions.
pub open spec fn recorded_valid(recorded: Seq<ActiveRevision>, commit: Seq<char>, content: Seq<char>) -> bool {
    exists|i: int|
        0 <= i < recorded.len() && (#[trigger] recorded[i]).commit_sha@ == commit
            && recorded[i].content_digest@ == content
}

/// Decides an activation: a candidate with diagnostics is refused; a
/// candidate that was not fetched as valid (unknown to the caller, or not
/// among the recorded valid revisions by both its commit and its content
/// digest) is refused; otherwise the candidate's revision is the one to
/// activate.
pub fn activation_gate(
    recorded: &Vec<ActiveRevision>,
    digest: &CandidateDigest,
    candidate_valid: bool,
    candidate_known: bool,
) -> (gate: Result<ActiveRevision, ProjectUseCaseError>)
    ensures
        !candidate_valid ==> (gate matches Err(e) && e@ == MachineErrorSpec::Invalid(
            "the candidate carries validation diagnostics and cannot become active"@,
        )),
        candidate_valid && !(candidate_known && recorded_valid(
            recorded@,
            digest.commit_sha@,
            digest.content_digest@,
        )) ==> (
        gate matches Err(e) && e@ == MachineErrorSpec::Invalid(
            "the candidate was never fetched as valid; fetch it before activating"@,
        )),
        gate is Ok <==> candidate_valid && candidate_known && recorded_valid(
            recorded@,
            digest.commit_sha@,
            digest.content_digest@,
        ),
        gate matches Ok(r) ==> r.commit_sha@ == digest.commit_sha@ && r.content_digest@
            == digest.content_digest@,
{
    let mut known_and_valid = false;
    let mut i: usize = 0;
    while i < recorded.len()
        invariant
            i <= recorded@.len(),
            known_and_valid <==> exists|k: int|
                0 <= k < i && (#[trigger] recorded@[k]).commit_sha@ == digest.commit_sha@
                    && recorded@[k].content_digest@ == digest.content_digest@,
        decreases recorded@.len() - i,
    {
        if text_eq(recorded[i].commit_sha.as_str(), digest.commit_sha.as_str()) && text_eq(
            recorded[i].content_digest.as_str(),
            digest.content_digest.as_str(),
        ) {
            known_and_valid = true;
        }
        i = i + 1;
    }
    if !candidate_valid {
        return Err(
            ProjectUseCaseError::Invalid {
                detail: to_owned_string(
                    "the candidate carries validation diagnostics and cannot become active",
                ),
            },
        );
    }
    if !candidate_known || !known_and_valid {
        return Err(
            ProjectUseCaseError::Invalid {
                detail: to_owned_string(
                    "the candidate was never fetched as valid; fetch it before activating",
                ),
            },
        );
    }
    Ok(
        ActiveRevision {
            commit_sha: digest.commit_sha.clone(),
            content_digest: digest.content_digest.clone(),
        },
    )
}

/// The audit intent an activation appends before it mutates: the principal
/// did `source.activate`, allowed, in the operation (when one is named),
/// with the event and the commit as metadata.
pub fn activation_intent(principal_id: &str, commit_sha: &str, operation_id: Option<&str>) -> (intent:
    Result<crate::audit::AuditIntent, ProjectUseCaseError>)
    ensures
        intent is Ok <==> crate::audit::event_metadata_ok(
            "source_activation"@,
            Some(("commitSha"@, commit_sha@)),
        ),
        intent matches Ok(i) ==> {
            &&& i.actor@ == principal_id@
            &&& i.action@ == crate::authz::Permission::SourceActivate.spec_id()
            &&& i.resource is None
            &&& i.decision == Decision::spec_allow()
            &&& i.correlation_id is None
            &&& opt_view(i.operation_id) == match operation_id {
                Some(o) => Some(o@),
                None => None,
            }
            &&& i.metadata.well_formed()
            &&& i.metadata.spec_entries().len() == 2
            &&& i.metadata.spec_entries().contains(("event"@, "source_activation"@))
            &&& i.metadata.spec_entries().contains(("commitSha"@, commit_sha@))
        },
        intent matches Err(e) ==> e@ == MachineErrorSpec::Backend(
            "audit"@,
            crate::audit::event_refusal(
                "source_activation"@,
                Some(("commitSha"@, commit_sha@)),
            ),
        ),
{
    proof {
        reveal_strlit("commitSha");
        reveal_strlit("event");
    }
    match crate::audit::event_intent(
        principal_id,
        crate::authz::Permission::SourceActivate,
        None,
        "source_activation",
        Some(("commitSha", commit_sha)),
    ) {
        Ok(mut intent) => {
            intent.operation_id = match operation_id {
                Some(o) => Some(to_owned_string(o)),
                None => None,
            };
            Ok(intent)
        },
        Err(error) => Err(ProjectUseCaseError::Backend { context: "audit", detail: error.message() }),
    }
}

/// The conflict between two revisions, reported as data: the two digests
/// and the divergent file paths, each once, in ascending order. Fleet never
/// auto-resolves conflicts.
#[derive(Clone, Debug, PartialEq, Eq)]
pub struct ConflictReport {
    /// The active revision's digest.
    pub active: ActiveRevision,
    /// The fetched revision's digest.
    pub fetched: ActiveRevision,
    divergent_files: Vec<String>,
}

impl ConflictReport {
    /// The active revision's digest.
    pub closed spec fn spec_active(&self) -> ActiveRevision {
        self.active
    }

    /// The fetched revision's digest.
    pub closed spec fn spec_fetched(&self) -> ActiveRevision {
        self.fetched
    }

    /// The divergent files, in ascending order.
    pub closed spec fn spec_files(&self) -> Seq<Seq<char>> {
        crate::text::texts(self.divergent_files@)
    }

    /// A report for two revisions and the files that differ: the files are
    /// kept ascending, each once, whatever order and repetition they came
    /// in.
    pub fn new(active: ActiveRevision, fetched: ActiveRevision, files: &Vec<String>) -> (report: Self)
        ensures
            report.spec_files() == crate::composition::canonical_agents(crate::text::texts(files@)),
            report.spec_active() == active,
            report.spec_fetched() == fetched,
    {
        ConflictReport {
            active,
            fetched,
            divergent_files: crate::composition::canonical_agent_list(files),
        }
    }

    /// Records one more divergent file: kept in its place in order, once.
    pub fn add_file(&mut self, path: &String)
        ensures
            final(self).spec_files() == crate::composition::insert_sorted_unique(
                old(self).spec_files(),
                path@,
            ),
            final(self).spec_active() == old(self).spec_active(),
            final(self).spec_fetched() == old(self).spec_fetched(),
    {
        crate::composition::insert_agent(&mut self.divergent_files, path);
    }

    /// The divergent files, in ascending order.
    pub fn divergent_files(&self) -> (files: Vec<String>)
        ensures
            crate::text::texts(files@) == self.spec_files(),
    {
        let mut out: Vec<String> = Vec::new();
        let mut i: usize = 0;
        while i < self.divergent_files.len()
            invariant
                i <= self.divergent_files@.len(),
                crate::text::texts(out@) == crate::text::texts(self.divergent_files@).subrange(0, i as int),
            decreases self.divergent_files@.len() - i,
        {
            let ghost before = crate::text::texts(out@);
            out.push(self.divergent_files[i].clone());
            proof {
                assert(crate::text::texts(out@) =~= before.push(self.divergent_files@[i as int]@));
                assert(crate::text::texts(self.divergent_files@).subrange(0, i + 1)
                    =~= crate::text::texts(self.divergent_files@).subrange(0, i as int).push(
                    self.divergent_files@[i as int]@,
                ));
            }
            i = i + 1;
        }
        proof {
            assert(crate::text::texts(self.divergent_files@).subrange(0, i as int)
                =~= crate::text::texts(self.divergent_files@));
        }
        out
    }
}

} // verus!
