//! Image recipes: the refusals of the recipe use cases, the identity of a
//! published version, and the promotion gate.
//!
//! A published version is identified by its recipe and its content digest,
//! so the same content published twice is the same version. Promotion is
//! gated on evidence from the operation record: the version's latest build
//! must have succeeded and recorded an artifact.

use vstd::prelude::*;

use crate::authz::Decision;
use crate::machine::MachineErrorSpec;
use crate::proxmox::is_taken;
use crate::text::{contains_str, contains_text, text_eq, to_owned_string};
use vstd::string::StringSliceAdditionalSpecFns;

verus! {

/// What promotion is decided on: the terminal state and the artifact of a
/// version's latest build operation, as the operation record holds them.
#[derive(Clone, Debug, PartialEq, Eq)]
pub struct BuildEvidence {
    /// The version the build built.
    pub version_id: String,
    /// The build operation's terminal state.
    pub state: String,
    /// The recorded artifact id, when the build produced one.
    pub artifact_id: Option<String>,
}

/// A use-case rejection, mapped onto public API errors by the adapter.
#[derive(Debug)]
pub enum RecipeUseCaseError {
    /// The caller may not perform the action.
    Denied(Decision),
    /// The request is malformed.
    Invalid {
        /// What is wrong.
        detail: String,
    },
    /// The addressed recipe or version does not exist.
    NotFound {
        /// What was not found.
        what: String,
    },
    /// The recipe name is taken.
    Conflict {
        /// The conflict detail.
        detail: String,
    },
    /// A port failed.
    Backend {
        /// Where.
        context: &'static str,
        /// The failure detail.
        detail: String,
    },
}

impl View for RecipeUseCaseError {
    type V = MachineErrorSpec;

    open spec fn view(&self) -> MachineErrorSpec {
        match self {
            RecipeUseCaseError::Denied(d) => MachineErrorSpec::Denied(*d),
            RecipeUseCaseError::NotFound { what } => MachineErrorSpec::NotFound(what@),
            RecipeUseCaseError::Conflict { detail } => MachineErrorSpec::Conflict(detail@),
            RecipeUseCaseError::Invalid { detail } => MachineErrorSpec::Invalid(detail@),
            RecipeUseCaseError::Backend { context, detail } => MachineErrorSpec::Backend(
                context@,
                detail@,
            ),
        }
    }
}

impl RecipeUseCaseError {
    /// The rendering of an error.
    pub open spec fn spec_message(e: MachineErrorSpec) -> Seq<char> {
        match e {
            MachineErrorSpec::Denied(d) => "denied: "@ + d.spec_describe(),
            MachineErrorSpec::NotFound(what) => "not found: "@ + what,
            MachineErrorSpec::Conflict(detail) => "conflict: "@ + detail,
            MachineErrorSpec::Invalid(detail) => "invalid request: "@ + detail,
            MachineErrorSpec::Backend(context, detail) => "images "@ + context + " failed: "@
                + detail,
        }
    }

    /// Renders the error.
    pub fn message(&self) -> (text: String)
        ensures
            text@ == Self::spec_message(self@),
    {
        match self {
            RecipeUseCaseError::Denied(decision) => {
                let mut text = to_owned_string("denied: ");
                text.append(decision.describe().as_str());
                text
            },
            RecipeUseCaseError::NotFound { what } => {
                let mut text = to_owned_string("not found: ");
                text.append(what.as_str());
                text
            },
            RecipeUseCaseError::Conflict { detail } => {
                let mut text = to_owned_string("conflict: ");
                text.append(detail.as_str());
                text
            },
            RecipeUseCaseError::Invalid { detail } => {
                let mut text = to_owned_string("invalid request: ");
                text.append(detail.as_str());
                text
            },
            RecipeUseCaseError::Backend { context, detail } => {
                let mut text = to_owned_string("images ");
                text.append(context);
                text.append(" failed: ");
                text.append(detail.as_str());
                text
            },
        }
    }
}

/// The promotion gate's verdict on a version and its build evidence: no
/// evidence refuses; evidence for another version, or a build that did not
/// succeed, refuses naming the build; a build without an artifact refuses.
pub open spec fn spec_promotion_gate(version_id: Seq<char>, evidence: Option<BuildEvidence>) -> Result<
    (),
    MachineErrorSpec,
> {
    match evidence {
        None => Err(
            MachineErrorSpec::Invalid(
                "the version has no build operation; build it before promoting"@,
            ),
        ),
        Some(e) => if e.version_id@ != version_id || e.state@ != "succeeded"@ {
            Err(
                MachineErrorSpec::Invalid(
                    "the version's latest build is "@ + e.version_id@ + " ("@ + e.state@
                        + "); only a successful build can be promoted"@,
                ),
            )
        } else if e.artifact_id is None {
            Err(
                MachineErrorSpec::Invalid(
                    "the version's build recorded no artifact; promotion requires one"@,
                ),
            )
        } else {
            Ok(())
        },
    }
}

/// The promotion gate: a version is promoted only when its latest build
/// completed successfully with a recorded artifact, as the operation record
/// shows it.
pub fn promotion_gate(version_id: &str, build_outcome: &Option<BuildEvidence>) -> (gate: Result<
    (),
    RecipeUseCaseError,
>)
    ensures
        match gate {
            Ok(()) => spec_promotion_gate(version_id@, *build_outcome) is Ok,
            Err(e) => spec_promotion_gate(version_id@, *build_outcome) == Err::<(), MachineErrorSpec>(
                e@,
            ),
        },
{
    match build_outcome {
        None => Err(
            RecipeUseCaseError::Invalid {
                detail: to_owned_string(
                    "the version has no build operation; build it before promoting",
                ),
            },
        ),
        Some(evidence) => {
            if !text_eq(evidence.version_id.as_str(), version_id) || !text_eq(
                evidence.state.as_str(),
                "succeeded",
            ) {
                let mut detail = to_owned_string("the version's latest build is ");
                detail.append(evidence.version_id.as_str());
                detail.append(" (");
                detail.append(evidence.state.as_str());
                detail.append("); only a successful build can be promoted");
                return Err(RecipeUseCaseError::Invalid { detail });
            }
            if evidence.artifact_id.is_none() {
                return Err(
                    RecipeUseCaseError::Invalid {
                        detail: to_owned_string(
                            "the version's build recorded no artifact; promotion requires one",
                        ),
                    },
                );
            }
            Ok(())
        },
    }
}

/// The first sixteen bytes of a content digest, as text.
pub open spec fn digest_prefix(digest: Seq<char>) -> Seq<char> {
    vstd::utf8::decode_utf8(vstd::utf8::encode_utf8(digest).subrange(0, 16))
}

/// The identity of a published version: the recipe id, `@`, and the first
/// sixteen bytes of the content digest. The same content under the same
/// recipe always names the same version.
pub fn version_id_for(recipe_id: &str, content_digest: &str) -> (id: String)
    requires
        vstd::utf8::is_char_boundary(vstd::utf8::encode_utf8(content_digest@), 16),
    ensures
        id@ == recipe_id@ + "@"@ + digest_prefix(content_digest@),
{
    let (head, _rest) = content_digest.split_at(16);
    proof {
        vstd::utf8::encode_utf8_decode_utf8(head@);
        assert(head.spec_bytes() == vstd::utf8::encode_utf8(head@));
    }
    let mut id = to_owned_string(recipe_id);
    id.append("@");
    id.append(head);
    id
}

/// What a failed recipe read (or removal) becomes: a detail mentioning
/// `not found` is the recipe missing; anything else a backend failure.
pub fn recipe_read_failure(id: &str, detail: String) -> (error: RecipeUseCaseError)
    ensures
        error@ == if contains_text(detail@, "not found"@) {
            MachineErrorSpec::NotFound("recipe "@ + id@)
        } else {
            MachineErrorSpec::Backend("recipes"@, detail@)
        },
{
    if contains_str(detail.as_str(), "not found") {
        let mut what = to_owned_string("recipe ");
        what.append(id);
        RecipeUseCaseError::NotFound { what }
    } else {
        RecipeUseCaseError::Backend { context: "recipes", detail }
    }
}

/// What a failed version read becomes: a detail mentioning `not found` is
/// the version missing; anything else a backend failure.
pub fn version_read_failure(version_id: &str, detail: String) -> (error: RecipeUseCaseError)
    ensures
        error@ == if contains_text(detail@, "not found"@) {
            MachineErrorSpec::NotFound("version "@ + version_id@)
        } else {
            MachineErrorSpec::Backend("versions"@, detail@)
        },
{
    if contains_str(detail.as_str(), "not found") {
        let mut what = to_owned_string("version ");
        what.append(version_id);
        RecipeUseCaseError::NotFound { what }
    } else {
        RecipeUseCaseError::Backend { context: "versions", detail }
    }
}

/// What a failed recipe creation becomes: a taken name is a conflict;
/// anything else a backend failure.
pub fn recipe_creation_failure(detail: String) -> (error: RecipeUseCaseError)
    ensures
        error@ == if contains_text(detail@, "taken"@) || contains_text(detail@, "UNIQUE"@) {
            MachineErrorSpec::Conflict(detail@)
        } else {
            MachineErrorSpec::Backend("recipes"@, detail@)
        },
{
    if is_taken(detail.as_str()) {
        RecipeUseCaseError::Conflict { detail }
    } else {
        RecipeUseCaseError::Backend { context: "recipes", detail }
    }
}

/// What a failed recipe edit becomes: a missing recipe first, then a taken
/// name; anything else a backend failure.
pub fn recipe_update_failure(id: &str, detail: String) -> (error: RecipeUseCaseError)
    ensures
        error@ == if contains_text(detail@, "not found"@) {
            MachineErrorSpec::NotFound("recipe "@ + id@)
        } else if contains_text(detail@, "taken"@) || contains_text(detail@, "UNIQUE"@) {
            MachineErrorSpec::Conflict(detail@)
        } else {
            MachineErrorSpec::Backend("recipes"@, detail@)
        },
{
    if contains_str(detail.as_str(), "not found") {
        let mut what = to_owned_string("recipe ");
        what.append(id);
        RecipeUseCaseError::NotFound { what }
    } else {
        recipe_creation_failure(detail)
    }
}

/// The audit intent an image action appends before it mutates. Fails, as a
/// backend failure of the audit half, when the metadata refuses an entry.
pub fn recipe_intent(
    principal_id: &str,
    action: crate::authz::Permission,
    recipe_id: Option<&str>,
    event: &str,
    fact: Option<(&str, &str)>,
) -> (intent: Result<crate::audit::AuditIntent, RecipeUseCaseError>)
    ensures
        intent is Ok <==> crate::audit::event_metadata_ok(event@, crate::audit::fact_view(fact)),
        intent matches Ok(i) ==> crate::audit::describes_event(
            i,
            principal_id@,
            action,
            match recipe_id {
                Some(r) => Some(r@),
                None => None,
            },
            event@,
            crate::audit::fact_view(fact),
        ),
        intent matches Err(e) ==> e@ is Backend && e@->Backend_0 == "audit"@ && e@->Backend_1
            == crate::audit::event_refusal(event@, crate::audit::fact_view(fact)),
{
    match crate::audit::event_intent(principal_id, action, recipe_id, event, fact) {
        Ok(intent) => Ok(intent),
        Err(error) => Err(RecipeUseCaseError::Backend { context: "audit", detail: error.message() }),
    }
}

} // verus!
