//! Project registration rules: the request shapes, the refusals, and the
//! name and description bounds every project mutation checks.
//!
//! A project is registered once under its normalized remote; identity
//! conflicts are refused, never merged.

use vstd::prelude::*;

use crate::authz::Decision;
use crate::machine::MachineErrorSpec;
use crate::operation::PortFailure;
use crate::text::to_owned_string;

verus! {

/// A new project, before identity minting.
#[derive(Clone, Debug)]
pub struct NewProject {
    /// The normalized remote.
    pub remote: String,
    /// The caller-scoped idempotency key, when one was supplied.
    pub idempotency_key: Option<String>,
    /// The mutable, unique display name.
    pub name: String,
    /// Operator notes.
    pub description: String,
}

/// Filters for the project list; absent filters match everything.
#[derive(Clone, Debug, Default, PartialEq, Eq)]
pub struct ProjectFilter {
    /// Only projects whose normalized remote starts with this prefix.
    pub remote_prefix: Option<String>,
    /// Only projects whose name contains this substring (case-insensitive).
    pub name_substring: Option<String>,
    /// Only projects created after this id (the page cursor).
    pub after_id: Option<String>,
}

/// A use-case rejection, mapped onto public API errors by the adapter.
#[derive(Debug)]
pub enum ProjectUseCaseError {
    /// The caller may not perform the action.
    Denied(Decision),
    /// The project named does not exist.
    NotFound {
        /// What was not found.
        what: String,
    },
    /// The remote or name is taken, or malformed.
    Conflict {
        /// What conflicts.
        detail: String,
    },
    /// The request is malformed.
    Invalid {
        /// What is wrong.
        detail: String,
    },
    /// The port failed.
    Backend {
        /// Where.
        context: &'static str,
        /// The failure detail.
        detail: String,
    },
}

impl View for ProjectUseCaseError {
    type V = MachineErrorSpec;

    open spec fn view(&self) -> MachineErrorSpec {
        match self {
            ProjectUseCaseError::Denied(d) => MachineErrorSpec::Denied(*d),
            ProjectUseCaseError::NotFound { what } => MachineErrorSpec::NotFound(what@),
            ProjectUseCaseError::Conflict { detail } => MachineErrorSpec::Conflict(detail@),
            ProjectUseCaseError::Invalid { detail } => MachineErrorSpec::Invalid(detail@),
            ProjectUseCaseError::Backend { context, detail } => MachineErrorSpec::Backend(
                context@,
                detail@,
            ),
        }
    }
}

impl ProjectUseCaseError {
    /// The rendering of an error.
    pub open spec fn spec_message(e: MachineErrorSpec) -> Seq<char> {
        match e {
            MachineErrorSpec::Denied(d) => "denied: "@ + d.spec_describe(),
            MachineErrorSpec::NotFound(what) => "not found: "@ + what,
            MachineErrorSpec::Conflict(detail) => "conflict: "@ + detail,
            MachineErrorSpec::Invalid(detail) => "invalid request: "@ + detail,
            MachineErrorSpec::Backend(context, detail) => "project "@ + context + " failed: "@
                + detail,
        }
    }

    /// Renders the error.
    pub fn message(&self) -> (text: String)
        ensures
            text@ == Self::spec_message(self@),
    {
        let (prefix, rest): (&str, &str) = match self {
            ProjectUseCaseError::Denied(_) => ("denied: ", ""),
            ProjectUseCaseError::NotFound { what } => ("not found: ", what.as_str()),
            ProjectUseCaseError::Conflict { detail } => ("conflict: ", detail.as_str()),
            ProjectUseCaseError::Invalid { detail } => ("invalid request: ", detail.as_str()),
            ProjectUseCaseError::Backend { .. } => ("project ", ""),
        };
        match self {
            ProjectUseCaseError::Denied(decision) => {
                let mut text = to_owned_string(prefix);
                text.append(decision.describe().as_str());
                text
            },
            ProjectUseCaseError::Backend { context, detail } => {
                let mut text = to_owned_string(prefix);
                text.append(context);
                text.append(" failed: ");
                text.append(detail.as_str());
                text
            },
            _ => {
                let mut text = to_owned_string(prefix);
                text.append(rest);
                text
            },
        }
    }
}

/// Validates a project name: 1 to 128 characters.
pub fn validate_name(name: &str) -> (valid: Result<(), ProjectUseCaseError>)
    ensures
        valid is Ok <==> 1 <= name@.len() <= 128,
        valid matches Err(e) ==> e@ == MachineErrorSpec::Invalid(
            "the project name must be 1..=128 characters"@,
        ),
{
    let count = name.unicode_len();
    if count == 0 || count > 128 {
        return Err(
            ProjectUseCaseError::Invalid {
                detail: to_owned_string("the project name must be 1..=128 characters"),
            },
        );
    }
    Ok(())
}

/// Validates a project description: at most 512 characters.
pub fn validate_description(description: &str) -> (valid: Result<(), ProjectUseCaseError>)
    ensures
        valid is Ok <==> description@.len() <= 512,
        valid matches Err(e) ==> e@ == MachineErrorSpec::Invalid(
            "the description must be at most 512 characters"@,
        ),
{
    if description.unicode_len() > 512 {
        return Err(
            ProjectUseCaseError::Invalid {
                detail: to_owned_string("the description must be at most 512 characters"),
            },
        );
    }
    Ok(())
}

/// Maps a port failure onto the use-case error.
pub fn map_port(context: &'static str, failure: PortFailure) -> (error: ProjectUseCaseError)
    ensures
        error@ == crate::machine::spec_map_port(context@, failure@),
{
    match failure {
        PortFailure::NotFound { what } => ProjectUseCaseError::NotFound { what },
        PortFailure::Conflict { detail } => ProjectUseCaseError::Conflict { detail },
        PortFailure::Backend { detail } => ProjectUseCaseError::Backend { context, detail },
    }
}

/// The refusal of a registration whose repository is already registered
/// under another spelling: it names the raw remote, the existing project's
/// name in its quoted form, and the normalized remote, so the caller sees
/// what already exists.
pub fn remote_conflict(raw_remote: &str, existing_name: &str, normalized: &str) -> (error:
    ProjectUseCaseError)
    ensures
        error@ == MachineErrorSpec::Conflict(
            "the remote "@ + raw_remote@ + " is already registered as "@
                + crate::text::debug_quoted(existing_name@) + " (normalized: "@ + normalized@
                + ")"@,
        ),
{
    let mut detail = to_owned_string("the remote ");
    detail.append(raw_remote);
    detail.append(" is already registered as ");
    detail.append(crate::text::quoted(existing_name).as_str());
    detail.append(" (normalized: ");
    detail.append(normalized);
    detail.append(")");
    ProjectUseCaseError::Conflict { detail }
}

/// The audit intent a project mutation appends before it mutates: the
/// principal did the action on the project (or, before an id is minted, on
/// its normalized remote), allowed, with the event `project_mutation` and
/// the optional fact as metadata.
pub fn project_intent(
    principal_id: &str,
    action: crate::authz::Permission,
    project_id: &str,
    fact: Option<(&str, &str)>,
) -> (intent: Result<crate::audit::AuditIntent, ProjectUseCaseError>)
    ensures
        intent is Ok <==> crate::audit::event_metadata_ok(
            "project_mutation"@,
            crate::audit::fact_view(fact),
        ),
        intent matches Ok(i) ==> crate::audit::describes_event(
            i,
            principal_id@,
            action,
            Some(project_id@),
            "project_mutation"@,
            crate::audit::fact_view(fact),
        ),
        intent matches Err(e) ==> e@ is Backend && e@->Backend_0 == "audit"@ && e@->Backend_1
            == crate::audit::event_refusal("project_mutation"@, crate::audit::fact_view(fact)),
{
    match crate::audit::event_intent(principal_id, action, Some(project_id), "project_mutation", fact) {
        Ok(intent) => Ok(intent),
        Err(error) => Err(ProjectUseCaseError::Backend { context: "audit", detail: error.message() }),
    }
}

} // verus!
