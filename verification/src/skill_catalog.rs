//! The skill catalog: the refusals of the catalog use cases and the
//! identity of a published, content-addressed version.

use vstd::prelude::*;

use crate::authz::{Decision, Permission};
use crate::text::{contains_str, contains_text, to_owned_string};

verus! {

/// Catalog use-case error.
#[derive(Debug)]
pub enum SkillCatalogError {
    /// Authorization was denied.
    Denied(Decision),
    /// The submitted content was invalid.
    Invalid(String),
    /// Entry or version was absent.
    NotFound(String),
    /// Unique name conflict.
    Conflict(String),
    /// Persistence or audit failure.
    Backend(String),
}

/// The mathematical value of a catalog error.
pub enum CatalogErrorSpec {
    /// A denial.
    Denied(Decision),
    /// Invalid content.
    Invalid(Seq<char>),
    /// Not found.
    NotFound(Seq<char>),
    /// A conflict.
    Conflict(Seq<char>),
    /// A backend failure.
    Backend(Seq<char>),
}

impl View for SkillCatalogError {
    type V = CatalogErrorSpec;

    open spec fn view(&self) -> CatalogErrorSpec {
        match self {
            SkillCatalogError::Denied(d) => CatalogErrorSpec::Denied(*d),
            SkillCatalogError::Invalid(d) => CatalogErrorSpec::Invalid(d@),
            SkillCatalogError::NotFound(d) => CatalogErrorSpec::NotFound(d@),
            SkillCatalogError::Conflict(d) => CatalogErrorSpec::Conflict(d@),
            SkillCatalogError::Backend(d) => CatalogErrorSpec::Backend(d@),
        }
    }
}

impl SkillCatalogError {
    /// The rendering of an error.
    pub open spec fn spec_message(e: CatalogErrorSpec) -> Seq<char> {
        match e {
            CatalogErrorSpec::Denied(d) => "denied: "@ + d.spec_describe(),
            CatalogErrorSpec::Invalid(d) => "invalid request: "@ + d,
            CatalogErrorSpec::NotFound(d) => "not found: "@ + d,
            CatalogErrorSpec::Conflict(d) => "conflict: "@ + d,
            CatalogErrorSpec::Backend(d) => "skill catalog failed: "@ + d,
        }
    }

    /// Renders the error.
    pub fn message(&self) -> (text: String)
        ensures
            text@ == Self::spec_message(self@),
    {
        let (prefix, detail): (&str, &str) = match self {
            SkillCatalogError::Denied(_) => ("denied: ", ""),
            SkillCatalogError::Invalid(d) => ("invalid request: ", d.as_str()),
            SkillCatalogError::NotFound(d) => ("not found: ", d.as_str()),
            SkillCatalogError::Conflict(d) => ("conflict: ", d.as_str()),
            SkillCatalogError::Backend(d) => ("skill catalog failed: ", d.as_str()),
        };
        let mut text = to_owned_string(prefix);
        match self {
            SkillCatalogError::Denied(decision) => text.append(decision.describe().as_str()),
            _ => text.append(detail),
        }
        text
    }
}

/// What a failed catalog read becomes: a detail mentioning `not found` is
/// the record missing, named by its kind (`catalog entry`, `catalog
/// version`) and id; anything else a backend failure.
pub fn catalog_read_failure(kind: &str, id: &str, detail: String) -> (error: SkillCatalogError)
    ensures
        error@ == if contains_text(detail@, "not found"@) {
            CatalogErrorSpec::NotFound(kind@ + " "@ + id@)
        } else {
            CatalogErrorSpec::Backend(detail@)
        },
{
    if contains_str(detail.as_str(), "not found") {
        let mut what = to_owned_string(kind);
        what.append(" ");
        what.append(id);
        SkillCatalogError::NotFound(what)
    } else {
        SkillCatalogError::Backend(detail)
    }
}

/// What a failed catalog write becomes: for an edit, a missing entry
/// first; then a taken name; anything else a backend failure.
pub fn catalog_write_failure(id: Option<&str>, detail: String) -> (error: SkillCatalogError)
    ensures
        error@ == if id is Some && contains_text(detail@, "not found"@) {
            CatalogErrorSpec::NotFound("catalog entry "@ + id.unwrap()@)
        } else if contains_text(detail@, "taken"@) || contains_text(detail@, "UNIQUE"@) {
            CatalogErrorSpec::Conflict(detail@)
        } else {
            CatalogErrorSpec::Backend(detail@)
        },
{
    match id {
        Some(id) => {
            if contains_str(detail.as_str(), "not found") {
                let mut what = to_owned_string("catalog entry ");
                what.append(id);
                return SkillCatalogError::NotFound(what);
            }
        },
        None => {},
    }
    if crate::proxmox::is_taken(detail.as_str()) {
        SkillCatalogError::Conflict(detail)
    } else {
        SkillCatalogError::Backend(detail)
    }
}

/// The identity of a published catalog version: the entry id, `@`, and the
/// content digest, so identical content publishes to the same version.
pub fn catalog_version_id(entry_id: &str, content_digest: &str) -> (id: String)
    ensures
        id@ == entry_id@ + "@"@ + content_digest@,
{
    let mut id = to_owned_string(entry_id);
    id.append("@");
    id.append(content_digest);
    id
}

/// The audit intent a catalog change appends: the principal did
/// `skills.modify` on the entry (when one exists yet), allowed, with the
/// event as metadata.
pub fn catalog_intent(principal_id: &str, entry_id: Option<&str>, event: &str) -> (intent: Result<
    crate::audit::AuditIntent,
    SkillCatalogError,
>)
    ensures
        intent is Ok <==> crate::audit::event_metadata_ok(event@, None),
        intent matches Ok(i) ==> crate::audit::describes_event(
            i,
            principal_id@,
            Permission::SkillsModify,
            crate::lab::opt_str_view(entry_id),
            event@,
            None,
        ),
        intent matches Err(e) ==> e@ == CatalogErrorSpec::Backend(
            crate::audit::event_refusal(event@, None),
        ),
{
    match crate::audit::event_intent(principal_id, Permission::SkillsModify, entry_id, event, None) {
        Ok(intent) => Ok(intent),
        Err(error) => Err(SkillCatalogError::Backend(error.message())),
    }
}

} // verus!
