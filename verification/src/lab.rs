//! The Lab: template pins, leases, and the provisioning saga's entry point.
//!
//! A template pins a promoted image version; the pin is checked at
//! creation, publication, and provisioning, so a demotion in between
//! refuses. A lease carries its own cleanup strategy and deadline; keeping a
//! guest out of cleanup is an elevated action. Provisioning is idempotent
//! per caller: the same lease, or the same caller-scoped key, returns the
//! in-flight record instead of starting a second guest.

use vstd::prelude::*;

use crate::authz::{Decision, Permission};
use crate::operation::opt_view;
use crate::text::{contains_str, contains_text, text_eq, to_owned_string};

verus! {

/// A new provisioning record.
#[derive(Clone, Debug, Default, PartialEq, Eq)]
pub struct NewProvision {
    /// The template version being provisioned.
    pub template_version_id: String,
    /// The lease this saga provisions, when linked.
    pub lease_id: Option<String>,
    /// The caller-scoped idempotency key, when one was supplied.
    pub idempotency_key: Option<String>,
}

/// A use-case rejection, mapped onto public API errors by the adapter.
#[derive(Debug)]
pub enum LabUseCaseError {
    /// The caller may not perform the action.
    Denied(Decision),
    /// The request is malformed.
    Invalid {
        /// What is wrong.
        detail: String,
    },
    /// The addressed template, version, or record does not exist.
    NotFound {
        /// What was not found.
        what: String,
    },
    /// The template name is taken, or the lease changed underneath.
    Conflict {
        /// The conflict detail.
        detail: String,
    },
    /// The image pin was refused: the version is unknown or unpromoted.
    PinRefused {
        /// The refusal detail.
        detail: String,
    },
    /// A port failed.
    Backend {
        /// Where.
        context: &'static str,
        /// The failure detail.
        detail: String,
    },
}

/// The mathematical value of a lab use-case error.
pub enum LabErrorSpec {
    /// A denial.
    Denied(Decision),
    /// A malformed request.
    Invalid(Seq<char>),
    /// Not found.
    NotFound(Seq<char>),
    /// A conflict.
    Conflict(Seq<char>),
    /// A refused image pin.
    PinRefused(Seq<char>),
    /// A backend failure: the context and the detail.
    Backend(Seq<char>, Seq<char>),
}

impl View for LabUseCaseError {
    type V = LabErrorSpec;

    open spec fn view(&self) -> LabErrorSpec {
        match self {
            LabUseCaseError::Denied(d) => LabErrorSpec::Denied(*d),
            LabUseCaseError::Invalid { detail } => LabErrorSpec::Invalid(detail@),
            LabUseCaseError::NotFound { what } => LabErrorSpec::NotFound(what@),
            LabUseCaseError::Conflict { detail } => LabErrorSpec::Conflict(detail@),
            LabUseCaseError::PinRefused { detail } => LabErrorSpec::PinRefused(detail@),
            LabUseCaseError::Backend { context, detail } => LabErrorSpec::Backend(
                context@,
                detail@,
            ),
        }
    }
}

impl LabUseCaseError {
    /// The rendering of an error.
    pub open spec fn spec_message(e: LabErrorSpec) -> Seq<char> {
        match e {
            LabErrorSpec::Denied(d) => "denied: "@ + d.spec_describe(),
            LabErrorSpec::Invalid(detail) => "invalid request: "@ + detail,
            LabErrorSpec::NotFound(what) => "not found: "@ + what,
            LabErrorSpec::Conflict(detail) => "conflict: "@ + detail,
            LabErrorSpec::PinRefused(detail) => "the image pin was refused: "@ + detail,
            LabErrorSpec::Backend(context, detail) => "lab "@ + context + " failed: "@ + detail,
        }
    }

    /// Renders the error.
    pub fn message(&self) -> (text: String)
        ensures
            text@ == Self::spec_message(self@),
    {
        match self {
            LabUseCaseError::Denied(decision) => {
                let mut text = to_owned_string("denied: ");
                text.append(decision.describe().as_str());
                text
            },
            LabUseCaseError::Invalid { detail } => {
                let mut text = to_owned_string("invalid request: ");
                text.append(detail.as_str());
                text
            },
            LabUseCaseError::NotFound { what } => {
                let mut text = to_owned_string("not found: ");
                text.append(what.as_str());
                text
            },
            LabUseCaseError::Conflict { detail } => {
                let mut text = to_owned_string("conflict: ");
                text.append(detail.as_str());
                text
            },
            LabUseCaseError::PinRefused { detail } => {
                let mut text = to_owned_string("the image pin was refused: ");
                text.append(detail.as_str());
                text
            },
            LabUseCaseError::Backend { context, detail } => {
                let mut text = to_owned_string("lab ");
                text.append(context);
                text.append(" failed: ");
                text.append(detail.as_str());
                text
            },
        }
    }
}

/// What a failed read of a lab record becomes: a detail mentioning
/// `not found` is the record missing, named by its kind and id; anything
/// else a backend failure of the port.
pub fn read_failure(kind: &str, id: &str, context: &'static str, detail: String) -> (error:
    LabUseCaseError)
    ensures
        error@ == if contains_text(detail@, "not found"@) {
            LabErrorSpec::NotFound(kind@ + " "@ + id@)
        } else {
            LabErrorSpec::Backend(context@, detail@)
        },
{
    if contains_str(detail.as_str(), "not found") {
        let mut what = to_owned_string(kind);
        what.append(" ");
        what.append(id);
        LabUseCaseError::NotFound { what }
    } else {
        LabUseCaseError::Backend { context, detail }
    }
}

/// What a failed template write becomes: for an edit, a missing template
/// first; then a taken name; anything else a backend failure.
pub fn template_write_failure(id: Option<&str>, detail: String) -> (error: LabUseCaseError)
    ensures
        error@ == if id is Some && contains_text(detail@, "not found"@) {
            LabErrorSpec::NotFound("template "@ + id.unwrap()@)
        } else if contains_text(detail@, "taken"@) || contains_text(detail@, "UNIQUE"@) {
            LabErrorSpec::Conflict(detail@)
        } else {
            LabErrorSpec::Backend("templates"@, detail@)
        },
{
    match id {
        Some(id) => {
            if contains_str(detail.as_str(), "not found") {
                let mut what = to_owned_string("template ");
                what.append(id);
                return LabUseCaseError::NotFound { what };
            }
        },
        None => {},
    }
    if crate::proxmox::is_taken(detail.as_str()) {
        LabUseCaseError::Conflict { detail }
    } else {
        LabUseCaseError::Backend { context: "templates", detail }
    }
}

/// What a failed pin lookup becomes: an unknown version is a refused pin,
/// not a backend failure, since the caller named an image that does not
/// exist.
pub fn pin_lookup_failure(version_id: &str, detail: String) -> (error: LabUseCaseError)
    ensures
        error@ == if contains_text(detail@, "not found"@) {
            LabErrorSpec::PinRefused(
                "the image version "@ + version_id@
                    + " does not exist; only promoted versions can be pinned"@,
            )
        } else {
            LabErrorSpec::Backend("image_pins"@, detail@)
        },
{
    if contains_str(detail.as_str(), "not found") {
        let mut detail = to_owned_string("the image version ");
        detail.append(version_id);
        detail.append(" does not exist; only promoted versions can be pinned");
        LabUseCaseError::PinRefused { detail }
    } else {
        LabUseCaseError::Backend { context: "image_pins", detail }
    }
}

/// The pin verdict on what the validator answered: the promoted version
/// when there is one, a refusal otherwise.
pub fn pin_verdict<T>(version_id: &str, promoted: Option<T>) -> (pin: Result<T, LabUseCaseError>)
    ensures
        match pin {
            Ok(v) => promoted == Some(v),
            Err(e) => promoted is None && e@ == LabErrorSpec::PinRefused(
                "the image version "@ + version_id@
                    + " is not promoted; only promoted versions can be pinned"@,
            ),
        },
{
    match promoted {
        Some(version) => Ok(version),
        None => {
            let mut detail = to_owned_string("the image version ");
            detail.append(version_id);
            detail.append(" is not promoted; only promoted versions can be pinned");
            Err(LabUseCaseError::PinRefused { detail })
        },
    }
}

/// Validates a lease purpose: 1 to 512 characters.
pub fn validate_purpose(purpose: &str) -> (valid: Result<(), LabUseCaseError>)
    ensures
        valid is Ok <==> 1 <= purpose@.len() <= 512,
        valid matches Err(e) ==> e@ == LabErrorSpec::Invalid(
            "the purpose must be 1..=512 characters"@,
        ),
{
    let count = purpose.unicode_len();
    if count == 0 || count > 512 {
        return Err(
            LabUseCaseError::Invalid {
                detail: to_owned_string("the purpose must be 1..=512 characters"),
            },
        );
    }
    Ok(())
}

/// The permission a release needs: keeping the guest is the elevated
/// `lab.keep`, a plain release `lab.lease`.
pub fn release_permission(keep: bool) -> (action: Permission)
    ensures
        action == if keep {
            Permission::LabKeep
        } else {
            Permission::LabLease
        },
{
    if keep {
        Permission::LabKeep
    } else {
        Permission::LabLease
    }
}

/// The audit event a release records.
pub fn release_event(keep: bool) -> (event: &'static str)
    ensures
        event@ == if keep {
            "lab_lease_keeping"@
        } else {
            "lab_lease_releasing"@
        },
{
    if keep {
        "lab_lease_keeping"
    } else {
        "lab_lease_releasing"
    }
}

/// The release gate: a lease already in a terminal state cannot be
/// released again.
pub fn release_gate(id: &str, terminal: bool, state_id: &str) -> (gate: Result<(), LabUseCaseError>)
    ensures
        gate is Ok <==> !terminal,
        gate matches Err(e) ==> e@ == LabErrorSpec::Invalid(
            "the lease "@ + id@ + " is already "@ + state_id@,
        ),
{
    if terminal {
        let mut detail = to_owned_string("the lease ");
        detail.append(id);
        detail.append(" is already ");
        detail.append(state_id);
        return Err(LabUseCaseError::Invalid { detail });
    }
    Ok(())
}

/// The deadline an extension starts from: only a ready lease with a TTL
/// deadline can be extended.
pub fn extension_deadline(expires_at: Option<i64>) -> (deadline: Result<i64, LabUseCaseError>)
    ensures
        match deadline {
            Ok(d) => expires_at == Some(d),
            Err(e) => expires_at is None && e@ == LabErrorSpec::Invalid(
                "only ready leases with a TTL deadline can be extended"@,
            ),
        },
{
    match expires_at {
        Some(deadline) => Ok(deadline),
        None => Err(
            LabUseCaseError::Invalid {
                detail: to_owned_string("only ready leases with a TTL deadline can be extended"),
            },
        ),
    }
}

/// The verdict on a conditional extension: losing the compare-and-set to
/// the sweeper or another extension is a conflict.
pub fn extension_outcome(extended: bool) -> (outcome: Result<(), LabUseCaseError>)
    ensures
        outcome is Ok <==> extended,
        outcome matches Err(e) ==> e@ == LabErrorSpec::Conflict(
            "the lease changed state or expiry before it could be extended"@,
        ),
{
    if !extended {
        return Err(
            LabUseCaseError::Conflict {
                detail: to_owned_string(
                    "the lease changed state or expiry before it could be extended",
                ),
            },
        );
    }
    Ok(())
}

/// The resource a provisioning request is authorized against: the lease
/// when one is named, the template version otherwise.
pub fn provision_resource<'a>(version_id: &'a str, lease_id: Option<&'a str>) -> (resource: &'a str)
    ensures
        resource@ == match lease_id {
            Some(l) => l@,
            None => version_id@,
        },
{
    match lease_id {
        Some(lease) => lease,
        None => version_id,
    }
}

/// Whether a lease may start provisioning: it must use the requested
/// template version, and be awaiting provisioning (requested, or already
/// provisioning with a record linked, which a replay resumes).
pub open spec fn spec_lease_admission(
    lease_id: Seq<char>,
    version_id: Seq<char>,
    lease_version_id: Seq<char>,
    requested: bool,
    provisioning_with_record: bool,
) -> Result<(), LabErrorSpec> {
    if lease_version_id != version_id {
        Err(LabErrorSpec::Invalid("the lease uses a different template version"@))
    } else if !requested && !provisioning_with_record {
        Err(LabErrorSpec::Conflict("lease "@ + lease_id + " is not awaiting provisioning"@))
    } else {
        Ok(())
    }
}

/// Admits a lease into provisioning (see [`spec_lease_admission`]).
pub fn lease_admission(
    lease_id: &str,
    version_id: &str,
    lease_version_id: &str,
    requested: bool,
    provisioning_with_record: bool,
) -> (admission: Result<(), LabUseCaseError>)
    ensures
        match admission {
            Ok(()) => spec_lease_admission(
                lease_id@,
                version_id@,
                lease_version_id@,
                requested,
                provisioning_with_record,
            ) is Ok,
            Err(e) => spec_lease_admission(
                lease_id@,
                version_id@,
                lease_version_id@,
                requested,
                provisioning_with_record,
            ) == Err::<(), LabErrorSpec>(e@),
        },
{
    if !text_eq(lease_version_id, version_id) {
        return Err(
            LabUseCaseError::Invalid {
                detail: to_owned_string("the lease uses a different template version"),
            },
        );
    }
    if !requested && !provisioning_with_record {
        let mut detail = to_owned_string("lease ");
        detail.append(lease_id);
        detail.append(" is not awaiting provisioning");
        return Err(LabUseCaseError::Conflict { detail });
    }
    Ok(())
}

/// The caller-scoped idempotency key of a provisioning request: a lease
/// scopes it as `principal:lab-lease:lease`; otherwise a supplied key
/// scopes as `principal:key`; with neither there is none.
pub open spec fn spec_provision_key(
    principal_id: Seq<char>,
    lease_id: Option<Seq<char>>,
    idempotency_key: Option<Seq<char>>,
) -> Option<Seq<char>> {
    match lease_id {
        Some(l) => Some(principal_id + ":lab-lease:"@ + l),
        None => match idempotency_key {
            Some(k) => Some(principal_id + ":"@ + k),
            None => None,
        },
    }
}

/// The text of an optional borrowed text.
pub open spec fn opt_str_view(o: Option<&str>) -> Option<Seq<char>> {
    match o {
        Some(s) => Some(s@),
        None => None,
    }
}

/// Computes the caller-scoped idempotency key (see [`spec_provision_key`]).
pub fn provision_key(principal_id: &str, lease_id: Option<&str>, idempotency_key: Option<&str>) -> (key:
    Option<String>)
    ensures
        opt_view(key) == spec_provision_key(
            principal_id@,
            opt_str_view(lease_id),
            opt_str_view(idempotency_key),
        ),
{
    match lease_id {
        Some(lease) => {
            let mut key = to_owned_string(principal_id);
            key.append(":lab-lease:");
            key.append(lease);
            Some(key)
        },
        None => match idempotency_key {
            Some(k) => {
                let mut key = to_owned_string(principal_id);
                key.append(":");
                key.append(k);
                Some(key)
            },
            None => None,
        },
    }
}

/// Whether two optional texts are equal.
fn same_opt(a: Option<&str>, b: Option<&str>) -> (same: bool)
    ensures
        same == (opt_str_view(a) == opt_str_view(b)),
{
    match (a, b) {
        (Some(x), Some(y)) => text_eq(x, y),
        (None, None) => true,
        _ => false,
    }
}

/// The replay gate: a record found under the scoped key is the in-flight
/// saga only when it provisions the same lease (or no lease, for both).
pub fn replay_gate(existing_lease_id: Option<&str>, lease_id: Option<&str>) -> (gate: Result<
    (),
    LabUseCaseError,
>)
    ensures
        gate is Ok <==> opt_str_view(existing_lease_id) == opt_str_view(lease_id),
        gate matches Err(e) ==> e@ == LabErrorSpec::Conflict(
            "the idempotency key is already attached to another lease"@,
        ),
{
    if !same_opt(existing_lease_id, lease_id) {
        return Err(
            LabUseCaseError::Conflict {
                detail: to_owned_string("the idempotency key is already attached to another lease"),
            },
        );
    }
    Ok(())
}

/// The link gate before attaching a record to a lease: the record must
/// name that lease.
pub fn link_gate(record_lease_id: Option<&str>, lease_id: &str) -> (gate: Result<
    (),
    LabUseCaseError,
>)
    ensures
        gate is Ok <==> opt_str_view(record_lease_id) == Some(lease_id@),
        gate matches Err(e) ==> e@ == LabErrorSpec::Conflict(
            "the provision record is not linked to this lease"@,
        ),
{
    if !same_opt(record_lease_id, Some(lease_id)) {
        return Err(
            LabUseCaseError::Conflict {
                detail: to_owned_string("the provision record is not linked to this lease"),
            },
        );
    }
    Ok(())
}

/// The verdict on a conditional attach: losing it means the lease changed
/// before provisioning started.
pub fn attach_outcome(lease_id: &str, attached: bool) -> (outcome: Result<(), LabUseCaseError>)
    ensures
        outcome is Ok <==> attached,
        outcome matches Err(e) ==> e@ == LabErrorSpec::Conflict(
            "lease "@ + lease_id@ + " changed before provisioning started"@,
        ),
{
    if !attached {
        let mut detail = to_owned_string("lease ");
        detail.append(lease_id);
        detail.append(" changed before provisioning started");
        return Err(LabUseCaseError::Conflict { detail });
    }
    Ok(())
}

/// The record a new provisioning saga starts from: the version, the lease
/// when linked, and the caller-scoped key.
pub fn new_provision(version_id: &str, lease_id: Option<&str>, scoped_key: Option<String>) -> (new:
    NewProvision)
    ensures
        new.template_version_id@ == version_id@,
        opt_view(new.lease_id) == opt_str_view(lease_id),
        new.idempotency_key == scoped_key,
{
    NewProvision {
        template_version_id: to_owned_string(version_id),
        lease_id: match lease_id {
            Some(l) => Some(to_owned_string(l)),
            None => None,
        },
        idempotency_key: scoped_key,
    }
}

/// The audit intent a lab action appends before it mutates. Fails, as a
/// backend failure of the audit half, when the metadata refuses an entry.
pub fn lab_intent(
    principal_id: &str,
    action: Permission,
    resource: Option<&str>,
    event: &str,
    fact: Option<(&str, &str)>,
) -> (intent: Result<crate::audit::AuditIntent, LabUseCaseError>)
    ensures
        intent is Ok <==> crate::audit::event_metadata_ok(event@, crate::audit::fact_view(fact)),
        intent matches Ok(i) ==> crate::audit::describes_event(
            i,
            principal_id@,
            action,
            opt_str_view(resource),
            event@,
            crate::audit::fact_view(fact),
        ),
        intent matches Err(e) ==> e@ is Backend && e@->Backend_0 == "audit"@ && e@->Backend_1
            == crate::audit::event_refusal(event@, crate::audit::fact_view(fact)),
{
    match crate::audit::event_intent(principal_id, action, resource, event, fact) {
        Ok(intent) => Ok(intent),
        Err(error) => Err(LabUseCaseError::Backend { context: "audit", detail: error.message() }),
    }
}

} // verus!
