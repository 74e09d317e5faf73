//! The durable operation use cases: who may create, read, list, or cancel an
//! operation, and what an accepted creation records.
//!
//! Remote work cannot be request-scoped, so an accepted action becomes an
//! operation row that survives restarts. Every use case funnels through the
//! authorization catalog, and every accepted mutation appends an audit
//! intent: authorize first, audit second, mutate last. The storage mechanics
//! live behind the port that the application composes around these rules.

use vstd::prelude::*;

use crate::audit::{forbidden_key, AuditIntent, AuditMetadata, AuditOutcome, MAX_METADATA_VALUE_BYTES};
use crate::authz::{
    authorize, AccessRequest, Authorizer, Decision, Permission, ReasonId,
};
use crate::text::{debug_quoted, join, text_eq, to_owned_string, utf8_len};

verus! {

/// The kinds of operation the public API accepts, in the order they are
/// listed to callers.
pub open spec fn spec_creatable_kinds() -> Seq<Seq<char>> {
    seq![
        "noop"@,
        "ssh.exec"@,
        "agentless.inventory"@,
        "machine.onboard.test"@,
        "machine.onboard.discover"@,
        "machine.install-fleetd"@,
        "node.noop"@,
        "node.diagnostic"@,
        "node.inventory"@,
        "projects.discover"@,
        "projects.clone"@,
        "projects.pull"@,
        "projects.status"@,
        "projects.write-config"@,
        "skills.probe"@,
        "skills.deploy"@,
        "skills.undeploy"@,
    ]
}

/// The kinds of operation the public API accepts. An unknown kind is refused
/// rather than accepted as an unspecified promise.
pub fn creatable_kinds() -> (kinds: Vec<&'static str>)
    ensures
        kinds@.map_values(|k: &str| k@) == spec_creatable_kinds(),
{
    let kinds = vec![
        "noop",
        "ssh.exec",
        "agentless.inventory",
        "machine.onboard.test",
        "machine.onboard.discover",
        "machine.install-fleetd",
        "node.noop",
        "node.diagnostic",
        "node.inventory",
        "projects.discover",
        "projects.clone",
        "projects.pull",
        "projects.status",
        "projects.write-config",
        "skills.probe",
        "skills.deploy",
        "skills.undeploy",
    ];
    proof {
        assert(kinds@.map_values(|k: &str| k@) =~= spec_creatable_kinds());
    }
    kinds
}

/// The machine-scoped permission a kind's creation requires, when any.
pub open spec fn spec_machine_scoped_permission(kind: Seq<char>) -> Option<Permission> {
    if kind == "projects.discover"@ {
        Some(Permission::ProjectsDiscover)
    } else if kind == "projects.clone"@ || kind == "projects.pull"@ || kind == "projects.status"@
        || kind == "projects.write-config"@ {
        Some(Permission::ProjectsGitWrite)
    } else if kind == "skills.probe"@ {
        Some(Permission::SkillsRead)
    } else if kind == "skills.deploy"@ || kind == "skills.undeploy"@ {
        Some(Permission::SkillsDeploy)
    } else {
        None
    }
}

/// The machine-scoped permission a kind's creation requires, when any: the
/// checkout and skills kinds act on machines, so creating their operations
/// is itself the risky act.
fn machine_scoped_kind_permission(kind: &str) -> (permission: Option<Permission>)
    ensures
        permission == spec_machine_scoped_permission(kind@),
{
    if text_eq(kind, "projects.discover") {
        Some(Permission::ProjectsDiscover)
    } else if text_eq(kind, "projects.clone") || text_eq(kind, "projects.pull") || text_eq(
        kind,
        "projects.status",
    ) || text_eq(kind, "projects.write-config") {
        Some(Permission::ProjectsGitWrite)
    } else if text_eq(kind, "skills.probe") {
        Some(Permission::SkillsRead)
    } else if text_eq(kind, "skills.deploy") || text_eq(kind, "skills.undeploy") {
        Some(Permission::SkillsDeploy)
    } else {
        None
    }
}

/// The payload bound for provider inputs, in bytes.
pub const MAX_PAYLOAD_JSON: usize = 131072;

/// The public view of a durable operation.
#[derive(Clone, Debug)]
pub struct Operation {
    /// The operation's identity.
    pub id: String,
    /// What kind of work this is.
    pub kind: String,
    /// The current domain state id.
    pub state: String,
    /// The caller's idempotency key, when one was supplied.
    pub idempotency_key: Option<String>,
    /// Progress numerator, when reported.
    pub progress_current: Option<i64>,
    /// Progress denominator, when reported.
    pub progress_total: Option<i64>,
    /// Bounded progress message, when reported.
    pub progress_message: Option<String>,
    /// The deadline, in epoch milliseconds, when one was set.
    pub deadline_at: Option<i64>,
    /// Whether cancellation has been requested but not yet observed.
    pub cancel_requested: bool,
    /// The bounded provider input, decided at creation.
    pub payload_json: Option<String>,
    /// The bounded public result, present when the operation succeeded.
    pub result_json: Option<String>,
    /// The bounded public error, present when the operation failed.
    pub error_json: Option<String>,
    /// The correlation identity joining this operation to the caller's flow.
    pub correlation_id: Option<String>,
    /// Creation time (epoch milliseconds).
    pub created_at: i64,
    /// Last update (epoch milliseconds).
    pub updated_at: i64,
    /// The claim timestamp the owning worker set, when running under a claim.
    pub claimed_at: Option<i64>,
    /// The worker that owns the current claim, when any.
    pub worker_id: Option<String>,
}

/// A use-case rejection; the strings are safe to print.
#[derive(Debug)]
pub enum OperationUseCaseError {
    /// The caller may not perform the action.
    Denied(Decision),
    /// The action names an unknown kind, id, or key.
    NotFound {
        /// What was not found.
        what: String,
    },
    /// The request is malformed for this use case.
    Invalid {
        /// What is wrong, safe to print.
        detail: String,
    },
    /// The port or audit sink failed.
    Backend {
        /// The failing half.
        context: &'static str,
        /// The failure detail.
        detail: String,
    },
}

/// The mathematical value of an operation use-case error.
pub enum OperationErrorSpec {
    /// A denial.
    Denied(Decision),
    /// Something was not found.
    NotFound(Seq<char>),
    /// The request is malformed.
    Invalid(Seq<char>),
    /// A backend failure: the context and the detail.
    Backend(Seq<char>, Seq<char>),
}

impl View for OperationUseCaseError {
    type V = OperationErrorSpec;

    open spec fn view(&self) -> OperationErrorSpec {
        match self {
            OperationUseCaseError::Denied(d) => OperationErrorSpec::Denied(*d),
            OperationUseCaseError::NotFound { what } => OperationErrorSpec::NotFound(what@),
            OperationUseCaseError::Invalid { detail } => OperationErrorSpec::Invalid(detail@),
            OperationUseCaseError::Backend { context, detail } => OperationErrorSpec::Backend(
                context@,
                detail@,
            ),
        }
    }
}

impl OperationUseCaseError {
    /// The stable denial reason, when this error is a denial.
    pub fn reason(&self) -> (reason: Option<ReasonId>)
        ensures
            reason == match self@ {
                OperationErrorSpec::Denied(d) => Some(d.reason),
                _ => None,
            },
    {
        match self {
            OperationUseCaseError::Denied(decision) => Some(decision.reason),
            _ => None,
        }
    }

    /// The rendering of an error.
    pub open spec fn spec_message(e: OperationErrorSpec) -> Seq<char> {
        match e {
            OperationErrorSpec::Denied(d) => "denied: "@ + d.spec_describe(),
            OperationErrorSpec::NotFound(what) => "not found: "@ + what,
            OperationErrorSpec::Invalid(detail) => "invalid request: "@ + detail,
            OperationErrorSpec::Backend(context, detail) => "operation "@ + context + " failed: "@
                + detail,
        }
    }

    /// Renders the error for logs and callers.
    pub fn message(&self) -> (text: String)
        ensures
            text@ == Self::spec_message(self@),
    {
        match self {
            OperationUseCaseError::Denied(decision) => {
                let mut text = to_owned_string("denied: ");
                text.append(decision.describe().as_str());
                text
            },
            OperationUseCaseError::NotFound { what } => {
                let mut text = to_owned_string("not found: ");
                text.append(what.as_str());
                text
            },
            OperationUseCaseError::Invalid { detail } => {
                let mut text = to_owned_string("invalid request: ");
                text.append(detail.as_str());
                text
            },
            OperationUseCaseError::Backend { context, detail } => {
                let mut text = to_owned_string("operation ");
                text.append(context);
                text.append(" failed: ");
                text.append(detail.as_str());
                text
            },
        }
    }
}

/// The port's failures, typed so the use cases can answer honestly: a
/// missing record is a client-visible not-found, a backend failure is not.
#[derive(Debug)]
pub enum PortFailure {
    /// The referenced record does not exist.
    NotFound {
        /// The reference that was not found.
        what: String,
    },
    /// The record conflicts with an existing one.
    Conflict {
        /// The caller-safe detail.
        detail: String,
    },
    /// Something failed in the backend; the detail is safe to log.
    Backend {
        /// The failure detail.
        detail: String,
    },
}

/// The mathematical value of a port failure.
pub enum PortFailureSpec {
    /// Not found.
    NotFound(Seq<char>),
    /// A conflict.
    Conflict(Seq<char>),
    /// A backend failure.
    Backend(Seq<char>),
}

impl View for PortFailure {
    type V = PortFailureSpec;

    open spec fn view(&self) -> PortFailureSpec {
        match self {
            PortFailure::NotFound { what } => PortFailureSpec::NotFound(what@),
            PortFailure::Conflict { detail } => PortFailureSpec::Conflict(detail@),
            PortFailure::Backend { detail } => PortFailureSpec::Backend(detail@),
        }
    }
}

impl PortFailure {
    /// The rendering of a port failure.
    pub open spec fn spec_message(f: PortFailureSpec) -> Seq<char> {
        match f {
            PortFailureSpec::NotFound(what) => "not found: "@ + what,
            PortFailureSpec::Conflict(detail) => "conflict: "@ + detail,
            PortFailureSpec::Backend(detail) => "backend failure: "@ + detail,
        }
    }

    /// Renders the failure.
    pub fn message(&self) -> (text: String)
        ensures
            text@ == Self::spec_message(self@),
    {
        let (prefix, rest) = match self {
            PortFailure::NotFound { what } => ("not found: ", what.as_str()),
            PortFailure::Conflict { detail } => ("conflict: ", detail.as_str()),
            PortFailure::Backend { detail } => ("backend failure: ", detail.as_str()),
        };
        let mut text = to_owned_string(prefix);
        text.append(rest);
        text
    }
}

/// How much work sits in the queue, per state that matters for backpressure.
#[derive(Clone, Copy, Debug, Default, PartialEq, Eq, Structural)]
pub struct QueueDepths {
    /// Accepted, not yet claimed.
    pub pending: i64,
    /// Claimed and executing.
    pub running: i64,
    /// Asked to stop, not yet stopped.
    pub cancelling: i64,
}

/// A creation request.
#[derive(Clone, Debug, Default)]
pub struct NewOperation {
    /// The kind of work to create.
    pub kind: String,
    /// A caller-chosen key making the request idempotent.
    pub idempotency_key: Option<String>,
    /// The absolute deadline, in epoch milliseconds.
    pub deadline_at: Option<i64>,
    /// The correlation identity joining this operation to the caller's flow.
    pub correlation_id: Option<String>,
    /// The bounded provider input, for kinds that need one.
    pub payload_json: Option<String>,
}

/// What a port failure becomes in an operation use case: a conflict is a
/// malformed request, a missing record is not-found, and a backend failure
/// keeps its context.
pub open spec fn spec_map_port_failure(context: Seq<char>, failure: PortFailureSpec) -> OperationErrorSpec {
    match failure {
        PortFailureSpec::Conflict(detail) => OperationErrorSpec::Invalid(detail),
        PortFailureSpec::NotFound(what) => OperationErrorSpec::NotFound(what),
        PortFailureSpec::Backend(detail) => OperationErrorSpec::Backend(context, detail),
    }
}

/// Maps a port failure onto the use-case error (see
/// [`spec_map_port_failure`]).
pub fn map_port_failure(context: &'static str, failure: PortFailure) -> (error: OperationUseCaseError)
    ensures
        error@ == spec_map_port_failure(context@, failure@),
{
    match failure {
        PortFailure::Conflict { detail } => OperationUseCaseError::Invalid { detail },
        PortFailure::NotFound { what } => OperationUseCaseError::NotFound { what },
        PortFailure::Backend { detail } => OperationUseCaseError::Backend { context, detail },
    }
}

/// The text of a top-level string member of a JSON document, when the
/// document parses as JSON and the member is present and a string.
pub uninterp spec fn json_string_member(document: Seq<char>, member: Seq<char>) -> Option<Seq<char>>;

/// Reads a top-level string member of a JSON document.
///
/// Wraps `serde_json::from_str::<serde_json::Value>` followed by indexing
/// the value with the member name and `Value::as_str`; the result depends
/// on the document and the member name alone and is named, not spelled out.
#[verifier::external_body]
fn string_member(document: &str, member: &str) -> (value: Option<String>)
    ensures
        match value {
            Some(v) => json_string_member(document@, member@) == Some(v@),
            None => json_string_member(document@, member@) is None,
        },
{
    serde_json::from_str::<serde_json::Value>(document).ok().and_then(
        |parsed| parsed[member].as_str().map(|text| text.to_owned()),
    )
}

/// The machine id a payload names: its top-level `machineId` string.
pub open spec fn json_machine_id(payload: Seq<char>) -> Option<Seq<char>> {
    json_string_member(payload, "machineId"@)
}

/// The message refusing an unknown kind.
pub open spec fn unknown_kind_detail(kind: Seq<char>) -> Seq<char> {
    "kind "@ + debug_quoted(kind) + " is not accepted; known kinds: "@ + join(
        spec_creatable_kinds(),
        ", "@,
    )
}

/// The message refusing an oversized payload.
pub open spec fn oversized_payload_detail() -> Seq<char> {
    "the payload exceeds 131072 bytes"@
}

/// The message refusing a machine-scoped kind without a machine id.
pub open spec fn missing_machine_detail(kind: Seq<char>) -> Seq<char> {
    "the "@ + kind + " payload must carry a machineId"@
}

/// What a creation request asks of authorization beyond `operation.create`,
/// given the machine id its payload carries (when any): the request is
/// refused for an unknown kind, then for an oversized payload, then — for a
/// machine-scoped kind — for a payload without a machine id; otherwise it
/// names the machine-scoped permission and the machine, or nothing.
pub open spec fn spec_creation_scope(
    kind: Seq<char>,
    payload: Option<Seq<char>>,
    machine_id: Option<Seq<char>>,
) -> Result<Option<(Permission, Seq<char>)>, OperationErrorSpec> {
    if !spec_creatable_kinds().contains(kind) {
        Err(OperationErrorSpec::Invalid(unknown_kind_detail(kind)))
    } else if payload matches Some(p) && utf8_len(p) > MAX_PAYLOAD_JSON {
        Err(OperationErrorSpec::Invalid(oversized_payload_detail()))
    } else {
        match spec_machine_scoped_permission(kind) {
            Some(permission) => match machine_id {
                Some(id) => Ok(Some((permission, id))),
                None => Err(OperationErrorSpec::Invalid(missing_machine_detail(kind))),
            },
            None => Ok(None),
        }
    }
}

/// An optional text as a value.
pub open spec fn opt_view(o: Option<String>) -> Option<Seq<char>> {
    match o {
        Some(s) => Some(s@),
        None => None,
    }
}

/// A scope as a value.
pub open spec fn scope_view(o: Option<(Permission, String)>) -> Option<(Permission, Seq<char>)> {
    match o {
        Some((p, id)) => Some((p, id@)),
        None => None,
    }
}

fn is_creatable(kind: &str) -> (creatable: bool)
    ensures
        creatable == spec_creatable_kinds().contains(kind@),
{
    let kinds = creatable_kinds();
    let ghost all = kinds@.map_values(|k: &str| k@);
    let mut i: usize = 0;
    while i < kinds.len()
        invariant
            all == kinds@.map_values(|k: &str| k@),
            all == spec_creatable_kinds(),
            i <= kinds@.len(),
            forall|j: int| 0 <= j < i ==> #[trigger] all[j] != kind@,
        decreases kinds@.len() - i,
    {
        proof {
            assert(all[i as int] == kinds@[i as int]@);
        }
        if text_eq(kinds[i], kind) {
            return true;
        }
        i = i + 1;
    }
    false
}

fn known_kinds_text() -> (text: String)
    ensures
        text@ == join(spec_creatable_kinds(), ", "@),
{
    let kinds = creatable_kinds();
    let mut owned: Vec<String> = Vec::new();
    let mut i: usize = 0;
    while i < kinds.len()
        invariant
            kinds@.map_values(|k: &str| k@) == spec_creatable_kinds(),
            i <= kinds@.len(),
            crate::text::texts(owned@) == spec_creatable_kinds().subrange(0, i as int),
        decreases kinds@.len() - i,
    {
        let ghost before = crate::text::texts(owned@);
        owned.push(to_owned_string(kinds[i]));
        proof {
            assert(crate::text::texts(owned@) =~= before.push(kinds@[i as int]@));
            assert(spec_creatable_kinds().subrange(0, i + 1) =~= spec_creatable_kinds().subrange(
                0,
                i as int,
            ).push(kinds@.map_values(|k: &str| k@)[i as int]));
        }
        i = i + 1;
    }
    proof {
        assert(spec_creatable_kinds().subrange(0, i as int) =~= spec_creatable_kinds());
    }
    crate::text::join_texts(&owned, ", ")
}

/// Decides a creation request's scope from the machine id its payload
/// carries (see [`spec_creation_scope`]).
pub fn creation_scope(new: &NewOperation, machine_id: Option<&str>) -> (scope: Result<
    Option<(Permission, String)>,
    OperationUseCaseError,
>)
    ensures
        match scope {
            Ok(s) => spec_creation_scope(new.kind@, opt_view(new.payload_json), match machine_id {
                Some(m) => Some(m@),
                None => None,
            }) == Ok::<Option<(Permission, Seq<char>)>, OperationErrorSpec>(scope_view(s)),
            Err(e) => spec_creation_scope(new.kind@, opt_view(new.payload_json), match machine_id {
                Some(m) => Some(m@),
                None => None,
            }) == Err::<Option<(Permission, Seq<char>)>, OperationErrorSpec>(e@),
        },
{
    let kind = new.kind.as_str();
    if !is_creatable(kind) {
        let mut detail = to_owned_string("kind ");
        detail.append(crate::text::quoted(kind).as_str());
        detail.append(" is not accepted; known kinds: ");
        detail.append(known_kinds_text().as_str());
        return Err(OperationUseCaseError::Invalid { detail });
    }
    match &new.payload_json {
        Some(payload) => {
            if crate::text::byte_len(payload.as_str()) > MAX_PAYLOAD_JSON {
                return Err(
                    OperationUseCaseError::Invalid {
                        detail: to_owned_string("the payload exceeds 131072 bytes"),
                    },
                );
            }
        },
        None => {},
    }
    match machine_scoped_kind_permission(kind) {
        Some(permission) => match machine_id {
            Some(id) => Ok(Some((permission, to_owned_string(id)))),
            None => {
                let mut detail = to_owned_string("the ");
                detail.append(kind);
                detail.append(" payload must carry a machineId");
                Err(OperationUseCaseError::Invalid { detail })
            },
        },
        None => Ok(None),
    }
}

/// The machine id a creation request's payload carries, read only for the
/// machine-scoped kinds.
pub open spec fn request_machine_id(kind: Seq<char>, payload: Option<Seq<char>>) -> Option<Seq<char>> {
    match (spec_machine_scoped_permission(kind), payload) {
        (Some(_), Some(p)) => json_machine_id(p),
        _ => None,
    }
}

/// Validates a creation request and reads the machine its payload names
/// (see [`spec_creation_scope`] over [`request_machine_id`]).
pub fn validate_new_operation(new: &NewOperation) -> (scope: Result<
    Option<(Permission, String)>,
    OperationUseCaseError,
>)
    ensures
        match scope {
            Ok(s) => spec_creation_scope(
                new.kind@,
                opt_view(new.payload_json),
                request_machine_id(new.kind@, opt_view(new.payload_json)),
            ) == Ok::<Option<(Permission, Seq<char>)>, OperationErrorSpec>(scope_view(s)),
            Err(e) => spec_creation_scope(
                new.kind@,
                opt_view(new.payload_json),
                request_machine_id(new.kind@, opt_view(new.payload_json)),
            ) == Err::<Option<(Permission, Seq<char>)>, OperationErrorSpec>(e@),
        },
{
    let machine_id: Option<String> = match (machine_scoped_kind_permission(new.kind.as_str()), &new.payload_json) {
        (Some(_), Some(payload)) => string_member(payload.as_str(), "machineId"),
        _ => None,
    };
    match &machine_id {
        Some(id) => creation_scope(new, Some(id.as_str())),
        None => creation_scope(new, None),
    }
}

/// What admitting a creation request gives, for the authorizer's answers
/// to its two requests: `operation.create` first, then the request's own
/// validity, then the kind's permission on the payload's machine.
pub open spec fn spec_admission(new: NewOperation, create: Decision, scoped: Decision) -> Result<
    (),
    OperationErrorSpec,
> {
    if !create.allowed {
        Err(OperationErrorSpec::Denied(create))
    } else {
        match spec_creation_scope(
            new.kind@,
            opt_view(new.payload_json),
            request_machine_id(new.kind@, opt_view(new.payload_json)),
        ) {
            Err(e) => Err(e),
            Ok(None) => Ok(()),
            Ok(Some(_)) => if scoped.allowed {
                Ok(())
            } else {
                Err(OperationErrorSpec::Denied(scoped))
            },
        }
    }
}

/// An admission result as a value.
pub open spec fn admission_view(admitted: Result<(), OperationUseCaseError>) -> Result<
    (),
    OperationErrorSpec,
> {
    match admitted {
        Ok(()) => Ok(()),
        Err(e) => Err(e@),
    }
}

/// The request a creation first hands the authorizer: `operation.create`
/// by the principal, on no resource.
pub fn creation_request<'a>(principal_id: &'a str) -> (request: AccessRequest<'a>)
    ensures
        request == (AccessRequest { principal_id, action: Permission::OperationCreate, resource: None }),
{
    AccessRequest { principal_id, action: Permission::OperationCreate, resource: None }
}

/// The request a machine-scoped creation then hands the authorizer: the
/// kind's permission by the principal, on the payload's machine.
pub fn scoped_request<'a>(principal_id: &'a str, permission: Permission, machine_id: &'a str) -> (request:
    AccessRequest<'a>)
    ensures
        request == (AccessRequest { principal_id, action: permission, resource: Some(machine_id) }),
{
    AccessRequest { principal_id, action: permission, resource: Some(machine_id) }
}

/// Decides an admission from the authorizer's answers (see
/// [`spec_admission`]): `create` to the creation request and, for a
/// machine-scoped kind, `scoped` to the scoped request.
pub fn admission(new: &NewOperation, create: Decision, scoped: Decision) -> (admitted: Result<
    (),
    OperationUseCaseError,
>)
    ensures
        admission_view(admitted) == spec_admission(*new, create, scoped),
{
    if !create.allowed {
        return Err(OperationUseCaseError::Denied(create));
    }
    match validate_new_operation(new) {
        Err(error) => Err(error),
        Ok(None) => Ok(()),
        Ok(Some(_)) => if scoped.allowed {
            Ok(())
        } else {
            Err(OperationUseCaseError::Denied(scoped))
        },
    }
}

/// The decision an authorization carries, allowed or denied.
fn answer_of(result: Result<Decision, Decision>) -> (decision: Decision)
    ensures
        result matches Ok(d) ==> decision == d,
        result matches Err(d) ==> decision == d,
{
    match result {
        Ok(d) => d,
        Err(d) => d,
    }
}

/// Admits a creation request: `operation.create` through the funnel, the
/// request's own validity, and — for a machine-scoped kind — the kind's
/// permission on the payload's machine, in that order. The requests are
/// those [`creation_request`] and [`scoped_request`] build, and
/// [`admission`] decides from the authorizer's answers.
pub fn admit_creation<A: Authorizer + ?Sized>(
    authorizer: &A,
    principal_id: &str,
    new: &NewOperation,
) -> (admitted: Result<(), OperationUseCaseError>)
    ensures
        ({
            let create = authorizer.spec_decide(
                AccessRequest { principal_id, action: Permission::OperationCreate, resource: None },
            );
            match spec_creation_scope(
                new.kind@,
                opt_view(new.payload_json),
                request_machine_id(new.kind@, opt_view(new.payload_json)),
            ) {
                Ok(Some((permission, machine_id))) => if create.allowed {
                    exists|scoped: AccessRequest|
                        scoped.principal_id == principal_id && scoped.action == permission
                            && (scoped.resource matches Some(r) && r@ == machine_id)
                            && admission_view(admitted) == spec_admission(
                            *new,
                            create,
                            #[trigger] authorizer.spec_decide(scoped),
                        )
                } else {
                    admission_view(admitted) == spec_admission(*new, create, create)
                },
                _ => admission_view(admitted) == spec_admission(*new, create, create),
            }
        }),
        admitted matches Err(OperationUseCaseError::Denied(d)) ==> !d.allowed,
        admitted is Ok ==> spec_creation_scope(
            new.kind@,
            opt_view(new.payload_json),
            request_machine_id(new.kind@, opt_view(new.payload_json)),
        ) is Ok,
{
    let first = creation_request(principal_id);
    let answered = authorize(authorizer, first);
    let create = answer_of(answered);
    if !create.allowed {
        return admission(new, create, create);
    }
    match validate_new_operation(new) {
        Ok(Some((permission, machine_id))) => {
            let second = scoped_request(principal_id, permission, machine_id.as_str());
            let answered = authorize(authorizer, second);
            let scoped = answer_of(answered);
            let admitted = admission(new, create, scoped);
            proof {
                assert(second.resource matches Some(r) && r@ == machine_id@);
                assert(admission_view(admitted) == spec_admission(
                    *new,
                    create,
                    authorizer.spec_decide(second),
                ));
            }
            admitted
        },
        _ => admission(new, create, create),
    }
}

/// Builds one-entry metadata.
pub fn single_entry_metadata(key: &str, value: &str) -> (metadata: Result<
    AuditMetadata,
    crate::audit::MetadataError,
>)
    ensures
        metadata is Ok <==> (!forbidden_key(key@) && utf8_len(value@) <= MAX_METADATA_VALUE_BYTES),
        metadata matches Ok(m) ==> m.well_formed() && m.spec_entries() == seq![(key@, value@)],
        metadata matches Err(e) ==> e.spec_message() == crate::audit::entry_refusal(key@, value@),
{
    let mut metadata = AuditMetadata::new();
    match metadata.insert(key, value) {
        Ok(()) => {
            proof {
                let after = metadata.spec_entries();
                assert(Seq::<(Seq<char>, Seq<char>)>::empty().insert(0, (key@, value@)) =~= seq![
                    (key@, value@),
                ]);
            }
            Ok(metadata)
        },
        Err(error) => Err(error),
    }
}

/// The audit intent an accepted creation appends: the principal did
/// `operation.create` on the new operation, allowed, in the request's
/// correlation, with the kind as metadata. Fails, as a backend failure of
/// the audit half, when the kind cannot be recorded as metadata.
pub fn creation_intent(principal_id: &str, new: &NewOperation, operation_id: &str) -> (intent:
    Result<AuditIntent, OperationUseCaseError>)
    ensures
        intent is Ok <==> utf8_len(new.kind@) <= MAX_METADATA_VALUE_BYTES && !forbidden_key(
            "kind"@,
        ),
        intent matches Ok(i) ==> {
            &&& i.actor@ == principal_id@
            &&& i.action@ == Permission::OperationCreate.spec_id()
            &&& opt_view(i.resource) == Some(operation_id@)
            &&& i.decision == Decision::spec_allow()
            &&& opt_view(i.correlation_id) == opt_view(new.correlation_id)
            &&& opt_view(i.operation_id) == Some(operation_id@)
            &&& i.metadata.spec_entries() == seq![("kind"@, new.kind@)]
        },
        intent matches Err(e) ==> e@ == OperationErrorSpec::Backend(
            "create_audit"@,
            crate::audit::entry_refusal("kind"@, new.kind@),
        ),
{
    match single_entry_metadata("kind", new.kind.as_str()) {
        Ok(metadata) => Ok(
            AuditIntent {
                actor: to_owned_string(principal_id),
                action: to_owned_string(Permission::OperationCreate.id()),
                resource: Some(to_owned_string(operation_id)),
                decision: Decision::allow(),
                correlation_id: crate::difference::copy_opt(&new.correlation_id),
                operation_id: Some(to_owned_string(operation_id)),
                metadata,
            },
        ),
        Err(error) => Err(
            OperationUseCaseError::Backend { context: "create_audit", detail: error.message() },
        ),
    }
}

/// Whether an operation state is terminal.
pub open spec fn spec_is_terminal(state: Seq<char>) -> bool {
    state == "succeeded"@ || state == "failed"@ || state == "cancelled"@ || state == "timed_out"@
}

/// Decides whether an operation in a state may still be cancelled: a
/// terminal operation is no longer live, and is answered as not found.
pub fn cancellation_gate(id: &str, state: &str) -> (gate: Result<(), OperationUseCaseError>)
    ensures
        gate is Ok <==> !spec_is_terminal(state@),
        gate matches Err(e) ==> e@ == OperationErrorSpec::NotFound("live operation "@ + id@),
{
    if text_eq(state, "succeeded") || text_eq(state, "failed") || text_eq(state, "cancelled")
        || text_eq(state, "timed_out") {
        let mut what = to_owned_string("live operation ");
        what.append(id);
        Err(OperationUseCaseError::NotFound { what })
    } else {
        Ok(())
    }
}

/// The audit intent an accepted cancellation appends, before the cancel is
/// requested: the principal did `operation.cancel` on the operation, allowed,
/// in the operation's correlation, with no metadata.
pub fn cancellation_intent(principal_id: &str, id: &str, correlation_id: &Option<String>) -> (intent:
    AuditIntent)
    ensures
        intent.actor@ == principal_id@,
        intent.action@ == Permission::OperationCancel.spec_id(),
        opt_view(intent.resource) == Some(id@),
        intent.decision == Decision::spec_allow(),
        opt_view(intent.correlation_id) == opt_view(*correlation_id),
        opt_view(intent.operation_id) == Some(id@),
        intent.metadata.spec_entries() == Seq::<(Seq<char>, Seq<char>)>::empty(),
{
    AuditIntent {
        actor: to_owned_string(principal_id),
        action: to_owned_string(Permission::OperationCancel.id()),
        resource: Some(to_owned_string(id)),
        decision: Decision::allow(),
        correlation_id: crate::difference::copy_opt(correlation_id),
        operation_id: Some(to_owned_string(id)),
        metadata: AuditMetadata::new(),
    }
}

/// The audit outcome a terminal state records.
pub open spec fn spec_outcome_for_state(state: Seq<char>) -> AuditOutcome {
    if state == "succeeded"@ {
        AuditOutcome::Succeeded
    } else if state == "cancelled"@ {
        AuditOutcome::Cancelled
    } else {
        AuditOutcome::Failed
    }
}

/// The audit outcome a completion records: success and cancellation as
/// such, and every other terminal state as a failure.
pub fn outcome_for_state(state: &str) -> (outcome: AuditOutcome)
    ensures
        outcome == spec_outcome_for_state(state@),
{
    if text_eq(state, "succeeded") {
        AuditOutcome::Succeeded
    } else if text_eq(state, "cancelled") {
        AuditOutcome::Cancelled
    } else {
        AuditOutcome::Failed
    }
}

} // verus!
