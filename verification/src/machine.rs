//! The machine record and its read model: stable identity over mutable
//! facts.
//!
//! A machine is registered once and then observed endlessly. The read model
//! derives the connectivity status from the node link, ages recorded `known`
//! facts into `stale` at the read time, and redacts the userinfo of endpoint
//! references for callers that may not read sensitive detail. Registration
//! and every change are validated here before they reach storage.

use vstd::prelude::*;

use crate::authz::Decision;
use crate::capability::{spec_effective_status, CapabilityFact, CapabilityStatus};
use crate::node::{GatewayState, NodeStatus};
use crate::operation::{opt_view, PortFailure, PortFailureSpec};
use crate::text::{decimal, has_prefix, split_first, text_eq, to_owned_string, utf8_len};

verus! {

/// How long a recorded `known` capability fact stays fresh in the read
/// model before it displays as `stale`: one day, in milliseconds.
pub const CAPABILITY_FRESHNESS_MS: i64 = 86400000;

/// How an endpoint reaches a machine.
#[derive(Clone, Copy, Debug, PartialEq, Eq, Structural)]
pub enum EndpointKind {
    /// Over SSH: the reference is `user@host:port`.
    Ssh,
    /// Through the node agent: the reference is the node id.
    Fleetd,
}

/// One connection endpoint.
#[derive(Clone, Debug)]
pub struct Endpoint {
    /// The endpoint's identity.
    pub id: String,
    /// How this endpoint reaches the machine.
    pub kind: EndpointKind,
    /// The reference; never carries a secret.
    pub reference: String,
}

/// The newest inventory observation of a machine: what probed it and when.
#[derive(Clone, Debug, PartialEq, Eq)]
pub struct InventoryObservation {
    /// What observed it, e.g. `agentless/1`.
    pub source: String,
    /// When the observation was collected (epoch milliseconds).
    pub collected_at: i64,
}

/// The node trust link recorded for a machine, when one is enrolled.
#[derive(Clone, Debug, PartialEq, Eq)]
pub struct NodeLink {
    /// The durable gateway state the session registry last persisted.
    pub gateway_state: GatewayState,
    /// The identity's status; a revoked identity can never reconnect.
    pub identity_status: NodeStatus,
    /// The last gateway observation time, when the node ever connected.
    pub last_seen_at: Option<i64>,
}

/// One registered machine, as read back by queries: what was observed, as
/// it was observed.
#[derive(Clone, Debug)]
pub struct Machine {
    /// The stable identity.
    pub id: String,
    /// The mutable, unique label.
    pub name: String,
    /// Operator notes.
    pub description: String,
    /// How the machine is reached today; endpoints coexist.
    pub endpoints: Vec<Endpoint>,
    /// Tags, filterable.
    pub tags: Vec<String>,
    /// Groups, filterable.
    pub groups: Vec<String>,
    /// The recorded capability facts.
    pub capabilities: Vec<CapabilityFact>,
    /// The newest inventory observation, when the machine was ever probed.
    pub last_observation: Option<InventoryObservation>,
    /// The node trust link, when the machine has an enrolled node.
    pub node: Option<NodeLink>,
    /// Registration time (epoch milliseconds).
    pub created_at: i64,
    /// Last mutation (epoch milliseconds).
    pub updated_at: i64,
}

/// The derived connectivity state of a machine.
#[derive(Clone, Copy, Debug, PartialEq, Eq, Structural)]
pub enum MachineStatus {
    /// The node gateway session is open and heartbeats are fresh.
    Connected,
    /// The node gateway session is open but heartbeats aged.
    Stale,
    /// No live node session: absent, never connected, or revoked.
    Offline,
    /// No node identity: reached over SSH only.
    Agentless,
}

impl MachineStatus {
    /// The stable string used in the API and the CLI.
    pub open spec fn spec_id(self) -> Seq<char> {
        match self {
            MachineStatus::Connected => "connected"@,
            MachineStatus::Stale => "stale"@,
            MachineStatus::Offline => "offline"@,
            MachineStatus::Agentless => "agentless"@,
        }
    }

    /// The stable string used in the API and the CLI.
    pub fn id(self) -> (id: &'static str)
        ensures
            id@ == self.spec_id(),
    {
        match self {
            MachineStatus::Connected => "connected",
            MachineStatus::Stale => "stale",
            MachineStatus::Offline => "offline",
            MachineStatus::Agentless => "agentless",
        }
    }

    /// Parses the stable string: exactly the ids of the statuses.
    pub fn from_id(id: &str) -> (status: Option<Self>)
        ensures
            match status {
                Some(s) => s.spec_id() == id@,
                None => forall|s: MachineStatus| s.spec_id() != id@,
            },
    {
        if text_eq(id, "connected") {
            Some(MachineStatus::Connected)
        } else if text_eq(id, "stale") {
            Some(MachineStatus::Stale)
        } else if text_eq(id, "offline") {
            Some(MachineStatus::Offline)
        } else if text_eq(id, "agentless") {
            Some(MachineStatus::Agentless)
        } else {
            proof {
                assert forall|s: MachineStatus| s.spec_id() != id@ by {
                    match s {
                        MachineStatus::Connected => {},
                        MachineStatus::Stale => {},
                        MachineStatus::Offline => {},
                        MachineStatus::Agentless => {},
                    }
                }
            }
            None
        }
    }

    /// The status a node link gives a machine: no link is agentless; a
    /// revoked identity is offline; an active one has the gateway's state.
    pub open spec fn spec_derive(node: Option<NodeLink>) -> MachineStatus {
        match node {
            None => MachineStatus::Agentless,
            Some(link) => match link.identity_status {
                NodeStatus::Revoked => MachineStatus::Offline,
                NodeStatus::Active => match link.gateway_state {
                    GatewayState::Connected => MachineStatus::Connected,
                    GatewayState::Stale => MachineStatus::Stale,
                    GatewayState::Offline => MachineStatus::Offline,
                },
            },
        }
    }

    /// Derives the machine status from the recorded node link, when any.
    pub fn derive(node: Option<&NodeLink>) -> (status: Self)
        ensures
            status == Self::spec_derive(
                match node {
                    Some(l) => Some(*l),
                    None => None,
                },
            ),
    {
        match node {
            None => MachineStatus::Agentless,
            Some(link) => match link.identity_status {
                NodeStatus::Revoked => MachineStatus::Offline,
                NodeStatus::Active => match link.gateway_state {
                    GatewayState::Connected => MachineStatus::Connected,
                    GatewayState::Stale => MachineStatus::Stale,
                    GatewayState::Offline => MachineStatus::Offline,
                },
            },
        }
    }
}

/// A machine's connectivity status says what its node link says: with an
/// active identity it names the gateway's state (connected, stale or
/// offline, by the same stable id); a revoked identity is offline whatever
/// the gateway reports; no link is agentless. A machine reads as connected
/// exactly when its identity is active and its gateway connected.
pub proof fn law_status_names_the_node_link(link: NodeLink)
    ensures
        link.identity_status == NodeStatus::Active ==> MachineStatus::spec_derive(
            Some(link),
        ).spec_id() == link.gateway_state.spec_id(),
        link.identity_status == NodeStatus::Revoked ==> MachineStatus::spec_derive(Some(link))
            == MachineStatus::Offline,
        MachineStatus::spec_derive(None) == MachineStatus::Agentless,
        (MachineStatus::spec_derive(Some(link)) == MachineStatus::Connected) <==> (
        link.identity_status == NodeStatus::Active && link.gateway_state == GatewayState::Connected),
        MachineStatus::spec_derive(Some(link)) != MachineStatus::Agentless,
{
}

/// One capability fact as the read model displays it.
#[derive(Clone, Debug, PartialEq, Eq)]
pub struct CapabilityFactView {
    /// The namespace.
    pub namespace: String,
    /// The capability name within the namespace.
    pub name: String,
    /// The observed value, when the capability has one.
    pub value: Option<String>,
    /// The effective status at the read time.
    pub status: CapabilityStatus,
    /// When the fact was observed (epoch milliseconds).
    pub observed_at: i64,
    /// What observed it.
    pub source: String,
}

/// The operator-facing machine read model.
#[derive(Clone, Debug)]
pub struct MachineView {
    /// The stable identity.
    pub id: String,
    /// The mutable, unique label.
    pub name: String,
    /// Operator notes.
    pub description: String,
    /// How the machine is reached; references redacted unless the caller
    /// may read sensitive endpoint detail.
    pub endpoints: Vec<Endpoint>,
    /// Tags, filterable.
    pub tags: Vec<String>,
    /// Groups, filterable.
    pub groups: Vec<String>,
    /// The derived connectivity state at the read time.
    pub machine_status: MachineStatus,
    /// The last gateway observation time, when the node ever connected.
    pub last_seen_at: Option<i64>,
    /// The newest inventory observation, when the machine was ever probed.
    pub last_observation: Option<InventoryObservation>,
    /// The capability facts with effective statuses at the read time.
    pub capabilities: Vec<CapabilityFactView>,
    /// Registration time (epoch milliseconds).
    pub created_at: i64,
    /// Last mutation (epoch milliseconds).
    pub updated_at: i64,
}

/// A reference with its userinfo replaced by a marker: `user@host` becomes
/// `***@host` (split at the first `@`); a reference without one is kept.
pub open spec fn spec_redact_userinfo(reference: Seq<char>) -> Seq<char> {
    match split_first(reference, '@') {
        Some((_, host)) => "***@"@ + host,
        None => reference,
    }
}

/// Replaces the userinfo of a `user@host` reference with a marker (see
/// [`spec_redact_userinfo`]).
pub fn redact_userinfo(reference: &str) -> (redacted: String)
    ensures
        redacted@ == spec_redact_userinfo(reference@),
{
    match crate::text::split_once(reference, '@') {
        Some((_, host)) => {
            let mut redacted = to_owned_string("***@");
            redacted.append(host);
            redacted
        },
        None => to_owned_string(reference),
    }
}

/// An endpoint as a value: its id, kind and reference.
pub open spec fn endpoint_view(e: Endpoint) -> (Seq<char>, EndpointKind, Seq<char>) {
    (e.id@, e.kind, e.reference@)
}

/// A capability fact view as a value.
pub open spec fn fact_view_value(f: CapabilityFactView) -> (
    Seq<char>,
    Seq<char>,
    Option<Seq<char>>,
    CapabilityStatus,
    i64,
    Seq<char>,
) {
    (f.namespace@, f.name@, opt_view(f.value), f.status, f.observed_at, f.source@)
}

impl MachineView {
    /// Assembles the view from the record at a read time: the derived
    /// status, each fact with its effective status, the node's last-seen
    /// time, and each endpoint reference kept when `sensitive`, else with
    /// its userinfo redacted.
    pub fn assemble(machine: Machine, now: i64, sensitive: bool) -> (view: Self)
        ensures
            view.id@ == machine.id@,
            view.name@ == machine.name@,
            view.description@ == machine.description@,
            view.tags@ == machine.tags@,
            view.groups@ == machine.groups@,
            view.machine_status == MachineStatus::spec_derive(machine.node),
            view.last_seen_at == match machine.node {
                Some(n) => n.last_seen_at,
                None => None,
            },
            view.last_observation == machine.last_observation,
            view.created_at == machine.created_at,
            view.updated_at == machine.updated_at,
            view.endpoints@.len() == machine.endpoints@.len(),
            forall|i: int|
                0 <= i < view.endpoints@.len() ==> endpoint_view(#[trigger] view.endpoints@[i]) == (
                    machine.endpoints@[i].id@,
                    machine.endpoints@[i].kind,
                    if sensitive {
                        machine.endpoints@[i].reference@
                    } else {
                        spec_redact_userinfo(machine.endpoints@[i].reference@)
                    },
                ),
            view.capabilities@.len() == machine.capabilities@.len(),
            forall|i: int|
                0 <= i < view.capabilities@.len() ==> fact_view_value(
                    #[trigger] view.capabilities@[i],
                ) == (
                    machine.capabilities@[i].namespace@,
                    machine.capabilities@[i].name@,
                    opt_view(machine.capabilities@[i].value),
                    spec_effective_status(
                        machine.capabilities@[i].status,
                        machine.capabilities@[i].observed_at,
                        now,
                        CAPABILITY_FRESHNESS_MS,
                    ),
                    machine.capabilities@[i].observed_at,
                    machine.capabilities@[i].source@,
                ),
    {
        let machine_status = MachineStatus::derive(
            match &machine.node {
                Some(n) => Some(n),
                None => None,
            },
        );
        let mut capabilities: Vec<CapabilityFactView> = Vec::new();
        let mut i: usize = 0;
        while i < machine.capabilities.len()
            invariant
                i <= machine.capabilities@.len(),
                capabilities@.len() == i,
                forall|k: int|
                    0 <= k < i ==> fact_view_value(#[trigger] capabilities@[k]) == (
                        machine.capabilities@[k].namespace@,
                        machine.capabilities@[k].name@,
                        opt_view(machine.capabilities@[k].value),
                        spec_effective_status(
                            machine.capabilities@[k].status,
                            machine.capabilities@[k].observed_at,
                            now,
                            CAPABILITY_FRESHNESS_MS,
                        ),
                        machine.capabilities@[k].observed_at,
                        machine.capabilities@[k].source@,
                    ),
            decreases machine.capabilities@.len() - i,
        {
            let fact = &machine.capabilities[i];
            capabilities.push(
                CapabilityFactView {
                    namespace: fact.namespace.clone(),
                    name: fact.name.clone(),
                    value: crate::difference::copy_opt(&fact.value),
                    status: fact.effective_status(now, CAPABILITY_FRESHNESS_MS),
                    observed_at: fact.observed_at,
                    source: fact.source.clone(),
                },
            );
            i = i + 1;
        }
        let mut endpoints: Vec<Endpoint> = Vec::new();
        let mut j: usize = 0;
        while j < machine.endpoints.len()
            invariant
                j <= machine.endpoints@.len(),
                endpoints@.len() == j,
                forall|k: int|
                    0 <= k < j ==> endpoint_view(#[trigger] endpoints@[k]) == (
                        machine.endpoints@[k].id@,
                        machine.endpoints@[k].kind,
                        if sensitive {
                            machine.endpoints@[k].reference@
                        } else {
                            spec_redact_userinfo(machine.endpoints@[k].reference@)
                        },
                    ),
            decreases machine.endpoints@.len() - j,
        {
            let endpoint = &machine.endpoints[j];
            let reference = if sensitive {
                endpoint.reference.clone()
            } else {
                redact_userinfo(endpoint.reference.as_str())
            };
            endpoints.push(Endpoint { id: endpoint.id.clone(), kind: endpoint.kind, reference });
            j = j + 1;
        }
        let last_seen_at = match &machine.node {
            Some(n) => n.last_seen_at,
            None => None,
        };
        MachineView {
            id: machine.id,
            name: machine.name,
            description: machine.description,
            endpoints,
            tags: machine.tags,
            groups: machine.groups,
            machine_status,
            last_seen_at,
            last_observation: machine.last_observation,
            capabilities,
            created_at: machine.created_at,
            updated_at: machine.updated_at,
        }
    }
}

/// A new endpoint, before identity minting.
#[derive(Clone, Debug)]
pub struct NewEndpoint {
    /// How this endpoint reaches the machine.
    pub kind: EndpointKind,
    /// The reference.
    pub reference: String,
}

/// A registration request: identity is minted by storage, not supplied.
#[derive(Clone, Debug)]
pub struct RegisterMachine {
    /// The machine's unique name.
    pub name: String,
    /// Operator notes.
    pub description: String,
    /// Initial endpoints; at least one is required.
    pub endpoints: Vec<NewEndpoint>,
    /// Initial tags.
    pub tags: Vec<String>,
    /// Initial groups.
    pub groups: Vec<String>,
}

/// Filters for the machine list; absent filters match everything.
#[derive(Clone, Debug, Default, PartialEq, Eq)]
pub struct MachineFilter {
    /// Only machines carrying this tag.
    pub tag: Option<String>,
    /// Only machines in this group.
    pub group: Option<String>,
    /// Only machines whose capability `(namespace, name)` exists.
    pub capability: Option<(String, String)>,
    /// Only machines in this derived connectivity state.
    pub status: Option<MachineStatus>,
}

/// A use-case rejection, mapped onto public API errors by the adapter.
#[derive(Debug)]
pub enum MachineUseCaseError {
    /// The caller may not perform the action.
    Denied(Decision),
    /// The machine, tag, or endpoint named does not exist.
    NotFound {
        /// What was not found.
        what: String,
    },
    /// The name or reference is taken, or malformed.
    Conflict {
        /// What conflicts.
        detail: String,
    },
    /// The request is malformed.
    Invalid {
        /// What is wrong.
        detail: String,
    },
    /// The port failed.
    Backend {
        /// Where.
        context: &'static str,
        /// The failure detail.
        detail: String,
    },
}

/// The mathematical value of a machine use-case error.
pub enum MachineErrorSpec {
    /// A denial.
    Denied(Decision),
    /// Not found.
    NotFound(Seq<char>),
    /// A conflict.
    Conflict(Seq<char>),
    /// A malformed request.
    Invalid(Seq<char>),
    /// A backend failure: the context and the detail.
    Backend(Seq<char>, Seq<char>),
}

impl View for MachineUseCaseError {
    type V = MachineErrorSpec;

    open spec fn view(&self) -> MachineErrorSpec {
        match self {
            MachineUseCaseError::Denied(d) => MachineErrorSpec::Denied(*d),
            MachineUseCaseError::NotFound { what } => MachineErrorSpec::NotFound(what@),
            MachineUseCaseError::Conflict { detail } => MachineErrorSpec::Conflict(detail@),
            MachineUseCaseError::Invalid { detail } => MachineErrorSpec::Invalid(detail@),
            MachineUseCaseError::Backend { context, detail } => MachineErrorSpec::Backend(
                context@,
                detail@,
            ),
        }
    }
}

impl MachineUseCaseError {
    /// The rendering of an error.
    pub open spec fn spec_message(e: MachineErrorSpec) -> Seq<char> {
        match e {
            MachineErrorSpec::Denied(d) => "denied: "@ + d.spec_describe(),
            MachineErrorSpec::NotFound(what) => "not found: "@ + what,
            MachineErrorSpec::Conflict(detail) => "conflict: "@ + detail,
            MachineErrorSpec::Invalid(detail) => "invalid request: "@ + detail,
            MachineErrorSpec::Backend(context, detail) => "machine "@ + context + " failed: "@
                + detail,
        }
    }

    /// Renders the error.
    pub fn message(&self) -> (text: String)
        ensures
            text@ == Self::spec_message(self@),
    {
        match self {
            MachineUseCaseError::Denied(decision) => {
                let mut text = to_owned_string("denied: ");
                text.append(decision.describe().as_str());
                text
            },
            MachineUseCaseError::NotFound { what } => {
                let mut text = to_owned_string("not found: ");
                text.append(what.as_str());
                text
            },
            MachineUseCaseError::Conflict { detail } => {
                let mut text = to_owned_string("conflict: ");
                text.append(detail.as_str());
                text
            },
            MachineUseCaseError::Invalid { detail } => {
                let mut text = to_owned_string("invalid request: ");
                text.append(detail.as_str());
                text
            },
            MachineUseCaseError::Backend { context, detail } => {
                let mut text = to_owned_string("machine ");
                text.append(context);
                text.append(" failed: ");
                text.append(detail.as_str());
                text
            },
        }
    }
}

/// What a port failure becomes in a machine use case.
pub open spec fn spec_map_port(context: Seq<char>, failure: PortFailureSpec) -> MachineErrorSpec {
    match failure {
        PortFailureSpec::NotFound(what) => MachineErrorSpec::NotFound(what),
        PortFailureSpec::Conflict(detail) => MachineErrorSpec::Conflict(detail),
        PortFailureSpec::Backend(detail) => MachineErrorSpec::Backend(context, detail),
    }
}

/// Maps a port failure onto the use-case error (see [`spec_map_port`]).
pub fn map_port(context: &'static str, failure: PortFailure) -> (error: MachineUseCaseError)
    ensures
        error@ == spec_map_port(context@, failure@),
{
    match failure {
        PortFailure::NotFound { what } => MachineUseCaseError::NotFound { what },
        PortFailure::Conflict { detail } => MachineUseCaseError::Conflict { detail },
        PortFailure::Backend { detail } => MachineUseCaseError::Backend { context, detail },
    }
}

/// Whether a label (name, tag, group) has an allowed length: 1 to 64 bytes.
pub open spec fn label_ok(label: Seq<char>) -> bool {
    1 <= utf8_len(label) <= 64
}

fn label_length_ok(label: &str) -> (ok: bool)
    ensures
        ok == label_ok(label@),
{
    let n = crate::text::byte_len(label);
    n >= 1 && n <= 64
}

/// Validates a machine name: 1 to 64 bytes.
pub fn validate_name(name: &str) -> (valid: Result<(), String>)
    ensures
        valid is Ok <==> label_ok(name@),
        valid matches Err(detail) ==> detail@ == "machine names must be 1..=64 characters"@,
{
    if !label_length_ok(name) {
        return Err(to_owned_string("machine names must be 1..=64 characters"));
    }
    Ok(())
}

/// Validates a tag or group name for a change: 1 to 64 bytes; the refusal
/// names the kind of label.
pub fn validate_label(kind: &str, name: &str) -> (valid: Result<(), MachineUseCaseError>)
    ensures
        valid is Ok <==> label_ok(name@),
        valid matches Err(e) ==> e@ == MachineErrorSpec::Invalid(
            kind@ + " names must be 1..=64 characters"@,
        ),
{
    if !label_length_ok(name) {
        let mut detail = to_owned_string(kind);
        detail.append(" names must be 1..=64 characters");
        return Err(MachineUseCaseError::Invalid { detail });
    }
    Ok(())
}

/// Whether an endpoint reference has an allowed length: 1 to 255 bytes.
pub open spec fn reference_ok(reference: Seq<char>) -> bool {
    1 <= utf8_len(reference) <= 255
}

/// The endpoint references as values.
pub open spec fn references(endpoints: Seq<NewEndpoint>) -> Seq<Seq<char>> {
    endpoints.map_values(|e: NewEndpoint| e.reference@)
}

/// The verdict on an endpoint list: at least one endpoint, each reference 1
/// to 255 bytes.
pub open spec fn spec_validate_endpoints(refs: Seq<Seq<char>>) -> Result<(), MachineErrorSpec> {
    if refs.len() == 0 {
        Err(MachineErrorSpec::Invalid("a machine needs at least one endpoint"@))
    } else if exists|i: int| 0 <= i < refs.len() && !reference_ok(#[trigger] refs[i]) {
        Err(MachineErrorSpec::Invalid("endpoint references must be 1..=255 characters"@))
    } else {
        Ok(())
    }
}

/// Validates an endpoint list (see [`spec_validate_endpoints`]).
pub fn validate_endpoints(endpoints: &[NewEndpoint]) -> (valid: Result<(), MachineUseCaseError>)
    ensures
        match valid {
            Ok(()) => spec_validate_endpoints(references(endpoints@)) is Ok,
            Err(e) => spec_validate_endpoints(references(endpoints@)) == Err::<(), MachineErrorSpec>(e@),
        },
{
    let ghost refs = references(endpoints@);
    if endpoints.len() == 0 {
        return Err(
            MachineUseCaseError::Invalid {
                detail: to_owned_string("a machine needs at least one endpoint"),
            },
        );
    }
    let mut i: usize = 0;
    while i < endpoints.len()
        invariant
            refs == references(endpoints@),
            i <= endpoints@.len(),
            forall|k: int| 0 <= k < i ==> reference_ok(#[trigger] refs[k]),
        decreases endpoints@.len() - i,
    {
        let n = crate::text::byte_len(endpoints[i].reference.as_str());
        proof {
            assert(refs[i as int] == endpoints@[i as int].reference@);
        }
        if n < 1 || n > 255 {
            return Err(
                MachineUseCaseError::Invalid {
                    detail: to_owned_string("endpoint references must be 1..=255 characters"),
                },
            );
        }
        i = i + 1;
    }
    Ok(())
}

/// The texts of a list of strings, as values.
pub open spec fn labels(v: Seq<String>) -> Seq<Seq<char>> {
    v.map_values(|s: String| s@)
}

/// The verdict on a registration: a valid name, then valid endpoints, then
/// every tag and then every group 1 to 64 bytes.
pub open spec fn spec_validate_registration(
    name: Seq<char>,
    refs: Seq<Seq<char>>,
    tags: Seq<Seq<char>>,
    groups: Seq<Seq<char>>,
) -> Result<(), MachineErrorSpec> {
    if !label_ok(name) {
        Err(MachineErrorSpec::Invalid("machine names must be 1..=64 characters"@))
    } else if spec_validate_endpoints(refs) is Err {
        spec_validate_endpoints(refs)
    } else if exists|i: int| 0 <= i < tags.len() && !label_ok(#[trigger] tags[i]) {
        Err(MachineErrorSpec::Invalid("tag names must be 1..=64 characters"@))
    } else if exists|i: int| 0 <= i < groups.len() && !label_ok(#[trigger] groups[i]) {
        Err(MachineErrorSpec::Invalid("group names must be 1..=64 characters"@))
    } else {
        Ok(())
    }
}

fn first_bad_label(v: &Vec<String>) -> (bad: bool)
    ensures
        bad == exists|i: int| 0 <= i < v@.len() && !label_ok(#[trigger] labels(v@)[i]),
{
    let ghost all = labels(v@);
    let mut i: usize = 0;
    while i < v.len()
        invariant
            all == labels(v@),
            i <= v@.len(),
            forall|k: int| 0 <= k < i ==> label_ok(#[trigger] all[k]),
        decreases v@.len() - i,
    {
        proof {
            assert(all[i as int] == v@[i as int]@);
        }
        if !label_length_ok(v[i].as_str()) {
            return true;
        }
        i = i + 1;
    }
    proof {
        assert forall|k: int| 0 <= k < v@.len() implies label_ok(#[trigger] labels(v@)[k]) by {
            assert(all[k] == labels(v@)[k]);
        }
    }
    false
}

/// Validates a registration (see [`spec_validate_registration`]).
pub fn validate_registration(registration: &RegisterMachine) -> (valid: Result<(), MachineUseCaseError>)
    ensures
        match valid {
            Ok(()) => spec_validate_registration(
                registration.name@,
                references(registration.endpoints@),
                labels(registration.tags@),
                labels(registration.groups@),
            ) is Ok,
            Err(e) => spec_validate_registration(
                registration.name@,
                references(registration.endpoints@),
                labels(registration.tags@),
                labels(registration.groups@),
            ) == Err::<(), MachineErrorSpec>(e@),
        },
{
    match validate_name(registration.name.as_str()) {
        Ok(()) => {},
        Err(detail) => {
            return Err(MachineUseCaseError::Invalid { detail });
        },
    }
    match validate_endpoints(registration.endpoints.as_slice()) {
        Ok(()) => {},
        Err(e) => {
            return Err(e);
        },
    }
    if first_bad_label(&registration.tags) {
        return Err(
            MachineUseCaseError::Invalid {
                detail: to_owned_string("tag names must be 1..=64 characters"),
            },
        );
    }
    if first_bad_label(&registration.groups) {
        return Err(
            MachineUseCaseError::Invalid {
                detail: to_owned_string("group names must be 1..=64 characters"),
            },
        );
    }
    Ok(())
}

/// The largest inventory snapshot payload, in bytes: 64 KiB.
pub const MAX_SNAPSHOT_BYTES: usize = 65536;

/// Validates an inventory snapshot payload: at most 64 KiB.
pub fn validate_snapshot(payload_json: &str) -> (valid: Result<(), MachineUseCaseError>)
    ensures
        valid is Ok <==> utf8_len(payload_json@) <= MAX_SNAPSHOT_BYTES,
        valid matches Err(e) ==> e@ == MachineErrorSpec::Invalid(
            "the snapshot payload exceeds 64 KiB"@,
        ),
{
    if crate::text::byte_len(payload_json) > MAX_SNAPSHOT_BYTES {
        return Err(
            MachineUseCaseError::Invalid {
                detail: to_owned_string("the snapshot payload exceeds 64 KiB"),
            },
        );
    }
    Ok(())
}

/// Whether a confirmed host-key fingerprint is acceptable: an OpenSSH
/// `SHA256:` fingerprint of at most 128 bytes.
pub open spec fn fingerprint_ok(fingerprint: Seq<char>) -> bool {
    has_prefix(fingerprint, "SHA256:"@) && utf8_len(fingerprint) <= 128
}

/// Validates a host-key fingerprint an operator confirms.
pub fn validate_fingerprint(fingerprint: &str) -> (valid: Result<(), MachineUseCaseError>)
    ensures
        valid is Ok <==> fingerprint_ok(fingerprint@),
        valid matches Err(e) ==> e@ == MachineErrorSpec::Invalid(
            "the fingerprint must be an OpenSSH SHA256 fingerprint"@,
        ),
{
    if !crate::text::starts_with(fingerprint, "SHA256:") || crate::text::byte_len(fingerprint)
        > 128 {
        return Err(
            MachineUseCaseError::Invalid {
                detail: to_owned_string("the fingerprint must be an OpenSSH SHA256 fingerprint"),
            },
        );
    }
    Ok(())
}

impl Machine {
    /// The note an audited change records: the number of endpoints.
    pub fn correlation_note(&self) -> (note: String)
        ensures
            note@ == decimal(self.endpoints@.len()) + " endpoint(s)"@,
    {
        let count = self.endpoints.len() as u64;
        let mut note = crate::text::format_decimal(count);
        note.append(" endpoint(s)");
        note
    }
}

} // verus!
