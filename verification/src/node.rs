//! Node enrollment and identity: how a machine becomes a managed node, and
//! the gates every node-driven action passes.
//!
//! A node keeps its Ed25519 private key to itself and proves possession of
//! the matching public key on demand. Node-driven actions (enroll, proof,
//! rotation) are authorized by the cryptographic material itself: a
//! single-use, expiring token, or a signature over a controller-issued nonce
//! that the canonical proof message binds to the challenge, the machine, the
//! purpose and, for rotation, the new key. The gates here decide whether the
//! material and the state behind it are still live.

use vstd::prelude::*;

use crate::audit::{forbidden_key, AuditIntent, MAX_METADATA_VALUE_BYTES};
use crate::authz::Decision;
use crate::operation::{opt_view, PortFailure};
use crate::text::{debug_quoted, text_eq, to_owned_string, utf8_len};

verus! {

/// The shortest enrollment-token lifetime: one minute.
pub const MIN_TOKEN_TTL_MILLIS: i64 = 60000;

/// The longest enrollment-token lifetime: one day.
pub const MAX_TOKEN_TTL_MILLIS: i64 = 86400000;

/// The default enrollment-token lifetime: one hour.
pub const DEFAULT_TOKEN_TTL_MILLIS: i64 = 3600000;

/// The default node-credential lifetime: seven days.
pub const DEFAULT_CREDENTIAL_TTL_MILLIS: i64 = 604800000;

/// The longest node-credential lifetime: thirty days.
pub const MAX_CREDENTIAL_TTL_MILLIS: i64 = 2592000000;

/// The default node-session lifetime: ten minutes.
pub const DEFAULT_SESSION_TTL_MILLIS: i64 = 600000;

/// The longest node-session lifetime: one hour.
pub const MAX_SESSION_TTL_MILLIS: i64 = 3600000;

/// The lifetime of a proof challenge nonce: sixty seconds.
pub const CHALLENGE_TTL_MILLIS: i64 = 60000;

/// The status of a node identity, credential, or session.
#[derive(Clone, Copy, Debug, PartialEq, Eq, Structural)]
pub enum NodeStatus {
    /// Live and trusted.
    Active,
    /// Revoked or superseded; nothing may be renewed against it.
    Revoked,
}

impl NodeStatus {
    /// The stable string used in storage and the API.
    pub open spec fn spec_id(self) -> Seq<char> {
        match self {
            NodeStatus::Active => "active"@,
            NodeStatus::Revoked => "revoked"@,
        }
    }

    /// The stable string used in storage and the API.
    pub fn id(self) -> (id: &'static str)
        ensures
            id@ == self.spec_id(),
    {
        match self {
            NodeStatus::Active => "active",
            NodeStatus::Revoked => "revoked",
        }
    }

    /// Parses the stable string: exactly the ids of the statuses.
    pub fn from_id(id: &str) -> (status: Option<Self>)
        ensures
            match status {
                Some(s) => s.spec_id() == id@,
                None => forall|s: NodeStatus| s.spec_id() != id@,
            },
    {
        if text_eq(id, "active") {
            Some(NodeStatus::Active)
        } else if text_eq(id, "revoked") {
            Some(NodeStatus::Revoked)
        } else {
            proof {
                assert forall|s: NodeStatus| s.spec_id() != id@ by {
                    match s {
                        NodeStatus::Active => {},
                        NodeStatus::Revoked => {},
                    }
                }
            }
            None
        }
    }
}

/// What a proof challenge is for.
#[derive(Clone, Copy, Debug, PartialEq, Eq, Structural)]
pub enum ChallengePurpose {
    /// Prove possession to obtain a node session.
    Session,
    /// Prove possession with a new key to rotate the node identity.
    Rotate,
}

impl ChallengePurpose {
    /// The stable string used in storage and in the proof message.
    pub open spec fn spec_id(self) -> Seq<char> {
        match self {
            ChallengePurpose::Session => "session"@,
            ChallengePurpose::Rotate => "rotate"@,
        }
    }

    /// The stable string used in storage and in the proof message.
    pub fn id(self) -> (id: &'static str)
        ensures
            id@ == self.spec_id(),
    {
        match self {
            ChallengePurpose::Session => "session",
            ChallengePurpose::Rotate => "rotate",
        }
    }

    /// Parses the stable string: exactly the ids of the purposes.
    pub fn from_id(id: &str) -> (purpose: Option<Self>)
        ensures
            match purpose {
                Some(p) => p.spec_id() == id@,
                None => forall|p: ChallengePurpose| p.spec_id() != id@,
            },
    {
        if text_eq(id, "session") {
            Some(ChallengePurpose::Session)
        } else if text_eq(id, "rotate") {
            Some(ChallengePurpose::Rotate)
        } else {
            proof {
                assert forall|p: ChallengePurpose| p.spec_id() != id@ by {
                    match p {
                        ChallengePurpose::Session => {},
                        ChallengePurpose::Rotate => {},
                    }
                }
            }
            None
        }
    }
}

/// The durable gateway connectivity state of a node.
#[derive(Clone, Copy, Debug, PartialEq, Eq, Structural)]
pub enum GatewayState {
    /// The gateway session is open and heartbeats are fresh.
    Connected,
    /// The session is open but heartbeats aged past the threshold.
    Stale,
    /// No open session: the node is absent.
    Offline,
}

impl GatewayState {
    /// The stable string used in storage and the API.
    pub open spec fn spec_id(self) -> Seq<char> {
        match self {
            GatewayState::Connected => "connected"@,
            GatewayState::Stale => "stale"@,
            GatewayState::Offline => "offline"@,
        }
    }

    /// The stable string used in storage and the API.
    pub fn id(self) -> (id: &'static str)
        ensures
            id@ == self.spec_id(),
    {
        match self {
            GatewayState::Connected => "connected",
            GatewayState::Stale => "stale",
            GatewayState::Offline => "offline",
        }
    }

    /// Parses the stable string: exactly the ids of the states.
    pub fn from_id(id: &str) -> (state: Option<Self>)
        ensures
            match state {
                Some(s) => s.spec_id() == id@,
                None => forall|s: GatewayState| s.spec_id() != id@,
            },
    {
        if text_eq(id, "connected") {
            Some(GatewayState::Connected)
        } else if text_eq(id, "stale") {
            Some(GatewayState::Stale)
        } else if text_eq(id, "offline") {
            Some(GatewayState::Offline)
        } else {
            proof {
                assert forall|s: GatewayState| s.spec_id() != id@ by {
                    match s {
                        GatewayState::Connected => {},
                        GatewayState::Stale => {},
                        GatewayState::Offline => {},
                    }
                }
            }
            None
        }
    }
}

/// A node's bound identity: the public key and its monotonic version.
#[derive(Clone, Debug)]
pub struct NodeIdentity {
    /// The machine this node belongs to.
    pub machine_id: String,
    /// The hex-encoded 32-byte Ed25519 public key.
    pub public_key: String,
    /// Monotonic key version; bumped by rotation and re-enrollment.
    pub key_version: i64,
    /// The identity's status.
    pub status: NodeStatus,
    /// The operating system the node reported at enrollment.
    pub os: String,
    /// The architecture the node reported at enrollment.
    pub arch: String,
    /// The node software version the node reported at enrollment.
    pub node_version: String,
    /// First enrollment time (epoch milliseconds).
    pub enrolled_at: i64,
    /// Last rotation or re-bind time, when any (epoch milliseconds).
    pub rotated_at: Option<i64>,
    /// The durable gateway state the session registry last persisted.
    pub gateway_state: GatewayState,
    /// The last gateway observation time, when the node ever connected.
    pub last_seen_at: Option<i64>,
    /// The boot session id of the last open gateway session, when any.
    pub boot_session_id: Option<String>,
}

/// A node credential as recorded.
#[derive(Clone, Debug)]
pub struct NodeCredential {
    /// The credential's identity.
    pub id: String,
    /// The machine the credential belongs to.
    pub machine_id: String,
    /// The node key version this credential is bound to.
    pub node_key_version: i64,
    /// Issue time (epoch milliseconds).
    pub issued_at: i64,
    /// Expiry (epoch milliseconds).
    pub expires_at: i64,
    /// The credential's status.
    pub status: NodeStatus,
    /// Last successful presentation, when any (epoch milliseconds).
    pub last_used_at: Option<i64>,
}

/// A single-use proof challenge.
#[derive(Clone, Debug)]
pub struct NodeChallenge {
    /// The challenge's identity.
    pub id: String,
    /// The machine the challenge was issued to.
    pub machine_id: String,
    /// The hex-encoded nonce the node must sign.
    pub nonce: String,
    /// What the proof will obtain.
    pub purpose: ChallengePurpose,
    /// For rotate challenges: the new public key the proof must bind.
    pub new_public_key: Option<String>,
    /// Expiry (epoch milliseconds).
    pub expires_at: i64,
}

/// The facts stored about an enrollment token; the value is never stored.
#[derive(Clone, Debug)]
pub struct EnrollmentTokenView {
    /// The token record's identity.
    pub id: String,
    /// The machine the token is scoped to.
    pub machine_id: String,
    /// The effective status: `pending`, `consumed`, or `expired`.
    pub status: String,
    /// Creation time (epoch milliseconds).
    pub created_at: i64,
    /// Expiry (epoch milliseconds).
    pub expires_at: i64,
    /// Consumption time, when consumed (epoch milliseconds).
    pub consumed_at: Option<i64>,
}

/// The result of creating an enrollment token: the token value is returned
/// exactly once.
#[derive(Clone, Debug)]
pub struct EnrollmentTokenCreated {
    /// The token record's identity.
    pub id: String,
    /// The machine the token is scoped to.
    pub machine_id: String,
    /// The raw token value. Shown once; only its hash is stored.
    pub token: String,
    /// Expiry (epoch milliseconds).
    pub expires_at: i64,
}

/// The durable facts of a new token record.
#[derive(Clone, Debug)]
pub struct EnrollmentTokenRecord {
    /// The token record's identity.
    pub id: String,
    /// The machine the token is scoped to.
    pub machine_id: String,
    /// Expiry (epoch milliseconds).
    pub expires_at: i64,
}

/// Everything the operator surface needs about one machine's node state.
#[derive(Clone, Debug)]
pub struct NodeView {
    /// The machine the view describes.
    pub machine_id: String,
    /// The bound identity, when the machine is enrolled.
    pub identity: Option<NodeIdentity>,
    /// Tokens that are still pending.
    pub pending_tokens: Vec<EnrollmentTokenView>,
    /// Active credentials.
    pub active_credentials: Vec<NodeCredential>,
    /// The number of active sessions.
    pub active_sessions: i64,
}

/// The outcome of a successful enrollment claim.
#[derive(Clone, Debug)]
pub struct EnrolledNode {
    /// The machine that now has a node identity.
    pub machine_id: String,
    /// The minted credential's identity.
    pub credential_id: String,
    /// The node key version the credential is bound to.
    pub node_key_version: i64,
    /// Credential expiry (epoch milliseconds).
    pub credential_expires_at: i64,
    /// Whether this enrollment replaced a previously revoked identity.
    pub rebind: bool,
}

/// The claims of a node credential token.
#[derive(Clone, Debug, PartialEq, Eq)]
pub struct NodeCredentialClaims {
    /// The credential record's identity.
    pub credential_id: String,
    /// The machine the credential belongs to.
    pub machine_id: String,
    /// The node key version the credential is bound to.
    pub node_key_version: i64,
    /// Expiry (epoch milliseconds).
    pub expires_at: i64,
}

/// The claims of a node session token.
#[derive(Clone, Debug, PartialEq, Eq)]
pub struct NodeSessionClaims {
    /// The session record's identity.
    pub session_id: String,
    /// The credential the session was exchanged from.
    pub credential_id: String,
    /// The machine the session belongs to.
    pub machine_id: String,
    /// Expiry (epoch milliseconds).
    pub expires_at: i64,
}

/// The outcome of a session exchange.
#[derive(Clone, Debug)]
pub struct NodeSessionIssued {
    /// The session record's identity.
    pub session_id: String,
    /// The machine the session belongs to.
    pub machine_id: String,
    /// The credential the session was exchanged from.
    pub credential_id: String,
    /// Expiry (epoch milliseconds).
    pub expires_at: i64,
}

/// The outcome of a key rotation claim.
#[derive(Clone, Debug)]
pub struct RotationOutcome {
    /// The machine whose identity rotated.
    pub machine_id: String,
    /// The new credential's identity.
    pub credential_id: String,
    /// The new node key version.
    pub node_key_version: i64,
    /// The new credential's expiry (epoch milliseconds).
    pub credential_expires_at: i64,
}

/// Whether a node session is currently valid, and for which machine.
#[derive(Clone, Debug, PartialEq, Eq)]
pub enum SessionValidity {
    /// The session, its credential, and the identity are all live.
    Valid {
        /// The machine the session belongs to.
        machine_id: String,
        /// The credential the session was exchanged from.
        credential_id: String,
    },
    /// The session is not trustworthy; the detail names why, safe to log.
    Invalid {
        /// Why the session is invalid.
        detail: String,
    },
}

/// Facts read from a token record before claiming it.
#[derive(Clone, Debug)]
pub struct TokenFacts {
    /// The token record's identity.
    pub id: String,
    /// The machine the token is scoped to.
    pub machine_id: String,
    /// Whether the token is still `pending`.
    pub status: String,
    /// Expiry (epoch milliseconds).
    pub expires_at: i64,
}

/// A storage problem on the node port: `Expired` and `AlreadyUsed` are
/// authentication outcomes, not server faults.
#[derive(Debug)]
pub enum NodePortError {
    /// The referenced record does not exist.
    NotFound {
        /// What was not found.
        what: String,
    },
    /// The action conflicts with existing state.
    Conflict {
        /// What conflicts.
        detail: String,
    },
    /// The token, challenge, credential, or session aged out.
    Expired {
        /// What expired.
        what: String,
    },
    /// A single-use record was already consumed.
    AlreadyUsed {
        /// What was consumed.
        what: String,
    },
    /// The security state behind the action is no longer live.
    Rejected {
        /// Why the action was refused; safe to return to the caller.
        detail: String,
    },
    /// A backend failure; the detail is safe to print.
    Backend {
        /// The failure detail.
        detail: String,
    },
}

impl core::convert::From<PortFailure> for NodePortError {
    fn from(failure: PortFailure) -> (error: Self) {
        match failure {
            PortFailure::NotFound { what } => NodePortError::NotFound { what },
            PortFailure::Conflict { detail } => NodePortError::Conflict { detail },
            PortFailure::Backend { detail } => NodePortError::Backend { detail },
        }
    }
}

impl vstd::std_specs::convert::FromSpecImpl<PortFailure> for NodePortError {
    open spec fn obeys_from_spec() -> bool {
        true
    }

    open spec fn from_spec(failure: PortFailure) -> Self {
        match failure {
            PortFailure::NotFound { what } => NodePortError::NotFound { what },
            PortFailure::Conflict { detail } => NodePortError::Conflict { detail },
            PortFailure::Backend { detail } => NodePortError::Backend { detail },
        }
    }
}

/// A use-case rejection, mapped onto statuses by the adapters.
#[derive(Debug)]
pub enum NodeUseCaseError {
    /// The operator may not perform the action.
    Denied(Decision),
    /// The machine, token, credential, or challenge named does not exist.
    NotFound {
        /// What was not found.
        what: String,
    },
    /// The action conflicts with existing state.
    Conflict {
        /// What conflicts.
        detail: String,
    },
    /// The request is malformed.
    Invalid {
        /// What is wrong.
        detail: String,
    },
    /// Authentication failed.
    Unauthorized {
        /// Why authentication failed; safe to return to the caller.
        detail: String,
    },
    /// The port or audit sink failed.
    Backend {
        /// The failing half.
        context: &'static str,
        /// The failure detail.
        detail: String,
    },
}

/// The mathematical value of a node use-case error.
pub enum NodeErrorSpec {
    /// A denial.
    Denied(Decision),
    /// Not found.
    NotFound(Seq<char>),
    /// A conflict.
    Conflict(Seq<char>),
    /// A malformed request.
    Invalid(Seq<char>),
    /// Authentication failed.
    Unauthorized(Seq<char>),
    /// A backend failure: the context and the detail.
    Backend(Seq<char>, Seq<char>),
}

impl View for NodeUseCaseError {
    type V = NodeErrorSpec;

    open spec fn view(&self) -> NodeErrorSpec {
        match self {
            NodeUseCaseError::Denied(d) => NodeErrorSpec::Denied(*d),
            NodeUseCaseError::NotFound { what } => NodeErrorSpec::NotFound(what@),
            NodeUseCaseError::Conflict { detail } => NodeErrorSpec::Conflict(detail@),
            NodeUseCaseError::Invalid { detail } => NodeErrorSpec::Invalid(detail@),
            NodeUseCaseError::Unauthorized { detail } => NodeErrorSpec::Unauthorized(detail@),
            NodeUseCaseError::Backend { context, detail } => NodeErrorSpec::Backend(
                context@,
                detail@,
            ),
        }
    }
}

impl NodeUseCaseError {
    /// The rendering of an error.
    pub open spec fn spec_message(e: NodeErrorSpec) -> Seq<char> {
        match e {
            NodeErrorSpec::Denied(d) => "denied: "@ + d.spec_describe(),
            NodeErrorSpec::NotFound(what) => "not found: "@ + what,
            NodeErrorSpec::Conflict(detail) => "conflict: "@ + detail,
            NodeErrorSpec::Invalid(detail) => "invalid request: "@ + detail,
            NodeErrorSpec::Unauthorized(detail) => "unauthorized: "@ + detail,
            NodeErrorSpec::Backend(context, detail) => "node "@ + context + " failed: "@ + detail,
        }
    }

    /// Renders the error.
    pub fn message(&self) -> (text: String)
        ensures
            text@ == Self::spec_message(self@),
    {
        match self {
            NodeUseCaseError::Denied(decision) => {
                let mut text = to_owned_string("denied: ");
                text.append(decision.describe().as_str());
                text
            },
            NodeUseCaseError::NotFound { what } => {
                let mut text = to_owned_string("not found: ");
                text.append(what.as_str());
                text
            },
            NodeUseCaseError::Conflict { detail } => {
                let mut text = to_owned_string("conflict: ");
                text.append(detail.as_str());
                text
            },
            NodeUseCaseError::Invalid { detail } => {
                let mut text = to_owned_string("invalid request: ");
                text.append(detail.as_str());
                text
            },
            NodeUseCaseError::Unauthorized { detail } => {
                let mut text = to_owned_string("unauthorized: ");
                text.append(detail.as_str());
                text
            },
            NodeUseCaseError::Backend { context, detail } => {
                let mut text = to_owned_string("node ");
                text.append(context);
                text.append(" failed: ");
                text.append(detail.as_str());
                text
            },
        }
    }
}

/// The mathematical value of a node port error.
pub enum NodePortErrorSpec {
    /// Not found.
    NotFound(Seq<char>),
    /// A conflict.
    Conflict(Seq<char>),
    /// Expired.
    Expired(Seq<char>),
    /// Already used.
    AlreadyUsed(Seq<char>),
    /// Rejected.
    Rejected(Seq<char>),
    /// A backend failure.
    Backend(Seq<char>),
}

impl View for NodePortError {
    type V = NodePortErrorSpec;

    open spec fn view(&self) -> NodePortErrorSpec {
        match self {
            NodePortError::NotFound { what } => NodePortErrorSpec::NotFound(what@),
            NodePortError::Conflict { detail } => NodePortErrorSpec::Conflict(detail@),
            NodePortError::Expired { what } => NodePortErrorSpec::Expired(what@),
            NodePortError::AlreadyUsed { what } => NodePortErrorSpec::AlreadyUsed(what@),
            NodePortError::Rejected { detail } => NodePortErrorSpec::Rejected(detail@),
            NodePortError::Backend { detail } => NodePortErrorSpec::Backend(detail@),
        }
    }
}

/// What a port error becomes in a node use case: expiry, reuse and
/// rejection are authentication failures; a backend failure keeps its
/// context.
pub open spec fn spec_map_port(context: Seq<char>, error: NodePortErrorSpec) -> NodeErrorSpec {
    match error {
        NodePortErrorSpec::NotFound(what) => NodeErrorSpec::NotFound(what),
        NodePortErrorSpec::Conflict(detail) => NodeErrorSpec::Conflict(detail),
        NodePortErrorSpec::Expired(what) => NodeErrorSpec::Unauthorized(what + " has expired"@),
        NodePortErrorSpec::AlreadyUsed(what) => NodeErrorSpec::Unauthorized(
            what + " was already used"@,
        ),
        NodePortErrorSpec::Rejected(detail) => NodeErrorSpec::Unauthorized(detail),
        NodePortErrorSpec::Backend(detail) => NodeErrorSpec::Backend(context, detail),
    }
}

/// Maps a port error onto the use-case error (see [`spec_map_port`]).
pub fn map_port(context: &'static str, error: NodePortError) -> (mapped: NodeUseCaseError)
    ensures
        mapped@ == spec_map_port(context@, error@),
{
    match error {
        NodePortError::NotFound { what } => NodeUseCaseError::NotFound { what },
        NodePortError::Conflict { detail } => NodeUseCaseError::Conflict { detail },
        NodePortError::Expired { what } => {
            let mut detail = what;
            detail.append(" has expired");
            NodeUseCaseError::Unauthorized { detail }
        },
        NodePortError::AlreadyUsed { what } => {
            let mut detail = what;
            detail.append(" was already used");
            NodeUseCaseError::Unauthorized { detail }
        },
        NodePortError::Rejected { detail } => NodeUseCaseError::Unauthorized { detail },
        NodePortError::Backend { detail } => NodeUseCaseError::Backend { context, detail },
    }
}

/// A new enrollment token, before the value is generated.
#[derive(Clone, Debug)]
pub struct NewEnrollmentToken {
    /// The machine the token is scoped to.
    pub machine_id: String,
    /// The token's hash (the only durable form of the value).
    pub token_hash: String,
    /// Lifetime in milliseconds, bounded by the use case.
    pub ttl_millis: i64,
    /// The creating principal.
    pub created_by: String,
    /// Creation time (epoch milliseconds).
    pub now: i64,
}

/// An enrollment claim, executed atomically by the port.
#[derive(Clone, Debug)]
pub struct EnrollClaim {
    /// The token's hash, the lookup key.
    pub token_hash: String,
    /// The node's hex-encoded Ed25519 public key.
    pub public_key: String,
    /// The node's reported operating system.
    pub os: String,
    /// The node's reported architecture.
    pub arch: String,
    /// The node's reported software version.
    pub node_version: String,
    /// Claim time (epoch milliseconds).
    pub now: i64,
    /// The minted credential's lifetime in milliseconds.
    pub credential_ttl_millis: i64,
    /// The audit intent written inside the claim transaction.
    pub audit: AuditIntent,
}

/// A session-exchange claim, executed atomically by the port.
#[derive(Clone, Debug)]
pub struct SessionClaim {
    /// The challenge to consume.
    pub challenge_id: String,
    /// The credential the session is exchanged from.
    pub credential_id: String,
    /// The session's lifetime in milliseconds.
    pub session_ttl_millis: i64,
    /// Claim time (epoch milliseconds).
    pub now: i64,
    /// The audit intent written inside the claim transaction.
    pub audit: AuditIntent,
}

/// A rotation claim, executed atomically by the port.
#[derive(Clone, Debug)]
pub struct RotateClaim {
    /// The rotate challenge to consume.
    pub challenge_id: String,
    /// The still-valid credential that requested the rotation.
    pub credential_id: String,
    /// The new hex-encoded public key, proven by the signature.
    pub new_public_key: String,
    /// The new credential's lifetime in milliseconds.
    pub credential_ttl_millis: i64,
    /// Claim time (epoch milliseconds).
    pub now: i64,
    /// The audit intent written inside the rotation transaction.
    pub audit: AuditIntent,
}

/// A new proof challenge.
#[derive(Clone, Debug)]
pub struct NewChallenge {
    /// The machine to challenge.
    pub machine_id: String,
    /// The hex-encoded nonce the node must sign.
    pub nonce: String,
    /// What the proof will obtain.
    pub purpose: ChallengePurpose,
    /// For rotate challenges, the new public key the proof must bind.
    pub new_public_key: Option<String>,
    /// Issue time (epoch milliseconds).
    pub now: i64,
    /// Expiry (epoch milliseconds).
    pub expires_at: i64,
}

/// The cryptographic adapter behind node trust: randomness, hashing, proof
/// verification, and the signed token codec.
pub trait NodeCrypto {
    /// Generates a raw enrollment token value. Shown once; never stored.
    fn generate_token(&self) -> String;

    /// The durable form of a token value (its hash).
    fn hash_token(&self, token: &str) -> String;

    /// Generates a hex-encoded proof nonce.
    fn generate_nonce(&self) -> String;

    /// Verifies an Ed25519 signature over `message` with `public_key`;
    /// `false` on any failure.
    fn verify_key_proof(&self, public_key: &str, message: &[u8], signature_hex: &str) -> bool;

    /// Signs a node credential token from its claims.
    fn issue_credential_token(&self, claims: &NodeCredentialClaims) -> Result<String, String>;

    /// Verifies a node credential token and returns its claims.
    fn verify_credential_token(&self, token: &str) -> Result<NodeCredentialClaims, String>;

    /// Signs a node session token from its claims.
    fn issue_session_token(&self, claims: &NodeSessionClaims) -> Result<String, String>;

    /// Verifies a node session token and returns its claims.
    fn verify_session_token(&self, token: &str) -> Result<NodeSessionClaims, String>;
}

/// The UTF-8 bytes of a text.
pub open spec fn bytes_of(s: Seq<char>) -> Seq<u8> {
    vstd::utf8::encode_utf8(s)
}

/// The canonical proof message: the domain tag, then each part — the
/// challenge, the machine, the purpose, and the new key (empty when none) —
/// preceded by a zero byte.
pub open spec fn spec_proof_message(
    challenge_id: Seq<char>,
    machine_id: Seq<char>,
    purpose: ChallengePurpose,
    new_public_key: Option<Seq<char>>,
) -> Seq<u8> {
    bytes_of("fleet-node-proof/v1"@) + seq![0u8] + bytes_of(challenge_id) + seq![0u8] + bytes_of(
        machine_id,
    ) + seq![0u8] + bytes_of(purpose.spec_id()) + seq![0u8] + bytes_of(
        match new_public_key {
            Some(k) => k,
            None => Seq::empty(),
        },
    )
}

fn append_part(message: &mut Vec<u8>, part: &str)
    ensures
        final(message)@ == old(message)@ + seq![0u8] + bytes_of(part@),
{
    message.push(0);
    let mut bytes = part.as_bytes_vec();
    message.append(&mut bytes);
}

/// Whether a text carries no NUL character, the separator of the proof
/// message's parts.
pub open spec fn nul_free(s: Seq<char>) -> bool {
    forall|i: int| 0 <= i < s.len() ==> (s[i] as u32) != 0
}

/// Whether a byte string carries no zero byte.
pub open spec fn zero_free(b: Seq<u8>) -> bool {
    forall|i: int| 0 <= i < b.len() ==> b[i] != 0u8
}

proof fn lemma_scalar_bytes_nonzero(v: u32)
    requires
        v != 0,
        vstd::utf8::is_scalar(v),
    ensures
        zero_free(vstd::utf8::encode_scalar(v)),
{
    let bytes = vstd::utf8::encode_scalar(v);
    assert(1u32 <= v <= 0x7Fu32 ==> vstd::utf8::leading_byte_width_1(v) != 0u8) by (bit_vector);
    assert(vstd::utf8::leading_byte_width_2(v) != 0u8) by (bit_vector);
    assert(vstd::utf8::leading_byte_width_3(v) != 0u8) by (bit_vector);
    assert(vstd::utf8::leading_byte_width_4(v) != 0u8) by (bit_vector);
    assert(vstd::utf8::last_continuation_byte(v) != 0u8) by (bit_vector);
    assert(vstd::utf8::second_last_continuation_byte(v) != 0u8) by (bit_vector);
    assert(vstd::utf8::third_last_continuation_byte(v) != 0u8) by (bit_vector);
}

proof fn lemma_encoding_zero_free(s: Seq<char>)
    requires
        nul_free(s),
    ensures
        zero_free(bytes_of(s)),
    decreases s.len(),
{
    if s.len() > 0 {
        let rest = s.drop_first();
        assert(nul_free(rest)) by {
            assert forall|i: int| 0 <= i < rest.len() implies (rest[i] as u32) != 0 by {
                assert(rest[i] == s[i + 1]);
            }
        }
        lemma_encoding_zero_free(rest);
        let c = s[0];
        vstd::utf8::char_is_scalar(c);
        assert((c as u32) != 0u32);
        lemma_scalar_bytes_nonzero(c as u32);
        let head = vstd::utf8::encode_scalar(c as u32);
        let all = bytes_of(s);
        assert(all == head + bytes_of(rest));
        assert forall|i: int| 0 <= i < all.len() implies all[i] != 0u8 by {
            if i < head.len() {
                assert(all[i] == head[i]);
            } else {
                assert(all[i] == bytes_of(rest)[i - head.len()]);
            }
        }
    }
}

proof fn lemma_split_at_separator(a: Seq<u8>, b: Seq<u8>, a2: Seq<u8>, b2: Seq<u8>)
    requires
        zero_free(a),
        zero_free(a2),
        a + seq![0u8] + b == a2 + seq![0u8] + b2,
    ensures
        a == a2,
        b == b2,
{
    let x = a + seq![0u8] + b;
    let y = a2 + seq![0u8] + b2;
    if a.len() < a2.len() {
        assert(x[a.len() as int] == 0u8);
        assert(y[a.len() as int] == a2[a.len() as int]);
        assert(false);
    }
    if a2.len() < a.len() {
        assert(y[a2.len() as int] == 0u8);
        assert(x[a2.len() as int] == a[a2.len() as int]);
        assert(false);
    }
    assert(a =~= x.subrange(0, a.len() as int));
    assert(a2 =~= y.subrange(0, a2.len() as int));
    assert(b =~= x.subrange(a.len() as int + 1, x.len() as int));
    assert(b2 =~= y.subrange(a2.len() as int + 1, y.len() as int));
}

proof fn lemma_strip_prefix(prefix: Seq<u8>, x: Seq<u8>, y: Seq<u8>)
    requires
        prefix + x == prefix + y,
    ensures
        x == y,
{
    assert(x =~= (prefix + x).subrange(prefix.len() as int, (prefix + x).len() as int));
    assert(y =~= (prefix + y).subrange(prefix.len() as int, (prefix + y).len() as int));
}

proof fn lemma_encoding_injective(s: Seq<char>, t: Seq<char>)
    requires
        bytes_of(s) == bytes_of(t),
    ensures
        s == t,
{
    vstd::utf8::encode_utf8_decode_utf8(s);
    vstd::utf8::encode_utf8_decode_utf8(t);
}

proof fn lemma_message_shape(
    challenge_id: Seq<char>,
    machine_id: Seq<char>,
    purpose: ChallengePurpose,
    key: Seq<char>,
)
    ensures
        spec_proof_message(challenge_id, machine_id, purpose, Some(key)) == bytes_of(
            "fleet-node-proof/v1"@,
        ) + seq![0u8] + (bytes_of(challenge_id) + seq![0u8] + (bytes_of(machine_id) + seq![0u8]
            + (bytes_of(purpose.spec_id()) + seq![0u8] + bytes_of(key)))),
        spec_proof_message(challenge_id, machine_id, purpose, None) == spec_proof_message(
            challenge_id,
            machine_id,
            purpose,
            Some(Seq::empty()),
        ),
{
    let zero = seq![0u8];
    let t = bytes_of("fleet-node-proof/v1"@);
    let c = bytes_of(challenge_id);
    let m = bytes_of(machine_id);
    let p = bytes_of(purpose.spec_id());
    let k = bytes_of(key);
    assert(t + zero + c + zero + m + zero + p + zero + k =~= t + zero + (c + zero + (m + zero + (p
        + zero + k))));
}

/// A proof message binds what it was made of: two proof messages over
/// challenge and machine ids without NUL characters are equal only when
/// they name the same challenge, the same machine, the same purpose, and
/// the same new key (an absent key reading as the empty one). A signature
/// over one challenge therefore never answers another.
pub proof fn law_proof_message_binds_its_parts(
    challenge_id: Seq<char>,
    machine_id: Seq<char>,
    purpose: ChallengePurpose,
    new_public_key: Option<Seq<char>>,
    other_challenge_id: Seq<char>,
    other_machine_id: Seq<char>,
    other_purpose: ChallengePurpose,
    other_public_key: Option<Seq<char>>,
)
    requires
        nul_free(challenge_id),
        nul_free(machine_id),
        nul_free(other_challenge_id),
        nul_free(other_machine_id),
        spec_proof_message(challenge_id, machine_id, purpose, new_public_key) == spec_proof_message(
            other_challenge_id,
            other_machine_id,
            other_purpose,
            other_public_key,
        ),
    ensures
        challenge_id == other_challenge_id,
        machine_id == other_machine_id,
        purpose == other_purpose,
        (match new_public_key {
            Some(k) => k,
            None => Seq::empty(),
        }) == (match other_public_key {
            Some(k) => k,
            None => Seq::<char>::empty(),
        }),
{
    let key = match new_public_key {
        Some(k) => k,
        None => Seq::empty(),
    };
    let other_key = match other_public_key {
        Some(k) => k,
        None => Seq::empty(),
    };
    reveal_strlit("session");
    reveal_strlit("rotate");
    assert(nul_free(purpose.spec_id()));
    assert(nul_free(other_purpose.spec_id()));
    lemma_encoding_zero_free(challenge_id);
    lemma_encoding_zero_free(machine_id);
    lemma_encoding_zero_free(other_challenge_id);
    lemma_encoding_zero_free(other_machine_id);
    lemma_encoding_zero_free(purpose.spec_id());
    lemma_encoding_zero_free(other_purpose.spec_id());
    let zero = seq![0u8];
    let tail = bytes_of(purpose.spec_id()) + zero + bytes_of(key);
    let other_tail = bytes_of(other_purpose.spec_id()) + zero + bytes_of(other_key);
    let middle = bytes_of(machine_id) + zero + tail;
    let other_middle = bytes_of(other_machine_id) + zero + other_tail;
    lemma_message_shape(challenge_id, machine_id, purpose, key);
    lemma_message_shape(other_challenge_id, other_machine_id, other_purpose, other_key);
    lemma_strip_prefix(
        bytes_of("fleet-node-proof/v1"@) + zero,
        bytes_of(challenge_id) + zero + middle,
        bytes_of(other_challenge_id) + zero + other_middle,
    );
    lemma_split_at_separator(
        bytes_of(challenge_id),
        middle,
        bytes_of(other_challenge_id),
        other_middle,
    );
    lemma_split_at_separator(bytes_of(machine_id), tail, bytes_of(other_machine_id), other_tail);
    lemma_split_at_separator(
        bytes_of(purpose.spec_id()),
        bytes_of(key),
        bytes_of(other_purpose.spec_id()),
        bytes_of(other_key),
    );
    lemma_encoding_injective(challenge_id, other_challenge_id);
    lemma_encoding_injective(machine_id, other_machine_id);
    lemma_encoding_injective(purpose.spec_id(), other_purpose.spec_id());
    lemma_encoding_injective(key, other_key);
    assert("session"@ != "rotate"@) by {
        assert("session"@.len() != "rotate"@.len());
    }
}

/// The canonical proof message a node signs: domain-separated, binding the
/// challenge, the machine, the purpose, and, for rotation, the new key.
pub fn proof_message(
    challenge_id: &str,
    machine_id: &str,
    purpose: ChallengePurpose,
    new_public_key: Option<&str>,
) -> (message: Vec<u8>)
    ensures
        message@ == spec_proof_message(
            challenge_id@,
            machine_id@,
            purpose,
            match new_public_key {
                Some(k) => Some(k@),
                None => None,
            },
        ),
{
    let mut message = "fleet-node-proof/v1".as_bytes_vec();
    append_part(&mut message, challenge_id);
    append_part(&mut message, machine_id);
    append_part(&mut message, purpose.id());
    let key = match new_public_key {
        Some(k) => k,
        None => "",
    };
    proof {
        if new_public_key is None {
            reveal_strlit("");
        }
    }
    append_part(&mut message, key);
    message
}

/// Whether a character is a lowercase hex digit.
pub open spec fn is_lower_hex(c: char) -> bool {
    ('0' <= c && c <= '9') || ('a' <= c && c <= 'f')
}

/// Whether a text is a well-formed public key: 64 lowercase hex characters.
pub open spec fn spec_valid_public_key(key: Seq<char>) -> bool {
    key.len() == 64 && forall|i: int| 0 <= i < key.len() ==> is_lower_hex(#[trigger] key[i])
}

/// The message refusing a malformed public key.
pub open spec fn public_key_detail() -> Seq<char> {
    "the public key must be 64 lowercase hex characters (32 bytes)"@
}

/// Validates the format of a hex-encoded Ed25519 public key: 64 lowercase
/// hex characters. Cryptographic validity is checked at proof verification.
pub fn validate_public_key(public_key: &str) -> (valid: Result<(), NodeUseCaseError>)
    ensures
        valid is Ok <==> spec_valid_public_key(public_key@),
        valid matches Err(e) ==> e@ == NodeErrorSpec::Invalid(public_key_detail()),
{
    let len = public_key.unicode_len();
    if len != 64 {
        return Err(
            NodeUseCaseError::Invalid {
                detail: to_owned_string(
                    "the public key must be 64 lowercase hex characters (32 bytes)",
                ),
            },
        );
    }
    let mut i: usize = 0;
    while i < len
        invariant
            len == public_key@.len(),
            len == 64,
            i <= len,
            forall|j: int| 0 <= j < i ==> is_lower_hex(#[trigger] public_key@[j]),
        decreases len - i,
    {
        let c = public_key.get_char(i);
        if !(('0' <= c && c <= '9') || ('a' <= c && c <= 'f')) {
            proof {
                assert(!is_lower_hex(public_key@[i as int]));
            }
            return Err(
                NodeUseCaseError::Invalid {
                    detail: to_owned_string(
                        "the public key must be 64 lowercase hex characters (32 bytes)",
                    ),
                },
            );
        }
        i = i + 1;
    }
    Ok(())
}

/// Validates one reported fact: at most 64 bytes.
pub fn validate_facts(value: &str, what: &str) -> (valid: Result<(), NodeUseCaseError>)
    ensures
        valid is Ok <==> utf8_len(value@) <= 64,
        valid matches Err(e) ==> e@ == NodeErrorSpec::Invalid(what@ + " must be at most 64 characters"@),
{
    if crate::text::byte_len(value) > 64 {
        let mut detail = to_owned_string(what);
        detail.append(" must be at most 64 characters");
        Err(NodeUseCaseError::Invalid { detail })
    } else {
        Ok(())
    }
}

/// Validates what a node presents at enrollment: a well-formed public key,
/// then each reported fact (os, arch, node version) of at most 64 bytes, in
/// that order.
pub fn validate_enrollment(public_key: &str, os: &str, arch: &str, node_version: &str) -> (valid:
    Result<(), NodeUseCaseError>)
    ensures
        valid is Ok <==> spec_valid_public_key(public_key@) && utf8_len(os@) <= 64 && utf8_len(
            arch@,
        ) <= 64 && utf8_len(node_version@) <= 64,
        valid matches Err(e) ==> e@ == if !spec_valid_public_key(public_key@) {
            NodeErrorSpec::Invalid(public_key_detail())
        } else if utf8_len(os@) > 64 {
            NodeErrorSpec::Invalid("os must be at most 64 characters"@)
        } else if utf8_len(arch@) > 64 {
            NodeErrorSpec::Invalid("arch must be at most 64 characters"@)
        } else {
            NodeErrorSpec::Invalid("node version must be at most 64 characters"@)
        },
{
    proof {
        reveal_strlit("os");
        reveal_strlit("arch");
        reveal_strlit("node version");
        reveal_strlit(" must be at most 64 characters");
        reveal_strlit("os must be at most 64 characters");
        reveal_strlit("arch must be at most 64 characters");
        reveal_strlit("node version must be at most 64 characters");
        assert("os"@ + " must be at most 64 characters"@ =~= "os must be at most 64 characters"@);
        assert("arch"@ + " must be at most 64 characters"@
            =~= "arch must be at most 64 characters"@);
        assert("node version"@ + " must be at most 64 characters"@
            =~= "node version must be at most 64 characters"@);
    }
    match validate_public_key(public_key) {
        Ok(()) => {},
        Err(e) => {
            return Err(e);
        },
    }
    match validate_facts(os, "os") {
        Ok(()) => {},
        Err(e) => {
            return Err(e);
        },
    }
    match validate_facts(arch, "arch") {
        Ok(()) => {},
        Err(e) => {
            return Err(e);
        },
    }
    validate_facts(node_version, "node version")
}

/// The lifetime an enrollment token gets: the requested one, or the default
/// hour, which must lie within one minute and one day.
pub fn token_ttl(requested: Option<i64>) -> (ttl: Result<i64, NodeUseCaseError>)
    ensures
        ({
            let wanted = match requested {
                Some(t) => t,
                None => DEFAULT_TOKEN_TTL_MILLIS,
            };
            &&& ttl is Ok <==> MIN_TOKEN_TTL_MILLIS <= wanted <= MAX_TOKEN_TTL_MILLIS
            &&& ttl matches Ok(t) ==> t == wanted
            &&& ttl matches Err(e) ==> e@ == NodeErrorSpec::Invalid(
                "the token TTL must be 60000..=86400000 ms"@,
            )
        }),
{
    let wanted = match requested {
        Some(t) => t,
        None => DEFAULT_TOKEN_TTL_MILLIS,
    };
    if wanted < MIN_TOKEN_TTL_MILLIS || wanted > MAX_TOKEN_TTL_MILLIS {
        Err(
            NodeUseCaseError::Invalid {
                detail: to_owned_string("the token TTL must be 60000..=86400000 ms"),
            },
        )
    } else {
        Ok(wanted)
    }
}

/// The refusal of a credential or session token the codec did not verify.
pub fn token_rejection(what: &str, detail: &str) -> (error: NodeUseCaseError)
    ensures
        error@ == NodeErrorSpec::Unauthorized("the node "@ + what@ + " is not valid: "@ + detail@),
{
    let mut text = to_owned_string("the node ");
    text.append(what);
    text.append(" is not valid: ");
    text.append(detail);
    NodeUseCaseError::Unauthorized { detail: text }
}

/// The outcome of a session token the codec did not verify: an invalid
/// session, named as such, never an error.
pub fn rejected_session(detail: &str) -> (validity: SessionValidity)
    ensures
        validity matches SessionValidity::Invalid { detail: text } && text@
            == "the node session is not valid: "@ + detail@,
{
    let mut text = to_owned_string("the node session is not valid: ");
    text.append(detail);
    SessionValidity::Invalid { detail: text }
}

/// Whether a recorded credential is live for a set of claims at a time: it
/// exists, is active and unexpired, and matches the claims' machine and key
/// version.
pub open spec fn spec_credential_gate(
    credential: Option<NodeCredential>,
    claims: NodeCredentialClaims,
    now: i64,
) -> Result<(), NodeErrorSpec> {
    match credential {
        None => Err(NodeErrorSpec::Unauthorized("the node credential does not exist"@)),
        Some(c) => if c.status != NodeStatus::Active || c.expires_at <= now {
            Err(NodeErrorSpec::Unauthorized("the node credential is revoked or expired"@))
        } else if c.machine_id@ != claims.machine_id@ || c.node_key_version
            != claims.node_key_version {
            Err(NodeErrorSpec::Unauthorized("the node credential does not match its record"@))
        } else {
            Ok(())
        },
    }
}

/// The credential half of the node surface's authentication gate (see
/// [`spec_credential_gate`]).
pub fn credential_gate(credential: &Option<NodeCredential>, claims: &NodeCredentialClaims, now: i64) -> (gate:
    Result<(), NodeUseCaseError>)
    ensures
        match gate {
            Ok(()) => spec_credential_gate(*credential, *claims, now) is Ok,
            Err(e) => spec_credential_gate(*credential, *claims, now) == Err::<(), NodeErrorSpec>(e@),
        },
{
    match credential {
        None => Err(
            NodeUseCaseError::Unauthorized {
                detail: to_owned_string("the node credential does not exist"),
            },
        ),
        Some(c) => {
            if c.status != NodeStatus::Active || c.expires_at <= now {
                Err(
                    NodeUseCaseError::Unauthorized {
                        detail: to_owned_string("the node credential is revoked or expired"),
                    },
                )
            } else if !text_eq(c.machine_id.as_str(), claims.machine_id.as_str())
                || c.node_key_version != claims.node_key_version {
                Err(
                    NodeUseCaseError::Unauthorized {
                        detail: to_owned_string("the node credential does not match its record"),
                    },
                )
            } else {
                Ok(())
            }
        },
    }
}

/// Whether the identity behind a set of claims is live: it exists, is
/// active, and carries the claims' key version.
pub open spec fn spec_identity_gate(identity: Option<NodeIdentity>, claims: NodeCredentialClaims) -> Result<
    (),
    NodeErrorSpec,
> {
    match identity {
        None => Err(NodeErrorSpec::Unauthorized("the machine has no node identity"@)),
        Some(i) => if i.status != NodeStatus::Active || i.key_version != claims.node_key_version {
            Err(NodeErrorSpec::Unauthorized("the node identity is revoked or the key has rotated"@))
        } else {
            Ok(())
        },
    }
}

/// The identity half of the node surface's authentication gate (see
/// [`spec_identity_gate`]); returns the live identity.
pub fn identity_gate(identity: Option<NodeIdentity>, claims: &NodeCredentialClaims) -> (gate: Result<
    NodeIdentity,
    NodeUseCaseError,
>)
    ensures
        match gate {
            Ok(i) => spec_identity_gate(identity, *claims) is Ok && identity == Some(i),
            Err(e) => spec_identity_gate(identity, *claims) == Err::<(), NodeErrorSpec>(e@),
        },
{
    match identity {
        None => Err(
            NodeUseCaseError::Unauthorized {
                detail: to_owned_string("the machine has no node identity"),
            },
        ),
        Some(i) => {
            if i.status != NodeStatus::Active || i.key_version != claims.node_key_version {
                Err(
                    NodeUseCaseError::Unauthorized {
                        detail: to_owned_string(
                            "the node identity is revoked or the key has rotated",
                        ),
                    },
                )
            } else {
                Ok(i)
            }
        },
    }
}

/// Revocation and rotation cut a node off: credential claims whose
/// identity is revoked, or whose key version the identity no longer
/// carries, fail the identity gate; a revoked or expired credential record
/// fails the credential gate.
pub proof fn law_revoked_or_rotated_credentials_are_refused(
    identity: NodeIdentity,
    credential: NodeCredential,
    claims: NodeCredentialClaims,
    now: i64,
)
    ensures
        identity.status != NodeStatus::Active || identity.key_version != claims.node_key_version
            ==> spec_identity_gate(Some(identity), claims) is Err,
        credential.status != NodeStatus::Active || credential.expires_at <= now
            ==> spec_credential_gate(Some(credential), claims, now) is Err,
{
}

/// Whether a challenge request is well formed for the bound key: a new key
/// is accepted only for rotation, must be well formed and differ from the
/// bound key; a rotation requires one.
pub open spec fn spec_challenge_request(
    purpose: ChallengePurpose,
    new_public_key: Option<Seq<char>>,
    bound_key: Seq<char>,
) -> Result<(), NodeErrorSpec> {
    match new_public_key {
        Some(k) => if purpose != ChallengePurpose::Rotate {
            Err(NodeErrorSpec::Invalid("a new public key is only accepted for rotate challenges"@))
        } else if !spec_valid_public_key(k) {
            Err(NodeErrorSpec::Invalid(public_key_detail()))
        } else if k == bound_key {
            Err(NodeErrorSpec::Invalid("the new public key must differ from the bound key"@))
        } else {
            Ok(())
        },
        None => if purpose == ChallengePurpose::Rotate {
            Err(NodeErrorSpec::Invalid("a rotate challenge requires the new public key"@))
        } else {
            Ok(())
        },
    }
}

/// Checks a challenge request against the bound key (see
/// [`spec_challenge_request`]).
pub fn challenge_request_gate(
    purpose: ChallengePurpose,
    new_public_key: Option<&str>,
    bound_key: &str,
) -> (gate: Result<(), NodeUseCaseError>)
    ensures
        match gate {
            Ok(()) => spec_challenge_request(purpose, match new_public_key {
                Some(k) => Some(k@),
                None => None,
            }, bound_key@) is Ok,
            Err(e) => spec_challenge_request(purpose, match new_public_key {
                Some(k) => Some(k@),
                None => None,
            }, bound_key@) == Err::<(), NodeErrorSpec>(e@),
        },
{
    match new_public_key {
        Some(new_key) => {
            if purpose != ChallengePurpose::Rotate {
                return Err(
                    NodeUseCaseError::Invalid {
                        detail: to_owned_string(
                            "a new public key is only accepted for rotate challenges",
                        ),
                    },
                );
            }
            validate_public_key(new_key)?;
            if text_eq(new_key, bound_key) {
                return Err(
                    NodeUseCaseError::Invalid {
                        detail: to_owned_string(
                            "the new public key must differ from the bound key",
                        ),
                    },
                );
            }
            Ok(())
        },
        None => {
            if purpose == ChallengePurpose::Rotate {
                Err(
                    NodeUseCaseError::Invalid {
                        detail: to_owned_string("a rotate challenge requires the new public key"),
                    },
                )
            } else {
                Ok(())
            }
        },
    }
}

/// Whether a stored challenge may be answered by a proof: it exists, was
/// issued to the claims' machine for the purpose (and, for rotation, for the
/// new key), and has not expired.
pub open spec fn spec_challenge_gate(
    challenge: Option<NodeChallenge>,
    challenge_id: Seq<char>,
    machine_id: Seq<char>,
    purpose: ChallengePurpose,
    new_public_key: Option<Seq<char>>,
    now: i64,
) -> Result<(), NodeErrorSpec> {
    match challenge {
        None => Err(NodeErrorSpec::NotFound("challenge "@ + debug_quoted(challenge_id))),
        Some(c) => if c.machine_id@ != machine_id || c.purpose != purpose || (
        purpose == ChallengePurpose::Rotate && opt_view(c.new_public_key) != new_public_key) {
            Err(
                NodeErrorSpec::Unauthorized(
                    if purpose == ChallengePurpose::Rotate {
                        "the challenge does not match this rotation"@
                    } else {
                        "the challenge does not match this credential"@
                    },
                ),
            )
        } else if c.expires_at <= now {
            Err(NodeErrorSpec::Unauthorized("the challenge has expired"@))
        } else {
            Ok(())
        },
    }
}

/// Checks a stored challenge before its proof is verified (see
/// [`spec_challenge_gate`]); a session proof passes no new key.
pub fn challenge_gate(
    challenge: &Option<NodeChallenge>,
    challenge_id: &str,
    machine_id: &str,
    purpose: ChallengePurpose,
    new_public_key: Option<&str>,
    now: i64,
) -> (gate: Result<(), NodeUseCaseError>)
    ensures
        match gate {
            Ok(()) => spec_challenge_gate(*challenge, challenge_id@, machine_id@, purpose, match new_public_key {
                Some(k) => Some(k@),
                None => None,
            }, now) is Ok,
            Err(e) => spec_challenge_gate(*challenge, challenge_id@, machine_id@, purpose, match new_public_key {
                Some(k) => Some(k@),
                None => None,
            }, now) == Err::<(), NodeErrorSpec>(e@),
        },
{
    match challenge {
        None => {
            let mut what = to_owned_string("challenge ");
            what.append(crate::text::quoted(challenge_id).as_str());
            Err(NodeUseCaseError::NotFound { what })
        },
        Some(c) => {
            let key_matches = match (&c.new_public_key, new_public_key) {
                (Some(a), Some(b)) => text_eq(a.as_str(), b),
                (None, None) => true,
                _ => false,
            };
            if !text_eq(c.machine_id.as_str(), machine_id) || c.purpose != purpose || (purpose
                == ChallengePurpose::Rotate && !key_matches) {
                let detail = if purpose == ChallengePurpose::Rotate {
                    to_owned_string("the challenge does not match this rotation")
                } else {
                    to_owned_string("the challenge does not match this credential")
                };
                Err(NodeUseCaseError::Unauthorized { detail })
            } else if c.expires_at <= now {
                Err(
                    NodeUseCaseError::Unauthorized {
                        detail: to_owned_string("the challenge has expired"),
                    },
                )
            } else {
                Ok(())
            }
        },
    }
}

/// The refusal of a proof whose signature did not verify.
pub fn proof_rejection() -> (error: NodeUseCaseError)
    ensures
        error@ == NodeErrorSpec::Unauthorized("the key proof did not verify"@),
{
    NodeUseCaseError::Unauthorized { detail: to_owned_string("the key proof did not verify") }
}

/// The audit intent a node-driven or operator action appends: the actor did
/// the action on the machine, allowed, with the event as metadata. Fails, as
/// a backend failure in the given context, when the event cannot be
/// recorded as metadata.
pub fn event_intent(
    actor: &str,
    action: &str,
    machine_id: &str,
    event: &str,
    context: &'static str,
) -> (intent: Result<AuditIntent, NodeUseCaseError>)
    ensures
        intent is Ok <==> !forbidden_key("event"@) && utf8_len(event@) <= MAX_METADATA_VALUE_BYTES,
        intent matches Ok(i) ==> {
            &&& i.actor@ == actor@
            &&& i.action@ == action@
            &&& opt_view(i.resource) == Some(machine_id@)
            &&& i.decision == Decision::spec_allow()
            &&& i.correlation_id is None
            &&& i.operation_id is None
            &&& i.metadata.spec_entries() == seq![("event"@, event@)]
        },
        intent matches Err(e) ==> e@ is Backend && e@->Backend_0 == context@ && e@->Backend_1
            == crate::audit::entry_refusal("event"@, event@),
{
    match crate::operation::single_entry_metadata("event", event) {
        Ok(metadata) => Ok(
            AuditIntent {
                actor: to_owned_string(actor),
                action: to_owned_string(action),
                resource: Some(to_owned_string(machine_id)),
                decision: Decision::allow(),
                correlation_id: None,
                operation_id: None,
                metadata,
            },
        ),
        Err(error) => Err(NodeUseCaseError::Backend { context, detail: error.message() }),
    }
}

/// The actor a node-driven action records: `node:<machine-id>`.
pub fn node_actor(machine_id: &str) -> (actor: String)
    ensures
        actor@ == "node:"@ + machine_id@,
{
    let mut actor = to_owned_string("node:");
    actor.append(machine_id);
    actor
}

/// The expiry of a challenge issued at a time: sixty seconds later.
pub fn challenge_expiry(now: i64) -> (expires_at: i64)
    requires
        now <= i64::MAX - CHALLENGE_TTL_MILLIS,
    ensures
        expires_at == now + CHALLENGE_TTL_MILLIS,
{
    now + CHALLENGE_TTL_MILLIS
}

/// The refusal of an unknown machine on the node view.
pub fn unknown_machine(machine_id: &str) -> (error: NodeUseCaseError)
    ensures
        error@ == NodeErrorSpec::NotFound("machine "@ + debug_quoted(machine_id@)),
{
    let mut what = to_owned_string("machine ");
    what.append(crate::text::quoted(machine_id).as_str());
    NodeUseCaseError::NotFound { what }
}

/// The outcome of a successful enrollment, as the node receives it.
#[derive(Clone, Debug)]
pub struct EnrollOutcome {
    /// The machine the node now belongs to.
    pub machine_id: String,
    /// The signed node credential token.
    pub credential_token: String,
    /// Credential expiry (epoch milliseconds).
    pub credential_expires_at: i64,
    /// Whether the enrollment replaced a revoked identity.
    pub rebind: bool,
}

/// The outcome of a successful session proof, as the node receives it.
#[derive(Clone, Debug)]
pub struct SessionOutcome {
    /// The machine the session belongs to.
    pub machine_id: String,
    /// The signed session token.
    pub session_token: String,
    /// Session expiry (epoch milliseconds).
    pub session_expires_at: i64,
}

/// The outcome of a successful rotation, as the node receives it.
#[derive(Clone, Debug)]
pub struct RotateOutcome {
    /// The machine whose identity rotated.
    pub machine_id: String,
    /// The new signed credential token, bound to the new key.
    pub credential_token: String,
    /// The new node key version.
    pub node_key_version: i64,
    /// The new credential's expiry (epoch milliseconds).
    pub credential_expires_at: i64,
}

} // verus!
