//! The staged Add Machine onboarding: draft, test, discover, review, add.
//!
//! A draft is the staged state of one flow: an address, an authentication
//! mode (the SSH agent or an identity-file path, never a password), the
//! proposed machine identity, the observed host key, and the discovered
//! facts. Trust is explicit: a test only observes; confirming pins the
//! fingerprint; a later observation that disagrees marks the draft
//! `changed`, and discover and add refuse until the new fingerprint is
//! confirmed again. Duplicates warn; they never merge or block.

use vstd::prelude::*;

use crate::authz::Decision;
use crate::capability::{CapabilityFact, CapabilityStatus, FactSpec};
use crate::machine::{
    EndpointKind, MachineErrorSpec, MachineStatus, MachineUseCaseError, MachineView,
    NewEndpoint, RegisterMachine,
};
use crate::observed::facts_view;
use crate::operation::{opt_view, PortFailure};
use crate::text::{
    decimal, eq_ignore_case, is_digit, join, lemma_decimal_digits, lemma_split_last_joined, split_first, split_last, text_eq, to_owned_string,
    utf8_len,
};

verus! {

/// The stage of a draft's host-key trust, as the review surface shows it.
#[derive(Clone, Copy, Debug, PartialEq, Eq, Structural)]
pub enum DraftStage {
    /// No host key observed yet: the first test has not run.
    Untested,
    /// A fingerprint awaits (or lost) its explicit confirmation.
    Review,
    /// The current fingerprint was explicitly confirmed.
    Ready,
}

impl DraftStage {
    /// The stable string used in the API and the CLI.
    pub open spec fn spec_id(self) -> Seq<char> {
        match self {
            DraftStage::Untested => "untested"@,
            DraftStage::Review => "review"@,
            DraftStage::Ready => "ready"@,
        }
    }

    /// The stable string used in the API and the CLI.
    pub fn id(self) -> (id: &'static str)
        ensures
            id@ == self.spec_id(),
    {
        match self {
            DraftStage::Untested => "untested",
            DraftStage::Review => "review",
            DraftStage::Ready => "ready",
        }
    }
}

/// The recorded host-key trust state of a draft.
#[derive(Clone, Copy, Debug, PartialEq, Eq, Structural)]
pub enum HostKeyStage {
    /// Nothing observed yet.
    Unseen,
    /// A key was observed; the fingerprint awaits explicit confirmation.
    Observed,
    /// The observed fingerprint was explicitly confirmed and pinned.
    Confirmed,
    /// A later observation disagrees with the confirmed fingerprint.
    Changed,
}

impl HostKeyStage {
    /// The stable string used in storage and the API.
    pub open spec fn spec_id(self) -> Seq<char> {
        match self {
            HostKeyStage::Unseen => "unseen"@,
            HostKeyStage::Observed => "observed"@,
            HostKeyStage::Confirmed => "confirmed"@,
            HostKeyStage::Changed => "changed"@,
        }
    }

    /// The stable string used in storage and the API.
    pub fn id(self) -> (id: &'static str)
        ensures
            id@ == self.spec_id(),
    {
        match self {
            HostKeyStage::Unseen => "unseen",
            HostKeyStage::Observed => "observed",
            HostKeyStage::Confirmed => "confirmed",
            HostKeyStage::Changed => "changed",
        }
    }

    /// Parses the stable string: exactly the ids of the stages.
    pub fn from_id(id: &str) -> (stage: Option<Self>)
        ensures
            match stage {
                Some(s) => s.spec_id() == id@,
                None => forall|s: HostKeyStage| s.spec_id() != id@,
            },
    {
        if text_eq(id, "unseen") {
            Some(HostKeyStage::Unseen)
        } else if text_eq(id, "observed") {
            Some(HostKeyStage::Observed)
        } else if text_eq(id, "confirmed") {
            Some(HostKeyStage::Confirmed)
        } else if text_eq(id, "changed") {
            Some(HostKeyStage::Changed)
        } else {
            proof {
                assert forall|s: HostKeyStage| s.spec_id() != id@ by {
                    match s {
                        HostKeyStage::Unseen => {},
                        HostKeyStage::Observed => {},
                        HostKeyStage::Confirmed => {},
                        HostKeyStage::Changed => {},
                    }
                }
            }
            None
        }
    }
}

/// The proposed endpoint of a draft, as structured parts.
#[derive(Clone, Debug, PartialEq, Eq)]
pub struct DraftEndpoint {
    /// The remote login user.
    pub user: String,
    /// The host or address.
    pub host: String,
    /// The TCP port.
    pub port: u16,
}

impl DraftEndpoint {
    /// The SSH endpoint reference: `user@host:port`.
    pub open spec fn spec_reference(user: Seq<char>, host: Seq<char>, port: u16) -> Seq<char> {
        user + "@"@ + host + ":"@ + decimal(port as nat)
    }

    /// The SSH endpoint reference, e.g. `deploy@host:22`.
    pub fn reference(&self) -> (reference: String)
        ensures
            reference@ == Self::spec_reference(self.user@, self.host@, self.port),
    {
        let mut reference = self.user.clone();
        reference.append("@");
        reference.append(self.host.as_str());
        reference.append(":");
        let digits = crate::text::format_decimal(self.port as u64);
        reference.append(digits.as_str());
        proof {
            reveal_strlit("@");
            reveal_strlit(":");
        }
        reference
    }
}

/// How the controller would authenticate to a draft's endpoint.
#[derive(Clone, Debug, PartialEq, Eq)]
pub enum OnboardAuth {
    /// The controller's running agent supplies the key.
    Agent,
    /// A specific identity file, referenced by path (a reference, not a
    /// secret).
    IdentityFile {
        /// The identity file's path.
        path: String,
    },
}

/// A host key as observed from the network, staged for review.
#[derive(Clone, Debug, PartialEq, Eq)]
pub struct OnboardHostKey {
    /// The key type, e.g. `ED25519`.
    pub key_type: String,
    /// The OpenSSH `SHA256:` fingerprint an operator confirms.
    pub fingerprint: String,
    /// The raw `known_hosts` line behind the fingerprint.
    pub raw_line: String,
}

/// The outcome of the connect check a test performed, when it ran.
#[derive(Clone, Debug, PartialEq, Eq)]
pub struct TestOutcome {
    /// Whether the connect check ran.
    pub connect_attempted: bool,
    /// Whether the connect check succeeded.
    pub connected: bool,
    /// The bounded, already-redacted failure detail, when it failed.
    pub detail: Option<String>,
    /// When the test ran (epoch milliseconds).
    pub at: i64,
}

/// A draft: the staged, reviewable state of an Add Machine flow.
#[derive(Clone, Debug)]
pub struct OnboardingDraft {
    /// The draft's identity.
    pub id: String,
    /// The proposed endpoint.
    pub endpoint: DraftEndpoint,
    /// How the controller would authenticate.
    pub auth: OnboardAuth,
    /// The proposed machine name.
    pub name: String,
    /// Operator notes carried onto the machine.
    pub description: String,
    /// Tags carried onto the machine.
    pub tags: Vec<String>,
    /// Groups carried onto the machine.
    pub groups: Vec<String>,
    /// The newest observed host key, when a test ran.
    pub host_key: Option<OnboardHostKey>,
    /// The host-key trust stage.
    pub host_key_stage: HostKeyStage,
    /// The fingerprint the operator confirmed, when any.
    pub confirmed_fingerprint: Option<String>,
    /// The newest test outcome, when a test ran.
    pub last_test: Option<TestOutcome>,
    /// The facts discovery recorded for review.
    pub facts: Vec<CapabilityFact>,
    /// What observed the facts, e.g. `agentless/1`.
    pub discovery_source: Option<String>,
    /// The caller's idempotency key, when the draft was created with one.
    pub idempotency_key: Option<String>,
    /// When discovery completed (epoch milliseconds).
    pub discovered_at: Option<i64>,
    /// Creation time (epoch milliseconds).
    pub created_at: i64,
    /// Last mutation (epoch milliseconds).
    pub updated_at: i64,
}

/// The review stage a trust stage shows: unseen is untested, observed and
/// changed await review, confirmed is ready.
pub open spec fn spec_stage(stage: HostKeyStage) -> DraftStage {
    match stage {
        HostKeyStage::Unseen => DraftStage::Untested,
        HostKeyStage::Observed | HostKeyStage::Changed => DraftStage::Review,
        HostKeyStage::Confirmed => DraftStage::Ready,
    }
}

impl OnboardingDraft {
    /// The derived stage: what the review surface asks the operator for
    /// next. Facts never gate the stage.
    pub fn stage(&self) -> (stage: DraftStage)
        ensures
            stage == spec_stage(self.host_key_stage),
    {
        match self.host_key_stage {
            HostKeyStage::Unseen => DraftStage::Untested,
            HostKeyStage::Observed | HostKeyStage::Changed => DraftStage::Review,
            HostKeyStage::Confirmed => DraftStage::Ready,
        }
    }

    /// Whether discover and add may proceed: the confirmed fingerprint must
    /// still be the one the host presents.
    pub fn trust_ready(&self) -> (ready: bool)
        ensures
            ready == (self.host_key_stage == HostKeyStage::Confirmed),
    {
        self.host_key_stage == HostKeyStage::Confirmed
    }
}

/// A new draft, before identity minting.
#[derive(Clone, Debug)]
pub struct NewDraft {
    /// The proposed endpoint.
    pub endpoint: DraftEndpoint,
    /// How the controller would authenticate.
    pub auth: OnboardAuth,
    /// The proposed machine name; `None` derives it from the host.
    pub name: Option<String>,
    /// Operator notes carried onto the machine.
    pub description: String,
    /// Tags carried onto the machine.
    pub tags: Vec<String>,
    /// Groups carried onto the machine.
    pub groups: Vec<String>,
    /// The caller's idempotency key, when one was supplied.
    pub idempotency_key: Option<String>,
}

/// One existing machine whose endpoint matches a draft's host and port.
#[derive(Clone, Debug, PartialEq, Eq)]
pub struct DuplicateCandidate {
    /// The existing machine's identity.
    pub machine_id: String,
    /// The existing machine's name.
    pub name: String,
    /// The existing machine's derived connectivity state.
    pub machine_status: MachineStatus,
    /// The matching endpoint reference, as the caller may see it.
    pub reference: String,
}

/// The operator-facing draft view.
#[derive(Clone, Debug)]
pub struct DraftView {
    /// The draft's identity.
    pub id: String,
    /// The proposed endpoint; the user is redacted unless the caller may
    /// read sensitive endpoint detail.
    pub endpoint: DraftEndpoint,
    /// How the controller would authenticate.
    pub auth: OnboardAuth,
    /// The proposed machine name.
    pub name: String,
    /// Operator notes carried onto the machine.
    pub description: String,
    /// Tags carried onto the machine.
    pub tags: Vec<String>,
    /// Groups carried onto the machine.
    pub groups: Vec<String>,
    /// The derived stage.
    pub stage: DraftStage,
    /// The host-key trust stage, as recorded.
    pub host_key_stage: HostKeyStage,
    /// The newest observed host key, when a test ran.
    pub host_key: Option<OnboardHostKey>,
    /// The fingerprint the operator confirmed, when any.
    pub confirmed_fingerprint: Option<String>,
    /// The newest test outcome, when a test ran.
    pub last_test: Option<TestOutcome>,
    /// The facts discovery recorded for review.
    pub facts: Vec<CapabilityFact>,
    /// When discovery completed (epoch milliseconds).
    pub discovered_at: Option<i64>,
    /// The OS/profile hint derived from the facts, when they name an
    /// operating system.
    pub profile_hint: Option<String>,
    /// Existing machines whose endpoints share the draft's host and port.
    pub duplicates: Vec<DuplicateCandidate>,
    /// Creation time (epoch milliseconds).
    pub created_at: i64,
    /// Last mutation (epoch milliseconds).
    pub updated_at: i64,
}

/// The outcome of an add: the new machine plus the duplicates warned about.
#[derive(Clone, Debug)]
pub struct AddedMachine {
    /// The registered machine's view, redacted per the caller's permissions.
    pub machine: MachineView,
    /// Existing machines that shared the draft's host and port.
    pub duplicates: Vec<DuplicateCandidate>,
}

/// A use-case rejection, mapped onto public API errors by the adapter.
#[derive(Debug)]
pub enum OnboardingUseCaseError {
    /// The caller may not perform the action.
    Denied(Decision),
    /// The draft named does not exist.
    NotFound {
        /// What was not found.
        what: String,
    },
    /// The current draft state forbids the action.
    Conflict {
        /// What conflicts.
        detail: String,
    },
    /// The request is malformed.
    Invalid {
        /// What is wrong.
        detail: String,
    },
    /// The port failed.
    Backend {
        /// Where.
        context: &'static str,
        /// The failure detail.
        detail: String,
    },
}

/// The mathematical value of an onboarding error (shaped like a machine
/// error: the same five outcomes).
pub open spec fn onboarding_error_view(e: OnboardingUseCaseError) -> MachineErrorSpec {
    match e {
        OnboardingUseCaseError::Denied(d) => MachineErrorSpec::Denied(d),
        OnboardingUseCaseError::NotFound { what } => MachineErrorSpec::NotFound(what@),
        OnboardingUseCaseError::Conflict { detail } => MachineErrorSpec::Conflict(detail@),
        OnboardingUseCaseError::Invalid { detail } => MachineErrorSpec::Invalid(detail@),
        OnboardingUseCaseError::Backend { context, detail } => MachineErrorSpec::Backend(
            context@,
            detail@,
        ),
    }
}

impl View for OnboardingUseCaseError {
    type V = MachineErrorSpec;

    open spec fn view(&self) -> MachineErrorSpec {
        onboarding_error_view(*self)
    }
}

impl OnboardingUseCaseError {
    /// The rendering of an error.
    pub open spec fn spec_message(e: MachineErrorSpec) -> Seq<char> {
        match e {
            MachineErrorSpec::Denied(d) => "denied: "@ + d.spec_describe(),
            MachineErrorSpec::NotFound(what) => "not found: "@ + what,
            MachineErrorSpec::Conflict(detail) => "conflict: "@ + detail,
            MachineErrorSpec::Invalid(detail) => "invalid request: "@ + detail,
            MachineErrorSpec::Backend(context, detail) => "onboarding "@ + context + " failed: "@
                + detail,
        }
    }

    /// Renders the error.
    pub fn message(&self) -> (text: String)
        ensures
            text@ == Self::spec_message(self@),
    {
        match self {
            OnboardingUseCaseError::Denied(decision) => {
                let mut text = to_owned_string("denied: ");
                text.append(decision.describe().as_str());
                text
            },
            OnboardingUseCaseError::NotFound { what } => {
                let mut text = to_owned_string("not found: ");
                text.append(what.as_str());
                text
            },
            OnboardingUseCaseError::Conflict { detail } => {
                let mut text = to_owned_string("conflict: ");
                text.append(detail.as_str());
                text
            },
            OnboardingUseCaseError::Invalid { detail } => {
                let mut text = to_owned_string("invalid request: ");
                text.append(detail.as_str());
                text
            },
            OnboardingUseCaseError::Backend { context, detail } => {
                let mut text = to_owned_string("onboarding ");
                text.append(context);
                text.append(" failed: ");
                text.append(detail.as_str());
                text
            },
        }
    }
}

/// Maps a draft-port failure onto the use-case error.
pub fn map_port(context: &'static str, failure: PortFailure) -> (error: OnboardingUseCaseError)
    ensures
        error@ == crate::machine::spec_map_port(context@, failure@),
{
    match failure {
        PortFailure::NotFound { what } => OnboardingUseCaseError::NotFound { what },
        PortFailure::Conflict { detail } => OnboardingUseCaseError::Conflict { detail },
        PortFailure::Backend { detail } => OnboardingUseCaseError::Backend { context, detail },
    }
}

/// Carries a machine use-case error into onboarding unchanged.
pub fn map_machine_error(error: MachineUseCaseError) -> (mapped: OnboardingUseCaseError)
    ensures
        mapped@ == error@,
{
    match error {
        MachineUseCaseError::Denied(decision) => OnboardingUseCaseError::Denied(decision),
        MachineUseCaseError::NotFound { what } => OnboardingUseCaseError::NotFound { what },
        MachineUseCaseError::Conflict { detail } => OnboardingUseCaseError::Conflict { detail },
        MachineUseCaseError::Invalid { detail } => OnboardingUseCaseError::Invalid { detail },
        MachineUseCaseError::Backend { context, detail } => OnboardingUseCaseError::Backend {
            context,
            detail,
        },
    }
}

/// The host part of an endpoint reference, ignoring userinfo: after the
/// last `@`, an IPv6 literal in brackets is the bare address between them;
/// any other host is the text before the last `:`.
#[verifier::opaque]
pub open spec fn spec_reference_host(reference: Seq<char>) -> Option<Seq<char>> {
    match split_last(reference, '@') {
        Some((_, host_port)) => {
            if host_port.len() > 0 && host_port[0] == '[' && split_first(
                host_port.drop_first(),
                ']',
            ) is Some {
                Some(split_first(host_port.drop_first(), ']').unwrap().0)
            } else {
                match split_last(host_port, ':') {
                    Some((host, _)) => Some(host),
                    None => None,
                }
            }
        },
        None => None,
    }
}

/// The host part of an endpoint reference (see [`spec_reference_host`]).
pub fn reference_host(reference: &str) -> (host: Option<&str>)
    ensures
        match host {
            Some(h) => spec_reference_host(reference@) == Some(h@),
            None => spec_reference_host(reference@) is None,
        },
{
    reveal(spec_reference_host);
    let host_port = match crate::text::rsplit_once(reference, '@') {
        Some((_, host_port)) => host_port,
        None => {
            return None;
        },
    };
    let len = host_port.unicode_len();
    if len > 0 && host_port.get_char(0) == '[' {
        let rest = host_port.substring_char(1, len);
        proof {
            assert(rest@ =~= host_port@.drop_first());
        }
        match crate::text::split_once(rest, ']') {
            Some((inner, _)) => {
                return Some(inner);
            },
            None => {},
        }
    }
    match crate::text::rsplit_once(host_port, ':') {
        Some((host, _)) => Some(host),
        None => None,
    }
}

/// The port part of an endpoint reference, as text: after the last `@`,
/// the text after the last `:`.
#[verifier::opaque]
pub open spec fn spec_reference_port(reference: Seq<char>) -> Option<Seq<char>> {
    match split_last(reference, '@') {
        Some((_, host_port)) => match split_last(host_port, ':') {
            Some((_, port)) => Some(port),
            None => None,
        },
        None => None,
    }
}

/// The port part of an endpoint reference (see [`spec_reference_port`]).
pub fn reference_port(reference: &str) -> (port: Option<&str>)
    ensures
        match port {
            Some(p) => spec_reference_port(reference@) == Some(p@),
            None => spec_reference_port(reference@) is None,
        },
{
    reveal(spec_reference_port);
    let host_port = match crate::text::rsplit_once(reference, '@') {
        Some((_, host_port)) => host_port,
        None => {
            return None;
        },
    };
    match crate::text::rsplit_once(host_port, ':') {
        Some((_, port)) => Some(port),
        None => None,
    }
}

/// Whether an endpoint reference (possibly redacted) names a draft's host,
/// ignoring ASCII case, and its port. The userinfo never participates.
pub open spec fn spec_reference_matches(reference: Seq<char>, host: Seq<char>, port: u16) -> bool {
    (spec_reference_host(reference) matches Some(h) && eq_ignore_case(h, host)) && (
    spec_reference_port(reference) matches Some(p) && p == decimal(port as nat))
}

/// A reference written as `userinfo@host:port` matches its own endpoint,
/// with the host in any ASCII case, whatever the userinfo (a redacted one
/// too), when the host holds no `@` and is not a bracketed address; with
/// another port it matches no endpoint of that host.
pub proof fn law_reference_names_its_endpoint(
    userinfo: Seq<char>,
    host: Seq<char>,
    same_host: Seq<char>,
    port: u16,
    other_port: u16,
)
    requires
        !host.contains('@'),
        host.len() > 0 ==> host[0] != '[',
        eq_ignore_case(host, same_host),
    ensures
        spec_reference_matches(DraftEndpoint::spec_reference(userinfo, host, port), same_host, port),
        other_port != port ==> !spec_reference_matches(
            DraftEndpoint::spec_reference(userinfo, host, port),
            same_host,
            other_port,
        ),
{
    reveal_strlit("@");
    reveal_strlit(":");
    reveal(spec_reference_host);
    reveal(spec_reference_port);
    let digits = decimal(port as nat);
    lemma_decimal_digits(port as nat);
    lemma_decimal_digits(other_port as nat);
    let reference = DraftEndpoint::spec_reference(userinfo, host, port);
    let host_port = host + seq![':'] + digits;
    assert(reference =~= userinfo + seq!['@'] + host_port);
    assert forall|i: int| 0 <= i < host_port.len() implies #[trigger] host_port[i] != '@' by {
        if i < host.len() {
            assert(host_port[i] == host[i]);
            if host[i] == '@' {
                assert(host.contains('@'));
            }
        } else if i > host.len() {
            assert(host_port[i] == digits[i - host.len() - 1]);
            assert(is_digit(digits[i - host.len() - 1]));
        }
    }
    lemma_split_last_joined(userinfo, host_port, '@');
    assert forall|i: int| 0 <= i < digits.len() implies #[trigger] digits[i] != ':' by {
        assert(is_digit(digits[i]));
    }
    lemma_split_last_joined(host, digits, ':');
    assert(host_port.len() > 0 && host_port[0] != '[') by {
        if host.len() > 0 {
            assert(host_port[0] == host[0]);
        } else {
            assert(host_port[0] == ':');
        }
    }
    assert(spec_reference_host(reference) == Some(host));
    assert(spec_reference_port(reference) == Some(digits));
}

/// A reference without an `@` names no endpoint.
pub proof fn law_reference_without_userinfo_matches_nothing(
    reference: Seq<char>,
    host: Seq<char>,
    port: u16,
)
    requires
        !reference.contains('@'),
    ensures
        !spec_reference_matches(reference, host, port),
{
    reveal(spec_reference_host);
    reveal(spec_reference_port);
}

/// Whether an endpoint reference matches a draft's host and port (see
/// [`spec_reference_matches`]).
pub fn endpoint_reference_matches(reference: &str, endpoint: &DraftEndpoint) -> (matches: bool)
    ensures
        matches == spec_reference_matches(reference@, endpoint.host@, endpoint.port),
{
    let host_ok = match reference_host(reference) {
        Some(h) => crate::text::eq_ignore_ascii_case(h, endpoint.host.as_str()),
        None => false,
    };
    if !host_ok {
        return false;
    }
    match reference_port(reference) {
        Some(p) => {
            let digits = crate::text::format_decimal(endpoint.port as u64);
            text_eq(p, digits.as_str())
        },
        None => false,
    }
}

/// The value of the first known fact of a namespace and name, when it is
/// present and not empty.
pub open spec fn known_value(facts: Seq<FactSpec>, namespace: Seq<char>, name: Seq<char>) -> Option<
    Seq<char>,
>
    decreases facts.len(),
{
    if facts.len() == 0 {
        None
    } else {
        let f = facts[0];
        if f.namespace == namespace && f.name == name && f.status == CapabilityStatus::Known {
            match f.value {
                Some(v) => if v.len() > 0 {
                    Some(v)
                } else {
                    None
                },
                None => None,
            }
        } else {
            known_value(facts.drop_first(), namespace, name)
        }
    }
}

/// The profile hint of discovered facts: nothing without a known OS family;
/// otherwise the family, then the distribution and its version when known
/// (the version only after a distribution), then the host architecture when
/// known, joined by `/` — such as `linux/debian/12/x86_64`.
pub open spec fn spec_profile_hint(facts: Seq<FactSpec>) -> Option<Seq<char>> {
    match known_value(facts, "os"@, "family"@) {
        None => None,
        Some(family) => {
            let with_distribution = match known_value(facts, "os"@, "distribution"@) {
                Some(distribution) => match known_value(facts, "os"@, "distribution_version"@) {
                    Some(version) => seq![family, distribution, version],
                    None => seq![family, distribution],
                },
                None => seq![family],
            };
            let parts = match known_value(facts, "host"@, "architecture"@) {
                Some(architecture) => with_distribution.push(architecture),
                None => with_distribution,
            };
            Some(join(parts, "/"@))
        },
    }
}

fn known(facts: &[CapabilityFact], namespace: &str, name: &str) -> (value: Option<String>)
    ensures
        opt_view(value) == known_value(facts_view(facts@), namespace@, name@),
{
    let ghost all = facts_view(facts@);
    let mut i: usize = 0;
    proof {
        assert(all.skip(0) =~= all);
    }
    while i < facts.len()
        invariant
            all == facts_view(facts@),
            i <= facts@.len(),
            known_value(all, namespace@, name@) == known_value(all.skip(i as int), namespace@, name@),
        decreases facts@.len() - i,
    {
        let fact = &facts[i];
        proof {
            assert(all.skip(i as int)[0] == fact@);
            assert(all.skip(i as int).drop_first() =~= all.skip(i + 1));
        }
        if text_eq(fact.namespace.as_str(), namespace) && text_eq(fact.name.as_str(), name)
            && fact.status == CapabilityStatus::Known {
            return match &fact.value {
                Some(v) => if v.unicode_len() > 0 {
                    Some(v.clone())
                } else {
                    None
                },
                None => None,
            };
        }
        i = i + 1;
    }
    proof {
        assert(all.skip(i as int) =~= Seq::<FactSpec>::empty());
    }
    None
}

/// Derives the OS/profile hint from discovered facts (see
/// [`spec_profile_hint`]): a display hint for the review step, never an
/// assignment.
pub fn profile_hint(facts: &[CapabilityFact]) -> (hint: Option<String>)
    ensures
        opt_view(hint) == spec_profile_hint(facts_view(facts@)),
{
    proof {
        reveal_strlit("/");
    }
    let family = match known(facts, "os", "family") {
        Some(f) => f,
        None => {
            return None;
        },
    };
    let mut parts: Vec<String> = Vec::new();
    parts.push(family);
    match known(facts, "os", "distribution") {
        Some(distribution) => {
            parts.push(distribution);
            match known(facts, "os", "distribution_version") {
                Some(version) => {
                    parts.push(version);
                },
                None => {},
            }
        },
        None => {},
    }
    match known(facts, "host", "architecture") {
        Some(architecture) => {
            parts.push(architecture);
        },
        None => {},
    }
    let joined = crate::text::join_texts(&parts, "/");
    proof {
        let fv = facts_view(facts@);
        let family_v = known_value(fv, "os"@, "family"@)->0;
        let with_distribution = match known_value(fv, "os"@, "distribution"@) {
            Some(distribution) => match known_value(fv, "os"@, "distribution_version"@) {
                Some(version) => seq![family_v, distribution, version],
                None => seq![family_v, distribution],
            },
            None => seq![family_v],
        };
        let expected = match known_value(fv, "host"@, "architecture"@) {
            Some(architecture) => with_distribution.push(architecture),
            None => with_distribution,
        };
        assert(crate::text::texts(parts@) =~= expected);
    }
    Some(joined)
}

/// Assembles the operator-facing view from a draft: the endpoint user is
/// redacted to `***` unless `sensitive`; the stage and the profile hint are
/// derived; everything else is carried.
pub fn assemble_view(draft: OnboardingDraft, sensitive: bool, duplicates: Vec<DuplicateCandidate>) -> (view:
    DraftView)
    ensures
        view.id@ == draft.id@,
        view.endpoint.user@ == if sensitive {
            draft.endpoint.user@
        } else {
            "***"@
        },
        view.endpoint.host@ == draft.endpoint.host@,
        view.endpoint.port == draft.endpoint.port,
        view.auth == draft.auth,
        view.name@ == draft.name@,
        view.description@ == draft.description@,
        view.tags@ == draft.tags@,
        view.groups@ == draft.groups@,
        view.stage == spec_stage(draft.host_key_stage),
        view.host_key_stage == draft.host_key_stage,
        view.host_key == draft.host_key,
        view.confirmed_fingerprint == draft.confirmed_fingerprint,
        view.last_test == draft.last_test,
        view.facts@ == draft.facts@,
        view.discovered_at == draft.discovered_at,
        opt_view(view.profile_hint) == spec_profile_hint(facts_view(draft.facts@)),
        view.duplicates@ == duplicates@,
        view.created_at == draft.created_at,
        view.updated_at == draft.updated_at,
{
    let user = if sensitive {
        draft.endpoint.user.clone()
    } else {
        to_owned_string("***")
    };
    let endpoint = DraftEndpoint { user, host: draft.endpoint.host.clone(), port: draft.endpoint.port };
    let stage = draft.stage();
    let profile_hint = profile_hint(draft.facts.as_slice());
    DraftView {
        id: draft.id,
        endpoint,
        auth: draft.auth,
        name: draft.name,
        description: draft.description,
        tags: draft.tags,
        groups: draft.groups,
        stage,
        host_key_stage: draft.host_key_stage,
        host_key: draft.host_key,
        confirmed_fingerprint: draft.confirmed_fingerprint,
        last_test: draft.last_test,
        facts: draft.facts,
        discovered_at: draft.discovered_at,
        profile_hint,
        duplicates,
        created_at: draft.created_at,
        updated_at: draft.updated_at,
    }
}

/// The verdict on a new draft, checked in order: the endpoint user (1 to 64
/// bytes), host (1 to 253 bytes) and port (not zero), the identity-file path
/// (1 to 512 bytes), every tag and every group (1 to 64 bytes), the
/// effective name — the given one, else the host — (1 to 64 bytes), and the
/// description (at most 512 bytes).
pub open spec fn spec_validate_new_draft(
    user: Seq<char>,
    host: Seq<char>,
    port: u16,
    identity_path: Option<Seq<char>>,
    tags: Seq<Seq<char>>,
    groups: Seq<Seq<char>>,
    name: Option<Seq<char>>,
    description: Seq<char>,
) -> Result<(), Seq<char>> {
    let effective_name = match name {
        Some(n) => n,
        None => host,
    };
    if !(1 <= utf8_len(user) <= 64) {
        Err("the endpoint user must be 1..=64 characters"@)
    } else if !(1 <= utf8_len(host) <= 253) {
        Err("the endpoint host must be 1..=253 characters"@)
    } else if port == 0 {
        Err("the endpoint port must be 1..=65535"@)
    } else if identity_path matches Some(p) && !(1 <= utf8_len(p) <= 512) {
        Err("the identity-file path must be 1..=512 characters"@)
    } else if exists|i: int| 0 <= i < tags.len() && !crate::machine::label_ok(#[trigger] tags[i]) {
        Err("tag names must be 1..=64 characters"@)
    } else if exists|i: int| 0 <= i < groups.len() && !crate::machine::label_ok(#[trigger] groups[i]) {
        Err("group names must be 1..=64 characters"@)
    } else if !(1 <= utf8_len(effective_name) <= 64) {
        Err(
            "the machine name must be 1..=64 characters; the host is too long to derive one, so name the machine explicitly"@,
        )
    } else if utf8_len(description) > 512 {
        Err("the description must be at most 512 characters"@)
    } else {
        Ok(())
    }
}

/// The identity-file path of an authentication mode, when it has one.
pub open spec fn identity_path(auth: OnboardAuth) -> Option<Seq<char>> {
    match auth {
        OnboardAuth::Agent => None,
        OnboardAuth::IdentityFile { path } => Some(path@),
    }
}

fn byte_len_within(s: &str, low: usize, high: usize) -> (ok: bool)
    ensures
        ok == (low <= utf8_len(s@) <= high),
{
    let n = crate::text::byte_len(s);
    low <= n && n <= high
}

fn any_bad_label(v: &Vec<String>) -> (bad: bool)
    ensures
        bad == exists|i: int|
            0 <= i < v@.len() && !crate::machine::label_ok(#[trigger] crate::machine::labels(v@)[i]),
{
    let ghost all = crate::machine::labels(v@);
    let mut i: usize = 0;
    while i < v.len()
        invariant
            all == crate::machine::labels(v@),
            i <= v@.len(),
            forall|k: int| 0 <= k < i ==> crate::machine::label_ok(#[trigger] all[k]),
        decreases v@.len() - i,
    {
        proof {
            assert(all[i as int] == v@[i as int]@);
        }
        if !byte_len_within(v[i].as_str(), 1, 64) {
            return true;
        }
        i = i + 1;
    }
    false
}

fn invalid(detail: &str) -> (error: OnboardingUseCaseError)
    ensures
        error@ == MachineErrorSpec::Invalid(detail@),
{
    OnboardingUseCaseError::Invalid { detail: to_owned_string(detail) }
}

/// Validates a new draft (see [`spec_validate_new_draft`]); a refusal is
/// an invalid request with the verdict's detail.
pub fn validate_new_draft(new: &NewDraft) -> (valid: Result<(), OnboardingUseCaseError>)
    ensures
        ({
            let verdict = spec_validate_new_draft(
                new.endpoint.user@,
                new.endpoint.host@,
                new.endpoint.port,
                identity_path(new.auth),
                crate::machine::labels(new.tags@),
                crate::machine::labels(new.groups@),
                opt_view(new.name),
                new.description@,
            );
            &&& valid is Ok <==> verdict is Ok
            &&& valid matches Err(e) ==> verdict matches Err(detail) && e@ == MachineErrorSpec::Invalid(
                detail,
            )
        }),
{
    if !byte_len_within(new.endpoint.user.as_str(), 1, 64) {
        return Err(invalid("the endpoint user must be 1..=64 characters"));
    }
    if !byte_len_within(new.endpoint.host.as_str(), 1, 253) {
        return Err(invalid("the endpoint host must be 1..=253 characters"));
    }
    if new.endpoint.port == 0 {
        return Err(invalid("the endpoint port must be 1..=65535"));
    }
    match &new.auth {
        OnboardAuth::Agent => {},
        OnboardAuth::IdentityFile { path } => {
            if !byte_len_within(path.as_str(), 1, 512) {
                return Err(invalid("the identity-file path must be 1..=512 characters"));
            }
        },
    }
    if any_bad_label(&new.tags) {
        return Err(invalid("tag names must be 1..=64 characters"));
    }
    if any_bad_label(&new.groups) {
        return Err(invalid("group names must be 1..=64 characters"));
    }
    let name = match &new.name {
        Some(n) => n.as_str(),
        None => new.endpoint.host.as_str(),
    };
    if !byte_len_within(name, 1, 64) {
        return Err(
            invalid(
                "the machine name must be 1..=64 characters; the host is too long to derive one, so name the machine explicitly",
            ),
        );
    }
    if crate::text::byte_len(new.description.as_str()) > 512 {
        return Err(invalid("the description must be at most 512 characters"));
    }
    Ok(())
}

/// The page size of a draft list: the requested limit held within 1 and
/// 200.
pub fn draft_list_limit(limit: u32) -> (clamped: u32)
    ensures
        clamped == if limit < 1 {
            1
        } else if limit > 200 {
            200
        } else {
            limit
        },
{
    if limit < 1 {
        1
    } else if limit > 200 {
        200
    } else {
        limit
    }
}

/// The idempotency key a caller's import-style lookup uses: scoped to the
/// principal, so a key is never shared across callers.
pub fn scoped_key(principal_id: &str, key: &str) -> (scoped: String)
    ensures
        scoped@ == principal_id@ + ":"@ + key@,
{
    let mut scoped = to_owned_string(principal_id);
    scoped.append(":");
    scoped.append(key);
    scoped
}

/// Decides whether a fingerprint may be confirmed on a draft: it must be an
/// OpenSSH `SHA256:` fingerprint of at most 128 bytes, a host key must have
/// been observed, and the fingerprint must be the one the host presented.
/// On success, answers the observed key and whether stale pins must be
/// removed first (the draft's key changed).
pub fn confirmation_gate(draft: &OnboardingDraft, fingerprint: &str) -> (gate: Result<
    (OnboardHostKey, bool),
    OnboardingUseCaseError,
>)
    ensures
        !crate::machine::fingerprint_ok(fingerprint@) ==> (gate matches Err(e) && e@
            == MachineErrorSpec::Invalid("the fingerprint must be an OpenSSH SHA256 fingerprint"@)),
        crate::machine::fingerprint_ok(fingerprint@) && draft.host_key is None ==> (gate matches Err(
            e,
        ) && e@ == MachineErrorSpec::Conflict("no host key was observed yet; run a test first"@)),
        crate::machine::fingerprint_ok(fingerprint@) && draft.host_key is Some
            && draft.host_key->0.fingerprint@ != fingerprint@ ==> (gate matches Err(e) && e@
            == MachineErrorSpec::Invalid(
            "the fingerprint does not match the one the host presented"@,
        )),
        gate is Ok <==> (crate::machine::fingerprint_ok(fingerprint@) && draft.host_key is Some
            && draft.host_key->0.fingerprint@ == fingerprint@),
        gate matches Ok((key, unpin)) ==> draft.host_key == Some(key) && unpin == (
        draft.host_key_stage == HostKeyStage::Changed),
{
    if !crate::text::starts_with(fingerprint, "SHA256:") || crate::text::byte_len(fingerprint)
        > 128 {
        return Err(invalid("the fingerprint must be an OpenSSH SHA256 fingerprint"));
    }
    let key = match &draft.host_key {
        Some(k) => OnboardHostKey {
            key_type: k.key_type.clone(),
            fingerprint: k.fingerprint.clone(),
            raw_line: k.raw_line.clone(),
        },
        None => {
            return Err(
                OnboardingUseCaseError::Conflict {
                    detail: to_owned_string("no host key was observed yet; run a test first"),
                },
            );
        },
    };
    if !text_eq(key.fingerprint.as_str(), fingerprint) {
        return Err(invalid("the fingerprint does not match the one the host presented"));
    }
    let unpin = draft.host_key_stage == HostKeyStage::Changed;
    proof {
        assert(draft.host_key == Some(key));
    }
    Ok((key, unpin))
}

/// Whether discover and add may proceed on a draft, and the fingerprint the
/// new machine's endpoint is confirmed with: the draft must be trust-ready
/// and carry a confirmed fingerprint.
pub fn add_gate(draft: &OnboardingDraft) -> (gate: Result<String, OnboardingUseCaseError>)
    ensures
        draft.host_key_stage != HostKeyStage::Confirmed ==> (gate matches Err(e) && e@
            == MachineErrorSpec::Conflict(
            "the host key is not confirmed; confirm the fingerprint first"@,
        )),
        draft.host_key_stage == HostKeyStage::Confirmed && draft.confirmed_fingerprint is None
            ==> (gate matches Err(e) && e@ == MachineErrorSpec::Conflict(
            "the draft has no confirmed fingerprint"@,
        )),
        gate matches Ok(f) ==> draft.host_key_stage == HostKeyStage::Confirmed && opt_view(
            draft.confirmed_fingerprint,
        ) == Some(f@),
        (draft.host_key_stage == HostKeyStage::Confirmed && draft.confirmed_fingerprint is Some)
            ==> gate is Ok,
{
    if !draft.trust_ready() {
        return Err(
            OnboardingUseCaseError::Conflict {
                detail: to_owned_string(
                    "the host key is not confirmed; confirm the fingerprint first",
                ),
            },
        );
    }
    match &draft.confirmed_fingerprint {
        Some(f) => Ok(f.clone()),
        None => Err(
            OnboardingUseCaseError::Conflict {
                detail: to_owned_string("the draft has no confirmed fingerprint"),
            },
        ),
    }
}

/// The registration an add submits: the draft's name, description, tags and
/// groups, with one SSH endpoint at the draft's reference.
pub fn add_registration(draft: &OnboardingDraft) -> (registration: RegisterMachine)
    ensures
        registration.name@ == draft.name@,
        registration.description@ == draft.description@,
        registration.endpoints@.len() == 1,
        registration.endpoints@[0].kind == EndpointKind::Ssh,
        registration.endpoints@[0].reference@ == DraftEndpoint::spec_reference(
            draft.endpoint.user@,
            draft.endpoint.host@,
            draft.endpoint.port,
        ),
        crate::machine::labels(registration.tags@) == crate::machine::labels(draft.tags@),
        crate::machine::labels(registration.groups@) == crate::machine::labels(draft.groups@),
{
    let mut endpoints: Vec<NewEndpoint> = Vec::new();
    endpoints.push(NewEndpoint { kind: EndpointKind::Ssh, reference: draft.endpoint.reference() });
    RegisterMachine {
        name: draft.name.clone(),
        description: draft.description.clone(),
        endpoints,
        tags: copy_labels(&draft.tags),
        groups: copy_labels(&draft.groups),
    }
}

fn copy_labels(v: &Vec<String>) -> (copy: Vec<String>)
    ensures
        crate::machine::labels(copy@) == crate::machine::labels(v@),
{
    let mut out: Vec<String> = Vec::new();
    let mut i: usize = 0;
    while i < v.len()
        invariant
            i <= v@.len(),
            crate::machine::labels(out@) == crate::machine::labels(v@).subrange(0, i as int),
        decreases v@.len() - i,
    {
        let ghost before = crate::machine::labels(out@);
        out.push(v[i].clone());
        proof {
            assert(crate::machine::labels(out@) =~= before.push(v@[i as int]@));
            assert(crate::machine::labels(v@).subrange(0, i + 1) =~= crate::machine::labels(
                v@,
            ).subrange(0, i as int).push(v@[i as int]@));
        }
        i = i + 1;
    }
    proof {
        assert(crate::machine::labels(v@).subrange(0, i as int) =~= crate::machine::labels(v@));
    }
    out
}

/// The identity of the first SSH endpoint of a registered machine; a
/// machine without one is a backend failure of the add.
pub fn ssh_endpoint_id(endpoints: &Vec<crate::machine::Endpoint>) -> (id: Result<
    String,
    OnboardingUseCaseError,
>)
    ensures
        match id {
            Ok(i) => exists|k: int|
                0 <= k < endpoints@.len() && endpoints@[k].kind == EndpointKind::Ssh
                    && endpoints@[k].id@ == i@ && forall|j: int|
                    0 <= j < k ==> endpoints@[j].kind != EndpointKind::Ssh,
            Err(e) => (forall|k: int|
                0 <= k < endpoints@.len() ==> endpoints@[k].kind != EndpointKind::Ssh) && e@
                == MachineErrorSpec::Backend("add"@, "the registered machine has no SSH endpoint"@),
        },
{
    let mut i: usize = 0;
    while i < endpoints.len()
        invariant
            i <= endpoints@.len(),
            forall|j: int| 0 <= j < i ==> endpoints@[j].kind != EndpointKind::Ssh,
        decreases endpoints@.len() - i,
    {
        if endpoints[i].kind == EndpointKind::Ssh {
            return Ok(endpoints[i].id.clone());
        }
        i = i + 1;
    }
    Err(
        OnboardingUseCaseError::Backend {
            context: "add",
            detail: to_owned_string("the registered machine has no SSH endpoint"),
        },
    )
}

/// What observed the facts a snapshot records: the draft's discovery
/// source, or `agentless/1`.
pub fn snapshot_source(draft: &OnboardingDraft) -> (source: String)
    ensures
        source@ == match draft.discovery_source {
            Some(s) => s@,
            None => "agentless/1"@,
        },
{
    match &draft.discovery_source {
        Some(s) => s.clone(),
        None => to_owned_string("agentless/1"),
    }
}

/// Whether a machine view has an SSH endpoint whose reference matches a
/// draft's host and port, and the first such reference.
pub open spec fn matching_reference(
    endpoints: Seq<crate::machine::Endpoint>,
    host: Seq<char>,
    port: u16,
) -> Option<Seq<char>>
    decreases endpoints.len(),
{
    if endpoints.len() == 0 {
        None
    } else if endpoints[0].kind == EndpointKind::Ssh && spec_reference_matches(
        endpoints[0].reference@,
        host,
        port,
    ) {
        Some(endpoints[0].reference@)
    } else {
        matching_reference(endpoints.drop_first(), host, port)
    }
}

/// The duplicate candidates among machine views: one per machine with a
/// matching SSH endpoint, in order, carrying the first matching reference.
pub open spec fn spec_duplicates(views: Seq<MachineView>, host: Seq<char>, port: u16) -> Seq<
    (Seq<char>, Seq<char>, MachineStatus, Seq<char>),
>
    decreases views.len(),
{
    if views.len() == 0 {
        Seq::empty()
    } else {
        let rest = spec_duplicates(views.drop_last(), host, port);
        let v = views.last();
        match matching_reference(v.endpoints@, host, port) {
            Some(reference) => rest.push((v.id@, v.name@, v.machine_status, reference)),
            None => rest,
        }
    }
}

/// The duplicate candidates as values.
pub open spec fn candidates_view(v: Seq<DuplicateCandidate>) -> Seq<
    (Seq<char>, Seq<char>, MachineStatus, Seq<char>),
> {
    v.map_values(|c: DuplicateCandidate| (c.machine_id@, c.name@, c.machine_status, c.reference@))
}

fn first_matching(endpoints: &Vec<crate::machine::Endpoint>, endpoint: &DraftEndpoint) -> (found:
    Option<String>)
    ensures
        opt_view(found) == matching_reference(endpoints@, endpoint.host@, endpoint.port),
{
    let mut i: usize = 0;
    proof {
        assert(endpoints@.skip(0) =~= endpoints@);
    }
    while i < endpoints.len()
        invariant
            i <= endpoints@.len(),
            matching_reference(endpoints@, endpoint.host@, endpoint.port) == matching_reference(
                endpoints@.skip(i as int),
                endpoint.host@,
                endpoint.port,
            ),
        decreases endpoints@.len() - i,
    {
        proof {
            assert(endpoints@.skip(i as int)[0] == endpoints@[i as int]);
            assert(endpoints@.skip(i as int).drop_first() =~= endpoints@.skip(i + 1));
        }
        if endpoints[i].kind == EndpointKind::Ssh && endpoint_reference_matches(
            endpoints[i].reference.as_str(),
            endpoint,
        ) {
            return Some(endpoints[i].reference.clone());
        }
        i = i + 1;
    }
    proof {
        assert(endpoints@.skip(i as int) =~= Seq::<crate::machine::Endpoint>::empty());
    }
    None
}

/// The existing machines whose SSH endpoints share a draft's host and port
/// (see [`spec_duplicates`]). Candidates only ever warn.
pub fn duplicate_candidates(views: &Vec<MachineView>, endpoint: &DraftEndpoint) -> (candidates: Vec<
    DuplicateCandidate,
>)
    ensures
        candidates_view(candidates@) == spec_duplicates(views@, endpoint.host@, endpoint.port),
{
    let mut out: Vec<DuplicateCandidate> = Vec::new();
    let mut i: usize = 0;
    proof {
        assert(views@.subrange(0, 0) =~= Seq::<MachineView>::empty());
        assert(candidates_view(out@) =~= Seq::<
            (Seq<char>, Seq<char>, MachineStatus, Seq<char>),
        >::empty());
    }
    while i < views.len()
        invariant
            i <= views@.len(),
            candidates_view(out@) == spec_duplicates(
                views@.subrange(0, i as int),
                endpoint.host@,
                endpoint.port,
            ),
        decreases views@.len() - i,
    {
        let ghost pre = views@.subrange(0, i + 1);
        proof {
            assert(pre.drop_last() =~= views@.subrange(0, i as int));
            assert(pre.last() == views@[i as int]);
        }
        let view = &views[i];
        match first_matching(&view.endpoints, endpoint) {
            Some(reference) => {
                let ghost before = candidates_view(out@);
                out.push(
                    DuplicateCandidate {
                        machine_id: view.id.clone(),
                        name: view.name.clone(),
                        machine_status: view.machine_status,
                        reference,
                    },
                );
                proof {
                    assert(candidates_view(out@) =~= before.push(
                        (view.id@, view.name@, view.machine_status, reference@),
                    ));
                }
            },
            None => {},
        }
        i = i + 1;
    }
    proof {
        assert(views@.subrange(0, i as int) =~= views@);
    }
    out
}

/// Whether an endpoint reference names a host, ignoring ASCII case.
pub open spec fn spec_names_host(reference: Seq<char>, host: Seq<char>) -> bool {
    spec_reference_host(reference) matches Some(h) && eq_ignore_case(h, host)
}

/// Whether an existing machine endpoint reaches a host: an SSH endpoint
/// whose reference names the host, ignoring ASCII case, on any port.
pub open spec fn spec_host_shared(views: Seq<MachineView>, host: Seq<char>) -> bool {
    exists|i: int, k: int|
        0 <= i < views.len() && 0 <= k < views[i].endpoints@.len() && (
        #[trigger] views[i].endpoints@[k]).kind == EndpointKind::Ssh && spec_names_host(
            views[i].endpoints@[k].reference@,
            host,
        )
}

fn names_host(reference: &str, host: &str) -> (names: bool)
    ensures
        names == spec_names_host(reference@, host@),
{
    match reference_host(reference) {
        Some(h) => crate::text::eq_ignore_ascii_case(h, host),
        None => false,
    }
}

/// Whether any existing machine endpoint references a draft's host (see
/// [`spec_host_shared`]): the guard that keeps a cancelled draft from
/// unpinning a host another machine reaches.
pub fn host_is_shared(views: &Vec<MachineView>, host: &str) -> (shared: bool)
    ensures
        shared == spec_host_shared(views@, host@),
{
    let mut i: usize = 0;
    while i < views.len()
        invariant
            i <= views@.len(),
            forall|a: int, k: int|
                0 <= a < i && 0 <= k < views@[a].endpoints@.len() ==> !((
                #[trigger] views@[a].endpoints@[k]).kind == EndpointKind::Ssh && spec_names_host(
                    views@[a].endpoints@[k].reference@,
                    host@,
                )),
        decreases views@.len() - i,
    {
        let endpoints = &views[i].endpoints;
        let mut k: usize = 0;
        while k < endpoints.len()
            invariant
                i < views@.len(),
                endpoints == views@[i as int].endpoints,
                k <= endpoints@.len(),
                forall|a: int, k2: int|
                    0 <= a < i && 0 <= k2 < views@[a].endpoints@.len() ==> !((
                    #[trigger] views@[a].endpoints@[k2]).kind == EndpointKind::Ssh
                        && spec_names_host(views@[a].endpoints@[k2].reference@, host@)),
                forall|k2: int|
                    0 <= k2 < k ==> !((#[trigger] endpoints@[k2]).kind == EndpointKind::Ssh
                        && spec_names_host(endpoints@[k2].reference@, host@)),
            decreases endpoints@.len() - k,
        {
            if endpoints[k].kind == EndpointKind::Ssh && names_host(
                endpoints[k].reference.as_str(),
                host,
            ) {
                proof {
                    assert(views@[i as int].endpoints@[k as int] == endpoints@[k as int]);
                }
                return true;
            }
            k = k + 1;
        }
        i = i + 1;
    }
    false
}

/// The audit intent a draft action appends: the principal did
/// `machine.create` on the resource, allowed, with the event (and the
/// optional fact) as metadata. Fails, as a backend failure of the audit
/// half, when the metadata refuses an entry.
pub fn draft_intent(
    principal_id: &str,
    resource_id: &str,
    event: &str,
    fact: Option<(&str, &str)>,
) -> (intent: Result<crate::audit::AuditIntent, OnboardingUseCaseError>)
    ensures
        intent is Ok <==> crate::audit::event_metadata_ok(event@, crate::audit::fact_view(fact)),
        intent matches Ok(i) ==> crate::audit::describes_event(
            i,
            principal_id@,
            crate::authz::Permission::MachineCreate,
            Some(resource_id@),
            event@,
            crate::audit::fact_view(fact),
        ),
        intent matches Err(e) ==> e@ == MachineErrorSpec::Backend(
            "audit"@,
            crate::audit::event_refusal(event@, crate::audit::fact_view(fact)),
        ),
{
    match crate::audit::event_intent(
        principal_id,
        crate::authz::Permission::MachineCreate,
        Some(resource_id),
        event,
        fact,
    ) {
        Ok(intent) => Ok(intent),
        Err(error) => Err(
            OnboardingUseCaseError::Backend { context: "audit", detail: error.message() },
        ),
    }
}

} // verus!
