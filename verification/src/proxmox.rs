//! The Proxmox integration: accounts with pinned TLS trust, and cluster and
//! guest discovery as normalized observations.
//!
//! A PVE host presents its own cluster CA, so Fleet pins the host
//! certificate's SHA-256 fingerprint: observing captures it without any
//! credential, and confirming pins only what was observed. Without a pinned
//! fingerprint no credential-carrying call leaves Fleet. The API token lives
//! in the encrypted secret store and never appears in audit metadata, error
//! details, or debug output. Discovery is read-only; association between a
//! guest and a Fleet machine is evidence, never a merge.

use vstd::prelude::*;

use crate::authz::{Decision, Permission};
use crate::capability::{CapabilityFact, CapabilityStatus, FactSpec};
use crate::machine::{MachineErrorSpec, MachineUseCaseError, MachineView};
use crate::onboarding::spec_reference_host;
use crate::operation::opt_view;
use crate::text::{
    contains_text, decimal, eq_ignore_case, has_prefix, text_eq, to_owned_string, utf8_len,
};

verus! {

/// One configured Proxmox account. The credential is a reference: the value
/// lives in the encrypted store and never travels with the record.
#[derive(Clone, Debug, PartialEq, Eq)]
pub struct ProxmoxAccount {
    /// The account's stable identity.
    pub id: String,
    /// The operator-facing name, unique among accounts.
    pub name: String,
    /// The PVE host (IP or DNS name).
    pub host: String,
    /// The API port; 8006 in the common case.
    pub port: u16,
    /// The API token id (`user@realm!tokenname`), not secret on its own.
    pub token_id: String,
    /// The pinned host-certificate fingerprint, once confirmed.
    pub fingerprint: Option<String>,
    /// The fingerprint the trust probe last observed, not yet confirmed.
    pub observed_fingerprint: Option<String>,
    /// When the account was created (epoch millis).
    pub created_at: i64,
}

/// The fingerprint state of an account.
#[derive(Clone, Copy, Debug, PartialEq, Eq, Structural)]
pub enum FingerprintState {
    /// No fingerprint is pinned: the account exists but cannot call yet.
    Unconfirmed,
    /// A fingerprint is pinned and every call verifies against it.
    Confirmed,
}

/// A credential-store failure that is safe to print.
#[derive(Clone, Debug)]
pub enum CredentialStoreError {
    /// The store is unreadable or unwritable.
    Backend {
        /// The bounded detail.
        detail: String,
    },
}

impl CredentialStoreError {
    /// Renders the failure.
    pub fn message(&self) -> (text: String)
        ensures
            text@ == "the secret store failed: "@ + match self {
                CredentialStoreError::Backend { detail } => detail@,
            },
    {
        match self {
            CredentialStoreError::Backend { detail } => {
                let mut text = to_owned_string("the secret store failed: ");
                text.append(detail.as_str());
                text
            },
        }
    }
}

/// A discovery-source failure that is safe to print. Fingerprints and
/// statuses travel here; tokens never do.
#[derive(Clone, Debug)]
pub enum ProxmoxSourceError {
    /// The pinned fingerprint was refused, with the observed one as evidence.
    FingerprintMismatch {
        /// The observed leaf fingerprint.
        observed: String,
        /// The pinned fingerprint.
        pinned: String,
    },
    /// The API token was refused (401).
    Auth,
    /// The token lacks the privilege (403).
    Forbidden {
        /// The bounded, redacted detail.
        detail: String,
    },
    /// Any other HTTP outcome.
    Http {
        /// The status.
        status: u16,
        /// The bounded detail.
        detail: String,
    },
    /// The API answered with something Fleet cannot interpret.
    InvalidPayload {
        /// The bounded detail.
        detail: String,
    },
    /// Transport-level failure (DNS, TCP, timeout).
    Connect {
        /// The bounded, redacted detail.
        detail: String,
    },
    /// The credential store failed.
    Credentials(CredentialStoreError),
}

/// The rendering of a source failure.
pub open spec fn source_message(e: ProxmoxSourceError) -> Seq<char> {
    match e {
        ProxmoxSourceError::FingerprintMismatch { observed, pinned } =>
            "the host certificate's fingerprint "@ + observed@ + " does not match the pinned "@
            + pinned@,
        ProxmoxSourceError::Auth => "the API token was refused (401)"@,
        ProxmoxSourceError::Forbidden { detail } => "the token lacks the privilege (403): "@
            + detail@,
        ProxmoxSourceError::Http { status, detail } => "the API answered "@ + decimal(
            status as nat,
        ) + ": "@ + detail@,
        ProxmoxSourceError::InvalidPayload { detail } =>
            "the API's payload is not interpretable: "@ + detail@,
        ProxmoxSourceError::Connect { detail } => "the connection failed: "@ + detail@,
        ProxmoxSourceError::Credentials(CredentialStoreError::Backend { detail }) =>
            "the secret store failed: "@ + detail@,
    }
}

impl ProxmoxSourceError {
    /// Renders the failure.
    pub fn message(&self) -> (text: String)
        ensures
            text@ == source_message(*self),
    {
        match self {
            ProxmoxSourceError::FingerprintMismatch { observed, pinned } => {
                let mut text = to_owned_string("the host certificate's fingerprint ");
                text.append(observed.as_str());
                text.append(" does not match the pinned ");
                text.append(pinned.as_str());
                text
            },
            ProxmoxSourceError::Auth => to_owned_string("the API token was refused (401)"),
            ProxmoxSourceError::Forbidden { detail } => {
                let mut text = to_owned_string("the token lacks the privilege (403): ");
                text.append(detail.as_str());
                text
            },
            ProxmoxSourceError::Http { status, detail } => {
                let mut text = to_owned_string("the API answered ");
                let digits = crate::text::format_decimal(*status as u64);
                text.append(digits.as_str());
                text.append(": ");
                text.append(detail.as_str());
                text
            },
            ProxmoxSourceError::InvalidPayload { detail } => {
                let mut text = to_owned_string("the API's payload is not interpretable: ");
                text.append(detail.as_str());
                text
            },
            ProxmoxSourceError::Connect { detail } => {
                let mut text = to_owned_string("the connection failed: ");
                text.append(detail.as_str());
                text
            },
            ProxmoxSourceError::Credentials(error) => error.message(),
        }
    }
}

/// One normalized discovery observation with provenance.
#[derive(Clone, Debug, PartialEq, Eq)]
pub struct ProxmoxResource {
    /// The normalized kind: `node`, `qemu`, `lxc`, `qemu-template`, or
    /// `storage`.
    pub kind: String,
    /// The cluster-visible id, e.g. `qemu/101`.
    pub id: String,
    /// The hosting node, when the resource has one.
    pub node: Option<String>,
    /// The VMID, when the resource has one.
    pub vmid: Option<u32>,
    /// The display name, when carried.
    pub name: Option<String>,
    /// The PVE status string, when carried.
    pub status: Option<String>,
    /// The account that observed the resource.
    pub account_id: String,
    /// The PVE version the observation came from.
    pub pve_version: String,
    /// When the observation was taken (epoch millis).
    pub observed_at: i64,
}

/// The discovery snapshot: every resource plus what failed normalization.
#[derive(Clone, Debug, PartialEq, Eq)]
pub struct ProxmoxDiscovery {
    /// The account that produced the snapshot.
    pub account_id: String,
    /// The PVE version seen.
    pub pve_version: String,
    /// The normalized resources.
    pub resources: Vec<ProxmoxResource>,
    /// The per-resource normalization warnings.
    pub warnings: Vec<String>,
    /// The count the API reported.
    pub reported_count: usize,
    /// When the snapshot was taken (epoch millis).
    pub observed_at: i64,
}

/// One guest network interface.
#[derive(Clone, Debug, PartialEq, Eq)]
pub struct ProviderInterface {
    /// The interface name inside the guest.
    pub name: String,
    /// The normalized MAC, when carried.
    pub mac: Option<String>,
    /// The interface's addresses.
    pub addresses: Vec<String>,
}

/// The guest-agent view.
#[derive(Clone, Debug, Default, PartialEq, Eq)]
pub struct ProviderAgent {
    /// The agent answered: installed and reachable.
    pub online: bool,
    /// The agent version, when carried.
    pub version: Option<String>,
    /// The guest's OS name, when answered.
    pub os_name: Option<String>,
    /// The guest's kernel release, when carried.
    pub kernel: Option<String>,
    /// The network interfaces the agent saw.
    pub interfaces: Vec<ProviderInterface>,
}

/// One guest as the application sees it.
#[derive(Clone, Debug, PartialEq, Eq)]
pub struct ProviderGuest {
    /// The normalized kind: `qemu` or `lxc`.
    pub kind: String,
    /// The cluster-visible id, e.g. `qemu/101`.
    pub id: String,
    /// The hosting node.
    pub node: Option<String>,
    /// The VMID.
    pub vmid: Option<u32>,
    /// The display name, when carried.
    pub name: Option<String>,
    /// The PVE status string, when carried.
    pub status: Option<String>,
    /// The config's MAC addresses, normalized.
    pub macs: Vec<String>,
    /// The guest-agent view, when the guest has one (QEMU only).
    pub agent: Option<ProviderAgent>,
    /// The bounded per-surface warnings.
    pub warnings: Vec<String>,
}

/// Why a guest may be one Fleet machine.
#[derive(Clone, Copy, Debug, PartialEq, Eq, Structural)]
pub enum AssociationKind {
    /// A guest MAC matches a machine's recorded network fact.
    MacMatch,
    /// A guest-agent address matches a machine endpoint's host.
    AddressMatch,
    /// The guest's name matches the machine's name.
    NameMatch,
}

impl AssociationKind {
    /// The stable string used in the API.
    pub open spec fn spec_id(self) -> Seq<char> {
        match self {
            AssociationKind::MacMatch => "mac_match"@,
            AssociationKind::AddressMatch => "address_match"@,
            AssociationKind::NameMatch => "name_match"@,
        }
    }

    /// The stable string used in the API.
    pub fn id(self) -> (id: &'static str)
        ensures
            id@ == self.spec_id(),
    {
        match self {
            AssociationKind::MacMatch => "mac_match",
            AssociationKind::AddressMatch => "address_match",
            AssociationKind::NameMatch => "name_match",
        }
    }
}

/// One Fleet machine a guest may be, with the evidence.
#[derive(Clone, Debug, PartialEq, Eq)]
pub struct AssociationCandidate {
    /// The existing machine's identity.
    pub machine_id: String,
    /// The existing machine's name.
    pub machine_name: String,
    /// The machine's derived connectivity state.
    pub machine_status: String,
    /// Why: the association kind's stable id.
    pub kind: String,
    /// The evidence value that matched (the MAC, address, or name).
    pub evidence: String,
}

/// One discovered guest with its association candidates (evidence only).
#[derive(Clone, Debug, PartialEq, Eq)]
pub struct AssociatedGuest {
    /// The guest's provider facts.
    pub guest: ProviderGuest,
    /// The PVE version the observation came from.
    pub pve_version: String,
    /// When the observation was taken (epoch millis).
    pub observed_at: i64,
    /// The Fleet machines this guest may be.
    pub candidates: Vec<AssociationCandidate>,
}

/// The provider's own guest-discovery shape, before enrichment.
#[derive(Clone, Debug, PartialEq, Eq)]
pub struct RawGuestDiscovery {
    /// The PVE version seen.
    pub version: String,
    /// The guests, provenance pending.
    pub guests: Vec<ProviderGuest>,
    /// The cluster-level warnings.
    pub warnings: Vec<String>,
}

/// The guest-discovery snapshot.
#[derive(Clone, Debug, PartialEq, Eq)]
pub struct GuestSnapshot {
    /// The account that produced the snapshot.
    pub account_id: String,
    /// The PVE version seen.
    pub pve_version: String,
    /// The discovered guests with their association candidates.
    pub guests: Vec<AssociatedGuest>,
    /// The cluster-level warnings, per isolated entry.
    pub warnings: Vec<String>,
    /// When the snapshot was taken (epoch millis).
    pub observed_at: i64,
}

/// A creation request for one account.
#[derive(Clone, Debug, Default, PartialEq, Eq)]
pub struct NewProxmoxAccount {
    /// The operator-facing name.
    pub name: String,
    /// The PVE host (IP or DNS name).
    pub host: String,
    /// The API port; 8006 when omitted.
    pub port: Option<u16>,
    /// The API token id (`user@realm!tokenname`).
    pub token_id: String,
}

/// The provider's own discovery shape, before enrichment.
#[derive(Clone, Debug, PartialEq, Eq)]
pub struct RawDiscovery {
    /// The PVE version seen.
    pub version: String,
    /// The normalized resources, provenance pending.
    pub resources: Vec<ProxmoxResource>,
    /// The per-resource normalization warnings.
    pub warnings: Vec<String>,
    /// The count the API reported.
    pub reported_count: usize,
}

/// A use-case rejection, mapped onto public API errors by the adapter.
#[derive(Debug)]
pub enum ProxmoxUseCaseError {
    /// The caller may not perform the action.
    Denied(Decision),
    /// The request is malformed.
    Invalid {
        /// What is wrong.
        detail: String,
    },
    /// The addressed account does not exist.
    NotFound {
        /// What was not found.
        what: String,
    },
    /// The account name is taken.
    Conflict {
        /// The conflict detail.
        detail: String,
    },
    /// The account has no pinned fingerprint yet: the explicit-trust gate.
    UnconfirmedTrust {
        /// The account name.
        account: String,
    },
    /// The account's token secret is not in the store.
    NoSecret {
        /// The account name.
        account: String,
    },
    /// The discovery source refused or failed.
    Source(ProxmoxSourceError),
    /// The credential store failed.
    Credentials(CredentialStoreError),
    /// A port failed.
    Backend {
        /// Where.
        context: &'static str,
        /// The failure detail.
        detail: String,
    },
}

/// The kind of a use-case rejection and its main text, as values.
pub enum ProxmoxErrorSpec {
    /// A denial.
    Denied(Decision),
    /// A malformed request.
    Invalid(Seq<char>),
    /// Not found.
    NotFound(Seq<char>),
    /// A name conflict.
    Conflict(Seq<char>),
    /// The trust gate, naming the account.
    UnconfirmedTrust(Seq<char>),
    /// No stored secret, naming the account.
    NoSecret(Seq<char>),
    /// A source failure, by its rendering.
    Source(Seq<char>),
    /// A credential-store failure, by its detail.
    Credentials(Seq<char>),
    /// A backend failure: the context and the detail.
    Backend(Seq<char>, Seq<char>),
}

impl View for ProxmoxUseCaseError {
    type V = ProxmoxErrorSpec;

    open spec fn view(&self) -> ProxmoxErrorSpec {
        match self {
            ProxmoxUseCaseError::Denied(d) => ProxmoxErrorSpec::Denied(*d),
            ProxmoxUseCaseError::Invalid { detail } => ProxmoxErrorSpec::Invalid(detail@),
            ProxmoxUseCaseError::NotFound { what } => ProxmoxErrorSpec::NotFound(what@),
            ProxmoxUseCaseError::Conflict { detail } => ProxmoxErrorSpec::Conflict(detail@),
            ProxmoxUseCaseError::UnconfirmedTrust { account } => ProxmoxErrorSpec::UnconfirmedTrust(
                account@,
            ),
            ProxmoxUseCaseError::NoSecret { account } => ProxmoxErrorSpec::NoSecret(account@),
            ProxmoxUseCaseError::Source(e) => ProxmoxErrorSpec::Source(source_message(*e)),
            ProxmoxUseCaseError::Credentials(CredentialStoreError::Backend { detail }) =>
                ProxmoxErrorSpec::Credentials(detail@),
            ProxmoxUseCaseError::Backend { context, detail } => ProxmoxErrorSpec::Backend(
                context@,
                detail@,
            ),
        }
    }
}

impl ProxmoxUseCaseError {
    /// Renders the error.
    pub fn message(&self) -> (text: String)
        ensures
            text@ == match self {
                ProxmoxUseCaseError::Denied(d) => "denied: "@ + d.spec_describe(),
                ProxmoxUseCaseError::Invalid { detail } => "invalid request: "@ + detail@,
                ProxmoxUseCaseError::NotFound { what } => "not found: "@ + what@,
                ProxmoxUseCaseError::Conflict { detail } => "conflict: "@ + detail@,
                ProxmoxUseCaseError::UnconfirmedTrust { account } =>
                    "the host certificate for account "@ + account@
                    + " is not confirmed; observe and confirm the fingerprint first"@,
                ProxmoxUseCaseError::NoSecret { account } => "the API token for account "@
                    + account@ + " is not in the secret store; re-create the account"@,
                ProxmoxUseCaseError::Source(e) => source_message(*e),
                ProxmoxUseCaseError::Credentials(CredentialStoreError::Backend { detail }) =>
                    "the secret store failed: "@ + detail@,
                ProxmoxUseCaseError::Backend { context, detail } => "proxmox "@ + context@
                    + " failed: "@ + detail@,
            },
    {
        match self {
            ProxmoxUseCaseError::Denied(decision) => {
                let mut text = to_owned_string("denied: ");
                text.append(decision.describe().as_str());
                text
            },
            ProxmoxUseCaseError::Invalid { detail } => {
                let mut text = to_owned_string("invalid request: ");
                text.append(detail.as_str());
                text
            },
            ProxmoxUseCaseError::NotFound { what } => {
                let mut text = to_owned_string("not found: ");
                text.append(what.as_str());
                text
            },
            ProxmoxUseCaseError::Conflict { detail } => {
                let mut text = to_owned_string("conflict: ");
                text.append(detail.as_str());
                text
            },
            ProxmoxUseCaseError::UnconfirmedTrust { account } => {
                let mut text = to_owned_string("the host certificate for account ");
                text.append(account.as_str());
                text.append(
                    " is not confirmed; observe and confirm the fingerprint first",
                );
                text
            },
            ProxmoxUseCaseError::NoSecret { account } => {
                let mut text = to_owned_string("the API token for account ");
                text.append(account.as_str());
                text.append(" is not in the secret store; re-create the account");
                text
            },
            ProxmoxUseCaseError::Source(error) => error.message(),
            ProxmoxUseCaseError::Credentials(error) => error.message(),
            ProxmoxUseCaseError::Backend { context, detail } => {
                let mut text = to_owned_string("proxmox ");
                text.append(context);
                text.append(" failed: ");
                text.append(detail.as_str());
                text
            },
        }
    }
}

/// A text without its colons.
pub open spec fn without_colons(s: Seq<char>) -> Seq<char>
    decreases s.len(),
{
    if s.len() == 0 {
        Seq::empty()
    } else if s.last() == ':' {
        without_colons(s.drop_last())
    } else {
        without_colons(s.drop_last()).push(s.last())
    }
}

fn remove_colons(value: &str) -> (out: String)
    ensures
        out@ == without_colons(value@),
{
    let len = value.unicode_len();
    let mut out = String::new();
    let mut i: usize = 0;
    proof {
        assert(value@.subrange(0, 0) =~= Seq::<char>::empty());
    }
    while i < len
        invariant
            len == value@.len(),
            i <= len,
            out@ == without_colons(value@.subrange(0, i as int)),
        decreases len - i,
    {
        let c = value.get_char(i);
        proof {
            let pre = value@.subrange(0, i + 1);
            assert(pre.drop_last() =~= value@.subrange(0, i as int));
            assert(pre.last() == c);
        }
        if c != ':' {
            crate::text::push_char(&mut out, c);
        }
        i = i + 1;
    }
    proof {
        assert(value@.subrange(0, len as int) =~= value@);
    }
    out
}

/// The uppercase mapping of a text, as `str::to_uppercase` defines it (the
/// Unicode uppercase of every character, which may change the length).
pub uninterp spec fn uppercase(s: Seq<char>) -> Seq<char>;

/// Whether every character of a text is ASCII.
pub open spec fn is_ascii_text(s: Seq<char>) -> bool {
    forall|i: int| 0 <= i < s.len() ==> (#[trigger] s[i] as u32) < 128
}

/// The ASCII uppercase of a character: `a` to `z` become `A` to `Z`, and
/// every other character stays.
pub open spec fn ascii_upper(c: char) -> char {
    if 'a' <= c && c <= 'z' {
        ((c as u32) - 32) as char
    } else {
        c
    }
}

/// Uppercases a text.
///
/// Wraps `str::to_uppercase`; its result depends on the text alone and is
/// named, not spelled out. Of an ASCII text the contract also says what the
/// Unicode mapping is there, as std documents it: `a` to `z` become `A` to
/// `Z` and every other ASCII character has no uppercase mapping, so it stays.
#[verifier::external_body]
fn to_uppercase(s: &str) -> (upper: String)
    ensures
        upper@ == uppercase(s@),
        is_ascii_text(s@) ==> upper@ == s@.map_values(|c: char| ascii_upper(c)),
{
    s.to_uppercase()
}

/// The comparison form of a fingerprint: without colons, uppercased.
pub open spec fn spec_normalize_fingerprint(value: Seq<char>) -> Seq<char> {
    uppercase(without_colons(value))
}

/// Normalizes a fingerprint for comparison: colons removed, uppercased.
pub fn normalize_fingerprint(value: &str) -> (normalized: String)
    ensures
        normalized@ == spec_normalize_fingerprint(value@),
        is_ascii_text(value@) ==> normalized@ == ascii_normal_form(value@),
{
    let bare = remove_colons(value);
    proof {
        lemma_without_colons_keeps(value@);
    }
    to_uppercase(bare.as_str())
}

/// What `without_colons` keeps: every character it yields was in the text
/// and is not a colon, and a text without colons is kept whole.
proof fn lemma_without_colons_keeps(s: Seq<char>)
    ensures
        forall|i: int|
            0 <= i < without_colons(s).len() ==> #[trigger] without_colons(s)[i] != ':'
                && s.contains(without_colons(s)[i]),
        !s.contains(':') ==> without_colons(s) == s,
    decreases s.len(),
{
    if s.len() > 0 {
        lemma_without_colons_keeps(s.drop_last());
        let rest = without_colons(s.drop_last());
        assert forall|i: int| 0 <= i < without_colons(s).len() implies #[trigger] without_colons(
            s,
        )[i] != ':' && s.contains(without_colons(s)[i]) by {
            if i < rest.len() {
                let j = choose|j: int| 0 <= j < s.drop_last().len() && s.drop_last()[j] == rest[i];
                assert(s[j] == rest[i]);
            } else {
                assert(s[s.len() - 1] == s.last());
            }
        }
        if !s.contains(':') {
            assert(!s.drop_last().contains(':')) by {
                if s.drop_last().contains(':') {
                    let j = choose|j: int| 0 <= j < s.drop_last().len() && s.drop_last()[j] == ':';
                    assert(s[j] == ':');
                }
            }
            assert(s.last() != ':') by {
                assert(s[s.len() - 1] == s.last());
            }
            assert(s.drop_last().push(s.last()) =~= s);
        }
    }
}

/// The ASCII uppercase is settled after one application, and never makes a
/// colon of another character.
proof fn lemma_ascii_upper(c: char)
    requires
        (c as u32) < 128,
    ensures
        ascii_upper(ascii_upper(c)) == ascii_upper(c),
        (ascii_upper(c) as u32) < 128,
        ascii_upper(c) == ':' ==> c == ':',
{
}

/// The comparison form of an ASCII fingerprint, spelled out: colons
/// removed and `a` to `z` uppercased.
pub open spec fn ascii_normal_form(value: Seq<char>) -> Seq<char> {
    without_colons(value).map_values(|c: char| ascii_upper(c))
}

/// The comparison form of an ASCII fingerprint is ASCII, has no colons, and
/// is its own comparison form: normalizing a normalized fingerprint changes
/// nothing.
pub proof fn law_normalized_fingerprint_is_stable(value: Seq<char>)
    requires
        is_ascii_text(value),
    ensures
        !ascii_normal_form(value).contains(':'),
        is_ascii_text(ascii_normal_form(value)),
        ascii_normal_form(ascii_normal_form(value)) == ascii_normal_form(value),
{
    lemma_without_colons_keeps(value);
    let bare = without_colons(value);
    let norm = ascii_normal_form(value);
    assert forall|i: int| 0 <= i < bare.len() implies (#[trigger] bare[i] as u32) < 128 by {
        let j = choose|j: int| 0 <= j < value.len() && value[j] == bare[i];
        assert(value[j] == bare[i]);
    }
    assert forall|i: int| 0 <= i < norm.len() implies (#[trigger] norm[i] as u32) < 128
        && norm[i] != ':' by {
        lemma_ascii_upper(bare[i]);
    }
    assert(!norm.contains(':')) by {
        if norm.contains(':') {
            let j = choose|j: int| 0 <= j < norm.len() && norm[j] == ':';
            assert(norm[j] != ':');
        }
    }
    lemma_without_colons_keeps(norm);
    assert forall|i: int| 0 <= i < norm.len() implies #[trigger] ascii_upper(norm[i]) == norm[i] by {
        lemma_ascii_upper(bare[i]);
    }
    assert(ascii_normal_form(norm) =~= norm);
}

/// Whether a character is an ASCII hex digit.
pub open spec fn is_hex(c: char) -> bool {
    ('0' <= c && c <= '9') || ('a' <= c && c <= 'f') || ('A' <= c && c <= 'F')
}

/// Whether a normalized fingerprint is a SHA-256 digest: 64 hex digits.
pub open spec fn is_digest(s: Seq<char>) -> bool {
    s.len() == 64 && forall|i: int| 0 <= i < s.len() ==> is_hex(#[trigger] s[i])
}

fn check_digest(s: &str) -> (digest: bool)
    ensures
        digest == is_digest(s@),
{
    let len = s.unicode_len();
    if len != 64 {
        return false;
    }
    let mut i: usize = 0;
    while i < len
        invariant
            len == s@.len(),
            len == 64,
            i <= len,
            forall|j: int| 0 <= j < i ==> is_hex(#[trigger] s@[j]),
        decreases len - i,
    {
        let c = s.get_char(i);
        if !(('0' <= c && c <= '9') || ('a' <= c && c <= 'f') || ('A' <= c && c <= 'F')) {
            proof {
                assert(!is_hex(s@[i as int]));
            }
            return false;
        }
        i = i + 1;
    }
    true
}

/// The verdict on pinning a normalized fingerprint, given the normalized
/// form of the one the probe observed (when any): it must be a SHA-256
/// digest, an observation must exist, and the two must agree.
pub open spec fn spec_pin_verdict(normalized: Seq<char>, observed: Option<Seq<char>>) -> Result<
    (),
    Seq<char>,
> {
    if !is_digest(normalized) {
        Err("the fingerprint must be a SHA-256 digest (colons optional)"@)
    } else {
        match observed {
            None => Err("observe the host's fingerprint first; confirm pins only what the probe saw"@),
            Some(o) => if o != normalized {
                Err(
                    "the supplied fingerprint does not match the observed one; observe again if the host changed"@,
                )
            } else {
                Ok(())
            },
        }
    }
}

/// Decides whether a normalized fingerprint may be pinned (see
/// [`spec_pin_verdict`]); a refusal is an invalid request.
pub fn pin_verdict(normalized: &str, observed: Option<&str>) -> (verdict: Result<(), ProxmoxUseCaseError>)
    ensures
        match verdict {
            Ok(()) => spec_pin_verdict(normalized@, match observed {
                Some(o) => Some(o@),
                None => None,
            }) is Ok,
            Err(e) => spec_pin_verdict(normalized@, match observed {
                Some(o) => Some(o@),
                None => None,
            }) matches Err(detail) && e@ == ProxmoxErrorSpec::Invalid(detail),
        },
{
    if !check_digest(normalized) {
        return Err(
            ProxmoxUseCaseError::Invalid {
                detail: to_owned_string("the fingerprint must be a SHA-256 digest (colons optional)"),
            },
        );
    }
    match observed {
        None => Err(
            ProxmoxUseCaseError::Invalid {
                detail: to_owned_string(
                    "observe the host's fingerprint first; confirm pins only what the probe saw",
                ),
            },
        ),
        Some(o) => {
            if !text_eq(o, normalized) {
                Err(
                    ProxmoxUseCaseError::Invalid {
                        detail: to_owned_string(
                            "the supplied fingerprint does not match the observed one; observe again if the host changed",
                        ),
                    },
                )
            } else {
                Ok(())
            }
        },
    }
}

/// Decides whether a supplied fingerprint may be pinned on an account:
/// normalizes it and the account's observed one, then applies
/// [`pin_verdict`]. Answers the normalized fingerprint to pin.
pub fn confirmation_check(account: &ProxmoxAccount, fingerprint: &str) -> (checked: Result<
    String,
    ProxmoxUseCaseError,
>)
    ensures
        ({
            let normalized = spec_normalize_fingerprint(fingerprint@);
            let observed = match account.observed_fingerprint {
                Some(o) => Some(spec_normalize_fingerprint(o@)),
                None => None,
            };
            &&& checked is Ok <==> spec_pin_verdict(normalized, observed) is Ok
            &&& checked matches Ok(n) ==> (n@ == normalized && (account.observed_fingerprint matches Some(
                o,
            ) && spec_normalize_fingerprint(o@) == n@))
            &&& checked matches Err(e) ==> spec_pin_verdict(normalized, observed) matches Err(detail)
                && e@ == ProxmoxErrorSpec::Invalid(detail)
        }),
{
    let normalized = normalize_fingerprint(fingerprint);
    if !check_digest(normalized.as_str()) {
        return Err(
            ProxmoxUseCaseError::Invalid {
                detail: to_owned_string("the fingerprint must be a SHA-256 digest (colons optional)"),
            },
        );
    }
    let observed = match &account.observed_fingerprint {
        Some(o) => Some(normalize_fingerprint(o.as_str())),
        None => None,
    };
    let verdict = match &observed {
        Some(o) => pin_verdict(normalized.as_str(), Some(o.as_str())),
        None => pin_verdict(normalized.as_str(), None),
    };
    match verdict {
        Ok(()) => Ok(normalized),
        Err(e) => Err(e),
    }
}

/// The verdict on an account name: 1 to 128 characters.
pub fn validate_name(name: &str) -> (valid: Result<(), ProxmoxUseCaseError>)
    ensures
        valid is Ok <==> 1 <= name@.len() <= 128,
        valid matches Err(e) ==> e@ == ProxmoxErrorSpec::Invalid(
            "the name must be 1..=128 characters"@,
        ),
{
    let count = name.unicode_len();
    if count == 0 || count > 128 {
        return Err(
            ProxmoxUseCaseError::Invalid {
                detail: to_owned_string("the name must be 1..=128 characters"),
            },
        );
    }
    Ok(())
}

/// The verdict on a host: 1 to 253 characters, and a bare host or IP, not a
/// URL (no `://`).
pub open spec fn spec_validate_host(host: Seq<char>) -> Result<(), Seq<char>> {
    if !(1 <= host.len() <= 253) {
        Err("the host must be 1..=253 characters"@)
    } else if contains_text(host, "://"@) {
        Err("the host is a bare host or IP, not a URL"@)
    } else {
        Ok(())
    }
}

/// Validates an account host (see [`spec_validate_host`]).
pub fn validate_host(host: &str) -> (valid: Result<(), ProxmoxUseCaseError>)
    ensures
        valid is Ok <==> spec_validate_host(host@) is Ok,
        valid matches Err(e) ==> spec_validate_host(host@) matches Err(detail) && e@
            == ProxmoxErrorSpec::Invalid(detail),
{
    let count = host.unicode_len();
    if count == 0 || count > 253 {
        return Err(
            ProxmoxUseCaseError::Invalid {
                detail: to_owned_string("the host must be 1..=253 characters"),
            },
        );
    }
    if crate::text::contains_str(host, "://") {
        return Err(
            ProxmoxUseCaseError::Invalid {
                detail: to_owned_string("the host is a bare host or IP, not a URL"),
            },
        );
    }
    Ok(())
}

/// The verdict on an API token id: 1 to 128 characters, shaped
/// `user@realm!tokenname` (it holds both `@` and `!`).
pub open spec fn spec_validate_token_id(token_id: Seq<char>) -> Result<(), Seq<char>> {
    if !(1 <= token_id.len() <= 128) {
        Err("the token id must be 1..=128 characters"@)
    } else if !token_id.contains('@') || !token_id.contains('!') {
        Err("the token id must look like user@realm!tokenname"@)
    } else {
        Ok(())
    }
}

fn contains_char(s: &str, c: char) -> (found: bool)
    ensures
        found == s@.contains(c),
{
    crate::text::find_char(s, c).is_some()
}

/// Validates an API token id (see [`spec_validate_token_id`]).
pub fn validate_token_id(token_id: &str) -> (valid: Result<(), ProxmoxUseCaseError>)
    ensures
        valid is Ok <==> spec_validate_token_id(token_id@) is Ok,
        valid matches Err(e) ==> spec_validate_token_id(token_id@) matches Err(detail) && e@
            == ProxmoxErrorSpec::Invalid(detail),
{
    let count = token_id.unicode_len();
    if count == 0 || count > 128 {
        return Err(
            ProxmoxUseCaseError::Invalid {
                detail: to_owned_string("the token id must be 1..=128 characters"),
            },
        );
    }
    if !contains_char(token_id, '@') || !contains_char(token_id, '!') {
        return Err(
            ProxmoxUseCaseError::Invalid {
                detail: to_owned_string("the token id must look like user@realm!tokenname"),
            },
        );
    }
    Ok(())
}

/// Whether a storage failure names a taken name: it mentions `taken` or
/// `UNIQUE`.
pub fn is_taken(detail: &str) -> (taken: bool)
    ensures
        taken == (contains_text(detail@, "taken"@) || contains_text(detail@, "UNIQUE"@)),
{
    crate::text::contains_str(detail, "taken") || crate::text::contains_str(detail, "UNIQUE")
}

/// The verdict on a creation request, checked in order: the name, the host,
/// the token id, a port that is not zero when given, and a token secret of 1
/// to 256 bytes.
pub open spec fn spec_validate_new_account(
    new: NewProxmoxAccount,
    token_secret: Seq<char>,
) -> Result<(), Seq<char>> {
    if !(1 <= new.name@.len() <= 128) {
        Err("the name must be 1..=128 characters"@)
    } else if spec_validate_host(new.host@) is Err {
        spec_validate_host(new.host@)
    } else if spec_validate_token_id(new.token_id@) is Err {
        spec_validate_token_id(new.token_id@)
    } else if new.port == Some(0u16) {
        Err("the port must be 1..=65535"@)
    } else if !(1 <= utf8_len(token_secret) <= 256) {
        Err("the token secret must be 1..=256 characters"@)
    } else {
        Ok(())
    }
}

/// Validates a creation request (see [`spec_validate_new_account`]); a
/// refusal is an invalid request.
pub fn validate_new_account(new: &NewProxmoxAccount, token_secret: &str) -> (valid: Result<
    (),
    ProxmoxUseCaseError,
>)
    ensures
        valid is Ok <==> spec_validate_new_account(*new, token_secret@) is Ok,
        valid matches Err(e) ==> spec_validate_new_account(*new, token_secret@) matches Err(detail)
            && e@ == ProxmoxErrorSpec::Invalid(detail),
{
    match validate_name(new.name.as_str()) {
        Ok(()) => {},
        Err(e) => {
            return Err(e);
        },
    }
    match validate_host(new.host.as_str()) {
        Ok(()) => {},
        Err(e) => {
            return Err(e);
        },
    }
    match validate_token_id(new.token_id.as_str()) {
        Ok(()) => {},
        Err(e) => {
            return Err(e);
        },
    }
    if new.port == Some(0u16) {
        return Err(
            ProxmoxUseCaseError::Invalid { detail: to_owned_string("the port must be 1..=65535") },
        );
    }
    let n = crate::text::byte_len(token_secret);
    if n < 1 || n > 256 {
        return Err(
            ProxmoxUseCaseError::Invalid {
                detail: to_owned_string("the token secret must be 1..=256 characters"),
            },
        );
    }
    Ok(())
}

/// What a failed account creation becomes: a taken name is a conflict;
/// anything else a backend failure of the accounts port.
pub fn creation_failure(detail: String) -> (error: ProxmoxUseCaseError)
    ensures
        error@ == if contains_text(detail@, "taken"@) || contains_text(detail@, "UNIQUE"@) {
            ProxmoxErrorSpec::Conflict(detail@)
        } else {
            ProxmoxErrorSpec::Backend("accounts"@, detail@)
        },
{
    if is_taken(detail.as_str()) {
        ProxmoxUseCaseError::Conflict { detail }
    } else {
        ProxmoxUseCaseError::Backend { context: "accounts", detail }
    }
}

/// The failure reported when a secret write failed and so did the rollback
/// of the account: the orphan is named.
pub fn rollback_failure(error: &str, account_id: &str, rollback: &str) -> (failure: ProxmoxUseCaseError)
    ensures
        failure@ == ProxmoxErrorSpec::Backend(
            "credentials"@,
            "the secret write failed ("@ + error@ + ") and the rollback failed too: account "@
                + account_id@ + " lingers ("@ + rollback@ + ")"@,
        ),
{
    let mut detail = to_owned_string("the secret write failed (");
    detail.append(error);
    detail.append(") and the rollback failed too: account ");
    detail.append(account_id);
    detail.append(" lingers (");
    detail.append(rollback);
    detail.append(")");
    ProxmoxUseCaseError::Backend { context: "credentials", detail }
}

/// What a failed account read becomes: a detail mentioning `not found` is
/// the account missing; anything else a backend failure.
pub fn account_read_failure(id: &str, detail: String) -> (error: ProxmoxUseCaseError)
    ensures
        error@ == if contains_text(detail@, "not found"@) {
            ProxmoxErrorSpec::NotFound("account "@ + id@)
        } else {
            ProxmoxErrorSpec::Backend("accounts"@, detail@)
        },
{
    if crate::text::contains_str(detail.as_str(), "not found") {
        let mut what = to_owned_string("account ");
        what.append(id);
        ProxmoxUseCaseError::NotFound { what }
    } else {
        ProxmoxUseCaseError::Backend { context: "accounts", detail }
    }
}

/// The explicit-trust gate: without a pinned fingerprint no
/// credential-carrying call leaves Fleet.
pub fn trust_gate(account: &ProxmoxAccount) -> (gate: Result<(), ProxmoxUseCaseError>)
    ensures
        gate is Ok <==> account.fingerprint is Some,
        gate matches Err(e) ==> e@ == ProxmoxErrorSpec::UnconfirmedTrust(account.name@),
{
    if account.fingerprint.is_none() {
        return Err(ProxmoxUseCaseError::UnconfirmedTrust { account: account.name.clone() });
    }
    Ok(())
}

/// The account's token secret as the store answered it: a missing one is
/// named by the account.
pub fn secret_gate(account: &ProxmoxAccount, loaded: Option<String>) -> (secret: Result<
    String,
    ProxmoxUseCaseError,
>)
    ensures
        match secret {
            Ok(s) => loaded == Some(s),
            Err(e) => loaded is None && e@ == ProxmoxErrorSpec::NoSecret(account.name@),
        },
{
    match loaded {
        Some(s) => Ok(s),
        None => Err(ProxmoxUseCaseError::NoSecret { account: account.name.clone() }),
    }
}

/// The accounts of a page: after the cursor account (when given; a cursor
/// naming no account is refused), at most `limit` of them.
pub open spec fn spec_page(ids: Seq<Seq<char>>, limit: u32, after: Option<Seq<char>>) -> Result<
    (int, int),
    Seq<char>,
> {
    match after {
        None => Ok((0, if limit < ids.len() { limit as int } else { ids.len() as int })),
        Some(a) => if exists|i: int| 0 <= i < ids.len() && ids[i] == a {
            let p = choose|i: int| 0 <= i < ids.len() && ids[i] == a && forall|j: int| 0 <= j < i ==> ids[j] != a;
            let rest = ids.len() - (p + 1);
            Ok((p + 1, p + 1 + if limit < rest { limit as int } else { rest }))
        } else {
            Err("the cursor names no account in the list"@)
        },
    }
}

/// The account ids as values.
pub open spec fn account_ids(accounts: Seq<ProxmoxAccount>) -> Seq<Seq<char>> {
    accounts.map_values(|a: ProxmoxAccount| a.id@)
}

/// Cuts one page out of the newest-first account list (see [`spec_page`]):
/// the accounts from the first position after the cursor's, at most
/// `limit` of them.
pub fn page(accounts: Vec<ProxmoxAccount>, limit: u32, after_id: Option<&str>) -> (page: Result<
    Vec<ProxmoxAccount>,
    ProxmoxUseCaseError,
>)
    ensures
        match page {
            Ok(p) => spec_page(account_ids(accounts@), limit, match after_id {
                Some(a) => Some(a@),
                None => None,
            }) matches Ok((start, end)) && p@ == accounts@.subrange(start, end),
            Err(e) => spec_page(account_ids(accounts@), limit, match after_id {
                Some(a) => Some(a@),
                None => None,
            }) matches Err(detail) && e@ == ProxmoxErrorSpec::Invalid(detail),
        },
{
    let ghost ids = account_ids(accounts@);
    let total = accounts.len();
    let mut start: usize = 0;
    match after_id {
        Some(a) => match position(&accounts, a) {
            Some(p) => {
                proof {
                    let q = choose|i: int|
                        0 <= i < ids.len() && ids[i] == a@ && forall|j: int|
                            0 <= j < i ==> ids[j] != a@;
                    if q < p {
                        assert(ids[q] != a@);
                    }
                    if q > p {
                        assert(ids[p as int] != a@);
                    }
                }
                assert(p < total);
                start = p + 1;
            },
            None => {
                return Err(
                    ProxmoxUseCaseError::Invalid {
                        detail: to_owned_string("the cursor names no account in the list"),
                    },
                );
            },
        },
        None => {},
    }
    let rest = accounts.len() - start;
    let take: usize = if (limit as usize) < rest {
        limit as usize
    } else {
        rest
    };
    let mut head = accounts;
    let mut tail = head.split_off(start);
    tail.truncate(take);
    proof {
        assert(tail@ =~= accounts@.subrange(start as int, start + take));
    }
    Ok(tail)
}

fn position(accounts: &Vec<ProxmoxAccount>, id: &str) -> (found: Option<usize>)
    ensures
        match found {
            Some(p) => p < accounts@.len() && account_ids(accounts@)[p as int] == id@ && forall|j: int|
                0 <= j < p ==> account_ids(accounts@)[j] != id@,
            None => forall|j: int| 0 <= j < accounts@.len() ==> account_ids(accounts@)[j] != id@,
        },
{
    let ghost ids = account_ids(accounts@);
    let mut p: usize = 0;
    while p < accounts.len()
        invariant
            ids == account_ids(accounts@),
            p <= accounts@.len(),
            forall|j: int| 0 <= j < p ==> #[trigger] ids[j] != id@,
        decreases accounts@.len() - p,
    {
        proof {
            assert(ids[p as int] == accounts@[p as int].id@);
        }
        if text_eq(accounts[p].id.as_str(), id) {
            return Some(p);
        }
        p = p + 1;
    }
    None
}

/// The resources with their provenance set: the account, the version, and
/// the observation time.
pub open spec fn stamped(r: ProxmoxResource, account_id: Seq<char>, version: Seq<char>, now: i64) -> bool {
    r.account_id@ == account_id && r.pve_version@ == version && r.observed_at == now
}

/// Enriches a raw discovery with authoritative provenance: every resource
/// carries the account, the version and the time; the snapshot carries the
/// warnings and the reported count as the source gave them.
pub fn enrich_discovery(account_id: &str, raw: RawDiscovery, now: i64) -> (discovery: ProxmoxDiscovery)
    ensures
        discovery.account_id@ == account_id@,
        discovery.pve_version@ == raw.version@,
        discovery.warnings@ == raw.warnings@,
        discovery.reported_count == raw.reported_count,
        discovery.observed_at == now,
        discovery.resources@.len() == raw.resources@.len(),
        forall|i: int|
            0 <= i < discovery.resources@.len() ==> {
                let r = #[trigger] discovery.resources@[i];
                let s = raw.resources@[i];
                &&& stamped(r, account_id@, raw.version@, now)
                &&& r.kind == s.kind
                &&& r.id == s.id
                &&& r.node == s.node
                &&& r.vmid == s.vmid
                &&& r.name == s.name
                &&& r.status == s.status
            },
{
    let mut resources: Vec<ProxmoxResource> = Vec::new();
    let mut i: usize = 0;
    while i < raw.resources.len()
        invariant
            i <= raw.resources@.len(),
            resources@.len() == i,
            forall|k: int|
                0 <= k < i ==> {
                    let r = #[trigger] resources@[k];
                    let s = raw.resources@[k];
                    &&& stamped(r, account_id@, raw.version@, now)
                    &&& r.kind == s.kind
                    &&& r.id == s.id
                    &&& r.node == s.node
                    &&& r.vmid == s.vmid
                    &&& r.name == s.name
                    &&& r.status == s.status
                },
        decreases raw.resources@.len() - i,
    {
        let s = &raw.resources[i];
        resources.push(
            ProxmoxResource {
                kind: s.kind.clone(),
                id: s.id.clone(),
                node: s.node.clone(),
                vmid: s.vmid,
                name: s.name.clone(),
                status: s.status.clone(),
                account_id: to_owned_string(account_id),
                pve_version: raw.version.clone(),
                observed_at: now,
            },
        );
        i = i + 1;
    }
    ProxmoxDiscovery {
        account_id: to_owned_string(account_id),
        pve_version: raw.version,
        resources,
        warnings: raw.warnings,
        reported_count: raw.reported_count,
        observed_at: now,
    }
}

/// The MACs a machine has recorded: the values of its `net` facts whose
/// name starts with `mac`, in order.
pub open spec fn machine_macs(facts: Seq<crate::machine::CapabilityFactView>) -> Seq<Seq<char>>
    decreases facts.len(),
{
    if facts.len() == 0 {
        Seq::empty()
    } else {
        let rest = machine_macs(facts.drop_last());
        let f = facts.last();
        if f.namespace@ == "net"@ && has_prefix(f.name@, "mac"@) && f.value is Some {
            rest.push(f.value->0@)
        } else {
            rest
        }
    }
}

/// The MACs the agent's interfaces carry, in order.
pub open spec fn interface_macs(interfaces: Seq<ProviderInterface>) -> Seq<Seq<char>>
    decreases interfaces.len(),
{
    if interfaces.len() == 0 {
        Seq::empty()
    } else {
        let rest = interface_macs(interfaces.drop_last());
        match interfaces.last().mac {
            Some(m) => rest.push(m@),
            None => rest,
        }
    }
}

/// The addresses the agent's interfaces carry, interface by interface.
pub open spec fn interface_addresses(interfaces: Seq<ProviderInterface>) -> Seq<Seq<char>>
    decreases interfaces.len(),
{
    if interfaces.len() == 0 {
        Seq::empty()
    } else {
        interface_addresses(interfaces.drop_last()) + crate::machine::labels(
            interfaces.last().addresses@,
        )
    }
}

/// The agent's interfaces, or none without an agent.
pub open spec fn agent_interfaces(guest: ProviderGuest) -> Seq<ProviderInterface> {
    match guest.agent {
        Some(a) => a.interfaces@,
        None => Seq::empty(),
    }
}

/// The guest's MAC evidence: the agent interfaces' MACs, then the config's.
pub open spec fn guest_macs(guest: ProviderGuest) -> Seq<Seq<char>> {
    interface_macs(agent_interfaces(guest)) + crate::machine::labels(guest.macs@)
}

/// The hosts of a machine view's endpoint references, in order.
pub open spec fn endpoint_hosts(endpoints: Seq<crate::machine::Endpoint>) -> Seq<Seq<char>>
    decreases endpoints.len(),
{
    if endpoints.len() == 0 {
        Seq::empty()
    } else {
        let rest = endpoint_hosts(endpoints.drop_last());
        match spec_reference_host(endpoints.last().reference@) {
            Some(h) => rest.push(h),
            None => rest,
        }
    }
}

/// Whether a text equals, ignoring ASCII case, some text of a list.
pub open spec fn matches_any(list: Seq<Seq<char>>, value: Seq<char>) -> bool {
    exists|i: int| 0 <= i < list.len() && eq_ignore_case(#[trigger] list[i], value)
}

/// The first text of a list that matches some text of another, ignoring
/// ASCII case.
pub open spec fn first_match(candidates: Seq<Seq<char>>, against: Seq<Seq<char>>) -> Option<
    Seq<char>,
>
    decreases candidates.len(),
{
    if candidates.len() == 0 {
        None
    } else if matches_any(against, candidates[0]) {
        Some(candidates[0])
    } else {
        first_match(candidates.drop_first(), against)
    }
}

/// The association evidence between one guest and one machine view: MAC
/// evidence outranks address evidence outranks name evidence, and within
/// each the first match wins; the answer is the kind and the evidence.
pub open spec fn spec_association(guest: ProviderGuest, view: MachineView) -> Option<
    (AssociationKind, Seq<char>),
> {
    match first_match(guest_macs(guest), machine_macs(view.capabilities@)) {
        Some(mac) => Some((AssociationKind::MacMatch, mac)),
        None => match first_match(
            interface_addresses(agent_interfaces(guest)),
            endpoint_hosts(view.endpoints@),
        ) {
            Some(address) => Some((AssociationKind::AddressMatch, address)),
            None => match guest.name {
                Some(n) => if eq_ignore_case(view.name@, n@) {
                    Some((AssociationKind::NameMatch, n@))
                } else {
                    None
                },
                None => None,
            },
        },
    }
}

/// Whether a capability fact is a MAC fact of a machine: `net/mac*` with a
/// value.
pub open spec fn is_mac_fact(f: crate::machine::CapabilityFactView) -> bool {
    f.namespace@ == "net"@ && has_prefix(f.name@, "mac"@) && f.value is Some
}

/// Whether an interface carries a MAC.
pub open spec fn carries_mac(interface: ProviderInterface, mac: Seq<char>) -> bool {
    interface.mac matches Some(m) && m@ == mac
}

/// Whether a MAC is one of a guest's: carried by an interface its agent
/// reports, or listed in its configuration.
pub open spec fn is_guest_mac(guest: ProviderGuest, mac: Seq<char>) -> bool {
    (exists|i: int| 0 <= i < guest.macs@.len() && (#[trigger] guest.macs@[i])@ == mac) || (exists|
        i: int,
    |
        0 <= i < agent_interfaces(guest).len() && carries_mac(#[trigger] agent_interfaces(guest)[i], mac))
}

proof fn lemma_machine_macs_members(facts: Seq<crate::machine::CapabilityFactView>)
    ensures
        forall|j: int|
            0 <= j < facts.len() && is_mac_fact(#[trigger] facts[j]) ==> machine_macs(facts).contains(
                facts[j].value->0@,
            ),
        forall|t: int|
            #![trigger machine_macs(facts)[t]]
            0 <= t < machine_macs(facts).len() ==> exists|k: int|
                0 <= k < facts.len() && is_mac_fact(#[trigger] facts[k]) && facts[k].value->0@
                    == machine_macs(facts)[t],
    decreases facts.len(),
{
    if facts.len() > 0 {
        let init = facts.drop_last();
        lemma_machine_macs_members(init);
        let rest = machine_macs(init);
        let all = machine_macs(facts);
        assert forall|j: int| 0 <= j < facts.len() && is_mac_fact(#[trigger] facts[j]) implies all.contains(
            facts[j].value->0@,
        ) by {
            if j < init.len() {
                assert(init[j] == facts[j]);
                let t = choose|t: int| 0 <= t < rest.len() && rest[t] == facts[j].value->0@;
                assert(all[t] == rest[t]);
            } else {
                assert(facts[j] == facts.last());
                assert(all[all.len() - 1] == facts[j].value->0@);
            }
        }
        assert forall|t: int| #![trigger all[t]] 0 <= t < all.len() implies exists|k: int|
            0 <= k < facts.len() && is_mac_fact(#[trigger] facts[k]) && facts[k].value->0@ == all[t] by {
            if t < rest.len() {
                assert(all[t] == rest[t]);
                let k = choose|k: int|
                    0 <= k < init.len() && is_mac_fact(#[trigger] init[k]) && init[k].value->0@
                        == rest[t];
                assert(facts[k] == init[k]);
            } else {
                assert(facts[facts.len() - 1] == facts.last());
            }
        }
    }
}

proof fn lemma_interface_macs_members(interfaces: Seq<ProviderInterface>)
    ensures
        forall|i: int|
            0 <= i < interfaces.len() && (#[trigger] interfaces[i]).mac is Some ==> interface_macs(
                interfaces,
            ).contains(interfaces[i].mac->0@),
        forall|t: int|
            #![trigger interface_macs(interfaces)[t]]
            0 <= t < interface_macs(interfaces).len() ==> exists|i: int|
                0 <= i < interfaces.len() && carries_mac(#[trigger] interfaces[i], interface_macs(interfaces)[t]),
    decreases interfaces.len(),
{
    if interfaces.len() > 0 {
        let init = interfaces.drop_last();
        lemma_interface_macs_members(init);
        let rest = interface_macs(init);
        let all = interface_macs(interfaces);
        assert forall|i: int|
            0 <= i < interfaces.len() && (#[trigger] interfaces[i]).mac is Some implies all.contains(
            interfaces[i].mac->0@,
        ) by {
            if i < init.len() {
                assert(init[i] == interfaces[i]);
                let t = choose|t: int| 0 <= t < rest.len() && rest[t] == interfaces[i].mac->0@;
                assert(all[t] == rest[t]);
            } else {
                assert(interfaces[i] == interfaces.last());
                assert(all[all.len() - 1] == interfaces[i].mac->0@);
            }
        }
        assert forall|t: int| #![trigger all[t]] 0 <= t < all.len() implies exists|i: int|
            0 <= i < interfaces.len() && carries_mac(#[trigger] interfaces[i], all[t]) by {
            if t < rest.len() {
                assert(all[t] == rest[t]);
                let i = choose|i: int|
                    0 <= i < init.len() && carries_mac(#[trigger] init[i], rest[t]);
                assert(interfaces[i] == init[i]);
            } else {
                let last = interfaces.len() - 1;
                assert(interfaces[last] == interfaces.last());
                assert(interfaces.last().mac is Some);
                assert(all[t] == interfaces[last].mac->0@);
            }
        }
    }
}

proof fn lemma_first_match_found(candidates: Seq<Seq<char>>, against: Seq<Seq<char>>, a: int)
    requires
        0 <= a < candidates.len(),
        matches_any(against, candidates[a]),
    ensures
        first_match(candidates, against) matches Some(c) && candidates.contains(c) && matches_any(
            against,
            c,
        ),
    decreases candidates.len(),
{
    if !matches_any(against, candidates[0]) {
        assert(a > 0);
        assert(candidates.drop_first()[a - 1] == candidates[a]);
        lemma_first_match_found(candidates.drop_first(), against, a - 1);
        let c = first_match(candidates.drop_first(), against)->0;
        let t = choose|t: int| 0 <= t < candidates.drop_first().len() && candidates.drop_first()[t] == c;
        assert(candidates[t + 1] == c);
    } else {
        assert(candidates[0] == candidates[0]);
    }
}

/// A guest one of whose MACs (from its agent's interfaces or its
/// configuration, so an LXC guest without an agent too) equals, ignoring
/// ASCII case, a MAC fact (`net/mac*`) of a machine is associated with that
/// machine by MAC, whatever other evidence there is; and the evidence named
/// is a MAC of the guest equal, ignoring ASCII case, to a MAC fact of the
/// machine.
pub proof fn law_shared_mac_is_mac_evidence(
    guest: ProviderGuest,
    view: MachineView,
    mac: Seq<char>,
    j: int,
)
    requires
        is_guest_mac(guest, mac),
        0 <= j < view.capabilities@.len(),
        is_mac_fact(view.capabilities@[j]),
        eq_ignore_case(mac, view.capabilities@[j].value->0@),
    ensures
        spec_association(guest, view) matches Some((kind, evidence)) && kind
            == AssociationKind::MacMatch && is_guest_mac(guest, evidence) && exists|k: int|
            0 <= k < view.capabilities@.len() && is_mac_fact(#[trigger] view.capabilities@[k])
                && eq_ignore_case(evidence, view.capabilities@[k].value->0@),
{
    let facts = view.capabilities@;
    let interfaces = agent_interfaces(guest);
    let theirs = machine_macs(facts);
    let ours = guest_macs(guest);
    let config = crate::machine::labels(guest.macs@);
    let front = interface_macs(interfaces);
    lemma_machine_macs_members(facts);
    lemma_interface_macs_members(interfaces);
    assert(ours == front + config);
    let t = choose|t: int| 0 <= t < theirs.len() && theirs[t] == facts[j].value->0@;
    let a: int = if exists|i: int| 0 <= i < guest.macs@.len() && (#[trigger] guest.macs@[i])@ == mac {
        let i = choose|i: int| 0 <= i < guest.macs@.len() && (#[trigger] guest.macs@[i])@ == mac;
        assert(ours[front.len() + i] == config[i]);
        front.len() + i
    } else {
        let i = choose|i: int|
            0 <= i < interfaces.len() && carries_mac(#[trigger] interfaces[i], mac);
        let u = choose|u: int| 0 <= u < front.len() && front[u] == interfaces[i].mac->0@;
        assert(ours[u] == front[u]);
        u
    };
    assert(ours[a] == mac);
    assert(eq_ignore_case(theirs[t], ours[a]));
    lemma_first_match_found(ours, theirs, a);
    let c = first_match(ours, theirs)->0;
    let p = choose|p: int| 0 <= p < ours.len() && ours[p] == c;
    if p < front.len() {
        assert(ours[p] == front[p]);
        let i = choose|i: int|
            0 <= i < interfaces.len() && carries_mac(#[trigger] interfaces[i], front[p]);
        assert(is_guest_mac(guest, c));
    } else {
        assert(ours[p] == config[p - front.len()]);
        assert(guest.macs@[p - front.len()]@ == c);
        assert(is_guest_mac(guest, c));
    }
    let q = choose|q: int| 0 <= q < theirs.len() && eq_ignore_case(#[trigger] theirs[q], c);
    let k = choose|k: int|
        0 <= k < facts.len() && is_mac_fact(#[trigger] facts[k]) && facts[k].value->0@ == theirs[q];
    assert(eq_ignore_case(c, facts[k].value->0@));
}

/// Whether a guest and a machine share a MAC: one of the guest's equals,
/// ignoring ASCII case, one of the machine's MAC facts.
pub open spec fn shares_mac(guest: ProviderGuest, view: MachineView) -> bool {
    exists|mac: Seq<char>, j: int|
        #[trigger] is_guest_mac(guest, mac) && 0 <= j < view.capabilities@.len() && is_mac_fact(
            #[trigger] view.capabilities@[j],
        ) && eq_ignore_case(mac, view.capabilities@[j].value->0@)
}

/// Whether an interface carries an address.
pub open spec fn carries_address(interface: ProviderInterface, address: Seq<char>) -> bool {
    exists|k: int| 0 <= k < interface.addresses@.len() && (#[trigger] interface.addresses@[k])@ == address
}

/// Whether an address is one the guest's agent reports on an interface.
pub open spec fn is_guest_address(guest: ProviderGuest, address: Seq<char>) -> bool {
    exists|i: int|
        0 <= i < agent_interfaces(guest).len() && carries_address(
            #[trigger] agent_interfaces(guest)[i],
            address,
        )
}

/// Whether a host is the host of one of a machine's endpoint references.
pub open spec fn is_endpoint_host(view: MachineView, host: Seq<char>) -> bool {
    exists|j: int|
        0 <= j < view.endpoints@.len() && spec_reference_host(
            (#[trigger] view.endpoints@[j]).reference@,
        ) == Some(host)
}

/// Whether a guest address equals, ignoring ASCII case, an endpoint host of
/// the machine.
pub open spec fn shares_address(guest: ProviderGuest, view: MachineView) -> bool {
    exists|address: Seq<char>, host: Seq<char>|
        #[trigger] is_guest_address(guest, address) && #[trigger] is_endpoint_host(view, host)
            && eq_ignore_case(address, host)
}

proof fn lemma_first_match_spec(candidates: Seq<Seq<char>>, against: Seq<Seq<char>>)
    ensures
        first_match(candidates, against) matches Some(c) ==> candidates.contains(c) && matches_any(
            against,
            c,
        ),
        first_match(candidates, against) is None ==> forall|a: int|
            0 <= a < candidates.len() ==> !matches_any(against, #[trigger] candidates[a]),
    decreases candidates.len(),
{
    if candidates.len() > 0 {
        let tail = candidates.drop_first();
        lemma_first_match_spec(tail, against);
        if !matches_any(against, candidates[0]) {
            if first_match(tail, against) is Some {
                let c = first_match(tail, against)->0;
                let t = choose|t: int| 0 <= t < tail.len() && tail[t] == c;
                assert(candidates[t + 1] == c);
            } else {
                assert forall|a: int| 0 <= a < candidates.len() implies !matches_any(
                    against,
                    #[trigger] candidates[a],
                ) by {
                    if a > 0 {
                        assert(tail[a - 1] == candidates[a]);
                    }
                }
            }
        } else {
            assert(candidates.contains(candidates[0]));
        }
    }
}

proof fn lemma_interface_addresses_members(interfaces: Seq<ProviderInterface>)
    ensures
        forall|i: int, a: Seq<char>|
            0 <= i < interfaces.len() && #[trigger] carries_address(interfaces[i], a)
                ==> interface_addresses(interfaces).contains(a),
        forall|t: int|
            #![trigger interface_addresses(interfaces)[t]]
            0 <= t < interface_addresses(interfaces).len() ==> exists|i: int|
                0 <= i < interfaces.len() && carries_address(
                    #[trigger] interfaces[i],
                    interface_addresses(interfaces)[t],
                ),
    decreases interfaces.len(),
{
    if interfaces.len() > 0 {
        let init = interfaces.drop_last();
        lemma_interface_addresses_members(init);
        let rest = interface_addresses(init);
        let tail = crate::machine::labels(interfaces.last().addresses@);
        let all = interface_addresses(interfaces);
        assert(all == rest + tail);
        assert forall|i: int, a: Seq<char>|
            0 <= i < interfaces.len() && #[trigger] carries_address(interfaces[i], a) implies all.contains(
            a,
        ) by {
            if i < init.len() {
                assert(init[i] == interfaces[i]);
                let t = choose|t: int| 0 <= t < rest.len() && rest[t] == a;
                assert(all[t] == rest[t]);
            } else {
                assert(interfaces[i] == interfaces.last());
                let k = choose|k: int|
                    0 <= k < interfaces[i].addresses@.len() && (#[trigger] interfaces[i].addresses@[k])@
                        == a;
                assert(tail[k] == a);
                assert(all[rest.len() + k] == tail[k]);
            }
        }
        assert forall|t: int| #![trigger all[t]] 0 <= t < all.len() implies exists|i: int|
            0 <= i < interfaces.len() && carries_address(#[trigger] interfaces[i], all[t]) by {
            if t < rest.len() {
                assert(all[t] == rest[t]);
                let i = choose|i: int| 0 <= i < init.len() && carries_address(#[trigger] init[i], rest[t]);
                assert(interfaces[i] == init[i]);
            } else {
                let last = interfaces.len() - 1;
                assert(interfaces[last] == interfaces.last());
                let k = t - rest.len();
                assert(all[t] == tail[k]);
                assert(interfaces[last].addresses@[k]@ == all[t]);
                assert(carries_address(interfaces[last], all[t]));
            }
        }
    }
}

proof fn lemma_endpoint_hosts_members(endpoints: Seq<crate::machine::Endpoint>)
    ensures
        forall|j: int|
            0 <= j < endpoints.len() && spec_reference_host((#[trigger] endpoints[j]).reference@)
                is Some ==> endpoint_hosts(endpoints).contains(
                spec_reference_host(endpoints[j].reference@)->0,
            ),
        forall|t: int|
            #![trigger endpoint_hosts(endpoints)[t]]
            0 <= t < endpoint_hosts(endpoints).len() ==> exists|j: int|
                0 <= j < endpoints.len() && spec_reference_host(
                    (#[trigger] endpoints[j]).reference@,
                ) == Some(endpoint_hosts(endpoints)[t]),
    decreases endpoints.len(),
{
    if endpoints.len() > 0 {
        let init = endpoints.drop_last();
        lemma_endpoint_hosts_members(init);
        let rest = endpoint_hosts(init);
        let all = endpoint_hosts(endpoints);
        assert forall|j: int|
            0 <= j < endpoints.len() && spec_reference_host((#[trigger] endpoints[j]).reference@)
                is Some implies all.contains(spec_reference_host(endpoints[j].reference@)->0) by {
            if j < init.len() {
                assert(init[j] == endpoints[j]);
                let t = choose|t: int|
                    0 <= t < rest.len() && rest[t] == spec_reference_host(endpoints[j].reference@)->0;
                assert(all[t] == rest[t]);
            } else {
                assert(endpoints[j] == endpoints.last());
                assert(all[all.len() - 1] == spec_reference_host(endpoints[j].reference@)->0);
            }
        }
        assert forall|t: int| #![trigger all[t]] 0 <= t < all.len() implies exists|j: int|
            0 <= j < endpoints.len() && spec_reference_host((#[trigger] endpoints[j]).reference@)
                == Some(all[t]) by {
            if t < rest.len() {
                assert(all[t] == rest[t]);
                let j = choose|j: int|
                    0 <= j < init.len() && spec_reference_host((#[trigger] init[j]).reference@)
                        == Some(rest[t]);
                assert(endpoints[j] == init[j]);
            } else {
                let last = endpoints.len() - 1;
                assert(endpoints[last] == endpoints.last());
            }
        }
    }
}

/// How a guest is associated with a machine, over all inputs: by MAC
/// whenever they share a MAC (see [`law_shared_mac_is_mac_evidence`]);
/// otherwise by address whenever an address the guest's agent reports
/// equals, ignoring ASCII case, a host of the machine's endpoints, with that
/// address as evidence; otherwise by name when the guest's name equals the
/// machine's, ignoring ASCII case; otherwise not at all.
pub proof fn law_association_follows_the_evidence(guest: ProviderGuest, view: MachineView)
    ensures
        shares_mac(guest, view) ==> (spec_association(guest, view) matches Some((kind, _)) && kind
            == AssociationKind::MacMatch),
        !shares_mac(guest, view) && shares_address(guest, view) ==> (spec_association(guest, view) matches Some(
            (kind, address),
        ) && kind == AssociationKind::AddressMatch && is_guest_address(guest, address) && exists|
            host: Seq<char>,
        | #[trigger] is_endpoint_host(view, host) && eq_ignore_case(address, host)),
        !shares_mac(guest, view) && !shares_address(guest, view) ==> spec_association(guest, view)
            == (match guest.name {
            Some(n) => if eq_ignore_case(view.name@, n@) {
                Some((AssociationKind::NameMatch, n@))
            } else {
                None
            },
            None => None,
        }),
{
    let facts = view.capabilities@;
    let interfaces = agent_interfaces(guest);
    let theirs = machine_macs(facts);
    let ours = guest_macs(guest);
    let config = crate::machine::labels(guest.macs@);
    let front = interface_macs(interfaces);
    lemma_machine_macs_members(facts);
    lemma_interface_macs_members(interfaces);
    lemma_first_match_spec(ours, theirs);
    if shares_mac(guest, view) {
        let (mac, j) = choose|mac: Seq<char>, j: int|
            #[trigger] is_guest_mac(guest, mac) && 0 <= j < view.capabilities@.len() && is_mac_fact(
                #[trigger] view.capabilities@[j],
            ) && eq_ignore_case(mac, view.capabilities@[j].value->0@);
        law_shared_mac_is_mac_evidence(guest, view, mac, j);
    } else {
        assert(ours == front + config);
        if first_match(ours, theirs) is Some {
            let c = first_match(ours, theirs)->0;
            let p = choose|p: int| 0 <= p < ours.len() && ours[p] == c;
            if p < front.len() {
                assert(ours[p] == front[p]);
                let i = choose|i: int| 0 <= i < interfaces.len() && carries_mac(#[trigger] interfaces[i], front[p]);
                assert(is_guest_mac(guest, c));
            } else {
                assert(ours[p] == config[p - front.len()]);
                assert(guest.macs@[p - front.len()]@ == c);
                assert(is_guest_mac(guest, c));
            }
            let q = choose|q: int| 0 <= q < theirs.len() && eq_ignore_case(#[trigger] theirs[q], c);
            let k = choose|k: int|
                0 <= k < facts.len() && is_mac_fact(#[trigger] facts[k]) && facts[k].value->0@
                    == theirs[q];
            assert(shares_mac(guest, view));
        }
        let addresses = interface_addresses(interfaces);
        let hosts = endpoint_hosts(view.endpoints@);
        lemma_interface_addresses_members(interfaces);
        lemma_endpoint_hosts_members(view.endpoints@);
        lemma_first_match_spec(addresses, hosts);
        if shares_address(guest, view) {
            let (a, h) = choose|a: Seq<char>, h: Seq<char>|
                #[trigger] is_guest_address(guest, a) && #[trigger] is_endpoint_host(view, h)
                    && eq_ignore_case(a, h);
            let i = choose|i: int| 0 <= i < interfaces.len() && carries_address(#[trigger] interfaces[i], a);
            let pa = choose|t: int| 0 <= t < addresses.len() && addresses[t] == a;
            let j = choose|j: int|
                0 <= j < view.endpoints@.len() && spec_reference_host(
                    (#[trigger] view.endpoints@[j]).reference@,
                ) == Some(h);
            let ph = choose|t: int| 0 <= t < hosts.len() && hosts[t] == h;
            assert(eq_ignore_case(hosts[ph], addresses[pa]));
            assert(matches_any(hosts, addresses[pa]));
            let c = first_match(addresses, hosts)->0;
            let t = choose|t: int| 0 <= t < addresses.len() && addresses[t] == c;
            let i2 = choose|i2: int| 0 <= i2 < interfaces.len() && carries_address(#[trigger] interfaces[i2], addresses[t]);
            assert(is_guest_address(guest, c));
            let q = choose|q: int| 0 <= q < hosts.len() && eq_ignore_case(#[trigger] hosts[q], c);
            let j2 = choose|j2: int|
                0 <= j2 < view.endpoints@.len() && spec_reference_host(
                    (#[trigger] view.endpoints@[j2]).reference@,
                ) == Some(hosts[q]);
            assert(is_endpoint_host(view, hosts[q]));
            assert(eq_ignore_case(c, hosts[q]));
        } else {
            if first_match(addresses, hosts) is Some {
                let c = first_match(addresses, hosts)->0;
                let t = choose|t: int| 0 <= t < addresses.len() && addresses[t] == c;
                let i2 = choose|i2: int| 0 <= i2 < interfaces.len() && carries_address(#[trigger] interfaces[i2], addresses[t]);
                assert(is_guest_address(guest, c));
                let q = choose|q: int| 0 <= q < hosts.len() && eq_ignore_case(#[trigger] hosts[q], c);
                let j2 = choose|j2: int|
                    0 <= j2 < view.endpoints@.len() && spec_reference_host(
                        (#[trigger] view.endpoints@[j2]).reference@,
                    ) == Some(hosts[q]);
                assert(is_endpoint_host(view, hosts[q]));
                assert(shares_address(guest, view));
            }
        }
    }
}

fn collect_machine_macs(facts: &Vec<crate::machine::CapabilityFactView>) -> (macs: Vec<String>)
    ensures
        crate::machine::labels(macs@) == machine_macs(facts@),
{
    let mut out: Vec<String> = Vec::new();
    let mut i: usize = 0;
    proof {
        assert(facts@.subrange(0, 0) =~= Seq::<crate::machine::CapabilityFactView>::empty());
        assert(crate::machine::labels(out@) =~= Seq::<Seq<char>>::empty());
    }
    while i < facts.len()
        invariant
            i <= facts@.len(),
            crate::machine::labels(out@) == machine_macs(facts@.subrange(0, i as int)),
        decreases facts@.len() - i,
    {
        let ghost pre = facts@.subrange(0, i + 1);
        proof {
            assert(pre.drop_last() =~= facts@.subrange(0, i as int));
            assert(pre.last() == facts@[i as int]);
            reveal_strlit("net");
            reveal_strlit("mac");
        }
        let f = &facts[i];
        if text_eq(f.namespace.as_str(), "net") && crate::text::starts_with(f.name.as_str(), "mac") {
            match &f.value {
                Some(v) => {
                    let ghost before = crate::machine::labels(out@);
                    out.push(v.clone());
                    proof {
                        assert(crate::machine::labels(out@) =~= before.push(v@));
                    }
                },
                None => {},
            }
        }
        i = i + 1;
    }
    proof {
        assert(facts@.subrange(0, i as int) =~= facts@);
    }
    out
}

fn collect_guest_macs(guest: &ProviderGuest) -> (macs: Vec<String>)
    ensures
        crate::machine::labels(macs@) == guest_macs(*guest),
{
    let mut out: Vec<String> = Vec::new();
    proof {
        assert(crate::machine::labels(out@) =~= Seq::<Seq<char>>::empty());
    }
    match &guest.agent {
        Some(agent) => {
            let interfaces = &agent.interfaces;
            let mut i: usize = 0;
            proof {
                assert(interfaces@.subrange(0, 0) =~= Seq::<ProviderInterface>::empty());
            }
            while i < interfaces.len()
                invariant
                    i <= interfaces@.len(),
                    crate::machine::labels(out@) == interface_macs(interfaces@.subrange(0, i as int)),
                decreases interfaces@.len() - i,
            {
                let ghost pre = interfaces@.subrange(0, i + 1);
                proof {
                    assert(pre.drop_last() =~= interfaces@.subrange(0, i as int));
                    assert(pre.last() == interfaces@[i as int]);
                }
                match &interfaces[i].mac {
                    Some(m) => {
                        let ghost before = crate::machine::labels(out@);
                        out.push(m.clone());
                        proof {
                            assert(crate::machine::labels(out@) =~= before.push(m@));
                        }
                    },
                    None => {},
                }
                i = i + 1;
            }
            proof {
                assert(interfaces@.subrange(0, i as int) =~= interfaces@);
            }
        },
        None => {},
    }
    let ghost first = crate::machine::labels(out@);
    let mut k: usize = 0;
    while k < guest.macs.len()
        invariant
            k <= guest.macs@.len(),
            crate::machine::labels(out@) == first + crate::machine::labels(guest.macs@).subrange(
                0,
                k as int,
            ),
        decreases guest.macs@.len() - k,
    {
        let ghost before = crate::machine::labels(out@);
        out.push(guest.macs[k].clone());
        proof {
            assert(crate::machine::labels(out@) =~= before.push(guest.macs@[k as int]@));
            assert(crate::machine::labels(guest.macs@).subrange(0, k + 1) =~= crate::machine::labels(
                guest.macs@,
            ).subrange(0, k as int).push(guest.macs@[k as int]@));
        }
        k = k + 1;
    }
    proof {
        assert(crate::machine::labels(guest.macs@).subrange(0, k as int) =~= crate::machine::labels(
            guest.macs@,
        ));
    }
    out
}

fn collect_addresses(guest: &ProviderGuest) -> (addresses: Vec<String>)
    ensures
        crate::machine::labels(addresses@) == interface_addresses(agent_interfaces(*guest)),
{
    let mut out: Vec<String> = Vec::new();
    proof {
        assert(crate::machine::labels(out@) =~= Seq::<Seq<char>>::empty());
    }
    match &guest.agent {
        Some(agent) => {
            let interfaces = &agent.interfaces;
            let mut i: usize = 0;
            proof {
                assert(interfaces@.subrange(0, 0) =~= Seq::<ProviderInterface>::empty());
            }
            while i < interfaces.len()
                invariant
                    i <= interfaces@.len(),
                    crate::machine::labels(out@) == interface_addresses(
                        interfaces@.subrange(0, i as int),
                    ),
                decreases interfaces@.len() - i,
            {
                let ghost pre = interfaces@.subrange(0, i + 1);
                let ghost before = crate::machine::labels(out@);
                proof {
                    assert(pre.drop_last() =~= interfaces@.subrange(0, i as int));
                    assert(pre.last() == interfaces@[i as int]);
                }
                let addresses = &interfaces[i].addresses;
                let mut k: usize = 0;
                while k < addresses.len()
                    invariant
                        k <= addresses@.len(),
                        crate::machine::labels(out@) == before + crate::machine::labels(
                            addresses@,
                        ).subrange(0, k as int),
                    decreases addresses@.len() - k,
                {
                    let ghost mid = crate::machine::labels(out@);
                    out.push(addresses[k].clone());
                    proof {
                        assert(crate::machine::labels(out@) =~= mid.push(addresses@[k as int]@));
                        assert(crate::machine::labels(addresses@).subrange(0, k + 1)
                            =~= crate::machine::labels(addresses@).subrange(0, k as int).push(
                            addresses@[k as int]@,
                        ));
                    }
                    k = k + 1;
                }
                proof {
                    assert(crate::machine::labels(addresses@).subrange(0, k as int)
                        =~= crate::machine::labels(addresses@));
                }
                i = i + 1;
            }
            proof {
                assert(interfaces@.subrange(0, i as int) =~= interfaces@);
            }
        },
        None => {},
    }
    out
}

fn collect_endpoint_hosts(endpoints: &Vec<crate::machine::Endpoint>) -> (hosts: Vec<String>)
    ensures
        crate::machine::labels(hosts@) == endpoint_hosts(endpoints@),
{
    let mut out: Vec<String> = Vec::new();
    let mut i: usize = 0;
    proof {
        assert(endpoints@.subrange(0, 0) =~= Seq::<crate::machine::Endpoint>::empty());
        assert(crate::machine::labels(out@) =~= Seq::<Seq<char>>::empty());
    }
    while i < endpoints.len()
        invariant
            i <= endpoints@.len(),
            crate::machine::labels(out@) == endpoint_hosts(endpoints@.subrange(0, i as int)),
        decreases endpoints@.len() - i,
    {
        let ghost pre = endpoints@.subrange(0, i + 1);
        proof {
            assert(pre.drop_last() =~= endpoints@.subrange(0, i as int));
            assert(pre.last() == endpoints@[i as int]);
        }
        match crate::onboarding::reference_host(endpoints[i].reference.as_str()) {
            Some(h) => {
                let ghost before = crate::machine::labels(out@);
                out.push(to_owned_string(h));
                proof {
                    assert(crate::machine::labels(out@) =~= before.push(h@));
                }
            },
            None => {},
        }
        i = i + 1;
    }
    proof {
        assert(endpoints@.subrange(0, i as int) =~= endpoints@);
    }
    out
}

fn any_matches(list: &Vec<String>, value: &str) -> (found: bool)
    ensures
        found == matches_any(crate::machine::labels(list@), value@),
{
    let ghost all = crate::machine::labels(list@);
    let mut i: usize = 0;
    while i < list.len()
        invariant
            all == crate::machine::labels(list@),
            i <= list@.len(),
            forall|k: int| 0 <= k < i ==> !eq_ignore_case(#[trigger] all[k], value@),
        decreases list@.len() - i,
    {
        proof {
            assert(all[i as int] == list@[i as int]@);
        }
        if crate::text::eq_ignore_ascii_case(list[i].as_str(), value) {
            return true;
        }
        i = i + 1;
    }
    false
}

fn find_first_match(candidates: &Vec<String>, against: &Vec<String>) -> (found: Option<String>)
    ensures
        opt_view(found) == first_match(
            crate::machine::labels(candidates@),
            crate::machine::labels(against@),
        ),
{
    let ghost all = crate::machine::labels(candidates@);
    let ghost other = crate::machine::labels(against@);
    let mut i: usize = 0;
    proof {
        assert(all.skip(0) =~= all);
    }
    while i < candidates.len()
        invariant
            all == crate::machine::labels(candidates@),
            other == crate::machine::labels(against@),
            i <= candidates@.len(),
            first_match(all, other) == first_match(all.skip(i as int), other),
        decreases candidates@.len() - i,
    {
        proof {
            assert(all.skip(i as int)[0] == candidates@[i as int]@);
            assert(all.skip(i as int).drop_first() =~= all.skip(i + 1));
        }
        if any_matches(against, candidates[i].as_str()) {
            return Some(candidates[i].clone());
        }
        i = i + 1;
    }
    proof {
        assert(all.skip(i as int) =~= Seq::<Seq<char>>::empty());
    }
    None
}

/// The association candidate between one guest and one machine view, when
/// any (see [`spec_association`]): it carries the machine's id, name and
/// status id, the association kind's id, and the evidence.
pub fn association_candidate(guest: &ProviderGuest, view: &MachineView) -> (candidate: Option<
    AssociationCandidate,
>)
    ensures
        match candidate {
            Some(c) => spec_association(*guest, *view) matches Some((kind, evidence)) && c.machine_id@
                == view.id@ && c.machine_name@ == view.name@ && c.machine_status@
                == view.machine_status.spec_id() && c.kind@ == kind.spec_id() && c.evidence@
                == evidence,
            None => spec_association(*guest, *view) is None,
        },
{
    let machine_mac_list = collect_machine_macs(&view.capabilities);
    let guest_mac_list = collect_guest_macs(guest);
    let (kind, evidence) = match find_first_match(&guest_mac_list, &machine_mac_list) {
        Some(mac) => (AssociationKind::MacMatch, mac),
        None => {
            let addresses = collect_addresses(guest);
            let hosts = collect_endpoint_hosts(&view.endpoints);
            match find_first_match(&addresses, &hosts) {
                Some(address) => (AssociationKind::AddressMatch, address),
                None => match &guest.name {
                    Some(n) => {
                        if crate::text::eq_ignore_ascii_case(view.name.as_str(), n.as_str()) {
                            (AssociationKind::NameMatch, n.clone())
                        } else {
                            return None;
                        }
                    },
                    None => {
                        return None;
                    },
                },
            }
        },
    };
    Some(
        AssociationCandidate {
            machine_id: view.id.clone(),
            machine_name: view.name.clone(),
            machine_status: to_owned_string(view.machine_status.id()),
            kind: to_owned_string(kind.id()),
            evidence,
        },
    )
}

/// The facts one guest contributes to its confirmed machine, in order: the
/// guest id; the VMID and node when known; the agent — known with its
/// version (then the OS and kernel when answered) when online, unavailable
/// when it did not answer, unknown when the guest has none; then each
/// config MAC as `net/mac<index>`. Every fact has the observation time and
/// the source `proxmox/<version>`.
pub open spec fn spec_guest_facts(guest: ProviderGuest, version: Seq<char>, now: i64) -> Seq<
    FactSpec,
> {
    let source = "proxmox/"@ + version;
    let pve = |name: Seq<char>, value: Option<Seq<char>>, status: CapabilityStatus|
        FactSpec { namespace: "pve"@, name, value, status, observed_at: now, source };
    let identity = seq![pve("guest"@, Some(guest.id@), CapabilityStatus::Known)];
    let with_vmid = match guest.vmid {
        Some(v) => identity.push(pve("vmid"@, Some(decimal(v as nat)), CapabilityStatus::Known)),
        None => identity,
    };
    let with_node = match guest.node {
        Some(n) => with_vmid.push(pve("node"@, Some(n@), CapabilityStatus::Known)),
        None => with_vmid,
    };
    let with_agent = match guest.agent {
        Some(agent) => if agent.online {
            let a = with_node.push(pve("agent"@, opt_view(agent.version), CapabilityStatus::Known));
            let o = match agent.os_name {
                Some(os) => a.push(pve("os"@, Some(os@), CapabilityStatus::Known)),
                None => a,
            };
            match agent.kernel {
                Some(k) => o.push(pve("kernel"@, Some(k@), CapabilityStatus::Known)),
                None => o,
            }
        } else {
            with_node.push(pve("agent"@, None, CapabilityStatus::Unavailable))
        },
        None => with_node.push(pve("agent"@, None, CapabilityStatus::Unknown)),
    };
    with_agent + Seq::new(
        guest.macs@.len(),
        |i: int|
            FactSpec {
                namespace: "net"@,
                name: "mac"@ + decimal(i as nat),
                value: Some(guest.macs@[i]@),
                status: CapabilityStatus::Known,
                observed_at: now,
                source,
            },
    )
}

fn push_fact(
    facts: &mut Vec<CapabilityFact>,
    namespace: &str,
    name: &str,
    value: Option<String>,
    status: CapabilityStatus,
    now: i64,
    source: &String,
)
    ensures
        facts_view_of(final(facts)@) == facts_view_of(old(facts)@).push(
            FactSpec {
                namespace: namespace@,
                name: name@,
                value: opt_view(value),
                status,
                observed_at: now,
                source: source@,
            },
        ),
{
    let ghost before = facts_view_of(facts@);
    facts.push(
        CapabilityFact {
            namespace: to_owned_string(namespace),
            name: to_owned_string(name),
            value,
            status,
            observed_at: now,
            source: source.clone(),
        },
    );
    proof {
        assert(facts_view_of(facts@) =~= before.push(
            FactSpec {
                namespace: namespace@,
                name: name@,
                value: opt_view(value),
                status,
                observed_at: now,
                source: source@,
            },
        ));
    }
}

/// The facts as values.
pub open spec fn facts_view_of(v: Seq<CapabilityFact>) -> Seq<FactSpec> {
    v.map_values(|f: CapabilityFact| f@)
}

/// The facts one guest contributes to its confirmed machine (see
/// [`spec_guest_facts`]).
pub fn guest_facts(guest: &ProviderGuest, pve_version: &str, now: i64) -> (facts: Vec<CapabilityFact>)
    ensures
        facts_view_of(facts@) == spec_guest_facts(*guest, pve_version@, now),
{
    proof {
        reveal_strlit("proxmox/");
        reveal_strlit("pve");
        reveal_strlit("guest");
        reveal_strlit("vmid");
        reveal_strlit("node");
        reveal_strlit("agent");
        reveal_strlit("os");
        reveal_strlit("kernel");
        reveal_strlit("net");
        reveal_strlit("mac");
    }
    let mut source = to_owned_string("proxmox/");
    source.append(pve_version);
    let mut facts: Vec<CapabilityFact> = Vec::new();
    proof {
        assert(facts_view_of(facts@) =~= Seq::<FactSpec>::empty());
    }
    push_fact(&mut facts, "pve", "guest", Some(guest.id.clone()), CapabilityStatus::Known, now, &source);
    match guest.vmid {
        Some(vmid) => {
            push_fact(
                &mut facts,
                "pve",
                "vmid",
                Some(crate::text::format_decimal(vmid as u64)),
                CapabilityStatus::Known,
                now,
                &source,
            );
        },
        None => {},
    }
    match &guest.node {
        Some(node) => {
            push_fact(&mut facts, "pve", "node", Some(node.clone()), CapabilityStatus::Known, now, &source);
        },
        None => {},
    }
    match &guest.agent {
        Some(agent) => {
            if agent.online {
                push_fact(
                    &mut facts,
                    "pve",
                    "agent",
                    crate::difference::copy_opt(&agent.version),
                    CapabilityStatus::Known,
                    now,
                    &source,
                );
                match &agent.os_name {
                    Some(os) => {
                        push_fact(&mut facts, "pve", "os", Some(os.clone()), CapabilityStatus::Known, now, &source);
                    },
                    None => {},
                }
                match &agent.kernel {
                    Some(kernel) => {
                        push_fact(
                            &mut facts,
                            "pve",
                            "kernel",
                            Some(kernel.clone()),
                            CapabilityStatus::Known,
                            now,
                            &source,
                        );
                    },
                    None => {},
                }
            } else {
                push_fact(&mut facts, "pve", "agent", None, CapabilityStatus::Unavailable, now, &source);
            }
        },
        None => {
            push_fact(&mut facts, "pve", "agent", None, CapabilityStatus::Unknown, now, &source);
        },
    }
    let ghost head = facts_view_of(facts@);
    let mut i: usize = 0;
    while i < guest.macs.len()
        invariant
            i <= guest.macs@.len(),
            facts_view_of(facts@) == head + Seq::new(
                i as nat,
                |k: int|
                    FactSpec {
                        namespace: "net"@,
                        name: "mac"@ + decimal(k as nat),
                        value: Some(guest.macs@[k]@),
                        status: CapabilityStatus::Known,
                        observed_at: now,
                        source: source@,
                    },
            ),
        decreases guest.macs@.len() - i,
    {
        let mut name = to_owned_string("mac");
        let digits = crate::text::format_decimal(i as u64);
        name.append(digits.as_str());
        let ghost before = facts_view_of(facts@);
        push_fact(&mut facts, "net", name.as_str(), Some(guest.macs[i].clone()), CapabilityStatus::Known, now, &source);
        proof {
            let mk = |k: int|
                FactSpec {
                    namespace: "net"@,
                    name: "mac"@ + decimal(k as nat),
                    value: Some(guest.macs@[k]@),
                    status: CapabilityStatus::Known,
                    observed_at: now,
                    source: source@,
                };
            assert(Seq::new((i + 1) as nat, mk) =~= Seq::new(i as nat, mk).push(mk(i as int)));
            assert(facts_view_of(facts@) =~= head + Seq::new((i + 1) as nat, mk));
        }
        i = i + 1;
    }
    facts
}

/// The guest with a VMID among discovered guests: the first such one; a
/// missing one is named.
pub fn find_guest(guests: Vec<ProviderGuest>, vmid: u32) -> (guest: Result<
    ProviderGuest,
    ProxmoxUseCaseError,
>)
    ensures
        match guest {
            Ok(g) => exists|k: int|
                0 <= k < guests@.len() && guests@[k] == g && g.vmid == Some(vmid) && forall|j: int|
                    0 <= j < k ==> guests@[j].vmid != Some(vmid),
            Err(e) => (forall|k: int| 0 <= k < guests@.len() ==> guests@[k].vmid != Some(vmid))
                && e@ == ProxmoxErrorSpec::NotFound("guest "@ + decimal(vmid as nat)),
        },
{
    let mut i: usize = 0;
    while i < guests.len()
        invariant
            i <= guests@.len(),
            forall|j: int| 0 <= j < i ==> guests@[j].vmid != Some(vmid),
        decreases guests@.len() - i,
    {
        if guests[i].vmid == Some(vmid) {
            let mut guests = guests;
            let g = guests.remove(i);
            return Ok(g);
        }
        i = i + 1;
    }
    let mut what = to_owned_string("guest ");
    let digits = crate::text::format_decimal(vmid as u64);
    what.append(digits.as_str());
    Err(ProxmoxUseCaseError::NotFound { what })
}

/// What a machine error becomes when recording guest facts: conflicts and
/// malformed requests are both invalid requests here.
pub fn map_machine_error(error: MachineUseCaseError) -> (mapped: ProxmoxUseCaseError)
    ensures
        mapped@ == match error@ {
            MachineErrorSpec::Denied(d) => ProxmoxErrorSpec::Denied(d),
            MachineErrorSpec::NotFound(what) => ProxmoxErrorSpec::NotFound(what),
            MachineErrorSpec::Conflict(detail) => ProxmoxErrorSpec::Invalid(detail),
            MachineErrorSpec::Invalid(detail) => ProxmoxErrorSpec::Invalid(detail),
            MachineErrorSpec::Backend(context, detail) => ProxmoxErrorSpec::Backend(context, detail),
        },
{
    match error {
        MachineUseCaseError::Denied(decision) => ProxmoxUseCaseError::Denied(decision),
        MachineUseCaseError::NotFound { what } => ProxmoxUseCaseError::NotFound { what },
        MachineUseCaseError::Conflict { detail } => ProxmoxUseCaseError::Invalid { detail },
        MachineUseCaseError::Invalid { detail } => ProxmoxUseCaseError::Invalid { detail },
        MachineUseCaseError::Backend { context, detail } => ProxmoxUseCaseError::Backend {
            context,
            detail,
        },
    }
}

/// A candidate as a value: machine id, machine name, status id, kind id and
/// evidence.
pub open spec fn candidate_value(c: AssociationCandidate) -> (
    Seq<char>,
    Seq<char>,
    Seq<char>,
    Seq<char>,
    Seq<char>,
) {
    (c.machine_id@, c.machine_name@, c.machine_status@, c.kind@, c.evidence@)
}

/// The candidates of one guest among machine views, in view order: one per
/// view the caller may read in detail (`sensitive` at its position) that
/// carries association evidence.
pub open spec fn spec_candidates(guest: ProviderGuest, views: Seq<MachineView>, sensitive: Seq<bool>) -> Seq<
    (Seq<char>, Seq<char>, Seq<char>, Seq<char>, Seq<char>),
>
    decreases views.len(),
{
    if views.len() == 0 {
        Seq::empty()
    } else {
        let rest = spec_candidates(guest, views.drop_last(), sensitive);
        let i = views.len() - 1;
        let v = views.last();
        if i < sensitive.len() && sensitive[i] {
            match spec_association(guest, v) {
                Some((kind, evidence)) => rest.push(
                    (v.id@, v.name@, v.machine_status.spec_id(), kind.spec_id(), evidence),
                ),
                None => rest,
            }
        } else {
            rest
        }
    }
}

/// Association is evidence gated by the sensitive read: every candidate
/// names a machine whose view the caller may read sensitively, so a caller
/// who may read none of them gets no candidates at all.
pub proof fn law_candidates_need_sensitive_read(
    guest: ProviderGuest,
    views: Seq<MachineView>,
    sensitive: Seq<bool>,
)
    ensures
        forall|k: int|
            0 <= k < spec_candidates(guest, views, sensitive).len() ==> exists|i: int|
                0 <= i < views.len() && i < sensitive.len() && sensitive[i]
                    && #[trigger] spec_candidates(guest, views, sensitive)[k].0 == views[i].id@,
        (forall|i: int| 0 <= i < views.len() && i < sensitive.len() ==> !sensitive[i])
            ==> spec_candidates(guest, views, sensitive).len() == 0,
    decreases views.len(),
{
    if views.len() > 0 {
        let prefix = views.drop_last();
        law_candidates_need_sensitive_read(guest, prefix, sensitive);
        let rest = spec_candidates(guest, prefix, sensitive);
        let all = spec_candidates(guest, views, sensitive);
        let last = views.len() - 1;
        assert forall|k: int| 0 <= k < all.len() implies exists|i: int|
            0 <= i < views.len() && i < sensitive.len() && sensitive[i] && #[trigger] all[k].0
                == views[i].id@ by {
            if k < rest.len() {
                assert(all[k] == rest[k]);
                let i = choose|i: int|
                    0 <= i < prefix.len() && i < sensitive.len() && sensitive[i] && #[trigger] rest[k].0
                        == prefix[i].id@;
                assert(prefix[i] == views[i]);
            } else {
                assert(last < sensitive.len() && sensitive[last]);
                assert(all[k].0 == views[last].id@);
            }
        }
    }
}

fn candidates_for(guest: &ProviderGuest, views: &Vec<MachineView>, sensitive: &Vec<bool>) -> (candidates:
    Vec<AssociationCandidate>)
    ensures
        candidates@.map_values(|c: AssociationCandidate| candidate_value(c)) == spec_candidates(
            *guest,
            views@,
            sensitive@,
        ),
{
    let mut out: Vec<AssociationCandidate> = Vec::new();
    let mut i: usize = 0;
    proof {
        assert(views@.subrange(0, 0) =~= Seq::<MachineView>::empty());
        assert(out@.map_values(|c: AssociationCandidate| candidate_value(c)) =~= Seq::<
            (Seq<char>, Seq<char>, Seq<char>, Seq<char>, Seq<char>),
        >::empty());
    }
    while i < views.len()
        invariant
            i <= views@.len(),
            out@.map_values(|c: AssociationCandidate| candidate_value(c)) == spec_candidates(
                *guest,
                views@.subrange(0, i as int),
                sensitive@,
            ),
        decreases views@.len() - i,
    {
        let ghost pre = views@.subrange(0, i + 1);
        proof {
            assert(pre.drop_last() =~= views@.subrange(0, i as int));
            assert(pre.last() == views@[i as int]);
        }
        let allowed = i < sensitive.len() && sensitive[i];
        if allowed {
            match association_candidate(guest, &views[i]) {
                Some(c) => {
                    let ghost before = out@.map_values(|c: AssociationCandidate| candidate_value(c));
                    out.push(c);
                    proof {
                        assert(out@.map_values(|c: AssociationCandidate| candidate_value(c))
                            =~= before.push(candidate_value(c)));
                    }
                },
                None => {},
            }
        }
        i = i + 1;
    }
    proof {
        assert(views@.subrange(0, i as int) =~= views@);
    }
    out
}

/// Enriches a raw guest discovery with provenance and association
/// candidates: each guest, in order, carries the version, the time, and its
/// candidates among the views (see [`spec_candidates`]); the snapshot
/// carries the account, the version, the warnings and the time.
pub fn associate_guests(
    account_id: &str,
    raw: RawGuestDiscovery,
    views: &Vec<MachineView>,
    sensitive: &Vec<bool>,
    now: i64,
) -> (snapshot: GuestSnapshot)
    ensures
        snapshot.account_id@ == account_id@,
        snapshot.pve_version@ == raw.version@,
        snapshot.warnings@ == raw.warnings@,
        snapshot.observed_at == now,
        snapshot.guests@.len() == raw.guests@.len(),
        forall|i: int|
            0 <= i < snapshot.guests@.len() ==> {
                let g = #[trigger] snapshot.guests@[i];
                &&& g.guest == raw.guests@[i]
                &&& g.pve_version@ == raw.version@
                &&& g.observed_at == now
                &&& g.candidates@.map_values(|c: AssociationCandidate| candidate_value(c))
                    == spec_candidates(raw.guests@[i], views@, sensitive@)
            },
{
    let ghost raw_guests = raw.guests@;
    let mut guests: Vec<AssociatedGuest> = Vec::new();
    let mut remaining = raw.guests;
    while remaining.len() > 0
        invariant
            remaining@.len() + guests@.len() == raw_guests.len(),
            remaining@ == raw_guests.subrange(guests@.len() as int, raw_guests.len() as int),
            forall|k: int|
                0 <= k < guests@.len() ==> {
                    let g = #[trigger] guests@[k];
                    &&& g.guest == raw_guests[k]
                    &&& g.pve_version@ == raw.version@
                    &&& g.observed_at == now
                    &&& g.candidates@.map_values(|c: AssociationCandidate| candidate_value(c))
                        == spec_candidates(raw_guests[k], views@, sensitive@)
                },
        decreases remaining@.len(),
    {
        let guest = remaining.remove(0);
        proof {
            assert(guest == raw_guests[guests@.len() as int]);
            assert(remaining@ =~= raw_guests.subrange(guests@.len() as int + 1, raw_guests.len() as int));
        }
        let candidates = candidates_for(&guest, views, sensitive);
        guests.push(
            AssociatedGuest { guest, pve_version: raw.version.clone(), observed_at: now, candidates },
        );
    }
    GuestSnapshot {
        account_id: to_owned_string(account_id),
        pve_version: raw.version,
        guests,
        warnings: raw.warnings,
        observed_at: now,
    }
}

/// The audit intent an account action appends: the principal did the
/// action on the account (when one is named), allowed, with the event (and
/// the optional fact) as metadata. Fails, as a backend failure of the audit
/// half, when the metadata refuses an entry.
pub fn account_intent(
    principal_id: &str,
    action: Permission,
    account_id: Option<&str>,
    event: &str,
    fact: Option<(&str, &str)>,
) -> (intent: Result<crate::audit::AuditIntent, ProxmoxUseCaseError>)
    ensures
        intent is Ok <==> crate::audit::event_metadata_ok(event@, crate::audit::fact_view(fact)),
        intent matches Ok(i) ==> crate::audit::describes_event(
            i,
            principal_id@,
            action,
            match account_id {
                Some(a) => Some(a@),
                None => None,
            },
            event@,
            crate::audit::fact_view(fact),
        ),
        intent matches Err(e) ==> e@ == ProxmoxErrorSpec::Backend(
            "audit"@,
            crate::audit::event_refusal(event@, crate::audit::fact_view(fact)),
        ),
{
    match crate::audit::event_intent(principal_id, action, account_id, event, fact) {
        Ok(intent) => Ok(intent),
        Err(error) => Err(ProxmoxUseCaseError::Backend { context: "audit", detail: error.message() }),
    }
}

} // verus!
