//! Tailnet devices as onboarding suggestions, never as Fleet identity.
//!
//! The integration is read-only and evidence-only: devices are correlated
//! against Fleet machines by candidates (a Tailscale address or a device
//! name that equals an endpoint's host); candidates warn, never merge, never
//! claim, never carry trust. Importing a device stages an ordinary
//! onboarding draft for its address. Correlation needs endpoint hosts, so a
//! caller who may not read sensitive endpoint detail sees no candidates
//! rather than half-redacted ones.

use vstd::prelude::*;

use crate::authz::Decision;
use crate::machine::{MachineStatus, MachineView};
use crate::onboarding::{
    spec_reference_host, DraftEndpoint, NewDraft, OnboardAuth, OnboardingUseCaseError,
};
use crate::operation::opt_view;
use crate::text::{
    debug_quoted, decimal, eq_ignore_case, first_index_of, text_eq, to_owned_string, utf8_len,
};

verus! {

/// The OAuth scope the integration requests: read-only device listing.
pub const TAILNET_SCOPE: &'static str = "devices:core:read";

/// The default tailnet selector: the OAuth client's own tailnet.
pub const TAILNET_DEFAULT: &'static str = "-";

/// One tailnet device, normalized and bounded.
#[derive(Clone, Debug, PartialEq, Eq)]
pub struct TailnetDevice {
    /// The preferred identifier (`nodeId` in the API).
    pub node_id: String,
    /// The legacy numeric identifier, when the source carried one.
    pub id: Option<String>,
    /// The MagicDNS name, e.g. `host.tailnet.ts.net`.
    pub name: String,
    /// The short hostname.
    pub hostname: String,
    /// The device's operating system, as reported.
    pub os: String,
    /// The Tailscale addresses.
    pub addresses: Vec<String>,
    /// Tailnet policy tags, when the device is tagged.
    pub tags: Vec<String>,
    /// The registering user.
    pub user: String,
    /// Whether the device reports itself online, when the source says.
    pub online: Option<bool>,
    /// Whether the device recently connected to the control plane.
    pub connected_to_control: Option<bool>,
    /// When the device was last seen, when the source carried it.
    pub last_seen: Option<String>,
}

/// The verdict on a device's bounds, checked in order: the node id (1 to 64
/// bytes), the name and hostname (at most 255 bytes), the os (at most 64)
/// and user (at most 255), at most 4 addresses of 1 to 64 bytes each, at
/// most 8 tags of 1 to 64 bytes each.
pub open spec fn spec_validate_device(d: TailnetDevice) -> Result<(), Seq<char>> {
    let addresses = crate::machine::labels(d.addresses@);
    let tags = crate::machine::labels(d.tags@);
    if !(1 <= utf8_len(d.node_id@) <= 64) {
        Err("the device node id must be 1..=64 characters"@)
    } else if utf8_len(d.name@) > 255 || utf8_len(d.hostname@) > 255 {
        Err("the device name must be at most 255 characters"@)
    } else if utf8_len(d.os@) > 64 || utf8_len(d.user@) > 255 {
        Err("the device os/user must be within bounds"@)
    } else if addresses.len() > 4 {
        Err("a device carries at most 4 addresses"@)
    } else if exists|i: int| 0 <= i < addresses.len() && !crate::machine::label_ok(#[trigger] addresses[i]) {
        Err("a device address must be 1..=64 characters"@)
    } else if tags.len() > 8 {
        Err("a device carries at most 8 tags"@)
    } else if exists|i: int| 0 <= i < tags.len() && !crate::machine::label_ok(#[trigger] tags[i]) {
        Err("a device tag must be 1..=64 characters"@)
    } else {
        Ok(())
    }
}

fn all_labels_ok(v: &Vec<String>) -> (ok: bool)
    ensures
        ok == !exists|i: int|
            0 <= i < v@.len() && !crate::machine::label_ok(#[trigger] crate::machine::labels(v@)[i]),
{
    let ghost all = crate::machine::labels(v@);
    let mut i: usize = 0;
    while i < v.len()
        invariant
            all == crate::machine::labels(v@),
            i <= v@.len(),
            forall|k: int| 0 <= k < i ==> crate::machine::label_ok(#[trigger] all[k]),
        decreases v@.len() - i,
    {
        proof {
            assert(all[i as int] == v@[i as int]@);
        }
        let n = crate::text::byte_len(v[i].as_str());
        if n < 1 || n > 64 {
            return false;
        }
        i = i + 1;
    }
    true
}

/// One group of a dotted-quad IPv4 address: one to three ASCII digits, no
/// leading zero unless the group is a lone `0`, and a value of at most 255.
pub open spec fn octet_ok(s: Seq<char>) -> bool {
    &&& 1 <= s.len() <= 3
    &&& forall|i: int| 0 <= i < s.len() ==> crate::text::is_digit(#[trigger] s[i])
    &&& (s.len() > 1 ==> s[0] != '0')
    &&& crate::text::decimal_value(s) <= 255
}

/// Whether a text is `n` octets separated by dots.
pub open spec fn octets(s: Seq<char>, n: nat) -> bool
    decreases n,
{
    if n == 0 {
        false
    } else if n == 1 {
        octet_ok(s)
    } else {
        match crate::text::split_first(s, '.') {
            Some((head, rest)) => octet_ok(head) && octets(rest, (n - 1) as nat),
            None => false,
        }
    }
}

/// Whether a text is an IPv4 address in the standard dotted-quad notation.
pub open spec fn dotted_quad(s: Seq<char>) -> bool {
    octets(s, 4)
}

fn octet_text_ok(s: &str) -> (ok: bool)
    ensures
        ok == octet_ok(s@),
{
    let len = s.unicode_len();
    if len < 1 || len > 3 {
        return false;
    }
    let mut value: u32 = 0;
    let mut i: usize = 0;
    while i < len
        invariant
            len == s@.len(),
            1 <= len <= 3,
            i <= len,
            forall|k: int| 0 <= k < i ==> crate::text::is_digit(#[trigger] s@[k]),
            value as nat == crate::text::decimal_value(s@.subrange(0, i as int)),
            value < 1000,
            i == 0 ==> value == 0,
            i == 1 ==> value < 10,
            i == 2 ==> value < 100,
        decreases len - i,
    {
        let c = s.get_char(i);
        proof {
            let pre = s@.subrange(0, i + 1);
            assert(pre.drop_last() =~= s@.subrange(0, i as int));
            assert(pre.last() == c);
        }
        if !('0' <= c && c <= '9') {
            proof {
                assert(!crate::text::is_digit(s@[i as int]));
            }
            return false;
        }
        let d: u32 = (c as u32) - 48;
        value = value * 10 + d;
        i = i + 1;
    }
    proof {
        assert(s@.subrange(0, len as int) =~= s@);
    }
    if len > 1 && s.get_char(0) == '0' {
        return false;
    }
    value <= 255
}

fn octets_text_ok(s: &str, n: usize) -> (ok: bool)
    requires
        n <= 4,
    ensures
        ok == octets(s@, n as nat),
    decreases n,
{
    if n == 0 {
        false
    } else if n == 1 {
        octet_text_ok(s)
    } else {
        match crate::text::split_once(s, '.') {
            Some((head, rest)) => octet_text_ok(head) && octets_text_ok(rest, n - 1),
            None => false,
        }
    }
}

/// Whether a text is an IPv4 address in dotted-quad notation (see
/// [`dotted_quad`]).
pub fn is_dotted_quad(s: &str) -> (ok: bool)
    ensures
        ok == dotted_quad(s@),
{
    octets_text_ok(s, 4)
}

impl TailnetDevice {
    /// The device's first address that is a real IPv4 address in
    /// dotted-quad notation (parsed, not prefix-guessed), when any: the
    /// onboarding draft's candidate host.
    pub fn ipv4(&self) -> (address: Option<&str>)
        ensures
            match address {
                Some(a) => exists|k: int|
                    0 <= k < self.addresses@.len() && #[trigger] self.addresses@[k]@ == a@
                        && dotted_quad(a@) && forall|j: int|
                        0 <= j < k ==> !dotted_quad(#[trigger] self.addresses@[j]@),
                None => forall|k: int|
                    0 <= k < self.addresses@.len() ==> !dotted_quad(#[trigger] self.addresses@[k]@),
            },
    {
        let mut i: usize = 0;
        while i < self.addresses.len()
            invariant
                i <= self.addresses@.len(),
                forall|j: int| 0 <= j < i ==> !dotted_quad(#[trigger] self.addresses@[j]@),
            decreases self.addresses@.len() - i,
        {
            let a = self.addresses[i].as_str();
            if is_dotted_quad(a) {
                return Some(a);
            }
            i = i + 1;
        }
        None
    }

    /// Validates the normalization bounds (see [`spec_validate_device`]): a
    /// device beyond them is a payload error, never silently truncated.
    pub fn validate(&self) -> (valid: Result<(), String>)
        ensures
            match valid {
                Ok(()) => spec_validate_device(*self) is Ok,
                Err(detail) => spec_validate_device(*self) == Err::<(), Seq<char>>(detail@),
            },
    {
        let n = crate::text::byte_len(self.node_id.as_str());
        if n < 1 || n > 64 {
            return Err(to_owned_string("the device node id must be 1..=64 characters"));
        }
        if crate::text::byte_len(self.name.as_str()) > 255 || crate::text::byte_len(
            self.hostname.as_str(),
        ) > 255 {
            return Err(to_owned_string("the device name must be at most 255 characters"));
        }
        if crate::text::byte_len(self.os.as_str()) > 64 || crate::text::byte_len(self.user.as_str())
            > 255 {
            return Err(to_owned_string("the device os/user must be within bounds"));
        }
        if self.addresses.len() > 4 {
            return Err(to_owned_string("a device carries at most 4 addresses"));
        }
        if !all_labels_ok(&self.addresses) {
            return Err(to_owned_string("a device address must be 1..=64 characters"));
        }
        if self.tags.len() > 8 {
            return Err(to_owned_string("a device carries at most 8 tags"));
        }
        if !all_labels_ok(&self.tags) {
            return Err(to_owned_string("a device tag must be 1..=64 characters"));
        }
        Ok(())
    }
}

/// The kind of correlation evidence behind a candidate.
#[derive(Clone, Copy, Debug, PartialEq, Eq, Structural)]
pub enum CorrelationKind {
    /// A Tailscale address equals the endpoint's host.
    AddressMatch,
    /// The device's hostname or MagicDNS name equals the endpoint's host.
    NameMatch,
}

impl CorrelationKind {
    /// The stable string used in the API.
    pub open spec fn spec_id(self) -> Seq<char> {
        match self {
            CorrelationKind::AddressMatch => "address_match"@,
            CorrelationKind::NameMatch => "name_match"@,
        }
    }

    /// The stable string used in the API.
    pub fn id(self) -> (id: &'static str)
        ensures
            id@ == self.spec_id(),
    {
        match self {
            CorrelationKind::AddressMatch => "address_match",
            CorrelationKind::NameMatch => "name_match",
        }
    }
}

/// One Fleet machine a tailnet device may be. Evidence only.
#[derive(Clone, Debug, PartialEq, Eq)]
pub struct CorrelationCandidate {
    /// The existing machine's identity.
    pub machine_id: String,
    /// The existing machine's name.
    pub machine_name: String,
    /// The machine's derived connectivity state.
    pub machine_status: MachineStatus,
    /// The matching endpoint reference, as the caller may see it.
    pub reference: String,
    /// Why this machine is a candidate.
    pub kind: CorrelationKind,
}

/// A tailnet device with its Fleet-machine candidates.
#[derive(Clone, Debug, PartialEq, Eq)]
pub struct CorrelatedDevice {
    /// The device.
    pub device: TailnetDevice,
    /// Existing machines this device may be.
    pub candidates: Vec<CorrelationCandidate>,
}

/// The integration's configuration status: the fact of configuration and
/// the non-secret client identifier, never the secret.
#[derive(Clone, Debug, PartialEq, Eq)]
pub struct TailnetStatus {
    /// Whether an OAuth client is configured.
    pub configured: bool,
    /// The configured client identifier, when any. Not secret.
    pub client_id: Option<String>,
    /// The scope the integration requests: always the read-only scope.
    pub scope: &'static str,
}

/// The status a stored client identifier (when any) gives.
pub fn status_of(client_id: Option<String>) -> (status: TailnetStatus)
    ensures
        status.configured == client_id is Some,
        status.client_id == client_id,
        status.scope@ == TAILNET_SCOPE@,
{
    TailnetStatus { configured: client_id.is_some(), client_id, scope: TAILNET_SCOPE }
}

/// A source failure that is safe to print: statuses and bounded details,
/// never credentials or tokens.
#[derive(Debug)]
pub enum TailnetSourceError {
    /// The credentials were refused (401/403).
    Auth {
        /// The bounded, redacted detail.
        detail: String,
    },
    /// The source asked the caller to slow down (429), with its hint.
    RateLimited {
        /// The source's retry hint, in seconds, when carried.
        retry_after_secs: Option<u64>,
    },
    /// The tailnet or another addressed resource does not exist (404).
    NotFound {
        /// The bounded detail.
        detail: String,
    },
    /// Any other HTTP outcome.
    Http {
        /// The HTTP status.
        status: u16,
        /// The bounded, redacted detail.
        detail: String,
    },
    /// The source answered with a payload Fleet refuses to interpret.
    InvalidPayload {
        /// The bounded detail.
        detail: String,
    },
}

/// The rendering of a source failure.
pub open spec fn source_message(e: TailnetSourceError) -> Seq<char> {
    match e {
        TailnetSourceError::Auth { detail } => "the tailnet credentials were refused: "@
            + detail@,
        TailnetSourceError::RateLimited { retry_after_secs } => match retry_after_secs {
            Some(secs) => "the source asked to slow down (retry after "@ + decimal(
                secs as nat,
            ) + "s)"@,
            None => "the source asked to slow down (429)"@,
        },
        TailnetSourceError::NotFound { detail } => "not found: "@ + detail@,
        TailnetSourceError::Http { status, detail } => "the source answered "@ + decimal(
            status as nat,
        ) + ": "@ + detail@,
        TailnetSourceError::InvalidPayload { detail } =>
            "the source's payload is not interpretable: "@ + detail@,
    }
}

impl TailnetSourceError {
    /// Renders the failure.
    pub fn message(&self) -> (text: String)
        ensures
            text@ == source_message(*self),
    {
        match self {
            TailnetSourceError::Auth { detail } => {
                let mut text = to_owned_string("the tailnet credentials were refused: ");
                text.append(detail.as_str());
                text
            },
            TailnetSourceError::RateLimited { retry_after_secs } => match retry_after_secs {
                Some(secs) => {
                    let mut text = to_owned_string("the source asked to slow down (retry after ");
                    let digits = crate::text::format_decimal(*secs);
                    text.append(digits.as_str());
                    text.append("s)");
                    text
                },
                None => to_owned_string("the source asked to slow down (429)"),
            },
            TailnetSourceError::NotFound { detail } => {
                let mut text = to_owned_string("not found: ");
                text.append(detail.as_str());
                text
            },
            TailnetSourceError::Http { status, detail } => {
                let mut text = to_owned_string("the source answered ");
                let digits = crate::text::format_decimal(*status as u64);
                text.append(digits.as_str());
                text.append(": ");
                text.append(detail.as_str());
                text
            },
            TailnetSourceError::InvalidPayload { detail } => {
                let mut text = to_owned_string("the source's payload is not interpretable: ");
                text.append(detail.as_str());
                text
            },
        }
    }
}

/// A use-case rejection, mapped onto public API errors by the adapter.
#[derive(Debug)]
pub enum TailnetUseCaseError {
    /// The caller may not perform the action.
    Denied(Decision),
    /// The integration has no OAuth client configured yet.
    Unconfigured,
    /// The addressed device does not exist.
    NotFound {
        /// What was not found.
        what: String,
    },
    /// The request is malformed.
    Invalid {
        /// What is wrong.
        detail: String,
    },
    /// The tailnet source refused or failed.
    Source(TailnetSourceError),
    /// A port failed.
    Backend {
        /// Where.
        context: &'static str,
        /// The failure detail.
        detail: String,
    },
}

/// The kind of a tailnet use-case rejection and its main text, as values.
pub enum TailnetErrorSpec {
    /// A denial.
    Denied(Decision),
    /// Not configured.
    Unconfigured,
    /// Not found.
    NotFound(Seq<char>),
    /// A malformed request.
    Invalid(Seq<char>),
    /// A source failure, by its rendering.
    Source(Seq<char>),
    /// A backend failure: the context and the detail.
    Backend(Seq<char>, Seq<char>),
}

impl View for TailnetUseCaseError {
    type V = TailnetErrorSpec;

    open spec fn view(&self) -> TailnetErrorSpec {
        match self {
            TailnetUseCaseError::Denied(d) => TailnetErrorSpec::Denied(*d),
            TailnetUseCaseError::Unconfigured => TailnetErrorSpec::Unconfigured,
            TailnetUseCaseError::NotFound { what } => TailnetErrorSpec::NotFound(what@),
            TailnetUseCaseError::Invalid { detail } => TailnetErrorSpec::Invalid(detail@),
            TailnetUseCaseError::Source(e) => TailnetErrorSpec::Source(source_message(*e)),
            TailnetUseCaseError::Backend { context, detail } => TailnetErrorSpec::Backend(
                context@,
                detail@,
            ),
        }
    }
}

impl TailnetUseCaseError {
    /// Renders the error.
    pub fn message(&self) -> (text: String)
        ensures
            text@ == match self {
                TailnetUseCaseError::Denied(d) => "denied: "@ + d.spec_describe(),
                TailnetUseCaseError::Unconfigured =>
                    "the tailscale integration is not configured; configure an OAuth client first"@,
                TailnetUseCaseError::NotFound { what } => "not found: "@ + what@,
                TailnetUseCaseError::Invalid { detail } => "invalid request: "@ + detail@,
                TailnetUseCaseError::Source(e) => source_message(*e),
                TailnetUseCaseError::Backend { context, detail } => "tailnet "@ + context@
                    + " failed: "@ + detail@,
            },
    {
        match self {
            TailnetUseCaseError::Denied(decision) => {
                let mut text = to_owned_string("denied: ");
                text.append(decision.describe().as_str());
                text
            },
            TailnetUseCaseError::Unconfigured => to_owned_string(
                "the tailscale integration is not configured; configure an OAuth client first",
            ),
            TailnetUseCaseError::NotFound { what } => {
                let mut text = to_owned_string("not found: ");
                text.append(what.as_str());
                text
            },
            TailnetUseCaseError::Invalid { detail } => {
                let mut text = to_owned_string("invalid request: ");
                text.append(detail.as_str());
                text
            },
            TailnetUseCaseError::Source(error) => error.message(),
            TailnetUseCaseError::Backend { context, detail } => {
                let mut text = to_owned_string("tailnet ");
                text.append(context);
                text.append(" failed: ");
                text.append(detail.as_str());
                text
            },
        }
    }
}

impl core::convert::From<OnboardingUseCaseError> for TailnetUseCaseError {
    fn from(error: OnboardingUseCaseError) -> (mapped: Self) {
        match error {
            OnboardingUseCaseError::Denied(decision) => TailnetUseCaseError::Denied(decision),
            OnboardingUseCaseError::NotFound { what } => TailnetUseCaseError::NotFound { what },
            OnboardingUseCaseError::Conflict { detail } => TailnetUseCaseError::Invalid { detail },
            OnboardingUseCaseError::Invalid { detail } => TailnetUseCaseError::Invalid { detail },
            OnboardingUseCaseError::Backend { context, detail } => TailnetUseCaseError::Backend {
                context,
                detail,
            },
        }
    }
}

impl vstd::std_specs::convert::FromSpecImpl<OnboardingUseCaseError> for TailnetUseCaseError {
    open spec fn obeys_from_spec() -> bool {
        true
    }

    open spec fn from_spec(error: OnboardingUseCaseError) -> Self {
        match error {
            OnboardingUseCaseError::Denied(decision) => TailnetUseCaseError::Denied(decision),
            OnboardingUseCaseError::NotFound { what } => TailnetUseCaseError::NotFound { what },
            OnboardingUseCaseError::Conflict { detail } => TailnetUseCaseError::Invalid { detail },
            OnboardingUseCaseError::Invalid { detail } => TailnetUseCaseError::Invalid { detail },
            OnboardingUseCaseError::Backend { context, detail } => TailnetUseCaseError::Backend {
                context,
                detail,
            },
        }
    }
}

/// A text without its trailing dots.
pub open spec fn trim_trailing_dots(s: Seq<char>) -> Seq<char>
    decreases s.len(),
{
    if s.len() > 0 && s.last() == '.' {
        trim_trailing_dots(s.drop_last())
    } else {
        s
    }
}

/// The text before the first dot, or all of it.
pub open spec fn first_label(s: Seq<char>) -> Seq<char> {
    match first_index_of(s, '.') {
        Some(i) => s.subrange(0, i),
        None => s,
    }
}

/// What a device's evidence says of an endpoint host: an address match when
/// a Tailscale address equals it, else a name match when the hostname, the
/// MagicDNS name without trailing dots, or its first label equals it
/// (ignoring ASCII case), else nothing.
pub open spec fn spec_host_evidence(device: TailnetDevice, host: Seq<char>) -> Option<CorrelationKind> {
    let full = trim_trailing_dots(device.name@);
    if crate::proxmox::matches_any(crate::machine::labels(device.addresses@), host) {
        Some(CorrelationKind::AddressMatch)
    } else if eq_ignore_case(host, device.hostname@) || eq_ignore_case(host, full)
        || eq_ignore_case(host, first_label(full)) {
        Some(CorrelationKind::NameMatch)
    } else {
        None
    }
}

/// The first endpoint of a view whose host carries evidence, with the kind.
pub open spec fn first_evidence(device: TailnetDevice, endpoints: Seq<crate::machine::Endpoint>) -> Option<
    (Seq<char>, CorrelationKind),
>
    decreases endpoints.len(),
{
    if endpoints.len() == 0 {
        None
    } else {
        match spec_reference_host(endpoints[0].reference@) {
            Some(host) => match spec_host_evidence(device, host) {
                Some(kind) => Some((endpoints[0].reference@, kind)),
                None => first_evidence(device, endpoints.drop_first()),
            },
            None => first_evidence(device, endpoints.drop_first()),
        }
    }
}

/// The candidates of a device among machine views, in view order: for each
/// view the caller may read in detail (`sensitive` at its position), the
/// first endpoint carrying evidence.
pub open spec fn spec_correlation(device: TailnetDevice, views: Seq<MachineView>, sensitive: Seq<bool>) -> Seq<
    (Seq<char>, Seq<char>, MachineStatus, Seq<char>, CorrelationKind),
>
    decreases views.len(),
{
    if views.len() == 0 {
        Seq::empty()
    } else {
        let rest = spec_correlation(device, views.drop_last(), sensitive);
        let i = views.len() - 1;
        let v = views.last();
        if i < sensitive.len() && sensitive[i] {
            match first_evidence(device, v.endpoints@) {
                Some((reference, kind)) => rest.push(
                    (v.id@, v.name@, v.machine_status, reference, kind),
                ),
                None => rest,
            }
        } else {
            rest
        }
    }
}

/// Correlation is evidence gated by the sensitive read: every candidate
/// names a machine whose view the caller may read sensitively, so a caller
/// who may read none of them gets no candidates at all.
pub proof fn law_candidates_need_sensitive_read(
    device: TailnetDevice,
    views: Seq<MachineView>,
    sensitive: Seq<bool>,
)
    ensures
        forall|k: int|
            0 <= k < spec_correlation(device, views, sensitive).len() ==> exists|i: int|
                0 <= i < views.len() && i < sensitive.len() && sensitive[i]
                    && #[trigger] spec_correlation(device, views, sensitive)[k].0 == views[i].id@,
        (forall|i: int| 0 <= i < views.len() && i < sensitive.len() ==> !sensitive[i])
            ==> spec_correlation(device, views, sensitive).len() == 0,
    decreases views.len(),
{
    if views.len() > 0 {
        let prefix = views.drop_last();
        law_candidates_need_sensitive_read(device, prefix, sensitive);
        let rest = spec_correlation(device, prefix, sensitive);
        let all = spec_correlation(device, views, sensitive);
        let last = views.len() - 1;
        assert forall|k: int| 0 <= k < all.len() implies exists|i: int|
            0 <= i < views.len() && i < sensitive.len() && sensitive[i] && #[trigger] all[k].0
                == views[i].id@ by {
            if k < rest.len() {
                assert(all[k] == rest[k]);
                let i = choose|i: int|
                    0 <= i < prefix.len() && i < sensitive.len() && sensitive[i] && #[trigger] rest[k].0
                        == prefix[i].id@;
                assert(prefix[i] == views[i]);
            } else {
                assert(last < sensitive.len() && sensitive[last]);
                assert(all[k].0 == views[last].id@);
            }
        }
    }
}

/// What a device says of an endpoint host: a host equal (ignoring ASCII
/// case) to one of its Tailscale addresses is address evidence; otherwise a
/// host equal to its hostname, to its MagicDNS name without trailing dots,
/// or to that name's first label is name evidence; a host equal to none of
/// these is no evidence.
pub proof fn law_names_and_addresses_are_evidence(device: TailnetDevice, host: Seq<char>)
    ensures
        (exists|i: int|
            0 <= i < device.addresses@.len() && eq_ignore_case(
                #[trigger] device.addresses@[i]@,
                host,
            )) <==> spec_host_evidence(device, host) == Some(CorrelationKind::AddressMatch),
        eq_ignore_case(host, trim_trailing_dots(device.name@)) ==> spec_host_evidence(device, host)
            is Some,
        eq_ignore_case(host, device.hostname@) ==> spec_host_evidence(device, host) is Some,
        eq_ignore_case(host, first_label(trim_trailing_dots(device.name@))) ==> spec_host_evidence(
            device,
            host,
        ) is Some,
        spec_host_evidence(device, host) is Some ==> (exists|i: int|
            0 <= i < device.addresses@.len() && eq_ignore_case(
                #[trigger] device.addresses@[i]@,
                host,
            )) || eq_ignore_case(host, device.hostname@) || eq_ignore_case(
            host,
            trim_trailing_dots(device.name@),
        ) || eq_ignore_case(host, first_label(trim_trailing_dots(device.name@))),
{
    let addresses = crate::machine::labels(device.addresses@);
    if exists|i: int| 0 <= i < device.addresses@.len() && eq_ignore_case(
        #[trigger] device.addresses@[i]@,
        host,
    ) {
        let i = choose|i: int|
            0 <= i < device.addresses@.len() && eq_ignore_case(#[trigger] device.addresses@[i]@, host);
        assert(addresses[i] == device.addresses@[i]@);
    }
    if crate::proxmox::matches_any(addresses, host) {
        let i = choose|i: int| 0 <= i < addresses.len() && eq_ignore_case(#[trigger] addresses[i], host);
        assert(addresses[i] == device.addresses@[i]@);
    }
}

/// A view the caller may read in detail, one of whose endpoints names a host
/// that the device gives evidence for (see
/// [`law_names_and_addresses_are_evidence`]), is a candidate of the device:
/// correlation drops no machine that its evidence points to.
pub proof fn law_evidence_makes_a_candidate(
    device: TailnetDevice,
    views: Seq<MachineView>,
    sensitive: Seq<bool>,
    i: int,
    j: int,
)
    requires
        0 <= i < views.len(),
        i < sensitive.len(),
        sensitive[i],
        0 <= j < views[i].endpoints@.len(),
        spec_reference_host(views[i].endpoints@[j].reference@) matches Some(host)
            && spec_host_evidence(device, host) is Some,
    ensures
        exists|k: int|
            0 <= k < spec_correlation(device, views, sensitive).len() && (#[trigger] spec_correlation(
                device,
                views,
                sensitive,
            )[k]).0 == views[i].id@,
    decreases views.len(),
{
    lemma_first_evidence_found(device, views[i].endpoints@, j);
    let last = views.len() - 1;
    let prefix = views.drop_last();
    let all = spec_correlation(device, views, sensitive);
    let rest = spec_correlation(device, prefix, sensitive);
    if i == last {
        assert(all.last().0 == views[i].id@);
    } else {
        assert(prefix[i] == views[i]);
        law_evidence_makes_a_candidate(device, prefix, sensitive, i, j);
        let k = choose|k: int| 0 <= k < rest.len() && (#[trigger] rest[k]).0 == views[i].id@;
        assert(all[k] == rest[k]);
    }
}

proof fn lemma_first_evidence_found(device: TailnetDevice, endpoints: Seq<crate::machine::Endpoint>, j: int)
    requires
        0 <= j < endpoints.len(),
        spec_reference_host(endpoints[j].reference@) matches Some(host) && spec_host_evidence(
            device,
            host,
        ) is Some,
    ensures
        first_evidence(device, endpoints) is Some,
    decreases endpoints.len(),
{
    if j > 0 {
        match spec_reference_host(endpoints[0].reference@) {
            Some(h) => {
                if spec_host_evidence(device, h) is None {
                    assert(endpoints.drop_first()[j - 1] == endpoints[j]);
                    lemma_first_evidence_found(device, endpoints.drop_first(), j - 1);
                }
            },
            None => {
                assert(endpoints.drop_first()[j - 1] == endpoints[j]);
                lemma_first_evidence_found(device, endpoints.drop_first(), j - 1);
            },
        }
    }
}

/// Whether an endpoint's host carries evidence of a kind for a device.
pub open spec fn carries_evidence(
    device: TailnetDevice,
    endpoint: crate::machine::Endpoint,
    kind: CorrelationKind,
) -> bool {
    spec_reference_host(endpoint.reference@) matches Some(host) && spec_host_evidence(device, host)
        == Some(kind)
}

/// Whether an endpoint's host carries any evidence for a device.
pub open spec fn has_evidence(device: TailnetDevice, endpoint: crate::machine::Endpoint) -> bool {
    spec_reference_host(endpoint.reference@) matches Some(host) && spec_host_evidence(device, host)
        is Some
}

proof fn lemma_first_evidence_is_first(device: TailnetDevice, endpoints: Seq<crate::machine::Endpoint>)
    ensures
        first_evidence(device, endpoints) matches Some((reference, kind)) ==> exists|j: int|
            0 <= j < endpoints.len() && (#[trigger] endpoints[j]).reference@ == reference
                && carries_evidence(device, endpoints[j], kind) && forall|e: int| 0 <= e < j ==> !has_evidence(device, #[trigger] endpoints[e]),
    decreases endpoints.len(),
{
    if endpoints.len() > 0 {
        let tail = endpoints.drop_first();
        lemma_first_evidence_is_first(device, tail);
        let here = match spec_reference_host(endpoints[0].reference@) {
            Some(host) => spec_host_evidence(device, host),
            None => None,
        };
        if here is Some {
            assert(carries_evidence(device, endpoints[0], here->0));
        } else if first_evidence(device, tail) is Some {
            let (reference, kind) = first_evidence(device, tail)->0;
            let j = choose|j: int|
                0 <= j < tail.len() && (#[trigger] tail[j]).reference@ == reference
                    && carries_evidence(device, tail[j], kind) && forall|e: int| 0 <= e < j ==> !has_evidence(device, #[trigger] tail[e]);
            assert(endpoints[j + 1] == tail[j]);
            assert forall|e: int| 0 <= e < j + 1 implies !has_evidence(device, #[trigger] endpoints[e]) by {
                if e > 0 {
                    assert(endpoints[e] == tail[e - 1]);
                }
            }
        }
    }
}

/// Every candidate of a correlation is grounded: it names a view the caller
/// may read in detail, with that view's id, name and status, and the
/// reference of the first endpoint of that view whose host carries evidence,
/// with the kind of that evidence.
pub proof fn law_candidates_are_grounded(device: TailnetDevice, views: Seq<MachineView>, sensitive: Seq<bool>)
    ensures
        forall|k: int|
            #![trigger spec_correlation(device, views, sensitive)[k]]
            0 <= k < spec_correlation(device, views, sensitive).len() ==> exists|i: int, j: int|
                0 <= i < views.len() && i < sensitive.len() && sensitive[i] && 0 <= j
                    < views[i].endpoints@.len() && ({
                    let c = spec_correlation(device, views, sensitive)[k];
                    &&& c.0 == (#[trigger] views[i]).id@
                    &&& c.1 == views[i].name@
                    &&& c.2 == views[i].machine_status
                    &&& c.3 == (#[trigger] views[i].endpoints@[j]).reference@
                    &&& carries_evidence(device, views[i].endpoints@[j], c.4)
                    &&& forall|e: int| 0 <= e < j ==> !has_evidence(device, #[trigger] views[i].endpoints@[e])
                }),
    decreases views.len(),
{
    if views.len() > 0 {
        let prefix = views.drop_last();
        law_candidates_are_grounded(device, prefix, sensitive);
        let rest = spec_correlation(device, prefix, sensitive);
        let all = spec_correlation(device, views, sensitive);
        let last = views.len() - 1;
        assert forall|k: int| #![trigger all[k]] 0 <= k < all.len() implies exists|i: int, j: int|
            0 <= i < views.len() && i < sensitive.len() && sensitive[i] && 0 <= j
                < views[i].endpoints@.len() && ({
                let c = all[k];
                &&& c.0 == (#[trigger] views[i]).id@
                &&& c.1 == views[i].name@
                &&& c.2 == views[i].machine_status
                &&& c.3 == (#[trigger] views[i].endpoints@[j]).reference@
                &&& carries_evidence(device, views[i].endpoints@[j], c.4)
                &&& forall|e: int| 0 <= e < j ==> !has_evidence(device, #[trigger] views[i].endpoints@[e])
            }) by {
            if k < rest.len() {
                assert(all[k] == rest[k]);
                let (i, j) = choose|i: int, j: int|
                    0 <= i < prefix.len() && i < sensitive.len() && sensitive[i] && 0 <= j
                        < prefix[i].endpoints@.len() && ({
                        let c = rest[k];
                        &&& c.0 == (#[trigger] prefix[i]).id@
                        &&& c.1 == prefix[i].name@
                        &&& c.2 == prefix[i].machine_status
                        &&& c.3 == (#[trigger] prefix[i].endpoints@[j]).reference@
                        &&& carries_evidence(device, prefix[i].endpoints@[j], c.4)
                        &&& forall|e: int| 0 <= e < j ==> !has_evidence(device, #[trigger] prefix[i].endpoints@[e])
                    });
                assert(prefix[i] == views[i]);
            } else {
                let v = views[last];
                assert(v == views.last());
                lemma_first_evidence_is_first(device, v.endpoints@);
                let (reference, kind) = first_evidence(device, v.endpoints@)->0;
                let j = choose|j: int|
                    0 <= j < v.endpoints@.len() && (#[trigger] v.endpoints@[j]).reference@ == reference
                        && carries_evidence(device, v.endpoints@[j], kind) && forall|e: int| 0 <= e < j ==> !has_evidence(device, #[trigger] v.endpoints@[e]);
                assert(all[k] == (v.id@, v.name@, v.machine_status, reference, kind));
            }
        }
    }
}

/// A candidate as a value.
pub open spec fn correlation_value(c: CorrelationCandidate) -> (
    Seq<char>,
    Seq<char>,
    MachineStatus,
    Seq<char>,
    CorrelationKind,
) {
    (c.machine_id@, c.machine_name@, c.machine_status, c.reference@, c.kind)
}

fn trim_dots(s: &str) -> (trimmed: &str)
    ensures
        trimmed@ == trim_trailing_dots(s@),
{
    let mut end = s.unicode_len();
    proof {
        assert(s@.subrange(0, end as int) =~= s@);
    }
    while end > 0 && s.get_char(end - 1) == '.'
        invariant
            end <= s@.len(),
            trim_trailing_dots(s@) == trim_trailing_dots(s@.subrange(0, end as int)),
        decreases end,
    {
        proof {
            assert(s@.subrange(0, end as int).drop_last() =~= s@.subrange(0, end - 1));
        }
        end = end - 1;
    }
    let out = s.substring_char(0, end);
    proof {
        let t = s@.subrange(0, end as int);
        if end > 0 {
            assert(t.last() == s@[end - 1]);
        }
    }
    out
}

fn label_of(s: &str) -> (label: &str)
    ensures
        label@ == first_label(s@),
{
    match crate::text::find_char(s, '.') {
        Some(i) => s.substring_char(0, i),
        None => s,
    }
}

fn host_evidence(device: &TailnetDevice, host: &str) -> (kind: Option<CorrelationKind>)
    ensures
        kind == spec_host_evidence(*device, host@),
{
    let mut i: usize = 0;
    let ghost all = crate::machine::labels(device.addresses@);
    while i < device.addresses.len()
        invariant
            all == crate::machine::labels(device.addresses@),
            i <= device.addresses@.len(),
            forall|k: int| 0 <= k < i ==> !eq_ignore_case(#[trigger] all[k], host@),
        decreases device.addresses@.len() - i,
    {
        proof {
            assert(all[i as int] == device.addresses@[i as int]@);
        }
        if crate::text::eq_ignore_ascii_case(host, device.addresses[i].as_str()) {
            return Some(CorrelationKind::AddressMatch);
        }
        i = i + 1;
    }
    let full = trim_dots(device.name.as_str());
    let label = label_of(full);
    if crate::text::eq_ignore_ascii_case(host, device.hostname.as_str())
        || crate::text::eq_ignore_ascii_case(host, full) || crate::text::eq_ignore_ascii_case(
        host,
        label,
    ) {
        Some(CorrelationKind::NameMatch)
    } else {
        None
    }
}

fn endpoint_evidence(device: &TailnetDevice, endpoints: &Vec<crate::machine::Endpoint>) -> (found:
    Option<(String, CorrelationKind)>)
    ensures
        match found {
            Some((reference, kind)) => first_evidence(*device, endpoints@) == Some((reference@, kind)),
            None => first_evidence(*device, endpoints@) is None,
        },
{
    let mut i: usize = 0;
    proof {
        assert(endpoints@.skip(0) =~= endpoints@);
    }
    while i < endpoints.len()
        invariant
            i <= endpoints@.len(),
            first_evidence(*device, endpoints@) == first_evidence(*device, endpoints@.skip(i as int)),
        decreases endpoints@.len() - i,
    {
        proof {
            assert(endpoints@.skip(i as int)[0] == endpoints@[i as int]);
            assert(endpoints@.skip(i as int).drop_first() =~= endpoints@.skip(i + 1));
        }
        match crate::onboarding::reference_host(endpoints[i].reference.as_str()) {
            Some(host) => match host_evidence(device, host) {
                Some(kind) => {
                    return Some((endpoints[i].reference.clone(), kind));
                },
                None => {},
            },
            None => {},
        }
        i = i + 1;
    }
    proof {
        assert(endpoints@.skip(i as int) =~= Seq::<crate::machine::Endpoint>::empty());
    }
    None
}

/// Correlates one device against machine views (see [`spec_correlation`]).
pub fn correlate(device: &TailnetDevice, views: &Vec<MachineView>, sensitive: &Vec<bool>) -> (candidates:
    Vec<CorrelationCandidate>)
    ensures
        candidates@.map_values(|c: CorrelationCandidate| correlation_value(c)) == spec_correlation(
            *device,
            views@,
            sensitive@,
        ),
{
    let mut out: Vec<CorrelationCandidate> = Vec::new();
    let mut i: usize = 0;
    proof {
        assert(views@.subrange(0, 0) =~= Seq::<MachineView>::empty());
        assert(out@.map_values(|c: CorrelationCandidate| correlation_value(c)) =~= Seq::<
            (Seq<char>, Seq<char>, MachineStatus, Seq<char>, CorrelationKind),
        >::empty());
    }
    while i < views.len()
        invariant
            i <= views@.len(),
            out@.map_values(|c: CorrelationCandidate| correlation_value(c)) == spec_correlation(
                *device,
                views@.subrange(0, i as int),
                sensitive@,
            ),
        decreases views@.len() - i,
    {
        let ghost pre = views@.subrange(0, i + 1);
        proof {
            assert(pre.drop_last() =~= views@.subrange(0, i as int));
            assert(pre.last() == views@[i as int]);
        }
        let allowed = i < sensitive.len() && sensitive[i];
        if allowed {
            let view = &views[i];
            match endpoint_evidence(device, &view.endpoints) {
                Some((reference, kind)) => {
                    let ghost before = out@.map_values(
                        |c: CorrelationCandidate| correlation_value(c),
                    );
                    let candidate = CorrelationCandidate {
                        machine_id: view.id.clone(),
                        machine_name: view.name.clone(),
                        machine_status: view.machine_status,
                        reference,
                        kind,
                    };
                    out.push(candidate);
                    proof {
                        assert(out@.map_values(|c: CorrelationCandidate| correlation_value(c))
                            =~= before.push(correlation_value(candidate)));
                    }
                },
                None => {},
            }
        }
        i = i + 1;
    }
    proof {
        assert(views@.subrange(0, i as int) =~= views@);
    }
    out
}

/// Validates the OAuth client being configured: an identifier of 1 to 128
/// bytes and a secret of 1 to 256 bytes.
pub fn validate_client(client_id: &str, client_secret: &str) -> (valid: Result<(), TailnetUseCaseError>)
    ensures
        valid is Ok <==> (1 <= utf8_len(client_id@) <= 128 && 1 <= utf8_len(client_secret@) <= 256),
        valid matches Err(e) ==> e@ == TailnetErrorSpec::Invalid(
            if !(1 <= utf8_len(client_id@) <= 128) {
                "the client id must be 1..=128 characters"@
            } else {
                "the client secret must be 1..=256 characters"@
            },
        ),
{
    let n = crate::text::byte_len(client_id);
    if n < 1 || n > 128 {
        return Err(
            TailnetUseCaseError::Invalid {
                detail: to_owned_string("the client id must be 1..=128 characters"),
            },
        );
    }
    let m = crate::text::byte_len(client_secret);
    if m < 1 || m > 256 {
        return Err(
            TailnetUseCaseError::Invalid {
                detail: to_owned_string("the client secret must be 1..=256 characters"),
            },
        );
    }
    Ok(())
}

/// Validates an import request: a node id and an SSH user of 1 to 64 bytes
/// each.
pub fn validate_import(node_id: &str, user: &str) -> (valid: Result<(), TailnetUseCaseError>)
    ensures
        valid is Ok <==> (1 <= utf8_len(node_id@) <= 64 && 1 <= utf8_len(user@) <= 64),
        valid matches Err(e) ==> e@ == TailnetErrorSpec::Invalid(
            if !(1 <= utf8_len(node_id@) <= 64) {
                "the device node id must be 1..=64 characters"@
            } else {
                "the SSH user must be 1..=64 characters"@
            },
        ),
{
    let n = crate::text::byte_len(node_id);
    if n < 1 || n > 64 {
        return Err(
            TailnetUseCaseError::Invalid {
                detail: to_owned_string("the device node id must be 1..=64 characters"),
            },
        );
    }
    let m = crate::text::byte_len(user);
    if m < 1 || m > 64 {
        return Err(
            TailnetUseCaseError::Invalid {
                detail: to_owned_string("the SSH user must be 1..=64 characters"),
            },
        );
    }
    Ok(())
}

/// The device with a node id among listed devices: the first such one; a
/// missing one is named.
pub fn find_device(devices: Vec<TailnetDevice>, node_id: &str) -> (device: Result<
    TailnetDevice,
    TailnetUseCaseError,
>)
    ensures
        match device {
            Ok(d) => exists|k: int|
                0 <= k < devices@.len() && devices@[k] == d && d.node_id@ == node_id@ && forall|j: int|
                    0 <= j < k ==> devices@[j].node_id@ != node_id@,
            Err(e) => (forall|k: int| 0 <= k < devices@.len() ==> devices@[k].node_id@ != node_id@)
                && e@ == TailnetErrorSpec::NotFound("tailnet device "@ + debug_quoted(node_id@)),
        },
{
    let mut i: usize = 0;
    while i < devices.len()
        invariant
            i <= devices@.len(),
            forall|j: int| 0 <= j < i ==> devices@[j].node_id@ != node_id@,
        decreases devices@.len() - i,
    {
        if text_eq(devices[i].node_id.as_str(), node_id) {
            let mut devices = devices;
            let d = devices.remove(i);
            return Ok(d);
        }
        i = i + 1;
    }
    let mut what = to_owned_string("tailnet device ");
    what.append(crate::text::quoted(node_id).as_str());
    Err(TailnetUseCaseError::NotFound { what })
}

/// The draft an import stages for a device, given the device's first IPv4
/// address (when it has one): the address as the host, the given port or
/// 22, agent authentication, the hostname as the name, a description naming
/// the device, and the idempotency key scoped to the principal. A device
/// without an IPv4 address cannot be imported.
pub fn import_draft(
    device: &TailnetDevice,
    address: Option<&str>,
    user: &str,
    port: Option<u16>,
    principal_id: &str,
    idempotency_key: Option<&str>,
) -> (draft: Result<NewDraft, TailnetUseCaseError>)
    ensures
        address is None ==> (draft matches Err(e) && e@ == TailnetErrorSpec::Invalid(
            "the device "@ + device.node_id@ + " carries no Tailscale IPv4 address; import needs one"@,
        )),
        address matches Some(a) ==> (draft matches Ok(d) && {
            &&& d.endpoint.user@ == user@
            &&& d.endpoint.host@ == a@
            &&& d.endpoint.port == match port {
                Some(p) => p,
                None => 22u16,
            }
            &&& d.auth == OnboardAuth::Agent
            &&& opt_view(d.name) == Some(device.hostname@)
            &&& d.description@ == "Imported from tailnet device "@ + device.node_id@ + " ("@
                + device.name@ + ")"@
            &&& d.tags@.len() == 0
            &&& d.groups@.len() == 0
            &&& opt_view(d.idempotency_key) == match idempotency_key {
                Some(k) => Some(principal_id@ + ":"@ + k@),
                None => None,
            }
        }),
{
    let address = match address {
        Some(a) => a,
        None => {
            let mut detail = to_owned_string("the device ");
            detail.append(device.node_id.as_str());
            detail.append(" carries no Tailscale IPv4 address; import needs one");
            return Err(TailnetUseCaseError::Invalid { detail });
        },
    };
    let mut description = to_owned_string("Imported from tailnet device ");
    description.append(device.node_id.as_str());
    description.append(" (");
    description.append(device.name.as_str());
    description.append(")");
    let key = match idempotency_key {
        Some(k) => Some(crate::onboarding::scoped_key(principal_id, k)),
        None => None,
    };
    Ok(
        NewDraft {
            endpoint: DraftEndpoint {
                user: to_owned_string(user),
                host: to_owned_string(address),
                port: match port {
                    Some(p) => p,
                    None => 22,
                },
            },
            auth: OnboardAuth::Agent,
            name: Some(device.hostname.clone()),
            description,
            tags: Vec::new(),
            groups: Vec::new(),
            idempotency_key: key,
        },
    )
}

/// The metadata fact a configuration change carries: the client
/// identifier, when given.
pub open spec fn client_fact(client_id: Option<&str>) -> Option<(Seq<char>, Seq<char>)> {
    match client_id {
        Some(id) => Some(("client_id"@, id@)),
        None => None,
    }
}

/// The audit intent a configuration change appends: the principal did
/// `tailscale.config`, allowed, with the event (and the client identifier,
/// when given) as metadata.
pub fn config_intent(principal_id: &str, event: &str, client_id: Option<&str>) -> (intent: Result<
    crate::audit::AuditIntent,
    TailnetUseCaseError,
>)
    ensures
        intent is Ok <==> crate::audit::event_metadata_ok(event@, client_fact(client_id)),
        intent matches Ok(i) ==> crate::audit::describes_event(
            i,
            principal_id@,
            crate::authz::Permission::TailnetConfig,
            None,
            event@,
            client_fact(client_id),
        ),
        intent matches Err(e) ==> e@ == TailnetErrorSpec::Backend(
            "audit"@,
            crate::audit::event_refusal(event@, client_fact(client_id)),
        ),
{
    let fact = match client_id {
        Some(id) => Some(("client_id", id)),
        None => None,
    };
    proof {
        reveal_strlit("client_id");
    }
    match crate::audit::event_intent(
        principal_id,
        crate::authz::Permission::TailnetConfig,
        None,
        event,
        fact,
    ) {
        Ok(intent) => Ok(intent),
        Err(error) => Err(TailnetUseCaseError::Backend { context: "audit", detail: error.message() }),
    }
}

} // verus!
