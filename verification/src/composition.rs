//! Deterministic profile composition: the resolved requirements of a
//! desired-state collection, with provenance for every field.
//!
//! Profiles apply in a documented order (extends first, depth-first, then the
//! profile's own requirements); set-valued requirements carry stable identity
//! with deny-wins-over-include semantics; conflicting requirements are
//! rejected, never last-write-wins; cycles and unresolved references fail
//! with stable diagnostics.

use vstd::prelude::*;

use crate::text::{decimal, join, join_texts, lex_lt, text_eq, texts, TextOrder};

verus! {

/// The resolved value of one requirement, keyed for identity.
#[derive(Clone, Debug, PartialEq, Eq)]
pub enum RequirementValue {
    /// A pinned tool version.
    Tool {
        /// The tool's name.
        tool: String,
        /// The pinned version.
        version: String,
    },
    /// A skill deployment. Deny operates at the whole-requirement level.
    Skill {
        /// The skill's identifier.
        skill_id: String,
        /// The agents the skill deploys to.
        deploy_to: Vec<String>,
    },
    /// A capability requirement.
    Capability {
        /// The capability's namespace.
        namespace: String,
        /// The capability's name.
        name: String,
    },
}

/// The mathematical value of a requirement.
pub enum RequirementSpec {
    /// A pinned tool version: the tool and the version.
    Tool(Seq<char>, Seq<char>),
    /// A skill deployment: the skill and its agents.
    Skill(Seq<char>, Seq<Seq<char>>),
    /// A capability: its namespace and name.
    Capability(Seq<char>, Seq<char>),
}

impl View for RequirementValue {
    type V = RequirementSpec;

    open spec fn view(&self) -> RequirementSpec {
        match self {
            RequirementValue::Tool { tool, version } => RequirementSpec::Tool(tool@, version@),
            RequirementValue::Skill { skill_id, deploy_to } => RequirementSpec::Skill(
                skill_id@,
                texts(deploy_to@),
            ),
            RequirementValue::Capability { namespace, name } => RequirementSpec::Capability(
                namespace@,
                name@,
            ),
        }
    }
}

/// How one character of an identity component is written: the identity
/// delimiters and the escape character itself are percent-encoded.
pub open spec fn escape_char(c: char) -> Seq<char> {
    if c == '%' {
        "%25"@
    } else if c == ':' {
        "%3A"@
    } else if c == '/' {
        "%2F"@
    } else {
        seq![c]
    }
}

/// A component with its identity delimiters percent-encoded, so a component
/// containing `:` or `/` cannot collide with another requirement's key.
pub open spec fn escape(s: Seq<char>) -> Seq<char>
    decreases s.len(),
{
    if s.len() == 0 {
        Seq::empty()
    } else {
        escape(s.drop_last()) + escape_char(s.last())
    }
}

/// Percent-encodes the identity delimiters of one component.
pub fn escape_identity(component: &str) -> (escaped: String)
    ensures
        escaped@ == escape(component@),
{
    let len = component.unicode_len();
    let mut out = String::new();
    let mut i: usize = 0;
    proof {
        assert(component@.subrange(0, 0) =~= Seq::<char>::empty());
    }
    while i < len
        invariant
            len == component@.len(),
            i <= len,
            out@ == escape(component@.subrange(0, i as int)),
        decreases len - i,
    {
        let c = component.get_char(i);
        let ghost before = out@;
        if c == '%' {
            out.append("%25");
        } else if c == ':' {
            out.append("%3A");
        } else if c == '/' {
            out.append("%2F");
        } else {
            crate::text::push_char(&mut out, c);
            proof {
                assert(before.push(c) =~= before + seq![c]);
            }
        }
        proof {
            let pre = component@.subrange(0, i + 1);
            assert(pre.drop_last() =~= component@.subrange(0, i as int));
            assert(pre.last() == c);
        }
        i = i + 1;
    }
    proof {
        assert(component@.subrange(0, len as int) =~= component@);
    }
    out
}

/// The requirement's stable identity key.
pub open spec fn identity_of(requirement: RequirementSpec) -> Seq<char> {
    match requirement {
        RequirementSpec::Tool(tool, _) => "tool:"@ + escape(tool),
        RequirementSpec::Skill(skill_id, _) => "skill:"@ + escape(skill_id),
        RequirementSpec::Capability(namespace, name) => "capability:"@ + escape(namespace)
            + "%2F"@ + escape(name),
    }
}

impl RequirementValue {
    /// The requirement's stable identity key: the same key from two resources
    /// is the same requirement.
    pub fn identity(&self) -> (identity: String)
        ensures
            identity@ == identity_of(self@),
    {
        match self {
            RequirementValue::Tool { tool, .. } => {
                let text = String::from_str("tool:");
                text.concat(escape_identity(tool.as_str()).as_str())
            },
            RequirementValue::Skill { skill_id, .. } => {
                let text = String::from_str("skill:");
                text.concat(escape_identity(skill_id.as_str()).as_str())
            },
            RequirementValue::Capability { namespace, name } => {
                let text = String::from_str("capability:");
                let text = text.concat(escape_identity(namespace.as_str()).as_str());
                let text = text.concat("%2F");
                text.concat(escape_identity(name.as_str()).as_str())
            },
        }
    }
}

/// Copies a list of strings.
fn copy_texts(v: &Vec<String>) -> (copy: Vec<String>)
    ensures
        texts(copy@) == texts(v@),
{
    let mut out: Vec<String> = Vec::new();
    let mut i: usize = 0;
    while i < v.len()
        invariant
            i <= v@.len(),
            texts(out@) == texts(v@).subrange(0, i as int),
        decreases v@.len() - i,
    {
        let ghost before = out@;
        out.push(v[i].clone());
        proof {
            assert(texts(out@) =~= texts(before).push(v@[i as int]@));
            assert(texts(v@).subrange(0, i + 1) =~= texts(v@).subrange(0, i as int).push(
                v@[i as int]@,
            ));
        }
        i = i + 1;
    }
    proof {
        assert(texts(v@).subrange(0, i as int) =~= texts(v@));
    }
    out
}

/// Copies a requirement.
fn copy_requirement(requirement: &RequirementValue) -> (copy: RequirementValue)
    ensures
        copy@ == requirement@,
{
    match requirement {
        RequirementValue::Tool { tool, version } => RequirementValue::Tool {
            tool: tool.clone(),
            version: version.clone(),
        },
        RequirementValue::Skill { skill_id, deploy_to } => RequirementValue::Skill {
            skill_id: skill_id.clone(),
            deploy_to: copy_texts(deploy_to),
        },
        RequirementValue::Capability { namespace, name } => RequirementValue::Capability {
            namespace: namespace.clone(),
            name: name.clone(),
        },
    }
}

/// Copies a composed requirement.
fn copy_composed(c: &ComposedRequirement) -> (copy: ComposedRequirement)
    ensures
        copy@ == c@,
{
    ComposedRequirement {
        requirement: copy_requirement(&c.requirement),
        provenance: ProvenanceRecord {
            resource_id: c.provenance.resource_id.clone(),
            resource_name: c.provenance.resource_name.clone(),
            path: c.provenance.path.clone(),
        },
    }
}

/// Whether two string lists hold the same texts in the same order.
fn same_texts(a: &Vec<String>, b: &Vec<String>) -> (same: bool)
    ensures
        same == (texts(a@) == texts(b@)),
{
    if a.len() != b.len() {
        proof {
            assert(texts(a@).len() != texts(b@).len());
        }
        return false;
    }
    let mut i: usize = 0;
    while i < a.len()
        invariant
            a@.len() == b@.len(),
            i <= a@.len(),
            forall|j: int| 0 <= j < i ==> a@[j]@ == b@[j]@,
        decreases a@.len() - i,
    {
        if a[i] != b[i] {
            proof {
                assert(texts(a@)[i as int] != texts(b@)[i as int]);
            }
            return false;
        }
        i = i + 1;
    }
    proof {
        assert(texts(a@) =~= texts(b@));
    }
    true
}

/// Whether two requirements are the same value.
fn same_requirement(a: &RequirementValue, b: &RequirementValue) -> (same: bool)
    ensures
        same == (a@ == b@),
{
    match (a, b) {
        (
            RequirementValue::Tool { tool: t1, version: v1 },
            RequirementValue::Tool { tool: t2, version: v2 },
        ) => *t1 == *t2 && *v1 == *v2,
        (
            RequirementValue::Skill { skill_id: s1, deploy_to: d1 },
            RequirementValue::Skill { skill_id: s2, deploy_to: d2 },
        ) => *s1 == *s2 && same_texts(d1, d2),
        (
            RequirementValue::Capability { namespace: n1, name: m1 },
            RequirementValue::Capability { namespace: n2, name: m2 },
        ) => *n1 == *n2 && *m1 == *m2,
        _ => false,
    }
}

/// Inserts a text into an ascending, duplicate-free list: unchanged when it
/// is already there, otherwise placed before the first larger text.
pub open spec fn insert_sorted_unique(r: Seq<Seq<char>>, x: Seq<char>) -> Seq<Seq<char>>
    decreases r.len(),
{
    if r.len() == 0 {
        seq![x]
    } else if r[0] == x {
        r
    } else if lex_lt(x, r[0]) {
        seq![x] + r
    } else {
        seq![r[0]] + insert_sorted_unique(r.drop_first(), x)
    }
}

/// The canonical agent set: the agents sorted ascending with duplicates
/// removed, so the same agents in another order are the same requirement.
pub open spec fn canonical_agents(s: Seq<Seq<char>>) -> Seq<Seq<char>>
    decreases s.len(),
{
    if s.len() == 0 {
        Seq::empty()
    } else {
        insert_sorted_unique(canonical_agents(s.drop_last()), s.last())
    }
}

/// A requirement with its set-valued parts canonicalized.
pub open spec fn canonicalize(requirement: RequirementSpec) -> RequirementSpec {
    match requirement {
        RequirementSpec::Skill(skill_id, agents) => RequirementSpec::Skill(
            skill_id,
            canonical_agents(agents),
        ),
        other => other,
    }
}

proof fn lemma_insert_sorted_unique_at(r: Seq<Seq<char>>, x: Seq<char>, p: int)
    requires
        0 <= p <= r.len(),
        forall|j: int| 0 <= j < p ==> r[j] != x && !lex_lt(x, #[trigger] r[j]),
        p < r.len() ==> r[p] != x && lex_lt(x, r[p]),
    ensures
        insert_sorted_unique(r, x) == r.insert(p, x),
    decreases p,
{
    if p == 0 {
        if r.len() == 0 {
            assert(r.insert(0, x) =~= seq![x]);
        } else {
            assert(r.insert(0, x) =~= seq![x] + r);
        }
    } else {
        lemma_insert_sorted_unique_at(r.drop_first(), x, p - 1);
        assert(r.insert(p, x) =~= seq![r[0]] + r.drop_first().insert(p - 1, x));
    }
}

proof fn lemma_insert_sorted_unique_present(r: Seq<Seq<char>>, x: Seq<char>, p: int)
    requires
        0 <= p < r.len(),
        forall|j: int| 0 <= j < p ==> r[j] != x && !lex_lt(x, #[trigger] r[j]),
        r[p] == x,
    ensures
        insert_sorted_unique(r, x) == r,
    decreases p,
{
    if p > 0 {
        lemma_insert_sorted_unique_present(r.drop_first(), x, p - 1);
        assert(r =~= seq![r[0]] + r.drop_first());
    }
}

/// Inserts an agent into an ascending, duplicate-free list.
pub(crate) fn insert_agent(r: &mut Vec<String>, x: &String)
    ensures
        texts(final(r)@) == insert_sorted_unique(texts(old(r)@), x@),
{
    let ghost before = texts(r@);
    let len = r.len();
    let mut p: usize = 0;
    while p < len
        invariant
            len == r@.len(),
            before == texts(r@),
            before == texts(old(r)@),
            p <= len,
            forall|j: int| 0 <= j < p ==> before[j] != x@ && !lex_lt(x@, #[trigger] before[j]),
        decreases len - p,
    {
        let order = crate::text::compare(x.as_str(), r[p].as_str());
        proof {
            assert(before[p as int] == r@[p as int]@);
        }
        if order == TextOrder::Equal {
            proof {
                lemma_insert_sorted_unique_present(before, x@, p as int);
            }
            return;
        }
        if order == TextOrder::Less {
            r.insert(p, x.clone());
            proof {
                lemma_insert_sorted_unique_at(before, x@, p as int);
                assert(texts(r@) =~= before.insert(p as int, x@));
            }
            return;
        }
        p = p + 1;
    }
    r.push(x.clone());
    proof {
        lemma_insert_sorted_unique_at(before, x@, len as int);
        assert(texts(r@) =~= before.insert(len as int, x@));
    }
}

/// Canonicalizes an agent list: ascending, duplicate-free.
pub(crate) fn canonical_agent_list(agents: &Vec<String>) -> (canonical: Vec<String>)
    ensures
        texts(canonical@) == canonical_agents(texts(agents@)),
{
    let mut out: Vec<String> = Vec::new();
    let mut i: usize = 0;
    proof {
        assert(texts(agents@).subrange(0, 0) =~= Seq::<Seq<char>>::empty());
        assert(texts(out@) =~= Seq::<Seq<char>>::empty());
    }
    while i < agents.len()
        invariant
            i <= agents@.len(),
            texts(out@) == canonical_agents(texts(agents@).subrange(0, i as int)),
        decreases agents@.len() - i,
    {
        insert_agent(&mut out, &agents[i]);
        proof {
            let pre = texts(agents@).subrange(0, i + 1);
            assert(pre.drop_last() =~= texts(agents@).subrange(0, i as int));
            assert(pre.last() == agents@[i as int]@);
        }
        i = i + 1;
    }
    proof {
        assert(texts(agents@).subrange(0, i as int) =~= texts(agents@));
    }
    out
}

/// Canonicalizes a requirement's set-valued parts.
fn canonical_requirement(requirement: &RequirementValue) -> (canonical: RequirementValue)
    ensures
        canonical@ == canonicalize(requirement@),
{
    match requirement {
        RequirementValue::Skill { skill_id, deploy_to } => RequirementValue::Skill {
            skill_id: skill_id.clone(),
            deploy_to: canonical_agent_list(deploy_to),
        },
        _ => copy_requirement(requirement),
    }
}

/// The provenance of one composed value.
#[derive(Clone, Debug, PartialEq, Eq)]
pub struct ProvenanceRecord {
    /// The contributing resource's metadata id.
    pub resource_id: String,
    /// The contributing resource's metadata name.
    pub resource_name: String,
    /// The path within the resource the value came from.
    pub path: String,
}

/// The mathematical value of a provenance record.
pub struct ProvenanceSpec {
    /// The contributing resource's id.
    pub resource_id: Seq<char>,
    /// The contributing resource's name.
    pub resource_name: Seq<char>,
    /// The path within the resource.
    pub path: Seq<char>,
}

impl View for ProvenanceRecord {
    type V = ProvenanceSpec;

    open spec fn view(&self) -> ProvenanceSpec {
        ProvenanceSpec {
            resource_id: self.resource_id@,
            resource_name: self.resource_name@,
            path: self.path@,
        }
    }
}

/// One composed requirement plus the provenance of the profile that
/// contributed it.
#[derive(Clone, Debug, PartialEq, Eq)]
pub struct ComposedRequirement {
    /// The requirement itself.
    pub requirement: RequirementValue,
    /// Which profile contributed it, and where in that profile it sits.
    pub provenance: ProvenanceRecord,
}

/// The mathematical value of a composed requirement.
pub struct ComposedSpec {
    /// The requirement.
    pub requirement: RequirementSpec,
    /// Its provenance.
    pub provenance: ProvenanceSpec,
}

impl View for ComposedRequirement {
    type V = ComposedSpec;

    open spec fn view(&self) -> ComposedSpec {
        ComposedSpec { requirement: self.requirement@, provenance: self.provenance@ }
    }
}

/// A profile resource as composition sees it: identity plus the spec.
#[derive(Clone, Debug)]
pub struct ProfileResource {
    /// The profile's metadata id.
    pub id: String,
    /// The profile's metadata name, the key other profiles refer to it by.
    pub name: String,
    /// The profiles this profile extends, in application order.
    pub extends: Vec<String>,
    /// The requirements this profile contributes.
    pub requirements: Vec<RequirementValue>,
    /// The requirement identities this profile denies.
    pub deny: Vec<String>,
}

/// The mathematical value of a profile.
pub struct ProfileSpec {
    /// Its id.
    pub id: Seq<char>,
    /// Its name.
    pub name: Seq<char>,
    /// The names it extends, in order.
    pub extends: Seq<Seq<char>>,
    /// Its requirements, in order.
    pub requirements: Seq<RequirementSpec>,
    /// The identities it denies.
    pub deny: Seq<Seq<char>>,
}

impl View for ProfileResource {
    type V = ProfileSpec;

    open spec fn view(&self) -> ProfileSpec {
        ProfileSpec {
            id: self.id@,
            name: self.name@,
            extends: texts(self.extends@),
            requirements: self.requirements@.map_values(|r: RequirementValue| r@),
            deny: texts(self.deny@),
        }
    }
}

/// A composition failure: stable diagnostics, never a guess.
#[derive(Clone, Debug, PartialEq, Eq)]
pub enum CompositionError {
    /// A profile's extends chain cycles.
    Cycle {
        /// The chain that cycled, in order.
        chain: Vec<String>,
    },
    /// A profile extends or references an unknown profile.
    UnknownProfile {
        /// The name that does not resolve.
        name: String,
        /// The profile that referenced it, when the reference did not come
        /// from the composition root.
        referenced_by: Option<String>,
    },
    /// Two profiles require different values for the same identity.
    Conflict {
        /// The requirement identity in conflict.
        identity: String,
        /// The first contributing profile.
        first: String,
        /// The second contributing profile.
        second: String,
    },
}

/// The mathematical value of a composition failure.
pub enum CompositionErrorSpec {
    /// The cycling chain.
    Cycle(Seq<Seq<char>>),
    /// The unresolved name and its referrer.
    UnknownProfile(Seq<char>, Option<Seq<char>>),
    /// The identity and the two contributing profiles.
    Conflict(Seq<char>, Seq<char>, Seq<char>),
}

impl View for CompositionError {
    type V = CompositionErrorSpec;

    open spec fn view(&self) -> CompositionErrorSpec {
        match self {
            CompositionError::Cycle { chain } => CompositionErrorSpec::Cycle(texts(chain@)),
            CompositionError::UnknownProfile { name, referenced_by } => {
                CompositionErrorSpec::UnknownProfile(
                    name@,
                    match referenced_by {
                        Some(r) => Some(r@),
                        None => None,
                    },
                )
            },
            CompositionError::Conflict { identity, first, second } => {
                CompositionErrorSpec::Conflict(identity@, first@, second@)
            },
        }
    }
}

impl CompositionError {
    /// The rendering of a composition failure.
    pub open spec fn spec_message(e: CompositionErrorSpec) -> Seq<char> {
        match e {
            CompositionErrorSpec::Cycle(chain) => "profile extends cycle: "@ + join(
                chain,
                " -> "@,
            ),
            CompositionErrorSpec::UnknownProfile(name, referenced_by) => match referenced_by {
                Some(r) => "unknown profile \""@ + name + "\" referenced by \""@ + r + "\""@,
                None => "unknown profile \""@ + name + "\""@,
            },
            CompositionErrorSpec::Conflict(identity, first, second) => "conflicting requirement "@
                + identity + ": \""@ + first + "\" and \""@ + second
                + "\" require different values"@,
        }
    }

    /// A human-readable diagnostic naming the chain, the unresolved
    /// reference, or the conflicting identity and both profiles.
    pub fn message(&self) -> (text: String)
        ensures
            text@ == Self::spec_message(self@),
    {
        match self {
            CompositionError::Cycle { chain } => {
                let text = String::from_str("profile extends cycle: ");
                text.concat(join_texts(chain, " -> ").as_str())
            },
            CompositionError::UnknownProfile { name, referenced_by } => {
                let text = String::from_str("unknown profile \"");
                let text = text.concat(name.as_str());
                match referenced_by {
                    Some(r) => {
                        let text = text.concat("\" referenced by \"");
                        let text = text.concat(r.as_str());
                        text.concat("\"")
                    },
                    None => text.concat("\""),
                }
            },
            CompositionError::Conflict { identity, first, second } => {
                let text = String::from_str("conflicting requirement ");
                let text = text.concat(identity.as_str());
                let text = text.concat(": \"");
                let text = text.concat(first.as_str());
                let text = text.concat("\" and \"");
                let text = text.concat(second.as_str());
                text.concat("\" require different values")
            },
        }
    }
}

/// The composed result: requirements keyed by stable identity, in key order.
#[derive(Clone, Debug, Default, PartialEq, Eq)]
pub struct ComposedProfile {
    /// The composed requirements, keyed by identity, ascending by key.
    pub requirements: Vec<(String, ComposedRequirement)>,
}

impl ComposedProfile {
    /// The composed requirement recorded under an identity, when any.
    pub fn get(&self, identity: &str) -> (found: Option<&ComposedRequirement>)
        ensures
            match found {
                Some(r) => exists|i: int|
                    0 <= i < self.requirements@.len() && (#[trigger] self.requirements@[i]).0@
                        == identity@ && self.requirements@[i].1 == *r,
                None => forall|i: int|
                    0 <= i < self.requirements@.len() ==> (#[trigger] self.requirements@[i]).0@
                        != identity@,
            },
    {
        let mut i: usize = 0;
        while i < self.requirements.len()
            invariant
                i <= self.requirements@.len(),
                forall|k: int| 0 <= k < i ==> (#[trigger] self.requirements@[k]).0@ != identity@,
            decreases self.requirements@.len() - i,
        {
            if text_eq(self.requirements[i].0.as_str(), identity) {
                return Some(&self.requirements[i].1);
            }
            i = i + 1;
        }
        None
    }

    /// Whether a requirement is recorded under an identity.
    pub fn contains_key(&self, identity: &str) -> (found: bool)
        ensures
            found == exists|i: int|
                0 <= i < self.requirements@.len() && (#[trigger] self.requirements@[i]).0@
                    == identity@,
    {
        self.get(identity).is_some()
    }
}

/// The composed entries as values.
pub open spec fn entries_view(es: Seq<(String, ComposedRequirement)>) -> Seq<
    (Seq<char>, ComposedSpec),
> {
    es.map_values(|e: (String, ComposedRequirement)| (e.0@, e.1@))
}

/// The traversal state: the composed entries and the identities denied so
/// far.
pub struct ComposeState {
    /// The composed entries, keyed by identity.
    pub composed: Seq<(Seq<char>, ComposedSpec)>,
    /// Every identity denied by a profile visited so far.
    pub denied: Set<Seq<char>>,
}

/// The first position of an identity among the composed entries.
pub open spec fn find_entry(es: Seq<(Seq<char>, ComposedSpec)>, key: Seq<char>) -> Option<int> {
    if exists|i: int| 0 <= i < es.len() && es[i].0 == key {
        Some(
            choose|i: int|
                0 <= i < es.len() && es[i].0 == key && forall|k: int| 0 <= k < i ==> es[k].0 != key,
        )
    } else {
        None
    }
}

/// Places a new entry before the first entry whose key sorts after it.
pub open spec fn insert_entry(
    es: Seq<(Seq<char>, ComposedSpec)>,
    key: Seq<char>,
    value: ComposedSpec,
) -> Seq<(Seq<char>, ComposedSpec)>
    decreases es.len(),
{
    if es.len() == 0 {
        seq![(key, value)]
    } else if lex_lt(key, es[0].0) {
        seq![(key, value)] + es
    } else {
        seq![es[0]] + insert_entry(es.drop_first(), key, value)
    }
}

/// The entries whose identity is not denied, in order.
pub open spec fn retain_allowed(es: Seq<(Seq<char>, ComposedSpec)>, denied: Set<Seq<char>>) -> Seq<
    (Seq<char>, ComposedSpec),
>
    decreases es.len(),
{
    if es.len() == 0 {
        Seq::empty()
    } else if denied.contains(es.last().0) {
        retain_allowed(es.drop_last(), denied)
    } else {
        retain_allowed(es.drop_last(), denied).push(es.last())
    }
}

/// The position of the profile a name refers to: the last profile carrying
/// that name.
pub open spec fn lookup_profile(registry: Seq<ProfileSpec>, name: Seq<char>) -> Option<int> {
    if exists|i: int| 0 <= i < registry.len() && registry[i].name == name {
        Some(
            choose|i: int|
                0 <= i < registry.len() && registry[i].name == name && forall|k: int|
                    i < k < registry.len() ==> registry[k].name != name,
        )
    } else {
        None
    }
}

/// The first position of a name in the visiting chain.
pub open spec fn chain_position(visiting: Seq<Seq<char>>, name: Seq<char>) -> int {
    choose|i: int|
        0 <= i < visiting.len() && visiting[i] == name && forall|k: int|
            0 <= k < i ==> visiting[k] != name
}

/// The path a profile's requirement sits at.
pub open spec fn requirement_path(index: int) -> Seq<char> {
    "/spec/requirements/"@ + decimal(index as nat)
}

/// Composes the requirements of one profile from position `i` on: each is
/// canonicalized; a denied identity is skipped; an identity already composed
/// with a different value is a conflict; a new identity is recorded with its
/// provenance.
pub open spec fn compose_requirements(profile: ProfileSpec, i: int, st: ComposeState) -> Result<
    ComposeState,
    CompositionErrorSpec,
>
    decreases profile.requirements.len() - i,
{
    if i < 0 || i >= profile.requirements.len() {
        Ok(st)
    } else {
        let requirement = canonicalize(profile.requirements[i]);
        let identity = identity_of(requirement);
        if st.denied.contains(identity) {
            compose_requirements(profile, i + 1, st)
        } else {
            match find_entry(st.composed, identity) {
                Some(j) => if st.composed[j].1.requirement != requirement {
                    Err(
                        CompositionErrorSpec::Conflict(
                            identity,
                            st.composed[j].1.provenance.resource_name,
                            profile.name,
                        ),
                    )
                } else {
                    compose_requirements(profile, i + 1, st)
                },
                None => compose_requirements(
                    profile,
                    i + 1,
                    ComposeState {
                        composed: insert_entry(
                            st.composed,
                            identity,
                            ComposedSpec {
                                requirement,
                                provenance: ProvenanceSpec {
                                    resource_id: profile.id,
                                    resource_name: profile.name,
                                    path: requirement_path(i),
                                },
                            },
                        ),
                        denied: st.denied,
                    },
                ),
            }
        }
    }
}

/// Composes one profile into the state: a name already on the visiting
/// chain is a cycle; an unknown name is a failure naming its referrer;
/// otherwise the extends compose first, depth-first, the profile's denials
/// join the denied set, its own requirements compose, and every denied
/// identity is dropped from the result.
pub open spec fn compose_node(
    registry: Seq<ProfileSpec>,
    name: Seq<char>,
    visiting: Seq<Seq<char>>,
    st: ComposeState,
) -> Result<ComposeState, CompositionErrorSpec>
    decreases registry.len() - visiting.len(), 0int,
{
    if visiting.contains(name) {
        Err(
            CompositionErrorSpec::Cycle(
                visiting.push(name).skip(chain_position(visiting, name)),
            ),
        )
    } else {
        match lookup_profile(registry, name) {
            None => Err(
                CompositionErrorSpec::UnknownProfile(
                    name,
                    if visiting.len() == 0 {
                        None
                    } else {
                        Some(visiting.last())
                    },
                ),
            ),
            Some(index) => if visiting.len() >= registry.len() {
                // Unreachable from a composition root: the visiting chain
                // holds distinct registry names, so it is shorter than the
                // registry whenever the name is found and not on it.
                Err(CompositionErrorSpec::UnknownProfile(name, None))
            } else {
                let profile = registry[index];
                match compose_parents(registry, profile.extends, 0, visiting.push(name), st) {
                    Err(e) => Err(e),
                    Ok(st1) => {
                        let st2 = ComposeState {
                            composed: st1.composed,
                            denied: st1.denied.union(profile.deny.to_set()),
                        };
                        match compose_requirements(profile, 0, st2) {
                            Err(e) => Err(e),
                            Ok(st3) => Ok(
                                ComposeState {
                                    composed: retain_allowed(st3.composed, st3.denied),
                                    denied: st3.denied,
                                },
                            ),
                        }
                    },
                }
            },
        }
    }
}

/// Composes the parents of a profile from position `i` on, in order.
pub open spec fn compose_parents(
    registry: Seq<ProfileSpec>,
    parents: Seq<Seq<char>>,
    i: int,
    visiting: Seq<Seq<char>>,
    st: ComposeState,
) -> Result<ComposeState, CompositionErrorSpec>
    decreases registry.len() - visiting.len(), parents.len() - i + 1,
{
    if i < 0 || i >= parents.len() {
        Ok(st)
    } else {
        match compose_node(registry, parents[i], visiting, st) {
            Err(e) => Err(e),
            Ok(st1) => compose_parents(registry, parents, i + 1, visiting, st1),
        }
    }
}

/// Every identity denied by a profile reachable from a name through
/// `extends` (each profile visited once along a chain, as composition
/// visits it).
pub open spec fn reachable_denials(
    registry: Seq<ProfileSpec>,
    name: Seq<char>,
    visiting: Seq<Seq<char>>,
) -> Set<Seq<char>>
    decreases registry.len() - visiting.len(), 0int,
{
    if visiting.contains(name) || visiting.len() >= registry.len() {
        Set::empty()
    } else {
        match lookup_profile(registry, name) {
            None => Set::empty(),
            Some(index) => registry[index].deny.to_set().union(
                parents_denials(registry, registry[index].extends, 0, visiting.push(name)),
            ),
        }
    }
}

/// The identities denied by the profiles reachable from the parents from
/// position `i` on.
pub open spec fn parents_denials(
    registry: Seq<ProfileSpec>,
    parents: Seq<Seq<char>>,
    i: int,
    visiting: Seq<Seq<char>>,
) -> Set<Seq<char>>
    decreases registry.len() - visiting.len(), parents.len() - i + 1,
{
    if i < 0 || i >= parents.len() {
        Set::empty()
    } else {
        reachable_denials(registry, parents[i], visiting).union(
            parents_denials(registry, parents, i + 1, visiting),
        )
    }
}

/// The composition of a profile: every denial of every reachable profile
/// is collected first, so a deny holds for the whole traversal whatever
/// the order of `extends`; composition then starts from no entries and that
/// denied set. The composed entries, or the failure.
pub open spec fn spec_compose_profile(registry: Seq<ProfileSpec>, name: Seq<char>) -> Result<
    Seq<(Seq<char>, ComposedSpec)>,
    CompositionErrorSpec,
> {
    match compose_node(
        registry,
        name,
        Seq::empty(),
        ComposeState { composed: Seq::empty(), denied: reachable_denials(registry, name, Seq::empty()) },
    ) {
        Ok(st) => Ok(st.composed),
        Err(e) => Err(e),
    }
}

/// The registry as values.
pub open spec fn registry_view(profiles: Seq<ProfileResource>) -> Seq<ProfileSpec> {
    profiles.map_values(|p: ProfileResource| p@)
}

/// The denied set a list of identities stands for.
pub open spec fn denied_view(denied: Seq<String>) -> Set<Seq<char>> {
    texts(denied).to_set()
}

/// Whether a visiting chain is one a composition root can produce: distinct
/// names, each naming a profile of the registry.
pub open spec fn chain_ok(registry: Seq<ProfileSpec>, visiting: Seq<Seq<char>>) -> bool {
    &&& visiting.no_duplicates()
    &&& forall|i: int|
        0 <= i < visiting.len() ==> #[trigger] lookup_profile(registry, visiting[i]) is Some
    &&& visiting.len() <= registry.len()
}

proof fn lemma_chain_grows(registry: Seq<ProfileSpec>, visiting: Seq<Seq<char>>, name: Seq<char>)
    requires
        chain_ok(registry, visiting),
        !visiting.contains(name),
        lookup_profile(registry, name) is Some,
    ensures
        chain_ok(registry, visiting.push(name)),
        visiting.len() < registry.len(),
{
    let v2 = visiting.push(name);
    let names = registry.map_values(|p: ProfileSpec| p.name);
    assert(v2.no_duplicates()) by {
        assert forall|i: int, j: int| 0 <= i < v2.len() && 0 <= j < v2.len() && i != j implies v2[i]
            != v2[j] by {
            if i < visiting.len() && j < visiting.len() {
            } else if i == visiting.len() {
                assert(v2[j] == visiting[j]);
            } else {
                assert(v2[i] == visiting[i]);
            }
        }
    }
    assert forall|i: int| 0 <= i < v2.len() implies #[trigger] lookup_profile(registry, v2[i]) is Some by {
        if i < visiting.len() {
            assert(v2[i] == visiting[i]);
        }
    }
    assert(v2.to_set().subset_of(names.to_set())) by {
        assert forall|x: Seq<char>| v2.to_set().contains(x) implies names.to_set().contains(x) by {
            let i = choose|i: int| 0 <= i < v2.len() && v2[i] == x;
            assert(lookup_profile(registry, v2[i]) is Some);
            let k = choose|k: int| 0 <= k < registry.len() && registry[k].name == x;
            assert(names[k] == x);
        }
    }
    names.lemma_cardinality_of_set();
    vstd::set_lib::lemma_len_subset(v2.to_set(), names.to_set());
    v2.unique_seq_to_set();
}

/// Finds the first entry with an identity.
fn find_composed(composed: &Vec<(String, ComposedRequirement)>, key: &str) -> (found: Option<usize>)
    ensures
        match found {
            Some(i) => find_entry(entries_view(composed@), key@) == Some(i as int) && i
                < composed@.len(),
            None => find_entry(entries_view(composed@), key@) is None,
        },
{
    let ghost es = entries_view(composed@);
    let mut i: usize = 0;
    while i < composed.len()
        invariant
            es == entries_view(composed@),
            i <= composed@.len(),
            forall|k: int| 0 <= k < i ==> es[k].0 != key@,
        decreases composed@.len() - i,
    {
        if crate::text::text_eq(composed[i].0.as_str(), key) {
            proof {
                assert(es[i as int].0 == key@);
                let w = choose|j: int|
                    0 <= j < es.len() && es[j].0 == key@ && forall|k: int| 0 <= k < j ==> es[k].0
                        != key@;
                if w < i {
                    assert(es[w].0 != key@);
                }
                if w > i {
                    assert(es[i as int].0 != key@);
                }
            }
            return Some(i);
        }
        i = i + 1;
    }
    None
}

proof fn lemma_insert_entry_at(
    es: Seq<(Seq<char>, ComposedSpec)>,
    key: Seq<char>,
    value: ComposedSpec,
    p: int,
)
    requires
        0 <= p <= es.len(),
        forall|j: int| 0 <= j < p ==> !lex_lt(key, #[trigger] es[j].0),
        p < es.len() ==> lex_lt(key, es[p].0),
    ensures
        insert_entry(es, key, value) == es.insert(p, (key, value)),
    decreases p,
{
    if p == 0 {
        if es.len() == 0 {
            assert(es.insert(0, (key, value)) =~= seq![(key, value)]);
        } else {
            assert(es.insert(0, (key, value)) =~= seq![(key, value)] + es);
        }
    } else {
        lemma_insert_entry_at(es.drop_first(), key, value, p - 1);
        assert(es.insert(p, (key, value)) =~= seq![es[0]] + es.drop_first().insert(
            p - 1,
            (key, value),
        ));
    }
}

/// Places a new entry before the first entry whose key sorts after it.
fn insert_composed(
    composed: &mut Vec<(String, ComposedRequirement)>,
    key: String,
    value: ComposedRequirement,
)
    ensures
        entries_view(final(composed)@) == insert_entry(entries_view(old(composed)@), key@, value@),
{
    let ghost before = entries_view(composed@);
    let len = composed.len();
    let mut p: usize = 0;
    while p < len
        invariant
            len == composed@.len(),
            before == entries_view(composed@),
            before == entries_view(old(composed)@),
            p <= len,
            forall|j: int| 0 <= j < p ==> !lex_lt(key@, #[trigger] before[j].0),
        decreases len - p,
    {
        let order = crate::text::compare(key.as_str(), composed[p].0.as_str());
        proof {
            assert(before[p as int].0 == composed@[p as int].0@);
        }
        if order == TextOrder::Less {
            let ghost k = key@;
            let ghost v = value@;
            composed.insert(p, (key, value));
            proof {
                lemma_insert_entry_at(before, k, v, p as int);
                assert(entries_view(composed@) =~= before.insert(p as int, (k, v)));
            }
            return;
        }
        proof {
            if order == TextOrder::Equal {
                crate::text::lemma_lex_irreflexive(key@);
            }
        }
        p = p + 1;
    }
    let ghost k = key@;
    let ghost v = value@;
    composed.push((key, value));
    proof {
        lemma_insert_entry_at(before, k, v, len as int);
        assert(entries_view(composed@) =~= before.insert(len as int, (k, v)));
    }
}

/// Whether an identity was denied.
fn is_denied(denied: &Vec<String>, key: &str) -> (found: bool)
    ensures
        found == denied_view(denied@).contains(key@),
{
    let mut i: usize = 0;
    while i < denied.len()
        invariant
            i <= denied@.len(),
            forall|k: int| 0 <= k < i ==> denied@[k]@ != key@,
        decreases denied@.len() - i,
    {
        if crate::text::text_eq(denied[i].as_str(), key) {
            proof {
                assert(texts(denied@)[i as int] == key@);
            }
            return true;
        }
        i = i + 1;
    }
    proof {
        if denied_view(denied@).contains(key@) {
            let j = choose|j: int| 0 <= j < texts(denied@).len() && texts(denied@)[j] == key@;
            assert(denied@[j]@ == key@);
        }
    }
    false
}

/// Drops every denied identity from the composed entries.
fn retain_composed(composed: &mut Vec<(String, ComposedRequirement)>, denied: &Vec<String>)
    ensures
        entries_view(final(composed)@) == retain_allowed(
            entries_view(old(composed)@),
            denied_view(denied@),
        ),
{
    let ghost before = entries_view(composed@);
    let ghost ds = denied_view(denied@);
    let mut kept: Vec<(String, ComposedRequirement)> = Vec::new();
    let mut source: Vec<(String, ComposedRequirement)> = Vec::new();
    std::mem::swap(&mut source, composed);
    let len = source.len();
    let mut i: usize = 0;
    proof {
        assert(before.subrange(0, 0) =~= Seq::<(Seq<char>, ComposedSpec)>::empty());
        assert(entries_view(kept@) =~= Seq::<(Seq<char>, ComposedSpec)>::empty());
    }
    while i < len
        invariant
            len == source@.len(),
            before == entries_view(source@),
            ds == denied_view(denied@),
            i <= len,
            entries_view(kept@) == retain_allowed(before.subrange(0, i as int), ds),
        decreases len - i,
    {
        let entry = &source[i];
        let drop = is_denied(denied, entry.0.as_str());
        proof {
            let pre = before.subrange(0, i + 1);
            assert(pre.drop_last() =~= before.subrange(0, i as int));
            assert(pre.last() == before[i as int]);
            assert(before[i as int].0 == entry.0@);
        }
        if !drop {
            let ghost old_kept = kept@;
            kept.push((entry.0.clone(), copy_composed(&entry.1)));
            proof {
                assert(entries_view(kept@) =~= entries_view(old_kept).push(before[i as int]));
            }
        }
        i = i + 1;
    }
    proof {
        assert(before.subrange(0, len as int) =~= before);
    }
    *composed = kept;
}

/// Composes one profile's own requirements into the state.
fn compose_profile_requirements(
    profile: &ProfileResource,
    composed: &mut Vec<(String, ComposedRequirement)>,
    denied: &Vec<String>,
) -> (result: Result<(), CompositionError>)
    ensures
        match compose_requirements(
            profile@,
            0,
            ComposeState {
                composed: entries_view(old(composed)@),
                denied: denied_view(denied@),
            },
        ) {
            Ok(st) => result is Ok && entries_view(final(composed)@) == st.composed && st.denied
                == denied_view(denied@),
            Err(e) => result matches Err(err) && err@ == e,
        },
{
    proof {
        lemma_requirements_keep_denied(
            profile@,
            0,
            ComposeState { composed: entries_view(composed@), denied: denied_view(denied@) },
        );
    }
    let ghost p = profile@;
    let ghost ds = denied_view(denied@);
    let ghost target = compose_requirements(
        p,
        0,
        ComposeState { composed: entries_view(composed@), denied: ds },
    );
    let mut i: usize = 0;
    while i < profile.requirements.len()
        invariant
            p == profile@,
            ds == denied_view(denied@),
            i <= profile.requirements@.len(),
            p.requirements.len() == profile.requirements@.len(),
            target == compose_requirements(
                p,
                0,
                ComposeState { composed: entries_view(old(composed)@), denied: ds },
            ),
            target == compose_requirements(
                p,
                i as int,
                ComposeState { composed: entries_view(composed@), denied: ds },
            ),
        decreases profile.requirements@.len() - i,
    {
        let requirement = canonical_requirement(&profile.requirements[i]);
        let identity = requirement.identity();
        proof {
            assert(p.requirements[i as int] == profile.requirements@[i as int]@);
        }
        if is_denied(denied, identity.as_str()) {
            i = i + 1;
            continue;
        }
        match find_composed(composed, identity.as_str()) {
            Some(j) => {
                if !same_requirement(&composed[j].1.requirement, &requirement) {
                    proof {
                        let es = entries_view(composed@);
                        assert(es[j as int].1 == composed@[j as int].1@);
                        assert(es[j as int].1.provenance.resource_name
                            == composed@[j as int].1.provenance.resource_name@);
                        assert(identity@ == identity_of(canonicalize(p.requirements[i as int])));
                        assert(!ds.contains(identity@));
                        assert(find_entry(es, identity@) == Some(j as int));
                        assert(es[j as int].1.requirement != canonicalize(p.requirements[i as int]));
                    }
                    return Err(
                        CompositionError::Conflict {
                            identity,
                            first: composed[j].1.provenance.resource_name.clone(),
                            second: profile.name.clone(),
                        },
                    );
                }
                proof {
                    assert(entries_view(composed@)[j as int].1 == composed@[j as int].1@);
                }
            },
            None => {
                let path = String::from_str("/spec/requirements/");
                let path = path.concat(crate::text::format_decimal(i as u64).as_str());
                let value = ComposedRequirement {
                    requirement,
                    provenance: ProvenanceRecord {
                        resource_id: profile.id.clone(),
                        resource_name: profile.name.clone(),
                        path,
                    },
                };
                insert_composed(composed, identity, value);
            },
        }
        i = i + 1;
    }
    Ok(())
}

proof fn lemma_requirements_keep_denied(profile: ProfileSpec, i: int, st: ComposeState)
    ensures
        compose_requirements(profile, i, st) matches Ok(st2) ==> st2.denied == st.denied,
    decreases profile.requirements.len() - i,
{
    if 0 <= i < profile.requirements.len() {
        let requirement = canonicalize(profile.requirements[i]);
        let identity = identity_of(requirement);
        lemma_requirements_keep_denied(profile, i + 1, st);
        lemma_requirements_keep_denied(
            profile,
            i + 1,
            ComposeState {
                composed: insert_entry(
                    st.composed,
                    identity,
                    ComposedSpec {
                        requirement,
                        provenance: ProvenanceSpec {
                            resource_id: profile.id,
                            resource_name: profile.name,
                            path: requirement_path(i),
                        },
                    },
                ),
                denied: st.denied,
            },
        );
    }
}

/// The chain of a cycle: the visiting chain plus the repeated name, trimmed
/// to start at the name's first appearance.
fn cycle_chain(visiting: &Vec<String>, name: &str) -> (chain: Vec<String>)
    requires
        texts(visiting@).contains(name@),
    ensures
        texts(chain@) == texts(visiting@).push(name@).skip(
            chain_position(texts(visiting@), name@),
        ),
{
    let ghost v = texts(visiting@);
    let mut start: usize = 0;
    while start < visiting.len() && !crate::text::text_eq(visiting[start].as_str(), name)
        invariant
            v == texts(visiting@),
            v.contains(name@),
            start <= visiting@.len(),
            forall|k: int| 0 <= k < start ==> v[k] != name@,
        decreases visiting@.len() - start,
    {
        start = start + 1;
    }
    proof {
        if start == visiting@.len() {
            let j = choose|j: int| 0 <= j < v.len() && v[j] == name@;
            assert(v[j] != name@);
        }
        assert(v[start as int] == name@);
        let w = chain_position(v, name@);
        assert(0 <= start < v.len() && v[start as int] == name@ && forall|k: int|
            0 <= k < start ==> v[k] != name@);
        if w < start {
            assert(v[w] != name@);
        }
        if w > start {
            assert(v[start as int] != name@);
        }
    }
    let mut chain: Vec<String> = Vec::new();
    let mut i: usize = start;
    let ghost full = v.push(name@);
    proof {
        assert(texts(chain@) =~= full.subrange(start as int, start as int));
    }
    while i < visiting.len()
        invariant
            v == texts(visiting@),
            full == v.push(name@),
            start <= i <= visiting@.len(),
            texts(chain@) == full.subrange(start as int, i as int),
        decreases visiting@.len() - i,
    {
        let ghost before = chain@;
        chain.push(visiting[i].clone());
        proof {
            assert(texts(chain@) =~= texts(before).push(v[i as int]));
            assert(full.subrange(start as int, i + 1) =~= full.subrange(start as int, i as int).push(
                full[i as int],
            ));
        }
        i = i + 1;
    }
    let ghost before = chain@;
    chain.push(crate::text::to_owned_string(name));
    proof {
        assert(texts(chain@) =~= texts(before).push(name@));
        assert(full.skip(start as int) =~= full.subrange(start as int, i as int).push(name@));
    }
    chain
}

/// Finds the profile a name refers to: the last one carrying it.
fn find_profile(profiles: &[ProfileResource], name: &str) -> (found: Option<usize>)
    ensures
        match found {
            Some(i) => lookup_profile(registry_view(profiles@), name@) == Some(i as int) && i
                < profiles@.len(),
            None => lookup_profile(registry_view(profiles@), name@) is None,
        },
{
    let ghost reg = registry_view(profiles@);
    let mut i: usize = profiles.len();
    while i > 0
        invariant
            reg == registry_view(profiles@),
            i <= profiles@.len(),
            forall|k: int| i <= k < reg.len() ==> reg[k].name != name@,
        decreases i,
    {
        if crate::text::text_eq(profiles[i - 1].name.as_str(), name) {
            proof {
                let p = (i - 1) as int;
                assert(reg[p].name == name@);
                let w = choose|j: int|
                    0 <= j < reg.len() && reg[j].name == name@ && forall|k: int|
                        j < k < reg.len() ==> reg[k].name != name@;
                if w < p {
                    assert(reg[p].name != name@);
                }
                if w > p {
                    assert(reg[w].name != name@);
                }
            }
            return Some(i - 1);
        }
        i = i - 1;
    }
    None
}

/// Whether a name is on the visiting chain.
fn on_chain(visiting: &Vec<String>, name: &str) -> (found: bool)
    ensures
        found == texts(visiting@).contains(name@),
{
    let mut i: usize = 0;
    while i < visiting.len()
        invariant
            i <= visiting@.len(),
            forall|k: int| 0 <= k < i ==> visiting@[k]@ != name@,
        decreases visiting@.len() - i,
    {
        if crate::text::text_eq(visiting[i].as_str(), name) {
            proof {
                assert(texts(visiting@)[i as int] == name@);
            }
            return true;
        }
        i = i + 1;
    }
    false
}

/// Composes one profile into the traversal state (see [`compose_node`]).
fn compose_into(
    name: &str,
    profiles: &[ProfileResource],
    composed: &mut Vec<(String, ComposedRequirement)>,
    visiting: &mut Vec<String>,
    denied: &mut Vec<String>,
) -> (result: Result<(), CompositionError>)
    requires
        chain_ok(registry_view(profiles@), texts(old(visiting)@)),
    ensures
        match compose_node(
            registry_view(profiles@),
            name@,
            texts(old(visiting)@),
            ComposeState {
                composed: entries_view(old(composed)@),
                denied: denied_view(old(denied)@),
            },
        ) {
            Ok(st) => result is Ok && entries_view(final(composed)@) == st.composed && denied_view(
                final(denied)@,
            ) == st.denied && final(visiting)@ == old(visiting)@,
            Err(e) => result matches Err(err) && err@ == e,
        },
    decreases profiles@.len() - visiting@.len(),
{
    let ghost reg = registry_view(profiles@);
    let ghost v0 = texts(visiting@);
    if on_chain(visiting, name) {
        return Err(CompositionError::Cycle { chain: cycle_chain(visiting, name) });
    }
    let index = match find_profile(profiles, name) {
        Some(index) => index,
        None => {
            let referenced_by = if visiting.len() == 0 {
                None
            } else {
                Some(visiting[visiting.len() - 1].clone())
            };
            return Err(
                CompositionError::UnknownProfile {
                    name: crate::text::to_owned_string(name),
                    referenced_by,
                },
            );
        },
    };
    proof {
        lemma_chain_grows(reg, v0, name@);
    }
    let profile = &profiles[index];
    let ghost p = profile@;
    proof {
        assert(reg[index as int] == p);
    }
    let ghost before_push = visiting@;
    visiting.push(crate::text::to_owned_string(name));
    proof {
        assert(texts(visiting@) =~= v0.push(name@));
    }
    let ghost v1 = texts(visiting@);
    let ghost st0 = ComposeState {
        composed: entries_view(composed@),
        denied: denied_view(denied@),
    };
    let ghost target = compose_parents(reg, p.extends, 0, v1, st0);
    let mut i: usize = 0;
    let mut failure: Option<CompositionError> = None;
    while i < profile.extends.len() && failure.is_none()
        invariant
            reg == registry_view(profiles@),
            p == profile@,
            p.extends.len() == profile.extends@.len(),
            failure is None ==> v1 == texts(visiting@),
            failure is None ==> visiting@ == before_push.push(visiting@.last()),
            failure is None ==> visiting@.len() == before_push.len() + 1,
            before_push == old(visiting)@,
            reg.len() == profiles@.len(),
            chain_ok(reg, v1),
            i <= profile.extends@.len(),
            match failure {
                Some(e) => target == Err::<ComposeState, CompositionErrorSpec>(e@),
                None => target == compose_parents(
                    reg,
                    p.extends,
                    i as int,
                    v1,
                    ComposeState { composed: entries_view(composed@), denied: denied_view(denied@) },
                ),
            },
        decreases (profile.extends@.len() - i) * 2 + if failure is None {
            1int
        } else {
            0int
        },
    {
        proof {
            assert(p.extends[i as int] == profile.extends@[i as int]@);
        }
        let step = compose_into(profile.extends[i].as_str(), profiles, composed, visiting, denied);
        match step {
            Err(e) => {
                failure = Some(e);
            },
            Ok(()) => {
                i = i + 1;
            },
        }
    }
    if let Some(e) = failure {
        proof {
            assert(compose_node(reg, name@, v0, st0) == Err::<ComposeState, CompositionErrorSpec>(e@));
        }
        return Err(e);
    }
    let ghost st1 = ComposeState {
        composed: entries_view(composed@),
        denied: denied_view(denied@),
    };
    proof {
        assert(target == Ok::<ComposeState, CompositionErrorSpec>(st1));
    }
    let mut d: usize = 0;
    let ghost denied_start = denied@;
    while d < profile.deny.len()
        invariant
            p == profile@,
            d <= profile.deny@.len(),
            denied_view(denied@) == denied_view(denied_start).union(
                texts(profile.deny@).subrange(0, d as int).to_set(),
            ),
        decreases profile.deny@.len() - d,
    {
        let ghost before = denied@;
        denied.push(profile.deny[d].clone());
        proof {
            let item = profile.deny@[d as int]@;
            assert(texts(denied@) =~= texts(before).push(item));
            assert(texts(profile.deny@).subrange(0, d + 1) =~= texts(profile.deny@).subrange(
                0,
                d as int,
            ).push(item));
            texts(before).lemma_push_to_set_commute(item);
            texts(profile.deny@).subrange(0, d as int).lemma_push_to_set_commute(item);
            assert(denied_view(denied@) =~= denied_view(denied_start).union(
                texts(profile.deny@).subrange(0, d + 1).to_set(),
            ));
        }
        d = d + 1;
    }
    proof {
        assert(texts(profile.deny@).subrange(0, d as int) =~= p.deny);
        assert(denied_view(denied@) == st1.denied.union(p.deny.to_set()));
    }
    let ghost st2 = ComposeState {
        composed: entries_view(composed@),
        denied: denied_view(denied@),
    };
    proof {
        assert(st2.denied == st1.denied.union(p.deny.to_set()));
        assert(st2.composed == st1.composed);
    }
    let step = compose_profile_requirements(profile, composed, denied);
    match step {
        Err(e) => {
            proof {
                assert(compose_requirements(p, 0, st2) == Err::<ComposeState, CompositionErrorSpec>(e@));
                assert(compose_node(reg, name@, v0, st0) == Err::<ComposeState, CompositionErrorSpec>(e@));
            }
            return Err(e);
        },
        Ok(()) => {},
    }
    let ghost st3 = ComposeState {
        composed: entries_view(composed@),
        denied: denied_view(denied@),
    };
    proof {
        assert(compose_requirements(p, 0, st2) == Ok::<ComposeState, CompositionErrorSpec>(st3));
    }
    retain_composed(composed, denied);
    visiting.pop();
    proof {
        assert(visiting@ =~= before_push);
        assert(compose_node(reg, name@, v0, st0) == Ok::<ComposeState, CompositionErrorSpec>(
            ComposeState { composed: retain_allowed(st3.composed, st3.denied), denied: st3.denied },
        ));
    }
    Ok(())
}

/// Appends one profile's denials.
fn push_denials(profile: &ProfileResource, out: &mut Vec<String>)
    ensures
        denied_view(final(out)@) == denied_view(old(out)@).union(profile@.deny.to_set()),
{
    let ghost start = out@;
    let mut d: usize = 0;
    while d < profile.deny.len()
        invariant
            d <= profile.deny@.len(),
            denied_view(out@) == denied_view(start).union(
                texts(profile.deny@).subrange(0, d as int).to_set(),
            ),
        decreases profile.deny@.len() - d,
    {
        let ghost before = out@;
        out.push(profile.deny[d].clone());
        proof {
            let item = profile.deny@[d as int]@;
            assert(texts(out@) =~= texts(before).push(item));
            assert(texts(profile.deny@).subrange(0, d + 1) =~= texts(profile.deny@).subrange(
                0,
                d as int,
            ).push(item));
            texts(before).lemma_push_to_set_commute(item);
            texts(profile.deny@).subrange(0, d as int).lemma_push_to_set_commute(item);
            assert(denied_view(out@) =~= denied_view(start).union(
                texts(profile.deny@).subrange(0, d + 1).to_set(),
            ));
        }
        d = d + 1;
    }
    proof {
        assert(texts(profile.deny@).subrange(0, d as int) =~= profile@.deny);
    }
}

/// Collects the denials of every profile reachable from a name (see
/// [`reachable_denials`]).
fn collect_denials(
    name: &str,
    profiles: &[ProfileResource],
    visiting: &mut Vec<String>,
    out: &mut Vec<String>,
)
    ensures
        final(visiting)@ == old(visiting)@,
        denied_view(final(out)@) == denied_view(old(out)@).union(
            reachable_denials(registry_view(profiles@), name@, texts(old(visiting)@)),
        ),
    decreases profiles@.len() - visiting@.len(),
{
    let ghost reg = registry_view(profiles@);
    let ghost v0 = texts(visiting@);
    let ghost out0 = denied_view(out@);
    if on_chain(visiting, name) || visiting.len() >= profiles.len() {
        proof {
            assert(out0.union(Set::<Seq<char>>::empty()) =~= out0);
        }
        return;
    }
    let index = match find_profile(profiles, name) {
        Some(index) => index,
        None => {
            proof {
                assert(out0.union(Set::<Seq<char>>::empty()) =~= out0);
            }
            return;
        },
    };
    let profile = &profiles[index];
    let ghost p = profile@;
    proof {
        assert(reg[index as int] == p);
    }
    push_denials(profile, out);
    let ghost before_push = visiting@;
    visiting.push(crate::text::to_owned_string(name));
    proof {
        assert(texts(visiting@) =~= v0.push(name@));
    }
    let ghost v1 = texts(visiting@);
    let ghost goal = out0.union(p.deny.to_set()).union(parents_denials(reg, p.extends, 0, v1));
    let mut i: usize = 0;
    while i < profile.extends.len()
        invariant
            reg == registry_view(profiles@),
            p == profile@,
            p.extends.len() == profile.extends@.len(),
            v1 == texts(visiting@),
            visiting@ == before_push.push(visiting@.last()),
            visiting@.len() == before_push.len() + 1,
            before_push == old(visiting)@,
            reg.len() == profiles@.len(),
            v1.len() <= reg.len(),
            i <= profile.extends@.len(),
            denied_view(out@).union(parents_denials(reg, p.extends, i as int, v1)) == goal,
        decreases profile.extends@.len() - i,
    {
        proof {
            assert(p.extends[i as int] == profile.extends@[i as int]@);
        }
        let ghost out_before = denied_view(out@);
        collect_denials(profile.extends[i].as_str(), profiles, visiting, out);
        proof {
            assert(denied_view(out@).union(parents_denials(reg, p.extends, i + 1, v1)) =~= out_before.union(
                parents_denials(reg, p.extends, i as int, v1),
            ));
        }
        i = i + 1;
    }
    proof {
        assert(parents_denials(reg, p.extends, i as int, v1) == Set::<Seq<char>>::empty());
        assert(denied_view(out@) =~= goal);
        assert(goal =~= out0.union(reachable_denials(reg, name@, v0)));
    }
    visiting.pop();
    proof {
        assert(visiting@ =~= before_push);
    }
}

/// Composes one profile's requirements: extends chains resolve depth-first
/// with cycle refusal, deny wins over include, and a conflict between two
/// profiles is a rejection, never last-write-wins. Profiles are found by
/// name; when two carry the same name, the later one is the one composed.
///
/// # Errors
///
/// Fails on a cycle, an unknown reference, or a conflicting requirement.
pub fn compose_profile(name: &str, profiles: &[ProfileResource]) -> (result: Result<
    ComposedProfile,
    CompositionError,
>)
    ensures
        match spec_compose_profile(registry_view(profiles@), name@) {
            Ok(entries) => result matches Ok(composed) && entries_view(composed.requirements@)
                == entries,
            Err(e) => result matches Err(err) && err@ == e,
        },
{
    let mut composed: Vec<(String, ComposedRequirement)> = Vec::new();
    let mut visiting: Vec<String> = Vec::new();
    let mut denied: Vec<String> = Vec::new();
    proof {
        assert(entries_view(composed@) =~= Seq::<(Seq<char>, ComposedSpec)>::empty());
        assert(texts(visiting@) =~= Seq::<Seq<char>>::empty());
        assert(denied_view(denied@) =~= Set::<Seq<char>>::empty());
    }
    collect_denials(name, profiles, &mut visiting, &mut denied);
    proof {
        assert(texts(visiting@) =~= Seq::<Seq<char>>::empty());
        assert(denied_view(denied@) =~= reachable_denials(
            registry_view(profiles@),
            name@,
            Seq::empty(),
        ));
    }
    match compose_into(name, profiles, &mut composed, &mut visiting, &mut denied) {
        Ok(()) => Ok(ComposedProfile { requirements: composed }),
        Err(e) => Err(e),
    }
}

/// Whether composed entries are keyed by their requirements' identities in
/// strictly ascending key order.
pub open spec fn keyed_and_sorted(es: Seq<(Seq<char>, ComposedSpec)>) -> bool {
    &&& forall|i: int, j: int| 0 <= i < j < es.len() ==> lex_lt(#[trigger] es[i].0, #[trigger] es[j].0)
    &&& forall|i: int| 0 <= i < es.len() ==> #[trigger] es[i].0 == identity_of(es[i].1.requirement)
}

proof fn lemma_insert_entry_members(
    es: Seq<(Seq<char>, ComposedSpec)>,
    key: Seq<char>,
    value: ComposedSpec,
)
    ensures
        insert_entry(es, key, value).len() == es.len() + 1,
        forall|x: (Seq<char>, ComposedSpec)| #[trigger] insert_entry(es, key, value).contains(x) ==> x
            == (key, value) || es.contains(x),
    decreases es.len(),
{
    if es.len() > 0 && !lex_lt(key, es[0].0) {
        lemma_insert_entry_members(es.drop_first(), key, value);
        let rest = insert_entry(es.drop_first(), key, value);
        assert forall|x: (Seq<char>, ComposedSpec)| #[trigger] insert_entry(es, key, value).contains(
            x,
        ) implies x == (key, value) || es.contains(x) by {
            let ins = insert_entry(es, key, value);
            let i = choose|i: int| 0 <= i < ins.len() && ins[i] == x;
            if i == 0 {
                assert(es[0] == x);
            } else {
                assert(rest[i - 1] == x);
                assert(rest.contains(x));
                if x != (key, value) {
                    let k = choose|k: int| 0 <= k < es.drop_first().len() && es.drop_first()[k] == x;
                    assert(es[k + 1] == x);
                }
            }
        }
    } else if es.len() > 0 {
        assert forall|x: (Seq<char>, ComposedSpec)| #[trigger] insert_entry(es, key, value).contains(
            x,
        ) implies x == (key, value) || es.contains(x) by {
            let ins = insert_entry(es, key, value);
            let i = choose|i: int| 0 <= i < ins.len() && ins[i] == x;
            if i > 0 {
                assert(es[i - 1] == x);
            }
        }
    } else {
        assert forall|x: (Seq<char>, ComposedSpec)| #[trigger] insert_entry(es, key, value).contains(
            x,
        ) implies x == (key, value) || es.contains(x) by {
            let ins = insert_entry(es, key, value);
            let i = choose|i: int| 0 <= i < ins.len() && ins[i] == x;
            assert(i == 0);
        }
    }
}

proof fn lemma_insert_entry_keeps_order(
    es: Seq<(Seq<char>, ComposedSpec)>,
    key: Seq<char>,
    value: ComposedSpec,
)
    requires
        keyed_and_sorted(es),
        find_entry(es, key) is None,
        key == identity_of(value.requirement),
    ensures
        keyed_and_sorted(insert_entry(es, key, value)),
    decreases es.len(),
{
    let ins = insert_entry(es, key, value);
    lemma_insert_entry_members(es, key, value);
    if es.len() == 0 {
    } else if lex_lt(key, es[0].0) {
        assert forall|i: int, j: int| 0 <= i < j < ins.len() implies lex_lt(
            #[trigger] ins[i].0,
            #[trigger] ins[j].0,
        ) by {
            if i == 0 {
                if j > 1 {
                    assert(lex_lt(es[0].0, es[j - 1].0));
                    crate::text::lemma_lex_transitive(key, es[0].0, es[j - 1].0);
                }
            } else {
                assert(lex_lt(es[i - 1].0, es[j - 1].0));
            }
        }
    } else {
        let tail = es.drop_first();
        assert(keyed_and_sorted(tail)) by {
            assert forall|i: int, j: int| 0 <= i < j < tail.len() implies lex_lt(
                #[trigger] tail[i].0,
                #[trigger] tail[j].0,
            ) by {
                assert(lex_lt(es[i + 1].0, es[j + 1].0));
            }
            assert forall|i: int| 0 <= i < tail.len() implies #[trigger] tail[i].0 == identity_of(
                tail[i].1.requirement,
            ) by {
                assert(es[i + 1].0 == identity_of(es[i + 1].1.requirement));
            }
        }
        assert(find_entry(tail, key) is None) by {
            if exists|i: int| 0 <= i < tail.len() && tail[i].0 == key {
                let i = choose|i: int| 0 <= i < tail.len() && tail[i].0 == key;
                assert(es[i + 1].0 == key);
            }
        }
        lemma_insert_entry_keeps_order(tail, key, value);
        lemma_insert_entry_members(tail, key, value);
        let rest = insert_entry(tail, key, value);
        assert(es[0].0 != key);
        crate::text::lemma_lex_total(es[0].0, key);
        assert(lex_lt(es[0].0, key));
        assert forall|i: int, j: int| 0 <= i < j < ins.len() implies lex_lt(
            #[trigger] ins[i].0,
            #[trigger] ins[j].0,
        ) by {
            if i == 0 {
                let x = rest[j - 1];
                assert(rest.contains(x));
                if x != (key, value) {
                    let k = choose|k: int| 0 <= k < es.len() && es[k] == x;
                    if k == 0 {
                        assert(x.0 == es[0].0);
                        assert(es[0].0 != key);
                        assert(find_entry(es, key) is None);
                        // The key of x occurs again after position 0 in rest,
                        // which only holds tail entries and the new one.
                        let m = choose|m: int| 0 <= m < tail.len() && tail[m] == x;
                        assert(lex_lt(es[0].0, es[m + 1].0));
                        crate::text::lemma_lex_irreflexive(es[0].0);
                    } else {
                        assert(lex_lt(es[0].0, es[k].0));
                    }
                }
            } else {
                assert(lex_lt(rest[i - 1].0, rest[j - 1].0));
            }
        }
        assert forall|i: int| 0 <= i < ins.len() implies #[trigger] ins[i].0 == identity_of(
            ins[i].1.requirement,
        ) by {
            if i > 0 {
                assert(rest[i - 1].0 == identity_of(rest[i - 1].1.requirement));
            }
        }
    }
}

proof fn lemma_retain_members(es: Seq<(Seq<char>, ComposedSpec)>, denied: Set<Seq<char>>)
    ensures
        forall|x: (Seq<char>, ComposedSpec)| #[trigger] retain_allowed(es, denied).contains(x)
            ==> es.contains(x) && !denied.contains(x.0),
    decreases es.len(),
{
    if es.len() > 0 {
        lemma_retain_members(es.drop_last(), denied);
        let sub = retain_allowed(es.drop_last(), denied);
        assert forall|x: (Seq<char>, ComposedSpec)| #[trigger] retain_allowed(es, denied).contains(
            x,
        ) implies es.contains(x) && !denied.contains(x.0) by {
            let r = retain_allowed(es, denied);
            let i = choose|i: int| 0 <= i < r.len() && r[i] == x;
            if i < sub.len() {
                assert(sub[i] == x);
                assert(sub.contains(x));
                let k = choose|k: int| 0 <= k < es.drop_last().len() && es.drop_last()[k] == x;
                assert(es[k] == x);
            } else {
                assert(x == es.last());
                assert(es[es.len() - 1] == x);
            }
        }
    }
}

proof fn lemma_retain_keeps_order(es: Seq<(Seq<char>, ComposedSpec)>, denied: Set<Seq<char>>)
    requires
        keyed_and_sorted(es),
    ensures
        keyed_and_sorted(retain_allowed(es, denied)),
    decreases es.len(),
{
    if es.len() > 0 {
        let init = es.drop_last();
        assert(keyed_and_sorted(init)) by {
            assert forall|i: int, j: int| 0 <= i < j < init.len() implies lex_lt(
                #[trigger] init[i].0,
                #[trigger] init[j].0,
            ) by {
                assert(lex_lt(es[i].0, es[j].0));
            }
            assert forall|i: int| 0 <= i < init.len() implies #[trigger] init[i].0 == identity_of(
                init[i].1.requirement,
            ) by {
                assert(es[i].0 == identity_of(es[i].1.requirement));
            }
        }
        lemma_retain_keeps_order(init, denied);
        lemma_retain_members(init, denied);
        let sub = retain_allowed(init, denied);
        let r = retain_allowed(es, denied);
        if !denied.contains(es.last().0) {
            assert forall|i: int, j: int| 0 <= i < j < r.len() implies lex_lt(
                #[trigger] r[i].0,
                #[trigger] r[j].0,
            ) by {
                if j == sub.len() {
                    let x = sub[i];
                    assert(sub.contains(x));
                    let k = choose|k: int| 0 <= k < init.len() && init[k] == x;
                    assert(lex_lt(es[k].0, es[es.len() - 1].0));
                } else {
                    assert(lex_lt(sub[i].0, sub[j].0));
                }
            }
            assert forall|i: int| 0 <= i < r.len() implies #[trigger] r[i].0 == identity_of(
                r[i].1.requirement,
            ) by {
                if i < sub.len() {
                    assert(sub[i].0 == identity_of(sub[i].1.requirement));
                } else {
                    assert(es[es.len() - 1].0 == identity_of(es[es.len() - 1].1.requirement));
                }
            }
        }
    }
}

proof fn lemma_requirements_keep_order(profile: ProfileSpec, i: int, st: ComposeState)
    requires
        keyed_and_sorted(st.composed),
    ensures
        compose_requirements(profile, i, st) matches Ok(st2) ==> keyed_and_sorted(st2.composed),
    decreases profile.requirements.len() - i,
{
    if 0 <= i < profile.requirements.len() {
        let requirement = canonicalize(profile.requirements[i]);
        let identity = identity_of(requirement);
        lemma_requirements_keep_order(profile, i + 1, st);
        if !st.denied.contains(identity) && find_entry(st.composed, identity) is None {
            let value = ComposedSpec {
                requirement,
                provenance: ProvenanceSpec {
                    resource_id: profile.id,
                    resource_name: profile.name,
                    path: requirement_path(i),
                },
            };
            lemma_insert_entry_keeps_order(st.composed, identity, value);
            lemma_requirements_keep_order(
                profile,
                i + 1,
                ComposeState {
                    composed: insert_entry(st.composed, identity, value),
                    denied: st.denied,
                },
            );
        }
    }
}

proof fn lemma_node_keeps_order(
    registry: Seq<ProfileSpec>,
    name: Seq<char>,
    visiting: Seq<Seq<char>>,
    st: ComposeState,
)
    requires
        keyed_and_sorted(st.composed),
    ensures
        compose_node(registry, name, visiting, st) matches Ok(st2) ==> keyed_and_sorted(
            st2.composed,
        ),
    decreases registry.len() - visiting.len(), 0int,
{
    if !visiting.contains(name) {
        if let Some(index) = lookup_profile(registry, name) {
            if visiting.len() < registry.len() {
                let profile = registry[index];
                lemma_parents_keep_order(registry, profile.extends, 0, visiting.push(name), st);
                if let Ok(st1) = compose_parents(registry, profile.extends, 0, visiting.push(name), st) {
                    let st2 = ComposeState {
                        composed: st1.composed,
                        denied: st1.denied.union(profile.deny.to_set()),
                    };
                    lemma_requirements_keep_order(profile, 0, st2);
                    if let Ok(st3) = compose_requirements(profile, 0, st2) {
                        lemma_retain_keeps_order(st3.composed, st3.denied);
                    }
                }
            }
        }
    }
}

proof fn lemma_parents_keep_order(
    registry: Seq<ProfileSpec>,
    parents: Seq<Seq<char>>,
    i: int,
    visiting: Seq<Seq<char>>,
    st: ComposeState,
)
    requires
        keyed_and_sorted(st.composed),
    ensures
        compose_parents(registry, parents, i, visiting, st) matches Ok(st2) ==> keyed_and_sorted(
            st2.composed,
        ),
    decreases registry.len() - visiting.len(), parents.len() - i + 1,
{
    if 0 <= i < parents.len() {
        lemma_node_keeps_order(registry, parents[i], visiting, st);
        if let Ok(st1) = compose_node(registry, parents[i], visiting, st) {
            lemma_parents_keep_order(registry, parents, i + 1, visiting, st1);
        }
    }
}

/// A composed profile is keyed by identity: every entry's key is the
/// identity of its requirement, and the keys are strictly ascending, so no
/// identity appears twice and the order is the same on every run.
pub proof fn law_composed_keys_are_identities_in_order(registry: Seq<ProfileSpec>, name: Seq<char>)
    ensures
        spec_compose_profile(registry, name) matches Ok(es) ==> keyed_and_sorted(es),
{
    let st = ComposeState {
        composed: Seq::empty(),
        denied: reachable_denials(registry, name, Seq::empty()),
    };
    lemma_node_keeps_order(registry, name, Seq::empty(), st);
}

/// Deny wins over include: no identity the composed profile itself denies
/// appears in its composition, whichever profile contributed it.
pub proof fn law_root_denials_win(registry: Seq<ProfileSpec>, name: Seq<char>, identity: Seq<char>)
    requires
        lookup_profile(registry, name) matches Some(index) && registry[index].deny.contains(
            identity,
        ),
    ensures
        spec_compose_profile(registry, name) matches Ok(es) ==> forall|i: int|
            0 <= i < es.len() ==> es[i].0 != identity,
{
    let st = ComposeState {
        composed: Seq::empty(),
        denied: reachable_denials(registry, name, Seq::empty()),
    };
    let v: Seq<Seq<char>> = Seq::empty();
    let index = lookup_profile(registry, name)->0;
    let profile = registry[index];
    if !v.contains(name) && v.len() < registry.len() {
        if let Ok(st1) = compose_parents(registry, profile.extends, 0, v.push(name), st) {
            let st2 = ComposeState {
                composed: st1.composed,
                denied: st1.denied.union(profile.deny.to_set()),
            };
            lemma_requirements_keep_denied(profile, 0, st2);
            if let Ok(st3) = compose_requirements(profile, 0, st2) {
                lemma_retain_members(st3.composed, st3.denied);
                assert(st3.denied.contains(identity));
                let es = retain_allowed(st3.composed, st3.denied);
                assert forall|i: int| 0 <= i < es.len() implies es[i].0 != identity by {
                    assert(es.contains(es[i]));
                }
            }
        }
    }
}


/// Whether composed entries hold an identity with a requirement.
pub open spec fn holds_value(
    es: Seq<(Seq<char>, ComposedSpec)>,
    identity: Seq<char>,
    requirement: RequirementSpec,
) -> bool {
    exists|m: int| 0 <= m < es.len() && (#[trigger] es[m]).0 == identity && es[m].1.requirement == requirement
}

proof fn lemma_find_entry_is_the_holder(
    es: Seq<(Seq<char>, ComposedSpec)>,
    identity: Seq<char>,
    requirement: RequirementSpec,
)
    requires
        keyed_and_sorted(es),
        holds_value(es, identity, requirement),
    ensures
        find_entry(es, identity) matches Some(j) && es[j].1.requirement == requirement,
{
    let m = choose|m: int| 0 <= m < es.len() && (#[trigger] es[m]).0 == identity && es[m].1.requirement == requirement;
    let j = find_entry(es, identity)->0;
    crate::text::lemma_lex_irreflexive(identity);
    if j < m {
        assert(lex_lt(es[j].0, es[m].0));
    } else if m < j {
        assert(lex_lt(es[m].0, es[j].0));
    }
}

proof fn lemma_find_entry_found(es: Seq<(Seq<char>, ComposedSpec)>, key: Seq<char>)
    ensures
        find_entry(es, key) matches Some(m) ==> 0 <= m < es.len() && es[m].0 == key,
{
    if exists|i: int| 0 <= i < es.len() && es[i].0 == key {
        let w = choose|i: int| 0 <= i < es.len() && es[i].0 == key;
        lemma_first_key(es, key, w);
    }
}

proof fn lemma_first_key(es: Seq<(Seq<char>, ComposedSpec)>, key: Seq<char>, w: int)
    requires
        0 <= w < es.len(),
        es[w].0 == key,
    ensures
        exists|i: int|
            0 <= i < es.len() && es[i].0 == key && forall|k: int| 0 <= k < i ==> es[k].0 != key,
    decreases w,
{
    if exists|k: int| 0 <= k < w && es[k].0 == key {
        let k = choose|k: int| 0 <= k < w && es[k].0 == key;
        lemma_first_key(es, key, k);
    }
}

proof fn lemma_insert_entry_keeps_members(
    es: Seq<(Seq<char>, ComposedSpec)>,
    key: Seq<char>,
    value: ComposedSpec,
    x: (Seq<char>, ComposedSpec),
)
    requires
        es.contains(x),
    ensures
        insert_entry(es, key, value).contains(x),
    decreases es.len(),
{
    let ins = insert_entry(es, key, value);
    let k = choose|k: int| 0 <= k < es.len() && es[k] == x;
    if lex_lt(key, es[0].0) {
        assert(ins[k + 1] == x);
    } else if k == 0 {
        assert(ins[0] == x);
    } else {
        assert(es.drop_first()[k - 1] == x);
        lemma_insert_entry_keeps_members(es.drop_first(), key, value, x);
        let rest = insert_entry(es.drop_first(), key, value);
        let r = choose|r: int| 0 <= r < rest.len() && rest[r] == x;
        assert(ins[r + 1] == x);
    }
}

proof fn lemma_value_sticks(
    profile: ProfileSpec,
    i: int,
    st: ComposeState,
    j: int,
    identity: Seq<char>,
    held: RequirementSpec,
)
    requires
        keyed_and_sorted(st.composed),
        holds_value(st.composed, identity, held),
        0 <= i <= j < profile.requirements.len(),
        identity_of(canonicalize(profile.requirements[j])) == identity,
        canonicalize(profile.requirements[j]) != held,
        !st.denied.contains(identity),
    ensures
        compose_requirements(profile, i, st) is Err,
    decreases profile.requirements.len() - i,
{
    let requirement = canonicalize(profile.requirements[i]);
    let key = identity_of(requirement);
    if i == j {
        lemma_find_entry_is_the_holder(st.composed, identity, held);
    } else if st.denied.contains(key) {
        lemma_value_sticks(profile, i + 1, st, j, identity, held);
    } else {
        match find_entry(st.composed, key) {
            Some(m) => {
                if st.composed[m].1.requirement == requirement {
                    lemma_value_sticks(profile, i + 1, st, j, identity, held);
                }
            },
            None => {
                let value = ComposedSpec {
                    requirement,
                    provenance: ProvenanceSpec {
                        resource_id: profile.id,
                        resource_name: profile.name,
                        path: requirement_path(i),
                    },
                };
                let next = insert_entry(st.composed, key, value);
                lemma_insert_entry_keeps_order(st.composed, key, value);
                let m = choose|m: int|
                    0 <= m < st.composed.len() && (#[trigger] st.composed[m]).0 == identity
                        && st.composed[m].1.requirement == held;
                lemma_insert_entry_keeps_members(st.composed, key, value, st.composed[m]);
                let r = choose|r: int| 0 <= r < next.len() && next[r] == st.composed[m];
                assert(next[r].0 == identity);
                lemma_value_sticks(
                    profile,
                    i + 1,
                    ComposeState { composed: next, denied: st.denied },
                    j,
                    identity,
                    held,
                );
            },
        }
    }
}

/// A composed value is never overwritten: when the composition so far holds
/// an identity with a value, a later requirement of the same identity with
/// a different value, not denied, makes the profile's composition fail as a
/// conflict instead of replacing it.
pub proof fn law_composed_values_are_never_overwritten(
    profile: ProfileSpec,
    st: ComposeState,
    identity: Seq<char>,
    held: RequirementSpec,
    j: int,
)
    requires
        keyed_and_sorted(st.composed),
        holds_value(st.composed, identity, held),
        0 <= j < profile.requirements.len(),
        identity_of(canonicalize(profile.requirements[j])) == identity,
        canonicalize(profile.requirements[j]) != held,
        !st.denied.contains(identity),
    ensures
        compose_requirements(profile, 0, st) is Err,
{
    lemma_value_sticks(profile, 0, st, j, identity, held);
}

#[verifier::rlimit(40)]
proof fn lemma_conflict_within(profile: ProfileSpec, i: int, st: ComposeState, j1: int, j2: int)
    requires
        keyed_and_sorted(st.composed),
        0 <= i <= j1 < j2 < profile.requirements.len(),
        identity_of(canonicalize(profile.requirements[j1])) == identity_of(
            canonicalize(profile.requirements[j2]),
        ),
        canonicalize(profile.requirements[j1]) != canonicalize(profile.requirements[j2]),
        !st.denied.contains(identity_of(canonicalize(profile.requirements[j1]))),
    ensures
        compose_requirements(profile, i, st) is Err,
    decreases profile.requirements.len() - i,
{
    let requirement = canonicalize(profile.requirements[i]);
    let key = identity_of(requirement);
    let value = ComposedSpec {
        requirement,
        provenance: ProvenanceSpec {
            resource_id: profile.id,
            resource_name: profile.name,
            path: requirement_path(i),
        },
    };
    if st.denied.contains(key) {
        lemma_conflict_within(profile, i + 1, st, j1, j2);
    } else {
        match find_entry(st.composed, key) {
            Some(m) => {
                lemma_find_entry_found(st.composed, key);
                if st.composed[m].1.requirement == requirement {
                    if i == j1 {
                        assert(st.composed[m].0 == key);
                        lemma_value_sticks(profile, i + 1, st, j2, key, requirement);
                    } else {
                        lemma_conflict_within(profile, i + 1, st, j1, j2);
                    }
                }
            },
            None => {
                let next = insert_entry(st.composed, key, value);
                lemma_insert_entry_keeps_order(st.composed, key, value);
                let nst = ComposeState { composed: next, denied: st.denied };
                if i == j1 {
                    lemma_insert_entry_has_new(st.composed, key, value);
                    let r = choose|r: int| 0 <= r < next.len() && next[r] == (key, value);
                    assert(next[r].0 == key);
                    lemma_value_sticks(profile, i + 1, nst, j2, key, requirement);
                } else {
                    lemma_conflict_within(profile, i + 1, nst, j1, j2);
                }
            },
        }
    }
}

proof fn lemma_insert_entry_has_new(es: Seq<(Seq<char>, ComposedSpec)>, key: Seq<char>, value: ComposedSpec)
    ensures
        insert_entry(es, key, value).contains((key, value)),
    decreases es.len(),
{
    let ins = insert_entry(es, key, value);
    if es.len() == 0 || lex_lt(key, es[0].0) {
        assert(ins[0] == (key, value));
    } else {
        lemma_insert_entry_has_new(es.drop_first(), key, value);
        let rest = insert_entry(es.drop_first(), key, value);
        let r = choose|r: int| 0 <= r < rest.len() && rest[r] == (key, value);
        assert(ins[r + 1] == (key, value));
    }
}

/// Conflicting values are refused, never last-write-wins: when two of a
/// profile's requirements share an identity that is not denied but carry
/// different values, composing that profile's requirements fails.
pub proof fn law_conflicting_values_are_refused(profile: ProfileSpec, st: ComposeState, j1: int, j2: int)
    requires
        keyed_and_sorted(st.composed),
        0 <= j1 < j2 < profile.requirements.len(),
        identity_of(canonicalize(profile.requirements[j1])) == identity_of(
            canonicalize(profile.requirements[j2]),
        ),
        canonicalize(profile.requirements[j1]) != canonicalize(profile.requirements[j2]),
        !st.denied.contains(identity_of(canonicalize(profile.requirements[j1]))),
    ensures
        compose_requirements(profile, 0, st) is Err,
{
    lemma_conflict_within(profile, 0, st, j1, j2);
}


proof fn lemma_requirements_conflict_not_denied(profile: ProfileSpec, i: int, st: ComposeState)
    ensures
        compose_requirements(profile, i, st) matches Err(CompositionErrorSpec::Conflict(id, _, _))
            ==> !st.denied.contains(id),
    decreases profile.requirements.len() - i,
{
    if 0 <= i < profile.requirements.len() {
        let requirement = canonicalize(profile.requirements[i]);
        let identity = identity_of(requirement);
        lemma_requirements_conflict_not_denied(profile, i + 1, st);
        lemma_requirements_conflict_not_denied(
            profile,
            i + 1,
            ComposeState {
                composed: insert_entry(
                    st.composed,
                    identity,
                    ComposedSpec {
                        requirement,
                        provenance: ProvenanceSpec {
                            resource_id: profile.id,
                            resource_name: profile.name,
                            path: requirement_path(i),
                        },
                    },
                ),
                denied: st.denied,
            },
        );
    }
}

proof fn lemma_node_denials_hold(
    registry: Seq<ProfileSpec>,
    name: Seq<char>,
    visiting: Seq<Seq<char>>,
    st: ComposeState,
    denied: Set<Seq<char>>,
)
    requires
        denied.subset_of(st.denied),
    ensures
        compose_node(registry, name, visiting, st) matches Ok(st2) ==> denied.subset_of(st2.denied)
            && forall|k: int| 0 <= k < st2.composed.len() ==> !denied.contains(#[trigger] st2.composed[k].0),
        compose_node(registry, name, visiting, st) matches Err(CompositionErrorSpec::Conflict(id, _, _))
            ==> !denied.contains(id),
    decreases registry.len() - visiting.len(), 0int,
{
    if !visiting.contains(name) {
        if let Some(index) = lookup_profile(registry, name) {
            if visiting.len() < registry.len() {
                let profile = registry[index];
                lemma_parents_denials_hold(registry, profile.extends, 0, visiting.push(name), st, denied);
                if let Ok(st1) = compose_parents(registry, profile.extends, 0, visiting.push(name), st) {
                    let st2 = ComposeState {
                        composed: st1.composed,
                        denied: st1.denied.union(profile.deny.to_set()),
                    };
                    lemma_requirements_keep_denied(profile, 0, st2);
                    lemma_requirements_conflict_not_denied(profile, 0, st2);
                    if let Ok(st3) = compose_requirements(profile, 0, st2) {
                        lemma_retain_members(st3.composed, st3.denied);
                        let es = retain_allowed(st3.composed, st3.denied);
                        assert forall|k: int| 0 <= k < es.len() implies !denied.contains(
                            #[trigger] es[k].0,
                        ) by {
                            assert(es.contains(es[k]));
                        }
                    }
                }
            }
        }
    }
}

proof fn lemma_parents_denials_hold(
    registry: Seq<ProfileSpec>,
    parents: Seq<Seq<char>>,
    i: int,
    visiting: Seq<Seq<char>>,
    st: ComposeState,
    denied: Set<Seq<char>>,
)
    requires
        denied.subset_of(st.denied),
    ensures
        compose_parents(registry, parents, i, visiting, st) matches Ok(st2) ==> denied.subset_of(
            st2.denied,
        ),
        compose_parents(registry, parents, i, visiting, st) matches Err(
            CompositionErrorSpec::Conflict(id, _, _),
        ) ==> !denied.contains(id),
    decreases registry.len() - visiting.len(), parents.len() - i + 1,
{
    if 0 <= i < parents.len() {
        lemma_node_denials_hold(registry, parents[i], visiting, st, denied);
        if let Ok(st1) = compose_node(registry, parents[i], visiting, st) {
            lemma_parents_denials_hold(registry, parents, i + 1, visiting, st1, denied);
        }
    }
}

/// A deny holds for the whole traversal, whatever the order of `extends`:
/// no identity denied by any profile reachable from the composed one
/// appears in the composition, and none is ever the subject of a conflict.
pub proof fn law_reachable_denials_win(registry: Seq<ProfileSpec>, name: Seq<char>)
    ensures
        spec_compose_profile(registry, name) matches Ok(es) ==> forall|k: int|
            0 <= k < es.len() ==> !reachable_denials(registry, name, Seq::empty()).contains(
                #[trigger] es[k].0,
            ),
        spec_compose_profile(registry, name) matches Err(CompositionErrorSpec::Conflict(id, _, _))
            ==> !reachable_denials(registry, name, Seq::empty()).contains(id),
{
    let d = reachable_denials(registry, name, Seq::empty());
    let st = ComposeState { composed: Seq::empty(), denied: d };
    lemma_node_denials_hold(registry, name, Seq::empty(), st, d);
}


/// Decodes an escaped component, left to right: a `%` begins a three-
/// character escape, any other character stands for itself.
pub open spec fn unescape(t: Seq<char>) -> Seq<char>
    decreases t.len(),
{
    if t.len() == 0 {
        Seq::empty()
    } else if t[0] == '%' && t.len() >= 3 {
        let c = if t.subrange(0, 3) == "%25"@ {
            '%'
        } else if t.subrange(0, 3) == "%3A"@ {
            ':'
        } else {
            '/'
        };
        seq![c] + unescape(t.skip(3))
    } else {
        seq![t[0]] + unescape(t.skip(1))
    }
}

proof fn lemma_escape_concat(a: Seq<char>, b: Seq<char>)
    ensures
        escape(a + b) == escape(a) + escape(b),
    decreases b.len(),
{
    if b.len() == 0 {
        assert(a + b =~= a);
        assert(escape(a) + escape(b) =~= escape(a));
    } else {
        lemma_escape_concat(a, b.drop_last());
        assert((a + b).drop_last() =~= a + b.drop_last());
        assert((a + b).last() == b.last());
        assert(escape(a) + escape(b) =~= escape(a) + escape(b.drop_last()) + escape_char(b.last()));
    }
}

proof fn lemma_escape_single(c: char)
    ensures
        escape(seq![c]) == escape_char(c),
{
    let e = seq![c].drop_last();
    assert(e =~= Seq::<char>::empty());
    assert(escape(e) == Seq::<char>::empty());
    assert(escape(seq![c]) == escape(e) + escape_char(c));
    assert(escape(seq![c]) =~= escape_char(c));
}

proof fn lemma_unescape_escape(s: Seq<char>)
    ensures
        unescape(escape(s)) == s,
    decreases s.len(),
{
    reveal_strlit("%25");
    reveal_strlit("%3A");
    reveal_strlit("%2F");
    if s.len() > 0 {
        let c = s[0];
        let rest = s.drop_first();
        assert(s =~= seq![c] + rest);
        lemma_escape_concat(seq![c], rest);
        lemma_escape_single(c);
        lemma_unescape_escape(rest);
        let t = escape(s);
        assert(t == escape_char(c) + escape(rest));
        assert("%3A"@[1] != "%25"@[1]);
        assert("%2F"@[1] != "%25"@[1] || "%2F"@[2] != "%25"@[2]);
        assert("%2F"@[2] != "%3A"@[2]);
        if c == '%' || c == ':' || c == '/' {
            assert(t[0] == '%');
            assert(t.subrange(0, 3) =~= escape_char(c));
            assert(t.skip(3) =~= escape(rest));
            assert(unescape(t) == seq![c] + unescape(t.skip(3)));
        } else {
            assert(t[0] == c);
            assert(t.skip(1) =~= escape(rest));
            assert(unescape(t) == seq![c] + unescape(t.skip(1)));
        }
        assert(unescape(t) =~= s);
    }
}

/// Escaping loses nothing: distinct components escape differently.
pub proof fn lemma_escape_injective(a: Seq<char>, b: Seq<char>)
    requires
        escape(a) == escape(b),
    ensures
        a == b,
{
    lemma_unescape_escape(a);
    lemma_unescape_escape(b);
}

/// Whether two requirements are of one kind and name the same tool, skill,
/// or capability (namespace and name), whatever their versions or agents.
pub open spec fn same_subject(a: RequirementSpec, b: RequirementSpec) -> bool {
    match (a, b) {
        (RequirementSpec::Tool(x, _), RequirementSpec::Tool(y, _)) => x == y,
        (RequirementSpec::Skill(x, _), RequirementSpec::Skill(y, _)) => x == y,
        (RequirementSpec::Capability(n, m), RequirementSpec::Capability(p, q)) => n == p && m == q,
        _ => false,
    }
}

/// The capability namespace of a requirement carries no `/`: the one input
/// on which identities could collide.
pub open spec fn plain_namespace(r: RequirementSpec) -> bool {
    match r {
        RequirementSpec::Capability(n, _) => !n.contains('/'),
        _ => true,
    }
}

proof fn lemma_capability_key(n: Seq<char>, m: Seq<char>)
    ensures
        escape(n) + "%2F"@ + escape(m) == escape(n + seq!['/'] + m),
{
    reveal_strlit("%2F");
    lemma_escape_concat(n + seq!['/'], m);
    lemma_escape_concat(n, seq!['/']);
    lemma_escape_single('/');
}

proof fn lemma_split_at_first_slash(n: Seq<char>, m: Seq<char>, p: Seq<char>, q: Seq<char>)
    requires
        !n.contains('/'),
        !p.contains('/'),
        n + seq!['/'] + m == p + seq!['/'] + q,
    ensures
        n == p,
        m == q,
{
    let x = n + seq!['/'] + m;
    if n.len() < p.len() {
        assert(x[n.len() as int] == '/');
        assert(p[n.len() as int] == '/');
    } else if p.len() < n.len() {
        assert(x[p.len() as int] == '/');
        assert(n[p.len() as int] == '/');
    } else {
        assert(n =~= x.subrange(0, n.len() as int));
        assert(p =~= x.subrange(0, p.len() as int));
        assert(m =~= x.skip(n.len() as int + 1));
        assert(q =~= x.skip(p.len() as int + 1));
    }
}

/// An identity names its requirement: two requirements share an identity
/// exactly when they are of one kind and name the same tool, skill, or
/// capability, whatever their versions or agent sets. A capability
/// namespace carrying `/` is left out: `a/b` with name `c` and `a` with
/// name `b/c` share an identity.
pub proof fn law_identity_names_the_requirement(a: RequirementSpec, b: RequirementSpec)
    requires
        plain_namespace(a),
        plain_namespace(b),
    ensures
        identity_of(a) == identity_of(b) <==> same_subject(a, b),
{
    reveal_strlit("tool:");
    reveal_strlit("skill:");
    reveal_strlit("capability:");
    reveal_strlit("%2F");
    if identity_of(a) == identity_of(b) {
        let ia = identity_of(a);
        match (a, b) {
            (RequirementSpec::Tool(x, _), RequirementSpec::Tool(y, _)) => {
                assert(escape(x) =~= ia.skip(5));
                assert(escape(y) =~= ia.skip(5));
                lemma_escape_injective(x, y);
            },
            (RequirementSpec::Skill(x, _), RequirementSpec::Skill(y, _)) => {
                assert(escape(x) =~= ia.skip(6));
                assert(escape(y) =~= ia.skip(6));
                lemma_escape_injective(x, y);
            },
            (RequirementSpec::Capability(n, m), RequirementSpec::Capability(p, q)) => {
                lemma_capability_key(n, m);
                lemma_capability_key(p, q);
                assert(escape(n + seq!['/'] + m) =~= ia.skip(11));
                assert(escape(p + seq!['/'] + q) =~= ia.skip(11));
                lemma_escape_injective(n + seq!['/'] + m, p + seq!['/'] + q);
                lemma_split_at_first_slash(n, m, p, q);
            },
            (RequirementSpec::Tool(_, _), _) => {
                assert(ia[0] == 't');
            },
            (RequirementSpec::Skill(_, _), _) => {
                assert(ia[0] == 's');
            },
            (RequirementSpec::Capability(_, _), _) => {
                assert(ia[0] == 'c');
            },
        }
    }
}


/// Whether a composed entry is one profile's requirement, with that
/// profile and the requirement's position as its provenance.
pub open spec fn from_registry(registry: Seq<ProfileSpec>, e: (Seq<char>, ComposedSpec)) -> bool {
    exists|k: int, i: int|
        0 <= k < registry.len() && 0 <= i < registry[k].requirements.len() && canonicalize(
            #[trigger] registry[k].requirements[i],
        ) == e.1.requirement && e.1.provenance == (ProvenanceSpec {
            resource_id: registry[k].id,
            resource_name: registry[k].name,
            path: requirement_path(i),
        })
}

/// Every identity some profile of the registry denies.
pub open spec fn registry_denials(registry: Seq<ProfileSpec>) -> Set<Seq<char>> {
    Set::new(|id: Seq<char>| exists|k: int| 0 <= k < registry.len() && #[trigger] registry[k].deny.contains(id))
}

/// Whether every composed entry comes from the registry.
pub open spec fn all_from_registry(registry: Seq<ProfileSpec>, es: Seq<(Seq<char>, ComposedSpec)>) -> bool {
    forall|x: (Seq<char>, ComposedSpec)| #[trigger] es.contains(x) ==> from_registry(registry, x)
}

proof fn lemma_lookup_found(registry: Seq<ProfileSpec>, name: Seq<char>)
    ensures
        lookup_profile(registry, name) matches Some(i) ==> 0 <= i < registry.len() && registry[i].name
            == name,
{
    if exists|i: int| 0 <= i < registry.len() && registry[i].name == name {
        let w = choose|i: int| 0 <= i < registry.len() && registry[i].name == name;
        lemma_last_name(registry, name, w);
    }
}

proof fn lemma_last_name(registry: Seq<ProfileSpec>, name: Seq<char>, w: int)
    requires
        0 <= w < registry.len(),
        registry[w].name == name,
    ensures
        exists|i: int|
            0 <= i < registry.len() && registry[i].name == name && forall|k: int|
                i < k < registry.len() ==> registry[k].name != name,
    decreases registry.len() - w,
{
    if exists|k: int| w < k < registry.len() && registry[k].name == name {
        let k = choose|k: int| w < k < registry.len() && registry[k].name == name;
        lemma_last_name(registry, name, k);
    }
}

proof fn lemma_requirements_from_registry(
    registry: Seq<ProfileSpec>,
    index: int,
    i: int,
    st: ComposeState,
)
    requires
        0 <= index < registry.len(),
        all_from_registry(registry, st.composed),
    ensures
        compose_requirements(registry[index], i, st) matches Ok(st2) ==> all_from_registry(
            registry,
            st2.composed,
        ),
    decreases registry[index].requirements.len() - i,
{
    let profile = registry[index];
    if 0 <= i < profile.requirements.len() {
        let requirement = canonicalize(profile.requirements[i]);
        let identity = identity_of(requirement);
        lemma_requirements_from_registry(registry, index, i + 1, st);
        let value = ComposedSpec {
            requirement,
            provenance: ProvenanceSpec {
                resource_id: profile.id,
                resource_name: profile.name,
                path: requirement_path(i),
            },
        };
        let next = insert_entry(st.composed, identity, value);
        lemma_insert_entry_members(st.composed, identity, value);
        assert(from_registry(registry, (identity, value))) by {
            assert(canonicalize(registry[index].requirements[i]) == value.requirement);
        }
        assert forall|x: (Seq<char>, ComposedSpec)| #[trigger] next.contains(x) implies from_registry(
            registry,
            x,
        ) by {}
        lemma_requirements_from_registry(
            registry,
            index,
            i + 1,
            ComposeState { composed: next, denied: st.denied },
        );
    }
}

proof fn lemma_node_from_registry(
    registry: Seq<ProfileSpec>,
    name: Seq<char>,
    visiting: Seq<Seq<char>>,
    st: ComposeState,
)
    requires
        all_from_registry(registry, st.composed),
    ensures
        compose_node(registry, name, visiting, st) matches Ok(st2) ==> all_from_registry(
            registry,
            st2.composed,
        ) && st2.denied.subset_of(st.denied.union(registry_denials(registry))),
    decreases registry.len() - visiting.len(), 0int,
{
    lemma_lookup_found(registry, name);
    if !visiting.contains(name) {
        if let Some(index) = lookup_profile(registry, name) {
            if visiting.len() < registry.len() {
                let profile = registry[index];
                lemma_parents_from_registry(registry, profile.extends, 0, visiting.push(name), st);
                if let Ok(st1) = compose_parents(registry, profile.extends, 0, visiting.push(name), st) {
                    let st2 = ComposeState {
                        composed: st1.composed,
                        denied: st1.denied.union(profile.deny.to_set()),
                    };
                    lemma_requirements_from_registry(registry, index, 0, st2);
                    lemma_requirements_keep_denied(profile, 0, st2);
                    assert forall|id: Seq<char>| profile.deny.to_set().contains(id) implies registry_denials(
                        registry,
                    ).contains(id) by {
                        assert(registry[index].deny.contains(id));
                    }
                    if let Ok(st3) = compose_requirements(profile, 0, st2) {
                        lemma_retain_members(st3.composed, st3.denied);
                    }
                }
            }
        }
    }
}

proof fn lemma_parents_from_registry(
    registry: Seq<ProfileSpec>,
    parents: Seq<Seq<char>>,
    i: int,
    visiting: Seq<Seq<char>>,
    st: ComposeState,
)
    requires
        all_from_registry(registry, st.composed),
    ensures
        compose_parents(registry, parents, i, visiting, st) matches Ok(st2) ==> all_from_registry(
            registry,
            st2.composed,
        ) && st2.denied.subset_of(st.denied.union(registry_denials(registry))),
    decreases registry.len() - visiting.len(), parents.len() - i + 1,
{
    if 0 <= i < parents.len() {
        lemma_node_from_registry(registry, parents[i], visiting, st);
        if let Ok(st1) = compose_node(registry, parents[i], visiting, st) {
            lemma_parents_from_registry(registry, parents, i + 1, visiting, st1);
        }
    }
}

proof fn lemma_reachable_denials_in_registry(
    registry: Seq<ProfileSpec>,
    name: Seq<char>,
    visiting: Seq<Seq<char>>,
)
    ensures
        reachable_denials(registry, name, visiting).subset_of(registry_denials(registry)),
    decreases registry.len() - visiting.len(), 0int,
{
    lemma_lookup_found(registry, name);
    if !visiting.contains(name) && visiting.len() < registry.len() {
        if let Some(index) = lookup_profile(registry, name) {
            lemma_parents_denials_in_registry(registry, registry[index].extends, 0, visiting.push(name));
            assert forall|id: Seq<char>| registry[index].deny.to_set().contains(id) implies registry_denials(
                registry,
            ).contains(id) by {
                assert(registry[index].deny.contains(id));
            }
        }
    }
}

proof fn lemma_parents_denials_in_registry(
    registry: Seq<ProfileSpec>,
    parents: Seq<Seq<char>>,
    i: int,
    visiting: Seq<Seq<char>>,
)
    ensures
        parents_denials(registry, parents, i, visiting).subset_of(registry_denials(registry)),
    decreases registry.len() - visiting.len(), parents.len() - i + 1,
{
    if 0 <= i < parents.len() {
        lemma_reachable_denials_in_registry(registry, parents[i], visiting);
        lemma_parents_denials_in_registry(registry, parents, i + 1, visiting);
    }
}

#[verifier::rlimit(80)]
proof fn lemma_requirements_complete(profile: ProfileSpec, i: int, st: ComposeState)
    requires
        0 <= i,
    ensures
        compose_requirements(profile, i, st) matches Ok(st2) ==> (forall|x: (Seq<char>, ComposedSpec)|
            #[trigger] st.composed.contains(x) ==> st2.composed.contains(x)) && forall|j: int|
            i <= j < profile.requirements.len() && !st.denied.contains(
                identity_of(canonicalize(#[trigger] profile.requirements[j])),
            ) ==> holds_value(
                st2.composed,
                identity_of(canonicalize(profile.requirements[j])),
                canonicalize(profile.requirements[j]),
            ),
    decreases profile.requirements.len() - i,
{
    if 0 <= i < profile.requirements.len() {
        let requirement = canonicalize(profile.requirements[i]);
        let identity = identity_of(requirement);
        if st.denied.contains(identity) {
            lemma_requirements_complete(profile, i + 1, st);
        } else {
            lemma_find_entry_found(st.composed, identity);
            match find_entry(st.composed, identity) {
                Some(m) => {
                    lemma_requirements_complete(profile, i + 1, st);
                    if let Ok(st2) = compose_requirements(profile, i, st) {
                        assert(st.composed[m].1.requirement == requirement);
                        assert(st.composed.contains(st.composed[m]));
                        assert(st2.composed.contains(st.composed[m]));
                        let r = choose|r: int| 0 <= r < st2.composed.len() && st2.composed[r] == st.composed[m];
                        assert(st2.composed[r].0 == identity && st2.composed[r].1.requirement == requirement);
                    }
                },
                None => {
                    let value = ComposedSpec {
                        requirement,
                        provenance: ProvenanceSpec {
                            resource_id: profile.id,
                            resource_name: profile.name,
                            path: requirement_path(i),
                        },
                    };
                    let next = insert_entry(st.composed, identity, value);
                    let nst = ComposeState { composed: next, denied: st.denied };
                    lemma_requirements_complete(profile, i + 1, nst);
                    assert forall|x: (Seq<char>, ComposedSpec)| #[trigger] st.composed.contains(x) implies next.contains(x) by {
                        lemma_insert_entry_keeps_members(st.composed, identity, value, x);
                    }
                    lemma_insert_entry_has_new(st.composed, identity, value);
                    if let Ok(st2) = compose_requirements(profile, i, st) {
                        assert(st2.composed.contains((identity, value)));
                        let r = choose|r: int| 0 <= r < st2.composed.len() && st2.composed[r] == (identity, value);
                        assert(st2.composed[r].0 == identity && st2.composed[r].1.requirement == requirement);
                    }
                },
            }
        }
    }
}

proof fn lemma_retain_keeps_allowed(
    es: Seq<(Seq<char>, ComposedSpec)>,
    denied: Set<Seq<char>>,
    x: (Seq<char>, ComposedSpec),
)
    requires
        es.contains(x),
        !denied.contains(x.0),
    ensures
        retain_allowed(es, denied).contains(x),
    decreases es.len(),
{
    let k = choose|k: int| 0 <= k < es.len() && es[k] == x;
    let sub = retain_allowed(es.drop_last(), denied);
    if k == es.len() - 1 {
        assert(retain_allowed(es, denied) == sub.push(x));
        assert(sub.push(x)[sub.len() as int] == x);
    } else {
        assert(es.drop_last()[k] == x);
        lemma_retain_keeps_allowed(es.drop_last(), denied, x);
        let r = choose|r: int| 0 <= r < sub.len() && sub[r] == x;
        if !denied.contains(es.last().0) {
            assert(sub.push(es.last())[r] == x);
        }
    }
}

/// A composition is made of the profiles' own requirements: every composed
/// entry is a profile's canonical requirement with that profile and the
/// requirement's position as provenance, and every requirement of the
/// composed profile itself is present with exactly its value unless some
/// profile of the registry denies its identity.
pub proof fn law_composition_is_made_of_requirements(registry: Seq<ProfileSpec>, name: Seq<char>)
    ensures
        spec_compose_profile(registry, name) matches Ok(es) ==> all_from_registry(registry, es),
        spec_compose_profile(registry, name) matches Ok(es) ==> (lookup_profile(registry, name) matches Some(r)
            ==> forall|j: int|
            0 <= j < registry[r].requirements.len() && !registry_denials(registry).contains(
                identity_of(canonicalize(#[trigger] registry[r].requirements[j])),
            ) ==> holds_value(
                es,
                identity_of(canonicalize(registry[r].requirements[j])),
                canonicalize(registry[r].requirements[j]),
            )),
{
    let d = reachable_denials(registry, name, Seq::empty());
    let st = ComposeState { composed: Seq::empty(), denied: d };
    lemma_node_from_registry(registry, name, Seq::empty(), st);
    lemma_reachable_denials_in_registry(registry, name, Seq::empty());
    lemma_lookup_found(registry, name);
    let v: Seq<Seq<char>> = Seq::empty();
    if let Some(index) = lookup_profile(registry, name) {
        if !v.contains(name) && v.len() < registry.len() {
            let profile = registry[index];
            lemma_parents_from_registry(registry, profile.extends, 0, v.push(name), st);
            if let Ok(st1) = compose_parents(registry, profile.extends, 0, v.push(name), st) {
                let st2 = ComposeState {
                    composed: st1.composed,
                    denied: st1.denied.union(profile.deny.to_set()),
                };
                lemma_requirements_complete(profile, 0, st2);
                lemma_requirements_keep_denied(profile, 0, st2);
                if let Ok(st3) = compose_requirements(profile, 0, st2) {
                    let es = retain_allowed(st3.composed, st3.denied);
                    assert forall|j: int|
                        0 <= j < profile.requirements.len() && !registry_denials(registry).contains(
                            identity_of(canonicalize(#[trigger] profile.requirements[j])),
                        ) implies holds_value(
                        es,
                        identity_of(canonicalize(profile.requirements[j])),
                        canonicalize(profile.requirements[j]),
                    ) by {
                        let id = identity_of(canonicalize(profile.requirements[j]));
                        assert(!profile.deny.to_set().contains(id)) by {
                            if profile.deny.contains(id) {
                                assert(registry[index].deny.contains(id));
                            }
                        }
                        assert(!st2.denied.contains(id));
                        let m = choose|m: int|
                            0 <= m < st3.composed.len() && (#[trigger] st3.composed[m]).0 == id
                                && st3.composed[m].1.requirement == canonicalize(profile.requirements[j]);
                        lemma_retain_keeps_allowed(st3.composed, st3.denied, st3.composed[m]);
                        let r = choose|r: int| 0 <= r < es.len() && es[r] == st3.composed[m];
                        assert(es[r].0 == id);
                    }
                }
            }
        }
    }
}

} // verus!
