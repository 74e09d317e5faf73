//! Observed-state normalization: machine observations become the shapes the
//! desired resources use, so comparison is apples-to-apples.
//!
//! Every observation maps either to an observed value or to an explicit
//! `unknown` difference, never dropped silently. Nothing here executes or
//! mutates: normalization and comparison are pure functions.

use vstd::prelude::*;

use crate::capability::{CapabilityFact, FactSpec};
use crate::difference::{
    canonical, fields_view, opt_text, spec_compare_field, DifferenceSet, DifferenceSpec,
    DifferenceState, FieldDifference,
};
use crate::text::{text_eq, to_owned_string};

verus! {

/// One observed tool version, normalized from a capability fact.
#[derive(Clone, Debug, PartialEq, Eq)]
pub struct ObservedTool {
    /// The tool's name.
    pub tool: String,
    /// The observed version, when the fact carried one.
    pub version: Option<String>,
}

/// The mathematical value of an observed tool.
pub struct ToolSpec {
    /// The tool's name.
    pub tool: Seq<char>,
    /// The observed version.
    pub version: Option<Seq<char>>,
}

impl View for ObservedTool {
    type V = ToolSpec;

    open spec fn view(&self) -> ToolSpec {
        ToolSpec { tool: self.tool@, version: opt_text(self.version) }
    }
}

/// One observed skill deployment.
#[derive(Clone, Debug, PartialEq, Eq)]
pub struct ObservedSkill {
    /// The skill's identifier.
    pub skill_id: String,
    /// The agent it is deployed to.
    pub agent: String,
}

/// One observed checkout.
#[derive(Clone, Debug, PartialEq, Eq)]
pub struct ObservedCheckout {
    /// The checkout's root path.
    pub root: String,
    /// The checkout's normalized remote, when discovery could read it.
    pub remote: Option<String>,
    /// The checked-out branch, when observed.
    pub branch: Option<String>,
}

/// The observed state of one machine. An observation may be unavailable;
/// unavailability is carried, never guessed away.
#[derive(Clone, Debug, Default, PartialEq, Eq)]
pub struct ObservedState {
    /// The tools observed on the machine, with their versions.
    pub tools: Vec<ObservedTool>,
    /// The skill deployments observed on the machine.
    pub skills: Vec<ObservedSkill>,
    /// The checkouts observed on the machine.
    pub checkouts: Vec<ObservedCheckout>,
    /// Whether the tool inventory answered at all: `None` means the
    /// observation was unavailable.
    pub mise_answered: Option<bool>,
}

/// The desired values one comparison needs.
#[derive(Clone, Debug, Default, PartialEq, Eq)]
pub struct DesiredState {
    /// The desired tool versions, as (tool, version) pairs.
    pub tools: Vec<(String, String)>,
    /// The desired skill deployments, as (skill id, agent) pairs.
    pub skills: Vec<(String, String)>,
    /// The desired checkout's normalized remote and root, when the project
    /// declares one.
    pub checkout: Option<(String, String)>,
}

/// A neutral checkout observation: what the discovery surface reports.
#[derive(Clone, Debug, PartialEq, Eq)]
pub struct CheckoutObservation {
    /// The checkout's root path.
    pub root: String,
    /// The checkout's normalized remote, when discovery could read it.
    pub remote: Option<String>,
    /// The checked-out branch, when observed.
    pub branch: Option<String>,
    /// Whether the observation is complete (`known`) or not.
    pub status: String,
}

/// The facts as values.
pub open spec fn facts_view(v: Seq<CapabilityFact>) -> Seq<FactSpec> {
    v.map_values(|f: CapabilityFact| f@)
}

/// The tools as values.
pub open spec fn tools_view(v: Seq<ObservedTool>) -> Seq<ToolSpec> {
    v.map_values(|t: ObservedTool| t@)
}

/// The position of the first tool with a name.
pub open spec fn tool_index(tools: Seq<ToolSpec>, name: Seq<char>) -> Option<int>
    decreases tools.len(),
{
    if tools.len() == 0 {
        None
    } else {
        match tool_index(tools.drop_last(), name) {
            Some(i) => Some(i),
            None => if tools.last().tool == name {
                Some(tools.len() - 1)
            } else {
                None
            },
        }
    }
}

/// The tools that `tool` facts list, each once, in first-seen order, with
/// no version yet.
pub open spec fn listed_tools(facts: Seq<FactSpec>) -> Seq<ToolSpec>
    decreases facts.len(),
{
    if facts.len() == 0 {
        Seq::empty()
    } else {
        let tools = listed_tools(facts.drop_last());
        let fact = facts.last();
        if fact.namespace == "tool"@ && tool_index(tools, fact.name) is None {
            tools.push(ToolSpec { tool: fact.name, version: None })
        } else {
            tools
        }
    }
}

/// The (tool, version) pairs that `tool-version` facts with a value carry,
/// in order.
pub open spec fn tool_versions(facts: Seq<FactSpec>) -> Seq<(Seq<char>, Seq<char>)>
    decreases facts.len(),
{
    if facts.len() == 0 {
        Seq::empty()
    } else {
        let versions = tool_versions(facts.drop_last());
        let fact = facts.last();
        if fact.namespace == "tool-version"@ && fact.value is Some {
            versions.push((fact.name, fact.value->0))
        } else {
            versions
        }
    }
}

/// Applies versions in order: each sets the version of the first tool with
/// its name, or adds a versioned tool when none is listed.
pub open spec fn apply_versions(tools: Seq<ToolSpec>, versions: Seq<(Seq<char>, Seq<char>)>) -> Seq<
    ToolSpec,
>
    decreases versions.len(),
{
    if versions.len() == 0 {
        tools
    } else {
        let applied = apply_versions(tools, versions.drop_last());
        let (name, version) = versions.last();
        match tool_index(applied, name) {
            Some(i) => applied.update(i, ToolSpec { tool: name, version: Some(version) }),
            None => applied.push(ToolSpec { tool: name, version: Some(version) }),
        }
    }
}

/// The normalized tools of a list of facts: the listed tools, then the
/// versions applied to them.
pub open spec fn spec_normalize_tools(facts: Seq<FactSpec>) -> Seq<ToolSpec> {
    apply_versions(listed_tools(facts), tool_versions(facts))
}

fn find_tool(tools: &Vec<ObservedTool>, name: &str) -> (found: Option<usize>)
    ensures
        match found {
            Some(i) => tool_index(tools_view(tools@), name@) == Some(i as int) && i < tools@.len(),
            None => tool_index(tools_view(tools@), name@) is None,
        },
{
    let ghost all = tools_view(tools@);
    let mut i: usize = 0;
    while i < tools.len()
        invariant
            all == tools_view(tools@),
            i <= tools@.len(),
            tool_index(all.subrange(0, i as int), name@) is None,
        decreases tools@.len() - i,
    {
        let ghost pre = all.subrange(0, i + 1);
        proof {
            assert(pre.drop_last() =~= all.subrange(0, i as int));
            assert(pre.last() == tools@[i as int]@);
        }
        if text_eq(tools[i].tool.as_str(), name) {
            proof {
                lemma_tool_index_prefix(all, name@, i + 1);
            }
            return Some(i);
        }
        i = i + 1;
    }
    proof {
        assert(all.subrange(0, i as int) =~= all);
    }
    None
}

proof fn lemma_tool_index_found(tools: Seq<ToolSpec>, name: Seq<char>)
    ensures
        tool_index(tools, name) matches Some(i) ==> 0 <= i < tools.len() && tools[i].tool == name,
    decreases tools.len(),
{
    if tools.len() > 0 {
        lemma_tool_index_found(tools.drop_last(), name);
    }
}

proof fn lemma_tool_index_prefix(tools: Seq<ToolSpec>, name: Seq<char>, n: int)
    requires
        0 <= n <= tools.len(),
        tool_index(tools.subrange(0, n), name) is Some,
    ensures
        tool_index(tools, name) == tool_index(tools.subrange(0, n), name),
    decreases tools.len() - n,
{
    if n < tools.len() {
        let next = tools.subrange(0, n + 1);
        assert(next.drop_last() =~= tools.subrange(0, n));
        lemma_tool_index_prefix(tools, name, n + 1);
    } else {
        assert(tools.subrange(0, n) =~= tools);
    }
}

/// Normalizes capability facts into observed tools: a `tool` fact lists a
/// tool once, without a version (an honest gap); a `tool-version` fact with
/// a value sets the version of the listed tool of that name, or adds the
/// tool when none is listed (see [`spec_normalize_tools`]).
pub fn normalize_tools(facts: &[CapabilityFact]) -> (tools: Vec<ObservedTool>)
    ensures
        tools_view(tools@) == spec_normalize_tools(facts_view(facts@)),
{
    let ghost all = facts_view(facts@);
    let mut tools: Vec<ObservedTool> = Vec::new();
    let mut versions: Vec<(String, String)> = Vec::new();
    let mut i: usize = 0;
    proof {
        assert(all.subrange(0, 0) =~= Seq::<FactSpec>::empty());
        assert(tools_view(tools@) =~= Seq::<ToolSpec>::empty());
        assert(pairs_view(versions@) =~= Seq::<(Seq<char>, Seq<char>)>::empty());
    }
    while i < facts.len()
        invariant
            all == facts_view(facts@),
            i <= facts@.len(),
            tools_view(tools@) == listed_tools(all.subrange(0, i as int)),
            pairs_view(versions@) == tool_versions(all.subrange(0, i as int)),
        decreases facts@.len() - i,
    {
        let ghost pre = all.subrange(0, i + 1);
        proof {
            assert(pre.drop_last() =~= all.subrange(0, i as int));
            assert(pre.last() == facts@[i as int]@);
            reveal_strlit("tool");
            reveal_strlit("tool-version");
        }
        let fact = &facts[i];
        if text_eq(fact.namespace.as_str(), "tool") {
            proof {
                assert("tool"@.len() != "tool-version"@.len());
                assert(tool_versions(pre) == tool_versions(all.subrange(0, i as int)));
            }
            if find_tool(&tools, fact.name.as_str()).is_none() {
                let ghost before = tools_view(tools@);
                tools.push(ObservedTool { tool: fact.name.clone(), version: None });
                proof {
                    assert(tools_view(tools@) =~= before.push(
                        ToolSpec { tool: fact.name@, version: None },
                    ));
                }
            }
        } else if text_eq(fact.namespace.as_str(), "tool-version") {
            match &fact.value {
                Some(version) => {
                    let ghost before = pairs_view(versions@);
                    versions.push((fact.name.clone(), version.clone()));
                    proof {
                        assert(pairs_view(versions@) =~= before.push((fact.name@, version@)));
                        assert(pre.last().value == Some(version@));
                        assert(tool_versions(pre) == before.push((fact.name@, version@)));
                    }
                },
                None => {},
            }
        }
        i = i + 1;
    }
    proof {
        assert(all.subrange(0, i as int) =~= all);
    }
    let ghost listed = tools_view(tools@);
    let ghost pairs = pairs_view(versions@);
    let mut k: usize = 0;
    proof {
        assert(pairs.subrange(0, 0) =~= Seq::<(Seq<char>, Seq<char>)>::empty());
    }
    while k < versions.len()
        invariant
            pairs == pairs_view(versions@),
            k <= versions@.len(),
            tools_view(tools@) == apply_versions(listed, pairs.subrange(0, k as int)),
        decreases versions@.len() - k,
    {
        let ghost pre = pairs.subrange(0, k + 1);
        proof {
            assert(pre.drop_last() =~= pairs.subrange(0, k as int));
            assert(pre.last() == (versions@[k as int].0@, versions@[k as int].1@));
        }
        let name = versions[k].0.clone();
        let version = versions[k].1.clone();
        let ghost before = tools_view(tools@);
        match find_tool(&tools, name.as_str()) {
            Some(p) => {
                tools.set(p, ObservedTool { tool: name, version: Some(version) });
                proof {
                    assert(tools_view(tools@) =~= before.update(
                        p as int,
                        ToolSpec { tool: pre.last().0, version: Some(pre.last().1) },
                    ));
                }
            },
            None => {
                tools.push(ObservedTool { tool: name, version: Some(version) });
                proof {
                    assert(tools_view(tools@) =~= before.push(
                        ToolSpec { tool: pre.last().0, version: Some(pre.last().1) },
                    ));
                }
            },
        }
        k = k + 1;
    }
    proof {
        assert(pairs.subrange(0, k as int) =~= pairs);
    }
    tools
}

/// Pairs of strings as values.
pub open spec fn pairs_view(v: Seq<(String, String)>) -> Seq<(Seq<char>, Seq<char>)> {
    v.map_values(|p: (String, String)| (p.0@, p.1@))
}

/// The checkout observations as values: root, remote, branch and status.
pub open spec fn checkout_observations_view(v: Seq<CheckoutObservation>) -> Seq<
    (Seq<char>, Option<Seq<char>>, Option<Seq<char>>, Seq<char>),
> {
    v.map_values(
        |c: CheckoutObservation| (c.root@, opt_text(c.remote), opt_text(c.branch), c.status@),
    )
}

/// The observed checkouts as values: root, remote and branch.
pub open spec fn checkouts_view(v: Seq<ObservedCheckout>) -> Seq<
    (Seq<char>, Option<Seq<char>>, Option<Seq<char>>),
> {
    v.map_values(|c: ObservedCheckout| (c.root@, opt_text(c.remote), opt_text(c.branch)))
}

/// The complete (`known`) observations, in order, without their status.
pub open spec fn known_checkouts(
    s: Seq<(Seq<char>, Option<Seq<char>>, Option<Seq<char>>, Seq<char>)>,
) -> Seq<(Seq<char>, Option<Seq<char>>, Option<Seq<char>>)>
    decreases s.len(),
{
    if s.len() == 0 {
        Seq::empty()
    } else {
        let rest = known_checkouts(s.drop_last());
        let last = s.last();
        if last.3 == "known"@ {
            rest.push((last.0, last.1, last.2))
        } else {
            rest
        }
    }
}

/// Normalizes checkout discoveries into observed checkouts: only `known`
/// observations count; an incomplete one is an honest gap, not an
/// observation.
pub fn normalize_checkouts(checkouts: &[CheckoutObservation]) -> (observed: Vec<ObservedCheckout>)
    ensures
        checkouts_view(observed@) == known_checkouts(checkout_observations_view(checkouts@)),
{
    let ghost all = checkout_observations_view(checkouts@);
    let mut out: Vec<ObservedCheckout> = Vec::new();
    let mut i: usize = 0;
    proof {
        assert(all.subrange(0, 0) =~= Seq::<
            (Seq<char>, Option<Seq<char>>, Option<Seq<char>>, Seq<char>),
        >::empty());
        assert(checkouts_view(out@) =~= Seq::<
            (Seq<char>, Option<Seq<char>>, Option<Seq<char>>),
        >::empty());
    }
    while i < checkouts.len()
        invariant
            all == checkout_observations_view(checkouts@),
            i <= checkouts@.len(),
            checkouts_view(out@) == known_checkouts(all.subrange(0, i as int)),
        decreases checkouts@.len() - i,
    {
        let ghost pre = all.subrange(0, i + 1);
        proof {
            assert(pre.drop_last() =~= all.subrange(0, i as int));
            assert(pre.last() == all[i as int]);
            reveal_strlit("known");
        }
        let checkout = &checkouts[i];
        if text_eq(checkout.status.as_str(), "known") {
            let ghost before = checkouts_view(out@);
            out.push(
                ObservedCheckout {
                    root: checkout.root.clone(),
                    remote: crate::difference::copy_opt(&checkout.remote),
                    branch: crate::difference::copy_opt(&checkout.branch),
                },
            );
            proof {
                assert(checkouts_view(out@) =~= before.push(
                    (checkout.root@, opt_text(checkout.remote), opt_text(checkout.branch)),
                ));
            }
        }
        i = i + 1;
    }
    proof {
        assert(all.subrange(0, i as int) =~= all);
    }
    out
}

/// The observed skills as values: (skill id, agent) pairs.
pub open spec fn skills_view(v: Seq<ObservedSkill>) -> Seq<(Seq<char>, Seq<char>)> {
    v.map_values(|s: ObservedSkill| (s.skill_id@, s.agent@))
}

/// Normalizes a deployment status into observed deployments: one per agent
/// the skill is deployed to, in order.
pub fn normalize_skills(skill_id: &str, deployed_to: &[&str]) -> (skills: Vec<ObservedSkill>)
    ensures
        skills_view(skills@) == Seq::new(
            deployed_to@.len(),
            |i: int| (skill_id@, deployed_to@[i]@),
        ),
{
    let mut out: Vec<ObservedSkill> = Vec::new();
    let mut i: usize = 0;
    while i < deployed_to.len()
        invariant
            i <= deployed_to@.len(),
            skills_view(out@) == Seq::new(i as nat, |j: int| (skill_id@, deployed_to@[j]@)),
        decreases deployed_to@.len() - i,
    {
        let ghost old_out = out@;
        let skill = ObservedSkill {
            skill_id: to_owned_string(skill_id),
            agent: to_owned_string(deployed_to[i]),
        };
        out.push(skill);
        proof {
            assert(out@ == old_out.push(skill));
            assert(skills_view(out@) =~= skills_view(old_out).push((skill_id@, deployed_to@[i as int]@)));
            assert(Seq::new((i + 1) as nat, |j: int| (skill_id@, deployed_to@[j]@)) =~= Seq::new(
                i as nat,
                |j: int| (skill_id@, deployed_to@[j]@),
            ).push((skill_id@, deployed_to@[i as int]@)));
        }
        i = i + 1;
    }
    out
}

/// The reason an unanswered tool inventory gives.
pub open spec fn unanswered_reason() -> Seq<char> {
    "the tool inventory did not answer; the machine's tool state is unknown"@
}

/// The version observed for a tool: that of the first observed tool with
/// its name, when it has one.
pub open spec fn observed_version(tools: Seq<ToolSpec>, name: Seq<char>) -> Option<Seq<char>> {
    match tool_index(tools, name) {
        Some(i) => tools[i].version,
        None => None,
    }
}

/// The tool fields of a comparison: an `unknown` per desired tool when the
/// inventory did not answer, else each desired version compared with the
/// observed one.
pub open spec fn tool_fields(
    desired: Seq<(Seq<char>, Seq<char>)>,
    tools: Seq<ToolSpec>,
    answered: bool,
) -> Seq<DifferenceSpec>
    decreases desired.len(),
{
    if desired.len() == 0 {
        Seq::empty()
    } else {
        let rest = tool_fields(desired.drop_last(), tools, answered);
        let (tool, version) = desired.last();
        let identity = "tool:"@ + tool;
        if !answered {
            rest.push(
                DifferenceSpec {
                    identity,
                    state: DifferenceState::Unknown,
                    desired: None,
                    observed: None,
                    reason: Some(unanswered_reason()),
                },
            )
        } else {
            match spec_compare_field(identity, Some(version), observed_version(tools, tool)) {
                Some(field) => rest.push(field),
                None => rest,
            }
        }
    }
}

/// Whether a skill is observed deployed to an agent.
pub open spec fn deployed(skills: Seq<(Seq<char>, Seq<char>)>, skill_id: Seq<char>, agent: Seq<char>) -> bool {
    exists|k: int| 0 <= k < skills.len() && #[trigger] skills[k] == (skill_id, agent)
}

/// The skill fields of a comparison: a `missing` deployment per desired
/// (skill, agent) pair that is not observed.
pub open spec fn skill_fields(
    desired: Seq<(Seq<char>, Seq<char>)>,
    skills: Seq<(Seq<char>, Seq<char>)>,
) -> Seq<DifferenceSpec>
    decreases desired.len(),
{
    if desired.len() == 0 {
        Seq::empty()
    } else {
        let rest = skill_fields(desired.drop_last(), skills);
        let (skill_id, agent) = desired.last();
        if deployed(skills, skill_id, agent) {
            rest
        } else {
            rest.push(
                DifferenceSpec {
                    identity: "skill:"@ + skill_id + "/"@ + agent,
                    state: DifferenceState::Missing,
                    desired: Some("deployed"@),
                    observed: None,
                    reason: None,
                },
            )
        }
    }
}

/// The position of the first observed checkout with a remote.
pub open spec fn checkout_index(
    checkouts: Seq<(Seq<char>, Option<Seq<char>>, Option<Seq<char>>)>,
    remote: Seq<char>,
) -> Option<int>
    decreases checkouts.len(),
{
    if checkouts.len() == 0 {
        None
    } else {
        match checkout_index(checkouts.drop_last(), remote) {
            Some(i) => Some(i),
            None => if checkouts.last().1 == Some(remote) {
                Some(checkouts.len() - 1)
            } else {
                None
            },
        }
    }
}

/// The checkout fields of a comparison: the desired root compared with the
/// root of the first observed checkout of the desired remote, or `missing`
/// when none is observed.
pub open spec fn checkout_fields(
    desired: Option<(Seq<char>, Seq<char>)>,
    checkouts: Seq<(Seq<char>, Option<Seq<char>>, Option<Seq<char>>)>,
) -> Seq<DifferenceSpec> {
    match desired {
        None => Seq::empty(),
        Some((remote, root)) => {
            let identity = "checkout:"@ + remote;
            match checkout_index(checkouts, remote) {
                Some(i) => match spec_compare_field(identity, Some(root), Some(checkouts[i].0)) {
                    Some(field) => seq![field],
                    None => Seq::empty(),
                },
                None => seq![
                    DifferenceSpec {
                        identity,
                        state: DifferenceState::Missing,
                        desired: Some(root),
                        observed: None,
                        reason: None,
                    },
                ],
            }
        },
    }
}

/// An optional pair of strings as values.
pub open spec fn opt_pair(o: Option<(String, String)>) -> Option<(Seq<char>, Seq<char>)> {
    match o {
        Some(p) => Some((p.0@, p.1@)),
        None => None,
    }
}

/// The comparison of a desired state with an observed state: the tool,
/// skill and checkout fields, canonicalized.
pub open spec fn spec_compare(desired: DesiredState, observed: ObservedState) -> Seq<DifferenceSpec> {
    canonical(
        tool_fields(
            pairs_view(desired.tools@),
            tools_view(observed.tools@),
            observed.mise_answered == Some(true),
        ) + skill_fields(pairs_view(desired.skills@), skills_view(observed.skills@))
            + checkout_fields(opt_pair(desired.checkout), checkouts_view(observed.checkouts@)),
    )
}

fn prefixed(prefix: &str, text: &str) -> (joined: String)
    ensures
        joined@ == prefix@ + text@,
{
    let mut out = to_owned_string(prefix);
    out.append(text);
    out
}

fn is_deployed(skills: &Vec<ObservedSkill>, skill_id: &str, agent: &str) -> (found: bool)
    ensures
        found == deployed(skills_view(skills@), skill_id@, agent@),
{
    let ghost all = skills_view(skills@);
    let mut i: usize = 0;
    while i < skills.len()
        invariant
            all == skills_view(skills@),
            i <= skills@.len(),
            forall|k: int| 0 <= k < i ==> #[trigger] all[k] != (skill_id@, agent@),
        decreases skills@.len() - i,
    {
        proof {
            assert(all[i as int] == (skills@[i as int].skill_id@, skills@[i as int].agent@));
        }
        if text_eq(skills[i].skill_id.as_str(), skill_id) && text_eq(skills[i].agent.as_str(), agent) {
            return true;
        }
        i = i + 1;
    }
    false
}

fn find_checkout(checkouts: &Vec<ObservedCheckout>, remote: &str) -> (found: Option<usize>)
    ensures
        match found {
            Some(i) => checkout_index(checkouts_view(checkouts@), remote@) == Some(i as int) && i
                < checkouts@.len(),
            None => checkout_index(checkouts_view(checkouts@), remote@) is None,
        },
{
    let ghost all = checkouts_view(checkouts@);
    let mut i: usize = 0;
    while i < checkouts.len()
        invariant
            all == checkouts_view(checkouts@),
            i <= checkouts@.len(),
            checkout_index(all.subrange(0, i as int), remote@) is None,
        decreases checkouts@.len() - i,
    {
        let ghost pre = all.subrange(0, i + 1);
        proof {
            assert(pre.drop_last() =~= all.subrange(0, i as int));
            assert(pre.last() == all[i as int]);
        }
        let matches_remote = match &checkouts[i].remote {
            Some(r) => text_eq(r.as_str(), remote),
            None => false,
        };
        if matches_remote {
            proof {
                lemma_checkout_index_prefix(all, remote@, i + 1);
            }
            return Some(i);
        }
        i = i + 1;
    }
    proof {
        assert(all.subrange(0, i as int) =~= all);
    }
    None
}

proof fn lemma_checkout_index_found(
    checkouts: Seq<(Seq<char>, Option<Seq<char>>, Option<Seq<char>>)>,
    remote: Seq<char>,
)
    ensures
        checkout_index(checkouts, remote) matches Some(i) ==> 0 <= i < checkouts.len()
            && checkouts[i].1 == Some(remote),
    decreases checkouts.len(),
{
    if checkouts.len() > 0 {
        lemma_checkout_index_found(checkouts.drop_last(), remote);
    }
}

proof fn lemma_checkout_index_prefix(
    checkouts: Seq<(Seq<char>, Option<Seq<char>>, Option<Seq<char>>)>,
    remote: Seq<char>,
    n: int,
)
    requires
        0 <= n <= checkouts.len(),
        checkout_index(checkouts.subrange(0, n), remote) is Some,
    ensures
        checkout_index(checkouts, remote) == checkout_index(checkouts.subrange(0, n), remote),
    decreases checkouts.len() - n,
{
    if n < checkouts.len() {
        let next = checkouts.subrange(0, n + 1);
        assert(next.drop_last() =~= checkouts.subrange(0, n));
        lemma_checkout_index_prefix(checkouts, remote, n + 1);
    } else {
        assert(checkouts.subrange(0, n) =~= checkouts);
    }
}

fn push_opt(set: &mut DifferenceSet, field: Option<FieldDifference>)
    ensures
        fields_view(final(set).fields@) == match field {
            Some(f) => fields_view(old(set).fields@).push(f@),
            None => fields_view(old(set).fields@),
        },
{
    match field {
        Some(f) => set.push(f),
        None => {},
    }
}

/// Compares the desired state with the observed state into a canonical
/// difference set (see [`spec_compare`]). When the tool inventory did not
/// answer, every desired tool is an honest `unknown` with a reason. Desired
/// tool sets are additive: an observed tool nothing desires is not reported.
pub fn compare(desired: &DesiredState, observed: &ObservedState) -> (set: DifferenceSet)
    ensures
        fields_view(set.fields@) == spec_compare(*desired, *observed),
{
    let mut set = DifferenceSet::new();
    let answered = match observed.mise_answered {
        Some(b) => b,
        None => false,
    };
    let ghost tools = tools_view(observed.tools@);
    let ghost wanted = pairs_view(desired.tools@);
    let mut i: usize = 0;
    proof {
        assert(wanted.subrange(0, 0) =~= Seq::<(Seq<char>, Seq<char>)>::empty());
        assert(fields_view(set.fields@) =~= Seq::<DifferenceSpec>::empty());
    }
    while i < desired.tools.len()
        invariant
            tools == tools_view(observed.tools@),
            wanted == pairs_view(desired.tools@),
            answered == (observed.mise_answered == Some(true)),
            i <= desired.tools@.len(),
            fields_view(set.fields@) == tool_fields(wanted.subrange(0, i as int), tools, answered),
        decreases desired.tools@.len() - i,
    {
        let ghost pre = wanted.subrange(0, i + 1);
        proof {
            assert(pre.drop_last() =~= wanted.subrange(0, i as int));
            assert(pre.last() == (desired.tools@[i as int].0@, desired.tools@[i as int].1@));
            reveal_strlit("tool:");
        }
        let tool = desired.tools[i].0.as_str();
        let version = desired.tools[i].1.as_str();
        let identity = prefixed("tool:", tool);
        if !answered {
            set.push(
                FieldDifference::unknown(
                    identity.as_str(),
                    None,
                    "the tool inventory did not answer; the machine's tool state is unknown",
                ),
            );
        } else {
            let observed_version: Option<&str> = match find_tool(&observed.tools, tool) {
                Some(p) => match &observed.tools[p].version {
                    Some(v) => Some(v.as_str()),
                    None => None,
                },
                None => None,
            };
            push_opt(
                &mut set,
                crate::difference::compare_field(identity.as_str(), Some(version), observed_version),
            );
        }
        i = i + 1;
    }
    proof {
        assert(wanted.subrange(0, i as int) =~= wanted);
    }
    let ghost tool_part = fields_view(set.fields@);
    let ghost skills = skills_view(observed.skills@);
    let ghost wanted_skills = pairs_view(desired.skills@);
    let mut j: usize = 0;
    proof {
        assert(wanted_skills.subrange(0, 0) =~= Seq::<(Seq<char>, Seq<char>)>::empty());
        assert(tool_part + skill_fields(wanted_skills.subrange(0, 0), skills) =~= tool_part);
    }
    while j < desired.skills.len()
        invariant
            skills == skills_view(observed.skills@),
            wanted_skills == pairs_view(desired.skills@),
            j <= desired.skills@.len(),
            fields_view(set.fields@) == tool_part + skill_fields(
                wanted_skills.subrange(0, j as int),
                skills,
            ),
        decreases desired.skills@.len() - j,
    {
        let ghost pre = wanted_skills.subrange(0, j + 1);
        proof {
            assert(pre.drop_last() =~= wanted_skills.subrange(0, j as int));
            assert(pre.last() == (desired.skills@[j as int].0@, desired.skills@[j as int].1@));
            reveal_strlit("skill:");
            reveal_strlit("/");
        }
        let skill_id = desired.skills[j].0.as_str();
        let agent = desired.skills[j].1.as_str();
        if !is_deployed(&observed.skills, skill_id, agent) {
            let mut identity = prefixed("skill:", skill_id);
            identity.append("/");
            identity.append(agent);
            let ghost before = fields_view(set.fields@);
            set.push(FieldDifference::missing(identity.as_str(), "deployed"));
            proof {
                assert(fields_view(set.fields@) =~= tool_part + skill_fields(pre, skills));
            }
        } else {
            proof {
                assert(skill_fields(pre, skills) == skill_fields(wanted_skills.subrange(0, j as int), skills));
            }
        }
        j = j + 1;
    }
    proof {
        assert(wanted_skills.subrange(0, j as int) =~= wanted_skills);
    }
    let ghost before_checkout = fields_view(set.fields@);
    match &desired.checkout {
        Some((remote, root)) => {
            proof {
                reveal_strlit("checkout:");
            }
            let identity = prefixed("checkout:", remote.as_str());
            match find_checkout(&observed.checkouts, remote.as_str()) {
                Some(p) => {
                    push_opt(
                        &mut set,
                        crate::difference::compare_field(
                            identity.as_str(),
                            Some(root.as_str()),
                            Some(observed.checkouts[p].root.as_str()),
                        ),
                    );
                    proof {
                        assert(checkouts_view(observed.checkouts@)[p as int].0
                            == observed.checkouts@[p as int].root@);
                    }
                },
                None => {
                    set.push(FieldDifference::missing(identity.as_str(), root.as_str()));
                },
            }
        },
        None => {},
    }
    proof {
        let cf = checkout_fields(opt_pair(desired.checkout), checkouts_view(observed.checkouts@));
        assert(fields_view(set.fields@) =~= before_checkout + cf);
        assert(before_checkout + cf =~= tool_fields(
            pairs_view(desired.tools@),
            tools_view(observed.tools@),
            observed.mise_answered == Some(true),
        ) + skill_fields(pairs_view(desired.skills@), skills_view(observed.skills@)) + cf);
    }
    set.canonicalize();
    set
}

proof fn lemma_unanswered_tools_unknown(
    desired: Seq<(Seq<char>, Seq<char>)>,
    tools: Seq<ToolSpec>,
    i: int,
)
    requires
        0 <= i < desired.len(),
    ensures
        crate::difference::holds_unknown(tool_fields(desired, tools, false), "tool:"@ + desired[i].0),
    decreases desired.len(),
{
    let fields = tool_fields(desired, tools, false);
    let init = desired.drop_last();
    if i < desired.len() - 1 {
        assert(init[i] == desired[i]);
        lemma_unanswered_tools_unknown(init, tools, i);
        let rest = tool_fields(init, tools, false);
        let k = choose|k: int|
            0 <= k < rest.len() && (#[trigger] rest[k]).identity == "tool:"@ + desired[i].0
                && rest[k].state == DifferenceState::Unknown;
        assert(fields[k] == rest[k]);
    } else {
        let rest = tool_fields(init, tools, false);
        assert(fields[rest.len() as int].identity == "tool:"@ + desired[i].0);
    }
}

/// An unanswered tool inventory is an honest unknown: when the inventory did
/// not answer, the comparison holds, for every desired tool, an `unknown`
/// field of that tool, which is never actionable.
pub proof fn law_unanswered_inventory_is_unknown(desired: DesiredState, observed: ObservedState, i: int)
    requires
        observed.mise_answered != Some(true),
        0 <= i < desired.tools@.len(),
    ensures
        crate::difference::holds_unknown(
            spec_compare(desired, observed),
            "tool:"@ + desired.tools@[i].0@,
        ),
{
    let wanted = pairs_view(desired.tools@);
    let tools = tools_view(observed.tools@);
    lemma_unanswered_tools_unknown(wanted, tools, i);
    let tf = tool_fields(wanted, tools, false);
    let all = tf + skill_fields(pairs_view(desired.skills@), skills_view(observed.skills@))
        + checkout_fields(opt_pair(desired.checkout), checkouts_view(observed.checkouts@));
    let k = choose|k: int|
        0 <= k < tf.len() && (#[trigger] tf[k]).identity == "tool:"@ + wanted[i].0 && tf[k].state
            == DifferenceState::Unknown;
    assert(all[k] == tf[k]);
    crate::difference::law_canonical_keeps_unknown(all, "tool:"@ + wanted[i].0);
}

/// Whether an observed state matches a desired one: the tool inventory
/// answered with every desired version, every desired skill is deployed to
/// its agent, and the desired remote is checked out at the desired root.
pub open spec fn converged(desired: DesiredState, observed: ObservedState) -> bool {
    let tools = tools_view(observed.tools@);
    let wanted = pairs_view(desired.tools@);
    let skills = skills_view(observed.skills@);
    let wanted_skills = pairs_view(desired.skills@);
    let checkouts = checkouts_view(observed.checkouts@);
    &&& observed.mise_answered == Some(true)
    &&& forall|i: int|
        0 <= i < wanted.len() ==> observed_version(tools, (#[trigger] wanted[i]).0) == Some(
            wanted[i].1,
        )
    &&& forall|i: int|
        0 <= i < wanted_skills.len() ==> deployed(
            skills,
            (#[trigger] wanted_skills[i]).0,
            wanted_skills[i].1,
        )
    &&& opt_pair(desired.checkout) matches Some((remote, root)) ==> (checkout_index(
        checkouts,
        remote,
    ) matches Some(k) && checkouts[k].0 == root)
}

proof fn lemma_matching_tools_have_no_fields(
    wanted: Seq<(Seq<char>, Seq<char>)>,
    tools: Seq<ToolSpec>,
)
    requires
        forall|i: int|
            0 <= i < wanted.len() ==> observed_version(tools, (#[trigger] wanted[i]).0) == Some(
                wanted[i].1,
            ),
    ensures
        tool_fields(wanted, tools, true) == Seq::<DifferenceSpec>::empty(),
    decreases wanted.len(),
{
    if wanted.len() > 0 {
        let init = wanted.drop_last();
        assert forall|i: int| 0 <= i < init.len() implies observed_version(
            tools,
            (#[trigger] init[i]).0,
        ) == Some(init[i].1) by {
            assert(init[i] == wanted[i]);
        }
        lemma_matching_tools_have_no_fields(init, tools);
        assert(wanted[wanted.len() - 1] == wanted.last());
    }
}

proof fn lemma_deployed_skills_have_no_fields(
    wanted: Seq<(Seq<char>, Seq<char>)>,
    skills: Seq<(Seq<char>, Seq<char>)>,
)
    requires
        forall|i: int| 0 <= i < wanted.len() ==> deployed(skills, (#[trigger] wanted[i]).0, wanted[i].1),
    ensures
        skill_fields(wanted, skills) == Seq::<DifferenceSpec>::empty(),
    decreases wanted.len(),
{
    if wanted.len() > 0 {
        let init = wanted.drop_last();
        assert forall|i: int| 0 <= i < init.len() implies deployed(
            skills,
            (#[trigger] init[i]).0,
            init[i].1,
        ) by {
            assert(init[i] == wanted[i]);
        }
        lemma_deployed_skills_have_no_fields(init, skills);
        assert(wanted[wanted.len() - 1] == wanted.last());
    }
}

/// A converged machine yields an empty difference set: when every desired
/// tool, skill and checkout is observed as desired, the comparison holds no
/// field at all.
pub proof fn law_converged_machine_has_no_differences(desired: DesiredState, observed: ObservedState)
    requires
        converged(desired, observed),
    ensures
        spec_compare(desired, observed) == Seq::<DifferenceSpec>::empty(),
{
    lemma_matching_tools_have_no_fields(pairs_view(desired.tools@), tools_view(observed.tools@));
    lemma_deployed_skills_have_no_fields(pairs_view(desired.skills@), skills_view(observed.skills@));
    let all = tool_fields(
        pairs_view(desired.tools@),
        tools_view(observed.tools@),
        observed.mise_answered == Some(true),
    ) + skill_fields(pairs_view(desired.skills@), skills_view(observed.skills@)) + checkout_fields(
        opt_pair(desired.checkout),
        checkouts_view(observed.checkouts@),
    );
    assert(all =~= Seq::<DifferenceSpec>::empty());
}


/// Whether a desired tool is matched: the inventory answered and reports
/// the desired version.
pub open spec fn tool_matched(tools: Seq<ToolSpec>, answered: bool, wanted: (Seq<char>, Seq<char>)) -> bool {
    answered && observed_version(tools, wanted.0) == Some(wanted.1)
}

/// Whether a desired checkout is matched: the remote is checked out at the
/// desired root.
pub open spec fn checkout_matched(
    checkouts: Seq<(Seq<char>, Option<Seq<char>>, Option<Seq<char>>)>,
    remote: Seq<char>,
    root: Seq<char>,
) -> bool {
    checkout_index(checkouts, remote) matches Some(i) && checkouts[i].0 == root
}

proof fn lemma_tool_fields_report(
    wanted: Seq<(Seq<char>, Seq<char>)>,
    tools: Seq<ToolSpec>,
    answered: bool,
    i: int,
)
    requires
        0 <= i < wanted.len(),
        !tool_matched(tools, answered, wanted[i]),
    ensures
        crate::difference::reports(tool_fields(wanted, tools, answered), "tool:"@ + wanted[i].0),
    decreases wanted.len(),
{
    let prefix = wanted.drop_last();
    let all = tool_fields(wanted, tools, answered);
    let rest = tool_fields(prefix, tools, answered);
    if i < wanted.len() - 1 {
        assert(prefix[i] == wanted[i]);
        lemma_tool_fields_report(prefix, tools, answered, i);
        let k = choose|k: int|
            0 <= k < rest.len() && (#[trigger] rest[k]).identity == "tool:"@ + wanted[i].0;
        assert(all[k] == rest[k]);
    } else {
        assert(all[all.len() - 1].identity == "tool:"@ + wanted[i].0);
    }
}

proof fn lemma_skill_fields_report(
    wanted: Seq<(Seq<char>, Seq<char>)>,
    skills: Seq<(Seq<char>, Seq<char>)>,
    i: int,
)
    requires
        0 <= i < wanted.len(),
        !deployed(skills, wanted[i].0, wanted[i].1),
    ensures
        crate::difference::reports(
            skill_fields(wanted, skills),
            "skill:"@ + wanted[i].0 + "/"@ + wanted[i].1,
        ),
    decreases wanted.len(),
{
    let prefix = wanted.drop_last();
    let all = skill_fields(wanted, skills);
    let rest = skill_fields(prefix, skills);
    let identity = "skill:"@ + wanted[i].0 + "/"@ + wanted[i].1;
    if i < wanted.len() - 1 {
        assert(prefix[i] == wanted[i]);
        lemma_skill_fields_report(prefix, skills, i);
        let k = choose|k: int| 0 <= k < rest.len() && (#[trigger] rest[k]).identity == identity;
        assert(all[k] == rest[k]);
    } else {
        assert(all[all.len() - 1].identity == identity);
    }
}

/// Comparison drops nothing silently: every desired tool version, skill
/// deployment and checkout is either matched by the observation or reported
/// by a difference of its identity.
pub proof fn law_unmatched_desires_are_reported(desired: DesiredState, observed: ObservedState)
    ensures
        forall|i: int|
            0 <= i < desired.tools@.len() && !tool_matched(
                tools_view(observed.tools@),
                observed.mise_answered == Some(true),
                #[trigger] pairs_view(desired.tools@)[i],
            ) ==> crate::difference::reports(
                spec_compare(desired, observed),
                "tool:"@ + pairs_view(desired.tools@)[i].0,
            ),
        forall|i: int|
            0 <= i < desired.skills@.len() && !deployed(
                skills_view(observed.skills@),
                (#[trigger] pairs_view(desired.skills@)[i]).0,
                pairs_view(desired.skills@)[i].1,
            ) ==> crate::difference::reports(
                spec_compare(desired, observed),
                "skill:"@ + pairs_view(desired.skills@)[i].0 + "/"@ + pairs_view(desired.skills@)[i].1,
            ),
        opt_pair(desired.checkout) matches Some((remote, root)) ==> (!checkout_matched(
            checkouts_view(observed.checkouts@),
            remote,
            root,
        ) ==> crate::difference::reports(spec_compare(desired, observed), "checkout:"@ + remote)),
{
    let wanted = pairs_view(desired.tools@);
    let tools = tools_view(observed.tools@);
    let answered = observed.mise_answered == Some(true);
    let wanted_skills = pairs_view(desired.skills@);
    let skills = skills_view(observed.skills@);
    let checkouts = checkouts_view(observed.checkouts@);
    let tf = tool_fields(wanted, tools, answered);
    let sf = skill_fields(wanted_skills, skills);
    let cf = checkout_fields(opt_pair(desired.checkout), checkouts);
    let all = tf + sf + cf;
    assert forall|i: int|
        0 <= i < desired.tools@.len() && !tool_matched(
            tools,
            answered,
            #[trigger] wanted[i],
        ) implies crate::difference::reports(
        spec_compare(desired, observed),
        "tool:"@ + wanted[i].0,
    ) by {
        lemma_tool_fields_report(wanted, tools, answered, i);
        let k = choose|k: int| 0 <= k < tf.len() && (#[trigger] tf[k]).identity == "tool:"@ + wanted[i].0;
        assert(all[k] == tf[k]);
        crate::difference::lemma_canonical_keeps_identity(all, "tool:"@ + wanted[i].0);
    }
    assert forall|i: int|
        0 <= i < desired.skills@.len() && !deployed(
            skills,
            (#[trigger] wanted_skills[i]).0,
            wanted_skills[i].1,
        ) implies crate::difference::reports(
        spec_compare(desired, observed),
        "skill:"@ + wanted_skills[i].0 + "/"@ + wanted_skills[i].1,
    ) by {
        let identity = "skill:"@ + wanted_skills[i].0 + "/"@ + wanted_skills[i].1;
        lemma_skill_fields_report(wanted_skills, skills, i);
        let k = choose|k: int| 0 <= k < sf.len() && (#[trigger] sf[k]).identity == identity;
        assert(all[tf.len() as int + k] == sf[k]);
        crate::difference::lemma_canonical_keeps_identity(all, identity);
    }
    match opt_pair(desired.checkout) {
        Some((remote, root)) => {
            if !checkout_matched(checkouts, remote, root) {
                assert(cf[0].identity == "checkout:"@ + remote);
                assert(all[(tf.len() + sf.len()) as int] == cf[0]);
                crate::difference::lemma_canonical_keeps_identity(all, "checkout:"@ + remote);
            }
        },
        None => {},
    }
}

} // verus!
