//! The ready-project workflow: a plan computed from observed state, each
//! step mapped to an audited operation kind.
//!
//! A plan is idempotent by construction: every step carries the predicate
//! that makes it skippable, so a re-run computes the same plan minus the
//! steps already satisfied. An unavailable observation makes its step run:
//! retrying an idempotent step is cheaper than guessing.

use vstd::prelude::*;

use crate::text::texts;

verus! {

/// The steps a ready plan may contain, in execution order.
#[derive(Clone, Debug, PartialEq, Eq)]
pub enum ReadyStep {
    /// Clone the project's remote into a checkout root on the machine.
    Clone {
        /// The checkout root the clone lands in.
        root: String,
    },
    /// Install one of the project's declared tools through mise.
    MiseInstall {
        /// The tool to install.
        tool: String,
        /// The pinned version to install.
        version: String,
    },
    /// Run the Frogenv setup ceremony for the checkout.
    FrogenvSetup,
    /// Deploy the project's skill to the machine's agents.
    SkillsDeploy {
        /// The skill to deploy.
        skill_id: String,
        /// The agents to deploy to.
        agents: Vec<String>,
    },
    /// Re-observe the machine and report readiness. Always runs.
    Verify,
}

/// The mathematical value of a step.
pub enum ReadyStepSpec {
    /// Clone into a root.
    Clone(Seq<char>),
    /// Install a tool at a version.
    MiseInstall(Seq<char>, Seq<char>),
    /// Configure Frogenv.
    FrogenvSetup,
    /// Deploy a skill to agents.
    SkillsDeploy(Seq<char>, Seq<Seq<char>>),
    /// Verify readiness.
    Verify,
}

impl View for ReadyStep {
    type V = ReadyStepSpec;

    open spec fn view(&self) -> ReadyStepSpec {
        match self {
            ReadyStep::Clone { root } => ReadyStepSpec::Clone(root@),
            ReadyStep::MiseInstall { tool, version } => ReadyStepSpec::MiseInstall(
                tool@,
                version@,
            ),
            ReadyStep::FrogenvSetup => ReadyStepSpec::FrogenvSetup,
            ReadyStep::SkillsDeploy { skill_id, agents } => ReadyStepSpec::SkillsDeploy(
                skill_id@,
                texts(agents@),
            ),
            ReadyStep::Verify => ReadyStepSpec::Verify,
        }
    }
}

/// The stable name of a step.
pub open spec fn step_name(step: ReadyStepSpec) -> Seq<char> {
    match step {
        ReadyStepSpec::Clone(_) => "clone"@,
        ReadyStepSpec::MiseInstall(_, _) => "mise_install"@,
        ReadyStepSpec::FrogenvSetup => "frogenv_setup"@,
        ReadyStepSpec::SkillsDeploy(_, _) => "skills_deploy"@,
        ReadyStepSpec::Verify => "verify"@,
    }
}

/// The operation kind a step maps to.
pub open spec fn step_operation_kind(step: ReadyStepSpec) -> Seq<char> {
    match step {
        ReadyStepSpec::Clone(_) => "projects.clone"@,
        ReadyStepSpec::MiseInstall(_, _) => "mise.install"@,
        ReadyStepSpec::FrogenvSetup => "frogenv.setup"@,
        ReadyStepSpec::SkillsDeploy(_, _) => "skills.deploy"@,
        ReadyStepSpec::Verify => "tools.inventory"@,
    }
}

/// The human rendering of a step.
pub open spec fn step_text(step: ReadyStepSpec) -> Seq<char> {
    match step {
        ReadyStepSpec::Clone(root) => "clone into "@ + root,
        ReadyStepSpec::MiseInstall(tool, version) => "install "@ + tool + "@"@ + version,
        ReadyStepSpec::FrogenvSetup => "configure Frogenv"@,
        ReadyStepSpec::SkillsDeploy(skill_id, agents) => "deploy "@ + skill_id + " to "@
            + crate::text::decimal(agents.len()) + " agent(s)"@,
        ReadyStepSpec::Verify => "verify readiness"@,
    }
}

impl ReadyStep {
    /// The step's stable name, as recorded in progress and results.
    pub fn name(&self) -> (name: &'static str)
        ensures
            name@ == step_name(self@),
    {
        match self {
            ReadyStep::Clone { .. } => "clone",
            ReadyStep::MiseInstall { .. } => "mise_install",
            ReadyStep::FrogenvSetup => "frogenv_setup",
            ReadyStep::SkillsDeploy { .. } => "skills_deploy",
            ReadyStep::Verify => "verify",
        }
    }

    /// The operation kind the step maps to.
    pub fn operation_kind(&self) -> (kind: &'static str)
        ensures
            kind@ == step_operation_kind(self@),
    {
        match self {
            ReadyStep::Clone { .. } => "projects.clone",
            ReadyStep::MiseInstall { .. } => "mise.install",
            ReadyStep::FrogenvSetup => "frogenv.setup",
            ReadyStep::SkillsDeploy { .. } => "skills.deploy",
            ReadyStep::Verify => "tools.inventory",
        }
    }

    /// The human rendering of the step, e.g. `install node@20.11.0`.
    pub fn describe(&self) -> (text: String)
        ensures
            text@ == step_text(self@),
    {
        match self {
            ReadyStep::Clone { root } => String::from_str("clone into ").concat(root.as_str()),
            ReadyStep::MiseInstall { tool, version } => {
                let text = String::from_str("install ").concat(tool.as_str());
                text.concat("@").concat(version.as_str())
            },
            ReadyStep::FrogenvSetup => String::from_str("configure Frogenv"),
            ReadyStep::SkillsDeploy { skill_id, agents } => {
                let text = String::from_str("deploy ").concat(skill_id.as_str()).concat(" to ");
                let count = crate::text::format_decimal(agents.len() as u64);
                proof {
                    assert(texts(agents@).len() == agents@.len());
                }
                text.concat(count.as_str()).concat(" agent(s)")
            },
            ReadyStep::Verify => String::from_str("verify readiness"),
        }
    }
}

/// The observed state a plan is computed from. Every field is optional
/// because an observation may be unavailable.
#[derive(Clone, Debug, Default)]
pub struct ObservedState {
    /// A checkout root whose normalized remote matches the project, when
    /// discovery found one.
    pub matching_checkout: Option<String>,
    /// The tools mise reports installed, with their versions.
    pub mise_installed: Vec<(String, String)>,
    /// Whether Frogenv is configured on the machine, when status answered.
    pub frogenv_configured: Option<bool>,
    /// The skill deployments the machine's agents carry, as (skill, agent).
    pub skills_deployed: Vec<(String, String)>,
}

/// The tool a plan's mise step needs, as the project declares it.
#[derive(Clone, Debug, Default)]
pub struct ToolRequest {
    /// The tool name.
    pub tool: String,
    /// The pinned version.
    pub version: String,
}

/// Text pairs as values.
pub open spec fn pair_texts(v: Seq<(String, String)>) -> Seq<(Seq<char>, Seq<char>)> {
    v.map_values(|p: (String, String)| (p.0@, p.1@))
}

/// The tool requests as (tool, version) values.
pub open spec fn request_texts(v: Seq<ToolRequest>) -> Seq<(Seq<char>, Seq<char>)> {
    v.map_values(|r: ToolRequest| (r.tool@, r.version@))
}

/// The mise installs still needed: every requested tool whose exact version
/// mise does not report installed, in request order.
pub open spec fn mise_steps(
    tools: Seq<(Seq<char>, Seq<char>)>,
    installed: Seq<(Seq<char>, Seq<char>)>,
) -> Seq<ReadyStepSpec>
    decreases tools.len(),
{
    if tools.len() == 0 {
        Seq::empty()
    } else {
        let rest = mise_steps(tools.drop_last(), installed);
        let t = tools.last();
        if installed.contains(t) {
            rest
        } else {
            rest.push(ReadyStepSpec::MiseInstall(t.0, t.1))
        }
    }
}

/// Whether every agent already carries the named skill.
pub open spec fn skill_deployed(
    deployed: Seq<(Seq<char>, Seq<char>)>,
    skill_id: Seq<char>,
    agents: Seq<Seq<char>>,
) -> bool {
    forall|i: int| 0 <= i < agents.len() ==> deployed.contains((skill_id, #[trigger] agents[i]))
}

/// The ready plan: clone when no matching checkout was observed; install
/// each requested tool not reported installed at its version; set up
/// Frogenv unless it reported configured; deploy the skill unless every
/// agent reported it; and always verify last.
pub open spec fn spec_plan_ready(
    root: Seq<char>,
    tools: Seq<(Seq<char>, Seq<char>)>,
    skill: Option<(Seq<char>, Seq<Seq<char>>)>,
    checkout_observed: bool,
    installed: Seq<(Seq<char>, Seq<char>)>,
    frogenv_configured: Option<bool>,
    deployed: Seq<(Seq<char>, Seq<char>)>,
) -> Seq<ReadyStepSpec> {
    let clone: Seq<ReadyStepSpec> = if checkout_observed {
        Seq::empty()
    } else {
        seq![ReadyStepSpec::Clone(root)]
    };
    let frogenv: Seq<ReadyStepSpec> = if frogenv_configured == Some(true) {
        Seq::empty()
    } else {
        seq![ReadyStepSpec::FrogenvSetup]
    };
    let deploy: Seq<ReadyStepSpec> = match skill {
        Some((skill_id, agents)) => if skill_deployed(deployed, skill_id, agents) {
            Seq::empty()
        } else {
            seq![ReadyStepSpec::SkillsDeploy(skill_id, agents)]
        },
        None => Seq::empty(),
    };
    clone + mise_steps(tools, installed) + frogenv + deploy + seq![ReadyStepSpec::Verify]
}

/// Whether a pair list contains a pair.
fn contains_pair(pairs: &Vec<(String, String)>, first: &str, second: &str) -> (found: bool)
    ensures
        found == pair_texts(pairs@).contains((first@, second@)),
{
    let mut i: usize = 0;
    while i < pairs.len()
        invariant
            i <= pairs@.len(),
            forall|k: int| 0 <= k < i ==> pair_texts(pairs@)[k] != (first@, second@),
        decreases pairs@.len() - i,
    {
        if crate::text::text_eq(pairs[i].0.as_str(), first) && crate::text::text_eq(
            pairs[i].1.as_str(),
            second,
        ) {
            proof {
                assert(pair_texts(pairs@)[i as int] == (first@, second@));
            }
            return true;
        }
        i = i + 1;
    }
    false
}

/// Copies a list of strings.
fn copy_strings(v: &[String]) -> (copy: Vec<String>)
    ensures
        texts(copy@) == texts(v@),
{
    let mut out: Vec<String> = Vec::new();
    let mut i: usize = 0;
    while i < v.len()
        invariant
            i <= v@.len(),
            texts(out@) == texts(v@).subrange(0, i as int),
        decreases v@.len() - i,
    {
        let ghost before = out@;
        out.push(v[i].clone());
        proof {
            assert(texts(out@) =~= texts(before).push(v@[i as int]@));
            assert(texts(v@).subrange(0, i + 1) =~= texts(v@).subrange(0, i as int).push(
                v@[i as int]@,
            ));
        }
        i = i + 1;
    }
    proof {
        assert(texts(v@).subrange(0, i as int) =~= texts(v@));
    }
    out
}

/// The steps as values.
pub open spec fn steps_view(steps: Seq<ReadyStep>) -> Seq<ReadyStepSpec> {
    steps.map_values(|s: ReadyStep| s@)
}

fn push_step(steps: &mut Vec<ReadyStep>, step: ReadyStep)
    ensures
        steps_view(final(steps)@) == steps_view(old(steps)@).push(step@),
{
    let ghost before = steps@;
    steps.push(step);
    proof {
        assert(steps_view(steps@) =~= steps_view(before).push(step@));
    }
}

/// Computes the plan: the ordered steps still needed to make the project
/// ready, given what was observed (see [`spec_plan_ready`]). The same
/// observation always yields the same plan; a re-run after partial execution
/// yields only the remainder.
pub fn plan_ready(
    checkout_root: &str,
    tools: &[ToolRequest],
    skill: Option<(&str, &[String])>,
    observed: &ObservedState,
) -> (steps: Vec<ReadyStep>)
    ensures
        steps_view(steps@) == spec_plan_ready(
            checkout_root@,
            request_texts(tools@),
            match skill {
                Some((skill_id, agents)) => Some((skill_id@, texts(agents@))),
                None => None,
            },
            observed.matching_checkout is Some,
            pair_texts(observed.mise_installed@),
            observed.frogenv_configured,
            pair_texts(observed.skills_deployed@),
        ),
{
    let ghost installed = pair_texts(observed.mise_installed@);
    let ghost requests = request_texts(tools@);
    let mut steps: Vec<ReadyStep> = Vec::new();
    if observed.matching_checkout.is_none() {
        push_step(&mut steps, ReadyStep::Clone { root: crate::text::to_owned_string(checkout_root) });
    }
    let ghost clone_part = steps_view(steps@);
    proof {
        assert(clone_part =~= clone_part + mise_steps(requests.subrange(0, 0), installed));
    }
    let mut i: usize = 0;
    while i < tools.len()
        invariant
            installed == pair_texts(observed.mise_installed@),
            requests == request_texts(tools@),
            i <= tools@.len(),
            steps_view(steps@) == clone_part + mise_steps(requests.subrange(0, i as int), installed),
        decreases tools@.len() - i,
    {
        let request = &tools[i];
        let present = contains_pair(
            &observed.mise_installed,
            request.tool.as_str(),
            request.version.as_str(),
        );
        proof {
            let pre = requests.subrange(0, i + 1);
            assert(pre.drop_last() =~= requests.subrange(0, i as int));
            assert(pre.last() == (request.tool@, request.version@));
        }
        if !present {
            push_step(
                &mut steps,
                ReadyStep::MiseInstall { tool: request.tool.clone(), version: request.version.clone() },
            );
        }
        i = i + 1;
    }
    proof {
        assert(requests.subrange(0, i as int) =~= requests);
    }
    if observed.frogenv_configured != Some(true) {
        push_step(&mut steps, ReadyStep::FrogenvSetup);
    }
    if let Some((skill_id, agents)) = skill {
        let ghost deployed = pair_texts(observed.skills_deployed@);
        let mut all = true;
        let mut a: usize = 0;
        while a < agents.len()
            invariant
                deployed == pair_texts(observed.skills_deployed@),
                a <= agents@.len(),
                all <==> forall|k: int|
                    0 <= k < a ==> deployed.contains((skill_id@, #[trigger] texts(agents@)[k])),
            decreases agents@.len() - a,
        {
            if !contains_pair(&observed.skills_deployed, skill_id, agents[a].as_str()) {
                all = false;
            }
            proof {
                assert(texts(agents@)[a as int] == agents@[a as int]@);
            }
            a = a + 1;
        }
        if !all {
            push_step(
                &mut steps,
                ReadyStep::SkillsDeploy {
                    skill_id: crate::text::to_owned_string(skill_id),
                    agents: copy_strings(agents),
                },
            );
        }
    }
    push_step(&mut steps, ReadyStep::Verify);
    proof {
        let v = steps_view(steps@);
        assert(v =~= spec_plan_ready(
            checkout_root@,
            request_texts(tools@),
            match skill {
                Some((skill_id, agents)) => Some((skill_id@, texts(agents@))),
                None => None,
            },
            observed.matching_checkout is Some,
            pair_texts(observed.mise_installed@),
            observed.frogenv_configured,
            pair_texts(observed.skills_deployed@),
        ));
    }
    steps
}

/// Every plan ends with exactly one verification step, and nothing but the
/// final step verifies: readiness is always re-observed, once, last.
pub proof fn law_plan_always_verifies_last(
    root: Seq<char>,
    tools: Seq<(Seq<char>, Seq<char>)>,
    skill: Option<(Seq<char>, Seq<Seq<char>>)>,
    checkout_observed: bool,
    installed: Seq<(Seq<char>, Seq<char>)>,
    frogenv_configured: Option<bool>,
    deployed: Seq<(Seq<char>, Seq<char>)>,
)
    ensures
        ({
            let plan = spec_plan_ready(
                root,
                tools,
                skill,
                checkout_observed,
                installed,
                frogenv_configured,
                deployed,
            );
            &&& plan.len() >= 1
            &&& plan.last() == ReadyStepSpec::Verify
            &&& forall|i: int| 0 <= i < plan.len() - 1 ==> plan[i] != ReadyStepSpec::Verify
        }),
{
    lemma_mise_steps_install_only(tools, installed);
}

proof fn lemma_mise_steps_install_only(
    tools: Seq<(Seq<char>, Seq<char>)>,
    installed: Seq<(Seq<char>, Seq<char>)>,
)
    ensures
        forall|i: int|
            0 <= i < mise_steps(tools, installed).len() ==> #[trigger] mise_steps(
                tools,
                installed,
            )[i] is MiseInstall,
        mise_steps(tools, installed).len() <= tools.len(),
    decreases tools.len(),
{
    if tools.len() > 0 {
        lemma_mise_steps_install_only(tools.drop_last(), installed);
    }
}

proof fn lemma_mise_steps_all_installed(
    tools: Seq<(Seq<char>, Seq<char>)>,
    installed: Seq<(Seq<char>, Seq<char>)>,
)
    requires
        forall|i: int| 0 <= i < tools.len() ==> installed.contains(#[trigger] tools[i]),
    ensures
        mise_steps(tools, installed) == Seq::<ReadyStepSpec>::empty(),
    decreases tools.len(),
{
    if tools.len() > 0 {
        assert(installed.contains(tools[tools.len() - 1]));
        lemma_mise_steps_all_installed(tools.drop_last(), installed);
    }
}

/// A re-run plans only the remainder: once the checkout, every requested
/// tool version, Frogenv, and the skill on every agent are observed, the
/// plan is the verification step alone.
pub proof fn law_satisfied_observation_only_verifies(
    root: Seq<char>,
    tools: Seq<(Seq<char>, Seq<char>)>,
    skill: Option<(Seq<char>, Seq<Seq<char>>)>,
    installed: Seq<(Seq<char>, Seq<char>)>,
    deployed: Seq<(Seq<char>, Seq<char>)>,
)
    requires
        forall|i: int| 0 <= i < tools.len() ==> installed.contains(#[trigger] tools[i]),
        skill matches Some((skill_id, agents)) ==> skill_deployed(deployed, skill_id, agents),
    ensures
        spec_plan_ready(root, tools, skill, true, installed, Some(true), deployed) == seq![
            ReadyStepSpec::Verify,
        ],
{
    lemma_mise_steps_all_installed(tools, installed);
    assert(spec_plan_ready(root, tools, skill, true, installed, Some(true), deployed) =~= seq![
        ReadyStepSpec::Verify,
    ]);
}


/// Whether an observation already satisfies a step: the checkout exists,
/// the tool version is installed, Frogenv is configured, the skill is on
/// every agent. Verification is never satisfied in advance.
pub open spec fn step_satisfied(
    step: ReadyStepSpec,
    checkout_observed: bool,
    installed: Seq<(Seq<char>, Seq<char>)>,
    frogenv_configured: Option<bool>,
    deployed: Seq<(Seq<char>, Seq<char>)>,
) -> bool {
    match step {
        ReadyStepSpec::Clone(_) => checkout_observed,
        ReadyStepSpec::MiseInstall(tool, version) => installed.contains((tool, version)),
        ReadyStepSpec::FrogenvSetup => frogenv_configured == Some(true),
        ReadyStepSpec::SkillsDeploy(skill_id, agents) => skill_deployed(deployed, skill_id, agents),
        ReadyStepSpec::Verify => false,
    }
}

/// The steps an observation leaves to do.
pub open spec fn still_needed(
    checkout_observed: bool,
    installed: Seq<(Seq<char>, Seq<char>)>,
    frogenv_configured: Option<bool>,
    deployed: Seq<(Seq<char>, Seq<char>)>,
) -> spec_fn(ReadyStepSpec) -> bool {
    |step: ReadyStepSpec|
        !step_satisfied(step, checkout_observed, installed, frogenv_configured, deployed)
}

proof fn lemma_mise_rerun(
    tools: Seq<(Seq<char>, Seq<char>)>,
    earlier: Seq<(Seq<char>, Seq<char>)>,
    later: Seq<(Seq<char>, Seq<char>)>,
    needed: spec_fn(ReadyStepSpec) -> bool,
)
    requires
        forall|t: (Seq<char>, Seq<char>)| earlier.contains(t) ==> later.contains(t),
        forall|tool: Seq<char>, version: Seq<char>|
            #[trigger] needed(ReadyStepSpec::MiseInstall(tool, version)) == !later.contains(
                (tool, version),
            ),
    ensures
        mise_steps(tools, later) == mise_steps(tools, earlier).filter(needed),
    decreases tools.len(),
{
    reveal(Seq::filter);
    if tools.len() == 0 {
        assert(mise_steps(tools, earlier).filter(needed) =~= Seq::<ReadyStepSpec>::empty());
    } else {
        let prefix = tools.drop_last();
        lemma_mise_rerun(prefix, earlier, later, needed);
        let t = tools.last();
        let rest = mise_steps(prefix, earlier);
        let step = ReadyStepSpec::MiseInstall(t.0, t.1);
        assert(needed(step) == !later.contains(t));
        if !earlier.contains(t) {
            rest.lemma_filter_push(step, needed);
        }
    }
}

proof fn lemma_single_filter(step: ReadyStepSpec, needed: spec_fn(ReadyStepSpec) -> bool)
    ensures
        seq![step].filter(needed) == if needed(step) {
            seq![step]
        } else {
            Seq::<ReadyStepSpec>::empty()
        },
{
    Seq::<ReadyStepSpec>::empty().lemma_filter_push(step, needed);
    reveal(Seq::filter);
    assert(Seq::<ReadyStepSpec>::empty().push(step) =~= seq![step]);
    assert(Seq::<ReadyStepSpec>::empty().filter(needed) =~= Seq::<ReadyStepSpec>::empty());
}

/// A re-run plans the earlier plan minus what is now done: when a later
/// observation knows at least what an earlier one did (the checkout, the
/// installed tool versions, Frogenv, the deployed skills), its plan is
/// exactly the earlier plan's steps that the later observation leaves to
/// do, in the same order.
pub proof fn law_rerun_plans_the_unsatisfied_remainder(
    root: Seq<char>,
    tools: Seq<(Seq<char>, Seq<char>)>,
    skill: Option<(Seq<char>, Seq<Seq<char>>)>,
    checkout_before: bool,
    installed_before: Seq<(Seq<char>, Seq<char>)>,
    frogenv_before: Option<bool>,
    deployed_before: Seq<(Seq<char>, Seq<char>)>,
    checkout_after: bool,
    installed_after: Seq<(Seq<char>, Seq<char>)>,
    frogenv_after: Option<bool>,
    deployed_after: Seq<(Seq<char>, Seq<char>)>,
)
    requires
        checkout_before ==> checkout_after,
        forall|t: (Seq<char>, Seq<char>)| installed_before.contains(t) ==> installed_after.contains(t),
        frogenv_before == Some(true) ==> frogenv_after == Some(true),
        forall|p: (Seq<char>, Seq<char>)| deployed_before.contains(p) ==> deployed_after.contains(p),
    ensures
        spec_plan_ready(
            root,
            tools,
            skill,
            checkout_after,
            installed_after,
            frogenv_after,
            deployed_after,
        ) == spec_plan_ready(
            root,
            tools,
            skill,
            checkout_before,
            installed_before,
            frogenv_before,
            deployed_before,
        ).filter(still_needed(checkout_after, installed_after, frogenv_after, deployed_after)),
{
    let needed = still_needed(checkout_after, installed_after, frogenv_after, deployed_after);
    let clone: Seq<ReadyStepSpec> = if checkout_before {
        Seq::empty()
    } else {
        seq![ReadyStepSpec::Clone(root)]
    };
    let mise = mise_steps(tools, installed_before);
    let frogenv: Seq<ReadyStepSpec> = if frogenv_before == Some(true) {
        Seq::empty()
    } else {
        seq![ReadyStepSpec::FrogenvSetup]
    };
    let deploy: Seq<ReadyStepSpec> = match skill {
        Some((skill_id, agents)) => if skill_deployed(deployed_before, skill_id, agents) {
            Seq::empty()
        } else {
            seq![ReadyStepSpec::SkillsDeploy(skill_id, agents)]
        },
        None => Seq::empty(),
    };
    let verify = seq![ReadyStepSpec::Verify];
    reveal(Seq::filter);
    assert(Seq::<ReadyStepSpec>::empty().filter(needed) =~= Seq::<ReadyStepSpec>::empty());
    // Each part filters to the part the later observation plans.
    lemma_single_filter(ReadyStepSpec::Clone(root), needed);
    lemma_single_filter(ReadyStepSpec::FrogenvSetup, needed);
    lemma_single_filter(ReadyStepSpec::Verify, needed);
    lemma_mise_rerun(tools, installed_before, installed_after, needed);
    match skill {
        Some((skill_id, agents)) => {
            lemma_single_filter(ReadyStepSpec::SkillsDeploy(skill_id, agents), needed);
            if skill_deployed(deployed_before, skill_id, agents) {
                assert forall|i: int| 0 <= i < agents.len() implies deployed_after.contains(
                    (skill_id, #[trigger] agents[i]),
                ) by {
                    assert(deployed_before.contains((skill_id, agents[i])));
                }
            }
        },
        None => {},
    }
    // Filtering distributes over the concatenation of the parts.
    Seq::filter_distributes_over_add(clone + mise + frogenv + deploy, verify, needed);
    Seq::filter_distributes_over_add(clone + mise + frogenv, deploy, needed);
    Seq::filter_distributes_over_add(clone + mise, frogenv, needed);
    Seq::filter_distributes_over_add(clone, mise, needed);
}

} // verus!
