//! The apply gate: which planned steps need an approval, which approvals
//! authorize them, what each completed step records as its compensation, and
//! when a re-observed machine counts as converged.
//!
//! An approval is bound to one plan, one action order and one kind: a token
//! from one plan cannot authorize another. A step whose permission is risky
//! in the authorization catalog needs an approval, and which steps those
//! are is read from the catalog itself, so the two cannot drift.

use vstd::prelude::*;

use crate::authz::Permission;
use crate::difference::{
    canonical, fields_view, DifferenceSet, DifferenceSpec, DifferenceState, FieldDifference,
};
use crate::planner::{PlannedAction, PlannedSpec};
use crate::text::{has_prefix, join, split_first, text_eq, to_owned_string};

verus! {

/// An approval, bound to the plan it names and to one action of it.
#[derive(Clone, Debug, PartialEq, Eq)]
pub struct Approval {
    /// The plan's identity the approval is bound to.
    pub plan_id: String,
    /// The action's order the approval covers.
    pub action_order: u32,
    /// The action's operation kind the approval covers.
    pub kind: String,
}

/// The mathematical value of an approval.
pub struct ApprovalSpec {
    /// The plan's identity.
    pub plan_id: Seq<char>,
    /// The action's order.
    pub action_order: u32,
    /// The action's kind.
    pub kind: Seq<char>,
}

impl View for Approval {
    type V = ApprovalSpec;

    open spec fn view(&self) -> ApprovalSpec {
        ApprovalSpec { plan_id: self.plan_id@, action_order: self.action_order, kind: self.kind@ }
    }
}

/// The permission each apply-plan kind maps to.
pub open spec fn spec_kind_permission(kind: Seq<char>) -> Option<Permission> {
    if kind == "mise.install"@ {
        Some(Permission::MiseOperate)
    } else if kind == "skills.deploy"@ || kind == "skills.undeploy"@ || kind
        == "skills.catalog-rollout"@ || kind == "presets.deploy"@ || kind == "presets.undeploy"@ {
        Some(Permission::SkillsDeploy)
    } else if kind == "skills.install"@ || kind == "skills.update"@ || kind == "skills.check"@
        || kind == "skills.remove"@ || kind == "skills.adopt"@ || kind == "skills.set-source"@
        || kind == "presets.create"@ || kind == "presets.update"@ || kind == "presets.delete"@
        || kind == "presets.add-skill"@ || kind == "presets.remove-skill"@ {
        Some(Permission::SkillsModify)
    } else if kind == "projects.clone"@ {
        Some(Permission::ProjectsGitWrite)
    } else {
        None
    }
}

/// The authorization permission each apply-plan kind maps to: the single
/// source the approval gate reads.
fn fleet_application_kind_permission(kind: &str) -> (permission: Option<Permission>)
    ensures
        permission == spec_kind_permission(kind@),
{
    if text_eq(kind, "mise.install") {
        Some(Permission::MiseOperate)
    } else if text_eq(kind, "skills.deploy") || text_eq(kind, "skills.undeploy") || text_eq(
        kind,
        "skills.catalog-rollout",
    ) || text_eq(kind, "presets.deploy") || text_eq(kind, "presets.undeploy") {
        Some(Permission::SkillsDeploy)
    } else if text_eq(kind, "skills.install") || text_eq(kind, "skills.update") || text_eq(
        kind,
        "skills.check",
    ) || text_eq(kind, "skills.remove") || text_eq(kind, "skills.adopt") || text_eq(
        kind,
        "skills.set-source",
    ) || text_eq(kind, "presets.create") || text_eq(kind, "presets.update") || text_eq(
        kind,
        "presets.delete",
    ) || text_eq(kind, "presets.add-skill") || text_eq(kind, "presets.remove-skill") {
        Some(Permission::SkillsModify)
    } else if text_eq(kind, "projects.clone") {
        Some(Permission::ProjectsGitWrite)
    } else {
        None
    }
}

/// Whether a kind needs an approval: its permission is risky in the catalog.
pub open spec fn spec_requires_approval(kind: Seq<char>) -> bool {
    match spec_kind_permission(kind) {
        Some(permission) => permission.spec_is_risky(),
        None => false,
    }
}

/// Whether a step of this kind needs an approval: exactly when the kind maps
/// to a permission that the authorization catalog flags as risky.
pub fn requires_approval(kind: &str) -> (required: bool)
    ensures
        required == spec_requires_approval(kind@),
{
    match fleet_application_kind_permission(kind) {
        Some(permission) => permission.is_risky(),
        None => false,
    }
}

/// The compensation an executed step records.
#[derive(Clone, Debug, PartialEq, Eq)]
pub enum Compensation {
    /// The step is idempotent: re-running it is its own compensation.
    Idempotent,
    /// The step deployed a skill; the compensation is an undeploy.
    Undeploy {
        /// The skill that was deployed.
        skill_id: String,
        /// The agent it was deployed to.
        agent: String,
    },
    /// The step has no safe compensation: the record says so honestly.
    NoCompensation,
}

/// The mathematical value of a compensation.
pub enum CompensationSpec {
    /// Idempotent.
    Idempotent,
    /// An undeploy of a skill from an agent.
    Undeploy(Seq<char>, Seq<char>),
    /// No compensation.
    NoCompensation,
}

impl View for Compensation {
    type V = CompensationSpec;

    open spec fn view(&self) -> CompensationSpec {
        match self {
            Compensation::Idempotent => CompensationSpec::Idempotent,
            Compensation::Undeploy { skill_id, agent } => CompensationSpec::Undeploy(
                skill_id@,
                agent@,
            ),
            Compensation::NoCompensation => CompensationSpec::NoCompensation,
        }
    }
}

/// The compensation of a step: installs and clones are idempotent; a skill
/// deployment is undone by undeploying the skill from the agent that its
/// identity (`skill:<skill>/<agent>`) names; anything else has none.
pub open spec fn spec_compensation(kind: Seq<char>, identity: Seq<char>) -> CompensationSpec {
    if kind == "mise.install"@ || kind == "projects.clone"@ {
        CompensationSpec::Idempotent
    } else if kind == "skills.deploy"@ {
        let rest = if has_prefix(identity, "skill:"@) {
            identity.skip(6)
        } else {
            identity
        };
        match split_first(rest, '/') {
            Some((skill_id, agent)) => CompensationSpec::Undeploy(skill_id, agent),
            None => CompensationSpec::NoCompensation,
        }
    } else {
        CompensationSpec::NoCompensation
    }
}

impl Compensation {
    /// The compensation for one completed step's kind and difference (see
    /// [`spec_compensation`]).
    pub fn for_step(kind: &str, difference: &FieldDifference) -> (compensation: Self)
        ensures
            compensation@ == spec_compensation(kind@, difference.identity@),
    {
        if text_eq(kind, "mise.install") || text_eq(kind, "projects.clone") {
            Compensation::Idempotent
        } else if text_eq(kind, "skills.deploy") {
            let identity = difference.identity.as_str();
            let rest = match crate::text::strip_prefix(identity, "skill:") {
                Some(rest) => rest,
                None => identity,
            };
            proof {
                reveal_strlit("skill:");
            }
            match crate::text::split_once(rest, '/') {
                Some((skill_id, agent)) => Compensation::Undeploy {
                    skill_id: to_owned_string(skill_id),
                    agent: to_owned_string(agent),
                },
                None => Compensation::NoCompensation,
            }
        } else {
            Compensation::NoCompensation
        }
    }
}

/// Whether an approval authorizes an action of a plan: it names the plan,
/// the action's order and the action's kind.
pub open spec fn authorizes(approval: ApprovalSpec, plan_id: Seq<char>, action: PlannedSpec) -> bool {
    approval.plan_id == plan_id && approval.action_order == action.order && approval.kind
        == action.kind
}

/// Whether some approval of the list authorizes the action.
pub open spec fn approved(plan_id: Seq<char>, action: PlannedSpec, approvals: Seq<ApprovalSpec>) -> bool {
    exists|i: int| 0 <= i < approvals.len() && authorizes(#[trigger] approvals[i], plan_id, action)
}

/// The actions, in order, that need an approval and carry none bound to
/// this plan, their order and their kind.
pub open spec fn spec_unapproved(
    plan_id: Seq<char>,
    actions: Seq<PlannedSpec>,
    approvals: Seq<ApprovalSpec>,
) -> Seq<PlannedSpec>
    decreases actions.len(),
{
    if actions.len() == 0 {
        Seq::empty()
    } else {
        let rest = spec_unapproved(plan_id, actions.drop_last(), approvals);
        let last = actions.last();
        if spec_requires_approval(last.kind) && !approved(plan_id, last, approvals) {
            rest.push(last)
        } else {
            rest
        }
    }
}

/// The approvals as values.
pub open spec fn approvals_view(v: Seq<Approval>) -> Seq<ApprovalSpec> {
    v.map_values(|a: Approval| a@)
}

fn is_approved(plan_id: &str, action: &PlannedAction, approvals: &[Approval]) -> (found: bool)
    ensures
        found == approved(plan_id@, action@, approvals_view(approvals@)),
{
    let ghost all = approvals_view(approvals@);
    let mut i: usize = 0;
    while i < approvals.len()
        invariant
            all == approvals_view(approvals@),
            i <= approvals@.len(),
            forall|j: int| 0 <= j < i ==> !authorizes(#[trigger] all[j], plan_id@, action@),
        decreases approvals@.len() - i,
    {
        let approval = &approvals[i];
        proof {
            assert(all[i as int] == approval@);
        }
        if text_eq(approval.plan_id.as_str(), plan_id) && approval.action_order == action.order
            && text_eq(approval.kind.as_str(), action.kind.as_str()) {
            return true;
        }
        i = i + 1;
    }
    false
}

fn copy_action(action: &PlannedAction) -> (copy: PlannedAction)
    ensures
        copy@ == action@,
{
    PlannedAction {
        order: action.order,
        kind: action.kind.clone(),
        difference: action.difference.copy(),
        reason: action.reason.clone(),
    }
}

/// The actions of a plan that may not execute yet: every action whose kind
/// needs an approval and that no approval bound to this plan, its order and
/// its kind covers, in plan order. An empty result means the plan may
/// execute.
pub fn unapproved_actions(plan_id: &str, actions: &[PlannedAction], approvals: &[Approval]) -> (unapproved:
    Vec<PlannedAction>)
    ensures
        crate::planner::actions_view(unapproved@) == spec_unapproved(
            plan_id@,
            crate::planner::actions_view(actions@),
            approvals_view(approvals@),
        ),
{
    let ghost all = crate::planner::actions_view(actions@);
    let ghost grants = approvals_view(approvals@);
    let mut out: Vec<PlannedAction> = Vec::new();
    let mut i: usize = 0;
    proof {
        assert(all.subrange(0, 0) =~= Seq::<PlannedSpec>::empty());
        assert(crate::planner::actions_view(out@) =~= Seq::<PlannedSpec>::empty());
    }
    while i < actions.len()
        invariant
            all == crate::planner::actions_view(actions@),
            grants == approvals_view(approvals@),
            i <= actions@.len(),
            crate::planner::actions_view(out@) == spec_unapproved(
                plan_id@,
                all.subrange(0, i as int),
                grants,
            ),
        decreases actions@.len() - i,
    {
        let ghost pre = all.subrange(0, i + 1);
        proof {
            assert(pre.drop_last() =~= all.subrange(0, i as int));
            assert(pre.last() == actions@[i as int]@);
        }
        let action = &actions[i];
        if requires_approval(action.kind.as_str()) && !is_approved(plan_id, action, approvals) {
            let ghost before = crate::planner::actions_view(out@);
            out.push(copy_action(action));
            proof {
                assert(crate::planner::actions_view(out@) =~= before.push(action@));
            }
        }
        i = i + 1;
    }
    proof {
        assert(all.subrange(0, i as int) =~= all);
    }
    out
}

/// Whether a field blocks a claim of convergence: it is actionable, or its
/// state is unknown.
pub open spec fn blocks(field: DifferenceSpec) -> bool {
    field.state == DifferenceState::Unknown || field.state.spec_actionable()
}

/// The blocking fields of a list, in order.
pub open spec fn blockers(s: Seq<DifferenceSpec>) -> Seq<DifferenceSpec>
    decreases s.len(),
{
    if s.len() == 0 {
        Seq::empty()
    } else if blocks(s.last()) {
        blockers(s.drop_last()).push(s.last())
    } else {
        blockers(s.drop_last())
    }
}

/// How a blocking field is reported: its identity and its state.
pub open spec fn blocker_line(field: DifferenceSpec) -> Seq<char> {
    field.identity + " ("@ + field.state.spec_id() + ")"@
}

/// The verdict of post-apply verification on a re-observed difference set:
/// after canonicalization, success when no field blocks, else the blocking
/// fields reported in order, joined by `"; "`.
pub open spec fn spec_verified(fields: Seq<DifferenceSpec>) -> Result<(), Seq<char>> {
    let found = blockers(canonical(fields));
    if found.len() == 0 {
        Ok(())
    } else {
        Err(join(found.map_values(|f: DifferenceSpec| blocker_line(f)), "; "@))
    }
}

proof fn lemma_blockers_empty(s: Seq<DifferenceSpec>)
    ensures
        blockers(s).len() == 0 <==> forall|i: int|
            0 <= i < s.len() ==> (#[trigger] s[i]).state != DifferenceState::Unknown
                && !s[i].state.spec_actionable(),
    decreases s.len(),
{
    if s.len() > 0 {
        let init = s.drop_last();
        lemma_blockers_empty(init);
        if blockers(s).len() == 0 {
            assert forall|i: int| 0 <= i < s.len() implies (#[trigger] s[i]).state
                != DifferenceState::Unknown && !s[i].state.spec_actionable() by {
                if i < init.len() {
                    assert(init[i] == s[i]);
                } else {
                    assert(s[i] == s.last());
                }
            }
        }
        if forall|i: int|
            0 <= i < s.len() ==> (#[trigger] s[i]).state != DifferenceState::Unknown
                && !s[i].state.spec_actionable() {
            assert forall|i: int| 0 <= i < init.len() implies (#[trigger] init[i]).state
                != DifferenceState::Unknown && !init[i].state.spec_actionable() by {
                assert(init[i] == s[i]);
            }
            assert(s[s.len() - 1] == s.last());
        }
    }
}

/// Post-apply verification passes exactly when the re-observed set, once
/// canonical, holds no field whose state is actionable (missing, changed or
/// extra) and none that is unknown: a set of unsupported fields alone
/// verifies, and a field still at the wrong value blocks.
pub proof fn law_verified_only_when_converged(fields: Seq<DifferenceSpec>)
    ensures
        spec_verified(fields) is Ok <==> forall|i: int|
            0 <= i < canonical(fields).len() ==> (#[trigger] canonical(fields)[i]).state
                != DifferenceState::Unknown && !canonical(fields)[i].state.spec_actionable(),
{
    lemma_blockers_empty(canonical(fields));
}

proof fn lemma_blockers_keep(s: Seq<DifferenceSpec>)
    ensures
        forall|i: int|
            0 <= i < s.len() && ((#[trigger] s[i]).state == DifferenceState::Unknown
                || s[i].state.spec_actionable()) ==> blockers(s).contains(s[i]),
    decreases s.len(),
{
    if s.len() > 0 {
        let init = s.drop_last();
        lemma_blockers_keep(init);
        let rest = blockers(init);
        let all = blockers(s);
        assert forall|i: int|
            0 <= i < s.len() && ((#[trigger] s[i]).state == DifferenceState::Unknown
                || s[i].state.spec_actionable()) implies all.contains(s[i]) by {
            if i < init.len() {
                assert(init[i] == s[i]);
                let t = choose|t: int| 0 <= t < rest.len() && rest[t] == s[i];
                assert(all[t] == rest[t]);
            } else {
                assert(s[i] == s.last());
                assert(all[all.len() - 1] == s[i]);
            }
        }
    }
}

/// A failed verification names every field that blocks it: each field of
/// the canonical set that is unknown or actionable appears in the error
/// text as its identity followed by its state in parentheses.
pub proof fn law_failed_verification_names_each_blocker(fields: Seq<DifferenceSpec>, i: int)
    requires
        0 <= i < canonical(fields).len(),
        canonical(fields)[i].state == DifferenceState::Unknown || canonical(
            fields,
        )[i].state.spec_actionable(),
    ensures
        spec_verified(fields) matches Err(text) && crate::text::contains_text(
            text,
            canonical(fields)[i].identity + " ("@ + canonical(fields)[i].state.spec_id() + ")"@,
        ),
{
    let c = canonical(fields);
    lemma_blockers_keep(c);
    let found = blockers(c);
    let t = choose|t: int| 0 <= t < found.len() && found[t] == c[i];
    let lines = found.map_values(|f: DifferenceSpec| blocker_line(f));
    assert(lines[t] == blocker_line(c[i]));
    crate::text::lemma_join_contains(lines, "; "@, t);
}

fn copy_set(set: &DifferenceSet) -> (copy: DifferenceSet)
    ensures
        fields_view(copy.fields@) == fields_view(set.fields@),
{
    let mut out = DifferenceSet::new();
    let mut i: usize = 0;
    while i < set.fields.len()
        invariant
            i <= set.fields@.len(),
            fields_view(out.fields@) == fields_view(set.fields@).subrange(0, i as int),
        decreases set.fields@.len() - i,
    {
        out.push(set.fields[i].copy());
        proof {
            assert(fields_view(set.fields@).subrange(0, i + 1) =~= fields_view(set.fields@).subrange(
                0,
                i as int,
            ).push(set.fields@[i as int]@));
        }
        i = i + 1;
    }
    proof {
        assert(fields_view(set.fields@).subrange(0, i as int) =~= fields_view(set.fields@));
    }
    out
}

/// Verifies post-apply truth: the re-observed set, canonicalized, must hold
/// no actionable and no unknown field. An `unsupported` field is reported
/// elsewhere without blocking; an `unknown` blocks, because the machine's
/// state is not knowable enough to claim convergence (see
/// [`spec_verified`]).
pub fn verified(set: &DifferenceSet) -> (verdict: Result<(), String>)
    ensures
        match verdict {
            Ok(()) => spec_verified(fields_view(set.fields@)) == Ok::<(), Seq<char>>(()),
            Err(text) => spec_verified(fields_view(set.fields@)) == Err::<(), Seq<char>>(text@),
        },
{
    let mut canonical_set = copy_set(set);
    canonical_set.canonicalize();
    let ghost fields = fields_view(canonical_set.fields@);
    let mut lines: Vec<String> = Vec::new();
    let mut i: usize = 0;
    proof {
        assert(fields.subrange(0, 0) =~= Seq::<DifferenceSpec>::empty());
        assert(crate::text::texts(lines@) =~= Seq::<Seq<char>>::empty());
    }
    while i < canonical_set.fields.len()
        invariant
            fields == fields_view(canonical_set.fields@),
            i <= canonical_set.fields@.len(),
            crate::text::texts(lines@) == blockers(fields.subrange(0, i as int)).map_values(
                |f: DifferenceSpec| blocker_line(f),
            ),
        decreases canonical_set.fields@.len() - i,
    {
        let ghost pre = fields.subrange(0, i + 1);
        proof {
            assert(pre.drop_last() =~= fields.subrange(0, i as int));
            assert(pre.last() == canonical_set.fields@[i as int]@);
        }
        let field = &canonical_set.fields[i];
        if field.state == DifferenceState::Unknown || field.actionable() {
            let mut line = field.identity.clone();
            line.append(" (");
            line.append(field.state.id());
            line.append(")");
            let ghost before = crate::text::texts(lines@);
            lines.push(line);
            proof {
                reveal_strlit(" (");
                reveal_strlit(")");
                assert(crate::text::texts(lines@) =~= before.push(blocker_line(pre.last())));
                assert(blockers(pre) == blockers(fields.subrange(0, i as int)).push(pre.last()));
                assert(blockers(pre).map_values(|f: DifferenceSpec| blocker_line(f)) =~= blockers(
                    fields.subrange(0, i as int),
                ).map_values(|f: DifferenceSpec| blocker_line(f)).push(blocker_line(pre.last())));
            }
        } else {
            proof {
                assert(blockers(pre) == blockers(fields.subrange(0, i as int)));
            }
        }
        i = i + 1;
    }
    proof {
        assert(fields.subrange(0, i as int) =~= fields);
    }
    if lines.len() == 0 {
        Ok(())
    } else {
        Err(crate::text::join_texts(&lines, "; "))
    }
}

/// A plan never executes partially approved: nothing is left unapproved
/// exactly when every action whose kind needs an approval carries one bound
/// to this plan, to its order and to its kind; and every action left
/// unapproved is one of the plan's own that needs one and has none.
pub proof fn law_execution_needs_every_approval(
    plan_id: Seq<char>,
    actions: Seq<PlannedSpec>,
    approvals: Seq<ApprovalSpec>,
)
    ensures
        spec_unapproved(plan_id, actions, approvals).len() == 0 <==> (forall|i: int|
            0 <= i < actions.len() && spec_requires_approval(#[trigger] actions[i].kind) ==> approved(
                plan_id,
                actions[i],
                approvals,
            )),
        forall|k: int|
            0 <= k < spec_unapproved(plan_id, actions, approvals).len() ==> {
                let action = #[trigger] spec_unapproved(plan_id, actions, approvals)[k];
                &&& actions.contains(action)
                &&& spec_requires_approval(action.kind)
                &&& !approved(plan_id, action, approvals)
            },
    decreases actions.len(),
{
    if actions.len() > 0 {
        let init = actions.drop_last();
        law_execution_needs_every_approval(plan_id, init, approvals);
        let rest = spec_unapproved(plan_id, init, approvals);
        let all = spec_unapproved(plan_id, actions, approvals);
        assert forall|k: int| 0 <= k < all.len() implies {
            let action = #[trigger] all[k];
            &&& actions.contains(action)
            &&& spec_requires_approval(action.kind)
            &&& !approved(plan_id, action, approvals)
        } by {
            if k < rest.len() {
                assert(all[k] == rest[k]);
                let j = choose|j: int| 0 <= j < init.len() && init[j] == rest[k];
                assert(actions[j] == init[j]);
            } else {
                assert(actions[actions.len() - 1] == actions.last());
            }
        }
        if all.len() == 0 {
            assert forall|i: int|
                0 <= i < actions.len() && spec_requires_approval(
                    #[trigger] actions[i].kind,
                ) implies approved(plan_id, actions[i], approvals) by {
                if i < init.len() {
                    assert(init[i] == actions[i]);
                }
            }
        } else {
            if rest.len() == 0 {
                assert(actions.last() == actions[actions.len() - 1]);
            } else {
                let i = choose|i: int|
                    0 <= i < init.len() && spec_requires_approval(#[trigger] init[i].kind)
                        && !approved(plan_id, init[i], approvals);
                assert(actions[i] == init[i]);
            }
        }
    }
}

} // verus!
