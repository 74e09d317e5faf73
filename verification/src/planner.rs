//! The apply planner: a pure function from field differences to
//! dependency-ordered actions.
//!
//! The plan is a document, not a side effect. Each planned action names the
//! operation kind that resolves its difference, ordered by the dependency
//! matrix: clone before everything project-scoped, install before use,
//! skills after tools. `unknown` and `unsupported` differences are never
//! planned; they are carried so the surfaces can report them.

use vstd::prelude::*;

use crate::difference::{fields_view, DifferenceSet, DifferenceSpec, FieldDifference};
use crate::text::{has_prefix, lex_lt};

verus! {

/// One planned action: the operation kind, the difference it resolves, and
/// why it sits where it does.
#[derive(Clone, Debug, PartialEq, Eq)]
pub struct PlannedAction {
    /// The execution order, starting at 1.
    pub order: u32,
    /// The operation kind that resolves the difference.
    pub kind: String,
    /// The difference this action resolves.
    pub difference: FieldDifference,
    /// Why this action sits at this position in the plan.
    pub reason: String,
}

/// The mathematical value of a planned action.
pub struct PlannedSpec {
    /// The order.
    pub order: u32,
    /// The operation kind.
    pub kind: Seq<char>,
    /// The difference.
    pub difference: DifferenceSpec,
    /// The reason.
    pub reason: Seq<char>,
}

impl View for PlannedAction {
    type V = PlannedSpec;

    open spec fn view(&self) -> PlannedSpec {
        PlannedSpec {
            order: self.order,
            kind: self.kind@,
            difference: self.difference@,
            reason: self.reason@,
        }
    }
}

/// The complete plan for one machine: ordered actions plus the honest
/// states the planner refused to act on.
#[derive(Clone, Debug, Default, PartialEq, Eq)]
pub struct Plan {
    /// The ordered actions.
    pub actions: Vec<PlannedAction>,
    /// The differences the planner refused to act on.
    pub unactionable: Vec<FieldDifference>,
}

impl Plan {
    /// Whether the plan carries any action.
    pub fn is_empty(&self) -> (empty: bool)
        ensures
            empty == (self.actions@.len() == 0),
    {
        self.actions.len() == 0
    }
}

/// The dependency rank of an operation kind; lower runs first.
pub open spec fn spec_rank(kind: Seq<char>) -> u8 {
    if kind == "projects.clone"@ {
        0
    } else if kind == "mise.install"@ {
        1
    } else if kind == "skills.deploy"@ || kind == "frogenv.setup"@ {
        2
    } else if kind == "mise.exec"@ {
        3
    } else {
        4
    }
}

/// The dependency rank of an operation kind: the checkout first, tools
/// before anything uses them, skills and Frogenv after tools, exec after
/// those, everything else last.
fn rank(kind: &str) -> (rank: u8)
    ensures
        rank == spec_rank(kind@),
{
    if crate::text::text_eq(kind, "projects.clone") {
        0
    } else if crate::text::text_eq(kind, "mise.install") {
        1
    } else if crate::text::text_eq(kind, "skills.deploy") || crate::text::text_eq(
        kind,
        "frogenv.setup",
    ) {
        2
    } else if crate::text::text_eq(kind, "mise.exec") {
        3
    } else {
        4
    }
}

/// The operation kind that resolves a difference, derived from its identity.
pub open spec fn spec_resolving_kind(identity: Seq<char>) -> Option<Seq<char>> {
    if has_prefix(identity, "tool:"@) {
        Some("mise.install"@)
    } else if has_prefix(identity, "skill:"@) {
        Some("skills.deploy"@)
    } else if has_prefix(identity, "checkout:"@) {
        Some("projects.clone"@)
    } else {
        None
    }
}

fn resolving_kind(identity: &str) -> (kind: Option<&'static str>)
    ensures
        match kind {
            Some(k) => spec_resolving_kind(identity@) == Some(k@),
            None => spec_resolving_kind(identity@) is None,
        },
{
    if crate::text::starts_with(identity, "tool:") {
        Some("mise.install")
    } else if crate::text::starts_with(identity, "skill:") {
        Some("skills.deploy")
    } else if crate::text::starts_with(identity, "checkout:") {
        Some("projects.clone")
    } else {
        None
    }
}

/// Why an action of a kind sits where it does.
pub open spec fn spec_reason_for(kind: Seq<char>) -> Seq<char> {
    if kind == "projects.clone"@ {
        "the checkout is the root every project-scoped step sits in"@
    } else if kind == "mise.install"@ {
        "tools install before anything uses them"@
    } else if kind == "skills.deploy"@ {
        "skills deploy after the tools they need exist"@
    } else if kind == "frogenv.setup"@ {
        "the environment configures independently of tools"@
    } else {
        "runs after its dependencies"@
    }
}

fn reason_for(kind: &str) -> (reason: &'static str)
    ensures
        reason@ == spec_reason_for(kind@),
{
    if crate::text::text_eq(kind, "projects.clone") {
        "the checkout is the root every project-scoped step sits in"
    } else if crate::text::text_eq(kind, "mise.install") {
        "tools install before anything uses them"
    } else if crate::text::text_eq(kind, "skills.deploy") {
        "skills deploy after the tools they need exist"
    } else if crate::text::text_eq(kind, "frogenv.setup") {
        "the environment configures independently of tools"
    } else {
        "runs after its dependencies"
    }
}

/// The sort rank of a difference: its resolving kind's rank, or the largest
/// rank when nothing resolves it.
pub open spec fn difference_rank(d: DifferenceSpec) -> int {
    match spec_resolving_kind(d.identity) {
        Some(kind) => spec_rank(kind) as int,
        None => 255,
    }
}

/// The plan order: by dependency rank, then by identity (when ranking);
/// by identity alone otherwise.
pub open spec fn key_lt(a: DifferenceSpec, b: DifferenceSpec, by_rank: bool) -> bool {
    if by_rank {
        difference_rank(a) < difference_rank(b) || (difference_rank(a) == difference_rank(b)
            && lex_lt(a.identity, b.identity))
    } else {
        lex_lt(a.identity, b.identity)
    }
}

/// Inserts a difference after every difference that does not sort after it.
pub open spec fn insert_by_key(s: Seq<DifferenceSpec>, x: DifferenceSpec, by_rank: bool) -> Seq<
    DifferenceSpec,
>
    decreases s.len(),
{
    if s.len() == 0 {
        seq![x]
    } else if key_lt(x, s[0], by_rank) {
        seq![x] + s
    } else {
        seq![s[0]] + insert_by_key(s.drop_first(), x, by_rank)
    }
}

/// The stable sort of differences by the plan order.
pub open spec fn sort_by_key(s: Seq<DifferenceSpec>, by_rank: bool) -> Seq<DifferenceSpec>
    decreases s.len(),
{
    if s.len() == 0 {
        Seq::empty()
    } else {
        insert_by_key(sort_by_key(s.drop_last(), by_rank), s.last(), by_rank)
    }
}

/// The differences whose actionability is as wanted, in order.
pub open spec fn select(s: Seq<DifferenceSpec>, actionable: bool) -> Seq<DifferenceSpec>
    decreases s.len(),
{
    if s.len() == 0 {
        Seq::empty()
    } else if s.last().state.spec_actionable() == actionable {
        select(s.drop_last(), actionable).push(s.last())
    } else {
        select(s.drop_last(), actionable)
    }
}

/// The actions for sorted actionable differences: one per difference that
/// has a resolving kind, numbered later.
pub open spec fn resolve(s: Seq<DifferenceSpec>) -> Seq<(Seq<char>, DifferenceSpec)>
    decreases s.len(),
{
    if s.len() == 0 {
        Seq::empty()
    } else {
        let rest = resolve(s.drop_last());
        match spec_resolving_kind(s.last().identity) {
            Some(kind) => rest.push((kind, s.last())),
            None => rest,
        }
    }
}

/// The order number of the action at a position: contiguous from one.
pub open spec fn order_at(position: int) -> u32 {
    if position + 1 <= u32::MAX {
        (position + 1) as u32
    } else {
        u32::MAX
    }
}

/// The plan of a difference set (given as its fields): the actionable
/// differences, stably sorted by dependency rank then identity, each with
/// its resolving kind and reason, numbered contiguously from one; and the
/// unactionable ones sorted by identity.
pub open spec fn spec_plan(fields: Seq<DifferenceSpec>) -> (Seq<PlannedSpec>, Seq<DifferenceSpec>) {
    let resolved = resolve(sort_by_key(select(fields, true), true));
    (
        Seq::new(
            resolved.len(),
            |i: int|
                PlannedSpec {
                    order: order_at(i),
                    kind: resolved[i].0,
                    difference: resolved[i].1,
                    reason: spec_reason_for(resolved[i].0),
                },
        ),
        sort_by_key(select(fields, false), false),
    )
}

fn key_less(a: &FieldDifference, b: &FieldDifference, by_rank: bool) -> (less: bool)
    ensures
        less == key_lt(a@, b@, by_rank),
{
    let by_identity = crate::text::compare(a.identity.as_str(), b.identity.as_str())
        == crate::text::TextOrder::Less;
    proof {
        crate::text::lemma_lex_irreflexive(a.identity@);
    }
    if by_rank {
        let ra: u16 = match resolving_kind(a.identity.as_str()) {
            Some(kind) => rank(kind) as u16,
            None => 255,
        };
        let rb: u16 = match resolving_kind(b.identity.as_str()) {
            Some(kind) => rank(kind) as u16,
            None => 255,
        };
        ra < rb || (ra == rb && by_identity)
    } else {
        by_identity
    }
}

proof fn lemma_insert_by_key_at(s: Seq<DifferenceSpec>, x: DifferenceSpec, by_rank: bool, p: int)
    requires
        0 <= p <= s.len(),
        forall|j: int| 0 <= j < p ==> !key_lt(x, #[trigger] s[j], by_rank),
        p < s.len() ==> key_lt(x, s[p], by_rank),
    ensures
        insert_by_key(s, x, by_rank) == s.insert(p, x),
    decreases p,
{
    if p == 0 {
        if s.len() == 0 {
            assert(s.insert(0, x) =~= seq![x]);
        } else {
            assert(s.insert(0, x) =~= seq![x] + s);
        }
    } else {
        lemma_insert_by_key_at(s.drop_first(), x, by_rank, p - 1);
        assert(s.insert(p, x) =~= seq![s[0]] + s.drop_first().insert(p - 1, x));
    }
}

fn insert_sorted(sorted: &mut Vec<FieldDifference>, x: FieldDifference, by_rank: bool)
    ensures
        fields_view(final(sorted)@) == insert_by_key(
            fields_view(old(sorted)@),
            x@,
            by_rank,
        ),
{
    let ghost before = fields_view(sorted@);
    let len = sorted.len();
    let mut p: usize = 0;
    while p < len && !key_less(&x, &sorted[p], by_rank)
        invariant
            len == sorted@.len(),
            before == fields_view(sorted@),
            before == fields_view(old(sorted)@),
            p <= len,
            forall|j: int| 0 <= j < p ==> !key_lt(x@, #[trigger] before[j], by_rank),
        decreases len - p,
    {
        p = p + 1;
    }
    let ghost xv = x@;
    proof {
        lemma_insert_by_key_at(before, xv, by_rank, p as int);
    }
    sorted.insert(p, x);
    proof {
        assert(fields_view(sorted@) =~= before.insert(p as int, xv));
    }
}

/// Selects the differences whose actionability is as wanted, then sorts
/// them stably by the plan order.
fn select_sorted(fields: &[FieldDifference], actionable: bool, by_rank: bool) -> (sorted: Vec<
    FieldDifference,
>)
    ensures
        fields_view(sorted@) == sort_by_key(
            select(fields_view(fields@), actionable),
            by_rank,
        ),
{
    let ghost all = fields_view(fields@);
    let mut sorted: Vec<FieldDifference> = Vec::new();
    let mut i: usize = 0;
    proof {
        assert(all.subrange(0, 0) =~= Seq::<DifferenceSpec>::empty());
        assert(fields_view(sorted@) =~= Seq::<DifferenceSpec>::empty());
    }
    while i < fields.len()
        invariant
            all == fields_view(fields@),
            i <= fields@.len(),
            fields_view(sorted@) == sort_by_key(
                select(all.subrange(0, i as int), actionable),
                by_rank,
            ),
        decreases fields@.len() - i,
    {
        let ghost pre = all.subrange(0, i + 1);
        proof {
            assert(pre.drop_last() =~= all.subrange(0, i as int));
            assert(pre.last() == fields@[i as int]@);
        }
        if fields[i].actionable() == actionable {
            insert_sorted(&mut sorted, fields[i].copy(), by_rank);
            proof {
                let sel = select(pre, actionable);
                assert(sel == select(all.subrange(0, i as int), actionable).push(pre.last()));
                assert(sel.drop_last() =~= select(all.subrange(0, i as int), actionable));
            }
        }
        i = i + 1;
    }
    proof {
        assert(all.subrange(0, i as int) =~= all);
    }
    sorted
}

/// The actions as values.
pub open spec fn actions_view(v: Seq<PlannedAction>) -> Seq<PlannedSpec> {
    v.map_values(|a: PlannedAction| a@)
}

/// Plans the actions that resolve the actionable differences, in dependency
/// order (see [`spec_plan`]). `unknown` and `unsupported` differences are
/// carried in the plan's `unactionable` list: reported, never acted on.
pub fn plan(set: &DifferenceSet) -> (plan: Plan)
    ensures
        actions_view(plan.actions@) == spec_plan(fields_view(set.fields@)).0,
        fields_view(plan.unactionable@) == spec_plan(fields_view(set.fields@)).1,
{
    let fields = set.fields.as_slice();
    let actionable = select_sorted(fields, true, true);
    let ghost sorted_view = fields_view(actionable@);
    let ghost resolved = resolve(sorted_view);
    let mut actions: Vec<PlannedAction> = Vec::new();
    let mut i: usize = 0;
    proof {
        assert(sorted_view.subrange(0, 0) =~= Seq::<DifferenceSpec>::empty());
    }
    while i < actionable.len()
        invariant
            sorted_view == fields_view(actionable@),
            i <= actionable@.len(),
            actions@.len() == resolve(sorted_view.subrange(0, i as int)).len(),
            forall|k: int|
                0 <= k < actions@.len() ==> (#[trigger] actions@[k])@ == (PlannedSpec {
                    order: order_at(k),
                    kind: resolve(sorted_view.subrange(0, i as int))[k].0,
                    difference: resolve(sorted_view.subrange(0, i as int))[k].1,
                    reason: spec_reason_for(resolve(sorted_view.subrange(0, i as int))[k].0),
                }),
        decreases actionable@.len() - i,
    {
        let ghost pre = sorted_view.subrange(0, i + 1);
        let ghost prev = resolve(sorted_view.subrange(0, i as int));
        proof {
            assert(pre.drop_last() =~= sorted_view.subrange(0, i as int));
            assert(pre.last() == actionable@[i as int]@);
        }
        let difference = &actionable[i];
        if let Some(kind) = resolving_kind(difference.identity.as_str()) {
            let position = actions.len();
            let order: u32 = if position < 4294967295 {
                (position + 1) as u32
            } else {
                4294967295
            };
            actions.push(
                PlannedAction {
                    order,
                    kind: crate::text::to_owned_string(kind),
                    difference: difference.copy(),
                    reason: crate::text::to_owned_string(reason_for(kind)),
                },
            );
            proof {
                let now = resolve(pre);
                assert(now == prev.push((kind@, difference@)));
                assert forall|k: int| 0 <= k < actions@.len() implies (#[trigger] actions@[k])@
                    == (PlannedSpec {
                    order: order_at(k),
                    kind: now[k].0,
                    difference: now[k].1,
                    reason: spec_reason_for(now[k].0),
                }) by {
                    if k < prev.len() {
                        assert(now[k] == prev[k]);
                    }
                }
            }
        } else {
            proof {
                assert(resolve(pre) == prev);
            }
        }
        i = i + 1;
    }
    proof {
        assert(sorted_view.subrange(0, i as int) =~= sorted_view);
        assert(actions_view(actions@) =~= spec_plan(fields_view(fields@)).0);
    }
    let unactionable = select_sorted(fields, false, false);
    Plan { actions, unactionable }
}

proof fn lemma_select_members(s: Seq<DifferenceSpec>, actionable: bool)
    ensures
        forall|i: int|
            0 <= i < select(s, actionable).len() ==> (#[trigger] select(s, actionable)[i]).state.spec_actionable()
                == actionable,
    decreases s.len(),
{
    if s.len() > 0 {
        lemma_select_members(s.drop_last(), actionable);
    }
}

proof fn lemma_insert_by_key_members(s: Seq<DifferenceSpec>, x: DifferenceSpec, by_rank: bool)
    ensures
        insert_by_key(s, x, by_rank).len() == s.len() + 1,
        forall|i: int|
            0 <= i < insert_by_key(s, x, by_rank).len() ==> #[trigger] insert_by_key(
                s,
                x,
                by_rank,
            )[i] == x || s.contains(insert_by_key(s, x, by_rank)[i]),
    decreases s.len(),
{
    if s.len() > 0 && !key_lt(x, s[0], by_rank) {
        lemma_insert_by_key_members(s.drop_first(), x, by_rank);
        let ins = insert_by_key(s, x, by_rank);
        let rest = insert_by_key(s.drop_first(), x, by_rank);
        assert forall|i: int| 0 <= i < ins.len() implies #[trigger] ins[i] == x || s.contains(
            ins[i],
        ) by {
            if i == 0 {
                assert(s[0] == ins[0]);
            } else {
                assert(ins[i] == rest[i - 1]);
                if rest[i - 1] != x {
                    let k = choose|k: int|
                        0 <= k < s.drop_first().len() && s.drop_first()[k] == rest[i - 1];
                    assert(s[k + 1] == ins[i]);
                }
            }
        }
    } else if s.len() > 0 {
        let ins = insert_by_key(s, x, by_rank);
        assert forall|i: int| 0 <= i < ins.len() implies #[trigger] ins[i] == x || s.contains(
            ins[i],
        ) by {
            if i > 0 {
                assert(s[i - 1] == ins[i]);
            }
        }
    }
}

proof fn lemma_sort_members(s: Seq<DifferenceSpec>, by_rank: bool, want: bool)
    requires
        forall|i: int| 0 <= i < s.len() ==> (#[trigger] s[i]).state.spec_actionable() == want,
    ensures
        forall|i: int|
            0 <= i < sort_by_key(s, by_rank).len() ==> (#[trigger] sort_by_key(s, by_rank)[i]).state.spec_actionable()
                == want,
        sort_by_key(s, by_rank).len() == s.len(),
    decreases s.len(),
{
    if s.len() > 0 {
        let init = s.drop_last();
        assert forall|i: int| 0 <= i < init.len() implies (#[trigger] init[i]).state.spec_actionable()
            == want by {
            assert(init[i] == s[i]);
        }
        lemma_sort_members(init, by_rank, want);
        let sorted = sort_by_key(init, by_rank);
        lemma_insert_by_key_members(sorted, s.last(), by_rank);
        let ins = insert_by_key(sorted, s.last(), by_rank);
        assert forall|i: int| 0 <= i < ins.len() implies (#[trigger] ins[i]).state.spec_actionable()
            == want by {
            if ins[i] != s.last() {
                let k = choose|k: int| 0 <= k < sorted.len() && sorted[k] == ins[i];
                assert(sorted[k].state.spec_actionable() == want);
            } else {
                assert(s[s.len() - 1].state.spec_actionable() == want);
            }
        }
    }
}

proof fn lemma_resolve_members(s: Seq<DifferenceSpec>)
    requires
        forall|i: int| 0 <= i < s.len() ==> (#[trigger] s[i]).state.spec_actionable(),
    ensures
        forall|i: int|
            0 <= i < resolve(s).len() ==> (#[trigger] resolve(s)[i]).1.state.spec_actionable()
                && spec_resolving_kind(resolve(s)[i].1.identity) == Some(resolve(s)[i].0),
        resolve(s).len() <= s.len(),
    decreases s.len(),
{
    if s.len() > 0 {
        let init = s.drop_last();
        assert forall|i: int| 0 <= i < init.len() implies (#[trigger] init[i]).state.spec_actionable() by {
            assert(init[i] == s[i]);
        }
        lemma_resolve_members(init);
        assert(s[s.len() - 1].state.spec_actionable());
    }
}

/// The planner refuses to act on what it does not know: every planned
/// action resolves an actionable difference with the kind its identity
/// calls for, the actions are numbered contiguously from one, and every
/// carried unactionable difference is `unknown` or `unsupported`.
pub proof fn law_plan_acts_only_on_actionable(fields: Seq<DifferenceSpec>)
    ensures
        ({
            let (actions, unactionable) = spec_plan(fields);
            &&& forall|i: int|
                0 <= i < actions.len() ==> (#[trigger] actions[i]).difference.state.spec_actionable()
                    && spec_resolving_kind(actions[i].difference.identity) == Some(actions[i].kind)
            &&& forall|i: int|
                0 <= i < actions.len() && i + 1 <= u32::MAX ==> (#[trigger] actions[i]).order == i
                    + 1
            &&& forall|i: int|
                0 <= i < unactionable.len() ==> !(#[trigger] unactionable[i]).state.spec_actionable()
        }),
{
    lemma_select_members(fields, true);
    lemma_select_members(fields, false);
    let chosen = select(fields, true);
    assert forall|i: int| 0 <= i < chosen.len() implies (#[trigger] chosen[i]).state.spec_actionable()
        == true by {}
    lemma_sort_members(chosen, true, true);
    let sorted = sort_by_key(chosen, true);
    assert forall|i: int| 0 <= i < sorted.len() implies (#[trigger] sorted[i]).state.spec_actionable() by {}
    lemma_resolve_members(sorted);
    let refused = select(fields, false);
    assert forall|i: int| 0 <= i < refused.len() implies (#[trigger] refused[i]).state.spec_actionable()
        == false by {}
    lemma_sort_members(refused, false, false);
}

proof fn lemma_select_keeps(s: Seq<DifferenceSpec>, actionable: bool)
    ensures
        forall|i: int|
            0 <= i < s.len() && (#[trigger] s[i]).state.spec_actionable() == actionable ==> select(
                s,
                actionable,
            ).contains(s[i]),
    decreases s.len(),
{
    if s.len() > 0 {
        let init = s.drop_last();
        lemma_select_keeps(init, actionable);
        let rest = select(init, actionable);
        let all = select(s, actionable);
        assert forall|i: int|
            0 <= i < s.len() && (#[trigger] s[i]).state.spec_actionable() == actionable implies all.contains(
            s[i],
        ) by {
            if i < init.len() {
                assert(init[i] == s[i]);
                let t = choose|t: int| 0 <= t < rest.len() && rest[t] == s[i];
                assert(all[t] == rest[t]);
            } else {
                assert(s[i] == s.last());
                assert(all[all.len() - 1] == s[i]);
            }
        }
    }
}

proof fn lemma_insert_by_key_keeps(s: Seq<DifferenceSpec>, x: DifferenceSpec, by_rank: bool)
    ensures
        insert_by_key(s, x, by_rank).contains(x),
        forall|i: int| 0 <= i < s.len() ==> insert_by_key(s, x, by_rank).contains(#[trigger] s[i]),
    decreases s.len(),
{
    let ins = insert_by_key(s, x, by_rank);
    if s.len() == 0 {
        assert(ins[0] == x);
    } else if key_lt(x, s[0], by_rank) {
        assert(ins[0] == x);
        assert forall|i: int| 0 <= i < s.len() implies ins.contains(#[trigger] s[i]) by {
            assert(ins[i + 1] == s[i]);
        }
    } else {
        let tail = s.drop_first();
        lemma_insert_by_key_keeps(tail, x, by_rank);
        let rest = insert_by_key(tail, x, by_rank);
        assert(ins == seq![s[0]] + rest);
        let t = choose|t: int| 0 <= t < rest.len() && rest[t] == x;
        assert(ins[t + 1] == x);
        assert forall|i: int| 0 <= i < s.len() implies ins.contains(#[trigger] s[i]) by {
            if i == 0 {
                assert(ins[0] == s[0]);
            } else {
                assert(tail[i - 1] == s[i]);
                let u = choose|u: int| 0 <= u < rest.len() && rest[u] == tail[i - 1];
                assert(ins[u + 1] == s[i]);
            }
        }
    }
}

proof fn lemma_sort_keeps(s: Seq<DifferenceSpec>, by_rank: bool)
    ensures
        forall|i: int| 0 <= i < s.len() ==> sort_by_key(s, by_rank).contains(#[trigger] s[i]),
    decreases s.len(),
{
    if s.len() > 0 {
        let init = s.drop_last();
        lemma_sort_keeps(init, by_rank);
        let sorted = sort_by_key(init, by_rank);
        lemma_insert_by_key_keeps(sorted, s.last(), by_rank);
        let all = sort_by_key(s, by_rank);
        assert forall|i: int| 0 <= i < s.len() implies all.contains(#[trigger] s[i]) by {
            if i < init.len() {
                assert(init[i] == s[i]);
                let t = choose|t: int| 0 <= t < sorted.len() && sorted[t] == s[i];
                assert(sorted.contains(sorted[t]));
            } else {
                assert(s[i] == s.last());
            }
        }
    }
}

proof fn lemma_resolve_keeps(s: Seq<DifferenceSpec>)
    ensures
        forall|i: int|
            0 <= i < s.len() && spec_resolving_kind((#[trigger] s[i]).identity) is Some ==> resolve(
                s,
            ).contains((spec_resolving_kind(s[i].identity)->0, s[i])),
    decreases s.len(),
{
    if s.len() > 0 {
        let init = s.drop_last();
        lemma_resolve_keeps(init);
        let rest = resolve(init);
        let all = resolve(s);
        assert forall|i: int|
            0 <= i < s.len() && spec_resolving_kind((#[trigger] s[i]).identity) is Some implies all.contains(
            (spec_resolving_kind(s[i].identity)->0, s[i]),
        ) by {
            if i < init.len() {
                assert(init[i] == s[i]);
                let t = choose|t: int|
                    0 <= t < rest.len() && rest[t] == (spec_resolving_kind(s[i].identity)->0, s[i]);
                assert(all[t] == rest[t]);
            } else {
                assert(s[i] == s.last());
                assert(all[all.len() - 1] == (spec_resolving_kind(s[i].identity)->0, s[i]));
            }
        }
    }
}

/// The planner drops nothing it can act on: every field whose state is
/// actionable and whose identity has a resolving kind is resolved by an
/// action of that kind, and every field that is not actionable (unknown or
/// unsupported) is carried in the unactionable list.
pub proof fn law_plan_covers_every_difference(fields: Seq<DifferenceSpec>, i: int)
    requires
        0 <= i < fields.len(),
    ensures
        fields[i].state.spec_actionable() && spec_resolving_kind(fields[i].identity) is Some ==> exists|
            j: int,
        |
            0 <= j < spec_plan(fields).0.len() && (#[trigger] spec_plan(fields).0[j]).difference
                == fields[i] && spec_plan(fields).0[j].kind == spec_resolving_kind(
                fields[i].identity,
            )->0,
        !fields[i].state.spec_actionable() ==> spec_plan(fields).1.contains(fields[i]),
{
    let x = fields[i];
    let (actions, unactionable) = spec_plan(fields);
    if x.state.spec_actionable() {
        lemma_select_keeps(fields, true);
        let chosen = select(fields, true);
        let a = choose|a: int| 0 <= a < chosen.len() && chosen[a] == x;
        lemma_sort_keeps(chosen, true);
        let sorted = sort_by_key(chosen, true);
        let b = choose|b: int| 0 <= b < sorted.len() && sorted[b] == chosen[a];
        if spec_resolving_kind(x.identity) is Some {
            lemma_resolve_keeps(sorted);
            let resolved = resolve(sorted);
            let kind = spec_resolving_kind(x.identity)->0;
            assert(sorted[b] == x);
            let j = choose|j: int| 0 <= j < resolved.len() && resolved[j] == (kind, sorted[b]);
            assert(actions[j].difference == x && actions[j].kind == kind);
        }
    } else {
        lemma_select_keeps(fields, false);
        let refused = select(fields, false);
        let a = choose|a: int| 0 <= a < refused.len() && refused[a] == x;
        lemma_sort_keeps(refused, false);
        assert(refused[a] == x);
    }
}

/// Whether differences are in plan order: none sorts before one ahead of it.
pub open spec fn key_sorted(s: Seq<DifferenceSpec>, by_rank: bool) -> bool {
    forall|i: int, j: int| 0 <= i < j < s.len() ==> !key_lt(#[trigger] s[j], #[trigger] s[i], by_rank)
}

proof fn lemma_key_lt_order(a: DifferenceSpec, b: DifferenceSpec, c: DifferenceSpec, by_rank: bool)
    ensures
        key_lt(a, b, by_rank) && key_lt(b, c, by_rank) ==> key_lt(a, c, by_rank),
        key_lt(a, b, by_rank) ==> !key_lt(b, a, by_rank),
{
    if lex_lt(a.identity, b.identity) && lex_lt(b.identity, c.identity) {
        crate::text::lemma_lex_transitive(a.identity, b.identity, c.identity);
    }
    if lex_lt(a.identity, b.identity) {
        crate::text::lemma_lex_asymmetric(a.identity, b.identity);
    }
}

proof fn lemma_insert_keeps_key_sorted(s: Seq<DifferenceSpec>, x: DifferenceSpec, by_rank: bool)
    requires
        key_sorted(s, by_rank),
    ensures
        key_sorted(insert_by_key(s, x, by_rank), by_rank),
    decreases s.len(),
{
    if s.len() > 0 {
        let ins = insert_by_key(s, x, by_rank);
        if key_lt(x, s[0], by_rank) {
            assert forall|i: int, j: int| 0 <= i < j < ins.len() implies !key_lt(
                #[trigger] ins[j],
                #[trigger] ins[i],
                by_rank,
            ) by {
                assert(ins[j] == s[j - 1]);
                if i > 0 {
                    assert(ins[i] == s[i - 1]);
                } else {
                    lemma_key_lt_order(s[j - 1], x, s[0], by_rank);
                    lemma_key_lt_order(x, s[0], x, by_rank);
                }
            }
        } else {
            let rest_in = s.drop_first();
            assert(key_sorted(rest_in, by_rank)) by {
                assert forall|i: int, j: int| 0 <= i < j < rest_in.len() implies !key_lt(
                    #[trigger] rest_in[j],
                    #[trigger] rest_in[i],
                    by_rank,
                ) by {
                    assert(rest_in[i] == s[i + 1]);
                    assert(rest_in[j] == s[j + 1]);
                }
            }
            lemma_insert_keeps_key_sorted(rest_in, x, by_rank);
            lemma_insert_by_key_members(rest_in, x, by_rank);
            let rest = insert_by_key(rest_in, x, by_rank);
            assert forall|i: int, j: int| 0 <= i < j < ins.len() implies !key_lt(
                #[trigger] ins[j],
                #[trigger] ins[i],
                by_rank,
            ) by {
                assert(ins[j] == rest[j - 1]);
                if i > 0 {
                    assert(ins[i] == rest[i - 1]);
                } else {
                    assert(ins[0] == s[0]);
                    if rest[j - 1] != x {
                        let k = choose|k: int| 0 <= k < rest_in.len() && rest_in[k] == rest[j - 1];
                        assert(rest_in[k] == s[k + 1]);
                    }
                }
            }
        }
    }
}

proof fn lemma_sort_key_sorted(s: Seq<DifferenceSpec>, by_rank: bool)
    ensures
        key_sorted(sort_by_key(s, by_rank), by_rank),
    decreases s.len(),
{
    if s.len() > 0 {
        lemma_sort_key_sorted(s.drop_last(), by_rank);
        lemma_insert_keeps_key_sorted(sort_by_key(s.drop_last(), by_rank), s.last(), by_rank);
    }
}

/// Whether one difference stands before another in a list.
pub open spec fn precedes_in(s: Seq<DifferenceSpec>, a: DifferenceSpec, b: DifferenceSpec) -> bool {
    exists|p: int, q: int| #![trigger s[p], s[q]] 0 <= p < q < s.len() && s[p] == a && s[q] == b
}

/// The resolved differences keep the order they had: each is taken from a
/// later position than the one before it.
proof fn lemma_resolve_in_order(s: Seq<DifferenceSpec>)
    ensures
        resolve(s).len() <= s.len(),
        forall|i: int, j: int|
            0 <= i < j < resolve(s).len() ==> precedes_in(
                s,
                (#[trigger] resolve(s)[i]).1,
                (#[trigger] resolve(s)[j]).1,
            ),
    decreases s.len(),
{
    if s.len() > 0 {
        let init = s.drop_last();
        lemma_resolve_in_order(init);
        let rest = resolve(init);
        let all = resolve(s);
        assert forall|i: int, j: int| 0 <= i < j < all.len() implies precedes_in(
            s,
            (#[trigger] all[i]).1,
            (#[trigger] all[j]).1,
        ) by {
            if j < rest.len() {
                assert(all[i] == rest[i] && all[j] == rest[j]);
                let (p, q) = choose|p: int, q: int|
                    #![trigger init[p], init[q]]
                    0 <= p < q < init.len() && init[p] == rest[i].1 && init[q] == rest[j].1;
                assert(s[p] == init[p] && s[q] == init[q]);
                assert(precedes_in(s, all[i].1, all[j].1));
            } else {
                assert(all[i] == rest[i]);
                lemma_resolve_index(init, i);
                let p = choose|p: int| 0 <= p < init.len() && init[p] == rest[i].1;
                assert(s[p] == init[p]);
                assert(all[j].1 == s.last());
                assert(s[s.len() - 1] == s.last());
                assert(s[p] == all[i].1 && s[s.len() - 1] == all[j].1);
                assert(precedes_in(s, all[i].1, all[j].1));
            }
        }
    }
}

proof fn lemma_resolve_index(s: Seq<DifferenceSpec>, i: int)
    requires
        0 <= i < resolve(s).len(),
    ensures
        exists|p: int| 0 <= p < s.len() && s[p] == resolve(s)[i].1,
    decreases s.len(),
{
    let init = s.drop_last();
    let rest = resolve(init);
    if i < rest.len() {
        lemma_resolve_index(init, i);
        let p = choose|p: int| 0 <= p < init.len() && init[p] == rest[i].1;
        assert(s[p] == init[p]);
        assert(resolve(s)[i] == rest[i]);
    } else {
        assert(s[s.len() - 1] == s.last());
    }
}

proof fn lemma_select_partition(s: Seq<DifferenceSpec>)
    ensures
        select(s, true).len() + select(s, false).len() == s.len(),
    decreases s.len(),
{
    if s.len() > 0 {
        lemma_select_partition(s.drop_last());
    }
}

/// The plan holds no more entries than the set has fields, its actions run
/// in plan order (dependency rank, then identity) and its unactionable list
/// runs in identity order.
pub proof fn law_plan_is_ordered_and_bounded(fields: Seq<DifferenceSpec>)
    ensures
        spec_plan(fields).0.len() + spec_plan(fields).1.len() <= fields.len(),
        forall|i: int, j: int|
            0 <= i < j < spec_plan(fields).0.len() ==> !key_lt(
                (#[trigger] spec_plan(fields).0[j]).difference,
                (#[trigger] spec_plan(fields).0[i]).difference,
                true,
            ),
        forall|i: int, j: int|
            0 <= i < j < spec_plan(fields).1.len() ==> !lex_lt(
                (#[trigger] spec_plan(fields).1[j]).identity,
                (#[trigger] spec_plan(fields).1[i]).identity,
            ),
{
    let (actions, unactionable) = spec_plan(fields);
    let chosen = select(fields, true);
    let refused = select(fields, false);
    lemma_select_partition(fields);
    lemma_select_members(fields, true);
    lemma_select_members(fields, false);
    lemma_sort_members(chosen, true, true);
    lemma_sort_members(refused, false, false);
    let sorted = sort_by_key(chosen, true);
    lemma_resolve_in_order(sorted);
    lemma_sort_key_sorted(chosen, true);
    lemma_sort_key_sorted(refused, false);
    let resolved = resolve(sorted);
    assert forall|i: int, j: int| 0 <= i < j < actions.len() implies !key_lt(
        (#[trigger] actions[j]).difference,
        (#[trigger] actions[i]).difference,
        true,
    ) by {
        assert(actions[i].difference == resolved[i].1 && actions[j].difference == resolved[j].1);
        let (p, q) = choose|p: int, q: int|
            #![trigger sorted[p], sorted[q]]
            0 <= p < q < sorted.len() && sorted[p] == resolved[i].1 && sorted[q] == resolved[j].1;
    }
    assert forall|i: int, j: int| 0 <= i < j < unactionable.len() implies !lex_lt(
        (#[trigger] unactionable[j]).identity,
        (#[trigger] unactionable[i]).identity,
    ) by {
        assert(!key_lt(unactionable[j], unactionable[i], false));
    }
}

/// Whether differences are in nondecreasing dependency rank.
pub open spec fn rank_sorted(s: Seq<DifferenceSpec>) -> bool {
    forall|i: int, j: int|
        0 <= i < j < s.len() ==> difference_rank(#[trigger] s[i]) <= difference_rank(#[trigger] s[j])
}

proof fn lemma_insert_keeps_rank_sorted(s: Seq<DifferenceSpec>, x: DifferenceSpec)
    requires
        rank_sorted(s),
    ensures
        rank_sorted(insert_by_key(s, x, true)),
    decreases s.len(),
{
    lemma_insert_by_key_members(s, x, true);
    if s.len() > 0 {
        let ins = insert_by_key(s, x, true);
        if key_lt(x, s[0], true) {
            assert forall|i: int, j: int| 0 <= i < j < ins.len() implies difference_rank(
                #[trigger] ins[i],
            ) <= difference_rank(#[trigger] ins[j]) by {
                assert(ins[j] == s[j - 1]);
                if i > 0 {
                    assert(ins[i] == s[i - 1]);
                } else if j - 1 > 0 {
                    assert(difference_rank(s[0]) <= difference_rank(s[j - 1]));
                }
            }
        } else {
            let rest_in = s.drop_first();
            assert(rank_sorted(rest_in)) by {
                assert forall|i: int, j: int| 0 <= i < j < rest_in.len() implies difference_rank(
                    #[trigger] rest_in[i],
                ) <= difference_rank(#[trigger] rest_in[j]) by {
                    assert(rest_in[i] == s[i + 1]);
                    assert(rest_in[j] == s[j + 1]);
                }
            }
            lemma_insert_keeps_rank_sorted(rest_in, x);
            lemma_insert_by_key_members(rest_in, x, true);
            let rest = insert_by_key(rest_in, x, true);
            assert forall|i: int, j: int| 0 <= i < j < ins.len() implies difference_rank(
                #[trigger] ins[i],
            ) <= difference_rank(#[trigger] ins[j]) by {
                assert(ins[j] == rest[j - 1]);
                if i > 0 {
                    assert(ins[i] == rest[i - 1]);
                } else {
                    assert(ins[0] == s[0]);
                    if rest[j - 1] != x {
                        let k = choose|k: int| 0 <= k < rest_in.len() && rest_in[k] == rest[j - 1];
                        assert(rest_in[k] == s[k + 1]);
                    }
                }
            }
        }
    }
}

proof fn lemma_sort_rank_sorted(s: Seq<DifferenceSpec>)
    ensures
        rank_sorted(sort_by_key(s, true)),
    decreases s.len(),
{
    if s.len() > 0 {
        lemma_sort_rank_sorted(s.drop_last());
        lemma_insert_keeps_rank_sorted(sort_by_key(s.drop_last(), true), s.last());
    }
}

proof fn lemma_resolve_rank_sorted(s: Seq<DifferenceSpec>)
    requires
        rank_sorted(s),
    ensures
        forall|i: int, j: int|
            0 <= i < j < resolve(s).len() ==> spec_rank(#[trigger] resolve(s)[i].0) <= spec_rank(
                #[trigger] resolve(s)[j].0,
            ),
        forall|i: int|
            0 <= i < resolve(s).len() ==> spec_resolving_kind((#[trigger] resolve(s)[i]).1.identity)
                == Some(resolve(s)[i].0) && s.contains(resolve(s)[i].1),
    decreases s.len(),
{
    if s.len() > 0 {
        let init = s.drop_last();
        assert(rank_sorted(init)) by {
            assert forall|i: int, j: int| 0 <= i < j < init.len() implies difference_rank(
                #[trigger] init[i],
            ) <= difference_rank(#[trigger] init[j]) by {
                assert(init[i] == s[i]);
                assert(init[j] == s[j]);
            }
        }
        lemma_resolve_rank_sorted(init);
        let r = resolve(s);
        let ri = resolve(init);
        assert forall|i: int| 0 <= i < ri.len() implies s.contains(#[trigger] ri[i].1) by {
            let k = choose|k: int| 0 <= k < init.len() && init[k] == ri[i].1;
            assert(s[k] == ri[i].1);
        }
        match spec_resolving_kind(s.last().identity) {
            Some(kind) => {
                assert(r == ri.push((kind, s.last())));
                assert(s[s.len() - 1] == s.last());
                assert forall|i: int, j: int| 0 <= i < j < r.len() implies spec_rank(
                    #[trigger] r[i].0,
                ) <= spec_rank(#[trigger] r[j].0) by {
                    assert(r[i] == ri[i]);
                    if j < ri.len() {
                        assert(r[j] == ri[j]);
                    } else {
                        let k = choose|k: int| 0 <= k < init.len() && init[k] == ri[i].1;
                        assert(s[k] == ri[i].1);
                        assert(difference_rank(s[k]) <= difference_rank(s[s.len() - 1]));
                    }
                }
                assert forall|i: int| 0 <= i < r.len() implies spec_resolving_kind(
                    (#[trigger] r[i]).1.identity,
                ) == Some(r[i].0) && s.contains(r[i].1) by {
                    if i < ri.len() {
                        assert(r[i] == ri[i]);
                    }
                }
            },
            None => {},
        }
    }
}

/// The plan runs in dependency order: an action's kind never ranks before
/// that of an action planned ahead of it (the checkout before everything
/// project-scoped, tools before what uses them, skills after tools).
pub proof fn law_plan_runs_in_dependency_order(fields: Seq<DifferenceSpec>)
    ensures
        ({
            let actions = spec_plan(fields).0;
            forall|i: int, j: int|
                0 <= i < j < actions.len() ==> spec_rank((#[trigger] actions[i]).kind) <= spec_rank(
                    (#[trigger] actions[j]).kind,
                )
        }),
{
    let sorted = sort_by_key(select(fields, true), true);
    lemma_sort_rank_sorted(select(fields, true));
    lemma_resolve_rank_sorted(sorted);
    let resolved = resolve(sorted);
    let actions = spec_plan(fields).0;
    assert forall|i: int, j: int| 0 <= i < j < actions.len() implies spec_rank(
        (#[trigger] actions[i]).kind,
    ) <= spec_rank((#[trigger] actions[j]).kind) by {
        assert(actions[i].kind == resolved[i].0);
        assert(actions[j].kind == resolved[j].0);
    }
}

} // verus!
