//! Field differences between desired and observed state, as the planner and
//! the apply gate read them: an identity, a state, and the values compared.
//!
//! `unknown` and `unsupported` are honest states, never actionable: the
//! planner refuses to act on what it does not know.

use vstd::prelude::*;

use crate::text::{lex_lt, to_owned_string};

verus! {

/// The state of one compared field.
#[derive(Clone, Copy, Debug, PartialEq, Eq, Structural)]
pub enum DifferenceState {
    /// The desired value is absent on the machine.
    Missing,
    /// The machine carries a different value than desired.
    Changed,
    /// The machine carries something the desired state does not declare.
    Extra,
    /// The observation was unavailable: the machine's state is unknown.
    Unknown,
    /// No normalization path exists for the field.
    Unsupported,
}

impl DifferenceState {
    /// Whether a difference in this state can be acted on.
    pub open spec fn spec_actionable(self) -> bool {
        match self {
            DifferenceState::Missing | DifferenceState::Changed | DifferenceState::Extra => true,
            DifferenceState::Unknown | DifferenceState::Unsupported => false,
        }
    }

    /// Whether a difference in this state can be acted on: `unknown` and
    /// `unsupported` never are.
    pub fn actionable(self) -> (actionable: bool)
        ensures
            actionable == self.spec_actionable(),
    {
        match self {
            DifferenceState::Missing | DifferenceState::Changed | DifferenceState::Extra => true,
            DifferenceState::Unknown | DifferenceState::Unsupported => false,
        }
    }

    /// The stable state id.
    pub open spec fn spec_id(self) -> Seq<char> {
        match self {
            DifferenceState::Missing => "missing"@,
            DifferenceState::Changed => "changed"@,
            DifferenceState::Extra => "extra"@,
            DifferenceState::Unknown => "unknown"@,
            DifferenceState::Unsupported => "unsupported"@,
        }
    }

    /// The stable state id.
    pub fn id(self) -> (id: &'static str)
        ensures
            id@ == self.spec_id(),
    {
        match self {
            DifferenceState::Missing => "missing",
            DifferenceState::Changed => "changed",
            DifferenceState::Extra => "extra",
            DifferenceState::Unknown => "unknown",
            DifferenceState::Unsupported => "unsupported",
        }
    }
}

/// One compared field.
#[derive(Clone, Debug, PartialEq, Eq)]
pub struct FieldDifference {
    /// The field's stable identity, e.g. `tool:node`.
    pub identity: String,
    /// The comparison state.
    pub state: DifferenceState,
    /// The desired value, when the desired state declares one.
    pub desired: Option<String>,
    /// The observed value, when the observation carried one.
    pub observed: Option<String>,
    /// Why the field is in its state, for the honest states.
    pub reason: Option<String>,
}

/// The mathematical value of a field difference.
pub struct DifferenceSpec {
    /// The identity.
    pub identity: Seq<char>,
    /// The state.
    pub state: DifferenceState,
    /// The desired value.
    pub desired: Option<Seq<char>>,
    /// The observed value.
    pub observed: Option<Seq<char>>,
    /// The reason.
    pub reason: Option<Seq<char>>,
}

/// An optional text as a value.
pub open spec fn opt_text(o: Option<String>) -> Option<Seq<char>> {
    match o {
        Some(s) => Some(s@),
        None => None,
    }
}

impl View for FieldDifference {
    type V = DifferenceSpec;

    open spec fn view(&self) -> DifferenceSpec {
        DifferenceSpec {
            identity: self.identity@,
            state: self.state,
            desired: opt_text(self.desired),
            observed: opt_text(self.observed),
            reason: opt_text(self.reason),
        }
    }
}

/// An optional borrowed text as a value.
pub open spec fn opt_str(o: Option<&str>) -> Option<Seq<char>> {
    match o {
        Some(s) => Some(s@),
        None => None,
    }
}

/// Owns an optional borrowed text.
pub fn owned_opt(o: Option<&str>) -> (owned: Option<String>)
    ensures
        opt_text(owned) == opt_str(o),
{
    match o {
        Some(s) => Some(to_owned_string(s)),
        None => None,
    }
}

/// Copies an optional text.
pub fn copy_opt(o: &Option<String>) -> (copy: Option<String>)
    ensures
        opt_text(copy) == opt_text(*o),
{
    match o {
        Some(s) => Some(s.clone()),
        None => None,
    }
}

impl FieldDifference {
    /// A missing field: the desired value is absent on the machine.
    pub fn missing(identity: &str, desired: &str) -> (difference: Self)
        ensures
            difference@ == (DifferenceSpec {
                identity: identity@,
                state: DifferenceState::Missing,
                desired: Some(desired@),
                observed: None,
                reason: None,
            }),
    {
        FieldDifference {
            identity: crate::text::to_owned_string(identity),
            state: DifferenceState::Missing,
            desired: Some(crate::text::to_owned_string(desired)),
            observed: None,
            reason: None,
        }
    }

    /// A changed field: the machine carries a different value than desired.
    pub fn changed(identity: &str, desired: &str, observed: &str) -> (difference: Self)
        ensures
            difference@ == (DifferenceSpec {
                identity: identity@,
                state: DifferenceState::Changed,
                desired: Some(desired@),
                observed: Some(observed@),
                reason: None,
            }),
    {
        FieldDifference {
            identity: to_owned_string(identity),
            state: DifferenceState::Changed,
            desired: Some(to_owned_string(desired)),
            observed: Some(to_owned_string(observed)),
            reason: None,
        }
    }

    /// An extra field: the machine carries something the desired state does
    /// not declare.
    pub fn extra(identity: &str, observed: &str) -> (difference: Self)
        ensures
            difference@ == (DifferenceSpec {
                identity: identity@,
                state: DifferenceState::Extra,
                desired: None,
                observed: Some(observed@),
                reason: None,
            }),
    {
        FieldDifference {
            identity: to_owned_string(identity),
            state: DifferenceState::Extra,
            desired: None,
            observed: Some(to_owned_string(observed)),
            reason: None,
        }
    }

    /// An unknown field: the observation was unavailable, with the reason.
    pub fn unknown(identity: &str, desired: Option<&str>, reason: &str) -> (difference: Self)
        ensures
            difference@ == (DifferenceSpec {
                identity: identity@,
                state: DifferenceState::Unknown,
                desired: opt_str(desired),
                observed: None,
                reason: Some(reason@),
            }),
    {
        FieldDifference {
            identity: to_owned_string(identity),
            state: DifferenceState::Unknown,
            desired: owned_opt(desired),
            observed: None,
            reason: Some(to_owned_string(reason)),
        }
    }

    /// An unsupported field: no normalization path exists, with the reason.
    pub fn unsupported(identity: &str, desired: Option<&str>, reason: &str) -> (difference: Self)
        ensures
            difference@ == (DifferenceSpec {
                identity: identity@,
                state: DifferenceState::Unsupported,
                desired: opt_str(desired),
                observed: None,
                reason: Some(reason@),
            }),
    {
        FieldDifference {
            identity: to_owned_string(identity),
            state: DifferenceState::Unsupported,
            desired: owned_opt(desired),
            observed: None,
            reason: Some(to_owned_string(reason)),
        }
    }

    /// Whether the difference can be acted on.
    pub fn actionable(&self) -> (actionable: bool)
        ensures
            actionable == self.state.spec_actionable(),
    {
        self.state.actionable()
    }

    /// A copy of the difference.
    pub fn copy(&self) -> (copy: Self)
        ensures
            copy@ == self@,
    {
        FieldDifference {
            identity: self.identity.clone(),
            state: self.state,
            desired: copy_opt(&self.desired),
            observed: copy_opt(&self.observed),
            reason: copy_opt(&self.reason),
        }
    }
}

/// The difference between a desired and an observed value of one field:
/// absent when they agree (or both are absent), `missing` when only the
/// desired value exists, `extra` when only the observed one does, and
/// `changed` when both exist and differ.
pub open spec fn spec_compare_field(
    identity: Seq<char>,
    desired: Option<Seq<char>>,
    observed: Option<Seq<char>>,
) -> Option<DifferenceSpec> {
    match (desired, observed) {
        (Some(d), Some(o)) => if d == o {
            None
        } else {
            Some(
                DifferenceSpec {
                    identity,
                    state: DifferenceState::Changed,
                    desired: Some(d),
                    observed: Some(o),
                    reason: None,
                },
            )
        },
        (Some(d), None) => Some(
            DifferenceSpec {
                identity,
                state: DifferenceState::Missing,
                desired: Some(d),
                observed: None,
                reason: None,
            },
        ),
        (None, Some(o)) => Some(
            DifferenceSpec {
                identity,
                state: DifferenceState::Extra,
                desired: None,
                observed: Some(o),
                reason: None,
            },
        ),
        (None, None) => None,
    }
}

/// An optional difference as a value.
pub open spec fn opt_difference(o: Option<FieldDifference>) -> Option<DifferenceSpec> {
    match o {
        Some(d) => Some(d@),
        None => None,
    }
}

/// Compares one field's desired value with its observed value.
pub fn compare_field(identity: &str, desired: Option<&str>, observed: Option<&str>) -> (difference:
    Option<FieldDifference>)
    ensures
        opt_difference(difference) == spec_compare_field(identity@, opt_str(desired), opt_str(observed)),
{
    match (desired, observed) {
        (Some(d), Some(o)) => {
            if crate::text::text_eq(d, o) {
                None
            } else {
                Some(FieldDifference::changed(identity, d, o))
            }
        },
        (Some(d), None) => Some(FieldDifference::missing(identity, d)),
        (None, Some(o)) => Some(FieldDifference::extra(identity, o)),
        (None, None) => None,
    }
}

/// How strongly a state holds its identity when two fields share one: an
/// honest `unknown` outranks `unsupported`, which outranks every actionable
/// state, so what the machine cannot tell is never shadowed by a duplicate
/// that claims to know.
pub open spec fn precedence(state: DifferenceState) -> int {
    match state {
        DifferenceState::Unknown => 2,
        DifferenceState::Unsupported => 1,
        _ => 0,
    }
}

fn precedence_of(state: DifferenceState) -> (rank: u8)
    ensures
        rank == precedence(state),
{
    match state {
        DifferenceState::Unknown => 2,
        DifferenceState::Unsupported => 1,
        _ => 0,
    }
}

/// Adds a field to a canonical list: at its identity's place in order, or,
/// when a field with the same identity is present, in its place only if it
/// outranks it.
pub open spec fn canonical_insert(s: Seq<DifferenceSpec>, x: DifferenceSpec) -> Seq<DifferenceSpec>
    decreases s.len(),
{
    if s.len() == 0 {
        seq![x]
    } else if s[0].identity == x.identity {
        if precedence(x.state) > precedence(s[0].state) {
            seq![x] + s.drop_first()
        } else {
            s
        }
    } else if lex_lt(x.identity, s[0].identity) {
        seq![x] + s
    } else {
        seq![s[0]] + canonical_insert(s.drop_first(), x)
    }
}

/// The canonical form of a list of fields: one field per identity, sorted
/// by identity, each the first of the strongest state among its duplicates.
pub open spec fn canonical(s: Seq<DifferenceSpec>) -> Seq<DifferenceSpec>
    decreases s.len(),
{
    if s.len() == 0 {
        Seq::empty()
    } else {
        canonical_insert(canonical(s.drop_last()), s.last())
    }
}

/// The fields as values.
pub open spec fn fields_view(v: Seq<FieldDifference>) -> Seq<DifferenceSpec> {
    v.map_values(|d: FieldDifference| d@)
}

/// The fields of a list whose state is actionable, in order.
pub open spec fn actionable_fields(s: Seq<DifferenceSpec>) -> Seq<DifferenceSpec>
    decreases s.len(),
{
    if s.len() == 0 {
        Seq::empty()
    } else if s.last().state.spec_actionable() {
        actionable_fields(s.drop_last()).push(s.last())
    } else {
        actionable_fields(s.drop_last())
    }
}

/// A set of compared fields for one machine.
#[derive(Debug, Default)]
pub struct DifferenceSet {
    /// The compared fields.
    pub fields: Vec<FieldDifference>,
}

proof fn lemma_canonical_insert_at(s: Seq<DifferenceSpec>, x: DifferenceSpec, p: int)
    requires
        0 <= p <= s.len(),
        forall|j: int| 0 <= j < p ==> lex_lt((#[trigger] s[j]).identity, x.identity),
        p < s.len() ==> !lex_lt(s[p].identity, x.identity),
    ensures
        canonical_insert(s, x) == (if p < s.len() && s[p].identity == x.identity {
            if precedence(x.state) > precedence(s[p].state) {
                s.update(p, x)
            } else {
                s
            }
        } else {
            s.insert(p, x)
        }),
    decreases p,
{
    if p == 0 {
        if s.len() == 0 {
            assert(s.insert(0, x) =~= seq![x]);
        } else if s[0].identity == x.identity {
            assert(s.update(0, x) =~= seq![x] + s.drop_first());
        } else {
            crate::text::lemma_lex_total(s[0].identity, x.identity);
            assert(s.insert(0, x) =~= seq![x] + s);
        }
    } else {
        crate::text::lemma_lex_irreflexive(x.identity);
        crate::text::lemma_lex_asymmetric(s[0].identity, x.identity);
        assert(s[0].identity != x.identity);
        let rest = s.drop_first();
        assert forall|j: int| 0 <= j < p - 1 implies lex_lt((#[trigger] rest[j]).identity, x.identity) by {
            assert(rest[j] == s[j + 1]);
        }
        lemma_canonical_insert_at(rest, x, p - 1);
        if p < s.len() && s[p].identity == x.identity {
            if precedence(x.state) > precedence(s[p].state) {
                assert(s.update(p, x) =~= seq![s[0]] + rest.update(p - 1, x));
            } else {
                assert(s =~= seq![s[0]] + rest);
            }
        } else {
            assert(s.insert(p, x) =~= seq![s[0]] + rest.insert(p - 1, x));
        }
    }
}

impl DifferenceSet {
    /// An empty set.
    pub fn new() -> (set: Self)
        ensures
            set.fields@.len() == 0,
    {
        DifferenceSet { fields: Vec::new() }
    }

    /// Appends a field.
    pub fn push(&mut self, field: FieldDifference)
        ensures
            fields_view(final(self).fields@) == fields_view(old(self).fields@).push(field@),
    {
        self.fields.push(field);
        proof {
            assert(fields_view(self.fields@) =~= fields_view(old(self).fields@).push(field@));
        }
    }

    /// The actionable fields, in order.
    pub fn actionable(&self) -> (fields: Vec<FieldDifference>)
        ensures
            fields_view(fields@) == actionable_fields(fields_view(self.fields@)),
    {
        let ghost all = fields_view(self.fields@);
        let mut out: Vec<FieldDifference> = Vec::new();
        let mut i: usize = 0;
        proof {
            assert(all.subrange(0, 0) =~= Seq::<DifferenceSpec>::empty());
            assert(fields_view(out@) =~= Seq::<DifferenceSpec>::empty());
        }
        while i < self.fields.len()
            invariant
                all == fields_view(self.fields@),
                i <= self.fields@.len(),
                fields_view(out@) == actionable_fields(all.subrange(0, i as int)),
            decreases self.fields@.len() - i,
        {
            let ghost pre = all.subrange(0, i + 1);
            proof {
                assert(pre.drop_last() =~= all.subrange(0, i as int));
                assert(pre.last() == self.fields@[i as int]@);
            }
            if self.fields[i].actionable() {
                let ghost before = fields_view(out@);
                out.push(self.fields[i].copy());
                proof {
                    assert(fields_view(out@) =~= before.push(pre.last()));
                }
            }
            i = i + 1;
        }
        proof {
            assert(all.subrange(0, i as int) =~= all);
        }
        out
    }

    /// Puts the set in canonical form: sorted by identity, one field per
    /// identity, keeping the strongest state among duplicates (see
    /// [`canonical`]).
    pub fn canonicalize(&mut self)
        ensures
            fields_view(final(self).fields@) == canonical(fields_view(old(self).fields@)),
    {
        let ghost all = fields_view(self.fields@);
        let mut out: Vec<FieldDifference> = Vec::new();
        let mut i: usize = 0;
        proof {
            assert(all.subrange(0, 0) =~= Seq::<DifferenceSpec>::empty());
            assert(fields_view(out@) =~= Seq::<DifferenceSpec>::empty());
        }
        while i < self.fields.len()
            invariant
                all == fields_view(self.fields@),
                all == fields_view(old(self).fields@),
                i <= self.fields@.len(),
                fields_view(out@) == canonical(all.subrange(0, i as int)),
            decreases self.fields@.len() - i,
        {
            let ghost pre = all.subrange(0, i + 1);
            proof {
                assert(pre.drop_last() =~= all.subrange(0, i as int));
                assert(pre.last() == self.fields@[i as int]@);
            }
            let x = self.fields[i].copy();
            insert_canonical(&mut out, x);
            i = i + 1;
        }
        proof {
            assert(all.subrange(0, i as int) =~= all);
        }
        self.fields = out;
    }
}

fn insert_canonical(out: &mut Vec<FieldDifference>, x: FieldDifference)
    ensures
        fields_view(final(out)@) == canonical_insert(fields_view(old(out)@), x@),
{
    let ghost before = fields_view(out@);
    let len = out.len();
    let mut p: usize = 0;
    while p < len
        invariant
            len == out@.len(),
            before == fields_view(out@),
            before == fields_view(old(out)@),
            p <= len,
            forall|j: int| 0 <= j < p ==> lex_lt((#[trigger] before[j]).identity, x@.identity),
        ensures
            p <= len,
            forall|j: int| 0 <= j < p ==> lex_lt((#[trigger] before[j]).identity, x@.identity),
            p < len ==> !lex_lt(before[p as int].identity, x@.identity),
        decreases len - p,
    {
        let order = crate::text::compare(out[p].identity.as_str(), x.identity.as_str());
        if order != crate::text::TextOrder::Less {
            proof {
                crate::text::lemma_lex_irreflexive(x@.identity);
                assert(before[p as int] == out@[p as int]@);
            }
            break;
        }
        p = p + 1;
    }
    let ghost xv = x@;
    proof {
        if p < len {
            assert(before[p as int] == out@[p as int]@);
        }
        lemma_canonical_insert_at(before, xv, p as int);
    }
    if p < len && crate::text::text_eq(out[p].identity.as_str(), x.identity.as_str()) {
        if precedence_of(x.state) > precedence_of(out[p].state) {
            out.set(p, x);
            proof {
                assert(fields_view(out@) =~= before.update(p as int, xv));
            }
        }
    } else {
        out.insert(p, x);
        proof {
            assert(fields_view(out@) =~= before.insert(p as int, xv));
        }
    }
}

/// Whether a list holds an `unknown` field of an identity.
pub open spec fn holds_unknown(s: Seq<DifferenceSpec>, identity: Seq<char>) -> bool {
    exists|k: int|
        0 <= k < s.len() && (#[trigger] s[k]).identity == identity && s[k].state
            == DifferenceState::Unknown
}

proof fn lemma_canonical_insert_keeps_unknown(s: Seq<DifferenceSpec>, x: DifferenceSpec, identity: Seq<char>)
    ensures
        holds_unknown(s, identity) ==> holds_unknown(canonical_insert(s, x), identity),
        (x.identity == identity && x.state == DifferenceState::Unknown) ==> holds_unknown(
            canonical_insert(s, x),
            identity,
        ),
    decreases s.len(),
{
    let r = canonical_insert(s, x);
    if s.len() == 0 {
        assert(r[0] == x);
    } else if s[0].identity == x.identity {
        if precedence(x.state) > precedence(s[0].state) {
            if holds_unknown(s, identity) {
                let k = choose|k: int|
                    0 <= k < s.len() && (#[trigger] s[k]).identity == identity && s[k].state
                        == DifferenceState::Unknown;
                if k == 0 {
                    assert(false);
                } else {
                    assert(r[k] == s[k]);
                }
            }
            assert(r[0] == x);
        } else {
            if x.identity == identity && x.state == DifferenceState::Unknown {
                assert(s[0].state == DifferenceState::Unknown);
                assert(r[0] == s[0]);
            }
        }
    } else if lex_lt(x.identity, s[0].identity) {
        if holds_unknown(s, identity) {
            let k = choose|k: int|
                0 <= k < s.len() && (#[trigger] s[k]).identity == identity && s[k].state
                    == DifferenceState::Unknown;
            assert(r[k + 1] == s[k]);
        }
        assert(r[0] == x);
    } else {
        let rest = s.drop_first();
        lemma_canonical_insert_keeps_unknown(rest, x, identity);
        let rr = canonical_insert(rest, x);
        if holds_unknown(s, identity) {
            let k = choose|k: int|
                0 <= k < s.len() && (#[trigger] s[k]).identity == identity && s[k].state
                    == DifferenceState::Unknown;
            if k == 0 {
                assert(r[0] == s[0]);
            } else {
                assert(rest[k - 1] == s[k]);
                let m = choose|m: int|
                    0 <= m < rr.len() && (#[trigger] rr[m]).identity == identity && rr[m].state
                        == DifferenceState::Unknown;
                assert(r[m + 1] == rr[m]);
            }
        }
        if x.identity == identity && x.state == DifferenceState::Unknown {
            let m = choose|m: int|
                0 <= m < rr.len() && (#[trigger] rr[m]).identity == identity && rr[m].state
                    == DifferenceState::Unknown;
            assert(r[m + 1] == rr[m]);
        }
    }
}

/// Canonicalization never shadows an honest `unknown`: when a list holds an
/// `unknown` field of an identity, so does its canonical form.
pub proof fn law_canonical_keeps_unknown(s: Seq<DifferenceSpec>, identity: Seq<char>)
    requires
        holds_unknown(s, identity),
    ensures
        holds_unknown(canonical(s), identity),
    decreases s.len(),
{
    let init = s.drop_last();
    let k = choose|k: int|
        0 <= k < s.len() && (#[trigger] s[k]).identity == identity && s[k].state
            == DifferenceState::Unknown;
    if k < s.len() - 1 {
        assert(init[k] == s[k]);
        law_canonical_keeps_unknown(init, identity);
    }
    lemma_canonical_insert_keeps_unknown(canonical(init), s.last(), identity);
}


/// Whether a list holds a field of an identity.
pub open spec fn reports(s: Seq<DifferenceSpec>, identity: Seq<char>) -> bool {
    exists|k: int| 0 <= k < s.len() && (#[trigger] s[k]).identity == identity
}

proof fn lemma_canonical_insert_keeps_identity(
    s: Seq<DifferenceSpec>,
    x: DifferenceSpec,
    identity: Seq<char>,
)
    ensures
        reports(s, identity) ==> reports(canonical_insert(s, x), identity),
        x.identity == identity ==> reports(canonical_insert(s, x), identity),
    decreases s.len(),
{
    let r = canonical_insert(s, x);
    if s.len() == 0 {
        assert(r[0] == x);
    } else if s[0].identity == x.identity {
        if precedence(x.state) > precedence(s[0].state) {
            assert(r[0] == x);
            if reports(s, identity) {
                let k = choose|k: int| 0 <= k < s.len() && (#[trigger] s[k]).identity == identity;
                if k > 0 {
                    assert(r[k] == s[k]);
                }
            }
        } else if x.identity == identity {
            assert(r[0] == s[0]);
        }
    } else if lex_lt(x.identity, s[0].identity) {
        assert(r[0] == x);
        if reports(s, identity) {
            let k = choose|k: int| 0 <= k < s.len() && (#[trigger] s[k]).identity == identity;
            assert(r[k + 1] == s[k]);
        }
    } else {
        let rest = s.drop_first();
        lemma_canonical_insert_keeps_identity(rest, x, identity);
        let rr = canonical_insert(rest, x);
        assert(r[0] == s[0]);
        if reports(s, identity) {
            let k = choose|k: int| 0 <= k < s.len() && (#[trigger] s[k]).identity == identity;
            if k > 0 {
                assert(rest[k - 1] == s[k]);
                let m = choose|m: int| 0 <= m < rr.len() && (#[trigger] rr[m]).identity == identity;
                assert(r[m + 1] == rr[m]);
            }
        }
        if x.identity == identity {
            let m = choose|m: int| 0 <= m < rr.len() && (#[trigger] rr[m]).identity == identity;
            assert(r[m + 1] == rr[m]);
        }
    }
}

/// Canonicalization never loses an identity: when a list holds a field of
/// an identity, so does its canonical form.
pub proof fn lemma_canonical_keeps_identity(s: Seq<DifferenceSpec>, identity: Seq<char>)
    requires
        reports(s, identity),
    ensures
        reports(canonical(s), identity),
    decreases s.len(),
{
    let init = s.drop_last();
    let k = choose|k: int| 0 <= k < s.len() && (#[trigger] s[k]).identity == identity;
    if k < s.len() - 1 {
        assert(init[k] == s[k]);
        lemma_canonical_keeps_identity(init, identity);
    }
    lemma_canonical_insert_keeps_identity(canonical(init), s.last(), identity);
}

} // verus!
