//! Audit event types and the rules that keep secrets out of them.
//!
//! Audit answers "who did what, on what, and with what result" for every
//! authorized action, including refused ones. The metadata guard structurally
//! rejects the raw request material that would otherwise leak credentials
//! into an append-only ledger: there is no path from a forbidden key into a
//! stored event.
//!
//! The write pattern is two-phase: an intent is appended when an action is
//! accepted, and the outcome is appended separately when it terminates.

use vstd::prelude::*;

use crate::text::utf8_len;

use crate::authz::Decision;
use crate::text::{ascii_lower, contains_lowered, contains_text, lex_lt, lower_char, TextOrder};

verus! {

/// Metadata entry value bound, in bytes.
pub const MAX_METADATA_VALUE_BYTES: usize = 2048;

/// Total metadata bound per event, in bytes.
pub const MAX_METADATA_TOTAL_BYTES: usize = 32768;

/// Maximum number of metadata entries per event.
pub const MAX_METADATA_ENTRIES: usize = 32;

/// Whether a metadata key is forbidden: its ASCII lowercase is one of the
/// bulk-structure names, or contains one of the credential-bearing parts.
pub open spec fn forbidden_key(key: Seq<char>) -> bool {
    let k = ascii_lower(key);
    ||| k == "headers"@
    ||| k == "env"@
    ||| k == "environment"@
    ||| k == "query"@
    ||| contains_text(k, "authorization"@)
    ||| contains_text(k, "cookie"@)
    ||| contains_text(k, "password"@)
    ||| contains_text(k, "passwd"@)
    ||| contains_text(k, "secret"@)
    ||| contains_text(k, "token"@)
    ||| contains_text(k, "api-key"@)
    ||| contains_text(k, "private-key"@)
    ||| contains_text(k, "forwarded"@)
    ||| contains_text(k, "real-ip"@)
    ||| contains_text(k, "remote-addr"@)
}

/// Whether the ASCII lowercase of `key` equals `word`.
fn lowered_equals(key: &str, word: &str) -> (equal: bool)
    ensures
        equal == (ascii_lower(key@) == word@),
{
    let k_len = key.unicode_len();
    let w_len = word.unicode_len();
    if k_len != w_len {
        proof {
            assert(ascii_lower(key@).len() != word@.len());
        }
        return false;
    }
    let mut i: usize = 0;
    while i < k_len
        invariant
            k_len == key@.len(),
            w_len == word@.len(),
            k_len == w_len,
            i <= k_len,
            forall|j: int| 0 <= j < i ==> lower_char(#[trigger] key@[j]) == word@[j],
        decreases k_len - i,
    {
        if crate::text::to_lower_char(key.get_char(i)) != word.get_char(i) {
            proof {
                assert(ascii_lower(key@)[i as int] != word@[i as int]);
            }
            return false;
        }
        i = i + 1;
    }
    proof {
        assert(ascii_lower(key@) =~= word@);
    }
    true
}

/// Decides whether a metadata key is forbidden, case-insensitively.
pub fn is_forbidden_key(key: &str) -> (forbidden: bool)
    ensures
        forbidden == forbidden_key(key@),
{
    lowered_equals(key, "headers") || lowered_equals(key, "env") || lowered_equals(
        key,
        "environment",
    ) || lowered_equals(key, "query") || contains_lowered(key, "authorization")
        || contains_lowered(key, "cookie") || contains_lowered(key, "password")
        || contains_lowered(key, "passwd") || contains_lowered(key, "secret") || contains_lowered(
        key,
        "token",
    ) || contains_lowered(key, "api-key") || contains_lowered(key, "private-key")
        || contains_lowered(key, "forwarded") || contains_lowered(key, "real-ip")
        || contains_lowered(key, "remote-addr")
}

/// A metadata problem: the key or value would put sensitive or unbounded
/// material into the audit trail.
#[derive(Clone, Debug, PartialEq, Eq)]
pub enum MetadataError {
    /// The key matches a forbidden pattern.
    ForbiddenKey {
        /// The rejected key.
        key: String,
    },
    /// The value exceeds the per-entry bound.
    ValueTooLarge {
        /// The rejected key.
        key: String,
        /// The observed size in bytes.
        size: usize,
        /// The allowed size in bytes.
        limit: usize,
    },
    /// The event's metadata would exceed the entry bound.
    TooManyEntries {
        /// The allowed count.
        limit: usize,
    },
}

/// The refusal text of a forbidden key.
pub open spec fn forbidden_key_message(key: Seq<char>) -> Seq<char> {
    "audit metadata key "@ + crate::text::debug_quoted(key)
        + " is forbidden; raw request or credential material must never be recorded"@
}

/// The refusal text of an oversized value.
pub open spec fn value_too_large_message(key: Seq<char>, size: nat, limit: nat) -> Seq<char> {
    "audit metadata value for "@ + crate::text::debug_quoted(key) + " is "@ + crate::text::decimal(
        size,
    ) + " bytes, over the "@ + crate::text::decimal(limit) + "-byte bound"@
}

/// Why one entry is refused: its key is forbidden, or else its value is
/// over the bound.
pub open spec fn entry_refusal(key: Seq<char>, value: Seq<char>) -> Seq<char> {
    if forbidden_key(key) {
        forbidden_key_message(key)
    } else {
        value_too_large_message(key, utf8_len(value), MAX_METADATA_VALUE_BYTES as nat)
    }
}

impl MetadataError {
    /// A human-readable rendering of the problem.
    /// The rendering of a refusal.
    pub open spec fn spec_message(&self) -> Seq<char> {
        match self {
            MetadataError::ForbiddenKey { key } => forbidden_key_message(key@),
            MetadataError::ValueTooLarge { key, size, limit } => value_too_large_message(
                key@,
                *size as nat,
                *limit as nat,
            ),
            MetadataError::TooManyEntries { limit } => "audit metadata exceeds "@
                + crate::text::decimal(*limit as nat) + " entries"@,
        }
    }

    /// A human-readable rendering of the problem.
    pub fn message(&self) -> (text: String)
        ensures
            text@ == self.spec_message(),
    {
        match self {
            MetadataError::ForbiddenKey { key } => {
                let text = String::from_str("audit metadata key ");
                let text = text.concat(crate::text::quoted(key.as_str()).as_str());
                text.concat(
                    " is forbidden; raw request or credential material must never be recorded",
                )
            },
            MetadataError::ValueTooLarge { key, size, limit } => {
                let text = String::from_str("audit metadata value for ");
                let text = text.concat(crate::text::quoted(key.as_str()).as_str());
                let text = text.concat(" is ");
                let text = text.concat(crate::text::format_decimal(*size as u64).as_str());
                let text = text.concat(" bytes, over the ");
                let text = text.concat(crate::text::format_decimal(*limit as u64).as_str());
                text.concat("-byte bound")
            },
            MetadataError::TooManyEntries { limit } => {
                let text = String::from_str("audit metadata exceeds ");
                let text = text.concat(crate::text::format_decimal(*limit as u64).as_str());
                text.concat(" entries")
            },
        }
    }
}

/// Whether an entry list is a valid metadata record: keys strictly
/// increasing (so unique and in stable order), no forbidden key, and no more
/// entries than the bound.
pub open spec fn entries_well_formed(entries: Seq<(Seq<char>, Seq<char>)>) -> bool {
    &&& entries.len() <= MAX_METADATA_ENTRIES
    &&& forall|i: int, j: int|
        0 <= i < j < entries.len() ==> lex_lt(#[trigger] entries[i].0, #[trigger] entries[j].0)
    &&& forall|i: int| 0 <= i < entries.len() ==> !forbidden_key(#[trigger] entries[i].0)
}

/// The JSON text serde_json writes for an object of string members, each
/// name with its value.
pub uninterp spec fn json_string_object(members: Seq<(Seq<char>, Seq<char>)>) -> Seq<char>;

/// The members of a list of text pairs, as values.
pub open spec fn pairs_view(members: Seq<(String, String)>) -> Seq<(Seq<char>, Seq<char>)> {
    members.map_values(|e: (String, String)| (e.0@, e.1@))
}

/// Writes an object of string members through serde_json: the pairs as a
/// map, serialized with `serde_json::to_string` (`{}` should serialization
/// fail). The text depends on the pairs alone; what serde_json makes of
/// them (member order, escaping) is named, not spelled out.
#[verifier::external_body]
pub(crate) fn string_object_json(members: &Vec<(String, String)>) -> (json: String)
    ensures
        json@ == json_string_object(pairs_view(members@)),
{
    let map: std::collections::BTreeMap<&str, &str> = members.iter().map(
        |(name, value)| (name.as_str(), value.as_str()),
    ).collect();
    serde_json::to_string(&map).unwrap_or_else(|_| "{}".to_owned())
}

/// Whether entries after an accepted insert are the entries before with the
/// key holding the value: the pair is present, every other key keeps its
/// pair, and nothing else appears.
pub open spec fn holds_inserted(
    before: Seq<(Seq<char>, Seq<char>)>,
    after: Seq<(Seq<char>, Seq<char>)>,
    key: Seq<char>,
    value: Seq<char>,
) -> bool {
    &&& after.contains((key, value))
    &&& forall|x: (Seq<char>, Seq<char>)| #[trigger] after.contains(x) ==> x == (key, value) || (
    before.contains(x) && x.0 != key)
    &&& forall|x: (Seq<char>, Seq<char>)| #[trigger] before.contains(x) && x.0 != key ==> after.contains(x)
}

proof fn lemma_insert_effect(
    before: Seq<(Seq<char>, Seq<char>)>,
    after: Seq<(Seq<char>, Seq<char>)>,
    key: Seq<char>,
    value: Seq<char>,
)
    requires
        entries_well_formed(before),
        (exists|p: int|
            0 <= p < before.len() && before[p].0 == key && after == before.update(p, (key, value)))
            || ((forall|p: int| 0 <= p < before.len() ==> before[p].0 != key) && exists|p: int|
            0 <= p <= before.len() && after == before.insert(p, (key, value))),
    ensures
        holds_inserted(before, after, key, value),
{
    if exists|p: int|
        0 <= p < before.len() && before[p].0 == key && after == before.update(p, (key, value)) {
        let p = choose|p: int|
            0 <= p < before.len() && before[p].0 == key && after == before.update(p, (key, value));
        assert(after[p] == (key, value));
        assert forall|x: (Seq<char>, Seq<char>)| #[trigger] after.contains(x) implies x == (key, value)
            || (before.contains(x) && x.0 != key) by {
            let i = choose|i: int| 0 <= i < after.len() && after[i] == x;
            if i != p {
                assert(before[i] == x);
                if x.0 == key {
                    if i < p {
                        assert(lex_lt(before[i].0, before[p].0));
                    } else {
                        assert(lex_lt(before[p].0, before[i].0));
                    }
                    crate::text::lemma_lex_irreflexive(key);
                }
            }
        }
        assert forall|x: (Seq<char>, Seq<char>)| #[trigger] before.contains(x) && x.0 != key implies after.contains(x) by {
            let i = choose|i: int| 0 <= i < before.len() && before[i] == x;
            assert(after[i] == x);
        }
    } else {
        let p = choose|p: int| 0 <= p <= before.len() && after == before.insert(p, (key, value));
        assert(after[p] == (key, value));
        assert forall|x: (Seq<char>, Seq<char>)| #[trigger] after.contains(x) implies x == (key, value)
            || (before.contains(x) && x.0 != key) by {
            let i = choose|i: int| 0 <= i < after.len() && after[i] == x;
            if i < p {
                assert(before[i] == x);
            } else if i > p {
                assert(before[i - 1] == x);
            }
        }
        assert forall|x: (Seq<char>, Seq<char>)| #[trigger] before.contains(x) && x.0 != key implies after.contains(x) by {
            let i = choose|i: int| 0 <= i < before.len() && before[i] == x;
            if i < p {
                assert(after[i] == x);
            } else {
                assert(after[i + 1] == x);
            }
        }
    }
}

/// Ordered, validated metadata for one audit event: stable key order,
/// validation at insertion.
#[derive(Clone, Debug, PartialEq, Eq)]
pub struct AuditMetadata {
    entries: Vec<(String, String)>,
}

impl AuditMetadata {
    /// The recorded entries as text pairs, in key order.
    pub closed spec fn spec_entries(&self) -> Seq<(Seq<char>, Seq<char>)> {
        self.entries@.map_values(|e: (String, String)| (e.0@, e.1@))
    }

    /// The metadata invariant: see [`entries_well_formed`].
    pub open spec fn well_formed(&self) -> bool {
        entries_well_formed(self.spec_entries())
    }

    /// Empty metadata.
    pub fn new() -> (metadata: Self)
        ensures
            metadata.well_formed(),
            metadata.spec_entries() == Seq::<(Seq<char>, Seq<char>)>::empty(),
    {
        let metadata = AuditMetadata { entries: Vec::new() };
        proof {
            assert(metadata.spec_entries() =~= Seq::<(Seq<char>, Seq<char>)>::empty());
        }
        metadata
    }

    /// Inserts an entry, failing closed on forbidden or oversized material.
    /// An existing key takes the new value; otherwise the entry lands at its
    /// key-order position.
    ///
    /// # Errors
    ///
    /// Fails on a forbidden key, an oversized value, or too many entries;
    /// a failed insertion leaves the metadata unchanged.
    pub fn insert(&mut self, key: &str, value: &str) -> (result: Result<(), MetadataError>)
        requires
            old(self).well_formed(),
        ensures
            final(self).well_formed(),
            result is Err ==> final(self).spec_entries() == old(self).spec_entries(),
            forbidden_key(key@) ==> (result matches Err(MetadataError::ForbiddenKey { key: k })
                && k@ == key@),
            !forbidden_key(key@) && utf8_len(value@) > MAX_METADATA_VALUE_BYTES ==> (result matches Err(
                MetadataError::ValueTooLarge { key: k, size, limit },
            ) && k@ == key@ && size == utf8_len(value@) && limit == MAX_METADATA_VALUE_BYTES),
            !forbidden_key(key@) && utf8_len(value@) <= MAX_METADATA_VALUE_BYTES && old(
                self,
            ).spec_entries().len() >= MAX_METADATA_ENTRIES ==> result == Err::<(), MetadataError>(
                MetadataError::TooManyEntries { limit: MAX_METADATA_ENTRIES },
            ),
            !forbidden_key(key@) && utf8_len(value@) <= MAX_METADATA_VALUE_BYTES && old(
                self,
            ).spec_entries().len() < MAX_METADATA_ENTRIES ==> result is Ok,
            result is Ok ==> holds_inserted(
                old(self).spec_entries(),
                final(self).spec_entries(),
                key@,
                value@,
            ),
            result is Ok ==> entries_map(final(self).spec_entries()) == entries_map(
                old(self).spec_entries(),
            ).insert(key@, value@),
            result is Ok ==> {
                let before = old(self).spec_entries();
                let after = final(self).spec_entries();
                ||| exists|p: int|
                    0 <= p < before.len() && before[p].0 == key@ && after == before.update(
                        p,
                        (key@, value@),
                    )
                ||| (forall|p: int| 0 <= p < before.len() ==> before[p].0 != key@) && exists|
                    p: int,
                |
                    0 <= p <= before.len() && after == before.insert(p, (key@, value@))
            },
    {
        if is_forbidden_key(key) {
            return Err(MetadataError::ForbiddenKey { key: crate::text::to_owned_string(key) });
        }
        let size = crate::text::byte_len(value);
        if size > MAX_METADATA_VALUE_BYTES {
            return Err(
                MetadataError::ValueTooLarge {
                    key: crate::text::to_owned_string(key),
                    size,
                    limit: MAX_METADATA_VALUE_BYTES,
                },
            );
        }
        if self.entries.len() >= MAX_METADATA_ENTRIES {
            return Err(MetadataError::TooManyEntries { limit: MAX_METADATA_ENTRIES });
        }
        let ghost before = self.spec_entries();
        let len = self.entries.len();
        let mut pos: usize = 0;
        let mut order = TextOrder::Greater;
        loop
            invariant_except_break
                len == self.entries@.len(),
                before == self.spec_entries(),
                entries_well_formed(before),
                pos <= len,
                forall|j: int| 0 <= j < pos ==> lex_lt(#[trigger] before[j].0, key@),
            ensures
                len == self.entries@.len(),
                before == self.spec_entries(),
                entries_well_formed(before),
                pos <= len,
                forall|j: int| 0 <= j < pos ==> lex_lt(#[trigger] before[j].0, key@),
                pos < len ==> order == crate::text::spec_compare(before[pos as int].0, key@)
                    && order != TextOrder::Less,
            decreases len - pos,
        {
            if pos >= len {
                break;
            }
            order = crate::text::compare(self.entries[pos].0.as_str(), key);
            proof {
                assert(before[pos as int].0 == self.entries@[pos as int].0@);
            }
            if order != TextOrder::Less {
                break;
            }
            pos = pos + 1;
        }
        let ghost at = pos as int;
        proof {
            assert forall|j: int| 0 <= j < at implies lex_lt(#[trigger] before[j].0, key@) by {}
            if at < before.len() {
                if order == TextOrder::Equal {
                    crate::text::lemma_lex_irreflexive(key@);
                } else {
                    crate::text::lemma_lex_total(before[at].0, key@);
                    assert(lex_lt(key@, before[at].0));
                }
                assert(!lex_lt(before[at].0, key@));
                assert forall|j: int| at < j < before.len() implies lex_lt(
                    key@,
                    #[trigger] before[j].0,
                ) by {
                    assert(lex_lt(before[at].0, before[j].0));
                    crate::text::lemma_lex_total(before[at].0, key@);
                    if before[at].0 != key@ {
                        crate::text::lemma_lex_transitive(key@, before[at].0, before[j].0);
                    }
                }
            }
        }
        if pos < len && order == TextOrder::Equal {
            self.entries.set(
                pos,
                (crate::text::to_owned_string(key), crate::text::to_owned_string(value)),
            );
            proof {
                let after = self.spec_entries();
                assert(after =~= before.update(at, (key@, value@)));
                assert forall|i: int, j: int|
                    0 <= i < j < after.len() implies lex_lt(
                    #[trigger] after[i].0,
                    #[trigger] after[j].0,
                ) by {
                    if i == at {
                        assert(lex_lt(before[i].0, before[j].0));
                    }
                    if j == at {
                        assert(lex_lt(before[i].0, before[j].0));
                    }
                }
                assert(forbidden_key(after[at].0) == forbidden_key(key@));
            }
        } else {
            self.entries.insert(
                pos,
                (crate::text::to_owned_string(key), crate::text::to_owned_string(value)),
            );
            proof {
                let after = self.spec_entries();
                assert(after =~= before.insert(at, (key@, value@)));
                assert forall|p: int| 0 <= p < before.len() implies before[p].0 != key@ by {
                    if p < at {
                        assert(lex_lt(before[p].0, key@));
                        crate::text::lemma_lex_irreflexive(key@);
                    } else if p == at {
                        assert(order != TextOrder::Equal);
                    } else {
                        assert(lex_lt(key@, before[p].0));
                        crate::text::lemma_lex_irreflexive(key@);
                    }
                }
                assert forall|i: int, j: int|
                    0 <= i < j < after.len() implies lex_lt(
                    #[trigger] after[i].0,
                    #[trigger] after[j].0,
                ) by {
                    if j < at {
                        assert(lex_lt(before[i].0, before[j].0));
                    } else if j == at {
                        assert(lex_lt(before[i].0, key@));
                    } else if i < at {
                        assert(lex_lt(before[i].0, before[j - 1].0));
                    } else if i == at {
                        assert(lex_lt(key@, before[j - 1].0));
                    } else {
                        assert(lex_lt(before[i - 1].0, before[j - 1].0));
                    }
                }
                assert forall|i: int| 0 <= i < after.len() implies !forbidden_key(
                    #[trigger] after[i].0,
                ) by {
                    if i < at {
                        assert(after[i] == before[i]);
                    } else if i > at {
                        assert(after[i] == before[i - 1]);
                    }
                }
            }
        }
        proof {
            lemma_insert_effect(before, self.spec_entries(), key@, value@);
            lemma_insert_sets_key(before, self.spec_entries(), key@, value@);
        }
        Ok(())
    }

    /// The validated entries, in stable key order.
    pub fn entries(&self) -> (entries: Vec<(String, String)>)
        ensures
            entries@.map_values(|e: (String, String)| (e.0@, e.1@)) == self.spec_entries(),
    {
        let mut out: Vec<(String, String)> = Vec::new();
        let mut i: usize = 0;
        while i < self.entries.len()
            invariant
                i <= self.entries@.len(),
                out@.map_values(|e: (String, String)| (e.0@, e.1@))
                    == self.spec_entries().subrange(0, i as int),
            decreases self.entries@.len() - i,
        {
            let k = self.entries[i].0.clone();
            let v = self.entries[i].1.clone();
            let ghost old_out = out@;
            out.push((k, v));
            proof {
                assert(out@ == old_out.push((k, v)));
                assert(out@.map_values(|e: (String, String)| (e.0@, e.1@)) =~= old_out.map_values(
                    |e: (String, String)| (e.0@, e.1@),
                ).push((k@, v@)));
                assert(self.spec_entries()[i as int] == (k@, v@));
                assert(out@.map_values(|e: (String, String)| (e.0@, e.1@))
                    =~= self.spec_entries().subrange(0, i + 1));
            }
            i = i + 1;
        }
        proof {
            assert(self.spec_entries().subrange(0, i as int) =~= self.spec_entries());
        }
        out
    }

    /// Whether nothing was recorded.
    pub fn is_empty(&self) -> (empty: bool)
        ensures
            empty == (self.spec_entries().len() == 0),
    {
        self.entries.len() == 0
    }

    /// The canonical JSON serialization stored in the event: the entries as
    /// one object, in key order.
    pub fn to_json(&self) -> (json: String)
        ensures
            json@ == json_string_object(self.spec_entries()),
    {
        string_object_json(&self.entries)
    }
}

impl Default for AuditMetadata {
    fn default() -> (metadata: Self)
        ensures
            metadata.well_formed(),
            metadata.spec_entries() == Seq::<(Seq<char>, Seq<char>)>::empty(),
    {
        AuditMetadata::new()
    }
}

/// Metadata never holds a forbidden key, never more entries than the bound,
/// and keeps its keys unique and in key order, whatever sequence of
/// insertions built it.
pub proof fn law_metadata_never_holds_forbidden_material(metadata: AuditMetadata, i: int, j: int)
    requires
        metadata.well_formed(),
        0 <= i < metadata.spec_entries().len(),
        0 <= j < metadata.spec_entries().len(),
        i != j,
    ensures
        !forbidden_key(metadata.spec_entries()[i].0),
        metadata.spec_entries().len() <= MAX_METADATA_ENTRIES,
        metadata.spec_entries()[i].0 != metadata.spec_entries()[j].0,
{
    let es = metadata.spec_entries();
    if i < j {
        assert(lex_lt(es[i].0, es[j].0));
        crate::text::lemma_lex_irreflexive(es[i].0);
    } else {
        assert(lex_lt(es[j].0, es[i].0));
        crate::text::lemma_lex_irreflexive(es[j].0);
    }
}

/// The entries as a map from each key to its value.
pub open spec fn entries_map(entries: Seq<(Seq<char>, Seq<char>)>) -> Map<Seq<char>, Seq<char>> {
    Map::new(
        |k: Seq<char>| exists|i: int| 0 <= i < entries.len() && entries[i].0 == k,
        |k: Seq<char>| entries[key_position(entries, k)].1,
    )
}

/// A position at which the entries hold a key, when they hold it.
pub open spec fn key_position(entries: Seq<(Seq<char>, Seq<char>)>, k: Seq<char>) -> int {
    choose|i: int| 0 <= i < entries.len() && entries[i].0 == k
}

/// What a run of insertions records: each accepted insertion sets its key
/// to its value, over what the earlier ones recorded; a refused one changes
/// nothing.
pub open spec fn recorded(inserts: Seq<(Seq<char>, Seq<char>)>, accepted: Seq<bool>) -> Map<
    Seq<char>,
    Seq<char>,
>
    decreases inserts.len(),
{
    if inserts.len() == 0 {
        Map::empty()
    } else if accepted.len() > 0 && accepted.last() {
        recorded(inserts.drop_last(), accepted.drop_last()).insert(
            inserts.last().0,
            inserts.last().1,
        )
    } else {
        recorded(inserts.drop_last(), accepted.drop_last())
    }
}

/// Keys are unique in well-formed entries.
proof fn lemma_unique_keys(entries: Seq<(Seq<char>, Seq<char>)>, i: int, j: int)
    requires
        entries_well_formed(entries),
        0 <= i < entries.len(),
        0 <= j < entries.len(),
        entries[i].0 == entries[j].0,
    ensures
        i == j,
{
    if i < j {
        assert(lex_lt(entries[i].0, entries[j].0));
        crate::text::lemma_lex_irreflexive(entries[i].0);
    } else if j < i {
        assert(lex_lt(entries[j].0, entries[i].0));
        crate::text::lemma_lex_irreflexive(entries[j].0);
    }
}

/// The value that well-formed entries give a key they hold.
proof fn lemma_entries_map_at(entries: Seq<(Seq<char>, Seq<char>)>, i: int)
    requires
        entries_well_formed(entries),
        0 <= i < entries.len(),
    ensures
        entries_map(entries).contains_key(entries[i].0),
        entries_map(entries)[entries[i].0] == entries[i].1,
{
    let k = entries[i].0;
    assert(entries_map(entries).contains_key(k));
    let j = key_position(entries, k);
    lemma_unique_keys(entries, i, j);
}

/// One accepted insertion sets its key to its value in the map of entries
/// and leaves every other key as it was.
proof fn lemma_insert_sets_key(
    before: Seq<(Seq<char>, Seq<char>)>,
    after: Seq<(Seq<char>, Seq<char>)>,
    key: Seq<char>,
    value: Seq<char>,
)
    requires
        entries_well_formed(before),
        entries_well_formed(after),
        holds_inserted(before, after, key, value),
    ensures
        entries_map(after) == entries_map(before).insert(key, value),
{
    let m = entries_map(after);
    let n = entries_map(before).insert(key, value);
    assert forall|k: Seq<char>| #[trigger] m.contains_key(k) <==> n.contains_key(k) by {
        if m.contains_key(k) && k != key {
            let j = choose|j: int| 0 <= j < after.len() && after[j].0 == k;
            assert(after.contains(after[j]));
            let i = choose|i: int| 0 <= i < before.len() && before[i] == after[j];
            assert(before[i].0 == k);
        }
        if n.contains_key(k) && k != key {
            let i = choose|i: int| 0 <= i < before.len() && before[i].0 == k;
            assert(before.contains(before[i]));
            let j = choose|j: int| 0 <= j < after.len() && after[j] == before[i];
            assert(after[j].0 == k);
        }
        if k == key {
            let j = choose|j: int| 0 <= j < after.len() && after[j] == (key, value);
            assert(after[j].0 == k);
        }
    }
    assert forall|k: Seq<char>| #[trigger] m.contains_key(k) implies m[k] == n[k] by {
        if k == key {
            let j = choose|j: int| 0 <= j < after.len() && after[j] == (key, value);
            lemma_entries_map_at(after, j);
        } else {
            let j = choose|j: int| 0 <= j < after.len() && after[j].0 == k;
            lemma_entries_map_at(after, j);
            assert(after.contains(after[j]));
            let i = choose|i: int| 0 <= i < before.len() && before[i] == after[j];
            lemma_entries_map_at(before, i);
        }
    }
    assert(m =~= n);
}

/// Whatever run of insertions builds metadata from nothing, its entries
/// hold each key that an accepted insertion named exactly once, with the
/// value of the latest accepted insertion of that key, in strictly
/// increasing key order, and nothing else; they are empty exactly when no
/// insertion was accepted. Each step is what `insert` guarantees: an
/// accepted insertion holds its entry and keeps the others, a refused one
/// changes nothing.
pub proof fn law_metadata_keeps_the_latest_value_of_each_key(
    states: Seq<AuditMetadata>,
    inserts: Seq<(Seq<char>, Seq<char>)>,
    accepted: Seq<bool>,
)
    requires
        states.len() == inserts.len() + 1,
        accepted.len() == inserts.len(),
        states[0].spec_entries() == Seq::<(Seq<char>, Seq<char>)>::empty(),
        forall|i: int| 0 <= i < states.len() ==> #[trigger] states[i].well_formed(),
        forall|i: int|
            0 <= i < inserts.len() ==> (if #[trigger] accepted[i] {
                holds_inserted(
                    states[i].spec_entries(),
                    states[i + 1].spec_entries(),
                    inserts[i].0,
                    inserts[i].1,
                )
            } else {
                states[i + 1].spec_entries() == states[i].spec_entries()
            }),
    ensures
        entries_map(states.last().spec_entries()) == recorded(inserts, accepted),
        forall|i: int, j: int|
            0 <= i < j < states.last().spec_entries().len() ==> lex_lt(
                #[trigger] states.last().spec_entries()[i].0,
                #[trigger] states.last().spec_entries()[j].0,
            ),
        states.last().spec_entries().len() == 0 <==> forall|i: int|
            0 <= i < accepted.len() ==> !#[trigger] accepted[i],
    decreases inserts.len(),
{
    let last = states.last().spec_entries();
    if inserts.len() == 0 {
        assert(entries_map(last) =~= Map::<Seq<char>, Seq<char>>::empty());
    } else {
        let n = inserts.len() - 1;
        let shorter = states.drop_last();
        assert forall|i: int| 0 <= i < shorter.len() implies #[trigger] shorter[i].well_formed() by {
            assert(shorter[i] == states[i]);
        }
        assert forall|i: int| 0 <= i < inserts.drop_last().len() implies (if #[trigger] accepted.drop_last()[i] {
            holds_inserted(
                shorter[i].spec_entries(),
                shorter[i + 1].spec_entries(),
                inserts.drop_last()[i].0,
                inserts.drop_last()[i].1,
            )
        } else {
            shorter[i + 1].spec_entries() == shorter[i].spec_entries()
        }) by {
            assert(accepted.drop_last()[i] == accepted[i]);
            assert(inserts.drop_last()[i] == inserts[i]);
            assert(shorter[i] == states[i] && shorter[i + 1] == states[i + 1]);
        }
        law_metadata_keeps_the_latest_value_of_each_key(shorter, inserts.drop_last(), accepted.drop_last());
        let prev = states[n].spec_entries();
        assert(shorter.last() == states[n]);
        assert(states.last() == states[n + 1]);
        assert(states[n].well_formed() && states[n + 1].well_formed());
        assert(accepted.last() == accepted[n] && inserts.last() == inserts[n]);
        if accepted[n] {
            lemma_insert_sets_key(prev, last, inserts[n].0, inserts[n].1);
            let j = choose|j: int| 0 <= j < last.len() && last[j] == (inserts[n].0, inserts[n].1);
            assert(last.len() > 0);
        } else {
            assert forall|i: int| 0 <= i < accepted.len() implies !#[trigger] accepted[i] <==> (
            i == n || !accepted.drop_last()[i]) by {
                if i < n {
                    assert(accepted.drop_last()[i] == accepted[i]);
                }
            }
        }
        if last.len() == 0 {
            assert forall|i: int| 0 <= i < accepted.len() implies !#[trigger] accepted[i] by {
                if i < n {
                    assert(accepted.drop_last()[i] == accepted[i]);
                }
            }
        }
        if forall|i: int| 0 <= i < accepted.len() ==> !#[trigger] accepted[i] {
            assert forall|i: int| 0 <= i < accepted.drop_last().len() implies !#[trigger] accepted.drop_last()[i] by {
                assert(accepted.drop_last()[i] == accepted[i]);
            }
            assert(!accepted[n]);
        }
    }
}

/// The terminal result of an accepted action, appended separately from its
/// intent.
#[derive(Clone, Copy, Debug, PartialEq, Eq, Structural)]
pub enum AuditOutcome {
    /// The action completed successfully.
    Succeeded,
    /// The action failed.
    Failed,
    /// The action was cancelled before completing.
    Cancelled,
}

impl AuditOutcome {
    /// The stable outcome id.
    pub open spec fn spec_id(self) -> Seq<char> {
        match self {
            AuditOutcome::Succeeded => "succeeded"@,
            AuditOutcome::Failed => "failed"@,
            AuditOutcome::Cancelled => "cancelled"@,
        }
    }

    /// The stable outcome id recorded in the event.
    pub fn id(self) -> (id: &'static str)
        ensures
            id@ == self.spec_id(),
    {
        match self {
            AuditOutcome::Succeeded => "succeeded",
            AuditOutcome::Failed => "failed",
            AuditOutcome::Cancelled => "cancelled",
        }
    }
}

/// The intent record: who is about to do what, with which authorization, in
/// which correlation context.
#[derive(Clone, Debug)]
pub struct AuditIntent {
    /// The acting principal's stable id.
    pub actor: String,
    /// The catalog action id.
    pub action: String,
    /// The named resource, when the action has one.
    pub resource: Option<String>,
    /// The authorization decision that accepted (or refused) the request.
    pub decision: Decision,
    /// The correlation identity joining this event to the caller's flow.
    pub correlation_id: Option<String>,
    /// The durable operation this event belongs to, when one exists.
    pub operation_id: Option<String>,
    /// Validated metadata.
    pub metadata: AuditMetadata,
}

/// The stored audit event, as read back by queries.
#[derive(Clone, Debug)]
pub struct AuditEvent {
    /// Append-only position of the event within the ledger.
    pub seq: i64,
    /// The event's identity.
    pub id: String,
    /// When the event was appended (epoch milliseconds).
    pub occurred_at: i64,
    /// The acting principal.
    pub actor: String,
    /// The action id.
    pub action: String,
    /// The named resource, when any.
    pub resource: Option<String>,
    /// Whether the request was allowed.
    pub allowed: bool,
    /// The decision's stable reason.
    pub reason: String,
    /// The correlation identity, when supplied.
    pub correlation_id: Option<String>,
    /// The durable operation this event belongs to, when any.
    pub operation_id: Option<String>,
    /// The terminal outcome, when it has been appended.
    pub outcome: Option<AuditOutcome>,
    /// The validated metadata as canonical JSON.
    pub metadata_json: String,
}

/// The metadata fact an event carries besides its name, as text.
pub open spec fn fact_view(fact: Option<(&str, &str)>) -> Option<(Seq<char>, Seq<char>)> {
    match fact {
        Some((k, v)) => Some((k@, v@)),
        None => None,
    }
}

/// Whether an event's metadata can be recorded: the event name fits the
/// value bound, and so does the fact, under a key that is not forbidden.
pub open spec fn event_metadata_ok(event: Seq<char>, fact: Option<(Seq<char>, Seq<char>)>) -> bool {
    &&& !forbidden_key("event"@)
    &&& utf8_len(event) <= MAX_METADATA_VALUE_BYTES
    &&& fact matches Some((k, v)) ==> !forbidden_key(k) && utf8_len(v) <= MAX_METADATA_VALUE_BYTES
}

/// Why an event's metadata is refused: the event name's entry first, then
/// the fact's.
pub open spec fn event_refusal(event: Seq<char>, fact: Option<(Seq<char>, Seq<char>)>) -> Seq<
    char,
> {
    if forbidden_key("event"@) || utf8_len(event) > MAX_METADATA_VALUE_BYTES {
        entry_refusal("event"@, event)
    } else {
        match fact {
            Some((k, v)) => entry_refusal(k, v),
            None => Seq::empty(),
        }
    }
}

/// Whether an intent records an allowed action of a principal on a
/// resource, outside any correlation or operation, with the event name and
/// the fact (which wins under the key `event`) as its only metadata.
pub open spec fn describes_event(
    intent: AuditIntent,
    principal_id: Seq<char>,
    action: crate::authz::Permission,
    resource: Option<Seq<char>>,
    event: Seq<char>,
    fact: Option<(Seq<char>, Seq<char>)>,
) -> bool {
    let entries = intent.metadata.spec_entries();
    &&& intent.actor@ == principal_id
    &&& intent.action@ == action.spec_id()
    &&& crate::operation::opt_view(intent.resource) == resource
    &&& intent.decision == Decision::spec_allow()
    &&& intent.correlation_id is None
    &&& intent.operation_id is None
    &&& intent.metadata.well_formed()
    &&& match fact {
        None => entries == seq![("event"@, event)],
        Some((k, v)) => if k == "event"@ {
            entries == seq![(k, v)]
        } else {
            entries.len() == 2 && entries.contains(("event"@, event)) && entries.contains((k, v))
        },
    }
}

/// The intent of an allowed action: the principal, the action and its
/// resource, and metadata holding the event name and, when given, one fact.
///
/// # Errors
///
/// Fails when the metadata refuses an entry (see [`event_metadata_ok`]).
pub fn event_intent(
    principal_id: &str,
    action: crate::authz::Permission,
    resource: Option<&str>,
    event: &str,
    fact: Option<(&str, &str)>,
) -> (intent: Result<AuditIntent, MetadataError>)
    ensures
        intent is Ok <==> event_metadata_ok(event@, fact_view(fact)),
        intent matches Ok(i) ==> describes_event(
            i,
            principal_id@,
            action,
            match resource {
                Some(r) => Some(r@),
                None => None,
            },
            event@,
            fact_view(fact),
        ),
        intent matches Err(e) ==> e.spec_message() == event_refusal(event@, fact_view(fact)),
{
    let mut metadata = AuditMetadata::new();
    match metadata.insert("event", event) {
        Ok(()) => {},
        Err(error) => {
            return Err(error);
        },
    }
    proof {
        assert(metadata.spec_entries() =~= seq![("event"@, event@)]);
    }
    match fact {
        Some((key, value)) => {
            let ghost before = metadata.spec_entries();
            match metadata.insert(key, value) {
                Ok(()) => {},
                Err(error) => {
                    return Err(error);
                },
            }
            proof {
                let after = metadata.spec_entries();
                if key@ == "event"@ {
                    assert(before[0].0 == key@);
                    assert(after =~= seq![(key@, value@)]);
                } else {
                    let p = choose|p: int| 0 <= p <= before.len() && after == before.insert(p, (key@, value@));
                    assert(after[p] == (key@, value@));
                    if p == 0 {
                        assert(after[1] == before[0]);
                    } else {
                        assert(after[0] == before[0]);
                    }
                }
            }
        },
        None => {},
    }
    Ok(
        AuditIntent {
            actor: crate::text::to_owned_string(principal_id),
            action: crate::text::to_owned_string(action.id()),
            resource: match resource {
                Some(r) => Some(crate::text::to_owned_string(r)),
                None => None,
            },
            decision: Decision::allow(),
            correlation_id: None,
            operation_id: None,
            metadata,
        },
    )
}

/// The intent of an allowed action whose metadata holds at most one fact:
/// the principal, the action and its resource, and the fact when given.
///
/// # Errors
///
/// Fails when the metadata refuses the fact: a forbidden key or an
/// oversized value.
pub fn fact_intent(
    principal_id: &str,
    action: crate::authz::Permission,
    resource: Option<&str>,
    fact: Option<(&str, &str)>,
) -> (intent: Result<AuditIntent, MetadataError>)
    ensures
        intent is Ok <==> (fact matches Some((k, v)) ==> !forbidden_key(k@) && utf8_len(v@)
            <= MAX_METADATA_VALUE_BYTES),
        intent matches Ok(i) ==> {
            &&& i.actor@ == principal_id@
            &&& i.action@ == action.spec_id()
            &&& crate::operation::opt_view(i.resource) == match resource {
                Some(r) => Some(r@),
                None => None,
            }
            &&& i.decision == Decision::spec_allow()
            &&& i.correlation_id is None
            &&& i.operation_id is None
            &&& i.metadata.well_formed()
            &&& i.metadata.spec_entries() == match fact_view(fact) {
                Some(entry) => seq![entry],
                None => Seq::empty(),
            }
        },
        intent matches Err(e) ==> fact matches Some((k, v)) && e.spec_message() == entry_refusal(
            k@,
            v@,
        ),
{
    let mut metadata = AuditMetadata::new();
    match fact {
        Some((key, value)) => {
            match metadata.insert(key, value) {
                Ok(()) => {},
                Err(error) => {
                    return Err(error);
                },
            }
            proof {
                assert(metadata.spec_entries() =~= seq![(key@, value@)]);
            }
        },
        None => {},
    }
    Ok(
        AuditIntent {
            actor: crate::text::to_owned_string(principal_id),
            action: crate::text::to_owned_string(action.id()),
            resource: match resource {
                Some(r) => Some(crate::text::to_owned_string(r)),
                None => None,
            },
            decision: Decision::allow(),
            correlation_id: None,
            operation_id: None,
            metadata,
        },
    )
}

} // verus!
