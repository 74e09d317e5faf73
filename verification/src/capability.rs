//! Capability facts: what a probe observed about a machine, with the time it
//! observed it and what observed it.
//!
//! A recorded `known` fact ages into `stale` in the read model once nothing
//! has re-observed it for longer than the freshness threshold; `unknown` and
//! `unavailable` are what the machine reported and never age.

use vstd::prelude::*;

use crate::difference::opt_text;

verus! {

/// The status of one capability fact.
#[derive(Clone, Copy, Debug, PartialEq, Eq, Structural)]
pub enum CapabilityStatus {
    /// The probe observed the capability.
    Known,
    /// The probe could not tell.
    Unknown,
    /// The capability is reported absent or unreachable.
    Unavailable,
    /// A known fact that nothing re-observed within the freshness threshold.
    Stale,
}

impl CapabilityStatus {
    /// The stable status id.
    pub open spec fn spec_id(self) -> Seq<char> {
        match self {
            CapabilityStatus::Known => "known"@,
            CapabilityStatus::Unknown => "unknown"@,
            CapabilityStatus::Unavailable => "unavailable"@,
            CapabilityStatus::Stale => "stale"@,
        }
    }

    /// The stable status id.
    pub fn id(self) -> (id: &'static str)
        ensures
            id@ == self.spec_id(),
    {
        match self {
            CapabilityStatus::Known => "known",
            CapabilityStatus::Unknown => "unknown",
            CapabilityStatus::Unavailable => "unavailable",
            CapabilityStatus::Stale => "stale",
        }
    }
}

/// One observed capability fact.
#[derive(Clone, Debug, PartialEq, Eq)]
pub struct CapabilityFact {
    /// The namespace, e.g. `os`, `tool`, `tool-version`.
    pub namespace: String,
    /// The capability name within the namespace, e.g. `git`.
    pub name: String,
    /// The observed value, when the capability has one.
    pub value: Option<String>,
    /// The recorded status.
    pub status: CapabilityStatus,
    /// When the fact was observed (epoch milliseconds).
    pub observed_at: i64,
    /// What observed it, e.g. `agentless/1`.
    pub source: String,
}

/// The mathematical value of a capability fact.
pub struct FactSpec {
    /// The namespace.
    pub namespace: Seq<char>,
    /// The name.
    pub name: Seq<char>,
    /// The value.
    pub value: Option<Seq<char>>,
    /// The recorded status.
    pub status: CapabilityStatus,
    /// The observation time.
    pub observed_at: i64,
    /// The source.
    pub source: Seq<char>,
}

impl View for CapabilityFact {
    type V = FactSpec;

    open spec fn view(&self) -> FactSpec {
        FactSpec {
            namespace: self.namespace@,
            name: self.name@,
            value: opt_text(self.value),
            status: self.status,
            observed_at: self.observed_at,
            source: self.source@,
        }
    }
}

/// The status a fact displays at a read time: a `known` fact observed more
/// than `freshness` milliseconds before `now` is `stale`; every other status
/// is displayed as recorded.
pub open spec fn spec_effective_status(
    status: CapabilityStatus,
    observed_at: i64,
    now: i64,
    freshness: i64,
) -> CapabilityStatus {
    if status == CapabilityStatus::Known && now - observed_at > freshness {
        CapabilityStatus::Stale
    } else {
        status
    }
}

impl CapabilityFact {
    /// The status this fact displays at `now` (see [`spec_effective_status`]).
    pub fn effective_status(&self, now: i64, freshness: i64) -> (status: CapabilityStatus)
        ensures
            status == spec_effective_status(self.status, self.observed_at, now, freshness),
    {
        match self.status {
            CapabilityStatus::Known => {
                let age: i128 = now as i128 - self.observed_at as i128;
                if age > freshness as i128 {
                    CapabilityStatus::Stale
                } else {
                    CapabilityStatus::Known
                }
            },
            other => other,
        }
    }
}

} // verus!
