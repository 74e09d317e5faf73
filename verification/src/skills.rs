//! Skills Manager observations: freshness, and the scan that fills one
//! authorized page of the fleet skill matrix.
//!
//! The matrix page is filled with rows the caller may see. The internal
//! scan cursor advances over hidden rows too, but the cursor handed back to
//! the caller names only the last row it was shown, so hidden machine ids
//! never leak through paging.

use vstd::prelude::*;

use crate::authz::Decision;
use crate::text::{compare, lex_lt, to_owned_string, TextOrder};

verus! {

/// How long a Skills Manager observation remains fresh.
pub const SKILLS_FRESHNESS_MS: i64 = 24 * 60 * 60 * 1000;

/// Maximum number of machine observations in one skills matrix page.
pub const MAX_SKILLS_MATRIX_PAGE: u32 = 200;

/// Availability of the supported Skills Manager contract on a machine.
#[derive(Clone, Copy, Debug, PartialEq, Eq, Structural)]
pub enum SkillsAvailability {
    /// A supported CLI answered the read contract.
    Available,
    /// No CLI is installed.
    Absent,
    /// The CLI is present but its version or response is unsupported.
    Unsupported,
}

/// A skills read failure.
#[derive(Debug)]
pub enum SkillsError {
    /// The caller is not allowed to read this machine's skill topology.
    Denied(Decision),
    /// The snapshot backend failed.
    Backend,
}

/// Whether an observation made at `observed_at` is stale at `now`: older
/// than the freshness window.
pub open spec fn spec_is_stale(now: i64, observed_at: i64) -> bool {
    now - observed_at > SKILLS_FRESHNESS_MS
}

/// Whether an observation is stale. The age saturates, so a clock far in
/// the past or future cannot wrap an old observation into a fresh one.
pub fn is_stale(now: i64, observed_at: i64) -> (stale: bool)
    ensures
        stale == spec_is_stale(now, observed_at),
{
    let age = now as i128 - observed_at as i128;
    age > SKILLS_FRESHNESS_MS as i128
}

/// The page size a matrix request gets: the requested size, clamped to
/// 1 ..= [`MAX_SKILLS_MATRIX_PAGE`].
pub open spec fn spec_page_limit(limit: u32) -> u32 {
    if limit < 1 {
        1
    } else if limit > MAX_SKILLS_MATRIX_PAGE {
        MAX_SKILLS_MATRIX_PAGE
    } else {
        limit
    }
}

/// What the scan did with one authorized-or-not row.
#[derive(Clone, Copy, Debug, PartialEq, Eq, Structural)]
pub enum RowVerdict {
    /// The row is shown on the page.
    Shown,
    /// The caller may not see the row; the scan moves past it.
    Hidden,
    /// The page is already full and another visible row exists: the page
    /// is complete and has a successor.
    PageFull,
}

/// The state of one matrix page scan.
#[derive(Clone, Debug)]
pub struct MatrixScan {
    limit: u32,
    cursor: Option<String>,
    shown: usize,
    last_shown: Option<String>,
    has_more: bool,
}

impl MatrixScan {
    /// The clamped page size.
    pub closed spec fn spec_limit(&self) -> u32 {
        self.limit
    }

    /// The internal scan cursor: the last machine id the scan passed.
    pub closed spec fn spec_cursor(&self) -> Option<Seq<char>> {
        crate::operation::opt_view(self.cursor)
    }

    /// How many rows are shown on the page so far.
    pub closed spec fn spec_shown(&self) -> nat {
        self.shown as nat
    }

    /// The machine id of the last row shown, when any.
    pub closed spec fn spec_last_shown(&self) -> Option<Seq<char>> {
        crate::operation::opt_view(self.last_shown)
    }

    /// Whether the page is full and a further visible row exists.
    pub closed spec fn spec_has_more(&self) -> bool {
        self.has_more
    }

    /// The scan invariant: the page holds at most its limit; a successor
    /// exists only for a full page; the last shown row is at or before the
    /// scan cursor.
    pub open spec fn well_formed(&self) -> bool {
        &&& 1 <= self.spec_limit() <= MAX_SKILLS_MATRIX_PAGE
        &&& self.spec_shown() <= self.spec_limit()
        &&& self.spec_has_more() ==> self.spec_shown() == self.spec_limit()
        &&& (self.spec_shown() > 0 <==> self.spec_last_shown() is Some)
        &&& self.spec_last_shown() matches Some(l) ==> (self.spec_cursor() matches Some(c) && (l
            == c || lex_lt(l, c)))
    }

    /// A scan starting after `after_machine_id` (from the beginning when
    /// absent) for a page of the clamped `limit`.
    pub fn new(after_machine_id: Option<&str>, limit: u32) -> (scan: Self)
        ensures
            scan.well_formed(),
            scan.spec_limit() == spec_page_limit(limit),
            scan.spec_cursor() == crate::lab::opt_str_view(after_machine_id),
            scan.spec_shown() == 0,
            !scan.spec_has_more(),
    {
        let clamped = if limit < 1 {
            1
        } else if limit > MAX_SKILLS_MATRIX_PAGE {
            MAX_SKILLS_MATRIX_PAGE
        } else {
            limit
        };
        MatrixScan {
            limit: clamped,
            cursor: match after_machine_id {
                Some(id) => Some(to_owned_string(id)),
                None => None,
            },
            shown: 0,
            last_shown: None,
            has_more: false,
        }
    }

    /// The clamped page size.
    pub fn limit(&self) -> (limit: u32)
        ensures
            limit == self.spec_limit(),
    {
        self.limit
    }

    /// How many rows to fetch per batch: one more than the page, so a full
    /// batch tells the scan that more rows may follow.
    pub fn fetch_limit(&self) -> (fetch: u32)
        requires
            self.well_formed(),
        ensures
            fetch == self.spec_limit() + 1,
    {
        self.limit + 1
    }

    /// The scan cursor to fetch after.
    pub fn cursor(&self) -> (cursor: Option<&str>)
        ensures
            crate::lab::opt_str_view(cursor) == self.spec_cursor(),
    {
        match &self.cursor {
            Some(c) => Some(c.as_str()),
            None => None,
        }
    }

    /// Moves the scan cursor onto the next fetched row. The backend must
    /// answer in strictly ascending id order after the cursor; a row at or
    /// before it is a backend failure.
    pub fn advance(&mut self, machine_id: &str) -> (advanced: Result<(), SkillsError>)
        requires
            old(self).well_formed(),
        ensures
            final(self).well_formed(),
            advanced is Ok <==> (old(self).spec_cursor() matches Some(c) ==> lex_lt(c, machine_id@)),
            advanced is Err ==> (advanced matches Err(SkillsError::Backend)) && *final(self) == *old(
                self,
            ),
            advanced is Ok ==> final(self).spec_cursor() == Some(machine_id@),
            final(self).spec_limit() == old(self).spec_limit(),
            final(self).spec_shown() == old(self).spec_shown(),
            final(self).spec_last_shown() == old(self).spec_last_shown(),
            final(self).spec_has_more() == old(self).spec_has_more(),
    {
        match &self.cursor {
            Some(c) => {
                match compare(machine_id, c.as_str()) {
                    TextOrder::Greater => {},
                    _ => {
                        proof {
                            crate::text::lemma_lex_irreflexive(c@);
                            if lex_lt(machine_id@, c@) {
                                crate::text::lemma_lex_asymmetric(machine_id@, c@);
                            }
                        }
                        return Err(SkillsError::Backend);
                    },
                }
            },
            None => {},
        }
        proof {
            if let Some(l) = self.spec_last_shown() {
                let c = self.spec_cursor().unwrap();
                if l != c {
                    crate::text::lemma_lex_transitive(l, c, machine_id@);
                }
            }
        }
        self.cursor = Some(to_owned_string(machine_id));
        Ok(())
    }

    /// Takes the row the cursor stands on, given whether the caller may
    /// see it: a visible row is shown while the page has room; a visible row
    /// past a full page completes the page with a successor; a hidden row is
    /// passed over.
    pub fn take_row(&mut self, allowed: bool) -> (verdict: RowVerdict)
        requires
            old(self).well_formed(),
            !old(self).spec_has_more(),
            old(self).spec_cursor() is Some,
        ensures
            final(self).well_formed(),
            final(self).spec_limit() == old(self).spec_limit(),
            final(self).spec_cursor() == old(self).spec_cursor(),
            !allowed ==> verdict == RowVerdict::Hidden && *final(self) == *old(self),
            allowed && old(self).spec_shown() < old(self).spec_limit() ==> {
                &&& verdict == RowVerdict::Shown
                &&& final(self).spec_shown() == old(self).spec_shown() + 1
                &&& final(self).spec_last_shown() == old(self).spec_cursor()
                &&& !final(self).spec_has_more()
            },
            allowed && old(self).spec_shown() == old(self).spec_limit() ==> {
                &&& verdict == RowVerdict::PageFull
                &&& final(self).spec_shown() == old(self).spec_shown()
                &&& final(self).spec_last_shown() == old(self).spec_last_shown()
                &&& final(self).spec_has_more()
            },
    {
        if !allowed {
            return RowVerdict::Hidden;
        }
        if self.shown == self.limit as usize {
            self.has_more = true;
            return RowVerdict::PageFull;
        }
        self.shown = self.shown + 1;
        self.last_shown = match &self.cursor {
            Some(c) => Some(c.clone()),
            None => None,
        };
        RowVerdict::Shown
    }

    /// Whether the scan stops after a batch of `count` rows: the page found
    /// its successor, or the backend ran out of rows.
    pub fn stops_after(&self, count: usize) -> (stop: bool)
        requires
            self.well_formed(),
        ensures
            stop == (self.spec_has_more() || count < self.spec_limit() + 1),
    {
        self.has_more || count < self.limit as usize + 1
    }

    /// The cursor handed back to the caller: the last shown row's id, and
    /// only when the page has a successor.
    pub fn next_cursor(&self) -> (next: Option<String>)
        requires
            self.well_formed(),
        ensures
            crate::operation::opt_view(next) == if self.spec_has_more() {
                self.spec_last_shown()
            } else {
                None
            },
            self.spec_has_more() ==> next is Some,
    {
        if self.has_more {
            match &self.last_shown {
                Some(l) => Some(l.clone()),
                None => None,
            }
        } else {
            None
        }
    }
}

} // verus!
