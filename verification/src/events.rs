//! Bounded, payload-free change notifications for clients to invalidate
//! cached reads.
//!
//! A notification carries only an event name and a cursor, `epoch:sequence`;
//! a client refetches the resource through its normal authorized API. The
//! log keeps a bounded replay window: a retained cursor of this epoch replays
//! the later events, anything else (a foreign epoch, a malformed cursor, a
//! cursor from the future, or one older than the window) asks the client for
//! a full refetch.

use vstd::prelude::*;

use crate::text::{decimal, format_decimal, parse_decimal, split_first, to_owned_string};

verus! {

/// The kinds of state changes clients may use to invalidate cached queries.
#[derive(Clone, Copy, Debug, PartialEq, Eq, Structural)]
pub enum EventKind {
    /// Machine status or inventory may have changed.
    MachineChanged,
    /// An operation's state or progress may have changed.
    OperationChanged,
    /// A Lab lease may have changed.
    LeaseChanged,
    /// An onboarding draft may have changed.
    OnboardingChanged,
    /// Proxmox observations may have changed.
    ProxmoxChanged,
    /// Tailnet observations may have changed.
    TailnetChanged,
}

impl EventKind {
    /// The stable event name.
    pub open spec fn spec_as_str(self) -> Seq<char> {
        match self {
            EventKind::MachineChanged => "machine.changed"@,
            EventKind::OperationChanged => "operation.changed"@,
            EventKind::LeaseChanged => "lease.changed"@,
            EventKind::OnboardingChanged => "onboarding.changed"@,
            EventKind::ProxmoxChanged => "proxmox.changed"@,
            EventKind::TailnetChanged => "tailnet.changed"@,
        }
    }

    /// The stable event name.
    pub fn as_str(self) -> (name: &'static str)
        ensures
            name@ == self.spec_as_str(),
    {
        match self {
            EventKind::MachineChanged => "machine.changed",
            EventKind::OperationChanged => "operation.changed",
            EventKind::LeaseChanged => "lease.changed",
            EventKind::OnboardingChanged => "onboarding.changed",
            EventKind::ProxmoxChanged => "proxmox.changed",
            EventKind::TailnetChanged => "tailnet.changed",
        }
    }
}

/// One notification with an opaque, process-scoped cursor.
#[derive(Clone, Debug, PartialEq, Eq)]
pub struct FleetEvent {
    /// The cursor token, `epoch:sequence`.
    pub id: String,
    /// The notification type. No resource data is included.
    pub kind: EventKind,
}

impl View for FleetEvent {
    type V = (Seq<char>, EventKind);

    open spec fn view(&self) -> (Seq<char>, EventKind) {
        (self.id@, self.kind)
    }
}

/// A useful default capacity for one controller process.
pub const DEFAULT_EVENT_CAPACITY: usize = 256;

/// The cursor of the event with a sequence number in an epoch.
pub open spec fn cursor(epoch: Seq<char>, sequence: u64) -> Seq<char> {
    epoch + ":"@ + decimal(sequence as nat)
}

/// One more, saturating at the largest sequence number.
pub open spec fn next_sequence(sequence: u64) -> u64 {
    if sequence < u64::MAX {
        (sequence + 1) as u64
    } else {
        u64::MAX
    }
}

/// The bounded publisher state: the epoch, the last sequence number, and the
/// retained events with their sequence numbers, oldest first.
#[derive(Debug)]
pub struct EventLog {
    epoch: String,
    sequence: u64,
    history: Vec<(u64, FleetEvent)>,
    capacity: usize,
}

/// What resuming from a cursor yields: the retained events to replay, or a
/// gap marker carrying the current cursor when the client must refetch.
#[derive(Debug)]
pub struct Resumption {
    /// Retained events after the caller's cursor, in sequence order.
    pub replay: Vec<FleetEvent>,
    /// Present when the cursor cannot be resumed: the current cursor.
    pub gap_id: Option<String>,
}

/// The retained events as values: sequence number, cursor and kind.
pub open spec fn history_view(v: Seq<(u64, FleetEvent)>) -> Seq<(u64, (Seq<char>, EventKind))> {
    v.map_values(|e: (u64, FleetEvent)| (e.0, e.1@))
}

/// The events as values.
pub open spec fn events_view(v: Seq<FleetEvent>) -> Seq<(Seq<char>, EventKind)> {
    v.map_values(|e: FleetEvent| e@)
}

/// The retained events after a publication at a capacity: the oldest one is
/// dropped when the window is full.
pub open spec fn make_room<T>(history: Seq<T>, capacity: nat) -> Seq<T> {
    if history.len() >= capacity && history.len() > 0 {
        history.drop_first()
    } else {
        history
    }
}

/// The epoch and sequence number a cursor names, when it is well formed:
/// the text before the first `:` and a number after it.
pub open spec fn parse_cursor(text: Seq<char>) -> Option<(Seq<char>, u64)> {
    match split_first(text, ':') {
        Some((epoch, rest)) => match parse_decimal(rest) {
            Some(n) => Some((epoch, n)),
            None => None,
        },
        None => None,
    }
}

/// The retained events whose sequence number is above a cursor's.
pub open spec fn later_events(history: Seq<(u64, (Seq<char>, EventKind))>, after: u64) -> Seq<
    (Seq<char>, EventKind),
>
    decreases history.len(),
{
    if history.len() == 0 {
        Seq::empty()
    } else {
        let rest = later_events(history.drop_last(), after);
        if history.last().0 > after {
            rest.push(history.last().1)
        } else {
            rest
        }
    }
}

/// The sequence number of the oldest retained event, or the next one when
/// nothing is retained.
pub open spec fn oldest_retained(history: Seq<(u64, (Seq<char>, EventKind))>, sequence: u64) -> u64 {
    if history.len() > 0 {
        history[0].0
    } else {
        next_sequence(sequence)
    }
}

/// The resumption of a cursor: nothing without one; the retained events
/// after it for a cursor of this epoch that is not from the future and not
/// older than the window; otherwise a gap marker with the current cursor.
pub open spec fn spec_resume(
    epoch: Seq<char>,
    sequence: u64,
    history: Seq<(u64, (Seq<char>, EventKind))>,
    last_event_id: Option<Seq<char>>,
) -> (Seq<(Seq<char>, EventKind)>, Option<Seq<char>>) {
    match last_event_id {
        None => (Seq::empty(), None),
        Some(text) => match parse_cursor(text) {
            Some((e, n)) => if e == epoch && n <= sequence {
                if next_sequence(n) < oldest_retained(history, sequence) {
                    (Seq::empty(), Some(cursor(epoch, sequence)))
                } else {
                    (later_events(history, n), None)
                }
            } else {
                (Seq::empty(), Some(cursor(epoch, sequence)))
            },
            None => (Seq::empty(), Some(cursor(epoch, sequence))),
        },
    }
}

fn cursor_text(epoch: &str, sequence: u64) -> (text: String)
    ensures
        text@ == cursor(epoch@, sequence),
{
    let mut text = to_owned_string(epoch);
    text.append(":");
    let digits = format_decimal(sequence);
    text.append(digits.as_str());
    proof {
        reveal_strlit(":");
    }
    text
}

impl EventLog {
    /// The epoch.
    pub closed spec fn spec_epoch(&self) -> Seq<char> {
        self.epoch@
    }

    /// The last sequence number.
    pub closed spec fn spec_sequence(&self) -> u64 {
        self.sequence
    }

    /// The retained events, oldest first.
    pub closed spec fn spec_history(&self) -> Seq<(u64, (Seq<char>, EventKind))> {
        history_view(self.history@)
    }

    /// The replay window's capacity.
    pub closed spec fn spec_capacity(&self) -> nat {
        self.capacity as nat
    }

    /// The log's invariant: a window of at least two, never overfull, whose
    /// events carry the cursors of their sequence numbers in this epoch.
    pub closed spec fn well_formed(&self) -> bool {
        &&& self.capacity >= 2
        &&& self.history@.len() <= self.capacity
        &&& forall|k: int|
            0 <= k < self.history@.len() ==> (#[trigger] self.history@[k]).1.id@ == cursor(
                self.epoch@,
                self.history@[k].0,
            )
    }

    /// A log for one epoch with a replay window of `capacity` events, at
    /// least two: a one-event window would turn an ordinary reconnect into a
    /// gap immediately.
    pub fn new(epoch: &str, capacity: usize) -> (log: Self)
        ensures
            log.well_formed(),
            log.spec_epoch() == epoch@,
            log.spec_sequence() == 0,
            log.spec_history().len() == 0,
            log.spec_capacity() == if capacity < 2 {
                2
            } else {
                capacity
            },
    {
        let capacity = if capacity < 2 {
            2
        } else {
            capacity
        };
        let log = EventLog { epoch: to_owned_string(epoch), sequence: 0, history: Vec::new(), capacity };
        proof {
            assert(history_view(log.history@) =~= Seq::<(u64, (Seq<char>, EventKind))>::empty());
        }
        log
    }

    /// The replay window's capacity.
    pub fn capacity(&self) -> (capacity: usize)
        ensures
            capacity == self.spec_capacity(),
    {
        self.capacity
    }

    /// Publishes a payload-free event: the sequence advances (saturating),
    /// the event carries the cursor of the new sequence number, and the
    /// window drops its oldest event when full.
    pub fn publish(&mut self, kind: EventKind) -> (event: FleetEvent)
        requires
            old(self).well_formed(),
        ensures
            final(self).well_formed(),
            final(self).spec_epoch() == old(self).spec_epoch(),
            final(self).spec_capacity() == old(self).spec_capacity(),
            final(self).spec_sequence() == next_sequence(old(self).spec_sequence()),
            event@ == (cursor(old(self).spec_epoch(), final(self).spec_sequence()), kind),
            final(self).spec_history() == make_room(
                old(self).spec_history(),
                old(self).spec_capacity(),
            ).push((final(self).spec_sequence(), event@)),
    {
        let sequence = if self.sequence < u64::MAX {
            self.sequence + 1
        } else {
            u64::MAX
        };
        self.sequence = sequence;
        let event = FleetEvent { id: cursor_text(self.epoch.as_str(), sequence), kind };
        let ghost before = self.history@;
        if self.history.len() >= self.capacity && self.history.len() > 0 {
            self.history.remove(0);
            proof {
                assert(self.history@ =~= before.drop_first());
                assert(history_view(self.history@) =~= history_view(before).drop_first());
            }
        }
        let ghost kept = self.history@;
        let copy = FleetEvent { id: event.id.clone(), kind: event.kind };
        self.history.push((sequence, copy));
        proof {
            assert(history_view(self.history@) =~= history_view(kept).push((sequence, event@)));
            assert forall|k: int| 0 <= k < self.history@.len() implies (#[trigger] self.history@[
                k
            ]).1.id@ == cursor(self.epoch@, self.history@[k].0) by {
                if k < kept.len() as int {
                    if kept.len() < before.len() {
                        assert(kept[k] == before[k + 1]);
                    } else {
                        assert(kept[k] == before[k]);
                    }
                }
            }
        }
        event
    }

    /// The current cursor.
    pub fn current_id(&self) -> (id: String)
        ensures
            id@ == cursor(self.spec_epoch(), self.spec_sequence()),
    {
        cursor_text(self.epoch.as_str(), self.sequence)
    }

    /// Resumes from a client's last cursor (see [`spec_resume`]).
    pub fn resume(&self, last_event_id: Option<&str>) -> (resumption: Resumption)
        requires
            self.well_formed(),
        ensures
            ({
                let (replay, gap) = spec_resume(
                    self.spec_epoch(),
                    self.spec_sequence(),
                    self.spec_history(),
                    match last_event_id {
                        Some(t) => Some(t@),
                        None => None,
                    },
                );
                &&& events_view(resumption.replay@) == replay
                &&& match resumption.gap_id {
                    Some(g) => gap == Some(g@),
                    None => gap is None,
                }
            }),
    {
        let none: Vec<FleetEvent> = Vec::new();
        proof {
            assert(events_view(none@) =~= Seq::<(Seq<char>, EventKind)>::empty());
        }
        let text = match last_event_id {
            None => {
                return Resumption { replay: none, gap_id: None };
            },
            Some(text) => text,
        };
        let parsed: Option<(&str, u64)> = match crate::text::split_once(text, ':') {
            Some((epoch, rest)) => match crate::text::parse_u64(rest) {
                Some(n) => Some((epoch, n)),
                None => None,
            },
            None => None,
        };
        let (epoch, n) = match parsed {
            Some(p) => p,
            None => {
                return Resumption { replay: none, gap_id: Some(self.current_id()) };
            },
        };
        if !crate::text::text_eq(epoch, self.epoch.as_str()) || n > self.sequence {
            return Resumption { replay: none, gap_id: Some(self.current_id()) };
        }
        let oldest = if self.history.len() > 0 {
            self.history[0].0
        } else if self.sequence < u64::MAX {
            self.sequence + 1
        } else {
            u64::MAX
        };
        let following = if n < u64::MAX {
            n + 1
        } else {
            u64::MAX
        };
        proof {
            if self.history@.len() > 0 {
                assert(history_view(self.history@)[0].0 == self.history@[0].0);
            }
        }
        if following < oldest {
            return Resumption { replay: none, gap_id: Some(self.current_id()) };
        }
        let ghost all = history_view(self.history@);
        let mut replay: Vec<FleetEvent> = Vec::new();
        let mut i: usize = 0;
        proof {
            assert(all.subrange(0, 0) =~= Seq::<(u64, (Seq<char>, EventKind))>::empty());
            assert(events_view(replay@) =~= Seq::<(Seq<char>, EventKind)>::empty());
        }
        while i < self.history.len()
            invariant
                all == history_view(self.history@),
                i <= self.history@.len(),
                events_view(replay@) == later_events(all.subrange(0, i as int), n),
            decreases self.history@.len() - i,
        {
            let ghost pre = all.subrange(0, i + 1);
            proof {
                assert(pre.drop_last() =~= all.subrange(0, i as int));
                assert(pre.last() == (self.history@[i as int].0, self.history@[i as int].1@));
            }
            if self.history[i].0 > n {
                let event = &self.history[i].1;
                let ghost before = events_view(replay@);
                replay.push(FleetEvent { id: event.id.clone(), kind: event.kind });
                proof {
                    assert(events_view(replay@) =~= before.push(event@));
                }
            }
            i = i + 1;
        }
        proof {
            assert(all.subrange(0, i as int) =~= all);
        }
        Resumption { replay, gap_id: None }
    }
}

/// A client that reconnects with a cursor this log handed out gets back
/// exactly the retained events published after it, with no gap, as long as
/// the cursor is not older than the window; when it is older, or when the
/// cursor belongs to another epoch or is malformed, the answer is a gap
/// marker with the current cursor and nothing to replay.
pub proof fn law_resume_replays_what_followed(
    epoch: Seq<char>,
    sequence: u64,
    history: Seq<(u64, (Seq<char>, EventKind))>,
    n: u64,
)
    requires
        forall|i: int| 0 <= i < epoch.len() ==> #[trigger] epoch[i] != ':',
        n <= sequence,
    ensures
        next_sequence(n) >= oldest_retained(history, sequence) ==> spec_resume(
            epoch,
            sequence,
            history,
            Some(cursor(epoch, n)),
        ) == (later_events(history, n), None::<Seq<char>>),
        next_sequence(n) < oldest_retained(history, sequence) ==> spec_resume(
            epoch,
            sequence,
            history,
            Some(cursor(epoch, n)),
        ) == (Seq::<(Seq<char>, EventKind)>::empty(), Some(cursor(epoch, sequence))),
{
    crate::text::lemma_split_first_joined(epoch, decimal(n as nat), ':');
    assert(epoch + ":"@ + decimal(n as nat) == epoch + seq![':'] + decimal(n as nat)) by {
        reveal_strlit(":");
        assert(":"@ =~= seq![':']);
    }
    crate::text::lemma_parse_decimal_roundtrip(n);
}

/// A gap marker always carries the current cursor, and a gap replays
/// nothing; every replayed event is a retained one published after the
/// cursor.
pub proof fn law_gap_or_later_events(
    epoch: Seq<char>,
    sequence: u64,
    history: Seq<(u64, (Seq<char>, EventKind))>,
    last_event_id: Option<Seq<char>>,
)
    ensures
        ({
            let (replay, gap) = spec_resume(epoch, sequence, history, last_event_id);
            &&& gap is Some ==> gap == Some(cursor(epoch, sequence)) && replay.len() == 0
            &&& forall|k: int|
                #![trigger replay[k]]
                0 <= k < replay.len() ==> exists|j: int|
                    0 <= j < history.len() && #[trigger] history[j].1 == replay[k]
        }),
{
    match last_event_id {
        Some(text) => match parse_cursor(text) {
            Some((e, n)) => {
                lemma_later_events_retained(history, n);
            },
            None => {},
        },
        None => {},
    }
}

proof fn lemma_later_events_retained(history: Seq<(u64, (Seq<char>, EventKind))>, after: u64)
    ensures
        forall|k: int|
            #![trigger later_events(history, after)[k]]
            0 <= k < later_events(history, after).len() ==> exists|j: int|
                0 <= j < history.len() && #[trigger] history[j].1 == later_events(history, after)[k]
                    && history[j].0 > after,
    decreases history.len(),
{
    if history.len() > 0 {
        let init = history.drop_last();
        lemma_later_events_retained(init, after);
        let rest = later_events(init, after);
        let all = later_events(history, after);
        assert forall|k: int| #![trigger all[k]] 0 <= k < all.len() implies exists|j: int|
            0 <= j < history.len() && #[trigger] history[j].1 == all[k] && history[j].0 > after by {
            if k < rest.len() {
                assert(all[k] == rest[k]);
                let j = choose|j: int|
                    0 <= j < init.len() && #[trigger] init[j].1 == rest[k] && init[j].0 > after;
                assert(history[j] == init[j]);
            } else {
                assert(history[history.len() - 1] == history.last());
            }
        }
    }
}

} // verus!
