//! The operation worker's records: what one tick did, and the terminal
//! error an operation gets when its worker died or its step failed.
//!
//! Nothing auto-retries: an operation whose worker lease expired is
//! resolved as failed with an honest "result unknown", never re-run.

use vstd::prelude::*;

use crate::text::to_owned_string;

verus! {

/// What one tick did, for logs and for tests.
#[derive(Clone, Copy, Debug, PartialEq, Eq, Structural)]
pub struct TickReport {
    /// Operations resolved as failed because their worker's lease expired.
    pub recovered: usize,
    /// Operations that passed their deadline and were timed out.
    pub timed_out: usize,
    /// Whether a pending operation was claimed this tick.
    pub claimed: bool,
    /// Whether the claimed operation reached a terminal state this tick.
    pub completed: bool,
    /// Queue depths observed after the work.
    pub pending: i64,
    /// Running operations observed after the work.
    pub running: i64,
}

impl Default for TickReport {
    fn default() -> (report: Self)
        ensures
            report == (TickReport {
                recovered: 0,
                timed_out: 0,
                claimed: false,
                completed: false,
                pending: 0,
                running: 0,
            }),
    {
        TickReport {
            recovered: 0,
            timed_out: 0,
            claimed: false,
            completed: false,
            pending: 0,
            running: 0,
        }
    }
}

/// The JSON object with the string members `reason` and `detail`.
pub open spec fn json_reason_detail(reason: Seq<char>, detail: Seq<char>) -> Seq<char> {
    crate::audit::json_string_object(seq![("reason"@, reason), ("detail"@, detail)])
}

/// Writes the object with the string members `reason` and `detail`.
fn reason_detail_json(reason: &str, detail: &str) -> (json: String)
    ensures
        json@ == json_reason_detail(reason@, detail@),
{
    let members = vec![
        (to_owned_string("reason"), to_owned_string(reason)),
        (to_owned_string("detail"), to_owned_string(detail)),
    ];
    proof {
        assert(crate::audit::pairs_view(members@) =~= seq![("reason"@, reason@), ("detail"@, detail@)]);
    }
    crate::audit::string_object_json(&members)
}

/// The detail recorded when a claimed operation's worker lease expired.
pub open spec fn expired_claim_detail(kind: Seq<char>) -> Seq<char> {
    "worker lease expired; the result of "@ + kind + " work is unknown"@
}

/// The terminal error of an operation whose worker died: the reason
/// `worker_lease_expired` and a detail that says the result of its kind of
/// work is unknown.
pub fn expired_claim_error(kind: &str) -> (error_json: String)
    ensures
        error_json@ == json_reason_detail("worker_lease_expired"@, expired_claim_detail(kind@)),
{
    let mut detail = to_owned_string("worker lease expired; the result of ");
    detail.append(kind);
    detail.append(" work is unknown");
    reason_detail_json("worker_lease_expired", detail.as_str())
}

/// The terminal error of an operation whose executor step failed: the
/// reason `step_failed` and the executor's detail.
pub fn step_failure_error(detail: &str) -> (error_json: String)
    ensures
        error_json@ == json_reason_detail("step_failed"@, detail@),
{
    reason_detail_json("step_failed", detail)
}


/// What the worker learned from its last action on a claimed operation.
#[derive(Debug)]
pub enum ExecutionEvent {
    /// The operation was claimed, with or without a cancellation request.
    Claimed {
        /// Whether a caller asked to cancel it before it ran.
        cancel_requested: bool,
    },
    /// The move to `cancelling` was recorded, or failed.
    CancellingRecorded(bool),
    /// The executor returned: done, or the failure detail.
    Executed(Result<(), String>),
    /// The terminal completion was recorded, or failed.
    Completed(bool),
}

/// What the worker does next for a claimed operation.
#[derive(Clone, Debug)]
pub enum ExecutionStep {
    /// Move the operation to `cancelling`.
    BeginCancel,
    /// Hand the operation to the executor.
    Execute,
    /// Complete the operation in a terminal state, with its error when any.
    Complete {
        /// The terminal state.
        state: &'static str,
        /// The recorded error, as JSON.
        error_json: Option<String>,
    },
    /// The execution is over; whether the operation reached its terminal
    /// state.
    Done(bool),
}

/// The worker's decision for a claimed operation, one event at a time: a
/// requested cancellation moves it to `cancelling` and then completes it
/// `cancelled`; otherwise the executor runs it, and a failure completes it
/// `failed` with the step's detail. A completion's outcome (or a failed
/// move to `cancelling`) ends the execution, reporting whether the
/// operation reached its terminal state; a successful executor completed it
/// itself.
pub fn next_execution_step(event: ExecutionEvent) -> (step: ExecutionStep)
    ensures
        match event {
            ExecutionEvent::Claimed { cancel_requested } => if cancel_requested {
                step is BeginCancel
            } else {
                step is Execute
            },
            ExecutionEvent::CancellingRecorded(recorded) => if recorded {
                step matches ExecutionStep::Complete { state, error_json } && state@
                    == "cancelled"@ && error_json is None
            } else {
                step matches ExecutionStep::Done(completed) && !completed
            },
            ExecutionEvent::Executed(outcome) => match outcome {
                Ok(()) => step matches ExecutionStep::Done(completed) && completed,
                Err(detail) => step matches ExecutionStep::Complete { state, error_json } && state@
                    == "failed"@ && (error_json matches Some(json) && json@ == json_reason_detail(
                    "step_failed"@,
                    detail@,
                )),
            },
            ExecutionEvent::Completed(recorded) => step matches ExecutionStep::Done(completed)
                && completed == recorded,
        },
{
    match event {
        ExecutionEvent::Claimed { cancel_requested } => if cancel_requested {
            ExecutionStep::BeginCancel
        } else {
            ExecutionStep::Execute
        },
        ExecutionEvent::CancellingRecorded(recorded) => if recorded {
            ExecutionStep::Complete { state: "cancelled", error_json: None }
        } else {
            ExecutionStep::Done(false)
        },
        ExecutionEvent::Executed(outcome) => match outcome {
            Ok(()) => ExecutionStep::Done(true),
            Err(detail) => ExecutionStep::Complete {
                state: "failed",
                error_json: Some(step_failure_error(detail.as_str())),
            },
        },
        ExecutionEvent::Completed(recorded) => ExecutionStep::Done(recorded),
    }
}

} // verus!
