//! The two budgets of a resolution and what running over them means. Both
//! count from the start of the resolution, when all tasks are started at once.

use crate::adapter::CallOutcome;
use crate::model::Event;
use vstd::prelude::*;

verus! {

/// The time that one provider has to answer, in milliseconds.
pub const PROVIDER_BUDGET_MS: u64 = 1000;

/// The time that a whole resolution has, in milliseconds.
pub const GLOBAL_BUDGET_MS: u64 = 1000;

/// What the outcome of a call counts as when the call took `latency_ms`: a
/// call that exceeded the provider's budget has timed out, whatever came back.
pub open spec fn capping(latency_ms: u64, call: CallOutcome) -> CallOutcome {
    if latency_ms > PROVIDER_BUDGET_MS {
        CallOutcome::TimedOut
    } else {
        call
    }
}

/// What an event counts as when it comes in `elapsed_ms` after the start:
/// whatever comes in after the global budget is spent counts as the deadline.
pub open spec fn counting_as(elapsed_ms: u64, event: Event) -> Event {
    if elapsed_ms > GLOBAL_BUDGET_MS {
        Event::DeadlineElapsed
    } else {
        event
    }
}

/// The outcome of a call that took `latency_ms`, held to the provider's budget.
pub fn capped(latency_ms: u64, call: CallOutcome) -> (counted: CallOutcome)
    ensures
        counted == capping(latency_ms, call),
{
    if latency_ms > PROVIDER_BUDGET_MS {
        CallOutcome::TimedOut
    } else {
        call
    }
}

/// An event that comes in `elapsed_ms` after the start, held to the global budget.
pub fn timely(elapsed_ms: u64, event: Event) -> (counted: Event)
    ensures
        counted == counting_as(elapsed_ms, event),
{
    if elapsed_ms > GLOBAL_BUDGET_MS {
        Event::DeadlineElapsed
    } else {
        event
    }
}

/// How long the driver may still wait for a task, `elapsed_ms` after the
/// start: what is left of the global budget, and nothing once it is spent.
pub fn remaining_ms(elapsed_ms: u64) -> (left: u64)
    ensures
        elapsed_ms <= GLOBAL_BUDGET_MS ==> elapsed_ms + left == GLOBAL_BUDGET_MS,
        elapsed_ms > GLOBAL_BUDGET_MS ==> left == 0,
{
    if elapsed_ms > GLOBAL_BUDGET_MS {
        0
    } else {
        GLOBAL_BUDGET_MS - elapsed_ms
    }
}

} // verus!
