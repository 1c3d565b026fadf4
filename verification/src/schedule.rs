//! The scheduler: a repeating timer that starts ingestion runs, one at a
//! time.
//!
//! The scheduler is driven from outside with two events: a tick of the
//! timer, and the end of the run that it started. A tick that arrives while
//! a run is in flight is queued and starts a run as soon as the current one
//! has ended; runs that the scheduler starts never overlap. A failed run is
//! reported and otherwise ignored: the next tick is a fresh attempt.

use crate::error::IngestError;
use vstd::prelude::*;

verus! {

/// The period of the timer, in seconds, unless another is chosen.
pub const CHECK_INTERVAL_SECONDS: u64 = 1800;

/// What the scheduler is doing.
#[derive(Clone, Copy, Debug, PartialEq, Eq, Structural)]
pub enum Scheduler {
    /// No run is in flight.
    Idle,
    /// A run is in flight, and `queued` ticks have arrived since it began.
    Running { queued: u64 },
}

/// What the driver of the scheduler does after an event.
pub struct Decision {
    /// Whether to start a run now.
    pub start_run: bool,
    /// The message of the failure to report, where the run that ended failed.
    pub report: Option<String>,
}

/// The state after a tick.
pub open spec fn after_tick(state: Scheduler) -> Scheduler {
    match state {
        Scheduler::Idle => Scheduler::Running { queued: 0 },
        Scheduler::Running { queued } => Scheduler::Running {
            queued: if queued < u64::MAX {
                (queued + 1) as u64
            } else {
                queued
            },
        },
    }
}

/// The state after the run in flight has ended.
pub open spec fn after_run(state: Scheduler) -> Scheduler {
    match state {
        Scheduler::Running { queued } if queued > 0 => Scheduler::Running {
            queued: (queued - 1) as u64,
        },
        _ => Scheduler::Idle,
    }
}

/// The message to report for the result of a run: that of its error.
pub open spec fn failure_of(result: Result<(), IngestError>) -> Option<Seq<char>> {
    match result {
        Ok(_) => None,
        Err(error) => Some(error@.message()),
    }
}

/// The text of an optional string.
pub open spec fn report_view(report: Option<String>) -> Option<Seq<char>> {
    match report {
        Some(text) => Some(text@),
        None => None,
    }
}

impl Scheduler {
    /// A scheduler with no run in flight.
    pub fn new() -> (scheduler: Scheduler)
        ensures
            scheduler == Scheduler::Idle,
    {
        Scheduler::Idle
    }

    /// Takes a tick of the timer. A run starts exactly where none is in
    /// flight; otherwise the tick is queued.
    pub fn on_tick(&mut self) -> (decision: Decision)
        ensures
            *final(self) == after_tick(*old(self)),
            decision.start_run == (*old(self) == Scheduler::Idle),
            decision.report is None,
    {
        match *self {
            Scheduler::Idle => {
                *self = Scheduler::Running { queued: 0 };
                Decision { start_run: true, report: None }
            },
            Scheduler::Running { queued } => {
                if queued < u64::MAX {
                    *self = Scheduler::Running { queued: queued + 1 };
                }
                Decision { start_run: false, report: None }
            },
        }
    }

    /// Takes the result of the run in flight. The next run starts at once
    /// exactly where a tick is queued. A failure is handed out to be
    /// reported and changes nothing else.
    pub fn on_run_finished(&mut self, result: Result<(), IngestError>) -> (decision: Decision)
        ensures
            *final(self) == after_run(*old(self)),
            decision.start_run == (*final(self) != Scheduler::Idle),
            report_view(decision.report) == failure_of(result),
    {
        let report = match result {
            Ok(_) => None,
            Err(error) => Some(error.message()),
        };
        match *self {
            Scheduler::Running { queued } => {
                if queued > 0 {
                    *self = Scheduler::Running { queued: queued - 1 };
                    Decision { start_run: true, report }
                } else {
                    *self = Scheduler::Idle;
                    Decision { start_run: false, report }
                }
            },
            Scheduler::Idle => Decision { start_run: false, report },
        }
    }
}

/// A tick taken while a run is in flight is not lost: once that run has
/// ended the scheduler is running again, with as many ticks queued as before
/// the tick.
pub proof fn lemma_queued_tick_runs_next(queued: u64)
    requires
        queued < u64::MAX,
    ensures
        after_run(after_tick(Scheduler::Running { queued })) == (Scheduler::Running { queued }),
{
}

} // verus!
