use vstd::prelude::*;

use crate::classify::{Judgement, Verdict};
use crate::pool::{failure_spec, success_spec, GridManager};
use crate::telemetry::{node_report, report_of, EngineStats, NodeReport, Outcome};

verus! {

/// Pause before asking the pool again when no node is available, in milliseconds.
pub const IDLE_PAUSE_MILLIS: u64 = 100;

/// Pause between two attempts of one worker, in milliseconds.
pub const ATTEMPT_PAUSE_MILLIS: u64 = 50;

/// What a worker does once a response is classified.
#[derive(Clone, Copy, Debug, PartialEq, Eq, Structural)]
pub enum Step {
    /// The attempt is over with this outcome.
    Settle(Outcome),
    /// The response is a challenge: hand it to the browser session.
    Escalate,
}

/// The step a verdict calls for.
pub open spec fn step_for(j: Judgement) -> Step {
    match j {
        Judgement::Success => Step::Settle(Outcome::Passed),
        Judgement::Blocked(_) => Step::Settle(Outcome::Blocked),
        Judgement::Challenge(_) => Step::Escalate,
    }
}

/// The step that a classified response calls for.
pub fn plan(v: &Verdict) -> (r: Step)
    ensures
        r == step_for(v@),
{
    match v {
        Verdict::Success => Step::Settle(Outcome::Passed),
        Verdict::Blocked(_) => Step::Settle(Outcome::Blocked),
        Verdict::Challenge(_) => Step::Escalate,
    }
}

/// The outcome of an escalation: solved or not.
pub fn escalation_outcome(solved: bool) -> (r: Outcome)
    ensures
        r == (if solved {
            Outcome::Solved
        } else {
            Outcome::Unsolved
        }),
{
    if solved {
        Outcome::Solved
    } else {
        Outcome::Unsolved
    }
}

/// Closes an attempt made through the node `node`: the counters take the
/// outcome, and the pool hears of the node's health (nothing when the client
/// could not even be built).
pub fn settle(pool: &mut GridManager, stats: &EngineStats, node: &str, o: Outcome)
    requires
        old(pool).wf(),
    ensures
        final(pool).wf(),
        report_of(o) == NodeReport::Untouched ==> final(pool)@ == old(pool)@,
        report_of(o) == NodeReport::Healthy ==> final(pool)@ == success_spec(old(pool)@, node@),
        report_of(o) == NodeReport::Failing ==> exists|now: u64|
            final(pool)@ == failure_spec(old(pool)@, node@, now),
{
    stats.record(o);
    match node_report(o) {
        NodeReport::Untouched => {},
        NodeReport::Healthy => pool.report_success(node),
        NodeReport::Failing => pool.report_failure(node),
    }
}

} // verus!
