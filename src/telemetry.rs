use std::sync::atomic::{AtomicUsize, Ordering};
use std::sync::Arc;
use vstd::prelude::*;

verus! {

/// How one attempt ended, as far as the counters and the node's health go.
#[derive(Clone, Copy, Debug, PartialEq, Eq, Structural)]
pub enum Outcome {
    /// The client could not be built; the request was never sent.
    BuildFailed,
    /// The request failed in transport.
    NetworkFailed,
    /// The response was classified a success.
    Passed,
    /// The response was classified blocked.
    Blocked,
    /// A challenge was met and the browser session solved it.
    Solved,
    /// A challenge was met and the browser session failed or timed out.
    Unsolved,
}

/// What an outcome does to the node that served the attempt.
#[derive(Clone, Copy, Debug, PartialEq, Eq, Structural)]
pub enum NodeReport {
    Untouched,
    Healthy,
    Failing,
}

/// Plain values of the four counters.
#[derive(Clone, Copy, Debug, PartialEq, Eq, Structural)]
pub struct Tally {
    pub total: u64,
    pub success: u64,
    pub blocked: u64,
    pub failed: u64,
}

/// What an outcome adds to each counter.
pub open spec fn delta(o: Outcome) -> (nat, nat, nat, nat) {
    match o {
        Outcome::BuildFailed => (0, 0, 0, 1),
        Outcome::NetworkFailed => (1, 0, 0, 1),
        Outcome::Passed => (1, 1, 0, 0),
        Outcome::Blocked => (1, 0, 1, 0),
        Outcome::Solved => (1, 1, 0, 0),
        Outcome::Unsolved => (1, 0, 1, 0),
    }
}

/// The report an outcome makes to the pool.
pub open spec fn report_of(o: Outcome) -> NodeReport {
    match o {
        Outcome::BuildFailed => NodeReport::Untouched,
        Outcome::Passed | Outcome::Solved => NodeReport::Healthy,
        _ => NodeReport::Failing,
    }
}

/// The counters after a run of outcomes, from zero.
pub open spec fn counts(os: Seq<Outcome>) -> (nat, nat, nat, nat)
    decreases os.len(),
{
    if os.len() == 0 {
        (0, 0, 0, 0)
    } else {
        let c = counts(os.drop_last());
        let d = delta(os.last());
        (c.0 + d.0, c.1 + d.1, c.2 + d.2, c.3 + d.3)
    }
}

/// The report that an outcome makes to the pool.
pub fn node_report(o: Outcome) -> (r: NodeReport)
    ensures
        r == report_of(o),
{
    match o {
        Outcome::BuildFailed => NodeReport::Untouched,
        Outcome::Passed | Outcome::Solved => NodeReport::Healthy,
        _ => NodeReport::Failing,
    }
}

impl Tally {
    pub fn new() -> (r: Tally)
        ensures
            r == (Tally { total: 0, success: 0, blocked: 0, failed: 0 }),
    {
        Tally { total: 0, success: 0, blocked: 0, failed: 0 }
    }

    /// Adds one outcome to the counters.
    pub fn record(&mut self, o: Outcome)
        requires
            old(self).total < u64::MAX,
            old(self).success < u64::MAX,
            old(self).blocked < u64::MAX,
            old(self).failed < u64::MAX,
        ensures
            final(self).total == old(self).total + delta(o).0,
            final(self).success == old(self).success + delta(o).1,
            final(self).blocked == old(self).blocked + delta(o).2,
            final(self).failed == old(self).failed + delta(o).3,
    {
        match o {
            Outcome::BuildFailed => {
                self.failed = self.failed + 1;
            },
            Outcome::NetworkFailed => {
                self.total = self.total + 1;
                self.failed = self.failed + 1;
            },
            Outcome::Passed | Outcome::Solved => {
                self.total = self.total + 1;
                self.success = self.success + 1;
            },
            Outcome::Blocked | Outcome::Unsolved => {
                self.total = self.total + 1;
                self.blocked = self.blocked + 1;
            },
        }
    }
}

/// Over any run of attempts that all built their client, the total equals
/// the sum of successes, blocked and failed attempts.
pub proof fn lemma_counts_consistent(os: Seq<Outcome>)
    requires
        forall|i: int| 0 <= i < os.len() ==> os[i] != Outcome::BuildFailed,
    ensures
        counts(os).0 == counts(os).1 + counts(os).2 + counts(os).3,
    decreases os.len(),
{
    if os.len() > 0 {
        lemma_counts_consistent(os.drop_last());
    }
}

/// An attempt that fails while building its client adds to the failed
/// counter alone, never to the total.
pub proof fn lemma_build_failure_counts_failed_only(os: Seq<Outcome>)
    ensures
        ({
            let before = counts(os);
            let after = counts(os.push(Outcome::BuildFailed));
            after == (before.0, before.1, before.2, before.3 + 1)
        }),
{
    assert(os.push(Outcome::BuildFailed).drop_last() =~= os);
}

/// The shared counters: total attempts, successes, blocked and failed ones,
/// each only ever incremented.
#[derive(Debug, Default, Clone)]
pub struct EngineStats {
    pub total_requests: Arc<AtomicUsize>,
    pub successful_requests: Arc<AtomicUsize>,
    pub blocked_requests: Arc<AtomicUsize>,
    pub failed_requests: Arc<AtomicUsize>,
}

impl EngineStats {
    /// Adds one outcome to the shared counters: one increment for each counter
    /// whose `delta` is 1.
    pub fn record(&self, o: Outcome) {
        match o {
            Outcome::BuildFailed => {
                self.failed_requests.fetch_add(1, Ordering::Relaxed);
            },
            Outcome::NetworkFailed => {
                self.total_requests.fetch_add(1, Ordering::Relaxed);
                self.failed_requests.fetch_add(1, Ordering::Relaxed);
            },
            Outcome::Passed | Outcome::Solved => {
                self.total_requests.fetch_add(1, Ordering::Relaxed);
                self.successful_requests.fetch_add(1, Ordering::Relaxed);
            },
            Outcome::Blocked | Outcome::Unsolved => {
                self.total_requests.fetch_add(1, Ordering::Relaxed);
                self.blocked_requests.fetch_add(1, Ordering::Relaxed);
            },
        }
    }

    /// Reads the four counters.
    pub fn snapshot(&self) -> (r: Tally) {
        Tally {
            total: self.total_requests.load(Ordering::Relaxed) as u64,
            success: self.successful_requests.load(Ordering::Relaxed) as u64,
            blocked: self.blocked_requests.load(Ordering::Relaxed) as u64,
            failed: self.failed_requests.load(Ordering::Relaxed) as u64,
        }
    }
}

} // verus!
