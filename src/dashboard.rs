use vstd::prelude::*;

use crate::telemetry::EngineStats;

verus! {

/// Samples kept for the latency chart.
pub const HISTORY_LEN: usize = 100;

/// The display's state: the counters it reads and the recent latency samples.
pub struct TuiApp {
    stats: EngineStats,
    latency_history: Vec<u64>,
}

impl TuiApp {
    /// A display over `stats`, with a history of zero samples.
    pub fn new(stats: EngineStats) -> (r: TuiApp)
        ensures
            r.history()@ == Seq::new(HISTORY_LEN as nat, |i: int| 0u64),
    {
        let mut h: Vec<u64> = Vec::new();
        let mut i: usize = 0;
        while i < HISTORY_LEN
            invariant
                i <= HISTORY_LEN,
                h@ == Seq::new(i as nat, |k: int| 0u64),
            decreases HISTORY_LEN - i,
        {
            h.push(0);
            i = i + 1;
            proof {
                assert(h@ =~= Seq::new(i as nat, |k: int| 0u64));
            }
        }
        proof {
            assert(h@ =~= Seq::new(HISTORY_LEN as nat, |k: int| 0u64));
        }
        TuiApp { stats, latency_history: h }
    }

    pub closed spec fn history(&self) -> Vec<u64> {
        self.latency_history
    }

    /// The counters the display reads.
    pub fn stats(&self) -> &EngineStats {
        &self.stats
    }

    /// The latency samples, oldest first.
    pub fn latency_history(&self) -> (r: &Vec<u64>)
        ensures
            r@ == self.history()@,
    {
        &self.latency_history
    }

    /// Appends a sample; past the history length the oldest one goes.
    pub fn push_latency(&mut self, sample: u64)
        requires
            old(self).history()@.len() <= HISTORY_LEN,
        ensures
            old(self).history()@.len() < HISTORY_LEN ==> final(self).history()@ == old(
                self,
            ).history()@.push(sample),
            old(self).history()@.len() == HISTORY_LEN ==> final(self).history()@ == old(
                self,
            ).history()@.push(sample).drop_first(),
    {
        self.latency_history.push(sample);
        if self.latency_history.len() > HISTORY_LEN {
            self.latency_history.remove(0);
            proof {
                assert(self.latency_history@ =~= old(self).history()@.push(sample).drop_first());
            }
        }
    }
}

/// The rough request rate shown in the banner: a tenth of the total.
pub fn rps(total: u64) -> (r: u64)
    ensures
        r == total / 10,
{
    total / 10
}

/// The share of successes in percent, rounded down and held at the largest
/// `u16`; 100 before the first attempt.
pub fn health_percent(success: u64, total: u64) -> (r: u16)
    ensures
        total == 0 ==> r == 100,
        total > 0 && (success as int) * 100 / (total as int) <= u16::MAX ==> r as int == (
        success as int) * 100 / (total as int),
        total > 0 && (success as int) * 100 / (total as int) > u16::MAX ==> r == u16::MAX,
{
    if total == 0 {
        return 100;
    }
    let p: u128 = (success as u128) * 100 / (total as u128);
    if p > u16::MAX as u128 {
        u16::MAX
    } else {
        p as u16
    }
}

} // verus!
