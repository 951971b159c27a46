use vstd::prelude::*;
use vstd::arithmetic::div_mod::{lemma_div_is_ordered, lemma_div_multiples_vanish};

verus! {

/// Loss percentage of a run: `(sent - succeeded) * 100 / sent` with
/// truncating integer division, and 0 when nothing was sent.
pub open spec fn loss_spec(sent: int, succeeded: int) -> int {
    if sent == 0 {
        0
    } else {
        (sent - succeeded) * 100 / sent
    }
}

/// The two run-scoped counters, shared by every probe task: probes
/// launched and probes that got a valid reply.  Both only ever grow, and
/// `succeeded` never passes `sent`.
#[derive(Clone, Copy, Debug, PartialEq, Eq, Structural)]
pub struct RunStats {
    pub sent: u64,
    pub succeeded: u64,
}

impl RunStats {
    /// The counters' invariant: successes never outnumber launches.
    pub open spec fn wf(self) -> bool {
        self.succeeded <= self.sent
    }

    /// Fresh counters for a run that has not launched anything yet.
    pub fn new() -> (r: RunStats)
        ensures
            r.sent == 0,
            r.succeeded == 0,
            r.wf(),
    {
        RunStats { sent: 0, succeeded: 0 }
    }

    /// Accounts one launched probe.
    pub fn record_sent(&mut self)
        requires
            old(self).sent < u64::MAX,
        ensures
            final(self).sent == old(self).sent + 1,
            final(self).succeeded == old(self).succeeded,
            old(self).wf() ==> final(self).wf(),
    {
        self.sent = self.sent + 1;
    }

    /// Accounts one drained probe outcome: a success bumps the success
    /// counter, a failure leaves both counters as they were.  A success
    /// can only be drained for a probe that was launched.
    pub fn record_outcome(&mut self, ok: bool)
        requires
            ok ==> old(self).succeeded < old(self).sent,
        ensures
            final(self).sent == old(self).sent,
            final(self).succeeded == old(self).succeeded + (if ok {
                1int
            } else {
                0int
            }),
            old(self).wf() ==> final(self).wf(),
    {
        if ok {
            self.succeeded = self.succeeded + 1;
        }
    }

    /// The loss percentage of the finalized counters.  Never faults: a
    /// run that sent nothing lost nothing.
    pub fn loss_rate(&self) -> (r: u64)
        requires
            self.wf(),
        ensures
            r == loss_spec(self.sent as int, self.succeeded as int),
            r <= 100,
    {
        if self.sent == 0 {
            0
        } else {
            let diff: u128 = (self.sent - self.succeeded) as u128;
            let pct: u128 = diff * 100 / (self.sent as u128);
            proof {
                lemma_div_is_ordered(
                    diff as int * 100,
                    self.sent as int * 100,
                    self.sent as int,
                );
                lemma_div_multiples_vanish(100, self.sent as int);
            }
            pct as u64
        }
    }
}

/// How many of the probe outcomes, listed in launch order, succeeded.
pub open spec fn successes(results: Seq<bool>) -> int
    decreases results.len(),
{
    if results.len() == 0 {
        0
    } else {
        successes(results.drop_last()) + (if results.last() {
            1int
        } else {
            0int
        })
    }
}

/// A run in which every probe succeeds counts as many successes as
/// launches and loses nothing: its loss percentage is zero.
pub proof fn lemma_no_failures_no_loss(results: Seq<bool>)
    requires
        forall|i: int| 0 <= i < results.len() ==> results[i],
    ensures
        successes(results) == results.len(),
        loss_spec(results.len() as int, successes(results)) == 0,
    decreases results.len(),
{
    if results.len() > 0 {
        assert(forall|i: int|
            0 <= i < results.drop_last().len() ==> results.drop_last()[i] == results[i]);
        lemma_no_failures_no_loss(results.drop_last());
        assert(results.last());
    }
    let n = results.len() as int;
    if n > 0 {
        assert((n - n) * 100 / n == 0);
    }
}

} // verus!
