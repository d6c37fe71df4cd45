//! Counting towards something that is due every so many times.

use vstd::prelude::*;

verus! {

/// A count that comes round every `period` ticks.
pub struct Cadence {
    period: u32,
    count: u32,
}

impl Cadence {
    #[verifier::type_invariant]
    spec fn within_period(self) -> bool {
        self.count < self.period
    }

    /// After how many ticks the count comes round.
    pub closed spec fn period(&self) -> nat {
        self.period as nat
    }

    /// The ticks counted since the count last came round.
    pub closed spec fn count(&self) -> nat {
        self.count as nat
    }

    /// A count that comes round every `period` ticks and stands at zero.
    pub fn new(period: u32) -> (cadence: Cadence)
        requires
            period > 0,
        ensures
            cadence.period() == period,
            cadence.count() == 0,
    {
        Cadence { period, count: 0 }
    }

    /// Counts one tick; `true` where the count comes round with it.
    pub fn tick(&mut self) -> (due: bool)
        ensures
            final(self).period() == old(self).period(),
            old(self).count() < old(self).period(),
            due == (old(self).count() + 1 == old(self).period()),
            final(self).count() == if due {
                0
            } else {
                old(self).count() + 1
            },
        no_unwind
    {
        proof {
            use_type_invariant(&*self);
        }
        if self.count + 1 == self.period {
            self.count = 0;
            true
        } else {
            self.count = self.count + 1;
            false
        }
    }
}

/// Where a count stands after `ticks` ticks from zero.
pub open spec fn count_after(period: nat, ticks: nat) -> nat {
    ticks % period
}

/// A count that stands where `ticks` ticks from zero put it comes round
/// with the next tick exactly if that tick is a multiple of the period, and
/// then stands where `ticks + 1` ticks put it.
pub proof fn lemma_due_every_period(period: nat, ticks: nat)
    requires
        period > 0,
    ensures
        (count_after(period, ticks) + 1 == period) == ((ticks + 1) % period == 0),
        count_after(period, ticks + 1) == if count_after(period, ticks) + 1 == period {
            0
        } else {
            count_after(period, ticks) + 1
        },
{
    let q = ticks / period;
    let r = ticks % period;
    assert(ticks == q * period + r) by (nonlinear_arith)
        requires
            q == ticks / period,
            r == ticks % period,
            period > 0,
    {
    }
    if r + 1 == period {
        assert((ticks + 1) % period == 0) by (nonlinear_arith)
            requires
                ticks == q * period + r,
                r + 1 == period,
                period > 0,
        {
        }
    } else {
        assert((ticks + 1) % period == r + 1) by (nonlinear_arith)
            requires
                ticks == q * period + r,
                0 <= r,
                r + 1 < period,
                period > 0,
        {
        }
    }
}

} // verus!
