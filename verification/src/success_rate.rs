//! Failure counts.

use vstd::prelude::*;

verus! {

/// How many of the items that were asked for could not be had.
#[derive(Clone, Copy, Debug, PartialEq, Eq, Structural)]
pub struct SuccessRate {
    pub failures: u64,
    pub total: u64,
}

impl SuccessRate {
    /// The rate before anything was asked for.
    pub open spec fn zero() -> SuccessRate {
        SuccessRate { failures: 0, total: 0 }
    }

    /// Whether the counts of a further round still fit.
    pub open spec fn has_room(self, failures: u64, total: u64) -> bool {
        &&& self.failures + failures <= u64::MAX
        &&& self.total + total <= u64::MAX
    }

    /// The rate after a further round.
    pub open spec fn plus(self, failures: u64, total: u64) -> SuccessRate {
        SuccessRate {
            failures: (self.failures + failures) as u64,
            total: (self.total + total) as u64,
        }
    }

    /// Adds the counts of a further round.
    pub fn add_round(&mut self, failures: u64, total: u64)
        requires
            old(self).has_room(failures, total),
        ensures
            *final(self) == old(self).plus(failures, total),
    {
        self.failures += failures;
        self.total += total;
    }
}

impl Default for SuccessRate {
    fn default() -> (rate: SuccessRate)
        ensures
            rate == SuccessRate::zero(),
    {
        SuccessRate { failures: 0, total: 0 }
    }
}

/// Rounds add up: where both sums fit, each count grows by exactly what the round brought, and a
/// fresh rate is that of the first round.
pub proof fn rounds_add_up(rate: SuccessRate, failures: u64, total: u64)
    requires
        rate.failures + failures <= u64::MAX,
        rate.total + total <= u64::MAX,
    ensures
        rate.has_room(failures, total),
        rate.plus(failures, total).failures == rate.failures + failures,
        rate.plus(failures, total).total == rate.total + total,
        SuccessRate::zero().failures == 0,
        SuccessRate::zero().total == 0,
{
}

/// What `SuccessRate::add_round` does: each count grows by its own part of the round.
pub proof fn added_rounds_add_up(rate: &mut SuccessRate, failures: u64, total: u64)
    requires
        old(rate).failures + failures <= u64::MAX,
        old(rate).total + total <= u64::MAX,
        call_ensures(SuccessRate::add_round, (rate, failures, total), ()),
    ensures
        final(rate).failures == old(rate).failures + failures,
        final(rate).total == old(rate).total + total,
{
}

/// What `SuccessRate::default` gives: nothing was asked for and nothing failed.
pub proof fn rates_begin_with_nothing(rate: SuccessRate)
    requires
        call_ensures(SuccessRate::default, (), rate),
    ensures
        rate.failures == 0,
        rate.total == 0,
{
}

} // verus!
