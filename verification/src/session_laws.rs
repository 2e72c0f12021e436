//! What holds of every session.

use vstd::prelude::*;

use crate::config::ProviderConfig;
use crate::providers::Providers;
use crate::ranges::Ranges;
use crate::session::{Action, Session, SessionView, Stage};
use crate::success_rate::SuccessRate;

verus! {

/// Replacing a rate changes the sum by the difference.
proof fn sum_after_update(rates: Seq<SuccessRate>, i: int, rate: SuccessRate)
    requires
        0 <= i < rates.len(),
    ensures
        crate::session::sum_of_failures(rates.update(i, rate)) == crate::session::sum_of_failures(
            rates,
        ) - rates[i].failures + rate.failures,
    decreases rates.len(),
{
    let last = rates.len() - 1;
    if i == last {
        assert(rates.update(i, rate).drop_last() == rates.drop_last());
    } else {
        assert(rates.update(i, rate).drop_last() == rates.drop_last().update(i, rate));
        sum_after_update(rates.drop_last(), i, rate);
    }
}

/// The products that the totals are made of.
pub(crate) proof fn products(s: SessionView)
    ensures
        s.items_per_provider() == s.items_per_range() * s.ranges.len(),
        s.items_per_range() * (s.provider + 1) == s.items_per_range() * s.provider
            + s.items_per_range(),
        s.items_per_range() * (s.range + 1) == s.items_per_range() * s.range + s.items_per_range(),
        s.provider < s.providers.len() ==> s.items_per_range() * (s.provider + 1)
            <= s.items_per_range() * s.providers.len(),
        s.range < s.ranges.len() ==> s.items_per_range() * (s.range + 1) <= s.items_per_range()
            * s.ranges.len(),
{
    let n = s.sample_size as int;
    let q = s.items_per_range() as int;
    let (r, p) = (s.ranges.len() as int, s.providers.len() as int);
    let (range, provider) = (s.range as int, s.provider as int);
    assert(n * r * 3 == (n * 3) * r) by (nonlinear_arith);
    assert(q * (provider + 1) == q * provider + q) by (nonlinear_arith);
    assert(q * (range + 1) == q * range + q) by (nonlinear_arith);
    assert(q >= 0 && provider < p ==> q * (provider + 1) <= q * p) by (nonlinear_arith);
    assert(q >= 0 && range < r ==> q * (range + 1) <= q * r) by (nonlinear_arith);
}

/// Booking a range's failures keeps what holds of every state.
proof fn end_range_keeps_wf(s: SessionView)
    requires
        s.wf(),
        s.stage == Stage::EndRange,
    ensures
        s.end_range().wf(),
{
    let t = s.end_range();
    let at = s.range as int;
    products(s);
    let rate = |range: Ranges| range.rate();
    let booked = t.ranges[at].rate();
    assert(t.ranges.map_values(rate) == s.ranges.map_values(rate).update(at, booked));
    sum_after_update(s.ranges.map_values(rate), at, booked);
    assert forall|i: int| 0 <= i < t.ranges.len() && i != at implies (#[trigger] t.ranges[i])
        == s.ranges[i] by {}
}

/// Booking a provider's failures keeps what holds of every state.
proof fn end_provider_keeps_wf(s: SessionView)
    requires
        s.wf(),
        s.stage == Stage::EndProvider,
    ensures
        s.end_provider().wf(),
{
    let t = s.end_provider();
    let at = s.provider as int;
    products(s);
    let rate = |provider: Providers| provider.rate();
    let booked = t.providers[at].rate();
    assert(t.providers.map_values(rate) == s.providers.map_values(rate).update(at, booked));
    sum_after_update(s.providers.map_values(rate), at, booked);
    assert forall|j: int| 0 <= j < t.providers.len() && j != at implies (#[trigger] t.providers[j])
        == s.providers[j] by {}
}

/// Whatever the providers answer, a step keeps what holds of every state.
pub proof fn steps_keep_wf(s: SessionView, ok: bool)
    requires
        s.wf(),
    ensures
        s.next(ok).wf(),
{
    match s.stage {
        Stage::EndRange => end_range_keeps_wf(s),
        Stage::EndProvider => end_provider_keeps_wf(s),
        _ => {},
    }
}

/// No failures in rates that are all zero.
proof fn sum_of_zeros(rates: Seq<SuccessRate>)
    requires
        forall|i: int| 0 <= i < rates.len() ==> (#[trigger] rates[i]).failures == 0,
    ensures
        crate::session::sum_of_failures(rates) == 0,
    decreases rates.len(),
{
    if rates.len() > 0 {
        sum_of_zeros(rates.drop_last());
    }
}

/// A session that begins with nothing asked for, with samples of the right size and with counts
/// that fit starts in a state of the kind that every step keeps.
pub proof fn fresh_sessions_are_wf(
    sample_size: nat,
    providers: Seq<Providers>,
    ranges: Seq<Ranges>,
)
    requires
        sample_size * ranges.len() * 3 <= usize::MAX,
        sample_size * 3 <= usize::MAX,
        sample_size * 3 * providers.len() <= u64::MAX,
        forall|i: int| 0 <= i < ranges.len() ==> (#[trigger] ranges[i]).rate() == SuccessRate::zero(),
        forall|i: int| 0 <= i < ranges.len() ==> (#[trigger] ranges[i]).sampled()@.len() == sample_size,
        forall|j: int|
            0 <= j < providers.len() ==> (#[trigger] providers[j]).rate() == SuccessRate::zero(),
    ensures
        SessionView::start(sample_size, providers, ranges).wf(),
{
    let s = SessionView::start(sample_size, providers, ranges);
    sum_of_zeros(ranges.map_values(|range: Ranges| range.rate()));
    sum_of_zeros(providers.map_values(|provider: Providers| provider.rate()));
    assert(s.items_per_range() * 0 == 0) by (nonlinear_arith);
}

/// Whatever the providers answer, every state of a session is of the kind that steps keep.
pub proof fn runs_keep_wf(s: SessionView, outcomes: Seq<bool>)
    requires
        s.wf(),
    ensures
        s.run(outcomes).wf(),
    decreases outcomes.len(),
{
    if outcomes.len() > 0 {
        runs_keep_wf(s, outcomes.drop_last());
        steps_keep_wf(s.run(outcomes.drop_last()), outcomes.last());
    }
}

/// Every provider is tested on the same blocks: no step changes the forks, the sampled blocks,
/// the providers' names or how many providers and ranges there are.
pub proof fn steps_keep_the_blocks(s: SessionView, ok: bool)
    requires
        s.wf(),
    ensures
        s.next(ok).sample_size == s.sample_size,
        s.next(ok).providers.len() == s.providers.len(),
        s.next(ok).ranges.len() == s.ranges.len(),
        forall|i: int|
            0 <= i < s.ranges.len() ==> {
                &&& (#[trigger] s.next(ok).ranges[i]).sampled() == s.ranges[i].sampled()
                &&& s.next(ok).ranges[i].fork() == s.ranges[i].fork()
            },
        forall|j: int|
            0 <= j < s.providers.len() ==> (#[trigger] s.next(ok).providers[j]).name()
                == s.providers[j].name(),
{
}

/// A finished session has asked every provider for every item of every range, counted no more
/// failures than items, and counted each failure once for a range and once for a provider.
pub proof fn finished_sessions_are_complete(s: SessionView)
    requires
        s.wf(),
        s.stage == Stage::Finished,
    ensures
        forall|i: int|
            0 <= i < s.ranges.len() ==> {
                &&& (#[trigger] s.ranges[i]).rate().total == s.items_per_range() * s.providers.len()
                &&& s.ranges[i].rate().failures <= s.ranges[i].rate().total
            },
        forall|j: int|
            0 <= j < s.providers.len() ==> {
                &&& (#[trigger] s.providers[j]).rate().total == s.items_per_provider()
                &&& s.providers[j].rate().failures <= s.providers[j].rate().total
            },
        crate::session::sum_of_failures(s.ranges.map_values(|range: Ranges| range.rate()))
            == crate::session::sum_of_failures(
            s.providers.map_values(|provider: Providers| provider.rate()),
        ),
{
    assert(s.items_per_range() * 0 == 0) by (nonlinear_arith);
}

/// An upper bound on the steps that a range takes: its beginning and end and four requests per
/// block.
pub open spec fn steps_per_range(s: SessionView) -> int {
    2 + 4 * s.sample_size as int
}

/// An upper bound on the steps that a provider takes: its connection and end and its ranges.
pub open spec fn steps_per_provider(s: SessionView) -> int {
    2 + steps_per_range(s) * s.ranges.len()
}

/// An upper bound on the steps that a session still takes.
pub open spec fn steps_left(s: SessionView) -> int {
    let providers = steps_per_provider(s) * (s.providers.len() - s.provider - 1);
    let ranges = steps_per_range(s) * (s.ranges.len() - s.range - 1);
    let blocks = 4 * (s.sample_size - s.block);
    match s.stage {
        Stage::Connect => providers + steps_per_provider(s),
        Stage::StartRange => providers + 1 + ranges + steps_per_range(s),
        Stage::EpochAcc => providers + 1 + ranges + 1 + blocks,
        Stage::Header => providers + 1 + ranges + 1 + blocks - 1,
        Stage::Receipts => providers + 1 + ranges + 1 + blocks - 2,
        Stage::BlockBody => providers + 1 + ranges + 1 + blocks - 3,
        Stage::EndRange => providers + 1 + ranges + 1,
        Stage::EndProvider => providers + 1,
        Stage::Finished => 0,
    }
}

/// Every step brings a session nearer to its end.
pub proof fn steps_bring_the_end_nearer(s: SessionView, ok: bool)
    requires
        s.wf(),
    ensures
        steps_left(s) >= 0,
        steps_left(s) == 0 <==> s.stage == Stage::Finished,
        s.stage != Stage::Finished ==> steps_left(s.next(ok)) < steps_left(s),
{
    let (r, p) = (s.ranges.len() as int, s.providers.len() as int);
    let (range, provider) = (s.range as int, s.provider as int);
    let (a, b) = (steps_per_range(s), steps_per_provider(s));
    assert(0 <= a * r) by (nonlinear_arith)
        requires
            0 <= a,
            0 <= r,
    ;
    assert(provider < p ==> 0 <= b * (p - provider - 1)) by (nonlinear_arith)
        requires
            0 <= b,
    ;
    assert(range < r ==> 0 <= a * (r - range - 1)) by (nonlinear_arith)
        requires
            0 <= a,
    ;
    assert(b * (p - (provider + 1) - 1) + b == b * (p - provider - 1)) by (nonlinear_arith);
    assert(a * (r - (range + 1) - 1) + a == a * (r - range - 1)) by (nonlinear_arith);
    assert(a * (r - 0 - 1) + a == a * r) by (nonlinear_arith);
    steps_keep_the_blocks(s, ok);
    assert(steps_per_range(s.next(ok)) == a);
    assert(steps_per_provider(s.next(ok)) == b);
}

/// Every session ends: after as many steps as `steps_left` says, whatever the providers
/// answered, it is finished.
pub proof fn sessions_end(s: SessionView, outcomes: Seq<bool>)
    requires
        s.wf(),
        outcomes.len() >= steps_left(s),
    ensures
        s.run(outcomes).stage == Stage::Finished,
{
    runs_use_up_steps(s, outcomes);
    runs_keep_wf(s, outcomes);
    steps_bring_the_end_nearer(s.run(outcomes), true);
}

/// A run that is not finished has used up a step of the bound for each outcome.
proof fn runs_use_up_steps(s: SessionView, outcomes: Seq<bool>)
    requires
        s.wf(),
    ensures
        s.run(outcomes).stage == Stage::Finished || steps_left(s.run(outcomes)) + outcomes.len()
            <= steps_left(s),
    decreases outcomes.len(),
{
    if outcomes.len() > 0 {
        let before = s.run(outcomes.drop_last());
        runs_use_up_steps(s, outcomes.drop_last());
        runs_keep_wf(s, outcomes.drop_last());
        steps_bring_the_end_nearer(before, outcomes.last());
    }
}

/// The forks, the sampled blocks and the providers' names are the same in every state of a
/// session.
pub proof fn runs_keep_the_blocks(s: SessionView, outcomes: Seq<bool>)
    requires
        s.wf(),
    ensures
        s.run(outcomes).sample_size == s.sample_size,
        s.run(outcomes).providers.len() == s.providers.len(),
        s.run(outcomes).ranges.len() == s.ranges.len(),
        forall|i: int|
            0 <= i < s.ranges.len() ==> {
                &&& (#[trigger] s.run(outcomes).ranges[i]).sampled() == s.ranges[i].sampled()
                &&& s.run(outcomes).ranges[i].fork() == s.ranges[i].fork()
            },
        forall|j: int|
            0 <= j < s.providers.len() ==> (#[trigger] s.run(outcomes).providers[j]).name()
                == s.providers[j].name(),
    decreases outcomes.len(),
{
    if outcomes.len() > 0 {
        let before = s.run(outcomes.drop_last());
        runs_keep_the_blocks(s, outcomes.drop_last());
        runs_keep_wf(s, outcomes.drop_last());
        steps_keep_the_blocks(before, outcomes.last());
        assert forall|i: int| 0 <= i < s.ranges.len() implies {
            &&& (#[trigger] s.run(outcomes).ranges[i]).sampled() == s.ranges[i].sampled()
            &&& s.run(outcomes).ranges[i].fork() == s.ranges[i].fork()
        } by {
            assert(before.ranges[i].sampled() == s.ranges[i].sampled());
            assert(before.next(outcomes.last()).ranges[i].sampled() == before.ranges[i].sampled());
        }
        assert forall|j: int| 0 <= j < s.providers.len() implies (#[trigger] s.run(
            outcomes,
        ).providers[j]).name() == s.providers[j].name() by {
            assert(before.providers[j].name() == s.providers[j].name());
            assert(before.next(outcomes.last()).providers[j].name() == before.providers[j].name());
        }
    }
}

/// Whether a session has begun with a block, given by the positions of the provider, of the
/// range and of the block.
spec fn reached(s: SessionView, provider: int, range: int, block: int) -> bool {
    ||| provider < s.provider
    ||| provider == s.provider && range < s.range
    ||| provider == s.provider && range == s.range && block < s.block
    ||| {
        &&& provider == s.provider && range == s.range && block == s.block
        &&& s.stage == Stage::EpochAcc || s.stage == Stage::Header || s.stage == Stage::Receipts
            || s.stage == Stage::BlockBody
    }
}

/// Whether a session begins with a block: it is about to look up its epoch accumulator.
pub open spec fn begins_with(s: SessionView, provider: int, range: int, block: int) -> bool {
    &&& s.stage == Stage::EpochAcc
    &&& s.provider == provider
    &&& s.range == range
    &&& s.block == block
}

/// A block that was reached is one that the session began with.
proof fn reached_blocks_were_begun_with(
    s: SessionView,
    outcomes: Seq<bool>,
    provider: int,
    range: int,
    block: int,
) -> (steps: int)
    requires
        s.wf(),
        0 <= range < s.ranges.len(),
        0 <= block < s.sample_size,
        !reached(s, provider, range, block),
        reached(s.run(outcomes), provider, range, block),
    ensures
        0 <= steps <= outcomes.len(),
        begins_with(s.run(outcomes.take(steps)), provider, range, block),
    decreases outcomes.len(),
{
    let init = outcomes.drop_last();
    let before = s.run(init);
    runs_keep_wf(s, init);
    runs_keep_the_blocks(s, init);
    if reached(before, provider, range, block) {
        let steps = reached_blocks_were_begun_with(s, init, provider, range, block);
        assert(init.take(steps) == outcomes.take(steps));
        steps
    } else {
        assert(outcomes.take(outcomes.len() as int) == outcomes);
        outcomes.len() as int
    }
}

/// Nothing is left out: by the time that a session is finished, whatever was answered, it has
/// begun with every sampled block of every range for every provider, and the block that it
/// asked about was the sampled one.
pub proof fn every_block_is_tested(
    s: SessionView,
    outcomes: Seq<bool>,
    provider: int,
    range: int,
    block: int,
) -> (steps: int)
    requires
        s.wf(),
        s == SessionView::start(s.sample_size, s.providers, s.ranges),
        s.run(outcomes).stage == Stage::Finished,
        0 <= provider < s.providers.len(),
        0 <= range < s.ranges.len(),
        0 <= block < s.sample_size,
    ensures
        0 <= steps <= outcomes.len(),
        begins_with(s.run(outcomes.take(steps)), provider, range, block),
        s.run(outcomes.take(steps)).action() == (Action::LookupEpochAcc {
            block: s.ranges[range].sampled()@[block],
        }),
{
    runs_keep_wf(s, outcomes);
    runs_keep_the_blocks(s, outcomes);
    let steps = reached_blocks_were_begun_with(s, outcomes, provider, range, block);
    let then = s.run(outcomes.take(steps));
    runs_keep_the_blocks(s, outcomes.take(steps));
    assert(then.ranges[range].sampled() == s.ranges[range].sampled());
    steps
}

/// What a block costs, by what the provider answers: three failures without an epoch
/// accumulator or a valid header, whatever is left out then, and else one for bad receipts and
/// one for a bad body.
pub proof fn block_costs(s: SessionView, receipts: bool, block_body: bool)
    requires
        s.wf(),
        s.stage == Stage::EpochAcc,
    ensures
        s.run(seq![false]) == s.fail(3).next_block(),
        s.run(seq![true, false]) == s.fail(3).next_block(),
        s.run(seq![true, true, receipts, block_body]) == s.fail(
            (if receipts {
                0nat
            } else {
                1nat
            }) + (if block_body {
                0nat
            } else {
                1nat
            }),
        ).next_block(),
{
    reveal_with_fuel(SessionView::run, 5);
    assert(seq![false].drop_last() == Seq::<bool>::empty());
    assert(seq![true, false].drop_last() == seq![true]);
    assert(seq![true].drop_last() == Seq::<bool>::empty());
    assert(seq![true, true, receipts, block_body].drop_last() == seq![true, true, receipts]);
    assert(seq![true, true, receipts].drop_last() == seq![true, true]);
    assert(seq![true, true].drop_last() == seq![true]);
}

/// The requests of a block are for that block: in every state of a session the number that is
/// asked about is that of the sampled block at the session's position, whichever of the four
/// requests it is.
pub proof fn requests_are_for_the_block_at_hand(s: SessionView, outcomes: Seq<bool>)
    requires
        s.wf(),
    ensures
        ({
            let t = s.run(outcomes);
            let block = s.ranges[t.range as int].sampled()@[t.block as int];
            &&& t.stage == Stage::EpochAcc ==> t.action() == (Action::LookupEpochAcc { block })
            &&& t.stage == Stage::Header ==> t.action() == (Action::GetHeader { block })
            &&& t.stage == Stage::Receipts ==> t.action() == (Action::GetReceipts { block })
            &&& t.stage == Stage::BlockBody ==> t.action() == (Action::GetBlockBody { block })
        }),
{
    let t = s.run(outcomes);
    runs_keep_wf(s, outcomes);
    runs_keep_the_blocks(s, outcomes);
    if t.range < t.ranges.len() {
        assert(t.ranges[t.range as int].sampled() == s.ranges[t.range as int].sampled());
    }
}

/// The requests of a block agree: after the lookup of a block's accumulator come its header, its
/// receipts and its body, and no other block's.
pub proof fn requests_of_a_block_agree(s: SessionView, block: u64, receipts: bool)
    requires
        s.wf(),
        s.action() == (Action::LookupEpochAcc { block }),
    ensures
        s.next(true).action() == (Action::GetHeader { block }),
        s.next(true).next(true).action() == (Action::GetReceipts { block }),
        s.next(true).next(true).next(receipts).action() == (Action::GetBlockBody { block }),
{
}

/// What `Session::action` gives names the block at hand, the provider and the range at hand, and
/// the failures and items that are booked.
pub proof fn actions_name_what_is_at_hand(session: Session, action: Action)
    requires
        session@.wf(),
        call_ensures(Session::action, (&session,), action),
    ensures
        ({
            let s = session@;
            let block = s.ranges[s.range as int].sampled()@[s.block as int];
            match s.stage {
                Stage::Connect => action is Connect && action->Connect_provider == s.provider,
                Stage::StartRange => action is StartRange && action->StartRange_range == s.range,
                Stage::EpochAcc => action == (Action::LookupEpochAcc { block }),
                Stage::Header => action == (Action::GetHeader { block }),
                Stage::Receipts => action == (Action::GetReceipts { block }),
                Stage::BlockBody => action == (Action::GetBlockBody { block }),
                Stage::EndRange => {
                    &&& action is EndRange
                    &&& action->EndRange_provider == s.provider
                    &&& action->EndRange_range == s.range
                    &&& action->EndRange_failures == s.range_failures
                    &&& action->EndRange_total == 3 * s.sample_size
                },
                Stage::EndProvider => {
                    &&& action is EndProvider
                    &&& action->EndProvider_provider == s.provider
                    &&& action->EndProvider_failures == s.provider_failures
                    &&& action->EndProvider_total == 3 * (s.sample_size * s.ranges.len())
                },
                Stage::Finished => action == Action::Finish,
            }
        }),
{
    let s = session@;
    products(s);
    crate::session::counters_fit(session);
}

/// What a step counts, by the outcome: three failures for a missing accumulator or a bad header,
/// one for bad receipts or a bad body, for the range and for the provider alike; nothing else is
/// counted and no rate changes.
pub proof fn requests_count_exactly(s: SessionView, ok: bool)
    requires
        s.wf(),
        s.stage == Stage::EpochAcc || s.stage == Stage::Header || s.stage == Stage::Receipts
            || s.stage == Stage::BlockBody,
    ensures
        ({
            let t = s.next(ok);
            let lost: int = if ok {
                0
            } else if s.stage == Stage::EpochAcc || s.stage == Stage::Header {
                3
            } else {
                1
            };
            let through = s.stage == Stage::BlockBody || lost == 3;
            &&& t.range_failures == s.range_failures + lost
            &&& t.provider_failures == s.provider_failures + lost
            &&& t.ranges == s.ranges
            &&& t.providers == s.providers
            &&& t.sample_size == s.sample_size
            &&& t.provider == s.provider
            &&& t.range == s.range
            &&& t.block == s.block + (if through {
                1int
            } else {
                0
            })
            &&& through && t.block < s.sample_size ==> t.stage == Stage::EpochAcc
            &&& through && t.block == s.sample_size ==> t.stage == Stage::EndRange
            &&& !through && s.stage == Stage::EpochAcc ==> t.stage == Stage::Header
            &&& !through && s.stage == Stage::Header ==> t.stage == Stage::Receipts
            &&& !through && s.stage == Stage::Receipts ==> t.stage == Stage::BlockBody
        }),
{
}

/// Connecting and beginning a range count nothing and lead on to the first range and to its first
/// block.
pub proof fn beginnings_count_nothing(s: SessionView, ok: bool)
    requires
        s.wf(),
        s.stage == Stage::Connect || s.stage == Stage::StartRange,
    ensures
        s.next(ok).ranges == s.ranges,
        s.next(ok).providers == s.providers,
        s.next(ok).sample_size == s.sample_size,
        s.next(ok).range_failures == s.range_failures,
        s.next(ok).provider_failures == s.provider_failures,
        s.next(ok).provider == s.provider,
        s.next(ok).range == s.range,
        s.next(ok).block == s.block,
        s.stage == Stage::Connect && s.ranges.len() > 0 ==> s.next(ok).stage == Stage::StartRange,
        s.stage == Stage::StartRange && s.sample_size > 0 ==> s.next(ok).stage == Stage::EpochAcc,
        s.stage == Stage::StartRange && s.sample_size == 0 ==> s.next(ok).stage == Stage::EndRange,
{
}

/// The end of a range books the provider's failures in it and three items per block on that range
/// alone, and starts the next range from nothing.
pub proof fn ranges_are_booked_exactly(s: SessionView, ok: bool, i: int)
    requires
        s.wf(),
        s.stage == Stage::EndRange,
        0 <= i < s.ranges.len(),
    ensures
        ({
            let t = s.next(ok);
            let (old_rate, new_rate) = (s.ranges[i].rate(), t.ranges[i].rate());
            &&& i == s.range ==> new_rate.failures == old_rate.failures + s.range_failures
            &&& i == s.range ==> new_rate.total == old_rate.total + 3 * s.sample_size
            &&& i != s.range ==> t.ranges[i] == s.ranges[i]
            &&& t.providers == s.providers
            &&& t.sample_size == s.sample_size
            &&& t.provider_failures == s.provider_failures
            &&& t.range_failures == 0
            &&& t.block == 0
            &&& t.provider == s.provider
            &&& t.range == s.range + 1
            &&& t.stage == (if t.range < s.ranges.len() {
                Stage::StartRange
            } else {
                Stage::EndProvider
            })
        }),
{
    products(s);
}

/// The end of a provider books its failures and three items per block of every range on that
/// provider alone, and starts the next provider from nothing.
pub proof fn providers_are_booked_exactly(s: SessionView, ok: bool, j: int)
    requires
        s.wf(),
        s.stage == Stage::EndProvider,
        0 <= j < s.providers.len(),
    ensures
        ({
            let t = s.next(ok);
            let (old_rate, new_rate) = (s.providers[j].rate(), t.providers[j].rate());
            &&& j == s.provider ==> new_rate.failures == old_rate.failures + s.provider_failures
            &&& j == s.provider ==> new_rate.total == old_rate.total + 3 * (s.sample_size
                * s.ranges.len())
            &&& j != s.provider ==> t.providers[j] == s.providers[j]
            &&& t.ranges == s.ranges
            &&& t.sample_size == s.sample_size
            &&& t.provider_failures == 0
            &&& t.range_failures == 0
            &&& t.provider == s.provider + 1
            &&& t.range == 0
            &&& t.block == 0
            &&& t.stage == (if t.provider < s.providers.len() {
                Stage::Connect
            } else {
                Stage::Finished
            })
        }),
{
    products(s);
}

/// Three items per block: a finished session has booked three for each block and provider on a
/// range, and three for each block of each range on a provider.
pub proof fn three_items_per_block(s: SessionView, i: int, j: int)
    requires
        s.wf(),
        s.stage == Stage::Finished,
        0 <= i < s.ranges.len(),
        0 <= j < s.providers.len(),
    ensures
        s.ranges[i].rate().total == 3 * (s.sample_size * s.providers.len()),
        s.providers[j].rate().total == 3 * (s.sample_size * s.ranges.len()),
{
    finished_sessions_are_complete(s);
    let (n, p) = (s.sample_size as int, s.providers.len() as int);
    assert((n * 3) * p == 3 * (n * p)) by (nonlinear_arith);
}

/// What `Session::start` gives: a session before its first step, with every provider and with the
/// asked number of blocks from the whole of every fork, none of them behind the head of the chain.
pub proof fn fresh_sessions(config: ProviderConfig, latest_block: u64, session: Session)
    requires
        latest_block > 17_034_870,
        call_ensures(Session::start, (&config, latest_block), session),
    ensures
        ({
            let s = session@;
            &&& s.stage == Stage::Connect
            &&& s.sample_size == config.sample_size
            &&& s.provider == 0 && s.range == 0 && s.block == 0
            &&& s.range_failures == 0 && s.provider_failures == 0
            &&& s.providers.len() == 4
            &&& s.providers[0] is PandaGeth && s.providers[1] is PandaErigon
            &&& s.providers[2] is PandaArchive && s.providers[3] is Infura
            &&& s.ranges.len() == 9
            &&& forall|j: int|
                0 <= j < 4 ==> {
                    &&& (#[trigger] s.providers[j]).rate().failures == 0
                    &&& s.providers[j].rate().total == 0
                }
            &&& forall|i: int|
                0 <= i < 9 ==> {
                    &&& (#[trigger] s.ranges[i]).fork() == i
                    &&& s.ranges[i].sampled()@.len() == config.sample_size
                    &&& s.ranges[i].rate().failures == 0
                    &&& s.ranges[i].rate().total == 0
                }
            &&& forall|i: int, k: int|
                0 <= i < 9 && 0 <= k < config.sample_size ==> (#[trigger] s.ranges[i].sampled()@[k])
                    < latest_block
            &&& crate::ranges::from_whole_forks(s.ranges, config.sample_size, latest_block)
        }),
{
    let s = session@;
    crate::ranges::sampled_ranges_are_from_whole_forks(s.ranges, config.sample_size, latest_block);
    assert forall|i: int, k: int| 0 <= i < 9 && 0 <= k < config.sample_size implies (
    #[trigger] s.ranges[i].sampled()@[k]) < latest_block by {
        crate::ranges::forks_end_with_the_chain(i, s.ranges[i].sampled()@[k], latest_block);
    }
}

/// What `Session::report` gives: a heading and the line of every range, a heading and the line of
/// every provider, and a last line.
pub proof fn reports_are_complete(session: Session, lines: Vec<String>)
    requires
        call_ensures(Session::report, (&session,), lines),
    ensures
        ({
            let (r, p) = (session@.ranges.len() as int, session@.providers.len() as int);
            &&& lines@.len() == r + p + 3
            &&& lines@[0]@ == "Range Summary:"@
            &&& forall|i: int| 1 <= i < 1 + r ==> (#[trigger] lines@[i])@ == session@.ranges[i - 1].summary()
            &&& lines@[1 + r]@ == "Provider Summary:"@
            &&& forall|j: int|
                2 + r <= j < 2 + r + p ==> (#[trigger] lines@[j])@ == session@.providers[j - 2
                    - r].summary()
            &&& lines@[2 + r + p]@ == "Finished testing providers"@
        }),
{
    let (r, p) = (session@.ranges.len() as int, session@.providers.len() as int);
    let texts = crate::session::texts(lines@);
    let report = session@.report();
    assert(texts == report);
    assert(report.len() == r + p + 3);
    assert(texts[0] == report[0]);
    assert forall|i: int| 1 <= i < 1 + r implies (#[trigger] lines@[i])@ == session@.ranges[i
        - 1].summary() by {
        assert(texts[i] == report[i]);
    }
    assert(texts[1 + r] == report[1 + r]);
    assert forall|j: int| 2 + r <= j < 2 + r + p implies (#[trigger] lines@[j])@
        == session@.providers[j - 2 - r].summary() by {
        assert(texts[j] == report[j]);
    }
    assert(texts[2 + r + p] == report[2 + r + p]);
}

/// What `Session::new` gives: a session that has done nothing yet, with the providers and the
/// ranges that it was given.
pub proof fn new_sessions_hold_what_they_are_given(
    sample_size: usize,
    providers: Vec<Providers>,
    ranges: Vec<Ranges>,
    session: Session,
)
    requires
        call_ensures(Session::new, (sample_size, providers, ranges), session),
    ensures
        session@.sample_size == sample_size,
        session@.providers == providers@,
        session@.ranges == ranges@,
        session@.stage == (if providers@.len() == 0 {
            Stage::Finished
        } else {
            Stage::Connect
        }),
        session@.provider == 0 && session@.range == 0 && session@.block == 0,
        session@.range_failures == 0 && session@.provider_failures == 0,
{
}

/// `Session::providers` and `Session::ranges` show what the session holds.
pub proof fn sessions_show_what_they_hold(
    session: Session,
    providers: &Vec<Providers>,
    ranges: &Vec<Ranges>,
)
    requires
        call_ensures(Session::providers, (&session,), providers),
        call_ensures(Session::ranges, (&session,), ranges),
    ensures
        providers@ == session@.providers,
        ranges@ == session@.ranges,
{
}

/// What has no range or is finished: a provider without ranges is through at once, and a finished
/// session stays as it is.
pub proof fn ends_without_work(s: SessionView, ok: bool)
    requires
        s.wf(),
    ensures
        s.stage == Stage::Connect && s.ranges.len() == 0 ==> s.next(ok).stage == Stage::EndProvider,
        s.stage == Stage::Finished ==> s.next(ok) == s,
{
}

/// A run is made of its steps: with one more outcome it is one step further.
pub proof fn runs_are_made_of_steps(s: SessionView, outcomes: Seq<bool>, ok: bool)
    ensures
        s.run(Seq::empty()) == s,
        s.run(outcomes.push(ok)) == s.run(outcomes).next(ok),
{
    assert(outcomes.push(ok).drop_last() == outcomes);
}

/// What `Session::advance` does: one step with the given outcome.
pub proof fn sessions_advance_by_steps(session: &mut Session, ok: bool)
    requires
        old(session)@.wf(),
        call_ensures(Session::advance, (session, ok), ()),
    ensures
        final(session)@ == old(session)@.next(ok),
        final(session)@.wf(),
{
}

} // verus!
