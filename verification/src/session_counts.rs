//! What the counts of a session mean: they are the sums of what each block cost.

use vstd::prelude::*;

use crate::session::{SessionView, Stage};

verus! {

/// What a provider would answer for one block.
pub struct Answer {
    pub epoch_acc: bool,
    pub header: bool,
    pub receipts: bool,
    pub block_body: bool,
}

/// The answers for each block, by the positions of the provider, of the range and of the block.
pub type Answers = spec_fn(int, int, int) -> Answer;

impl Answer {
    /// The failures that the block costs.
    pub open spec fn cost(self) -> nat {
        if !self.epoch_acc || !self.header {
            3
        } else {
            (if self.receipts {
                0nat
            } else {
                1nat
            }) + (if self.block_body {
                0nat
            } else {
                1nat
            })
        }
    }
}

/// What the first `blocks` blocks of a range cost a provider.
pub open spec fn cost_of_blocks(answers: Answers, provider: int, range: int, blocks: nat) -> nat
    decreases blocks,
{
    if blocks == 0 {
        0
    } else {
        cost_of_blocks(answers, provider, range, (blocks - 1) as nat) + answers(
            provider,
            range,
            blocks - 1,
        ).cost()
    }
}

/// What the first `ranges` ranges, of `blocks` blocks each, cost a provider.
pub open spec fn cost_to_provider(
    answers: Answers,
    provider: int,
    ranges: nat,
    blocks: nat,
) -> nat
    decreases ranges,
{
    if ranges == 0 {
        0
    } else {
        cost_to_provider(answers, provider, (ranges - 1) as nat, blocks) + cost_of_blocks(
            answers,
            provider,
            ranges - 1,
            blocks,
        )
    }
}

/// What a range of `blocks` blocks costs the first `providers` providers.
pub open spec fn cost_of_range(answers: Answers, providers: nat, range: int, blocks: nat) -> nat
    decreases providers,
{
    if providers == 0 {
        0
    } else {
        cost_of_range(answers, (providers - 1) as nat, range, blocks) + cost_of_blocks(
            answers,
            providers - 1,
            range,
            blocks,
        )
    }
}

/// The outcome of the request that a session is waiting for.
pub open spec fn outcome(s: SessionView, answers: Answers) -> bool {
    let answer = answers(s.provider as int, s.range as int, s.block as int);
    match s.stage {
        Stage::EpochAcc => answer.epoch_acc,
        Stage::Header => answer.header,
        Stage::Receipts => answer.receipts,
        Stage::BlockBody => answer.block_body,
        _ => true,
    }
}

/// A session after `steps` steps, the providers answering as they would.
pub open spec fn played(s: SessionView, answers: Answers, steps: nat) -> SessionView
    decreases steps,
{
    if steps == 0 {
        s
    } else {
        let before = played(s, answers, (steps - 1) as nat);
        before.next(outcome(before, answers))
    }
}

/// The counts are what the answers so far cost.
pub open spec fn counts_match(s: SessionView, answers: Answers) -> bool {
    let answer = answers(s.provider as int, s.range as int, s.block as int);
    &&& s.stage == Stage::Header || s.stage == Stage::Receipts || s.stage == Stage::BlockBody
        ==> answer.epoch_acc
    &&& s.stage == Stage::Receipts || s.stage == Stage::BlockBody ==> answer.header
    &&& s.range_failures == cost_of_blocks(answers, s.provider as int, s.range as int, s.block) + (
    if s.stage == Stage::BlockBody && !answer.receipts {
        1nat
    } else {
        0nat
    })
    &&& s.provider_failures == cost_to_provider(
        answers,
        s.provider as int,
        s.range,
        s.sample_size,
    ) + s.range_failures
    &&& forall|i: int|
        0 <= i < s.ranges.len() ==> (#[trigger] s.ranges[i]).rate().failures == cost_of_range(
            answers,
            if i < s.range {
                s.provider + 1
            } else {
                s.provider
            },
            i,
            s.sample_size,
        )
    &&& forall|j: int|
        0 <= j < s.providers.len() ==> (#[trigger] s.providers[j]).rate().failures == (if j
            < s.provider {
            cost_to_provider(answers, j, s.ranges.len(), s.sample_size)
        } else {
            0
        })
}

/// The forks, the sampled blocks and the providers' names are those of another state.
pub open spec fn same_ranges_and_providers(s: SessionView, t: SessionView) -> bool {
    &&& t.ranges.len() == s.ranges.len()
    &&& forall|i: int|
        0 <= i < s.ranges.len() ==> {
            &&& (#[trigger] t.ranges[i]).fork() == s.ranges[i].fork()
            &&& t.ranges[i].sampled() == s.ranges[i].sampled()
        }
    &&& t.providers.len() == s.providers.len()
    &&& forall|j: int|
        0 <= j < s.providers.len() ==> (#[trigger] t.providers[j]).name() == s.providers[j].name()
}

/// A session that starts with nothing asked for starts with matching counts.
proof fn start_matches(s: SessionView, answers: Answers)
    requires
        s.wf(),
        s == SessionView::start(s.sample_size, s.providers, s.ranges),
    ensures
        counts_match(s, answers),
{
    assert(s.items_per_range() * 0 == 0) by (nonlinear_arith);
    assert forall|i: int| 0 <= i < s.ranges.len() implies (#[trigger] s.ranges[i]).rate().failures
        == cost_of_range(answers, 0, i, s.sample_size) by {
        assert(s.ranges[i].rate().total == 0);
    }
}

/// A step keeps the counts matching.
proof fn steps_match(s: SessionView, answers: Answers)
    requires
        s.wf(),
        counts_match(s, answers),
    ensures
        counts_match(s.next(outcome(s, answers)), answers),
{
    crate::session_laws::products(s);
    let t = s.next(outcome(s, answers));
    match s.stage {
        Stage::EndRange => {
            assert forall|i: int| 0 <= i < t.ranges.len() && i != s.range implies (
            #[trigger] t.ranges[i]) == s.ranges[i] by {}
        },
        Stage::EndProvider => {
            assert forall|j: int| 0 <= j < t.providers.len() && j != s.provider implies (
            #[trigger] t.providers[j]) == s.providers[j] by {}
        },
        _ => {},
    }
}

/// Every state of a played session has matching counts.
proof fn plays_match(s: SessionView, answers: Answers, steps: nat)
    requires
        s.wf(),
        s == SessionView::start(s.sample_size, s.providers, s.ranges),
    ensures
        played(s, answers, steps).wf(),
        counts_match(played(s, answers, steps), answers),
        played(s, answers, steps).sample_size == s.sample_size,
        same_ranges_and_providers(s, played(s, answers, steps)),
        played(s, answers, steps).stage == Stage::Finished || crate::session_laws::steps_left(
            played(s, answers, steps),
        ) + steps <= crate::session_laws::steps_left(s),
    decreases steps,
{
    if steps == 0 {
        start_matches(s, answers);
    } else {
        let before = played(s, answers, (steps - 1) as nat);
        let ok = outcome(before, answers);
        plays_match(s, answers, (steps - 1) as nat);
        steps_match(before, answers);
        crate::session_laws::steps_keep_wf(before, ok);
        crate::session_laws::steps_keep_the_blocks(before, ok);
        crate::session_laws::steps_bring_the_end_nearer(before, ok);
        let after = before.next(ok);
        assert forall|i: int| 0 <= i < s.ranges.len() implies {
            &&& (#[trigger] after.ranges[i]).fork() == s.ranges[i].fork()
            &&& after.ranges[i].sampled() == s.ranges[i].sampled()
        } by {
            assert(before.ranges[i].fork() == s.ranges[i].fork());
        }
        assert forall|j: int| 0 <= j < s.providers.len() implies (#[trigger] after.providers[j]).name()
            == s.providers[j].name() by {
            assert(before.providers[j].name() == s.providers[j].name());
        }
    }
}

/// Played to its end, a session has booked on every range what its blocks cost all providers,
/// and on every provider what the blocks of all ranges cost it. The counts stand beside the forks,
/// the blocks and the names that the session started with.
pub proof fn sessions_count_what_blocks_cost(s: SessionView, answers: Answers, steps: nat)
    requires
        s.wf(),
        s == SessionView::start(s.sample_size, s.providers, s.ranges),
        steps >= crate::session_laws::steps_left(s),
    ensures
        played(s, answers, steps).wf(),
        played(s, answers, steps).stage == Stage::Finished,
        same_ranges_and_providers(s, played(s, answers, steps)),
        forall|i: int|
            0 <= i < s.ranges.len() ==> (#[trigger] played(
                s,
                answers,
                steps,
            ).ranges[i]).rate().failures == cost_of_range(
                answers,
                s.providers.len(),
                i,
                s.sample_size,
            ),
        forall|j: int|
            0 <= j < s.providers.len() ==> (#[trigger] played(
                s,
                answers,
                steps,
            ).providers[j]).rate().failures == cost_to_provider(
                answers,
                j,
                s.ranges.len(),
                s.sample_size,
            ),
{
    plays_match(s, answers, steps);
    crate::session_laws::steps_bring_the_end_nearer(played(s, answers, steps), true);
}

/// Blocks that all cost the same cost that much each.
proof fn uniform_blocks(answers: Answers, provider: int, range: int, blocks: nat, cost: nat)
    requires
        forall|block: int|
            0 <= block < blocks ==> (#[trigger] answers(provider, range, block)).cost() == cost,
    ensures
        cost_of_blocks(answers, provider, range, blocks) == cost * blocks,
    decreases blocks,
{
    if blocks == 0 {
        assert(cost * 0 == 0) by (nonlinear_arith);
    } else {
        uniform_blocks(answers, provider, range, (blocks - 1) as nat, cost);
        assert(cost * (blocks - 1) + cost == cost * blocks) by (nonlinear_arith);
    }
}

/// A provider on which every block costs the same has that many failures for each block: none
/// at all where it always answers well, and as many as there are items where it never does.
pub proof fn uniform_providers(
    answers: Answers,
    provider: int,
    ranges: nat,
    blocks: nat,
    cost: nat,
)
    requires
        forall|range: int, block: int|
            0 <= range < ranges && 0 <= block < blocks ==> (#[trigger] answers(
                provider,
                range,
                block,
            )).cost() == cost,
    ensures
        cost_to_provider(answers, provider, ranges, blocks) == blocks * ranges * cost,
    decreases ranges,
{
    if ranges == 0 {
        assert(blocks * 0 * cost == 0) by (nonlinear_arith);
    } else {
        uniform_providers(answers, provider, (ranges - 1) as nat, blocks, cost);
        uniform_blocks(answers, provider, ranges - 1, blocks, cost);
        assert(blocks * (ranges - 1) * cost + cost * blocks == blocks * ranges * cost)
            by (nonlinear_arith);
    }
}

} // verus!
