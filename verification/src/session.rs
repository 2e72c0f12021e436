//! A test session: which request comes next, and what its outcome does to the counts.
//!
//! Every provider is asked for three items of every sampled block: the header, the receipts and
//! the block body. Without an epoch accumulator or without a valid header the two other items
//! cannot be checked either, so the block counts as three failures.

use vstd::prelude::*;

use crate::config::ProviderConfig;
use crate::constants::SHANGHAI_BLOCK_NUMBER;
use crate::providers::{Providers, PROVIDER_COUNT};
use crate::ranges::{Ranges, RANGE_COUNT};
use crate::success_rate::SuccessRate;

verus! {

/// Items that a provider is asked for per block.
pub const ITEMS_PER_BLOCK: usize = 3;

/// What a session is about to do.
#[derive(Clone, Copy, Debug, PartialEq, Eq, Structural)]
pub enum Stage {
    /// Connect to the provider.
    Connect,
    /// Begin the range.
    StartRange,
    /// Look up the epoch accumulator of the block.
    EpochAcc,
    /// Ask for the header of the block.
    Header,
    /// Ask for the receipts of the block.
    Receipts,
    /// Ask for the body of the block.
    BlockBody,
    /// Book the failures on the range.
    EndRange,
    /// Book the failures on the provider.
    EndProvider,
    /// Nothing: every provider was tested.
    Finished,
}

/// What has to be done from outside before a session can go on.
#[derive(Clone, Copy, Debug, PartialEq, Eq, Structural)]
pub enum Action {
    /// Connect to the provider at this position.
    Connect { provider: usize },
    /// Begin the range at this position.
    StartRange { range: usize },
    /// Look up the epoch accumulator of a block.
    LookupEpochAcc { block: u64 },
    /// Ask for the header of a block.
    GetHeader { block: u64 },
    /// Ask for the receipts of a block.
    GetReceipts { block: u64 },
    /// Ask for the body of a block.
    GetBlockBody { block: u64 },
    /// Take note that the provider is through with the range.
    EndRange { provider: usize, range: usize, failures: u64, total: u64 },
    /// Take note that the provider was tested.
    EndProvider { provider: usize, failures: u64, total: u64 },
    /// Report.
    Finish,
}

/// The state of a session.
pub struct SessionView {
    pub sample_size: nat,
    pub providers: Seq<Providers>,
    pub ranges: Seq<Ranges>,
    pub stage: Stage,
    /// Providers that were tested; the next one is being tested.
    pub provider: nat,
    /// Ranges that this provider is through with; the next one is being tested.
    pub range: nat,
    /// Blocks of this range that the provider is through with; the next one is being tested.
    pub block: nat,
    /// Failures of this provider in this range.
    pub range_failures: nat,
    /// Failures of this provider.
    pub provider_failures: nat,
}

/// The texts of a list of lines.
pub open spec fn texts(lines: Seq<String>) -> Seq<Seq<char>> {
    lines.map_values(|line: String| line@)
}

/// One line for each range.
pub open spec fn range_summaries(ranges: Seq<Ranges>) -> Seq<Seq<char>> {
    ranges.map_values(|range: Ranges| range.summary())
}

/// One line for each provider.
pub open spec fn provider_summaries(providers: Seq<Providers>) -> Seq<Seq<char>> {
    providers.map_values(|provider: Providers| provider.summary())
}

/// All failures in a list of rates.
pub open spec fn sum_of_failures(rates: Seq<SuccessRate>) -> int
    decreases rates.len(),
{
    if rates.len() == 0 {
        0
    } else {
        sum_of_failures(rates.drop_last()) + rates.last().failures
    }
}

impl SessionView {
    /// The session before its first step.
    pub open spec fn start(
        sample_size: nat,
        providers: Seq<Providers>,
        ranges: Seq<Ranges>,
    ) -> SessionView {
        SessionView {
            sample_size,
            providers,
            ranges,
            stage: if providers.len() > 0 {
                Stage::Connect
            } else {
                Stage::Finished
            },
            provider: 0,
            range: 0,
            block: 0,
            range_failures: 0,
            provider_failures: 0,
        }
    }

    /// Items that a provider is asked for per range.
    pub open spec fn items_per_range(self) -> nat {
        self.sample_size * ITEMS_PER_BLOCK as nat
    }

    /// Items that a provider is asked for in all.
    pub open spec fn items_per_provider(self) -> nat {
        self.sample_size * self.ranges.len() * ITEMS_PER_BLOCK as nat
    }

    /// The number of the block that is being tested.
    pub open spec fn block_number(self) -> u64 {
        self.ranges[self.range as int].sampled()@[self.block as int]
    }

    /// Counts failures, for the range and for the provider.
    pub open spec fn fail(self, count: nat) -> SessionView {
        SessionView {
            range_failures: self.range_failures + count,
            provider_failures: self.provider_failures + count,
            ..self
        }
    }

    /// Goes on to the next block, or to the end of the range where there is none.
    pub open spec fn next_block(self) -> SessionView {
        SessionView {
            block: self.block + 1,
            stage: if self.block + 1 < self.ranges[self.range as int].sampled()@.len() {
                Stage::EpochAcc
            } else {
                Stage::EndRange
            },
            ..self
        }
    }

    /// Books the failures on the range and goes on to the next range, or to the end of the
    /// provider where there is none.
    pub open spec fn end_range(self) -> SessionView {
        let range = self.ranges[self.range as int];
        let rate = range.rate().plus(self.range_failures as u64, self.items_per_range() as u64);
        SessionView {
            ranges: self.ranges.update(self.range as int, range.with_rate(rate)),
            range: self.range + 1,
            block: 0,
            range_failures: 0,
            stage: if self.range + 1 < self.ranges.len() {
                Stage::StartRange
            } else {
                Stage::EndProvider
            },
            ..self
        }
    }

    /// Books the failures on the provider and goes on to the next provider, or to the end.
    pub open spec fn end_provider(self) -> SessionView {
        let provider = self.providers[self.provider as int];
        let rate = provider.rate().plus(
            self.provider_failures as u64,
            self.items_per_provider() as u64,
        );
        SessionView {
            providers: self.providers.update(self.provider as int, provider.with_rate(rate)),
            provider: self.provider + 1,
            range: 0,
            provider_failures: 0,
            stage: if self.provider + 1 < self.providers.len() {
                Stage::Connect
            } else {
                Stage::Finished
            },
            ..self
        }
    }

    /// The session after a step, `ok` being whether the request of this stage succeeded. Where a
    /// stage makes no request, `ok` does not matter.
    pub open spec fn next(self, ok: bool) -> SessionView {
        match self.stage {
            Stage::Connect => SessionView {
                stage: if self.ranges.len() > 0 {
                    Stage::StartRange
                } else {
                    Stage::EndProvider
                },
                ..self
            },
            Stage::StartRange => SessionView {
                stage: if self.ranges[self.range as int].sampled()@.len() > 0 {
                    Stage::EpochAcc
                } else {
                    Stage::EndRange
                },
                ..self
            },
            Stage::EpochAcc => if ok {
                SessionView { stage: Stage::Header, ..self }
            } else {
                self.fail(3).next_block()
            },
            Stage::Header => if ok {
                SessionView { stage: Stage::Receipts, ..self }
            } else {
                self.fail(3).next_block()
            },
            Stage::Receipts => {
                let counted = if ok {
                    self
                } else {
                    self.fail(1)
                };
                SessionView { stage: Stage::BlockBody, ..counted }
            },
            Stage::BlockBody => {
                let counted = if ok {
                    self
                } else {
                    self.fail(1)
                };
                counted.next_block()
            },
            Stage::EndRange => self.end_range(),
            Stage::EndProvider => self.end_provider(),
            Stage::Finished => self,
        }
    }

    /// The session after several steps.
    pub open spec fn run(self, outcomes: Seq<bool>) -> SessionView
        decreases outcomes.len(),
    {
        if outcomes.len() == 0 {
            self
        } else {
            self.run(outcomes.drop_last()).next(outcomes.last())
        }
    }

    /// What has to be done from outside before the session can go on.
    pub open spec fn action(self) -> Action {
        match self.stage {
            Stage::Connect => Action::Connect { provider: self.provider as usize },
            Stage::StartRange => Action::StartRange { range: self.range as usize },
            Stage::EpochAcc => Action::LookupEpochAcc { block: self.block_number() },
            Stage::Header => Action::GetHeader { block: self.block_number() },
            Stage::Receipts => Action::GetReceipts { block: self.block_number() },
            Stage::BlockBody => Action::GetBlockBody { block: self.block_number() },
            Stage::EndRange => Action::EndRange {
                provider: self.provider as usize,
                range: self.range as usize,
                failures: self.range_failures as u64,
                total: self.items_per_range() as u64,
            },
            Stage::EndProvider => Action::EndProvider {
                provider: self.provider as usize,
                failures: self.provider_failures as u64,
                total: self.items_per_provider() as u64,
            },
            Stage::Finished => Action::Finish,
        }
    }

    /// The lines that report how the ranges and the providers fared.
    pub open spec fn report(self) -> Seq<Seq<char>> {
        seq!["Range Summary:"@] + range_summaries(self.ranges) + seq!["Provider Summary:"@]
            + provider_summaries(self.providers) + seq!["Finished testing providers"@]
    }

    /// The position is one that the stage can have.
    pub open spec fn position_wf(self) -> bool {
        match self.stage {
            Stage::Connect => {
                &&& self.provider < self.providers.len()
                &&& self.range == 0
                &&& self.block == 0
            },
            Stage::StartRange => {
                &&& self.provider < self.providers.len()
                &&& self.range < self.ranges.len()
                &&& self.block == 0
            },
            Stage::EpochAcc | Stage::Header | Stage::Receipts | Stage::BlockBody => {
                &&& self.provider < self.providers.len()
                &&& self.range < self.ranges.len()
                &&& self.block < self.sample_size
            },
            Stage::EndRange => {
                &&& self.provider < self.providers.len()
                &&& self.range < self.ranges.len()
                &&& self.block == self.sample_size
            },
            Stage::EndProvider => {
                &&& self.provider < self.providers.len()
                &&& self.range == self.ranges.len()
                &&& self.block == 0
            },
            Stage::Finished => {
                &&& self.provider == self.providers.len()
                &&& self.range == 0
                &&& self.block == 0
            },
        }
    }

    /// Every item was counted: a range's total is that of the providers that are through with
    /// it, a provider's total that of all ranges once it was tested.
    pub open spec fn totals_wf(self) -> bool {
        &&& forall|i: int|
            0 <= i < self.ranges.len() ==> (#[trigger] self.ranges[i]).rate().total
                == self.items_per_range() * (if i < self.range {
                self.provider + 1
            } else {
                self.provider
            })
        &&& forall|j: int|
            0 <= j < self.providers.len() ==> (#[trigger] self.providers[j]).rate().total == (if j
                < self.provider {
                self.items_per_provider()
            } else {
                0
            })
    }

    /// There are no more failures than items.
    pub open spec fn failures_wf(self) -> bool {
        &&& forall|i: int|
            0 <= i < self.ranges.len() ==> (#[trigger] self.ranges[i]).rate().failures
                <= self.ranges[i].rate().total
        &&& forall|j: int|
            0 <= j < self.providers.len() ==> (#[trigger] self.providers[j]).rate().failures
                <= self.providers[j].rate().total
        &&& self.range_failures <= ITEMS_PER_BLOCK * self.block + (if self.stage == Stage::BlockBody {
            1int
        } else {
            0
        })
        &&& self.provider_failures <= self.items_per_range() * self.range + self.range_failures
    }

    /// All failures that were counted for ranges.
    pub open spec fn failures_by_range(self) -> int {
        sum_of_failures(self.ranges.map_values(|range: Ranges| range.rate())) + self.range_failures
    }

    /// All failures that were counted for providers.
    pub open spec fn failures_by_provider(self) -> int {
        sum_of_failures(self.providers.map_values(|provider: Providers| provider.rate()))
            + self.provider_failures
    }

    /// What holds of every state of a session.
    pub open spec fn wf(self) -> bool {
        &&& self.items_per_provider() <= usize::MAX
        &&& self.items_per_range() <= usize::MAX
        &&& self.items_per_range() * self.providers.len() <= u64::MAX
        &&& forall|i: int|
            0 <= i < self.ranges.len() ==> (#[trigger] self.ranges[i]).sampled()@.len()
                == self.sample_size
        &&& self.position_wf()
        &&& self.totals_wf()
        &&& self.failures_wf()
        &&& self.failures_by_range() == self.failures_by_provider()
    }
}

/// A test session.
pub struct Session {
    sample_size: usize,
    providers: Vec<Providers>,
    ranges: Vec<Ranges>,
    stage: Stage,
    provider: usize,
    range: usize,
    block: usize,
    range_failures: u64,
    provider_failures: u64,
}

impl View for Session {
    type V = SessionView;

    closed spec fn view(&self) -> SessionView {
        SessionView {
            sample_size: self.sample_size as nat,
            providers: self.providers@,
            ranges: self.ranges@,
            stage: self.stage,
            provider: self.provider as nat,
            range: self.range as nat,
            block: self.block as nat,
            range_failures: self.range_failures as nat,
            provider_failures: self.provider_failures as nat,
        }
    }
}

impl Session {
    /// A session that tests the given providers on the given ranges, of which nothing was asked
    /// for yet and which hold `sample_size` blocks each.
    pub fn new(sample_size: usize, providers: Vec<Providers>, ranges: Vec<Ranges>) -> (session:
        Session)
        requires
            sample_size * ranges@.len() * ITEMS_PER_BLOCK <= usize::MAX,
            sample_size * ITEMS_PER_BLOCK <= usize::MAX,
            sample_size * ITEMS_PER_BLOCK * providers@.len() <= u64::MAX,
            forall|i: int|
                0 <= i < ranges@.len() ==> (#[trigger] ranges@[i]).rate() == SuccessRate::zero(),
            forall|i: int|
                0 <= i < ranges@.len() ==> (#[trigger] ranges@[i]).sampled()@.len() == sample_size,
            forall|j: int|
                0 <= j < providers@.len() ==> (#[trigger] providers@[j]).rate()
                    == SuccessRate::zero(),
        ensures
            session@.wf(),
            session@ == SessionView::start(sample_size as nat, providers@, ranges@),
    {
        proof {
            crate::session_laws::fresh_sessions_are_wf(sample_size as nat, providers@, ranges@);
        }
        Session {
            sample_size,
            stage: if providers.len() > 0 {
                Stage::Connect
            } else {
                Stage::Finished
            },
            providers,
            ranges,
            provider: 0,
            range: 0,
            block: 0,
            range_failures: 0,
            provider_failures: 0,
        }
    }

    /// A session that tests every provider on fresh samples of every range.
    pub fn start(config: &ProviderConfig, latest_block: u64) -> (session: Session)
        requires
            latest_block > SHANGHAI_BLOCK_NUMBER,
            config.sample_size * RANGE_COUNT * ITEMS_PER_BLOCK <= usize::MAX,
        ensures
            session@.wf(),
            session@ == SessionView::start(
                config.sample_size as nat,
                session@.providers,
                session@.ranges,
            ),
            session@.providers == crate::providers::all_providers(),
            crate::ranges::sampled_ranges(session@.ranges, config.sample_size, latest_block),
            crate::ranges::can_come_out(session@.ranges, config.sample_size, latest_block),
    {
        let ranges = Ranges::into_vec(config.sample_size, latest_block);
        let providers = Providers::into_vec();
        assert(providers@.len() == PROVIDER_COUNT);
        Session::new(config.sample_size, providers, ranges)
    }

    /// The providers, in the order in which they are tested.
    pub fn providers(&self) -> (providers: &Vec<Providers>)
        ensures
            providers@ == self@.providers,
    {
        &self.providers
    }

    /// The ranges, in the order in which they are tested.
    pub fn ranges(&self) -> (ranges: &Vec<Ranges>)
        ensures
            ranges@ == self@.ranges,
    {
        &self.ranges
    }

    /// What has to be done from outside before the session can go on.
    pub fn action(&self) -> (action: Action)
        requires
            self@.wf(),
        ensures
            action == self@.action(),
    {
        proof {
            crate::session_laws::products(self@);
        }
        match self.stage {
            Stage::Connect => Action::Connect { provider: self.provider },
            Stage::StartRange => Action::StartRange { range: self.range },
            Stage::EpochAcc => Action::LookupEpochAcc { block: self.block_number() },
            Stage::Header => Action::GetHeader { block: self.block_number() },
            Stage::Receipts => Action::GetReceipts { block: self.block_number() },
            Stage::BlockBody => Action::GetBlockBody { block: self.block_number() },
            Stage::EndRange => Action::EndRange {
                provider: self.provider,
                range: self.range,
                failures: self.range_failures,
                total: self.items_per_range(),
            },
            Stage::EndProvider => Action::EndProvider {
                provider: self.provider,
                failures: self.provider_failures,
                total: self.items_per_provider(),
            },
            Stage::Finished => Action::Finish,
        }
    }

    /// Takes a step, `ok` being whether the request that the session was waiting for succeeded.
    /// Where it was waiting for none, `ok` does not matter.
    pub fn advance(&mut self, ok: bool)
        requires
            old(self)@.wf(),
        ensures
            final(self)@ == old(self)@.next(ok),
            final(self)@.wf(),
    {
        proof {
            crate::session_laws::steps_keep_wf(self@, ok);
            crate::session_laws::products(self@);
        }
        match self.stage {
            Stage::Connect => {
                self.stage = if self.ranges.len() > 0 {
                    Stage::StartRange
                } else {
                    Stage::EndProvider
                };
            }
            Stage::StartRange => {
                self.stage = if self.ranges[self.range].blocks().len() > 0 {
                    Stage::EpochAcc
                } else {
                    Stage::EndRange
                };
            }
            Stage::EpochAcc => {
                if ok {
                    self.stage = Stage::Header;
                } else {
                    self.fail(3);
                    self.next_block();
                }
            }
            Stage::Header => {
                if ok {
                    self.stage = Stage::Receipts;
                } else {
                    self.fail(3);
                    self.next_block();
                }
            }
            Stage::Receipts => {
                if !ok {
                    self.fail(1);
                }
                self.stage = Stage::BlockBody;
            }
            Stage::BlockBody => {
                if !ok {
                    self.fail(1);
                }
                self.next_block();
            }
            Stage::EndRange => self.end_range(),
            Stage::EndProvider => self.end_provider(),
            Stage::Finished => {}
        }
    }

    /// The lines that report how the ranges and the providers fared.
    pub fn report(&self) -> (lines: Vec<String>)
        ensures
            texts(lines@) == self@.report(),
    {
        let mut lines: Vec<String> = Vec::new();
        lines.push("Range Summary:".to_owned());
        let ghost head = texts(lines@);
        assert(head == seq!["Range Summary:"@]);
        let mut i: usize = 0;
        while i < self.ranges.len()
            invariant
                i <= self.ranges@.len(),
                texts(lines@) == head + range_summaries(self.ranges@.take(i as int)),
            decreases self.ranges@.len() - i,
        {
            let line = self.ranges[i].display_summary();
            assert(range_summaries(self.ranges@.take(i + 1)) == range_summaries(
                self.ranges@.take(i as int),
            ).push(line@));
            assert(texts(lines@.push(line)) == texts(lines@).push(line@));
            lines.push(line);
            i += 1;
        }
        assert(self.ranges@.take(i as int) == self.ranges@);
        lines.push("Provider Summary:".to_owned());
        let ghost head = texts(lines@);
        assert(head == seq!["Range Summary:"@] + range_summaries(self.ranges@)
            + seq!["Provider Summary:"@]);
        let mut j: usize = 0;
        while j < self.providers.len()
            invariant
                j <= self.providers@.len(),
                texts(lines@) == head + provider_summaries(self.providers@.take(j as int)),
            decreases self.providers@.len() - j,
        {
            let line = self.providers[j].display_summary();
            assert(provider_summaries(self.providers@.take(j + 1)) == provider_summaries(
                self.providers@.take(j as int),
            ).push(line@));
            assert(texts(lines@.push(line)) == texts(lines@).push(line@));
            lines.push(line);
            j += 1;
        }
        assert(self.providers@.take(j as int) == self.providers@);
        lines.push("Finished testing providers".to_owned());
        assert(texts(lines@) == self@.report());
        lines
    }

    fn block_number(&self) -> (block: u64)
        requires
            self@.range < self@.ranges.len(),
            self@.block < self@.ranges[self@.range as int].sampled()@.len(),
        ensures
            block == self@.block_number(),
    {
        self.ranges[self.range].blocks()[self.block]
    }

    fn items_per_range(&self) -> (items: u64)
        requires
            self@.items_per_range() <= usize::MAX,
        ensures
            items == self@.items_per_range(),
    {
        (self.sample_size * ITEMS_PER_BLOCK) as u64
    }

    fn items_per_provider(&self) -> (items: u64)
        requires
            self@.items_per_provider() <= usize::MAX,
        ensures
            items == self@.items_per_provider(),
    {
        (self.sample_size * self.ranges.len() * ITEMS_PER_BLOCK) as u64
    }

    fn fail(&mut self, count: u64)
        requires
            old(self)@.range_failures + count <= u64::MAX,
            old(self)@.provider_failures + count <= u64::MAX,
        ensures
            final(self)@ == old(self)@.fail(count as nat),
    {
        self.range_failures += count;
        self.provider_failures += count;
    }

    fn next_block(&mut self)
        requires
            old(self)@.range < old(self)@.ranges.len(),
            old(self)@.block < old(self)@.ranges[old(self)@.range as int].sampled()@.len(),
        ensures
            final(self)@ == old(self)@.next_block(),
    {
        let count = self.ranges[self.range].blocks().len();
        self.block += 1;
        self.stage = if self.block < count {
            Stage::EpochAcc
        } else {
            Stage::EndRange
        };
    }

    fn end_range(&mut self)
        requires
            old(self)@.wf(),
            old(self)@.stage == Stage::EndRange,
        ensures
            final(self)@ == old(self)@.end_range(),
    {
        proof {
            crate::session_laws::products(self@);
        }
        let failures = self.range_failures;
        let total = self.items_per_range();
        let range = self.range;
        let count = self.ranges.len();
        self.ranges[range].update_success_rate(failures, total);
        self.range += 1;
        self.block = 0;
        self.range_failures = 0;
        self.stage = if self.range < count {
            Stage::StartRange
        } else {
            Stage::EndProvider
        };
    }

    fn end_provider(&mut self)
        requires
            old(self)@.wf(),
            old(self)@.stage == Stage::EndProvider,
        ensures
            final(self)@ == old(self)@.end_provider(),
    {
        proof {
            crate::session_laws::products(self@);
        }
        let failures = self.provider_failures;
        let total = self.items_per_provider();
        let provider = self.provider;
        let count = self.providers.len();
        self.providers[provider].update_success_rate(failures, total);
        self.provider += 1;
        self.range = 0;
        self.provider_failures = 0;
        self.stage = if self.provider < count {
            Stage::Connect
        } else {
            Stage::Finished
        };
    }
}

/// A session's positions and counts are those of the machine.
pub(crate) proof fn counters_fit(session: Session)
    ensures
        session@.provider <= usize::MAX,
        session@.range <= usize::MAX,
        session@.range_failures <= u64::MAX,
        session@.provider_failures <= u64::MAX,
{
}

} // verus!
