//! The hard fork ranges that blocks are sampled from.

use vstd::prelude::*;

use crate::constants::{
    BERLIN_BLOCK_NUMBER, BYZANTIUM_BLOCK_NUMBER, CONSTANTINOPLE_BLOCK_NUMBER,
    HOMESTEAD_BLOCK_NUMBER, ISTANBUL_BLOCK_NUMBER, LONDON_BLOCK_NUMBER, MERGE_BLOCK_NUMBER,
    SHANGHAI_BLOCK_NUMBER,
};
use crate::sampling::sample_blocks;
use crate::success_rate::SuccessRate;
use crate::text::decimal_text;

verus! {

/// A hard fork, the blocks that were sampled from it and how the providers fared on them.
///
/// The blocks are kept, so that every provider is tested on the same ones.
#[derive(Debug, PartialEq)]
pub enum Ranges {
    Frontier((Vec<u64>, SuccessRate)),
    Homestead((Vec<u64>, SuccessRate)),
    Byzantium((Vec<u64>, SuccessRate)),
    Constantinople((Vec<u64>, SuccessRate)),
    Istanbul((Vec<u64>, SuccessRate)),
    Berlin((Vec<u64>, SuccessRate)),
    London((Vec<u64>, SuccessRate)),
    Merge((Vec<u64>, SuccessRate)),
    Shanghai((Vec<u64>, SuccessRate)),
}

/// Number of hard fork ranges.
pub const RANGE_COUNT: usize = 9;

/// The first block of each fork in the order of time, and behind the last fork the block that
/// ends the search.
pub open spec fn fork_start(fork: int, latest_block: u64) -> u64 {
    if fork == 0 {
        0
    } else if fork == 1 {
        HOMESTEAD_BLOCK_NUMBER
    } else if fork == 2 {
        BYZANTIUM_BLOCK_NUMBER
    } else if fork == 3 {
        CONSTANTINOPLE_BLOCK_NUMBER
    } else if fork == 4 {
        ISTANBUL_BLOCK_NUMBER
    } else if fork == 5 {
        BERLIN_BLOCK_NUMBER
    } else if fork == 6 {
        LONDON_BLOCK_NUMBER
    } else if fork == 7 {
        MERGE_BLOCK_NUMBER
    } else if fork == 8 {
        SHANGHAI_BLOCK_NUMBER
    } else {
        latest_block
    }
}

/// Whether a block belongs to a fork, for a chain that is searched up to but without
/// `latest_block`.
pub open spec fn in_fork(fork: int, block: u64, latest_block: u64) -> bool {
    fork_start(fork, latest_block) <= block < fork_start(fork + 1, latest_block)
}

/// Every range in the order of time, with nothing asked for yet and with as many blocks as were
/// to be sampled, all of that fork and drawn from the whole of it.
pub open spec fn sampled_ranges(ranges: Seq<Ranges>, sample_size: usize, latest_block: u64) -> bool {
    &&& ranges.len() == RANGE_COUNT
    &&& forall|i: int| 0 <= i < RANGE_COUNT ==> (#[trigger] ranges[i]).fork() == i
    &&& forall|i: int|
        0 <= i < RANGE_COUNT ==> (#[trigger] ranges[i]).rate() == SuccessRate::zero()
    &&& forall|i: int|
        0 <= i < RANGE_COUNT ==> (#[trigger] ranges[i]).sampled()@.len() == sample_size
    &&& forall|i: int, j: int|
        0 <= i < RANGE_COUNT && 0 <= j < sample_size ==> in_fork(
            i,
            #[trigger] ranges[i].sampled()@[j],
            latest_block,
        )
    &&& forall|i: int|
        0 <= i < RANGE_COUNT ==> call_ensures(
            sample_blocks,
            (fork_start(i, latest_block), fork_start(i + 1, latest_block), sample_size),
            (#[trigger] ranges[i]).sampled(),
        )
}

/// A source of chance: what it gives for a fork and a position in the sample when a block is
/// drawn from a first block up to but without another.
pub type Source = spec_fn(int, int, u64, u64) -> u64;

/// A source gives numbers of the range that is drawn from.
pub open spec fn lawful(source: Source) -> bool {
    forall|fork: int, position: int, start: u64, end: u64|
        start < end ==> start <= #[trigger] source(fork, position, start, end) < end
}

/// The sample of a fork that a source gives.
pub open spec fn sample_of(
    source: Source,
    fork: int,
    sample_size: usize,
    latest_block: u64,
) -> Seq<u64> {
    Seq::new(
        sample_size as nat,
        |position: int|
            source(
                fork,
                position,
                fork_start(fork, latest_block),
                fork_start(fork + 1, latest_block),
            ),
    )
}

/// Ranges that come out when chance is what the source gives: every sample is the source's, each
/// of its blocks is one that a draw from the whole of the fork gave, and nothing was asked for
/// yet.
pub open spec fn drawn_from(
    ranges: Seq<Ranges>,
    source: Source,
    sample_size: usize,
    latest_block: u64,
) -> bool {
    &&& ranges.len() == RANGE_COUNT
    &&& forall|i: int|
        0 <= i < RANGE_COUNT ==> {
            &&& (#[trigger] ranges[i]).fork() == i
            &&& ranges[i].rate() == SuccessRate::zero()
            &&& ranges[i].sampled()@ == sample_of(source, i, sample_size, latest_block)
        }
    &&& forall|i: int, j: int|
        0 <= i < RANGE_COUNT && 0 <= j < sample_size ==> crate::sampling::can_be_drawn(
            fork_start(i, latest_block),
            fork_start(i + 1, latest_block),
            #[trigger] ranges[i].sampled()@[j],
        )
}

/// Ranges that come out with some source of chance.
pub open spec fn can_come_out(ranges: Seq<Ranges>, sample_size: usize, latest_block: u64) -> bool {
    exists|source: Source|
        lawful(source) && #[trigger] drawn_from(ranges, source, sample_size, latest_block)
}

impl Ranges {
    /// The position of the fork in the order of time.
    pub open spec fn fork(self) -> int {
        match self {
            Ranges::Frontier(_) => 0,
            Ranges::Homestead(_) => 1,
            Ranges::Byzantium(_) => 2,
            Ranges::Constantinople(_) => 3,
            Ranges::Istanbul(_) => 4,
            Ranges::Berlin(_) => 5,
            Ranges::London(_) => 6,
            Ranges::Merge(_) => 7,
            Ranges::Shanghai(_) => 8,
        }
    }

    /// What the variant holds.
    pub open spec fn content(self) -> (Vec<u64>, SuccessRate) {
        match self {
            Ranges::Frontier(content) => content,
            Ranges::Homestead(content) => content,
            Ranges::Byzantium(content) => content,
            Ranges::Constantinople(content) => content,
            Ranges::Istanbul(content) => content,
            Ranges::Berlin(content) => content,
            Ranges::London(content) => content,
            Ranges::Merge(content) => content,
            Ranges::Shanghai(content) => content,
        }
    }

    /// The sampled blocks.
    pub open spec fn sampled(self) -> Vec<u64> {
        self.content().0
    }

    /// How the providers fared so far.
    pub open spec fn rate(self) -> SuccessRate {
        self.content().1
    }

    /// The same fork and blocks with another rate.
    pub open spec fn with_rate(self, rate: SuccessRate) -> Ranges {
        match self {
            Ranges::Frontier((blocks, _)) => Ranges::Frontier((blocks, rate)),
            Ranges::Homestead((blocks, _)) => Ranges::Homestead((blocks, rate)),
            Ranges::Byzantium((blocks, _)) => Ranges::Byzantium((blocks, rate)),
            Ranges::Constantinople((blocks, _)) => Ranges::Constantinople((blocks, rate)),
            Ranges::Istanbul((blocks, _)) => Ranges::Istanbul((blocks, rate)),
            Ranges::Berlin((blocks, _)) => Ranges::Berlin((blocks, rate)),
            Ranges::London((blocks, _)) => Ranges::London((blocks, rate)),
            Ranges::Merge((blocks, _)) => Ranges::Merge((blocks, rate)),
            Ranges::Shanghai((blocks, _)) => Ranges::Shanghai((blocks, rate)),
        }
    }

    /// The name of the fork.
    pub open spec fn name(self) -> Seq<char> {
        match self {
            Ranges::Frontier(_) => "Frontier"@,
            Ranges::Homestead(_) => "Homestead"@,
            Ranges::Byzantium(_) => "Byzantium"@,
            Ranges::Constantinople(_) => "Constantinople"@,
            Ranges::Istanbul(_) => "Istanbul"@,
            Ranges::Berlin(_) => "Berlin"@,
            Ranges::London(_) => "London"@,
            Ranges::Merge(_) => "Merge"@,
            Ranges::Shanghai(_) => "Shanghai"@,
        }
    }

    /// The line that sums up the fork.
    pub open spec fn summary(self) -> Seq<char> {
        "Range: "@ + self.name() + " // Failure Rate: "@ + crate::text::decimal(
            self.rate().failures as nat,
        ) + "/"@ + crate::text::decimal(self.rate().total as nat)
    }

    /// The name of the fork.
    pub fn to_string(&self) -> (name: String)
        ensures
            name@ == self.name(),
    {
        let name = match self {
            Ranges::Frontier(_) => "Frontier",
            Ranges::Homestead(_) => "Homestead",
            Ranges::Byzantium(_) => "Byzantium",
            Ranges::Constantinople(_) => "Constantinople",
            Ranges::Istanbul(_) => "Istanbul",
            Ranges::Berlin(_) => "Berlin",
            Ranges::London(_) => "London",
            Ranges::Merge(_) => "Merge",
            Ranges::Shanghai(_) => "Shanghai",
        };
        name.to_owned()
    }

    /// The line that sums up how the providers fared on this fork.
    pub fn display_summary(&self) -> (line: String)
        ensures
            line@ == self.summary(),
    {
        let success_rate = match self {
            Ranges::Frontier((_, success_rate))
            | Ranges::Homestead((_, success_rate))
            | Ranges::Byzantium((_, success_rate))
            | Ranges::Constantinople((_, success_rate))
            | Ranges::Istanbul((_, success_rate))
            | Ranges::Berlin((_, success_rate))
            | Ranges::London((_, success_rate))
            | Ranges::Merge((_, success_rate))
            | Ranges::Shanghai((_, success_rate)) => success_rate,
        };
        let mut line = "Range: ".to_owned();
        line.append(self.to_string().as_str());
        line.append(" // Failure Rate: ");
        line.append(decimal_text(success_rate.failures).as_str());
        line.append("/");
        line.append(decimal_text(success_rate.total).as_str());
        line
    }

    /// The sampled blocks.
    pub fn blocks(&self) -> (blocks: &Vec<u64>)
        ensures
            *blocks == self.sampled(),
    {
        match self {
            Ranges::Frontier((blocks, _))
            | Ranges::Homestead((blocks, _))
            | Ranges::Byzantium((blocks, _))
            | Ranges::Constantinople((blocks, _))
            | Ranges::Istanbul((blocks, _))
            | Ranges::Berlin((blocks, _))
            | Ranges::London((blocks, _))
            | Ranges::Merge((blocks, _))
            | Ranges::Shanghai((blocks, _)) => blocks,
        }
    }

    /// Adds the counts of a further round.
    pub fn update_success_rate(&mut self, failures: u64, total: u64)
        requires
            old(self).rate().has_room(failures, total),
        ensures
            *final(self) == old(self).with_rate(old(self).rate().plus(failures, total)),
    {
        match self {
            Ranges::Frontier((_, success_rate)) => success_rate.add_round(failures, total),
            Ranges::Homestead((_, success_rate)) => success_rate.add_round(failures, total),
            Ranges::Byzantium((_, success_rate)) => success_rate.add_round(failures, total),
            Ranges::Constantinople((_, success_rate)) => success_rate.add_round(failures, total),
            Ranges::Istanbul((_, success_rate)) => success_rate.add_round(failures, total),
            Ranges::Berlin((_, success_rate)) => success_rate.add_round(failures, total),
            Ranges::London((_, success_rate)) => success_rate.add_round(failures, total),
            Ranges::Merge((_, success_rate)) => success_rate.add_round(failures, total),
            Ranges::Shanghai((_, success_rate)) => success_rate.add_round(failures, total),
        }
    }

    /// The ranges for given samples, one of each fork in the order of time, with nothing asked
    /// for yet.
    pub fn from_samples(
        frontier: Vec<u64>,
        homestead: Vec<u64>,
        byzantium: Vec<u64>,
        constantinople: Vec<u64>,
        istanbul: Vec<u64>,
        berlin: Vec<u64>,
        london: Vec<u64>,
        merge: Vec<u64>,
        shanghai: Vec<u64>,
    ) -> (ranges: Vec<Ranges>)
        ensures
            ranges@ == seq![
                Ranges::Frontier((frontier, SuccessRate::zero())),
                Ranges::Homestead((homestead, SuccessRate::zero())),
                Ranges::Byzantium((byzantium, SuccessRate::zero())),
                Ranges::Constantinople((constantinople, SuccessRate::zero())),
                Ranges::Istanbul((istanbul, SuccessRate::zero())),
                Ranges::Berlin((berlin, SuccessRate::zero())),
                Ranges::London((london, SuccessRate::zero())),
                Ranges::Merge((merge, SuccessRate::zero())),
                Ranges::Shanghai((shanghai, SuccessRate::zero())),
            ],
    {
        vec![
            Ranges::Frontier((frontier, SuccessRate::default())),
            Ranges::Homestead((homestead, SuccessRate::default())),
            Ranges::Byzantium((byzantium, SuccessRate::default())),
            Ranges::Constantinople((constantinople, SuccessRate::default())),
            Ranges::Istanbul((istanbul, SuccessRate::default())),
            Ranges::Berlin((berlin, SuccessRate::default())),
            Ranges::London((london, SuccessRate::default())),
            Ranges::Merge((merge, SuccessRate::default())),
            Ranges::Shanghai((shanghai, SuccessRate::default())),
        ]
    }

    /// Samples `sample_size` blocks of each fork. The last fork reaches up to `latest_block`,
    /// which has to lie behind its first block.
    pub fn into_vec(sample_size: usize, latest_block: u64) -> (ranges: Vec<Ranges>)
        requires
            latest_block > SHANGHAI_BLOCK_NUMBER,
        ensures
            sampled_ranges(ranges@, sample_size, latest_block),
            can_come_out(ranges@, sample_size, latest_block),
    {
        let ranges = Ranges::from_samples(
            sample_blocks(0, HOMESTEAD_BLOCK_NUMBER, sample_size),
            sample_blocks(HOMESTEAD_BLOCK_NUMBER, BYZANTIUM_BLOCK_NUMBER, sample_size),
            sample_blocks(BYZANTIUM_BLOCK_NUMBER, CONSTANTINOPLE_BLOCK_NUMBER, sample_size),
            sample_blocks(CONSTANTINOPLE_BLOCK_NUMBER, ISTANBUL_BLOCK_NUMBER, sample_size),
            sample_blocks(ISTANBUL_BLOCK_NUMBER, BERLIN_BLOCK_NUMBER, sample_size),
            sample_blocks(BERLIN_BLOCK_NUMBER, LONDON_BLOCK_NUMBER, sample_size),
            sample_blocks(LONDON_BLOCK_NUMBER, MERGE_BLOCK_NUMBER, sample_size),
            sample_blocks(MERGE_BLOCK_NUMBER, SHANGHAI_BLOCK_NUMBER, sample_size),
            sample_blocks(SHANGHAI_BLOCK_NUMBER, latest_block, sample_size),
        );
        proof {
            drawn_blocks_have_a_source(ranges@, sample_size, latest_block);
        }
        ranges
    }
}

/// The forks split the chain: every block below `latest_block` belongs to exactly one of them.
pub proof fn forks_partition_the_chain(block: u64, latest_block: u64)
    requires
        latest_block > SHANGHAI_BLOCK_NUMBER,
        block < latest_block,
    ensures
        exists|fork: int| 0 <= fork < RANGE_COUNT && in_fork(fork, block, latest_block),
        forall|f: int, g: int|
            0 <= f < RANGE_COUNT && 0 <= g < RANGE_COUNT && in_fork(f, block, latest_block)
                && in_fork(g, block, latest_block) ==> f == g,
{
    assert(in_fork(0, block, latest_block) || in_fork(1, block, latest_block) || in_fork(
        2,
        block,
        latest_block,
    ) || in_fork(3, block, latest_block) || in_fork(4, block, latest_block) || in_fork(
        5,
        block,
        latest_block,
    ) || in_fork(6, block, latest_block) || in_fork(7, block, latest_block) || in_fork(
        8,
        block,
        latest_block,
    ));
}

/// The blocks of the forks from the merge on are those that need no epoch accumulator.
pub proof fn forks_before_the_merge(fork: int, block: u64, latest_block: u64)
    requires
        latest_block > SHANGHAI_BLOCK_NUMBER,
        0 <= fork < RANGE_COUNT,
        in_fork(fork, block, latest_block),
    ensures
        block >= MERGE_BLOCK_NUMBER <==> fork >= 7,
{
}

/// With the same chance, `latest_block` reaches only the last range: the others come out alike
/// whatever it is.
pub proof fn latest_block_reaches_only_the_last_range(
    one: Seq<Ranges>,
    other: Seq<Ranges>,
    source: Source,
    sample_size: usize,
    one_latest: u64,
    other_latest: u64,
    i: int,
)
    requires
        drawn_from(one, source, sample_size, one_latest),
        drawn_from(other, source, sample_size, other_latest),
        0 <= i < RANGE_COUNT - 1,
    ensures
        one[i].fork() == other[i].fork(),
        one[i].rate() == other[i].rate(),
        one[i].sampled()@ == other[i].sampled()@,
{
    assert(sample_of(source, i, sample_size, one_latest) == sample_of(
        source,
        i,
        sample_size,
        other_latest,
    ));
}

/// Ranges of drawn blocks are what some source gives.
proof fn drawn_blocks_have_a_source(ranges: Seq<Ranges>, sample_size: usize, latest_block: u64)
    requires
        latest_block > SHANGHAI_BLOCK_NUMBER,
        ranges.len() == RANGE_COUNT,
        forall|i: int|
            0 <= i < RANGE_COUNT ==> {
                &&& (#[trigger] ranges[i]).fork() == i
                &&& ranges[i].rate() == SuccessRate::zero()
                &&& ranges[i].sampled()@.len() == sample_size
            },
        forall|i: int, j: int|
            0 <= i < RANGE_COUNT && 0 <= j < sample_size ==> crate::sampling::can_be_drawn(
                fork_start(i, latest_block),
                fork_start(i + 1, latest_block),
                #[trigger] ranges[i].sampled()@[j],
            ),
    ensures
        can_come_out(ranges, sample_size, latest_block),
{
    let source: Source = |fork: int, position: int, start: u64, end: u64|
        if 0 <= fork < RANGE_COUNT && 0 <= position < sample_size && start == fork_start(
            fork,
            latest_block,
        ) && end == fork_start(fork + 1, latest_block) {
            ranges[fork].sampled()@[position]
        } else {
            start
        };
    assert forall|fork: int, position: int, start: u64, end: u64| start < end implies start
        <= #[trigger] source(fork, position, start, end) < end by {
        if 0 <= fork < RANGE_COUNT && 0 <= position < sample_size && start == fork_start(
            fork,
            latest_block,
        ) && end == fork_start(fork + 1, latest_block) {
            crate::sampling::draws_lie_in_their_range(
                start,
                end,
                ranges[fork].sampled()@[position],
            );
        }
    }
    assert forall|i: int| 0 <= i < RANGE_COUNT implies (#[trigger] ranges[i]).sampled()@
        == sample_of(source, i, sample_size, latest_block) by {
        assert(ranges[i].sampled()@ =~= sample_of(source, i, sample_size, latest_block));
    }
    assert(lawful(source) && drawn_from(ranges, source, sample_size, latest_block));
}

/// Every sample of a fork's blocks is one that some source gives: any block of the fork at any
/// position, in any order and with repeats. What comes out with that source has this sample.
///
/// This is a law of the sources. Which of them the thread's generator follows is up to chance.
pub proof fn every_sample_has_a_source(
    fork: int,
    sample: Seq<u64>,
    sample_size: usize,
    latest_block: u64,
) -> (source: Source)
    requires
        latest_block > SHANGHAI_BLOCK_NUMBER,
        0 <= fork < RANGE_COUNT,
        sample.len() == sample_size,
        forall|j: int| 0 <= j < sample_size ==> in_fork(fork, #[trigger] sample[j], latest_block),
    ensures
        lawful(source),
        sample_of(source, fork, sample_size, latest_block) == sample,
        forall|ranges: Seq<Ranges>| #[trigger]
            drawn_from(ranges, source, sample_size, latest_block) ==> ranges[fork].sampled()@
                == sample,
{
    let source: Source = |f: int, position: int, start: u64, end: u64|
        if 0 <= position < sample_size && start <= sample[position] < end {
            sample[position]
        } else {
            start
        };
    assert(lawful(source));
    assert(sample_of(source, fork, sample_size, latest_block) =~= sample);
    source
}

/// `can_come_out` puts no condition between positions or between forks: where it holds of some
/// ranges, it holds of those with any other sample in one fork, as long as each block of that
/// sample is one that a draw from the fork can give. Order is free and repeats are allowed.
pub proof fn samples_are_free(
    ranges: Seq<Ranges>,
    others: Seq<Ranges>,
    sample_size: usize,
    latest_block: u64,
    i: int,
    sample: Seq<u64>,
)
    requires
        latest_block > SHANGHAI_BLOCK_NUMBER,
        can_come_out(ranges, sample_size, latest_block),
        0 <= i < RANGE_COUNT,
        sample.len() == sample_size,
        forall|j: int|
            0 <= j < sample_size ==> crate::sampling::can_be_drawn(
                fork_start(i, latest_block),
                fork_start(i + 1, latest_block),
                #[trigger] sample[j],
            ),
        others.len() == RANGE_COUNT,
        others[i].sampled()@ == sample,
        forall|k: int|
            0 <= k < RANGE_COUNT ==> {
                &&& (#[trigger] others[k]).fork() == ranges[k].fork()
                &&& others[k].rate() == ranges[k].rate()
                &&& k != i ==> others[k].sampled()@ == ranges[k].sampled()@
            },
    ensures
        can_come_out(others, sample_size, latest_block),
{
    let source = choose|source: Source|
        lawful(source) && #[trigger] drawn_from(ranges, source, sample_size, latest_block);
    assert forall|k: int| 0 <= k < RANGE_COUNT implies {
        &&& (#[trigger] others[k]).fork() == k
        &&& others[k].rate() == SuccessRate::zero()
        &&& others[k].sampled()@.len() == sample_size
    } by {
        assert(ranges[k].fork() == k);
    }
    assert forall|k: int, j: int| 0 <= k < RANGE_COUNT && 0 <= j < sample_size implies
        crate::sampling::can_be_drawn(
        fork_start(k, latest_block),
        fork_start(k + 1, latest_block),
        #[trigger] others[k].sampled()@[j],
    ) by {
        if k == i {
            assert(others[k].sampled()@[j] == sample[j]);
        } else {
            assert(others[k].sampled()@[j] == ranges[k].sampled()@[j]);
        }
    }
    drawn_blocks_have_a_source(others, sample_size, latest_block);
}

/// A further round changes nothing but the rate: fork and blocks stay, so the next provider is
/// tested on the same blocks.
pub proof fn updates_keep_the_blocks(range: Ranges, failures: u64, total: u64)
    ensures
        range.with_rate(range.rate().plus(failures, total)).fork() == range.fork(),
        range.with_rate(range.rate().plus(failures, total)).sampled() == range.sampled(),
        range.with_rate(range.rate().plus(failures, total)).rate() == range.rate().plus(
            failures,
            total,
        ),
{
}

/// Where the main chain forked: the blocks of each fork, by their numbers.
pub proof fn forks_lie_where_the_chain_forked(block: u64, latest_block: u64)
    requires
        latest_block > 17_034_870,
    ensures
        in_fork(0, block, latest_block) <==> 0 <= block < 1_150_000,
        in_fork(1, block, latest_block) <==> 1_150_000 <= block < 4_370_000,
        in_fork(2, block, latest_block) <==> 4_370_000 <= block < 7_280_000,
        in_fork(3, block, latest_block) <==> 7_280_000 <= block < 9_069_000,
        in_fork(4, block, latest_block) <==> 9_069_000 <= block < 12_244_000,
        in_fork(5, block, latest_block) <==> 12_244_000 <= block < 12_965_000,
        in_fork(6, block, latest_block) <==> 12_965_000 <= block < 15_537_394,
        in_fork(7, block, latest_block) <==> 15_537_394 <= block < 17_034_870,
        in_fork(8, block, latest_block) <==> 17_034_870 <= block < latest_block,
{
}

/// No fork reaches behind the head of the chain, and every block of the chain is in reach of the
/// last fork or before it.
pub proof fn forks_end_with_the_chain(fork: int, block: u64, latest_block: u64)
    requires
        latest_block > SHANGHAI_BLOCK_NUMBER,
        0 <= fork < RANGE_COUNT,
        in_fork(fork, block, latest_block),
    ensures
        block < latest_block,
        block >= SHANGHAI_BLOCK_NUMBER <==> fork == RANGE_COUNT - 1,
{
}

/// Every range holds the blocks and the rate that it was made with, under its own name and at
/// the fork's place in time.
pub proof fn ranges_hold_what_they_are_made_with(blocks: Vec<u64>, rate: SuccessRate)
    ensures
        ({
            let range = Ranges::Frontier((blocks, rate));
            &&& range.sampled() == blocks
            &&& range.rate() == rate
            &&& range.fork() == 0
            &&& range.name() == "Frontier"@
        }),
        ({
            let range = Ranges::Homestead((blocks, rate));
            &&& range.sampled() == blocks
            &&& range.rate() == rate
            &&& range.fork() == 1
            &&& range.name() == "Homestead"@
        }),
        ({
            let range = Ranges::Byzantium((blocks, rate));
            &&& range.sampled() == blocks
            &&& range.rate() == rate
            &&& range.fork() == 2
            &&& range.name() == "Byzantium"@
        }),
        ({
            let range = Ranges::Constantinople((blocks, rate));
            &&& range.sampled() == blocks
            &&& range.rate() == rate
            &&& range.fork() == 3
            &&& range.name() == "Constantinople"@
        }),
        ({
            let range = Ranges::Istanbul((blocks, rate));
            &&& range.sampled() == blocks
            &&& range.rate() == rate
            &&& range.fork() == 4
            &&& range.name() == "Istanbul"@
        }),
        ({
            let range = Ranges::Berlin((blocks, rate));
            &&& range.sampled() == blocks
            &&& range.rate() == rate
            &&& range.fork() == 5
            &&& range.name() == "Berlin"@
        }),
        ({
            let range = Ranges::London((blocks, rate));
            &&& range.sampled() == blocks
            &&& range.rate() == rate
            &&& range.fork() == 6
            &&& range.name() == "London"@
        }),
        ({
            let range = Ranges::Merge((blocks, rate));
            &&& range.sampled() == blocks
            &&& range.rate() == rate
            &&& range.fork() == 7
            &&& range.name() == "Merge"@
        }),
        ({
            let range = Ranges::Shanghai((blocks, rate));
            &&& range.sampled() == blocks
            &&& range.rate() == rate
            &&& range.fork() == 8
            &&& range.name() == "Shanghai"@
        }),
{
}

/// Replacing the rate replaces nothing else.
pub proof fn rates_are_replaced_alone(range: Ranges, rate: SuccessRate)
    ensures
        range.with_rate(rate).rate() == rate,
        range.with_rate(rate).sampled() == range.sampled(),
        range.with_rate(rate).fork() == range.fork(),
        range.with_rate(rate).name() == range.name(),
{
}

/// What a call of `Ranges::into_vec` gives: one range of each fork in the order of time, with the
/// asked number of blocks, none of them behind the head of the chain and all of them within the
/// fork's numbers.
pub proof fn samples_lie_on_the_chain(sample_size: usize, latest_block: u64, ranges: Vec<Ranges>)
    requires
        latest_block > 17_034_870,
        call_ensures(Ranges::into_vec, (sample_size, latest_block), ranges),
    ensures
        ranges@.len() == 9,
        ranges@[0] is Frontier,
        ranges@[1] is Homestead,
        ranges@[2] is Byzantium,
        ranges@[3] is Constantinople,
        ranges@[4] is Istanbul,
        ranges@[5] is Berlin,
        ranges@[6] is London,
        ranges@[7] is Merge,
        ranges@[8] is Shanghai,
        forall|i: int|
            0 <= i < 9 ==> {
                &&& (#[trigger] ranges@[i]).sampled()@.len() == sample_size
                &&& ranges@[i].rate().failures == 0
                &&& ranges@[i].rate().total == 0
            },
        forall|i: int, j: int|
            0 <= i < 9 && 0 <= j < sample_size ==> (#[trigger] ranges@[i].sampled()@[j])
                < latest_block,
        forall|j: int|
            0 <= j < sample_size ==> 0 <= #[trigger] ranges@[0].sampled()@[j] < 1_150_000,
        forall|j: int|
            0 <= j < sample_size ==> 1_150_000 <= #[trigger] ranges@[1].sampled()@[j] < 4_370_000,
        forall|j: int|
            0 <= j < sample_size ==> 4_370_000 <= #[trigger] ranges@[2].sampled()@[j] < 7_280_000,
        forall|j: int|
            0 <= j < sample_size ==> 7_280_000 <= #[trigger] ranges@[3].sampled()@[j] < 9_069_000,
        forall|j: int|
            0 <= j < sample_size ==> 9_069_000 <= #[trigger] ranges@[4].sampled()@[j] < 12_244_000,
        forall|j: int|
            0 <= j < sample_size ==> 12_244_000 <= #[trigger] ranges@[5].sampled()@[j] < 12_965_000,
        forall|j: int|
            0 <= j < sample_size ==> 12_965_000 <= #[trigger] ranges@[6].sampled()@[j] < 15_537_394,
        forall|j: int|
            0 <= j < sample_size ==> 15_537_394 <= #[trigger] ranges@[7].sampled()@[j] < 17_034_870,
        forall|j: int|
            0 <= j < sample_size ==> 17_034_870 <= #[trigger] ranges@[8].sampled()@[j] < latest_block,
{
    let places = ranges@;
    assert(places[0].fork() == 0);
    assert(places[1].fork() == 1);
    assert(places[2].fork() == 2);
    assert(places[3].fork() == 3);
    assert(places[4].fork() == 4);
    assert(places[5].fork() == 5);
    assert(places[6].fork() == 6);
    assert(places[7].fork() == 7);
    assert(places[8].fork() == 8);
    assert forall|i: int, j: int| 0 <= i < 9 && 0 <= j < sample_size implies (
    #[trigger] ranges@[i].sampled()@[j]) < latest_block by {
        forks_end_with_the_chain(i, ranges@[i].sampled()@[j], latest_block);
    }
    assert forall|j: int| 0 <= j < sample_size implies 0 <= #[trigger] ranges@[0].sampled()@[j]
        < 1_150_000 by {
        assert(in_fork(0, ranges@[0].sampled()@[j], latest_block));
        forks_lie_where_the_chain_forked(ranges@[0].sampled()@[j], latest_block);
    }
    assert forall|j: int| 0 <= j < sample_size implies 1_150_000 <= #[trigger] ranges@[1].sampled()@[j]
        < 4_370_000 by {
        assert(in_fork(1, ranges@[1].sampled()@[j], latest_block));
        forks_lie_where_the_chain_forked(ranges@[1].sampled()@[j], latest_block);
    }
    assert forall|j: int| 0 <= j < sample_size implies 4_370_000 <= #[trigger] ranges@[2].sampled()@[j]
        < 7_280_000 by {
        assert(in_fork(2, ranges@[2].sampled()@[j], latest_block));
        forks_lie_where_the_chain_forked(ranges@[2].sampled()@[j], latest_block);
    }
    assert forall|j: int| 0 <= j < sample_size implies 7_280_000 <= #[trigger] ranges@[3].sampled()@[j]
        < 9_069_000 by {
        assert(in_fork(3, ranges@[3].sampled()@[j], latest_block));
        forks_lie_where_the_chain_forked(ranges@[3].sampled()@[j], latest_block);
    }
    assert forall|j: int| 0 <= j < sample_size implies 9_069_000 <= #[trigger] ranges@[4].sampled()@[j]
        < 12_244_000 by {
        assert(in_fork(4, ranges@[4].sampled()@[j], latest_block));
        forks_lie_where_the_chain_forked(ranges@[4].sampled()@[j], latest_block);
    }
    assert forall|j: int| 0 <= j < sample_size implies 12_244_000 <= #[trigger] ranges@[5].sampled()@[j]
        < 12_965_000 by {
        assert(in_fork(5, ranges@[5].sampled()@[j], latest_block));
        forks_lie_where_the_chain_forked(ranges@[5].sampled()@[j], latest_block);
    }
    assert forall|j: int| 0 <= j < sample_size implies 12_965_000 <= #[trigger] ranges@[6].sampled()@[j]
        < 15_537_394 by {
        assert(in_fork(6, ranges@[6].sampled()@[j], latest_block));
        forks_lie_where_the_chain_forked(ranges@[6].sampled()@[j], latest_block);
    }
    assert forall|j: int| 0 <= j < sample_size implies 15_537_394 <= #[trigger] ranges@[7].sampled()@[j]
        < 17_034_870 by {
        assert(in_fork(7, ranges@[7].sampled()@[j], latest_block));
        forks_lie_where_the_chain_forked(ranges@[7].sampled()@[j], latest_block);
    }
    assert forall|j: int| 0 <= j < sample_size implies 17_034_870 <= #[trigger] ranges@[8].sampled()@[j]
        < latest_block by {
        assert(in_fork(8, ranges@[8].sampled()@[j], latest_block));
        forks_lie_where_the_chain_forked(ranges@[8].sampled()@[j], latest_block);
    }
}

/// The line of a range shows its name and both counts, each as a number is usually written.
pub proof fn summaries_show_the_counts(range: Ranges) -> (counts: (Seq<char>, Seq<char>))
    ensures
        crate::text::is_decimal(counts.0, range.rate().failures as nat),
        crate::text::is_decimal(counts.1, range.rate().total as nat),
        range.summary() == "Range: "@ + range.name() + " // Failure Rate: "@ + counts.0 + "/"@
            + counts.1,
{
    crate::text::decimals_read_back(range.rate().failures as nat);
    crate::text::decimals_read_back(range.rate().total as nat);
    (
        crate::text::decimal(range.rate().failures as nat),
        crate::text::decimal(range.rate().total as nat),
    )
}

/// The line determines the counts: ranges of the same fork with the same line have the same
/// failures and the same total.
pub proof fn summaries_determine_the_counts(one: Ranges, other: Ranges)
    requires
        one.fork() == other.fork(),
        one.summary() == other.summary(),
    ensures
        one.rate().failures == other.rate().failures,
        one.rate().total == other.rate().total,
{
    let (a, b) = summaries_show_the_counts(one);
    let (c, d) = summaries_show_the_counts(other);
    let front = "Range: "@ + one.name() + " // Failure Rate: "@;
    reveal_strlit("/");
    assert(one.name() == other.name());
    assert(a + "/"@ + b == one.summary().skip(front.len() as int));
    assert(c + "/"@ + d == other.summary().skip(front.len() as int));
    crate::text::marks_separate_digits(a, c, "/"@, b, d);
}

/// What `Ranges::display_summary` gives shows the name and both counts.
pub proof fn displayed_ranges_show_the_counts(range: Ranges, line: String) -> (counts: (
    Seq<char>,
    Seq<char>,
))
    requires
        call_ensures(Ranges::display_summary, (&range,), line),
    ensures
        crate::text::is_decimal(counts.0, range.rate().failures as nat),
        crate::text::is_decimal(counts.1, range.rate().total as nat),
        line@ == "Range: "@ + range.name() + " // Failure Rate: "@ + counts.0 + "/"@ + counts.1,
{
    summaries_show_the_counts(range)
}

/// Whether the sample of each fork is one that came of drawing the asked number of blocks from the
/// whole of the fork, from its first block up to its last.
pub open spec fn from_whole_forks(ranges: Seq<Ranges>, sample_size: usize, latest_block: u64) -> bool {
    let n = sample_size;
    &&& call_ensures(sample_blocks, (0, 1_150_000, n), ranges[0].sampled())
    &&& call_ensures(sample_blocks, (1_150_000, 4_370_000, n), ranges[1].sampled())
    &&& call_ensures(sample_blocks, (4_370_000, 7_280_000, n), ranges[2].sampled())
    &&& call_ensures(sample_blocks, (7_280_000, 9_069_000, n), ranges[3].sampled())
    &&& call_ensures(sample_blocks, (9_069_000, 12_244_000, n), ranges[4].sampled())
    &&& call_ensures(sample_blocks, (12_244_000, 12_965_000, n), ranges[5].sampled())
    &&& call_ensures(sample_blocks, (12_965_000, 15_537_394, n), ranges[6].sampled())
    &&& call_ensures(sample_blocks, (15_537_394, 17_034_870, n), ranges[7].sampled())
    &&& call_ensures(sample_blocks, (17_034_870, latest_block, n), ranges[8].sampled())
}

/// Sampled ranges are sampled from the whole of each fork.
pub proof fn sampled_ranges_are_from_whole_forks(
    ranges: Seq<Ranges>,
    sample_size: usize,
    latest_block: u64,
)
    requires
        latest_block > 17_034_870,
        sampled_ranges(ranges, sample_size, latest_block),
    ensures
        from_whole_forks(ranges, sample_size, latest_block),
{
    assert(ranges[0].fork() == 0);
    assert(ranges[1].fork() == 1);
    assert(ranges[2].fork() == 2);
    assert(ranges[3].fork() == 3);
    assert(ranges[4].fork() == 4);
    assert(ranges[5].fork() == 5);
    assert(ranges[6].fork() == 6);
    assert(ranges[7].fork() == 7);
    assert(ranges[8].fork() == 8);
}

/// What `Ranges::into_vec` draws from: the whole of each fork.
pub proof fn samples_come_from_whole_forks(
    sample_size: usize,
    latest_block: u64,
    ranges: Vec<Ranges>,
)
    requires
        latest_block > 17_034_870,
        call_ensures(Ranges::into_vec, (sample_size, latest_block), ranges),
    ensures
        from_whole_forks(ranges@, sample_size, latest_block),
{
    sampled_ranges_are_from_whole_forks(ranges@, sample_size, latest_block);
}

/// What `Ranges::from_samples` gives: the nine forks in the order of time, each with its own
/// sample and with nothing asked for yet.
pub proof fn samples_go_to_their_forks(
    samples: (
        Vec<u64>,
        Vec<u64>,
        Vec<u64>,
        Vec<u64>,
        Vec<u64>,
        Vec<u64>,
        Vec<u64>,
        Vec<u64>,
        Vec<u64>,
    ),
    ranges: Vec<Ranges>,
)
    requires
        call_ensures(Ranges::from_samples, samples, ranges),
    ensures
        ranges@.len() == 9,
        ranges@[0] is Frontier && ranges@[0].sampled() == samples.0,
        ranges@[1] is Homestead && ranges@[1].sampled() == samples.1,
        ranges@[2] is Byzantium && ranges@[2].sampled() == samples.2,
        ranges@[3] is Constantinople && ranges@[3].sampled() == samples.3,
        ranges@[4] is Istanbul && ranges@[4].sampled() == samples.4,
        ranges@[5] is Berlin && ranges@[5].sampled() == samples.5,
        ranges@[6] is London && ranges@[6].sampled() == samples.6,
        ranges@[7] is Merge && ranges@[7].sampled() == samples.7,
        ranges@[8] is Shanghai && ranges@[8].sampled() == samples.8,
        forall|i: int|
            0 <= i < 9 ==> {
                &&& (#[trigger] ranges@[i]).rate().failures == 0
                &&& ranges@[i].rate().total == 0
            },
{
}

/// What `Ranges::to_string` gives: the name of the fork, as the chain's users spell it.
pub proof fn ranges_are_called_by_their_forks(range: Ranges, name: String)
    requires
        call_ensures(Ranges::to_string, (&range,), name),
    ensures
        range is Frontier ==> name@ == "Frontier"@,
        range is Homestead ==> name@ == "Homestead"@,
        range is Byzantium ==> name@ == "Byzantium"@,
        range is Constantinople ==> name@ == "Constantinople"@,
        range is Istanbul ==> name@ == "Istanbul"@,
        range is Berlin ==> name@ == "Berlin"@,
        range is London ==> name@ == "London"@,
        range is Merge ==> name@ == "Merge"@,
        range is Shanghai ==> name@ == "Shanghai"@,
{
}

/// What `Ranges::blocks` gives: the blocks that the range was made with.
pub proof fn ranges_show_their_blocks(range: Ranges, sample: Vec<u64>, rate: SuccessRate, blocks: &Vec<
    u64,
>)
    requires
        call_ensures(Ranges::blocks, (&range,), blocks),
        range == Ranges::Frontier((sample, rate)) || range == Ranges::Homestead((sample, rate))
            || range == Ranges::Byzantium((sample, rate)) || range == Ranges::Constantinople(
            (sample, rate),
        ) || range == Ranges::Istanbul((sample, rate)) || range == Ranges::Berlin((sample, rate))
            || range == Ranges::London((sample, rate)) || range == Ranges::Merge((sample, rate))
            || range == Ranges::Shanghai((sample, rate)),
    ensures
        blocks@ == sample@,
{
}

/// What `Ranges::update_success_rate` does: each count grows by its own part of the round, and
/// fork and blocks stay.
pub proof fn ranges_are_updated_alone(range: &mut Ranges, failures: u64, total: u64)
    requires
        old(range).rate().failures + failures <= u64::MAX,
        old(range).rate().total + total <= u64::MAX,
        call_ensures(Ranges::update_success_rate, (range, failures, total), ()),
    ensures
        final(range).rate().failures == old(range).rate().failures + failures,
        final(range).rate().total == old(range).rate().total + total,
        final(range).fork() == old(range).fork(),
        final(range).sampled() == old(range).sampled(),
{
}

} // verus!
