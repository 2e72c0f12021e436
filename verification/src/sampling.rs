//! Random choice of blocks.

use rand::distributions::{Distribution, Uniform};
use vstd::prelude::*;

verus! {

/// Draws one number with the thread's generator, through `rand::thread_rng`,
/// `rand::distributions::Uniform::from` of a half-open range and `Distribution::sample`.
///
/// What is drawn lies in the range. Which number of the range comes is up to chance, so nothing
/// more is claimed. `Uniform::from` panics on an empty range, which is left out.
#[verifier::external_body]
fn sample_block(start: u64, end: u64) -> (block: u64)
    requires
        start < end,
    ensures
        start <= block < end,
{
    Uniform::from(start..end).sample(&mut rand::thread_rng())
}

/// Whether a block can come out when one is drawn from `start` up to but without `end`.
pub closed spec fn can_be_drawn(start: u64, end: u64, block: u64) -> bool {
    call_ensures(sample_block, (start, end), block)
}

/// What can be drawn lies in the range that it is drawn from.
pub proof fn draws_lie_in_their_range(start: u64, end: u64, block: u64)
    requires
        start < end,
        can_be_drawn(start, end, block),
    ensures
        start <= block < end,
{
}

/// Draws `count` blocks from `start` up to but without `end`.
///
/// Each block is one that a draw from exactly that range gave. The contract puts no condition
/// between positions: repeats are an outcome like any other.
pub fn sample_blocks(start: u64, end: u64, count: usize) -> (blocks: Vec<u64>)
    requires
        start < end,
    ensures
        blocks@.len() == count,
        forall|i: int| 0 <= i < count ==> start <= #[trigger] blocks@[i] < end,
        forall|i: int| 0 <= i < count ==> can_be_drawn(start, end, #[trigger] blocks@[i]),
{
    let mut blocks: Vec<u64> = Vec::new();
    while blocks.len() < count
        invariant
            start < end,
            blocks@.len() <= count,
            forall|i: int| 0 <= i < blocks@.len() ==> start <= #[trigger] blocks@[i] < end,
            forall|i: int|
                0 <= i < blocks@.len() ==> can_be_drawn(start, end, #[trigger] blocks@[i]),
        decreases count - blocks@.len(),
    {
        blocks.push(sample_block(start, end));
    }
    blocks
}

/// Nothing that a draw from a range gives is ruled out, and nothing else can be drawn.
proof fn draws_are_those_of_the_generator(start: u64, end: u64, block: u64)
    ensures
        can_be_drawn(start, end, block) <==> call_ensures(sample_block, (start, end), block),
{
}

/// What `sample_blocks` gives: as many blocks as were asked for, each of them drawn from the whole
/// range.
pub proof fn samples_are_draws(start: u64, end: u64, count: usize, blocks: Vec<u64>)
    requires
        start < end,
        call_ensures(sample_blocks, (start, end, count), blocks),
    ensures
        blocks@.len() == count,
        forall|i: int|
            0 <= i < count ==> start <= #[trigger] blocks@[i] < end && can_be_drawn(
                start,
                end,
                blocks@[i],
            ),
{
}

} // verus!
