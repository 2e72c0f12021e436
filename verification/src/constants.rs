//! The main chain's hard forks and the layout of the pre-merge header accumulator.

use vstd::prelude::*;

verus! {

/// First block of the Homestead fork.
pub const HOMESTEAD_BLOCK_NUMBER: u64 = 1_150_000;

/// First block of the Byzantium fork.
pub const BYZANTIUM_BLOCK_NUMBER: u64 = 4_370_000;

/// First block of the Constantinople fork.
pub const CONSTANTINOPLE_BLOCK_NUMBER: u64 = 7_280_000;

/// First block of the Istanbul fork.
pub const ISTANBUL_BLOCK_NUMBER: u64 = 9_069_000;

/// First block of the Berlin fork.
pub const BERLIN_BLOCK_NUMBER: u64 = 12_244_000;

/// First block of the London fork.
pub const LONDON_BLOCK_NUMBER: u64 = 12_965_000;

/// First proof-of-stake block.
pub const MERGE_BLOCK_NUMBER: u64 = 15_537_394;

/// First block of the Shanghai fork.
pub const SHANGHAI_BLOCK_NUMBER: u64 = 17_034_870;

/// Number of blocks that one epoch of the header accumulator covers.
pub const EPOCH_SIZE: u64 = 8192;

} // verus!
