//! What the user chooses.

use vstd::prelude::*;

verus! {

/// Number of samples of each range where the user names none.
pub const DEFAULT_SAMPLE_SIZE: usize = 5;

/// What the user chooses.
#[derive(Debug, PartialEq)]
pub struct ProviderConfig {
    /// Number of samples to take for each range.
    pub sample_size: usize,
}

} // verus!
