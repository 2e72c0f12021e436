//! Checks whether execution-layer providers can serve valid headers, receipts and block bodies
//! for blocks sampled at random from every hard fork of Ethereum's main chain.

pub mod client;
pub mod config;
pub mod constants;
pub mod epoch;
pub mod providers;
pub mod ranges;
pub mod sampling;
pub mod session;
pub mod session_counts;
pub mod session_laws;
pub mod success_rate;
pub mod text;
