//! A staking and reward-round accounting engine.
//!
//! Participants deposit a utility token either as a freely withdrawable
//! liquid stake or as a time-locked stake that earns boosted, multiplier
//! weighted rewards and voting power. A global accountant accrues stakes
//! into fixed-duration rounds; resolving a round fixes its payout rate and
//! archives it in a bounded history, against which participants claim.
//!
//! The engine itself moves no tokens and runs no clock: every entry point
//! takes plain values (amounts, timestamps) and returns the external
//! actions the caller must perform (token transfers, voting-power changes,
//! trigger scheduling). Callers such as a scheduler may re-invoke the
//! resolution and claim entry points at will: those paths are idempotent,
//! and claims are bounded by a per-participant monotonic watermark.

pub mod errors;
pub mod math;
pub mod options;
pub mod ledger;
pub mod round;
pub mod engine;
pub mod laws;
