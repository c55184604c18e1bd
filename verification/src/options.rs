//! The static table of allowed lock durations and their multipliers.

use vstd::prelude::*;
use crate::errors::StakeError;

verus! {

/// Seconds in one day; lock durations are quoted in whole days.
pub const SECONDS_PER_DAY: u64 = 86_400;

/// One row of the table: a supported lock length in days together with
/// the basis-point multipliers it earns.
#[derive(Clone, Copy, Debug, PartialEq, Eq, Structural)]
pub struct LockedStakingOption {
    /// The supported lock length, in whole days.
    pub locked_days: u32,
    /// Scales the amount that shares the reward pool.
    pub base_reward_multiplier: u32,
    /// Scales the amount that shares the LM-token pool.
    pub lm_reward_multiplier: u32,
    /// Scales the voting power credited while staked.
    pub vote_multiplier: u32,
}

/// The table row for a lock of `locked_days` days, if that length is
/// supported.
pub open spec fn spec_staking_option(locked_days: u32) -> Option<LockedStakingOption> {
    if locked_days == 30 {
        Some(
            LockedStakingOption {
                locked_days: 30,
                base_reward_multiplier: 10_000,
                lm_reward_multiplier: 10_000,
                vote_multiplier: 10_000,
            },
        )
    } else if locked_days == 60 {
        Some(
            LockedStakingOption {
                locked_days: 60,
                base_reward_multiplier: 12_500,
                lm_reward_multiplier: 12_500,
                vote_multiplier: 12_500,
            },
        )
    } else if locked_days == 90 {
        Some(
            LockedStakingOption {
                locked_days: 90,
                base_reward_multiplier: 15_000,
                lm_reward_multiplier: 15_000,
                vote_multiplier: 15_000,
            },
        )
    } else if locked_days == 180 {
        Some(
            LockedStakingOption {
                locked_days: 180,
                base_reward_multiplier: 20_000,
                lm_reward_multiplier: 20_000,
                vote_multiplier: 20_000,
            },
        )
    } else if locked_days == 360 {
        Some(
            LockedStakingOption {
                locked_days: 360,
                base_reward_multiplier: 25_000,
                lm_reward_multiplier: 25_000,
                vote_multiplier: 25_000,
            },
        )
    } else {
        None
    }
}

/// Looks up the table row for `locked_days`; an unsupported length is an
/// invalid argument.
pub fn get_locked_staking_option(locked_days: u32) -> (r: Result<LockedStakingOption, StakeError>)
    ensures
        match spec_staking_option(locked_days) {
            Some(o) => r == Ok::<LockedStakingOption, StakeError>(o),
            None => r == Err::<LockedStakingOption, StakeError>(StakeError::InvalidArgument),
        },
{
    if locked_days == 30 {
        Ok(
            LockedStakingOption {
                locked_days: 30,
                base_reward_multiplier: 10_000,
                lm_reward_multiplier: 10_000,
                vote_multiplier: 10_000,
            },
        )
    } else if locked_days == 60 {
        Ok(
            LockedStakingOption {
                locked_days: 60,
                base_reward_multiplier: 12_500,
                lm_reward_multiplier: 12_500,
                vote_multiplier: 12_500,
            },
        )
    } else if locked_days == 90 {
        Ok(
            LockedStakingOption {
                locked_days: 90,
                base_reward_multiplier: 15_000,
                lm_reward_multiplier: 15_000,
                vote_multiplier: 15_000,
            },
        )
    } else if locked_days == 180 {
        Ok(
            LockedStakingOption {
                locked_days: 180,
                base_reward_multiplier: 20_000,
                lm_reward_multiplier: 20_000,
                vote_multiplier: 20_000,
            },
        )
    } else if locked_days == 360 {
        Ok(
            LockedStakingOption {
                locked_days: 360,
                base_reward_multiplier: 25_000,
                lm_reward_multiplier: 25_000,
                vote_multiplier: 25_000,
            },
        )
    } else {
        Err(StakeError::InvalidArgument)
    }
}

} // verus!
