//! Per-participant stake ledgers: one liquid position and a growable
//! list of locked positions.

use vstd::prelude::*;
use crate::math::scaled_bps;

verus! {

/// The freely withdrawable position. Adding while nonzero forfeits the
/// in-flight share of the current round; removing down to zero clears
/// the stake time.
#[derive(Clone, Copy, Debug, PartialEq, Eq, Structural)]
pub struct LiquidStake {
    /// Deposited amount, counted 1:1 in round totals.
    pub amount: u64,
    /// When the position was last (re)staked; zero when empty.
    pub stake_time: i64,
}

/// A time-locked position. Immutable after creation except for
/// `claim_time` and `resolved`, which resolution sets exactly once; the
/// position can be removed only after it is resolved.
#[derive(Clone, Copy, Debug, PartialEq, Eq, Structural)]
pub struct LockedStake {
    /// Deposited amount.
    pub amount: u64,
    /// When the position was created.
    pub stake_time: i64,
    /// When the position was resolved; zero until then.
    pub claim_time: i64,
    /// How long the position is locked, in seconds.
    pub lock_duration: u64,
    /// Basis-point multiplier on the reward-sharing amount.
    pub base_reward_multiplier: u32,
    /// Basis-point multiplier on the LM-reward-sharing amount.
    pub lm_reward_multiplier: u32,
    /// Basis-point multiplier on the credited voting power.
    pub vote_multiplier: u32,
    /// `amount` scaled by `base_reward_multiplier`, fixed at creation.
    pub amount_with_reward_multiplier: u64,
    /// `amount` scaled by `lm_reward_multiplier`, fixed at creation.
    pub amount_with_lm_reward_multiplier: u64,
    /// Whether maturity has been acknowledged, enabling withdrawal.
    pub resolved: bool,
    /// The scheduler handle registered to fire at maturity.
    pub resolution_trigger_id: u64,
}

impl LockedStake {
    /// The instant the lock expires and the position may be resolved.
    pub open spec fn end_time(self) -> int {
        self.stake_time + self.lock_duration
    }

    /// The stored weighted amounts really are the scaled deposit, and
    /// the deposit is nonzero.
    pub open spec fn wf(self) -> bool {
        &&& self.amount > 0
        &&& self.amount_with_reward_multiplier == scaled_bps(
            self.amount,
            self.base_reward_multiplier,
        )
        &&& self.amount_with_lm_reward_multiplier == scaled_bps(
            self.amount,
            self.lm_reward_multiplier,
        )
    }
}

/// One participant's ledger: the liquid position, the locked positions,
/// and the claim watermark that bounds repeated claims.
#[derive(Clone, Debug)]
pub struct StakeLedger {
    /// The single liquid position.
    pub liquid: LiquidStake,
    /// The locked positions, in order of creation.
    pub locked: Vec<LockedStake>,
    /// How many resolved rounds this participant has already claimed;
    /// claims only ever pay rounds at or past this count, and every
    /// claim advances it to the accountant's resolved-round count.
    pub claim_watermark: u64,
}

impl StakeLedger {
    /// Every locked position carries its correctly scaled amounts.
    pub open spec fn wf(self) -> bool {
        forall|i: int| 0 <= i < self.locked@.len() ==> (#[trigger] self.locked@[i]).wf()
    }

    /// An empty ledger, lazily created on a participant's first stake
    /// action.
    pub fn new() -> (l: StakeLedger)
        ensures
            l.liquid.amount == 0,
            l.liquid.stake_time == 0,
            l.locked@ == Seq::<LockedStake>::empty(),
            l.claim_watermark == 0,
            l.wf(),
    {
        StakeLedger {
            liquid: LiquidStake { amount: 0, stake_time: 0 },
            locked: Vec::new(),
            claim_watermark: 0,
        }
    }
}

} // verus!
