//! The reward redeemer: what a delegation is owed for the credits that its
//! vote account earned, and the payment of it from the rewards pool.
//!
//! The reward is
//! `credits earned × lamports delegated / points per lamport`, rounded down,
//! where a point is one credit earned by one delegated lamport and the number
//! of points that buy one lamport of reward is set by the cluster. With that
//! number at zero no rewards are paid.

use crate::delegation::Delegation;
use crate::error::StakeError;
use vstd::prelude::*;

verus! {

/// The lamports owed for `credits` new credits on `stake_lamports` delegated
/// lamports, at `points_per_lamport` points for one lamport of reward.
pub open spec fn reward_owed(credits: nat, stake_lamports: nat, points_per_lamport: nat) -> nat {
    if points_per_lamport == 0 {
        0
    } else {
        (credits * stake_lamports) / points_per_lamport
    }
}

/// More credits and more stake never earn less.
pub proof fn lemma_reward_monotonic(
    credits: nat,
    more_credits: nat,
    stake_lamports: nat,
    more_stake_lamports: nat,
    points_per_lamport: nat,
)
    requires
        credits <= more_credits,
        stake_lamports <= more_stake_lamports,
    ensures
        reward_owed(credits, stake_lamports, points_per_lamport) <= reward_owed(
            more_credits,
            more_stake_lamports,
            points_per_lamport,
        ),
{
    if points_per_lamport > 0 {
        assert(credits * stake_lamports <= more_credits * more_stake_lamports) by (nonlinear_arith)
            requires
                credits <= more_credits,
                stake_lamports <= more_stake_lamports,
        ;
        vstd::arithmetic::div_mod::lemma_div_is_ordered(
            (credits * stake_lamports) as int,
            (more_credits * more_stake_lamports) as int,
            points_per_lamport as int,
        );
    }
}

/// The lamports owed for `credits` new credits on `stake_lamports`.
pub fn reward(credits: u64, stake_lamports: u64, points_per_lamport: u64) -> (owed: u128)
    ensures
        owed == reward_owed(credits as nat, stake_lamports as nat, points_per_lamport as nat),
{
    if points_per_lamport == 0 {
        return 0;
    }
    assert(credits as u128 * stake_lamports as u128 <= 0xffff_ffff_ffff_ffff * 0xffff_ffff_ffff_ffff)
        by (nonlinear_arith)
        requires
            credits <= 0xffff_ffff_ffff_ffff,
            stake_lamports <= 0xffff_ffff_ffff_ffff,
    ;
    let points: u128 = credits as u128 * stake_lamports as u128;
    points / points_per_lamport as u128
}

/// The credits by which `credits_now` exceeds what `delegation` has
/// redeemed already; none where the counter did not advance.
pub open spec fn credits_earned(delegation: Delegation, credits_now: u64) -> nat {
    if credits_now > delegation.credits_observed {
        (credits_now - delegation.credits_observed) as nat
    } else {
        0
    }
}

/// What `delegation` is owed when its vote account's counter stands at
/// `credits_now`.
pub open spec fn redeemable(delegation: Delegation, credits_now: u64, points_per_lamport: u64) -> nat {
    reward_owed(
        credits_earned(delegation, credits_now),
        delegation.stake_lamports as nat,
        points_per_lamport as nat,
    )
}

/// Why a redemption is refused, if it is: nothing was earned since the last
/// one, the pool cannot pay, or the balance cannot hold the payment.
pub open spec fn redeem_error(
    delegation: Delegation,
    balance: u64,
    credits_now: u64,
    reward_pool: u64,
    points_per_lamport: u64,
) -> Option<StakeError> {
    if credits_earned(delegation, credits_now) == 0 {
        Some(StakeError::NothingToRedeem)
    } else if redeemable(delegation, credits_now, points_per_lamport) > reward_pool {
        Some(StakeError::RewardsPoolInsufficient)
    } else if balance + redeemable(delegation, credits_now, points_per_lamport) > u64::MAX {
        Some(StakeError::InvalidInstructionData)
    } else {
        None
    }
}

/// Pays `delegation` what it is owed for the credits earned up to
/// `credits_now`: the amount moves from `reward_pool` to `balance`, and the
/// delegation remembers the counter, so that no credit pays twice. Returns
/// the lamports paid. A refused redemption changes nothing.
pub fn redeem(
    delegation: &mut Delegation,
    balance: &mut u64,
    credits_now: u64,
    reward_pool: &mut u64,
    points_per_lamport: u64,
) -> (result: Result<u64, StakeError>)
    ensures
        match redeem_error(*old(delegation), *old(balance), credits_now, *old(reward_pool), points_per_lamport) {
            Some(error) => {
                &&& result == Err::<u64, StakeError>(error)
                &&& *final(delegation) == *old(delegation)
                &&& *final(balance) == *old(balance)
                &&& *final(reward_pool) == *old(reward_pool)
            },
            None => {
                let paid = redeemable(*old(delegation), credits_now, points_per_lamport);
                &&& result == Ok::<u64, StakeError>(paid as u64)
                &&& *final(balance) == *old(balance) + paid
                &&& *final(reward_pool) == *old(reward_pool) - paid
                &&& *final(delegation) == (Delegation { credits_observed: credits_now, ..*old(delegation) })
            },
        },
        *final(balance) + *final(reward_pool) == *old(balance) + *old(reward_pool),
        final(delegation).credits_observed >= old(delegation).credits_observed,
{
    if credits_now <= delegation.credits_observed {
        return Err(StakeError::NothingToRedeem);
    }
    let earned: u64 = credits_now - delegation.credits_observed;
    let owed: u128 = reward(earned, delegation.stake_lamports, points_per_lamport);
    if owed > *reward_pool as u128 {
        return Err(StakeError::RewardsPoolInsufficient);
    }
    let paid: u64 = owed as u64;
    if paid > u64::MAX - *balance {
        return Err(StakeError::InvalidInstructionData);
    }
    *reward_pool = *reward_pool - paid;
    *balance = *balance + paid;
    delegation.credits_observed = credits_now;
    Ok(paid)
}

} // verus!
