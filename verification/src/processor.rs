//! The instruction processor: the five instructions of the stake program,
//! each applied to the accounts it names.
//!
//! An instruction either applies in full or changes nothing. Each has a
//! function that says why it is refused, if it is, and one that says what
//! the account becomes; the checks are made in the order in which the
//! first of these lists them: the state of the account first, then who
//! signed, then the lockup, then the amounts.
//!
//! Every instruction but `Initialize` refuses an account that is not
//! initialized. Nobody holds authority over the rewards pool, so a
//! withdrawal from it always lacks a signature. A balance that would pass
//! 64 bits makes the instruction invalid.

use crate::account::{account_valid, staked, withdrawable, StakeAccount, StakeConfig, VoteAccount};
use crate::delegation::{effective_stake, spec_effective_stake, Delegation};
use crate::error::StakeError;
use crate::history::{Epoch, StakeHistory, StakeHistoryEntry};
use crate::pubkey::{has_signed, signed_by, PublicKeyId};
use crate::rewards::{redeem, redeem_error, redeemable};
use crate::state::{lockup_in_force, Authority, Lockup, StakeAccountState};
use vstd::prelude::*;

verus! {

/// Whether `lockup` stands in the way in epoch `now`, given who signed.
pub fn is_lockup_in_force(lockup: &Lockup, now: Epoch, signers: &[PublicKeyId]) -> (in_force: bool)
    ensures
        in_force == lockup_in_force(*lockup, now, signers@),
{
    now < lockup.epoch && !has_signed(signers, &lockup.custodian)
}

/// Why `Initialize` is refused, if it is.
pub open spec fn initialize_error(account: StakeAccount, config: StakeConfig) -> Option<StakeError> {
    if !(account.state is Uninitialized) {
        Some(StakeError::AlreadyInitialized)
    } else if account.lamports < config.rent_exempt_reserve {
        Some(StakeError::InsufficientFunds)
    } else {
        None
    }
}

/// The account after `Initialize`.
pub open spec fn initialized(account: StakeAccount, authority: Authority, lockup: Lockup) -> StakeAccount {
    StakeAccount { state: StakeAccountState::Initialized { authority, lockup }, ..account }
}

/// `Initialize`: gives an uninitialized account its authority and lockup.
/// The balance must cover the rent-exempt reserve.
pub fn initialize(account: &mut StakeAccount, authority: Authority, lockup: Lockup, config: &StakeConfig) -> (result:
    Result<(), StakeError>)
    ensures
        match initialize_error(*old(account), *config) {
            Some(error) => result == Err::<(), StakeError>(error) && *final(account) == *old(account),
            None => result is Ok && *final(account) == initialized(*old(account), authority, lockup),
        },
        account_valid(*old(account), *config) ==> account_valid(*final(account), *config),
{
    match account.state {
        StakeAccountState::Uninitialized => {},
        _ => {
            return Err(StakeError::AlreadyInitialized);
        },
    }
    if account.lamports < config.rent_exempt_reserve {
        return Err(StakeError::InsufficientFunds);
    }
    account.state = StakeAccountState::Initialized { authority, lockup };
    Ok(())
}

/// Whether `delegation` has run its course by epoch `now`: it was
/// deactivated, and none of its stake is effective any more.
pub open spec fn spent(delegation: Delegation, now: Epoch, entries: Seq<StakeHistoryEntry>) -> bool {
    &&& delegation.deactivation_epoch matches Some(deactivation)
    &&& deactivation <= now
    &&& spec_effective_stake(delegation, now as int, entries) == 0
}

/// Whether `delegation` has run its course by epoch `now`.
pub fn is_spent(delegation: &Delegation, now: Epoch, history: &StakeHistory) -> (done: bool)
    ensures
        done == spent(*delegation, now, history@),
{
    match delegation.deactivation_epoch {
        Some(deactivation) => deactivation <= now && effective_stake(delegation, now, history) == 0,
        None => false,
    }
}

/// Whether an account in `state` can take a new delegation in epoch `now`:
/// it is initialized and has none, or the one it has is spent.
pub open spec fn delegatable(state: StakeAccountState, now: Epoch, entries: Seq<StakeHistoryEntry>) -> bool {
    match state {
        StakeAccountState::Initialized { .. } => true,
        StakeAccountState::Stake { delegation, .. } => spent(delegation, now, entries),
        _ => false,
    }
}

/// Why `DelegateStake` is refused, if it is.
pub open spec fn delegate_error(
    account: StakeAccount,
    vote_account: VoteAccount,
    signers: Seq<PublicKeyId>,
    now: Epoch,
    entries: Seq<StakeHistoryEntry>,
    config: StakeConfig,
) -> Option<StakeError> {
    if account.state is Uninitialized {
        Some(StakeError::AccountNotInitialized)
    } else if !delegatable(account.state, now, entries) {
        Some(StakeError::NotDelegatable)
    } else if !signed_by(signers, account.state.spec_authority()->0.staker) {
        Some(StakeError::MissingSignature)
    } else if lockup_in_force(account.state.spec_lockup()->0, now, signers) {
        Some(StakeError::LockupInForce)
    } else if vote_account.credits is None {
        Some(StakeError::InvalidVoteAccount)
    } else if account.lamports < config.rent_exempt_reserve {
        Some(StakeError::InsufficientFunds)
    } else {
        None
    }
}

/// The account after `DelegateStake`: all of the balance above the reserve
/// is delegated to the vote account from epoch `now` on, and the credits that
/// the vote account has so far are taken as seen.
pub open spec fn delegated(
    account: StakeAccount,
    vote_account: VoteAccount,
    now: Epoch,
    config: StakeConfig,
) -> StakeAccount {
    StakeAccount {
        state: StakeAccountState::Stake {
            authority: account.state.spec_authority()->0,
            lockup: account.state.spec_lockup()->0,
            delegation: Delegation {
                voter: vote_account.id,
                stake_lamports: (account.lamports - config.rent_exempt_reserve) as u64,
                activation_epoch: now,
                deactivation_epoch: None,
                credits_observed: vote_account.credits->0,
            },
        },
        ..account
    }
}

/// `DelegateStake`: delegates the account's balance above the reserve to
/// `vote_account`. The account must be initialized without a delegation, or
/// hold one that is spent; the staker must have signed; the lockup must have
/// expired or its custodian signed; the vote account must hold vote state.
pub fn delegate_stake(
    account: &mut StakeAccount,
    vote_account: &VoteAccount,
    signers: &[PublicKeyId],
    now: Epoch,
    history: &StakeHistory,
    config: &StakeConfig,
) -> (result: Result<(), StakeError>)
    ensures
        match delegate_error(*old(account), *vote_account, signers@, now, history@, *config) {
            Some(error) => result == Err::<(), StakeError>(error) && *final(account) == *old(account),
            None => result is Ok && *final(account) == delegated(*old(account), *vote_account, now, *config),
        },
        account_valid(*old(account), *config) ==> account_valid(*final(account), *config),
{
    let (authority, lockup) = match account.state {
        StakeAccountState::Uninitialized => {
            return Err(StakeError::AccountNotInitialized);
        },
        StakeAccountState::RewardsPool => {
            return Err(StakeError::NotDelegatable);
        },
        StakeAccountState::Initialized { authority, lockup } => (authority, lockup),
        StakeAccountState::Stake { authority, lockup, delegation } => {
            if !is_spent(&delegation, now, history) {
                return Err(StakeError::NotDelegatable);
            }
            (authority, lockup)
        },
    };
    if !has_signed(signers, &authority.staker) {
        return Err(StakeError::MissingSignature);
    }
    if is_lockup_in_force(&lockup, now, signers) {
        return Err(StakeError::LockupInForce);
    }
    let credits_observed = match vote_account.credits {
        Some(credits) => credits,
        None => {
            return Err(StakeError::InvalidVoteAccount);
        },
    };
    if account.lamports < config.rent_exempt_reserve {
        return Err(StakeError::InsufficientFunds);
    }
    account.state = StakeAccountState::Stake {
        authority,
        lockup,
        delegation: Delegation {
            voter: vote_account.id,
            stake_lamports: account.lamports - config.rent_exempt_reserve,
            activation_epoch: now,
            deactivation_epoch: None,
            credits_observed,
        },
    };
    Ok(())
}

/// Whether an account in `state` can be deactivated in epoch `now`: it holds
/// a delegation that was activated by then and not deactivated yet.
pub open spec fn deactivatable(state: StakeAccountState, now: Epoch) -> bool {
    &&& state.spec_delegation() matches Some(delegation)
    &&& delegation.deactivation_epoch is None
    &&& delegation.activation_epoch <= now
}

/// Why `Deactivate` is refused, if it is.
pub open spec fn deactivate_error(account: StakeAccount, signers: Seq<PublicKeyId>, now: Epoch) -> Option<
    StakeError,
> {
    if account.state is Uninitialized {
        Some(StakeError::AccountNotInitialized)
    } else if !deactivatable(account.state, now) {
        Some(StakeError::NotDelegatable)
    } else if !signed_by(signers, account.state.spec_authority()->0.staker) {
        Some(StakeError::MissingSignature)
    } else {
        None
    }
}

/// The account after `Deactivate` in epoch `now`.
pub open spec fn deactivated(account: StakeAccount, now: Epoch) -> StakeAccount {
    StakeAccount {
        state: StakeAccountState::Stake {
            authority: account.state.spec_authority()->0,
            lockup: account.state.spec_lockup()->0,
            delegation: Delegation { deactivation_epoch: Some(now), ..account.state.spec_delegation()->0 },
        },
        ..account
    }
}

/// `Deactivate`: starts the cool-down of the account's delegation in epoch
/// `now`. The staker must have signed.
pub fn deactivate(account: &mut StakeAccount, signers: &[PublicKeyId], now: Epoch) -> (result: Result<
    (),
    StakeError,
>)
    ensures
        match deactivate_error(*old(account), signers@, now) {
            Some(error) => result == Err::<(), StakeError>(error) && *final(account) == *old(account),
            None => result is Ok && *final(account) == deactivated(*old(account), now),
        },
        forall|config: StakeConfig|
            account_valid(*old(account), config) ==> account_valid(*final(account), config),
{
    let (authority, lockup, delegation) = match account.state {
        StakeAccountState::Uninitialized => {
            return Err(StakeError::AccountNotInitialized);
        },
        StakeAccountState::Stake { authority, lockup, delegation } => (authority, lockup, delegation),
        _ => {
            return Err(StakeError::NotDelegatable);
        },
    };
    if delegation.deactivation_epoch.is_some() || now < delegation.activation_epoch {
        return Err(StakeError::NotDelegatable);
    }
    if !has_signed(signers, &authority.staker) {
        return Err(StakeError::MissingSignature);
    }
    account.state = StakeAccountState::Stake {
        authority,
        lockup,
        delegation: Delegation {
            voter: delegation.voter,
            stake_lamports: delegation.stake_lamports,
            activation_epoch: delegation.activation_epoch,
            deactivation_epoch: Some(now),
            credits_observed: delegation.credits_observed,
        },
    };
    Ok(())
}

/// The effective stake of the account's delegation in epoch `now`; none
/// where it has no delegation.
pub fn staked_lamports(state: &StakeAccountState, now: Epoch, history: &StakeHistory) -> (lamports: u64)
    ensures
        lamports == staked(*state, now, history@),
{
    match state {
        StakeAccountState::Stake { delegation, .. } => effective_stake(delegation, now, history),
        _ => 0,
    }
}

/// The lamports that may leave the account in epoch `now`.
pub fn withdrawable_lamports(account: &StakeAccount, now: Epoch, history: &StakeHistory, config: &StakeConfig) -> (lamports:
    u64)
    ensures
        lamports == withdrawable(*account, now, history@, *config),
{
    let staked = staked_lamports(&account.state, now, history);
    if account.lamports < config.rent_exempt_reserve {
        0
    } else if account.lamports - config.rent_exempt_reserve < staked {
        0
    } else {
        account.lamports - config.rent_exempt_reserve - staked
    }
}

/// Why `Withdraw` of `amount` lamports to an account that holds
/// `destination` lamports is refused, if it is.
pub open spec fn withdraw_error(
    account: StakeAccount,
    destination: u64,
    amount: u64,
    signers: Seq<PublicKeyId>,
    now: Epoch,
    entries: Seq<StakeHistoryEntry>,
    config: StakeConfig,
) -> Option<StakeError> {
    if account.state is Uninitialized {
        Some(StakeError::AccountNotInitialized)
    } else if account.state.spec_authority() is None {
        Some(StakeError::MissingSignature)
    } else if !signed_by(signers, account.state.spec_authority()->0.withdrawer) {
        Some(StakeError::MissingSignature)
    } else if lockup_in_force(account.state.spec_lockup()->0, now, signers) {
        Some(StakeError::LockupInForce)
    } else if amount > withdrawable(account, now, entries, config) {
        Some(StakeError::InsufficientFunds)
    } else if destination + amount > u64::MAX {
        Some(StakeError::InvalidInstructionData)
    } else {
        None
    }
}

/// The state of an account after a withdrawal in epoch `now` that left it
/// `remaining` lamports. An account that is drained and has no delegation,
/// or a spent one, is uninitialized again. Otherwise a delegation is cut
/// down to what is left above the reserve, where it was more.
pub open spec fn state_after_withdrawal(
    state: StakeAccountState,
    remaining: u64,
    now: Epoch,
    entries: Seq<StakeHistoryEntry>,
    config: StakeConfig,
) -> StakeAccountState {
    match state {
        StakeAccountState::Initialized { .. } => if remaining == 0 {
            StakeAccountState::Uninitialized
        } else {
            state
        },
        StakeAccountState::Stake { authority, lockup, delegation } => if remaining == 0 && spent(
            delegation,
            now,
            entries,
        ) {
            StakeAccountState::Uninitialized
        } else if delegation.stake_lamports + config.rent_exempt_reserve > remaining {
            StakeAccountState::Stake {
                authority,
                lockup,
                delegation: Delegation {
                    stake_lamports: if remaining >= config.rent_exempt_reserve {
                        (remaining - config.rent_exempt_reserve) as u64
                    } else {
                        0
                    },
                    ..delegation
                },
            }
        } else {
            state
        },
        _ => state,
    }
}

/// The account after `Withdraw` of `amount` lamports in epoch `now`.
pub open spec fn withdrawn(
    account: StakeAccount,
    amount: u64,
    now: Epoch,
    entries: Seq<StakeHistoryEntry>,
    config: StakeConfig,
) -> StakeAccount {
    let remaining = (account.lamports - amount) as u64;
    StakeAccount {
        lamports: remaining,
        state: state_after_withdrawal(account.state, remaining, now, entries, config),
        ..account
    }
}

/// `Withdraw`: moves `amount` lamports from the account to `destination`,
/// the balance of the receiving account. The withdrawer must have signed;
/// the lockup must have expired or its custodian signed; the amount must
/// not exceed what is withdrawable.
pub fn withdraw(
    account: &mut StakeAccount,
    destination: &mut u64,
    amount: u64,
    signers: &[PublicKeyId],
    now: Epoch,
    history: &StakeHistory,
    config: &StakeConfig,
) -> (result: Result<(), StakeError>)
    ensures
        match withdraw_error(*old(account), *old(destination), amount, signers@, now, history@, *config) {
            Some(error) => {
                &&& result == Err::<(), StakeError>(error)
                &&& *final(account) == *old(account)
                &&& *final(destination) == *old(destination)
            },
            None => {
                &&& result is Ok
                &&& *final(account) == withdrawn(*old(account), amount, now, history@, *config)
                &&& *final(destination) == *old(destination) + amount
            },
        },
        final(account).lamports + *final(destination) == old(account).lamports + *old(destination),
        account_valid(*old(account), *config) ==> account_valid(*final(account), *config),
{
    let (authority, lockup) = match account.state {
        StakeAccountState::Uninitialized => {
            return Err(StakeError::AccountNotInitialized);
        },
        StakeAccountState::RewardsPool => {
            return Err(StakeError::MissingSignature);
        },
        StakeAccountState::Initialized { authority, lockup } => (authority, lockup),
        StakeAccountState::Stake { authority, lockup, .. } => (authority, lockup),
    };
    if !has_signed(signers, &authority.withdrawer) {
        return Err(StakeError::MissingSignature);
    }
    if is_lockup_in_force(&lockup, now, signers) {
        return Err(StakeError::LockupInForce);
    }
    if amount > withdrawable_lamports(account, now, history, config) {
        return Err(StakeError::InsufficientFunds);
    }
    if amount > u64::MAX - *destination {
        return Err(StakeError::InvalidInstructionData);
    }
    let remaining: u64 = account.lamports - amount;
    let state = match account.state {
        StakeAccountState::Initialized { .. } => if remaining == 0 {
            StakeAccountState::Uninitialized
        } else {
            account.state
        },
        StakeAccountState::Stake { authority, lockup, delegation } => {
            let above_reserve: u64 = if remaining >= config.rent_exempt_reserve {
                remaining - config.rent_exempt_reserve
            } else {
                0
            };
            if remaining == 0 && is_spent(&delegation, now, history) {
                StakeAccountState::Uninitialized
            } else if delegation.stake_lamports > above_reserve {
                StakeAccountState::Stake {
                    authority,
                    lockup,
                    delegation: Delegation {
                        voter: delegation.voter,
                        stake_lamports: above_reserve,
                        activation_epoch: delegation.activation_epoch,
                        deactivation_epoch: delegation.deactivation_epoch,
                        credits_observed: delegation.credits_observed,
                    },
                }
            } else {
                account.state
            }
        },
        _ => account.state,
    };
    account.lamports = remaining;
    account.state = state;
    *destination = *destination + amount;
    Ok(())
}

/// Why `RedeemVoteCredits` is refused, if it is.
pub open spec fn redeem_vote_credits_error(
    account: StakeAccount,
    vote_account: VoteAccount,
    rewards_pool: StakeAccount,
    config: StakeConfig,
) -> Option<StakeError> {
    if account.state is Uninitialized {
        Some(StakeError::AccountNotInitialized)
    } else if account.state.spec_delegation() is None {
        Some(StakeError::NotDelegatable)
    } else if account.state.spec_delegation()->0.voter != vote_account.id {
        Some(StakeError::NotDelegatable)
    } else if vote_account.credits is None {
        Some(StakeError::InvalidVoteAccount)
    } else if !(rewards_pool.state is RewardsPool) {
        Some(StakeError::InvalidInstructionData)
    } else {
        redeem_error(
            account.state.spec_delegation()->0,
            account.lamports,
            vote_account.credits->0,
            rewards_pool.lamports,
            config.points_per_lamport,
        )
    }
}

/// What `RedeemVoteCredits` pays.
pub open spec fn reward_due(account: StakeAccount, vote_account: VoteAccount, config: StakeConfig) -> nat {
    redeemable(account.state.spec_delegation()->0, vote_account.credits->0, config.points_per_lamport)
}

/// The stake account after `RedeemVoteCredits`: the reward is added to the
/// balance, and the delegation has seen the vote account's credits.
pub open spec fn redeemed(account: StakeAccount, vote_account: VoteAccount, config: StakeConfig) -> StakeAccount {
    StakeAccount {
        lamports: (account.lamports + reward_due(account, vote_account, config)) as u64,
        state: StakeAccountState::Stake {
            authority: account.state.spec_authority()->0,
            lockup: account.state.spec_lockup()->0,
            delegation: Delegation {
                credits_observed: vote_account.credits->0,
                ..account.state.spec_delegation()->0
            },
        },
        ..account
    }
}

/// The rewards pool after `RedeemVoteCredits`.
pub open spec fn pool_after_redemption(
    account: StakeAccount,
    vote_account: VoteAccount,
    rewards_pool: StakeAccount,
    config: StakeConfig,
) -> StakeAccount {
    StakeAccount {
        lamports: (rewards_pool.lamports - reward_due(account, vote_account, config)) as u64,
        ..rewards_pool
    }
}

/// `RedeemVoteCredits`: pays the account, from `rewards_pool`, for the
/// credits that the vote account it is delegated to has earned since the
/// last redemption.
pub fn redeem_vote_credits(
    account: &mut StakeAccount,
    vote_account: &VoteAccount,
    rewards_pool: &mut StakeAccount,
    config: &StakeConfig,
) -> (result: Result<(), StakeError>)
    ensures
        match redeem_vote_credits_error(*old(account), *vote_account, *old(rewards_pool), *config) {
            Some(error) => {
                &&& result == Err::<(), StakeError>(error)
                &&& *final(account) == *old(account)
                &&& *final(rewards_pool) == *old(rewards_pool)
            },
            None => {
                &&& result is Ok
                &&& *final(account) == redeemed(*old(account), *vote_account, *config)
                &&& *final(rewards_pool) == pool_after_redemption(
                    *old(account),
                    *vote_account,
                    *old(rewards_pool),
                    *config,
                )
            },
        },
        final(account).lamports + final(rewards_pool).lamports == old(account).lamports + old(
            rewards_pool,
        ).lamports,
        account_valid(*old(account), *config) ==> account_valid(*final(account), *config),
{
    let (authority, lockup, delegation) = match account.state {
        StakeAccountState::Uninitialized => {
            return Err(StakeError::AccountNotInitialized);
        },
        StakeAccountState::Stake { authority, lockup, delegation } => (authority, lockup, delegation),
        _ => {
            return Err(StakeError::NotDelegatable);
        },
    };
    if !delegation.voter.same(&vote_account.id) {
        return Err(StakeError::NotDelegatable);
    }
    let credits_now = match vote_account.credits {
        Some(credits) => credits,
        None => {
            return Err(StakeError::InvalidVoteAccount);
        },
    };
    match rewards_pool.state {
        StakeAccountState::RewardsPool => {},
        _ => {
            return Err(StakeError::InvalidInstructionData);
        },
    }
    let mut delegation = delegation;
    let mut balance = account.lamports;
    let mut pool = rewards_pool.lamports;
    match redeem(&mut delegation, &mut balance, credits_now, &mut pool, config.points_per_lamport) {
        Ok(_) => {
            account.lamports = balance;
            account.state = StakeAccountState::Stake { authority, lockup, delegation };
            rewards_pool.lamports = pool;
            Ok(())
        },
        Err(error) => Err(error),
    }
}

/// A second `RedeemVoteCredits`, with the vote account's credits where they
/// stood at the first, is refused: there is nothing to redeem. A refused
/// instruction changes nothing, so the balance stays as the first left it.
pub proof fn lemma_second_redemption_refused(
    account: StakeAccount,
    vote_account: VoteAccount,
    rewards_pool: StakeAccount,
    config: StakeConfig,
)
    requires
        redeem_vote_credits_error(account, vote_account, rewards_pool, config) is None,
    ensures
        redeem_vote_credits_error(
            redeemed(account, vote_account, config),
            vote_account,
            pool_after_redemption(account, vote_account, rewards_pool, config),
            config,
        ) == Some(StakeError::NothingToRedeem),
{
}

/// With the withdrawer's signature and no lockup in the way, a withdrawal
/// of exactly what is withdrawable is accepted, and one of a single lamport
/// more is refused for insufficient funds.
pub proof fn lemma_withdraw_boundary(
    account: StakeAccount,
    destination: u64,
    signers: Seq<PublicKeyId>,
    now: Epoch,
    entries: Seq<StakeHistoryEntry>,
    config: StakeConfig,
)
    requires
        account.state.spec_authority() matches Some(authority) && signed_by(signers, authority.withdrawer),
        !lockup_in_force(account.state.spec_lockup()->0, now, signers),
        destination + withdrawable(account, now, entries, config) <= u64::MAX,
    ensures
        withdraw_error(
            account,
            destination,
            withdrawable(account, now, entries, config) as u64,
            signers,
            now,
            entries,
            config,
        ) is None,
        withdrawable(account, now, entries, config) < u64::MAX ==> withdraw_error(
            account,
            destination,
            (withdrawable(account, now, entries, config) + 1) as u64,
            signers,
            now,
            entries,
            config,
        ) == Some(StakeError::InsufficientFunds),
{
}

} // verus!
