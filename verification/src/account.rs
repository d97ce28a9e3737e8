//! The accounts that the instructions act on, as the runtime hands them
//! over, and the cluster's settings.

use crate::delegation::{
    cooldown_horizon, lemma_active_stake_is_positive, lemma_effective_stake_bounded,
    lemma_effective_stake_zero_from_horizon, spec_effective_stake, Delegation,
};
use crate::history::{Epoch, StakeHistoryEntry};
use crate::pubkey::PublicKeyId;
use crate::state::{Authority, Lockup, StakeAccountState};
use vstd::prelude::*;

verus! {

/// What the cluster sets for the stake program.
#[derive(Clone, Copy, Debug, PartialEq, Eq)]
pub struct StakeConfig {
    /// The balance that an initialized account keeps to stay exempt from
    /// rent. It cannot be delegated or withdrawn.
    pub rent_exempt_reserve: u64,
    /// How many points, credits earned times lamports delegated, pay one
    /// lamport of reward. Zero pays no rewards.
    pub points_per_lamport: u64,
}

/// An account of the stake program.
#[derive(Clone, Copy, Debug, PartialEq, Eq)]
pub struct StakeAccount {
    pub id: PublicKeyId,
    pub lamports: u64,
    pub state: StakeAccountState,
}

/// What the stake program reads of a vote account: its identifier and its
/// credit counter, which the vote program only ever increases. An account
/// that holds no vote state has no counter.
#[derive(Clone, Copy, Debug, PartialEq, Eq)]
pub struct VoteAccount {
    pub id: PublicKeyId,
    pub credits: Option<u64>,
}

impl StakeAccountState {
    /// Who may act on the account, once it is initialized.
    pub open spec fn spec_authority(self) -> Option<Authority> {
        match self {
            StakeAccountState::Initialized { authority, .. } => Some(authority),
            StakeAccountState::Stake { authority, .. } => Some(authority),
            _ => None,
        }
    }

    /// The lockup of the account, once it is initialized.
    pub open spec fn spec_lockup(self) -> Option<Lockup> {
        match self {
            StakeAccountState::Initialized { lockup, .. } => Some(lockup),
            StakeAccountState::Stake { lockup, .. } => Some(lockup),
            _ => None,
        }
    }

    /// The delegation of the account, if it has one.
    pub open spec fn spec_delegation(self) -> Option<Delegation> {
        match self {
            StakeAccountState::Stake { delegation, .. } => Some(delegation),
            _ => None,
        }
    }

    /// Who may act on the account, once it is initialized.
    pub fn authority(&self) -> (authority: Option<Authority>)
        ensures
            authority == self.spec_authority(),
    {
        match self {
            StakeAccountState::Initialized { authority, .. } => Some(*authority),
            StakeAccountState::Stake { authority, .. } => Some(*authority),
            _ => None,
        }
    }

    /// The lockup of the account, once it is initialized.
    pub fn lockup(&self) -> (lockup: Option<Lockup>)
        ensures
            lockup == self.spec_lockup(),
    {
        match self {
            StakeAccountState::Initialized { lockup, .. } => Some(*lockup),
            StakeAccountState::Stake { lockup, .. } => Some(*lockup),
            _ => None,
        }
    }

    /// The delegation of the account, if it has one.
    pub fn delegation(&self) -> (delegation: Option<Delegation>)
        ensures
            delegation == self.spec_delegation(),
    {
        match self {
            StakeAccountState::Stake { delegation, .. } => Some(*delegation),
            _ => None,
        }
    }
}

/// The effective stake of the account's delegation in epoch `now`; none
/// where it has no delegation.
pub open spec fn staked(state: StakeAccountState, now: Epoch, entries: Seq<StakeHistoryEntry>) -> nat {
    match state.spec_delegation() {
        Some(delegation) => spec_effective_stake(delegation, now as int, entries),
        None => 0,
    }
}

/// The lamports that may leave the account in epoch `now`: the balance less
/// the rent-exempt reserve and the effective stake.
pub open spec fn withdrawable(
    account: StakeAccount,
    now: Epoch,
    entries: Seq<StakeHistoryEntry>,
    config: StakeConfig,
) -> nat {
    let locked = config.rent_exempt_reserve + staked(account.state, now, entries);
    if account.lamports >= locked {
        (account.lamports - locked) as nat
    } else {
        0
    }
}

/// What holds of every account between instructions: an initialized account
/// keeps the rent-exempt reserve, no more is delegated than the balance
/// above the reserve, and a delegation is not deactivated before it was
/// activated.
pub open spec fn account_valid(account: StakeAccount, config: StakeConfig) -> bool {
    match account.state {
        StakeAccountState::Initialized { .. } => account.lamports >= config.rent_exempt_reserve,
        StakeAccountState::Stake { delegation, .. } => {
            &&& delegation.stake_lamports + config.rent_exempt_reserve <= account.lamports
            &&& delegation.deactivation_epoch matches Some(deactivation) ==> deactivation
                >= delegation.activation_epoch
        },
        _ => true,
    }
}

/// In a valid account the effective stake and the reserve fit in the
/// balance, so what is withdrawable is exactly what is left over.
pub proof fn lemma_withdrawable_of_valid(
    account: StakeAccount,
    now: Epoch,
    entries: Seq<StakeHistoryEntry>,
    config: StakeConfig,
)
    requires
        account_valid(account, config),
        account.state.spec_authority() is Some,
    ensures
        withdrawable(account, now, entries, config) == account.lamports - config.rent_exempt_reserve
            - staked(account.state, now, entries),
{
    match account.state.spec_delegation() {
        Some(delegation) => lemma_effective_stake_bounded(delegation, now as int, entries),
        None => {},
    }
}

/// While a delegation of a valid account is active, from the epoch of its
/// activation up to and including that of its deactivation, the account
/// cannot be emptied down to its reserve: at least one delegated lamport
/// stays.
pub proof fn lemma_active_delegation_is_locked(
    account: StakeAccount,
    now: Epoch,
    entries: Seq<StakeHistoryEntry>,
    config: StakeConfig,
)
    requires
        account_valid(account, config),
        account.state.spec_delegation() matches Some(delegation) && delegation.stake_lamports > 0
            && delegation.activation_epoch <= now && (delegation.deactivation_epoch matches Some(
            deactivation,
        ) ==> now <= deactivation),
    ensures
        withdrawable(account, now, entries, config) < account.lamports - config.rent_exempt_reserve,
{
    lemma_active_stake_is_positive(account.state.spec_delegation()->0, now as int, entries);
    lemma_withdrawable_of_valid(account, now, entries, config);
}

/// Once the cool-down of its delegation is over, all of a valid account's
/// balance above the reserve is withdrawable.
pub proof fn lemma_withdrawable_after_cooldown(
    account: StakeAccount,
    now: Epoch,
    entries: Seq<StakeHistoryEntry>,
    config: StakeConfig,
)
    requires
        account_valid(account, config),
        account.state.spec_delegation() matches Some(delegation)
            && delegation.deactivation_epoch matches Some(deactivation) && cooldown_horizon(
            deactivation as int,
            entries,
        ) <= now,
    ensures
        withdrawable(account, now, entries, config) == account.lamports - config.rent_exempt_reserve,
{
    lemma_effective_stake_zero_from_horizon(account.state.spec_delegation()->0, entries, now as int);
    lemma_withdrawable_of_valid(account, now, entries, config);
}

} // verus!
