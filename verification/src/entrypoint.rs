//! The entry point that the ledger runtime calls: one encoded instruction,
//! the accounts that the transaction names for it, who signed, and the
//! current epoch.
//!
//! The runtime has resolved and locked the accounts. The first is the stake
//! account that the instruction acts on; what follows it depends on the
//! instruction. Accounts beyond those that the instruction needs are left
//! alone.

use crate::account::{account_valid, StakeAccount, StakeConfig, VoteAccount};
use crate::error::StakeError;
use crate::history::{Epoch, StakeHistory, StakeHistoryEntry};
use crate::instruction::{spec_decode, StakeInstruction};
use crate::processor::{
    deactivate, deactivate_error, deactivated, delegate_error, delegate_stake, delegated, initialize,
    initialize_error, initialized, pool_after_redemption, redeem_vote_credits, redeem_vote_credits_error,
    redeemed, withdraw, withdraw_error, withdrawn,
};
use crate::pubkey::PublicKeyId;
use crate::state::StakeAccountState;
use vstd::prelude::*;

verus! {

/// What an account holds, as far as the stake program reads it.
#[derive(Clone, Copy, Debug, PartialEq, Eq)]
pub enum AccountData {
    /// An account of the stake program, with its state.
    Stake(StakeAccountState),
    /// An account of the vote program, with its credit counter.
    Vote { credits: u64 },
    /// Any other account: only its balance matters here.
    Other,
}

/// An account as the runtime hands it over.
#[derive(Clone, Copy, Debug, PartialEq, Eq)]
pub struct Account {
    pub id: PublicKeyId,
    pub lamports: u64,
    pub data: AccountData,
}

/// The account read as a stake account, if it is one.
pub open spec fn as_stake_account(account: Account) -> Option<StakeAccount> {
    match account.data {
        AccountData::Stake(state) => Some(StakeAccount { id: account.id, lamports: account.lamports, state }),
        _ => None,
    }
}

/// The account read as a vote account: one that is none has no credit
/// counter.
pub open spec fn as_vote_account(account: Account) -> VoteAccount {
    VoteAccount {
        id: account.id,
        credits: match account.data {
            AccountData::Vote { credits } => Some(credits),
            _ => None,
        },
    }
}

/// The stake account as the runtime holds it.
pub open spec fn from_stake_account(account: StakeAccount) -> Account {
    Account { id: account.id, lamports: account.lamports, data: AccountData::Stake(account.state) }
}

/// How many accounts `instruction` acts on.
pub open spec fn accounts_needed(instruction: StakeInstruction) -> nat {
    match instruction {
        StakeInstruction::Initialize { .. } => 1,
        StakeInstruction::DelegateStake => 2,
        StakeInstruction::Deactivate => 1,
        StakeInstruction::Withdraw { .. } => 2,
        StakeInstruction::RedeemVoteCredits => 3,
    }
}

/// The accounts after `instruction` was applied with `stake`, the first of
/// them, as its stake account; or why it was refused.
pub open spec fn applied(
    instruction: StakeInstruction,
    stake: StakeAccount,
    accounts: Seq<Account>,
    signers: Seq<PublicKeyId>,
    now: Epoch,
    entries: Seq<StakeHistoryEntry>,
    config: StakeConfig,
) -> Result<Seq<Account>, StakeError> {
    match instruction {
        StakeInstruction::Initialize { authority, lockup } => match initialize_error(stake, config) {
            Some(error) => Err(error),
            None => Ok(accounts.update(0, from_stake_account(initialized(stake, authority, lockup)))),
        },
        StakeInstruction::DelegateStake => {
            let vote_account = as_vote_account(accounts[1]);
            match delegate_error(stake, vote_account, signers, now, entries, config) {
                Some(error) => Err(error),
                None => Ok(accounts.update(0, from_stake_account(delegated(stake, vote_account, now, config)))),
            }
        },
        StakeInstruction::Deactivate => match deactivate_error(stake, signers, now) {
            Some(error) => Err(error),
            None => Ok(accounts.update(0, from_stake_account(deactivated(stake, now)))),
        },
        StakeInstruction::Withdraw { amount } => {
            let destination = accounts[1];
            match withdraw_error(stake, destination.lamports, amount, signers, now, entries, config) {
                Some(error) => Err(error),
                None => Ok(
                    accounts.update(
                        0,
                        from_stake_account(withdrawn(stake, amount, now, entries, config)),
                    ).update(
                        1,
                        Account { lamports: (destination.lamports + amount) as u64, ..destination },
                    ),
                ),
            }
        },
        StakeInstruction::RedeemVoteCredits => {
            let vote_account = as_vote_account(accounts[1]);
            match as_stake_account(accounts[2]) {
                None => Err(StakeError::InvalidInstructionData),
                Some(pool) => match redeem_vote_credits_error(stake, vote_account, pool, config) {
                    Some(error) => Err(error),
                    None => Ok(
                        accounts.update(0, from_stake_account(redeemed(stake, vote_account, config))).update(
                            2,
                            from_stake_account(pool_after_redemption(stake, vote_account, pool, config)),
                        ),
                    ),
                },
            }
        },
    }
}

/// The accounts after the instruction that `data` encodes was applied to
/// them; or why it was refused. Data that encodes no instruction, too few
/// accounts, and a first account that is no stake account are all invalid
/// instruction data.
pub open spec fn spec_process(
    data: Seq<u8>,
    accounts: Seq<Account>,
    signers: Seq<PublicKeyId>,
    now: Epoch,
    entries: Seq<StakeHistoryEntry>,
    config: StakeConfig,
) -> Result<Seq<Account>, StakeError> {
    match spec_decode(data) {
        None => Err(StakeError::InvalidInstructionData),
        Some(instruction) => if accounts.len() < accounts_needed(instruction) {
            Err(StakeError::InvalidInstructionData)
        } else {
            match as_stake_account(accounts[0]) {
                None => Err(StakeError::InvalidInstructionData),
                Some(stake) => applied(instruction, stake, accounts, signers, now, entries, config),
            }
        },
    }
}

impl Account {
    /// The account read as a stake account, if it is one.
    pub fn stake_account(&self) -> (account: Option<StakeAccount>)
        ensures
            account == as_stake_account(*self),
    {
        match self.data {
            AccountData::Stake(state) => Some(StakeAccount { id: self.id, lamports: self.lamports, state }),
            _ => None,
        }
    }

    /// The account read as a vote account.
    pub fn vote_account(&self) -> (account: VoteAccount)
        ensures
            account == as_vote_account(*self),
    {
        VoteAccount {
            id: self.id,
            credits: match self.data {
                AccountData::Vote { credits } => Some(credits),
                _ => None,
            },
        }
    }

    /// The stake account as the runtime holds it.
    pub fn of_stake_account(account: &StakeAccount) -> (raw: Account)
        ensures
            raw == from_stake_account(*account),
    {
        Account { id: account.id, lamports: account.lamports, data: AccountData::Stake(account.state) }
    }
}

/// Whether the account, if it is a stake account, is a valid one.
pub open spec fn valid_if_stake(account: Account, config: StakeConfig) -> bool {
    as_stake_account(account) matches Some(stake) ==> account_valid(stake, config)
}

/// Applies the instruction encoded in `instruction_data` to `accounts`, in
/// epoch `current_epoch`, with the given signers. Either every change of the
/// instruction is made, or the instruction is refused and no account
/// changes. No account changes its identifier or its kind, and every stake
/// account that was valid is valid afterwards.
pub fn process(
    instruction_data: &[u8],
    accounts: &mut Vec<Account>,
    signers: &[PublicKeyId],
    current_epoch: Epoch,
    history: &StakeHistory,
    config: &StakeConfig,
) -> (result: Result<(), StakeError>)
    ensures
        match spec_process(instruction_data@, old(accounts)@, signers@, current_epoch, history@, *config) {
            Ok(after) => result is Ok && final(accounts)@ == after,
            Err(error) => result == Err::<(), StakeError>(error) && final(accounts)@ == old(accounts)@,
        },
        final(accounts)@.len() == old(accounts)@.len(),
        forall|i: int|
            0 <= i < old(accounts)@.len() ==> {
                &&& (#[trigger] final(accounts)@[i]).id == old(accounts)@[i].id
                &&& (as_stake_account(final(accounts)@[i]) is Some) == (as_stake_account(
                    old(accounts)@[i],
                ) is Some)
                &&& valid_if_stake(old(accounts)@[i], *config) ==> valid_if_stake(final(accounts)@[i], *config)
            },
{
    let instruction = match StakeInstruction::decode(instruction_data) {
        Ok(instruction) => instruction,
        Err(error) => {
            return Err(error);
        },
    };
    let needed: usize = match instruction {
        StakeInstruction::Initialize { .. } => 1,
        StakeInstruction::DelegateStake => 2,
        StakeInstruction::Deactivate => 1,
        StakeInstruction::Withdraw { .. } => 2,
        StakeInstruction::RedeemVoteCredits => 3,
    };
    if accounts.len() < needed {
        return Err(StakeError::InvalidInstructionData);
    }
    let mut stake = match accounts[0].stake_account() {
        Some(stake) => stake,
        None => {
            return Err(StakeError::InvalidInstructionData);
        },
    };
    match instruction {
        StakeInstruction::Initialize { authority, lockup } => {
            match initialize(&mut stake, authority, lockup, config) {
                Ok(()) => {},
                Err(error) => {
                    return Err(error);
                },
            }
            accounts[0] = Account::of_stake_account(&stake);
        },
        StakeInstruction::DelegateStake => {
            let vote_account = accounts[1].vote_account();
            match delegate_stake(&mut stake, &vote_account, signers, current_epoch, history, config) {
                Ok(()) => {},
                Err(error) => {
                    return Err(error);
                },
            }
            accounts[0] = Account::of_stake_account(&stake);
        },
        StakeInstruction::Deactivate => {
            match deactivate(&mut stake, signers, current_epoch) {
                Ok(()) => {},
                Err(error) => {
                    return Err(error);
                },
            }
            accounts[0] = Account::of_stake_account(&stake);
        },
        StakeInstruction::Withdraw { amount } => {
            let mut destination = accounts[1];
            match withdraw(
                &mut stake,
                &mut destination.lamports,
                amount,
                signers,
                current_epoch,
                history,
                config,
            ) {
                Ok(()) => {},
                Err(error) => {
                    return Err(error);
                },
            }
            accounts[0] = Account::of_stake_account(&stake);
            accounts[1] = destination;
        },
        StakeInstruction::RedeemVoteCredits => {
            let vote_account = accounts[1].vote_account();
            let mut pool = match accounts[2].stake_account() {
                Some(pool) => pool,
                None => {
                    return Err(StakeError::InvalidInstructionData);
                },
            };
            match redeem_vote_credits(&mut stake, &vote_account, &mut pool, config) {
                Ok(()) => {},
                Err(error) => {
                    return Err(error);
                },
            }
            accounts[0] = Account::of_stake_account(&stake);
            accounts[2] = Account::of_stake_account(&pool);
        },
    }
    Ok(())
}

} // verus!
