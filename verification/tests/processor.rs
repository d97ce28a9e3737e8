use stake_program::account::{StakeAccount, StakeConfig, VoteAccount};
use stake_program::delegation::Delegation;
use stake_program::entrypoint::{process, Account, AccountData};
use stake_program::error::StakeError;
use stake_program::history::{StakeHistory, StakeHistoryEntry};
use stake_program::instruction::StakeInstruction;
use stake_program::processor::{
    deactivate, delegate_stake, initialize, is_lockup_in_force, is_spent, redeem_vote_credits, staked_lamports,
    withdraw, withdrawable_lamports,
};
use stake_program::pubkey::{has_signed, PublicKeyId};
use stake_program::rewards::{redeem, reward};
use stake_program::state::{Authority, Lockup, StakeAccountState};

const STAKER: u8 = 1;
const WITHDRAWER: u8 = 2;
const CUSTODIAN: u8 = 3;
const VOTER: u8 = 4;
const STRANGER: u8 = 5;

fn key(byte: u8) -> PublicKeyId {
    PublicKeyId::new([byte; 32])
}

fn config() -> StakeConfig {
    StakeConfig { rent_exempt_reserve: 100, points_per_lamport: 1000 }
}

fn authority() -> Authority {
    Authority { staker: key(STAKER), withdrawer: key(WITHDRAWER) }
}

fn lockup(epoch: u64) -> Lockup {
    Lockup { epoch, custodian: key(CUSTODIAN) }
}

fn delegation(stake_lamports: u64, activation_epoch: u64, deactivation_epoch: Option<u64>) -> Delegation {
    Delegation { voter: key(VOTER), stake_lamports, activation_epoch, deactivation_epoch, credits_observed: 5 }
}

fn account(lamports: u64, state: StakeAccountState) -> StakeAccount {
    StakeAccount { id: key(50), lamports, state }
}

fn initialized(lamports: u64) -> StakeAccount {
    account(lamports, StakeAccountState::Initialized { authority: authority(), lockup: lockup(0) })
}

fn staking(lamports: u64, delegation: Delegation) -> StakeAccount {
    account(lamports, StakeAccountState::Stake { authority: authority(), lockup: lockup(0), delegation })
}

fn vote(credits: u64) -> VoteAccount {
    VoteAccount { id: key(VOTER), credits: Some(credits) }
}

fn pool(lamports: u64) -> StakeAccount {
    StakeAccount { id: key(60), lamports, state: StakeAccountState::RewardsPool }
}

fn history_from(first: u64, totals: &[(u64, u64, u64)]) -> StakeHistory {
    let mut history = StakeHistory::new();
    for (i, &(effective_stake, activating_stake, deactivating_stake)) in totals.iter().enumerate() {
        history
            .append(StakeHistoryEntry {
                epoch: first + i as u64,
                effective_stake,
                activating_stake,
                deactivating_stake,
            })
            .unwrap();
    }
    history
}

#[test]
fn signers_are_found_by_key() {
    let signers = [key(1), key(2)];
    assert!(has_signed(&signers, &key(1)));
    assert!(has_signed(&signers, &key(2)));
    assert!(!has_signed(&signers, &key(3)));
    assert!(!has_signed(&[], &key(1)));
}

#[test]
fn lockup_holds_until_its_epoch_or_the_custodian_signs() {
    assert!(is_lockup_in_force(&lockup(10), 9, &[key(STAKER)]));
    assert!(!is_lockup_in_force(&lockup(10), 10, &[key(STAKER)]));
    assert!(!is_lockup_in_force(&lockup(10), 11, &[]));
    assert!(!is_lockup_in_force(&lockup(10), 0, &[key(STAKER), key(CUSTODIAN)]));
    assert!(!is_lockup_in_force(&lockup(0), 0, &[]));
}

#[test]
fn initialize_sets_authority_and_lockup() {
    let mut stake = account(100, StakeAccountState::Uninitialized);
    assert_eq!(initialize(&mut stake, authority(), lockup(9), &config()), Ok(()));
    assert_eq!(
        stake,
        account(100, StakeAccountState::Initialized { authority: authority(), lockup: lockup(9) })
    );
}

#[test]
fn initialize_needs_the_rent_exempt_reserve() {
    let mut stake = account(99, StakeAccountState::Uninitialized);
    assert_eq!(initialize(&mut stake, authority(), lockup(0), &config()), Err(StakeError::InsufficientFunds));
    assert_eq!(stake, account(99, StakeAccountState::Uninitialized));
}

#[test]
fn initialize_happens_once() {
    for before in [initialized(1000), staking(1000, delegation(900, 0, None)), pool(1000)] {
        let mut stake = before;
        assert_eq!(
            initialize(&mut stake, authority(), lockup(0), &config()),
            Err(StakeError::AlreadyInitialized)
        );
        assert_eq!(stake, before);
    }
    // The state is looked at before the balance.
    let mut poor = initialized(1);
    assert_eq!(initialize(&mut poor, authority(), lockup(0), &config()), Err(StakeError::AlreadyInitialized));
}

#[test]
fn delegate_stakes_the_balance_above_the_reserve() {
    let history = StakeHistory::new();
    let mut stake = initialized(20100);
    assert_eq!(delegate_stake(&mut stake, &vote(17), &[key(STAKER)], 3, &history, &config()), Ok(()));
    assert_eq!(
        stake,
        staking(
            20100,
            Delegation {
                voter: key(VOTER),
                stake_lamports: 20000,
                activation_epoch: 3,
                deactivation_epoch: None,
                credits_observed: 17,
            }
        )
    );
}

#[test]
fn delegate_is_refused_in_order() {
    let history = StakeHistory::new();
    let signed = [key(STAKER)];

    let mut bare = account(1000, StakeAccountState::Uninitialized);
    assert_eq!(
        delegate_stake(&mut bare, &vote(0), &signed, 0, &history, &config()),
        Err(StakeError::AccountNotInitialized)
    );
    let mut rewards = pool(1000);
    assert_eq!(
        delegate_stake(&mut rewards, &vote(0), &signed, 0, &history, &config()),
        Err(StakeError::NotDelegatable)
    );

    let mut stake = initialized(1000);
    assert_eq!(
        delegate_stake(&mut stake, &vote(0), &[key(WITHDRAWER), key(CUSTODIAN)], 0, &history, &config()),
        Err(StakeError::MissingSignature)
    );

    let mut locked = account(1000, StakeAccountState::Initialized { authority: authority(), lockup: lockup(8) });
    let no_vote = VoteAccount { id: key(VOTER), credits: None };
    assert_eq!(
        delegate_stake(&mut locked, &no_vote, &signed, 7, &history, &config()),
        Err(StakeError::LockupInForce)
    );
    assert_eq!(
        delegate_stake(&mut locked, &no_vote, &signed, 8, &history, &config()),
        Err(StakeError::InvalidVoteAccount)
    );
    assert_eq!(
        delegate_stake(&mut locked, &no_vote, &[key(STAKER), key(CUSTODIAN)], 7, &history, &config()),
        Err(StakeError::InvalidVoteAccount)
    );

    let mut poor = initialized(99);
    assert_eq!(
        delegate_stake(&mut poor, &vote(0), &signed, 0, &history, &config()),
        Err(StakeError::InsufficientFunds)
    );
    assert_eq!(poor, initialized(99));
    assert_eq!(stake, initialized(1000));
    assert_eq!(rewards, pool(1000));
    assert_eq!(delegate_stake(&mut locked, &vote(0), &signed, 8, &history, &config()), Ok(()));
}

#[test]
fn delegate_again_only_when_the_old_delegation_is_spent() {
    let cluster = history_from(0, &[(40000, 0, 0), (40000, 0, 0), (40000, 0, 20000), (30000, 0, 10000)]);
    let signed = [key(STAKER)];
    let other = VoteAccount { id: key(77), credits: Some(2) };

    let active = staking(20100, delegation(20000, 0, None));
    let mut stake = active;
    assert_eq!(
        delegate_stake(&mut stake, &other, &signed, 1, &cluster, &config()),
        Err(StakeError::NotDelegatable)
    );
    assert_eq!(stake, active);

    let cooling = staking(20100, delegation(20000, 0, Some(1)));
    assert!(!is_spent(&delegation(20000, 0, Some(1)), 1, &cluster));
    assert!(!is_spent(&delegation(20000, 0, Some(1)), 2, &cluster));
    assert!(!is_spent(&delegation(20000, 0, Some(1)), 3, &cluster));
    assert!(is_spent(&delegation(20000, 0, Some(1)), 4, &cluster));
    assert!(!is_spent(&delegation(20000, 0, None), 4, &cluster));
    let mut stake = cooling;
    for now in 1..4 {
        assert_eq!(
            delegate_stake(&mut stake, &other, &signed, now, &cluster, &config()),
            Err(StakeError::NotDelegatable)
        );
        assert_eq!(stake, cooling);
    }
    assert_eq!(delegate_stake(&mut stake, &other, &signed, 4, &cluster, &config()), Ok(()));
    assert_eq!(
        stake,
        staking(
            20100,
            Delegation {
                voter: key(77),
                stake_lamports: 20000,
                activation_epoch: 4,
                deactivation_epoch: None,
                credits_observed: 2,
            }
        )
    );
}

#[test]
fn deactivate_sets_the_epoch() {
    let mut stake = staking(20100, delegation(20000, 3, None));
    assert_eq!(deactivate(&mut stake, &[key(STAKER)], 3), Ok(()));
    assert_eq!(stake, staking(20100, delegation(20000, 3, Some(3))));
    let mut stake = staking(20100, delegation(20000, 3, None));
    assert_eq!(deactivate(&mut stake, &[key(STRANGER), key(STAKER)], 900), Ok(()));
    assert_eq!(stake, staking(20100, delegation(20000, 3, Some(900))));
}

#[test]
fn deactivate_is_refused_in_order() {
    let signed = [key(STAKER)];
    let mut bare = account(1000, StakeAccountState::Uninitialized);
    assert_eq!(deactivate(&mut bare, &signed, 5), Err(StakeError::AccountNotInitialized));
    let mut idle = initialized(1000);
    assert_eq!(deactivate(&mut idle, &signed, 5), Err(StakeError::NotDelegatable));
    let mut rewards = pool(1000);
    assert_eq!(deactivate(&mut rewards, &signed, 5), Err(StakeError::NotDelegatable));

    let done = staking(20100, delegation(20000, 3, Some(4)));
    let mut stake = done;
    assert_eq!(deactivate(&mut stake, &signed, 5), Err(StakeError::NotDelegatable));
    assert_eq!(deactivate(&mut stake, &[], 5), Err(StakeError::NotDelegatable));
    assert_eq!(stake, done);

    let early = staking(20100, delegation(20000, 3, None));
    let mut stake = early;
    assert_eq!(deactivate(&mut stake, &signed, 2), Err(StakeError::NotDelegatable));
    assert_eq!(deactivate(&mut stake, &[key(WITHDRAWER)], 3), Err(StakeError::MissingSignature));
    assert_eq!(deactivate(&mut stake, &[], 3), Err(StakeError::MissingSignature));
    assert_eq!(stake, early);
}

#[test]
fn withdrawable_is_what_reserve_and_stake_leave() {
    let empty = StakeHistory::new();
    assert_eq!(withdrawable_lamports(&initialized(1000), 0, &empty, &config()), 900);
    assert_eq!(withdrawable_lamports(&initialized(100), 0, &empty, &config()), 0);
    assert_eq!(withdrawable_lamports(&initialized(40), 0, &empty, &config()), 0);
    let stake = staking(1500, delegation(1000, 2, None));
    assert_eq!(staked_lamports(&stake.state, 5, &empty), 1000);
    assert_eq!(staked_lamports(&stake.state, 1, &empty), 0);
    assert_eq!(staked_lamports(&initialized(1000).state, 5, &empty), 0);
    assert_eq!(withdrawable_lamports(&stake, 5, &empty, &config()), 400);
    assert_eq!(withdrawable_lamports(&stake, 1, &empty, &config()), 1400);
    // A balance that does not even cover the stake leaves nothing.
    assert_eq!(withdrawable_lamports(&staking(1050, delegation(1000, 2, None)), 5, &empty, &config()), 0);
    assert_eq!(withdrawable_lamports(&account(70, StakeAccountState::Uninitialized), 5, &empty, &config()), 0);
}

#[test]
fn withdraw_what_is_withdrawable_and_not_a_lamport_more() {
    let empty = StakeHistory::new();
    let signed = [key(WITHDRAWER)];
    let before = staking(1500, delegation(1000, 2, None));

    let mut stake = before;
    let mut destination = 7;
    assert_eq!(
        withdraw(&mut stake, &mut destination, 401, &signed, 5, &empty, &config()),
        Err(StakeError::InsufficientFunds)
    );
    assert_eq!(stake, before);
    assert_eq!(destination, 7);

    assert_eq!(withdraw(&mut stake, &mut destination, 400, &signed, 5, &empty, &config()), Ok(()));
    assert_eq!(stake, staking(1100, delegation(1000, 2, None)));
    assert_eq!(destination, 407);

    assert_eq!(
        withdraw(&mut stake, &mut destination, 1, &signed, 5, &empty, &config()),
        Err(StakeError::InsufficientFunds)
    );
    assert_eq!(withdraw(&mut stake, &mut destination, 0, &signed, 5, &empty, &config()), Ok(()));
    assert_eq!(stake, staking(1100, delegation(1000, 2, None)));
    assert_eq!(destination, 407);

    let mut idle = initialized(1000);
    assert_eq!(
        withdraw(&mut idle, &mut destination, 901, &signed, 5, &empty, &config()),
        Err(StakeError::InsufficientFunds)
    );
    assert_eq!(withdraw(&mut idle, &mut destination, 900, &signed, 5, &empty, &config()), Ok(()));
    assert_eq!(idle, initialized(100));
    assert_eq!(destination, 1307);
}

#[test]
fn withdraw_is_refused_in_order() {
    let empty = StakeHistory::new();
    let mut destination = 0;

    let mut bare = account(1000, StakeAccountState::Uninitialized);
    assert_eq!(
        withdraw(&mut bare, &mut destination, 1, &[key(WITHDRAWER)], 0, &empty, &config()),
        Err(StakeError::AccountNotInitialized)
    );
    let mut rewards = pool(1000);
    assert_eq!(
        withdraw(&mut rewards, &mut destination, 1, &[key(WITHDRAWER)], 0, &empty, &config()),
        Err(StakeError::MissingSignature)
    );
    assert_eq!(rewards, pool(1000));

    let locked = account(1000, StakeAccountState::Initialized { authority: authority(), lockup: lockup(8) });
    let mut stake = locked;
    assert_eq!(
        withdraw(&mut stake, &mut destination, 5000, &[key(STAKER), key(CUSTODIAN)], 0, &empty, &config()),
        Err(StakeError::MissingSignature)
    );
    assert_eq!(
        withdraw(&mut stake, &mut destination, 5000, &[key(WITHDRAWER)], 7, &empty, &config()),
        Err(StakeError::LockupInForce)
    );
    assert_eq!(
        withdraw(&mut stake, &mut destination, 5000, &[key(WITHDRAWER)], 8, &empty, &config()),
        Err(StakeError::InsufficientFunds)
    );
    assert_eq!(
        withdraw(&mut stake, &mut destination, 5000, &[key(WITHDRAWER), key(CUSTODIAN)], 7, &empty, &config()),
        Err(StakeError::InsufficientFunds)
    );
    let mut full = u64::MAX - 9;
    assert_eq!(
        withdraw(&mut stake, &mut full, 10, &[key(WITHDRAWER)], 8, &empty, &config()),
        Err(StakeError::InvalidInstructionData)
    );
    assert_eq!(stake, locked);
    assert_eq!(full, u64::MAX - 9);
    assert_eq!(destination, 0);
    assert_eq!(withdraw(&mut stake, &mut full, 9, &[key(WITHDRAWER)], 8, &empty, &config()), Ok(()));
    assert_eq!(full, u64::MAX);
    assert_eq!(stake.lamports, 991);
}

#[test]
fn withdraw_cuts_the_delegation_down_to_the_balance() {
    // In epoch 0 the cluster lets a single lamport of the stake warm up.
    let slow = history_from(0, &[(0, 1000, 0)]);
    let signed = [key(WITHDRAWER)];
    let mut stake = staking(1100, delegation(1000, 0, None));
    let mut destination = 0;
    assert_eq!(withdrawable_lamports(&stake, 0, &slow, &config()), 999);
    assert_eq!(
        withdraw(&mut stake, &mut destination, 1000, &signed, 0, &slow, &config()),
        Err(StakeError::InsufficientFunds)
    );
    assert_eq!(withdraw(&mut stake, &mut destination, 600, &signed, 0, &slow, &config()), Ok(()));
    assert_eq!(stake, staking(500, delegation(400, 0, None)));
    assert_eq!(withdraw(&mut stake, &mut destination, 399, &signed, 0, &slow, &config()), Ok(()));
    assert_eq!(stake, staking(101, delegation(1, 0, None)));
    assert_eq!(destination, 999);
    assert_eq!(withdrawable_lamports(&stake, 0, &slow, &config()), 0);
}

#[test]
fn a_drained_account_is_uninitialized_again() {
    let empty = StakeHistory::new();
    let free = StakeConfig { rent_exempt_reserve: 0, points_per_lamport: 1000 };
    let signed = [key(WITHDRAWER)];
    let mut destination = 0;

    let mut idle = initialized(50);
    assert_eq!(withdraw(&mut idle, &mut destination, 49, &signed, 0, &empty, &free), Ok(()));
    assert_eq!(idle, initialized(1));
    assert_eq!(withdraw(&mut idle, &mut destination, 1, &signed, 0, &empty, &free), Ok(()));
    assert_eq!(idle, account(0, StakeAccountState::Uninitialized));

    let mut spent = staking(70, delegation(70, 0, Some(1)));
    assert_eq!(
        withdraw(&mut spent, &mut destination, 70, &signed, 1, &empty, &free),
        Err(StakeError::InsufficientFunds)
    );
    assert_eq!(withdraw(&mut spent, &mut destination, 70, &signed, 5, &empty, &free), Ok(()));
    assert_eq!(spent, account(0, StakeAccountState::Uninitialized));
    assert_eq!(destination, 120);

    // A delegation of nothing that was never deactivated stays.
    let mut hollow = staking(30, delegation(0, 0, None));
    assert_eq!(withdraw(&mut hollow, &mut destination, 30, &signed, 5, &empty, &free), Ok(()));
    assert_eq!(hollow, staking(0, delegation(0, 0, None)));
}

#[test]
fn rewards_are_points_over_the_rate_rounded_down() {
    assert_eq!(reward(33, 20000, 1000), 660);
    assert_eq!(reward(1, 999, 1000), 0);
    assert_eq!(reward(1, 1000, 1000), 1);
    assert_eq!(reward(3, 1999, 1000), 5);
    assert_eq!(reward(7, 11, 1), 77);
    assert_eq!(reward(0, 20000, 1000), 0);
    assert_eq!(reward(33, 0, 1000), 0);
    assert_eq!(reward(33, 20000, 0), 0);
    assert_eq!(reward(u64::MAX, u64::MAX, 1), u64::MAX as u128 * u64::MAX as u128);
    assert_eq!(reward(u64::MAX, u64::MAX, u64::MAX), u64::MAX as u128);
}

#[test]
fn rewards_grow_with_credits_and_stake() {
    for rate in [0u64, 1, 7, 1000] {
        for credits in 0..12u64 {
            for stake in (0..3000u64).step_by(250) {
                assert!(reward(credits, stake, rate) <= reward(credits + 1, stake, rate));
                assert!(reward(credits, stake, rate) <= reward(credits, stake + 250, rate));
            }
        }
    }
}

#[test]
fn redeem_moves_the_reward_and_remembers_the_credits() {
    let mut stake = delegation(20000, 0, None);
    let mut balance = 20100;
    let mut reward_pool = 1000;
    assert_eq!(redeem(&mut stake, &mut balance, 38, &mut reward_pool, 1000), Ok(660));
    assert_eq!(balance, 20760);
    assert_eq!(reward_pool, 340);
    assert_eq!(stake, Delegation { credits_observed: 38, ..delegation(20000, 0, None) });

    assert_eq!(redeem(&mut stake, &mut balance, 38, &mut reward_pool, 1000), Err(StakeError::NothingToRedeem));
    assert_eq!(redeem(&mut stake, &mut balance, 37, &mut reward_pool, 1000), Err(StakeError::NothingToRedeem));
    assert_eq!(redeem(&mut stake, &mut balance, 0, &mut reward_pool, 1000), Err(StakeError::NothingToRedeem));
    assert_eq!(balance, 20760);
    assert_eq!(reward_pool, 340);
    assert_eq!(stake.credits_observed, 38);

    // 18 * 20000 / 1000 = 360 is more than the pool holds.
    assert_eq!(
        redeem(&mut stake, &mut balance, 56, &mut reward_pool, 1000),
        Err(StakeError::RewardsPoolInsufficient)
    );
    assert_eq!((balance, reward_pool, stake.credits_observed), (20760, 340, 38));
    assert_eq!(redeem(&mut stake, &mut balance, 55, &mut reward_pool, 1000), Ok(340));
    assert_eq!((balance, reward_pool, stake.credits_observed), (21100, 0, 55));
}

#[test]
fn redeem_vote_credits_pays_once() {
    let before = staking(20100, delegation(20000, 0, None));
    let mut stake = before;
    let mut rewards = pool(1000);
    assert_eq!(redeem_vote_credits(&mut stake, &vote(38), &mut rewards, &config()), Ok(()));
    let paid = staking(20760, Delegation { credits_observed: 38, ..delegation(20000, 0, None) });
    assert_eq!(stake, paid);
    assert_eq!(rewards, pool(340));

    assert_eq!(
        redeem_vote_credits(&mut stake, &vote(38), &mut rewards, &config()),
        Err(StakeError::NothingToRedeem)
    );
    assert_eq!(stake, paid);
    assert_eq!(stake.lamports, 20760);
    assert_eq!(rewards, pool(340));
}

#[test]
fn redeem_vote_credits_is_refused_in_order() {
    let mut rewards = pool(1000);
    let mut bare = account(1000, StakeAccountState::Uninitialized);
    assert_eq!(
        redeem_vote_credits(&mut bare, &vote(38), &mut rewards, &config()),
        Err(StakeError::AccountNotInitialized)
    );
    let mut idle = initialized(1000);
    assert_eq!(
        redeem_vote_credits(&mut idle, &vote(38), &mut rewards, &config()),
        Err(StakeError::NotDelegatable)
    );
    let mut other_pool = pool(5);
    assert_eq!(
        redeem_vote_credits(&mut other_pool, &vote(38), &mut rewards, &config()),
        Err(StakeError::NotDelegatable)
    );

    let before = staking(20100, delegation(20000, 0, None));
    let mut stake = before;
    let stranger = VoteAccount { id: key(STRANGER), credits: None };
    assert_eq!(
        redeem_vote_credits(&mut stake, &stranger, &mut rewards, &config()),
        Err(StakeError::NotDelegatable)
    );
    let gone = VoteAccount { id: key(VOTER), credits: None };
    let mut no_pool = initialized(1000);
    assert_eq!(
        redeem_vote_credits(&mut stake, &gone, &mut no_pool, &config()),
        Err(StakeError::InvalidVoteAccount)
    );
    assert_eq!(
        redeem_vote_credits(&mut stake, &vote(5), &mut no_pool, &config()),
        Err(StakeError::InvalidInstructionData)
    );
    assert_eq!(no_pool, initialized(1000));
    assert_eq!(
        redeem_vote_credits(&mut stake, &vote(5), &mut rewards, &config()),
        Err(StakeError::NothingToRedeem)
    );
    let mut small = pool(659);
    assert_eq!(
        redeem_vote_credits(&mut stake, &vote(38), &mut small, &config()),
        Err(StakeError::RewardsPoolInsufficient)
    );
    assert_eq!(small, pool(659));
    assert_eq!(stake, before);
    assert_eq!(rewards, pool(1000));

    let rich = staking(u64::MAX - 659, delegation(20000, 0, None));
    let mut stake = rich;
    assert_eq!(
        redeem_vote_credits(&mut stake, &vote(38), &mut rewards, &config()),
        Err(StakeError::InvalidInstructionData)
    );
    assert_eq!(stake, rich);
    assert_eq!(rewards, pool(1000));
}

#[test]
fn credits_that_pay_nothing_are_still_taken_as_seen() {
    let none = StakeConfig { rent_exempt_reserve: 100, points_per_lamport: 0 };
    let mut stake = staking(20100, delegation(20000, 0, None));
    let mut rewards = pool(1000);
    assert_eq!(redeem_vote_credits(&mut stake, &vote(38), &mut rewards, &none), Ok(()));
    assert_eq!(stake, staking(20100, Delegation { credits_observed: 38, ..delegation(20000, 0, None) }));
    assert_eq!(rewards, pool(1000));
}

#[test]
fn fatal_errors_are_the_internal_ones() {
    assert!(StakeError::RewardsPoolInsufficient.is_fatal());
    assert!(StakeError::HistoryEpochGap.is_fatal());
    for error in [
        StakeError::InvalidInstructionData,
        StakeError::AccountNotInitialized,
        StakeError::AlreadyInitialized,
        StakeError::NotDelegatable,
        StakeError::InsufficientFunds,
        StakeError::LockupInForce,
        StakeError::MissingSignature,
        StakeError::InvalidVoteAccount,
        StakeError::NothingToRedeem,
    ] {
        assert!(!error.is_fatal());
    }
}

fn raw(account: StakeAccount) -> Account {
    Account::of_stake_account(&account)
}

#[test]
fn accounts_convert_by_their_kind() {
    let stake = staking(20100, delegation(20000, 0, None));
    assert_eq!(raw(stake), Account { id: key(50), lamports: 20100, data: AccountData::Stake(stake.state) });
    assert_eq!(raw(stake).stake_account(), Some(stake));
    assert_eq!(raw(stake).vote_account(), VoteAccount { id: key(50), credits: None });
    let voter = Account { id: key(VOTER), lamports: 10, data: AccountData::Vote { credits: 38 } };
    assert_eq!(voter.vote_account(), vote(38));
    assert_eq!(voter.stake_account(), None);
    let plain = Account { id: key(9), lamports: 10, data: AccountData::Other };
    assert_eq!(plain.stake_account(), None);
    assert_eq!(plain.vote_account(), VoteAccount { id: key(9), credits: None });
}

#[test]
fn process_refuses_what_it_cannot_read() {
    let empty = StakeHistory::new();
    let stake = raw(initialized(1000));
    let plain = Account { id: key(9), lamports: 10, data: AccountData::Other };
    let voter = Account { id: key(VOTER), lamports: 10, data: AccountData::Vote { credits: 38 } };
    let refused = Err(StakeError::InvalidInstructionData);

    let mut accounts = vec![stake, voter];
    assert_eq!(process(&[], &mut accounts, &[key(STAKER)], 0, &empty, &config()), refused);
    assert_eq!(process(&[9], &mut accounts, &[key(STAKER)], 0, &empty, &config()), refused);
    assert_eq!(process(&[1, 1], &mut accounts, &[key(STAKER)], 0, &empty, &config()), refused);

    let mut none: Vec<Account> = vec![];
    assert_eq!(process(&[2], &mut none, &[key(STAKER)], 0, &empty, &config()), refused);
    let mut one = vec![stake];
    assert_eq!(process(&[1], &mut one, &[key(STAKER)], 0, &empty, &config()), refused);
    assert_eq!(
        process(&StakeInstruction::Withdraw { amount: 1 }.encode(), &mut one, &[key(WITHDRAWER)], 0, &empty, &config()),
        refused
    );
    assert_eq!(process(&[4], &mut accounts, &[], 0, &empty, &config()), refused);

    let mut wrong = vec![plain, voter];
    assert_eq!(process(&[1], &mut wrong, &[key(STAKER)], 0, &empty, &config()), refused);
    let mut wrong = vec![voter, voter];
    assert_eq!(process(&[1], &mut wrong, &[key(STAKER)], 0, &empty, &config()), refused);

    // The third account of a redemption must belong to the stake program.
    let mut no_pool = vec![raw(staking(20100, delegation(20000, 0, None))), voter, plain];
    assert_eq!(process(&[4], &mut no_pool, &[], 0, &empty, &config()), refused);

    assert_eq!(accounts, vec![stake, voter]);
    assert_eq!(one, vec![stake]);
}

#[test]
fn process_applies_each_instruction() {
    let empty = StakeHistory::new();
    let voter = Account { id: key(VOTER), lamports: 10, data: AccountData::Vote { credits: 38 } };
    let plain = Account { id: key(9), lamports: 10, data: AccountData::Other };
    let spare = Account { id: key(8), lamports: 3, data: AccountData::Other };

    let mut accounts = vec![raw(account(20100, StakeAccountState::Uninitialized)), spare];
    let instruction = StakeInstruction::Initialize { authority: authority(), lockup: lockup(0) };
    assert_eq!(process(&instruction.encode(), &mut accounts, &[], 0, &empty, &config()), Ok(()));
    assert_eq!(accounts, vec![raw(initialized(20100)), spare]);

    let mut accounts = vec![raw(initialized(20100)), voter, spare];
    let instruction = StakeInstruction::DelegateStake.encode();
    assert_eq!(
        process(&instruction, &mut accounts, &[], 2, &empty, &config()),
        Err(StakeError::MissingSignature)
    );
    assert_eq!(accounts, vec![raw(initialized(20100)), voter, spare]);
    assert_eq!(process(&instruction, &mut accounts, &[key(STAKER)], 2, &empty, &config()), Ok(()));
    let delegated = Delegation { credits_observed: 38, ..delegation(20000, 2, None) };
    assert_eq!(accounts, vec![raw(staking(20100, delegated)), voter, spare]);

    // A vote account that is none.
    let mut accounts = vec![raw(initialized(20100)), plain];
    assert_eq!(
        process(&instruction, &mut accounts, &[key(STAKER)], 2, &empty, &config()),
        Err(StakeError::InvalidVoteAccount)
    );

    let mut accounts = vec![raw(staking(20100, delegated))];
    let instruction = StakeInstruction::Deactivate.encode();
    assert_eq!(process(&instruction, &mut accounts, &[key(STAKER)], 6, &empty, &config()), Ok(()));
    let deactivated = Delegation { deactivation_epoch: Some(6), ..delegated };
    assert_eq!(accounts, vec![raw(staking(20100, deactivated))]);

    let mut accounts = vec![raw(staking(20100, deactivated)), plain, spare];
    let instruction = StakeInstruction::Withdraw { amount: 20000 }.encode();
    assert_eq!(
        process(&instruction, &mut accounts, &[key(WITHDRAWER)], 6, &empty, &config()),
        Err(StakeError::InsufficientFunds)
    );
    assert_eq!(accounts, vec![raw(staking(20100, deactivated)), plain, spare]);
    assert_eq!(process(&instruction, &mut accounts, &[key(WITHDRAWER)], 7, &empty, &config()), Ok(()));
    assert_eq!(
        accounts,
        vec![
            raw(staking(100, Delegation { stake_lamports: 0, ..deactivated })),
            Account { id: key(9), lamports: 20010, data: AccountData::Other },
            spare
        ]
    );

    let mut accounts = vec![raw(staking(20100, delegation(20000, 2, None))), voter, raw(pool(1000)), spare];
    let instruction = StakeInstruction::RedeemVoteCredits.encode();
    assert_eq!(process(&instruction, &mut accounts, &[], 3, &empty, &config()), Ok(()));
    assert_eq!(
        accounts,
        vec![raw(staking(20760, Delegation { credits_observed: 38, ..delegation(20000, 2, None) })), voter, raw(pool(340)), spare]
    );
    assert_eq!(
        process(&instruction, &mut accounts, &[], 3, &empty, &config()),
        Err(StakeError::NothingToRedeem)
    );
    assert_eq!(accounts[0].lamports, 20760);
    assert_eq!(accounts[2].lamports, 340);
}
