use stake_program::delegation::Delegation;
use stake_program::error::StakeError;
use stake_program::instruction::StakeInstruction;
use stake_program::pubkey::PublicKeyId;
use stake_program::state::{Authority, Lockup, StakeAccountState};

fn key(byte: u8) -> PublicKeyId {
    PublicKeyId::new([byte; 32])
}

fn authority() -> Authority {
    Authority { staker: key(0xa1), withdrawer: key(0xa2) }
}

fn lockup() -> Lockup {
    Lockup { epoch: 0x0102_0304_0506_0708, custodian: key(0xc3) }
}

fn delegation(deactivation_epoch: Option<u64>) -> Delegation {
    Delegation {
        voter: key(0xd4),
        stake_lamports: 20000,
        activation_epoch: 7,
        deactivation_epoch,
        credits_observed: u64::MAX,
    }
}

fn every_state() -> Vec<StakeAccountState> {
    vec![
        StakeAccountState::Uninitialized,
        StakeAccountState::Initialized { authority: authority(), lockup: lockup() },
        StakeAccountState::Stake { authority: authority(), lockup: lockup(), delegation: delegation(None) },
        StakeAccountState::Stake { authority: authority(), lockup: lockup(), delegation: delegation(Some(0)) },
        StakeAccountState::Stake {
            authority: authority(),
            lockup: lockup(),
            delegation: delegation(Some(u64::MAX)),
        },
        StakeAccountState::RewardsPool,
    ]
}

#[test]
fn every_state_survives_persisting() {
    for state in every_state() {
        let data = state.serialize();
        assert_eq!(StakeAccountState::deserialize(&data), Some(state));
    }
}

#[test]
fn states_without_fields_take_two_bytes() {
    assert_eq!(StakeAccountState::Uninitialized.serialize(), vec![1u8, 0]);
    assert_eq!(StakeAccountState::RewardsPool.serialize(), vec![1u8, 3]);
}

#[test]
fn initialized_layout_is_exact() {
    let data = StakeAccountState::Initialized { authority: authority(), lockup: lockup() }.serialize();
    let mut expected = vec![1u8, 1];
    expected.extend_from_slice(&[0xa1; 32]);
    expected.extend_from_slice(&[0xa2; 32]);
    expected.extend_from_slice(&[8, 7, 6, 5, 4, 3, 2, 1]);
    expected.extend_from_slice(&[0xc3; 32]);
    assert_eq!(expected.len(), 106);
    assert_eq!(data, expected);
}

#[test]
fn stake_layout_is_exact() {
    let state =
        StakeAccountState::Stake { authority: authority(), lockup: lockup(), delegation: delegation(Some(258)) };
    let mut expected = vec![1u8, 2];
    expected.extend_from_slice(&[0xa1; 32]);
    expected.extend_from_slice(&[0xa2; 32]);
    expected.extend_from_slice(&[8, 7, 6, 5, 4, 3, 2, 1]);
    expected.extend_from_slice(&[0xc3; 32]);
    expected.extend_from_slice(&[0xd4; 32]);
    expected.extend_from_slice(&20000u64.to_le_bytes());
    expected.extend_from_slice(&[7, 0, 0, 0, 0, 0, 0, 0]);
    expected.push(1);
    expected.extend_from_slice(&[2, 1, 0, 0, 0, 0, 0, 0]);
    expected.extend_from_slice(&[255; 8]);
    assert_eq!(expected.len(), 171);
    assert_eq!(state.serialize(), expected);

    let active =
        StakeAccountState::Stake { authority: authority(), lockup: lockup(), delegation: delegation(None) };
    let data = active.serialize();
    assert_eq!(data.len(), 171);
    assert_eq!(&data[154..163], &[0u8; 9]);
}

#[test]
fn malformed_state_is_refused() {
    assert_eq!(StakeAccountState::deserialize(&[]), None);
    assert_eq!(StakeAccountState::deserialize(&[1]), None);
    assert_eq!(StakeAccountState::deserialize(&[0, 0]), None);
    assert_eq!(StakeAccountState::deserialize(&[2, 0]), None);
    assert_eq!(StakeAccountState::deserialize(&[1, 4]), None);
    assert_eq!(StakeAccountState::deserialize(&[1, 255]), None);
    assert_eq!(StakeAccountState::deserialize(&[1, 0, 0]), None);
    assert_eq!(StakeAccountState::deserialize(&[1, 3, 0]), None);
    for state in every_state() {
        let data = state.serialize();
        let mut long = data.clone();
        long.push(0);
        assert_eq!(StakeAccountState::deserialize(&long), None);
        assert_eq!(StakeAccountState::deserialize(&data[..data.len() - 1]), None);
    }
    let initialized = StakeAccountState::Initialized { authority: authority(), lockup: lockup() }.serialize();
    let mut as_stake = initialized.clone();
    as_stake[1] = 2;
    assert_eq!(StakeAccountState::deserialize(&as_stake), None);
}

#[test]
fn malformed_deactivation_is_refused() {
    let state =
        StakeAccountState::Stake { authority: authority(), lockup: lockup(), delegation: delegation(None) };
    let good = state.serialize();
    let mut flag = good.clone();
    flag[154] = 2;
    assert_eq!(StakeAccountState::deserialize(&flag), None);
    let mut epoch = good.clone();
    epoch[160] = 1;
    assert_eq!(StakeAccountState::deserialize(&epoch), None);
    let mut set = good.clone();
    set[154] = 1;
    assert_eq!(
        StakeAccountState::deserialize(&set),
        Some(StakeAccountState::Stake { authority: authority(), lockup: lockup(), delegation: delegation(Some(0)) })
    );
}

#[test]
fn accessors_follow_the_variant() {
    let states = every_state();
    assert_eq!(states[0].authority(), None);
    assert_eq!(states[0].lockup(), None);
    assert_eq!(states[0].delegation(), None);
    assert_eq!(states[1].authority(), Some(authority()));
    assert_eq!(states[1].lockup(), Some(lockup()));
    assert_eq!(states[1].delegation(), None);
    assert_eq!(states[2].authority(), Some(authority()));
    assert_eq!(states[2].lockup(), Some(lockup()));
    assert_eq!(states[2].delegation(), Some(delegation(None)));
    assert_eq!(states[5].authority(), None);
    assert_eq!(states[5].delegation(), None);
}

#[test]
fn keys_compare_by_their_bytes() {
    let mut bytes = [7u8; 32];
    let one = PublicKeyId::new(bytes);
    assert!(one.same(&PublicKeyId::new([7; 32])));
    bytes[31] = 8;
    assert!(!one.same(&PublicKeyId::new(bytes)));
    bytes[31] = 7;
    bytes[0] = 6;
    assert!(!one.same(&PublicKeyId::new(bytes)));
    assert_eq!(one.bytes, [7u8; 32]);
}

#[test]
fn every_instruction_survives_encoding() {
    let instructions = [
        StakeInstruction::Initialize { authority: authority(), lockup: lockup() },
        StakeInstruction::DelegateStake,
        StakeInstruction::Deactivate,
        StakeInstruction::Withdraw { amount: 0 },
        StakeInstruction::Withdraw { amount: 20000 },
        StakeInstruction::Withdraw { amount: u64::MAX },
        StakeInstruction::RedeemVoteCredits,
    ];
    for instruction in instructions {
        assert_eq!(StakeInstruction::decode(&instruction.encode()), Ok(instruction));
    }
}

#[test]
fn instruction_layout_is_exact() {
    assert_eq!(StakeInstruction::DelegateStake.encode(), vec![1u8]);
    assert_eq!(StakeInstruction::Deactivate.encode(), vec![2u8]);
    assert_eq!(StakeInstruction::RedeemVoteCredits.encode(), vec![4u8]);
    assert_eq!(StakeInstruction::Withdraw { amount: 20000 }.encode(), vec![3u8, 0x20, 0x4e, 0, 0, 0, 0, 0, 0]);
    let mut expected = vec![0u8];
    expected.extend_from_slice(&[0xa1; 32]);
    expected.extend_from_slice(&[0xa2; 32]);
    expected.extend_from_slice(&[8, 7, 6, 5, 4, 3, 2, 1]);
    expected.extend_from_slice(&[0xc3; 32]);
    assert_eq!(expected.len(), 105);
    assert_eq!(StakeInstruction::Initialize { authority: authority(), lockup: lockup() }.encode(), expected);
}

#[test]
fn malformed_instruction_is_refused() {
    let refused = Err(StakeError::InvalidInstructionData);
    assert_eq!(StakeInstruction::decode(&[]), refused);
    assert_eq!(StakeInstruction::decode(&[5]), refused);
    assert_eq!(StakeInstruction::decode(&[255]), refused);
    assert_eq!(StakeInstruction::decode(&[0]), refused);
    assert_eq!(StakeInstruction::decode(&[1, 0]), refused);
    assert_eq!(StakeInstruction::decode(&[2, 0]), refused);
    assert_eq!(StakeInstruction::decode(&[4, 0]), refused);
    assert_eq!(StakeInstruction::decode(&[3]), refused);
    assert_eq!(StakeInstruction::decode(&[3, 0, 0, 0, 0, 0, 0, 0]), refused);
    assert_eq!(StakeInstruction::decode(&[3, 0, 0, 0, 0, 0, 0, 0, 0, 0]), refused);
    let mut initialize = StakeInstruction::Initialize { authority: authority(), lockup: lockup() }.encode();
    initialize.push(0);
    assert_eq!(StakeInstruction::decode(&initialize), refused);
    assert_eq!(StakeInstruction::decode(&initialize[..104]), refused);
}
