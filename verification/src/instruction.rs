//! The instructions of the stake program and their encoding.
//!
//! An instruction is one byte that says which it is, followed by its
//! arguments: for `Initialize` the authority and the lockup, laid out as in
//! an account's state; for `Withdraw` the amount, little-endian. The
//! accounts that an instruction acts on are not part of it: the transaction
//! names them, in the order given with each instruction.

use crate::codec::{lemma_u64_at_written, lemma_u64_read_written, put_u64, read_u64, u64_at};
use crate::error::StakeError;
use crate::state::{
    authority_at, authority_bytes, lemma_authority_at_written, lemma_authority_read_written,
    lemma_lockup_at_written, lemma_lockup_read_written, lockup_at, lockup_bytes, put_authority, put_lockup,
    read_authority, read_lockup, Authority, Lockup, AUTHORITY_BYTES,
};
use vstd::bytes::spec_u64_to_le_bytes;
use vstd::prelude::*;

verus! {

/// The first byte of an encoded `Initialize`.
pub const TAG_INITIALIZE: u8 = 0;

/// The first byte of an encoded `DelegateStake`.
pub const TAG_DELEGATE_STAKE: u8 = 1;

/// The first byte of an encoded `Deactivate`.
pub const TAG_DEACTIVATE: u8 = 2;

/// The first byte of an encoded `Withdraw`.
pub const TAG_WITHDRAW: u8 = 3;

/// The first byte of an encoded `RedeemVoteCredits`.
pub const TAG_REDEEM_VOTE_CREDITS: u8 = 4;

/// The bytes of an encoded `Initialize`.
pub const INITIALIZE_BYTES: usize = 105;

/// The bytes of an encoded `Withdraw`.
pub const WITHDRAW_BYTES: usize = 9;

/// An instruction of the stake program.
#[derive(Clone, Copy, Debug, PartialEq, Eq)]
pub enum StakeInstruction {
    /// Accounts: the stake account.
    Initialize { authority: Authority, lockup: Lockup },
    /// Accounts: the stake account, the vote account.
    DelegateStake,
    /// Accounts: the stake account.
    Deactivate,
    /// Accounts: the stake account, the account that receives the lamports.
    Withdraw { amount: u64 },
    /// Accounts: the stake account, the vote account, the rewards pool.
    RedeemVoteCredits,
}

/// The encoding of `instruction`.
pub open spec fn spec_encode(instruction: StakeInstruction) -> Seq<u8> {
    match instruction {
        StakeInstruction::Initialize { authority, lockup } => seq![TAG_INITIALIZE] + authority_bytes(
            authority,
        ) + lockup_bytes(lockup),
        StakeInstruction::DelegateStake => seq![TAG_DELEGATE_STAKE],
        StakeInstruction::Deactivate => seq![TAG_DEACTIVATE],
        StakeInstruction::Withdraw { amount } => seq![TAG_WITHDRAW] + spec_u64_to_le_bytes(amount),
        StakeInstruction::RedeemVoteCredits => seq![TAG_REDEEM_VOTE_CREDITS],
    }
}

/// The instruction that `data` encodes, if it encodes one.
pub open spec fn spec_decode(data: Seq<u8>) -> Option<StakeInstruction> {
    if data.len() == 0 {
        None
    } else if data[0] == TAG_INITIALIZE && data.len() == INITIALIZE_BYTES {
        Some(
            StakeInstruction::Initialize {
                authority: authority_at(data, 1),
                lockup: lockup_at(data, 1 + AUTHORITY_BYTES),
            },
        )
    } else if data[0] == TAG_DELEGATE_STAKE && data.len() == 1 {
        Some(StakeInstruction::DelegateStake)
    } else if data[0] == TAG_DEACTIVATE && data.len() == 1 {
        Some(StakeInstruction::Deactivate)
    } else if data[0] == TAG_WITHDRAW && data.len() == WITHDRAW_BYTES {
        Some(StakeInstruction::Withdraw { amount: u64_at(data, 1) })
    } else if data[0] == TAG_REDEEM_VOTE_CREDITS && data.len() == 1 {
        Some(StakeInstruction::RedeemVoteCredits)
    } else {
        None
    }
}

/// Decoding the encoding of an instruction gives that instruction back.
pub proof fn lemma_instruction_roundtrip(instruction: StakeInstruction)
    ensures
        spec_decode(spec_encode(instruction)) == Some(instruction),
{
    let data = spec_encode(instruction);
    let none = Seq::<u8>::empty();
    match instruction {
        StakeInstruction::Initialize { authority, lockup } => {
            let tag = seq![TAG_INITIALIZE];
            lemma_authority_at_written(tag, authority, lockup_bytes(lockup));
            lemma_lockup_at_written(tag + authority_bytes(authority), lockup, none);
            assert(data =~= tag + authority_bytes(authority) + lockup_bytes(lockup) + none);
        },
        StakeInstruction::Withdraw { amount } => {
            let tag = seq![TAG_WITHDRAW];
            lemma_u64_at_written(tag, amount, none);
            assert(data =~= tag + spec_u64_to_le_bytes(amount) + none);
        },
        _ => {},
    }
}

/// Only the encoding of an instruction decodes to it: encoding what a
/// buffer decodes to gives the buffer back.
pub proof fn lemma_decode_canonical(data: Seq<u8>)
    requires
        spec_decode(data) is Some,
    ensures
        spec_encode(spec_decode(data)->0) == data,
{
    let instruction = spec_decode(data)->0;
    match instruction {
        StakeInstruction::Initialize { .. } => {
            lemma_authority_read_written(data, 1);
            lemma_lockup_read_written(data, 1 + AUTHORITY_BYTES);
        },
        StakeInstruction::Withdraw { .. } => {
            lemma_u64_read_written(data, 1);
        },
        _ => {},
    }
    assert(spec_encode(instruction) =~= data);
}

impl StakeInstruction {
    /// The encoding of the instruction.
    pub fn encode(&self) -> (data: Vec<u8>)
        ensures
            data@ == spec_encode(*self),
    {
        let mut out: Vec<u8> = Vec::new();
        match self {
            StakeInstruction::Initialize { authority, lockup } => {
                out.push(TAG_INITIALIZE);
                put_authority(&mut out, authority);
                put_lockup(&mut out, lockup);
            },
            StakeInstruction::DelegateStake => {
                out.push(TAG_DELEGATE_STAKE);
            },
            StakeInstruction::Deactivate => {
                out.push(TAG_DEACTIVATE);
            },
            StakeInstruction::Withdraw { amount } => {
                out.push(TAG_WITHDRAW);
                put_u64(&mut out, *amount);
            },
            StakeInstruction::RedeemVoteCredits => {
                out.push(TAG_REDEEM_VOTE_CREDITS);
            },
        }
        assert(out@ =~= spec_encode(*self));
        out
    }

    /// The instruction that `data` encodes. Bytes that encode none are
    /// refused as invalid instruction data.
    pub fn decode(data: &[u8]) -> (result: Result<StakeInstruction, StakeError>)
        ensures
            match spec_decode(data@) {
                Some(instruction) => result == Ok::<StakeInstruction, StakeError>(instruction),
                None => result == Err::<StakeInstruction, StakeError>(StakeError::InvalidInstructionData),
            },
    {
        let len = data.len();
        if len == 0 {
            return Err(StakeError::InvalidInstructionData);
        }
        let tag = data[0];
        if tag == TAG_INITIALIZE && len == INITIALIZE_BYTES {
            Ok(
                StakeInstruction::Initialize {
                    authority: read_authority(data, 1),
                    lockup: read_lockup(data, 1 + AUTHORITY_BYTES),
                },
            )
        } else if tag == TAG_DELEGATE_STAKE && len == 1 {
            Ok(StakeInstruction::DelegateStake)
        } else if tag == TAG_DEACTIVATE && len == 1 {
            Ok(StakeInstruction::Deactivate)
        } else if tag == TAG_WITHDRAW && len == WITHDRAW_BYTES {
            Ok(StakeInstruction::Withdraw { amount: read_u64(data, 1) })
        } else if tag == TAG_REDEEM_VOTE_CREDITS && len == 1 {
            Ok(StakeInstruction::RedeemVoteCredits)
        } else {
            Err(StakeError::InvalidInstructionData)
        }
    }
}

} // verus!
