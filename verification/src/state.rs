//! The state of a stake account and its persisted layout.
//!
//! The layout is versioned and has an explicit discriminant:
//!
//! | bytes | field |
//! |---|---|
//! | 1 | layout version |
//! | 1 | discriminant: 0 uninitialized, 1 initialized, 2 stake, 3 rewards pool |
//! | 32 + 32 | staker and withdrawer (initialized, stake) |
//! | 8 + 32 | lockup epoch and custodian (initialized, stake) |
//! | 32 | voter (stake) |
//! | 8 + 8 | delegated lamports and activation epoch (stake) |
//! | 1 + 8 | whether deactivated, and the epoch of deactivation or zero (stake) |
//! | 8 | credits observed (stake) |
//!
//! Integers are little-endian. A buffer decodes only if it is exactly the
//! encoding of a state.

use crate::codec::{
    key_at, lemma_key_at_written, lemma_key_read_written, lemma_u64_at_written, lemma_u64_read_written,
    put_key, put_u64, read_key, read_u64, u64_at, U64_BYTES,
};
use crate::delegation::Delegation;
use crate::history::Epoch;
use crate::pubkey::{signed_by, PublicKeyId, KEY_BYTES};
use vstd::bytes::spec_u64_to_le_bytes;
use vstd::prelude::*;

verus! {

/// The version of the persisted layout.
pub const LAYOUT_VERSION: u8 = 1;

/// The discriminant of an uninitialized account.
pub const TAG_UNINITIALIZED: u8 = 0;

/// The discriminant of an initialized account.
pub const TAG_INITIALIZED: u8 = 1;

/// The discriminant of an account with a delegation.
pub const TAG_STAKE: u8 = 2;

/// The discriminant of the rewards pool.
pub const TAG_REWARDS_POOL: u8 = 3;

/// The bytes of the version and the discriminant.
pub const HEADER_BYTES: usize = 2;

/// The bytes of an encoded authority.
pub const AUTHORITY_BYTES: usize = 64;

/// The bytes of an encoded lockup.
pub const LOCKUP_BYTES: usize = 40;

/// The bytes of an encoded delegation.
pub const DELEGATION_BYTES: usize = 65;

/// The bytes of an encoded state without fields.
pub const BARE_STATE_BYTES: usize = 2;

/// The bytes of an encoded initialized state.
pub const INITIALIZED_STATE_BYTES: usize = 106;

/// The bytes of an encoded stake state.
pub const STAKE_STATE_BYTES: usize = 171;

/// Who may act on a stake account.
#[derive(Clone, Copy, Debug, PartialEq, Eq)]
pub struct Authority {
    /// Signs delegation and deactivation.
    pub staker: PublicKeyId,
    /// Signs withdrawals.
    pub withdrawer: PublicKeyId,
}

/// A restriction on delegating and withdrawing that holds in every epoch
/// before `epoch`, unless the custodian signs.
#[derive(Clone, Copy, Debug, PartialEq, Eq)]
pub struct Lockup {
    /// The first epoch in which the lockup no longer holds.
    pub epoch: Epoch,
    /// Who may lift the lockup early by signing.
    pub custodian: PublicKeyId,
}

/// What a stake account holds.
#[derive(Clone, Copy, Debug, PartialEq, Eq)]
pub enum StakeAccountState {
    Uninitialized,
    Initialized { authority: Authority, lockup: Lockup },
    Stake { authority: Authority, lockup: Lockup, delegation: Delegation },
    /// The account that holds the balance from which rewards are paid.
    RewardsPool,
}

/// Whether `lockup` stands in the way in epoch `now`, given who signed.
pub open spec fn lockup_in_force(lockup: Lockup, now: Epoch, signers: Seq<PublicKeyId>) -> bool {
    now < lockup.epoch && !signed_by(signers, lockup.custodian)
}

/// The encoding of `authority`: the staker, then the withdrawer.
pub open spec fn authority_bytes(authority: Authority) -> Seq<u8> {
    authority.staker.bytes@ + authority.withdrawer.bytes@
}

/// The encoding of `lockup`: the epoch, then the custodian.
pub open spec fn lockup_bytes(lockup: Lockup) -> Seq<u8> {
    spec_u64_to_le_bytes(lockup.epoch) + lockup.custodian.bytes@
}

/// The encoding of an epoch that may be absent: a flag, then the epoch or
/// zero.
pub open spec fn optional_epoch_bytes(epoch: Option<Epoch>) -> Seq<u8> {
    match epoch {
        Some(e) => seq![1u8] + spec_u64_to_le_bytes(e),
        None => seq![0u8] + spec_u64_to_le_bytes(0),
    }
}

/// The encoding of `delegation`, field by field.
pub open spec fn delegation_bytes(delegation: Delegation) -> Seq<u8> {
    delegation.voter.bytes@ + spec_u64_to_le_bytes(delegation.stake_lamports) + spec_u64_to_le_bytes(
        delegation.activation_epoch,
    ) + optional_epoch_bytes(delegation.deactivation_epoch) + spec_u64_to_le_bytes(
        delegation.credits_observed,
    )
}

/// The persisted form of `state`.
pub open spec fn spec_serialize(state: StakeAccountState) -> Seq<u8> {
    match state {
        StakeAccountState::Uninitialized => seq![LAYOUT_VERSION, TAG_UNINITIALIZED],
        StakeAccountState::Initialized { authority, lockup } => seq![LAYOUT_VERSION, TAG_INITIALIZED]
            + authority_bytes(authority) + lockup_bytes(lockup),
        StakeAccountState::Stake { authority, lockup, delegation } => seq![LAYOUT_VERSION, TAG_STAKE]
            + authority_bytes(authority) + lockup_bytes(lockup) + delegation_bytes(delegation),
        StakeAccountState::RewardsPool => seq![LAYOUT_VERSION, TAG_REWARDS_POOL],
    }
}

/// The authority encoded in `data` from `at` on.
pub open spec fn authority_at(data: Seq<u8>, at: int) -> Authority {
    Authority { staker: key_at(data, at), withdrawer: key_at(data, at + KEY_BYTES) }
}

/// The lockup encoded in `data` from `at` on.
pub open spec fn lockup_at(data: Seq<u8>, at: int) -> Lockup {
    Lockup { epoch: u64_at(data, at), custodian: key_at(data, at + U64_BYTES) }
}

/// The optional epoch encoded from `at` on, if those bytes encode one: the
/// flag is 0 or 1, and without an epoch the integer is zero.
pub open spec fn optional_epoch_at(data: Seq<u8>, at: int) -> Option<Option<Epoch>> {
    if data[at] == 1 {
        Some(Some(u64_at(data, at + 1)))
    } else if data[at] == 0 && u64_at(data, at + 1) == 0 {
        Some(None)
    } else {
        None
    }
}

/// The delegation encoded in `data` from `at` on, if those bytes encode
/// one.
pub open spec fn delegation_at(data: Seq<u8>, at: int) -> Option<Delegation> {
    match optional_epoch_at(data, at + KEY_BYTES + 2 * U64_BYTES) {
        Some(deactivation_epoch) => Some(
            Delegation {
                voter: key_at(data, at),
                stake_lamports: u64_at(data, at + KEY_BYTES),
                activation_epoch: u64_at(data, at + KEY_BYTES + U64_BYTES),
                deactivation_epoch,
                credits_observed: u64_at(data, at + KEY_BYTES + 3 * U64_BYTES + 1),
            },
        ),
        None => None,
    }
}

/// The state that `data` encodes, if it encodes one.
pub open spec fn spec_deserialize(data: Seq<u8>) -> Option<StakeAccountState> {
    if data.len() < HEADER_BYTES || data[0] != LAYOUT_VERSION {
        None
    } else if data[1] == TAG_UNINITIALIZED && data.len() == BARE_STATE_BYTES {
        Some(StakeAccountState::Uninitialized)
    } else if data[1] == TAG_REWARDS_POOL && data.len() == BARE_STATE_BYTES {
        Some(StakeAccountState::RewardsPool)
    } else if data[1] == TAG_INITIALIZED && data.len() == INITIALIZED_STATE_BYTES {
        Some(
            StakeAccountState::Initialized {
                authority: authority_at(data, HEADER_BYTES as int),
                lockup: lockup_at(data, HEADER_BYTES + AUTHORITY_BYTES),
            },
        )
    } else if data[1] == TAG_STAKE && data.len() == STAKE_STATE_BYTES {
        match delegation_at(data, HEADER_BYTES + AUTHORITY_BYTES + LOCKUP_BYTES) {
            Some(delegation) => Some(
                StakeAccountState::Stake {
                    authority: authority_at(data, HEADER_BYTES as int),
                    lockup: lockup_at(data, HEADER_BYTES + AUTHORITY_BYTES),
                    delegation,
                },
            ),
            None => None,
        }
    } else {
        None
    }
}

/// Reading back an authority that stands between `before` and `after`.
pub proof fn lemma_authority_at_written(before: Seq<u8>, authority: Authority, after: Seq<u8>)
    ensures
        authority_bytes(authority).len() == AUTHORITY_BYTES,
        authority_at(before + authority_bytes(authority) + after, before.len() as int) == authority,
{
    let data = before + authority_bytes(authority) + after;
    lemma_key_at_written(before, authority.staker, authority.withdrawer.bytes@ + after);
    lemma_key_at_written(before + authority.staker.bytes@, authority.withdrawer, after);
    assert(data =~= before + authority.staker.bytes@ + (authority.withdrawer.bytes@ + after));
    assert(data =~= before + authority.staker.bytes@ + authority.withdrawer.bytes@ + after);
}

/// Reading back a lockup that stands between `before` and `after`.
pub proof fn lemma_lockup_at_written(before: Seq<u8>, lockup: Lockup, after: Seq<u8>)
    ensures
        lockup_bytes(lockup).len() == LOCKUP_BYTES,
        lockup_at(before + lockup_bytes(lockup) + after, before.len() as int) == lockup,
{
    let data = before + lockup_bytes(lockup) + after;
    let epoch = spec_u64_to_le_bytes(lockup.epoch);
    lemma_u64_at_written(before, lockup.epoch, lockup.custodian.bytes@ + after);
    lemma_key_at_written(before + epoch, lockup.custodian, after);
    assert(data =~= before + epoch + (lockup.custodian.bytes@ + after));
    assert(data =~= before + epoch + lockup.custodian.bytes@ + after);
}

/// Reading back an optional epoch that stands between `before` and
/// `after`.
pub proof fn lemma_optional_epoch_at_written(before: Seq<u8>, epoch: Option<Epoch>, after: Seq<u8>)
    ensures
        optional_epoch_bytes(epoch).len() == 1 + U64_BYTES,
        optional_epoch_at(before + optional_epoch_bytes(epoch) + after, before.len() as int) == Some(
            epoch,
        ),
{
    let data = before + optional_epoch_bytes(epoch) + after;
    let (flag, value) = match epoch {
        Some(e) => (1u8, e),
        None => (0u8, 0u64),
    };
    lemma_u64_at_written(before + seq![flag], value, after);
    assert(data =~= before + seq![flag] + spec_u64_to_le_bytes(value) + after);
    assert(data[before.len() as int] == flag);
}

/// Reading back a delegation that stands between `before` and `after`.
pub proof fn lemma_delegation_at_written(before: Seq<u8>, delegation: Delegation, after: Seq<u8>)
    ensures
        delegation_bytes(delegation).len() == DELEGATION_BYTES,
        delegation_at(before + delegation_bytes(delegation) + after, before.len() as int) == Some(
            delegation,
        ),
{
    let data = before + delegation_bytes(delegation) + after;
    let voter = delegation.voter.bytes@;
    let stake = spec_u64_to_le_bytes(delegation.stake_lamports);
    let activation = spec_u64_to_le_bytes(delegation.activation_epoch);
    let deactivation = optional_epoch_bytes(delegation.deactivation_epoch);
    let credits = spec_u64_to_le_bytes(delegation.credits_observed);
    lemma_key_at_written(before, delegation.voter, stake + activation + deactivation + credits + after);
    lemma_u64_at_written(
        before + voter,
        delegation.stake_lamports,
        activation + deactivation + credits + after,
    );
    lemma_u64_at_written(
        before + voter + stake,
        delegation.activation_epoch,
        deactivation + credits + after,
    );
    lemma_optional_epoch_at_written(
        before + voter + stake + activation,
        delegation.deactivation_epoch,
        credits + after,
    );
    lemma_u64_at_written(
        before + voter + stake + activation + deactivation,
        delegation.credits_observed,
        after,
    );
    assert(data =~= before + voter + (stake + activation + deactivation + credits + after));
    assert(data =~= before + voter + stake + (activation + deactivation + credits + after));
    assert(data =~= before + voter + stake + activation + (deactivation + credits + after));
    assert(data =~= before + voter + stake + activation + deactivation + (credits + after));
    assert(data =~= before + voter + stake + activation + deactivation + credits + after);
}

/// Decoding the encoding of a state gives that state back.
pub proof fn lemma_serialize_roundtrip(state: StakeAccountState)
    ensures
        spec_deserialize(spec_serialize(state)) == Some(state),
{
    let data = spec_serialize(state);
    let none = Seq::<u8>::empty();
    match state {
        StakeAccountState::Uninitialized => {},
        StakeAccountState::RewardsPool => {},
        StakeAccountState::Initialized { authority, lockup } => {
            let header = seq![LAYOUT_VERSION, TAG_INITIALIZED];
            lemma_authority_at_written(header, authority, lockup_bytes(lockup));
            lemma_lockup_at_written(header + authority_bytes(authority), lockup, none);
            assert(data =~= header + authority_bytes(authority) + lockup_bytes(lockup) + none);
        },
        StakeAccountState::Stake { authority, lockup, delegation } => {
            let header = seq![LAYOUT_VERSION, TAG_STAKE];
            lemma_authority_at_written(header, authority, lockup_bytes(lockup) + delegation_bytes(delegation));
            lemma_lockup_at_written(header + authority_bytes(authority), lockup, delegation_bytes(delegation));
            lemma_delegation_at_written(
                header + authority_bytes(authority) + lockup_bytes(lockup),
                delegation,
                none,
            );
            assert(data =~= header + authority_bytes(authority) + (lockup_bytes(lockup) + delegation_bytes(
                delegation,
            )));
            assert(data =~= header + authority_bytes(authority) + lockup_bytes(lockup) + delegation_bytes(
                delegation,
            ) + none);
        },
    }
}

/// Encoding the authority read at `at` gives the bytes at `at` back.
pub proof fn lemma_authority_read_written(data: Seq<u8>, at: int)
    requires
        0 <= at,
        at + AUTHORITY_BYTES <= data.len(),
    ensures
        authority_bytes(authority_at(data, at)) == data.subrange(at, at + AUTHORITY_BYTES),
{
    lemma_key_read_written(data, at);
    lemma_key_read_written(data, at + KEY_BYTES);
    assert(authority_bytes(authority_at(data, at)) =~= data.subrange(at, at + AUTHORITY_BYTES));
}

/// Encoding the lockup read at `at` gives the bytes at `at` back.
pub proof fn lemma_lockup_read_written(data: Seq<u8>, at: int)
    requires
        0 <= at,
        at + LOCKUP_BYTES <= data.len(),
    ensures
        lockup_bytes(lockup_at(data, at)) == data.subrange(at, at + LOCKUP_BYTES),
{
    lemma_u64_read_written(data, at);
    lemma_key_read_written(data, at + U64_BYTES);
    assert(lockup_bytes(lockup_at(data, at)) =~= data.subrange(at, at + LOCKUP_BYTES));
}

/// Encoding the delegation read at `at` gives the bytes at `at` back.
pub proof fn lemma_delegation_read_written(data: Seq<u8>, at: int)
    requires
        0 <= at,
        at + DELEGATION_BYTES <= data.len(),
        delegation_at(data, at) is Some,
    ensures
        delegation_bytes(delegation_at(data, at)->0) == data.subrange(at, at + DELEGATION_BYTES),
{
    let flag_at = at + KEY_BYTES + 2 * U64_BYTES;
    lemma_key_read_written(data, at);
    lemma_u64_read_written(data, at + KEY_BYTES);
    lemma_u64_read_written(data, at + KEY_BYTES + U64_BYTES);
    lemma_u64_read_written(data, flag_at + 1);
    lemma_u64_read_written(data, flag_at + 1 + U64_BYTES);
    let delegation = delegation_at(data, at)->0;
    assert(optional_epoch_bytes(delegation.deactivation_epoch) =~= data.subrange(
        flag_at,
        flag_at + 1 + U64_BYTES,
    ));
    assert(delegation_bytes(delegation) =~= data.subrange(at, at + DELEGATION_BYTES));
}

/// Only the encoding of a state decodes to it: encoding what a buffer
/// decodes to gives the buffer back.
pub proof fn lemma_deserialize_canonical(data: Seq<u8>)
    requires
        spec_deserialize(data) is Some,
    ensures
        spec_serialize(spec_deserialize(data)->0) == data,
{
    let state = spec_deserialize(data)->0;
    match state {
        StakeAccountState::Uninitialized => {
            assert(spec_serialize(state) =~= data);
        },
        StakeAccountState::RewardsPool => {
            assert(spec_serialize(state) =~= data);
        },
        StakeAccountState::Initialized { authority, lockup } => {
            lemma_authority_read_written(data, HEADER_BYTES as int);
            lemma_lockup_read_written(data, HEADER_BYTES + AUTHORITY_BYTES);
            assert(spec_serialize(state) =~= data);
        },
        StakeAccountState::Stake { authority, lockup, delegation } => {
            lemma_authority_read_written(data, HEADER_BYTES as int);
            lemma_lockup_read_written(data, HEADER_BYTES + AUTHORITY_BYTES);
            lemma_delegation_read_written(data, HEADER_BYTES + AUTHORITY_BYTES + LOCKUP_BYTES);
            assert(spec_serialize(state) =~= data);
        },
    }
}

/// Appends the encoding of `authority` to `out`.
pub fn put_authority(out: &mut Vec<u8>, authority: &Authority)
    ensures
        final(out)@ == old(out)@ + authority_bytes(*authority),
{
    put_key(out, &authority.staker);
    put_key(out, &authority.withdrawer);
    assert(out@ =~= old(out)@ + authority_bytes(*authority));
}

/// Appends the encoding of `lockup` to `out`.
pub fn put_lockup(out: &mut Vec<u8>, lockup: &Lockup)
    ensures
        final(out)@ == old(out)@ + lockup_bytes(*lockup),
{
    put_u64(out, lockup.epoch);
    put_key(out, &lockup.custodian);
    assert(out@ =~= old(out)@ + lockup_bytes(*lockup));
}

/// Appends the encoding of `delegation` to `out`.
fn put_delegation(out: &mut Vec<u8>, delegation: &Delegation)
    ensures
        final(out)@ == old(out)@ + delegation_bytes(*delegation),
{
    put_key(out, &delegation.voter);
    put_u64(out, delegation.stake_lamports);
    put_u64(out, delegation.activation_epoch);
    match delegation.deactivation_epoch {
        Some(epoch) => {
            out.push(1);
            put_u64(out, epoch);
        },
        None => {
            out.push(0);
            put_u64(out, 0);
        },
    }
    put_u64(out, delegation.credits_observed);
    assert(out@ =~= old(out)@ + delegation_bytes(*delegation));
}

/// Reads the authority encoded from `at` on.
pub fn read_authority(data: &[u8], at: usize) -> (authority: Authority)
    requires
        at + AUTHORITY_BYTES <= data@.len(),
    ensures
        authority == authority_at(data@, at as int),
{
    let len = data.len();
    Authority { staker: read_key(data, at), withdrawer: read_key(data, at + KEY_BYTES) }
}

/// Reads the lockup encoded from `at` on.
pub fn read_lockup(data: &[u8], at: usize) -> (lockup: Lockup)
    requires
        at + LOCKUP_BYTES <= data@.len(),
    ensures
        lockup == lockup_at(data@, at as int),
{
    let len = data.len();
    Lockup { epoch: read_u64(data, at), custodian: read_key(data, at + U64_BYTES) }
}

/// Reads the delegation encoded from `at` on, if those bytes encode one.
fn read_delegation(data: &[u8], at: usize) -> (delegation: Option<Delegation>)
    requires
        at + DELEGATION_BYTES <= data@.len(),
    ensures
        delegation == delegation_at(data@, at as int),
{
    let len = data.len();
    let flag_at = at + KEY_BYTES + 2 * U64_BYTES;
    let flag = data[flag_at];
    let epoch = read_u64(data, flag_at + 1);
    let deactivation_epoch = if flag == 1 {
        Some(epoch)
    } else if flag == 0 && epoch == 0 {
        None
    } else {
        return None;
    };
    Some(
        Delegation {
            voter: read_key(data, at),
            stake_lamports: read_u64(data, at + KEY_BYTES),
            activation_epoch: read_u64(data, at + KEY_BYTES + U64_BYTES),
            deactivation_epoch,
            credits_observed: read_u64(data, flag_at + 1 + U64_BYTES),
        },
    )
}

impl StakeAccountState {
    /// The persisted form of the state.
    pub fn serialize(&self) -> (data: Vec<u8>)
        ensures
            data@ == spec_serialize(*self),
    {
        let mut out: Vec<u8> = Vec::new();
        out.push(LAYOUT_VERSION);
        match self {
            StakeAccountState::Uninitialized => {
                out.push(TAG_UNINITIALIZED);
            },
            StakeAccountState::Initialized { authority, lockup } => {
                out.push(TAG_INITIALIZED);
                put_authority(&mut out, authority);
                put_lockup(&mut out, lockup);
            },
            StakeAccountState::Stake { authority, lockup, delegation } => {
                out.push(TAG_STAKE);
                put_authority(&mut out, authority);
                put_lockup(&mut out, lockup);
                put_delegation(&mut out, delegation);
            },
            StakeAccountState::RewardsPool => {
                out.push(TAG_REWARDS_POOL);
            },
        }
        assert(out@ =~= spec_serialize(*self));
        out
    }

    /// The state that `data` is the persisted form of, or `None` where it is
    /// the persisted form of none.
    pub fn deserialize(data: &[u8]) -> (state: Option<StakeAccountState>)
        ensures
            state == spec_deserialize(data@),
    {
        let len = data.len();
        if len < HEADER_BYTES || data[0] != LAYOUT_VERSION {
            return None;
        }
        let tag = data[1];
        if tag == TAG_UNINITIALIZED && len == BARE_STATE_BYTES {
            Some(StakeAccountState::Uninitialized)
        } else if tag == TAG_REWARDS_POOL && len == BARE_STATE_BYTES {
            Some(StakeAccountState::RewardsPool)
        } else if tag == TAG_INITIALIZED && len == INITIALIZED_STATE_BYTES {
            Some(
                StakeAccountState::Initialized {
                    authority: read_authority(data, HEADER_BYTES),
                    lockup: read_lockup(data, HEADER_BYTES + AUTHORITY_BYTES),
                },
            )
        } else if tag == TAG_STAKE && len == STAKE_STATE_BYTES {
            match read_delegation(data, HEADER_BYTES + AUTHORITY_BYTES + LOCKUP_BYTES) {
                Some(delegation) => Some(
                    StakeAccountState::Stake {
                        authority: read_authority(data, HEADER_BYTES),
                        lockup: read_lockup(data, HEADER_BYTES + AUTHORITY_BYTES),
                        delegation,
                    },
                ),
                None => None,
            }
        } else {
            None
        }
    }
}

} // verus!
