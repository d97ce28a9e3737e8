//! The delegation engine: how much of a delegation counts towards consensus
//! in a given epoch.
//!
//! Stake does not become effective, or stop being effective, at once. Each
//! epoch the cluster as a whole may move at most a quarter of its effective
//! stake in either direction, and a delegation gets its share of that room
//! in proportion to what it still has to move. The figures of each epoch come
//! from the stake history; an epoch that the history does not hold puts no
//! limit on the move.
//!
//! A delegation takes its first step towards being effective in the epoch
//! of its activation. In the epoch of its deactivation it counts as it did
//! before, and it takes its first step away in the epoch after.
//!
//! Every quantity is an integer and every division rounds down.

use crate::history::{lookup, Epoch, StakeHistory, StakeHistoryEntry};
use crate::pubkey::PublicKeyId;
use vstd::prelude::*;

verus! {

/// The cluster moves at most one part in this many of its effective stake
/// per epoch.
pub const RATE_DIVISOR: u64 = 4;

/// The association of a stake account's lamports with one vote account.
#[derive(Clone, Copy, Debug, PartialEq, Eq)]
pub struct Delegation {
    /// The vote account that the stake is delegated to.
    pub voter: PublicKeyId,
    /// The lamports delegated.
    pub stake_lamports: u64,
    /// The epoch in which the delegation was made.
    pub activation_epoch: Epoch,
    /// The epoch in which the delegation was deactivated, if it was.
    pub deactivation_epoch: Option<Epoch>,
    /// The vote account's credit counter at the last redemption.
    pub credits_observed: u64,
}

/// How much of `pending` moves in an epoch in which the cluster had
/// `cluster_effective` effective stake and `cluster_moving` stake waiting to
/// move the same way: the share `pending / cluster_moving` of a quarter of
/// `cluster_effective`, rounded down, but at least one lamport and at most
/// `pending`. With nothing recorded as waiting, all of `pending` moves.
pub open spec fn converted(pending: nat, cluster_effective: nat, cluster_moving: nat) -> nat {
    if pending == 0 {
        0
    } else if cluster_moving == 0 {
        pending
    } else {
        let share = (pending * cluster_effective) / (RATE_DIVISOR as nat * cluster_moving);
        if share < 1 {
            1
        } else if share > pending {
            pending
        } else {
            share as nat
        }
    }
}

/// How much of `pending` becomes effective in the epoch that `entry` records.
pub open spec fn warmup_step(pending: nat, entry: Option<StakeHistoryEntry>) -> nat {
    match entry {
        Some(e) => converted(pending, e.effective_stake as nat, e.activating_stake as nat),
        None => pending,
    }
}

/// How much of `current` stops being effective in the epoch that `entry`
/// records.
pub open spec fn cooldown_step(current: nat, entry: Option<StakeHistoryEntry>) -> nat {
    match entry {
        Some(e) => converted(current, e.effective_stake as nat, e.deactivating_stake as nat),
        None => current,
    }
}

/// The effective part of `stake` lamports in `epoch`, activated in
/// `activation` and never deactivated: nothing before `activation`, and
/// from then on each epoch adds its step.
pub open spec fn warmed(stake: nat, activation: int, entries: Seq<StakeHistoryEntry>, epoch: int) -> nat
    decreases epoch - activation + 1,
{
    if epoch < activation {
        0
    } else {
        let before = warmed(stake, activation, entries, epoch - 1);
        before + warmup_step((stake - before) as nat, lookup(entries, epoch))
    }
}

/// What is left effective in `epoch` of `peak` lamports that were effective
/// in `deactivation`, the epoch of deactivation: each later epoch takes its
/// step away.
pub open spec fn cooled(peak: nat, deactivation: int, entries: Seq<StakeHistoryEntry>, epoch: int) -> nat
    decreases epoch - deactivation,
{
    if epoch <= deactivation {
        peak
    } else {
        let before = cooled(peak, deactivation, entries, epoch - 1);
        (before - cooldown_step(before, lookup(entries, epoch))) as nat
    }
}

/// The effective stake of `delegation` in `epoch`: it warms up from the epoch
/// of activation, and cools down from what it had reached in the epoch of
/// deactivation.
pub open spec fn spec_effective_stake(
    delegation: Delegation,
    epoch: int,
    entries: Seq<StakeHistoryEntry>,
) -> nat {
    let stake = delegation.stake_lamports as nat;
    let activation = delegation.activation_epoch as int;
    match delegation.deactivation_epoch {
        Some(deactivation) if epoch >= deactivation => cooled(
            warmed(stake, activation, entries, deactivation as int),
            deactivation as int,
            entries,
            epoch,
        ),
        _ => warmed(stake, activation, entries, epoch),
    }
}

/// A step never moves more than there is to move, and moves something
/// whenever there is anything to move.
pub proof fn lemma_converted_bounds(pending: nat, cluster_effective: nat, cluster_moving: nat)
    ensures
        converted(pending, cluster_effective, cluster_moving) <= pending,
        pending > 0 ==> converted(pending, cluster_effective, cluster_moving) >= 1,
{
}

/// Warm-up never exceeds the delegated stake and never loses ground.
pub proof fn lemma_warmed_bounds(stake: nat, activation: int, entries: Seq<StakeHistoryEntry>, epoch: int)
    ensures
        warmed(stake, activation, entries, epoch) <= stake,
        warmed(stake, activation, entries, epoch - 1) <= warmed(stake, activation, entries, epoch),
    decreases epoch - activation + 1,
{
    if epoch >= activation {
        lemma_warmed_bounds(stake, activation, entries, epoch - 1);
        let before = warmed(stake, activation, entries, epoch - 1);
        match lookup(entries, epoch) {
            Some(e) => lemma_converted_bounds(
                (stake - before) as nat,
                e.effective_stake as nat,
                e.activating_stake as nat,
            ),
            None => {},
        }
    }
}

/// Warm-up is non-decreasing in the epoch.
pub proof fn lemma_warmed_monotonic(
    stake: nat,
    activation: int,
    entries: Seq<StakeHistoryEntry>,
    earlier: int,
    later: int,
)
    requires
        earlier <= later,
    ensures
        warmed(stake, activation, entries, earlier) <= warmed(stake, activation, entries, later),
    decreases later - earlier,
{
    if earlier < later {
        lemma_warmed_monotonic(stake, activation, entries, earlier, later - 1);
        lemma_warmed_bounds(stake, activation, entries, later);
    }
}

/// Once all of the stake is effective it stays so.
pub proof fn lemma_warmed_stays_full(
    stake: nat,
    activation: int,
    entries: Seq<StakeHistoryEntry>,
    earlier: int,
    later: int,
)
    requires
        earlier <= later,
        warmed(stake, activation, entries, earlier) == stake,
    ensures
        warmed(stake, activation, entries, later) == stake,
{
    lemma_warmed_monotonic(stake, activation, entries, earlier, later);
    lemma_warmed_bounds(stake, activation, entries, later);
}

/// Cool-down never exceeds the peak and never gains ground.
pub proof fn lemma_cooled_bounds(peak: nat, deactivation: int, entries: Seq<StakeHistoryEntry>, epoch: int)
    ensures
        cooled(peak, deactivation, entries, epoch) <= peak,
        cooled(peak, deactivation, entries, epoch) <= cooled(peak, deactivation, entries, epoch - 1),
    decreases epoch - deactivation,
{
    if epoch > deactivation {
        lemma_cooled_bounds(peak, deactivation, entries, epoch - 1);
        let before = cooled(peak, deactivation, entries, epoch - 1);
        match lookup(entries, epoch) {
            Some(e) => lemma_converted_bounds(before, e.effective_stake as nat, e.deactivating_stake as nat),
            None => {},
        }
    }
}

/// Cool-down is non-increasing in the epoch.
pub proof fn lemma_cooled_monotonic(
    peak: nat,
    deactivation: int,
    entries: Seq<StakeHistoryEntry>,
    earlier: int,
    later: int,
)
    requires
        earlier <= later,
    ensures
        cooled(peak, deactivation, entries, later) <= cooled(peak, deactivation, entries, earlier),
    decreases later - earlier,
{
    if earlier < later {
        lemma_cooled_monotonic(peak, deactivation, entries, earlier, later - 1);
        lemma_cooled_bounds(peak, deactivation, entries, later);
    }
}

/// The effective stake never exceeds the delegated stake.
pub proof fn lemma_effective_stake_bounded(delegation: Delegation, epoch: int, entries: Seq<StakeHistoryEntry>)
    ensures
        spec_effective_stake(delegation, epoch, entries) <= delegation.stake_lamports,
{
    let stake = delegation.stake_lamports as nat;
    let activation = delegation.activation_epoch as int;
    lemma_warmed_bounds(stake, activation, entries, epoch);
    match delegation.deactivation_epoch {
        Some(deactivation) => {
            lemma_warmed_bounds(stake, activation, entries, deactivation as int);
            lemma_cooled_bounds(
                warmed(stake, activation, entries, deactivation as int),
                deactivation as int,
                entries,
                epoch,
            );
        },
        None => {},
    }
}

/// A delegation of at least one lamport has effective stake from the epoch
/// of its activation up to and including that of its deactivation: the
/// first step is taken at once, and no step moves less than a lamport.
pub proof fn lemma_active_stake_is_positive(delegation: Delegation, epoch: int, entries: Seq<StakeHistoryEntry>)
    requires
        delegation.stake_lamports > 0,
        delegation.activation_epoch <= epoch,
        delegation.deactivation_epoch matches Some(deactivation) ==> epoch <= deactivation,
    ensures
        spec_effective_stake(delegation, epoch, entries) >= 1,
{
    let stake = delegation.stake_lamports as nat;
    let activation = delegation.activation_epoch as int;
    assert(warmed(stake, activation, entries, activation - 1) == 0);
    match lookup(entries, activation) {
        Some(e) => lemma_converted_bounds(stake, e.effective_stake as nat, e.activating_stake as nat),
        None => {},
    }
    assert(warmed(stake, activation, entries, activation) >= 1);
    lemma_warmed_monotonic(stake, activation, entries, activation, epoch);
}

/// Up to and including the epoch of deactivation, or for ever where the
/// delegation was not deactivated, the effective stake is non-decreasing in
/// the epoch.
pub proof fn lemma_effective_stake_rises(
    delegation: Delegation,
    entries: Seq<StakeHistoryEntry>,
    earlier: int,
    later: int,
)
    requires
        earlier <= later,
        delegation.deactivation_epoch matches Some(deactivation) ==> later <= deactivation,
    ensures
        spec_effective_stake(delegation, earlier, entries) <= spec_effective_stake(
            delegation,
            later,
            entries,
        ),
{
    lemma_warmed_monotonic(
        delegation.stake_lamports as nat,
        delegation.activation_epoch as int,
        entries,
        earlier,
        later,
    );
}

/// From the epoch of deactivation on, the effective stake is non-increasing
/// in the epoch.
pub proof fn lemma_effective_stake_falls(
    delegation: Delegation,
    entries: Seq<StakeHistoryEntry>,
    earlier: int,
    later: int,
)
    requires
        delegation.deactivation_epoch matches Some(deactivation) && deactivation <= earlier,
        earlier <= later,
    ensures
        spec_effective_stake(delegation, later, entries) <= spec_effective_stake(
            delegation,
            earlier,
            entries,
        ),
{
    let deactivation = delegation.deactivation_epoch->0 as int;
    let peak = warmed(
        delegation.stake_lamports as nat,
        delegation.activation_epoch as int,
        entries,
        deactivation,
    );
    lemma_cooled_monotonic(peak, deactivation, entries, earlier, later);
}

/// A deactivated delegation has no effective stake in any epoch after that
/// of deactivation that the history does not hold, nor in any epoch after
/// such a one. A history holds finitely many epochs, so every deactivated
/// delegation reaches zero and stays there.
pub proof fn lemma_effective_stake_ends_at_zero(
    delegation: Delegation,
    entries: Seq<StakeHistoryEntry>,
    unrecorded: int,
    later: int,
)
    requires
        delegation.deactivation_epoch matches Some(deactivation) && deactivation < unrecorded,
        lookup(entries, unrecorded) is None,
        unrecorded <= later,
    ensures
        spec_effective_stake(delegation, later, entries) == 0,
{
    lemma_effective_stake_falls(delegation, entries, unrecorded, later);
}

/// The first epoch from which on a deactivated delegation is sure to have no
/// effective stake left: the one after both the epoch of deactivation and the
/// newest epoch on record.
pub open spec fn cooldown_horizon(deactivation: int, entries: Seq<StakeHistoryEntry>) -> int {
    if entries.len() > 0 && entries[0].epoch + entries.len() > deactivation + 1 {
        entries[0].epoch + entries.len()
    } else {
        deactivation + 1
    }
}

/// Every deactivated delegation has no effective stake from its horizon on.
pub proof fn lemma_effective_stake_zero_from_horizon(
    delegation: Delegation,
    entries: Seq<StakeHistoryEntry>,
    epoch: int,
)
    requires
        delegation.deactivation_epoch matches Some(deactivation) && cooldown_horizon(
            deactivation as int,
            entries,
        ) <= epoch,
    ensures
        spec_effective_stake(delegation, epoch, entries) == 0,
{
    let deactivation = delegation.deactivation_epoch->0 as int;
    lemma_effective_stake_ends_at_zero(delegation, entries, cooldown_horizon(deactivation, entries), epoch);
}

/// One step of `pending` lamports against the recorded cluster figures.
fn convert(pending: u64, cluster_effective: u64, cluster_moving: u64) -> (moved: u64)
    ensures
        moved == converted(pending as nat, cluster_effective as nat, cluster_moving as nat),
{
    if pending == 0 {
        return 0;
    }
    if cluster_moving == 0 {
        return pending;
    }
    assert(pending as u128 * cluster_effective as u128 <= 0xffff_ffff_ffff_ffff * 0xffff_ffff_ffff_ffff)
        by (nonlinear_arith)
        requires
            pending <= 0xffff_ffff_ffff_ffff,
            cluster_effective <= 0xffff_ffff_ffff_ffff,
    ;
    let product: u128 = pending as u128 * cluster_effective as u128;
    assert(RATE_DIVISOR as u128 * cluster_moving as u128 == 4 * cluster_moving);
    let room: u128 = RATE_DIVISOR as u128 * cluster_moving as u128;
    let share: u128 = product / room;
    if share < 1 {
        1
    } else if share > pending as u128 {
        pending
    } else {
        share as u64
    }
}

/// Epochs that are all on record are no more than the history holds.
proof fn lemma_recorded_run(entries: Seq<StakeHistoryEntry>, from: int, to: int)
    requires
        from <= to,
        forall|epoch: int| from <= epoch < to ==> lookup(entries, epoch) is Some,
    ensures
        to - from <= entries.len(),
{
    if from < to {
        assert(lookup(entries, from) is Some);
        assert(lookup(entries, to - 1) is Some);
    }
}

/// The effective part of `stake` in `until`, warming up since `activation`.
/// The walk ends with the first epoch that is not on record, if not before:
/// it takes no more steps than the history holds epochs, plus one.
fn warm_up(stake: u64, activation: Epoch, until: Epoch, history: &StakeHistory) -> (effective: u64)
    ensures
        effective == warmed(stake as nat, activation as int, history@, until as int),
{
    if until < activation {
        return 0;
    }
    let mut effective: u64 = 0;
    let mut epoch: Epoch = activation;
    loop
        invariant_except_break
            effective == warmed(stake as nat, activation as int, history@, epoch - 1),
        invariant
            activation <= epoch <= until,
            effective <= stake,
            forall|walked: int| activation <= walked < epoch ==> lookup(history@, walked) is Some,
            epoch - activation <= history@.len(),
        ensures
            effective == warmed(stake as nat, activation as int, history@, until as int),
        decreases until - epoch,
    {
        let pending: u64 = stake - effective;
        let step: u64 = match history.get(epoch) {
            Some(entry) => convert(pending, entry.effective_stake, entry.activating_stake),
            None => pending,
        };
        proof {
            lemma_warmed_bounds(stake as nat, activation as int, history@, epoch as int);
        }
        effective = effective + step;
        if epoch >= until || effective >= stake {
            proof {
                if effective >= stake {
                    lemma_warmed_stays_full(
                        stake as nat,
                        activation as int,
                        history@,
                        epoch as int,
                        until as int,
                    );
                }
            }
            break ;
        }
        epoch = epoch + 1;
        proof {
            lemma_recorded_run(history@, activation as int, epoch as int);
        }
    }
    effective
}

/// What is left in `until` of `peak`, cooling down since `deactivation`.
/// The walk ends with the first epoch that is not on record, if not before:
/// it takes no more steps than the history holds epochs, plus one.
fn cool_down(peak: u64, deactivation: Epoch, until: Epoch, history: &StakeHistory) -> (effective: u64)
    requires
        deactivation <= until,
    ensures
        effective == cooled(peak as nat, deactivation as int, history@, until as int),
{
    let mut effective: u64 = peak;
    let mut epoch: Epoch = deactivation;
    while epoch < until && effective > 0
        invariant
            deactivation <= epoch <= until,
            effective == cooled(peak as nat, deactivation as int, history@, epoch as int),
            effective > 0 ==> forall|walked: int|
                deactivation < walked <= epoch ==> lookup(history@, walked) is Some,
            epoch - deactivation <= history@.len() + 1,
        decreases until - epoch,
    {
        proof {
            lemma_recorded_run(history@, deactivation + 1, epoch + 1);
        }
        epoch = epoch + 1;
        let step: u64 = match history.get(epoch) {
            Some(entry) => convert(effective, entry.effective_stake, entry.deactivating_stake),
            None => effective,
        };
        proof {
            lemma_cooled_bounds(peak as nat, deactivation as int, history@, epoch as int);
        }
        effective = effective - step;
    }
    proof {
        lemma_cooled_monotonic(peak as nat, deactivation as int, history@, epoch as int, until as int);
    }
    effective
}

/// The stake of `delegation` that counts towards consensus in
/// `target_epoch`, given the cluster's `history`. However far apart the
/// epochs lie, it walks no more of them than the history holds, plus one
/// for each direction.
pub fn effective_stake(delegation: &Delegation, target_epoch: Epoch, history: &StakeHistory) -> (stake: u64)
    ensures
        stake == spec_effective_stake(*delegation, target_epoch as int, history@),
        stake <= delegation.stake_lamports,
{
    proof {
        lemma_effective_stake_bounded(*delegation, target_epoch as int, history@);
    }
    match delegation.deactivation_epoch {
        Some(deactivation) => {
            if target_epoch >= deactivation {
                let peak = warm_up(
                    delegation.stake_lamports,
                    delegation.activation_epoch,
                    deactivation,
                    history,
                );
                cool_down(peak, deactivation, target_epoch, history)
            } else {
                warm_up(delegation.stake_lamports, delegation.activation_epoch, target_epoch, history)
            }
        },
        None => warm_up(delegation.stake_lamports, delegation.activation_epoch, target_epoch, history),
    }
}

} // verus!
