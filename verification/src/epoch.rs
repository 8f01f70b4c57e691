//! The absolute slot window of an epoch, seen from a snapshot of the
//! cluster's current position.

use vstd::prelude::*;

verus! {

/// Where the cluster stands in its epoch schedule.
#[derive(Clone, Copy, Debug, PartialEq, Eq)]
pub struct EpochInfo {
    /// The current epoch.
    pub epoch: u64,
    /// The most recent slot the node has observed.
    pub absolute_slot: u64,
    /// Offset of `absolute_slot` within the current epoch.
    pub slot_index: u64,
    /// Number of slots in the current epoch.
    pub slots_in_epoch: u64,
}

/// An epoch was asked for that the cluster has not reached yet.
#[derive(Clone, Copy, Debug, PartialEq, Eq)]
pub struct FutureEpoch {
    /// The epoch that was asked for.
    pub requested: u64,
    /// The cluster's epoch at the time of the request.
    pub current: u64,
}

impl EpochInfo {
    /// The slot index lies inside the epoch, so the epoch is not empty.
    pub open spec fn wf(&self) -> bool {
        self.slot_index < self.slots_in_epoch
    }

    /// First slot of epoch `target`, assuming every epoch back to it has the
    /// current length. Zero when the chain is younger than that.
    pub open spec fn first_slot(&self, target: u64) -> int
        recommends
            target <= self.epoch,
    {
        let raw = self.absolute_slot - self.slot_index - (self.epoch - target)
            * self.slots_in_epoch;
        if raw < 0 {
            0
        } else {
            raw
        }
    }

    /// Last slot to query for epoch `target`: one epoch length past the
    /// first slot, but never beyond what the node has observed.
    pub open spec fn last_slot(&self, target: u64) -> int
        recommends
            target <= self.epoch,
    {
        let end = self.first_slot(target) + self.slots_in_epoch;
        if end < self.absolute_slot {
            end
        } else {
            self.absolute_slot as int
        }
    }

    /// The snapshot is usable: its slot index lies inside the epoch.
    pub fn is_well_formed(&self) -> (ok: bool)
        ensures
            ok == self.wf(),
    {
        self.slot_index < self.slots_in_epoch
    }
}

/// Resolves the slot window `(first_slot, last_slot)` of `target_epoch`.
///
/// Fails exactly when `target_epoch` lies after the current epoch.
pub fn epoch_slot_range(epoch_info: &EpochInfo, target_epoch: u64) -> (window: Result<
    (u64, u64),
    FutureEpoch,
>)
    ensures
        window is Err <==> target_epoch > epoch_info.epoch,
        window matches Err(e) ==> e.requested == target_epoch && e.current == epoch_info.epoch,
        window matches Ok((first, last)) ==> first == epoch_info.first_slot(target_epoch) && last
            == epoch_info.last_slot(target_epoch),
{
    if target_epoch > epoch_info.epoch {
        return Err(FutureEpoch { requested: target_epoch, current: epoch_info.epoch });
    }
    let epochs_back: u64 = epoch_info.epoch - target_epoch;
    let epoch_start: u64 = epoch_info.absolute_slot.saturating_sub(epoch_info.slot_index);
    assert(epochs_back as u128 * epoch_info.slots_in_epoch as u128 <= 0xffff_ffff_ffff_ffff
        * 0xffff_ffff_ffff_ffff) by (nonlinear_arith)
        requires
            epochs_back <= 0xffff_ffff_ffff_ffff,
            epoch_info.slots_in_epoch <= 0xffff_ffff_ffff_ffff,
    ;
    let slots_back: u128 = epochs_back as u128 * epoch_info.slots_in_epoch as u128;
    let first: u64 = if slots_back >= epoch_start as u128 {
        0
    } else {
        epoch_start - slots_back as u64
    };
    let end: u64 = first.saturating_add(epoch_info.slots_in_epoch);
    let last: u64 = if end < epoch_info.absolute_slot {
        end
    } else {
        epoch_info.absolute_slot
    };
    Ok((first, last))
}

/// The window never reaches past the newest observed slot, and it is never
/// inverted.
pub proof fn lemma_window_within_observed(epoch_info: EpochInfo, target_epoch: u64)
    requires
        target_epoch <= epoch_info.epoch,
    ensures
        0 <= epoch_info.first_slot(target_epoch) <= epoch_info.last_slot(target_epoch)
            <= epoch_info.absolute_slot,
{
    assert((epoch_info.epoch - target_epoch) * epoch_info.slots_in_epoch >= 0)
        by (nonlinear_arith)
        requires
            epoch_info.epoch - target_epoch >= 0,
            epoch_info.slots_in_epoch >= 0,
    ;
}

/// Seen from an epoch whose start lies at least one epoch length into the
/// chain, the window of the previous epoch is exactly one epoch long.
pub proof fn lemma_previous_epoch_width(epoch_info: EpochInfo)
    requires
        epoch_info.epoch >= 1,
        epoch_info.absolute_slot - epoch_info.slot_index >= epoch_info.slots_in_epoch,
    ensures
        epoch_info.last_slot((epoch_info.epoch - 1) as u64) - epoch_info.first_slot(
            (epoch_info.epoch - 1) as u64,
        ) == epoch_info.slots_in_epoch,
{
    let target = (epoch_info.epoch - 1) as u64;
    assert((epoch_info.epoch - target) * epoch_info.slots_in_epoch == epoch_info.slots_in_epoch)
        by (nonlinear_arith)
        requires
            epoch_info.epoch - target == 1,
    ;
}

} // verus!
