//! The choices the slot-based block builder makes in each slot: which failures skip the slot and
//! which stop the builder, and, once the relay chain data is known, whether and where to build.
use vstd::prelude::*;
use crate::slot_timing::{allowed_pov_size, core_for_selector};

verus! {

/// The steps of building a block in one slot, in order.
#[derive(PartialEq, Eq, Structural, Clone, Copy, Debug)]
pub enum BuilderStep {
    /// Waiting for the next slot.
    WaitSlot,
    /// Finding the parachain block to build on.
    FindParent,
    /// Fetching the core selector from the runtime.
    CoreSelector,
    /// Fetching the relay chain data of the relay parent.
    RelayChainData,
    /// Reading the relay parent's BABE slot.
    RelaySlot,
    /// Claiming the slot.
    ClaimSlot,
    /// Creating the inherent data.
    InherentData,
    /// Fetching the validation code hash of the parent.
    ValidationCodeHash,
    /// Building and importing the block.
    BuildBlock,
    /// Handing the block to the collation task.
    SendCollation,
}

/// What the builder does when a step fails.
#[derive(PartialEq, Eq, Structural, Clone, Copy, Debug)]
pub enum OnFailure {
    /// Give up this slot and wait for the next.
    SkipSlot,
    /// Stop the builder.
    StopTask,
}

/// The steps whose failure stops the builder: the slot timer, the inherent data, the validation
/// code hash, and handing the block on.
pub open spec fn stops_builder(step: BuilderStep) -> bool {
    ||| step == BuilderStep::WaitSlot
    ||| step == BuilderStep::InherentData
    ||| step == BuilderStep::ValidationCodeHash
    ||| step == BuilderStep::SendCollation
}

/// What the builder does when `step` fails: it stops where `stops_builder` says so, and skips
/// the slot otherwise.
pub fn on_step_failure(step: BuilderStep) -> (r: OnFailure)
    ensures
        r == (if stops_builder(step) { OnFailure::StopTask } else { OnFailure::SkipSlot }),
{
    match step {
        BuilderStep::WaitSlot | BuilderStep::InherentData | BuilderStep::ValidationCodeHash
        | BuilderStep::SendCollation => OnFailure::StopTask,
        _ => OnFailure::SkipSlot,
    }
}

/// Whether and where to build, once the relay chain data is known.
#[derive(PartialEq, Eq, Structural, Clone, Copy, Debug)]
pub enum SlotPlan {
    /// The parachain has no scheduled core: skip the slot.
    Skip,
    /// Build for this core, with this much proof size allowed.
    Build { core_index: u32, allowed_pov_size: usize },
}

/// The plan for a slot: skip where no core is scheduled; else build for the core that the core
/// selector picks (the selector modulo the number of scheduled cores), with the allowed proof
/// size of the relay parent's maximum.
pub fn plan_slot(core_selector: u8, scheduled_cores: &Vec<u32>, max_pov_size: u32, full_pov_size: bool) -> (r: SlotPlan)
    ensures
        scheduled_cores@.len() == 0 ==> r == SlotPlan::Skip,
        scheduled_cores@.len() > 0 ==> r == (SlotPlan::Build {
            core_index: scheduled_cores@[(core_selector as int) % (scheduled_cores@.len() as int)],
            allowed_pov_size: (if full_pov_size { max_pov_size as int } else { max_pov_size as int / 2 }) as usize,
        }),
{
    match core_for_selector(core_selector, scheduled_cores) {
        None => SlotPlan::Skip,
        Some(core_index) => SlotPlan::Build { core_index, allowed_pov_size: allowed_pov_size(max_pov_size, full_pov_size) },
    }
}

} // verus!
